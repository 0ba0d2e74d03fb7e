//! Visitors over numbers of an open set of kinds: whatever can accept a
//! visitor is a number, and it hands itself to the handler for its kind.
//!
//! The library computes with the whole numbers only. A number of the other
//! kind that the handlers know is of a type `F` that the library moves and
//! never reads.

use vstd::prelude::*;

verus! {

/// A whole number.
#[derive(Debug, Clone, Copy, PartialEq, Eq, Structural)]
pub struct Int(pub i32);

/// An operation over numbers, with one handler for each kind of number.
///
/// Each handler says which numbers it can take, and how the visitor and the
/// number that it was given stand after it. The specification functions are
/// never run: an implementation in unverified code may give them any body.
pub trait Visitor<F>: Sized {
    /// Whether the handler for whole numbers can take `whole`.
    spec fn admits_int(&self, whole: Int) -> bool;

    /// Whether the handler for whole numbers, given `whole`, may leave the
    /// visitor as `after` and the number as `whole_after`.
    spec fn int_visit(&self, whole: Int, after: Self, whole_after: Int) -> bool;

    /// Whether the handler for the other kind can take `float`.
    spec fn admits_float(&self, float: F) -> bool;

    /// Whether the handler for the other kind, given `float`, may leave the
    /// visitor as `after` and the number as `float_after`.
    spec fn float_visit(&self, float: F, after: Self, float_after: F) -> bool;

    /// The handler for whole numbers.
    fn visit_int(&mut self, whole: &mut Int)
        requires
            old(self).admits_int(*old(whole)),
        ensures
            old(self).int_visit(*old(whole), *final(self), *final(whole)),
    ;

    /// The handler for numbers of the other kind.
    fn visit_float(&mut self, float: &mut F)
        requires
            old(self).admits_float(*old(float)),
        ensures
            old(self).float_visit(*old(float), *final(self), *final(float)),
    ;
}

/// A number as the handlers see it: the handler that it goes to, with the
/// value that it shows to it.
pub enum Kind<F> {
    Int(Int),
    Float(F),
}

/// Whether `visitor` can take a number of kind `kind`: the handler for that
/// kind admits it.
pub open spec fn admits<F, V: Visitor<F>>(visitor: V, kind: Kind<F>) -> bool {
    match kind {
        Kind::Int(whole) => visitor.admits_int(whole),
        Kind::Float(float) => visitor.admits_float(float),
    }
}

/// Whether `visitor`, given a number of kind `kind`, may end as `after` with
/// the number as `kind_after`: the handler for the number's kind ran, and the
/// number is of the kind that it was.
pub open spec fn visit<F, V: Visitor<F>>(
    visitor: V,
    kind: Kind<F>,
    after: V,
    kind_after: Kind<F>,
) -> bool {
    match kind {
        Kind::Int(whole) => kind_after matches Kind::Int(whole_after) && visitor.int_visit(
            whole,
            after,
            whole_after,
        ),
        Kind::Float(float) => kind_after matches Kind::Float(float_after) && visitor.float_visit(
            float,
            after,
            float_after,
        ),
    }
}

/// What can be visited as a number.
pub trait Number<F> {
    /// The number as the handlers see it.
    spec fn kind(&self) -> Kind<F>;

    /// Hands the number to the handler that `visitor` keeps for its kind.
    fn accept<V: Visitor<F>>(&mut self, visitor: &mut V)
        requires
            admits(*old(visitor), old(self).kind()),
        ensures
            visit(*old(visitor), old(self).kind(), *final(visitor), final(self).kind()),
    ;
}

impl<F> Number<F> for Int {
    open spec fn kind(&self) -> Kind<F> {
        Kind::Int(*self)
    }

    fn accept<V: Visitor<F>>(&mut self, visitor: &mut V) {
        visitor.visit_int(self);
    }
}

/// A visitor that raises every whole number by a fixed step.
pub struct Increaser {
    step: u16,
}

/// A visitor that lowers every whole number by a fixed step.
pub struct Decreaser {
    step: u16,
}

impl Increaser {
    /// The step by which this visitor raises.
    pub closed spec fn spec_step(&self) -> u16 {
        self.step
    }

    /// The step by which this visitor raises.
    #[verifier::when_used_as_spec(spec_step)]
    pub fn step(&self) -> (r: u16)
        ensures
            r == self.step(),
    {
        self.step
    }

    /// Whether `whole` can be raised by the step: the sum is an `i32`.
    pub open spec fn admits(&self, whole: Int) -> bool {
        whole.0 + self.step() <= i32::MAX
    }

    /// `whole` raised by the step.
    pub open spec fn raised(&self, whole: Int) -> Int {
        Int((whole.0 + self.step()) as i32)
    }

    /// A visitor that raises by `step`.
    pub fn new(step: u16) -> (r: Self)
        ensures
            r.step() == step,
    {
        Increaser { step }
    }

    /// The handler for whole numbers: raises `whole` by the step.
    pub fn visit_int(&mut self, whole: &mut Int)
        requires
            old(self).admits(*old(whole)),
        ensures
            *final(whole) == old(self).raised(*old(whole)),
            *final(self) == *old(self),
    {
        whole.0 += self.step as i32;
    }
}

impl Decreaser {
    /// The step by which this visitor lowers.
    pub closed spec fn spec_step(&self) -> u16 {
        self.step
    }

    /// The step by which this visitor lowers.
    #[verifier::when_used_as_spec(spec_step)]
    pub fn step(&self) -> (r: u16)
        ensures
            r == self.step(),
    {
        self.step
    }

    /// Whether `whole` can be lowered by the step: the difference is an `i32`.
    pub open spec fn admits(&self, whole: Int) -> bool {
        whole.0 - self.step() >= i32::MIN
    }

    /// `whole` lowered by the step.
    pub open spec fn lowered(&self, whole: Int) -> Int {
        Int((whole.0 - self.step()) as i32)
    }

    /// A visitor that lowers by `step`.
    pub fn new(step: u16) -> (r: Self)
        ensures
            r.step() == step,
    {
        Decreaser { step }
    }

    /// The handler for whole numbers: lowers `whole` by the step.
    pub fn visit_int(&mut self, whole: &mut Int)
        requires
            old(self).admits(*old(whole)),
        ensures
            *final(whole) == old(self).lowered(*old(whole)),
            *final(self) == *old(self),
    {
        whole.0 -= self.step as i32;
    }
}

/// Raising a whole number by a step and then lowering it by the same step
/// gives the number back: the lowering is always possible then.
pub proof fn law_raise_then_lower(increaser: Increaser, decreaser: Decreaser, whole: Int)
    requires
        increaser.step() == decreaser.step(),
        increaser.admits(whole),
    ensures
        decreaser.admits(increaser.raised(whole)),
        decreaser.lowered(increaser.raised(whole)) == whole,
{
}

/// A visitor that folds the numbers it meets into one value: each handler
/// puts in place of the value what the combining function makes of the value
/// and the number as the handlers see it.
pub struct Accumulator<T, Op> {
    acc: T,
    op: Op,
}

impl<T, Op> Accumulator<T, Op> {
    /// The value folded so far.
    pub closed spec fn value(&self) -> T {
        self.acc
    }

    /// The combining function.
    pub closed spec fn combiner(&self) -> Op {
        self.op
    }

    /// A visitor that starts from `init` and combines with `op`.
    pub fn new(init: T, op: Op) -> (r: Self)
        ensures
            r.value() == init,
            r.combiner() == op,
    {
        Accumulator { acc: init, op }
    }

    /// The value folded so far.
    pub fn result(&self) -> (r: &T)
        ensures
            *r == self.value(),
    {
        &self.acc
    }
}

/// Whether folding a number of kind `kind` into `before` may give `after`:
/// the combining function of `before`, called on its value and the number,
/// may return the value of `after`, and the function stays.
pub open spec fn folds<T, F, Op: Fn(&T, &Kind<F>) -> T>(
    before: Accumulator<T, Op>,
    kind: Kind<F>,
    after: Accumulator<T, Op>,
) -> bool {
    &&& call_ensures(before.combiner(), (&before.value(), &kind), after.value())
    &&& after.combiner() == before.combiner()
}

impl<T, F: Copy, Op: Fn(&T, &Kind<F>) -> T> Visitor<F> for Accumulator<T, Op> {
    open spec fn admits_int(&self, whole: Int) -> bool {
        call_requires(self.combiner(), (&self.value(), &Kind::<F>::Int(whole)))
    }

    open spec fn int_visit(&self, whole: Int, after: Self, whole_after: Int) -> bool {
        whole_after == whole && folds(*self, Kind::<F>::Int(whole), after)
    }

    open spec fn admits_float(&self, float: F) -> bool {
        call_requires(self.combiner(), (&self.value(), &Kind::Float(float)))
    }

    open spec fn float_visit(&self, float: F, after: Self, float_after: F) -> bool {
        float_after == float && folds(*self, Kind::Float(float), after)
    }

    fn visit_int(&mut self, whole: &mut Int) {
        self.acc = (self.op)(&self.acc, &Kind::Int(*whole));
    }

    fn visit_float(&mut self, float: &mut F) {
        self.acc = (self.op)(&self.acc, &Kind::Float(*float));
    }
}

} // verus!
