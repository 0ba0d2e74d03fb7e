//! Double dispatch: an element hands itself to the handler that a visitor
//! keeps for the element's kind, and a composite element first sends the
//! visitor through its children, oldest first.

pub mod exam1;
pub mod exam2;
pub mod exam3;

use vstd::prelude::*;

verus! {

/// What an element is, as a mathematical tree.
pub ghost enum Shape {
    /// An element of kind A.
    A,
    /// An element of kind B.
    B,
    /// A composite element with these children, oldest first.
    Composite(Seq<Shape>),
}

/// An operation over elements, with one handler for each kind of element.
///
/// Each handler takes the visitor from one state to the next and leaves the
/// element as it was. The specification functions are never run: an
/// implementation in unverified code may give them any body.
pub trait Visitor {
    /// What the handlers work on, as a mathematical value.
    type State;

    /// The state that the visitor is in.
    spec fn state(&self) -> Self::State;

    /// The state that follows `state` when an element of kind A is met.
    spec fn after_element_a(state: Self::State) -> Self::State;

    /// The state that follows `state` when an element of kind B is met.
    spec fn after_element_b(state: Self::State) -> Self::State;

    /// The state that follows `state` when the composite element `composite`
    /// is met, its children having been visited before.
    spec fn after_composite_element(state: Self::State, composite: Shape) -> Self::State;

    /// The handler for elements of kind A.
    fn visit_element_a(&mut self, element: &mut ElementA)
        ensures
            final(self).state() == Self::after_element_a(old(self).state()),
    ;

    /// The handler for elements of kind B.
    fn visit_element_b(&mut self, element: &mut ElementB)
        ensures
            final(self).state() == Self::after_element_b(old(self).state()),
    ;

    /// The handler for composite elements.
    fn visit_composite_element(&mut self, element: &mut CompositeElement)
        ensures
            final(self).state() == Self::after_composite_element(old(self).state(), old(element)@),
            final(element)@ == old(element)@,
    ;
}

/// The state in which a visitor of type `V` leaves the element `shape` that it
/// entered in `state`: depth first, the children of a composite in their
/// order, and the composite itself after the last of them.
pub open spec fn walk<V: Visitor>(state: V::State, shape: Shape) -> V::State
    decreases shape, 1int,
{
    match shape {
        Shape::A => V::after_element_a(state),
        Shape::B => V::after_element_b(state),
        Shape::Composite(children) => V::after_composite_element(
            walk_children::<V>(state, shape, children.len() as int),
            shape,
        ),
    }
}

/// The state after the first `upto` children of the composite `shape`.
pub open spec fn walk_children<V: Visitor>(state: V::State, shape: Shape, upto: int) -> V::State
    decreases shape, 0int, upto,
{
    match shape {
        Shape::Composite(children) => if 0 < upto <= children.len() {
            walk::<V>(walk_children::<V>(state, shape, upto - 1), children[upto - 1])
        } else {
            state
        },
        _ => state,
    }
}

/// What can be visited.
pub trait Element {
    /// The element as a tree.
    spec fn shape(&self) -> Shape;

    /// Takes `visitor` through this element and all below it.
    fn accept<V: Visitor>(&mut self, visitor: &mut V)
        ensures
            final(visitor).state() == walk::<V>(old(visitor).state(), old(self).shape()),
            final(self).shape() == old(self).shape(),
    ;
}

/// An element of kind A.
pub struct ElementA;

/// An element of kind B.
pub struct ElementB;

/// An element that owns an ordered sequence of children.
pub struct CompositeElement {
    children: Vec<AnyElement>,
}

/// An element of any kind, as a composite element holds it.
pub enum AnyElement {
    A(ElementA),
    B(ElementB),
    Composite(CompositeElement),
}

impl View for ElementA {
    type V = Shape;

    open spec fn view(&self) -> Shape {
        Shape::A
    }
}

impl View for ElementB {
    type V = Shape;

    open spec fn view(&self) -> Shape {
        Shape::B
    }
}

spec fn composite_shape(composite: &CompositeElement) -> Shape
    decreases composite,
{
    Shape::Composite(
        Seq::new(
            composite.children.len() as nat,
            |i: int|
                if 0 <= i < composite.children.len() {
                    any_shape(&composite.children[i])
                } else {
                    arbitrary()
                },
        ),
    )
}

spec fn any_shape(element: &AnyElement) -> Shape
    decreases element,
{
    match element {
        AnyElement::A(a) => a@,
        AnyElement::B(b) => b@,
        AnyElement::Composite(composite) => composite_shape(composite),
    }
}

impl View for CompositeElement {
    type V = Shape;

    closed spec fn view(&self) -> Shape {
        composite_shape(self)
    }
}

impl View for AnyElement {
    type V = Shape;

    open spec fn view(&self) -> Shape {
        match self {
            AnyElement::A(a) => a@,
            AnyElement::B(b) => b@,
            AnyElement::Composite(composite) => composite@,
        }
    }
}

/// The shapes of a sequence of elements, in the same order.
pub open spec fn shapes(elements: Seq<AnyElement>) -> Seq<Shape> {
    elements.map_values(|e: AnyElement| e@)
}

impl Element for ElementA {
    open spec fn shape(&self) -> Shape {
        self@
    }

    fn accept<V: Visitor>(&mut self, visitor: &mut V) {
        visitor.visit_element_a(self);
    }
}

impl Element for ElementB {
    open spec fn shape(&self) -> Shape {
        self@
    }

    fn accept<V: Visitor>(&mut self, visitor: &mut V) {
        visitor.visit_element_b(self);
    }
}

impl CompositeElement {
    /// A composite element that holds `children`, in their order.
    pub fn new(children: Vec<AnyElement>) -> (r: Self)
        ensures
            r@ == Shape::Composite(shapes(children@)),
    {
        let r = CompositeElement { children };
        proof {
            r.lemma_view();
        }
        r
    }

    proof fn lemma_view(&self)
        ensures
            self@ == Shape::Composite(shapes(self.children@)),
    {
        let kids = self@->Composite_0;
        assert(kids.len() == self.children@.len());
        assert forall|i: int| 0 <= i < self.children@.len() implies kids[i] == shapes(
            self.children@,
        )[i] by {
            assert(kids[i] == any_shape(&self.children[i]));
        }
        assert(kids =~= shapes(self.children@));
    }
}

impl Element for CompositeElement {
    open spec fn shape(&self) -> Shape {
        self@
    }

    fn accept<V: Visitor>(&mut self, visitor: &mut V)
        decreases *old(self),
    {
        proof {
            self.lemma_view();
        }
        let ghost start = visitor.state();
        let ghost whole = self@;
        let n = self.children.len();
        let mut i: usize = 0;
        while i < n
            invariant
                i <= n,
                n == self.children@.len(),
                n == old(self).children@.len(),
                whole == Shape::Composite(shapes(self.children@)),
                visitor.state() == walk_children::<V>(start, whole, i as int),
                forall|j: int| i <= j < n ==> self.children@[j] == old(self).children@[j],
            decreases n - i,
        {
            let ghost before = self.children@;
            proof {
                assert(self.children@[i as int] == old(self).children[i as int]);
                assert(decreases_to!(*old(self) => old(self).children[i as int]));
            }
            self.children[i].accept(visitor);
            proof {
                assert(shapes(self.children@) =~= shapes(before));
            }
            i = i + 1;
        }
        proof {
            self.lemma_view();
        }
        visitor.visit_composite_element(self);
    }
}

impl Element for AnyElement {
    open spec fn shape(&self) -> Shape {
        self@
    }

    fn accept<V: Visitor>(&mut self, visitor: &mut V)
        decreases *old(self),
    {
        match self {
            AnyElement::A(a) => a.accept(visitor),
            AnyElement::B(b) => b.accept(visitor),
            AnyElement::Composite(composite) => composite.accept(visitor),
        }
    }
}

/// A visitor without state: it meets every element and keeps nothing.
pub struct Visitor1;

/// A second visitor without state, a different operation to the type system
/// and to every element that dispatches on it.
pub struct Visitor2;

impl View for Visitor1 {
    type V = ();

    open spec fn view(&self) -> () {
        ()
    }
}

impl View for Visitor2 {
    type V = ();

    open spec fn view(&self) -> () {
        ()
    }
}

impl Visitor for Visitor1 {
    type State = ();

    open spec fn state(&self) -> () {
        self@
    }

    open spec fn after_element_a(state: ()) -> () {
        state
    }

    open spec fn after_element_b(state: ()) -> () {
        state
    }

    open spec fn after_composite_element(state: (), composite: Shape) -> () {
        state
    }

    fn visit_element_a(&mut self, element: &mut ElementA) {
    }

    fn visit_element_b(&mut self, element: &mut ElementB) {
    }

    fn visit_composite_element(&mut self, element: &mut CompositeElement) {
    }
}

impl Visitor for Visitor2 {
    type State = ();

    open spec fn state(&self) -> () {
        self@
    }

    open spec fn after_element_a(state: ()) -> () {
        state
    }

    open spec fn after_element_b(state: ()) -> () {
        state
    }

    open spec fn after_composite_element(state: (), composite: Shape) -> () {
        state
    }

    fn visit_element_a(&mut self, element: &mut ElementA) {
    }

    fn visit_element_b(&mut self, element: &mut ElementB) {
    }

    fn visit_composite_element(&mut self, element: &mut CompositeElement) {
    }
}

/// Each child of a composite is visited after all the children before it.
pub proof fn law_children_in_order<V: Visitor>(state: V::State, children: Seq<Shape>, k: int)
    requires
        0 <= k < children.len(),
    ensures
        walk_children::<V>(state, Shape::Composite(children), k + 1) == walk::<V>(
            walk_children::<V>(state, Shape::Composite(children), k),
            children[k],
        ),
        walk_children::<V>(state, Shape::Composite(children), 0) == state,
{
}

/// A composite is visited after the last of its children: with two children,
/// the visitor meets the first, then the second, then the composite.
pub proof fn law_children_before_parent<V: Visitor>(state: V::State, first: Shape, second: Shape)
    ensures
        walk::<V>(state, Shape::Composite(seq![first, second])) == V::after_composite_element(
            walk::<V>(walk::<V>(state, first), second),
            Shape::Composite(seq![first, second]),
        ),
{
    let children = seq![first, second];
    let whole = Shape::Composite(children);
    assert(walk_children::<V>(state, whole, 0) == state);
    assert(children[0] == first && children[1] == second);
    assert(walk_children::<V>(state, whole, 1) == walk::<V>(state, first));
    assert(walk_children::<V>(state, whole, 2) == walk::<V>(walk::<V>(state, first), second));
}

} // verus!
