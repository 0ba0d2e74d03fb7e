use composite_visitor::visitor::exam2::{
    Accumulator, Decreaser, Increaser, Int, Kind, Number, Visitor,
};
use dyn_ord::DynEq;

#[derive(Debug, Clone, Copy, PartialEq)]
struct Float(f64);

impl Number<Float> for Float {
    fn kind(&self) -> Kind<Float> {
        Kind::Float(*self)
    }

    fn accept<V: Visitor<Float>>(&mut self, visitor: &mut V) {
        visitor.visit_float(self);
    }
}

impl Visitor<Float> for Increaser {
    fn admits_int(&self, int: Int) -> bool {
        int.0.checked_add((self.step() as i32)).is_some()
    }

    fn int_visit(&self, int: Int, after: Self, int_after: Int) -> bool {
        after.step() == self.step() && int_after.0 == int.0 + self.step() as i32
    }

    fn admits_float(&self, _float: Float) -> bool {
        true
    }

    fn float_visit(&self, float: Float, after: Self, float_after: Float) -> bool {
        after.step() == self.step() && float_after.0 == float.0 + self.step() as f64
    }

    fn visit_int(&mut self, int: &mut Int) {
        Increaser::visit_int(self, int);
    }

    fn visit_float(&mut self, float: &mut Float) {
        float.0 += self.step() as f64;
    }
}

impl Visitor<Float> for Decreaser {
    fn admits_int(&self, int: Int) -> bool {
        int.0.checked_add(-(self.step() as i32)).is_some()
    }

    fn int_visit(&self, int: Int, after: Self, int_after: Int) -> bool {
        after.step() == self.step() && int_after.0 == int.0 - self.step() as i32
    }

    fn admits_float(&self, _float: Float) -> bool {
        true
    }

    fn float_visit(&self, float: Float, after: Self, float_after: Float) -> bool {
        after.step() == self.step() && float_after.0 == float.0 - self.step() as f64
    }

    fn visit_int(&mut self, int: &mut Int) {
        Decreaser::visit_int(self, int);
    }

    fn visit_float(&mut self, float: &mut Float) {
        float.0 -= self.step() as f64;
    }
}

#[derive(Debug)]
enum Boxed {
    Int(Int),
    Float(Float),
}

impl Boxed {
    fn as_dyn_eq(&self) -> &dyn DynEq {
        match self {
            Boxed::Int(int) => int,
            Boxed::Float(float) => float,
        }
    }
}

impl PartialEq for Boxed {
    fn eq(&self, other: &Self) -> bool {
        self.as_dyn_eq() == other.as_dyn_eq()
    }
}

impl Number<Float> for Boxed {
    fn kind(&self) -> Kind<Float> {
        match self {
            Boxed::Int(int) => Kind::Int(*int),
            Boxed::Float(float) => Kind::Float(*float),
        }
    }

    fn accept<V: Visitor<Float>>(&mut self, visitor: &mut V) {
        match self {
            Boxed::Int(int) => int.accept(visitor),
            Boxed::Float(float) => float.accept(visitor),
        }
    }
}

fn as_f64(kind: &Kind<Float>) -> f64 {
    match kind {
        Kind::Int(int) => int.0 as f64,
        Kind::Float(float) => float.0,
    }
}

#[test]
fn visitor_exam2() {
    let mut numbers: Vec<Boxed> =
        vec![Boxed::Int(Int(1)), Boxed::Int(Int(2)), Boxed::Float(Float(3.5))];

    let mut increaser = Increaser::new(2);
    for n in numbers.iter_mut() {
        n.accept(&mut increaser);
    }
    let expected: Vec<Boxed> =
        vec![Boxed::Int(Int(3)), Boxed::Int(Int(4)), Boxed::Float(Float(5.5))];
    assert_eq!(numbers, expected);

    let mut decreaser = Decreaser::new(1);
    for n in numbers.iter_mut() {
        n.accept(&mut decreaser);
    }
    let expected: Vec<Boxed> =
        vec![Boxed::Int(Int(2)), Boxed::Int(Int(3)), Boxed::Float(Float(4.5))];
    assert_eq!(numbers, expected);

    let mut accumulator = Accumulator::new(0.0, |acc: &f64, n: &Kind<Float>| *acc + as_f64(n));
    for n in numbers.iter_mut() {
        n.accept(&mut accumulator);
    }
    assert_eq!(accumulator.result(), &9.5);
}

#[test]
fn numbers_of_different_kinds_are_never_equal() {
    assert_ne!(Boxed::Int(Int(3)), Boxed::Float(Float(3.0)));
    assert_eq!(Boxed::Int(Int(3)), Boxed::Int(Int(3)));
    assert_ne!(Boxed::Int(Int(3)), Boxed::Int(Int(4)));
}

#[test]
fn raise_then_lower_gives_the_number_back_exam2() {
    for start in [i32::MIN, -70000, -1, 0, 1, 41, i32::MAX - 65535] {
        for step in [0u16, 1, 2, 999, u16::MAX] {
            let mut int = Int(start);
            let mut increaser = Increaser::new(step);
            let mut decreaser = Decreaser::new(step);
            assert_eq!(increaser.step(), step);
            assert_eq!(decreaser.step(), step);
            increaser.visit_int(&mut int);
            assert_eq!(int, Int(start + step as i32));
            decreaser.visit_int(&mut int);
            assert_eq!(int, Int(start));
        }
    }
}

#[test]
fn int_goes_to_the_handler_for_whole_numbers_exam2() {
    let mut count =
        Accumulator::new((0u32, 0u32), |acc: &(u32, u32), n: &Kind<Float>| match n {
            Kind::Int(_) => (acc.0 + 1, acc.1),
            Kind::Float(_) => (acc.0, acc.1 + 1),
        });
    let mut int = Int(5);
    int.accept(&mut count);
    int.accept(&mut count);
    let mut float = Float(0.5);
    float.accept(&mut count);
    assert_eq!(count.result(), &(2, 1));
    assert_eq!(int, Int(5));
    assert_eq!(float, Float(0.5));
}

#[test]
fn accumulator_starts_from_its_initial_value_exam2() {
    let accumulator = Accumulator::new(17i64, |acc: &i64, _n: &Kind<Float>| *acc);
    assert_eq!(accumulator.result(), &17);
}
