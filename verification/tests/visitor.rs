use composite_visitor::visitor::{
    AnyElement, CompositeElement, Element, ElementA, ElementB, Shape, Visitor, Visitor1, Visitor2,
};

#[test]
fn visitor() {
    let mut elements: Vec<AnyElement> = vec![
        AnyElement::A(ElementA),
        AnyElement::B(ElementB),
        AnyElement::Composite(CompositeElement::new(vec![
            AnyElement::A(ElementA),
            AnyElement::B(ElementB),
        ])),
    ];

    let mut v1 = Visitor1;
    for e in elements.iter_mut() {
        e.accept(&mut v1);
    }

    let mut v2 = Visitor2;
    for e in elements.iter_mut() {
        e.accept(&mut v2);
    }
}

struct Recorder {
    seen: Vec<&'static str>,
}

impl Visitor for Recorder {
    type State = ();

    fn state(&self) {}

    fn after_element_a(_state: ()) {}

    fn after_element_b(_state: ()) {}

    fn after_composite_element(_state: (), _composite: Shape) {}

    fn visit_element_a(&mut self, _element: &mut ElementA) {
        self.seen.push("a");
    }

    fn visit_element_b(&mut self, _element: &mut ElementB) {
        self.seen.push("b");
    }

    fn visit_composite_element(&mut self, _element: &mut CompositeElement) {
        self.seen.push("composite");
    }
}

#[test]
fn each_kind_reaches_its_own_handler() {
    let mut recorder = Recorder { seen: Vec::new() };
    ElementA.accept(&mut recorder);
    ElementB.accept(&mut recorder);
    AnyElement::B(ElementB).accept(&mut recorder);
    AnyElement::A(ElementA).accept(&mut recorder);
    CompositeElement::new(Vec::new()).accept(&mut recorder);
    assert_eq!(recorder.seen, vec!["a", "b", "b", "a", "composite"]);
}

#[test]
fn children_are_visited_in_order_before_their_parent() {
    let inner = CompositeElement::new(vec![AnyElement::B(ElementB), AnyElement::A(ElementA)]);
    let mut outer = CompositeElement::new(vec![
        AnyElement::A(ElementA),
        AnyElement::Composite(inner),
        AnyElement::B(ElementB),
    ]);
    let mut recorder = Recorder { seen: Vec::new() };
    outer.accept(&mut recorder);
    assert_eq!(recorder.seen, vec!["a", "b", "a", "composite", "b", "composite"]);

    outer.accept(&mut recorder);
    assert_eq!(recorder.seen.len(), 12);
    assert_eq!(&recorder.seen[6..], &["a", "b", "a", "composite", "b", "composite"]);
}
