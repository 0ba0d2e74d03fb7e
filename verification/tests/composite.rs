use composite_visitor::composite::{Component, Composite, Error, Leaf, Node};

#[test]
fn composite() {
    let mut composite1 = Composite::new(1);
    composite1.add(Node::Leaf(Leaf::new(2))).unwrap();

    let mut composite2 = Composite::new(3);
    composite2.add(Node::Leaf(Leaf::new(4))).unwrap();
    composite2.add(Node::Leaf(Leaf::new(5))).unwrap();
    composite2.add(Node::Composite(composite1)).unwrap();
    assert_eq!(composite2.children().len(), 3);

    composite2.remove(5).unwrap();
    assert_eq!(composite2.children().len(), 2);
}

#[test]
fn leaf_refuses_children() {
    let mut leaf = Leaf::new(7);
    assert_eq!(leaf.add(Node::Leaf(Leaf::new(8))), Err(Error::NotSupported));
    assert_eq!(leaf.remove(8), Err(Error::NotSupported));
    assert_eq!(leaf.children().len(), 0);
    assert_eq!(leaf.id(), 7);
    assert_eq!(leaf.operation(), Ok(()));
}

#[test]
fn node_dispatches_by_kind() {
    let mut leaf = Node::Leaf(Leaf::new(1));
    assert_eq!(leaf.add(Node::Leaf(Leaf::new(2))), Err(Error::NotSupported));
    assert_eq!(leaf.remove(2), Err(Error::NotSupported));
    assert_eq!(leaf.children().len(), 0);

    let mut composite = Node::Composite(Composite::new(3));
    assert_eq!(composite.add(Node::Leaf(Leaf::new(4))), Ok(()));
    assert_eq!(composite.id(), 3);
    assert_eq!(composite.children().len(), 1);
    assert_eq!(composite.remove(9), Err(Error::NotFound));
    assert_eq!(composite.remove(4), Ok(()));
    assert_eq!(composite.children().len(), 0);
}

#[test]
fn children_come_in_insertion_order() {
    let mut composite = Composite::new(10);
    for id in [4u64, 2, 9, 7] {
        composite.add(Node::Leaf(Leaf::new(id))).unwrap();
    }
    let ids: Vec<u64> = composite.children().iter().map(|c| c.id()).collect();
    assert_eq!(ids, vec![4, 2, 9, 7]);

    composite.remove(2).unwrap();
    let ids: Vec<u64> = composite.children().iter().map(|c| c.id()).collect();
    assert_eq!(ids, vec![4, 9, 7]);

    composite.add(Node::Leaf(Leaf::new(2))).unwrap();
    let ids: Vec<u64> = composite.children().iter().map(|c| c.id()).collect();
    assert_eq!(ids, vec![4, 9, 7, 2]);
}

#[test]
fn remove_takes_the_first_of_equal_identities() {
    let mut first = Composite::new(5);
    first.add(Node::Leaf(Leaf::new(1))).unwrap();
    let mut composite = Composite::new(0);
    composite.add(Node::Composite(first)).unwrap();
    composite.add(Node::Leaf(Leaf::new(5))).unwrap();

    composite.remove(5).unwrap();
    assert_eq!(composite.children().len(), 1);
    assert_eq!(composite.children()[0].children().len(), 0);
    assert_eq!(composite.children()[0].id(), 5);
}

#[test]
fn remove_does_not_search_grandchildren() {
    let mut inner = Composite::new(1);
    inner.add(Node::Leaf(Leaf::new(2))).unwrap();
    let mut outer = Composite::new(3);
    outer.add(Node::Composite(inner)).unwrap();

    assert_eq!(outer.remove(2), Err(Error::NotFound));
    assert_eq!(outer.children().len(), 1);
    assert_eq!(outer.children()[0].children().len(), 1);
}

#[test]
fn remove_from_empty_composite_finds_nothing() {
    let mut composite = Composite::new(1);
    assert_eq!(composite.remove(1), Err(Error::NotFound));
}

#[test]
fn operation_runs_the_whole_tree() {
    let mut inner = Composite::new(1);
    inner.add(Node::Leaf(Leaf::new(2))).unwrap();
    let mut outer = Composite::new(3);
    outer.add(Node::Leaf(Leaf::new(4))).unwrap();
    outer.add(Node::Composite(inner)).unwrap();
    assert_eq!(outer.operation(), Ok(()));
    assert_eq!(Composite::new(9).operation(), Ok(()));
}
