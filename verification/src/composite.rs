//! Trees of components: a leaf stands alone, a composite owns an ordered
//! sequence of further components, and both answer to one interface.

pub mod exam;

use vstd::prelude::*;

verus! {

/// Identity of a component. Nothing forces two components to differ in it.
pub type Id = u64;

/// Why a child-management operation was refused.
#[derive(Debug, Clone, Copy, PartialEq, Eq, Structural)]
pub enum Error {
    /// The component is of a kind that cannot hold children.
    NotSupported,
    /// No direct child carries the identity that was asked for.
    NotFound,
}

/// What a component is, as a mathematical tree.
pub ghost struct Tree {
    /// The component's identity.
    pub id: Id,
    /// Whether the component is of a kind that holds children.
    pub aggregate: bool,
    /// What the component's own step of `operation` yields.
    pub own: Result<(), Error>,
    /// The direct children, oldest first.
    pub children: Seq<Tree>,
}

impl Tree {
    /// The same tree with `child` as its new last child.
    pub open spec fn with_child(self, child: Tree) -> Tree {
        Tree { children: self.children.push(child), ..self }
    }

    /// The same tree without the child at index `i`.
    pub open spec fn without_child(self, i: int) -> Tree {
        Tree { children: self.children.remove(i), ..self }
    }
}

/// Index of the first of `children` whose identity is `id`.
pub open spec fn position(children: Seq<Tree>, id: Id) -> Option<int>
    decreases children.len(),
{
    if children.len() == 0 {
        None
    } else if children.first().id == id {
        Some(0)
    } else {
        match position(children.drop_first(), id) {
            Some(i) => Some(i + 1),
            None => None,
        }
    }
}

/// What `add` does to an aggregate `t`, and what it does to any other tree.
pub open spec fn add_result(t: Tree, child: Tree) -> (Tree, Result<(), Error>) {
    if t.aggregate {
        (t.with_child(child), Ok(()))
    } else {
        (t, Err(Error::NotSupported))
    }
}

/// What `remove` does to an aggregate `t`, and what it does to any other tree.
/// Only the direct children are searched.
pub open spec fn remove_result(t: Tree, id: Id) -> (Tree, Result<(), Error>) {
    if !t.aggregate {
        (t, Err(Error::NotSupported))
    } else {
        match position(t.children, id) {
            Some(i) => (t.without_child(i), Ok(())),
            None => (t, Err(Error::NotFound)),
        }
    }
}

/// A tree left as it was, with the refusal that a kind without children gives.
pub open spec fn refused(t: Tree) -> (Tree, Result<(), Error>) {
    (t, Err(Error::NotSupported))
}

/// What `operation` yields on `t`: the first failure met while running the
/// children in order, each of them in the same way, and after them the
/// component's own step.
pub open spec fn outcome(t: Tree) -> Result<(), Error>
    decreases t, 1int,
{
    if outcome_from(t, 0) is Err {
        outcome_from(t, 0)
    } else {
        t.own
    }
}

/// The first failure among the children of `t` from index `from` on.
pub open spec fn outcome_from(t: Tree, from: int) -> Result<(), Error>
    decreases t, 0int, t.children.len() - from,
{
    if 0 <= from < t.children.len() {
        if outcome(t.children[from]) is Err {
            outcome(t.children[from])
        } else {
            outcome_from(t, from + 1)
        }
    } else {
        Ok(())
    }
}

/// The trees of a sequence of nodes, in the same order.
pub open spec fn trees(nodes: Seq<Node>) -> Seq<Tree> {
    nodes.map_values(|n: Node| n@)
}

/// Whether `nodes` are the children `children`, one for one and in the same order.
pub open spec fn shows(nodes: Seq<Node>, children: Seq<Tree>) -> bool {
    &&& nodes.len() == children.len()
    &&& forall|i: int| 0 <= i < nodes.len() ==> (#[trigger] nodes[i])@ == children[i]
}

/// The interface that every component answers to.
///
/// The child-management operations have default bodies, so that a kind
/// without children states nothing about them.
pub trait Component {
    /// The component as a tree.
    spec fn tree(&self) -> Tree;

    /// The component's identity.
    fn id(&self) -> (r: Id)
        ensures
            r == self.tree().id,
    ;

    /// Runs the component: its children in order, then itself, stopping at the first failure.
    fn operation(&self) -> (r: Result<(), Error>)
        ensures
            r == outcome(self.tree()),
    ;

    /// Appends `child` as the last child. A kind without children refuses.
    fn add(&mut self, child: Node) -> (r: Result<(), Error>)
        ensures
            (final(self).tree(), r) == add_result(old(self).tree(), child@)
                || (final(self).tree(), r) == refused(old(self).tree()),
    {
        Err(Error::NotSupported)
    }

    /// Removes the first direct child whose identity is `child_id`.
    /// A kind without children refuses.
    fn remove(&mut self, child_id: Id) -> (r: Result<(), Error>)
        ensures
            (final(self).tree(), r) == remove_result(old(self).tree(), child_id)
                || (final(self).tree(), r) == refused(old(self).tree()),
    {
        Err(Error::NotSupported)
    }

    /// The direct children, oldest first. A kind without children has none to show.
    fn children(&self) -> (r: &[Node])
        ensures
            shows(r@, self.tree().children) || r@.len() == 0,
    {
        &[]
    }
}

/// A component without children.
pub struct Leaf {
    id: Id,
}

/// A component that owns an ordered sequence of children.
pub struct Composite {
    id: Id,
    children: Vec<Node>,
}

/// A component of either kind, as a composite holds it.
pub enum Node {
    Leaf(Leaf),
    Composite(Composite),
}

impl View for Leaf {
    type V = Tree;

    closed spec fn view(&self) -> Tree {
        Tree { id: self.id, aggregate: false, own: Ok(()), children: Seq::empty() }
    }
}

spec fn composite_tree(composite: &Composite) -> Tree
    decreases composite,
{
    Tree {
        id: composite.id,
        aggregate: true,
        own: Ok(()),
        children: Seq::new(
            composite.children.len() as nat,
            |i: int|
                if 0 <= i < composite.children.len() {
                    node_tree(&composite.children[i])
                } else {
                    arbitrary()
                },
        ),
    }
}

spec fn node_tree(node: &Node) -> Tree
    decreases node,
{
    match node {
        Node::Leaf(leaf) => leaf@,
        Node::Composite(composite) => composite_tree(composite),
    }
}

impl View for Composite {
    type V = Tree;

    closed spec fn view(&self) -> Tree {
        composite_tree(self)
    }
}

impl View for Node {
    type V = Tree;

    open spec fn view(&self) -> Tree {
        match self {
            Node::Leaf(leaf) => leaf@,
            Node::Composite(composite) => composite@,
        }
    }
}

impl Leaf {
    /// A leaf is no aggregate, has no children, and its own step succeeds.
    pub proof fn lemma_is_leaf(&self)
        ensures
            !self@.aggregate,
            self@.children.len() == 0,
            self@.own == Ok::<(), Error>(()),
    {
    }

    /// A leaf with identity `id`.
    pub fn new(id: Id) -> (r: Self)
        ensures
            r@ == (Tree { id, aggregate: false, own: Ok(()), children: Seq::empty() }),
    {
        Leaf { id }
    }
}

impl Component for Leaf {
    open spec fn tree(&self) -> Tree {
        self@
    }

    fn id(&self) -> (r: Id) {
        self.id
    }

    fn operation(&self) -> (r: Result<(), Error>) {
        Ok(())
    }
}

/// `position` finds the least index whose child carries `id`, and finds none
/// exactly when no child carries it.
pub proof fn lemma_position(children: Seq<Tree>, id: Id)
    ensures
        match position(children, id) {
            Some(i) => {
                &&& 0 <= i < children.len()
                &&& children[i].id == id
                &&& forall|j: int| 0 <= j < i ==> children[j].id != id
            },
            None => forall|j: int| 0 <= j < children.len() ==> children[j].id != id,
        },
    decreases children.len(),
{
    if children.len() > 0 && children.first().id != id {
        let rest = children.drop_first();
        lemma_position(rest, id);
        match position(rest, id) {
            Some(i) => {
                assert forall|j: int| 0 <= j < i + 1 implies children[j].id != id by {
                    if j > 0 {
                        assert(children[j] == rest[j - 1]);
                    }
                }
            },
            None => {
                assert forall|j: int| 0 <= j < children.len() implies children[j].id != id by {
                    if j > 0 {
                        assert(children[j] == rest[j - 1]);
                    }
                }
            },
        }
    }
}

impl Composite {
    /// A composite with identity `id` and no children.
    pub fn new(id: Id) -> (r: Self)
        ensures
            r@ == (Tree { id, aggregate: true, own: Ok(()), children: Seq::empty() }),
    {
        let r = Composite { id, children: Vec::new() };
        proof {
            r.lemma_view();
            assert(r@.children =~= Seq::empty());
        }
        r
    }

    /// A composite is an aggregate, and its own step succeeds.
    pub proof fn lemma_is_aggregate(&self)
        ensures
            self@.aggregate,
            self@.own == Ok::<(), Error>(()),
    {
    }

    proof fn lemma_view(&self)
        ensures
            self@.id == self.id,
            self@.aggregate,
            self@.own == Ok::<(), Error>(()),
            self@.children == trees(self.children@),
    {
        assert(self@.children.len() == self.children@.len());
        assert forall|i: int| 0 <= i < self.children@.len() implies self@.children[i] == trees(
            self.children@,
        )[i] by {
            assert(self@.children[i] == node_tree(&self.children[i]));
        }
        assert(self@.children =~= trees(self.children@));
    }
}

impl Component for Composite {
    open spec fn tree(&self) -> Tree {
        self@
    }

    fn id(&self) -> (r: Id) {
        self.id
    }

    fn operation(&self) -> (r: Result<(), Error>)
        decreases self,
    {
        proof {
            self.lemma_view();
        }
        let n = self.children.len();
        let mut i: usize = 0;
        while i < n
            invariant
                i <= n,
                n == self.children@.len(),
                self@.children == trees(self.children@),
                self@.own == Ok::<(), Error>(()),
                outcome_from(self@, 0) == outcome_from(self@, i as int),
            decreases n - i,
        {
            let r = self.children[i].operation();
            if r.is_err() {
                return r;
            }
            i = i + 1;
        }
        Ok(())
    }

    fn add(&mut self, child: Node) -> (r: Result<(), Error>)
        ensures
            (final(self)@, r) == add_result(old(self)@, child@),
            r is Ok,
    {
        proof {
            self.lemma_view();
        }
        self.children.push(child);
        proof {
            self.lemma_view();
            assert(trees(self.children@) =~= trees(old(self).children@).push(child@));
        }
        Ok(())
    }

    fn remove(&mut self, child_id: Id) -> (r: Result<(), Error>)
        ensures
            (final(self)@, r) == remove_result(old(self)@, child_id),
    {
        proof {
            self.lemma_view();
            lemma_position(self@.children, child_id);
        }
        let n = self.children.len();
        let mut i: usize = 0;
        while i < n
            invariant
                i <= n,
                n == self.children@.len(),
                *self == *old(self),
                self@.children == trees(self.children@),
                forall|j: int| 0 <= j < i ==> self@.children[j].id != child_id,
            decreases n - i,
        {
            if self.children[i].id() == child_id {
                let ghost before = self@;
                proof {
                    assert(before.children[i as int] == self.children@[i as int]@);
                    lemma_position(before.children, child_id);
                    assert(position(before.children, child_id) == Some(i as int));
                }
                self.children.remove(i);
                proof {
                    self.lemma_view();
                    assert(self@.children =~= before.children.remove(i as int));
                    assert(self@ == before.without_child(i as int));
                }
                return Ok(());
            }
            i = i + 1;
        }
        proof {
            lemma_position(self@.children, child_id);
        }
        Err(Error::NotFound)
    }

    fn children(&self) -> (r: &[Node])
        ensures
            shows(r@, self@.children),
    {
        proof {
            self.lemma_view();
        }
        self.children.as_slice()
    }
}

impl Component for Node {
    open spec fn tree(&self) -> Tree {
        self@
    }

    fn id(&self) -> (r: Id) {
        match self {
            Node::Leaf(leaf) => leaf.id(),
            Node::Composite(composite) => composite.id(),
        }
    }

    fn operation(&self) -> (r: Result<(), Error>)
        decreases self,
    {
        match self {
            Node::Leaf(leaf) => leaf.operation(),
            Node::Composite(composite) => composite.operation(),
        }
    }

    fn add(&mut self, child: Node) -> (r: Result<(), Error>)
        ensures
            (final(self)@, r) == add_result(old(self)@, child@),
    {
        match self {
            Node::Leaf(leaf) => leaf.add(child),
            Node::Composite(composite) => composite.add(child),
        }
    }

    fn remove(&mut self, child_id: Id) -> (r: Result<(), Error>)
        ensures
            (final(self)@, r) == remove_result(old(self)@, child_id),
    {
        match self {
            Node::Leaf(leaf) => leaf.remove(child_id),
            Node::Composite(composite) => composite.remove(child_id),
        }
    }

    fn children(&self) -> (r: &[Node])
        ensures
            shows(r@, self@.children),
    {
        match self {
            Node::Leaf(leaf) => leaf.children(),
            Node::Composite(composite) => composite.children(),
        }
    }
}

/// Children stay in the order in which they were added: `add` puts the new
/// child behind all the others and moves none of them.
pub proof fn law_add_appends(t: Tree, child: Tree)
    requires
        t.aggregate,
    ensures
        add_result(t, child).1 is Ok,
        add_result(t, child).0.children.len() == t.children.len() + 1,
        add_result(t, child).0.children.last() == child,
        forall|j: int| 0 <= j < t.children.len() ==> add_result(t, child).0.children[j] == t.children[j],
{
}

/// Removing a child leaves the others in their order: those before it keep
/// their index, those behind it move up by one.
pub proof fn law_remove_keeps_order(t: Tree, id: Id)
    requires
        t.aggregate,
    ensures
        match position(t.children, id) {
            Some(i) => {
                let rest = remove_result(t, id).0.children;
                &&& forall|j: int| 0 <= j < i ==> rest[j] == t.children[j]
                &&& forall|j: int| i <= j < rest.len() ==> rest[j] == t.children[j + 1]
            },
            None => remove_result(t, id).0.children == t.children,
        },
{
    lemma_position(t.children, id);
}

/// `add` succeeds on every composite and is refused by every leaf.
pub proof fn law_add_by_kind(composite: Composite, leaf: Leaf, child: Tree)
    ensures
        add_result(composite@, child).1 is Ok,
        add_result(leaf@, child) == refused(leaf@),
{
}

/// `remove` is refused by every leaf, whatever the identity.
pub proof fn law_remove_on_leaf(leaf: Leaf, id: Id)
    ensures
        remove_result(leaf@, id) == refused(leaf@),
{
}

/// `remove` looks at the direct children only. Where none of them carries
/// `id`, it fails with `NotFound` and changes nothing, whatever lies deeper in
/// the tree; where one does, exactly one child leaves.
pub proof fn law_remove_is_direct_only(t: Tree, id: Id)
    requires
        t.aggregate,
    ensures
        (forall|j: int| 0 <= j < t.children.len() ==> t.children[j].id != id) ==> remove_result(
            t,
            id,
        ) == (t, Err::<(), Error>(Error::NotFound)),
        (exists|j: int| 0 <= j < t.children.len() && t.children[j].id == id) ==> {
            &&& remove_result(t, id).1 is Ok
            &&& remove_result(t, id).0.children.len() == t.children.len() - 1
        },
{
    lemma_position(t.children, id);
}

/// As long as every node's own step succeeds, so does the whole tree.
pub proof fn law_operation_of_sound_tree(composite: Composite)
    ensures
        outcome(composite@) == Ok::<(), Error>(()),
{
    lemma_node_succeeds(Node::Composite(composite));
}

proof fn lemma_node_succeeds(node: Node)
    ensures
        outcome(node@) == Ok::<(), Error>(()),
    decreases node,
{
    match node {
        Node::Leaf(leaf) => {
            assert(outcome_from(leaf@, 0) == Ok::<(), Error>(()));
        },
        Node::Composite(composite) => {
            composite.lemma_view();
            lemma_children_succeed(composite, 0);
        },
    }
}

proof fn lemma_children_succeed(composite: Composite, from: int)
    requires
        0 <= from <= composite.children@.len(),
    ensures
        outcome_from(composite@, from) == Ok::<(), Error>(()),
    decreases composite, composite.children@.len() - from,
{
    composite.lemma_view();
    if from < composite.children@.len() {
        lemma_node_succeeds(composite.children[from]);
        lemma_children_succeed(composite, from + 1);
    }
}

} // verus!
