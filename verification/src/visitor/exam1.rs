//! Visitors over equipment: one adds up a price, one counts equipment by name.

use crate::utils::text::same_text;
use vstd::prelude::*;

verus! {

/// Electrical power, in watts.
pub type Watt = u32;

/// An amount of money.
pub type Currency = u32;

/// How many equipments carry one name.
pub type Quantity = u32;

/// What an equipment is, as a mathematical tree.
pub ghost struct Model {
    /// The equipment's name.
    pub name: Seq<char>,
    /// Whether the equipment is a chassis; otherwise it is a floppy disk.
    pub aggregate: bool,
    /// Its own power.
    pub power: Watt,
    /// Its own net price.
    pub net_price: Currency,
    /// Its own discount price.
    pub discount_price: Currency,
    /// The direct parts of a chassis, oldest first.
    pub parts: Seq<Model>,
}

/// An operation over equipment, with one handler for each kind of equipment.
///
/// Each handler says which equipment it can take in which state, takes the
/// visitor from one state to the next, and leaves the equipment as it was.
/// The specification functions are never run: an implementation in
/// unverified code may give them any body.
pub trait EquipmentVisitor {
    /// What the handlers work on, as a mathematical value.
    type State;

    /// The state that the visitor is in.
    spec fn state(&self) -> Self::State;

    /// Whether the handler for floppy disks can take `floppy_disk` in `state`.
    spec fn admits_floppy_disk(state: Self::State, floppy_disk: Model) -> bool;

    /// The state that follows `state` when `floppy_disk` is met.
    spec fn after_floppy_disk(state: Self::State, floppy_disk: Model) -> Self::State;

    /// Whether the handler for chassis can take `chassis` in `state`.
    spec fn admits_chassis(state: Self::State, chassis: Model) -> bool;

    /// The state that follows `state` when `chassis` is met, its parts having
    /// been visited before.
    spec fn after_chassis(state: Self::State, chassis: Model) -> Self::State;

    /// The handler for floppy disks.
    fn visit_floppy_disk(&mut self, floppy_disk: &mut FloppyDisk)
        requires
            Self::admits_floppy_disk(old(self).state(), old(floppy_disk)@),
        ensures
            final(self).state() == Self::after_floppy_disk(old(self).state(), old(floppy_disk)@),
            final(floppy_disk)@ == old(floppy_disk)@,
    ;

    /// The handler for chassis.
    fn visit_chassis(&mut self, chassis: &mut Chassis)
        requires
            Self::admits_chassis(old(self).state(), old(chassis)@),
        ensures
            final(self).state() == Self::after_chassis(old(self).state(), old(chassis)@),
            final(chassis)@ == old(chassis)@,
    ;
}

/// The state in which a visitor of type `V` leaves the equipment `m` that it
/// entered in `state`: depth first, the parts of a chassis in their order,
/// and the chassis itself after the last of them.
pub open spec fn walk<V: EquipmentVisitor>(state: V::State, m: Model) -> V::State
    decreases m, 1int,
{
    if m.aggregate {
        V::after_chassis(walk_parts::<V>(state, m, m.parts.len() as int), m)
    } else {
        V::after_floppy_disk(state, m)
    }
}

/// The state after the first `upto` parts of `m`.
pub open spec fn walk_parts<V: EquipmentVisitor>(state: V::State, m: Model, upto: int) -> V::State
    decreases m, 0int, upto,
{
    if 0 < upto <= m.parts.len() {
        walk::<V>(walk_parts::<V>(state, m, upto - 1), m.parts[upto - 1])
    } else {
        state
    }
}

/// Whether a visitor of type `V` in `state` can be taken through `m`: every
/// handler on the way admits what it meets in the state it is then in.
pub open spec fn walkable<V: EquipmentVisitor>(state: V::State, m: Model) -> bool
    decreases m, 1int,
{
    if m.aggregate {
        &&& parts_walkable::<V>(state, m, m.parts.len() as int)
        &&& V::admits_chassis(walk_parts::<V>(state, m, m.parts.len() as int), m)
    } else {
        V::admits_floppy_disk(state, m)
    }
}

/// Whether a visitor of type `V` in `state` can be taken through the first
/// `upto` parts of `m`.
pub open spec fn parts_walkable<V: EquipmentVisitor>(state: V::State, m: Model, upto: int) -> bool
    decreases m, 0int, upto,
{
    if 0 < upto <= m.parts.len() {
        &&& parts_walkable::<V>(state, m, upto - 1)
        &&& walkable::<V>(walk_parts::<V>(state, m, upto - 1), m.parts[upto - 1])
    } else {
        true
    }
}

/// The interface that every equipment answers to.
pub trait Equipment {
    /// The equipment as a tree.
    spec fn model(&self) -> Model;

    /// The equipment's name.
    fn name(&self) -> (r: &str)
        ensures
            r@ == self.model().name,
    ;

    /// The equipment's own power.
    fn power(&self) -> (r: Watt)
        ensures
            r == self.model().power,
    ;

    /// The equipment's own net price.
    fn net_price(&self) -> (r: Currency)
        ensures
            r == self.model().net_price,
    ;

    /// The equipment's own discount price.
    fn discount_price(&self) -> (r: Currency)
        ensures
            r == self.model().discount_price,
    ;

    /// Takes `visitor` through this equipment and all that it holds.
    fn accept<V: EquipmentVisitor>(&mut self, visitor: &mut V)
        requires
            walkable::<V>(old(visitor).state(), old(self).model()),
        ensures
            final(visitor).state() == walk::<V>(old(visitor).state(), old(self).model()),
            final(self).model() == old(self).model(),
    ;
}

/// An equipment without parts.
pub struct FloppyDisk {
    name: String,
    power: Watt,
    net_price: Currency,
    discount_price: Currency,
}

/// An equipment that owns an ordered sequence of parts.
pub struct Chassis {
    name: String,
    power: Watt,
    net_price: Currency,
    discount_price: Currency,
    parts: Vec<Part>,
}

/// An equipment of either kind, as a chassis holds it.
pub enum Part {
    FloppyDisk(FloppyDisk),
    Chassis(Chassis),
}

impl View for FloppyDisk {
    type V = Model;

    closed spec fn view(&self) -> Model {
        Model {
            name: self.name@,
            aggregate: false,
            power: self.power,
            net_price: self.net_price,
            discount_price: self.discount_price,
            parts: Seq::empty(),
        }
    }
}

spec fn chassis_model(chassis: &Chassis) -> Model
    decreases chassis,
{
    Model {
        name: chassis.name@,
        aggregate: true,
        power: chassis.power,
        net_price: chassis.net_price,
        discount_price: chassis.discount_price,
        parts: Seq::new(
            chassis.parts.len() as nat,
            |i: int|
                if 0 <= i < chassis.parts.len() {
                    part_model(&chassis.parts[i])
                } else {
                    arbitrary()
                },
        ),
    }
}

spec fn part_model(part: &Part) -> Model
    decreases part,
{
    match part {
        Part::FloppyDisk(floppy_disk) => floppy_disk@,
        Part::Chassis(chassis) => chassis_model(chassis),
    }
}

impl View for Chassis {
    type V = Model;

    closed spec fn view(&self) -> Model {
        chassis_model(self)
    }
}

impl View for Part {
    type V = Model;

    open spec fn view(&self) -> Model {
        match self {
            Part::FloppyDisk(floppy_disk) => floppy_disk@,
            Part::Chassis(chassis) => chassis@,
        }
    }
}

/// The models of a sequence of parts, in the same order.
pub open spec fn models(parts: Seq<Part>) -> Seq<Model> {
    parts.map_values(|p: Part| p@)
}

impl FloppyDisk {
    /// A floppy disk with the given name, power and prices.
    pub fn new(name: &str, power: Watt, net_price: Currency, discount_price: Currency) -> (r: Self)
        ensures
            r@ == (Model {
                name: name@,
                aggregate: false,
                power,
                net_price,
                discount_price,
                parts: Seq::empty(),
            }),
    {
        FloppyDisk { name: name.to_owned(), power, net_price, discount_price }
    }
}

impl Equipment for FloppyDisk {
    open spec fn model(&self) -> Model {
        self@
    }

    fn name(&self) -> (r: &str) {
        self.name.as_str()
    }

    fn power(&self) -> (r: Watt) {
        self.power
    }

    fn net_price(&self) -> (r: Currency) {
        self.net_price
    }

    fn discount_price(&self) -> (r: Currency) {
        self.discount_price
    }

    fn accept<V: EquipmentVisitor>(&mut self, visitor: &mut V) {
        visitor.visit_floppy_disk(self);
    }
}

impl Chassis {
    /// A chassis with the given name, power and prices of its own, which holds `parts` in their order.
    pub fn new(
        name: &str,
        power: Watt,
        net_price: Currency,
        discount_price: Currency,
        parts: Vec<Part>,
    ) -> (r: Self)
        ensures
            r@ == (Model {
                name: name@,
                aggregate: true,
                power,
                net_price,
                discount_price,
                parts: models(parts@),
            }),
    {
        let r = Chassis { name: name.to_owned(), power, net_price, discount_price, parts };
        proof {
            r.lemma_view();
        }
        r
    }

    proof fn lemma_view(&self)
        ensures
            self@ == (Model {
                name: self.name@,
                aggregate: true,
                power: self.power,
                net_price: self.net_price,
                discount_price: self.discount_price,
                parts: models(self.parts@),
            }),
    {
        assert(self@.parts.len() == self.parts@.len());
        assert forall|i: int| 0 <= i < self.parts@.len() implies self@.parts[i] == models(
            self.parts@,
        )[i] by {
            assert(self@.parts[i] == part_model(&self.parts[i]));
        }
        assert(self@.parts =~= models(self.parts@));
    }
}

impl Equipment for Chassis {
    open spec fn model(&self) -> Model {
        self@
    }

    fn name(&self) -> (r: &str) {
        self.name.as_str()
    }

    fn power(&self) -> (r: Watt) {
        self.power
    }

    fn net_price(&self) -> (r: Currency) {
        self.net_price
    }

    fn discount_price(&self) -> (r: Currency) {
        self.discount_price
    }

    fn accept<V: EquipmentVisitor>(&mut self, visitor: &mut V)
        decreases *old(self),
    {
        proof {
            self.lemma_view();
        }
        let ghost start = visitor.state();
        let ghost whole = self@;
        let n = self.parts.len();
        let mut i: usize = 0;
        while i < n
            invariant
                i <= n,
                n == self.parts@.len(),
                n == old(self).parts@.len(),
                whole.aggregate,
                whole.parts == models(self.parts@),
                self.name == old(self).name,
                self.power == old(self).power,
                self.net_price == old(self).net_price,
                self.discount_price == old(self).discount_price,
                parts_walkable::<V>(start, whole, n as int),
                visitor.state() == walk_parts::<V>(start, whole, i as int),
                forall|j: int| i <= j < n ==> self.parts@[j] == old(self).parts@[j],
            decreases n - i,
        {
            let ghost before = self.parts@;
            proof {
                assert(self.parts@[i as int] == old(self).parts[i as int]);
                assert(decreases_to!(*old(self) => old(self).parts[i as int]));
                lemma_parts_walkable_prefix::<V>(start, whole, i as int + 1, n as int);
            }
            self.parts[i].accept(visitor);
            proof {
                assert(models(self.parts@) =~= models(before));
            }
            i = i + 1;
        }
        proof {
            self.lemma_view();
            old(self).lemma_view();
        }
        visitor.visit_chassis(self);
    }
}

/// A visitor that can be taken through the first `upto` parts can be taken
/// through fewer of them.
pub proof fn lemma_parts_walkable_prefix<V: EquipmentVisitor>(
    state: V::State,
    m: Model,
    fewer: int,
    upto: int,
)
    requires
        0 <= fewer <= upto <= m.parts.len(),
        parts_walkable::<V>(state, m, upto),
    ensures
        parts_walkable::<V>(state, m, fewer),
    decreases upto - fewer,
{
    if fewer < upto {
        lemma_parts_walkable_prefix::<V>(state, m, fewer, upto - 1);
    }
}

impl Equipment for Part {
    open spec fn model(&self) -> Model {
        self@
    }

    fn name(&self) -> (r: &str) {
        match self {
            Part::FloppyDisk(floppy_disk) => floppy_disk.name(),
            Part::Chassis(chassis) => chassis.name(),
        }
    }

    fn power(&self) -> (r: Watt) {
        match self {
            Part::FloppyDisk(floppy_disk) => floppy_disk.power(),
            Part::Chassis(chassis) => chassis.power(),
        }
    }

    fn net_price(&self) -> (r: Currency) {
        match self {
            Part::FloppyDisk(floppy_disk) => floppy_disk.net_price(),
            Part::Chassis(chassis) => chassis.net_price(),
        }
    }

    fn discount_price(&self) -> (r: Currency) {
        match self {
            Part::FloppyDisk(floppy_disk) => floppy_disk.discount_price(),
            Part::Chassis(chassis) => chassis.discount_price(),
        }
    }

    fn accept<V: EquipmentVisitor>(&mut self, visitor: &mut V)
        decreases *old(self),
    {
        match self {
            Part::FloppyDisk(floppy_disk) => floppy_disk.accept(visitor),
            Part::Chassis(chassis) => chassis.accept(visitor),
        }
    }
}

/// The parts of a chassis are visited in their order, and the chassis after
/// the last of them: with two parts, the visitor meets the first, then the
/// second, then the chassis.
pub proof fn law_parts_before_chassis<V: EquipmentVisitor>(state: V::State, chassis: Model)
    requires
        chassis.aggregate,
        chassis.parts.len() == 2,
    ensures
        walk::<V>(state, chassis) == V::after_chassis(
            walk::<V>(walk::<V>(state, chassis.parts[0]), chassis.parts[1]),
            chassis,
        ),
{
    assert(walk_parts::<V>(state, chassis, 0) == state);
    assert(walk_parts::<V>(state, chassis, 1) == walk::<V>(state, chassis.parts[0]));
    assert(walk_parts::<V>(state, chassis, 2) == walk::<V>(
        walk::<V>(state, chassis.parts[0]),
        chassis.parts[1],
    ));
}

/// A visitor that adds up a price: the net price of every floppy disk and
/// the discount price of every chassis that it meets.
pub struct PricingVisitor {
    total: Currency,
}

impl View for PricingVisitor {
    type V = int;

    closed spec fn view(&self) -> int {
        self.total as int
    }
}

impl PricingVisitor {
    /// A visitor that has met nothing: its total is 0.
    pub fn new() -> (r: Self)
        ensures
            r@ == 0,
    {
        PricingVisitor { total: 0 }
    }

    /// The sum of the prices met so far.
    pub fn total_price(&self) -> (r: Currency)
        ensures
            r == self@,
    {
        self.total
    }
}

impl EquipmentVisitor for PricingVisitor {
    type State = int;

    open spec fn state(&self) -> int {
        self@
    }

    open spec fn admits_floppy_disk(state: int, floppy_disk: Model) -> bool {
        state + floppy_disk.net_price <= Currency::MAX
    }

    open spec fn after_floppy_disk(state: int, floppy_disk: Model) -> int {
        state + floppy_disk.net_price
    }

    open spec fn admits_chassis(state: int, chassis: Model) -> bool {
        state + chassis.discount_price <= Currency::MAX
    }

    open spec fn after_chassis(state: int, chassis: Model) -> int {
        state + chassis.discount_price
    }

    fn visit_floppy_disk(&mut self, floppy_disk: &mut FloppyDisk) {
        self.total += floppy_disk.net_price();
    }

    fn visit_chassis(&mut self, chassis: &mut Chassis) {
        self.total += chassis.discount_price();
    }
}

/// What a pricing visitor adds for `m`: the net price of a floppy disk; for a
/// chassis, what it adds for each part and the discount price of the chassis.
pub open spec fn price(m: Model) -> int
    decreases m, 1int,
{
    if m.aggregate {
        parts_price(m, m.parts.len() as int) + m.discount_price
    } else {
        m.net_price as int
    }
}

/// What a pricing visitor adds for the first `upto` parts of `m`.
pub open spec fn parts_price(m: Model, upto: int) -> int
    decreases m, 0int, upto,
{
    if 0 < upto <= m.parts.len() {
        parts_price(m, upto - 1) + price(m.parts[upto - 1])
    } else {
        0
    }
}

/// A pricing visitor leaves an equipment with its total raised by the price
/// of that equipment, and it can be taken through the equipment exactly when
/// that sum fits.
pub proof fn law_pricing_adds_price(state: int, m: Model)
    ensures
        walk::<PricingVisitor>(state, m) == state + price(m),
        0 <= price(m),
        0 <= state ==> (walkable::<PricingVisitor>(state, m) <==> state + price(m) <= Currency::MAX),
    decreases m, 1int,
{
    if m.aggregate {
        lemma_pricing_adds_parts(state, m, m.parts.len() as int);
    }
}

proof fn lemma_pricing_adds_parts(state: int, m: Model, upto: int)
    requires
        0 <= upto <= m.parts.len(),
    ensures
        walk_parts::<PricingVisitor>(state, m, upto) == state + parts_price(m, upto),
        0 <= parts_price(m, upto),
        0 <= state ==> (parts_walkable::<PricingVisitor>(state, m, upto) <==> upto == 0 || state
            + parts_price(m, upto) <= Currency::MAX),
    decreases m, 0int, upto,
{
    if 0 < upto {
        let reached = walk_parts::<PricingVisitor>(state, m, upto - 1);
        lemma_pricing_adds_parts(state, m, upto - 1);
        law_pricing_adds_price(reached, m.parts[upto - 1]);
        assert(parts_walkable::<PricingVisitor>(state, m, upto) == (parts_walkable::<PricingVisitor>(
            state,
            m,
            upto - 1,
        ) && walkable::<PricingVisitor>(reached, m.parts[upto - 1])));
    }
}

/// The number of equipments in `m`, itself included, whose name is `name`.
/// Only a chassis holds others.
pub open spec fn occurrences(m: Model, name: Seq<char>) -> nat
    decreases m, 1int,
{
    let own: nat = if m.name == name { 1 } else { 0 };
    if m.aggregate {
        own + parts_occurrences(m, name, m.parts.len() as int)
    } else {
        own
    }
}

/// The number of equipments in the first `upto` parts of `m` whose name is `name`.
pub open spec fn parts_occurrences(m: Model, name: Seq<char>, upto: int) -> nat
    decreases m, 0int, upto,
{
    if 0 < upto <= m.parts.len() {
        parts_occurrences(m, name, upto - 1) + occurrences(m.parts[upto - 1], name)
    } else {
        0
    }
}

/// The quantity that `tally` holds for `name`: 0 where it holds none.
pub open spec fn tally_count(tally: Map<Seq<char>, nat>, name: Seq<char>) -> nat {
    if tally.contains_key(name) {
        tally[name]
    } else {
        0
    }
}

/// `tally` with one more for `name`.
pub open spec fn tally_with(tally: Map<Seq<char>, nat>, name: Seq<char>) -> Map<Seq<char>, nat> {
    tally.insert(name, tally_count(tally, name) + 1)
}

/// Whether `entries` lists `tally`: each entry is a name with its quantity,
/// every name of `tally` has an entry, and no name has two.
pub open spec fn lists(entries: Seq<(String, Quantity)>, tally: Map<Seq<char>, nat>) -> bool {
    &&& forall|i: int|
        0 <= i < entries.len() ==> tally.contains_key(#[trigger] entries[i].0@) && tally[entries[i].0@]
            == entries[i].1
    &&& forall|name: Seq<char>| #[trigger]
        tally.contains_key(name) ==> exists|i: int| 0 <= i < entries.len() && entries[i].0@ == name
    &&& forall|i: int, j: int|
        0 <= i < j < entries.len() ==> #[trigger] entries[i].0@ != #[trigger] entries[j].0@
}

/// A list of entries lists one tally only.
pub proof fn lemma_lists_one_tally(
    entries: Seq<(String, Quantity)>,
    first: Map<Seq<char>, nat>,
    second: Map<Seq<char>, nat>,
)
    requires
        lists(entries, first),
        lists(entries, second),
    ensures
        first == second,
{
    assert forall|name: Seq<char>| first.contains_key(name) implies second.contains_key(name)
        && second[name] == first[name] by {
        let i = choose|i: int| 0 <= i < entries.len() && entries[i].0@ == name;
        assert(second.contains_key(entries[i].0@));
    }
    assert forall|name: Seq<char>| second.contains_key(name) implies first.contains_key(name) by {
        let i = choose|i: int| 0 <= i < entries.len() && entries[i].0@ == name;
        assert(first.contains_key(entries[i].0@));
    }
    assert(first =~= second);
}

proof fn lemma_lists_one_more(
    held: Seq<(String, Quantity)>,
    next: Seq<(String, Quantity)>,
    tally: Map<Seq<char>, nat>,
    i: int,
)
    requires
        lists(held, tally),
        0 <= i < held.len(),
        next.len() == held.len(),
        next[i].0 == held[i].0,
        next[i].1 == held[i].1 + 1,
        forall|j: int| 0 <= j < held.len() && j != i ==> next[j] == held[j],
    ensures
        lists(next, tally_with(tally, held[i].0@)),
{
    let name = held[i].0@;
    let more = tally_with(tally, name);
    assert(tally.contains_key(held[i].0@));
    assert forall|j: int| 0 <= j < next.len() implies #[trigger] next[j].0@ == held[j].0@ by {}
    assert forall|j: int| 0 <= j < next.len() implies more.contains_key(#[trigger] next[j].0@)
        && more[next[j].0@] == next[j].1 by {
        assert(tally.contains_key(held[j].0@));
        if j < i {
            assert(held[j].0@ != held[i].0@);
        } else if j > i {
            assert(held[i].0@ != held[j].0@);
        }
    }
    assert forall|other: Seq<char>| #[trigger] more.contains_key(other) implies exists|j: int|
        0 <= j < next.len() && next[j].0@ == other by {
        if other == name {
            assert(next[i].0@ == other);
        } else {
            assert(tally.contains_key(other));
            let j = choose|j: int| 0 <= j < held.len() && held[j].0@ == other;
            assert(next[j].0@ == other);
        }
    }
    assert forall|j: int, k: int| 0 <= j < k < next.len() implies #[trigger] next[j].0@
        != #[trigger] next[k].0@ by {
        assert(held[j].0@ != held[k].0@);
    }
}

proof fn lemma_lists_new_name(
    held: Seq<(String, Quantity)>,
    next: Seq<(String, Quantity)>,
    tally: Map<Seq<char>, nat>,
)
    requires
        lists(held, tally),
        next.len() == held.len() + 1,
        next.last().1 == 1,
        forall|j: int| 0 <= j < held.len() ==> next[j] == held[j] && held[j].0@ != next.last().0@,
    ensures
        lists(next, tally_with(tally, next.last().0@)),
{
    let name = next.last().0@;
    let more = tally_with(tally, name);
    if tally.contains_key(name) {
        let j = choose|j: int| 0 <= j < held.len() && held[j].0@ == name;
        assert(false);
    }
    assert forall|j: int| 0 <= j < next.len() implies more.contains_key(#[trigger] next[j].0@)
        && more[next[j].0@] == next[j].1 by {
        if j < held.len() {
            assert(tally.contains_key(held[j].0@));
        }
    }
    assert forall|other: Seq<char>| #[trigger] more.contains_key(other) implies exists|j: int|
        0 <= j < next.len() && next[j].0@ == other by {
        if other == name {
            assert(next[held.len() as int].0@ == other);
        } else {
            assert(tally.contains_key(other));
            let j = choose|j: int| 0 <= j < held.len() && held[j].0@ == other;
            assert(next[j].0@ == other);
        }
    }
    assert forall|j: int, k: int| 0 <= j < k < next.len() implies #[trigger] next[j].0@
        != #[trigger] next[k].0@ by {
        if k < held.len() {
            assert(held[j].0@ != held[k].0@);
        }
    }
}

/// How many equipments were met under each name.
pub struct Inventory {
    equipments: Vec<(String, Quantity)>,
}

impl View for Inventory {
    type V = Map<Seq<char>, nat>;

    closed spec fn view(&self) -> Map<Seq<char>, nat> {
        Map::new(
            |name: Seq<char>| exists|i: int| self.holds_at(i, name),
            |name: Seq<char>| self.equipments@[choose|i: int| self.holds_at(i, name)].1 as nat,
        )
    }
}

impl Inventory {
    spec fn holds_at(&self, i: int, name: Seq<char>) -> bool {
        0 <= i < self.equipments@.len() && self.equipments@[i].0@ == name
    }

    #[verifier::type_invariant]
    spec fn names_differ(&self) -> bool {
        forall|i: int, j: int|
            0 <= i < j < self.equipments@.len() ==> #[trigger] self.equipments@[i].0@
                != #[trigger] self.equipments@[j].0@
    }

    /// The quantity held for `name`: 0 where none is held.
    pub open spec fn count(&self, name: Seq<char>) -> nat {
        tally_count(self@, name)
    }

    proof fn lemma_view(&self)
        requires
            self.names_differ(),
        ensures
            lists(self.equipments@, self@),
    {
        assert forall|i: int| 0 <= i < self.equipments@.len() implies self@.contains_key(
            #[trigger] self.equipments@[i].0@,
        ) && self@[self.equipments@[i].0@] == self.equipments@[i].1 by {
            let name = self.equipments@[i].0@;
            assert(self.holds_at(i, name));
            let k = choose|k: int| self.holds_at(k, name);
            assert(k == i);
        }
        assert forall|name: Seq<char>| #[trigger] self@.contains_key(name) implies exists|i: int|
            0 <= i < self.equipments@.len() && self.equipments@[i].0@ == name by {
            let k = choose|k: int| self.holds_at(k, name);
            assert(self.holds_at(k, name));
        }
    }

    /// An inventory that holds nothing.
    pub fn new() -> (r: Self)
        ensures
            r@ == Map::<Seq<char>, nat>::empty(),
    {
        let r = Inventory { equipments: Vec::new() };
        proof {
            assert(r@ =~= Map::<Seq<char>, nat>::empty());
        }
        r
    }

    /// Counts one more equipment under `name`.
    pub fn accumulate(&mut self, name: &str)
        requires
            old(self).count(name@) < Quantity::MAX,
        ensures
            final(self)@ == tally_with(old(self)@, name@),
    {
        proof {
            use_type_invariant(&*self);
            self.lemma_view();
        }
        let ghost before = self@;
        // The entries are taken out while they change, so that the inventory
        // is whole at every moment.
        let mut equipments: Vec<(String, Quantity)> = Vec::new();
        std::mem::swap(&mut equipments, &mut self.equipments);
        let n = equipments.len();
        let mut i: usize = 0;
        while i < n
            invariant
                i <= n,
                n == equipments@.len(),
                lists(equipments@, before),
                before == old(self)@,
                tally_count(before, name@) < Quantity::MAX,
                forall|j: int| 0 <= j < i ==> equipments@[j].0@ != name@,
            decreases n - i,
        {
            if same_text(equipments[i].0.as_str(), name) {
                let ghost held = equipments@;
                assert(before.contains_key(held[i as int].0@));
                let quantity = equipments[i].1;
                equipments[i].1 = quantity + 1;
                proof {
                    lemma_lists_one_more(held, equipments@, before, i as int);
                }
                self.equipments = equipments;
                proof {
                    self.lemma_view();
                    lemma_lists_one_tally(self.equipments@, self@, tally_with(before, name@));
                }
                return ;
            }
            i = i + 1;
        }
        let ghost held = equipments@;
        equipments.push((name.to_owned(), 1));
        proof {
            lemma_lists_new_name(held, equipments@, before);
        }
        self.equipments = equipments;
        proof {
            self.lemma_view();
            lemma_lists_one_tally(self.equipments@, self@, tally_with(before, name@));
        }
    }

    /// All names that were counted, each with its quantity.
    pub fn list(&self) -> (r: &Vec<(String, Quantity)>)
        ensures
            lists(r@, self@),
    {
        proof {
            use_type_invariant(self);
            self.lemma_view();
        }
        &self.equipments
    }

    /// The quantity held for `name`, if any equipment was counted under it.
    pub fn quantity(&self, name: &str) -> (r: Option<&Quantity>)
        ensures
            match r {
                Some(quantity) => self@.contains_key(name@) && self@[name@] == *quantity,
                None => !self@.contains_key(name@),
            },
    {
        proof {
            use_type_invariant(self);
            self.lemma_view();
        }
        let n = self.equipments.len();
        let mut i: usize = 0;
        while i < n
            invariant
                i <= n,
                n == self.equipments@.len(),
                lists(self.equipments@, self@),
                forall|j: int| 0 <= j < i ==> self.equipments@[j].0@ != name@,
            decreases n - i,
        {
            if same_text(self.equipments[i].0.as_str(), name) {
                return Some(&self.equipments[i].1);
            }
            i = i + 1;
        }
        None
    }
}

/// A visitor that counts every equipment that it meets under the equipment's name.
pub struct InventoryVisitor {
    inventory: Inventory,
}

impl View for InventoryVisitor {
    type V = Map<Seq<char>, nat>;

    closed spec fn view(&self) -> Map<Seq<char>, nat> {
        self.inventory@
    }
}

impl InventoryVisitor {
    /// A visitor that has met nothing: its inventory is empty.
    pub fn new() -> (r: Self)
        ensures
            r@ == Map::<Seq<char>, nat>::empty(),
    {
        InventoryVisitor { inventory: Inventory::new() }
    }

    /// What was counted so far.
    pub fn inventory(&self) -> (r: &Inventory)
        ensures
            r@ == self@,
    {
        &self.inventory
    }
}

impl EquipmentVisitor for InventoryVisitor {
    type State = Map<Seq<char>, nat>;

    open spec fn state(&self) -> Map<Seq<char>, nat> {
        self@
    }

    open spec fn admits_floppy_disk(state: Map<Seq<char>, nat>, floppy_disk: Model) -> bool {
        tally_count(state, floppy_disk.name) < Quantity::MAX
    }

    open spec fn after_floppy_disk(state: Map<Seq<char>, nat>, floppy_disk: Model) -> Map<
        Seq<char>,
        nat,
    > {
        tally_with(state, floppy_disk.name)
    }

    open spec fn admits_chassis(state: Map<Seq<char>, nat>, chassis: Model) -> bool {
        tally_count(state, chassis.name) < Quantity::MAX
    }

    open spec fn after_chassis(state: Map<Seq<char>, nat>, chassis: Model) -> Map<Seq<char>, nat> {
        tally_with(state, chassis.name)
    }

    fn visit_floppy_disk(&mut self, floppy_disk: &mut FloppyDisk) {
        self.inventory.accumulate(floppy_disk.name());
    }

    fn visit_chassis(&mut self, chassis: &mut Chassis) {
        self.inventory.accumulate(chassis.name());
    }
}

/// An inventory visitor leaves an equipment with, under every name, as many
/// more as there are equipments of that name in it, and with no other names
/// than it had and those that it met.
pub proof fn law_tally_counts_occurrences(state: Map<Seq<char>, nat>, m: Model, name: Seq<char>)
    ensures
        tally_count(walk::<InventoryVisitor>(state, m), name) == tally_count(state, name)
            + occurrences(m, name),
        walk::<InventoryVisitor>(state, m).contains_key(name) <==> state.contains_key(name)
            || occurrences(m, name) > 0,
    decreases m, 1int,
{
    if m.aggregate {
        lemma_tally_counts_parts(state, m, name, m.parts.len() as int);
    }
}

proof fn lemma_tally_counts_parts(state: Map<Seq<char>, nat>, m: Model, name: Seq<char>, upto: int)
    requires
        0 <= upto <= m.parts.len(),
    ensures
        tally_count(walk_parts::<InventoryVisitor>(state, m, upto), name) == tally_count(state, name)
            + parts_occurrences(m, name, upto),
        walk_parts::<InventoryVisitor>(state, m, upto).contains_key(name) <==> state.contains_key(
            name,
        ) || parts_occurrences(m, name, upto) > 0,
    decreases m, 0int, upto,
{
    if 0 < upto {
        lemma_tally_counts_parts(state, m, name, upto - 1);
        law_tally_counts_occurrences(
            walk_parts::<InventoryVisitor>(state, m, upto - 1),
            m.parts[upto - 1],
            name,
        );
    }
}

/// An inventory visitor can be taken through an equipment if, under every
/// name, what it holds and what it will meet fit together.
pub proof fn law_tally_walkable(state: Map<Seq<char>, nat>, m: Model)
    requires
        forall|name: Seq<char>| tally_count(state, name) + occurrences(m, name) <= Quantity::MAX,
    ensures
        walkable::<InventoryVisitor>(state, m),
    decreases m, 1int,
{
    if m.aggregate {
        lemma_tally_parts_walkable(state, m, m.parts.len() as int);
        lemma_tally_counts_parts(state, m, m.name, m.parts.len() as int);
        assert(tally_count(state, m.name) + occurrences(m, m.name) <= Quantity::MAX);
    } else {
        assert(tally_count(state, m.name) + occurrences(m, m.name) <= Quantity::MAX);
    }
}

proof fn lemma_tally_parts_walkable(state: Map<Seq<char>, nat>, m: Model, upto: int)
    requires
        m.aggregate,
        0 <= upto <= m.parts.len(),
        forall|name: Seq<char>| tally_count(state, name) + occurrences(m, name) <= Quantity::MAX,
    ensures
        parts_walkable::<InventoryVisitor>(state, m, upto),
    decreases m, 0int, upto,
{
    if 0 < upto {
        lemma_tally_parts_walkable(state, m, upto - 1);
        let reached = walk_parts::<InventoryVisitor>(state, m, upto - 1);
        let part = m.parts[upto - 1];
        assert forall|name: Seq<char>| tally_count(reached, name) + occurrences(part, name)
            <= Quantity::MAX by {
            lemma_tally_counts_parts(state, m, name, upto - 1);
            lemma_parts_occurrences_grow(m, name, upto, m.parts.len() as int);
            assert(tally_count(state, name) + occurrences(m, name) <= Quantity::MAX);
        }
        law_tally_walkable(reached, part);
    }
}

proof fn lemma_parts_occurrences_grow(m: Model, name: Seq<char>, fewer: int, upto: int)
    requires
        0 <= fewer <= upto <= m.parts.len(),
    ensures
        parts_occurrences(m, name, fewer) <= parts_occurrences(m, name, upto),
    decreases upto - fewer,
{
    if fewer < upto {
        lemma_parts_occurrences_grow(m, name, fewer, upto - 1);
    }
}

} // verus!
