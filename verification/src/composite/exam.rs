//! Equipment built from parts: a chassis holds floppy disks and further
//! chassis, and the power and the prices of a chassis include those of all
//! that it holds.

use crate::composite::Error;
use crate::utils::text::same_text;
use vstd::prelude::*;

verus! {

/// Electrical power, in watts.
pub type Watt = u32;

/// An amount of money.
pub type Currency = u32;

/// The attributes of an equipment that add up over its parts.
#[derive(Debug, Clone, Copy, PartialEq, Eq, Structural)]
pub enum Attribute {
    Power,
    NetPrice,
    DiscountPrice,
}

/// What an equipment is, as a mathematical tree.
pub ghost struct Model {
    /// The equipment's name.
    pub name: Seq<char>,
    /// Whether the equipment is of a kind that holds parts.
    pub aggregate: bool,
    /// Its own power, without that of its parts.
    pub power: Watt,
    /// Its own net price, without that of its parts.
    pub net_price: Currency,
    /// Its own discount price, without that of its parts.
    pub discount_price: Currency,
    /// The direct parts, oldest first.
    pub parts: Seq<Model>,
}

impl Model {
    /// The equipment's own value of attribute `a`.
    pub open spec fn own(self, a: Attribute) -> int {
        match a {
            Attribute::Power => self.power as int,
            Attribute::NetPrice => self.net_price as int,
            Attribute::DiscountPrice => self.discount_price as int,
        }
    }

    /// The same equipment with `part` as its new last part.
    pub open spec fn with_part(self, part: Model) -> Model {
        Model { parts: self.parts.push(part), ..self }
    }

    /// The same equipment without the part at index `i`.
    pub open spec fn without_part(self, i: int) -> Model {
        Model { parts: self.parts.remove(i), ..self }
    }
}

/// Attribute `a` of the whole of `m`: its own value and the totals of its direct parts.
pub open spec fn total(m: Model, a: Attribute) -> int
    decreases m, 1int,
{
    m.own(a) + parts_total(m, a, 0)
}

/// The sum of the totals of the direct parts of `m` from index `from` on.
pub open spec fn parts_total(m: Model, a: Attribute, from: int) -> int
    decreases m, 0int, m.parts.len() - from,
{
    if 0 <= from < m.parts.len() {
        total(m.parts[from], a) + parts_total(m, a, from + 1)
    } else {
        0
    }
}

/// Index of the first of `parts` whose name is `name`.
pub open spec fn position(parts: Seq<Model>, name: Seq<char>) -> Option<int>
    decreases parts.len(),
{
    if parts.len() == 0 {
        None
    } else if parts.first().name == name {
        Some(0)
    } else {
        match position(parts.drop_first(), name) {
            Some(i) => Some(i + 1),
            None => None,
        }
    }
}

/// What `add` does to an aggregate `m`, and what it does to any other equipment.
pub open spec fn add_result(m: Model, part: Model) -> (Model, Result<(), Error>) {
    if m.aggregate {
        (m.with_part(part), Ok(()))
    } else {
        (m, Err(Error::NotSupported))
    }
}

/// What `remove` does to an aggregate `m`, and what it does to any other
/// equipment. Only the direct parts are searched.
pub open spec fn remove_result(m: Model, name: Seq<char>) -> (Model, Result<(), Error>) {
    if !m.aggregate {
        (m, Err(Error::NotSupported))
    } else {
        match position(m.parts, name) {
            Some(i) => (m.without_part(i), Ok(())),
            None => (m, Err(Error::NotFound)),
        }
    }
}

/// An equipment left as it was, with the refusal that a kind without parts gives.
pub open spec fn refused(m: Model) -> (Model, Result<(), Error>) {
    (m, Err(Error::NotSupported))
}

/// The models of a sequence of parts, in the same order.
pub open spec fn models(parts: Seq<Part>) -> Seq<Model> {
    parts.map_values(|p: Part| p@)
}

/// Whether `parts` are the parts `held`, one for one and in the same order.
pub open spec fn shows(parts: Seq<Part>, held: Seq<Model>) -> bool {
    &&& parts.len() == held.len()
    &&& forall|i: int| 0 <= i < parts.len() ==> (#[trigger] parts[i])@ == held[i]
}

/// The interface that every equipment answers to.
///
/// The part-management operations have default bodies, so that a kind
/// without parts states nothing about them.
pub trait Equipment {
    /// The equipment as a tree.
    spec fn model(&self) -> Model;

    /// The equipment's name.
    fn name(&self) -> (r: &str)
        ensures
            r@ == self.model().name,
    ;

    /// The power of the equipment and of all that it holds.
    fn power(&self) -> (r: Watt)
        requires
            total(self.model(), Attribute::Power) <= Watt::MAX,
        ensures
            r == total(self.model(), Attribute::Power),
    ;

    /// The net price of the equipment and of all that it holds.
    fn net_price(&self) -> (r: Currency)
        requires
            total(self.model(), Attribute::NetPrice) <= Currency::MAX,
        ensures
            r == total(self.model(), Attribute::NetPrice),
    ;

    /// The discount price of the equipment and of all that it holds.
    fn discount_price(&self) -> (r: Currency)
        requires
            total(self.model(), Attribute::DiscountPrice) <= Currency::MAX,
        ensures
            r == total(self.model(), Attribute::DiscountPrice),
    ;

    /// Appends `part` as the last part. A kind without parts refuses.
    fn add(&mut self, part: Part) -> (r: Result<(), Error>)
        ensures
            (final(self).model(), r) == add_result(old(self).model(), part@)
                || (final(self).model(), r) == refused(old(self).model()),
    {
        Err(Error::NotSupported)
    }

    /// Removes the first direct part whose name is `part_name`.
    /// A kind without parts refuses.
    fn remove(&mut self, part_name: &str) -> (r: Result<(), Error>)
        ensures
            (final(self).model(), r) == remove_result(old(self).model(), part_name@)
                || (final(self).model(), r) == refused(old(self).model()),
    {
        Err(Error::NotSupported)
    }

    /// The direct parts, oldest first. A kind without parts has none to show.
    fn parts(&self) -> (r: &[Part])
        ensures
            shows(r@, self.model().parts) || r@.len() == 0,
    {
        &[]
    }
}

/// An equipment without parts.
pub struct FloppyDisk {
    name: String,
    power: Watt,
    net_price: Currency,
    discount_price: Currency,
}

/// An equipment that owns an ordered sequence of parts.
pub struct Chassis {
    name: String,
    power: Watt,
    net_price: Currency,
    discount_price: Currency,
    parts: Vec<Part>,
}

/// An equipment of either kind, as a chassis holds it.
pub enum Part {
    FloppyDisk(FloppyDisk),
    Chassis(Chassis),
}

impl View for FloppyDisk {
    type V = Model;

    closed spec fn view(&self) -> Model {
        Model {
            name: self.name@,
            aggregate: false,
            power: self.power,
            net_price: self.net_price,
            discount_price: self.discount_price,
            parts: Seq::empty(),
        }
    }
}

spec fn chassis_model(chassis: &Chassis) -> Model
    decreases chassis,
{
    Model {
        name: chassis.name@,
        aggregate: true,
        power: chassis.power,
        net_price: chassis.net_price,
        discount_price: chassis.discount_price,
        parts: Seq::new(
            chassis.parts.len() as nat,
            |i: int|
                if 0 <= i < chassis.parts.len() {
                    part_model(&chassis.parts[i])
                } else {
                    arbitrary()
                },
        ),
    }
}

spec fn part_model(part: &Part) -> Model
    decreases part,
{
    match part {
        Part::FloppyDisk(floppy_disk) => floppy_disk@,
        Part::Chassis(chassis) => chassis_model(chassis),
    }
}

impl View for Chassis {
    type V = Model;

    closed spec fn view(&self) -> Model {
        chassis_model(self)
    }
}

impl View for Part {
    type V = Model;

    open spec fn view(&self) -> Model {
        match self {
            Part::FloppyDisk(floppy_disk) => floppy_disk@,
            Part::Chassis(chassis) => chassis@,
        }
    }
}

/// `position` finds the least index whose part carries `name`, and finds none
/// exactly when no part carries it.
pub proof fn lemma_position(parts: Seq<Model>, name: Seq<char>)
    ensures
        match position(parts, name) {
            Some(i) => {
                &&& 0 <= i < parts.len()
                &&& parts[i].name == name
                &&& forall|j: int| 0 <= j < i ==> parts[j].name != name
            },
            None => forall|j: int| 0 <= j < parts.len() ==> parts[j].name != name,
        },
    decreases parts.len(),
{
    if parts.len() > 0 && parts.first().name != name {
        let rest = parts.drop_first();
        lemma_position(rest, name);
        match position(rest, name) {
            Some(i) => {
                assert forall|j: int| 0 <= j < i + 1 implies parts[j].name != name by {
                    if j > 0 {
                        assert(parts[j] == rest[j - 1]);
                    }
                }
            },
            None => {
                assert forall|j: int| 0 <= j < parts.len() implies parts[j].name != name by {
                    if j > 0 {
                        assert(parts[j] == rest[j - 1]);
                    }
                }
            },
        }
    }
}

/// No total is less than the equipment's own value, which is not negative.
pub proof fn lemma_total_not_negative(m: Model, a: Attribute)
    ensures
        0 <= m.own(a) <= total(m, a),
    decreases m, 1int,
{
    lemma_parts_total_not_negative(m, a, 0);
}

/// No sum of the totals of parts is negative.
pub proof fn lemma_parts_total_not_negative(m: Model, a: Attribute, from: int)
    ensures
        0 <= parts_total(m, a, from),
    decreases m, 0int, m.parts.len() - from,
{
    if 0 <= from < m.parts.len() {
        lemma_total_not_negative(m.parts[from], a);
        lemma_parts_total_not_negative(m, a, from + 1);
    }
}

impl FloppyDisk {
    /// A floppy disk with the given name, power and prices.
    pub fn new(name: &str, power: Watt, net_price: Currency, discount_price: Currency) -> (r: Self)
        ensures
            r@ == (Model {
                name: name@,
                aggregate: false,
                power,
                net_price,
                discount_price,
                parts: Seq::empty(),
            }),
    {
        FloppyDisk { name: name.to_owned(), power, net_price, discount_price }
    }

    /// A floppy disk is no aggregate and has no parts.
    pub proof fn lemma_is_leaf(&self)
        ensures
            !self@.aggregate,
            self@.parts.len() == 0,
    {
    }
}

impl Equipment for FloppyDisk {
    open spec fn model(&self) -> Model {
        self@
    }

    fn name(&self) -> (r: &str) {
        self.name.as_str()
    }

    fn power(&self) -> (r: Watt) {
        self.power
    }

    fn net_price(&self) -> (r: Currency) {
        self.net_price
    }

    fn discount_price(&self) -> (r: Currency) {
        self.discount_price
    }
}

impl Chassis {
    /// A chassis with the given name, power and prices of its own, and no parts.
    pub fn new(name: &str, power: Watt, net_price: Currency, discount_price: Currency) -> (r: Self)
        ensures
            r@ == (Model {
                name: name@,
                aggregate: true,
                power,
                net_price,
                discount_price,
                parts: Seq::empty(),
            }),
    {
        let r = Chassis { name: name.to_owned(), power, net_price, discount_price, parts: Vec::new() };
        proof {
            r.lemma_view();
            assert(r@.parts =~= Seq::empty());
        }
        r
    }

    /// A chassis is an aggregate.
    pub proof fn lemma_is_aggregate(&self)
        ensures
            self@.aggregate,
    {
    }

    proof fn lemma_view(&self)
        ensures
            self@.name == self.name@,
            self@.aggregate,
            self@.power == self.power,
            self@.net_price == self.net_price,
            self@.discount_price == self.discount_price,
            self@.parts == models(self.parts@),
    {
        assert(self@.parts.len() == self.parts@.len());
        assert forall|i: int| 0 <= i < self.parts@.len() implies self@.parts[i] == models(
            self.parts@,
        )[i] by {
            assert(self@.parts[i] == part_model(&self.parts[i]));
        }
        assert(self@.parts =~= models(self.parts@));
    }

    /// Attribute `a` summed over the direct parts, each with all that it holds.
    fn parts_sum(&self, a: Attribute) -> (r: u32)
        requires
            total(self@, a) <= u32::MAX,
        ensures
            r == parts_total(self@, a, 0),
        decreases self, 0int,
    {
        proof {
            self.lemma_view();
            lemma_total_not_negative(self@, a);
        }
        let n = self.parts.len();
        let mut sum: u32 = 0;
        let mut i: usize = 0;
        while i < n
            invariant
                i <= n,
                n == self.parts@.len(),
                self@.parts == models(self.parts@),
                parts_total(self@, a, 0) <= u32::MAX,
                sum + parts_total(self@, a, i as int) == parts_total(self@, a, 0),
            decreases n - i,
        {
            proof {
                lemma_parts_total_not_negative(self@, a, i as int + 1);
            }
            let part = &self.parts[i];
            let value = match a {
                Attribute::Power => part.power(),
                Attribute::NetPrice => part.net_price(),
                Attribute::DiscountPrice => part.discount_price(),
            };
            sum = sum + value;
            i = i + 1;
        }
        sum
    }
}

impl Equipment for Chassis {
    open spec fn model(&self) -> Model {
        self@
    }

    fn name(&self) -> (r: &str) {
        self.name.as_str()
    }

    fn power(&self) -> (r: Watt)
        decreases self, 1int,
    {
        let sum = self.parts_sum(Attribute::Power);
        sum + self.power
    }

    fn net_price(&self) -> (r: Currency)
        decreases self, 1int,
    {
        let sum = self.parts_sum(Attribute::NetPrice);
        sum + self.net_price
    }

    fn discount_price(&self) -> (r: Currency)
        decreases self, 1int,
    {
        let sum = self.parts_sum(Attribute::DiscountPrice);
        sum + self.discount_price
    }

    fn add(&mut self, part: Part) -> (r: Result<(), Error>)
        ensures
            (final(self)@, r) == add_result(old(self)@, part@),
            r is Ok,
    {
        proof {
            self.lemma_view();
        }
        self.parts.push(part);
        proof {
            self.lemma_view();
            assert(models(self.parts@) =~= models(old(self).parts@).push(part@));
        }
        Ok(())
    }

    fn remove(&mut self, part_name: &str) -> (r: Result<(), Error>)
        ensures
            (final(self)@, r) == remove_result(old(self)@, part_name@),
    {
        proof {
            self.lemma_view();
        }
        let n = self.parts.len();
        let mut i: usize = 0;
        while i < n
            invariant
                i <= n,
                n == self.parts@.len(),
                *self == *old(self),
                self@.aggregate,
                self@.parts == models(self.parts@),
                forall|j: int| 0 <= j < i ==> self@.parts[j].name != part_name@,
            decreases n - i,
        {
            if same_text(self.parts[i].name(), part_name) {
                let ghost before = self@;
                proof {
                    assert(before.parts[i as int] == self.parts@[i as int]@);
                    lemma_position(before.parts, part_name@);
                    assert(position(before.parts, part_name@) == Some(i as int));
                }
                self.parts.remove(i);
                proof {
                    self.lemma_view();
                    assert(self@.parts =~= before.parts.remove(i as int));
                    assert(self@ == before.without_part(i as int));
                }
                return Ok(());
            }
            i = i + 1;
        }
        proof {
            lemma_position(self@.parts, part_name@);
        }
        Err(Error::NotFound)
    }

    fn parts(&self) -> (r: &[Part])
        ensures
            shows(r@, self@.parts),
    {
        proof {
            self.lemma_view();
        }
        self.parts.as_slice()
    }
}

impl Equipment for Part {
    open spec fn model(&self) -> Model {
        self@
    }

    fn name(&self) -> (r: &str) {
        match self {
            Part::FloppyDisk(floppy_disk) => floppy_disk.name(),
            Part::Chassis(chassis) => chassis.name(),
        }
    }

    fn power(&self) -> (r: Watt)
        decreases self, 0int,
    {
        match self {
            Part::FloppyDisk(floppy_disk) => floppy_disk.power(),
            Part::Chassis(chassis) => chassis.power(),
        }
    }

    fn net_price(&self) -> (r: Currency)
        decreases self, 0int,
    {
        match self {
            Part::FloppyDisk(floppy_disk) => floppy_disk.net_price(),
            Part::Chassis(chassis) => chassis.net_price(),
        }
    }

    fn discount_price(&self) -> (r: Currency)
        decreases self, 0int,
    {
        match self {
            Part::FloppyDisk(floppy_disk) => floppy_disk.discount_price(),
            Part::Chassis(chassis) => chassis.discount_price(),
        }
    }

    fn add(&mut self, part: Part) -> (r: Result<(), Error>)
        ensures
            (final(self)@, r) == add_result(old(self)@, part@),
    {
        match self {
            Part::FloppyDisk(floppy_disk) => floppy_disk.add(part),
            Part::Chassis(chassis) => chassis.add(part),
        }
    }

    fn remove(&mut self, part_name: &str) -> (r: Result<(), Error>)
        ensures
            (final(self)@, r) == remove_result(old(self)@, part_name@),
    {
        match self {
            Part::FloppyDisk(floppy_disk) => floppy_disk.remove(part_name),
            Part::Chassis(chassis) => chassis.remove(part_name),
        }
    }

    fn parts(&self) -> (r: &[Part])
        ensures
            shows(r@, self@.parts),
    {
        match self {
            Part::FloppyDisk(floppy_disk) => floppy_disk.parts(),
            Part::Chassis(chassis) => chassis.parts(),
        }
    }
}

/// For every equipment and every attribute, the total is the equipment's own
/// value and the totals of its direct parts, each of which is made up in the
/// same way; an equipment without parts has its own value alone.
pub proof fn law_total_is_own_and_parts(m: Model, a: Attribute)
    ensures
        total(m, a) == m.own(a) + parts_total(m, a, 0),
        m.parts.len() == 0 ==> total(m, a) == m.own(a),
        forall|i: int|
            0 <= i < m.parts.len() ==> #[trigger] parts_total(m, a, i) == total(m.parts[i], a)
                + parts_total(m, a, i + 1),
        parts_total(m, a, m.parts.len() as int) == 0,
{
}

/// A new part adds its total to that of the equipment that takes it.
pub proof fn law_total_after_add(m: Model, part: Model, a: Attribute)
    ensures
        total(m.with_part(part), a) == total(m, a) + total(part, a),
{
    lemma_parts_total_after_push(m, part, a, 0);
}

proof fn lemma_parts_total_after_push(m: Model, part: Model, a: Attribute, from: int)
    requires
        0 <= from <= m.parts.len(),
    ensures
        parts_total(m.with_part(part), a, from) == parts_total(m, a, from) + total(part, a),
    decreases m.parts.len() - from,
{
    let more = m.with_part(part);
    if from < m.parts.len() {
        assert(more.parts[from] == m.parts[from]);
        lemma_parts_total_after_push(m, part, a, from + 1);
    } else {
        assert(more.parts[from] == part);
        assert(parts_total(more, a, from + 1) == 0);
    }
}

/// A part that leaves takes its total out of that of the equipment that held it.
pub proof fn law_total_after_remove(m: Model, i: int, a: Attribute)
    requires
        0 <= i < m.parts.len(),
    ensures
        total(m.without_part(i), a) == total(m, a) - total(m.parts[i], a),
{
    lemma_parts_total_after_remove(m, i, a, 0);
}

proof fn lemma_parts_total_after_remove(m: Model, i: int, a: Attribute, from: int)
    requires
        0 <= i < m.parts.len(),
        0 <= from <= m.parts.len(),
    ensures
        from <= i ==> parts_total(m.without_part(i), a, from) == parts_total(m, a, from) - total(
            m.parts[i],
            a,
        ),
        from > i ==> parts_total(m.without_part(i), a, from - 1) == parts_total(m, a, from),
    decreases m.parts.len() - from,
{
    let less = m.without_part(i);
    if from < m.parts.len() {
        lemma_parts_total_after_remove(m, i, a, from + 1);
        if from < i {
            assert(less.parts[from] == m.parts[from]);
        } else if from > i {
            assert(less.parts[from - 1] == m.parts[from]);
        }
    }
}

/// Parts stay in the order in which they were added: `add` puts the new part
/// behind all the others and moves none of them.
pub proof fn law_add_appends(m: Model, part: Model)
    requires
        m.aggregate,
    ensures
        add_result(m, part).1 is Ok,
        add_result(m, part).0.parts.len() == m.parts.len() + 1,
        add_result(m, part).0.parts.last() == part,
        forall|j: int| 0 <= j < m.parts.len() ==> add_result(m, part).0.parts[j] == m.parts[j],
{
}

/// Removing a part leaves the others in their order: those before it keep
/// their index, those behind it move up by one.
pub proof fn law_remove_keeps_order(m: Model, name: Seq<char>)
    requires
        m.aggregate,
    ensures
        match position(m.parts, name) {
            Some(i) => {
                let rest = remove_result(m, name).0.parts;
                &&& forall|j: int| 0 <= j < i ==> rest[j] == m.parts[j]
                &&& forall|j: int| i <= j < rest.len() ==> rest[j] == m.parts[j + 1]
            },
            None => remove_result(m, name).0.parts == m.parts,
        },
{
    lemma_position(m.parts, name);
}

/// `add` succeeds on every chassis and is refused by every floppy disk.
pub proof fn law_add_by_kind(chassis: Chassis, floppy_disk: FloppyDisk, part: Model)
    ensures
        add_result(chassis@, part).1 is Ok,
        add_result(floppy_disk@, part) == refused(floppy_disk@),
{
}

/// `remove` is refused by every floppy disk, whatever the name.
pub proof fn law_remove_on_leaf(floppy_disk: FloppyDisk, name: Seq<char>)
    ensures
        remove_result(floppy_disk@, name) == refused(floppy_disk@),
{
}

/// `remove` looks at the direct parts only. Where none of them carries `name`,
/// it fails with `NotFound` and changes nothing, whatever lies deeper in the
/// tree; where one does, exactly one part leaves.
pub proof fn law_remove_is_direct_only(m: Model, name: Seq<char>)
    requires
        m.aggregate,
    ensures
        (forall|j: int| 0 <= j < m.parts.len() ==> m.parts[j].name != name) ==> remove_result(
            m,
            name,
        ) == (m, Err::<(), Error>(Error::NotFound)),
        (exists|j: int| 0 <= j < m.parts.len() && m.parts[j].name == name) ==> {
            &&& remove_result(m, name).1 is Ok
            &&& remove_result(m, name).0.parts.len() == m.parts.len() - 1
        },
{
    lemma_position(m.parts, name);
}

} // verus!
