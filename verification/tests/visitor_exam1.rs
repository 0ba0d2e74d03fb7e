use composite_visitor::visitor::exam1::{
    Chassis, Equipment, EquipmentVisitor, FloppyDisk, Inventory, InventoryVisitor, Model, Part,
    PricingVisitor,
};
use std::collections::HashMap;

fn equipments() -> Vec<Part> {
    vec![
        Part::FloppyDisk(FloppyDisk::new("Floppy", 1, 10, 9)),
        Part::Chassis(Chassis::new(
            "Chassis",
            10,
            100,
            90,
            vec![
                Part::FloppyDisk(FloppyDisk::new("Floppy", 2, 20, 19)),
                Part::FloppyDisk(FloppyDisk::new("Floppy", 3, 30, 29)),
                Part::Chassis(Chassis::new(
                    "Chassis",
                    20,
                    200,
                    190,
                    vec![Part::FloppyDisk(FloppyDisk::new("Floppy", 4, 40, 39))],
                )),
            ],
        )),
    ]
}

#[test]
fn visitor_exam1() {
    let mut equipments = equipments();

    let mut v = PricingVisitor::new();
    for e in equipments.iter_mut() {
        e.accept(&mut v);
    }
    assert_eq!(v.total_price(), 380);

    let mut v = InventoryVisitor::new();
    for e in equipments.iter_mut() {
        e.accept(&mut v);
    }
    let list: HashMap<String, u32> = v.inventory().list().iter().cloned().collect();
    assert_eq!(
        &list,
        &HashMap::from([("Floppy".to_string(), 4), ("Chassis".to_string(), 2),])
    );
    assert_eq!(v.inventory().list().len(), 2);
}

#[test]
fn pricing_takes_net_price_of_disks_and_discount_price_of_chassis() {
    let mut v = PricingVisitor::new();
    assert_eq!(v.total_price(), 0);
    FloppyDisk::new("F", 1, 10, 9).accept(&mut v);
    assert_eq!(v.total_price(), 10);
    Chassis::new("C", 10, 100, 90, Vec::new()).accept(&mut v);
    assert_eq!(v.total_price(), 100);
    Chassis::new("C", 1, 7, 5, vec![Part::FloppyDisk(FloppyDisk::new("F", 1, 2, 1))])
        .accept(&mut v);
    assert_eq!(v.total_price(), 107);
}

#[test]
fn getters_give_own_values() {
    let chassis = Chassis::new(
        "Chassis",
        10,
        100,
        90,
        vec![Part::FloppyDisk(FloppyDisk::new("Floppy", 2, 20, 19))],
    );
    assert_eq!(chassis.name(), "Chassis");
    assert_eq!(chassis.power(), 10);
    assert_eq!(chassis.net_price(), 100);
    assert_eq!(chassis.discount_price(), 90);
    let part = Part::FloppyDisk(FloppyDisk::new("Floppy", 2, 20, 19));
    assert_eq!(part.name(), "Floppy");
    assert_eq!(part.power(), 2);
    assert_eq!(part.net_price(), 20);
    assert_eq!(part.discount_price(), 19);
    let part = Part::Chassis(chassis);
    assert_eq!(part.name(), "Chassis");
    assert_eq!(part.net_price(), 100);
}

struct NameRecorder {
    seen: Vec<String>,
}

impl EquipmentVisitor for NameRecorder {
    type State = ();

    fn state(&self) {}

    fn admits_floppy_disk(_state: (), _floppy_disk: Model) -> bool {
        true
    }

    fn after_floppy_disk(_state: (), _floppy_disk: Model) {}

    fn admits_chassis(_state: (), _chassis: Model) -> bool {
        true
    }

    fn after_chassis(_state: (), _chassis: Model) {}

    fn visit_floppy_disk(&mut self, floppy_disk: &mut FloppyDisk) {
        self.seen.push(floppy_disk.name().to_string());
    }

    fn visit_chassis(&mut self, chassis: &mut Chassis) {
        self.seen.push(chassis.name().to_string());
    }
}

#[test]
fn parts_are_visited_in_order_before_their_chassis() {
    let mut a = Chassis::new(
        "A",
        0,
        0,
        0,
        vec![
            Part::FloppyDisk(FloppyDisk::new("C1", 0, 0, 0)),
            Part::FloppyDisk(FloppyDisk::new("C2", 0, 0, 0)),
        ],
    );
    let mut recorder = NameRecorder { seen: Vec::new() };
    a.accept(&mut recorder);
    assert_eq!(recorder.seen, vec!["C1", "C2", "A"]);

    let mut outer = Chassis::new(
        "Outer",
        0,
        0,
        0,
        vec![
            Part::FloppyDisk(FloppyDisk::new("First", 0, 0, 0)),
            Part::Chassis(a),
            Part::FloppyDisk(FloppyDisk::new("Last", 0, 0, 0)),
        ],
    );
    let mut recorder = NameRecorder { seen: Vec::new() };
    outer.accept(&mut recorder);
    assert_eq!(recorder.seen, vec!["First", "C1", "C2", "A", "Last", "Outer"]);
}

#[test]
fn inventory_counts_by_name() {
    let mut inventory = Inventory::new();
    assert_eq!(inventory.list().len(), 0);
    assert_eq!(inventory.quantity("Floppy"), None);

    inventory.accumulate("Floppy");
    assert_eq!(inventory.quantity("Floppy"), Some(&1));
    assert_eq!(inventory.quantity("Chassis"), None);

    inventory.accumulate("Chassis");
    inventory.accumulate("Floppy");
    inventory.accumulate("Floppy");
    assert_eq!(inventory.quantity("Floppy"), Some(&3));
    assert_eq!(inventory.quantity("Chassis"), Some(&1));
    assert_eq!(inventory.quantity("floppy"), None);
    assert_eq!(inventory.quantity(""), None);

    let mut list = inventory.list().clone();
    list.sort();
    assert_eq!(list, vec![("Chassis".to_string(), 1), ("Floppy".to_string(), 3)]);
}

#[test]
fn tally_is_the_count_of_each_name_met() {
    let mut tree = Chassis::new(
        "x",
        0,
        0,
        0,
        vec![
            Part::FloppyDisk(FloppyDisk::new("y", 0, 0, 0)),
            Part::Chassis(Chassis::new(
                "y",
                0,
                0,
                0,
                vec![
                    Part::FloppyDisk(FloppyDisk::new("x", 0, 0, 0)),
                    Part::FloppyDisk(FloppyDisk::new("z", 0, 0, 0)),
                    Part::FloppyDisk(FloppyDisk::new("y", 0, 0, 0)),
                ],
            )),
        ],
    );
    let mut v = InventoryVisitor::new();
    tree.accept(&mut v);
    assert_eq!(v.inventory().quantity("x"), Some(&2));
    assert_eq!(v.inventory().quantity("y"), Some(&3));
    assert_eq!(v.inventory().quantity("z"), Some(&1));
    assert_eq!(v.inventory().quantity("w"), None);
    assert_eq!(v.inventory().list().len(), 3);

    tree.accept(&mut v);
    assert_eq!(v.inventory().quantity("x"), Some(&4));
    assert_eq!(v.inventory().quantity("y"), Some(&6));
    assert_eq!(v.inventory().quantity("z"), Some(&2));
}
