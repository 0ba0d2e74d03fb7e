use composite_visitor::composite::exam::{Chassis, Equipment, FloppyDisk, Part};
use composite_visitor::composite::Error;

#[test]
fn composite_exam() {
    let mut chassis1 = Chassis::new("Chassis 1", 10, 100, 90);
    chassis1.add(Part::FloppyDisk(FloppyDisk::new("Floppy 1", 1, 10, 9))).unwrap();

    let mut chassis2 = Chassis::new("Chassis 2", 20, 200, 190);
    chassis2.add(Part::FloppyDisk(FloppyDisk::new("Floppy 2", 2, 20, 19))).unwrap();
    chassis2.add(Part::FloppyDisk(FloppyDisk::new("Floppy 3", 3, 30, 29))).unwrap();
    chassis2.add(Part::Chassis(chassis1)).unwrap();
    assert_eq!(chassis2.parts().len(), 3);
    assert_eq!(chassis2.net_price(), 360);

    chassis2.remove("Floppy 3").unwrap();
    assert_eq!(chassis2.parts().len(), 2);
    assert_eq!(chassis2.net_price(), 330);
}

fn worked_example() -> Chassis {
    let mut x1 = Chassis::new("X1", 10, 100, 90);
    x1.add(Part::FloppyDisk(FloppyDisk::new("F1", 1, 10, 9))).unwrap();
    let mut x2 = Chassis::new("X2", 20, 200, 190);
    x2.add(Part::FloppyDisk(FloppyDisk::new("F2", 2, 20, 19))).unwrap();
    x2.add(Part::FloppyDisk(FloppyDisk::new("F3", 3, 30, 29))).unwrap();
    x2.add(Part::Chassis(x1)).unwrap();
    x2
}

#[test]
fn totals_of_the_worked_example() {
    let mut x2 = worked_example();
    assert_eq!(x2.name(), "X2");
    assert_eq!(x2.power(), 20 + 2 + 3 + (10 + 1));
    assert_eq!(x2.net_price(), 200 + 20 + 30 + (100 + 10));
    assert_eq!(x2.net_price(), 360);
    assert_eq!(x2.discount_price(), 190 + 19 + 29 + (90 + 9));

    x2.remove("F3").unwrap();
    assert_eq!(x2.parts().len(), 2);
    assert_eq!(x2.net_price(), 330);
    assert_eq!(x2.power(), 33);
    assert_eq!(x2.discount_price(), 308);
}

#[test]
fn floppy_disk_has_its_own_values_alone() {
    let mut floppy = FloppyDisk::new("Floppy", 4, 40, 39);
    assert_eq!(floppy.name(), "Floppy");
    assert_eq!(floppy.power(), 4);
    assert_eq!(floppy.net_price(), 40);
    assert_eq!(floppy.discount_price(), 39);
    assert_eq!(floppy.parts().len(), 0);
    assert_eq!(
        floppy.add(Part::FloppyDisk(FloppyDisk::new("Other", 1, 1, 1))),
        Err(Error::NotSupported)
    );
    assert_eq!(floppy.remove("Floppy"), Err(Error::NotSupported));
}

#[test]
fn empty_chassis_has_its_own_values_alone() {
    let mut chassis = Chassis::new("Empty", 5, 50, 45);
    assert_eq!(chassis.power(), 5);
    assert_eq!(chassis.net_price(), 50);
    assert_eq!(chassis.discount_price(), 45);
    assert_eq!(chassis.parts().len(), 0);
    assert_eq!(chassis.remove("Empty"), Err(Error::NotFound));
}

#[test]
fn parts_come_in_insertion_order() {
    let mut chassis = Chassis::new("C", 0, 0, 0);
    for name in ["b", "a", "d", "c"] {
        chassis.add(Part::FloppyDisk(FloppyDisk::new(name, 1, 1, 1))).unwrap();
    }
    let names: Vec<&str> = chassis.parts().iter().map(|p| p.name()).collect();
    assert_eq!(names, vec!["b", "a", "d", "c"]);
    chassis.remove("a").unwrap();
    let names: Vec<&str> = chassis.parts().iter().map(|p| p.name()).collect();
    assert_eq!(names, vec!["b", "d", "c"]);
}

#[test]
fn remove_by_name_is_direct_only() {
    let mut x2 = worked_example();
    assert_eq!(x2.remove("F1"), Err(Error::NotFound));
    assert_eq!(x2.parts().len(), 3);
    assert_eq!(x2.net_price(), 360);
    assert_eq!(x2.remove("X1"), Ok(()));
    assert_eq!(x2.parts().len(), 2);
    assert_eq!(x2.net_price(), 250);
}

#[test]
fn remove_compares_whole_names() {
    let mut chassis = Chassis::new("C", 0, 0, 0);
    chassis.add(Part::FloppyDisk(FloppyDisk::new("Floppy 10", 1, 1, 1))).unwrap();
    assert_eq!(chassis.remove("Floppy 1"), Err(Error::NotFound));
    assert_eq!(chassis.remove("Floppy 100"), Err(Error::NotFound));
    assert_eq!(chassis.remove(""), Err(Error::NotFound));
    assert_eq!(chassis.remove("Floppy 10"), Ok(()));
}

#[test]
fn part_dispatches_by_kind() {
    let mut part = Part::Chassis(worked_example());
    assert_eq!(part.name(), "X2");
    assert_eq!(part.net_price(), 360);
    assert_eq!(part.add(Part::FloppyDisk(FloppyDisk::new("F4", 4, 40, 39))), Ok(()));
    assert_eq!(part.net_price(), 400);
    assert_eq!(part.parts().len(), 4);
    assert_eq!(part.parts()[3].name(), "F4");

    let mut leaf = Part::FloppyDisk(FloppyDisk::new("F", 1, 2, 3));
    assert_eq!(leaf.power(), 1);
    assert_eq!(leaf.discount_price(), 3);
    assert_eq!(leaf.add(Part::FloppyDisk(FloppyDisk::new("G", 1, 2, 3))), Err(Error::NotSupported));
    assert_eq!(leaf.remove("G"), Err(Error::NotSupported));
    assert_eq!(leaf.parts().len(), 0);
}
