use geo_todo::model::coordinate_in_range;
use geo_todo::model::todo_is_valid;
use geo_todo::model::LocationTrigger;
use geo_todo::model::Todo;

fn zone(id: u32, lat_e7: i64, lon_e7: i64, radius_mm: u64) -> LocationTrigger {
    LocationTrigger {
        id,
        name: String::from("zone"),
        latitude_e7: lat_e7,
        longitude_e7: lon_e7,
        radius_mm,
    }
}

fn bare_todo(id: u32, completed: bool, triggers: Option<Vec<LocationTrigger>>) -> Todo {
    Todo {
        id,
        title: String::from("todo"),
        completed,
        description: None,
        due_date: None,
        personal_notes: None,
        completion_percentage: None,
        location_triggers: triggers,
    }
}

#[test]
fn coordinate_range_accepts_bounds() {
    assert!(coordinate_in_range(0, 0));
    assert!(coordinate_in_range(900_000_000, 1_800_000_000));
    assert!(coordinate_in_range(-900_000_000, -1_800_000_000));
    assert!(coordinate_in_range(377_749_000, -1_224_194_000));
}

#[test]
fn coordinate_range_rejects_out_of_range() {
    assert!(!coordinate_in_range(900_000_001, 0));
    assert!(!coordinate_in_range(-900_000_001, 0));
    assert!(!coordinate_in_range(0, 1_800_000_001));
    assert!(!coordinate_in_range(0, -1_800_000_001));
}

#[test]
fn trigger_validity() {
    assert!(zone(1, 377_749_000, -1_224_194_000, 100_000).is_valid());
    // A zero radius is invalid configuration.
    assert!(!zone(1, 0, 0, 0).is_valid());
    // An out-of-range centre is invalid.
    assert!(!zone(1, 900_000_001, 0, 100_000).is_valid());
    assert!(!zone(1, 0, -1_800_000_001, 100_000).is_valid());
}

#[test]
fn todo_validity_checks_every_zone() {
    let good = bare_todo(1, false, Some(vec![zone(1, 0, 0, 1), zone(2, 10, 10, 1)]));
    assert!(todo_is_valid(&good));
    let bad = bare_todo(1, false, Some(vec![zone(1, 0, 0, 1), zone(2, 10, 10, 0)]));
    assert!(!todo_is_valid(&bad));
}

#[test]
fn todo_validity_checks_percentage() {
    let mut t = bare_todo(1, false, None);
    t.completion_percentage = Some(100);
    assert!(todo_is_valid(&t));
    t.completion_percentage = Some(101);
    assert!(!todo_is_valid(&t));
}

#[test]
fn todo_without_triggers_is_valid() {
    assert!(todo_is_valid(&bare_todo(1, true, None)));
    assert!(todo_is_valid(&bare_todo(1, false, Some(Vec::new()))));
}
