use geo_todo::model::CreateTodo;
use geo_todo::model::LocationTrigger;
use geo_todo::model::Todo;
use geo_todo::store::StoreError;
use geo_todo::store::TodoStore;

fn zone(id: u32, radius_mm: u64) -> LocationTrigger {
    LocationTrigger {
        id,
        name: String::from("Home"),
        latitude_e7: 377_749_000,
        longitude_e7: -1_224_194_000,
        radius_mm,
    }
}

fn payload(title: &str, triggers: Option<Vec<LocationTrigger>>) -> CreateTodo {
    CreateTodo {
        title: String::from(title),
        description: None,
        due_date: None,
        personal_notes: None,
        completion_percentage: None,
        location_triggers: triggers,
    }
}

#[test]
fn create_assigns_sequential_ids() {
    let mut store = TodoStore::new();
    let a = store.create(payload("first", None)).unwrap();
    let b = store.create(payload("second", None)).unwrap();
    assert_eq!(a.id, 1);
    assert_eq!(b.id, 2);
    assert!(!a.completed);
    assert_eq!(a.title, "first");
}

#[test]
fn create_rejects_invalid_payload() {
    let mut store = TodoStore::new();
    let r = store.create(payload("bad", Some(vec![zone(1, 0)])));
    assert_eq!(r.unwrap_err(), StoreError::InvalidTodo);
    // Nothing was stored and no identifier was burnt.
    assert_eq!(store.all().len(), 0);
    let a = store.create(payload("good", None)).unwrap();
    assert_eq!(a.id, 1);
}

#[test]
fn get_finds_by_id() {
    let mut store = TodoStore::new();
    store.create(payload("first", None)).unwrap();
    store.create(payload("second", Some(vec![zone(1, 100_000)]))).unwrap();
    let t = store.get(2).unwrap();
    assert_eq!(t.title, "second");
    assert_eq!(t.location_triggers.as_ref().unwrap().len(), 1);
    assert!(store.get(3).is_none());
}

#[test]
fn all_keeps_insertion_order() {
    let mut store = TodoStore::new();
    store.create(payload("first", None)).unwrap();
    store.create(payload("second", None)).unwrap();
    store.create(payload("third", None)).unwrap();
    let all = store.all();
    assert_eq!(all.len(), 3);
    assert_eq!(all[0].title, "first");
    assert_eq!(all[1].title, "second");
    assert_eq!(all[2].title, "third");
}

fn replacement(id: u32, title: &str, completed: bool) -> Todo {
    Todo {
        id,
        title: String::from(title),
        completed,
        description: None,
        due_date: None,
        personal_notes: None,
        completion_percentage: Some(75),
        location_triggers: None,
    }
}

#[test]
fn update_replaces_existing_record() {
    let mut store = TodoStore::new();
    store.create(payload("first", None)).unwrap();
    let t = store.update(1, replacement(1, "first, done", true)).unwrap();
    assert!(t.completed);
    assert_eq!(t.completion_percentage, Some(75));
    let back = store.get(1).unwrap();
    assert_eq!(back.title, "first, done");
    assert!(back.completed);
}

#[test]
fn update_keeps_the_requested_id() {
    let mut store = TodoStore::new();
    store.create(payload("first", None)).unwrap();
    // The record is stored under the identifier in the path, whatever the
    // payload claims.
    let t = store.update(1, replacement(99, "renumbered", false)).unwrap();
    assert_eq!(t.id, 1);
    assert!(store.get(99).is_none());
    assert_eq!(store.get(1).unwrap().title, "renumbered");
}

#[test]
fn update_missing_id_is_not_found() {
    let mut store = TodoStore::new();
    let r = store.update(1, replacement(1, "ghost", false));
    assert_eq!(r.unwrap_err(), StoreError::NotFound);
}

#[test]
fn update_rejects_invalid_record() {
    let mut store = TodoStore::new();
    store.create(payload("first", None)).unwrap();
    let mut bad = replacement(1, "broken", false);
    bad.completion_percentage = Some(101);
    let r = store.update(1, bad);
    assert_eq!(r.unwrap_err(), StoreError::InvalidTodo);
    assert_eq!(store.get(1).unwrap().title, "first");
}

#[test]
fn delete_removes_and_reports() {
    let mut store = TodoStore::new();
    store.create(payload("first", None)).unwrap();
    store.create(payload("second", None)).unwrap();
    assert!(store.delete(1));
    assert!(!store.delete(1));
    let all = store.all();
    assert_eq!(all.len(), 1);
    assert_eq!(all[0].title, "second");
    // Identifiers are never reused after a delete.
    let c = store.create(payload("third", None)).unwrap();
    assert_eq!(c.id, 3);
}
