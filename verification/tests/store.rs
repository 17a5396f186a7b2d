use task_backend::store::TaskStore;
use task_backend::task::Task;

fn task(title: &str) -> (String, String, bool) {
    (String::from(title), String::from("body"), false)
}

#[test]
fn new_store_starts_at_id_one() {
    let mut store = TaskStore::new();
    assert!(store.can_insert());
    let (t, d, c) = task("first");
    let created = store.insert(t, d, c);
    assert_eq!(created.id, Some(1));
}

#[test]
fn list_copies_every_row_in_order() {
    let mut store = TaskStore::new();
    for name in ["a", "b", "c"] {
        let (t, d, c) = task(name);
        store.insert(t, d, c);
    }
    let listed = store.list();
    let titles: Vec<&str> = listed.iter().map(|t| t.title.as_str()).collect();
    assert_eq!(titles, vec!["a", "b", "c"]);
    assert_eq!(listed[2].id, Some(3));
}

#[test]
fn remove_by_id_reports_whether_a_row_matched() {
    let mut store = TaskStore::new();
    let (t, d, c) = task("only");
    let created = store.insert(t, d, c);
    let id = created.id.unwrap();
    assert!(store.remove_by_id(id));
    assert!(!store.remove_by_id(id));
    assert_eq!(store.list().len(), 0);
}

#[test]
fn removing_keeps_the_other_rows_in_order() {
    let mut store = TaskStore::new();
    for name in ["a", "b", "c"] {
        let (t, d, c) = task(name);
        store.insert(t, d, c);
    }
    assert!(store.remove_by_id(2));
    let listed = store.list();
    let titles: Vec<&str> = listed.iter().map(|t| t.title.as_str()).collect();
    assert_eq!(titles, vec!["a", "c"]);
}

#[test]
fn duplicate_copies_every_field() {
    let original = Task {
        id: Some(5),
        title: String::from("t"),
        description: String::from("d"),
        completed: true,
    };
    let copy = original.duplicate();
    assert_eq!(copy.id, Some(5));
    assert_eq!(copy.title, "t");
    assert_eq!(copy.description, "d");
    assert!(copy.completed);
    assert!(original.has_id(5));
    assert!(!original.has_id(4));
    assert!(!Task { id: None, ..original }.has_id(5));
}
