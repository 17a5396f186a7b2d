use task_backend::handlers::{
    create_response, create_task, delete_response, delete_task, get_tasks, list_or_empty,
};
use task_backend::store::TaskStore;
use task_backend::task::Task;

fn request(title: &str, description: &str, completed: bool) -> Task {
    Task { id: None, title: String::from(title), description: String::from(description), completed }
}

#[test]
fn list_empty_store_returns_empty() {
    let store = TaskStore::new();
    let listed = get_tasks(&store);
    assert_eq!(listed.len(), 0);
}

#[test]
fn create_then_list_contains_exactly_the_created_task() {
    let mut store = TaskStore::new();
    let created = create_task(&mut store, request("A", "B", false));
    assert_eq!(created.id, Some(1));
    let listed = get_tasks(&store);
    assert_eq!(listed.len(), 1);
    assert_eq!(listed[0].id, Some(1));
    assert_eq!(listed[0].title, "A");
    assert_eq!(listed[0].description, "B");
    assert!(!listed[0].completed);
}

#[test]
fn create_then_delete_then_list_lacks_the_id() {
    let mut store = TaskStore::new();
    create_task(&mut store, request("keep me", "first", true));
    let created = create_task(&mut store, request("doomed", "second", false));
    let id = created.id.unwrap();
    let msg = delete_task(&mut store, id);
    assert_eq!(msg.status, "success");
    let listed = get_tasks(&store);
    assert!(listed.iter().all(|t| t.id != Some(id)));
    assert_eq!(listed.len(), 1);
    assert_eq!(listed[0].title, "keep me");
}

#[test]
fn delete_nonexistent_id_reports_success() {
    let mut store = TaskStore::new();
    create_task(&mut store, request("stays", "untouched", false));
    let msg = delete_task(&mut store, 42);
    assert_eq!(msg.status, "success");
    assert_eq!(msg.message, "Task deleted successfully");
    assert_eq!(get_tasks(&store).len(), 1);
}

#[test]
fn created_ids_are_unique_and_strictly_increasing() {
    let mut store = TaskStore::new();
    let mut seen: Vec<i32> = Vec::new();
    for k in 0..10 {
        let created = create_task(&mut store, request(&format!("t{}", k), "", k % 2 == 0));
        let id = created.id.expect("a valid create returns a non-null id");
        assert!(seen.iter().all(|prev| *prev < id));
        assert!(!seen.contains(&id));
        seen.push(id);
    }
    assert_eq!(seen, (1..=10).collect::<Vec<i32>>());
}

#[test]
fn create_ignores_the_request_id() {
    let mut store = TaskStore::new();
    let mut req = request("named", "", false);
    req.id = Some(99);
    let created = create_task(&mut store, req);
    assert_eq!(created.id, Some(1));
}

#[test]
fn delete_response_encodes_failure_in_the_payload() {
    let ok = delete_response(true);
    assert_eq!(ok.status, "success");
    assert_eq!(ok.message, "Task deleted successfully");
    let failed = delete_response(false);
    assert_eq!(failed.status, "error");
    assert_eq!(failed.message, "Task not found");
}

#[test]
fn create_response_degrades_to_the_sentinel() {
    let sentinel = create_response(None);
    assert_eq!(sentinel.id, None);
    assert_eq!(sentinel.title, "Error");
    assert_eq!(sentinel.description, "Failed to create task");
    assert!(!sentinel.completed);

    let fetched = Task { id: Some(7), title: String::from("x"), description: String::new(), completed: true };
    let echoed = create_response(Some(fetched));
    assert_eq!(echoed.id, Some(7));
    assert_eq!(echoed.title, "x");
    assert!(echoed.completed);
}

#[test]
fn list_or_empty_degrades_to_the_empty_list() {
    assert_eq!(list_or_empty(None).len(), 0);
    let rows = vec![request("a", "b", true)];
    let kept = list_or_empty(Some(rows));
    assert_eq!(kept.len(), 1);
    assert_eq!(kept[0].title, "a");
}
