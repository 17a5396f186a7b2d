use vstd::prelude::*;
use crate::laws::lemma_delete_leaves_no_id;
use crate::store::{
    created_task, has_task_with_id, spec_create, spec_delete, task_views, TaskStore,
};
use crate::task::{error_task, sentinel_task_view, task_id, Task};

verus! {

/// The status body the delete handler returns.
pub struct StatusMessage {
    pub status: String,
    pub message: String,
}

/// Mathematical image of a [`StatusMessage`].
pub ghost struct StatusMessageView {
    pub status: Seq<char>,
    pub message: Seq<char>,
}

impl View for StatusMessage {
    type V = StatusMessageView;

    open spec fn view(&self) -> StatusMessageView {
        StatusMessageView { status: self.status@, message: self.message@ }
    }
}

/// The body reported when the delete statement ran, whether or not any row
/// matched.
pub open spec fn delete_success_view() -> StatusMessageView {
    StatusMessageView { status: "success"@, message: "Task deleted successfully"@ }
}

/// The body reported when the delete statement itself failed.
pub open spec fn delete_error_view() -> StatusMessageView {
    StatusMessageView { status: "error"@, message: "Task not found"@ }
}

/// Lists every stored task, in store order. The list operation on the store
/// itself cannot fail; see [`list_or_empty`] for the degradation applied at a
/// failing query boundary.
pub fn get_tasks(store: &TaskStore) -> (r: Vec<Task>)
    ensures
        task_views(r@) == store@.tasks,
{
    store.list()
}

/// Creates a task from the request body. The request's `id` field is ignored:
/// the store assigns the id, and the returned task carries it, strictly
/// greater than the id of every task stored before. When the store cannot
/// assign a further id, the store is left unchanged and the sentinel payload
/// is returned in place of an error status.
pub fn create_task(store: &mut TaskStore, req: Task) -> (r: Task)
    requires
        old(store).wf(),
    ensures
        final(store).wf(),
        old(store)@.next_id < i32::MAX as int ==> {
            &&& final(store)@ == spec_create(
                old(store)@,
                req@.title,
                req@.description,
                req@.completed,
            )
            &&& r@ == created_task(old(store)@, req@.title, req@.description, req@.completed)
            &&& forall|i: int|
                0 <= i < old(store)@.tasks.len() ==> task_id(#[trigger] old(store)@.tasks[i])
                    < task_id(r@)
        },
        old(store)@.next_id == i32::MAX as int ==> final(store)@ == old(store)@ && r@
            == sentinel_task_view(),
{
    let Task { id: _, title, description, completed } = req;
    if store.can_insert() {
        store.insert(title, description, completed)
    } else {
        error_task()
    }
}

/// Deletes every row carrying `id`; deleting zero rows is not an error, so
/// the success body is returned either way. No row with `id` survives.
pub fn delete_task(store: &mut TaskStore, id: i32) -> (r: StatusMessage)
    requires
        old(store).wf(),
    ensures
        final(store).wf(),
        final(store)@ == spec_delete(old(store)@, id as int),
        !has_task_with_id(final(store)@.tasks, id as int),
        r@ == delete_success_view(),
{
    store.remove_by_id(id);
    proof {
        lemma_delete_leaves_no_id(old(store)@, id as int);
    }
    delete_response(true)
}

/// Maps the outcome of the delete statement to the response body: failure is
/// reported inside the payload, never as a transport error.
pub fn delete_response(ok: bool) -> (r: StatusMessage)
    ensures
        r@ == if ok {
            delete_success_view()
        } else {
            delete_error_view()
        },
{
    if ok {
        StatusMessage {
            status: String::from_str("success"),
            message: String::from_str("Task deleted successfully"),
        }
    } else {
        StatusMessage {
            status: String::from_str("error"),
            message: String::from_str("Task not found"),
        }
    }
}

/// The degradation the list handler applies at a failing query boundary: a
/// load that did not return rows becomes the empty list, never an error.
pub fn list_or_empty(fetched: Option<Vec<Task>>) -> (r: Vec<Task>)
    ensures
        match fetched {
            Some(tasks) => r == tasks,
            None => r@.len() == 0,
        },
{
    match fetched {
        Some(tasks) => tasks,
        None => Vec::new(),
    }
}

/// The degradation the create handler applies when the inserted row could not
/// be read back: the sentinel payload stands in for the created task.
pub fn create_response(fetched: Option<Task>) -> (r: Task)
    ensures
        match fetched {
            Some(t) => r == t,
            None => r@ == sentinel_task_view(),
        },
{
    match fetched {
        Some(t) => t,
        None => error_task(),
    }
}

} // verus!
