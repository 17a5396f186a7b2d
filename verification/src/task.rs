use vstd::prelude::*;

verus! {

/// The single persisted entity: a to-do item, one row of the `tasks` table.
///
/// `id` is `None` for a task that has not been stored yet; the store assigns
/// an id on insertion and never changes it afterwards.
pub struct Task {
    pub id: Option<i32>,
    pub title: String,
    pub description: String,
    pub completed: bool,
}

/// Mathematical image of a [`Task`]: the same fields over plain values.
pub ghost struct TaskView {
    pub id: Option<int>,
    pub title: Seq<char>,
    pub description: Seq<char>,
    pub completed: bool,
}

impl View for Task {
    type V = TaskView;

    open spec fn view(&self) -> TaskView {
        TaskView {
            id: match self.id {
                Some(n) => Some(n as int),
                None => None,
            },
            title: self.title@,
            description: self.description@,
            completed: self.completed,
        }
    }
}

/// The id of a stored task, or `-1` where none has been assigned yet.
pub open spec fn task_id(t: TaskView) -> int {
    match t.id {
        Some(n) => n,
        None => -1,
    }
}

impl Task {
    /// Whether the stored id of the task equals `id`.
    pub fn has_id(&self, id: i32) -> (b: bool)
        ensures
            b == (self@.id == Some(id as int)),
    {
        match self.id {
            Some(n) => n == id,
            None => false,
        }
    }

    /// A new task equal to the old one in every field.
    pub fn duplicate(&self) -> (t: Task)
        ensures
            t@ == self@,
    {
        Task {
            id: self.id,
            title: self.title.clone(),
            description: self.description.clone(),
            completed: self.completed,
        }
    }
}

/// The payload returned by the create handler when the store cannot take
/// another task: a well-formed task shape whose content signals the failure.
pub open spec fn sentinel_task_view() -> TaskView {
    TaskView {
        id: None,
        title: "Error"@,
        description: "Failed to create task"@,
        completed: false,
    }
}

/// Builds the failure payload of the create handler.
pub fn error_task() -> (t: Task)
    ensures
        t@ == sentinel_task_view(),
{
    Task {
        id: None,
        title: String::from_str("Error"),
        description: String::from_str("Failed to create task"),
        completed: false,
    }
}

} // verus!
