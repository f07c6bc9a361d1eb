use std::collections::HashMap;
use crate::ids::{id_text, uuid_text};
use vstd::prelude::*;
use vstd::string::StringExecFns;

verus! {

/// Input of user creation.
pub struct CreateUser {
    pub name: String,
}

/// Where a task stands. Any status may be replaced by any other.
#[derive(Clone, Copy, Debug, PartialEq, Eq, Structural)]
pub enum TaskStatus {
    ToDo,
    InProgress,
    Done,
}

/// Input of task creation and of task update: every field a task carries
/// beside its identifier.
pub struct CreateTask {
    pub title: String,
    pub description: String,
    pub due_date: String,
    pub status: TaskStatus,
}

/// What a task holds, identifier aside.
pub struct TaskFields {
    pub title: Seq<char>,
    pub description: Seq<char>,
    pub due_date: Seq<char>,
    pub status: TaskStatus,
}

impl View for CreateTask {
    type V = TaskFields;

    open spec fn view(&self) -> TaskFields {
        TaskFields {
            title: self.title@,
            description: self.description@,
            due_date: self.due_date@,
            status: self.status,
        }
    }
}

#[derive(Clone, Debug)]
pub struct Task {
    pub id: u128,
    pub title: String,
    pub description: String,
    pub due_date: String,
    pub status: TaskStatus,
}

impl View for Task {
    type V = TaskFields;

    open spec fn view(&self) -> TaskFields {
        TaskFields {
            title: self.title@,
            description: self.description@,
            due_date: self.due_date@,
            status: self.status,
        }
    }
}

impl Task {
    /// A field-for-field copy.
    pub fn duplicate(&self) -> (r: Task)
        ensures
            r == *self,
    {
        Task {
            id: self.id,
            title: self.title.clone(),
            description: self.description.clone(),
            due_date: self.due_date.clone(),
            status: self.status,
        }
    }
}

/// The abstract view of a task collection: identifier to fields.
pub open spec fn tasks_view(m: Map<u128, Task>) -> Map<u128, TaskFields> {
    m.map_values(|t: Task| t@)
}

/// Every task is stored under its own identifier.
pub open spec fn tasks_keyed_by_id(m: Map<u128, Task>) -> bool {
    forall|k: u128| #[trigger] m.contains_key(k) ==> m[k].id == k
}

#[derive(Clone, Debug)]
pub struct User {
    pub id: u128,
    pub name: String,
    pub tasks: HashMap<u128, Task>,
}

/// What a user holds, identifier aside.
pub struct UserFields {
    pub name: Seq<char>,
    pub tasks: Map<u128, TaskFields>,
}

impl View for User {
    type V = UserFields;

    open spec fn view(&self) -> UserFields {
        UserFields { name: self.name@, tasks: tasks_view(self.tasks@) }
    }
}

impl User {
    pub open spec fn wf(&self) -> bool {
        tasks_keyed_by_id(self.tasks@)
    }
}

/// The two ways a lookup fails, each with the identifier that was not found.
#[derive(Clone, Copy, Debug, PartialEq, Eq, Structural)]
pub enum StoreError {
    UserNotFound(u128),
    TaskNotFound(u128),
}

/// The message form of a failure, as the request layer reports it.
#[derive(Debug)]
pub struct ErrorResponse {
    pub error: String,
}

pub open spec fn message_of(e: StoreError) -> Seq<char> {
    match e {
        StoreError::UserNotFound(id) => "User with id "@ + uuid_text(id) + " not found"@,
        StoreError::TaskNotFound(id) => "Task with id "@ + uuid_text(id) + " not found"@,
    }
}

impl StoreError {
    /// The identifier that was looked up in vain.
    pub fn id(&self) -> (r: u128)
        ensures
            r == match *self {
                StoreError::UserNotFound(id) => id,
                StoreError::TaskNotFound(id) => id,
            },
    {
        match *self {
            StoreError::UserNotFound(id) => id,
            StoreError::TaskNotFound(id) => id,
        }
    }

    pub fn to_response(&self) -> (r: ErrorResponse)
        ensures
            r.error@ == message_of(*self),
    {
        proof {
            reveal_strlit("User with id ");
            reveal_strlit("Task with id ");
            reveal_strlit(" not found");
        }
        let head = match *self {
            StoreError::UserNotFound(_) => String::from_str("User with id "),
            StoreError::TaskNotFound(_) => String::from_str("Task with id "),
        };
        let text = id_text(self.id());
        let error = head.concat(text.as_str()).concat(" not found");
        ErrorResponse { error }
    }
}

} // verus!
