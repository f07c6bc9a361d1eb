//! An in-memory task store: users, each owning a collection of tasks, with
//! create / list / get / update / delete operations scoped by user identifier.
//!
//! Identifiers are 128-bit values (the integer form of a version-4 UUID).
pub mod db;
mod ids;
pub mod laws;
pub mod model;

pub use db::{
    create_task_for_user, create_user_in_db, delete_task_from_db, get_task_for_user,
    get_tasks_for_user, update_task_in_db, Db,
};
pub use ids::fresh_key;
pub use model::{CreateTask, CreateUser, ErrorResponse, StoreError, Task, TaskStatus, User};
