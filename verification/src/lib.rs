//! The core of an in-memory task-list service: a task repository with
//! atomic create, list, update and delete operations, and request handlers
//! that turn each repository outcome into an HTTP status code and body,
//! including the exact JSON text of the task objects. Identifiers are issued
//! in strictly increasing order and never reused; the task sequence keeps
//! insertion order across updates and deletes.

pub mod task;
pub mod repo;
pub mod json;
pub mod http;
