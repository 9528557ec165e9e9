//! An in-memory task list: an ordered store of tasks, each carrying a
//! description, a completion flag, and a unique 128-bit identifier, with
//! create, list, update and delete operations.

pub mod ids;
pub mod laws;
pub mod store;
pub mod task;
