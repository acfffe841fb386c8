//! The data model: instants, tasks and the store that owns them.

pub mod list;
pub mod task;
pub mod timestamp;
