//! The commands. Each works on a store in memory: the caller reads the store
//! before and writes it back after a command that changed it.

pub mod add;
pub mod delete;
pub mod list;
pub mod mark;
pub mod update;
