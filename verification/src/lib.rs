//! A task tracker: tasks with a status and two timestamps, kept in an ordered
//! store that hands out ids, and the commands that change or list the store.
//!
//! Everything here works on values in memory. Reading and writing the storage
//! file is left to the program that links this library.

pub mod cli;
pub mod commands;
pub mod error;
pub mod history;
pub mod models;
pub mod text;
