//! Verified core of a Rust primer: plain functions and borrowing, a
//! command-line to-do list, a key-driven counter, an in-memory to-do store
//! for a REST service, and the hand-written forms of a few macros.
pub mod basics;
pub mod todo_api;
pub mod todo_laws;
pub mod todo_cli;
pub mod counter;
pub mod macro_forms;
pub mod todo_db;
