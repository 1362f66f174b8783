//! Rows of the SQLite to-do table turned into values: the `done` column is
//! stored as an integer, where any value other than 0 means done.
use vstd::prelude::*;

verus! {

/// One row of the to-do table.
#[derive(Debug)]
pub struct Todo {
    pub id: i32,
    pub title: String,
    pub done: bool,
}

/// The item that a row with these column values stands for.
pub fn todo_from_row(id: i32, title: String, done: i32) -> (t: Todo)
    ensures
        t.id == id,
        t.title@ == title@,
        t.done == (done != 0),
{
    Todo { id, title, done: done != 0 }
}

} // verus!
