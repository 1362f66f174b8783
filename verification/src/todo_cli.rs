//! The decisions of a command-line to-do list: add an item, list the
//! items with their 1-based numbers, mark an item done by its number.
use vstd::prelude::*;

verus! {

/// One to-do item of the command-line list.
#[derive(Debug)]
pub struct Todo {
    pub text: String,
    pub done: bool,
}

/// A to-do item as a mathematical value.
pub struct ItemView {
    pub text: Seq<char>,
    pub done: bool,
}

impl View for Todo {
    type V = ItemView;

    open spec fn view(&self) -> ItemView {
        ItemView { text: self.text@, done: self.done }
    }
}

/// The items of a vector, each by its view.
pub open spec fn items(ts: Seq<Todo>) -> Seq<ItemView> {
    ts.map_values(|t: Todo| t@)
}

/// One line of a listing: the item's 1-based number, its text, whether it is done.
#[derive(Debug)]
pub struct ListEntry {
    pub number: usize,
    pub text: String,
    pub done: bool,
}

/// A subcommand of the tool.
#[derive(Debug)]
pub enum Command {
    /// Add an item with this text.
    Add { task: String },
    /// List all items.
    List,
    /// Mark the item with this 1-based number done.
    Done { id: u32 },
}

/// What a subcommand did, for the caller to print.
#[derive(Debug)]
pub enum Report {
    /// An item was added under this number.
    Added { number: usize, text: String },
    /// The list has no items.
    Empty,
    /// The items, in order.
    Listing(Vec<ListEntry>),
    /// The item with this text is now done.
    Completed { text: String },
    /// No item has this number.
    NotFound { id: u32 },
}

/// Appends a new, not done item and returns its 1-based number.
pub fn add_todo(todos: &mut Vec<Todo>, task: String) -> (id: usize)
    requires
        old(todos).len() < usize::MAX,
    ensures
        id == old(todos).len() + 1,
        final(todos).len() == old(todos).len() + 1,
        items(final(todos)@) == items(old(todos)@).push(ItemView { text: task@, done: false }),
{
    let id = todos.len() + 1;
    todos.push(Todo { text: task, done: false });
    proof {
        assert(items(todos@) =~= items(old(todos)@).push(ItemView { text: task@, done: false }));
    }
    id
}

/// The listing of all items: number `i + 1`, text and flag of item `i`.
pub fn list_todos(todos: &Vec<Todo>) -> (r: Vec<ListEntry>)
    ensures
        r.len() == todos.len(),
        forall|i: int|
            #![trigger r@[i]]
            0 <= i < r.len() ==> r@[i].number == i + 1 && r@[i].text@ == todos@[i].text@
                && r@[i].done == todos@[i].done,
{
    let mut r: Vec<ListEntry> = Vec::new();
    let n = todos.len();
    for i in 0..n
        invariant
            n == todos.len(),
            r.len() == i,
            forall|j: int|
                #![trigger r@[j]]
                0 <= j < i ==> r@[j].number == j + 1 && r@[j].text@ == todos@[j].text@
                    && r@[j].done == todos@[j].done,
    {
        r.push(ListEntry { number: i + 1, text: todos[i].text.clone(), done: todos[i].done });
    }
    r
}

/// Marks the item with 1-based number `id` done and returns its text;
/// `None`, with nothing changed, when `id` is 0 or past the last item.
pub fn mark_done(todos: &mut Vec<Todo>, id: u32) -> (r: Option<String>)
    ensures
        r is Some <==> 1 <= id <= old(todos).len(),
        final(todos).len() == old(todos).len(),
        r matches Some(text) ==> text@ == old(todos)@[id - 1].text@ && items(final(todos)@)
            == items(old(todos)@).update(
            id - 1,
            ItemView { text: old(todos)@[id - 1].text@, done: true },
        ),
        r is None ==> final(todos)@ == old(todos)@,
{
    let index = id as usize;
    if index == 0 || index > todos.len() {
        None
    } else {
        let text = todos[index - 1].text.clone();
        let t = Todo { text: todos[index - 1].text.clone(), done: true };
        todos.set(index - 1, t);
        proof {
            assert(items(todos@) =~= items(old(todos)@).update(
                id - 1,
                ItemView { text: old(todos)@[id - 1].text@, done: true },
            ));
        }
        Some(text)
    }
}

/// Runs one subcommand against the list.
pub fn run(todos: &mut Vec<Todo>, command: Command) -> (r: Report)
    requires
        old(todos).len() < usize::MAX,
    ensures
        match command {
            Command::Add { task } => {
                &&& items(final(todos)@) == items(old(todos)@).push(
                    ItemView { text: task@, done: false },
                )
                &&& r matches Report::Added { number, text }
                &&& number == old(todos).len() + 1
                &&& text@ == task@
            },
            Command::List => {
                &&& final(todos)@ == old(todos)@
                &&& old(todos).len() == 0 ==> r is Empty
                &&& old(todos).len() != 0 ==> {
                    &&& r matches Report::Listing(entries)
                    &&& entries.len() == old(todos).len()
                    &&& forall|i: int|
                        #![trigger entries@[i]]
                        0 <= i < entries.len() ==> entries@[i].number == i + 1
                            && entries@[i].text@ == old(todos)@[i].text@ && entries@[i].done
                            == old(todos)@[i].done
                }
            },
            Command::Done { id } => {
                &&& 1 <= id <= old(todos).len() ==> {
                    &&& r matches Report::Completed { text }
                    &&& text@ == old(todos)@[id - 1].text@
                    &&& items(final(todos)@) == items(old(todos)@).update(
                        id - 1,
                        ItemView { text: old(todos)@[id - 1].text@, done: true },
                    )
                }
                &&& !(1 <= id <= old(todos).len()) ==> {
                    &&& r matches Report::NotFound { id: missing }
                    &&& missing == id
                    &&& final(todos)@ == old(todos)@
                }
            },
        },
{
    match command {
        Command::Add { task } => {
            let text = task.clone();
            let id = add_todo(todos, task);
            Report::Added { number: id, text }
        },
        Command::List => {
            if todos.len() == 0 {
                Report::Empty
            } else {
                Report::Listing(list_todos(todos))
            }
        },
        Command::Done { id } => match mark_done(todos, id) {
            Some(text) => Report::Completed { text },
            None => Report::NotFound { id },
        },
    }
}

} // verus!
