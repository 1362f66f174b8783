//! The in-memory to-do store behind a small REST service: list, create,
//! read, update and delete, with ids handed out from a counter.
use vstd::prelude::*;

verus! {

/// One to-do item.
#[derive(Debug)]
pub struct Todo {
    pub id: u32,
    pub title: String,
    pub done: bool,
}

/// A to-do item as a mathematical value.
pub struct TodoView {
    pub id: u32,
    pub title: Seq<char>,
    pub done: bool,
}

impl View for Todo {
    type V = TodoView;

    open spec fn view(&self) -> TodoView {
        TodoView { id: self.id, title: self.title@, done: self.done }
    }
}

impl Todo {
    /// An equal, separately owned item.
    fn copy(&self) -> (c: Todo)
        ensures
            c@ == self@,
    {
        Todo { id: self.id, title: self.title.clone(), done: self.done }
    }
}

/// The items of a vector, each by its view.
pub open spec fn views(ts: Seq<Todo>) -> Seq<TodoView> {
    ts.map_values(|t: Todo| t@)
}

/// The new title of an update request, by its view.
pub open spec fn title_view(title: Option<String>) -> Option<Seq<char>> {
    match title {
        Some(s) => Some(s@),
        None => None,
    }
}

/// An item after an update: each field that the request gives is replaced,
/// each that it leaves out is kept; the id never changes.
pub open spec fn apply_update(t: TodoView, title: Option<Seq<char>>, done: Option<bool>) -> TodoView {
    TodoView {
        id: t.id,
        title: match title {
            Some(s) => s,
            None => t.title,
        },
        done: match done {
            Some(d) => d,
            None => t.done,
        },
    }
}

/// Why a request on one item was refused.
#[derive(Clone, Copy, Debug, PartialEq, Eq, Structural)]
pub enum TodoError {
    /// No item has the requested id.
    NotFound,
}

impl TodoError {
    /// The HTTP status that answers the refusal.
    pub fn status_code(&self) -> (c: u16)
        ensures
            c == 404,
    {
        404
    }

    /// The text that answers the refusal.
    pub fn message(&self) -> (m: &'static str)
        ensures
            m@ == "找不到該待辦"@,
    {
        "找不到該待辦"
    }
}

/// The store as a mathematical value: the items in the order they were
/// created, and the id that the next created item gets.
pub struct StoreView {
    pub todos: Seq<TodoView>,
    pub next_id: nat,
}

impl StoreView {
    /// Ids start at 1, every id is below the next id, and ids strictly
    /// increase along the sequence (so no id occurs twice).
    pub open spec fn wf(self) -> bool {
        &&& self.next_id >= 1
        &&& forall|i: int|
            0 <= i < self.todos.len() ==> 1 <= #[trigger] self.todos[i].id < self.next_id
        &&& forall|i: int, j: int|
            0 <= i < j < self.todos.len() ==> #[trigger] self.todos[i].id
                < #[trigger] self.todos[j].id
    }

    /// Some item has this id.
    pub open spec fn has_id(self, id: u32) -> bool {
        exists|i: int| 0 <= i < self.todos.len() && self.todos[i].id == id
    }

    /// The position of the item with this id (meaningful when there is one).
    pub open spec fn index_of(self, id: u32) -> int {
        choose|i: int| 0 <= i < self.todos.len() && self.todos[i].id == id
    }

    /// The item with this id, if any.
    pub open spec fn lookup(self, id: u32) -> Option<TodoView> {
        if self.has_id(id) {
            Some(self.todos[self.index_of(id)])
        } else {
            None
        }
    }

    /// The item that a create request makes.
    pub open spec fn created(self, title: Seq<char>) -> TodoView {
        TodoView { id: self.next_id as u32, title, done: false }
    }

    /// The store after a create request: the new item at the end, the
    /// counter one higher.
    pub open spec fn after_create(self, title: Seq<char>) -> StoreView {
        StoreView { todos: self.todos.push(self.created(title)), next_id: self.next_id + 1 }
    }

    /// The store after an update request: the item with the id updated in
    /// place, or nothing changed when there is none.
    pub open spec fn after_update(self, id: u32, title: Option<Seq<char>>, done: Option<bool>) -> StoreView {
        if self.has_id(id) {
            StoreView {
                todos: self.todos.update(
                    self.index_of(id),
                    apply_update(self.todos[self.index_of(id)], title, done),
                ),
                next_id: self.next_id,
            }
        } else {
            self
        }
    }

    /// The store after a delete request: the item with the id removed, the
    /// others in their order, the counter as it was.
    pub open spec fn after_delete(self, id: u32) -> StoreView {
        if self.has_id(id) {
            StoreView { todos: self.todos.remove(self.index_of(id)), next_id: self.next_id }
        } else {
            self
        }
    }
}

/// In a well-formed store, the item found at a position is the one that
/// `index_of` names.
pub proof fn lemma_index_of_unique(s: StoreView, id: u32, i: int)
    requires
        s.wf(),
        0 <= i < s.todos.len(),
        s.todos[i].id == id,
    ensures
        s.has_id(id),
        s.index_of(id) == i,
        s.lookup(id) == Some(s.todos[i]),
{
    let k = s.index_of(id);
    assert(0 <= k < s.todos.len() && s.todos[k].id == id);
    if k < i {
        assert(s.todos[k].id < s.todos[i].id);
    } else if i < k {
        assert(s.todos[i].id < s.todos[k].id);
    }
}

/// The to-do store: items in creation order and the next id to hand out.
pub struct TodoStore {
    todos: Vec<Todo>,
    next_id: u32,
}

impl View for TodoStore {
    type V = StoreView;

    closed spec fn view(&self) -> StoreView {
        StoreView { todos: views(self.todos@), next_id: self.next_id as nat }
    }
}

impl TodoStore {
    /// Every store is well formed.
    #[verifier::type_invariant]
    closed spec fn inv(self) -> bool {
        self@.wf()
    }

    /// An empty store whose first item gets id 1.
    pub fn new() -> (s: TodoStore)
        ensures
            s@.todos == Seq::<TodoView>::empty(),
            s@.next_id == 1,
            s@.wf(),
    {
        let s = TodoStore { todos: Vec::new(), next_id: 1 };
        assert(s@.todos =~= Seq::<TodoView>::empty());
        s
    }

    /// The id that the next created item gets.
    pub fn next_id(&self) -> (n: u32)
        ensures
            n as nat == self@.next_id,
            self@.wf(),
    {
        proof {
            use_type_invariant(self);
        }
        self.next_id
    }

    /// Copies of all items, in creation order.
    pub fn list(&self) -> (r: Vec<Todo>)
        ensures
            views(r@) == self@.todos,
    {
        let mut r: Vec<Todo> = Vec::new();
        let n = self.todos.len();
        for i in 0..n
            invariant
                n == self.todos@.len(),
                views(r@) =~= views(self.todos@).take(i as int),
        {
            let t = self.todos[i].copy();
            r.push(t);
            assert(views(self.todos@).take(i + 1) =~= views(self.todos@).take(i as int).push(t@));
        }
        assert(views(self.todos@).take(n as int) =~= views(self.todos@));
        r
    }

    fn find(&self, id: u32) -> (r: Option<usize>)
        requires
            self@.wf(),
        ensures
            match r {
                Some(i) => i < self@.todos.len() && self@.todos[i as int].id == id
                    && self@.index_of(id) == i,
                None => !self@.has_id(id),
            },
    {
        let n = self.todos.len();
        for i in 0..n
            invariant
                n == self.todos@.len(),
                self@.wf(),
                forall|j: int| 0 <= j < i ==> self@.todos[j].id != id,
        {
            assert(self@.todos[i as int] == self.todos@[i as int]@);
            if self.todos[i].id == id {
                proof {
                    lemma_index_of_unique(self@, id, i as int);
                }
                return Some(i);
            }
        }
        None
    }

    /// Creates an item with the given title, not done, under the next id,
    /// and returns a copy of it.
    pub fn create(&mut self, title: String) -> (t: Todo)
        requires
            old(self)@.next_id < u32::MAX,
        ensures
            t@ == old(self)@.created(title@),
            t.id as nat == old(self)@.next_id,
            t.title@ == title@,
            !t.done,
            final(self)@.lookup(t.id) == Some(t@),
            final(self)@ == old(self)@.after_create(title@),
            final(self)@.wf(),
    {
        proof {
            use_type_invariant(&*self);
            lemma_create_wf(self@, title@);
        }
        let ghost before = self@;
        let mut todos: Vec<Todo> = Vec::new();
        std::mem::swap(&mut todos, &mut self.todos);
        let id = self.next_id;
        let todo = Todo { id, title, done: false };
        let ret = todo.copy();
        todos.push(todo);
        assert(views(todos@) =~= before.after_create(title@).todos);
        self.next_id = id + 1;
        self.todos = todos;
        proof {
            lemma_index_of_unique(self@, id, before.todos.len() as int);
        }
        ret
    }

    /// A copy of the item with the given id, or `NotFound`.
    pub fn get(&self, id: u32) -> (r: Result<Todo, TodoError>)
        ensures
            r is Ok <==> self@.has_id(id),
            r matches Ok(t) ==> self@.lookup(id) == Some(t@),
            r matches Err(e) ==> e == TodoError::NotFound,
            self@.wf(),
    {
        proof {
            use_type_invariant(self);
        }
        match self.find(id) {
            Some(i) => {
                let t = self.todos[i].copy();
                assert(self@.todos[i as int] == self.todos@[i as int]@);
                Ok(t)
            },
            None => Err(TodoError::NotFound),
        }
    }

    /// Replaces the title and/or the done flag of the item with the given id,
    /// keeping each field that the request leaves out, and returns a copy of
    /// the updated item; `NotFound`, with nothing changed, when no item has
    /// the id.
    pub fn update(&mut self, id: u32, title: Option<String>, done: Option<bool>) -> (r: Result<
        Todo,
        TodoError,
    >)
        ensures
            r is Ok <==> old(self)@.has_id(id),
            r matches Ok(t) ==> Some(t@) == final(self)@.lookup(id),
            r matches Ok(t) ==> t@ == apply_update(
                old(self)@.lookup(id).unwrap(),
                title_view(title),
                done,
            ),
            r matches Ok(t) ==> t.id == id,
            r matches Ok(t) ==> (done matches Some(d) ==> t.done == d),
            r matches Ok(t) ==> (title matches Some(s) ==> t.title@ == s@),
            r matches Ok(t) ==> (done is None ==> t.done == old(self)@.lookup(id).unwrap().done),
            r matches Ok(t) ==> (title is None ==> t.title@ == old(self)@.lookup(id).unwrap().title),
            r matches Err(e) ==> e == TodoError::NotFound,
            final(self)@ == old(self)@.after_update(id, title_view(title), done),
            final(self)@.wf(),
    {
        proof {
            use_type_invariant(&*self);
        }
        match self.find(id) {
            None => Err(TodoError::NotFound),
            Some(i) => {
                let ghost before = self@;
                assert(before.todos[i as int] == self.todos@[i as int]@);
                let new_title = match title {
                    Some(t) => t,
                    None => self.todos[i].title.clone(),
                };
                let new_done = match done {
                    Some(d) => d,
                    None => self.todos[i].done,
                };
                let t = Todo { id: self.todos[i].id, title: new_title, done: new_done };
                let ret = t.copy();
                let mut todos: Vec<Todo> = Vec::new();
                std::mem::swap(&mut todos, &mut self.todos);
                todos.set(i, t);
                proof {
                    lemma_index_of_unique(before, id, i as int);
                    assert(views(todos@) =~= before.after_update(
                        id,
                        title_view(title),
                        done,
                    ).todos);
                    lemma_update_wf(before, id, title_view(title), done);
                    lemma_index_of_unique(before.after_update(id, title_view(title), done), id, i as int);
                }
                self.todos = todos;
                Ok(ret)
            },
        }
    }

    /// Removes the item with the given id; `NotFound`, with nothing changed,
    /// when no item has it.
    pub fn delete(&mut self, id: u32) -> (r: Result<(), TodoError>)
        ensures
            r is Ok <==> old(self)@.has_id(id),
            r matches Err(e) ==> e == TodoError::NotFound,
            final(self)@ == old(self)@.after_delete(id),
            final(self)@.wf(),
    {
        proof {
            use_type_invariant(&*self);
        }
        match self.find(id) {
            None => Err(TodoError::NotFound),
            Some(i) => {
                let ghost before = self@;
                let mut todos: Vec<Todo> = Vec::new();
                std::mem::swap(&mut todos, &mut self.todos);
                todos.remove(i);
                proof {
                    lemma_index_of_unique(before, id, i as int);
                    assert(views(todos@) =~= before.after_delete(id).todos);
                    lemma_delete_wf(before, id);
                }
                self.todos = todos;
                Ok(())
            },
        }
    }
}

/// Creating keeps a store well formed.
pub proof fn lemma_create_wf(s: StoreView, title: Seq<char>)
    requires
        s.wf(),
        s.next_id < u32::MAX,
    ensures
        s.after_create(title).wf(),
{
    let t = s.after_create(title);
    assert forall|i: int, j: int| 0 <= i < j < t.todos.len() implies #[trigger] t.todos[i].id
        < #[trigger] t.todos[j].id by {
        if j == s.todos.len() {
            assert(s.todos[i].id < s.next_id);
        } else {
            assert(s.todos[i].id < s.todos[j].id);
        }
    }
    assert forall|i: int| 0 <= i < t.todos.len() implies 1 <= #[trigger] t.todos[i].id
        < t.next_id by {
        if i < s.todos.len() {
            assert(1 <= s.todos[i].id < s.next_id);
        }
    }
}

/// Updating keeps a store well formed.
pub proof fn lemma_update_wf(s: StoreView, id: u32, title: Option<Seq<char>>, done: Option<bool>)
    requires
        s.wf(),
    ensures
        s.after_update(id, title, done).wf(),
        s.after_update(id, title, done).todos.len() == s.todos.len(),
        forall|i: int|
            0 <= i < s.todos.len() ==> #[trigger] s.after_update(id, title, done).todos[i].id
                == s.todos[i].id,
{
    let t = s.after_update(id, title, done);
    assert forall|i: int| 0 <= i < s.todos.len() implies #[trigger] t.todos[i].id
        == s.todos[i].id by {}
    assert forall|i: int, j: int| 0 <= i < j < t.todos.len() implies #[trigger] t.todos[i].id
        < #[trigger] t.todos[j].id by {
        assert(s.todos[i].id < s.todos[j].id);
    }
    assert forall|i: int| 0 <= i < t.todos.len() implies 1 <= #[trigger] t.todos[i].id
        < t.next_id by {
        assert(1 <= s.todos[i].id < s.next_id);
    }
}

/// Deleting keeps a store well formed.
pub proof fn lemma_delete_wf(s: StoreView, id: u32)
    requires
        s.wf(),
    ensures
        s.after_delete(id).wf(),
{
    if s.has_id(id) {
        let k = s.index_of(id);
        let t = s.after_delete(id);
        assert forall|i: int, j: int| 0 <= i < j < t.todos.len() implies #[trigger] t.todos[i].id
            < #[trigger] t.todos[j].id by {
            let i2 = if i < k { i } else { i + 1 };
            let j2 = if j < k { j } else { j + 1 };
            assert(t.todos[i] == s.todos[i2]);
            assert(t.todos[j] == s.todos[j2]);
            assert(s.todos[i2].id < s.todos[j2].id);
        }
        assert forall|i: int| 0 <= i < t.todos.len() implies 1 <= #[trigger] t.todos[i].id
            < t.next_id by {
            let i2 = if i < k { i } else { i + 1 };
            assert(t.todos[i] == s.todos[i2]);
            assert(1 <= s.todos[i2].id < s.next_id);
        }
    }
}

} // verus!
