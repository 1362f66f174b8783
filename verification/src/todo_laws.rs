//! What the to-do store promises across requests: a read gives back what a
//! write left, requests on one id leave the other items alone, and ids are
//! never handed out twice.
use vstd::prelude::*;
use crate::todo_api::{apply_update, lemma_index_of_unique, StoreView, TodoView};

verus! {

/// Reading the id that a create request just used gives back the created
/// item; that id was used by no item before.
pub proof fn law_get_after_create(s: StoreView, title: Seq<char>)
    requires
        s.wf(),
        s.next_id < u32::MAX,
    ensures
        !s.has_id(s.next_id as u32),
        s.after_create(title).lookup(s.next_id as u32) == Some(
            TodoView { id: s.next_id as u32, title, done: false },
        ),
{
    if s.has_id(s.next_id as u32) {
        let k = s.index_of(s.next_id as u32);
        assert(s.todos[k].id < s.next_id);
    }
    crate::todo_api::lemma_create_wf(s, title);
    lemma_index_of_unique(s.after_create(title), s.next_id as u32, s.todos.len() as int);
}

/// A create request leaves every item that existed before as it was.
pub proof fn law_create_keeps_others(s: StoreView, title: Seq<char>, other: u32)
    requires
        s.wf(),
        s.next_id < u32::MAX,
        other != s.next_id as u32,
    ensures
        s.after_create(title).lookup(other) == s.lookup(other),
{
    let t = s.after_create(title);
    crate::todo_api::lemma_create_wf(s, title);
    if s.has_id(other) {
        let k = s.index_of(other);
        lemma_index_of_unique(t, other, k);
    }
    if t.has_id(other) {
        let k = t.index_of(other);
        assert(k < s.todos.len());
        lemma_index_of_unique(s, other, k);
    }
}

/// Reading an item after an update request gives back the updated item:
/// the given fields replaced, the others kept.
pub proof fn law_get_after_update(s: StoreView, id: u32, title: Option<Seq<char>>, done: Option<bool>)
    requires
        s.wf(),
        s.has_id(id),
    ensures
        s.after_update(id, title, done).lookup(id) == Some(
            apply_update(s.lookup(id).unwrap(), title, done),
        ),
{
    let k = s.index_of(id);
    crate::todo_api::lemma_update_wf(s, id, title, done);
    lemma_index_of_unique(s.after_update(id, title, done), id, k);
}

/// An update request changes no item but the one with its id.
pub proof fn law_update_keeps_others(
    s: StoreView,
    id: u32,
    title: Option<Seq<char>>,
    done: Option<bool>,
    other: u32,
)
    requires
        s.wf(),
        other != id,
    ensures
        s.after_update(id, title, done).lookup(other) == s.lookup(other),
{
    let t = s.after_update(id, title, done);
    crate::todo_api::lemma_update_wf(s, id, title, done);
    if s.has_id(other) {
        let k = s.index_of(other);
        lemma_index_of_unique(t, other, k);
        if s.has_id(id) {
            assert(s.todos[s.index_of(id)].id == id);
        }
    }
    if t.has_id(other) {
        let k = t.index_of(other);
        lemma_index_of_unique(s, other, k);
    }
}

/// After a delete request no item has its id, so a second delete of the
/// same id is refused and changes nothing.
pub proof fn law_delete_removes(s: StoreView, id: u32)
    requires
        s.wf(),
    ensures
        !s.after_delete(id).has_id(id),
        s.after_delete(id).lookup(id) is None,
        s.after_delete(id).after_delete(id) == s.after_delete(id),
{
    let t = s.after_delete(id);
    crate::todo_api::lemma_delete_wf(s, id);
    if s.has_id(id) {
        let k = s.index_of(id);
        if t.has_id(id) {
            let j = t.index_of(id);
            let j2 = if j < k { j } else { j + 1 };
            assert(t.todos[j] == s.todos[j2]);
            lemma_index_of_unique(s, id, j2);
        }
    }
}

/// A delete request leaves every other item as it was.
pub proof fn law_delete_keeps_others(s: StoreView, id: u32, other: u32)
    requires
        s.wf(),
        other != id,
    ensures
        s.after_delete(id).lookup(other) == s.lookup(other),
{
    let t = s.after_delete(id);
    crate::todo_api::lemma_delete_wf(s, id);
    if s.has_id(id) {
        let k = s.index_of(id);
        if s.has_id(other) {
            let m = s.index_of(other);
            assert(m != k);
            let m2 = if m < k { m } else { m - 1 };
            assert(t.todos[m2] == s.todos[m]);
            lemma_index_of_unique(t, other, m2);
        }
        if t.has_id(other) {
            let j = t.index_of(other);
            let j2 = if j < k { j } else { j + 1 };
            assert(t.todos[j] == s.todos[j2]);
            lemma_index_of_unique(s, other, j2);
        }
    }
}

/// Requests on an id that no item has change nothing.
pub proof fn law_missing_id_changes_nothing(
    s: StoreView,
    id: u32,
    title: Option<Seq<char>>,
    done: Option<bool>,
)
    requires
        !s.has_id(id),
    ensures
        s.after_update(id, title, done) == s,
        s.after_delete(id) == s,
{
}

/// Ids are never handed out twice: the counter only grows, and every item
/// in a well-formed store has an id below it, so after any sequence of
/// requests a newly created item's id is new, even when the item that once
/// had a smaller id was deleted.
pub proof fn law_ids_never_reused(
    s: StoreView,
    title: Seq<char>,
    id: u32,
    new_title: Option<Seq<char>>,
    done: Option<bool>,
)
    requires
        s.wf(),
    ensures
        s.next_id < u32::MAX ==> s.after_create(title).next_id == s.next_id + 1,
        s.after_update(id, new_title, done).next_id == s.next_id,
        s.after_delete(id).next_id == s.next_id,
        forall|i: int| 0 <= i < s.todos.len() ==> #[trigger] s.todos[i].id < s.next_id,
{
}

/// A store that was created empty and then got `n` create requests holds
/// the items with ids 1 to `n`, in that order.
pub proof fn law_created_ids_in_order(s: StoreView, titles: Seq<Seq<char>>)
    requires
        s.todos.len() == 0,
        s.next_id == 1,
        titles.len() < u32::MAX,
    ensures
        created_all(s, titles).todos.len() == titles.len(),
        forall|i: int|
            0 <= i < titles.len() ==> #[trigger] created_all(s, titles).todos[i] == (TodoView {
                id: (i + 1) as u32,
                title: titles[i],
                done: false,
            }),
    decreases titles.len(),
{
    if titles.len() > 0 {
        law_created_ids_in_order(s, titles.drop_last());
        let prev = created_all(s, titles.drop_last());
        assert(prev.next_id == titles.len()) by {
            lemma_created_all_next_id(s, titles.drop_last());
        }
    }
}

/// The store after a create request for each title in turn.
pub open spec fn created_all(s: StoreView, titles: Seq<Seq<char>>) -> StoreView
    decreases titles.len(),
{
    if titles.len() == 0 {
        s
    } else {
        created_all(s, titles.drop_last()).after_create(titles.last())
    }
}

proof fn lemma_created_all_next_id(s: StoreView, titles: Seq<Seq<char>>)
    ensures
        created_all(s, titles).next_id == s.next_id + titles.len(),
    decreases titles.len(),
{
    if titles.len() > 0 {
        lemma_created_all_next_id(s, titles.drop_last());
    }
}


/// Keeping the items whose id is not `id`.
pub open spec fn without_id(todos: Seq<TodoView>, id: u32) -> Seq<TodoView> {
    todos.filter(|t: TodoView| t.id != id)
}

proof fn lemma_filter_keeps_all(s: Seq<TodoView>, id: u32)
    requires
        forall|i: int| 0 <= i < s.len() ==> #[trigger] s[i].id != id,
    ensures
        without_id(s, id) == s,
    decreases s.len(),
{
    reveal(Seq::filter);
    if s.len() > 0 {
        lemma_filter_keeps_all(s.drop_last(), id);
        assert(s.drop_last().push(s.last()) =~= s);
    }
}

/// A delete request keeps exactly the items whose id differs from the
/// requested one, in their order, and it succeeds exactly when that drops
/// an item.
pub proof fn law_delete_is_filter(s: StoreView, id: u32)
    requires
        s.wf(),
    ensures
        s.after_delete(id).todos == without_id(s.todos, id),
        s.has_id(id) <==> s.after_delete(id).todos.len() < s.todos.len(),
{
    broadcast use Seq::filter_distributes_over_add;

    if s.has_id(id) {
        let k = s.index_of(id);
        let a = s.todos.take(k);
        let x = seq![s.todos[k]];
        let b = s.todos.skip(k + 1);
        assert(s.todos =~= a + x + b);
        assert forall|i: int| 0 <= i < a.len() implies #[trigger] a[i].id != id by {
            assert(s.todos[i].id < s.todos[k].id);
        }
        assert forall|i: int| 0 <= i < b.len() implies #[trigger] b[i].id != id by {
            assert(s.todos[k].id < s.todos[k + 1 + i].id);
        }
        lemma_filter_keeps_all(a, id);
        lemma_filter_keeps_all(b, id);
        assert(without_id(x, id) =~= Seq::<TodoView>::empty()) by {
            reveal_with_fuel(Seq::filter, 2);
        }
        assert(without_id(s.todos, id) == without_id(a + x, id) + without_id(b, id));
        assert(without_id(a + x, id) == without_id(a, id) + without_id(x, id));
        assert(s.todos.remove(k) =~= a + b);
        assert(without_id(s.todos, id) =~= a + b);
    } else {
        assert forall|i: int| 0 <= i < s.todos.len() implies #[trigger] s.todos[i].id != id by {
            if s.todos[i].id == id {
                assert(s.has_id(id));
            }
        }
        lemma_filter_keeps_all(s.todos, id);
    }
}

/// A request to the store, by its model: list, read, create, update or
/// delete.
pub enum StoreRequest {
    List,
    Get(u32),
    Create(Seq<char>),
    Update(u32, Option<Seq<char>>, Option<bool>),
    Delete(u32),
}

/// The store after one request (reads leave it as it is).
pub open spec fn apply_request(s: StoreView, r: StoreRequest) -> StoreView {
    match r {
        StoreRequest::List => s,
        StoreRequest::Get(_) => s,
        StoreRequest::Create(title) => s.after_create(title),
        StoreRequest::Update(id, title, done) => s.after_update(id, title, done),
        StoreRequest::Delete(id) => s.after_delete(id),
    }
}

/// The store after the requests, one after the other.
pub open spec fn apply_requests(s: StoreView, rs: Seq<StoreRequest>) -> StoreView
    decreases rs.len(),
{
    if rs.len() == 0 {
        s
    } else {
        apply_requests(apply_request(s, rs[0]), rs.drop_first())
    }
}

/// How many of the requests are create requests.
pub open spec fn creates(rs: Seq<StoreRequest>) -> nat
    decreases rs.len(),
{
    if rs.len() == 0 {
        0
    } else {
        (if rs[0] is Create {
            1nat
        } else {
            0nat
        }) + creates(rs.drop_first())
    }
}

/// Over any sequence of requests the store stays well formed, the counter
/// rises by one for each create request and by nothing else, and every id
/// that the store held before stays below it; so no id is ever handed out
/// twice, whatever was read, updated or deleted in between.
pub proof fn law_requests_advance_counter(s: StoreView, rs: Seq<StoreRequest>)
    requires
        s.wf(),
        s.next_id + creates(rs) < u32::MAX,
    ensures
        apply_requests(s, rs).wf(),
        apply_requests(s, rs).next_id == s.next_id + creates(rs),
        forall|i: int|
            0 <= i < s.todos.len() ==> #[trigger] s.todos[i].id < apply_requests(s, rs).next_id,
    decreases rs.len(),
{
    if rs.len() > 0 {
        let s1 = apply_request(s, rs[0]);
        match rs[0] {
            StoreRequest::List => {},
            StoreRequest::Get(_) => {},
            StoreRequest::Create(title) => {
                crate::todo_api::lemma_create_wf(s, title);
            },
            StoreRequest::Update(id, title, done) => {
                crate::todo_api::lemma_update_wf(s, id, title, done);
            },
            StoreRequest::Delete(id) => {
                crate::todo_api::lemma_delete_wf(s, id);
            },
        }
        law_requests_advance_counter(s1, rs.drop_first());
    }
}

/// Two create requests with only reads, updates and deletes between them
/// give consecutive ids, even when the first item was deleted meanwhile;
/// the second id is held by no item when it is handed out.
pub proof fn law_consecutive_creates(
    s: StoreView,
    t1: Seq<char>,
    rs: Seq<StoreRequest>,
    t2: Seq<char>,
)
    requires
        s.wf(),
        s.next_id + 1 < u32::MAX,
        creates(rs) == 0,
    ensures
        apply_requests(s.after_create(t1), rs).created(t2).id == s.created(t1).id + 1,
        !apply_requests(s.after_create(t1), rs).has_id(
            apply_requests(s.after_create(t1), rs).created(t2).id,
        ),
{
    crate::todo_api::lemma_create_wf(s, t1);
    let s1 = s.after_create(t1);
    law_requests_advance_counter(s1, rs);
    let s2 = apply_requests(s1, rs);
    if s2.has_id(s2.created(t2).id) {
        let k = s2.index_of(s2.created(t2).id);
        assert(s2.todos[k].id < s2.next_id);
    }
}

/// An update request sets each field that it gives to exactly the given
/// value, whatever the item held before, keeps each field that it leaves
/// out, and never changes the id.
pub proof fn law_update_sets_given_fields(t: TodoView, title: Seq<char>, done: bool)
    ensures
        apply_update(t, Some(title), Some(done)) == (TodoView { id: t.id, title, done }),
        apply_update(t, Some(title), None) == (TodoView { id: t.id, title, done: t.done }),
        apply_update(t, None, Some(done)) == (TodoView { id: t.id, title: t.title, done }),
        apply_update(t, None, None) == t,
{
}

/// A create request makes an item that is not done, holds the given title
/// and has the store's next id.
pub proof fn law_created_item(s: StoreView, title: Seq<char>)
    ensures
        s.created(title) == (TodoView { id: s.next_id as u32, title, done: false }),
        !s.created(title).done,
{
}

} // verus!
