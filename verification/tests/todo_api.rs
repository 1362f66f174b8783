use rust_basics::todo_api::{TodoError, TodoStore};

#[test]
fn new_store_is_empty_and_starts_at_one() {
    let s = TodoStore::new();
    assert!(s.list().is_empty());
    assert_eq!(s.next_id(), 1);
}

#[test]
fn create_then_get_gives_the_item_back() {
    let mut s = TodoStore::new();
    let t = s.create(String::from("學 Rust"));
    assert_eq!((t.id, t.title.as_str(), t.done), (1, "學 Rust", false));
    let g = s.get(1).unwrap();
    assert_eq!((g.id, g.title.as_str(), g.done), (1, "學 Rust", false));
    assert_eq!(s.next_id(), 2);
}

#[test]
fn ids_count_up_and_list_keeps_order() {
    let mut s = TodoStore::new();
    s.create(String::from("a"));
    s.create(String::from("b"));
    s.create(String::from("c"));
    let all = s.list();
    let ids: Vec<u32> = all.iter().map(|t| t.id).collect();
    assert_eq!(ids, vec![1, 2, 3]);
    assert_eq!(all[2].title, "c");
}

#[test]
fn update_replaces_given_fields_only() {
    let mut s = TodoStore::new();
    s.create(String::from("a"));
    let u = s.update(1, None, Some(true)).unwrap();
    assert_eq!((u.id, u.title.as_str(), u.done), (1, "a", true));
    let u = s.update(1, Some(String::from("b")), None).unwrap();
    assert_eq!((u.id, u.title.as_str(), u.done), (1, "b", true));
    let g = s.get(1).unwrap();
    assert_eq!((g.title.as_str(), g.done), ("b", true));
}

#[test]
fn missing_ids_are_not_found() {
    let mut s = TodoStore::new();
    assert_eq!(s.get(1).unwrap_err(), TodoError::NotFound);
    assert_eq!(s.update(7, None, Some(true)).unwrap_err(), TodoError::NotFound);
    assert_eq!(s.delete(1).unwrap_err(), TodoError::NotFound);
    assert_eq!(TodoError::NotFound.status_code(), 404);
    assert_eq!(TodoError::NotFound.message(), "找不到該待辦");
}

#[test]
fn delete_removes_only_that_item_and_ids_are_not_reused() {
    let mut s = TodoStore::new();
    s.create(String::from("a"));
    s.create(String::from("b"));
    assert!(s.delete(1).is_ok());
    assert_eq!(s.get(1).unwrap_err(), TodoError::NotFound);
    assert_eq!(s.delete(1).unwrap_err(), TodoError::NotFound);
    assert_eq!(s.get(2).unwrap().title, "b");
    let t = s.create(String::from("c"));
    assert_eq!(t.id, 3);
    let ids: Vec<u32> = s.list().iter().map(|t| t.id).collect();
    assert_eq!(ids, vec![2, 3]);
}

#[test]
fn update_and_delete_leave_other_items_alone() {
    let mut s = TodoStore::new();
    s.create(String::from("a"));
    s.create(String::from("b"));
    s.create(String::from("c"));
    s.update(2, Some(String::from("B")), Some(true)).unwrap();
    let a = s.get(1).unwrap();
    assert_eq!((a.title.as_str(), a.done), ("a", false));
    s.delete(2).unwrap();
    let c = s.get(3).unwrap();
    assert_eq!((c.id, c.title.as_str(), c.done), (3, "c", false));
    assert_eq!(s.list().len(), 2);
}
