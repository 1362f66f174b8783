use rust_basics::todo_db::todo_from_row;

#[test]
fn nonzero_done_column_means_done() {
    let t = todo_from_row(1, String::from("買牛奶"), 1);
    assert_eq!((t.id, t.title.as_str(), t.done), (1, "買牛奶", true));
    assert!(!todo_from_row(2, String::from("寫 Rust"), 0).done);
    assert!(todo_from_row(3, String::new(), -5).done);
}
