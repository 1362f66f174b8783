use rust_basics::todo_cli::{add_todo, list_todos, mark_done, run, Command, Report, Todo};

#[test]
fn add_numbers_items_from_one() {
    let mut todos: Vec<Todo> = Vec::new();
    assert_eq!(add_todo(&mut todos, String::from("買牛奶")), 1);
    assert_eq!(add_todo(&mut todos, String::from("寫 Rust")), 2);
    assert_eq!(todos.len(), 2);
    assert_eq!(todos[1].text, "寫 Rust");
    assert!(!todos[1].done);
}

#[test]
fn list_on_empty_reports_empty() {
    let mut todos: Vec<Todo> = Vec::new();
    assert!(matches!(run(&mut todos, Command::List), Report::Empty));
}

#[test]
fn list_reports_numbers_and_flags() {
    let mut todos: Vec<Todo> = Vec::new();
    add_todo(&mut todos, String::from("a"));
    add_todo(&mut todos, String::from("b"));
    assert_eq!(mark_done(&mut todos, 2), Some(String::from("b")));
    let entries = list_todos(&todos);
    assert_eq!(entries.len(), 2);
    assert_eq!((entries[0].number, entries[0].text.as_str(), entries[0].done), (1, "a", false));
    assert_eq!((entries[1].number, entries[1].text.as_str(), entries[1].done), (2, "b", true));
}

#[test]
fn done_out_of_range_is_not_found() {
    let mut todos: Vec<Todo> = Vec::new();
    assert!(matches!(run(&mut todos, Command::Done { id: 1 }), Report::NotFound { id: 1 }));
    add_todo(&mut todos, String::from("a"));
    assert!(matches!(run(&mut todos, Command::Done { id: 0 }), Report::NotFound { id: 0 }));
    assert!(matches!(run(&mut todos, Command::Done { id: 2 }), Report::NotFound { id: 2 }));
    assert!(!todos[0].done);
}

#[test]
fn add_command_reports_number_and_text() {
    let mut todos: Vec<Todo> = Vec::new();
    match run(&mut todos, Command::Add { task: String::from("買牛奶") }) {
        Report::Added { number, text } => {
            assert_eq!(number, 1);
            assert_eq!(text, "買牛奶");
        }
        other => panic!("unexpected {:?}", other),
    }
    match run(&mut todos, Command::Done { id: 1 }) {
        Report::Completed { text } => assert_eq!(text, "買牛奶"),
        other => panic!("unexpected {:?}", other),
    }
    assert!(todos[0].done);
}
