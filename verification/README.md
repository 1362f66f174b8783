# rust_basics

A verified library for the examples of a Rust primer written for Python
programmers, with a program around it that runs each lesson.

- `src/basics.rs`: functions, borrowing, parsing with an error value, a
  `User` struct with methods, shape names, the part of the day of an hour.
- `src/todo_cli.rs`: the command-line to-do list (add, list, done).
- `src/counter.rs`: what each key press does to the interactive counter.
- `src/todo_api.rs`: the in-memory to-do store behind the REST service;
  `src/todo_laws.rs` proves what it promises across requests.
- `src/todo_db.rs`: a SQLite row turned into a to-do value.
- `src/macro_forms.rs`: `Point`, and the function forms of `my_vec!` and `count!`.
- `app/`: argument parsing, terminal UI, HTTP client and server, SQLite,
  async timing, printing. Run `app <lesson> [args]` with a lesson among
  `basics`, `cli`, `tui`, `async`, `networking`, `sqlite`, `web`, `macros`.
