use rust_basics::counter::{handle_key, Key, KeyEvent, KeyKind, Step};

fn press(key: Key) -> KeyEvent {
    KeyEvent { key, kind: KeyKind::Press }
}

#[test]
fn arrows_and_letters_move_the_counter() {
    assert_eq!(handle_key(0, press(Key::Up)), Step::Continue(1));
    assert_eq!(handle_key(0, press(Key::Char('k'))), Step::Continue(1));
    assert_eq!(handle_key(0, press(Key::Down)), Step::Continue(-1));
    assert_eq!(handle_key(5, press(Key::Char('j'))), Step::Continue(4));
    assert_eq!(
        handle_key(5, KeyEvent { key: Key::Up, kind: KeyKind::Repeat }),
        Step::Continue(6)
    );
}

#[test]
fn q_quits_and_other_keys_do_nothing() {
    assert_eq!(handle_key(3, press(Key::Char('q'))), Step::Quit);
    assert_eq!(handle_key(3, press(Key::Char('x'))), Step::Continue(3));
    assert_eq!(handle_key(3, press(Key::Other)), Step::Continue(3));
}

#[test]
fn releases_change_nothing() {
    for key in [Key::Up, Key::Down, Key::Char('k'), Key::Char('j'), Key::Char('q')] {
        assert_eq!(handle_key(7, KeyEvent { key, kind: KeyKind::Release }), Step::Continue(7));
    }
}

#[test]
fn one_press_of_up_then_q_adds_exactly_one() {
    let events = [
        press(Key::Up),
        KeyEvent { key: Key::Up, kind: KeyKind::Release },
        press(Key::Char('q')),
    ];
    let mut counter = 0;
    let mut quit = false;
    for e in events {
        match handle_key(counter, e) {
            Step::Continue(c) => counter = c,
            Step::Quit => {
                quit = true;
                break;
            }
        }
    }
    assert!(quit);
    assert_eq!(counter, 1);
}

#[test]
fn up_then_down_gives_the_counter_back() {
    let c = 41;
    let up = match handle_key(c, press(Key::Up)) {
        Step::Continue(v) => v,
        Step::Quit => panic!("up does not quit"),
    };
    assert_eq!(handle_key(up, press(Key::Char('j'))), Step::Continue(c));
}
