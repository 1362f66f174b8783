//! The decisions of an interactive counter: each key press either moves
//! the counter or ends the session.
use vstd::prelude::*;

verus! {

/// A key, as far as the counter tells keys apart.
#[derive(Clone, Copy, Debug, PartialEq, Eq, Structural)]
pub enum Key {
    Up,
    Down,
    Char(char),
    Other,
}

/// How a key event came about: pressed, repeated while held, or released.
#[derive(Clone, Copy, Debug, PartialEq, Eq, Structural)]
pub enum KeyKind {
    Press,
    Repeat,
    Release,
}

/// A key event: which key, and how.
#[derive(Clone, Copy, Debug, PartialEq, Eq, Structural)]
pub struct KeyEvent {
    pub key: Key,
    pub kind: KeyKind,
}

/// What follows a key event.
#[derive(Clone, Copy, Debug, PartialEq, Eq, Structural)]
pub enum Step {
    /// Go on with this counter value.
    Continue(i32),
    /// End the session.
    Quit,
}

/// The key raises the counter: the up arrow or `k`.
pub open spec fn is_increment(key: Key) -> bool {
    key == Key::Up || key == Key::Char('k')
}

/// The key lowers the counter: the down arrow or `j`.
pub open spec fn is_decrement(key: Key) -> bool {
    key == Key::Down || key == Key::Char('j')
}

/// The event acts: a press, or a repeat while the key is held; a release
/// does nothing.
pub open spec fn acts(event: KeyEvent) -> bool {
    event.kind != KeyKind::Release
}

/// The step that a key event gives: pressing up or `k` adds one, down or
/// `j` subtracts one, `q` quits; any other key, and every release, leaves
/// the counter as it is.
pub open spec fn step_spec(counter: i32, event: KeyEvent) -> Step {
    if !acts(event) {
        Step::Continue(counter)
    } else if is_increment(event.key) {
        Step::Continue((counter + 1) as i32)
    } else if is_decrement(event.key) {
        Step::Continue((counter - 1) as i32)
    } else if event.key == Key::Char('q') {
        Step::Quit
    } else {
        Step::Continue(counter)
    }
}

/// Decides what a key event does to the counter.
pub fn handle_key(counter: i32, event: KeyEvent) -> (s: Step)
    requires
        acts(event) && is_increment(event.key) ==> counter < i32::MAX,
        acts(event) && is_decrement(event.key) ==> counter > i32::MIN,
    ensures
        s == step_spec(counter, event),
{
    if event.kind == KeyKind::Release {
        return Step::Continue(counter);
    }
    match event.key {
        Key::Up => Step::Continue(counter + 1),
        Key::Char('k') => Step::Continue(counter + 1),
        Key::Down => Step::Continue(counter - 1),
        Key::Char('j') => Step::Continue(counter - 1),
        Key::Char('q') => Step::Quit,
        _ => Step::Continue(counter),
    }
}

/// The counter after a sequence of key events, or `None` once one of them
/// quits (later events are not read).
pub open spec fn run_events(counter: i32, events: Seq<KeyEvent>) -> Option<i32>
    decreases events.len(),
{
    if events.len() == 0 {
        Some(counter)
    } else {
        match step_spec(counter, events[0]) {
            Step::Quit => None,
            Step::Continue(c) => run_events(c, events.drop_first()),
        }
    }
}

/// Raising and then lowering the counter gives it back, and the other way
/// round; keys that neither move nor quit leave it as it is, and so does
/// every release.
pub proof fn law_up_down_cancel(counter: i32, up: KeyEvent, down: KeyEvent, other: KeyEvent, release: KeyEvent)
    requires
        acts(up) && is_increment(up.key),
        acts(down) && is_decrement(down.key),
        !is_increment(other.key) && !is_decrement(other.key) && other.key != Key::Char('q'),
        release.kind == KeyKind::Release,
    ensures
        counter < i32::MAX ==> step_spec(counter, up) == Step::Continue((counter + 1) as i32)
            && step_spec((counter + 1) as i32, down) == Step::Continue(counter),
        counter > i32::MIN ==> step_spec(counter, down) == Step::Continue((counter - 1) as i32)
            && step_spec((counter - 1) as i32, up) == Step::Continue(counter),
        step_spec(counter, other) == Step::Continue(counter),
        step_spec(counter, release) == Step::Continue(counter),
        step_spec(counter, KeyEvent { key: Key::Char('q'), kind: KeyKind::Press }) == Step::Quit,
{
}

/// One press of the up arrow, reported as a press and then a release,
/// followed by a press of `q`, raises the counter by exactly one before
/// the session ends: the release adds nothing.
pub proof fn law_one_press_adds_one(counter: i32, key: Key)
    requires
        is_increment(key),
        counter < i32::MAX,
    ensures
        run_events(
            counter,
            seq![
                KeyEvent { key, kind: KeyKind::Press },
                KeyEvent { key, kind: KeyKind::Release },
            ],
        ) == Some((counter + 1) as i32),
        step_spec((counter + 1) as i32, KeyEvent { key: Key::Char('q'), kind: KeyKind::Press })
            == Step::Quit,
{
    let events = seq![
        KeyEvent { key, kind: KeyKind::Press },
        KeyEvent { key, kind: KeyKind::Release },
    ];
    assert(events.drop_first().drop_first() =~= Seq::<KeyEvent>::empty());
    reveal_with_fuel(run_events, 3);
}

} // verus!
