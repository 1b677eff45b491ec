use retype::action::Action;
use retype::find::{get_text, move_to_char, Direction, Finder, Selection};
use retype::keys::{
    Key, KeyState, KEY_END, KEY_HOME, KEY_LEFT, KEY_LEFTCTRL, KEY_LEFTSHIFT, KEY_RIGHT,
    KEY_RIGHTCTRL, KEY_RIGHTSHIFT,
};

fn down(key: Key) -> Action {
    Action::Emit(key, KeyState::Pressed)
}

fn up(key: Key) -> Action {
    Action::Emit(key, KeyState::Released)
}

fn steps(text: &str, c: char, direction: Direction) -> usize {
    let mut actions = Vec::new();
    move_to_char(&mut actions, text, c, direction, false);
    assert_eq!(actions[..2], [up(KEY_LEFTSHIFT), up(KEY_RIGHTSHIFT)]);
    let key = match direction {
        Direction::Forward => KEY_RIGHT,
        Direction::Backward => KEY_LEFT,
    };
    for pair in actions[2..].chunks(2) {
        assert_eq!(pair, [down(key), up(key)]);
    }
    (actions.len() - 2) / 2
}

#[test]
fn text_is_read_with_shift_and_end() {
    let mut actions = Vec::new();
    let selection = get_text(&mut actions, Direction::Forward);
    assert!(!selection.is_ready());
    assert_eq!(
        actions,
        vec![
            up(KEY_LEFTCTRL),
            up(KEY_RIGHTCTRL),
            down(KEY_LEFTSHIFT),
            down(KEY_END),
            up(KEY_END),
            down(KEY_END),
            up(KEY_END),
            up(KEY_LEFTSHIFT),
            Action::Wait(100_000),
            Action::ReadSelection,
            up(KEY_LEFTSHIFT),
            up(KEY_RIGHTSHIFT),
            down(KEY_LEFT),
            up(KEY_LEFT),
            Action::SendSelection,
        ]
    );
}

#[test]
fn finder_reads_backwards_with_home() {
    let mut actions = Vec::new();
    let finder = Finder::new(&mut actions, Direction::Backward);
    assert_eq!(finder.direction, Direction::Backward);
    assert!(!finder.selection.is_ready());
    assert_eq!(actions[3], down(KEY_HOME));
    assert_eq!(actions[12], down(KEY_RIGHT));
    assert_eq!(actions.len(), 15);
}

#[test]
fn selection_hands_over_its_text() {
    let mut selection = Selection::pending();
    selection.send("some text".to_string());
    assert!(selection.is_ready());
    assert_eq!(selection.recv(), "some text");
    assert!(!selection.is_ready());
}

#[test]
fn reading_text_holds_nothing() {
    for direction in [Direction::Forward, Direction::Backward] {
        let mut actions = Vec::new();
        get_text(&mut actions, direction);
        let mut held = vec![KEY_RIGHTCTRL, KEY_RIGHTSHIFT];
        for action in actions {
            if let Action::Emit(key, state) = action {
                held.retain(|k| *k != key);
                if state != KeyState::Released {
                    held.push(key);
                }
            }
        }
        assert!(held.is_empty());
    }
}

#[test]
fn moves_past_the_next_occurrence() {
    assert_eq!(steps("'something'", '\'', Direction::Forward), 11);
    assert_eq!(steps("abcabc", 'b', Direction::Forward), 2);
    assert_eq!(steps("abcabc", 'a', Direction::Forward), 4);
    assert_eq!(steps("abc", 'a', Direction::Forward), 0);
    assert_eq!(steps("abc", 'x', Direction::Forward), 0);
    assert_eq!(steps("", 'x', Direction::Forward), 0);
}

#[test]
fn moves_backwards_past_the_last_occurrence() {
    assert_eq!(steps("'something'", '\'', Direction::Backward), 11);
    assert_eq!(steps("abcabc", 'b', Direction::Backward), 2);
    assert_eq!(steps("abcabc", 'c', Direction::Backward), 4);
    assert_eq!(steps("abc", 'c', Direction::Backward), 0);
    assert_eq!(steps("", 'x', Direction::Backward), 0);
}

#[test]
fn selecting_holds_shift_at_each_step() {
    let mut actions = Vec::new();
    move_to_char(&mut actions, "xay", 'a', Direction::Forward, true);
    assert_eq!(
        actions,
        vec![
            up(KEY_LEFTSHIFT),
            up(KEY_RIGHTSHIFT),
            down(KEY_LEFTSHIFT),
            down(KEY_RIGHT),
            up(KEY_RIGHT),
            up(KEY_LEFTSHIFT),
            down(KEY_LEFTSHIFT),
            down(KEY_RIGHT),
            up(KEY_RIGHT),
            up(KEY_LEFTSHIFT),
        ]
    );
}
