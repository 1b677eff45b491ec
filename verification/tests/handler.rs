use retype::action::{Action, LONG_WAIT, TINY_WAIT};
use retype::find::Direction;
use retype::handler::{KbEventHandler, Killed, Response};
use retype::keys;
use retype::keys::{Key, KeyState};

struct Typist {
    handler: KbEventHandler,
}

impl Typist {
    fn new() -> Self {
        Typist { handler: KbEventHandler::new() }
    }

    fn respond(&mut self, key: Key, state: KeyState) -> Response {
        self.handler.handle_event(key, state).unwrap()
    }

    fn event(&mut self, key: Key, state: KeyState) -> Vec<Action> {
        let response = self.respond(key, state);
        assert_eq!(response.selection, None);
        response.actions
    }

    fn down(&mut self, key: Key) -> Vec<Action> {
        self.event(key, KeyState::Pressed)
    }

    fn up(&mut self, key: Key) -> Vec<Action> {
        self.event(key, KeyState::Released)
    }

    fn hold_repeat(&mut self, key: Key) -> Vec<Action> {
        self.event(key, KeyState::Repeat)
    }

    /// Types a number with caps held.
    fn number(&mut self, digit_keys: &[Key]) {
        self.down(keys::KEY_CAPSLOCK);
        for key in digit_keys {
            assert!(self.down(*key).is_empty());
            self.up(*key);
        }
        self.up(keys::KEY_CAPSLOCK);
    }

    /// Begins a search with nothing but caps held, and provides the text.
    fn search(&mut self, key: Key, text: &str) {
        self.down(keys::KEY_CAPSLOCK);
        let response = self.respond(key, KeyState::Pressed);
        let direction = response.selection.unwrap();
        self.handler.provide_selection(direction, Some(text.to_string()));
        self.up(key);
        self.up(keys::KEY_CAPSLOCK);
    }
}

fn pressed(key: Key) -> Action {
    Action::Emit(key, KeyState::Pressed)
}

fn released(key: Key) -> Action {
    Action::Emit(key, KeyState::Released)
}

fn clicks(key: Key, count: usize) -> Vec<Action> {
    let mut actions = Vec::new();
    for _ in 0..count {
        actions.push(Action::Click(key));
        actions.push(Action::Wait(TINY_WAIT));
    }
    actions
}

#[test]
fn plain_typing_passes_through() {
    let mut typist = Typist::new();
    assert_eq!(typist.down(keys::KEY_A), vec![pressed(keys::KEY_A)]);
    assert_eq!(
        typist.hold_repeat(keys::KEY_A),
        vec![Action::Emit(keys::KEY_A, KeyState::Repeat)]
    );
    assert_eq!(typist.up(keys::KEY_A), vec![released(keys::KEY_A)]);
    assert_eq!(typist.down(keys::KEY_LEFTCTRL), vec![pressed(keys::KEY_LEFTCTRL)]);
}

#[test]
fn caps_itself_is_not_shown() {
    let mut typist = Typist::new();
    assert!(typist.down(keys::KEY_CAPSLOCK).is_empty());
    assert!(typist.hold_repeat(keys::KEY_CAPSLOCK).is_empty());
    assert!(typist.up(keys::KEY_CAPSLOCK).is_empty());
}

#[test]
fn caps_with_letters_moves_the_cursor() {
    for (key, meaning) in [
        (keys::KEY_I, keys::KEY_UP),
        (keys::KEY_J, keys::KEY_LEFT),
        (keys::KEY_K, keys::KEY_DOWN),
        (keys::KEY_L, keys::KEY_RIGHT),
        (keys::KEY_H, keys::KEY_HOME),
        (keys::KEY_SEMICOLON, keys::KEY_END),
    ] {
        let mut typist = Typist::new();
        typist.down(keys::KEY_CAPSLOCK);
        assert_eq!(typist.down(key), vec![pressed(meaning)]);
        assert_eq!(
            typist.hold_repeat(key),
            vec![Action::Emit(meaning, KeyState::Repeat)]
        );
        assert_eq!(typist.up(key), vec![released(meaning)]);
    }
}

#[test]
fn caps_press_lets_go_of_letters() {
    let mut typist = Typist::new();
    typist.down(keys::KEY_J);
    typist.down(keys::KEY_A);
    assert_eq!(typist.down(keys::KEY_CAPSLOCK), vec![released(keys::KEY_J)]);
    assert_eq!(
        typist.hold_repeat(keys::KEY_J),
        vec![Action::Emit(keys::KEY_LEFT, KeyState::Repeat)]
    );
}

#[test]
fn caps_release_lets_go_of_arrows() {
    let mut typist = Typist::new();
    typist.down(keys::KEY_CAPSLOCK);
    typist.down(keys::KEY_J);
    typist.down(keys::KEY_I);
    assert_eq!(
        typist.up(keys::KEY_CAPSLOCK),
        vec![released(keys::KEY_UP), released(keys::KEY_LEFT)]
    );
    assert_eq!(typist.up(keys::KEY_J), vec![released(keys::KEY_J)]);
}

#[test]
fn super_and_caps_toggles_caps_lock() {
    let mut typist = Typist::new();
    typist.down(keys::KEY_LEFTMETA);
    assert!(typist.down(keys::KEY_CAPSLOCK).is_empty());
    assert!(typist.hold_repeat(keys::KEY_CAPSLOCK).is_empty());
    assert_eq!(
        typist.up(keys::KEY_CAPSLOCK),
        vec![Action::Click(keys::KEY_CAPSLOCK)]
    );
}

#[test]
fn other_keys_prevent_the_toggle() {
    let mut typist = Typist::new();
    typist.down(keys::KEY_LEFTMETA);
    typist.down(keys::KEY_CAPSLOCK);
    typist.down(keys::KEY_A);
    typist.up(keys::KEY_A);
    assert!(typist.up(keys::KEY_CAPSLOCK).is_empty());
}

#[test]
fn caps_without_super_does_not_toggle() {
    let mut typist = Typist::new();
    typist.down(keys::KEY_CAPSLOCK);
    assert!(typist.up(keys::KEY_CAPSLOCK).is_empty());
    // super after caps is another key in between
    typist.down(keys::KEY_CAPSLOCK);
    typist.down(keys::KEY_LEFTMETA);
    assert!(typist.up(keys::KEY_CAPSLOCK).is_empty());
}

#[test]
fn numbers_repeat_the_next_key() {
    let mut typist = Typist::new();
    typist.number(&[keys::KEY_1, keys::KEY_2]);
    assert_eq!(typist.down(keys::KEY_X), clicks(keys::KEY_X, 12));
    assert_eq!(typist.up(keys::KEY_X), vec![released(keys::KEY_X)]);
    assert_eq!(typist.down(keys::KEY_X), vec![pressed(keys::KEY_X)]);
}

#[test]
fn numbers_repeat_the_layer() {
    let mut typist = Typist::new();
    typist.down(keys::KEY_CAPSLOCK);
    typist.down(keys::KEY_3);
    typist.up(keys::KEY_3);
    assert_eq!(typist.down(keys::KEY_K), clicks(keys::KEY_DOWN, 3));
    assert_eq!(typist.down(keys::KEY_K), vec![pressed(keys::KEY_DOWN)]);
}

#[test]
fn numbers_stop_at_the_largest() {
    let mut typist = Typist::new();
    typist.number(&[keys::KEY_9; 7]);
    assert_eq!(typist.down(keys::KEY_X), clicks(keys::KEY_X, 65535));
}

#[test]
fn modifiers_do_not_use_up_the_number() {
    let mut typist = Typist::new();
    typist.number(&[keys::KEY_2]);
    assert_eq!(typist.down(keys::KEY_LEFTSHIFT), vec![pressed(keys::KEY_LEFTSHIFT)]);
    assert_eq!(typist.down(keys::KEY_X), clicks(keys::KEY_X, 2));
}

#[test]
fn escape_drops_the_number() {
    let mut typist = Typist::new();
    typist.number(&[keys::KEY_4]);
    assert_eq!(typist.down(keys::KEY_ESC), vec![pressed(keys::KEY_ESC)]);
    assert_eq!(typist.down(keys::KEY_X), vec![pressed(keys::KEY_X)]);
}

#[test]
fn searching_selects_the_rest_of_the_line() {
    let mut typist = Typist::new();
    typist.down(keys::KEY_CAPSLOCK);
    let response = typist.respond(keys::KEY_F, KeyState::Pressed);
    assert_eq!(response.selection, Some(Direction::Forward));
    assert_eq!(
        response.actions,
        vec![
            Action::Wait(LONG_WAIT),
            pressed(keys::KEY_LEFTSHIFT),
            Action::Wait(LONG_WAIT),
            Action::Click(keys::KEY_END),
            Action::Wait(LONG_WAIT),
            Action::Click(keys::KEY_END),
            Action::Wait(LONG_WAIT),
            released(keys::KEY_LEFTSHIFT),
            Action::Wait(LONG_WAIT),
            Action::Click(keys::KEY_LEFT),
            Action::Wait(LONG_WAIT),
        ]
    );
    let backwards = typist.respond(keys::KEY_D, KeyState::Pressed);
    assert_eq!(backwards.selection, Some(Direction::Backward));
    assert_eq!(backwards.actions[3], Action::Click(keys::KEY_HOME));
    assert_eq!(backwards.actions[9], Action::Click(keys::KEY_RIGHT));
}

#[test]
fn readme_search_moves_past_the_quote() {
    let mut typist = Typist::new();
    typist.search(keys::KEY_F, "'something'");
    let mut expected = vec![Action::Wait(TINY_WAIT)];
    expected.extend(clicks(keys::KEY_RIGHT, 11));
    assert_eq!(typist.down(keys::KEY_APOSTROPHE), expected);
    // the search is over
    assert_eq!(
        typist.down(keys::KEY_APOSTROPHE),
        vec![pressed(keys::KEY_APOSTROPHE)]
    );
}

#[test]
fn backward_search_moves_left() {
    let mut typist = Typist::new();
    typist.search(keys::KEY_D, "one two");
    let mut expected = vec![Action::Wait(TINY_WAIT)];
    expected.extend(clicks(keys::KEY_LEFT, 6));
    assert_eq!(typist.down(keys::KEY_N), expected);
}

#[test]
fn long_searches_stop_at_the_largest_number() {
    let mut typist = Typist::new();
    typist.search(keys::KEY_F, &("a".repeat(70_000) + "b"));
    let mut expected = vec![Action::Wait(TINY_WAIT)];
    expected.extend(clicks(keys::KEY_RIGHT, 65535));
    assert_eq!(typist.down(keys::KEY_B), expected);
}

#[test]
fn virtual_keyboard_has_what_is_typed() {
    let all = keys::all_keys();
    for key in &all {
        for caps in [false, true] {
            let mut typist = Typist::new();
            if caps {
                typist.down(keys::KEY_CAPSLOCK);
            }
            let Ok(response) = typist.handler.handle_event(*key, KeyState::Pressed) else {
                assert_eq!(*key, keys::KEY_F1);
                continue;
            };
            for action in response.actions {
                if let Action::Emit(touched, _) | Action::Click(touched) = action {
                    assert!(all.contains(&touched));
                }
            }
        }
    }
}

#[test]
fn search_without_a_match_moves_nothing() {
    let mut typist = Typist::new();
    typist.search(keys::KEY_F, "abc");
    assert!(typist.down(keys::KEY_Z).is_empty());
    assert_eq!(typist.down(keys::KEY_Z), vec![pressed(keys::KEY_Z)]);
    // right next to the cursor does not count
    typist.search(keys::KEY_F, "abc");
    assert!(typist.down(keys::KEY_A).is_empty());
}

#[test]
fn shift_selects_and_is_held_again() {
    let mut typist = Typist::new();
    typist.down(keys::KEY_LEFTSHIFT);
    typist.down(keys::KEY_CAPSLOCK);
    let response = typist.respond(keys::KEY_F, KeyState::Pressed);
    assert_eq!(response.actions[0], released(keys::KEY_LEFTSHIFT));
    assert_eq!(response.actions[12], pressed(keys::KEY_LEFTSHIFT));
    assert_eq!(response.actions.len(), 13);
    typist.handler.provide_selection(Direction::Forward, Some("aXbX".to_string()));
    typist.up(keys::KEY_CAPSLOCK);
    let mut expected = vec![
        released(keys::KEY_LEFTSHIFT),
        Action::Wait(TINY_WAIT),
        pressed(keys::KEY_LEFTSHIFT),
        Action::Wait(TINY_WAIT),
    ];
    expected.extend(clicks(keys::KEY_RIGHT, 2));
    expected.extend([
        Action::Wait(TINY_WAIT),
        released(keys::KEY_LEFTSHIFT),
        pressed(keys::KEY_LEFTSHIFT),
    ]);
    assert_eq!(typist.down(keys::KEY_X), expected);
}

#[test]
fn keys_are_let_go_of_for_a_search() {
    let mut typist = Typist::new();
    typist.down(keys::KEY_A);
    typist.down(keys::KEY_LEFTALT);
    typist.down(keys::KEY_CAPSLOCK);
    let actions = typist.respond(keys::KEY_F, KeyState::Pressed).actions;
    // in either order
    assert!(actions[..2].contains(&released(keys::KEY_A)));
    assert!(actions[..2].contains(&released(keys::KEY_LEFTALT)));
    assert_eq!(actions[13..], [pressed(keys::KEY_LEFTALT)]);
}

#[test]
fn escape_and_arrows_end_a_search() {
    let mut typist = Typist::new();
    typist.search(keys::KEY_F, "aaa");
    typist.down(keys::KEY_ESC);
    assert_eq!(typist.down(keys::KEY_A), vec![pressed(keys::KEY_A)]);
    typist.search(keys::KEY_F, "aaa");
    typist.down(keys::KEY_RIGHT);
    assert_eq!(typist.down(keys::KEY_A), vec![pressed(keys::KEY_A)]);
}

#[test]
fn shift_and_releases_leave_a_search_waiting() {
    let mut typist = Typist::new();
    typist.search(keys::KEY_F, "abAb");
    typist.down(keys::KEY_RIGHTSHIFT);
    typist.up(keys::KEY_S);
    let actions = typist.down(keys::KEY_A);
    let rights = actions
        .iter()
        .filter(|action| **action == Action::Click(keys::KEY_RIGHT))
        .count();
    assert_eq!(rights, 3);
}

#[test]
fn other_modifiers_are_no_characters() {
    let mut typist = Typist::new();
    typist.search(keys::KEY_F, "aaa");
    typist.down(keys::KEY_LEFTCTRL);
    assert_eq!(typist.down(keys::KEY_A), vec![pressed(keys::KEY_A)]);
}

#[test]
fn failed_selection_begins_no_search() {
    let mut typist = Typist::new();
    typist.down(keys::KEY_CAPSLOCK);
    typist.respond(keys::KEY_F, KeyState::Pressed);
    typist.handler.provide_selection(Direction::Forward, None);
    typist.up(keys::KEY_CAPSLOCK);
    assert_eq!(typist.down(keys::KEY_A), vec![pressed(keys::KEY_A)]);
}

#[test]
fn caps_and_f1_kills() {
    let mut typist = Typist::new();
    assert_eq!(typist.down(keys::KEY_F1), vec![pressed(keys::KEY_F1)]);
    typist.up(keys::KEY_F1);
    typist.down(keys::KEY_CAPSLOCK);
    assert!(matches!(
        typist.handler.handle_event(keys::KEY_F1, KeyState::Pressed),
        Err(Killed)
    ));
}

#[test]
fn nothing_is_stuck_after_all_keys_are_up() {
    let mut typist = Typist::new();
    let mut held = std::collections::HashSet::new();
    let script = [
        (keys::KEY_J, true),
        (keys::KEY_LEFTSHIFT, true),
        (keys::KEY_CAPSLOCK, true),
        (keys::KEY_I, true),
        (keys::KEY_F, true),
        (keys::KEY_J, false),
        (keys::KEY_CAPSLOCK, false),
        (keys::KEY_A, true),
        (keys::KEY_I, false),
        (keys::KEY_F, false),
        (keys::KEY_LEFTSHIFT, false),
        (keys::KEY_A, false),
    ];
    for (key, down) in script {
        let state = if down { KeyState::Pressed } else { KeyState::Released };
        let response = typist.respond(key, state);
        for action in response.actions {
            match action {
                Action::Emit(key, KeyState::Released) => {
                    held.remove(&key);
                }
                Action::Emit(key, _) => {
                    held.insert(key);
                }
                Action::Click(key) => {
                    held.remove(&key);
                }
                _ => {}
            }
        }
        if let Some(direction) = response.selection {
            typist.handler.provide_selection(direction, Some("banana".to_string()));
        }
    }
    assert!(held.is_empty());
}

#[test]
fn either_shift_types_the_same_character() {
    for shifts in [
        vec![keys::KEY_LEFTSHIFT],
        vec![keys::KEY_RIGHTSHIFT],
        vec![keys::KEY_LEFTSHIFT, keys::KEY_RIGHTSHIFT],
    ] {
        let mut typist = Typist::new();
        typist.down(keys::KEY_Q);
        typist.search(keys::KEY_F, "abAB");
        for shift in shifts {
            typist.down(shift);
        }
        let rights = typist
            .down(keys::KEY_A)
            .into_iter()
            .filter(|action| *action == Action::Click(keys::KEY_RIGHT))
            .count();
        assert_eq!(rights, 3);
    }
}

#[test]
fn the_same_event_twice_is_noted_once() {
    let mut typist = Typist::new();
    typist.down(keys::KEY_J);
    typist.down(keys::KEY_J);
    typist.hold_repeat(keys::KEY_J);
    typist.down(keys::KEY_L);
    assert_eq!(
        typist.down(keys::KEY_CAPSLOCK),
        vec![released(keys::KEY_J), released(keys::KEY_L)]
    );
    typist.up(keys::KEY_CAPSLOCK);
    typist.down(keys::KEY_J);
    typist.up(keys::KEY_J);
    typist.up(keys::KEY_J);
    assert!(typist.down(keys::KEY_CAPSLOCK).is_empty());
}

#[test]
fn modifiers_are_held_again_after_a_search() {
    let mut typist = Typist::new();
    typist.down(keys::KEY_LEFTALT);
    typist.search(keys::KEY_F, "axb");
    // alt is down again, and the search waits until a character can be typed
    assert_eq!(typist.up(keys::KEY_LEFTALT), vec![released(keys::KEY_LEFTALT)]);
    let mut expected = vec![Action::Wait(TINY_WAIT)];
    expected.extend(clicks(keys::KEY_RIGHT, 2));
    assert_eq!(typist.down(keys::KEY_X), expected);
}
