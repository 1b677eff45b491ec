use std::collections::HashSet;

use retype::action::Action;
use retype::keys::{KeyState, KEY_A, KEY_CAPSLOCK, KEY_LEFTSHIFT, KEY_X};
use retype::num::IncrementalU16;
use retype::send::{click, is_pressed, maybe_repeat, press, release};

fn number(value: &[u8]) -> IncrementalU16 {
    let mut number = IncrementalU16::new();
    for digit in value {
        number.push_digit(*digit);
    }
    number
}

#[test]
fn click_is_press_and_release() {
    let mut actions = Vec::new();
    click(&mut actions, KEY_A);
    assert_eq!(
        actions,
        vec![
            Action::Emit(KEY_A, KeyState::Pressed),
            Action::Emit(KEY_A, KeyState::Released)
        ]
    );
    press(&mut actions, KEY_X);
    release(&mut actions, KEY_X);
    assert_eq!(actions.len(), 4);
    assert_eq!(actions[2], Action::Emit(KEY_X, KeyState::Pressed));
    assert_eq!(actions[3], Action::Emit(KEY_X, KeyState::Released));
}

#[test]
fn pressed_keys() {
    let pressed = HashSet::from([KEY_A]);
    assert!(is_pressed(&pressed, KEY_A));
    assert!(!is_pressed(&pressed, KEY_X));
}

#[test]
fn repeat_adds_what_is_missing() {
    let mut actions = Vec::new();
    let mut history = number(&[1, 2]);
    maybe_repeat(&mut actions, KEY_A, &mut history);
    assert_eq!(history.value(), 0);
    let presses = actions
        .iter()
        .filter(|action| **action == Action::Emit(KEY_A, KeyState::Pressed))
        .count();
    assert_eq!(presses, 11);
    assert_eq!(actions.len(), 22);
    assert_eq!(actions[21], Action::Emit(KEY_A, KeyState::Released));
}

#[test]
fn repeat_of_one_adds_nothing() {
    let mut actions = Vec::new();
    let mut history = number(&[1]);
    maybe_repeat(&mut actions, KEY_A, &mut history);
    assert!(actions.is_empty());
    assert_eq!(history.value(), 0);
}

#[test]
fn modifiers_and_caps_are_not_repeated() {
    for key in [KEY_LEFTSHIFT, KEY_CAPSLOCK] {
        let mut actions = Vec::new();
        let mut history = number(&[5]);
        maybe_repeat(&mut actions, key, &mut history);
        assert!(actions.is_empty());
        assert_eq!(history.value(), 5);
    }
}

#[test]
fn nothing_is_repeated_without_a_number() {
    let mut actions = Vec::new();
    let mut history = IncrementalU16::new();
    maybe_repeat(&mut actions, KEY_A, &mut history);
    assert!(actions.is_empty());
}
