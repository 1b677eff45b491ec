use std::collections::HashSet;

use retype::action::Action;
use retype::keys;
use retype::keys::KeyState;
use retype::modifiers::{is_modifier, Modifier};

#[test]
fn modifier_keys() {
    for key in [
        keys::KEY_LEFTALT,
        keys::KEY_RIGHTALT,
        keys::KEY_LEFTSHIFT,
        keys::KEY_RIGHTSHIFT,
        keys::KEY_LEFTCTRL,
        keys::KEY_RIGHTCTRL,
        keys::KEY_LEFTMETA,
        keys::KEY_RIGHTMETA,
    ] {
        assert!(is_modifier(key));
    }
    assert!(!is_modifier(keys::KEY_CAPSLOCK));
    assert!(!is_modifier(keys::KEY_A));
}

#[test]
fn modifier_is_pressed_by_either_button() {
    let pressed = HashSet::from([keys::KEY_RIGHTCTRL, keys::KEY_LEFTALT]);
    assert!(Modifier::Ctrl.is_pressed(&pressed));
    assert!(Modifier::Alt.is_pressed(&pressed));
    assert!(!Modifier::Shift.is_pressed(&pressed));
    assert!(!Modifier::Super.is_pressed(&pressed));
    assert!(Modifier::Super.is_pressed(&HashSet::from([keys::KEY_RIGHTMETA])));
}

#[test]
fn modifier_releases_both_buttons() {
    for (modifier, left, right) in [
        (Modifier::Ctrl, keys::KEY_LEFTCTRL, keys::KEY_RIGHTCTRL),
        (Modifier::Shift, keys::KEY_LEFTSHIFT, keys::KEY_RIGHTSHIFT),
        (Modifier::Alt, keys::KEY_LEFTALT, keys::KEY_RIGHTALT),
        (Modifier::Super, keys::KEY_LEFTMETA, keys::KEY_RIGHTMETA),
    ] {
        let mut actions = vec![Action::Wait(1)];
        modifier.release(&mut actions);
        assert_eq!(
            actions,
            vec![
                Action::Wait(1),
                Action::Emit(left, KeyState::Released),
                Action::Emit(right, KeyState::Released),
            ]
        );
    }
}
