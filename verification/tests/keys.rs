use evdev::KeyCode;
use retype::keys;
use retype::keys::KeyState;

#[test]
fn codes_are_those_of_the_input_layer() {
    let pairs = [
        (keys::KEY_ESC, KeyCode::KEY_ESC),
        (keys::KEY_1, KeyCode::KEY_1),
        (keys::KEY_2, KeyCode::KEY_2),
        (keys::KEY_3, KeyCode::KEY_3),
        (keys::KEY_4, KeyCode::KEY_4),
        (keys::KEY_5, KeyCode::KEY_5),
        (keys::KEY_6, KeyCode::KEY_6),
        (keys::KEY_7, KeyCode::KEY_7),
        (keys::KEY_8, KeyCode::KEY_8),
        (keys::KEY_9, KeyCode::KEY_9),
        (keys::KEY_0, KeyCode::KEY_0),
        (keys::KEY_MINUS, KeyCode::KEY_MINUS),
        (keys::KEY_EQUAL, KeyCode::KEY_EQUAL),
        (keys::KEY_Q, KeyCode::KEY_Q),
        (keys::KEY_W, KeyCode::KEY_W),
        (keys::KEY_E, KeyCode::KEY_E),
        (keys::KEY_R, KeyCode::KEY_R),
        (keys::KEY_T, KeyCode::KEY_T),
        (keys::KEY_Y, KeyCode::KEY_Y),
        (keys::KEY_U, KeyCode::KEY_U),
        (keys::KEY_I, KeyCode::KEY_I),
        (keys::KEY_O, KeyCode::KEY_O),
        (keys::KEY_P, KeyCode::KEY_P),
        (keys::KEY_LEFTBRACE, KeyCode::KEY_LEFTBRACE),
        (keys::KEY_RIGHTBRACE, KeyCode::KEY_RIGHTBRACE),
        (keys::KEY_ENTER, KeyCode::KEY_ENTER),
        (keys::KEY_LEFTCTRL, KeyCode::KEY_LEFTCTRL),
        (keys::KEY_A, KeyCode::KEY_A),
        (keys::KEY_S, KeyCode::KEY_S),
        (keys::KEY_D, KeyCode::KEY_D),
        (keys::KEY_F, KeyCode::KEY_F),
        (keys::KEY_G, KeyCode::KEY_G),
        (keys::KEY_H, KeyCode::KEY_H),
        (keys::KEY_J, KeyCode::KEY_J),
        (keys::KEY_K, KeyCode::KEY_K),
        (keys::KEY_L, KeyCode::KEY_L),
        (keys::KEY_SEMICOLON, KeyCode::KEY_SEMICOLON),
        (keys::KEY_APOSTROPHE, KeyCode::KEY_APOSTROPHE),
        (keys::KEY_GRAVE, KeyCode::KEY_GRAVE),
        (keys::KEY_LEFTSHIFT, KeyCode::KEY_LEFTSHIFT),
        (keys::KEY_BACKSLASH, KeyCode::KEY_BACKSLASH),
        (keys::KEY_Z, KeyCode::KEY_Z),
        (keys::KEY_X, KeyCode::KEY_X),
        (keys::KEY_C, KeyCode::KEY_C),
        (keys::KEY_V, KeyCode::KEY_V),
        (keys::KEY_B, KeyCode::KEY_B),
        (keys::KEY_N, KeyCode::KEY_N),
        (keys::KEY_M, KeyCode::KEY_M),
        (keys::KEY_COMMA, KeyCode::KEY_COMMA),
        (keys::KEY_DOT, KeyCode::KEY_DOT),
        (keys::KEY_SLASH, KeyCode::KEY_SLASH),
        (keys::KEY_RIGHTSHIFT, KeyCode::KEY_RIGHTSHIFT),
        (keys::KEY_LEFTALT, KeyCode::KEY_LEFTALT),
        (keys::KEY_SPACE, KeyCode::KEY_SPACE),
        (keys::KEY_CAPSLOCK, KeyCode::KEY_CAPSLOCK),
        (keys::KEY_F1, KeyCode::KEY_F1),
        (keys::KEY_RIGHTCTRL, KeyCode::KEY_RIGHTCTRL),
        (keys::KEY_RIGHTALT, KeyCode::KEY_RIGHTALT),
        (keys::KEY_HOME, KeyCode::KEY_HOME),
        (keys::KEY_UP, KeyCode::KEY_UP),
        (keys::KEY_LEFT, KeyCode::KEY_LEFT),
        (keys::KEY_RIGHT, KeyCode::KEY_RIGHT),
        (keys::KEY_END, KeyCode::KEY_END),
        (keys::KEY_DOWN, KeyCode::KEY_DOWN),
        (keys::KEY_LEFTMETA, KeyCode::KEY_LEFTMETA),
        (keys::KEY_RIGHTMETA, KeyCode::KEY_RIGHTMETA),
    ];
    for (code, key) in pairs {
        assert_eq!(code, key.0);
    }
    assert_eq!(keys::BTN_MISC, KeyCode::BTN_0.0);
}

#[test]
fn states_have_values() {
    assert_eq!(i32::from(KeyState::Released), 0);
    assert_eq!(i32::from(KeyState::Pressed), 1);
    assert_eq!(i32::from(KeyState::Repeat), 2);
}

#[test]
fn values_give_states_back() {
    for state in [KeyState::Released, KeyState::Pressed, KeyState::Repeat] {
        assert_eq!(KeyState::from_value(i32::from(state)), Some(state));
    }
    assert_eq!(KeyState::from_value(3), None);
    assert_eq!(KeyState::from_value(-1), None);
}

#[test]
fn keys_type_characters() {
    assert_eq!(keys::to_char(keys::KEY_A, false), Some('a'));
    assert_eq!(keys::to_char(keys::KEY_A, true), Some('A'));
    assert_eq!(keys::to_char(keys::KEY_APOSTROPHE, false), Some('\''));
    assert_eq!(keys::to_char(keys::KEY_APOSTROPHE, true), Some('"'));
    assert_eq!(keys::to_char(keys::KEY_0, true), Some(')'));
    assert_eq!(keys::to_char(keys::KEY_SPACE, true), Some(' '));
    assert_eq!(keys::to_char(keys::KEY_ENTER, false), None);
    assert_eq!(keys::to_char(keys::KEY_LEFT, false), None);
}

#[test]
fn virtual_keyboard_has_all_keys() {
    let all = keys::all_keys();
    assert_eq!(all.len(), 255);
    assert_eq!(all[0], keys::KEY_ESC);
    assert!(all.contains(&keys::KEY_RIGHTMETA));
    assert!(!all.contains(&KeyCode::BTN_LEFT.0));
    assert!(keys::is_keyboard_key(keys::KEY_Z));
    assert!(!keys::is_keyboard_key(0));
    assert!(!keys::is_keyboard_key(keys::BTN_MISC));
}
