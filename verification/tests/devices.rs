use evdev::{AttributeSet, KeyCode, RelativeAxisCode};
use retype::devices::{
    check_device, check_file_name, probably_keyboard_filter, Rejection, DEVICES_DIR,
    RETYPE_KEYBOARD,
};

fn letters() -> AttributeSet<KeyCode> {
    [
        KeyCode::KEY_A,
        KeyCode::KEY_Z,
        KeyCode::KEY_ENTER,
        KeyCode::KEY_SPACE,
    ]
    .into_iter()
    .collect()
}

#[test]
fn keyboards_are_recognised() {
    let keys = letters();
    assert!(probably_keyboard_filter(Some(&keys), None));
    let no_axes = AttributeSet::<RelativeAxisCode>::new();
    assert!(probably_keyboard_filter(Some(&keys), Some(&no_axes)));
}

#[test]
fn other_devices_are_not() {
    assert!(!probably_keyboard_filter(None, None));
    for missing in [
        KeyCode::KEY_A,
        KeyCode::KEY_Z,
        KeyCode::KEY_ENTER,
        KeyCode::KEY_SPACE,
    ] {
        let mut keys = letters();
        keys.remove(missing);
        assert!(!probably_keyboard_filter(Some(&keys), None));
    }
    let mut with_button = letters();
    with_button.insert(KeyCode::BTN_LEFT);
    assert!(!probably_keyboard_filter(Some(&with_button), None));
    let axes: AttributeSet<RelativeAxisCode> =
        [RelativeAxisCode::REL_X].into_iter().collect();
    assert!(!probably_keyboard_filter(Some(&letters()), Some(&axes)));
}

#[test]
fn only_event_files_are_opened() {
    assert_eq!(check_file_name(Some(Some("event12"))), Ok(()));
    assert_eq!(check_file_name(Some(Some("event"))), Ok(()));
    assert_eq!(check_file_name(Some(Some("even"))), Err(Rejection::NotAnEventFile));
    assert_eq!(check_file_name(Some(Some("mouse0"))), Err(Rejection::NotAnEventFile));
    assert_eq!(check_file_name(Some(Some(""))), Err(Rejection::NotAnEventFile));
    assert_eq!(check_file_name(Some(None)), Err(Rejection::NonUtf8Name));
    assert_eq!(check_file_name(None), Err(Rejection::MissingName));
}

#[test]
fn own_keyboard_is_never_taken_over() {
    let keys = letters();
    assert_eq!(
        check_device(Some(RETYPE_KEYBOARD), Some(&keys), None),
        Err(Rejection::OwnKeyboard)
    );
    assert_eq!(
        check_device(Some("retype-keyboard"), None, None),
        Err(Rejection::OwnKeyboard)
    );
    assert_eq!(check_device(Some("retype-keyboard2"), Some(&keys), None), Ok(()));
    assert_eq!(check_device(Some("retype"), Some(&keys), None), Ok(()));
    assert_eq!(check_device(None, Some(&keys), None), Ok(()));
    assert_eq!(check_device(Some("mouse"), None, None), Err(Rejection::NotAKeyboard));
}

#[test]
fn devices_live_in_one_directory() {
    assert_eq!(DEVICES_DIR, "/dev/input");
}
