use std::collections::HashSet;

use retype::keys;
use retype::map::{caps_remap, char_clicked, number_key_to_digit};

#[test]
fn caps_layer() {
    assert_eq!(caps_remap(keys::KEY_I), Some(keys::KEY_UP));
    assert_eq!(caps_remap(keys::KEY_J), Some(keys::KEY_LEFT));
    assert_eq!(caps_remap(keys::KEY_K), Some(keys::KEY_DOWN));
    assert_eq!(caps_remap(keys::KEY_L), Some(keys::KEY_RIGHT));
    assert_eq!(caps_remap(keys::KEY_H), Some(keys::KEY_HOME));
    assert_eq!(caps_remap(keys::KEY_SEMICOLON), Some(keys::KEY_END));
    assert_eq!(caps_remap(keys::KEY_A), None);
    assert_eq!(caps_remap(keys::KEY_UP), None);
}

#[test]
fn number_keys() {
    let keys_in_order = [
        keys::KEY_0,
        keys::KEY_1,
        keys::KEY_2,
        keys::KEY_3,
        keys::KEY_4,
        keys::KEY_5,
        keys::KEY_6,
        keys::KEY_7,
        keys::KEY_8,
        keys::KEY_9,
    ];
    for (digit, key) in keys_in_order.into_iter().enumerate() {
        assert_eq!(number_key_to_digit(key), Some(digit as u8));
    }
    assert_eq!(number_key_to_digit(keys::KEY_MINUS), None);
    assert_eq!(number_key_to_digit(keys::KEY_ESC), None);
}

#[test]
fn clicked_character_follows_shift() {
    let none = HashSet::new();
    let shift = HashSet::from([keys::KEY_RIGHTSHIFT]);
    assert_eq!(char_clicked(Some("a"), &none), Some('a'));
    assert_eq!(char_clicked(Some("A"), &none), Some('a'));
    assert_eq!(char_clicked(Some("z"), &shift), Some('Z'));
    assert_eq!(char_clicked(Some("Q"), &shift), Some('Q'));
    assert_eq!(char_clicked(Some("'"), &shift), Some('\''));
    assert_eq!(char_clicked(Some("ab"), &none), Some('a'));
}

#[test]
fn clicked_character_is_printable_ascii() {
    let none = HashSet::new();
    assert_eq!(char_clicked(None, &none), None);
    assert_eq!(char_clicked(Some(""), &none), None);
    assert_eq!(char_clicked(Some("\r"), &none), None);
    assert_eq!(char_clicked(Some("\u{7f}"), &none), None);
    assert_eq!(char_clicked(Some("é"), &none), None);
    assert_eq!(char_clicked(Some(" "), &none), Some(' '));
    assert_eq!(char_clicked(Some("~"), &none), Some('~'));
}
