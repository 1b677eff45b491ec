//! What keys mean: the caps lock layer, the digits, and the character of a key press.

use std::collections::HashSet;
use vstd::prelude::*;

use crate::keys::{
    Key, KEY_0, KEY_1, KEY_2, KEY_3, KEY_4, KEY_5, KEY_6, KEY_7, KEY_8, KEY_9, KEY_DOWN,
    KEY_END, KEY_H, KEY_HOME, KEY_I, KEY_J, KEY_K, KEY_L, KEY_LEFT, KEY_RIGHT, KEY_SEMICOLON,
    KEY_UP,
};
use crate::modifiers::Modifier;

verus! {

broadcast use vstd::string::group_string_axioms;

/// The keys that mean another key while caps lock is held.
pub open spec fn remap_sources() -> Seq<Key> {
    seq![KEY_I, KEY_J, KEY_L, KEY_K, KEY_H, KEY_SEMICOLON]
}

/// The keys that they mean then, in the same order.
pub open spec fn remap_targets() -> Seq<Key> {
    seq![KEY_UP, KEY_LEFT, KEY_RIGHT, KEY_DOWN, KEY_HOME, KEY_END]
}

/// The key that `key` means while caps lock is held.
pub open spec fn remapped(key: Key) -> Option<Key> {
    if remap_sources().contains(key) {
        Some(remap_targets()[remap_sources().index_of(key)])
    } else {
        None
    }
}

/// While caps lock is held, i, j, k and l mean up, left, down and right, h and the semicolon mean
/// home and end, and every other key means itself.
pub proof fn law_caps_layer_table(key: Key)
    ensures
        remapped(key) == (if key == KEY_I {
            Some(KEY_UP)
        } else if key == KEY_J {
            Some(KEY_LEFT)
        } else if key == KEY_L {
            Some(KEY_RIGHT)
        } else if key == KEY_K {
            Some(KEY_DOWN)
        } else if key == KEY_H {
            Some(KEY_HOME)
        } else if key == KEY_SEMICOLON {
            Some(KEY_END)
        } else {
            None
        }),
{
    let sources = remap_sources();
    assert(sources[0] == KEY_I && sources[1] == KEY_J && sources[2] == KEY_L && sources[3] == KEY_K
        && sources[4] == KEY_H && sources[5] == KEY_SEMICOLON);
}

/// The key that `button` means while caps lock is held, if it means another one.
pub fn caps_remap(button: Key) -> (r: Option<Key>)
    ensures
        r == remapped(button),
{
    proof {
        law_caps_layer_table(button);
    }
    match button {
        KEY_I => Some(KEY_UP),
        KEY_J => Some(KEY_LEFT),
        KEY_L => Some(KEY_RIGHT),
        KEY_K => Some(KEY_DOWN),
        KEY_H => Some(KEY_HOME),
        KEY_SEMICOLON => Some(KEY_END),
        _ => None,
    }
}

/// The number keys in the order of their digits.
pub open spec fn digit_keys() -> Seq<Key> {
    seq![KEY_0, KEY_1, KEY_2, KEY_3, KEY_4, KEY_5, KEY_6, KEY_7, KEY_8, KEY_9]
}

/// The digit of a number key.
pub open spec fn digit_of(key: Key) -> Option<u8> {
    if digit_keys().contains(key) {
        Some(digit_keys().index_of(key) as u8)
    } else {
        None
    }
}

/// The number keys are not among the keys that mean another one, and lie in a row.
pub proof fn lemma_digit_keys(key: Key)
    ensures
        digit_of(key) is Some ==> KEY_1 <= key <= KEY_0 && remapped(key) is None && digit_of(key)->0
            < 10,
{
    law_caps_layer_table(key);
}

/// The digit of `button`, if it is a number key.
pub fn number_key_to_digit(button: Key) -> (r: Option<u8>)
    ensures
        r == digit_of(button),
        r matches Some(digit) ==> digit < 10,
{
    proof {
        let keys = digit_keys();
        assert(keys[0] == KEY_0 && keys[1] == KEY_1 && keys[2] == KEY_2 && keys[3] == KEY_3
            && keys[4] == KEY_4 && keys[5] == KEY_5 && keys[6] == KEY_6 && keys[7] == KEY_7
            && keys[8] == KEY_8 && keys[9] == KEY_9);
    }
    match button {
        KEY_0 => Some(0),
        KEY_1 => Some(1),
        KEY_2 => Some(2),
        KEY_3 => Some(3),
        KEY_4 => Some(4),
        KEY_5 => Some(5),
        KEY_6 => Some(6),
        KEY_7 => Some(7),
        KEY_8 => Some(8),
        KEY_9 => Some(9),
        _ => None,
    }
}

/// An ASCII character that is not a control character.
pub open spec fn printable_ascii(c: char) -> bool {
    ' ' <= c <= '~'
}

/// `c` in upper case, where it is an ASCII letter.
pub open spec fn ascii_upper(c: char) -> char {
    if 'a' <= c <= 'z' {
        (c as u8 - 32) as char
    } else {
        c
    }
}

/// `c` in lower case, where it is an ASCII letter.
pub open spec fn ascii_lower(c: char) -> char {
    if 'A' <= c <= 'Z' {
        (c as u8 + 32) as char
    } else {
        c
    }
}

/// The character of a key event that carries the name `name`: its first one, in the case that
/// the shift keys ask for. The name's own case is not relied on, and where it starts with
/// anything but printable ASCII there is no character.
pub fn char_clicked(name: Option<&str>, keys_pressed: &HashSet<Key>) -> (r: Option<char>)
    ensures
        r is Some <==> (name is Some && name->0@.len() > 0 && printable_ascii(name->0@[0])),
        r matches Some(c) ==> c == (if keys_pressed@.contains(Modifier::Shift.left())
            || keys_pressed@.contains(Modifier::Shift.right()) {
            ascii_upper(name->0@[0])
        } else {
            ascii_lower(name->0@[0])
        }),
{
    match name {
        None => None,
        Some(text) => {
            let mut characters = text.chars();
            match characters.next() {
                None => None,
                Some(c) => {
                    if !(' ' <= c && c <= '~') {
                        None
                    } else if Modifier::Shift.is_pressed(keys_pressed) {
                        if 'a' <= c && c <= 'z' {
                            Some((c as u8 - 32) as char)
                        } else {
                            Some(c)
                        }
                    } else {
                        if 'A' <= c && c <= 'Z' {
                            Some((c as u8 + 32) as char)
                        } else {
                            Some(c)
                        }
                    }
                },
            }
        },
    }
}

/// Just the keys i, j, l, k, h and the semicolon mean another key, and these are the arrows, home
/// and end.
pub proof fn law_layer_has_six_keys(button: Key, r: Option<Key>)
    requires
        call_ensures(caps_remap, (button,), r),
    ensures
        r == Some(KEY_UP) <==> button == KEY_I,
        r == Some(KEY_LEFT) <==> button == KEY_J,
        r == Some(KEY_RIGHT) <==> button == KEY_L,
        r == Some(KEY_DOWN) <==> button == KEY_K,
        r == Some(KEY_HOME) <==> button == KEY_H,
        r == Some(KEY_END) <==> button == KEY_SEMICOLON,
        r is None <==> button != KEY_I && button != KEY_J && button != KEY_L && button != KEY_K
            && button != KEY_H && button != KEY_SEMICOLON,
{
    law_caps_layer_table(button);
}

/// The number keys lie in a row from one to nine and then zero, and each is its own digit, the one
/// that it types.
pub proof fn law_number_row(button: Key, r: Option<u8>)
    requires
        call_ensures(number_key_to_digit, (button,), r),
    ensures
        r is Some <==> 2 <= button <= 11,
        2 <= button <= 10 ==> r == Some((button - 1) as u8),
        button == 11 ==> r == Some(0u8),
        r matches Some(digit) ==> crate::keys::char_of(button, false) == Some((48 + digit) as char),
{
    let keys = digit_keys();
    assert(keys[0] == KEY_0 && keys[1] == KEY_1 && keys[2] == KEY_2 && keys[3] == KEY_3 && keys[4]
        == KEY_4 && keys[5] == KEY_5 && keys[6] == KEY_6 && keys[7] == KEY_7 && keys[8] == KEY_8
        && keys[9] == KEY_9);
}

/// A clicked character is the first one of the name, or that letter in the other case: with shift
/// never a small letter, without it never a capital. There is one exactly if the name starts with
/// a character from the space to the tilde.
pub proof fn law_clicked_character(
    name: Option<&str>,
    keys_pressed: &HashSet<Key>,
    r: Option<char>,
)
    requires
        call_ensures(char_clicked, (name, keys_pressed), r),
    ensures
        r is Some <==> name is Some && name->0@.len() > 0 && 32 <= name->0@[0] as int <= 126,
        r matches Some(c) ==> {
            let first = name->0@[0] as int;
            let shift = keys_pressed@.contains(crate::keys::KEY_LEFTSHIFT) || keys_pressed@.contains(
                crate::keys::KEY_RIGHTSHIFT,
            );
            let small = 97 <= first <= 122;
            let capital = 65 <= first <= 90;
            &&& shift && small ==> c as int == first - 32
            &&& !shift && capital ==> c as int == first + 32
            &&& shift && !small ==> c as int == first
            &&& !shift && !capital ==> c as int == first
        },
{
}

} // verus!
