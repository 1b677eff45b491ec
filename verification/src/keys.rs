//! Key codes of the Linux input layer, key states, and the keyboard layout.

use vstd::prelude::*;

verus! {

/// A key, by its code in the Linux input layer.
pub type Key = u16;

pub const KEY_ESC: Key = 1;
pub const KEY_1: Key = 2;
pub const KEY_2: Key = 3;
pub const KEY_3: Key = 4;
pub const KEY_4: Key = 5;
pub const KEY_5: Key = 6;
pub const KEY_6: Key = 7;
pub const KEY_7: Key = 8;
pub const KEY_8: Key = 9;
pub const KEY_9: Key = 10;
pub const KEY_0: Key = 11;
pub const KEY_MINUS: Key = 12;
pub const KEY_EQUAL: Key = 13;
pub const KEY_Q: Key = 16;
pub const KEY_W: Key = 17;
pub const KEY_E: Key = 18;
pub const KEY_R: Key = 19;
pub const KEY_T: Key = 20;
pub const KEY_Y: Key = 21;
pub const KEY_U: Key = 22;
pub const KEY_I: Key = 23;
pub const KEY_O: Key = 24;
pub const KEY_P: Key = 25;
pub const KEY_LEFTBRACE: Key = 26;
pub const KEY_RIGHTBRACE: Key = 27;
pub const KEY_ENTER: Key = 28;
pub const KEY_LEFTCTRL: Key = 29;
pub const KEY_A: Key = 30;
pub const KEY_S: Key = 31;
pub const KEY_D: Key = 32;
pub const KEY_F: Key = 33;
pub const KEY_G: Key = 34;
pub const KEY_H: Key = 35;
pub const KEY_J: Key = 36;
pub const KEY_K: Key = 37;
pub const KEY_L: Key = 38;
pub const KEY_SEMICOLON: Key = 39;
pub const KEY_APOSTROPHE: Key = 40;
pub const KEY_GRAVE: Key = 41;
pub const KEY_LEFTSHIFT: Key = 42;
pub const KEY_BACKSLASH: Key = 43;
pub const KEY_Z: Key = 44;
pub const KEY_X: Key = 45;
pub const KEY_C: Key = 46;
pub const KEY_V: Key = 47;
pub const KEY_B: Key = 48;
pub const KEY_N: Key = 49;
pub const KEY_M: Key = 50;
pub const KEY_COMMA: Key = 51;
pub const KEY_DOT: Key = 52;
pub const KEY_SLASH: Key = 53;
pub const KEY_RIGHTSHIFT: Key = 54;
pub const KEY_LEFTALT: Key = 56;
pub const KEY_SPACE: Key = 57;
pub const KEY_CAPSLOCK: Key = 58;
pub const KEY_F1: Key = 59;
pub const KEY_RIGHTCTRL: Key = 97;
pub const KEY_RIGHTALT: Key = 100;
pub const KEY_HOME: Key = 102;
pub const KEY_UP: Key = 103;
pub const KEY_LEFT: Key = 105;
pub const KEY_RIGHT: Key = 106;
pub const KEY_END: Key = 107;
pub const KEY_DOWN: Key = 108;
pub const KEY_LEFTMETA: Key = 125;
pub const KEY_RIGHTMETA: Key = 126;

/// The first code of a button that is not a keyboard key.
pub const BTN_MISC: Key = 256;

/// What happened to a key.
#[derive(Debug, Clone, Copy, PartialEq, Eq, Structural, PartialOrd, Ord)]
pub enum KeyState {
    Released,
    Pressed,
    Repeat,
}

/// The value that stands for `state` in an input event.
pub open spec fn value_of(state: KeyState) -> i32 {
    match state {
        KeyState::Released => 0,
        KeyState::Pressed => 1,
        KeyState::Repeat => 2,
    }
}

impl vstd::std_specs::convert::FromSpecImpl<KeyState> for i32 {
    open spec fn obeys_from_spec() -> bool {
        true
    }

    open spec fn from_spec(state: KeyState) -> i32 {
        value_of(state)
    }
}

impl From<KeyState> for i32 {
    fn from(state: KeyState) -> (value: i32) {
        match state {
            KeyState::Released => 0,
            KeyState::Pressed => 1,
            KeyState::Repeat => 2,
        }
    }
}

impl KeyState {
    /// The state that `value` stands for in an input event, if it is one.
    pub fn from_value(value: i32) -> (state: Option<KeyState>)
        ensures
            state is Some <==> 0 <= value <= 2,
            state matches Some(s) ==> value_of(s) == value,
    {
        match value {
            0 => Some(KeyState::Released),
            1 => Some(KeyState::Pressed),
            2 => Some(KeyState::Repeat),
            _ => None,
        }
    }
}

/// The shift keys.
pub open spec fn shift_key(key: Key) -> bool {
    key == KEY_LEFTSHIFT || key == KEY_RIGHTSHIFT
}

/// The keys that the virtual keyboard has: all codes below the first button.
pub open spec fn keyboard_key(key: Key) -> bool {
    1 <= key < BTN_MISC
}

/// Whether the virtual keyboard has `key`.
pub fn is_keyboard_key(key: Key) -> (r: bool)
    ensures
        r == keyboard_key(key),
{
    1 <= key && key < BTN_MISC
}

/// Every key of the virtual keyboard, in ascending order.
pub fn all_keys() -> (keys: Vec<Key>)
    ensures
        keys@.len() == BTN_MISC - 1,
        forall|i: int| 0 <= i < keys@.len() ==> #[trigger] keys@[i] == i + 1,
        forall|key: Key| keyboard_key(key) <==> #[trigger] keys@.contains(key),
{
    let mut keys: Vec<Key> = Vec::new();
    let mut key: Key = 1;
    while key < BTN_MISC
        invariant
            1 <= key <= BTN_MISC,
            keys@.len() == key - 1,
            forall|i: int| 0 <= i < keys@.len() ==> #[trigger] keys@[i] == i + 1,
        decreases BTN_MISC - key,
    {
        keys.push(key);
        key = key + 1;
    }
    assert forall|key: Key| keyboard_key(key) implies #[trigger] keys@.contains(key) by {
        assert(keys@[key - 1] == key);
    }
    keys
}

/// The characters that a key types without and with shift.
pub open spec fn characters_of(key: Key) -> Option<(char, char)> {
    match key {
        KEY_1 => Some(('1', '!')),
        KEY_2 => Some(('2', '@')),
        KEY_3 => Some(('3', '#')),
        KEY_4 => Some(('4', '$')),
        KEY_5 => Some(('5', '%')),
        KEY_6 => Some(('6', '^')),
        KEY_7 => Some(('7', '&')),
        KEY_8 => Some(('8', '*')),
        KEY_9 => Some(('9', '(')),
        KEY_0 => Some(('0', ')')),
        KEY_MINUS => Some(('-', '_')),
        KEY_EQUAL => Some(('=', '+')),
        KEY_Q => Some(('q', 'Q')),
        KEY_W => Some(('w', 'W')),
        KEY_E => Some(('e', 'E')),
        KEY_R => Some(('r', 'R')),
        KEY_T => Some(('t', 'T')),
        KEY_Y => Some(('y', 'Y')),
        KEY_U => Some(('u', 'U')),
        KEY_I => Some(('i', 'I')),
        KEY_O => Some(('o', 'O')),
        KEY_P => Some(('p', 'P')),
        KEY_LEFTBRACE => Some(('[', '{')),
        KEY_RIGHTBRACE => Some((']', '}')),
        KEY_A => Some(('a', 'A')),
        KEY_S => Some(('s', 'S')),
        KEY_D => Some(('d', 'D')),
        KEY_F => Some(('f', 'F')),
        KEY_G => Some(('g', 'G')),
        KEY_H => Some(('h', 'H')),
        KEY_J => Some(('j', 'J')),
        KEY_K => Some(('k', 'K')),
        KEY_L => Some(('l', 'L')),
        KEY_SEMICOLON => Some((';', ':')),
        KEY_APOSTROPHE => Some(('\'', '"')),
        KEY_GRAVE => Some(('`', '~')),
        KEY_BACKSLASH => Some(('\\', '|')),
        KEY_Z => Some(('z', 'Z')),
        KEY_X => Some(('x', 'X')),
        KEY_C => Some(('c', 'C')),
        KEY_V => Some(('v', 'V')),
        KEY_B => Some(('b', 'B')),
        KEY_N => Some(('n', 'N')),
        KEY_M => Some(('m', 'M')),
        KEY_COMMA => Some((',', '<')),
        KEY_DOT => Some(('.', '>')),
        KEY_SLASH => Some(('/', '?')),
        KEY_SPACE => Some((' ', ' ')),
        _ => None,
    }
}

/// The character that `key` types on a US keyboard, with or without shift.
pub open spec fn char_of(key: Key, shift: bool) -> Option<char> {
    match characters_of(key) {
        Some((plain, shifted)) => Some(if shift { shifted } else { plain }),
        None => None,
    }
}

/// The characters that `key` types without and with shift.
fn characters(key: Key) -> (r: Option<(char, char)>)
    ensures
        r == characters_of(key),
{
    match key {
        KEY_1 => Some(('1', '!')),
        KEY_2 => Some(('2', '@')),
        KEY_3 => Some(('3', '#')),
        KEY_4 => Some(('4', '$')),
        KEY_5 => Some(('5', '%')),
        KEY_6 => Some(('6', '^')),
        KEY_7 => Some(('7', '&')),
        KEY_8 => Some(('8', '*')),
        KEY_9 => Some(('9', '(')),
        KEY_0 => Some(('0', ')')),
        KEY_MINUS => Some(('-', '_')),
        KEY_EQUAL => Some(('=', '+')),
        KEY_Q => Some(('q', 'Q')),
        KEY_W => Some(('w', 'W')),
        KEY_E => Some(('e', 'E')),
        KEY_R => Some(('r', 'R')),
        KEY_T => Some(('t', 'T')),
        KEY_Y => Some(('y', 'Y')),
        KEY_U => Some(('u', 'U')),
        KEY_I => Some(('i', 'I')),
        KEY_O => Some(('o', 'O')),
        KEY_P => Some(('p', 'P')),
        KEY_LEFTBRACE => Some(('[', '{')),
        KEY_RIGHTBRACE => Some((']', '}')),
        KEY_A => Some(('a', 'A')),
        KEY_S => Some(('s', 'S')),
        KEY_D => Some(('d', 'D')),
        KEY_F => Some(('f', 'F')),
        KEY_G => Some(('g', 'G')),
        KEY_H => Some(('h', 'H')),
        KEY_J => Some(('j', 'J')),
        KEY_K => Some(('k', 'K')),
        KEY_L => Some(('l', 'L')),
        KEY_SEMICOLON => Some((';', ':')),
        KEY_APOSTROPHE => Some(('\'', '"')),
        KEY_GRAVE => Some(('`', '~')),
        KEY_BACKSLASH => Some(('\\', '|')),
        KEY_Z => Some(('z', 'Z')),
        KEY_X => Some(('x', 'X')),
        KEY_C => Some(('c', 'C')),
        KEY_V => Some(('v', 'V')),
        KEY_B => Some(('b', 'B')),
        KEY_N => Some(('n', 'N')),
        KEY_M => Some(('m', 'M')),
        KEY_COMMA => Some((',', '<')),
        KEY_DOT => Some(('.', '>')),
        KEY_SLASH => Some(('/', '?')),
        KEY_SPACE => Some((' ', ' ')),
        _ => None,
    }
}

/// The character that `key` types, with or without shift, if it types one.
pub fn to_char(key: Key, shift: bool) -> (r: Option<char>)
    ensures
        r == char_of(key, shift),
{
    match characters(key) {
        Some((plain, shifted)) => {
            if shift {
                Some(shifted)
            } else {
                Some(plain)
            }
        },
        None => None,
    }
}

/// The rows of the keyboard: keys that lie side by side type the characters of a row one after the
/// other, without and with shift.
pub proof fn law_rows_of_the_keyboard(key: Key, plain: Option<char>, shifted: Option<char>)
    requires
        call_ensures(to_char, (key, false), plain),
        call_ensures(to_char, (key, true), shifted),
    ensures
        2 <= key <= 13 ==> plain == Some("1234567890-="@[key - 2]) && shifted == Some(
            "!@#$%^&*()_+"@[key - 2],
        ),
        16 <= key <= 27 ==> plain == Some("qwertyuiop[]"@[key - 16]) && shifted == Some(
            "QWERTYUIOP{}"@[key - 16],
        ),
        30 <= key <= 41 ==> plain == Some("asdfghjkl;'`"@[key - 30]) && shifted == Some(
            "ASDFGHJKL:\"~"@[key - 30],
        ),
        43 <= key <= 53 ==> plain == Some("\\zxcvbnm,./"@[key - 43]) && shifted == Some(
            "|ZXCVBNM<>?"@[key - 43],
        ),
        key == 57 ==> plain == Some(' ') && shifted == Some(' '),
        !(2 <= key <= 13) && !(16 <= key <= 27) && !(30 <= key <= 41) && !(43 <= key <= 53) && key
            != 57 ==> plain is None && shifted is None,
{
    reveal_strlit("1234567890-=");
    reveal_strlit("!@#$%^&*()_+");
    reveal_strlit("qwertyuiop[]");
    reveal_strlit("QWERTYUIOP{}");
    reveal_strlit("asdfghjkl;'`");
    reveal_strlit("ASDFGHJKL:\"~");
    reveal_strlit("\\zxcvbnm,./");
    reveal_strlit("|ZXCVBNM<>?");
}

/// Shift changes the character of every key but the space bar, and no two keys type the same one.
pub proof fn law_characters_tell_keys_apart(a: Key, b: Key, shift_a: bool, shift_b: bool)
    requires
        char_of(a, shift_a) is Some,
        char_of(a, shift_a) == char_of(b, shift_b),
    ensures
        a == b,
        shift_a == shift_b || char_of(a, shift_a) == Some(' '),
{
}

/// The virtual keyboard has each code from 1 to 255 once, and no other key.
pub proof fn law_virtual_keyboard_has_all_codes(keys: Vec<Key>, key: Key, r: bool)
    requires
        call_ensures(all_keys, (), keys),
        call_ensures(is_keyboard_key, (key,), r),
    ensures
        keys@.no_duplicates(),
        keys@.contains(key) <==> 1 <= key <= 255,
        r <==> keys@.contains(key),
{
}

/// Releases, presses and repeats are 0, 1 and 2 in an input event, and no other value is a state.
pub proof fn law_states_are_values(value: i32, state: Option<KeyState>)
    requires
        call_ensures(KeyState::from_value, (value,), state),
    ensures
        state == Some(KeyState::Released) <==> value == 0,
        state == Some(KeyState::Pressed) <==> value == 1,
        state == Some(KeyState::Repeat) <==> value == 2,
        state matches Some(s) ==> value_of(s) == value,
{
}

} // verus!
