//! Which input devices are keyboards to take over.

use vstd::prelude::*;

use crate::keys::{is_keyboard_key, keyboard_key, KEY_A, KEY_ENTER, KEY_SPACE, KEY_Z};
use crate::search::characters_of;

verus! {

/// The name of the virtual keyboard.
pub const RETYPE_KEYBOARD: &'static str = "retype-keyboard";

/// The directory of the input devices.
pub const DEVICES_DIR: &'static str = "/dev/input";

/// `evdev::KeyCode`, an element of a key set.
#[verifier::external_type_specification]
#[verifier::external_body]
pub struct ExKeyCode(evdev::KeyCode);

/// `evdev::RelativeAxisCode`, an element of an axis set.
#[verifier::external_type_specification]
#[verifier::external_body]
pub struct ExRelativeAxisCode(evdev::RelativeAxisCode);

/// `evdev::AttributeSetRef`, the set in which `evdev` reports what a device can do.
#[verifier::external_type_specification]
#[verifier::external_body]
#[verifier::reject_recursive_types(T)]
pub struct ExAttributeSetRef<T>(evdev::AttributeSetRef<T>);

/// The codes of the keys in a key set.
pub uninterp spec fn key_codes(keys: &evdev::AttributeSetRef<evdev::KeyCode>) -> Set<u16>;

/// The codes of the axes in an axis set.
pub uninterp spec fn axis_codes(
    axes: &evdev::AttributeSetRef<evdev::RelativeAxisCode>,
) -> Set<u16>;

/// Calls `AttributeSetRef::contains` for the key with this code, and claims that it tells
/// whether the code is in the set.
#[verifier::external_body]
fn has_key(keys: &evdev::AttributeSetRef<evdev::KeyCode>, code: u16) -> (r: bool)
    ensures
        r == key_codes(keys).contains(code),
{
    keys.contains(evdev::KeyCode(code))
}

/// Calls `AttributeSetRef::iter` on a key set, and claims that it comes past the codes of the
/// set, each once, in ascending order.
#[verifier::external_body]
fn list_keys(keys: &evdev::AttributeSetRef<evdev::KeyCode>) -> (r: Vec<u16>)
    ensures
        r@.to_set() == key_codes(keys),
        forall|i: int, j: int| 0 <= i < j < r@.len() ==> r@[i] < r@[j],
{
    keys.iter().map(|key| key.0).collect()
}

/// Calls `AttributeSetRef::iter` on an axis set and `len` on what it returns, and claims that
/// this is the number of axes in the set.
#[verifier::external_body]
fn count_axes(axes: &evdev::AttributeSetRef<evdev::RelativeAxisCode>) -> (r: usize)
    ensures
        r == axis_codes(axes).len(),
        r == 0 <==> axis_codes(axes) == Set::<u16>::empty(),
{
    axes.iter().len()
}

/// A device with these keys and relative axes is taken for a keyboard: it has letters, enter
/// and space, no relative axis, and no key that the virtual keyboard lacks.
pub open spec fn keyboard_like(
    keys: Option<&evdev::AttributeSetRef<evdev::KeyCode>>,
    relative_axes: Option<&evdev::AttributeSetRef<evdev::RelativeAxisCode>>,
) -> bool {
    &&& keys is Some
    &&& key_codes(keys->0).contains(KEY_A)
    &&& key_codes(keys->0).contains(KEY_Z)
    &&& key_codes(keys->0).contains(KEY_ENTER)
    &&& key_codes(keys->0).contains(KEY_SPACE)
    &&& relative_axes matches Some(axes) ==> axis_codes(axes) == Set::<u16>::empty()
    &&& forall|code: u16| #[trigger] key_codes(keys->0).contains(code) ==> keyboard_key(code)
}

/// Whether a device with these keys and relative axes is probably a keyboard.
pub fn probably_keyboard_filter(
    keys: Option<&evdev::AttributeSetRef<evdev::KeyCode>>,
    relative_axes: Option<&evdev::AttributeSetRef<evdev::RelativeAxisCode>>,
) -> (r: bool)
    ensures
        r == keyboard_like(keys, relative_axes),
{
    let supported: &evdev::AttributeSetRef<evdev::KeyCode> = match keys {
        Some(supported) => supported,
        None => {
            return false;
        },
    };
    if !(has_key(supported, KEY_A) && has_key(supported, KEY_Z) && has_key(supported, KEY_ENTER)
        && has_key(supported, KEY_SPACE)) {
        return false;
    }
    if let Some(axes) = relative_axes {
        if count_axes(axes) != 0 {
            return false;
        }
    }
    let codes: Vec<u16> = list_keys(supported);
    let mut done: usize = 0;
    while done < codes.len()
        invariant
            done <= codes@.len(),
            keys == Some(supported),
            codes@.to_set() == key_codes(supported),
            forall|i: int| 0 <= i < done ==> keyboard_key(#[trigger] codes@[i]),
        decreases codes@.len() - done,
    {
        if !is_keyboard_key(codes[done]) {
            assert(codes@.to_set().contains(codes@[done as int]));
            assert(key_codes(keys->0).contains(codes@[done as int]));
            return false;
        }
        done = done + 1;
    }
    assert forall|code: u16| #[trigger] key_codes(keys->0).contains(code) implies keyboard_key(
        code,
    ) by {
        assert(codes@.to_set().contains(code));
    }
    true
}

/// Why a device that appeared is not taken over.
#[derive(Debug, Clone, Copy, PartialEq, Eq, Structural)]
pub enum Rejection {
    /// The notification named no file.
    MissingName,
    /// The file's name is not valid UTF-8.
    NonUtf8Name,
    /// The file's name does not start with `event`.
    NotAnEventFile,
    /// It is the virtual keyboard itself.
    OwnKeyboard,
    /// It is not a keyboard.
    NotAKeyboard,
}

/// Whether `text` starts with `prefix`.
fn starts_with(text: &str, prefix: &str) -> (r: bool)
    ensures
        r == prefix@.is_prefix_of(text@),
{
    let characters: Vec<char> = characters_of(text);
    let wanted: Vec<char> = characters_of(prefix);
    if wanted.len() > characters.len() {
        return false;
    }
    let mut done: usize = 0;
    while done < wanted.len()
        invariant
            wanted@ == prefix@,
            characters@ == text@,
            done <= wanted@.len() <= characters@.len(),
            forall|i: int| 0 <= i < done ==> wanted@[i] == characters@[i],
        decreases wanted@.len() - done,
    {
        if wanted[done] != characters[done] {
            assert(prefix@[done as int] != text@.subrange(0, prefix@.len() as int)[done as int]);
            return false;
        }
        done = done + 1;
    }
    true
}

/// Whether a file that appeared among the input devices is worth opening. The notification
/// may lack a name, and the name may not be valid UTF-8.
pub fn check_file_name(name: Option<Option<&str>>) -> (r: Result<(), Rejection>)
    ensures
        r == (match name {
            None => Err(Rejection::MissingName),
            Some(None) => Err(Rejection::NonUtf8Name),
            Some(Some(name)) => if "event"@.is_prefix_of(name@) {
                Ok(())
            } else {
                Err(Rejection::NotAnEventFile)
            },
        }),
{
    match name {
        None => Err(Rejection::MissingName),
        Some(None) => Err(Rejection::NonUtf8Name),
        Some(Some(name)) => {
            if starts_with(name, "event") {
                Ok(())
            } else {
                Err(Rejection::NotAnEventFile)
            }
        },
    }
}

/// Whether a device that was opened is to be taken over: not the virtual keyboard itself, and
/// nothing but keyboards.
pub fn check_device(
    name: Option<&str>,
    keys: Option<&evdev::AttributeSetRef<evdev::KeyCode>>,
    relative_axes: Option<&evdev::AttributeSetRef<evdev::RelativeAxisCode>>,
) -> (r: Result<(), Rejection>)
    ensures
        r == (if name is Some && name->0@ == RETYPE_KEYBOARD@ {
            Err(Rejection::OwnKeyboard)
        } else if !keyboard_like(keys, relative_axes) {
            Err(Rejection::NotAKeyboard)
        } else {
            Ok(())
        }),
{
    if let Some(name) = name {
        if starts_with(name, RETYPE_KEYBOARD) && starts_with(RETYPE_KEYBOARD, name) {
            assert(name@ == RETYPE_KEYBOARD@);
            return Err(Rejection::OwnKeyboard);
        }
    }
    if !probably_keyboard_filter(keys, relative_axes) {
        return Err(Rejection::NotAKeyboard);
    }
    Ok(())
}

/// What is taken for a keyboard has the four keys that tell it, none but the codes from 1 to 255,
/// and not a single relative axis. Whatever is so is taken for one.
pub proof fn law_keyboards_type_and_do_not_point(
    keys: Option<&evdev::AttributeSetRef<evdev::KeyCode>>,
    relative_axes: Option<&evdev::AttributeSetRef<evdev::RelativeAxisCode>>,
    r: bool,
)
    requires
        call_ensures(probably_keyboard_filter, (keys, relative_axes), r),
    ensures
        r ==> keys is Some,
        r ==> key_codes(keys->0).contains(KEY_A) && key_codes(keys->0).contains(KEY_Z)
            && key_codes(keys->0).contains(KEY_ENTER) && key_codes(keys->0).contains(KEY_SPACE),
        r ==> forall|code: u16| #[trigger]
            key_codes(keys->0).contains(code) ==> 1 <= code <= 255,
        r && relative_axes is Some ==> forall|code: u16|
            !(#[trigger] axis_codes(relative_axes->0).contains(code)),
        !r ==> {
            ||| keys is None
            ||| !key_codes(keys->0).contains(KEY_A)
            ||| !key_codes(keys->0).contains(KEY_Z)
            ||| !key_codes(keys->0).contains(KEY_ENTER)
            ||| !key_codes(keys->0).contains(KEY_SPACE)
            ||| exists|code: u16| #[trigger]
                key_codes(keys->0).contains(code) && !(1 <= code <= 255)
            ||| relative_axes is Some && exists|code: u16| #[trigger]
                axis_codes(relative_axes->0).contains(code)
        },
{
    if let Some(axes) = relative_axes {
        if forall|code: u16| !(#[trigger] axis_codes(axes).contains(code)) {
            assert(axis_codes(axes) == Set::<u16>::empty());
        }
    }
}

/// A file is worth opening exactly if its name is known, is text, and starts with the five letters
/// of `event`; each other case has its own answer.
pub proof fn law_event_files_are_opened(name: Option<Option<&str>>, r: Result<(), Rejection>)
    requires
        call_ensures(check_file_name, (name,), r),
    ensures
        name is None <==> r == Err::<(), Rejection>(Rejection::MissingName),
        name == Some(None::<&str>) <==> r == Err::<(), Rejection>(Rejection::NonUtf8Name),
        name matches Some(Some(text)) ==> (r is Ok <==> text@.len() >= 5 && text@[0] == 'e'
            && text@[1] == 'v' && text@[2] == 'e' && text@[3] == 'n' && text@[4] == 't'),
        name matches Some(Some(text)) && r is Err ==> r == Err::<(), Rejection>(
            Rejection::NotAnEventFile,
        ),
{
    reveal_strlit("event");
    if let Some(Some(text)) = name {
        if text@.len() >= 5 {
            let start = text@.subrange(0, 5);
            assert(start[0] == text@[0] && start[1] == text@[1] && start[2] == text@[2] && start[3]
                == text@[3] && start[4] == text@[4]);
            if text@[0] == 'e' && text@[1] == 'v' && text@[2] == 'e' && text@[3] == 'n' && text@[4]
                == 't' {
                assert(start == "event"@);
            }
        }
    }
}

/// The virtual keyboard is refused whatever its keys are, and of all else just what the filter
/// takes for a keyboard is taken over.
pub proof fn law_only_other_keyboards_are_taken(
    name: Option<&str>,
    keys: Option<&evdev::AttributeSetRef<evdev::KeyCode>>,
    relative_axes: Option<&evdev::AttributeSetRef<evdev::RelativeAxisCode>>,
    filtered: bool,
    r: Result<(), Rejection>,
)
    requires
        call_ensures(check_device, (name, keys, relative_axes), r),
        call_ensures(probably_keyboard_filter, (keys, relative_axes), filtered),
    ensures
        r == Err::<(), Rejection>(Rejection::OwnKeyboard) <==> name is Some && name->0@
            == "retype-keyboard"@,
        r is Ok <==> filtered && !(name is Some && name->0@ == "retype-keyboard"@),
        r is Err && r != Err::<(), Rejection>(Rejection::OwnKeyboard) ==> r == Err::<
            (),
            Rejection,
        >(Rejection::NotAKeyboard),
{
}

} // verus!
