//! Single key strokes and the repetition of a key.

use std::collections::HashSet;
use vstd::prelude::*;

use crate::action::{repeated, Action};
use crate::keys::{Key, KeyState, KEY_CAPSLOCK};
use crate::modifiers::is_modifier;
use crate::num::IncrementalU16;

verus! {

broadcast use vstd::std_specs::hash::group_hash_axioms;

/// A press and a release of `key`, one event each.
pub open spec fn stroke(key: Key) -> Seq<Action> {
    seq![Action::Emit(key, KeyState::Pressed), Action::Emit(key, KeyState::Released)]
}

/// Presses and releases the provided key.
pub fn click(actions: &mut Vec<Action>, key: Key)
    ensures
        final(actions)@ == old(actions)@ + stroke(key),
{
    press(actions, key);
    release(actions, key);
}

/// Presses `key`.
pub fn press(actions: &mut Vec<Action>, key: Key)
    ensures
        final(actions)@ == old(actions)@.push(Action::Emit(key, KeyState::Pressed)),
{
    actions.push(Action::Emit(key, KeyState::Pressed));
}

/// Releases `key`.
pub fn release(actions: &mut Vec<Action>, key: Key)
    ensures
        final(actions)@ == old(actions)@.push(Action::Emit(key, KeyState::Released)),
{
    actions.push(Action::Emit(key, KeyState::Released));
}

/// Whether `key` is among `keys_pressed`.
pub fn is_pressed(keys_pressed: &HashSet<Key>, key: Key) -> (r: bool)
    ensures
        r == keys_pressed@.contains(key),
{
    keys_pressed.contains(&key)
}

/// Whether a press of `button` is repeated by the number `value`.
pub open spec fn repeats(button: Key, value: u16) -> bool {
    value != 0 && !crate::modifiers::modifier_key(button) && button != KEY_CAPSLOCK
}

/// After a press of `button` that reached the application already, adds the strokes that
/// are missing for the number in `number_history`, and forgets that number. Modifiers and
/// caps lock are not repeated and leave the number as it is.
pub fn maybe_repeat(
    actions: &mut Vec<Action>,
    button: Key,
    number_history: &mut IncrementalU16,
)
    ensures
        repeats(button, old(number_history)@) ==> {
            &&& final(actions)@ == old(actions)@ + repeated(
                stroke(button),
                (old(number_history)@ - 1) as nat,
            )
            &&& final(number_history)@ == 0
        },
        !repeats(button, old(number_history)@) ==> {
            &&& final(actions)@ == old(actions)@
            &&& *final(number_history) == *old(number_history)
        },
{
    if number_history.value() == 0 {
        return ;
    }
    if is_modifier(button) || button == KEY_CAPSLOCK {
        return ;
    }
    let repeats: u16 = number_history.value();
    number_history.clear();
    // the press itself is the first one
    let missing: u16 = repeats - 1;
    let mut done: u16 = 0;
    while done < missing
        invariant
            done <= missing,
            actions@ == old(actions)@ + repeated(stroke(button), done as nat),
        decreases missing - done,
    {
        click(actions, button);
        done = done + 1;
    }
}

/// Pressing and releasing a key are one event each, and a click is the one after the other.
pub proof fn law_click_is_press_and_release(
    key: Key,
    clicked: &mut Vec<Action>,
    pressed: &mut Vec<Action>,
    released: &mut Vec<Action>,
)
    requires
        call_ensures(click, (clicked, key), ()),
        call_ensures(press, (pressed, key), ()),
        call_ensures(release, (released, key), ()),
    ensures
        final(pressed)@ == old(pressed)@.push(Action::Emit(key, KeyState::Pressed)),
        final(released)@ == old(released)@.push(Action::Emit(key, KeyState::Released)),
        final(clicked)@ == old(clicked)@.push(Action::Emit(key, KeyState::Pressed)).push(
            Action::Emit(key, KeyState::Released),
        ),
{
}

/// Strokes, one by one.
pub proof fn lemma_repeated_strokes(key: Key, count: nat)
    ensures
        repeated(stroke(key), count).len() == 2 * count,
        forall|i: int|
            0 <= i < 2 * count ==> #[trigger] repeated(stroke(key), count)[i] == Action::Emit(
                key,
                if i % 2 == 0 {
                    KeyState::Pressed
                } else {
                    KeyState::Released
                },
            ),
    decreases count,
{
    if count > 0 {
        lemma_repeated_strokes(key, (count - 1) as nat);
    }
}

/// A number adds the strokes that are missing, one fewer than it says, and is forgotten. Without a
/// number, and for modifiers and caps lock, nothing happens and the number stays.
pub proof fn law_number_adds_missing_strokes(
    actions: &mut Vec<Action>,
    button: Key,
    number: &mut IncrementalU16,
)
    requires
        call_ensures(maybe_repeat, (actions, button, number), ()),
    ensures
        ({
            let before = old(actions)@;
            let after = final(actions)@;
            let idle = old(number)@ == 0 || button == KEY_CAPSLOCK || button
                == crate::keys::KEY_LEFTCTRL || button == crate::keys::KEY_RIGHTCTRL || button
                == crate::keys::KEY_LEFTSHIFT || button == crate::keys::KEY_RIGHTSHIFT || button
                == crate::keys::KEY_LEFTALT || button == crate::keys::KEY_RIGHTALT || button
                == crate::keys::KEY_LEFTMETA || button == crate::keys::KEY_RIGHTMETA;
            &&& idle ==> after == before && final(number)@ == old(number)@
            &&& !idle ==> {
                &&& final(number)@ == 0
                &&& after.len() == before.len() + 2 * (old(number)@ - 1)
                &&& forall|i: int| 0 <= i < before.len() ==> #[trigger] after[i] == before[i]
                &&& forall|i: int|
                    before.len() <= i < after.len() ==> #[trigger] after[i] == Action::Emit(
                        button,
                        if (i - before.len()) % 2 == 0 {
                            KeyState::Pressed
                        } else {
                            KeyState::Released
                        },
                    )
            }
        }),
{
    if old(number)@ > 0 {
        lemma_repeated_strokes(button, (old(number)@ - 1) as nat);
    }
}

} // verus!
