//! The modifier keys.

use std::collections::HashSet;
use vstd::prelude::*;

use crate::action::Action;
use crate::keys::{
    Key, KeyState, KEY_LEFTALT, KEY_LEFTCTRL, KEY_LEFTMETA, KEY_LEFTSHIFT, KEY_RIGHTALT,
    KEY_RIGHTCTRL, KEY_RIGHTMETA, KEY_RIGHTSHIFT,
};
use crate::send;

verus! {

/// The modifier keys: alt, shift, control and meta, left and right.
pub open spec fn modifier_key(key: Key) -> bool {
    ||| key == KEY_LEFTALT
    ||| key == KEY_RIGHTALT
    ||| key == KEY_LEFTSHIFT
    ||| key == KEY_RIGHTSHIFT
    ||| key == KEY_LEFTCTRL
    ||| key == KEY_RIGHTCTRL
    ||| key == KEY_LEFTMETA
    ||| key == KEY_RIGHTMETA
}

/// Whether `button` is a modifier key.
pub fn is_modifier(button: Key) -> (r: bool)
    ensures
        r == modifier_key(button),
{
    matches!(
        button,
        KEY_LEFTALT | KEY_RIGHTALT | KEY_LEFTSHIFT | KEY_RIGHTSHIFT | KEY_LEFTCTRL | KEY_RIGHTCTRL
        | KEY_LEFTMETA | KEY_RIGHTMETA
    )
}

/// Any modifier, without caring about whether it is the left or right button.
#[derive(Debug, PartialEq, Eq, Clone, Copy, Structural)]
pub enum Modifier {
    Ctrl,
    Shift,
    Alt,
    Super,
}

impl Modifier {
    /// The left button of this modifier.
    pub open spec fn left(self) -> Key {
        match self {
            Modifier::Ctrl => KEY_LEFTCTRL,
            Modifier::Shift => KEY_LEFTSHIFT,
            Modifier::Alt => KEY_LEFTALT,
            Modifier::Super => KEY_LEFTMETA,
        }
    }

    /// The right button of this modifier.
    pub open spec fn right(self) -> Key {
        match self {
            Modifier::Ctrl => KEY_RIGHTCTRL,
            Modifier::Shift => KEY_RIGHTSHIFT,
            Modifier::Alt => KEY_RIGHTALT,
            Modifier::Super => KEY_RIGHTMETA,
        }
    }

    /// The two releases that let go of this modifier.
    pub open spec fn release_script(self) -> Seq<Action> {
        seq![
            Action::Emit(self.left(), KeyState::Released),
            Action::Emit(self.right(), KeyState::Released),
        ]
    }

    /// Whether the left or the right button of this modifier is among `keys_pressed`.
    pub fn is_pressed(&self, keys_pressed: &HashSet<Key>) -> (r: bool)
        ensures
            r == (keys_pressed@.contains(self.left()) || keys_pressed@.contains(self.right())),
    {
        match self {
            Modifier::Ctrl => {
                send::is_pressed(keys_pressed, KEY_LEFTCTRL) || send::is_pressed(
                    keys_pressed,
                    KEY_RIGHTCTRL,
                )
            },
            Modifier::Shift => {
                send::is_pressed(keys_pressed, KEY_LEFTSHIFT) || send::is_pressed(
                    keys_pressed,
                    KEY_RIGHTSHIFT,
                )
            },
            Modifier::Alt => {
                send::is_pressed(keys_pressed, KEY_LEFTALT) || send::is_pressed(
                    keys_pressed,
                    KEY_RIGHTALT,
                )
            },
            Modifier::Super => {
                send::is_pressed(keys_pressed, KEY_LEFTMETA) || send::is_pressed(
                    keys_pressed,
                    KEY_RIGHTMETA,
                )
            },
        }
    }

    /// Releases all ways of pressing this modifier.
    pub fn release(&self, actions: &mut Vec<Action>)
        ensures
            final(actions)@ == old(actions)@ + self.release_script(),
    {
        match self {
            Modifier::Ctrl => {
                send::release(actions, KEY_LEFTCTRL);
                send::release(actions, KEY_RIGHTCTRL);
            },
            Modifier::Shift => {
                send::release(actions, KEY_LEFTSHIFT);
                send::release(actions, KEY_RIGHTSHIFT);
            },
            Modifier::Alt => {
                send::release(actions, KEY_LEFTALT);
                send::release(actions, KEY_RIGHTALT);
            },
            Modifier::Super => {
                send::release(actions, KEY_LEFTMETA);
                send::release(actions, KEY_RIGHTMETA);
            },
        }
    }
}

/// The modifier keys are the two buttons of each of the four modifiers.
pub proof fn law_eight_modifier_keys(button: Key, r: bool)
    requires
        call_ensures(is_modifier, (button,), r),
    ensures
        r <==> button == KEY_LEFTCTRL || button == KEY_RIGHTCTRL || button == KEY_LEFTSHIFT || button
            == KEY_RIGHTSHIFT || button == KEY_LEFTALT || button == KEY_RIGHTALT || button
            == KEY_LEFTMETA || button == KEY_RIGHTMETA,
        r <==> exists|modifier: Modifier| #[trigger]
            modifier.left() == button || modifier.right() == button,
{
    assert(Modifier::Ctrl.left() == KEY_LEFTCTRL && Modifier::Shift.left() == KEY_LEFTSHIFT
        && Modifier::Alt.left() == KEY_LEFTALT && Modifier::Super.left() == KEY_LEFTMETA);
}

/// Each modifier is pressed exactly if its left or its right button is.
pub proof fn law_either_button_presses_modifier(
    modifier: &Modifier,
    keys_pressed: &HashSet<Key>,
    r: bool,
)
    requires
        call_ensures(Modifier::is_pressed, (modifier, keys_pressed), r),
    ensures
        *modifier == Modifier::Ctrl ==> r == (keys_pressed@.contains(KEY_LEFTCTRL)
            || keys_pressed@.contains(KEY_RIGHTCTRL)),
        *modifier == Modifier::Shift ==> r == (keys_pressed@.contains(KEY_LEFTSHIFT)
            || keys_pressed@.contains(KEY_RIGHTSHIFT)),
        *modifier == Modifier::Alt ==> r == (keys_pressed@.contains(KEY_LEFTALT)
            || keys_pressed@.contains(KEY_RIGHTALT)),
        *modifier == Modifier::Super ==> r == (keys_pressed@.contains(KEY_LEFTMETA)
            || keys_pressed@.contains(KEY_RIGHTMETA)),
{
}

/// Letting go of a modifier releases its left and then its right button, and does nothing else.
pub proof fn law_both_buttons_are_released(modifier: &Modifier, actions: &mut Vec<Action>)
    requires
        call_ensures(Modifier::release, (modifier, actions), ()),
    ensures
        ({
            let (left, right) = match *modifier {
                Modifier::Ctrl => (KEY_LEFTCTRL, KEY_RIGHTCTRL),
                Modifier::Shift => (KEY_LEFTSHIFT, KEY_RIGHTSHIFT),
                Modifier::Alt => (KEY_LEFTALT, KEY_RIGHTALT),
                Modifier::Super => (KEY_LEFTMETA, KEY_RIGHTMETA),
            };
            final(actions)@ == old(actions)@.push(Action::Emit(left, KeyState::Released)).push(
                Action::Emit(right, KeyState::Released),
            )
        }),
{
}

} // verus!
