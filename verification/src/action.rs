//! What the library asks to be done, and what doing it means for the virtual keyboard.

use vstd::prelude::*;

use crate::keys::{Key, KeyState};

verus! {

/// One thing to do. Actions are done in order, each after the one before it is complete.
#[derive(Debug, Clone, Copy, PartialEq, Eq, Structural)]
pub enum Action {
    /// Write one key event to the virtual keyboard.
    Emit(Key, KeyState),
    /// Write a press and a release of the key to the virtual keyboard as one batch.
    Click(Key),
    /// Wait this many microseconds.
    Wait(u32),
    /// Read the text that is selected on the screen.
    ReadSelection,
    /// Hand the text that was read last to whoever asked for it.
    SendSelection,
}

/// Several events too quickly sometimes fail: enough of a wait to make clicks consistent.
pub const TINY_WAIT: u32 = 100;

/// A longer wait that is more consistently enough for applications to notice an event.
pub const LONG_WAIT: u32 = 1000;

/// Long enough for a selection to reach the clipboard.
pub const SELECTION_WAIT: u32 = 100000;

/// `keys` after one more event of `key`.
pub open spec fn with_event(keys: Set<Key>, key: Key, state: KeyState) -> Set<Key> {
    match state {
        KeyState::Released => keys.remove(key),
        KeyState::Pressed => keys.insert(key),
        KeyState::Repeat => keys.insert(key),
    }
}

/// The keys that the virtual keyboard holds down after `action`, where it held `held` before.
pub open spec fn held_after(held: Set<Key>, action: Action) -> Set<Key> {
    match action {
        Action::Emit(key, state) => with_event(held, key, state),
        Action::Click(key) => held.remove(key),
        _ => held,
    }
}

/// The keys that the virtual keyboard holds down after all of `actions`.
pub open spec fn held_after_all(held: Set<Key>, actions: Seq<Action>) -> Set<Key>
    decreases actions.len(),
{
    if actions.len() == 0 {
        held
    } else {
        held_after(held_after_all(held, actions.drop_last()), actions.last())
    }
}

/// The key that an action touches on the virtual keyboard.
pub open spec fn touched_key(action: Action) -> Option<Key> {
    match action {
        Action::Emit(key, _) => Some(key),
        Action::Click(key) => Some(key),
        _ => None,
    }
}

/// Releases of `keys`, in that order.
pub open spec fn releases(keys: Seq<Key>) -> Seq<Action> {
    keys.map_values(|key: Key| Action::Emit(key, KeyState::Released))
}

/// Presses of `keys`, in that order.
pub open spec fn presses(keys: Seq<Key>) -> Seq<Action> {
    keys.map_values(|key: Key| Action::Emit(key, KeyState::Pressed))
}

/// `script`, `count` times over.
pub open spec fn repeated(script: Seq<Action>, count: nat) -> Seq<Action>
    decreases count,
{
    if count == 0 {
        seq![]
    } else {
        repeated(script, (count - 1) as nat) + script
    }
}

/// `count` clicks of `key`, with a tiny wait after each.
pub open spec fn clicks(key: Key, count: nat) -> Seq<Action> {
    repeated(seq![Action::Click(key), Action::Wait(TINY_WAIT)], count)
}

} // verus!
