//! Batches of raw events, as the kernel delivers them.

use vstd::prelude::*;

use crate::keys::{value_of, Key, KeyState};

verus! {

/// The kind of an event that says that a key changed its state.
pub const EV_KEY: u16 = 1;

/// A raw event of an input device.
#[derive(Debug, Clone, Copy, PartialEq, Eq, Structural)]
pub struct InputEvent {
    pub kind: u16,
    pub code: u16,
    pub value: i32,
}

/// What to do with a raw event.
#[derive(Debug, Clone, Copy, PartialEq, Eq, Structural)]
pub enum Dispatch {
    /// Write it to the virtual keyboard as it is.
    PassThrough,
    /// Give it to the remapper.
    Key(Key, KeyState),
}

/// What to do with `event`, where it stands in a batch with a key event: the three key states
/// are for the remapper, and all else is passed through, weird values of a key too.
pub open spec fn dispatched(event: InputEvent) -> Dispatch {
    if event.kind == EV_KEY && 0 <= event.value <= 2 {
        Dispatch::Key(
            event.code,
            if event.value == 0 {
                KeyState::Released
            } else if event.value == 1 {
                KeyState::Pressed
            } else {
                KeyState::Repeat
            },
        )
    } else {
        Dispatch::PassThrough
    }
}

/// Calls `InputEvent::destructure` of the crate `evdev` on the event with these fields. The
/// contract claims that an event is one of a key exactly if its kind says so, and that its key
/// and value are then the code and the value of the event.
#[verifier::external_body]
fn destructure_key(kind: u16, code: u16, value: i32) -> (r: Option<(u16, i32)>)
    ensures
        r == (if kind == EV_KEY {
            Some((code, value))
        } else {
            None
        }),
{
    match evdev::InputEvent::new(kind, code, value).destructure() {
        evdev::EventSummary::Key(_, key, value) => Some((key.0, value)),
        _ => None,
    }
}

/// What to do with `event`, where it stands in a batch with a key event.
pub fn dispatch(event: InputEvent) -> (r: Dispatch)
    ensures
        r == dispatched(event),
{
    match destructure_key(event.kind, event.code, event.value) {
        Some((key, value)) => match KeyState::from_value(value) {
            Some(state) => Dispatch::Key(key, state),
            None => Dispatch::PassThrough,
        },
        None => Dispatch::PassThrough,
    }
}

/// Some event of a batch is one of a key.
pub open spec fn has_key_event(events: Seq<InputEvent>) -> bool {
    exists|i: int| 0 <= i < events.len() && (#[trigger] events[i]).kind == EV_KEY
}

/// What to do with a batch of events: without a key event it is passed through as a whole, and
/// there is no plan for its parts; else each event is looked at.
pub fn plan_batch(events: &Vec<InputEvent>) -> (r: Option<Vec<Dispatch>>)
    ensures
        r is Some <==> has_key_event(events@),
        r matches Some(plan) ==> plan@ == events@.map_values(|event: InputEvent| dispatched(event)),
{
    let mut has_key: bool = false;
    let mut plan: Vec<Dispatch> = Vec::new();
    let mut done: usize = 0;
    while done < events.len()
        invariant
            done <= events@.len(),
            has_key == (exists|i: int| 0 <= i < done && (#[trigger] events@[i]).kind == EV_KEY),
            plan@ == events@.take(done as int).map_values(|event: InputEvent| dispatched(event)),
        decreases events@.len() - done,
    {
        let event: InputEvent = events[done];
        if event.kind == EV_KEY {
            has_key = true;
        }
        plan.push(dispatch(event));
        done = done + 1;
    }
    assert(events@.take(events@.len() as int) == events@);
    if has_key {
        Some(plan)
    } else {
        None
    }
}

/// A key event that the virtual keyboard writes is read back as the same key and state.
pub proof fn law_key_events_read_back(key: Key, state: KeyState)
    ensures
        dispatched(InputEvent { kind: EV_KEY, code: key, value: value_of(state) })
            == Dispatch::Key(key, state),
{
}

/// An event goes to the remapper exactly if it is one of a key with the value of a release, a
/// press or a repeat, and then with its own code; every other event is passed through.
pub proof fn law_three_key_states_are_handled(event: InputEvent, r: Dispatch)
    requires
        call_ensures(dispatch, (event,), r),
    ensures
        event.kind == 1 && event.value == 0 ==> r == Dispatch::Key(event.code, KeyState::Released),
        event.kind == 1 && event.value == 1 ==> r == Dispatch::Key(event.code, KeyState::Pressed),
        event.kind == 1 && event.value == 2 ==> r == Dispatch::Key(event.code, KeyState::Repeat),
        event.kind != 1 || event.value < 0 || event.value > 2 ==> r == Dispatch::PassThrough,
{
}

/// A batch is taken apart exactly if one of its events is one of a key. The parts are then as many
/// as its events, in their order, and each is what the event on its own would be.
pub proof fn law_batches_are_taken_apart(events: &Vec<InputEvent>, r: Option<Vec<Dispatch>>)
    requires
        call_ensures(plan_batch, (events,), r),
    ensures
        r is None <==> forall|i: int| 0 <= i < events@.len() ==> (#[trigger] events@[i]).kind != 1,
        r matches Some(plan) ==> plan@.len() == events@.len(),
        r matches Some(plan) ==> forall|i: int, part: Dispatch|
            0 <= i < events@.len() && #[trigger] call_ensures(dispatch, (events@[i],), part)
                ==> plan@[i] == part,
        r matches Some(plan) ==> forall|i: int|
            0 <= i < events@.len() ==> {
                ||| (#[trigger] plan@[i]) == Dispatch::PassThrough && (events@[i].kind != 1
                    || events@[i].value < 0 || events@[i].value > 2)
                ||| plan@[i] == Dispatch::Key(events@[i].code, KeyState::Released) && events@[i].kind
                    == 1 && events@[i].value == 0
                ||| plan@[i] == Dispatch::Key(events@[i].code, KeyState::Pressed) && events@[i].kind
                    == 1 && events@[i].value == 1
                ||| plan@[i] == Dispatch::Key(events@[i].code, KeyState::Repeat) && events@[i].kind
                    == 1 && events@[i].value == 2
            },
{
}

} // verus!
