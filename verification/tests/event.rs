use retype::event::{dispatch, plan_batch, Dispatch, InputEvent, EV_KEY};
use retype::keys::{KeyState, KEY_A};

fn key_event(value: i32) -> InputEvent {
    InputEvent { kind: EV_KEY, code: KEY_A, value }
}

const SCAN: InputEvent = InputEvent { kind: 4, code: 4, value: 30 };
const SYNC: InputEvent = InputEvent { kind: 0, code: 0, value: 0 };

#[test]
fn key_events_go_to_the_remapper() {
    assert_eq!(dispatch(key_event(0)), Dispatch::Key(KEY_A, KeyState::Released));
    assert_eq!(dispatch(key_event(1)), Dispatch::Key(KEY_A, KeyState::Pressed));
    assert_eq!(dispatch(key_event(2)), Dispatch::Key(KEY_A, KeyState::Repeat));
}

#[test]
fn weird_events_pass_through() {
    assert_eq!(dispatch(key_event(3)), Dispatch::PassThrough);
    assert_eq!(dispatch(key_event(-1)), Dispatch::PassThrough);
    assert_eq!(dispatch(SCAN), Dispatch::PassThrough);
    assert_eq!(dispatch(InputEvent { kind: 0x101, code: 1, value: 1 }), Dispatch::PassThrough);
    assert_eq!(dispatch(InputEvent { kind: 999, code: 30, value: 1 }), Dispatch::PassThrough);
}

#[test]
fn written_key_events_read_back() {
    for state in [KeyState::Released, KeyState::Pressed, KeyState::Repeat] {
        assert_eq!(dispatch(key_event(i32::from(state))), Dispatch::Key(KEY_A, state));
    }
}

#[test]
fn batches_without_keys_stay_whole() {
    assert_eq!(plan_batch(&vec![]), None);
    assert_eq!(plan_batch(&vec![SCAN, SYNC]), None);
}

#[test]
fn batches_with_keys_are_taken_apart() {
    assert_eq!(
        plan_batch(&vec![SCAN, key_event(1), SYNC]),
        Some(vec![
            Dispatch::PassThrough,
            Dispatch::Key(KEY_A, KeyState::Pressed),
            Dispatch::PassThrough
        ])
    );
    assert_eq!(plan_batch(&vec![key_event(7)]), Some(vec![Dispatch::PassThrough]));
}
