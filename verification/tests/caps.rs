use std::cell::Cell;

use retype::caps::ActivateOnRelease;

#[test]
fn activates_without_interruption() {
    let count = Cell::new(0);
    let mut hotkey = ActivateOnRelease::new(|| count.set(count.get() + 1));
    assert!(!hotkey.maybe_activate());
    assert_eq!(count.get(), 0);
    hotkey.await_release();
    assert!(hotkey.maybe_activate());
    assert_eq!(count.get(), 1);
}

#[test]
fn activates_once_for_each_press() {
    let count = Cell::new(0);
    let mut hotkey = ActivateOnRelease::new(|| count.set(count.get() + 1));
    hotkey.await_release();
    hotkey.maybe_activate();
    assert!(!hotkey.maybe_activate());
    assert_eq!(count.get(), 1);
    hotkey.await_release();
    hotkey.await_release();
    assert!(hotkey.maybe_activate());
    assert_eq!(count.get(), 2);
}

#[test]
fn interruption_prevents_activation() {
    let mut count = 0;
    let mut hotkey = ActivateOnRelease::new(|| count += 1);
    hotkey.await_release();
    hotkey.interrupt();
    assert!(!hotkey.maybe_activate());
    hotkey.interrupt();
    hotkey.await_release();
    assert!(hotkey.maybe_activate());
    drop(hotkey);
    assert_eq!(count, 1);
}

#[test]
fn only_the_last_signal_before_the_release_counts() {
    let count = Cell::new(0);
    let mut hotkey = ActivateOnRelease::new(|| count.set(count.get() + 1));
    for _ in 0..3 {
        hotkey.interrupt();
        hotkey.await_release();
        hotkey.maybe_activate();
        hotkey.await_release();
        hotkey.interrupt();
        hotkey.maybe_activate();
        hotkey.maybe_activate();
    }
    assert_eq!(count.get(), 3);
}
