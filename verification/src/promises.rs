//! What a user can rely on, told of keys, characters and actions alone, one key event at a time.

use vstd::prelude::*;

use crate::action::{clicks, held_after_all, releases, Action, TINY_WAIT};
use crate::find::Direction;
use crate::handler::{
    held_among, lemma_filter_has, modifiers_in, FindModel, HandlerModel, Intent, KbEventHandler,
    Killed, Response,
};
use crate::keys::{
    char_of, Key, KeyState, KEY_CAPSLOCK, KEY_D, KEY_DOWN, KEY_END, KEY_ESC, KEY_F, KEY_F1, KEY_H,
    KEY_HOME, KEY_I, KEY_J, KEY_K, KEY_L, KEY_LEFT, KEY_LEFTALT, KEY_LEFTCTRL, KEY_LEFTMETA,
    KEY_LEFTSHIFT, KEY_RIGHT, KEY_RIGHTALT, KEY_RIGHTCTRL, KEY_RIGHTMETA, KEY_RIGHTSHIFT,
    KEY_SEMICOLON, KEY_UP,
};
use crate::laws::{after_events, click_count, lemma_held_concat, lemma_held_releases, Events};
use crate::map::{digit_keys, digit_of, law_caps_layer_table, remap_sources, remap_targets, remapped};
use crate::modifiers::modifier_key;
use crate::search::{graphemes_of, law_steps_lead_to_nearest, nearest_at, stands_at};

verus! {

/// Either shift key.
pub open spec fn shift(key: Key) -> bool {
    key == KEY_LEFTSHIFT || key == KEY_RIGHTSHIFT
}

/// A key that keeps other keys from typing characters: control, alt or meta.
pub open spec fn command(key: Key) -> bool {
    ||| key == KEY_LEFTCTRL
    ||| key == KEY_RIGHTCTRL
    ||| key == KEY_LEFTALT
    ||| key == KEY_RIGHTALT
    ||| key == KEY_LEFTMETA
    ||| key == KEY_RIGHTMETA
}

/// Any modifier.
pub open spec fn modifier(key: Key) -> bool {
    shift(key) || command(key)
}

/// What a key of the layer means while caps lock is held.
pub open spec fn layer(key: Key) -> Option<Key> {
    if key == KEY_I {
        Some(KEY_UP)
    } else if key == KEY_J {
        Some(KEY_LEFT)
    } else if key == KEY_L {
        Some(KEY_RIGHT)
    } else if key == KEY_K {
        Some(KEY_DOWN)
    } else if key == KEY_H {
        Some(KEY_HOME)
    } else if key == KEY_SEMICOLON {
        Some(KEY_END)
    } else {
        None
    }
}

/// The digit of a number key: these lie in a row from one to nine, and then zero.
pub open spec fn digit(key: Key) -> Option<u8> {
    if 2 <= key <= 10 {
        Some((key - 1) as u8)
    } else if key == 11 {
        Some(0)
    } else {
        None
    }
}

/// The character that a press of `key` types while the keys in `down` are down.
pub open spec fn typed(down: Set<Key>, key: Key) -> Option<char> {
    if down.contains(KEY_LEFTCTRL) || down.contains(KEY_RIGHTCTRL) || down.contains(KEY_LEFTALT)
        || down.contains(KEY_RIGHTALT) || down.contains(KEY_LEFTMETA) || down.contains(
        KEY_RIGHTMETA,
    ) {
        None
    } else {
        char_of(key, down.contains(KEY_LEFTSHIFT) || down.contains(KEY_RIGHTSHIFT))
    }
}

/// A press of `key` names the character that a search waits for.
pub open spec fn searched(s: HandlerModel, key: Key) -> bool {
    s.find is Some && typed(s.real, key) is Some
}

/// The number keys, digit by digit.
proof fn lemma_digits(key: Key)
    ensures
        digit_of(key) == digit(key),
{
    let keys = digit_keys();
    assert(keys[0] == 11 && keys[1] == 2 && keys[2] == 3 && keys[3] == 4 && keys[4] == 5 && keys[5]
        == 6 && keys[6] == 7 && keys[7] == 8 && keys[8] == 9 && keys[9] == 10);
}

/// What a key types is read off the keys that are down.
proof fn lemma_typed(s: HandlerModel, key: Key)
    ensures
        s.noted(key, KeyState::Pressed).interrupted(key, KeyState::Pressed).character(key) == typed(
            s.real,
            key,
        ),
{
    let ready = s.noted(key, KeyState::Pressed).interrupted(key, KeyState::Pressed);
    assert(forall|k: Key| k != key ==> ready.real.contains(k) == s.real.contains(k));
    assert(ready.real.contains(key));
    if char_of(key, true) is Some {
        assert(!modifier(key));
        assert(ready.shift_held() == (s.real.contains(KEY_LEFTSHIFT) || s.real.contains(
            KEY_RIGHTSHIFT,
        ))) by {
            if s.real.contains(KEY_LEFTSHIFT) {
                assert(ready.real.contains(KEY_LEFTSHIFT));
            }
            if s.real.contains(KEY_RIGHTSHIFT) {
                assert(ready.real.contains(KEY_RIGHTSHIFT));
            }
        }
        if typed(s.real, key) is None {
            assert(exists|held: Key| #[trigger]
                ready.real.contains(held) && modifier_key(held) && !crate::keys::shift_key(held)) by {
                if s.real.contains(KEY_LEFTCTRL) {
                    assert(ready.real.contains(KEY_LEFTCTRL));
                }
                if s.real.contains(KEY_RIGHTCTRL) {
                    assert(ready.real.contains(KEY_RIGHTCTRL));
                }
                if s.real.contains(KEY_LEFTALT) {
                    assert(ready.real.contains(KEY_LEFTALT));
                }
                if s.real.contains(KEY_RIGHTALT) {
                    assert(ready.real.contains(KEY_RIGHTALT));
                }
                if s.real.contains(KEY_LEFTMETA) {
                    assert(ready.real.contains(KEY_LEFTMETA));
                }
                if s.real.contains(KEY_RIGHTMETA) {
                    assert(ready.real.contains(KEY_RIGHTMETA));
                }
            }
        }
    }
}

/// What an event of a key other than caps lock leads to.
proof fn lemma_decision(s: HandlerModel, key: Key, state: KeyState)
    requires
        key != KEY_CAPSLOCK,
    ensures
        ({
            let ready = s.noted(key, state).interrupted(key, state);
            let press = state == KeyState::Pressed;
            let caps = s.real.contains(KEY_CAPSLOCK);
            let repeat = if press && key == KEY_ESC {
                0
            } else {
                s.repeat
            };
            &&& remapped(key) == layer(key)
            &&& ready.repeat == repeat
            &&& ready.intent(key, state) == (if press && searched(s, key) {
                Intent::Seek(typed(s.real, key)->0)
            } else if caps && layer(key) is Some {
                if press && repeat != 0 {
                    Intent::Repeat(layer(key)->0)
                } else {
                    Intent::Forward(layer(key)->0)
                }
            } else if caps && press && digit(key) is Some {
                Intent::Count(digit(key)->0)
            } else if caps && press && key == KEY_F {
                Intent::Select(Direction::Forward)
            } else if caps && press && key == KEY_D {
                Intent::Select(Direction::Backward)
            } else if !caps && press && repeat != 0 && !modifier(key) {
                Intent::Repeat(key)
            } else {
                Intent::Forward(key)
            })
        }),
{
    lemma_typed(s, key);
    lemma_digits(key);
    law_caps_layer_table(key);
}

/// The event of a real key is noted whatever else it leads to: the key is down from then on unless
/// it was released, and all others are as they were.
pub proof fn law_real_keys_are_followed(
    s: HandlerModel,
    key: Key,
    state: KeyState,
    order: Seq<Key>,
)
    ensures
        forall|k: Key| #[trigger]
            s.reaction(key, state, order).next.real.contains(k) <==> if k == key {
                state != KeyState::Released
            } else {
                s.real.contains(k)
            },
{
}

/// Caps with f1 stops the program, and no other event does. Only an event that stops it or begins
/// a search says more than what to do on the virtual keyboard.
pub proof fn law_caps_f1_alone_stops(s: HandlerModel, key: Key, state: KeyState, order: Seq<Key>)
    ensures
        ({
            let r = s.reaction(key, state, order);
            let caps = s.real.contains(KEY_CAPSLOCK);
            let press = state == KeyState::Pressed;
            &&& r.killed <==> key == KEY_F1 && press && caps
            &&& r.killed ==> r.actions.len() == 0
            &&& r.selection == (if caps && press && key == KEY_F && !searched(s, key) {
                Some(Direction::Forward)
            } else if caps && press && key == KEY_D && !searched(s, key) {
                Some(Direction::Backward)
            } else {
                None
            })
        }),
{
    if key != KEY_CAPSLOCK {
        lemma_decision(s, key, state);
    }
}

/// What becomes of a number that was typed. Releases, repeats, caps lock and modifiers leave it as
/// it is, and so does a character that a search was waiting for. Escape drops it. With caps, a
/// number key appends its digit up to 65535, a key of the layer uses the number up, and all other
/// keys leave it; without caps any other key uses it up.
pub proof fn law_what_becomes_of_the_number(
    s: HandlerModel,
    key: Key,
    state: KeyState,
    order: Seq<Key>,
)
    ensures
        s.reaction(key, state, order).next.repeat == (if state != KeyState::Pressed || key
            == KEY_CAPSLOCK || modifier(key) {
            s.repeat as int
        } else if key == KEY_ESC {
            0
        } else if searched(s, key) {
            s.repeat as int
        } else if !s.real.contains(KEY_CAPSLOCK) {
            0
        } else if layer(key) is Some {
            0
        } else if digit(key) is Some {
            if 10 * s.repeat + digit(key)->0 > 65535 {
                65535
            } else {
                10 * s.repeat + digit(key)->0
            }
        } else {
            s.repeat as int
        }),
{
    if key != KEY_CAPSLOCK {
        lemma_decision(s, key, state);
    }
}

/// What becomes of a search that waits. It goes on waiting through releases, repeats and presses
/// of modifiers, and through caps lock unless that is toggled. Every other press ends it, but for
/// numbers that are typed with caps while no character can be.
pub proof fn law_what_becomes_of_the_search(
    s: HandlerModel,
    key: Key,
    state: KeyState,
    order: Seq<Key>,
)
    ensures
        s.reaction(key, state, order).next.find == (if key == KEY_CAPSLOCK {
            if state == KeyState::Released && s.after_meta_caps && s.real.contains(KEY_LEFTMETA) {
                None
            } else {
                s.find
            }
        } else if state != KeyState::Pressed || modifier(key) {
            s.find
        } else if s.real.contains(KEY_CAPSLOCK) && (key == KEY_F1 || digit(key) is Some)
            && !searched(s, key) {
            s.find
        } else {
            None
        }),
{
    if key != KEY_CAPSLOCK {
        lemma_decision(s, key, state);
    }
}

/// The toggle of caps lock is pending exactly while caps lock was pressed or repeated with left
/// meta held and no other key was touched since.
pub proof fn law_when_the_toggle_is_pending(
    s: HandlerModel,
    key: Key,
    state: KeyState,
    order: Seq<Key>,
)
    requires
        !(key == KEY_F1 && state == KeyState::Pressed && s.real.contains(KEY_CAPSLOCK)),
    ensures
        s.reaction(key, state, order).next.after_meta_caps <==> key == KEY_CAPSLOCK && (
        s.after_meta_caps || state != KeyState::Released && s.real.contains(KEY_LEFTMETA)),
{
    if key != KEY_CAPSLOCK {
        lemma_decision(s, key, state);
    }
}

/// The event of `key` shows on the virtual keyboard as one of `shown`, and as nothing else.
pub open spec fn shows(
    s: HandlerModel,
    key: Key,
    state: KeyState,
    order: Seq<Key>,
    shown: Key,
) -> bool {
    let r = s.reaction(key, state, order);
    &&& r.actions.len() == 1
    &&& r.actions[0] == Action::Emit(shown, state)
    &&& forall|k: Key| #[trigger]
        r.next.virt.contains(k) <==> if k == shown {
            state != KeyState::Released
        } else {
            s.virt.contains(k)
        }
}

/// While caps lock is held, a key that is neither in the layer nor taken for a number, a search or
/// the end of the program shows as itself, for presses, repeats and releases alike.
pub proof fn law_caps_leaves_other_keys_alone(
    s: HandlerModel,
    key: Key,
    state: KeyState,
    order: Seq<Key>,
)
    requires
        s.real.contains(KEY_CAPSLOCK),
        key != KEY_CAPSLOCK,
        layer(key) is None,
        state == KeyState::Pressed ==> digit(key) is None && key != KEY_F && key != KEY_D && key
            != KEY_F1 && !searched(s, key),
    ensures
        shows(s, key, state, order, key),
        s.reaction(key, state, order).next.repeat == if key == KEY_ESC && state
            == KeyState::Pressed {
            0
        } else {
            s.repeat
        },
        !s.reaction(key, state, order).killed,
        s.reaction(key, state, order).selection is None,
{
    lemma_decision(s, key, state);
}

/// While caps lock is up, every event of another key shows as itself, but for a press that a
/// search was waiting for, and for a press that a number repeats. Escape and the modifiers are
/// never repeated.
pub proof fn law_keys_show_as_themselves(
    s: HandlerModel,
    key: Key,
    state: KeyState,
    order: Seq<Key>,
)
    requires
        !s.real.contains(KEY_CAPSLOCK),
        key != KEY_CAPSLOCK,
        state == KeyState::Pressed ==> !searched(s, key) && (s.repeat == 0 || modifier(key) || key
            == KEY_ESC),
    ensures
        shows(s, key, state, order, key),
        !s.reaction(key, state, order).killed,
        s.reaction(key, state, order).selection is None,
{
    lemma_decision(s, key, state);
}

/// While caps lock is held, a key of the layer shows as the arrow, home or end that it means, but
/// for a press that a search was waiting for, and for a press that a number repeats.
pub proof fn law_layer_keys_show_as_what_they_mean(
    s: HandlerModel,
    key: Key,
    state: KeyState,
    order: Seq<Key>,
)
    requires
        s.real.contains(KEY_CAPSLOCK),
        layer(key) is Some,
        state == KeyState::Pressed ==> !searched(s, key) && s.repeat == 0,
    ensures
        shows(s, key, state, order, layer(key)->0),
        !s.reaction(key, state, order).killed,
        s.reaction(key, state, order).selection is None,
{
    lemma_decision(s, key, state);
}

/// A number key that is pressed with caps shows nothing.
pub proof fn law_numbers_are_not_shown(s: HandlerModel, key: Key, order: Seq<Key>)
    requires
        s.real.contains(KEY_CAPSLOCK),
        digit(key) is Some,
        !searched(s, key),
    ensures
        s.reaction(key, KeyState::Pressed, order).actions.len() == 0,
        s.reaction(key, KeyState::Pressed, order).next.virt == s.virt,
{
    lemma_decision(s, key, KeyState::Pressed);
}

/// `actions` are clicks of `key`, as many as `count`, each with a wait of 100 microseconds behind
/// it.
pub open spec fn clicked_times(actions: Seq<Action>, key: Key, count: nat) -> bool {
    &&& actions.len() == 2 * count
    &&& forall|i: int|
        0 <= i < actions.len() ==> #[trigger] actions[i] == if i % 2 == 0 {
            Action::Click(key)
        } else {
            Action::Wait(100)
        }
}

/// Clicks, one by one.
proof fn lemma_clicks(key: Key, count: nat)
    ensures
        clicked_times(clicks(key, count), key, count),
    decreases count,
{
    if count > 0 {
        lemma_clicks(key, (count - 1) as nat);
        let before = clicks(key, (count - 1) as nat);
        let after = clicks(key, count);
        assert(after == before + seq![Action::Click(key), Action::Wait(TINY_WAIT)]);
        assert forall|i: int| 0 <= i < after.len() implies #[trigger] after[i] == if i % 2 == 0 {
            Action::Click(key)
        } else {
            Action::Wait(100)
        } by {
            if i < before.len() {
                assert(after[i] == before[i]);
            }
        }
    }
}

/// A number repeats the press of the next key, be it any but escape and the modifiers without
/// caps, or what a key of the layer means with it: the key is clicked just as often as the number
/// says, and nothing else happens. A search that was waiting for the key comes first.
pub proof fn law_number_is_how_often_a_key_is_clicked(s: HandlerModel, key: Key, order: Seq<Key>)
    requires
        s.repeat != 0,
        key != KEY_CAPSLOCK,
        !searched(s, key),
        if s.real.contains(KEY_CAPSLOCK) {
            layer(key) is Some
        } else {
            !modifier(key) && key != KEY_ESC
        },
    ensures
        ({
            let r = s.reaction(key, KeyState::Pressed, order);
            let clicked = if s.real.contains(KEY_CAPSLOCK) {
                layer(key)->0
            } else {
                key
            };
            &&& clicked_times(r.actions, clicked, s.repeat as nat)
            &&& r.next.virt == s.virt
            &&& r.next.repeat == 0
        }),
{
    lemma_decision(s, key, KeyState::Pressed);
    lemma_clicks(
        if s.real.contains(KEY_CAPSLOCK) {
            layer(key)->0
        } else {
            key
        },
        s.repeat as nat,
    );
}

/// The release of `key`, where it is held.
pub open spec fn release_if(held: Set<Key>, key: Key) -> Seq<Action> {
    if held.contains(key) {
        seq![Action::Emit(key, KeyState::Released)]
    } else {
        seq![]
    }
}

/// Six keys, one by one.
proof fn lemma_six(keys: Seq<Key>, held: Set<Key>)
    requires
        keys.len() == 6,
    ensures
        releases(held_among(keys, held)) == release_if(held, keys[0]) + release_if(held, keys[1])
            + release_if(held, keys[2]) + release_if(held, keys[3]) + release_if(held, keys[4])
            + release_if(held, keys[5]),
{
    let kept = |key: Key| held.contains(key);
    reveal(Seq::filter);
    let all = held_among(keys, held);
    let five = keys.drop_last();
    let four = five.drop_last();
    let three = four.drop_last();
    let two = three.drop_last();
    let one = two.drop_last();
    let none = one.drop_last();
    assert(none.filter(kept) == Seq::<Key>::empty());
    assert(releases(none.filter(kept)) == Seq::<Action>::empty());
    assert(releases(one.filter(kept)) == release_if(held, keys[0]));
    assert(releases(two.filter(kept)) == release_if(held, keys[0]) + release_if(held, keys[1]));
    assert(releases(three.filter(kept)) == releases(two.filter(kept)) + release_if(held, keys[2]));
    assert(releases(four.filter(kept)) == releases(three.filter(kept)) + release_if(held, keys[3]));
    assert(releases(five.filter(kept)) == releases(four.filter(kept)) + release_if(held, keys[4]));
    assert(releases(keys.filter(kept)) == releases(five.filter(kept)) + release_if(held, keys[5]));
}

/// Caps lock itself never shows but as a toggle. A press lets go of those keys of the layer that
/// the virtual keyboard holds, a release lets go of those keys that they mean, and a repeat does
/// neither. A release clicks caps lock, before anything else and once, exactly if left meta is
/// held and the toggle is pending.
pub proof fn law_what_caps_lock_does(s: HandlerModel, state: KeyState, order: Seq<Key>)
    ensures
        ({
            let r = s.reaction(KEY_CAPSLOCK, state, order);
            let toggle = if state == KeyState::Released && s.after_meta_caps && s.real.contains(
                KEY_LEFTMETA,
            ) {
                seq![Action::Click(KEY_CAPSLOCK)]
            } else {
                seq![]
            };
            let v = s.virt;
            &&& state == KeyState::Repeat ==> r.actions.len() == 0 && r.next.virt == v
            &&& state == KeyState::Pressed ==> {
                &&& r.actions == release_if(v, KEY_I) + release_if(v, KEY_J) + release_if(v, KEY_L)
                    + release_if(v, KEY_K) + release_if(v, KEY_H) + release_if(v, KEY_SEMICOLON)
                &&& forall|k: Key| #[trigger]
                    r.next.virt.contains(k) <==> v.contains(k) && k != KEY_I && k != KEY_J && k
                        != KEY_L && k != KEY_K && k != KEY_H && k != KEY_SEMICOLON
            }
            &&& state == KeyState::Released ==> {
                &&& r.actions == toggle + (release_if(v, KEY_UP) + release_if(v, KEY_LEFT)
                    + release_if(v, KEY_RIGHT) + release_if(v, KEY_DOWN) + release_if(v, KEY_HOME)
                    + release_if(v, KEY_END))
                &&& forall|k: Key| #[trigger]
                    r.next.virt.contains(k) <==> v.contains(k) && k != KEY_UP && k != KEY_LEFT && k
                        != KEY_RIGHT && k != KEY_DOWN && k != KEY_HOME && k != KEY_END
            }
            &&& !r.killed
            &&& r.selection is None
        }),
{
    let r = s.reaction(KEY_CAPSLOCK, state, order);
    let sources = remap_sources();
    let targets = remap_targets();
    assert(sources[0] == KEY_I && sources[1] == KEY_J && sources[2] == KEY_L && sources[3] == KEY_K
        && sources[4] == KEY_H && sources[5] == KEY_SEMICOLON);
    assert(targets[0] == KEY_UP && targets[1] == KEY_LEFT && targets[2] == KEY_RIGHT && targets[3]
        == KEY_DOWN && targets[4] == KEY_HOME && targets[5] == KEY_END);
    lemma_six(sources, s.virt);
    lemma_six(targets, s.virt);
    let none = Seq::<Action>::empty();
    assert(releases(seq![]) == none);
    assert(none + releases(held_among(sources, s.virt)) == releases(held_among(sources, s.virt)));
    assert(none + releases(held_among(targets, s.virt)) == releases(held_among(targets, s.virt)));
    assert(s.virt.difference(Seq::<Key>::empty().to_set()) == s.virt);
    assert forall|k: Key|
        #![trigger r.next.virt.contains(k)]
        (state == KeyState::Pressed ==> (r.next.virt.contains(k) <==> s.virt.contains(k)
            && !sources.contains(k))) && (state == KeyState::Released ==> (r.next.virt.contains(k)
            <==> s.virt.contains(k) && !targets.contains(k))) by {
        let kept = |key: Key| s.virt.contains(key);
        lemma_filter_has(sources, kept, k);
        lemma_filter_has(targets, kept, k);
    }
}

/// `order` names each key that the virtual keyboard holds once.
pub open spec fn names_each(order: Seq<Key>, held: Set<Key>) -> bool {
    &&& forall|i: int, j: int| 0 <= i < j < order.len() ==> order[i] != order[j]
    &&& forall|k: Key| #[trigger] order.contains(k) <==> held.contains(k)
}

/// `keys` are let go of, in their order.
pub open spec fn let_go(keys: Seq<Key>) -> Seq<Action> {
    Seq::new(keys.len(), |i: int| Action::Emit(keys[i], KeyState::Released))
}

/// The modifiers among `keys` are pressed, in their order.
pub open spec fn hold_modifiers(keys: Seq<Key>) -> Seq<Action> {
    let held = keys.filter(|key: Key| modifier(key));
    Seq::new(held.len(), |i: int| Action::Emit(held[i], KeyState::Pressed))
}

/// Clicks of `key`, as many as `count`, each with a wait behind it.
pub open spec fn run_of_clicks(key: Key, count: nat) -> Seq<Action> {
    Seq::new(
        2 * count,
        |i: int|
            if i % 2 == 0 {
                Action::Click(key)
            } else {
                Action::Wait(100)
            },
    )
}

/// The same in the words of the remapper.
proof fn lemma_words(keys: Seq<Key>, key: Key, count: nat)
    ensures
        releases(keys) == let_go(keys),
        crate::action::presses(modifiers_in(keys)) == hold_modifiers(keys),
        clicks(key, count) == run_of_clicks(key, count),
{
    lemma_clicks(key, count);
    let a = |key: Key| modifier_key(key);
    let b = |key: Key| modifier(key);
    assert(a =~= b);
}

/// The key that moves the cursor.
pub open spec fn cursor_key(direction: Direction) -> Key {
    if direction == Direction::Forward {
        KEY_RIGHT
    } else {
        KEY_LEFT
    }
}

/// A search that waits takes every character that is typed, with caps or without, digits and
/// letters of the layer too. The character itself is not typed, and the search is over. Where the
/// character stands anywhere but next to the cursor, the cursor key is clicked once for each
/// grapheme cluster up to the nearest one, but at most 65535 times, and no other key is clicked;
/// where it does not, nothing happens at all.
pub proof fn law_search_takes_every_character(s: HandlerModel, key: Key, order: Seq<Key>)
    requires
        s.find is Some,
        typed(s.real, key) is Some,
    ensures
        ({
            let r = s.reaction(key, KeyState::Pressed, order);
            let clusters = graphemes_of(s.find->0.text);
            let direction = s.find->0.direction;
            let c = typed(s.real, key)->0;
            &&& !r.killed
            &&& r.selection is None
            &&& r.next.find is None
            &&& r.next.repeat == s.repeat
            &&& forall|i: int|
                0 <= i < r.actions.len() ==> {
                    &&& #[trigger] r.actions[i] != Action::Emit(key, KeyState::Pressed)
                    &&& r.actions[i] != Action::Emit(key, KeyState::Repeat)
                    &&& r.actions[i] != Action::Click(key)
                }
            &&& (forall|distance: int|
                !(#[trigger] stands_at(clusters, direction, c, distance))) ==> r.actions.len() == 0
                && r.next.virt == s.virt
            &&& forall|distance: int| #[trigger]
                nearest_at(clusters, direction, c, distance) ==> {
                    &&& click_count(r.actions, cursor_key(direction)) == if distance > 65535 {
                        65535
                    } else {
                        distance
                    }
                    &&& forall|i: int|
                        0 <= i < r.actions.len() ==> (#[trigger] r.actions[i] matches Action::Click(
                            clicked,
                        ) ==> clicked == cursor_key(direction))
                    &&& forall|k: Key| #[trigger]
                        r.next.virt.contains(k) <==> s.virt.contains(k) && modifier(k)
                }
        }),
{
    let r = s.reaction(key, KeyState::Pressed, order);
    let find = s.find->0;
    let clusters = graphemes_of(find.text);
    let c = typed(s.real, key)->0;
    lemma_decision(s, key, KeyState::Pressed);
    law_steps_lead_to_nearest(clusters, c, find.direction);
    assert(!modifier(key));
    if let Some(steps) = crate::handler::seek_steps(find, c) {
        law_search_script(s, key, order, steps);
        lemma_search_counts(find.select, find.direction, steps, order);
        assert forall|i: int| 0 <= i < r.actions.len() implies {
            &&& #[trigger] r.actions[i] != Action::Emit(key, KeyState::Pressed)
            &&& r.actions[i] != Action::Emit(key, KeyState::Repeat)
            &&& r.actions[i] != Action::Click(key)
        } by {
            let held = order.filter(|key: Key| modifier(key));
            let last = hold_modifiers(order);
            let j = i - (r.actions.len() - last.len());
            if j >= 0 {
                assert(r.actions[i] == last[j]);
                lemma_filter_has(order, |key: Key| modifier(key), held[j]);
                assert(held.contains(held[j]));
            }
        }
    }
}

/// The actions of a search, one after the other.
pub open spec fn search_actions(
    select: bool,
    direction: Direction,
    steps: nat,
    order: Seq<Key>,
) -> Seq<Action> {
    let_go(order) + (if select {
        seq![
            Action::Wait(100),
            Action::Emit(KEY_LEFTSHIFT, KeyState::Pressed),
            Action::Wait(100),
        ]
    } else {
        seq![Action::Wait(100)]
    }) + run_of_clicks(cursor_key(direction), steps) + (if select {
        seq![Action::Wait(100), Action::Emit(KEY_LEFTSHIFT, KeyState::Released)]
    } else {
        seq![]
    }) + hold_modifiers(order)
}

/// A search that finds its character lets go of every key, moves the cursor with a wait around
/// each click, and at last presses the modifiers again that were held. Shift is pressed before the
/// clicks and released behind them if the search selects, in either direction.
pub proof fn law_search_script(s: HandlerModel, key: Key, order: Seq<Key>, steps: nat)
    requires
        s.find is Some,
        typed(s.real, key) is Some,
        exists|distance: int| #[trigger]
            nearest_at(
                graphemes_of(s.find->0.text),
                s.find->0.direction,
                typed(s.real, key)->0,
                distance,
            ) && steps == if distance > 65535 {
                65535
            } else {
                distance
            },
    ensures
        s.reaction(key, KeyState::Pressed, order).actions == search_actions(
            s.find->0.select,
            s.find->0.direction,
            steps,
            order,
        ),
{
    let r = s.reaction(key, KeyState::Pressed, order);
    let find = s.find->0;
    let c = typed(s.real, key)->0;
    let clusters = graphemes_of(find.text);
    lemma_decision(s, key, KeyState::Pressed);
    law_steps_lead_to_nearest(clusters, c, find.direction);
    let distance = choose|distance: int| #[trigger]
        nearest_at(clusters, find.direction, c, distance) && steps == if distance > 65535 {
            65535
        } else {
            distance
        };
    assert(stands_at(clusters, find.direction, c, distance));
    assert(crate::handler::seek_steps(find, c) == Some(steps));
    lemma_words(order, cursor_key(find.direction), steps);
    assert(r.actions == search_actions(find.select, find.direction, steps, order));
}

/// Counting clicks in one list and then another.
proof fn lemma_click_count_concat(first: Seq<Action>, second: Seq<Action>, key: Key)
    ensures
        click_count(first + second, key) == click_count(first, key) + click_count(second, key),
    decreases second.len(),
{
    if second.len() == 0 {
        assert(first + second == first);
    } else {
        lemma_click_count_concat(first, second.drop_last(), key);
        assert((first + second).drop_last() == first + second.drop_last());
        assert((first + second).last() == second.last());
    }
}

/// Where nothing is clicked, the count is zero.
proof fn lemma_nothing_clicked(actions: Seq<Action>, key: Key)
    requires
        forall|i: int| 0 <= i < actions.len() ==> #[trigger] actions[i] != Action::Click(key),
    ensures
        click_count(actions, key) == 0,
    decreases actions.len(),
{
    if actions.len() > 0 {
        let rest = actions.drop_last();
        assert forall|i: int| 0 <= i < rest.len() implies #[trigger] rest[i] != Action::Click(
            key,
        ) by {
            assert(rest[i] == actions[i]);
        }
        lemma_nothing_clicked(rest, key);
        assert(actions.last() == actions[actions.len() - 1]);
    }
}

/// The clicks of a search.
proof fn lemma_search_counts(select: bool, direction: Direction, steps: nat, order: Seq<Key>)
    ensures
        ({
            let actions = search_actions(select, direction, steps, order);
            &&& click_count(actions, cursor_key(direction)) == steps
            &&& forall|i: int|
                0 <= i < actions.len() ==> (#[trigger] actions[i] matches Action::Click(clicked)
                    ==> clicked == cursor_key(direction))
        }),
{
    let key = cursor_key(direction);
    let before = if select {
        seq![Action::Wait(100), Action::Emit(KEY_LEFTSHIFT, KeyState::Pressed), Action::Wait(100)]
    } else {
        seq![Action::Wait(100)]
    };
    let behind = if select {
        seq![Action::Wait(100), Action::Emit(KEY_LEFTSHIFT, KeyState::Released)]
    } else {
        Seq::<Action>::empty()
    };
    let run = run_of_clicks(key, steps);
    lemma_words(order, key, steps);
    crate::laws::lemma_click_count(key, steps);
    lemma_nothing_clicked(let_go(order) + before, key);
    lemma_nothing_clicked(behind, key);
    lemma_nothing_clicked(hold_modifiers(order), key);
    lemma_click_count_concat(let_go(order) + before, run, key);
    lemma_click_count_concat(let_go(order) + before + run, behind, key);
    lemma_click_count_concat(let_go(order) + before + run + behind, hold_modifiers(order), key);
    assert(search_actions(select, direction, steps, order) == let_go(order) + before + run + behind
        + hold_modifiers(order));
}

/// Part of a run of clicks holds what was held before it.
proof fn lemma_held_in_run(held: Set<Key>, key: Key, count: nat, part: int)
    requires
        !held.contains(key),
        0 <= part <= 2 * count,
    ensures
        held_after_all(held, run_of_clicks(key, count).take(part)) == held,
    decreases part,
{
    let run = run_of_clicks(key, count);
    if part > 0 {
        lemma_held_in_run(held, key, count, part - 1);
        assert(run.take(part).drop_last() == run.take(part - 1));
        assert(run.take(part).last() == run[part - 1]);
        assert(held.remove(key) == held);
    } else {
        assert(run.take(part) == Seq::<Action>::empty());
    }
}

/// At every click of a search, forwards or backwards, the virtual keyboard holds shift and nothing
/// else if the search selects, and nothing at all if it does not. After all of it, it holds just
/// the modifiers that it held before.
pub proof fn law_shift_is_held_to_select(
    s: HandlerModel,
    key: Key,
    order: Seq<Key>,
    held: Set<Key>,
)
    requires
        s.find is Some,
        typed(s.real, key) is Some,
        names_each(order, s.virt),
        held.subset_of(s.virt),
    ensures
        ({
            let actions = s.reaction(key, KeyState::Pressed, order).actions;
            &&& forall|i: int|
                0 <= i < actions.len() && #[trigger] actions[i] is Click ==> forall|k: Key| #[trigger]
                    held_after_all(held, actions.take(i)).contains(k) <==> s.find->0.select && k
                        == KEY_LEFTSHIFT
            &&& actions.len() > 0 ==> forall|k: Key| #[trigger]
                held_after_all(held, actions).contains(k) <==> s.virt.contains(k) && modifier(k)
        }),
{
    let find = s.find->0;
    let c = typed(s.real, key)->0;
    let actions = s.reaction(key, KeyState::Pressed, order).actions;
    lemma_decision(s, key, KeyState::Pressed);
    law_steps_lead_to_nearest(graphemes_of(find.text), c, find.direction);
    if let Some(steps) = crate::handler::seek_steps(find, c) {
        law_search_script(s, key, order, steps);
        let cursor = cursor_key(find.direction);
        let before = if find.select {
            seq![
                Action::Wait(100),
                Action::Emit(KEY_LEFTSHIFT, KeyState::Pressed),
                Action::Wait(100),
            ]
        } else {
            seq![Action::Wait(100)]
        };
        let run = run_of_clicks(cursor, steps);
        let start = let_go(order) + before;
        let none = Set::<Key>::empty();
        let at_clicks = if find.select {
            none.insert(KEY_LEFTSHIFT)
        } else {
            none
        };
        lemma_words(order, cursor, steps);
        lemma_held_releases(held, order);
        assert(held.difference(order.to_set()) == none) by {
            assert forall|k: Key| !held.difference(order.to_set()).contains(k) by {
                if held.contains(k) {
                    assert(order.contains(k));
                }
            }
        }
        lemma_held_concat(held, let_go(order), before);
        reveal_with_fuel(held_after_all, 4);
        assert(before.len() == 3 ==> before.drop_last().drop_last().drop_last() == Seq::<
            Action,
        >::empty());
        assert(before.len() == 1 ==> before.drop_last() == Seq::<Action>::empty());
        assert(held_after_all(none, before) == at_clicks);
        assert forall|i: int| 0 <= i < actions.len() && #[trigger] actions[i] is Click implies forall|
            k: Key,
        | #[trigger]
            held_after_all(held, actions.take(i)).contains(k) <==> find.select && k
                == KEY_LEFTSHIFT by {
            let part = i - start.len();
            assert(0 <= part < run.len());
            assert(actions.take(i) == start + run.take(part));
            lemma_held_concat(held, start, run.take(part));
            lemma_held_in_run(at_clicks, cursor, steps, part);
        }
        assert(crate::handler::lists(order, s.virt)) by {
            assert(order.to_set() == s.virt);
        }
        crate::laws::law_seek_keeps_modifiers(held, find, steps, s.virt, order);
        assert(actions == crate::handler::seek_script(find, steps, order));
    }
}

/// Caps with f or d, unless a search was waiting for that letter, lets go of every key, holds shift
/// for two clicks to the end of the line, and clicks once in the other direction without shift, to
/// get back; each of these waits for a millisecond before and behind it. At last it presses the
/// modifiers again that were held. The end of the line is end and the way back is left for f; they
/// are home and right for d.
pub proof fn law_selecting_the_rest_of_the_line(s: HandlerModel, key: Key, order: Seq<Key>)
    requires
        s.real.contains(KEY_CAPSLOCK),
        key == KEY_F || key == KEY_D,
        !searched(s, key),
    ensures
        ({
            let r = s.reaction(key, KeyState::Pressed, order);
            let (line_end, back) = if key == KEY_F {
                (KEY_END, KEY_LEFT)
            } else {
                (KEY_HOME, KEY_RIGHT)
            };
            &&& r.selection == Some(
                if key == KEY_F {
                    Direction::Forward
                } else {
                    Direction::Backward
                },
            )
            &&& !r.killed
            &&& r.actions == let_go(order) + seq![
                Action::Wait(1000),
                Action::Emit(KEY_LEFTSHIFT, KeyState::Pressed),
                Action::Wait(1000),
                Action::Click(line_end),
                Action::Wait(1000),
                Action::Click(line_end),
                Action::Wait(1000),
                Action::Emit(KEY_LEFTSHIFT, KeyState::Released),
                Action::Wait(1000),
                Action::Click(back),
                Action::Wait(1000),
            ] + hold_modifiers(order)
            &&& forall|k: Key| #[trigger]
                r.next.virt.contains(k) <==> s.virt.contains(k) && modifier(k)
        }),
{
    lemma_decision(s, key, KeyState::Pressed);
    lemma_words(order, key, 0);
}

/// The text that arrives begins the search. It selects exactly if a shift key is down at that
/// time. A text that could not be read changes nothing, and the keys and the number stay as they
/// are in any case.
pub proof fn law_text_begins_the_search(
    handler: &mut KbEventHandler,
    direction: Direction,
    text: Option<String>,
)
    requires
        call_ensures(KbEventHandler::provide_selection, (handler, direction, text), ()),
    ensures
        ({
            let before = old(handler)@;
            let after = final(handler)@;
            &&& after.real == before.real
            &&& after.virt == before.virt
            &&& after.repeat == before.repeat
            &&& after.after_meta_caps == before.after_meta_caps
            &&& text is None ==> after.find == before.find
            &&& text matches Some(text) ==> after.find == Some(
                FindModel {
                    select: before.real.contains(KEY_LEFTSHIFT) || before.real.contains(
                        KEY_RIGHTSHIFT,
                    ),
                    direction,
                    text: text@,
                },
            )
        }),
{
    let before = old(handler)@;
    if before.real.contains(KEY_LEFTSHIFT) || before.real.contains(KEY_RIGHTSHIFT) {
        assert(before.shift_held());
    }
}

/// A remapper begins with nothing pressed, nothing typed, no search and no pending toggle.
pub proof fn law_begins_with_nothing(handler: KbEventHandler)
    requires
        call_ensures(KbEventHandler::new, (), handler),
    ensures
        forall|k: Key| !(#[trigger] handler@.real.contains(k)),
        forall|k: Key| !(#[trigger] handler@.virt.contains(k)),
        !handler@.after_meta_caps,
        handler@.repeat == 0,
        handler@.find is None,
{
}

/// What is promised of a reaction is what the remapper does: it returns the actions of the
/// reaction and asks for the same selection, or stops the program where the reaction does, and
/// remembers what the reaction says. The order in which keys are let go of is the only thing left
/// open, and it names each key once.
pub proof fn law_remapper_reacts(
    handler: &mut KbEventHandler,
    key: Key,
    state: KeyState,
    r: Result<Response, Killed>,
)
    requires
        call_ensures(KbEventHandler::handle_event, (handler, key, state), r),
    ensures
        exists|order: Seq<Key>| #[trigger]
            names_each(order, old(handler)@.virt) && ({
                let reaction = old(handler)@.reaction(key, state, order);
                &&& final(handler)@ == reaction.next
                &&& r is Err <==> reaction.killed
                &&& r matches Ok(response) ==> response.actions@ == reaction.actions
                    && response.selection == reaction.selection
            }),
{
    let before = old(handler)@;
    let order = choose|order: Seq<Key>| #[trigger]
        crate::handler::lists(order, before.virt) && crate::handler::answers(
            before.reaction(key, state, order),
            final(handler)@,
            r,
        );
    assert(names_each(order, before.virt)) by {
        assert forall|k: Key| #[trigger] order.contains(k) <==> before.virt.contains(k) by {
            assert(order.to_set().contains(k) <==> order.contains(k));
        }
    }
}

/// A number that was typed is kept through any releases, repeats, events of caps lock and presses
/// of modifiers, however many there are.
pub proof fn law_number_is_kept_until_used(s: HandlerModel, events: Events)
    requires
        forall|i: int|
            0 <= i < events.len() ==> {
                ||| (#[trigger] events[i]).0 == KEY_CAPSLOCK
                ||| events[i].1 != KeyState::Pressed
                ||| modifier(events[i].0)
            },
    ensures
        after_events(s, events).repeat == s.repeat,
    decreases events.len(),
{
    if events.len() > 0 {
        let rest = events.drop_last();
        assert forall|i: int| 0 <= i < rest.len() implies {
            ||| (#[trigger] rest[i]).0 == KEY_CAPSLOCK
            ||| rest[i].1 != KeyState::Pressed
            ||| modifier(rest[i].0)
        } by {
            assert(rest[i] == events[i]);
        }
        law_number_is_kept_until_used(s, rest);
        let (key, state, order) = events.last();
        assert(events[events.len() - 1] == events.last());
        law_what_becomes_of_the_number(after_events(s, rest), key, state, order);
    }
}

/// A search is kept through any releases, repeats and presses of keys other than caps lock, as
/// long as only modifiers are pressed, and through any events of caps lock while left meta is up.
pub proof fn law_search_is_kept_until_used(s: HandlerModel, events: Events)
    requires
        !s.real.contains(KEY_LEFTMETA),
        forall|i: int|
            0 <= i < events.len() ==> (#[trigger] events[i]).0 != KEY_LEFTMETA && (events[i].0
                == KEY_CAPSLOCK || events[i].1 != KeyState::Pressed || modifier(events[i].0)),
    ensures
        after_events(s, events).find == s.find,
        !after_events(s, events).real.contains(KEY_LEFTMETA),
    decreases events.len(),
{
    if events.len() > 0 {
        let rest = events.drop_last();
        assert forall|i: int| 0 <= i < rest.len() implies (#[trigger] rest[i]).0 != KEY_LEFTMETA && (
        rest[i].0 == KEY_CAPSLOCK || rest[i].1 != KeyState::Pressed || modifier(rest[i].0)) by {
            assert(rest[i] == events[i]);
        }
        law_search_is_kept_until_used(s, rest);
        let (key, state, order) = events.last();
        assert(events[events.len() - 1] == events.last());
        law_what_becomes_of_the_search(after_events(s, rest), key, state, order);
        law_real_keys_are_followed(after_events(s, rest), key, state, order);
    }
}

} // verus!
