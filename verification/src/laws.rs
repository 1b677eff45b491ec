//! What holds of the remapper over any events, in whatever order they come.

use vstd::prelude::*;

use crate::action::{
    clicks, held_after_all, presses, releases, repeated, touched_key, with_event,
    Action, TINY_WAIT,
};
use crate::find::{get_text_script, Direction};
use crate::handler::{
    held_among, held_modifiers, lists, modifiers_in, seek_script, seek_steps, select_script,
    FindModel, HandlerModel, Intent,
};
use crate::keys::{
    keyboard_key, shift_key, Key, KeyState, KEY_CAPSLOCK, KEY_D, KEY_ESC, KEY_F, KEY_F1,
    KEY_LEFTMETA, KEY_LEFTSHIFT,
};
use crate::map::{digit_of, law_caps_layer_table, remap_sources, remap_targets, remapped};
use crate::modifiers::{modifier_key, Modifier};
use crate::num::{decimal, law_digits_write_a_number, pushed, pushed_all};
use crate::search::{graphemes_of, outwards, steps_to};
use crate::send::stroke;

verus! {

/// An event says whether its key is down, where a repeat counts as a press. It leaves the other
/// keys as they were, and the same event once more changes nothing.
pub proof fn law_event_sets_one_key(keys: Set<Key>, key: Key, state: KeyState)
    ensures
        with_event(keys, key, state).contains(key) <==> state != KeyState::Released,
        forall|other: Key|
            other != key ==> #[trigger] with_event(keys, key, state).contains(other)
                == keys.contains(other),
        with_event(with_event(keys, key, state), key, state) == with_event(keys, key, state),
{
}

/// Which shift key is held, and which keys that are no modifiers, makes no difference to the
/// character that a key types.
pub proof fn law_character_depends_on_modifiers(a: HandlerModel, b: HandlerModel, key: Key)
    requires
        a.shift_held() == b.shift_held(),
        forall|held: Key|
            modifier_key(held) && !shift_key(held) ==> #[trigger] a.real.contains(held)
                == b.real.contains(held),
    ensures
        a.character(key) == b.character(key),
{
    if exists|held: Key| #[trigger]
        b.real.contains(held) && modifier_key(held) && !shift_key(held) {
        let held = choose|held: Key| #[trigger]
            b.real.contains(held) && modifier_key(held) && !shift_key(held);
        assert(a.real.contains(held));
    }
}

/// After `keys` were pressed on the virtual keyboard, one after the other.
pub open spec fn after_emitted_presses(s: HandlerModel, keys: Seq<Key>) -> HandlerModel
    decreases keys.len(),
{
    if keys.len() == 0 {
        s
    } else {
        after_emitted_presses(s, keys.drop_last()).emitted(keys.last(), KeyState::Pressed)
    }
}

/// Presses of modifiers add them, and change nothing else.
proof fn lemma_emitted_modifiers(s: HandlerModel, keys: Seq<Key>)
    requires
        forall|i: int| 0 <= i < keys.len() ==> modifier_key(#[trigger] keys[i]),
    ensures
        after_emitted_presses(s, keys) == (HandlerModel {
            virt: s.virt.union(keys.to_set()),
            ..s
        }),
    decreases keys.len(),
{
    if keys.len() > 0 {
        let rest = keys.drop_last();
        assert forall|i: int| 0 <= i < rest.len() implies modifier_key(#[trigger] rest[i]) by {
            assert(rest[i] == keys[i]);
        }
        lemma_emitted_modifiers(s, rest);
        assert(modifier_key(keys[keys.len() - 1]));
        assert(keys == rest.push(keys.last()));
        rest.lemma_push_to_set_commute(keys.last());
        assert(s.virt.union(keys.to_set()) == s.virt.union(rest.to_set()).insert(keys.last()));
    } else {
        assert(s.virt.union(keys.to_set()) == s.virt);
    }
}

/// Once every key of the virtual keyboard was let go of, pressing the modifiers among them again
/// restores just the modifiers that were held, and changes nothing else: a search that waits goes
/// on waiting.
pub proof fn law_pressing_again_restores_modifiers(s: HandlerModel, order: Seq<Key>)
    requires
        lists(order, s.virt),
    ensures
        ({
            let released = HandlerModel { virt: Set::empty(), ..s };
            let restored = after_emitted_presses(released, modifiers_in(order));
            &&& restored.virt == held_modifiers(s.virt)
            &&& restored.find == s.find
            &&& restored == (HandlerModel { virt: held_modifiers(s.virt), ..s })
        }),
{
    let released = HandlerModel { virt: Set::empty(), ..s };
    crate::handler::lemma_all_modifiers(order);
    crate::handler::lemma_modifiers_listed(order);
    lemma_emitted_modifiers(released, modifiers_in(order));
    assert(released.virt.union(modifiers_in(order).to_set()) == held_modifiers(s.virt));
}

/// Doing one list of actions after another is doing both.
pub proof fn lemma_held_concat(held: Set<Key>, first: Seq<Action>, second: Seq<Action>)
    ensures
        held_after_all(held, first + second) == held_after_all(
            held_after_all(held, first),
            second,
        ),
    decreases second.len(),
{
    if second.len() == 0 {
        assert(first + second == first);
    } else {
        lemma_held_concat(held, first, second.drop_last());
        assert((first + second).drop_last() == first + second.drop_last());
        assert((first + second).last() == second.last());
    }
}

/// Releasing keys leaves the others.
pub proof fn lemma_held_releases(held: Set<Key>, keys: Seq<Key>)
    ensures
        held_after_all(held, releases(keys)) == held.difference(keys.to_set()),
    decreases keys.len(),
{
    if keys.len() > 0 {
        let rest = keys.drop_last();
        lemma_held_releases(held, rest);
        assert(releases(keys).drop_last() == releases(rest));
        assert(keys == rest.push(keys.last()));
        rest.lemma_push_to_set_commute(keys.last());
        assert(held.difference(keys.to_set()) == held.difference(rest.to_set()).remove(
            keys.last(),
        ));
    } else {
        assert(held.difference(keys.to_set()) == held);
    }
}

/// Pressing keys adds them.
pub proof fn lemma_held_presses(held: Set<Key>, keys: Seq<Key>)
    ensures
        held_after_all(held, presses(keys)) == held.union(keys.to_set()),
    decreases keys.len(),
{
    if keys.len() > 0 {
        let rest = keys.drop_last();
        lemma_held_presses(held, rest);
        assert(presses(keys).drop_last() == presses(rest));
        assert(keys == rest.push(keys.last()));
        rest.lemma_push_to_set_commute(keys.last());
        assert(held.union(keys.to_set()) == held.union(rest.to_set()).insert(keys.last()));
    } else {
        assert(held.union(keys.to_set()) == held);
    }
}

/// Clicking a key leaves the others.
pub proof fn lemma_held_clicks(held: Set<Key>, key: Key, count: nat)
    ensures
        held_after_all(held, clicks(key, count)) == if count == 0 {
            held
        } else {
            held.remove(key)
        },
    decreases count,
{
    if count > 0 {
        let before = (count - 1) as nat;
        let script = seq![Action::Click(key), Action::Wait(TINY_WAIT)];
        lemma_held_clicks(held, key, before);
        lemma_held_concat(held, clicks(key, before), script);
        reveal_with_fuel(held_after_all, 3);
        assert(script.drop_last().drop_last() == Seq::<Action>::empty());
        assert(script.drop_last().last() == Action::Click(key));
        assert(held.remove(key).remove(key) == held.remove(key));
    }
}

/// After everything was let go of, pressing and releasing shift around clicks, and pressing
/// `modifiers` at last, holds just those.
proof fn lemma_held_between(
    held: Set<Key>,
    order: Seq<Key>,
    between: Seq<Action>,
    modifiers: Seq<Key>,
)
    requires
        held.subset_of(order.to_set()),
        held_after_all(Set::empty(), between) == Set::<Key>::empty(),
    ensures
        held_after_all(held, releases(order) + between + presses(modifiers)) == modifiers.to_set(),
{
    lemma_held_concat(held, releases(order) + between, presses(modifiers));
    lemma_held_concat(held, releases(order), between);
    lemma_held_releases(held, order);
    lemma_held_presses(Set::empty(), modifiers);
    assert(held.difference(order.to_set()) == Set::<Key>::empty());
    assert(Set::<Key>::empty().union(modifiers.to_set()) == modifiers.to_set());
}

/// A search lets go of everything but the modifiers, which are held again afterwards.
pub proof fn law_seek_keeps_modifiers(
    held: Set<Key>,
    find: FindModel,
    steps: nat,
    virt: Set<Key>,
    order: Seq<Key>,
)
    requires
        lists(order, virt),
        held.subset_of(virt),
    ensures
        held_after_all(held, seek_script(find, steps, order)) == held_modifiers(virt),
{
    let none = Set::<Key>::empty();
    let step = find.direction.step_key();
    let wait = seq![Action::Wait(TINY_WAIT)];
    let motion = wait + clicks(step, steps);
    let press = seq![
        Action::Wait(TINY_WAIT),
        Action::Emit(KEY_LEFTSHIFT, KeyState::Pressed),
    ];
    let release = seq![
        Action::Wait(TINY_WAIT),
        Action::Emit(KEY_LEFTSHIFT, KeyState::Released),
    ];
    reveal_with_fuel(held_after_all, 3);
    assert(wait.drop_last() == Seq::<Action>::empty());
    assert(press.drop_last().drop_last() == Seq::<Action>::empty());
    assert(release.drop_last().drop_last() == Seq::<Action>::empty());
    let shifted = none.insert(KEY_LEFTSHIFT);
    assert(none.remove(step) == none);
    assert(shifted.remove(step) == shifted);
    assert(shifted.remove(KEY_LEFTSHIFT) == none);
    if find.select {
        lemma_held_concat(none, press + motion, release);
        lemma_held_concat(none, press, motion);
        lemma_held_concat(shifted, wait, clicks(step, steps));
        lemma_held_clicks(shifted, step, steps);
        lemma_held_between(held, order, press + motion + release, modifiers_in(order));
    } else {
        lemma_held_concat(none, wait, clicks(step, steps));
        lemma_held_clicks(none, step, steps);
        lemma_held_between(held, order, motion, modifiers_in(order));
    }
    crate::handler::lemma_modifiers_listed(order);
}

/// Selecting the rest of the line lets go of everything but the modifiers, which are held again
/// afterwards.
pub proof fn law_select_keeps_modifiers(
    held: Set<Key>,
    direction: Direction,
    virt: Set<Key>,
    order: Seq<Key>,
)
    requires
        lists(order, virt),
        held.subset_of(virt),
    ensures
        held_after_all(held, select_script(direction, order)) == held_modifiers(virt),
{
    let whole = select_script(direction, order);
    let from = releases(order).len() as int;
    let between = whole.subrange(from, from + 11);
    assert(whole == releases(order) + between + presses(modifiers_in(order)));
    let none = Set::<Key>::empty();
    reveal_with_fuel(held_after_all, 12);
    assert(between.take(0) == Seq::<Action>::empty());
    assert(between.take(1).drop_last() == between.take(0));
    assert(between.take(2).drop_last() == between.take(1));
    assert(between.take(3).drop_last() == between.take(2));
    assert(between.take(4).drop_last() == between.take(3));
    assert(between.take(5).drop_last() == between.take(4));
    assert(between.take(6).drop_last() == between.take(5));
    assert(between.take(7).drop_last() == between.take(6));
    assert(between.take(8).drop_last() == between.take(7));
    assert(between.take(9).drop_last() == between.take(8));
    assert(between.take(10).drop_last() == between.take(9));
    assert(between.drop_last() == between.take(10));
    assert(held_after_all(none, between) == none);
    lemma_held_between(held, order, between, modifiers_in(order));
    crate::handler::lemma_modifiers_listed(order);
}

/// The remapper knows every key that the virtual keyboard holds: if that was so before an
/// event, it is so after it.
pub proof fn law_held_keys_are_known(
    s: HandlerModel,
    key: Key,
    state: KeyState,
    order: Seq<Key>,
    held: Set<Key>,
)
    requires
        lists(order, s.virt),
        held.subset_of(s.virt),
    ensures
        held_after_all(held, s.reaction(key, state, order).actions).subset_of(
            s.reaction(key, state, order).next.virt,
        ),
{
    let reaction = s.reaction(key, state, order);
    let noted = s.noted(key, state);
    if reaction.killed {
    } else if key == KEY_CAPSLOCK {
        let let_go = match state {
            KeyState::Pressed => held_among(remap_sources(), noted.virt),
            KeyState::Repeat => seq![],
            KeyState::Released => held_among(remap_targets(), noted.virt),
        };
        let toggle = seq![Action::Click(KEY_CAPSLOCK)];
        let none = Seq::<Action>::empty();
        assert(none + releases(let_go) == releases(let_go));
        lemma_held_releases(held, let_go);
        lemma_held_concat(held, toggle, releases(let_go));
        assert(toggle.drop_last() == none);
        reveal_with_fuel(held_after_all, 2);
        lemma_held_releases(held.remove(KEY_CAPSLOCK), let_go);
    } else {
        let ready = noted.interrupted(key, state);
        match ready.intent(key, state) {
            Intent::Seek(c) => {
                if let Some(steps) = seek_steps(ready.find->0, c) {
                    law_seek_keeps_modifiers(held, ready.find->0, steps, s.virt, order);
                }
            },
            Intent::Count(digit) => {},
            Intent::Select(direction) => {
                law_select_keeps_modifiers(held, direction, s.virt, order);
            },
            Intent::Repeat(clicked) => {
                lemma_held_clicks(held, clicked, ready.repeat as nat);
            },
            Intent::Forward(shown) => {
                let script = seq![Action::Emit(shown, state)];
                assert(script.drop_last() == Seq::<Action>::empty());
                reveal_with_fuel(held_after_all, 2);
            },
        }
    }
}

/// A key of the virtual keyboard has a reason to be down: the real key is down and means
/// itself, or caps lock and a real key that means it are.
pub open spec fn has_reason(s: HandlerModel, key: Key) -> bool {
    ||| s.real.contains(key) && !(s.caps_held() && remapped(key) is Some)
    ||| s.caps_held() && exists|source: Key| #[trigger]
        s.real.contains(source) && remapped(source) == Some(key)
}

/// Every key of the virtual keyboard has a reason to be down. Caps lock never has one: it is
/// clicked, and not held.
pub open spec fn justified(s: HandlerModel) -> bool {
    forall|key: Key| #[trigger] s.virt.contains(key) ==> has_reason(s, key) && key != KEY_CAPSLOCK
}

/// An event that a keyboard sends: caps lock repeats only after it was pressed.
pub open spec fn plausible(s: HandlerModel, key: Key, state: KeyState) -> bool {
    key == KEY_CAPSLOCK && state == KeyState::Repeat ==> s.caps_held()
}

/// A press of caps lock lets go of the keys that mean something else from now on, and a
/// release lets go of what they meant.
pub proof fn law_caps_switches_cleanly(s: HandlerModel, state: KeyState, order: Seq<Key>)
    ensures
        forall|key: Key| #[trigger]
            s.reaction(KEY_CAPSLOCK, state, order).next.virt.contains(key) <==> s.virt.contains(key)
                && !(state == KeyState::Pressed && remap_sources().contains(key)) && !(state
                == KeyState::Released && remap_targets().contains(key)),
{
    let noted = s.noted(KEY_CAPSLOCK, state);
    assert forall|key: Key| #[trigger]
        s.reaction(KEY_CAPSLOCK, state, order).next.virt.contains(key) <==> s.virt.contains(key)
            && !(state == KeyState::Pressed && remap_sources().contains(key)) && !(state
            == KeyState::Released && remap_targets().contains(key)) by {
        let kept = |key: Key| noted.virt.contains(key);
        crate::handler::lemma_filter_has(remap_sources(), kept, key);
        crate::handler::lemma_filter_has(remap_targets(), kept, key);
    }
}

/// No key gets down on the virtual keyboard without a reason, and none stays down after its
/// reason is gone.
pub proof fn law_keys_stay_justified(
    s: HandlerModel,
    key: Key,
    state: KeyState,
    order: Seq<Key>,
)
    requires
        justified(s),
        plausible(s, key, state),
    ensures
        justified(s.reaction(key, state, order).next),
{
    let next = s.reaction(key, state, order).next;
    assert forall|k: Key| #[trigger] next.virt.contains(k) implies has_reason(next, k)
        && k != KEY_CAPSLOCK by {
        law_caps_layer_table(k);
        law_caps_layer_table(key);
        if key == KEY_CAPSLOCK {
            law_caps_switches_cleanly(s, state, order);
            assert(s.virt.contains(k));
            assert(has_reason(s, k));
            assert(remapped(k) is Some <==> remap_sources().contains(k));
            if exists|source: Key| #[trigger]
                s.real.contains(source) && remapped(source) == Some(k) {
                let source = choose|source: Key| #[trigger]
                    s.real.contains(source) && remapped(source) == Some(k);
                law_caps_layer_table(source);
                assert(remap_targets().contains(k)) by {
                    let targets = remap_targets();
                    assert(targets[0] == crate::keys::KEY_UP);
                    assert(targets[1] == crate::keys::KEY_LEFT);
                    assert(targets[2] == crate::keys::KEY_RIGHT);
                    assert(targets[3] == crate::keys::KEY_DOWN);
                    assert(targets[4] == crate::keys::KEY_HOME);
                    assert(targets[5] == crate::keys::KEY_END);
                }
                assert(next.real.contains(source));
            }
        } else {
            if s.virt.contains(k) {
                assert(has_reason(s, k));
                if exists|source: Key| #[trigger]
                    s.real.contains(source) && remapped(source) == Some(k) {
                    let source = choose|source: Key| #[trigger]
                        s.real.contains(source) && remapped(source) == Some(k);
                    law_caps_layer_table(source);
                    if source != key || state != KeyState::Released {
                        assert(next.real.contains(source));
                    }
                }
            }
            if state != KeyState::Released {
                assert(next.real.contains(key));
            }
        }
    }
}

/// What comes to the remapper from outside.
pub ghost enum Input {
    /// An event of a real key, and the order in which the keys of the virtual keyboard are let
    /// go of, where it makes them be.
    Event(Key, KeyState, Seq<Key>),
    /// The selected text, or that it could not be read.
    Selection(Direction, Option<Seq<char>>),
}

/// What the remapper remembers after all of `inputs`.
pub open spec fn state_after(inputs: Seq<Input>) -> HandlerModel
    decreases inputs.len(),
{
    if inputs.len() == 0 {
        HandlerModel::initial()
    } else {
        let before = state_after(inputs.drop_last());
        match inputs.last() {
            Input::Event(key, state, order) => before.reaction(key, state, order).next,
            Input::Selection(direction, text) => before.selected(direction, text),
        }
    }
}

/// The keys that the virtual keyboard holds after all of `inputs`.
pub open spec fn device_after(inputs: Seq<Input>) -> Set<Key>
    decreases inputs.len(),
{
    if inputs.len() == 0 {
        Set::empty()
    } else {
        let before = device_after(inputs.drop_last());
        match inputs.last() {
            Input::Event(key, state, order) => held_after_all(
                before,
                state_after(inputs.drop_last()).reaction(key, state, order).actions,
            ),
            Input::Selection(_, _) => before,
        }
    }
}

/// Whether `inputs` can come in this way.
pub open spec fn possible(inputs: Seq<Input>) -> bool
    decreases inputs.len(),
{
    inputs.len() > 0 ==> possible(inputs.drop_last()) && match inputs.last() {
        Input::Event(key, state, order) => lists(order, state_after(inputs.drop_last()).virt)
            && plausible(state_after(inputs.drop_last()), key, state),
        Input::Selection(_, _) => true,
    }
}

/// Whatever came in, each key that the virtual keyboard holds is known to the remapper and has
/// a reason to be down.
pub proof fn law_virtual_keys_have_reasons(inputs: Seq<Input>)
    requires
        possible(inputs),
    ensures
        justified(state_after(inputs)),
        device_after(inputs).subset_of(state_after(inputs).virt),
    decreases inputs.len(),
{
    if inputs.len() > 0 {
        let before = state_after(inputs.drop_last());
        law_virtual_keys_have_reasons(inputs.drop_last());
        match inputs.last() {
            Input::Event(key, state, order) => {
                law_keys_stay_justified(before, key, state, order);
                law_held_keys_are_known(
                    before,
                    key,
                    state,
                    order,
                    device_after(inputs.drop_last()),
                );
            },
            Input::Selection(direction, text) => {
                let after = before.selected(direction, text);
                assert forall|key: Key| #[trigger] after.virt.contains(key) implies has_reason(
                    after,
                    key,
                ) && key != KEY_CAPSLOCK by {
                    assert(before.virt.contains(key));
                    assert(has_reason(before, key));
                    if exists|source: Key| #[trigger]
                        before.real.contains(source) && remapped(source) == Some(key) {
                        let source = choose|source: Key| #[trigger]
                            before.real.contains(source) && remapped(source) == Some(key);
                        assert(after.real.contains(source));
                    }
                }
            },
        }
    }
}

/// No key is ever stuck: whatever came in, once all real keys are up, the virtual keyboard
/// holds nothing.
pub proof fn law_no_key_is_stuck(inputs: Seq<Input>)
    requires
        possible(inputs),
        state_after(inputs).real == Set::<Key>::empty(),
    ensures
        device_after(inputs) == Set::<Key>::empty(),
{
    law_virtual_keys_have_reasons(inputs);
    assert forall|key: Key| !device_after(inputs).contains(key) by {
        if device_after(inputs).contains(key) {
            assert(state_after(inputs).virt.contains(key));
            assert(has_reason(state_after(inputs), key));
        }
    }
}

/// A press of `key` is taken for the character that a search waits for.
pub open spec fn seeks(s: HandlerModel, key: Key) -> bool {
    s.find is Some && s.noted(key, KeyState::Pressed).character(key) is Some
}

/// Caps with one of i, j, k, l, h and the semicolon is the key that it means, for presses,
/// repeats and releases alike, as long as no number was typed and no search waits for the
/// character that was pressed.
pub proof fn law_caps_layer(s: HandlerModel, key: Key, state: KeyState, order: Seq<Key>)
    requires
        s.caps_held(),
        remapped(key) is Some,
        state == KeyState::Pressed ==> s.repeat == 0 && !seeks(s, key),
    ensures
        s.reaction(key, state, order).actions == seq![Action::Emit(remapped(key)->0, state)],
        !s.reaction(key, state, order).killed,
        s.reaction(key, state, order).selection is None,
{
    law_caps_layer_table(key);
    let ready = s.noted(key, state).interrupted(key, state);
    assert(ready.character(key) == s.noted(key, state).character(key));
    assert(ready.intent(key, state) == Intent::Forward(remapped(key)->0));
}

/// While caps lock is up, no number was typed and no search waits, the remapper does not show:
/// every event of a key other than caps lock appears on the virtual keyboard as it is.
pub proof fn law_transparent(s: HandlerModel, key: Key, state: KeyState, order: Seq<Key>)
    requires
        !s.caps_held(),
        s.repeat == 0,
        s.find is None,
        key != KEY_CAPSLOCK,
    ensures
        s.reaction(key, state, order).actions == seq![Action::Emit(key, state)],
        s.reaction(key, state, order).next == (HandlerModel {
            real: with_event(s.real, key, state),
            virt: with_event(s.virt, key, state),
            after_meta_caps: false,
            ..s
        }),
        !s.reaction(key, state, order).killed,
        s.reaction(key, state, order).selection is None,
{
    let ready = s.noted(key, state).interrupted(key, state);
    assert(ready.intent(key, state) == Intent::Forward(key));
}

/// Caps with f1 stops the program, and nothing else does.
pub proof fn law_only_caps_f1_kills(s: HandlerModel, key: Key, state: KeyState, order: Seq<Key>)
    ensures
        s.reaction(key, state, order).killed <==> key == KEY_F1 && state == KeyState::Pressed
            && s.caps_held(),
{
}

/// Escape drops the number that was typed and the search that waits.
pub proof fn law_escape_resets(s: HandlerModel, order: Seq<Key>)
    ensures
        s.reaction(KEY_ESC, KeyState::Pressed, order).next.repeat == 0,
        s.reaction(KEY_ESC, KeyState::Pressed, order).next.find is None,
{
    law_caps_layer_table(KEY_ESC);
    crate::map::lemma_digit_keys(KEY_ESC);
}

/// After caps lock repeated `count` times.
pub open spec fn after_caps_repeats(s: HandlerModel, count: nat) -> HandlerModel
    decreases count,
{
    if count == 0 {
        s
    } else {
        after_caps_repeats(s, (count - 1) as nat).reaction(
            KEY_CAPSLOCK,
            KeyState::Repeat,
            seq![],
        ).next
    }
}

/// What repeats of caps lock leave as it is.
proof fn lemma_caps_repeats(s: HandlerModel, count: nat)
    ensures
        after_caps_repeats(s, count).real.contains(KEY_LEFTMETA) == s.real.contains(KEY_LEFTMETA),
        s.after_meta_caps ==> after_caps_repeats(s, count).after_meta_caps,
    decreases count,
{
    if count > 0 {
        lemma_caps_repeats(s, (count - 1) as nat);
    }
}

/// Pressing caps lock while meta is held and letting go of it, with nothing else in between,
/// toggles caps lock: it is clicked once, before what the layer held is let go of.
pub proof fn law_super_caps_toggles(s: HandlerModel, repeats: nat, order: Seq<Key>)
    requires
        s.real.contains(KEY_LEFTMETA),
    ensures
        ({
            let down = s.reaction(KEY_CAPSLOCK, KeyState::Pressed, order).next;
            let held = after_caps_repeats(down, repeats);
            held.reaction(KEY_CAPSLOCK, KeyState::Released, order).actions == seq![
                Action::Click(KEY_CAPSLOCK),
            ] + releases(held_among(remap_targets(), held.virt))
        }),
{
    let down = s.reaction(KEY_CAPSLOCK, KeyState::Pressed, order).next;
    lemma_caps_repeats(down, repeats);
}

/// A list of events: keys, their states, and the orders in which keys are let go of.
pub type Events = Seq<(Key, KeyState, Seq<Key>)>;

/// After all of `events`.
pub open spec fn after_events(s: HandlerModel, events: Events) -> HandlerModel
    decreases events.len(),
{
    if events.len() == 0 {
        s
    } else {
        let (key, state, order) = events.last();
        after_events(s, events.drop_last()).reaction(key, state, order).next
    }
}

/// None of `events` stops the program.
pub open spec fn survives(s: HandlerModel, events: Events) -> bool
    decreases events.len(),
{
    events.len() > 0 ==> {
        let (key, state, order) = events.last();
        survives(s, events.drop_last()) && !after_events(s, events.drop_last()).reaction(
            key,
            state,
            order,
        ).killed
    }
}

/// After events of other keys, no toggle of caps lock is pending.
proof fn lemma_others_disarm(s: HandlerModel, events: Events)
    requires
        survives(s, events),
        events.len() > 0,
        forall|i: int| 0 <= i < events.len() ==> (#[trigger] events[i]).0 != KEY_CAPSLOCK,
    ensures
        !after_events(s, events).after_meta_caps,
{
    assert(events.last() == events[events.len() - 1]);
}

/// If any other key was touched after caps lock was pressed or repeated last, letting go of
/// caps lock does not toggle it.
pub proof fn law_other_keys_prevent_toggle(s: HandlerModel, events: Events, order: Seq<Key>)
    requires
        survives(s, events),
        events.len() > 0,
        forall|i: int| 0 <= i < events.len() ==> (#[trigger] events[i]).0 != KEY_CAPSLOCK,
    ensures
        !after_events(s, events).reaction(
            KEY_CAPSLOCK,
            KeyState::Released,
            order,
        ).actions.contains(Action::Click(KEY_CAPSLOCK)),
{
    lemma_others_disarm(s, events);
    let after = after_events(s, events);
    let noted = after.noted(KEY_CAPSLOCK, KeyState::Released);
    let let_go = held_among(remap_targets(), noted.virt);
    let actions = after.reaction(KEY_CAPSLOCK, KeyState::Released, order).actions;
    assert(actions == releases(let_go));
    assert forall|i: int| 0 <= i < actions.len() implies actions[i] != Action::Click(
        KEY_CAPSLOCK,
    ) by {
        assert(actions[i] == Action::Emit(let_go[i], KeyState::Released));
    }
}

/// The digits of number keys.
pub open spec fn digits_of(keys: Seq<Key>) -> Seq<u8> {
    keys.map_values(|key: Key| digit_of(key)->0)
}

/// After presses of `keys`, one after the other.
pub open spec fn after_presses(s: HandlerModel, keys: Seq<Key>) -> HandlerModel
    decreases keys.len(),
{
    if keys.len() == 0 {
        s
    } else {
        after_presses(s, keys.drop_last()).reaction(keys.last(), KeyState::Pressed, seq![]).next
    }
}

/// A number key with caps shows nothing on the virtual keyboard, unless a search waits for it.
pub proof fn law_number_keys_are_silent(s: HandlerModel, key: Key, order: Seq<Key>)
    requires
        s.caps_held(),
        !seeks(s, key),
        digit_of(key) is Some,
    ensures
        s.reaction(key, KeyState::Pressed, order).actions == Seq::<Action>::empty(),
        s.reaction(key, KeyState::Pressed, order).next == (HandlerModel {
            real: s.real.insert(key),
            after_meta_caps: false,
            repeat: pushed(s.repeat, digit_of(key)->0),
            ..s
        }),
{
    crate::map::lemma_digit_keys(key);
    let ready = s.noted(key, KeyState::Pressed).interrupted(key, KeyState::Pressed);
    assert(ready.character(key) == s.noted(key, KeyState::Pressed).character(key));
    assert(ready.intent(key, KeyState::Pressed) == Intent::Count(digit_of(key)->0));
}

/// No press of a number key is taken for the character that a search waits for: none waits, or
/// a modifier is held that keeps keys from typing characters.
pub open spec fn free_to_count(s: HandlerModel) -> bool {
    ||| s.find is None
    ||| exists|held: Key| #[trigger]
        s.real.contains(held) && modifier_key(held) && !shift_key(held)
}

/// Caps with number keys types a number in base ten, up to the largest `u16`.
pub proof fn law_caps_numbers_count(s: HandlerModel, keys: Seq<Key>)
    requires
        s.caps_held(),
        free_to_count(s),
        s.repeat == 0,
        forall|i: int| 0 <= i < keys.len() ==> digit_of(#[trigger] keys[i]) is Some,
    ensures
        decimal(digits_of(keys)) <= u16::MAX ==> after_presses(s, keys).repeat == decimal(
            digits_of(keys),
        ),
        decimal(digits_of(keys)) > u16::MAX ==> after_presses(s, keys).repeat == u16::MAX,
        after_presses(s, keys).virt == s.virt,
        after_presses(s, keys).find == s.find,
        after_presses(s, keys).caps_held(),
{
    lemma_numbers(s, keys);
    law_digits_write_a_number(digits_of(keys));
}

proof fn lemma_numbers(s: HandlerModel, keys: Seq<Key>)
    requires
        s.caps_held(),
        free_to_count(s),
        s.repeat == 0,
        forall|i: int| 0 <= i < keys.len() ==> digit_of(#[trigger] keys[i]) is Some,
    ensures
        after_presses(s, keys).repeat == pushed_all(0, digits_of(keys)),
        after_presses(s, keys).virt == s.virt,
        after_presses(s, keys).find == s.find,
        s.real.subset_of(after_presses(s, keys).real),
    decreases keys.len(),
{
    if keys.len() > 0 {
        let rest = keys.drop_last();
        let before = after_presses(s, rest);
        assert forall|i: int| 0 <= i < rest.len() implies digit_of(#[trigger] rest[i]) is Some by {
            assert(rest[i] == keys[i]);
        }
        lemma_numbers(s, rest);
        assert(digit_of(keys[keys.len() - 1]) is Some);
        if s.find is Some {
            let held = choose|held: Key| #[trigger]
                s.real.contains(held) && modifier_key(held) && !shift_key(held);
            assert(before.noted(keys.last(), KeyState::Pressed).real.contains(held));
        }
        law_number_keys_are_silent(before, keys.last(), seq![]);
        assert(digits_of(keys).drop_last() == digits_of(rest));
        assert(digits_of(keys).last() == digit_of(keys.last())->0);
    }
}

/// The number of clicks of `key` in `actions`.
pub open spec fn click_count(actions: Seq<Action>, key: Key) -> nat
    decreases actions.len(),
{
    if actions.len() == 0 {
        0
    } else {
        click_count(actions.drop_last(), key) + if actions.last() == Action::Click(key) {
            1nat
        } else {
            0
        }
    }
}

/// The clicks that `clicks` lists are as many as it is asked for.
pub proof fn lemma_click_count(key: Key, count: nat)
    ensures
        click_count(clicks(key, count), key) == count,
    decreases count,
{
    if count > 0 {
        let before = clicks(key, (count - 1) as nat);
        let after = clicks(key, count);
        lemma_click_count(key, (count - 1) as nat);
        assert(after == before.push(Action::Click(key)).push(Action::Wait(TINY_WAIT)));
        assert(after.drop_last() == before.push(Action::Click(key)));
        assert(after.drop_last().drop_last() == before);
        assert(click_count(after.drop_last(), key) == count);
    }
}

/// After a number was typed, the next key is clicked just that often, and the number is
/// forgotten: any key but escape, caps lock and the modifiers while caps lock is up, and what
/// a key of the layer means while it is held. A search that waits for the key comes first.
pub proof fn law_number_repeats_key(s: HandlerModel, key: Key, order: Seq<Key>)
    requires
        s.repeat != 0,
        !seeks(s, key),
        if s.caps_held() {
            remapped(key) is Some
        } else {
            !modifier_key(key) && key != KEY_ESC && key != KEY_CAPSLOCK
        },
    ensures
        ({
            let reaction = s.reaction(key, KeyState::Pressed, order);
            let clicked = if s.caps_held() {
                remapped(key)->0
            } else {
                key
            };
            &&& reaction.actions == clicks(clicked, s.repeat as nat)
            &&& click_count(reaction.actions, clicked) == s.repeat
            &&& reaction.next.repeat == 0
        }),
{
    law_caps_layer_table(key);
    let ready = s.noted(key, KeyState::Pressed).interrupted(key, KeyState::Pressed);
    assert(ready.character(key) == s.noted(key, KeyState::Pressed).character(key));
    lemma_click_count(
        if s.caps_held() {
            remapped(key)->0
        } else {
            key
        },
        s.repeat as nat,
    );
}

/// Caps with f or d begins a search, unless one waits for that letter, and the next character that is pressed after the text
/// arrived ends it: the cursor goes just past the nearest occurrence that is not right next to
/// it, in as many clicks as that takes, and stays where it is if there is none.
pub proof fn law_search_moves_to_character(
    s: HandlerModel,
    direction: Direction,
    text: Seq<char>,
    key: Key,
    order: Seq<Key>,
    later: Seq<Key>,
)
    requires
        s.caps_held(),
        !seeks(
            s,
            if direction == Direction::Forward {
                KEY_F
            } else {
                KEY_D
            },
        ),
    ensures
        ({
            let start = if direction == Direction::Forward {
                KEY_F
            } else {
                KEY_D
            };
            let begun = s.reaction(start, KeyState::Pressed, order);
            let waiting = begun.next.selected(direction, Some(text));
            let find = FindModel { select: begun.next.shift_held(), direction, text };
            let reaction = waiting.reaction(key, KeyState::Pressed, later);
            &&& begun.selection == Some(direction)
            &&& begun.actions == select_script(direction, order)
            &&& waiting.find == Some(find)
            &&& waiting.noted(key, KeyState::Pressed).character(key) matches Some(c) ==> {
                &&& reaction.next.find is None
                &&& match steps_to(outwards(graphemes_of(text), direction), c) {
                    Some(steps) => reaction.actions == seek_script(
                        find,
                        if steps > u16::MAX {
                            u16::MAX as nat
                        } else {
                            steps
                        },
                        later,
                    ),
                    None => reaction.actions == Seq::<Action>::empty(),
                }
            }
        }),
{
    let start = if direction == Direction::Forward {
        KEY_F
    } else {
        KEY_D
    };
    law_caps_layer_table(start);
    crate::map::lemma_digit_keys(start);
    let begun = s.reaction(start, KeyState::Pressed, order);
    let ready = s.noted(start, KeyState::Pressed).interrupted(start, KeyState::Pressed);
    assert(ready.character(start) == s.noted(start, KeyState::Pressed).character(start));
    assert(ready.intent(start, KeyState::Pressed) == Intent::Select(direction));
    let waiting = begun.next.selected(direction, Some(text));
    let noted = waiting.noted(key, KeyState::Pressed);
    if noted.character(key) is Some {
        let later_ready = noted.interrupted(key, KeyState::Pressed);
        assert(key != KEY_ESC && key != KEY_F1 && key != KEY_CAPSLOCK);
        assert(later_ready.character(key) == noted.character(key));
        assert(later_ready.intent(key, KeyState::Pressed) == Intent::Seek(noted.character(key)->0));
    }
}

/// A search goes on waiting while keys are let go of, and while modifiers are pressed for the
/// character to look for.
pub proof fn law_search_waits(s: HandlerModel, key: Key, state: KeyState, order: Seq<Key>)
    requires
        key != KEY_CAPSLOCK,
        state != KeyState::Pressed || modifier_key(key),
    ensures
        s.reaction(key, state, order).next.find == s.find,
{
    law_caps_layer_table(key);
    crate::map::lemma_digit_keys(key);
}

/// The virtual keyboard has every key that it is asked to press, click or release, if it has
/// all keys of the real ones.
pub proof fn law_virtual_keyboard_has_the_keys(
    s: HandlerModel,
    key: Key,
    state: KeyState,
    order: Seq<Key>,
)
    requires
        keyboard_key(key),
        lists(order, s.virt),
        forall|k: Key| #[trigger] s.virt.contains(k) ==> keyboard_key(k),
    ensures
        forall|k: Key| #[trigger]
            s.reaction(key, state, order).next.virt.contains(k) ==> keyboard_key(k),
        forall|i: int|
            0 <= i < s.reaction(key, state, order).actions.len() ==> (touched_key(
                #[trigger] s.reaction(key, state, order).actions[i],
            ) matches Some(k) ==> keyboard_key(k)),
{
    let actions = s.reaction(key, state, order).actions;
    let noted = s.noted(key, state);
    law_caps_layer_table(key);
    assert forall|k: Key| order.contains(k) implies keyboard_key(k) by {
        assert(order.to_set().contains(k));
        assert(s.virt.contains(k));
    }
    assert forall|i: int| 0 <= i < actions.len() implies (touched_key(
        #[trigger] actions[i],
    ) matches Some(k) ==> keyboard_key(k)) by {
        if key == KEY_CAPSLOCK {
            let kept = |key: Key| noted.virt.contains(key);
            let keys = if state == KeyState::Pressed {
                remap_sources()
            } else {
                remap_targets()
            };
            let let_go = held_among(keys, noted.virt);
            assert forall|j: int| 0 <= j < let_go.len() implies keyboard_key(
                #[trigger] let_go[j],
            ) by {
                assert(let_go.contains(let_go[j]));
                crate::handler::lemma_filter_has(keys, kept, let_go[j]);
                assert(s.virt.contains(let_go[j]));
            }
        } else if !s.reaction(key, state, order).killed {
            let ready = noted.interrupted(key, state);
            match ready.intent(key, state) {
                Intent::Seek(c) => {
                    if let Some(steps) = seek_steps(ready.find->0, c) {
                        lemma_clicks_touch(ready.find->0.direction.step_key(), steps);
                        lemma_modifiers_are_keyboard_keys(order);
                        lemma_seek_touches(ready.find->0, steps, order, i);
                    }
                },
                Intent::Count(digit) => {},
                Intent::Select(direction) => {
                    lemma_modifiers_are_keyboard_keys(order);
                },
                Intent::Repeat(clicked) => {
                    lemma_clicks_touch(clicked, ready.repeat as nat);
                },
                Intent::Forward(shown) => {},
            }
        }
    }
}

/// What `clicks` touch.
proof fn lemma_clicks_touch(key: Key, count: nat)
    ensures
        forall|i: int|
            0 <= i < clicks(key, count).len() ==> {
                ||| (#[trigger] clicks(key, count)[i]) == Action::Click(key)
                ||| clicks(key, count)[i] == Action::Wait(TINY_WAIT)
            },
    decreases count,
{
    if count > 0 {
        lemma_clicks_touch(key, (count - 1) as nat);
    }
}

/// The modifiers of a list are keys of the virtual keyboard.
proof fn lemma_modifiers_are_keyboard_keys(order: Seq<Key>)
    ensures
        forall|i: int|
            0 <= i < modifiers_in(order).len() ==> keyboard_key(#[trigger] modifiers_in(order)[i]),
{
    assert forall|i: int| 0 <= i < modifiers_in(order).len() implies keyboard_key(
        #[trigger] modifiers_in(order)[i],
    ) by {
        crate::handler::lemma_filter_has(
            order,
            |key: Key| modifier_key(key),
            modifiers_in(order)[i],
        );
    }
}

/// What a move of the cursor touches.
proof fn lemma_seek_touches(find: FindModel, steps: nat, order: Seq<Key>, i: int)
    requires
        0 <= i < seek_script(find, steps, order).len(),
        forall|k: Key| order.contains(k) ==> keyboard_key(k),
    ensures
        touched_key(seek_script(find, steps, order)[i]) matches Some(k) ==> keyboard_key(k),
{
    let whole = seek_script(find, steps, order);
    lemma_clicks_touch(find.direction.step_key(), steps);
    lemma_modifiers_are_keyboard_keys(order);
    let last = presses(modifiers_in(order)).len();
    if i < order.len() {
        assert(whole[i] == Action::Emit(order[i], KeyState::Released));
        assert(order.contains(order[i]));
    } else if i >= whole.len() - last {
        let j = i - (whole.len() - last);
        assert(whole[i] == Action::Emit(modifiers_in(order)[j], KeyState::Pressed));
    }
}

/// Letting go of a modifier leaves neither of its buttons down.
pub proof fn law_modifier_is_let_go_of(modifier: Modifier, held: Set<Key>)
    ensures
        held_after_all(held, modifier.release_script()) == held.remove(modifier.left()).remove(
            modifier.right(),
        ),
{
    let script = modifier.release_script();
    reveal_with_fuel(held_after_all, 3);
    assert(script.drop_last().drop_last() == Seq::<Action>::empty());
    assert(script.drop_last().last() == script[0]);
}

/// A stroke leaves its key up, and the others as they were.
proof fn lemma_held_stroke(held: Set<Key>, key: Key)
    ensures
        held_after_all(held, stroke(key)) == held.remove(key),
{
    let script = stroke(key);
    reveal_with_fuel(held_after_all, 3);
    assert(script.drop_last().drop_last() == Seq::<Action>::empty());
    assert(script.drop_last().last() == script[0]);
    assert(held.insert(key).remove(key) == held.remove(key));
}

/// Reading the text of a line presses nothing that stays down, and leaves control and shift up.
pub proof fn law_reading_text_holds_nothing(direction: Direction, held: Set<Key>)
    ensures
        ({
            let after = held_after_all(held, get_text_script(direction));
            &&& after.subset_of(held)
            &&& !after.contains(Modifier::Ctrl.left()) && !after.contains(Modifier::Ctrl.right())
            &&& !after.contains(Modifier::Shift.left()) && !after.contains(Modifier::Shift.right())
        }),
{
    let none = Seq::<Action>::empty();
    let ctrl = Modifier::Ctrl.release_script();
    let down = seq![Action::Emit(KEY_LEFTSHIFT, KeyState::Pressed)];
    let line = stroke(direction.line_end_key());
    let read = seq![
        Action::Emit(KEY_LEFTSHIFT, KeyState::Released),
        Action::Wait(crate::action::SELECTION_WAIT),
        Action::ReadSelection,
    ];
    let shift = Modifier::Shift.release_script();
    let back = stroke(direction.return_key());
    let send = seq![Action::SendSelection];
    let a = held_after_all(held, ctrl);
    law_modifier_is_let_go_of(Modifier::Ctrl, held);
    reveal_with_fuel(held_after_all, 4);
    assert(down.drop_last() == none);
    let b = held_after_all(a, down);
    lemma_held_concat(held, ctrl, down);
    let c = held_after_all(b, line);
    lemma_held_stroke(b, direction.line_end_key());
    lemma_held_concat(held, ctrl + down, line);
    let d = held_after_all(c, line);
    lemma_held_stroke(c, direction.line_end_key());
    lemma_held_concat(held, ctrl + down + line, line);
    let e = held_after_all(d, read);
    assert(read.drop_last().drop_last().drop_last() == none);
    assert(read.drop_last().drop_last().last() == read[0]);
    assert(read.drop_last().last() == read[1]);
    assert(e == d.remove(KEY_LEFTSHIFT));
    lemma_held_concat(held, ctrl + down + line + line, read);
    let f = held_after_all(e, shift);
    law_modifier_is_let_go_of(Modifier::Shift, e);
    lemma_held_concat(held, ctrl + down + line + line + read, shift);
    let g = held_after_all(f, back);
    lemma_held_stroke(f, direction.return_key());
    lemma_held_concat(held, ctrl + down + line + line + read + shift, back);
    assert(send.drop_last() == none);
    assert(held_after_all(g, send) == g);
    lemma_held_concat(held, ctrl + down + line + line + read + shift + back, send);
}

/// The number of presses of `key` in `actions`.
pub open spec fn press_count(actions: Seq<Action>, key: Key) -> nat
    decreases actions.len(),
{
    if actions.len() == 0 {
        0
    } else {
        press_count(actions.drop_last(), key) + if actions.last() == Action::Emit(
            key,
            KeyState::Pressed,
        ) {
            1nat
        } else {
            0
        }
    }
}

/// Repeated strokes press their key as often as they are repeated.
pub proof fn law_strokes_press(key: Key, count: nat)
    ensures
        press_count(repeated(stroke(key), count), key) == count,
    decreases count,
{
    if count > 0 {
        let before = repeated(stroke(key), (count - 1) as nat);
        let after = repeated(stroke(key), count);
        law_strokes_press(key, (count - 1) as nat);
        assert(after.drop_last() == before.push(Action::Emit(key, KeyState::Pressed)));
        assert(after.drop_last().drop_last() == before);
        assert(press_count(after.drop_last(), key) == count);
    }
}

/// With the press that came first, a repeated key is pressed as often as the number says.
pub proof fn law_repeat_completes_the_number(button: Key, number: u16)
    requires
        crate::send::repeats(button, number),
    ensures
        1 + press_count(repeated(stroke(button), (number - 1) as nat), button) == number,
{
    law_strokes_press(button, (number - 1) as nat);
}

} // verus!
