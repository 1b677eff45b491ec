//! The remapper itself: from a key event of a real keyboard to what the virtual one does.

use std::collections::HashSet;
use vstd::prelude::*;

use crate::action::{clicks, presses, releases, with_event, Action, LONG_WAIT, TINY_WAIT};
use crate::find::Direction;
use crate::keys::{
    char_of, shift_key, to_char, Key, KeyState, KEY_CAPSLOCK, KEY_D, KEY_DOWN,
    KEY_END, KEY_ESC, KEY_F, KEY_F1, KEY_H, KEY_HOME, KEY_I, KEY_J, KEY_K, KEY_L, KEY_LEFT,
    KEY_LEFTALT, KEY_LEFTCTRL, KEY_LEFTMETA, KEY_LEFTSHIFT, KEY_RIGHT, KEY_RIGHTALT,
    KEY_RIGHTCTRL, KEY_RIGHTMETA, KEY_RIGHTSHIFT, KEY_SEMICOLON, KEY_UP,
};
use crate::map::{
    caps_remap, digit_of, law_caps_layer_table, number_key_to_digit, remap_sources, remap_targets,
    remapped,
};
use crate::modifiers::{is_modifier, modifier_key, Modifier};
use crate::num::{pushed, IncrementalU16};
use crate::search::{find_char, graphemes_of, outwards, steps_to};

verus! {

broadcast use vstd::std_specs::hash::group_hash_axioms;

/// Where to go after caps with d or f.
#[derive(Debug)]
pub struct Find {
    pub select: bool,
    pub direction: Direction,
    pub text: String,
}

/// A search that waits for the character to look for.
pub ghost struct FindModel {
    /// Whether to select what the cursor passes.
    pub select: bool,
    pub direction: Direction,
    /// The text between the cursor and the end of the line.
    pub text: Seq<char>,
}

impl View for Find {
    type V = FindModel;

    open spec fn view(&self) -> FindModel {
        FindModel { select: self.select, direction: self.direction, text: self.text@ }
    }
}

/// What the remapper remembers between two events.
pub ghost struct HandlerModel {
    /// The real keys that are pressed, those that the virtual keyboard does not show too.
    pub real: Set<Key>,
    /// The keys that were pressed on the virtual keyboard.
    pub virt: Set<Key>,
    /// Caps lock was pressed while meta was held, and nothing else happened since.
    pub after_meta_caps: bool,
    /// How often to repeat the next key; zero where no number was typed.
    pub repeat: u16,
    pub find: Option<FindModel>,
}

/// What an event leads to.
pub ghost enum Intent {
    /// Look for the character with the search that waits for one.
    Seek(char),
    /// Append a digit to the repeat count.
    Count(u8),
    /// Begin a search.
    Select(Direction),
    /// Click the key as often as was typed.
    Repeat(Key),
    /// Show the event on the virtual keyboard, as one of the given key.
    Forward(Key),
}

/// The outcome of an event.
pub ghost struct Reaction {
    pub next: HandlerModel,
    pub actions: Seq<Action>,
    /// The event was the one that stops the program.
    pub killed: bool,
    /// The selected text is wanted, for a search in this direction.
    pub selection: Option<Direction>,
}

impl HandlerModel {
    /// Nothing pressed, nothing typed.
    pub open spec fn initial() -> HandlerModel {
        HandlerModel {
            real: Set::empty(),
            virt: Set::empty(),
            after_meta_caps: false,
            repeat: 0,
            find: None,
        }
    }

    pub open spec fn caps_held(self) -> bool {
        self.real.contains(KEY_CAPSLOCK)
    }

    pub open spec fn shift_held(self) -> bool {
        exists|key: Key| #[trigger] self.real.contains(key) && shift_key(key)
    }

    /// The character that a press of `key` types: none while a modifier other than shift is
    /// held.
    pub open spec fn character(self, key: Key) -> Option<char> {
        if exists|held: Key| #[trigger]
            self.real.contains(held) && modifier_key(held) && !shift_key(held) {
            None
        } else {
            char_of(key, self.shift_held())
        }
    }

    /// With the event noted, before anything is decided.
    pub open spec fn noted(self, key: Key, state: KeyState) -> HandlerModel {
        HandlerModel { real: with_event(self.real, key, state), ..self }
    }

    /// After an event of any key but caps lock was noted: a toggle of caps lock is off the
    /// table, and escape drops the repeat count and the search.
    pub open spec fn interrupted(self, key: Key, state: KeyState) -> HandlerModel {
        let escaped = key == KEY_ESC && state == KeyState::Pressed;
        HandlerModel {
            after_meta_caps: false,
            repeat: if escaped { 0 } else { self.repeat },
            find: if escaped { None } else { self.find },
            ..self
        }
    }

    /// What an event of a key other than caps lock leads to, once it was noted.
    pub open spec fn intent(self, key: Key, state: KeyState) -> Intent {
        let press = state == KeyState::Pressed;
        if press && self.find is Some && self.character(key) is Some {
            Intent::Seek(self.character(key)->0)
        } else if self.caps_held() {
            if remapped(key) is Some {
                if press && self.repeat != 0 {
                    Intent::Repeat(remapped(key)->0)
                } else {
                    Intent::Forward(remapped(key)->0)
                }
            } else if press && digit_of(key) is Some {
                Intent::Count(digit_of(key)->0)
            } else if press && key == KEY_F {
                Intent::Select(Direction::Forward)
            } else if press && key == KEY_D {
                Intent::Select(Direction::Backward)
            } else {
                Intent::Forward(key)
            }
        } else if press && self.repeat != 0 && !modifier_key(key) {
            Intent::Repeat(key)
        } else {
            Intent::Forward(key)
        }
    }

    /// After one event on the virtual keyboard: pressing anything but a modifier ends a search.
    pub open spec fn emitted(self, key: Key, state: KeyState) -> HandlerModel {
        HandlerModel {
            virt: with_event(self.virt, key, state),
            find: if state == KeyState::Pressed && !modifier_key(key) {
                None
            } else {
                self.find
            },
            ..self
        }
    }

    /// After everything but the modifiers was let go of on the virtual keyboard, and a search
    /// has come to its end.
    pub open spec fn settled(self) -> HandlerModel {
        HandlerModel { virt: held_modifiers(self.virt), find: None, ..self }
    }

    /// What happens on an event of caps lock, once it was noted.
    pub open spec fn caps_reaction(self, state: KeyState) -> Reaction {
        let meta = self.real.contains(KEY_LEFTMETA);
        let toggles = meta && state == KeyState::Released && self.after_meta_caps;
        let let_go = match state {
            KeyState::Pressed => held_among(remap_sources(), self.virt),
            KeyState::Repeat => seq![],
            KeyState::Released => held_among(remap_targets(), self.virt),
        };
        Reaction {
            next: HandlerModel {
                virt: self.virt.difference(let_go.to_set()),
                after_meta_caps: self.after_meta_caps || (meta && state != KeyState::Released),
                find: if toggles { None } else { self.find },
                ..self
            },
            actions: (if toggles { seq![Action::Click(KEY_CAPSLOCK)] } else { seq![] })
                + releases(let_go),
            killed: false,
            selection: None,
        }
    }

    /// What happens for `intent`. `order` is the order in which the keys of the virtual keyboard
    /// are let go of, where they are.
    pub open spec fn performed(
        self,
        intent: Intent,
        state: KeyState,
        order: Seq<Key>,
    ) -> Reaction {
        match intent {
            Intent::Seek(c) => match seek_steps(self.find->0, c) {
                Some(steps) => Reaction {
                    next: self.settled(),
                    actions: seek_script(self.find->0, steps, order),
                    killed: false,
                    selection: None,
                },
                None => Reaction {
                    next: HandlerModel { find: None, ..self },
                    actions: seq![],
                    killed: false,
                    selection: None,
                },
            },
            Intent::Count(digit) => Reaction {
                next: HandlerModel { repeat: pushed(self.repeat, digit), ..self },
                actions: seq![],
                killed: false,
                selection: None,
            },
            Intent::Select(direction) => Reaction {
                next: self.settled(),
                actions: select_script(direction, order),
                killed: false,
                selection: Some(direction),
            },
            Intent::Repeat(key) => Reaction {
                next: HandlerModel { repeat: 0, find: None, ..self },
                actions: clicks(key, self.repeat as nat),
                killed: false,
                selection: None,
            },
            Intent::Forward(key) => Reaction {
                next: self.emitted(key, state),
                actions: seq![Action::Emit(key, state)],
                killed: false,
                selection: None,
            },
        }
    }

    /// What an event leads to.
    pub open spec fn reaction(
        self,
        key: Key,
        state: KeyState,
        order: Seq<Key>,
    ) -> Reaction {
        let noted = self.noted(key, state);
        if key == KEY_F1 && state == KeyState::Pressed && noted.caps_held() {
            Reaction { next: noted, actions: seq![], killed: true, selection: None }
        } else if key == KEY_CAPSLOCK {
            noted.caps_reaction(state)
        } else {
            let ready = noted.interrupted(key, state);
            ready.performed(ready.intent(key, state), state, order)
        }
    }

    /// After the text for a search in `direction` arrived, or failed to.
    pub open spec fn selected(self, direction: Direction, text: Option<Seq<char>>) -> HandlerModel {
        match text {
            Some(text) => HandlerModel {
                find: Some(FindModel { select: self.shift_held(), direction, text }),
                ..self
            },
            None => self,
        }
    }
}

/// The modifiers among `keys`.
pub open spec fn held_modifiers(keys: Set<Key>) -> Set<Key> {
    keys.filter(|key: Key| modifier_key(key))
}

/// The modifiers among `keys`, in their order.
pub open spec fn modifiers_in(keys: Seq<Key>) -> Seq<Key> {
    keys.filter(|key: Key| modifier_key(key))
}

/// Those of `keys` that are in `held`, in their order.
pub open spec fn held_among(keys: Seq<Key>, held: Set<Key>) -> Seq<Key> {
    keys.filter(|key: Key| held.contains(key))
}

/// `order` lists each key of `keys` once.
pub open spec fn lists(order: Seq<Key>, keys: Set<Key>) -> bool {
    order.no_duplicates() && order.to_set() == keys
}

/// How often the cursor key is clicked to get past `c`.
pub open spec fn seek_steps(find: FindModel, c: char) -> Option<nat> {
    match steps_to(outwards(graphemes_of(find.text), find.direction), c) {
        Some(steps) => Some(if steps > u16::MAX { u16::MAX as nat } else { steps }),
        None => None,
    }
}

/// The actions that move the cursor by `steps`: everything is let go of, and the modifiers are
/// pressed again afterwards.
pub open spec fn seek_script(find: FindModel, steps: nat, order: Seq<Key>) -> Seq<Action> {
    let motion = seq![Action::Wait(TINY_WAIT)] + clicks(find.direction.step_key(), steps);
    let selecting = if find.select {
        seq![Action::Wait(TINY_WAIT), Action::Emit(KEY_LEFTSHIFT, KeyState::Pressed)] + motion
            + seq![Action::Wait(TINY_WAIT), Action::Emit(KEY_LEFTSHIFT, KeyState::Released)]
    } else {
        motion
    };
    releases(order) + selecting + presses(modifiers_in(order))
}

/// The actions that select the text up to the end of the line and put the cursor back:
/// everything is let go of, and the modifiers are pressed again afterwards.
pub open spec fn select_script(direction: Direction, order: Seq<Key>) -> Seq<Action> {
    releases(order) + seq![
        Action::Wait(LONG_WAIT),
        Action::Emit(KEY_LEFTSHIFT, KeyState::Pressed),
        Action::Wait(LONG_WAIT),
        Action::Click(direction.line_end_key()),
        Action::Wait(LONG_WAIT),
        Action::Click(direction.line_end_key()),
        Action::Wait(LONG_WAIT),
        Action::Emit(KEY_LEFTSHIFT, KeyState::Released),
        Action::Wait(LONG_WAIT),
        Action::Click(direction.return_key()),
        Action::Wait(LONG_WAIT),
    ] + presses(modifiers_in(order))
}

/// The keys of a set can be listed.
proof fn lemma_listing_exists(keys: &HashSet<Key>)
    ensures
        exists|order: Seq<Key>| lists(order, keys@),
{
    let walked = vstd::std_specs::iter::IteratorSpec::remaining(&keys.iter());
    assert forall|i: int, j: int|
        0 <= i < j < walked.len() implies walked.unref()[i] != walked.unref()[j] by {
        assert(walked[i] != walked[j]);
    }
    assert(lists(walked.unref(), keys@));
}

/// The part of a filtered sequence that one more element adds.
proof fn lemma_filter_next(keys: Seq<Key>, kept: spec_fn(Key) -> bool, i: int)
    requires
        0 <= i < keys.len(),
    ensures
        keys.take(i + 1).filter(kept) == if kept(keys[i]) {
            keys.take(i).filter(kept).push(keys[i])
        } else {
            keys.take(i).filter(kept)
        },
{
    reveal(Seq::filter);
    assert(keys.take(i + 1).drop_last() == keys.take(i));
}

/// A key is in a filtered sequence if it is in the sequence and passes the filter.
pub proof fn lemma_filter_has(keys: Seq<Key>, kept: spec_fn(Key) -> bool, key: Key)
    ensures
        keys.filter(kept).contains(key) <==> keys.contains(key) && kept(key),
    decreases keys.len(),
{
    reveal(Seq::filter);
    if keys.len() > 0 {
        let rest = keys.drop_last();
        lemma_filter_has(rest, kept, key);
        assert(keys == rest.push(keys.last()));
        if keys.contains(key) {
            let i = choose|i: int| 0 <= i < keys.len() && keys[i] == key;
            if i < rest.len() {
                assert(rest[i] == key);
            }
        }
        if rest.contains(key) {
            let i = choose|i: int| 0 <= i < rest.len() && rest[i] == key;
            assert(keys[i] == key);
        }
        let before = rest.filter(kept);
        let after = keys.filter(kept);
        if kept(keys.last()) {
            assert(after == before.push(keys.last()));
            assert(after[before.len() as int] == keys.last());
            if before.contains(key) {
                let i = choose|i: int| 0 <= i < before.len() && before[i] == key;
                assert(after[i] == key);
            }
            if after.contains(key) && key != keys.last() {
                let i = choose|i: int| 0 <= i < after.len() && after[i] == key;
                assert(before[i] == key);
            }
        }
        assert(keys[keys.len() - 1] == keys.last());
    }
}

/// The modifiers of a list are the modifiers of what it lists.
pub proof fn lemma_modifiers_listed(order: Seq<Key>)
    ensures
        modifiers_in(order).to_set() == held_modifiers(order.to_set()),
{
    assert forall|key: Key|
        modifiers_in(order).to_set().contains(key) <==> held_modifiers(order.to_set()).contains(
            key,
        ) by {
        lemma_filter_has(order, |key: Key| modifier_key(key), key);
    }
}

/// All that is kept by the filter for modifiers is a modifier.
pub proof fn lemma_all_modifiers(order: Seq<Key>)
    ensures
        forall|i: int|
            0 <= i < modifiers_in(order).len() ==> modifier_key(#[trigger] modifiers_in(order)[i]),
{
    assert forall|i: int| 0 <= i < modifiers_in(order).len() implies modifier_key(
        #[trigger] modifiers_in(order)[i],
    ) by {
        lemma_filter_has(order, |key: Key| modifier_key(key), modifiers_in(order)[i]);
    }
}

/// Whether the handler ended up in `after` and returned `r` as `reaction` says.
pub open spec fn answers(
    reaction: Reaction,
    after: HandlerModel,
    r: Result<Response, Killed>,
) -> bool {
    &&& after == reaction.next
    &&& match r {
        Ok(response) => !reaction.killed && response.actions@ == reaction.actions
            && response.selection == reaction.selection,
        Err(_) => reaction.killed,
    }
}

/// Adds or removes `key`, as `state` says.
fn set_pressed(keys: &mut HashSet<Key>, key: Key, state: KeyState)
    ensures
        final(keys)@ == with_event(old(keys)@, key, state),
{
    match state {
        KeyState::Released => {
            keys.remove(&key);
        },
        KeyState::Pressed | KeyState::Repeat => {
            keys.insert(key);
        },
    }
}

/// What to do after an event.
#[derive(Debug)]
pub struct Response {
    /// What to do, in order.
    pub actions: Vec<Action>,
    /// After that, read the selected text, and pass it with this direction to
    /// [`KbEventHandler::provide_selection`].
    pub selection: Option<Direction>,
}

/// The user pressed caps with f1 to stop the program.
#[derive(Debug, Clone, Copy, PartialEq, Eq, Structural)]
pub struct Killed;

/// The remapper: takes the key events of all real keyboards, one after the other.
#[derive(Debug)]
pub struct KbEventHandler {
    /// All real keys that are currently pressed, including blocked ones.
    real_keys_pressed: HashSet<Key>,
    virtual_keys_pressed: HashSet<Key>,
    immediately_after_meta_caps: bool,
    /// Number of times to repeat the next pressed key. Zero means that no number was typed.
    repeat: IncrementalU16,
    find: Option<Find>,
}

impl View for KbEventHandler {
    type V = HandlerModel;

    closed spec fn view(&self) -> HandlerModel {
        HandlerModel {
            real: self.real_keys_pressed@,
            virt: self.virtual_keys_pressed@,
            after_meta_caps: self.immediately_after_meta_caps,
            repeat: self.repeat@,
            find: match self.find {
                Some(find) => Some(find@),
                None => None,
            },
        }
    }
}

impl KbEventHandler {
    /// A remapper that has seen no event.
    pub fn new() -> (r: Self)
        ensures
            r@ == HandlerModel::initial(),
    {
        KbEventHandler {
            real_keys_pressed: HashSet::new(),
            virtual_keys_pressed: HashSet::new(),
            immediately_after_meta_caps: false,
            repeat: IncrementalU16::new(),
            find: None,
        }
    }

    /// Writes one event to the virtual keyboard.
    fn emit(&mut self, actions: &mut Vec<Action>, key: Key, state: KeyState)
        ensures
            final(self)@ == old(self)@.emitted(key, state),
            final(actions)@ == old(actions)@.push(Action::Emit(key, state)),
    {
        actions.push(Action::Emit(key, state));
        set_pressed(&mut self.virtual_keys_pressed, key, state);
        if state == KeyState::Pressed && !is_modifier(key) {
            self.find = None;
        }
    }

    fn press(&mut self, actions: &mut Vec<Action>, key: Key)
        ensures
            final(self)@ == old(self)@.emitted(key, KeyState::Pressed),
            final(actions)@ == old(actions)@.push(Action::Emit(key, KeyState::Pressed)),
    {
        self.emit(actions, key, KeyState::Pressed);
    }

    fn release(&mut self, actions: &mut Vec<Action>, key: Key)
        ensures
            final(self)@ == old(self)@.emitted(key, KeyState::Released),
            final(actions)@ == old(actions)@.push(Action::Emit(key, KeyState::Released)),
    {
        self.emit(actions, key, KeyState::Released);
    }

    /// Clicks `key`, which ends a search unless it is a modifier.
    fn click(&mut self, actions: &mut Vec<Action>, key: Key)
        ensures
            final(self)@ == (HandlerModel {
                find: if modifier_key(key) {
                    old(self)@.find
                } else {
                    None
                },
                ..old(self)@
            }),
            final(actions)@ == old(actions)@.push(Action::Click(key)),
    {
        actions.push(Action::Click(key));
        if !is_modifier(key) {
            self.find = None;
        }
    }

    /// Clicks `key` several times. The waits in between make the clicks consistent, and hold
    /// back what is typed meanwhile until all of them are done.
    fn click_repeat(&mut self, actions: &mut Vec<Action>, key: Key, repeat: u16)
        ensures
            final(self)@ == (HandlerModel {
                find: if modifier_key(key) || repeat == 0 {
                    old(self)@.find
                } else {
                    None
                },
                ..old(self)@
            }),
            final(actions)@ == old(actions)@ + clicks(key, repeat as nat),
    {
        let mut done: u16 = 0;
        while done < repeat
            invariant
                done <= repeat,
                actions@ == old(actions)@ + clicks(key, done as nat),
                self@ == (HandlerModel {
                    find: if modifier_key(key) || done == 0 {
                        old(self)@.find
                    } else {
                        None
                    },
                    ..old(self)@
                }),
            decreases repeat - done,
        {
            self.click(actions, key);
            actions.push(Action::Wait(TINY_WAIT));
            done = done + 1;
        }
    }

    /// Releases every key of the virtual keyboard. Returns the modifiers that were pressed:
    /// they should probably be pressed again after any virtual actions.
    fn release_all_virtual(&mut self, actions: &mut Vec<Action>) -> (modifiers: Vec<Key>)
        ensures
            final(self)@ == (HandlerModel { virt: Set::empty(), ..old(self)@ }),
            exists|order: Seq<Key>| #[trigger]
                lists(order, old(self)@.virt) && final(actions)@ == old(actions)@ + releases(order)
                    && modifiers@ == modifiers_in(order),
    {
        let ghost start = actions@;
        let mut modifiers: Vec<Key> = Vec::new();
        assert(modifiers_in(Seq::<Key>::empty()) == Seq::<Key>::empty()) by {
            reveal(Seq::filter);
        }
        let ghost mut order: Seq<Key> = seq![];
        for key in it: self.virtual_keys_pressed.iter()
            invariant
                order == it.seq().unref().take(it.index() as int),
                it.seq().unref().to_set() == self.virtual_keys_pressed@,
                it.seq().no_duplicates(),
                it.index() == it.seq().len() ==> order == it.seq().unref(),
                order.no_duplicates(),
                actions@ == start + releases(order),
                modifiers@ == modifiers_in(order),
        {
            actions.push(Action::Emit(*key, KeyState::Released));
            proof {
                let longer = order.push(*key);
                assert(releases(longer) == releases(order).push(
                    Action::Emit(*key, KeyState::Released),
                ));
                lemma_filter_next(longer, |key: Key| modifier_key(key), order.len() as int);
                assert(longer.take(order.len() as int) == order);
                assert(longer.take(longer.len() as int) == longer);
                order = longer;
                let keys = it.seq().unref();
                assert forall|i: int, j: int|
                    0 <= i < j < keys.len() implies keys[i] != keys[j] by {
                    assert(it.seq()[i] != it.seq()[j]);
                }
                assert(keys.take(keys.len() as int) == keys);
            }
            if is_modifier(*key) {
                modifiers.push(*key);
            }
        }
        assert(lists(order, old(self)@.virt));
        self.virtual_keys_pressed.clear();
        modifiers
    }

    /// Presses `modifiers`, in that order.
    fn press_all(&mut self, actions: &mut Vec<Action>, modifiers: &Vec<Key>)
        requires
            old(self)@.virt == Set::<Key>::empty(),
            forall|i: int| 0 <= i < modifiers@.len() ==> modifier_key(#[trigger] modifiers@[i]),
        ensures
            final(self)@ == (HandlerModel { virt: modifiers@.to_set(), ..old(self)@ }),
            final(actions)@ == old(actions)@ + presses(modifiers@),
    {
        let mut done: usize = 0;
        assert(modifiers@.take(0).to_set() == Set::<Key>::empty());
        while done < modifiers.len()
            invariant
                done <= modifiers@.len(),
                forall|i: int| 0 <= i < modifiers@.len() ==> modifier_key(#[trigger] modifiers@[i]),
                actions@ == old(actions)@ + presses(modifiers@.take(done as int)),
                self@ == (HandlerModel {
                    virt: modifiers@.take(done as int).to_set(),
                    ..old(self)@
                }),
            decreases modifiers@.len() - done,
        {
            let ghost before = modifiers@.take(done as int);
            let key: Key = modifiers[done];
            self.press(actions, key);
            done = done + 1;
            proof {
                let after = modifiers@.take(done as int);
                assert(after == before.push(key));
                assert(presses(after) == presses(before).push(
                    Action::Emit(key, KeyState::Pressed),
                ));
                before.lemma_push_to_set_commute(key);
            }
        }
        assert(modifiers@.take(modifiers@.len() as int) == modifiers@);
    }

    /// Releases those of `keys` that the virtual keyboard holds.
    fn release_held(&mut self, actions: &mut Vec<Action>, keys: &[Key])
        requires
            keys@.no_duplicates(),
        ensures
            final(self)@ == (HandlerModel {
                virt: old(self)@.virt.difference(held_among(keys@, old(self)@.virt).to_set()),
                ..old(self)@
            }),
            final(actions)@ == old(actions)@ + releases(held_among(keys@, old(self)@.virt)),
    {
        let ghost held = self@.virt;
        let ghost start = *self;
        let ghost kept = |key: Key| held.contains(key);
        let ghost mut let_go = held_among(keys@.take(0), held);
        proof {
            reveal(Seq::filter);
            assert(let_go == Seq::<Key>::empty());
            assert(held.difference(let_go.to_set()) == held);
        }
        let mut done: usize = 0;
        while done < keys.len()
            invariant
                done <= keys@.len(),
                keys@.no_duplicates(),
                held == start@.virt,
                kept == (|key: Key| held.contains(key)),
                let_go == held_among(keys@.take(done as int), held),
                actions@ == old(actions)@ + releases(let_go),
                self@ == (HandlerModel { virt: held.difference(let_go.to_set()), ..start@ }),
            decreases keys@.len() - done,
        {
            let key: Key = keys[done];
            proof {
                lemma_filter_next(keys@, kept, done as int);
                lemma_filter_has(keys@.take(done as int), kept, key);
                let_go.lemma_push_to_set_commute(key);
                assert(releases(let_go.push(key)) == releases(let_go).push(
                    Action::Emit(key, KeyState::Released),
                ));
                assert(held.difference(let_go.push(key).to_set()) == held.difference(
                    let_go.to_set(),
                ).remove(key));
                let_go = held_among(keys@.take(done + 1), held);
            }
            if self.virtual_keys_pressed.contains(&key) {
                self.release(actions, key);
            }
            done = done + 1;
        }
        assert(keys@.take(keys@.len() as int) == keys@);
    }

    fn caps_pressed(&self) -> (r: bool)
        ensures
            r == self@.caps_held(),
    {
        self.real_keys_pressed.contains(&KEY_CAPSLOCK)
    }

    fn shift_pressed(&self) -> (r: bool)
        ensures
            r == self@.shift_held(),
    {
        let held: bool = Modifier::Shift.is_pressed(&self.real_keys_pressed);
        assert(held == (self@.real.contains(KEY_LEFTSHIFT) || self@.real.contains(
            KEY_RIGHTSHIFT,
        )));
        held
    }

    /// Maps the pressed key to a character, taking currently held modifiers into account.
    fn pressed_to_char(&self, key: Key) -> (r: Option<char>)
        ensures
            r == self@.character(key),
    {
        let pressing_other_modifier: bool = Modifier::Ctrl.is_pressed(&self.real_keys_pressed)
            || Modifier::Alt.is_pressed(&self.real_keys_pressed) || Modifier::Super.is_pressed(
            &self.real_keys_pressed,
        );
        assert(pressing_other_modifier == (self@.real.contains(KEY_LEFTCTRL)
            || self@.real.contains(KEY_RIGHTCTRL) || self@.real.contains(KEY_LEFTALT)
            || self@.real.contains(KEY_RIGHTALT) || self@.real.contains(KEY_LEFTMETA)
            || self@.real.contains(KEY_RIGHTMETA)));
        if pressing_other_modifier {
            return None;
        }
        to_char(key, self.shift_pressed())
    }

    /// Handles an event of caps lock, once it was noted.
    fn handle_caps(&mut self, actions: &mut Vec<Action>, state: KeyState)
        ensures
            final(self)@ == old(self)@.caps_reaction(state).next,
            final(actions)@ == old(actions)@ + old(self)@.caps_reaction(state).actions,
    {
        let ghost start = *self;
        // if press meta -> caps -> release caps, then actually toggle capslock
        if self.real_keys_pressed.contains(&KEY_LEFTMETA) {
            match state {
                KeyState::Pressed | KeyState::Repeat => {
                    self.immediately_after_meta_caps = true;
                },
                KeyState::Released => {
                    if self.immediately_after_meta_caps {
                        self.click(actions, KEY_CAPSLOCK);
                    }
                },
            }
        }
        match state {
            KeyState::Pressed => {
                // Press J -> caps, release J and start mapping to left
                let sources: [Key; 6] = [KEY_I, KEY_J, KEY_L, KEY_K, KEY_H, KEY_SEMICOLON];
                assert(sources@ == remap_sources());
                self.release_held(actions, &sources);
            },
            KeyState::Repeat => {
                assert(start@.virt.difference(Seq::<Key>::empty().to_set()) == start@.virt);
                assert(releases(seq![]) == Seq::<Action>::empty());
            },
            KeyState::Released => {
                // press caps -> J -> release caps, then release what J was mapped to
                let targets: [Key; 6] = [
                    KEY_UP,
                    KEY_LEFT,
                    KEY_RIGHT,
                    KEY_DOWN,
                    KEY_HOME,
                    KEY_END,
                ];
                assert(targets@ == remap_targets());
                self.release_held(actions, &targets);
            },
        }
    }

    /// Moves to `c` with the search that waits for a character, and ends that search.
    fn seek(&mut self, actions: &mut Vec<Action>, c: char)
        requires
            old(self)@.find is Some,
            old(actions)@ == Seq::<Action>::empty(),
        ensures
            exists|order: Seq<Key>| #[trigger]
                lists(order, old(self)@.virt) && ({
                    let done = old(self)@.performed(Intent::Seek(c), KeyState::Pressed, order);
                    final(self)@ == done.next && final(actions)@ == done.actions
                }),
    {
        let ghost before = self@;
        proof {
            lemma_listing_exists(&self.virtual_keys_pressed);
        }
        if let Some(find) = self.find.take() {
            if let Some(amount) = find_char(find.text.as_str(), c, find.direction) {
                let steps: u16 = if amount > 65535 {
                    u16::MAX
                } else {
                    amount as u16
                };
                let modifiers: Vec<Key> = self.release_all_virtual(actions);
                let ghost order = choose|order: Seq<Key>| #[trigger]
                    lists(order, before.virt) && actions@ == Seq::<Action>::empty() + releases(
                        order,
                    ) && modifiers@ == modifiers_in(order);
                if find.select {
                    actions.push(Action::Wait(TINY_WAIT));
                    self.press(actions, KEY_LEFTSHIFT);
                }
                actions.push(Action::Wait(TINY_WAIT));
                self.click_repeat(actions, find.direction.step(), steps);
                if find.select {
                    actions.push(Action::Wait(TINY_WAIT));
                    self.release(actions, KEY_LEFTSHIFT);
                }
                proof {
                    lemma_modifiers_listed(order);
                    lemma_all_modifiers(order);
                    assert(self@.virt == Set::<Key>::empty());
                }
                // press again any modifiers that were held down before
                self.press_all(actions, &modifiers);
                assert(actions@ == seek_script(find@, steps as nat, order));
            }
        }
    }

    /// Selects the text up to the end of the line, and puts the cursor back.
    fn select(&mut self, actions: &mut Vec<Action>, direction: Direction)
        requires
            old(actions)@ == Seq::<Action>::empty(),
        ensures
            final(self)@ == old(self)@.settled(),
            exists|order: Seq<Key>| #[trigger]
                lists(order, old(self)@.virt) && final(actions)@ == select_script(direction, order),
    {
        let ghost before = self@;
        let modifiers: Vec<Key> = self.release_all_virtual(actions);
        let ghost order = choose|order: Seq<Key>| #[trigger]
            lists(order, before.virt) && actions@ == Seq::<Action>::empty() + releases(order)
                && modifiers@ == modifiers_in(order);
        actions.push(Action::Wait(LONG_WAIT));
        self.press(actions, KEY_LEFTSHIFT);
        actions.push(Action::Wait(LONG_WAIT));
        self.click(actions, direction.line_end());
        actions.push(Action::Wait(LONG_WAIT));
        self.click(actions, direction.line_end());
        actions.push(Action::Wait(LONG_WAIT));
        self.release(actions, KEY_LEFTSHIFT);
        actions.push(Action::Wait(LONG_WAIT));
        self.click(actions, direction.undo_selection());
        actions.push(Action::Wait(LONG_WAIT));
        proof {
            lemma_modifiers_listed(order);
            lemma_all_modifiers(order);
            assert(self@.virt == Set::<Key>::empty());
        }
        self.press_all(actions, &modifiers);
        assert(actions@ == select_script(direction, order));
    }

    /// Handles one key event of a real keyboard.
    pub fn handle_event(&mut self, key: Key, state: KeyState) -> (r: Result<Response, Killed>)
        ensures
            exists|order: Seq<Key>| #[trigger]
                lists(order, old(self)@.virt) && answers(
                    old(self)@.reaction(key, state, order),
                    final(self)@,
                    r,
                ),
    {
        proof {
            lemma_listing_exists(&self.virtual_keys_pressed);
        }
        let ghost before = self@;
        let mut actions: Vec<Action> = Vec::new();
        set_pressed(&mut self.real_keys_pressed, key, state);
        if key == KEY_F1 && state == KeyState::Pressed && self.caps_pressed() {
            return Err(Killed);
        }
        if key == KEY_CAPSLOCK {
            self.handle_caps(&mut actions, state);
            return Ok(Response { actions, selection: None });
        }
        self.immediately_after_meta_caps = false;
        if key == KEY_ESC && state == KeyState::Pressed {
            self.repeat.clear();
            self.find = None;
        }
        let ghost ready = self@;
        assert(ready == before.noted(key, state).interrupted(key, state));
        // Move to a character after caps+f/d was pressed.
        if state == KeyState::Pressed && self.find.is_some() {
            if let Some(c) = self.pressed_to_char(key) {
                assert(ready.intent(key, state) == Intent::Seek(c));
                self.seek(&mut actions, c);
                return Ok(Response { actions, selection: None });
            }
        }
        if self.caps_pressed() {
            // mappings while caps lock is pressed
            if let Some(mapped) = caps_remap(key) {
                proof {
                    law_caps_layer_table(key);
                }
                if self.repeat.value() != 0 && state == KeyState::Pressed {
                    let repeat: u16 = self.repeat.value();
                    self.click_repeat(&mut actions, mapped, repeat);
                    self.repeat.clear();
                } else {
                    self.emit(&mut actions, mapped, state);
                }
                return Ok(Response { actions, selection: None });
            }
            if state == KeyState::Pressed {
                if let Some(digit) = number_key_to_digit(key) {
                    self.repeat.push_digit(digit);
                    return Ok(Response { actions, selection: None });
                }
                if key == KEY_F || key == KEY_D {
                    let direction: Direction = if key == KEY_F {
                        Direction::Forward
                    } else {
                        Direction::Backward
                    };
                    assert(ready.intent(key, state) == Intent::Select(direction));
                    self.select(&mut actions, direction);
                    return Ok(Response { actions, selection: Some(direction) });
                }
            }
        } else if self.repeat.value() != 0 && state == KeyState::Pressed && !is_modifier(key) {
            let repeat: u16 = self.repeat.value();
            self.click_repeat(&mut actions, key, repeat);
            self.repeat.clear();
            return Ok(Response { actions, selection: None });
        }
        // pass through the event as usual
        assert(ready.intent(key, state) == Intent::Forward(key));
        self.emit(&mut actions, key, state);
        Ok(Response { actions, selection: None })
    }

    /// Takes the selected text that a response asked for, if it could be read, and waits for
    /// the character to look for in it. Shift at this time decides whether to select.
    pub fn provide_selection(&mut self, direction: Direction, text: Option<String>)
        ensures
            final(self)@ == old(self)@.selected(
                direction,
                match text {
                    Some(text) => Some(text@),
                    None => None,
                },
            ),
    {
        if let Some(text) = text {
            let select: bool = self.shift_pressed();
            self.find = Some(Find { select, direction, text });
        }
    }
}

} // verus!
