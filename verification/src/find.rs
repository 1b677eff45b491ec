//! Selecting the text around the cursor, and moving to a character in it.

use vstd::prelude::*;

use crate::action::{repeated, Action, SELECTION_WAIT};
use crate::keys::{
    Key, KeyState, KEY_END, KEY_HOME, KEY_LEFT, KEY_LEFTSHIFT, KEY_RIGHT,
};
use crate::modifiers::Modifier;
use crate::search::{
    characters_of, law_steps_lead_to_nearest, lemma_reaches_none, lemma_reaches_unique, nearest_at,
    outwards, stands_at, steps_to,
};
use crate::send::{click, press, release, stroke};

verus! {

/// Where to look, seen from the cursor.
#[derive(Debug, PartialEq, Eq, Clone, Copy, Structural)]
pub enum Direction {
    Forward,
    Backward,
}

impl Direction {
    /// The key that moves the cursor to the end of the line in this direction.
    pub open spec fn line_end_key(self) -> Key {
        match self {
            Direction::Forward => KEY_END,
            Direction::Backward => KEY_HOME,
        }
    }

    /// The key that moves the cursor by one character in this direction.
    pub open spec fn step_key(self) -> Key {
        match self {
            Direction::Forward => KEY_RIGHT,
            Direction::Backward => KEY_LEFT,
        }
    }

    /// The key that collapses a selection made in this direction to where it began.
    pub open spec fn return_key(self) -> Key {
        match self {
            Direction::Forward => KEY_LEFT,
            Direction::Backward => KEY_RIGHT,
        }
    }

    /// The key that moves the cursor to the end of the line in this direction.
    pub fn line_end(self) -> (r: Key)
        ensures
            r == self.line_end_key(),
    {
        match self {
            Direction::Forward => KEY_END,
            Direction::Backward => KEY_HOME,
        }
    }

    /// The key that moves the cursor by one character in this direction.
    pub fn step(self) -> (r: Key)
        ensures
            r == self.step_key(),
    {
        match self {
            Direction::Forward => KEY_RIGHT,
            Direction::Backward => KEY_LEFT,
        }
    }

    /// The key that collapses a selection made in this direction to where it began.
    pub fn undo_selection(self) -> (r: Key)
        ensures
            r == self.return_key(),
    {
        match self {
            Direction::Forward => KEY_LEFT,
            Direction::Backward => KEY_RIGHT,
        }
    }
}

/// A text that was asked for and arrives once it has been read off the screen.
#[derive(Debug)]
pub struct Selection(Option<String>);

impl View for Selection {
    type V = Option<Seq<char>>;

    closed spec fn view(&self) -> Option<Seq<char>> {
        match self.0 {
            Some(text) => Some(text@),
            None => None,
        }
    }
}

impl Selection {
    /// A text that has not arrived.
    pub fn pending() -> (r: Self)
        ensures
            r@ is None,
    {
        Selection(None)
    }

    /// Whether the text has arrived.
    pub fn is_ready(&self) -> (r: bool)
        ensures
            r == self@ is Some,
    {
        self.0.is_some()
    }

    /// Hands the text over. Only one text is sent at a time.
    pub fn send(&mut self, text: String)
        requires
            old(self)@ is None,
        ensures
            final(self)@ == Some(text@),
    {
        self.0 = Some(text);
    }

    /// Takes the text that arrived.
    pub fn recv(&mut self) -> (r: String)
        requires
            old(self)@ is Some,
        ensures
            old(self)@ == Some(r@),
            final(self)@ is None,
    {
        self.0.take().unwrap()
    }
}

/// A search that has begun: where it goes, and the text that it goes through.
#[derive(Debug)]
pub struct Finder {
    pub direction: Direction,
    pub selection: Selection,
}

impl Finder {
    /// Begins a search: asks for the text that lies in `direction`.
    pub fn new(actions: &mut Vec<Action>, direction: Direction) -> (r: Self)
        ensures
            r.direction == direction,
            r.selection@ is None,
            final(actions)@ == old(actions)@ + get_text_script(direction),
    {
        let selection: Selection = get_text(actions, direction);
        Finder { direction, selection }
    }
}

/// The actions that read the text between the cursor and the end of the line. Control is
/// let go of first, so that the cursor does not jump all the way to the end of the page, and
/// the text is handed on after the cursor is back in its place.
pub open spec fn get_text_script(direction: Direction) -> Seq<Action> {
    Modifier::Ctrl.release_script() + seq![Action::Emit(KEY_LEFTSHIFT, KeyState::Pressed)]
        + stroke(direction.line_end_key()) + stroke(direction.line_end_key()) + seq![
        Action::Emit(KEY_LEFTSHIFT, KeyState::Released),
        Action::Wait(SELECTION_WAIT),
        Action::ReadSelection,
    ] + Modifier::Shift.release_script() + stroke(direction.return_key()) + seq![
        Action::SendSelection,
    ]
}

/// Asks for the text between the cursor and the end of the line in `direction`.
pub fn get_text(actions: &mut Vec<Action>, direction: Direction) -> (r: Selection)
    ensures
        r@ is None,
        final(actions)@ == old(actions)@ + get_text_script(direction),
{
    Modifier::Ctrl.release(actions);
    press(actions, KEY_LEFTSHIFT);
    click(actions, direction.line_end());
    click(actions, direction.line_end());
    release(actions, KEY_LEFTSHIFT);
    actions.push(Action::Wait(SELECTION_WAIT));
    actions.push(Action::ReadSelection);
    // in case shift was pressed in the meantime
    Modifier::Shift.release(actions);
    click(actions, direction.undo_selection());
    actions.push(Action::SendSelection);
    Selection::pending()
}

/// `text`, one character a piece.
pub open spec fn single_characters(text: Seq<char>) -> Seq<Seq<char>> {
    text.map_values(|c: char| seq![c])
}

/// One step of the cursor, with or without selecting what it passes.
pub open spec fn step_script(direction: Direction, to_select: bool) -> Seq<Action> {
    if to_select {
        seq![Action::Emit(KEY_LEFTSHIFT, KeyState::Pressed)] + stroke(direction.step_key()) + seq![
            Action::Emit(KEY_LEFTSHIFT, KeyState::Released),
        ]
    } else {
        stroke(direction.step_key())
    }
}

/// The actions that move the cursor past `c` in `text`, character by character.
pub open spec fn move_script(
    text: Seq<char>,
    c: char,
    direction: Direction,
    to_select: bool,
) -> Seq<Action> {
    let steps = match steps_to(outwards(single_characters(text), direction), c) {
        Some(steps) => steps,
        None => 0,
    };
    Modifier::Shift.release_script() + repeated(step_script(direction, to_select), steps)
}

/// The number of steps over the characters of `text` past the nearest `c` that is not right
/// next to the cursor, or zero where there is none.
fn character_steps(text: &str, c: char, direction: Direction) -> (r: usize)
    ensures
        match steps_to(outwards(single_characters(text@), direction), c) {
            Some(steps) => r == steps,
            None => r == 0,
        },
{
    let characters: Vec<char> = characters_of(text);
    let ghost pieces = outwards(single_characters(text@), direction);
    let count: usize = characters.len();
    let mut steps: usize = 1;
    while steps < count
        invariant
            count == characters@.len(),
            characters@ == text@,
            pieces == outwards(single_characters(text@), direction),
            1 <= steps,
            count > 0 ==> steps <= count,
            forall|i: int| 1 <= i < steps ==> !(#[trigger] pieces[i]).contains(c),
        decreases count - steps,
    {
        let index: usize = match direction {
            Direction::Forward => steps,
            Direction::Backward => count - 1 - steps,
        };
        assert(pieces[steps as int] == seq![characters@[index as int]]);
        steps = steps + 1;
        if characters[index] == c {
            proof {
                assert(pieces[steps - 1][0] == c);
                lemma_reaches_unique(pieces, c, steps as nat);
            }
            return steps;
        }
    }
    proof {
        lemma_reaches_none(pieces, c);
    }
    0
}

/// Moves the cursor past `char_to_find` in `text`, which lies in `direction` of it, and
/// selects what it passes where `to_select` asks for that.
pub fn move_to_char(
    actions: &mut Vec<Action>,
    text: &str,
    char_to_find: char,
    direction: Direction,
    to_select: bool,
)
    ensures
        final(actions)@ == old(actions)@ + move_script(text@, char_to_find, direction, to_select),
{
    Modifier::Shift.release(actions);
    let ghost start = actions@;
    let steps: usize = character_steps(text, char_to_find, direction);
    let mut done: usize = 0;
    while done < steps
        invariant
            done <= steps,
            actions@ == start + repeated(step_script(direction, to_select), done as nat),
        decreases steps - done,
    {
        if to_select {
            press(actions, KEY_LEFTSHIFT);
        }
        click(actions, direction.step());
        if to_select {
            release(actions, KEY_LEFTSHIFT);
        }
        done = done + 1;
    }
}

/// The text is read like this: without control, shift is held for two strokes to the end of the
/// line and let go of; a tenth of a second later the selection is read; then the cursor goes back,
/// without shift, and only after that the text is handed on. Forwards the end of the line is end
/// and the way back is left, backwards they are home and right.
pub proof fn law_text_is_read_in_order(
    direction: Direction,
    actions: &mut Vec<Action>,
    r: Selection,
    searched: &mut Vec<Action>,
    finder: Finder,
)
    requires
        call_ensures(get_text, (actions, direction), r),
        call_ensures(Finder::new, (searched, direction), finder),
    ensures
        ({
            let (line_end, back) = if direction == Direction::Forward {
                (KEY_END, KEY_LEFT)
            } else {
                (KEY_HOME, KEY_RIGHT)
            };
            let script = seq![
                Action::Emit(crate::keys::KEY_LEFTCTRL, KeyState::Released),
                Action::Emit(crate::keys::KEY_RIGHTCTRL, KeyState::Released),
                Action::Emit(KEY_LEFTSHIFT, KeyState::Pressed),
                Action::Emit(line_end, KeyState::Pressed),
                Action::Emit(line_end, KeyState::Released),
                Action::Emit(line_end, KeyState::Pressed),
                Action::Emit(line_end, KeyState::Released),
                Action::Emit(KEY_LEFTSHIFT, KeyState::Released),
                Action::Wait(100000),
                Action::ReadSelection,
                Action::Emit(KEY_LEFTSHIFT, KeyState::Released),
                Action::Emit(crate::keys::KEY_RIGHTSHIFT, KeyState::Released),
                Action::Emit(back, KeyState::Pressed),
                Action::Emit(back, KeyState::Released),
                Action::SendSelection,
            ];
            &&& final(actions)@ == old(actions)@ + script
            &&& final(searched)@ == old(searched)@ + script
            &&& r@ is None
            &&& finder.direction == direction
            &&& finder.selection@ is None
        }),
{
}

/// Steps of the cursor, action by action.
proof fn lemma_repeated_steps(direction: Direction, to_select: bool, count: nat)
    ensures
        ({
            let steps = repeated(step_script(direction, to_select), count);
            let size = if to_select {
                4int
            } else {
                2int
            };
            &&& steps.len() == size * count
            &&& forall|i: int|
                0 <= i < steps.len() ==> #[trigger] steps[i] == step_script(direction, to_select)[i
                    % size]
        }),
    decreases count,
{
    if count > 0 {
        let before = (count - 1) as nat;
        lemma_repeated_steps(direction, to_select, before);
        let rest = repeated(step_script(direction, to_select), before);
        let steps = repeated(step_script(direction, to_select), count);
        let step = step_script(direction, to_select);
        assert forall|i: int| 0 <= i < steps.len() implies #[trigger] steps[i] == step[i % (if to_select {
            4int
        } else {
            2int
        })] by {
            if i < rest.len() {
                assert(steps[i] == rest[i]);
            } else {
                assert(steps[i] == step[i - rest.len()]);
            }
        }
    }
}

/// The cursor goes over as many characters as lie between it and the nearest one that is looked
/// for, that one too and the one next to it not counted, and stays where it is if there is none.
/// Both shift keys are let go of first. Each step is one stroke of right or left, and shift is
/// pressed before and released after it exactly if the text is to be selected.
pub proof fn law_cursor_moves_past_character(
    actions: &mut Vec<Action>,
    text: &str,
    c: char,
    direction: Direction,
    to_select: bool,
)
    requires
        call_ensures(move_to_char, (actions, text, c, direction, to_select), ()),
    ensures
        ({
            let pieces = Seq::new(text@.len(), |i: int| seq![text@[i]]);
            let size = if to_select {
                4int
            } else {
                2int
            };
            let key = if direction == Direction::Forward {
                KEY_RIGHT
            } else {
                KEY_LEFT
            };
            let done = final(actions)@.skip(old(actions)@.len() as int);
            let steps = (done.len() - 2) / size;
            &&& final(actions)@ == old(actions)@ + done
            &&& done.len() == 2 + size * steps
            &&& done[0] == Action::Emit(KEY_LEFTSHIFT, KeyState::Released)
            &&& done[1] == Action::Emit(crate::keys::KEY_RIGHTSHIFT, KeyState::Released)
            &&& steps == 0 <==> forall|distance: int|
                !(#[trigger] stands_at(pieces, direction, c, distance))
            &&& steps != 0 ==> nearest_at(pieces, direction, c, steps)
            &&& forall|i: int|
                2 <= i < done.len() ==> #[trigger] done[i] == (if !to_select {
                    Action::Emit(
                        key,
                        if i % 2 == 0 {
                            KeyState::Pressed
                        } else {
                            KeyState::Released
                        },
                    )
                } else if (i - 2) % 4 == 0 {
                    Action::Emit(KEY_LEFTSHIFT, KeyState::Pressed)
                } else if (i - 2) % 4 == 1 {
                    Action::Emit(key, KeyState::Pressed)
                } else if (i - 2) % 4 == 2 {
                    Action::Emit(key, KeyState::Released)
                } else {
                    Action::Emit(KEY_LEFTSHIFT, KeyState::Released)
                })
        }),
{
    let pieces = Seq::new(text@.len(), |i: int| seq![text@[i]]);
    assert(pieces == single_characters(text@));
    law_steps_lead_to_nearest(pieces, c, direction);
    let steps = match steps_to(outwards(pieces, direction), c) {
        Some(steps) => steps,
        None => 0,
    };
    lemma_repeated_steps(direction, to_select, steps);
    let done = final(actions)@.skip(old(actions)@.len() as int);
    assert(done == move_script(text@, c, direction, to_select));
    let walked = repeated(step_script(direction, to_select), steps);
    assert(done == Modifier::Shift.release_script() + walked);
    assert forall|i: int| 2 <= i < done.len() implies #[trigger] done[i] == walked[i - 2] by {}
}

/// A text that was sent is received once, as it was.
pub proof fn law_text_is_received_once(
    fresh: Selection,
    sent: &mut Selection,
    text: String,
    taken: &mut Selection,
    r: String,
)
    requires
        call_ensures(Selection::pending, (), fresh),
        old(sent)@ == fresh@,
        call_ensures(Selection::send, (sent, text), ()),
        old(taken)@ == final(sent)@,
        call_ensures(Selection::recv, (taken,), r),
    ensures
        r@ == text@,
        final(taken)@ == fresh@,
        fresh@ is None,
{
}

} // verus!
