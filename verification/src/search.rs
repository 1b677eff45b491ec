//! Where a character stands, counted in steps of the cursor.

use unicode_segmentation::UnicodeSegmentation;
use vstd::prelude::*;

use crate::find::Direction;

verus! {

broadcast use vstd::string::group_string_axioms;

/// The extended grapheme clusters of `text`, as the crate `unicode-segmentation` divides it.
pub uninterp spec fn graphemes_of(text: Seq<char>) -> Seq<Seq<char>>;

/// The texts of a list of strings.
pub open spec fn texts(strings: Seq<&str>) -> Seq<Seq<char>> {
    strings.map_values(|s: &str| s@)
}

/// Calls `UnicodeSegmentation::graphemes` for the extended grapheme clusters of `text`, and
/// collects them. The contract names the clusters, and claims that they are consecutive pieces
/// of `text` which together make up all of it.
#[verifier::external_body]
fn graphemes(text: &str) -> (r: Vec<&str>)
    ensures
        texts(r@) == graphemes_of(text@),
        texts(r@).flatten() == text@,
{
    UnicodeSegmentation::graphemes(text, true).collect()
}

/// `pieces`, which lie before or behind the cursor, from the cursor outwards.
pub open spec fn outwards(pieces: Seq<Seq<char>>, direction: Direction) -> Seq<Seq<char>> {
    match direction {
        Direction::Forward => pieces,
        Direction::Backward => pieces.reverse(),
    }
}

/// Whether `steps` steps over `pieces` take the cursor just past the first piece that holds
/// `c`, the piece right next to the cursor left aside.
pub open spec fn reaches(pieces: Seq<Seq<char>>, c: char, steps: nat) -> bool {
    &&& 2 <= steps <= pieces.len()
    &&& pieces[steps - 1].contains(c)
    &&& forall|i: int| 1 <= i < steps - 1 ==> !(#[trigger] pieces[i]).contains(c)
}

/// The number of steps over `pieces` to `c`, if there is one.
pub open spec fn steps_to(pieces: Seq<Seq<char>>, c: char) -> Option<nat> {
    if exists|steps: nat| reaches(pieces, c, steps) {
        Some(choose|steps: nat| reaches(pieces, c, steps))
    } else {
        None
    }
}

/// There is one number of steps at most that reaches a character.
pub proof fn lemma_reaches_unique(pieces: Seq<Seq<char>>, c: char, steps: nat)
    requires
        reaches(pieces, c, steps),
    ensures
        steps_to(pieces, c) == Some(steps),
{
    let other = steps_to(pieces, c)->0;
    assert(reaches(pieces, c, other));
    if other < steps {
        assert(!pieces[other - 1].contains(c));
    } else if steps < other {
        assert(!pieces[steps - 1].contains(c));
    }
}

/// Where no piece but the first holds a character, no number of steps reaches it.
pub proof fn lemma_reaches_none(pieces: Seq<Seq<char>>, c: char)
    requires
        forall|i: int| 1 <= i < pieces.len() ==> !(#[trigger] pieces[i]).contains(c),
    ensures
        steps_to(pieces, c) is None,
{
    assert forall|steps: nat| !reaches(pieces, c, steps) by {
        if reaches(pieces, c, steps) {
            assert(pieces[steps - 1].contains(c));
        }
    }
}

/// The characters of `text`.
pub fn characters_of(text: &str) -> (r: Vec<char>)
    ensures
        r@ == text@,
{
    let mut characters: Vec<char> = Vec::new();
    for c in it: text.chars()
        invariant
            it.seq() == text@,
            characters@ == text@.take(it.index() as int),
            it.index() == it.seq().len() ==> characters@ == text@,
    {
        characters.push(c);
        assert(text@.take(text@.len() as int) == text@);
    }
    characters
}

/// Whether `c` occurs in `text`.
pub fn contains_char(text: &str, c: char) -> (r: bool)
    ensures
        r == text@.contains(c),
{
    let mut found: bool = false;
    for x in it: text.chars()
        invariant
            found == (exists|i: int| 0 <= i < it.index() && text@[i] == c),
            it.seq() == text@,
    {
        if x == c {
            found = true;
        }
    }
    found
}

/// How many steps over `graphemes` take the cursor past `c`. If the cursor is right next to
/// the character, this looks for the next one.
pub fn move_amount(graphemes: &Vec<&str>, c: char, direction: Direction) -> (r: Option<usize>)
    ensures
        r matches Some(steps) ==> steps_to(outwards(texts(graphemes@), direction), c) == Some(
            steps as nat,
        ),
        r is None ==> steps_to(outwards(texts(graphemes@), direction), c) is None,
{
    let ghost pieces = outwards(texts(graphemes@), direction);
    let count: usize = graphemes.len();
    let mut steps: usize = 1;
    while steps < count
        invariant
            count == graphemes@.len(),
            pieces == outwards(texts(graphemes@), direction),
            1 <= steps,
            count > 0 ==> steps <= count,
            forall|i: int| 1 <= i < steps ==> !(#[trigger] pieces[i]).contains(c),
        decreases count - steps,
    {
        let index: usize = match direction {
            Direction::Forward => steps,
            Direction::Backward => count - 1 - steps,
        };
        assert(pieces[steps as int] == graphemes@[index as int]@);
        steps = steps + 1;
        if contains_char(graphemes[index], c) {
            proof {
                lemma_reaches_unique(pieces, c, steps as nat);
            }
            return Some(steps);
        }
    }
    proof {
        lemma_reaches_none(pieces, c);
    }
    None
}

/// A character lies in one of `pieces` if and only if it lies in what they make up together.
pub proof fn lemma_flatten_contains(pieces: Seq<Seq<char>>, c: char)
    ensures
        pieces.flatten().contains(c) <==> exists|i: int|
            0 <= i < pieces.len() && (#[trigger] pieces[i]).contains(c),
    decreases pieces.len(),
{
    if pieces.len() > 0 {
        let first = pieces.first();
        let rest = pieces.drop_first();
        lemma_flatten_contains(rest, c);
        assert(pieces.flatten() == first + rest.flatten());
        if pieces.flatten().contains(c) {
            let k = choose|k: int| 0 <= k < pieces.flatten().len() && pieces.flatten()[k] == c;
            if k < first.len() {
                assert(first[k] == c);
                assert(pieces[0].contains(c));
            } else {
                assert(rest.flatten()[k - first.len()] == c);
                let i = choose|i: int| 0 <= i < rest.len() && (#[trigger] rest[i]).contains(c);
                assert(pieces[i + 1].contains(c));
            }
        }
        if exists|i: int| 0 <= i < pieces.len() && (#[trigger] pieces[i]).contains(c) {
            let i = choose|i: int| 0 <= i < pieces.len() && (#[trigger] pieces[i]).contains(c);
            if i == 0 {
                let k = choose|k: int| 0 <= k < first.len() && first[k] == c;
                assert(pieces.flatten()[k] == c);
            } else {
                assert(rest[i - 1].contains(c));
                let k = choose|k: int| 0 <= k < rest.flatten().len() && rest.flatten()[k] == c;
                assert(pieces.flatten()[first.len() + k] == c);
            }
        }
    }
}

/// A search finds nothing but what the text holds: over the pieces of a text without `c`, in
/// either direction, no number of steps leads to `c`.
pub proof fn law_absent_character_is_not_found(
    text: Seq<char>,
    pieces: Seq<Seq<char>>,
    c: char,
    direction: Direction,
)
    requires
        pieces.flatten() == text,
        !text.contains(c),
    ensures
        steps_to(outwards(pieces, direction), c) is None,
{
    lemma_flatten_contains(pieces, c);
    lemma_reaches_none(outwards(pieces, direction), c);
}

/// A character that stands anywhere but right next to the cursor is found, and the search
/// stops at the nearest one: the step before the last leads past pieces without it.
pub proof fn law_nearest_occurrence_is_found(
    pieces: Seq<Seq<char>>,
    c: char,
    direction: Direction,
    at: int,
)
    requires
        1 <= at < pieces.len(),
        outwards(pieces, direction)[at].contains(c),
    ensures
        steps_to(outwards(pieces, direction), c) matches Some(steps) && 2 <= steps <= at + 1
            && reaches(outwards(pieces, direction), c, steps),
    decreases at,
{
    let seen = outwards(pieces, direction);
    if exists|i: int| 1 <= i < at && (#[trigger] seen[i]).contains(c) {
        let i = choose|i: int| 1 <= i < at && (#[trigger] seen[i]).contains(c);
        law_nearest_occurrence_is_found(pieces, c, direction, i);
    } else {
        lemma_reaches_unique(seen, c, (at + 1) as nat);
    }
}

/// Searching backwards is searching forwards in the mirrored text.
pub proof fn law_backward_mirrors_forward(pieces: Seq<Seq<char>>, c: char)
    ensures
        steps_to(outwards(pieces, Direction::Backward), c) == steps_to(
            outwards(pieces.reverse(), Direction::Forward),
            c,
        ),
        steps_to(outwards(pieces.reverse(), Direction::Backward), c) == steps_to(
            outwards(pieces, Direction::Forward),
            c,
        ),
{
    assert(pieces.reverse().reverse() == pieces);
}

/// How many grapheme clusters of `text` the cursor has to pass until it is behind `c`.
pub fn find_char(text: &str, c: char, direction: Direction) -> (r: Option<usize>)
    ensures
        r matches Some(steps) ==> steps_to(outwards(graphemes_of(text@), direction), c) == Some(
            steps as nat,
        ),
        r is None ==> steps_to(outwards(graphemes_of(text@), direction), c) is None,
        !text@.contains(c) ==> r is None,
{
    let clusters: Vec<&str> = graphemes(text);
    proof {
        if !text@.contains(c) {
            law_absent_character_is_not_found(text@, texts(clusters@), c, direction);
        }
    }
    move_amount(&clusters, c, direction)
}

/// `pieces` from the cursor outwards: the one that `distance` steps lead over last.
pub open spec fn piece_at(
    pieces: Seq<Seq<char>>,
    direction: Direction,
    distance: int,
) -> Seq<char> {
    if direction == Direction::Forward {
        pieces[distance - 1]
    } else {
        pieces[pieces.len() - distance]
    }
}

/// `c` stands `distance` steps away, and not right next to the cursor.
pub open spec fn stands_at(
    pieces: Seq<Seq<char>>,
    direction: Direction,
    c: char,
    distance: int,
) -> bool {
    2 <= distance <= pieces.len() && piece_at(pieces, direction, distance).contains(c)
}

/// `c` stands `distance` steps away, and nowhere nearer but right next to the cursor.
pub open spec fn nearest_at(
    pieces: Seq<Seq<char>>,
    direction: Direction,
    c: char,
    distance: int,
) -> bool {
    &&& stands_at(pieces, direction, c, distance)
    &&& forall|nearer: int|
        nearer < distance ==> !(#[trigger] stands_at(pieces, direction, c, nearer))
}

/// The number of steps to a character is the distance at which it is nearest, forwards from the
/// start of the pieces and backwards from their end. There is none exactly if it stands nowhere.
pub proof fn law_steps_lead_to_nearest(pieces: Seq<Seq<char>>, c: char, direction: Direction)
    ensures
        match steps_to(outwards(pieces, direction), c) {
            Some(steps) => nearest_at(pieces, direction, c, steps as int),
            None => forall|distance: int|
                !(#[trigger] stands_at(pieces, direction, c, distance)),
        },
{
    let seen = outwards(pieces, direction);
    assert(seen.len() == pieces.len());
    assert forall|distance: int| 1 <= distance <= pieces.len() implies seen[distance - 1]
        == #[trigger] piece_at(pieces, direction, distance) by {}
    match steps_to(seen, c) {
        Some(steps) => {
            assert(reaches(seen, c, steps));
            assert(stands_at(pieces, direction, c, steps as int));
            assert forall|nearer: int| nearer < steps implies !(#[trigger] stands_at(
                pieces,
                direction,
                c,
                nearer,
            )) by {
                if 2 <= nearer {
                    assert(!seen[nearer - 1].contains(c));
                }
            }
        },
        None => {
            assert forall|distance: int| !(#[trigger] stands_at(pieces, direction, c, distance)) by {
                if stands_at(pieces, direction, c, distance) {
                    law_nearest_occurrence_is_found(pieces, c, direction, distance - 1);
                }
            }
        },
    }
}

/// A search in a text goes over its grapheme clusters: it answers with the distance at which the
/// character is nearest, and with nothing exactly if it stands nowhere but next to the cursor.
pub proof fn law_search_finds_nearest(
    text: &str,
    c: char,
    direction: Direction,
    r: Option<usize>,
)
    requires
        call_ensures(find_char, (text, c, direction), r),
    ensures
        r is None <==> forall|distance: int|
            !(#[trigger] stands_at(graphemes_of(text@), direction, c, distance)),
        r matches Some(steps) ==> nearest_at(graphemes_of(text@), direction, c, steps as int),
{
    law_steps_lead_to_nearest(graphemes_of(text@), c, direction);
}

/// The same of a search over pieces of text that were cut already.
pub proof fn law_amount_is_nearest_distance(
    graphemes: &Vec<&str>,
    c: char,
    direction: Direction,
    r: Option<usize>,
)
    requires
        call_ensures(move_amount, (graphemes, c, direction), r),
    ensures
        ({
            let pieces = Seq::new(graphemes@.len(), |i: int| graphemes@[i]@);
            &&& r is None <==> forall|distance: int|
                !(#[trigger] stands_at(pieces, direction, c, distance))
            &&& r matches Some(steps) ==> nearest_at(pieces, direction, c, steps as int)
        }),
{
    let pieces = Seq::new(graphemes@.len(), |i: int| graphemes@[i]@);
    assert(pieces == texts(graphemes@));
    law_steps_lead_to_nearest(pieces, c, direction);
}

} // verus!
