use retype::find::Direction;
use retype::search::{contains_char, find_char, move_amount};

#[test]
fn characters_of_a_text() {
    assert!(contains_char("héllo", 'é'));
    assert!(!contains_char("héllo", 'e'));
    assert!(!contains_char("", 'e'));
}

#[test]
fn amount_skips_the_neighbour() {
    let pieces = vec!["a", "b", "a", "c"];
    assert_eq!(move_amount(&pieces, 'a', Direction::Forward), Some(3));
    assert_eq!(move_amount(&pieces, 'b', Direction::Forward), Some(2));
    assert_eq!(move_amount(&pieces, 'c', Direction::Backward), None);
    assert_eq!(move_amount(&pieces, 'a', Direction::Backward), Some(2));
    assert_eq!(move_amount(&pieces, 'x', Direction::Forward), None);
    assert_eq!(move_amount(&vec![], 'x', Direction::Forward), None);
    assert_eq!(move_amount(&vec!["x"], 'x', Direction::Backward), None);
}

#[test]
fn backward_is_forward_in_the_mirror() {
    let pieces = vec!["q", "a", "b", "a"];
    let mirrored = vec!["a", "b", "a", "q"];
    for c in ['q', 'a', 'b', 'z'] {
        assert_eq!(
            move_amount(&pieces, c, Direction::Backward),
            move_amount(&mirrored, c, Direction::Forward)
        );
    }
}

#[test]
fn readme_example_is_found() {
    assert_eq!(find_char("'something'", '\'', Direction::Forward), Some(11));
}

#[test]
fn steps_count_grapheme_clusters() {
    // a family of four is one step, and so is a letter with its accents
    assert_eq!(find_char("👨‍👩‍👧‍👦xy", 'x', Direction::Forward), Some(2));
    assert_eq!(find_char("ae\u{301}o\u{308}\u{332}x", 'x', Direction::Forward), Some(4));
    assert_eq!(find_char("ae\u{301}o", '\u{301}', Direction::Forward), Some(2));
    assert_eq!(find_char("xa\r\nb", 'x', Direction::Backward), Some(4));
}

#[test]
fn absent_characters_are_not_found() {
    assert_eq!(find_char("nothing here", 'z', Direction::Forward), None);
    assert_eq!(find_char("nothing here", 'z', Direction::Backward), None);
    assert_eq!(find_char("", 'z', Direction::Forward), None);
}
