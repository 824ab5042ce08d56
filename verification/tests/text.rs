use hangman::game::next_turn;
use hangman::text::{characters_of, normalize};

#[test]
fn guesses_are_normalized_to_upper_case() {
    assert_eq!(normalize('a'), 'A');
    assert_eq!(normalize('z'), 'Z');
    assert_eq!(normalize('Q'), 'Q');
    assert_eq!(normalize('7'), '7');
    assert_eq!(normalize('\u{e4}'), '\u{c4}');
    assert_eq!(normalize('\u{df}'), 'S');
}

#[test]
fn normalization_is_the_first_character_of_the_upper_case_mapping() {
    for c in ['a', 'B', '-', '\u{e9}', '\u{df}', '\u{fb01}', '\u{3b1}', ' '] {
        assert_eq!(Some(normalize(c)), c.to_uppercase().next());
    }
}

#[test]
fn characters_of_a_text() {
    assert_eq!(characters_of("ab\u{e4}"), vec!['a', 'b', '\u{e4}']);
    assert_eq!(characters_of(""), Vec::<char>::new());
}

#[test]
fn turns_wrap_around() {
    assert_eq!(next_turn(0, 3), 1);
    assert_eq!(next_turn(1, 3), 2);
    assert_eq!(next_turn(2, 3), 0);
    assert_eq!(next_turn(0, 1), 0);
    assert_eq!(next_turn(0, 0), 0);
    assert_eq!(next_turn(5, 3), 0);
}
