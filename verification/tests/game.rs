use hangman::game::{Game, GameState, GuessOutcome, Letter, Player, Word};

fn solo(word: &str, lives: i32) -> Game {
    Game::with_word(1, Player::new(10), word, lives, false)
}

fn pair(word: &str, lives: i32, turn_enforced: bool) -> Game {
    let mut game = Game::waiting(7, word, lives, turn_enforced);
    assert!(game.add_player(Player::with_name(10, String::from("ann"))));
    assert!(game.add_player(Player::with_name(20, String::from("bob"))));
    assert!(game.start());
    game
}

#[test]
fn letter_starts_unguessed() {
    let letter = Letter::new('Q');
    assert_eq!(letter.character, 'Q');
    assert!(!letter.guessed);
}

#[test]
fn word_keeps_its_letters() {
    let word = Word::new("HELLO");
    assert_eq!(word.letters.len(), 5);
    assert!(word.letters.iter().all(|l| !l.guessed));
    assert_eq!(word.get(), "HELLO");
    assert_eq!(Word::new("").get(), "");
}

#[test]
fn player_has_default_name() {
    let player = Player::new(5);
    assert_eq!(player.id, 5);
    assert_eq!(player.name, "steve");
    let named = Player::with_name(6, String::from("eve"));
    assert_eq!(named.id, 6);
    assert_eq!(named.name, "eve");
}

#[test]
fn new_game_shows_blanks() {
    assert_eq!(solo("CAT", 7).game_string(), "_ _ _");
    assert_eq!(solo("A", 7).game_string(), "_");
    assert_eq!(solo("", 7).game_string(), "");
    assert_eq!(solo("HANGMAN", 7).game_string(), "_ _ _ _ _ _ _");
    assert_eq!(Game::waiting(3, "DOG", 7, true).game_string(), "_ _ _");
}

#[test]
fn new_game_is_running_with_its_lives() {
    let game = solo("CAT", 7);
    assert_eq!(game.state(), GameState::Running);
    assert_eq!(game.lives(), 7);
    assert_eq!(game.game_id(), 1);
    assert_eq!(game.player_count(), 1);
    assert_eq!(game.completed(), None);
    assert_eq!(game.word(), None);
    assert_eq!(game.guessed_letters(), "");
}

#[test]
fn game_without_lives_is_lost_from_the_start() {
    let game = solo("CAT", 0);
    assert_eq!(game.state(), GameState::Done(false));
    assert_eq!(game.lives(), 0);
    assert_eq!(game.completed(), Some(false));
    let negative = solo("CAT", -3);
    assert_eq!(negative.lives(), 0);
    assert_eq!(negative.state(), GameState::Done(false));
    let waiting = Game::waiting(1, "CAT", 0, false);
    assert_eq!(waiting.state(), GameState::Done(false));
}

#[test]
fn cat_with_two_lives() {
    let mut game = solo("CAT", 2);
    assert_eq!(game.guess_letter(10, 'C'), GuessOutcome::CorrectLetter);
    assert_eq!(game.game_string(), "C _ _");
    assert_eq!(game.guess_letter(10, 'X'), GuessOutcome::WrongLetter);
    assert_eq!(game.lives(), 1);
    assert_eq!(game.guess_letter(10, 'A'), GuessOutcome::CorrectLetter);
    assert_eq!(game.game_string(), "C A _");
    assert_eq!(game.guess_letter(10, 'T'), GuessOutcome::Solved);
    assert_eq!(game.game_string(), "C A T");
    assert_eq!(game.lives(), 1);
    assert_eq!(game.state(), GameState::Done(true));
    assert_eq!(game.completed(), Some(true));
    assert_eq!(game.word(), Some(String::from("CAT")));
}

#[test]
fn guessing_every_letter_wins_without_loss() {
    let mut game = solo("BANANA", 7);
    assert_eq!(game.guess_letter(10, 'B'), GuessOutcome::CorrectLetter);
    assert_eq!(game.guess_letter(10, 'A'), GuessOutcome::CorrectLetter);
    assert_eq!(game.game_string(), "B A _ A _ A");
    let before = game.lives();
    assert_eq!(game.guess_letter(10, 'N'), GuessOutcome::Solved);
    assert_eq!(game.lives(), before);
    assert_eq!(game.lives(), 7);
    assert_eq!(game.state(), GameState::Done(true));
}

#[test]
fn wrong_letter_costs_exactly_one_life() {
    let mut game = solo("CAT", 3);
    assert_eq!(game.guess_letter(10, 'X'), GuessOutcome::WrongLetter);
    assert_eq!(game.lives(), 2);
    assert_eq!(game.state(), GameState::Running);
    assert_eq!(game.guess_letter(10, 'Y'), GuessOutcome::WrongLetter);
    assert_eq!(game.lives(), 1);
    assert_eq!(game.guess_letter(10, 'Z'), GuessOutcome::LivesExhausted);
    assert_eq!(game.lives(), 0);
    assert_eq!(game.state(), GameState::Done(false));
    assert_eq!(game.completed(), Some(false));
    assert_eq!(game.word(), Some(String::from("CAT")));
    assert_eq!(game.game_string(), "_ _ _");
}

#[test]
fn same_letter_twice_changes_nothing() {
    let mut game = solo("CAT", 5);
    assert_eq!(game.guess_letter(10, 'X'), GuessOutcome::WrongLetter);
    let lives = game.lives();
    let ledger = game.guessed_letters();
    assert_eq!(game.guess_letter(10, 'X'), GuessOutcome::AlreadyGuessed);
    assert_eq!(game.lives(), lives);
    assert_eq!(game.guessed_letters(), ledger);
    assert_eq!(game.guess_letter(10, 'C'), GuessOutcome::CorrectLetter);
    assert_eq!(game.guess_letter(10, 'c'), GuessOutcome::AlreadyGuessed);
    assert_eq!(game.game_string(), "C _ _");
    assert_eq!(game.lives(), 4);
}

#[test]
fn same_letter_twice_keeps_the_single_players_turn() {
    let mut game = Game::with_word(1, Player::new(10), "CAT", 5, true);
    assert!(game.is_players_turn(10));
    assert_eq!(game.guess_letter(10, 'C'), GuessOutcome::CorrectLetter);
    assert!(game.is_players_turn(10));
    assert_eq!(game.guess_letter(10, 'C'), GuessOutcome::AlreadyGuessed);
    assert!(game.is_players_turn(10));
    assert_eq!(game.lives(), 5);
}

#[test]
fn lower_case_guess_is_taken_in_upper_case() {
    let mut game = solo("CAT", 2);
    assert_eq!(game.guess_letter(10, 'c'), GuessOutcome::CorrectLetter);
    assert_eq!(game.game_string(), "C _ _");
    assert_eq!(game.guessed_letters(), "C");
    assert_eq!(game.guess_letter(10, 'a'), GuessOutcome::CorrectLetter);
    assert_eq!(game.guess_letter(10, 't'), GuessOutcome::Solved);
    assert_eq!(game.lives(), 2);
}

#[test]
fn sharp_s_is_taken_as_its_first_upper_case_letter() {
    let mut game = solo("SOS", 2);
    assert_eq!(game.guess_letter(10, '\u{df}'), GuessOutcome::CorrectLetter);
    assert_eq!(game.game_string(), "S _ S");
}

#[test]
fn guess_normalized_takes_the_letter_as_it_stands() {
    let mut game = solo("CAT", 3);
    assert_eq!(game.guess_normalized(10, 'c'), GuessOutcome::WrongLetter);
    assert_eq!(game.lives(), 2);
    assert_eq!(game.guessed_letters(), "");
    assert_eq!(game.guess_normalized(10, 'C'), GuessOutcome::CorrectLetter);
    assert_eq!(game.guessed_letters(), "C");
}

#[test]
fn character_outside_the_alphabet_is_never_known_as_guessed() {
    let mut game = solo("CAT", 3);
    assert_eq!(game.guess_letter(10, '1'), GuessOutcome::WrongLetter);
    assert_eq!(game.guess_letter(10, '1'), GuessOutcome::WrongLetter);
    assert_eq!(game.lives(), 1);
    assert_eq!(game.guessed_letters(), "");
}

#[test]
fn hyphen_in_a_word_can_be_guessed() {
    let mut game = solo("A-B", 3);
    assert_eq!(game.guess_letter(10, '-'), GuessOutcome::CorrectLetter);
    assert_eq!(game.game_string(), "_ - _");
    assert_eq!(game.guess_letter(10, 'a'), GuessOutcome::CorrectLetter);
    assert_eq!(game.guess_letter(10, 'b'), GuessOutcome::Solved);
    assert_eq!(game.lives(), 3);
}

#[test]
fn empty_word_is_solved_by_the_first_guess() {
    let mut game = solo("", 3);
    assert_eq!(game.guess_letter(10, 'A'), GuessOutcome::Solved);
    assert_eq!(game.lives(), 3);
    assert_eq!(game.word(), Some(String::new()));
}

#[test]
fn finished_game_repeats_its_result() {
    let mut won = solo("A", 3);
    assert_eq!(won.guess_letter(10, 'A'), GuessOutcome::Solved);
    assert_eq!(won.guess_letter(10, 'A'), GuessOutcome::AlreadyGuessed);
    assert_eq!(won.guess_letter(10, 'B'), GuessOutcome::Solved);
    assert_eq!(won.lives(), 3);
    assert_eq!(won.state(), GameState::Done(true));
    assert_eq!(won.guessed_letters(), "A B");

    let mut lost = solo("AB", 1);
    assert_eq!(lost.guess_letter(10, 'X'), GuessOutcome::LivesExhausted);
    assert_eq!(lost.guess_letter(10, 'Y'), GuessOutcome::LivesExhausted);
    assert_eq!(lost.guess_letter(10, 'X'), GuessOutcome::AlreadyGuessed);
    assert_eq!(lost.guess_letter(10, 'A'), GuessOutcome::LivesExhausted);
    assert_eq!(lost.guess_letter(10, 'B'), GuessOutcome::LivesExhausted);
    assert_eq!(lost.lives(), 0);
    assert_eq!(lost.state(), GameState::Done(false));
    assert_eq!(lost.game_string(), "A B");
}

#[test]
fn word_is_hidden_until_the_game_is_over() {
    let mut game = solo("OX", 2);
    assert_eq!(game.word(), None);
    game.guess_letter(10, 'O');
    assert_eq!(game.word(), None);
    assert_eq!(game.completed(), None);
    game.guess_letter(10, 'X');
    assert_eq!(game.word(), Some(String::from("OX")));
    let waiting = Game::waiting(1, "OX", 2, false);
    assert_eq!(waiting.word(), None);
}

#[test]
fn guessed_letters_are_listed_in_alphabetical_order() {
    let mut game = solo("CAT", 7);
    game.guess_letter(10, 'T');
    assert_eq!(game.guessed_letters(), "T");
    game.guess_letter(10, 'X');
    game.guess_letter(10, 'A');
    assert_eq!(game.guessed_letters(), "A T X");
    game.guess_letter(10, 'Z');
    assert_eq!(game.guessed_letters(), "A T X Z");
}

#[test]
fn out_of_turn_guess_is_not_taken() {
    let mut game = pair("CAT", 3, true);
    assert!(game.is_players_turn(10));
    assert!(!game.is_players_turn(20));
    assert_eq!(game.guess_letter(20, 'C'), GuessOutcome::NotYourTurn);
    assert_eq!(game.game_string(), "_ _ _");
    assert_eq!(game.guessed_letters(), "");
    assert_eq!(game.lives(), 3);
    assert_eq!(game.state(), GameState::Running);
    assert!(game.is_players_turn(10));
    assert_eq!(game.guess_letter(99, 'C'), GuessOutcome::NotYourTurn);
    assert_eq!(game.guessed_letters(), "");
}

#[test]
fn turns_go_round() {
    let mut game = pair("CAT", 3, true);
    assert_eq!(game.guess_letter(10, 'C'), GuessOutcome::CorrectLetter);
    assert!(game.is_players_turn(20));
    assert_eq!(game.guess_letter(10, 'A'), GuessOutcome::NotYourTurn);
    assert_eq!(game.guess_letter(20, 'X'), GuessOutcome::WrongLetter);
    assert!(game.is_players_turn(10));
    assert_eq!(game.guess_letter(10, 'X'), GuessOutcome::AlreadyGuessed);
    assert!(game.is_players_turn(20));
    assert_eq!(game.lives(), 2);
}

#[test]
fn without_turns_every_player_may_guess() {
    let mut game = pair("CAT", 3, false);
    assert!(game.is_players_turn(10));
    assert!(game.is_players_turn(20));
    assert!(!game.is_players_turn(30));
    assert_eq!(game.guess_letter(20, 'C'), GuessOutcome::CorrectLetter);
    assert_eq!(game.guess_letter(20, 'A'), GuessOutcome::CorrectLetter);
    assert_eq!(game.guess_letter(30, 'T'), GuessOutcome::NotYourTurn);
    assert_eq!(game.guess_letter(10, 'T'), GuessOutcome::Solved);
}

#[test]
fn waiting_game_takes_players_and_no_guess() {
    let mut game = Game::waiting(7, "CAT", 3, false);
    assert_eq!(game.state(), GameState::Waiting);
    assert!(game.add_player(Player::new(10)));
    assert!(!game.add_player(Player::new(10)));
    assert_eq!(game.player_count(), 1);
    assert!(!game.is_players_turn(10));
    assert_eq!(game.guess_letter(10, 'C'), GuessOutcome::NotYourTurn);
    assert_eq!(game.game_string(), "_ _ _");
    assert!(game.start());
    assert!(!game.start());
    assert_eq!(game.state(), GameState::Running);
    assert_eq!(game.guess_letter(10, 'C'), GuessOutcome::CorrectLetter);
}

#[test]
fn game_that_has_begun_takes_no_player() {
    let mut game = solo("CAT", 1);
    assert!(!game.add_player(Player::new(20)));
    assert_eq!(game.player_count(), 1);
    game.guess_letter(10, 'X');
    assert_eq!(game.state(), GameState::Done(false));
    assert!(!game.add_player(Player::new(20)));
    assert_eq!(game.player_count(), 1);
    assert_eq!(game.player_turn_position(20), None);
}

#[test]
fn turn_positions_follow_the_order_of_joining() {
    let game = pair("CAT", 3, true);
    assert_eq!(game.player_turn_position(10), Some(0));
    assert_eq!(game.player_turn_position(20), Some(1));
    assert_eq!(game.player_turn_position(30), None);
}

#[test]
fn teammates_are_the_other_players() {
    let mut game = Game::waiting(7, "CAT", 3, false);
    game.add_player(Player::with_name(1, String::from("ann")));
    game.add_player(Player::new(2));
    game.add_player(Player::with_name(3, String::from("cy")));
    assert_eq!(game.teammates(1), "steve, cy");
    assert_eq!(game.teammates(2), "ann, cy");
    assert_eq!(game.teammates(3), "ann, steve");
    assert_eq!(game.teammates(4), "ann, steve, cy");
    assert_eq!(solo("CAT", 3).teammates(10), "");
}

#[test]
fn outcome_codes() {
    assert_eq!(GuessOutcome::Solved.code(), 1);
    assert_eq!(GuessOutcome::CorrectLetter.code(), 2);
    assert_eq!(GuessOutcome::WrongLetter.code(), 3);
    assert_eq!(GuessOutcome::LivesExhausted.code(), 4);
    assert_eq!(GuessOutcome::AlreadyGuessed.code(), 5);
    assert_eq!(GuessOutcome::NotYourTurn.code(), 6);
}
