use hangman::events::{stream_step, EventData, StreamAction, StreamInput};
use hangman::game::{Game, GuessOutcome, Player};

fn message(game_id: u128) -> EventData {
    EventData::new(0, game_id, String::from("letter_correct"))
}

#[test]
fn event_holds_what_it_was_made_with() {
    let event = EventData::new(2, 77, String::from("letter_wrong"));
    assert_eq!(event.player, 2);
    assert_eq!(event.game_id(), 77);
    assert_eq!(event.data, "letter_wrong");
}

#[test]
fn start_and_deletion_are_for_everybody() {
    assert_eq!(EventData::game_start(5), EventData::new(0, 5, String::from("game_start")));
    assert_eq!(EventData::game_deleted(5), EventData::new(0, 5, String::from("game_deleted")));
}

#[test]
fn stream_hands_on_messages_of_its_game() {
    assert_eq!(stream_step(4, StreamInput::Message(message(4))), StreamAction::Yield(message(4)));
}

#[test]
fn stream_passes_over_other_games_and_lost_messages() {
    assert_eq!(stream_step(4, StreamInput::Message(message(5))), StreamAction::Skip);
    assert_eq!(stream_step(4, StreamInput::Lagged), StreamAction::Skip);
}

#[test]
fn stream_ends_with_the_channel_or_the_server() {
    assert_eq!(stream_step(4, StreamInput::Closed), StreamAction::Stop);
    assert_eq!(stream_step(4, StreamInput::Shutdown), StreamAction::Stop);
}

#[test]
fn solo_guesses_are_told_to_everybody() {
    let mut game = Game::with_word(9, Player::new(1), "CAT", 2, false);
    let outcome = game.guess_letter(1, 'C');
    assert_eq!(game.notification(outcome), Some(EventData::new(0, 9, String::from("letter_correct"))));
    let outcome = game.guess_letter(1, 'C');
    assert_eq!(outcome, GuessOutcome::AlreadyGuessed);
    assert_eq!(game.notification(outcome), None);
    let outcome = game.guess_letter(1, 'X');
    assert_eq!(game.notification(outcome), Some(EventData::new(0, 9, String::from("letter_wrong"))));
    let outcome = game.guess_letter(1, 'Y');
    assert_eq!(game.notification(outcome), Some(EventData::new(0, 9, String::from("lost"))));
}

#[test]
fn guesses_in_turn_are_told_to_the_next_player() {
    let mut game = Game::waiting(9, "CAT", 5, true);
    game.add_player(Player::new(1));
    game.add_player(Player::new(2));
    game.start();
    let outcome = game.guess_letter(2, 'C');
    assert_eq!(outcome, GuessOutcome::NotYourTurn);
    assert_eq!(game.notification(outcome), None);
    let outcome = game.guess_letter(1, 'C');
    assert_eq!(game.notification(outcome), Some(EventData::new(2, 9, String::from("letter_correct"))));
    let outcome = game.guess_letter(2, 'X');
    assert_eq!(game.notification(outcome), Some(EventData::new(1, 9, String::from("letter_wrong"))));
    let outcome = game.guess_letter(1, 'X');
    assert_eq!(outcome, GuessOutcome::AlreadyGuessed);
    assert_eq!(game.notification(outcome), Some(EventData::new(2, 9, String::from("turn_advance"))));
    game.guess_letter(2, 'A');
    let outcome = game.guess_letter(1, 'T');
    assert_eq!(outcome, GuessOutcome::Solved);
    assert_eq!(game.notification(outcome), Some(EventData::new(0, 9, String::from("solved"))));
}
