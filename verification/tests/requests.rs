use hangman::events::EventData;
use hangman::game::{Game, GuessOutcome, Player};
use hangman::manager::{GameManager, Settings};
use hangman::request_data::{Character, PlayerAuth, PlayerAuthError};
use hangman::manager::RegisterOutcome;
use hangman::requests::{
    authenticate, delete_game, game_by_player_auth, parse_user_id, register, registered,
    registration_status, submit_char, user_id_from_cookies, uuid_from_cookies, word,
};

const TOKEN: &str = "a1a2a3a4-b1b2-c1c2-d1d2-d3d4d5d6d7d8";
const TOKEN_VALUE: u128 = 0xa1a2a3a4b1b2c1c2d1d2d3d4d5d6d7d8;

fn lobby() -> GameManager {
    GameManager::with_settings(
        "haus",
        Settings { max_active_games: 10, players_per_game: 2, turn_enforced: false, lives: 1 },
    )
}

#[test]
fn cookie_gives_the_token() {
    assert_eq!(uuid_from_cookies(Some(TOKEN)), Ok(TOKEN_VALUE));
    assert_eq!(uuid_from_cookies(Some("a1a2a3a4b1b2c1c2d1d2d3d4d5d6d7d8")), Ok(TOKEN_VALUE));
    assert_eq!(uuid_from_cookies(Some("00000000-0000-0000-0000-000000000001")), Ok(1));
}

#[test]
fn bad_cookie_is_invalid_and_none_is_missing() {
    assert_eq!(uuid_from_cookies(Some("not a token")), Err(PlayerAuthError::Invalid));
    assert_eq!(uuid_from_cookies(Some("")), Err(PlayerAuthError::Invalid));
    assert_eq!(uuid_from_cookies(None), Err(PlayerAuthError::Missing));
}

#[test]
fn user_ids_are_decimal_numbers() {
    assert_eq!(parse_user_id("42"), Some(42));
    assert_eq!(parse_user_id("0"), Some(0));
    assert_eq!(parse_user_id("007"), Some(7));
    assert_eq!(parse_user_id("+7"), Some(7));
    assert_eq!(parse_user_id("-7"), Some(-7));
    assert_eq!(parse_user_id("-0"), Some(0));
    assert_eq!(parse_user_id("2147483647"), Some(i32::MAX));
    assert_eq!(parse_user_id("-2147483648"), Some(i32::MIN));
    assert_eq!(parse_user_id("2147483648"), None);
    assert_eq!(parse_user_id("-2147483649"), None);
    assert_eq!(parse_user_id("99999999999999999999999999"), None);
    assert_eq!(parse_user_id(""), None);
    assert_eq!(parse_user_id("-"), None);
    assert_eq!(parse_user_id("+"), None);
    assert_eq!(parse_user_id("4x"), None);
    assert_eq!(parse_user_id(" 4"), None);
    assert_eq!(parse_user_id("4 "), None);
    assert_eq!(parse_user_id("--4"), None);
    assert_eq!(parse_user_id("\u{664}"), None);
}

#[test]
fn user_ids_are_read_as_the_standard_library_reads_them() {
    let texts = [
        "1", "-1", "+1", "12345", "000", "+0", "2147483647", "2147483648", "-2147483648",
        "-2147483649", "21474836470", "", "+", "-", "+-1", "1-", "a", "1a", "0x10", "1_000",
        "९", "１", "4294967296", "-00000000000000000001",
    ];
    for text in texts {
        assert_eq!(parse_user_id(text), text.parse::<i32>().ok());
    }
}

#[test]
fn user_id_cookie() {
    assert_eq!(user_id_from_cookies(Some("17")), Some(17));
    assert_eq!(user_id_from_cookies(Some("-3")), Some(-3));
    assert_eq!(user_id_from_cookies(None), None);
}

#[test]
fn status_follows_the_game() {
    let mut manager = lobby();
    assert_eq!(registration_status(&manager, None), "false");
    assert_eq!(registration_status(&manager, Some(1)), "false");
    manager.register_with(Player::new(1), 100, "CAT").unwrap();
    assert_eq!(registration_status(&manager, Some(1)), "registered");
    assert_eq!(registration_status(&manager, Some(2)), "false");
    manager.register_with(Player::new(2), 0, "CAT").unwrap();
    assert_eq!(registration_status(&manager, Some(1)), "playing");
    assert_eq!(registration_status(&manager, Some(2)), "playing");
    manager.game_by_player_id(1).unwrap().guess_letter(2, 'X');
    assert_eq!(registration_status(&manager, Some(1)), "lost");
    manager.register_with(Player::new(3), 300, "A").unwrap();
    manager.register_with(Player::new(4), 0, "A").unwrap();
    manager.game_by_player_id(3).unwrap().guess_letter(4, 'a');
    assert_eq!(registration_status(&manager, Some(4)), "win");
    manager.delete_game(4);
    assert_eq!(registration_status(&manager, Some(4)), "false");
}

#[test]
fn status_by_cookie() {
    let mut manager = lobby();
    manager.register_with(Player::new(TOKEN_VALUE), 100, "CAT").unwrap();
    assert_eq!(registered(&manager, Some(TOKEN)), "registered");
    assert_eq!(registered(&manager, None), "false");
    assert_eq!(registered(&manager, Some("junk")), "false");
    assert_eq!(registered(&manager, Some("00000000-0000-0000-0000-000000000001")), "false");
    manager.register_with(Player::new(1), 0, "CAT").unwrap();
    assert_eq!(registered(&manager, Some(TOKEN)), "playing");
    assert_eq!(registered(&manager, Some("00000000-0000-0000-0000-000000000001")), "playing");
}

#[test]
fn authentication_needs_a_game_that_has_begun() {
    let mut manager = lobby();
    assert_eq!(authenticate(&manager, None), Err(PlayerAuthError::Missing));
    assert_eq!(authenticate(&manager, Some("junk")), Err(PlayerAuthError::Invalid));
    assert_eq!(authenticate(&manager, Some(TOKEN)), Err(PlayerAuthError::Invalid));
    manager.register_with(Player::new(TOKEN_VALUE), 100, "CAT").unwrap();
    assert_eq!(authenticate(&manager, Some(TOKEN)), Err(PlayerAuthError::Invalid));
    manager.register_with(Player::new(1), 0, "CAT").unwrap();
    assert_eq!(
        authenticate(&manager, Some(TOKEN)),
        Ok(PlayerAuth { player_id: TOKEN_VALUE, game_id: 100 })
    );
    assert_eq!(PlayerAuth::for_player(&manager, 1), Ok(PlayerAuth { player_id: 1, game_id: 100 }));
    assert_eq!(PlayerAuth::for_player(&manager, 2), Err(PlayerAuthError::Invalid));
}

#[test]
fn word_is_refused_until_the_game_is_over() {
    let mut game = Game::with_word(1, Player::new(1), "OX", 1, false);
    assert_eq!(word(&game), "Unable to return word: Game has to end first!");
    game.guess_letter(1, 'Z');
    assert_eq!(word(&game), "OX");
}

#[test]
fn game_is_found_by_authentication() {
    let mut manager = GameManager::new("haus");
    let result = manager.register_game();
    let auth = PlayerAuth { player_id: result.player_id, game_id: result.game_id };
    assert_eq!(game_by_player_auth(&mut manager, auth).unwrap().game_id(), result.game_id);
    let stranger = PlayerAuth { player_id: result.player_id.wrapping_add(1), game_id: result.game_id };
    assert!(game_by_player_auth(&mut manager, stranger).is_none());
}

#[test]
fn submitted_character_is_guessed_in_the_players_game() {
    let mut manager = GameManager::with_settings(
        "haus",
        Settings { max_active_games: 10, players_per_game: 1, turn_enforced: false, lives: 2 },
    );
    manager.register_with(Player::new(1), 100, "CAT").unwrap();
    manager.register_with(Player::new(2), 200, "DOG").unwrap();
    let auth = PlayerAuth { player_id: 1, game_id: 100 };
    assert_eq!(
        submit_char(&mut manager, auth, Character { character: 'c' }),
        Some((
            GuessOutcome::CorrectLetter,
            Some(EventData::new(0, 100, String::from("letter_correct")))
        ))
    );
    assert_eq!(
        submit_char(&mut manager, auth, Character { character: 'c' }),
        Some((GuessOutcome::AlreadyGuessed, None))
    );
    assert_eq!(manager.find_game(1).unwrap().game_string(), "C _ _");
    assert_eq!(manager.find_game(2).unwrap().game_string(), "_ _ _");
    let nobody = PlayerAuth { player_id: 3, game_id: 100 };
    assert_eq!(submit_char(&mut manager, nobody, Character { character: 'c' }), None);
}

#[test]
fn registration_takes_the_name_of_the_request() {
    let mut manager = lobby();
    let first = register(&mut manager, Some(String::from("ann")));
    let second = register(&mut manager, None);
    assert_eq!(first.outcome, RegisterOutcome::Waiting);
    assert_eq!(second.outcome, RegisterOutcome::Started);
    assert_eq!(first.game_id, second.game_id);
    let game = manager.find_game(first.player_id).unwrap();
    assert_eq!(game.teammates(first.player_id), "steve");
    assert_eq!(game.teammates(second.player_id), "ann");
}

#[test]
fn deletion_tells_the_players_of_the_game() {
    let mut manager = lobby();
    manager.register_with(Player::new(1), 100, "CAT").unwrap();
    manager.register_with(Player::new(2), 0, "CAT").unwrap();
    let auth = PlayerAuth { player_id: 2, game_id: 100 };
    assert_eq!(delete_game(&mut manager, auth), EventData::game_deleted(100));
    assert!(!manager.id_taken(1));
    assert!(!manager.id_taken(2));
    assert_eq!(delete_game(&mut manager, auth), EventData::game_deleted(100));
    assert_eq!(manager.active_games(), 0);
}
