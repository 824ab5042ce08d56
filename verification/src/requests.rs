//! What the request handlers decide: who sends a request, what the server
//! answers, and what a guess does to the game of the player.

use vstd::prelude::*;

use crate::events::{game_deleted_event, EventData};
use crate::game::{
    default_player, guess_model, notification_model, Game, GameState, GuessOutcome, PlayerView,
};
use crate::manager::{
    delete_model, lemma_owner_from, owner_of, registered_as, token_taken, GameManager,
    ManagerView, RegisterResult,
};
use crate::registry_laws::law_play_keeps_wf;
use crate::request_data::{Character, PlayerAuth, PlayerAuthError};
use crate::text::{characters_of, normalized};

verus! {

/// The error with which a text is turned down as an identifier.
#[verifier::external_type_specification]
#[verifier::external_body]
pub struct ExUuidError(uuid::Error);

/// The identifier that a text stands for, in any of the spellings that the
/// `uuid` crate reads; nothing for a text that is none of them.
pub uninterp spec fn parsed_uuid(text: Seq<char>) -> Option<u128>;

/// Reads an identifier.
///
/// Trusted: calls `Uuid::parse_str` and takes the value as a number with
/// `Uuid::as_u128`. Which texts are read, and as what, is left to the name
/// `parsed_uuid`; the error comes back as the crate made it.
#[verifier::external_body]
pub(crate) fn parse_uuid(text: &str) -> (r: Result<u128, uuid::Error>)
    ensures
        match r {
            Ok(id) => parsed_uuid(text@) == Some(id),
            Err(_) => parsed_uuid(text@) is None,
        },
{
    uuid::Uuid::parse_str(text).map(|id| id.as_u128())
}

/// The text of a cookie, if the cookie is there.
pub open spec fn cookie_text(cookie: Option<&str>) -> Option<Seq<char>> {
    match cookie {
        Some(value) => Some(value@),
        None => None,
    }
}

/// The token that the `uuid` cookie stands for.
pub open spec fn cookie_token(cookie: Option<Seq<char>>) -> Result<u128, PlayerAuthError> {
    match cookie {
        Some(value) => match parsed_uuid(value) {
            Some(id) => Ok(id),
            None => Err(PlayerAuthError::Invalid),
        },
        None => Err(PlayerAuthError::Missing),
    }
}

/// Retrieves the token of the player from the value of the `uuid` cookie:
/// missing where there is no cookie, invalid where its value is no
/// identifier.
pub fn uuid_from_cookies(cookie: Option<&str>) -> (r: Result<u128, PlayerAuthError>)
    ensures
        r == cookie_token(cookie_text(cookie)),
{
    match cookie {
        Some(value) => match parse_uuid(value) {
            Ok(id) => Ok(id),
            Err(_) => Err(PlayerAuthError::Invalid),
        },
        None => Err(PlayerAuthError::Missing),
    }
}

/// The authentication that a request with the given `uuid` cookie brings.
pub fn authenticate(game_manager: &GameManager, cookie: Option<&str>) -> (r: Result<
    PlayerAuth,
    PlayerAuthError,
>)
    ensures
        r == match cookie_token(cookie_text(cookie)) {
            Ok(player_id) => match owner_of(game_manager@.games, player_id) {
                Some(i) => Ok::<PlayerAuth, PlayerAuthError>(
                    PlayerAuth { player_id, game_id: game_manager@.games[i].game_id },
                ),
                None => Err(PlayerAuthError::Invalid),
            },
            Err(error) => Err(error),
        },
{
    match uuid_from_cookies(cookie) {
        Ok(player_id) => PlayerAuth::for_player(game_manager, player_id),
        Err(error) => Err(error),
    }
}

/// What a decimal digit counts.
pub open spec fn digit_value(c: char) -> Option<int> {
    if '0' <= c <= '9' {
        Some(c as int - 48)
    } else {
        None
    }
}

/// The number that a run of decimal digits stands for; nothing for an empty
/// run and for one with anything but digits in it.
pub open spec fn digits_value(digits: Seq<char>) -> Option<int>
    decreases digits.len(),
{
    if digits.len() == 0 {
        None
    } else {
        match digit_value(digits.last()) {
            None => None,
            Some(unit) => if digits.len() == 1 {
                Some(unit)
            } else {
                match digits_value(digits.drop_last()) {
                    Some(tens) => Some(10 * tens + unit),
                    None => None,
                }
            },
        }
    }
}

/// The number that a text stands for: decimal digits, with `+` or `-` in
/// front of them or without.
pub open spec fn decimal_value(text: Seq<char>) -> Option<int> {
    if text.len() > 0 && text[0] == '-' {
        match digits_value(text.drop_first()) {
            Some(value) => Some(-value),
            None => None,
        }
    } else if text.len() > 0 && text[0] == '+' {
        digits_value(text.drop_first())
    } else {
        digits_value(text)
    }
}

/// The user id that a text stands for: its number, if that is one of 32
/// bits.
pub open spec fn user_id_of(text: Seq<char>) -> Option<i32> {
    match decimal_value(text) {
        Some(value) => if i32::MIN <= value <= i32::MAX {
            Some(value as i32)
        } else {
            None
        },
        None => None,
    }
}

/// A run that stands for a number has only digits, and the number is not
/// negative.
proof fn lemma_digits_value(digits: Seq<char>)
    ensures
        match digits_value(digits) {
            Some(value) => value >= 0 && forall|k: int|
                0 <= k < digits.len() ==> digit_value(#[trigger] digits[k]) is Some,
            None => true,
        },
    decreases digits.len(),
{
    if digits.len() > 1 {
        lemma_digits_value(digits.drop_last());
        if digits_value(digits) is Some {
            assert forall|k: int| 0 <= k < digits.len() implies digit_value(
                #[trigger] digits[k],
            ) is Some by {
                if k < digits.len() - 1 {
                    assert(digits.drop_last()[k] == digits[k]);
                }
            }
        }
    }
}

/// A run with anything but a digit in it stands for no number.
proof fn lemma_not_a_digit(digits: Seq<char>, k: int)
    requires
        0 <= k < digits.len(),
        digit_value(digits[k]) is None,
    ensures
        digits_value(digits) is None,
{
    lemma_digits_value(digits);
}

/// Reads a user id: decimal digits, with a sign or without, that give a
/// number of 32 bits.
pub fn parse_user_id(text: &str) -> (r: Option<i32>)
    ensures
        r == user_id_of(text@),
{
    let chars = characters_of(text);
    let n = chars.len();
    if n == 0 {
        return None;
    }
    let negative = chars[0] == '-';
    let start: usize = if chars[0] == '-' || chars[0] == '+' {
        1
    } else {
        0
    };
    let ghost digits = chars@.subrange(start as int, n as int);
    proof {
        if start == 1 {
            assert(digits =~= text@.drop_first());
        } else {
            assert(digits =~= text@);
        }
    }
    assert(decimal_value(text@) == match digits_value(digits) {
        Some(value) => Some(if negative { -value } else { value }),
        None => None,
    });
    if start == n {
        return None;
    }
    let limit: i64 = 2147483648;
    let mut value: i64 = 0;
    let mut too_big = false;
    let mut i: usize = start;
    while i < n
        invariant
            start <= i <= n,
            n == chars@.len(),
            digits == chars@.subrange(start as int, n as int),
            limit == 2147483648,
            decimal_value(text@) == match digits_value(digits) {
                Some(value) => Some(if negative { -value } else { value }),
                None => None,
            },
            i == start ==> value == 0 && !too_big,
            i > start ==> match digits_value(digits.take(i - start)) {
                Some(so_far) => if too_big {
                    so_far > limit
                } else {
                    so_far == value && 0 <= value <= limit
                },
                None => false,
            },
        decreases n - i,
    {
        let c = chars[i];
        proof {
            let seen = digits.take(i - start);
            let next = digits.take(i - start + 1);
            assert(next.drop_last() =~= seen);
            assert(next.last() == c);
            assert(digits[i - start] == c);
        }
        if !('0' <= c && c <= '9') {
            proof {
                lemma_not_a_digit(digits, i - start);
            }
            return None;
        }
        let unit: i64 = (c as u32 - 48) as i64;
        if !too_big {
            value = value * 10 + unit;
            if value > limit {
                too_big = true;
            }
        }
        i += 1;
    }
    assert(digits.take(n - start) == digits);
    if too_big {
        None
    } else if negative {
        Some((0 - value) as i32)
    } else if value < limit {
        Some(value as i32)
    } else {
        None
    }
}

/// Retrieves the user id from the value of the `userid` cookie, if the
/// cookie is there. The value has to be a user id: see `parse_user_id`.
pub fn user_id_from_cookies(cookie: Option<&str>) -> (r: Option<i32>)
    requires
        match cookie {
            Some(value) => user_id_of(value@) is Some,
            None => true,
        },
    ensures
        r == match cookie {
            Some(value) => user_id_of(value@),
            None => None,
        },
{
    match cookie {
        Some(value) => parse_user_id(value),
        None => None,
    }
}

/// What the server says of a token: `win` or `lost` where the player's game
/// is over, `playing` where it goes on, `registered` where the player waits
/// for a game to begin, and `false` where nobody has the token.
pub open spec fn status_text(v: ManagerView, token: Option<u128>) -> Seq<char> {
    match token {
        Some(id) => match owner_of(v.games, id) {
            Some(i) => match v.games[i].state {
                GameState::Done(true) => "win"@,
                GameState::Done(false) => "lost"@,
                _ => "playing"@,
            },
            None => if token_taken(v, id) {
                "registered"@
            } else {
                "false"@
            },
        },
        None => "false"@,
    }
}

/// What the server says of a token, or of a request without one.
pub fn registration_status(game_manager: &GameManager, token: Option<u128>) -> (r: String)
    ensures
        r@ == status_text(game_manager@, token),
{
    let userid = match token {
        Some(id) => id,
        None => {
            return "false".to_owned();
        },
    };
    match game_manager.find_game(userid) {
        Some(game) => match game.completed() {
            Some(win) => {
                if win {
                    "win".to_owned()
                } else {
                    "lost".to_owned()
                }
            },
            None => "playing".to_owned(),
        },
        None => {
            if game_manager.id_taken(userid) {
                "registered".to_owned()
            } else {
                "false".to_owned()
            }
        },
    }
}

/// What the server says of the player behind the `uuid` cookie of a
/// request; a cookie that is missing or invalid counts as no token.
pub fn registered(game_manager: &GameManager, cookie: Option<&str>) -> (r: String)
    ensures
        r@ == status_text(
            game_manager@,
            match cookie_token(cookie_text(cookie)) {
                Ok(id) => Some(id),
                Err(_) => None,
            },
        ),
{
    match uuid_from_cookies(cookie) {
        Ok(id) => registration_status(game_manager, Some(id)),
        Err(_) => registration_status(game_manager, None),
    }
}

/// The word of a game that is over, and a refusal for one that is not.
pub fn word(game: &Game) -> (r: String)
    ensures
        r@ == if game@.state is Done {
            crate::game::characters(game@.word)
        } else {
            "Unable to return word: Game has to end first!"@
        },
{
    match game.word() {
        Some(word) => word,
        None => "Unable to return word: Game has to end first!".to_owned(),
    }
}

/// The game a player is assigned to, by the player's authentication.
pub fn game_by_player_auth(game_manager: &mut GameManager, player_auth: PlayerAuth) -> (r: Option<
    &mut Game,
>)
    ensures
        match r {
            Some(game) => match owner_of(old(game_manager)@.games, player_auth.player_id) {
                Some(i) => {
                    &&& 0 <= i < old(game_manager)@.games.len()
                    &&& game@ == old(game_manager)@.games[i]
                    &&& final(game_manager)@ =~= (ManagerView {
                        games: old(game_manager)@.games.update(i, final(game)@),
                        ..old(game_manager)@
                    })
                },
                None => false,
            },
            None => {
                &&& owner_of(old(game_manager)@.games, player_auth.player_id) is None
                &&& final(game_manager)@ == old(game_manager)@
            },
        },
        old(game_manager).wf() ==> match r {
            Some(game) => game.wf(),
            None => true,
        },
{
    game_manager.game_by_player_id(player_auth.player_id)
}

/// Submits a character as the guess of an authenticated player to the
/// player's game, and gives what came of it together with the message to
/// publish; nothing where the player has no game that has begun.
pub fn submit_char(game_manager: &mut GameManager, player_auth: PlayerAuth, character: Character) -> (r:
    Option<(GuessOutcome, Option<EventData>)>)
    requires
        old(game_manager).wf(),
    ensures
        final(game_manager).wf(),
        match (r, owner_of(old(game_manager)@.games, player_auth.player_id)) {
            (Some((outcome, event)), Some(i)) => {
                let played = guess_model(
                    old(game_manager)@.games[i],
                    player_auth.player_id,
                    normalized(character.character),
                );
                &&& outcome == played.1
                &&& final(game_manager)@ == (ManagerView {
                    games: old(game_manager)@.games.update(i, played.0),
                    ..old(game_manager)@
                })
                &&& match event {
                    Some(message) => notification_model(played.0, outcome) == Some(message@),
                    None => notification_model(played.0, outcome) is None,
                }
            },
            (None, None) => final(game_manager)@ == old(game_manager)@,
            _ => false,
        },
{
    proof {
        lemma_owner_from(game_manager@.games, player_auth.player_id, 0);
        match owner_of(game_manager@.games, player_auth.player_id) {
            Some(i) => {
                law_play_keeps_wf(
                    game_manager@,
                    i,
                    player_auth.player_id,
                    normalized(character.character),
                );
            },
            None => {},
        }
    }
    match game_by_player_auth(game_manager, player_auth) {
        Some(game) => {
            let outcome = game.guess_letter(player_auth.player_id, character.character);
            let event = game.notification(outcome);
            Some((outcome, event))
        },
        None => None,
    }
}

/// The name that a request brought, if it brought one.
pub open spec fn name_text(username: Option<String>) -> Option<Seq<char>> {
    match username {
        Some(name) => Some(name@),
        None => None,
    }
}

/// The player that a registration makes of a token: under the name that the
/// request brought, or under the default name.
pub open spec fn registering_player(id: u128, username: Option<Seq<char>>) -> PlayerView {
    match username {
        Some(name) => PlayerView { id, name },
        None => default_player(id),
    }
}

/// Registers a new player, under the name that the request brought if it
/// brought one, and says where the player has come to play; see
/// `GameManager::register_named`.
pub fn register(game_manager: &mut GameManager, username: Option<String>) -> (r: RegisterResult)
    requires
        old(game_manager).wf(),
    ensures
        final(game_manager).wf(),
        !token_taken(old(game_manager)@, r.player_id),
        registered_as(
            old(game_manager)@,
            registering_player(r.player_id, name_text(username)),
            final(game_manager)@,
            r,
        ),
{
    match username {
        Some(name) => game_manager.register_named(name),
        None => game_manager.register_game(),
    }
}

/// Deletes the game of an authenticated player with all its players, and
/// gives the message that tells the clients of the game that it is gone. The
/// message is made whether or not there was a game left to delete.
pub fn delete_game(game_manager: &mut GameManager, player_auth: PlayerAuth) -> (r: EventData)
    requires
        old(game_manager).wf(),
    ensures
        final(game_manager).wf(),
        final(game_manager)@ == delete_model(old(game_manager)@, player_auth.player_id).0,
        r@ == game_deleted_event(player_auth.game_id),
{
    game_manager.delete_game(player_auth.player_id);
    EventData::game_deleted(player_auth.game_id)
}

} // verus!
