//! What a request brings with it: the proof of who the player is, and the
//! letter that is guessed.

use vstd::prelude::*;

use crate::manager::{owner_of, GameManager};

verus! {

/// Errors that can occur when the player tries to authenticate a request.
#[derive(Clone, Copy, Debug, PartialEq, Eq, Structural)]
pub enum PlayerAuthError {
    /// The transmitted id-cookie is missing.
    Missing,
    /// The transmitted id-cookie is invalid.
    Invalid,
}

/// Symbolizes the authentication of a player.
///
/// An authenticated player is assigned to a game that has begun.
#[derive(Clone, Copy, Debug, PartialEq, Eq, Structural)]
pub struct PlayerAuth {
    /// The unique id that identifies this player.
    pub player_id: u128,
    /// The game in which the player plays.
    pub game_id: u128,
}

/// The character that a player submits as a guess.
#[derive(Clone, Copy, Debug, PartialEq, Eq, Structural)]
pub struct Character {
    pub character: char,
}

impl PlayerAuth {
    /// The authentication of the player with the token `player_id`: with
    /// the game that the player plays in, or invalid where the player has
    /// no game that has begun.
    pub fn for_player(game_manager: &GameManager, player_id: u128) -> (r: Result<
        PlayerAuth,
        PlayerAuthError,
    >)
        ensures
            r == match owner_of(game_manager@.games, player_id) {
                Some(i) => Ok::<PlayerAuth, PlayerAuthError>(
                    PlayerAuth { player_id, game_id: game_manager@.games[i].game_id },
                ),
                None => Err(PlayerAuthError::Invalid),
            },
    {
        match game_manager.find_game(player_id) {
            Some(game) => Ok(PlayerAuth { player_id, game_id: game.game_id() }),
            None => Err(PlayerAuthError::Invalid),
        }
    }
}

} // verus!
