//! What holds of a registry over registrations, deletions and play.

use vstd::prelude::*;

use crate::game::{game_wf, guess_model, lemma_position_push, GameState, GameView, PlayerView};
use crate::game_laws::{law_guess_frame, law_guess_keeps_wf};
use crate::manager::{
    capacity, delete_model, game_id_used, holds, lemma_delete_wf, lemma_owner_from,
    lemma_register_wf, manager_wf, owner_of, register_model, token_taken,
    ManagerView, RegisterOutcome,
};

verus! {

/// An active game may change in any way that leaves it well formed, begun,
/// and with its id and its players: the registry stays well formed. Nothing
/// that a game offers changes the id or the players of a game that has begun.
pub proof fn law_changed_game_keeps_wf(v: ManagerView, at: int, game: GameView)
    requires
        manager_wf(v),
        0 <= at < v.games.len(),
        game_wf(game),
        game.state != GameState::Waiting,
        game.game_id == v.games[at].game_id,
        game.players == v.games[at].players,
    ensures
        manager_wf(ManagerView { games: v.games.update(at, game), ..v }),
{
    let games = v.games.update(at, game);
    assert forall|i: int, t: u128| 0 <= i < games.len() implies #[trigger] holds(games[i], t) == holds(
        v.games[i],
        t,
    ) by {}
    assert forall|i: int, j: int, t: u128| 0 <= i < j < games.len() implies !(#[trigger] holds(
        games[i],
        t,
    ) && #[trigger] holds(games[j], t)) by {
        assert(holds(games[i], t) == holds(v.games[i], t));
        assert(holds(games[j], t) == holds(v.games[j], t));
    }
    match v.open {
        Some(g) => {
            assert forall|i: int, t: u128| 0 <= i < games.len() implies !(#[trigger] holds(
                games[i],
                t,
            ) && holds(g, t)) by {
                assert(holds(games[i], t) == holds(v.games[i], t));
            }
        },
        None => {},
    }
}

/// A guess in one of the active games leaves the registry well formed.
pub proof fn law_play_keeps_wf(v: ManagerView, at: int, id: u128, letter: char)
    requires
        manager_wf(v),
        0 <= at < v.games.len(),
    ensures
        manager_wf(ManagerView { games: v.games.update(at, guess_model(v.games[at], id, letter).0), ..v }),
{
    law_guess_keeps_wf(v.games[at], id, letter);
    law_guess_frame(v.games[at], id, letter);
    law_changed_game_keeps_wf(v, at, guess_model(v.games[at], id, letter).0);
}

/// Every registration that is not refused, and every deletion, leaves the
/// registry well formed: no token and no game id is in use twice, and the
/// active games stay within the bound.
pub proof fn law_registry_stays_wf(
    v: ManagerView,
    player: PlayerView,
    game_id: u128,
    word: Seq<char>,
    id: u128,
)
    requires
        manager_wf(v),
    ensures
        !token_taken(v, player.id) && (v.open is None ==> !game_id_used(v, game_id)) ==> manager_wf(
            register_model(v, player, game_id, word).0,
        ),
        manager_wf(delete_model(v, id).0),
{
    if !token_taken(v, player.id) && (v.open is None ==> !game_id_used(v, game_id)) {
        lemma_register_wf(v, player, game_id, word);
    }
    lemma_delete_wf(v, id);
}

/// Where two players make a game, the first to register waits and the
/// second begins the game: both are told the same game id, the first has no
/// game to play in while waiting, and afterwards both are found in one and
/// the same running game.
pub proof fn law_two_players_are_paired(
    v: ManagerView,
    first: PlayerView,
    second: PlayerView,
    game_id: u128,
    word: Seq<char>,
    other_id: u128,
    other_word: Seq<char>,
)
    requires
        manager_wf(v),
        v.open is None,
        v.settings.players_per_game == 2,
        v.settings.lives > 0,
        !token_taken(v, first.id),
        !token_taken(v, second.id),
        first.id != second.id,
        !game_id_used(v, game_id),
    ensures
        ({
            let (waiting, told_first) = register_model(v, first, game_id, word);
            let (begun, told_second) = register_model(waiting, second, other_id, other_word);
            &&& told_first.outcome == RegisterOutcome::Waiting
            &&& told_second.outcome == RegisterOutcome::Started
            &&& told_first.game_id == game_id
            &&& told_second.game_id == game_id
            &&& token_taken(waiting, first.id)
            &&& owner_of(waiting.games, first.id) is None
            &&& owner_of(begun.games, first.id) is Some
            &&& owner_of(begun.games, first.id) == owner_of(begun.games, second.id)
            &&& begun.games[owner_of(begun.games, first.id).unwrap()].game_id == game_id
            &&& begun.games[owner_of(begun.games, first.id).unwrap()].state == GameState::Running
            &&& begun.open is None
        }),
{
    let (waiting, told_first) = register_model(v, first, game_id, word);
    let (begun, told_second) = register_model(waiting, second, other_id, other_word);
    let lobby = waiting.open.unwrap();
    lemma_position_push(Seq::empty(), first, first.id);
    assert(Seq::<PlayerView>::empty().push(first) =~= seq![first]);
    assert(holds(lobby, first.id));
    lemma_owner_from(v.games, first.id, 0);
    lemma_owner_from(v.games, second.id, 0);
    let game = begun.games.last();
    lemma_position_push(lobby.players, second, first.id);
    lemma_position_push(lobby.players, second, second.id);
    assert(holds(game, first.id) && holds(game, second.id));
    let last = begun.games.len() - 1;
    assert forall|k: int| 0 <= k < last implies !holds(#[trigger] begun.games[k], first.id) && !holds(
        begun.games[k],
        second.id,
    ) by {
        if v.games.len() >= capacity(v.settings) {
            assert(begun.games[k] == v.games[k + 1]);
        } else {
            assert(begun.games[k] == v.games[k]);
        }
    }
    lemma_owner_from(begun.games, first.id, 0);
    lemma_owner_from(begun.games, second.id, 0);
}

/// When a registration begins a game and the active games are as many as
/// the bound allows, the oldest of them goes: its id is reported, none of its
/// players is found in a game any more, and the other games move up in front
/// of the new one, in which the new player is found.
pub proof fn law_oldest_game_makes_room(
    v: ManagerView,
    player: PlayerView,
    game_id: u128,
    word: Seq<char>,
    token: u128,
)
    requires
        manager_wf(v),
        !token_taken(v, player.id),
        v.open is None ==> !game_id_used(v, game_id),
        register_model(v, player, game_id, word).1.outcome == RegisterOutcome::Started,
        v.games.len() == capacity(v.settings),
        holds(v.games[0], token),
    ensures
        ({
            let (after, told) = register_model(v, player, game_id, word);
            &&& told.evicted == Some(v.games[0].game_id)
            &&& after.games.len() == v.games.len()
            &&& forall|i: int| 1 <= i < v.games.len() ==> #[trigger] after.games[i - 1] == v.games[i]
            &&& owner_of(after.games, token) is None
            &&& !token_taken(after, token)
            &&& owner_of(after.games, player.id) == Some(after.games.len() - 1)
            &&& after.games.last().game_id == told.game_id
        }),
{
    let (after, told) = register_model(v, player, game_id, word);
    let game = after.games.last();
    lemma_owner_from(v.games, player.id, 0);
    lemma_owner_from(v.games, token, 0);
    match v.open {
        Some(g) => {
            assert forall|t: u128| holds(game, t) == (holds(g, t) || t == player.id) by {
                lemma_position_push(g.players, player, t);
            }
            assert(!(holds(v.games[0], token) && holds(g, token)));
        },
        None => {
            assert forall|t: u128| holds(game, t) == (t == player.id) by {
                lemma_position_push(Seq::empty(), player, t);
                assert(Seq::<PlayerView>::empty().push(player) =~= seq![player]);
            }
        },
    }
    assert(holds(game, player.id) && !holds(game, token));
    assert forall|k: int| 0 <= k < after.games.len() - 1 implies !holds(
        #[trigger] after.games[k],
        token,
    ) && !holds(after.games[k], player.id) by {
        assert(after.games[k] == v.games[k + 1]);
        assert(!(holds(v.games[0], token) && holds(v.games[k + 1], token)));
    }
    lemma_owner_from(after.games, token, 0);
    lemma_owner_from(after.games, player.id, 0);
}

/// A deletion frees the id of the game and the tokens of all its players at
/// once, and a second deletion finds nothing more to do.
pub proof fn law_deletion_frees_the_game(v: ManagerView, id: u128, mate: u128)
    requires
        manager_wf(v),
        token_taken(v, id),
    ensures
        ({
            let (after, found) = delete_model(v, id);
            let game = match owner_of(v.games, id) {
                Some(i) => v.games[i],
                None => v.open.unwrap(),
            };
            &&& found
            &&& !token_taken(after, id)
            &&& holds(game, mate) ==> !token_taken(after, mate)
            &&& !game_id_used(after, game.game_id)
            &&& delete_model(after, id) == (after, false)
        }),
{
    let (after, found) = delete_model(v, id);
    lemma_owner_from(v.games, id, 0);
    lemma_owner_from(v.games, mate, 0);
    match owner_of(v.games, id) {
        Some(at) => {
            let game = v.games[at];
            assert forall|k: int| 0 <= k < after.games.len() implies #[trigger] after.games[k]
                == v.games[if k < at {
                k
            } else {
                k + 1
            }] by {}
            assert forall|k: int| 0 <= k < after.games.len() implies !holds(
                #[trigger] after.games[k],
                id,
            ) && (holds(game, mate) ==> !holds(after.games[k], mate)) && after.games[k].game_id
                != game.game_id by {
                let from = if k < at { k } else { k + 1 };
                assert(after.games[k] == v.games[from]);
                if from < at {
                    assert(!(holds(v.games[from], id) && holds(v.games[at], id)));
                    assert(!(holds(v.games[from], mate) && holds(v.games[at], mate)));
                } else {
                    assert(!(holds(v.games[at], id) && holds(v.games[from], id)));
                    assert(!(holds(v.games[at], mate) && holds(v.games[from], mate)));
                }
            }
            lemma_owner_from(after.games, id, 0);
            lemma_owner_from(after.games, mate, 0);
            match v.open {
                Some(g) => {
                    assert(!(holds(v.games[at], id) && holds(g, id)));
                    assert(!(holds(v.games[at], mate) && holds(g, mate)));
                },
                None => {},
            }
        },
        None => {
            let game = v.open.unwrap();
            assert(after.games == v.games);
            if holds(game, mate) {
                assert forall|k: int| 0 <= k < v.games.len() implies !holds(#[trigger] v.games[k], mate) by {
                    assert(!(holds(v.games[k], mate) && holds(game, mate)));
                }
                lemma_owner_from(after.games, mate, 0);
            }
        },
    }
}

} // verus!
