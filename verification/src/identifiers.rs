//! The identifiers that a registry has in use are few: among any run of
//! identifiers that is longer than their number, one is free.

use vstd::prelude::*;

use crate::game::{lemma_position_from, GameView, PlayerView};
use crate::manager::{game_id_used, holds, lemma_owner_from, manager_wf, token_taken, ManagerView};

verus! {

/// Whether the registry has `id` in use: as the id of a game where
/// `of_games` holds, and else as the token of a player.
pub open spec fn in_use(v: ManagerView, of_games: bool, id: u128) -> bool {
    if of_games {
        game_id_used(v, id)
    } else {
        token_taken(v, id)
    }
}

/// The identifiers of one sort that the registry has in use.
pub open spec fn used_ids(v: ManagerView, of_games: bool) -> Set<u128> {
    Set::new(|id: u128| in_use(v, of_games, id))
}

/// How far `id` lies behind `start` when one counts on from `start` and
/// begins again at zero after the largest identifier.
pub open spec fn offset(start: u128, id: u128) -> int {
    if id >= start {
        id - start
    } else {
        id + 0x1_0000_0000_0000_0000_0000_0000_0000_0000 - start
    }
}

/// The identifier that follows `id` when one counts on and begins again at
/// zero after the largest identifier.
pub open spec fn following(id: u128) -> u128 {
    if id == u128::MAX {
        0
    } else {
        (id + 1) as u128
    }
}

/// Whether `id` is the first identifier at or after `start` that the
/// registry does not have in use: it is free, and every identifier that lies
/// fewer steps behind `start` is in use.
pub open spec fn first_free_from(v: ManagerView, of_games: bool, start: u128, id: u128) -> bool {
    &&& !in_use(v, of_games, id)
    &&& forall|other: u128|
        offset(start, other) < offset(start, id) ==> #[trigger] in_use(v, of_games, other)
}

/// The tokens of the players of a game, in turn order.
spec fn player_ids(g: GameView) -> Seq<u128> {
    g.players.map_values(|p: PlayerView| p.id)
}

/// The tokens of the players of the first `n` games, game after game.
spec fn tokens_upto(games: Seq<GameView>, n: int) -> Seq<u128>
    decreases n,
{
    if n <= 0 {
        Seq::empty()
    } else {
        tokens_upto(games, n - 1) + player_ids(games[n - 1])
    }
}

/// The ids of the first `n` games.
spec fn game_ids_upto(games: Seq<GameView>, n: int) -> Seq<u128>
    decreases n,
{
    if n <= 0 {
        Seq::empty()
    } else {
        game_ids_upto(games, n - 1).push(games[n - 1].game_id)
    }
}

proof fn lemma_player_ids(g: GameView, t: u128)
    ensures
        holds(g, t) ==> player_ids(g).contains(t),
{
    lemma_position_from(g.players, t, 0);
    if holds(g, t) {
        let i = crate::game::position_of(g.players, t).unwrap();
        assert(player_ids(g)[i] == t);
    }
}

proof fn lemma_tokens_upto(games: Seq<GameView>, n: int, i: int, t: u128)
    requires
        0 <= i < n <= games.len(),
        holds(games[i], t),
    ensures
        tokens_upto(games, n).contains(t),
    decreases n,
{
    let before = tokens_upto(games, n - 1);
    let last = player_ids(games[n - 1]);
    if i == n - 1 {
        lemma_player_ids(games[i], t);
        let k = choose|k: int| 0 <= k < last.len() && last[k] == t;
        assert((before + last)[before.len() + k] == t);
    } else {
        lemma_tokens_upto(games, n - 1, i, t);
        let k = choose|k: int| 0 <= k < before.len() && before[k] == t;
        assert((before + last)[k] == t);
    }
}

proof fn lemma_tokens_len(games: Seq<GameView>, n: int)
    requires
        0 <= n <= games.len(),
        forall|j: int| 0 <= j < games.len() ==> (#[trigger] games[j]).players.len() <= usize::MAX,
    ensures
        tokens_upto(games, n).len() <= n * 0xffff_ffff_ffff_ffff,
    decreases n,
{
    if n > 0 {
        lemma_tokens_len(games, n - 1);
        assert(games[n - 1].players.len() <= usize::MAX);
    }
}

proof fn lemma_game_ids_upto(games: Seq<GameView>, n: int, i: int)
    requires
        0 <= i < n <= games.len(),
    ensures
        game_ids_upto(games, n).len() == n,
        game_ids_upto(games, n).contains(games[i].game_id),
    decreases n,
{
    lemma_game_ids_len(games, n);
    if i == n - 1 {
        assert(game_ids_upto(games, n)[n - 1] == games[i].game_id);
    } else {
        lemma_game_ids_upto(games, n - 1, i);
        let before = game_ids_upto(games, n - 1);
        let k = choose|k: int| 0 <= k < before.len() && before[k] == games[i].game_id;
        assert(game_ids_upto(games, n)[k] == games[i].game_id);
    }
}

proof fn lemma_game_ids_len(games: Seq<GameView>, n: int)
    requires
        0 <= n <= games.len(),
    ensures
        game_ids_upto(games, n).len() == n,
    decreases n,
{
    if n > 0 {
        lemma_game_ids_len(games, n - 1);
    }
}

/// A registry has fewer identifiers of either sort in use than there are
/// identifiers.
pub proof fn lemma_used_ids_are_few(v: ManagerView, of_games: bool)
    requires
        manager_wf(v),
    ensures
        used_ids(v, of_games).finite(),
        used_ids(v, of_games).len() < 0x1_0000_0000_0000_0000_0000_0000_0000_0000,
{
    let n = v.games.len() as int;
    if of_games {
        let active = game_ids_upto(v.games, n);
        let all = match v.open {
            Some(g) => active.push(g.game_id),
            None => active,
        };
        lemma_game_ids_len(v.games, n);
        assert forall|id: u128| used_ids(v, of_games).contains(id) implies all.to_set().contains(id) by {
            if exists|i: int| 0 <= i < v.games.len() && (#[trigger] v.games[i]).game_id == id {
                let i = choose|i: int| 0 <= i < v.games.len() && (#[trigger] v.games[i]).game_id == id;
                lemma_game_ids_upto(v.games, n, i);
                let k = choose|k: int| 0 <= k < active.len() && active[k] == id;
                assert(all[k] == id);
            } else {
                assert(all[active.len() as int] == id);
            }
        }
        vstd::seq_lib::seq_to_set_is_finite(all);
        all.lemma_cardinality_of_set();
        vstd::set_lib::lemma_len_subset(used_ids(v, of_games), all.to_set());
    } else {
        let active = tokens_upto(v.games, n);
        let all = match v.open {
            Some(g) => active + player_ids(g),
            None => active,
        };
        lemma_tokens_len(v.games, n);
        assert forall|id: u128| used_ids(v, of_games).contains(id) implies all.to_set().contains(id) by {
            lemma_owner_from(v.games, id, 0);
            match crate::manager::owner_of(v.games, id) {
                Some(i) => {
                    lemma_tokens_upto(v.games, n, i, id);
                    let k = choose|k: int| 0 <= k < active.len() && active[k] == id;
                    assert(all[k] == id);
                },
                None => {
                    let g = v.open.unwrap();
                    lemma_player_ids(g, id);
                    let waiting = player_ids(g);
                    let k = choose|k: int| 0 <= k < waiting.len() && waiting[k] == id;
                    assert(all[active.len() + k] == id);
                },
            }
        }
        vstd::seq_lib::seq_to_set_is_finite(all);
        all.lemma_cardinality_of_set();
        vstd::set_lib::lemma_len_subset(used_ids(v, of_games), all.to_set());
    }
}

/// The identifiers that lie fewer than `k` steps behind `start`.
pub open spec fn run_from(start: u128, k: int) -> Set<u128> {
    Set::new(|id: u128| offset(start, id) < k)
}

/// A run of `k` steps holds `k` identifiers, as long as it does not come
/// round to its start.
pub proof fn lemma_run_len(start: u128, k: int)
    requires
        0 <= k <= 0x1_0000_0000_0000_0000_0000_0000_0000_0000,
    ensures
        run_from(start, k).finite(),
        run_from(start, k).len() == k,
    decreases k,
{
    if k == 0 {
        assert(run_from(start, 0) =~= Set::empty());
    } else {
        lemma_run_len(start, k - 1);
        let last: u128 = if start as int + (k - 1) <= u128::MAX {
            (start + (k - 1)) as u128
        } else {
            (start + (k - 1) - 0x1_0000_0000_0000_0000_0000_0000_0000_0000) as u128
        };
        assert(offset(start, last) == k - 1);
        assert(run_from(start, k) =~= run_from(start, k - 1).insert(last));
    }
}

} // verus!
