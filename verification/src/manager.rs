//! The registry of all live games: who plays where, matchmaking, and the
//! bound on the number of games.

use vstd::prelude::*;

use crate::events::{game_deleted_event, game_start_event, EventData, EventView};
use crate::identifiers::{
    first_free_from, in_use, lemma_run_len, lemma_used_ids_are_few, offset, run_from, used_ids,
};
use crate::game::{
    default_player, game_wf, lemma_new_games_wf, lemma_position_from, lemma_position_push,
    position_of, started_view, waiting_view, Game, GameState, GameView, Player, PlayerView,
};
use crate::random::{fresh_id, random_index};
use crate::text::{text_uppercase, uppercase_text};
use crate::words::{lines_of, split_lines, texts, transliterate, transliterated};

verus! {

/// How many lives the players of a game have unless the settings say
/// otherwise.
pub const MAX_LIVES: i32 = 7;

/// How many games are active at the same time unless the settings say
/// otherwise. When the bound is reached the oldest game makes room for a new
/// one.
pub const MAX_ACTIVE_GAMES: usize = 1000;

/// How a registry makes its games.
#[derive(Clone, Copy, Debug, PartialEq, Eq, Structural)]
pub struct Settings {
    /// The bound on the number of active games; zero counts as one.
    pub max_active_games: usize,
    /// How many players a game waits for before it begins. With one or
    /// none every registration begins a game of its own at once.
    pub players_per_game: usize,
    /// Whether the players of a game have to take turns.
    pub turn_enforced: bool,
    /// The lives that a game begins with.
    pub lives: i32,
}

/// The settings of a registry of games for one player each.
pub open spec fn solo_settings() -> Settings {
    Settings {
        max_active_games: MAX_ACTIVE_GAMES,
        players_per_game: 1,
        turn_enforced: false,
        lives: MAX_LIVES,
    }
}

impl Settings {
    /// The settings of a registry of games for one player each.
    pub fn solo() -> (r: Settings)
        ensures
            r == solo_settings(),
    {
        Settings {
            max_active_games: MAX_ACTIVE_GAMES,
            players_per_game: 1,
            turn_enforced: false,
            lives: MAX_LIVES,
        }
    }
}

/// Whether a registration began a game.
#[derive(Clone, Copy, Debug, PartialEq, Eq, Structural)]
pub enum RegisterOutcome {
    /// The player waits in a game that needs more players.
    Waiting,
    /// The game of the player has begun.
    Started,
}

impl RegisterOutcome {
    /// The number under which the outcome goes over the wire: 0 for a player
    /// who waits and 1 for a game that has begun.
    pub fn code(&self) -> (r: i32)
        ensures
            r == match *self {
                RegisterOutcome::Waiting => 0i32,
                RegisterOutcome::Started => 1i32,
            },
    {
        match self {
            RegisterOutcome::Waiting => 0,
            RegisterOutcome::Started => 1,
        }
    }
}

/// What a registration gave.
#[derive(Clone, Copy, Debug, PartialEq, Eq, Structural)]
pub struct RegisterResult {
    /// The token of the new player.
    pub player_id: u128,
    /// The id of the game that the player is in.
    pub game_id: u128,
    pub outcome: RegisterOutcome,
    /// The id of the game that had to make room, if one had to.
    pub evicted: Option<u128>,
}

/// The messages that tell the clients of a registration: that the game which
/// had to make room is gone, and that the game of the player has begun.
pub open spec fn registration_events(result: RegisterResult) -> Seq<EventView> {
    let gone = match result.evicted {
        Some(id) => seq![game_deleted_event(id)],
        None => Seq::empty(),
    };
    if result.outcome == RegisterOutcome::Started {
        gone.push(game_start_event(result.game_id))
    } else {
        gone
    }
}

/// The views of the messages, in order.
pub open spec fn event_views(events: Seq<EventData>) -> Seq<EventView> {
    events.map_values(|e: EventData| e@)
}

impl RegisterResult {
    /// The messages to publish after the registration.
    pub fn notifications(&self) -> (r: Vec<EventData>)
        ensures
            event_views(r@) == registration_events(*self),
    {
        let mut events: Vec<EventData> = Vec::new();
        match self.evicted {
            Some(id) => {
                events.push(EventData::game_deleted(id));
            },
            None => {},
        }
        match self.outcome {
            RegisterOutcome::Started => {
                events.push(EventData::game_start(self.game_id));
            },
            RegisterOutcome::Waiting => {},
        }
        assert(event_views(events@) =~= registration_events(*self));
        events
    }
}

/// Why a registration with given identifiers was refused.
#[derive(Clone, Copy, Debug, PartialEq, Eq, Structural)]
pub enum RegisterError {
    /// A player of the registry has the token already.
    PlayerIdTaken,
    /// A game of the registry has the id already.
    GameIdTaken,
}

/// A registry as the contracts speak of one.
#[verifier::ext_equal]
pub struct ManagerView {
    /// The games that have begun, the oldest first.
    pub games: Seq<GameView>,
    /// The game that waits for players, if there is one.
    pub open: Option<GameView>,
    /// The words from which one is chosen for a new game.
    pub words: Seq<Seq<char>>,
    pub settings: Settings,
}

/// Whether the game has a player with the token `id`.
pub open spec fn holds(g: GameView, id: u128) -> bool {
    position_of(g.players, id) is Some
}

/// The first game at or after `start` that has a player with the token `id`.
pub open spec fn owner_from(games: Seq<GameView>, id: u128, start: int) -> Option<int>
    decreases games.len() - start,
{
    if start < 0 || start >= games.len() {
        None
    } else if holds(games[start], id) {
        Some(start)
    } else {
        owner_from(games, id, start + 1)
    }
}

/// The place of the game that has a player with the token `id`.
pub open spec fn owner_of(games: Seq<GameView>, id: u128) -> Option<int> {
    owner_from(games, id, 0)
}

/// Whether a player of the registry, in a game that has begun or in the one
/// that waits, has the token `id`.
pub open spec fn token_taken(v: ManagerView, id: u128) -> bool {
    owner_of(v.games, id) is Some || match v.open {
        Some(g) => holds(g, id),
        None => false,
    }
}

/// Whether a game of the registry has the id `game_id`.
pub open spec fn game_id_used(v: ManagerView, game_id: u128) -> bool {
    (exists|i: int| 0 <= i < v.games.len() && (#[trigger] v.games[i]).game_id == game_id) || match v.open {
        Some(g) => g.game_id == game_id,
        None => false,
    }
}

/// The number of games that may be active at the same time.
pub open spec fn capacity(settings: Settings) -> int {
    if settings.max_active_games == 0 {
        1
    } else {
        settings.max_active_games as int
    }
}

/// The active games after `g` has joined them: behind the others, and
/// without the oldest if there was no room.
pub open spec fn admitted(games: Seq<GameView>, g: GameView, settings: Settings) -> Seq<GameView> {
    if games.len() >= capacity(settings) {
        games.drop_first().push(g)
    } else {
        games.push(g)
    }
}

/// The id of the game that makes room when another one joins the active
/// games, if one has to.
pub open spec fn evicted_from(games: Seq<GameView>, settings: Settings) -> Option<u128> {
    if games.len() >= capacity(settings) {
        Some(games[0].game_id)
    } else {
        None
    }
}

/// Whether every registration begins a game of its own at once: the games
/// are for one player, or they have no life to wait with.
pub open spec fn starts_at_once(settings: Settings) -> bool {
    settings.players_per_game <= 1 || settings.lives <= 0
}

/// What the registration of `player` makes of a registry, and what it
/// reports; `game_id` and `word` are for the game that begins if none waits.
///
/// Where a game waits the player joins it; with the last player it needed the
/// game begins and joins the active games. Where none waits a new game is
/// made: it begins at once where the settings say so and waits otherwise.
pub open spec fn register_model(v: ManagerView, player: PlayerView, game_id: u128, word: Seq<char>) -> (
    ManagerView,
    RegisterResult,
) {
    match v.open {
        Some(g) => {
            let joined = GameView { players: g.players.push(player), ..g };
            if joined.players.len() >= v.settings.players_per_game {
                let begun = GameView { state: GameState::Running, ..joined };
                (
                    ManagerView { games: admitted(v.games, begun, v.settings), open: None, ..v },
                    RegisterResult {
                        player_id: player.id,
                        game_id: g.game_id,
                        outcome: RegisterOutcome::Started,
                        evicted: evicted_from(v.games, v.settings),
                    },
                )
            } else {
                (
                    ManagerView { open: Some(joined), ..v },
                    RegisterResult {
                        player_id: player.id,
                        game_id: g.game_id,
                        outcome: RegisterOutcome::Waiting,
                        evicted: None,
                    },
                )
            }
        },
        None => {
            if starts_at_once(v.settings) {
                let begun = started_view(
                    game_id,
                    player,
                    word,
                    v.settings.lives as int,
                    v.settings.turn_enforced,
                );
                (
                    ManagerView { games: admitted(v.games, begun, v.settings), ..v },
                    RegisterResult {
                        player_id: player.id,
                        game_id,
                        outcome: RegisterOutcome::Started,
                        evicted: evicted_from(v.games, v.settings),
                    },
                )
            } else {
                let waiting = GameView {
                    players: seq![player],
                    ..waiting_view(game_id, word, v.settings.lives as int, v.settings.turn_enforced)
                };
                (
                    ManagerView { open: Some(waiting), ..v },
                    RegisterResult {
                        player_id: player.id,
                        game_id,
                        outcome: RegisterOutcome::Waiting,
                        evicted: None,
                    },
                )
            }
        },
    }
}

/// How often a fresh identifier is drawn at random before the search for
/// a free one counts on from the last draw instead. Every draw has 122 random
/// bits, so that a second draw is already beyond what chance lets happen.
pub const MAX_DRAWS: u32 = 64;

/// What the registration of `player` makes of a registry where the new
/// game, if one begins, gets the id `game_id` and the word at the place
/// `word` of the list, with its umlauts spelled out.
pub open spec fn registration_of(v: ManagerView, player: PlayerView, game_id: u128, word: int) -> (
    ManagerView,
    RegisterResult,
) {
    register_model(v, player, game_id, transliterated(v.words[word]))
}

/// Whether `after` and `result` are what the registration of `player` can
/// make of the registry `before`: with an id that no game has and a word of
/// the list for the game that begins, if one does.
pub open spec fn registered_as(
    before: ManagerView,
    player: PlayerView,
    after: ManagerView,
    result: RegisterResult,
) -> bool {
    exists|game_id: u128, word: int|
        {
            &&& 0 <= word < before.words.len()
            &&& !game_id_used(before, game_id)
            &&& #[trigger] registration_of(before, player, game_id, word) == (after, result)
        }
}

/// What the deletion of the game of the player with the token `id` makes of
/// a registry, and whether there was such a game. The game goes with all its
/// players, whether it has begun or waits.
pub open spec fn delete_model(v: ManagerView, id: u128) -> (ManagerView, bool) {
    match owner_of(v.games, id) {
        Some(i) => (ManagerView { games: v.games.remove(i), ..v }, true),
        None => match v.open {
            Some(g) => if holds(g, id) {
                (ManagerView { open: None, ..v }, true)
            } else {
                (v, false)
            },
            None => (v, false),
        },
    }
}

/// Whether no two of the games share an id or a player's token.
pub open spec fn games_apart(games: Seq<GameView>) -> bool {
    &&& forall|i: int, j: int|
        0 <= i < j < games.len() ==> (#[trigger] games[i]).game_id != (#[trigger] games[j]).game_id
    &&& forall|i: int, j: int, id: u128|
        0 <= i < j < games.len() ==> !(#[trigger] holds(games[i], id) && #[trigger] holds(games[j], id))
}

/// Whether the game shares no id and no player's token with any of the games.
pub open spec fn apart_from(g: GameView, games: Seq<GameView>) -> bool {
    &&& forall|i: int| 0 <= i < games.len() ==> (#[trigger] games[i]).game_id != g.game_id
    &&& forall|i: int, id: u128|
        0 <= i < games.len() ==> !(#[trigger] holds(games[i], id) && holds(g, id))
}

/// What holds of every registry.
pub open spec fn manager_wf(v: ManagerView) -> bool {
    &&& v.words.len() >= 1
    &&& v.games.len() <= capacity(v.settings)
    &&& forall|i: int|
        0 <= i < v.games.len() ==> game_wf(#[trigger] v.games[i]) && v.games[i].state
            != GameState::Waiting
    &&& games_apart(v.games)
    &&& match v.open {
        Some(g) => {
            &&& game_wf(g)
            &&& g.state == GameState::Waiting
            &&& 1 <= g.players.len() < v.settings.players_per_game
            &&& apart_from(g, v.games)
        },
        None => true,
    }
}

/// Where `owner_from` finds a game, and that it finds the first.
pub proof fn lemma_owner_from(games: Seq<GameView>, id: u128, start: int)
    requires
        0 <= start,
    ensures
        match owner_from(games, id, start) {
            Some(i) => start <= i < games.len() && holds(games[i], id) && forall|k: int|
                start <= k < i ==> !holds(#[trigger] games[k], id),
            None => forall|k: int| start <= k < games.len() ==> !holds(#[trigger] games[k], id),
        },
    decreases games.len() - start,
{
    if start < games.len() && !holds(games[start], id) {
        lemma_owner_from(games, id, start + 1);
    }
}

/// A registration with a token that no player has and, where a game is made,
/// an id that no game has leaves the registry well formed.
pub proof fn lemma_register_wf(v: ManagerView, player: PlayerView, game_id: u128, word: Seq<char>)
    requires
        manager_wf(v),
        !token_taken(v, player.id),
        v.open is None ==> !game_id_used(v, game_id),
    ensures
        manager_wf(register_model(v, player, game_id, word).0),
{
    let after = register_model(v, player, game_id, word).0;
    lemma_owner_from(v.games, player.id, 0);
    lemma_new_games_wf(game_id, player, word, v.settings.lives as int, v.settings.turn_enforced);
    match v.open {
        Some(g) => {
            let joined = GameView { players: g.players.push(player), ..g };
            lemma_position_from(g.players, player.id, 0);
            assert forall|id: u128| holds(joined, id) == (holds(g, id) || id == player.id) by {
                lemma_position_push(g.players, player, id);
            }
            assert(game_wf(joined));
            assert(apart_from(joined, v.games));
            if joined.players.len() >= v.settings.players_per_game {
                let begun = GameView { state: GameState::Running, ..joined };
                assert(game_wf(begun));
                assert forall|id: u128| holds(begun, id) == holds(joined, id) by {}
                assert(apart_from(begun, v.games));
                lemma_admitted_wf(v.games, begun, v.settings);
            }
        },
        None => {
            if starts_at_once(v.settings) {
                let begun = started_view(
                    game_id,
                    player,
                    word,
                    v.settings.lives as int,
                    v.settings.turn_enforced,
                );
                assert forall|id: u128| holds(begun, id) == (id == player.id) by {
                    lemma_position_push(Seq::empty(), player, id);
                    assert(Seq::<PlayerView>::empty().push(player) =~= seq![player]);
                }
                assert(apart_from(begun, v.games));
                lemma_admitted_wf(v.games, begun, v.settings);
            } else {
                let waiting = GameView {
                    players: seq![player],
                    ..waiting_view(game_id, word, v.settings.lives as int, v.settings.turn_enforced)
                };
                assert forall|id: u128| holds(waiting, id) == (id == player.id) by {
                    lemma_position_push(Seq::empty(), player, id);
                    assert(Seq::<PlayerView>::empty().push(player) =~= seq![player]);
                }
                assert(game_wf(waiting));
                assert(apart_from(waiting, v.games));
            }
        },
    }
}

/// A game that has begun and shares nothing with the active games can join
/// them: they stay apart, well formed and within the bound.
proof fn lemma_admitted_wf(games: Seq<GameView>, g: GameView, settings: Settings)
    requires
        games.len() <= capacity(settings),
        forall|i: int|
            0 <= i < games.len() ==> game_wf(#[trigger] games[i]) && games[i].state
                != GameState::Waiting,
        games_apart(games),
        game_wf(g),
        g.state != GameState::Waiting,
        apart_from(g, games),
    ensures
        admitted(games, g, settings).len() <= capacity(settings),
        forall|i: int|
            0 <= i < admitted(games, g, settings).len() ==> game_wf(
                #[trigger] admitted(games, g, settings)[i],
            ) && admitted(games, g, settings)[i].state != GameState::Waiting,
        games_apart(admitted(games, g, settings)),
{
    let after = admitted(games, g, settings);
    let shift: int = if games.len() >= capacity(settings) {
        1
    } else {
        0
    };
    assert(after.len() == games.len() - shift + 1);
    assert forall|i: int| 0 <= i < after.len() - 1 implies #[trigger] after[i] == games[i + shift] by {}
    assert(after[after.len() - 1] == g);
    assert forall|i: int, j: int| 0 <= i < j < after.len() implies (#[trigger] after[i]).game_id != (
    #[trigger] after[j]).game_id by {
        assert(after[i] == games[i + shift]);
        if j < after.len() - 1 {
            assert(after[j] == games[j + shift]);
        }
    }
    assert forall|i: int, j: int, id: u128| 0 <= i < j < after.len() implies !(#[trigger] holds(
        after[i],
        id,
    ) && #[trigger] holds(after[j], id)) by {
        assert(after[i] == games[i + shift]);
        if j < after.len() - 1 {
            assert(after[j] == games[j + shift]);
        }
    }
}

/// The deletion of a game leaves the registry well formed.
pub proof fn lemma_delete_wf(v: ManagerView, id: u128)
    requires
        manager_wf(v),
    ensures
        manager_wf(delete_model(v, id).0),
{
    lemma_owner_from(v.games, id, 0);
    match owner_of(v.games, id) {
        Some(at) => {
            let after = v.games.remove(at);
            assert forall|i: int| 0 <= i < after.len() implies #[trigger] after[i] == v.games[if i < at {
                i
            } else {
                i + 1
            }] by {}
            assert forall|i: int, j: int| 0 <= i < j < after.len() implies (#[trigger] after[i]).game_id != (
            #[trigger] after[j]).game_id by {
                let a = if i < at { i } else { i + 1 };
                let b = if j < at { j } else { j + 1 };
                assert(after[i] == v.games[a] && after[j] == v.games[b]);
            }
            assert forall|i: int, j: int, t: u128| 0 <= i < j < after.len() implies !(#[trigger] holds(
                after[i],
                t,
            ) && #[trigger] holds(after[j], t)) by {
                let a = if i < at { i } else { i + 1 };
                let b = if j < at { j } else { j + 1 };
                assert(after[i] == v.games[a] && after[j] == v.games[b]);
            }
            match v.open {
                Some(g) => {
                    assert forall|i: int| 0 <= i < after.len() implies (#[trigger] after[i]).game_id
                        != g.game_id by {
                        let a = if i < at { i } else { i + 1 };
                        assert(after[i] == v.games[a]);
                    }
                    assert forall|i: int, t: u128| 0 <= i < after.len() implies !(#[trigger] holds(
                        after[i],
                        t,
                    ) && holds(g, t)) by {
                        let a = if i < at { i } else { i + 1 };
                        assert(after[i] == v.games[a]);
                    }
                },
                None => {},
            }
        },
        None => {},
    }
}

/// The views of the games, in order.
pub open spec fn game_views(games: Seq<Game>) -> Seq<GameView> {
    games.map_values(|g: Game| g@)
}

/// Used to manage all games of the server.
pub struct GameManager {
    /// The games that have begun, the oldest first.
    games: Vec<Game>,
    /// The game that waits for players, if there is one.
    open: Option<Game>,
    /// All words from which a random word can be chosen for a game.
    words: Vec<String>,
    settings: Settings,
}

impl View for GameManager {
    type V = ManagerView;

    closed spec fn view(&self) -> ManagerView {
        ManagerView {
            games: game_views(self.games@),
            open: match self.open {
                Some(g) => Some(g@),
                None => None,
            },
            words: texts(self.words@),
            settings: self.settings,
        }
    }
}

/// The words of a list: its lines in upper case.
pub open spec fn word_list(text: Seq<char>) -> Seq<Seq<char>> {
    lines_of(text).map_values(|line: Seq<char>| uppercase_text(line))
}

impl GameManager {
    /// What holds of every registry.
    pub open spec fn wf(&self) -> bool {
        manager_wf(self@)
    }

    /// A registry without games, for games of one player each, with the
    /// lines of `text` as its words.
    pub fn new(text: &str) -> (r: GameManager)
        ensures
            r.wf(),
            r@ == (ManagerView {
                games: Seq::empty(),
                open: None,
                words: word_list(text@),
                settings: solo_settings(),
            }),
    {
        GameManager::with_settings(text, Settings::solo())
    }

    /// A registry without games that makes its games as `settings` say, with
    /// the lines of `text` as its words.
    pub fn with_settings(text: &str, settings: Settings) -> (r: GameManager)
        ensures
            r.wf(),
            r@ == (ManagerView { games: Seq::empty(), open: None, words: word_list(text@), settings }),
    {
        let lines = split_lines(text);
        let mut words: Vec<String> = Vec::new();
        let mut i: usize = 0;
        while i < lines.len()
            invariant
                i <= lines.len(),
                texts(lines@) == lines_of(text@),
                words@.len() == i,
                forall|k: int|
                    0 <= k < i ==> (#[trigger] words@[k])@ == uppercase_text(lines_of(text@)[k]),
            decreases lines.len() - i,
        {
            assert(texts(lines@)[i as int] == lines@[i as int]@);
            words.push(text_uppercase(lines[i].as_str()));
            i += 1;
        }
        assert(texts(words@) =~= word_list(text@));
        let manager = GameManager { games: Vec::new(), open: None, words, settings };
        assert(manager@.games =~= Seq::empty());
        manager
    }

    /// The settings that the registry makes its games by.
    pub fn settings(&self) -> (r: Settings)
        ensures
            r == self@.settings,
    {
        self.settings
    }

    /// How many games have begun and are not deleted.
    pub fn active_games(&self) -> (r: usize)
        ensures
            r == self@.games.len(),
    {
        self.games.len()
    }

    /// The place among the active games of the one that has a player with
    /// the token `id`.
    fn owner_index(&self, id: u128) -> (r: Option<usize>)
        ensures
            match r {
                Some(i) => owner_of(self@.games, id) == Some(i as int) && i < self.games@.len(),
                None => owner_of(self@.games, id) is None,
            },
    {
        let mut i: usize = 0;
        while i < self.games.len()
            invariant
                i <= self.games.len(),
                owner_of(self@.games, id) == owner_from(self@.games, id, i as int),
            decreases self.games.len() - i,
        {
            assert(self@.games[i as int] == self.games@[i as int]@);
            if self.games[i].player_turn_position(id).is_some() {
                return Some(i);
            }
            i += 1;
        }
        None
    }

    /// Whether the game that waits for players has a player with the token
    /// `id`.
    fn waits(&self, id: u128) -> (r: bool)
        ensures
            r == match self@.open {
                Some(g) => holds(g, id),
                None => false,
            },
    {
        match &self.open {
            Some(game) => game.player_turn_position(id).is_some(),
            None => false,
        }
    }

    /// Whether a player of the registry has the token `id`, in a game that
    /// has begun or in the one that waits for players.
    pub fn id_taken(&self, id: u128) -> (r: bool)
        ensures
            r == token_taken(self@, id),
    {
        self.owner_index(id).is_some() || self.waits(id)
    }

    /// Whether a game of the registry has the id `game_id`.
    pub fn game_id_taken(&self, game_id: u128) -> (r: bool)
        ensures
            r == game_id_used(self@, game_id),
    {
        let mut i: usize = 0;
        while i < self.games.len()
            invariant
                i <= self.games.len(),
                forall|k: int| 0 <= k < i ==> (#[trigger] self@.games[k]).game_id != game_id,
            decreases self.games.len() - i,
        {
            assert(self@.games[i as int] == self.games@[i as int]@);
            if self.games[i].game_id() == game_id {
                return true;
            }
            i += 1;
        }
        match &self.open {
            Some(game) => game.game_id() == game_id,
            None => false,
        }
    }

    /// The game that has begun and has a player with the token `id`, to
    /// look at.
    pub fn find_game(&self, id: u128) -> (r: Option<&Game>)
        ensures
            match r {
                Some(game) => match owner_of(self@.games, id) {
                    Some(i) => 0 <= i < self@.games.len() && game@ == self@.games[i],
                    None => false,
                },
                None => owner_of(self@.games, id) is None,
            },
            self.wf() ==> match r {
                Some(game) => game.wf(),
                None => true,
            },
    {
        match self.owner_index(id) {
            Some(i) => {
                assert(self@.games[i as int] == self.games@[i as int]@);
                Some(&self.games[i])
            },
            None => None,
        }
    }

    /// The game that has begun and has a player with the token `id`, to play
    /// in. A player who waits for a game to begin has none yet. The registry
    /// takes the game back as the caller leaves it; it stays well formed as
    /// long as the game keeps its id and its players, which everything that
    /// a game offers does.
    pub fn game_by_player_id(&mut self, id: u128) -> (r: Option<&mut Game>)
        ensures
            match r {
                Some(game) => match owner_of(old(self)@.games, id) {
                    Some(i) => {
                        &&& 0 <= i < old(self)@.games.len()
                        &&& game@ == old(self)@.games[i]
                        &&& final(self)@ =~= (ManagerView {
                            games: old(self)@.games.update(i, final(game)@),
                            ..old(self)@
                        })
                    },
                    None => false,
                },
                None => owner_of(old(self)@.games, id) is None && final(self)@ == old(self)@,
            },
            old(self).wf() ==> match r {
                Some(game) => game.wf(),
                None => true,
            },
    {
        match self.owner_index(id) {
            Some(i) => {
                assert(self@.games[i as int] == self.games@[i as int]@);
                Some(&mut self.games[i])
            },
            None => None,
        }
    }

    /// Lets a game that has begun join the active games, behind the others.
    /// Where there is no room the oldest game goes, and its id is returned.
    fn activate(&mut self, game: Game) -> (r: Option<u128>)
        ensures
            final(self)@ == (ManagerView {
                games: admitted(old(self)@.games, game@, old(self)@.settings),
                ..old(self)@
            }),
            r == evicted_from(old(self)@.games, old(self)@.settings),
    {
        let limit: usize = if self.settings.max_active_games == 0 {
            1
        } else {
            self.settings.max_active_games
        };
        let mut evicted: Option<u128> = None;
        if self.games.len() >= limit {
            assert(self@.games[0] == self.games@[0]@);
            let oldest = self.games.remove(0);
            evicted = Some(oldest.game_id());
        }
        self.games.push(game);
        assert(self@.games =~= admitted(old(self)@.games, game@, old(self)@.settings));
        evicted
    }

    /// Registers `player` with the identifiers given: the player joins the
    /// game that waits, or a new game with the id `game_id` and the word
    /// `word`. Nothing happens if a player has the token already or, where a
    /// game would be made, a game has the id.
    pub fn register_with(&mut self, player: Player, game_id: u128, word: &str) -> (r: Result<
        RegisterResult,
        RegisterError,
    >)
        requires
            old(self).wf(),
        ensures
            final(self).wf(),
            match r {
                Ok(result) => {
                    &&& !token_taken(old(self)@, player.id)
                    &&& old(self)@.open is None ==> !game_id_used(old(self)@, game_id)
                    &&& (final(self)@, result) == register_model(old(self)@, player@, game_id, word@)
                },
                Err(RegisterError::PlayerIdTaken) => {
                    &&& token_taken(old(self)@, player.id)
                    &&& final(self)@ == old(self)@
                },
                Err(RegisterError::GameIdTaken) => {
                    &&& !token_taken(old(self)@, player.id)
                    &&& old(self)@.open is None
                    &&& game_id_used(old(self)@, game_id)
                    &&& final(self)@ == old(self)@
                },
            },
    {
        if self.id_taken(player.id) {
            return Err(RegisterError::PlayerIdTaken);
        }
        let player_id = player.id;
        let ghost before = self@;
        match self.open.take() {
            Some(mut game) => {
                let joined_id = game.game_id();
                proof {
                    lemma_register_wf(before, player@, game_id, word@);
                }
                let added = game.add_player(player);
                assert(added);
                if game.player_count() >= self.settings.players_per_game {
                    let begun = game.start();
                    assert(begun);
                    let evicted = self.activate(game);
                    Ok(
                        RegisterResult {
                            player_id,
                            game_id: joined_id,
                            outcome: RegisterOutcome::Started,
                            evicted,
                        },
                    )
                } else {
                    self.open = Some(game);
                    Ok(
                        RegisterResult {
                            player_id,
                            game_id: joined_id,
                            outcome: RegisterOutcome::Waiting,
                            evicted: None,
                        },
                    )
                }
            },
            None => {
                assert(self@ == before);
                if self.game_id_taken(game_id) {
                    return Err(RegisterError::GameIdTaken);
                }
                proof {
                    lemma_register_wf(before, player@, game_id, word@);
                }
                if self.settings.players_per_game <= 1 || self.settings.lives <= 0 {
                    let game = Game::with_word(
                        game_id,
                        player,
                        word,
                        self.settings.lives,
                        self.settings.turn_enforced,
                    );
                    let evicted = self.activate(game);
                    Ok(
                        RegisterResult {
                            player_id,
                            game_id,
                            outcome: RegisterOutcome::Started,
                            evicted,
                        },
                    )
                } else {
                    let mut game = Game::waiting(
                        game_id,
                        word,
                        self.settings.lives,
                        self.settings.turn_enforced,
                    );
                    let added = game.add_player(player);
                    assert(added);
                    assert(game@.players =~= seq![player@]);
                    self.open = Some(game);
                    Ok(
                        RegisterResult {
                            player_id,
                            game_id,
                            outcome: RegisterOutcome::Waiting,
                            evicted: None,
                        },
                    )
                }
            },
        }
    }

    /// Deletes the game of the player with the token `id`, whether it has
    /// begun or waits, and with it all its players: their tokens and the id
    /// of the game are free again. Says whether there was such a game.
    pub fn delete_game(&mut self, id: u128) -> (r: bool)
        requires
            old(self).wf(),
        ensures
            final(self).wf(),
            (final(self)@, r) == delete_model(old(self)@, id),
    {
        proof {
            lemma_delete_wf(self@, id);
        }
        match self.owner_index(id) {
            Some(i) => {
                self.games.remove(i);
                assert(self@.games =~= old(self)@.games.remove(i as int));
                true
            },
            None => {
                if self.waits(id) {
                    self.open = None;
                    true
                } else {
                    false
                }
            },
        }
    }

    /// A word of the list, chosen at random, with its umlauts spelled out.
    pub fn random_word(&self) -> (r: String)
        requires
            self.wf(),
        ensures
            exists|i: int|
                0 <= i < self@.words.len() && r@ == transliterated(#[trigger] self@.words[i]),
    {
        let number = random_index(self.words.len());
        assert(self@.words[number as int] == self.words@[number as int]@);
        transliterate(self.words[number].as_str())
    }

    /// Whether the registry has `id` in use: as the id of a game where
    /// `of_games` holds, and else as the token of a player.
    fn in_use(&self, of_games: bool, id: u128) -> (r: bool)
        ensures
            r == in_use(self@, of_games, id),
    {
        if of_games {
            self.game_id_taken(id)
        } else {
            self.id_taken(id)
        }
    }

    /// The first identifier at or after `start` that the registry does not
    /// have in use, where the count begins again at zero after the largest
    /// identifier. The registry has fewer identifiers in use than there are,
    /// so there is one.
    fn first_free(&self, of_games: bool, start: u128) -> (r: u128)
        requires
            self.wf(),
        ensures
            first_free_from(self@, of_games, start, r),
    {
        let mut candidate = start;
        let ghost mut steps: int = 0;
        proof {
            lemma_used_ids_are_few(self@, of_games);
            assert(run_from(start, 0) =~= Set::empty());
        }
        loop
            invariant
                used_ids(self@, of_games).finite(),
                used_ids(self@, of_games).len() < 0x1_0000_0000_0000_0000_0000_0000_0000_0000,
                0 <= steps <= used_ids(self@, of_games).len(),
                offset(start, candidate) == steps,
                run_from(start, steps).subset_of(used_ids(self@, of_games)),
            decreases used_ids(self@, of_games).len() - steps,
        {
            if !self.in_use(of_games, candidate) {
                assert forall|id: u128| offset(start, id) < offset(start, candidate) implies in_use(
                    self@,
                    of_games,
                    id,
                ) by {
                    assert(run_from(start, steps).contains(id));
                    assert(used_ids(self@, of_games).contains(id));
                }
                return candidate;
            }
            proof {
                let more = run_from(start, steps + 1);
                assert forall|id: u128| more.contains(id) implies used_ids(self@, of_games).contains(
                    id,
                ) by {
                    if offset(start, id) == steps {
                        assert(id == candidate);
                    } else {
                        assert(run_from(start, steps).contains(id));
                    }
                }
                lemma_run_len(start, steps + 1);
                vstd::set_lib::lemma_len_subset(more, used_ids(self@, of_games));
                steps = steps + 1;
            }
            candidate = if candidate == u128::MAX {
                0
            } else {
                candidate + 1
            };
        }
    }

    /// An identifier that the registry does not have in use: the first free
    /// one among `MAX_DRAWS` random draws, or else the first free one from a
    /// last draw on.
    fn free_id(&self, of_games: bool) -> (r: u128)
        requires
            self.wf(),
        ensures
            !in_use(self@, of_games, r),
    {
        let mut draws: u32 = 0;
        while draws < MAX_DRAWS
            invariant
                draws <= MAX_DRAWS,
            decreases MAX_DRAWS - draws,
        {
            let id = fresh_id();
            if !self.in_use(of_games, id) {
                return id;
            }
            draws += 1;
        }
        self.first_free(of_games, fresh_id())
    }

    /// The first token at or after `start` that no player of the registry
    /// has, where the count begins again at zero after the largest token.
    pub fn first_free_player_id(&self, start: u128) -> (r: u128)
        requires
            self.wf(),
        ensures
            first_free_from(self@, false, start, r),
    {
        self.first_free(false, start)
    }

    /// The first id at or after `start` that no game of the registry has,
    /// where the count begins again at zero after the largest id.
    pub fn first_free_game_id(&self, start: u128) -> (r: u128)
        requires
            self.wf(),
        ensures
            first_free_from(self@, true, start, r),
    {
        self.first_free(true, start)
    }

    /// A token that no player of the registry has: the first free one among
    /// `MAX_DRAWS` random draws, or else the first free one from a last draw
    /// on.
    pub fn free_player_id(&self) -> (r: u128)
        requires
            self.wf(),
        ensures
            !token_taken(self@, r),
    {
        self.free_id(false)
    }

    /// An id that no game of the registry has: the first free one among
    /// `MAX_DRAWS` random draws, or else the first free one from a last draw
    /// on.
    pub fn free_game_id(&self) -> (r: u128)
        requires
            self.wf(),
        ensures
            !game_id_used(self@, r),
    {
        self.free_id(true)
    }

    /// Registers a new player under `name`, with a fresh token, and says
    /// where the player has come to play. Where a game is made it gets a
    /// fresh id and a word of the list chosen at random.
    pub fn register_named(&mut self, name: String) -> (r: RegisterResult)
        requires
            old(self).wf(),
        ensures
            final(self).wf(),
            !token_taken(old(self)@, r.player_id),
            registered_as(
                old(self)@,
                PlayerView { id: r.player_id, name: name@ },
                final(self)@,
                r,
            ),
    {
        let player_id = self.free_player_id();
        let game_id = self.free_game_id();
        let word = self.random_word();
        let ghost place = choose|i: int|
            0 <= i < self@.words.len() && word@ == transliterated(#[trigger] self@.words[i]);
        match self.register_with(Player::with_name(player_id, name), game_id, word.as_str()) {
            Ok(result) => {
                assert(registration_of(
                    old(self)@,
                    PlayerView { id: result.player_id, name: name@ },
                    game_id,
                    place,
                ) == (self@, result));
                result
            },
            Err(_) => vstd::pervasive::unreached(),
        }
    }

    /// Registers a new player under the default name; see `register_named`.
    pub fn register_game(&mut self) -> (r: RegisterResult)
        requires
            old(self).wf(),
        ensures
            final(self).wf(),
            !token_taken(old(self)@, r.player_id),
            registered_as(old(self)@, default_player(r.player_id), final(self)@, r),
    {
        let name = "steve".to_owned();
        let ghost player_name = name@;
        let result = self.register_named(name);
        assert(PlayerView { id: result.player_id, name: player_name } == default_player(
            result.player_id,
        ));
        result
    }
}

impl Game {
    /// A running game with a word of the registry's list, chosen at random,
    /// and the player `player_id` under the default name.
    pub fn new(game_manager: &GameManager, game_id: u128, player_id: u128) -> (r: Game)
        requires
            game_manager.wf(),
        ensures
            r.wf(),
            exists|i: int|
                0 <= i < game_manager@.words.len() && r@ == started_view(
                    game_id,
                    default_player(player_id),
                    transliterated(#[trigger] game_manager@.words[i]),
                    game_manager@.settings.lives as int,
                    game_manager@.settings.turn_enforced,
                ),
    {
        let word = game_manager.random_word();
        Game::with_word(
            game_id,
            Player::new(player_id),
            word.as_str(),
            game_manager.settings.lives,
            game_manager.settings.turn_enforced,
        )
    }
}

} // verus!
