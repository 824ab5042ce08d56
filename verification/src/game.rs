//! One round of the game: the word, the players, whose turn it is, which
//! letters were tried, how many lives are left, and how it ended.

use vstd::prelude::*;
use vstd::string::StringExecFns;

use crate::events::{EventData, EventView};
use crate::text::{joined, normalize, normalized, push_char, spaced};

verus! {

/// The number of letters in the alphabet ledger.
pub const ALPHABET_SIZE: usize = 26;

/// Where a game stands.
#[derive(Clone, Copy, Debug, PartialEq, Eq, Structural)]
pub enum GameState {
    /// Players may still join; nobody can guess yet.
    Waiting,
    /// The round is being played.
    Running,
    /// The round is over; the flag says whether the word was found.
    Done(bool),
}

/// What a guess led to.
#[derive(Clone, Copy, Debug, PartialEq, Eq, Structural)]
pub enum GuessOutcome {
    /// The word is complete.
    Solved,
    /// The letter occurs in the word, which is not complete yet.
    CorrectLetter,
    /// The letter does not occur in the word; a life is gone.
    WrongLetter,
    /// The letter does not occur in the word and the last life is gone.
    LivesExhausted,
    /// The letter was tried before; nothing was charged for it.
    AlreadyGuessed,
    /// The guess was not taken: the player may not guess now.
    NotYourTurn,
}

/// A character and whether it has been guessed.
#[derive(Clone, Copy, Debug, PartialEq, Eq, Structural)]
pub struct Letter {
    pub character: char,
    pub guessed: bool,
}

/// The `i`-th letter of the alphabet ledger, `A` for 0.
pub open spec fn alphabet_char(i: int) -> char {
    (65 + i) as char
}

/// The place of a character in the alphabet ledger, if it has one.
pub open spec fn ledger_position(c: char) -> Option<int> {
    if 'A' <= c <= 'Z' {
        Some(c as int - 65)
    } else {
        None
    }
}

/// The place of a character in the alphabet ledger, if it has one.
fn ledger_index(c: char) -> (r: Option<usize>)
    ensures
        match r {
            Some(i) => ledger_position(c) == Some(i as int) && i < ALPHABET_SIZE
                && alphabet_char(i as int) == c,
            None => ledger_position(c) is None,
        },
{
    if 'A' <= c && c <= 'Z' {
        let i: usize = (c as u32 - 65) as usize;
        Some(i)
    } else {
        None
    }
}

/// The `i`-th letter of the alphabet ledger.
fn nth_letter(i: usize) -> (r: char)
    requires
        i < ALPHABET_SIZE,
    ensures
        r == alphabet_char(i as int),
{
    (65u8 + i as u8) as char
}

impl Letter {
    /// A letter that has not been guessed.
    pub fn new(character: char) -> (r: Letter)
        ensures
            r == unguessed(character),
    {
        Letter { character, guessed: false }
    }
}

/// The letter `c`, not guessed.
pub open spec fn unguessed(c: char) -> Letter {
    Letter { character: c, guessed: false }
}

/// The letter `l`, guessed.
pub open spec fn guessed(l: Letter) -> Letter {
    Letter { character: l.character, guessed: true }
}

/// The letter `l`, guessed if it was or if it holds `c`.
pub open spec fn uncovered_letter(l: Letter, c: char) -> Letter {
    Letter { character: l.character, guessed: l.guessed || l.character == c }
}

/// The letters of `text`, none of them guessed.
pub open spec fn fresh_letters(text: Seq<char>) -> Seq<Letter> {
    Seq::new(text.len(), |i: int| unguessed(text[i]))
}

/// The characters of a word, guessed or not.
pub open spec fn characters(word: Seq<Letter>) -> Seq<char> {
    Seq::new(word.len(), |i: int| word[i].character)
}

/// What the players see of a word: a guessed letter as it is, any other as `_`.
pub open spec fn masked(word: Seq<Letter>) -> Seq<char> {
    Seq::new(word.len(), |i: int| if word[i].guessed { word[i].character } else { '_' })
}

/// The characters of the guessed letters of a ledger, in the ledger's order.
pub open spec fn guessed_characters(ledger: Seq<Letter>) -> Seq<char>
    decreases ledger.len(),
{
    if ledger.len() == 0 {
        Seq::empty()
    } else if ledger.last().guessed {
        guessed_characters(ledger.drop_last()).push(ledger.last().character)
    } else {
        guessed_characters(ledger.drop_last())
    }
}

/// Whether every letter of the word is guessed.
pub open spec fn all_guessed(word: Seq<Letter>) -> bool {
    forall|i: int| 0 <= i < word.len() ==> (#[trigger] word[i]).guessed
}

/// Whether the character stands somewhere in the word.
pub open spec fn has_letter(word: Seq<Letter>, c: char) -> bool {
    exists|i: int| 0 <= i < word.len() && (#[trigger] word[i]).character == c
}

/// The word with every place that holds `c` guessed.
pub open spec fn uncovered(word: Seq<Letter>, c: char) -> Seq<Letter> {
    Seq::new(word.len(), |i: int| uncovered_letter(word[i], c))
}

/// The alphabet ledger with no letter guessed.
pub open spec fn fresh_ledger() -> Seq<Letter> {
    Seq::new(ALPHABET_SIZE as nat, |i: int| unguessed(alphabet_char(i)))
}

/// Whether the ledger holds the letters `A` to `Z` in order.
pub open spec fn ledger_wf(ledger: Seq<Letter>) -> bool {
    &&& ledger.len() == ALPHABET_SIZE
    &&& forall|i: int| 0 <= i < ledger.len() ==> (#[trigger] ledger[i]).character == alphabet_char(i)
}

/// Whether the ledger has `c` as guessed. A character outside `A` to `Z` has no
/// place in the ledger and never counts as guessed.
pub open spec fn already_guessed(ledger: Seq<Letter>, c: char) -> bool {
    match ledger_position(c) {
        Some(i) => ledger[i].guessed,
        None => false,
    }
}

/// The ledger with `c` entered as guessed; unchanged for a character outside
/// `A` to `Z`.
pub open spec fn marked(ledger: Seq<Letter>, c: char) -> Seq<Letter> {
    match ledger_position(c) {
        Some(i) => ledger.update(i, guessed(ledger[i])),
        None => ledger,
    }
}

/// The word to guess.
pub struct Word {
    pub letters: Vec<Letter>,
}

impl Word {
    /// The word made of the characters of `word`, none of them guessed.
    pub fn new(word: &str) -> (r: Word)
        ensures
            r.letters@ == fresh_letters(word@),
    {
        let mut letters: Vec<Letter> = Vec::new();
        for c in it: word.chars()
            invariant
                it.seq() == word@,
                letters@.len() == it.index(),
                letters@ =~= fresh_letters(word@.take(it.index() as int)),
        {
            letters.push(Letter::new(c));
        }
        assert(word@.take(word@.len() as int) == word@);
        Word { letters }
    }

    /// The word as text, whatever has been guessed of it.
    pub fn get(&self) -> (r: String)
        ensures
            r@ == characters(self.letters@),
    {
        let mut s = String::new();
        let mut i: usize = 0;
        while i < self.letters.len()
            invariant
                i <= self.letters.len(),
                s@ =~= characters(self.letters@.take(i as int)),
            decreases self.letters.len() - i,
        {
            push_char(&mut s, self.letters[i].character);
            i += 1;
        }
        assert(self.letters@.take(self.letters.len() as int) == self.letters@);
        s
    }
}

/// A player of a game.
#[derive(Debug, PartialEq, Eq)]
pub struct Player {
    /// The token by which the server knows the player.
    pub id: u128,
    /// The name shown to the other players.
    pub name: String,
}

/// A player as the contracts speak of one.
#[verifier::ext_equal]
pub struct PlayerView {
    pub id: u128,
    pub name: Seq<char>,
}

impl View for Player {
    type V = PlayerView;

    open spec fn view(&self) -> PlayerView {
        PlayerView { id: self.id, name: self.name@ }
    }
}

/// The player `id` under the name given to those who bring none.
pub open spec fn default_player(id: u128) -> PlayerView {
    PlayerView { id, name: "steve"@ }
}

impl Player {
    /// A player under the default name.
    pub fn new(id: u128) -> (r: Player)
        ensures
            r@ == default_player(id),
    {
        Player { id, name: "steve".to_owned() }
    }

    /// A player under a name of their own.
    pub fn with_name(id: u128, name: String) -> (r: Player)
        ensures
            r@ == (PlayerView { id, name: name@ }),
    {
        Player { id, name }
    }
}

/// The views of the players, in order.
pub open spec fn player_views(players: Seq<Player>) -> Seq<PlayerView> {
    players.map_values(|p: Player| p@)
}

/// The first place at or after `start` whose player has the token `id`.
pub open spec fn position_from(players: Seq<PlayerView>, id: u128, start: int) -> Option<int>
    decreases players.len() - start,
{
    if start < 0 || start >= players.len() {
        None
    } else if players[start].id == id {
        Some(start)
    } else {
        position_from(players, id, start + 1)
    }
}

/// The turn position of the player with the token `id`: the place at which
/// the player joined, counted from zero.
pub open spec fn position_of(players: Seq<PlayerView>, id: u128) -> Option<int> {
    position_from(players, id, 0)
}

/// Whether no token occurs twice among the players.
pub open spec fn distinct_ids(players: Seq<PlayerView>) -> bool {
    forall|i: int, j: int|
        0 <= i < j < players.len() ==> (#[trigger] players[i]).id != (#[trigger] players[j]).id
}

/// The names of all players but the one with the token `id`, in turn order.
pub open spec fn teammate_names(players: Seq<PlayerView>, id: u128) -> Seq<Seq<char>>
    decreases players.len(),
{
    if players.len() == 0 {
        Seq::empty()
    } else if players.last().id == id {
        teammate_names(players.drop_last(), id)
    } else {
        teammate_names(players.drop_last(), id).push(players.last().name)
    }
}

/// The cursor after one turn: the next place, the first one after the last.
pub open spec fn advanced(cursor: int, players: int) -> int {
    if players <= 0 {
        cursor
    } else if cursor + 1 >= players {
        0
    } else {
        cursor + 1
    }
}

/// The turn position that follows `cursor` among `players` players.
pub fn next_turn(cursor: usize, players: usize) -> (r: usize)
    ensures
        r == advanced(cursor as int, players as int),
{
    if players == 0 {
        cursor
    } else if cursor >= players - 1 {
        0
    } else {
        cursor + 1
    }
}

/// A game as the contracts speak of one.
#[verifier::ext_equal]
pub struct GameView {
    /// The word to guess, place by place.
    pub word: Seq<Letter>,
    /// The alphabet ledger: the letters `A` to `Z` and which were tried.
    pub ledger: Seq<Letter>,
    /// The lives that are left.
    pub lives: int,
    pub state: GameState,
    /// The players in the order in which they joined, which is the turn order.
    pub players: Seq<PlayerView>,
    /// The turn position of the player who guesses next.
    pub cursor: int,
    /// Whether only the player at the cursor may guess.
    pub turn_enforced: bool,
    pub game_id: u128,
}

/// Whether every place of the word whose letter the ledger has as guessed is
/// uncovered.
pub open spec fn ledger_consistent(word: Seq<Letter>, ledger: Seq<Letter>) -> bool {
    forall|i: int|
        0 <= i < word.len() && already_guessed(ledger, (#[trigger] word[i]).character)
            ==> word[i].guessed
}

/// What holds of every game.
pub open spec fn game_wf(v: GameView) -> bool {
    &&& ledger_wf(v.ledger)
    &&& ledger_consistent(v.word, v.ledger)
    &&& 0 <= v.lives <= i32::MAX
    &&& (v.state == GameState::Done(false)) <==> v.lives == 0
    &&& v.state == GameState::Done(true) ==> all_guessed(v.word)
    &&& distinct_ids(v.players)
    &&& v.players.len() <= usize::MAX
    &&& 0 <= v.cursor
    &&& v.cursor < v.players.len() || (v.cursor == 0 && v.players.len() == 0)
}

/// A game that `player` starts alone. With no life to begin with it is lost
/// from the start.
pub open spec fn started_view(
    game_id: u128,
    player: PlayerView,
    word: Seq<char>,
    lives: int,
    turn_enforced: bool,
) -> GameView {
    GameView {
        word: fresh_letters(word),
        ledger: fresh_ledger(),
        lives: if lives > 0 { lives } else { 0 },
        state: if lives > 0 { GameState::Running } else { GameState::Done(false) },
        players: seq![player],
        cursor: 0,
        turn_enforced,
        game_id,
    }
}

/// A game without players that waits for them. With no life to begin with it
/// is lost from the start.
pub open spec fn waiting_view(game_id: u128, word: Seq<char>, lives: int, turn_enforced: bool) -> GameView {
    GameView {
        word: fresh_letters(word),
        ledger: fresh_ledger(),
        lives: if lives > 0 { lives } else { 0 },
        state: if lives > 0 { GameState::Waiting } else { GameState::Done(false) },
        players: Seq::empty(),
        cursor: 0,
        turn_enforced,
        game_id,
    }
}

/// Whether the player with the token `id` may guess now: the game has begun,
/// the player belongs to it and, where turns are enforced, is the one at the
/// cursor.
pub open spec fn may_guess(v: GameView, id: u128) -> bool {
    &&& v.state != GameState::Waiting
    &&& match position_of(v.players, id) {
        Some(i) => !v.turn_enforced || i == v.cursor,
        None => false,
    }
}

/// What a guess of `letter`, already in upper case, by the player with the
/// token `id` makes of a game, and what it reports.
///
/// A guess that may not be made changes nothing. Otherwise the turn passes
/// on where turns are enforced, and a letter that the ledger has as guessed
/// costs nothing more. A new letter is entered in the ledger and every place
/// of the word that holds it is uncovered. In a game that is over nothing
/// else changes and the result is reported again. In a running game a
/// complete word wins with the lives as they were, a hit goes on, and a miss
/// costs one life, the last of which loses the game.
pub open spec fn guess_model(v: GameView, id: u128, letter: char) -> (GameView, GuessOutcome) {
    if !may_guess(v, id) {
        (v, GuessOutcome::NotYourTurn)
    } else {
        let turned = GameView {
            cursor: if v.turn_enforced { advanced(v.cursor, v.players.len() as int) } else { v.cursor },
            ..v
        };
        if already_guessed(v.ledger, letter) {
            (turned, GuessOutcome::AlreadyGuessed)
        } else {
            let noted = GameView {
                ledger: marked(v.ledger, letter),
                word: uncovered(v.word, letter),
                ..turned
            };
            match v.state {
                GameState::Done(true) => (noted, GuessOutcome::Solved),
                GameState::Done(false) => (noted, GuessOutcome::LivesExhausted),
                _ => {
                    if all_guessed(noted.word) {
                        (GameView { state: GameState::Done(true), ..noted }, GuessOutcome::Solved)
                    } else if has_letter(v.word, letter) {
                        (noted, GuessOutcome::CorrectLetter)
                    } else if v.lives <= 1 {
                        (
                            GameView { lives: 0, state: GameState::Done(false), ..noted },
                            GuessOutcome::LivesExhausted,
                        )
                    } else {
                        (GameView { lives: v.lives - 1, ..noted }, GuessOutcome::WrongLetter)
                    }
                },
            }
        }
    }
}

/// For whom a message about a move is meant: where turns are enforced the
/// player whose turn is next, as the turn position plus one, and everybody (0)
/// otherwise.
pub open spec fn next_target(v: GameView) -> int {
    if v.turn_enforced {
        v.cursor + 1
    } else {
        0
    }
}

/// The message that tells the clients of a guess that ended in `outcome`
/// and left the game as `v`. A guess that was not taken tells nothing, and a
/// repeated letter tells only that the turn has passed on.
pub open spec fn notification_model(v: GameView, outcome: GuessOutcome) -> Option<EventView> {
    match outcome {
        GuessOutcome::NotYourTurn => None,
        GuessOutcome::AlreadyGuessed => if v.turn_enforced {
            Some(EventView { player: next_target(v), game_id: v.game_id, data: "turn_advance"@ })
        } else {
            None
        },
        GuessOutcome::CorrectLetter => Some(
            EventView { player: next_target(v), game_id: v.game_id, data: "letter_correct"@ },
        ),
        GuessOutcome::WrongLetter => Some(
            EventView { player: next_target(v), game_id: v.game_id, data: "letter_wrong"@ },
        ),
        GuessOutcome::Solved => Some(EventView { player: 0, game_id: v.game_id, data: "solved"@ }),
        GuessOutcome::LivesExhausted => Some(
            EventView { player: 0, game_id: v.game_id, data: "lost"@ },
        ),
    }
}

/// Joining with single spaces, one character at a time.
proof fn lemma_spaced_push(s: Seq<char>, c: char)
    ensures
        spaced(s.push(c)) == if s.len() == 0 {
            seq![c]
        } else {
            spaced(s).push(' ').push(c)
        },
{
    assert(s.push(c).drop_last() =~= s);
}

/// Joining with a separator, one piece at a time.
proof fn lemma_joined_push(pieces: Seq<Seq<char>>, piece: Seq<char>, sep: Seq<char>)
    ensures
        joined(pieces.push(piece), sep) == if pieces.len() == 0 {
            piece
        } else {
            joined(pieces, sep) + sep + piece
        },
{
    assert(pieces.push(piece).drop_last() =~= pieces);
}

/// Where `position_from` finds a player, and that it finds the first.
pub proof fn lemma_position_from(players: Seq<PlayerView>, id: u128, start: int)
    requires
        0 <= start,
    ensures
        match position_from(players, id, start) {
            Some(i) => start <= i < players.len() && players[i].id == id && forall|k: int|
                start <= k < i ==> (#[trigger] players[k]).id != id,
            None => forall|k: int| start <= k < players.len() ==> (#[trigger] players[k]).id != id,
        },
    decreases players.len() - start,
{
    if start < players.len() && players[start].id != id {
        lemma_position_from(players, id, start + 1);
    }
}

/// What a new last player changes about who is found where.
pub proof fn lemma_position_push(players: Seq<PlayerView>, p: PlayerView, id: u128)
    ensures
        position_of(players.push(p), id) == match position_of(players, id) {
            Some(i) => Some(i),
            None => if p.id == id {
                Some(players.len() as int)
            } else {
                None
            },
        },
{
    let more = players.push(p);
    lemma_position_from(players, id, 0);
    lemma_position_from(more, id, 0);
    assert(forall|k: int| 0 <= k < players.len() ==> more[k] == players[k]);
    assert(more[players.len() as int] == p);
}

/// The games that the constructors make are well formed.
pub proof fn lemma_new_games_wf(
    game_id: u128,
    player: PlayerView,
    word: Seq<char>,
    lives: int,
    turn_enforced: bool,
)
    requires
        lives <= i32::MAX,
    ensures
        game_wf(started_view(game_id, player, word, lives, turn_enforced)),
        game_wf(waiting_view(game_id, word, lives, turn_enforced)),
{
}

/// The representation of a game.
pub struct Game {
    /// The players that are assigned to the game, in turn order.
    players: Vec<Player>,
    /// The word that should be guessed.
    word: Word,
    /// Once the game has started no more players can be added.
    game_state: GameState,
    /// The lives that are left.
    lives: i32,
    /// The id of this game.
    game_id: u128,
    /// The alphabet ledger.
    guessed_letters: Vec<Letter>,
    /// Whether the players have to take turns.
    turn_enforced: bool,
    /// The turn position of the player who guesses next.
    cursor: usize,
}

impl View for Game {
    type V = GameView;

    closed spec fn view(&self) -> GameView {
        GameView {
            word: self.word.letters@,
            ledger: self.guessed_letters@,
            lives: self.lives as int,
            state: self.game_state,
            players: player_views(self.players@),
            cursor: self.cursor as int,
            turn_enforced: self.turn_enforced,
            game_id: self.game_id,
        }
    }
}

/// The alphabet ledger with no letter guessed.
fn new_ledger() -> (r: Vec<Letter>)
    ensures
        r@ == fresh_ledger(),
{
    let mut ledger: Vec<Letter> = Vec::new();
    let mut i: usize = 0;
    while i < ALPHABET_SIZE
        invariant
            i <= ALPHABET_SIZE,
            ledger@ =~= Seq::new(i as nat, |k: int| unguessed(alphabet_char(k))),
        decreases ALPHABET_SIZE - i,
    {
        ledger.push(Letter::new(nth_letter(i)));
        i += 1;
    }
    ledger
}

impl Game {
    /// What holds of every game.
    pub open spec fn wf(&self) -> bool {
        game_wf(self@)
    }

    /// A running game on `word` with `player` as its first player. With
    /// `lives` at zero or below the game is lost from the start.
    pub fn with_word(game_id: u128, player: Player, word: &str, lives: i32, turn_enforced: bool) -> (r:
        Game)
        ensures
            r.wf(),
            r@ == started_view(game_id, player@, word@, lives as int, turn_enforced),
    {
        let mut players: Vec<Player> = Vec::new();
        players.push(player);
        let game = Game {
            players,
            word: Word::new(word),
            game_state: if lives > 0 {
                GameState::Running
            } else {
                GameState::Done(false)
            },
            lives: if lives > 0 {
                lives
            } else {
                0
            },
            game_id,
            guessed_letters: new_ledger(),
            turn_enforced,
            cursor: 0,
        };
        assert(game@.players =~= seq![player@]);
        game
    }

    /// A game on `word` that waits for its players. With `lives` at zero or
    /// below the game is lost from the start.
    pub fn waiting(game_id: u128, word: &str, lives: i32, turn_enforced: bool) -> (r: Game)
        ensures
            r.wf(),
            r@ == waiting_view(game_id, word@, lives as int, turn_enforced),
    {
        let game = Game {
            players: Vec::new(),
            word: Word::new(word),
            game_state: if lives > 0 {
                GameState::Waiting
            } else {
                GameState::Done(false)
            },
            lives: if lives > 0 {
                lives
            } else {
                0
            },
            game_id,
            guessed_letters: new_ledger(),
            turn_enforced,
            cursor: 0,
        };
        assert(game@.players =~= Seq::empty());
        game
    }

    /// How many lives are left.
    pub fn lives(&self) -> (r: i32)
        ensures
            r == self@.lives,
    {
        self.lives
    }

    /// The id of this game.
    pub fn game_id(&self) -> (r: u128)
        ensures
            r == self@.game_id,
    {
        self.game_id
    }

    /// Where the game stands.
    pub fn state(&self) -> (r: GameState)
        ensures
            r == self@.state,
    {
        self.game_state
    }

    /// How many players the game has.
    pub fn player_count(&self) -> (r: usize)
        ensures
            r == self@.players.len(),
    {
        self.players.len()
    }

    /// Whether the game is over and, if it is, whether it was won.
    pub fn completed(&self) -> (r: Option<bool>)
        ensures
            r == match self@.state {
                GameState::Done(won) => Some(won),
                _ => None,
            },
    {
        match self.game_state {
            GameState::Done(won) => Some(won),
            _ => None,
        }
    }

    /// The word in full once the game is over, and nothing before.
    pub fn word(&self) -> (r: Option<String>)
        ensures
            match r {
                Some(text) => self@.state is Done && text@ == characters(self@.word),
                None => !(self@.state is Done),
            },
    {
        match self.game_state {
            GameState::Done(_) => Some(self.word.get()),
            _ => None,
        }
    }

    /// The word as the players see it: the places in order with a space
    /// between neighbours, a guessed letter as it is and any other as `_`.
    pub fn game_string(&self) -> (r: String)
        ensures
            r@ == spaced(masked(self@.word)),
    {
        let mut string = String::new();
        let mut i: usize = 0;
        while i < self.word.letters.len()
            invariant
                i <= self.word.letters.len(),
                string@ == spaced(masked(self@.word).take(i as int)),
            decreases self.word.letters.len() - i,
        {
            proof {
                let shown = masked(self@.word);
                assert(shown.take(i + 1) =~= shown.take(i as int).push(shown[i as int]));
                lemma_spaced_push(shown.take(i as int), shown[i as int]);
            }
            if i > 0 {
                push_char(&mut string, ' ');
            }
            let letter = self.word.letters[i];
            if letter.guessed {
                push_char(&mut string, letter.character);
            } else {
                push_char(&mut string, '_');
            }
            i += 1;
        }
        assert(masked(self@.word).take(i as int) == masked(self@.word));
        string
    }

    /// The letters tried so far, in alphabetical order with a space between
    /// neighbours.
    pub fn guessed_letters(&self) -> (r: String)
        ensures
            r@ == spaced(guessed_characters(self@.ledger)),
    {
        let mut s = String::new();
        let mut first_letter = true;
        let mut i: usize = 0;
        while i < self.guessed_letters.len()
            invariant
                i <= self.guessed_letters.len(),
                first_letter <==> guessed_characters(self@.ledger.take(i as int)).len() == 0,
                s@ == spaced(guessed_characters(self@.ledger.take(i as int))),
            decreases self.guessed_letters.len() - i,
        {
            proof {
                let seen = self@.ledger.take(i as int);
                assert(self@.ledger.take(i + 1).drop_last() =~= seen);
                lemma_spaced_push(guessed_characters(seen), self@.ledger[i as int].character);
            }
            let letter = self.guessed_letters[i];
            if letter.guessed {
                if first_letter {
                    first_letter = false;
                } else {
                    push_char(&mut s, ' ');
                }
                push_char(&mut s, letter.character);
            }
            i += 1;
        }
        assert(self@.ledger.take(i as int) == self@.ledger);
        s
    }

    /// The names of the other players of the game, in turn order, with a
    /// comma and a space between neighbours.
    pub fn teammates(&self, player_id: u128) -> (r: String)
        ensures
            r@ == joined(teammate_names(self@.players, player_id), ", "@),
    {
        let mut s = String::new();
        let mut first_player = true;
        let mut i: usize = 0;
        while i < self.players.len()
            invariant
                i <= self.players.len(),
                first_player <==> teammate_names(self@.players.take(i as int), player_id).len() == 0,
                s@ == joined(teammate_names(self@.players.take(i as int), player_id), ", "@),
            decreases self.players.len() - i,
        {
            proof {
                let seen = self@.players.take(i as int);
                assert(self@.players.take(i + 1).drop_last() =~= seen);
                lemma_joined_push(teammate_names(seen, player_id), self@.players[i as int].name, ", "@);
            }
            if self.players[i].id != player_id {
                if first_player {
                    first_player = false;
                } else {
                    s.append(", ");
                }
                s.append(self.players[i].name.as_str());
            }
            i += 1;
        }
        assert(self@.players.take(i as int) == self@.players);
        s
    }

    /// The turn position of the player with the token `player_id`, if the
    /// player belongs to this game.
    pub fn player_turn_position(&self, player_id: u128) -> (r: Option<usize>)
        ensures
            match r {
                Some(i) => position_of(self@.players, player_id) == Some(i as int),
                None => position_of(self@.players, player_id) is None,
            },
    {
        let mut i: usize = 0;
        while i < self.players.len()
            invariant
                i <= self.players.len(),
                position_of(self@.players, player_id) == position_from(self@.players, player_id, i as int),
            decreases self.players.len() - i,
        {
            if self.players[i].id == player_id {
                return Some(i);
            }
            i += 1;
        }
        None
    }

    /// Whether the player with the token `player_id` may guess now.
    pub fn is_players_turn(&self, player_id: u128) -> (r: bool)
        ensures
            r == may_guess(self@, player_id),
    {
        match self.game_state {
            GameState::Waiting => false,
            _ => match self.player_turn_position(player_id) {
                Some(i) => !self.turn_enforced || i == self.cursor,
                None => false,
            },
        }
    }

    /// Adds a player to a game that still waits for its players. A game that
    /// has begun or ended takes no player, nor does any game take a token
    /// that one of its players has.
    pub fn add_player(&mut self, player: Player) -> (r: bool)
        requires
            old(self).wf(),
        ensures
            final(self).wf(),
            r == (old(self)@.state == GameState::Waiting && position_of(
                old(self)@.players,
                player.id,
            ) is None),
            final(self)@ == if r {
                GameView { players: old(self)@.players.push(player@), ..old(self)@ }
            } else {
                old(self)@
            },
    {
        match self.game_state {
            GameState::Waiting => {},
            _ => {
                return false;
            },
        }
        if self.player_turn_position(player.id).is_some() {
            return false;
        }
        proof {
            lemma_position_from(self@.players, player.id, 0);
        }
        self.players.push(player);
        assert(self@.players =~= old(self)@.players.push(player@));
        assert(self@.players.len() == self.players.len());
        true
    }

    /// Lets a waiting game begin. Any other game stays as it is.
    pub fn start(&mut self) -> (r: bool)
        requires
            old(self).wf(),
        ensures
            final(self).wf(),
            r == (old(self)@.state == GameState::Waiting),
            final(self)@ == if r {
                GameView { state: GameState::Running, ..old(self)@ }
            } else {
                old(self)@
            },
    {
        match self.game_state {
            GameState::Waiting => {
                self.game_state = GameState::Running;
                true
            },
            _ => false,
        }
    }

    /// Enters `c` in the alphabet ledger and says whether it was new there.
    /// A character outside `A` to `Z` is always new and is not entered.
    fn add_letter_guessed(&mut self, c: char) -> (r: bool)
        requires
            old(self).wf(),
        ensures
            r == !already_guessed(old(self)@.ledger, c),
            final(self)@ == if r {
                GameView { ledger: marked(old(self)@.ledger, c), ..old(self)@ }
            } else {
                old(self)@
            },
            r ==> ledger_wf(final(self)@.ledger),
    {
        match ledger_index(c) {
            Some(i) => {
                if self.guessed_letters[i].guessed {
                    false
                } else {
                    self.guessed_letters[i].guessed = true;
                    assert(self@.ledger =~= marked(old(self)@.ledger, c));
                    true
                }
            },
            None => true,
        }
    }

    /// Uncovers every place of the word that holds `c` and says whether there
    /// is one.
    fn uncover(&mut self, c: char) -> (r: bool)
        ensures
            r == has_letter(old(self)@.word, c),
            final(self)@ == (GameView { word: uncovered(old(self)@.word, c), ..old(self)@ }),
    {
        let mut something_guessed = false;
        let mut i: usize = 0;
        while i < self.word.letters.len()
            invariant
                i <= self.word.letters.len(),
                self.word.letters@.len() == old(self).word.letters@.len(),
                forall|k: int|
                    0 <= k < i ==> #[trigger] self.word.letters@[k] == uncovered_letter(
                        old(self).word.letters@[k],
                        c,
                    ),
                forall|k: int|
                    i <= k < self.word.letters@.len() ==> #[trigger] self.word.letters@[k] == old(
                        self,
                    ).word.letters@[k],
                something_guessed <==> exists|k: int|
                    0 <= k < i && (#[trigger] old(self).word.letters@[k]).character == c,
                self.players == old(self).players,
                self.game_state == old(self).game_state,
                self.lives == old(self).lives,
                self.game_id == old(self).game_id,
                self.guessed_letters == old(self).guessed_letters,
                self.turn_enforced == old(self).turn_enforced,
                self.cursor == old(self).cursor,
            decreases self.word.letters.len() - i,
        {
            if self.word.letters[i].character == c {
                self.word.letters[i].guessed = true;
                something_guessed = true;
            }
            i += 1;
        }
        assert(self@.word =~= uncovered(old(self)@.word, c));
        something_guessed
    }

    /// Whether the word has been guessed in full.
    fn solved(&self) -> (r: bool)
        ensures
            r == all_guessed(self@.word),
    {
        let mut i: usize = 0;
        while i < self.word.letters.len()
            invariant
                i <= self.word.letters.len(),
                forall|k: int| 0 <= k < i ==> (#[trigger] self.word.letters@[k]).guessed,
            decreases self.word.letters.len() - i,
        {
            if !self.word.letters[i].guessed {
                return false;
            }
            i += 1;
        }
        true
    }

    /// Takes a guess of `letter` as it stands, without turning it to upper
    /// case, from the player with the token `player_id`.
    pub fn guess_normalized(&mut self, player_id: u128, letter: char) -> (r: GuessOutcome)
        requires
            old(self).wf(),
        ensures
            final(self).wf(),
            (final(self)@, r) == guess_model(old(self)@, player_id, letter),
    {
        if !self.is_players_turn(player_id) {
            return GuessOutcome::NotYourTurn;
        }
        proof {
            lemma_position_from(self@.players, player_id, 0);
        }
        if self.turn_enforced {
            assert(self@.players.len() == self.players@.len());
            self.cursor = next_turn(self.cursor, self.players.len());
        }
        if !self.add_letter_guessed(letter) {
            return GuessOutcome::AlreadyGuessed;
        }
        let something_guessed = self.uncover(letter);
        match self.game_state {
            GameState::Done(true) => {
                return GuessOutcome::Solved;
            },
            GameState::Done(false) => {
                return GuessOutcome::LivesExhausted;
            },
            _ => {},
        }
        if self.solved() {
            self.game_state = GameState::Done(true);
            return GuessOutcome::Solved;
        }
        if something_guessed {
            return GuessOutcome::CorrectLetter;
        }
        self.lives = self.lives - 1;
        if self.lives == 0 {
            self.game_state = GameState::Done(false);
            return GuessOutcome::LivesExhausted;
        }
        GuessOutcome::WrongLetter
    }

    /// Takes a guess of the character `c`, in either case, from the player
    /// with the token `player_id`.
    pub fn guess_letter(&mut self, player_id: u128, c: char) -> (r: GuessOutcome)
        requires
            old(self).wf(),
        ensures
            final(self).wf(),
            (final(self)@, r) == guess_model(old(self)@, player_id, normalized(c)),
    {
        let letter = normalize(c);
        self.guess_normalized(player_id, letter)
    }

    /// The message to publish after a guess that has just returned `outcome`,
    /// if there is anything to tell.
    pub fn notification(&self, outcome: GuessOutcome) -> (r: Option<EventData>)
        requires
            self.wf(),
        ensures
            match r {
                Some(event) => notification_model(self@, outcome) == Some(event@),
                None => notification_model(self@, outcome) is None,
            },
    {
        assert(self@.cursor <= self.players@.len());
        assert(self.cursor <= self.players.len());
        let target: usize = if self.turn_enforced {
            self.cursor + 1
        } else {
            0
        };
        match outcome {
            GuessOutcome::NotYourTurn => None,
            GuessOutcome::AlreadyGuessed => {
                if self.turn_enforced {
                    Some(EventData::new(target, self.game_id, "turn_advance".to_owned()))
                } else {
                    None
                }
            },
            GuessOutcome::CorrectLetter => Some(
                EventData::new(target, self.game_id, "letter_correct".to_owned()),
            ),
            GuessOutcome::WrongLetter => Some(
                EventData::new(target, self.game_id, "letter_wrong".to_owned()),
            ),
            GuessOutcome::Solved => Some(EventData::new(0, self.game_id, "solved".to_owned())),
            GuessOutcome::LivesExhausted => Some(EventData::new(0, self.game_id, "lost".to_owned())),
        }
    }
}

impl GuessOutcome {
    /// The number under which the outcome goes over the wire: 1 for a solved
    /// word, 2 for a correct letter, 3 for a wrong one, 4 for the loss of the
    /// last life, 5 for a letter tried before and 6 for a guess out of turn.
    pub fn code(&self) -> (r: i32)
        ensures
            r == match *self {
                GuessOutcome::Solved => 1i32,
                GuessOutcome::CorrectLetter => 2i32,
                GuessOutcome::WrongLetter => 3i32,
                GuessOutcome::LivesExhausted => 4i32,
                GuessOutcome::AlreadyGuessed => 5i32,
                GuessOutcome::NotYourTurn => 6i32,
            },
    {
        match self {
            GuessOutcome::Solved => 1,
            GuessOutcome::CorrectLetter => 2,
            GuessOutcome::WrongLetter => 3,
            GuessOutcome::LivesExhausted => 4,
            GuessOutcome::AlreadyGuessed => 5,
            GuessOutcome::NotYourTurn => 6,
        }
    }
}

} // verus!
