//! What holds of games over any guess and over any run of guesses.

use vstd::prelude::*;

use crate::game::{
    all_guessed, already_guessed, characters, fresh_letters, game_wf, guess_model, has_letter,
    ledger_position, lemma_new_games_wf, lemma_position_from, masked, may_guess, position_of,
    started_view, waiting_view, GameState, GameView, GuessOutcome, PlayerView,
};
use crate::text::{lemma_spaced_shape, spaced};

verus! {

/// A game that has just been made shows its word as one `_` for each of its
/// places, with a single space between neighbours: for a word of `n` letters
/// a text of `2n - 1` characters, or none, with `_` at the even places and a
/// space at the odd ones.
pub proof fn law_new_game_shows_blanks(
    game_id: u128,
    player: PlayerView,
    word: Seq<char>,
    lives: int,
    turn_enforced: bool,
)
    ensures
        ({
            let started = started_view(game_id, player, word, lives, turn_enforced);
            let waiting = waiting_view(game_id, word, lives, turn_enforced);
            let shown = spaced(masked(started.word));
            &&& masked(waiting.word) == masked(started.word)
            &&& masked(started.word) == Seq::new(word.len(), |i: int| '_')
            &&& shown.len() == if word.len() == 0 {
                0
            } else {
                2 * word.len() - 1
            }
            &&& forall|i: int| 0 <= i < word.len() ==> #[trigger] shown[2 * i] == '_'
            &&& forall|i: int| 0 <= i < word.len() - 1 ==> #[trigger] shown[2 * i + 1] == ' '
        }),
{
    let blanks = masked(fresh_letters(word));
    assert(blanks =~= Seq::new(word.len(), |i: int| '_'));
    lemma_spaced_shape(blanks);
}

/// The word of a game that has just been made is the word it was made with.
pub proof fn law_new_game_keeps_word(
    game_id: u128,
    player: PlayerView,
    word: Seq<char>,
    lives: int,
    turn_enforced: bool,
)
    ensures
        characters(started_view(game_id, player, word, lives, turn_enforced).word) == word,
        characters(waiting_view(game_id, word, lives, turn_enforced).word) == word,
{
    assert(characters(fresh_letters(word)) =~= word);
}

/// A guess leaves a well-formed game well formed: the lives never go below
/// zero and the cursor stays on a player.
pub proof fn law_guess_keeps_wf(v: GameView, id: u128, letter: char)
    requires
        game_wf(v),
    ensures
        game_wf(guess_model(v, id, letter).0),
{
    if may_guess(v, id) {
        lemma_position_from(v.players, id, 0);
    }
}

/// What no guess changes, and what a guess changes in one direction only: the
/// players, the id, the mode and the letters of the word stay; the lives never
/// grow; a letter of the ledger and a place of the word that are guessed stay
/// guessed; and a game that is over stays as it ended.
pub proof fn law_guess_frame(v: GameView, id: u128, letter: char)
    requires
        game_wf(v),
    ensures
        ({
            let after = guess_model(v, id, letter).0;
            &&& after.players == v.players
            &&& after.game_id == v.game_id
            &&& after.turn_enforced == v.turn_enforced
            &&& characters(after.word) == characters(v.word)
            &&& 0 <= after.lives <= v.lives
            &&& after.ledger.len() == v.ledger.len()
            &&& forall|i: int|
                0 <= i < v.ledger.len() && v.ledger[i].guessed ==> (#[trigger] after.ledger[i]).guessed
            &&& forall|i: int|
                0 <= i < v.word.len() && v.word[i].guessed ==> (#[trigger] after.word[i]).guessed
            &&& v.state is Done ==> after.state == v.state && after.lives == v.lives
            &&& v.state != GameState::Waiting ==> after.state != GameState::Waiting
        }),
{
    let after = guess_model(v, id, letter).0;
    assert(characters(after.word) =~= characters(v.word));
}

/// In a running game the guess that uncovers the last hidden place wins: the
/// game is done and won, and the lives are those from before the guess.
pub proof fn law_completing_guess_wins(v: GameView, id: u128, letter: char)
    requires
        game_wf(v),
        v.state == GameState::Running,
        may_guess(v, id),
        all_guessed(guess_model(v, id, letter).0.word),
        !all_guessed(v.word),
    ensures
        guess_model(v, id, letter).1 == GuessOutcome::Solved,
        guess_model(v, id, letter).0.state == GameState::Done(true),
        guess_model(v, id, letter).0.lives == v.lives,
{
}

/// In a running game with a hidden place a new letter that the word does
/// not hold costs exactly one life, and the game is lost exactly when that
/// was the last one.
pub proof fn law_wrong_guess_costs_a_life(v: GameView, id: u128, letter: char)
    requires
        game_wf(v),
        v.state == GameState::Running,
        may_guess(v, id),
        !already_guessed(v.ledger, letter),
        !has_letter(v.word, letter),
        !all_guessed(v.word),
    ensures
        ({
            let (after, outcome) = guess_model(v, id, letter);
            &&& after.lives == v.lives - 1
            &&& after.state == if v.lives == 1 {
                GameState::Done(false)
            } else {
                GameState::Running
            }
            &&& outcome == if v.lives == 1 {
                GuessOutcome::LivesExhausted
            } else {
                GuessOutcome::WrongLetter
            }
        }),
{
    let (after, outcome) = guess_model(v, id, letter);
    assert(after.word =~= v.word);
}

/// A letter of the alphabet that was guessed is known as guessed from then
/// on: the next guess of it that is taken, by whichever player, reports so
/// and changes nothing: not the lives, the ledger, the word or the state, and
/// not the cursor either unless turns are enforced among several players.
pub proof fn law_second_guess_changes_nothing(
    v: GameView,
    first: u128,
    second: u128,
    letter: char,
)
    requires
        game_wf(v),
        ledger_position(letter) is Some,
        may_guess(v, first),
        may_guess(guess_model(v, first, letter).0, second),
    ensures
        ({
            let once = guess_model(v, first, letter).0;
            let (twice, outcome) = guess_model(once, second, letter);
            &&& outcome == GuessOutcome::AlreadyGuessed
            &&& twice == GameView { cursor: twice.cursor, ..once }
            &&& !v.turn_enforced || v.players.len() == 1 ==> twice == once
        }),
{
    let once = guess_model(v, first, letter).0;
    lemma_position_from(v.players, first, 0);
    lemma_position_from(once.players, second, 0);
}

/// Where turns are enforced every guess that is taken passes the turn on to
/// the next player in the order of joining, and from the last to the first.
pub proof fn law_turns_go_round(v: GameView, id: u128, letter: char)
    requires
        game_wf(v),
        v.turn_enforced,
        may_guess(v, id),
    ensures
        position_of(v.players, id) == Some(v.cursor),
        guess_model(v, id, letter).0.cursor == (v.cursor + 1) % (v.players.len() as int),
        0 <= guess_model(v, id, letter).0.cursor < v.players.len(),
{
    lemma_position_from(v.players, id, 0);
    let n = v.players.len() as int;
    if v.cursor + 1 < n {
        assert((v.cursor + 1) % n == v.cursor + 1) by (nonlinear_arith)
            requires
                0 <= v.cursor + 1 < n,
        ;
    } else {
        assert((v.cursor + 1) % n == 0) by (nonlinear_arith)
            requires
                v.cursor + 1 == n,
                n > 0,
        ;
    }
}

/// Where turns are enforced a guess by anyone but the player at the cursor
/// is not taken and leaves the game exactly as it was.
pub proof fn law_out_of_turn_changes_nothing(v: GameView, id: u128, letter: char)
    requires
        v.turn_enforced,
        position_of(v.players, id) != Some(v.cursor),
    ensures
        guess_model(v, id, letter) == (v, GuessOutcome::NotYourTurn),
{
}

/// The game after the player with the token `id` has guessed the `letters`
/// one after the other.
pub open spec fn after_guesses(v: GameView, id: u128, letters: Seq<char>) -> GameView
    decreases letters.len(),
{
    if letters.len() == 0 {
        v
    } else {
        guess_model(after_guesses(v, id, letters.drop_last()), id, letters.last()).0
    }
}

/// Whether the player with the token `id` may guess whenever the game has
/// begun: the player belongs to the game, and no turn has to be waited for.
pub open spec fn always_in_turn(v: GameView, id: u128) -> bool {
    &&& position_of(v.players, id) is Some
    &&& !v.turn_enforced || v.players.len() == 1
}

/// What holds of a game `t` that came from the running game `v` by guesses of
/// `letters`, all of which the word holds.
spec fn on_course(v: GameView, t: GameView, letters: Seq<char>) -> bool {
    &&& game_wf(t)
    &&& t.players == v.players
    &&& t.turn_enforced == v.turn_enforced
    &&& t.lives == v.lives
    &&& t.word.len() == v.word.len()
    &&& characters(t.word) == characters(v.word)
    &&& t.state == if all_guessed(t.word) {
        GameState::Done(true)
    } else {
        GameState::Running
    }
    &&& forall|i: int, k: int|
        0 <= i < v.word.len() && 0 <= k < letters.len() && #[trigger] letters[k] == (
        #[trigger] v.word[i]).character ==> t.word[i].guessed
}

proof fn lemma_on_course(v: GameView, id: u128, letters: Seq<char>)
    requires
        game_wf(v),
        v.state == GameState::Running,
        !all_guessed(v.word),
        always_in_turn(v, id),
        forall|k: int| 0 <= k < letters.len() ==> has_letter(v.word, #[trigger] letters[k]),
    ensures
        on_course(v, after_guesses(v, id, letters), letters),
    decreases letters.len(),
{
    if letters.len() > 0 {
        let before = letters.drop_last();
        let letter = letters.last();
        lemma_on_course(v, id, before);
        let t = after_guesses(v, id, before);
        let after = guess_model(t, id, letter).0;
        lemma_position_from(t.players, id, 0);
        assert(may_guess(t, id));
        assert(has_letter(v.word, letters[letters.len() - 1]));
        let place = choose|i: int| 0 <= i < v.word.len() && (#[trigger] v.word[i]).character == letter;
        assert(characters(t.word)[place] == characters(v.word)[place]);
        assert(t.word[place].character == letter);
        assert(has_letter(t.word, letter));
        law_guess_keeps_wf(t, id, letter);
        law_guess_frame(t, id, letter);
        assert forall|i: int, k: int|
            0 <= i < v.word.len() && 0 <= k < letters.len() && #[trigger] letters[k] == (
            #[trigger] v.word[i]).character implies after.word[i].guessed by {
            assert(characters(t.word)[i] == characters(v.word)[i]);
            if k < before.len() {
                assert(before[k] == letters[k]);
                assert(t.word[i].guessed);
            } else {
                assert(t.word[i].character == letter);
            }
        }
    }
}

/// Guessing every letter of the word wins the game without the loss of a
/// life: after a run of guesses, all of letters that the word holds, in which
/// every letter of the word was guessed, by a player who is always in turn,
/// a game that was running is done and won and has the lives it had.
pub proof fn law_guessing_every_letter_wins(v: GameView, id: u128, letters: Seq<char>)
    requires
        game_wf(v),
        v.state == GameState::Running,
        !all_guessed(v.word),
        always_in_turn(v, id),
        forall|k: int| 0 <= k < letters.len() ==> has_letter(v.word, #[trigger] letters[k]),
        forall|i: int|
            0 <= i < v.word.len() ==> exists|k: int|
                0 <= k < letters.len() && #[trigger] letters[k] == (#[trigger] v.word[i]).character,
    ensures
        after_guesses(v, id, letters).state == GameState::Done(true),
        after_guesses(v, id, letters).lives == v.lives,
        all_guessed(after_guesses(v, id, letters).word),
        characters(after_guesses(v, id, letters).word) == characters(v.word),
{
    lemma_on_course(v, id, letters);
    let t = after_guesses(v, id, letters);
    assert forall|i: int| 0 <= i < t.word.len() implies (#[trigger] t.word[i]).guessed by {
        let k = choose|k: int|
            0 <= k < letters.len() && #[trigger] letters[k] == (#[trigger] v.word[i]).character;
        assert(letters[k] == v.word[i].character);
    }
}

/// The game after the moves have been made one after the other; a move is
/// the token of the player who guesses and the letter that is guessed.
pub open spec fn after_moves(v: GameView, moves: Seq<(u128, char)>) -> GameView
    decreases moves.len(),
{
    if moves.len() == 0 {
        v
    } else {
        guess_model(after_moves(v, moves.drop_last()), moves.last().0, moves.last().1).0
    }
}

/// Whatever is guessed, by whomever and in whatever order, a game stays
/// well formed and keeps its players, its id and the letters of its word; its
/// lives never grow and never go below zero; and once it is over it stays
/// as it ended.
pub proof fn law_play_keeps_the_game(v: GameView, moves: Seq<(u128, char)>)
    requires
        game_wf(v),
    ensures
        ({
            let after = after_moves(v, moves);
            &&& game_wf(after)
            &&& after.players == v.players
            &&& after.game_id == v.game_id
            &&& characters(after.word) == characters(v.word)
            &&& 0 <= after.lives <= v.lives
            &&& v.state is Done ==> after.state == v.state && after.lives == v.lives
        }),
    decreases moves.len(),
{
    if moves.len() > 0 {
        let before = after_moves(v, moves.drop_last());
        law_play_keeps_the_game(v, moves.drop_last());
        law_guess_keeps_wf(before, moves.last().0, moves.last().1);
        law_guess_frame(before, moves.last().0, moves.last().1);
    }
}

/// The word of a game stays hidden as a whole while the game goes on, and
/// what a game that is over has to show is the very word it was made with,
/// whatever was guessed in between.
pub proof fn law_finished_game_shows_its_word(
    game_id: u128,
    player: PlayerView,
    word: Seq<char>,
    lives: int,
    turn_enforced: bool,
    moves: Seq<(u128, char)>,
)
    requires
        lives <= i32::MAX,
    ensures
        characters(
            after_moves(started_view(game_id, player, word, lives, turn_enforced), moves).word,
        ) == word,
{
    let v = started_view(game_id, player, word, lives, turn_enforced);
    lemma_new_games_wf(game_id, player, word, lives, turn_enforced);
    law_new_game_keeps_word(game_id, player, word, lives, turn_enforced);
    law_play_keeps_the_game(v, moves);
}

} // verus!
