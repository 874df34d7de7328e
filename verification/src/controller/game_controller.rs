use vstd::prelude::*;

use crate::controller::evaluate::{cell_state_at, eval_states, count_misplaced};
use crate::model::cell::{Cell, CellState};
use crate::model::game_state::{fresh_game, GameState, GameStateV, GameStatus};
use crate::model::grid::GridError;
use crate::model::row::{Row, RowV};
use crate::service::dictionary::{
    dict_has_entry, dict_has_text, dict_has_text_of_len, DictionaryError, DictionaryService, Word,
    WordV,
};
use crate::text::{chars_to_string, lemma_upper_seq_idempotent, str_chars, to_upper_chars, upper_seq};

verus! {

/// Outcome of one guess: the game is won or lost, play continues on a
/// fresh row, the guess was not a dictionary word, or the game had
/// already ended.
#[derive(Clone, Copy, PartialEq, Eq, Structural, Debug)]
pub enum GuessResult {
    Won,
    Lost,
    Continue,
    InvalidWord,
    GameAlreadyOver,
}

/// The row written for an evaluated guess `u`: each cell carries its
/// letter and its feedback state, and still accepts input until the row
/// is locked or left.
pub open spec fn guessed_row(u: Seq<char>, secret: Seq<char>) -> RowV {
    RowV {
        cells: Seq::new(
            u.len(),
            |i: int|
                Cell {
                    letter: Some(u[i]),
                    state: cell_state_at(u, secret, i),
                    is_disabled: false,
                },
        ),
        is_disabled: false,
    }
}

/// The outcome [`GameController::process_guess`] reports for `guess`
/// against the game `gs` and the dictionary `dict`.
pub open spec fn step_result(gs: GameStateV, dict: Seq<WordV>, guess: Seq<char>) -> GuessResult {
    if !(gs.status is Playing) {
        GuessResult::GameAlreadyOver
    } else {
        let u = upper_seq(guess);
        if !dict_has_text(dict, u) {
            GuessResult::InvalidWord
        } else if u == gs.secret_word.text {
            GuessResult::Won
        } else if gs.grid.can_advance() {
            GuessResult::Continue
        } else {
            GuessResult::Lost
        }
    }
}

/// The game [`GameController::process_guess`] leaves behind for `guess`
/// against the game `gs` and the dictionary `dict`: an ended game and an
/// unrecognized guess change nothing; a winning guess writes the
/// evaluated row, locks it and ends the game `Won`; any other recognized
/// guess writes the evaluated row and advances — onto the next row if one
/// is left, else locking the grid and ending the game `Lost`.
pub open spec fn step_state(gs: GameStateV, dict: Seq<WordV>, guess: Seq<char>) -> GameStateV {
    if !(gs.status is Playing) {
        gs
    } else {
        let u = upper_seq(guess);
        if !dict_has_text(dict, u) {
            gs
        } else {
            let row = guessed_row(u, gs.secret_word.text);
            let cur = gs.grid.current_row;
            if u == gs.secret_word.text {
                GameStateV {
                    grid: gs.grid.with_row(cur, row.with_disabled(true)),
                    status: GameStatus::Won,
                    ..gs
                }
            } else {
                let written = gs.grid.with_row(cur, row);
                if gs.grid.can_advance() {
                    GameStateV { grid: written.after_advance(), ..gs }
                } else {
                    GameStateV {
                        grid: written.after_advance(),
                        status: GameStatus::Lost,
                        ..gs
                    }
                }
            }
        }
    }
}

/// Orchestrates one game: validates a guess against the word service,
/// evaluates it, writes it into the grid and decides win, loss or
/// continuation.
pub struct GameController {
    pub word_service: DictionaryService,
}

impl View for GameController {
    type V = Seq<WordV>;

    open spec fn view(&self) -> Seq<WordV> {
        self.word_service@
    }
}

impl GameController {
    /// A controller answering guesses from the given word service.
    pub fn new(word_service: DictionaryService) -> (c: GameController)
        ensures
            c@ == word_service@,
    {
        GameController { word_service }
    }

    /// A fresh game of `num_tries` attempts around a random secret word
    /// of `word_length` letters; fails iff the dictionary holds no word
    /// of that length.
    pub fn create_new_game(&self, num_tries: usize, word_length: usize) -> (r: Result<
        GameState,
        DictionaryError,
    >)
        requires
            num_tries >= 1,
        ensures
            r is Ok <==> dict_has_text_of_len(self@, word_length as int),
            r matches Ok(gs) ==> {
                &&& gs@ == fresh_game(
                    gs@.secret_word,
                    num_tries as nat,
                    word_length as nat,
                )
                &&& gs@.secret_word.text.len() == word_length
                &&& dict_has_entry(self@, gs@.secret_word)
                &&& gs.wf()
            },
            r is Err ==> r == Err::<GameState, DictionaryError>(DictionaryError::NoWordOfLength),
    {
        let secret_word = match self.word_service.get_random_word(word_length) {
            Ok(w) => w,
            Err(e) => {
                return Err(e);
            },
        };
        Ok(GameState::new(secret_word, num_tries, word_length))
    }

    /// The per-letter feedback for `guess` against `secret`, by the
    /// two-pass duplicate-aware rule: exact matches are marked `Correct`
    /// first and consume their secret letter; every other position is
    /// `Present` while unconsumed occurrences of its letter remain, each
    /// marking consuming one, and `Absent` otherwise.
    pub fn determine_cell_states(&self, guess: &[char], secret: &Word) -> (r: Vec<CellState>)
        requires
            guess@.len() == secret@.text.len(),
        ensures
            r@ == eval_states(guess@, secret@.text),
    {
        let secret_chars = str_chars(secret.word.as_str());
        let n = guess.len();
        let mut states: Vec<CellState> = Vec::new();
        let mut i: usize = 0;
        while i < n
            invariant
                i <= n,
                n == guess@.len(),
                secret_chars@ == secret@.text,
                n == secret_chars@.len(),
                states@ =~= eval_states(guess@, secret@.text).take(i as int),
            decreases n - i,
        {
            let g = guess[i];
            if g == secret_chars[i] {
                states.push(CellState::Correct);
            } else {
                let prior = count_misplaced(guess, secret_chars.as_slice(), g, i);
                let avail = count_misplaced(secret_chars.as_slice(), guess, g, n);
                if prior < avail {
                    states.push(CellState::Present);
                } else {
                    states.push(CellState::Absent);
                }
            }
            i = i + 1;
        }
        proof {
            assert(states@ =~= eval_states(guess@, secret@.text));
        }
        states
    }

    /// Plays one guess against `game_state`: an already-ended game is
    /// left untouched; a guess that is no dictionary word is rejected
    /// without consuming an attempt; otherwise the evaluated guess is
    /// written into the current row and the game is won, continued on the
    /// next row, or lost when the attempts are exhausted.
    pub fn process_guess(&self, game_state: &mut GameState, guess: Vec<char>) -> (r: GuessResult)
        requires
            old(game_state).wf(),
            guess@.len() == old(game_state)@.word_length,
        ensures
            r == step_result(old(game_state)@, self@, guess@),
            final(game_state)@ == step_state(old(game_state)@, self@, guess@),
            final(game_state).wf(),
            !(old(game_state)@.status is Playing) ==> *final(game_state) == *old(game_state),
    {
        proof {
            lemma_upper_seq_idempotent(guess@);
        }
        if game_state.is_game_over() {
            return GuessResult::GameAlreadyOver;
        }

        let upper = to_upper_chars(&guess);
        let guess_word: String = chars_to_string(&upper);

        if !self.word_service.validate_word(guess_word.as_str()) {
            return GuessResult::InvalidWord;
        }

        let ghost u = upper_seq(guess@);
        let ghost secret = old(game_state)@.secret_word.text;

        let states = self.determine_cell_states(upper.as_slice(), &game_state.secret_word);

        let mut cells: Vec<Cell> = Vec::new();
        let mut i: usize = 0;
        let n = upper.len();
        while i < n
            invariant
                i <= n,
                n == u.len(),
                upper@ == u,
                states@ == eval_states(u, secret),
                u.len() == secret.len(),
                cells@ =~= guessed_row(u, secret).cells.take(i as int),
            decreases n - i,
        {
            cells.push(Cell::new(Some(upper[i]), false).with_state(states[i]));
            i = i + 1;
        }
        let row = Row { cells, is_disabled: false };
        proof {
            assert(row@ =~= guessed_row(u, secret));
        }

        let cur = game_state.grid.current_row;
        game_state.grid.rows.set(cur, row);
        proof {
            assert(game_state.grid@.rows =~= old(game_state)@.grid.with_row(
                cur as int,
                guessed_row(u, secret),
            ).rows);
            assert(game_state.grid@ =~= old(game_state)@.grid.with_row(
                cur as int,
                guessed_row(u, secret),
            ));
        }

        if guess_word == game_state.secret_word.word {
            game_state.grid.rows[cur].set_disabled(true);
            game_state.status = GameStatus::Won;
            proof {
                let target = step_state(old(game_state)@, self@, guess@);
                assert(game_state@.grid.rows =~= target.grid.rows);
                assert(game_state@.grid =~= target.grid);
                assert(game_state@ =~= target);
            }
            return GuessResult::Won;
        }

        match game_state.grid.advance_row() {
            Ok(_) => {
                proof {
                    let target = step_state(old(game_state)@, self@, guess@);
                    assert(game_state@.grid =~= target.grid);
                    assert(game_state@ =~= target);
                }
                GuessResult::Continue
            },
            Err(GridError::NoMoreRows) => {
                let last = game_state.grid.current_row;
                game_state.grid.rows[last].set_disabled(true);
                game_state.status = GameStatus::Lost;
                proof {
                    let target = step_state(old(game_state)@, self@, guess@);
                    assert(game_state@.grid.rows =~~= target.grid.rows);
                    assert(game_state@.grid =~= target.grid);
                    assert(game_state@ =~= target);
                }
                GuessResult::Lost
            },
        }
    }
}

} // verus!
