use vstd::prelude::*;

use crate::model::grid::{fresh_grid, Grid, GridV};
use crate::service::dictionary::{Word, WordV};

verus! {

/// Lifecycle of one game: `Playing` until the secret is guessed (`Won`)
/// or every attempt is used (`Lost`); both end states are terminal.
#[derive(Clone, Copy, PartialEq, Eq, Structural, Debug)]
pub enum GameStatus {
    Playing,
    Won,
    Lost,
}

/// The mathematical value of a [`GameState`].
#[verifier::ext_equal]
pub struct GameStateV {
    pub grid: GridV,
    pub secret_word: WordV,
    pub word_length: int,
    pub num_tries: int,
    pub status: GameStatus,
}

impl GameStateV {
    /// Well-formedness of a game: the grid is structurally sound and sized
    /// by `num_tries` and `word_length`, the secret has `word_length`
    /// letters, and while the game is in progress exactly the row under
    /// the cursor accepts input — afterwards every row is locked.
    pub open spec fn wf(self) -> bool {
        &&& self.grid.wf()
        &&& self.grid.num_rows == self.num_tries
        &&& forall|i: int|
            0 <= i < self.grid.rows.len() ==> (#[trigger] self.grid.rows[i]).cells.len()
                == self.word_length
        &&& self.secret_word.text.len() == self.word_length
        &&& if self.status is Playing {
            self.grid.only_enabled(self.grid.current_row)
        } else {
            self.grid.all_disabled()
        }
    }
}

/// The state of a freshly created game around the secret `secret`.
pub open spec fn fresh_game(secret: WordV, num_tries: nat, word_length: nat) -> GameStateV {
    GameStateV {
        grid: fresh_grid(num_tries, word_length),
        secret_word: secret,
        word_length: word_length as int,
        num_tries: num_tries as int,
        status: GameStatus::Playing,
    }
}

/// One game: the grid of attempts, the secret word, the game's dimensions
/// and its status.
#[derive(Clone, Debug)]
pub struct GameState {
    pub grid: Grid,
    pub secret_word: Word,
    pub word_length: usize,
    pub num_tries: usize,
    pub status: GameStatus,
}

impl View for GameState {
    type V = GameStateV;

    open spec fn view(&self) -> GameStateV {
        GameStateV {
            grid: self.grid@,
            secret_word: self.secret_word@,
            word_length: self.word_length as int,
            num_tries: self.num_tries as int,
            status: self.status,
        }
    }
}

impl GameState {
    /// Well-formedness of the underlying game value.
    pub open spec fn wf(&self) -> bool {
        self@.wf()
    }

    /// A fresh game around `secret_word`: an empty grid with the cursor on
    /// its first row, and status `Playing`.
    pub fn new(secret_word: Word, num_tries: usize, word_length: usize) -> (s: GameState)
        requires
            num_tries >= 1,
            secret_word@.text.len() == word_length,
        ensures
            s@ == fresh_game(secret_word@, num_tries as nat, word_length as nat),
            s.wf(),
    {
        let s = GameState {
            grid: Grid::new(num_tries, word_length),
            secret_word,
            word_length,
            num_tries,
            status: GameStatus::Playing,
        };
        proof {
            assert(s@ =~= fresh_game(s.secret_word@, num_tries as nat, word_length as nat));
        }
        s
    }

    /// True iff the game has ended, by a win or a loss.
    pub fn is_game_over(&self) -> (r: bool)
        ensures
            r == !(self@.status is Playing),
    {
        matches!(self.status, GameStatus::Won | GameStatus::Lost)
    }
}

} // verus!
