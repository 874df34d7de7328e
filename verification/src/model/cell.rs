use vstd::prelude::*;

verus! {

/// Per-letter feedback after a guess has been evaluated: `Empty` before
/// evaluation, then `Correct` (right letter, right position), `Present`
/// (letter occurs elsewhere in the secret) or `Absent`.
#[derive(Clone, Copy, PartialEq, Eq, Structural, Debug)]
pub enum CellState {
    Empty,
    Correct,
    Present,
    Absent,
}

/// One letter slot of a row: an optional letter, its feedback state, and
/// whether the slot still accepts input (`is_disabled == false`).
#[derive(Clone, Copy, Debug)]
pub struct Cell {
    pub letter: Option<char>,
    pub state: CellState,
    pub is_disabled: bool,
}

impl Cell {
    /// A fresh, unevaluated cell.
    pub fn new(letter: Option<char>, is_disabled: bool) -> (c: Cell)
        ensures
            c.letter == letter,
            c.state == CellState::Empty,
            c.is_disabled == is_disabled,
    {
        Cell { letter, is_disabled, state: CellState::Empty }
    }

    /// The same cell with its feedback state replaced.
    pub fn with_state(self, state: CellState) -> (c: Cell)
        ensures
            c.letter == self.letter,
            c.state == state,
            c.is_disabled == self.is_disabled,
    {
        Cell { state, ..self }
    }
}

} // verus!
