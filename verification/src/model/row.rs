use vstd::prelude::*;

use crate::model::cell::{Cell, CellState};

verus! {

/// The mathematical value of a [`Row`]: the sequence of its cells and the
/// row's own enabled/disabled flag.
#[verifier::ext_equal]
pub struct RowV {
    pub cells: Seq<Cell>,
    pub is_disabled: bool,
}

impl RowV {
    /// Every cell carries the flag of its row.
    pub open spec fn wf(self) -> bool {
        forall|j: int|
            0 <= j < self.cells.len() ==> (#[trigger] self.cells[j]).is_disabled
                == self.is_disabled
    }

    /// The same row with its flag, and every cell's flag, set to `b`.
    pub open spec fn with_disabled(self, b: bool) -> RowV {
        RowV {
            cells: Seq::new(self.cells.len(), |j: int| Cell { is_disabled: b, ..self.cells[j] }),
            is_disabled: b,
        }
    }
}

/// A row of empty cells, all carrying the flag `is_disabled`.
pub open spec fn fresh_row(length: nat, is_disabled: bool) -> RowV {
    RowV {
        cells: Seq::new(
            length,
            |j: int| Cell { letter: None, state: CellState::Empty, is_disabled },
        ),
        is_disabled,
    }
}

/// One guess attempt: an ordered sequence of cells, plus a flag telling
/// whether the row still accepts input.
#[derive(Clone, Debug)]
pub struct Row {
    pub cells: Vec<Cell>,
    pub is_disabled: bool,
}

impl View for Row {
    type V = RowV;

    open spec fn view(&self) -> RowV {
        RowV { cells: self.cells@, is_disabled: self.is_disabled }
    }
}

impl Row {
    /// A row of `length` empty, unevaluated cells.
    pub fn new(length: usize, is_disabled: bool) -> (r: Row)
        ensures
            r@ == fresh_row(length as nat, is_disabled),
    {
        let mut cells: Vec<Cell> = Vec::new();
        let mut j: usize = 0;
        while j < length
            invariant
                j <= length,
                cells@ =~= fresh_row(length as nat, is_disabled).cells.take(j as int),
            decreases length - j,
        {
            cells.push(Cell::new(None, is_disabled));
            j = j + 1;
        }
        let r = Row { cells, is_disabled };
        proof {
            assert(r@.cells =~= fresh_row(length as nat, is_disabled).cells);
            assert(r@ =~= fresh_row(length as nat, is_disabled));
        }
        r
    }

    /// Sets the row's flag and propagates it to every cell, so that a
    /// disabled row's cells no longer accept input.
    pub fn set_disabled(&mut self, is_disabled: bool)
        ensures
            final(self)@ == old(self)@.with_disabled(is_disabled),
    {
        self.is_disabled = is_disabled;
        let n = self.cells.len();
        let mut j: usize = 0;
        while j < n
            invariant
                j <= n,
                n == self.cells@.len(),
                self.is_disabled == is_disabled,
                forall|k: int|
                    0 <= k < j ==> #[trigger] self.cells@[k] == (Cell {
                        is_disabled,
                        ..old(self)@.cells[k]
                    }),
                forall|k: int| j <= k < n ==> #[trigger] self.cells@[k] == old(self)@.cells[k],
            decreases n - j,
        {
            let mut c = self.cells[j];
            c.is_disabled = is_disabled;
            self.cells.set(j, c);
            j = j + 1;
        }
        proof {
            assert(self@.cells =~= old(self)@.with_disabled(is_disabled).cells);
            assert(self@ =~= old(self)@.with_disabled(is_disabled));
        }
    }

    /// Whether the row is locked against further input.
    pub fn is_disabled(&self) -> (r: bool)
        ensures
            r == self@.is_disabled,
    {
        self.is_disabled
    }
}

} // verus!
