use vstd::prelude::*;

use crate::model::row::{fresh_row, Row, RowV};

verus! {

/// The mathematical value of a [`Grid`]: its rows, the cursor, and the
/// recorded row count.
#[verifier::ext_equal]
pub struct GridV {
    pub rows: Seq<RowV>,
    pub current_row: int,
    pub num_rows: int,
}

impl GridV {
    /// Structural well-formedness: at least one row, the recorded count
    /// matches the rows, the cursor stays inside them, and every row's
    /// cells carry their row's flag.
    pub open spec fn wf(self) -> bool {
        &&& self.num_rows >= 1
        &&& self.rows.len() == self.num_rows
        &&& 0 <= self.current_row < self.num_rows
        &&& forall|i: int| 0 <= i < self.rows.len() ==> (#[trigger] self.rows[i]).wf()
    }

    /// Exactly the row at `r` accepts input; all others are locked.
    pub open spec fn only_enabled(self, r: int) -> bool {
        forall|i: int|
            0 <= i < self.rows.len() ==> ((#[trigger] self.rows[i]).is_disabled <==> i != r)
    }

    /// Every row is locked.
    pub open spec fn all_disabled(self) -> bool {
        forall|i: int| 0 <= i < self.rows.len() ==> (#[trigger] self.rows[i]).is_disabled
    }

    /// Whether the cursor can still move to a further row.
    pub open spec fn can_advance(self) -> bool {
        self.current_row < self.num_rows - 1
    }

    /// The same grid with the row at `i` replaced.
    pub open spec fn with_row(self, i: int, r: RowV) -> GridV {
        GridV { rows: self.rows.update(i, r), ..self }
    }

    /// The grid after [`Grid::advance_row`]: the current row is locked in
    /// both branches; only when a further row exists does the cursor move
    /// there and unlock it.
    pub open spec fn after_advance(self) -> GridV {
        let locked = self.with_row(self.current_row, self.rows[self.current_row].with_disabled(true));
        if self.can_advance() {
            GridV {
                rows: locked.rows.update(
                    self.current_row + 1,
                    self.rows[self.current_row + 1].with_disabled(false),
                ),
                current_row: self.current_row + 1,
                num_rows: self.num_rows,
            }
        } else {
            locked
        }
    }
}

/// A grid of `num_rows` fresh rows of `word_length` empty cells; only the
/// first row accepts input and the cursor rests on it.
pub open spec fn fresh_grid(num_rows: nat, word_length: nat) -> GridV {
    GridV {
        rows: Seq::new(num_rows, |i: int| fresh_row(word_length, i != 0)),
        current_row: 0,
        num_rows: num_rows as int,
    }
}

/// The attempts of one game: an ordered sequence of rows and a cursor
/// (`current_row`) marking the active attempt.
#[derive(Clone, Debug)]
pub struct Grid {
    pub rows: Vec<Row>,
    pub current_row: usize,
    pub num_rows: usize,
}

impl View for Grid {
    type V = GridV;

    open spec fn view(&self) -> GridV {
        GridV {
            rows: self.rows@.map_values(|r: Row| r@),
            current_row: self.current_row as int,
            num_rows: self.num_rows as int,
        }
    }
}

/// Failure of [`Grid::advance_row`]: every attempt has been used.
#[derive(Clone, Copy, PartialEq, Eq, Structural, Debug)]
pub enum GridError {
    NoMoreRows,
}

impl Grid {
    /// A fresh grid of `num_rows` attempts of `word_length` letters each.
    pub fn new(num_rows: usize, word_length: usize) -> (g: Grid)
        requires
            num_rows >= 1,
        ensures
            g@ == fresh_grid(num_rows as nat, word_length as nat),
            g@.wf(),
            g@.only_enabled(0),
            g.current_row == 0,
    {
        let mut rows: Vec<Row> = Vec::new();
        let mut i: usize = 0;
        while i < num_rows
            invariant
                i <= num_rows,
                rows@.len() == i,
                forall|k: int|
                    0 <= k < i ==> (#[trigger] rows@[k])@ == fresh_row(
                        word_length as nat,
                        k != 0,
                    ),
            decreases num_rows - i,
        {
            rows.push(Row::new(word_length, i != 0));
            i = i + 1;
        }
        let g = Grid { rows, current_row: 0, num_rows };
        proof {
            assert(g@.rows =~= fresh_grid(num_rows as nat, word_length as nat).rows);
            assert(g@ =~= fresh_grid(num_rows as nat, word_length as nat));
        }
        g
    }

    /// True iff the cursor can still move to a further row.
    pub fn can_advance(&self) -> (r: bool)
        requires
            self@.wf(),
        ensures
            r == self@.can_advance(),
    {
        self.current_row < self.num_rows - 1
    }

    /// Locks the current row; then, if a further row exists, moves the
    /// cursor there and unlocks it, else fails with `NoMoreRows` leaving
    /// the cursor where it was. The row being left is locked in both
    /// branches, so the caller can treat a failed advance as the final
    /// lock of the grid.
    pub fn advance_row(&mut self) -> (r: Result<(), GridError>)
        requires
            old(self)@.wf(),
        ensures
            final(self)@ == old(self)@.after_advance(),
            final(self)@.wf(),
            r is Ok <==> old(self)@.can_advance(),
            r is Err ==> r == Err::<(), GridError>(GridError::NoMoreRows),
            final(self)@.current_row == if old(self)@.can_advance() {
                old(self)@.current_row + 1
            } else {
                old(self)@.current_row
            },
            final(self)@.rows[old(self)@.current_row].is_disabled,
    {
        let cur = self.current_row;
        self.rows[cur].set_disabled(true);
        proof {
            assert(self@.rows =~= old(self)@.with_row(cur as int, old(self)@.rows[cur as int].with_disabled(true)).rows);
        }
        if !(self.current_row < self.num_rows - 1) {
            proof {
                assert(self@ =~= old(self)@.after_advance());
            }
            return Err(GridError::NoMoreRows);
        }
        self.current_row = cur + 1;
        self.rows[cur + 1].set_disabled(false);
        proof {
            assert(self@.rows =~= old(self)@.after_advance().rows);
            assert(self@ =~= old(self)@.after_advance());
        }
        Ok(())
    }
}

} // verus!
