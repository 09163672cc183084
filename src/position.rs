use vstd::prelude::*;

use vstd::string::StringExecFns;

use crate::automaton::IndexError;
use crate::history::History;
use crate::text::{decimal, decimal_string};
use crate::AUTOMATON_HISTORY;

verus! {

/// The coordinates of a cell in the grid that shows a history: `row` counts
/// generations from the oldest, and `column` counts cells from the left, so
/// that column `0` is cell `K - 1` of the automaton.
#[derive(Copy, Clone, Debug, PartialEq, Eq, Structural)]
pub struct CellPosition {
    /// The generation, from the oldest (`0`) to the newest.
    pub row: usize,
    /// The cell, from the leftmost (`0`) to the rightmost.
    pub column: usize,
}

/// The index, within an automaton of `k` cells, of the cell shown in column
/// `column`.
pub open spec fn mirrored(k: int, column: int) -> int {
    k - column - 1
}

impl CellPosition {
    /// Whether this position lies in the newest generation of a history of
    /// `AUTOMATON_HISTORY` generations.
    pub fn is_active_automaton(&self) -> (r: bool)
        ensures
            r == (self.row == AUTOMATON_HISTORY - 1),
    {
        self.row == AUTOMATON_HISTORY - 1
    }

    /// Render the position as text: `(column,row)`.
    pub fn to_string(&self) -> (r: String)
        ensures
            r@ == "("@ + decimal(self.column as nat) + ","@ + decimal(self.row as nat) + ")"@,
    {
        let mut text = String::from_str("(");
        let column = decimal_string(self.column as u64);
        text.append(column.as_str());
        text.append(",");
        let row = decimal_string(self.row as u64);
        text.append(row.as_str());
        text.append(")");
        text
    }
}

impl<const K: usize, const N: usize> History<K, N> {
    /// Answer the occupancy of the cell shown at `position`, or an error when
    /// its row is not below `N` or, failing that, its column is not below
    /// `K`.
    pub fn cell_at(&self, position: CellPosition) -> (r: Result<bool, IndexError>)
        requires
            self.well_formed(),
        ensures
            position.row >= N ==> r == Err::<bool, IndexError>(IndexError::Row(position.row)),
            position.row < N && position.column >= K ==> r == Err::<bool, IndexError>(
                IndexError::Column(position.column),
            ),
            position.row < N && position.column < K ==> r == Ok::<bool, IndexError>(
                self@[position.row as int][mirrored(K as int, position.column as int)],
            ),
    {
        if position.row >= N {
            return Err(IndexError::Row(position.row));
        }
        if position.column >= K {
            return Err(IndexError::Column(position.column));
        }
        self.cell(position.row, K - position.column - 1)
    }

    /// Set the cell shown at `position` to `value`, or answer an error, and
    /// change nothing, when its row is not below `N` or, failing that, its
    /// column is not below `K`.
    pub fn set_cell_at(&mut self, position: CellPosition, value: bool) -> (r: Result<
        (),
        IndexError,
    >)
        requires
            old(self).well_formed(),
        ensures
            final(self).well_formed(),
            position.row >= N ==> r == Err::<(), IndexError>(IndexError::Row(position.row)),
            position.row < N && position.column >= K ==> r == Err::<(), IndexError>(
                IndexError::Column(position.column),
            ),
            position.row < N && position.column < K ==> r is Ok,
            r is Ok ==> final(self)@ == old(self)@.update(
                position.row as int,
                old(self)@[position.row as int].update(
                    mirrored(K as int, position.column as int),
                    value,
                ),
            ),
            r is Err ==> final(self)@ == old(self)@,
    {
        if position.row >= N {
            return Err(IndexError::Row(position.row));
        }
        if position.column >= K {
            return Err(IndexError::Column(position.column));
        }
        self.set_cell(position.row, K - position.column - 1, value)
    }
}

} // verus!
