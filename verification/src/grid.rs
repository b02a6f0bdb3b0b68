//! A rectangular (possibly sparse or empty) region of cells, addressed by an
//! inclusive zero-based start coordinate. Rows may be ragged: a row may hold
//! fewer cells than the grid's column count.

use crate::cell::Cell;
use vstd::prelude::*;

verus! {

/// A cell grid: `rows[i][j]` sits at worksheet row `start_row + i` and
/// worksheet column `start_col + j`.
pub struct Grid {
    /// Zero-based worksheet row of the first row.
    pub start_row: u32,
    /// Zero-based worksheet column of the first column.
    pub start_col: u32,
    /// Number of columns the grid spans.
    pub cols: u32,
    /// The rows, top to bottom; within a row, cells run left to right.
    pub rows: Vec<Vec<Cell>>,
}

impl Grid {
    /// Well-formedness: the inclusive end coordinates still fit the
    /// worksheet's 32-bit addressing, and no row is wider than the grid.
    pub open spec fn wf(&self) -> bool {
        &&& self.start_row as int + self.rows@.len() <= u32::MAX as int + 1
        &&& self.cols > 0 ==> self.start_col as int + self.cols as int <= u32::MAX as int + 1
        &&& forall|i: int|
            0 <= i < self.rows@.len() ==> #[trigger] self.rows@[i]@.len() <= self.cols as int
    }

    /// A grid is empty when it has no rows or spans no columns.
    pub open spec fn spec_is_empty(&self) -> bool {
        self.rows@.len() == 0 || self.cols == 0
    }

    /// Whether the grid holds no cells at all.
    pub fn is_empty(&self) -> (r: bool)
        ensures
            r == self.spec_is_empty(),
    {
        self.rows.len() == 0 || self.cols == 0
    }
}

} // verus!
