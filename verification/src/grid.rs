//! The mathematical model of a board's cells: a sequence of rows, each a
//! sequence of booleans. Rows may differ in length.

use vstd::prelude::*;

verus! {

/// The stored form of a grid: one `Vec` per row.
pub type Matrix = Vec<Vec<bool>>;

/// The grid that a matrix stores, row by row.
pub open spec fn rows(matrix: &Matrix) -> Seq<Seq<bool>> {
    matrix.deep_view()
}

/// `grid[i][j]` exists: `i` names a row of the grid and `j` a cell of that row.
pub open spec fn has_cell(grid: Seq<Seq<bool>>, i: int, j: int) -> bool {
    0 <= i < grid.len() && 0 <= j < grid[i].len()
}

/// `width` is the length of the longest row of `grid`: no row is longer, and
/// some row is exactly that long. A grid without rows has no such number.
pub open spec fn is_widest_row_len(grid: Seq<Seq<bool>>, width: nat) -> bool {
    &&& forall|r: int| 0 <= r < grid.len() ==> (#[trigger] grid[r]).len() <= width
    &&& exists|r: int| 0 <= r < grid.len() && (#[trigger] grid[r]).len() == width
}

/// Every row of `grid` has exactly `width` cells.
pub open spec fn is_rectangular(grid: Seq<Seq<bool>>, width: nat) -> bool {
    forall|r: int| 0 <= r < grid.len() ==> (#[trigger] grid[r]).len() == width
}

} // verus!
