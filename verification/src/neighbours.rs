//! Which cells surround a cursor, and in which order they are reported.
//!
//! Cells are named here as `(row, column)`, the order in which a grid is
//! indexed: the neighbour lookup reads `grid[row][column]`.

use vstd::prelude::*;
use crate::grid::{has_cell, is_rectangular};

verus! {

/// One direction's contribution: the cell `(row, column)` when it is
/// `present`, nothing otherwise.
pub open spec fn slot(present: bool, row: int, column: int) -> Seq<(int, int)> {
    if present {
        seq![(row, column)]
    } else {
        Seq::empty()
    }
}

/// The neighbours of the cursor `at = (x, y)` on a board that is `max_x`
/// columns wide and `max_y` rows high, as `(row, column)` pairs, in the order
/// north-west, north, north-east, east, south-east, south, south-west, west.
/// A direction is left out when it would leave the board.
pub open spec fn neighbour_cells(at: (nat, nat), max_x: nat, max_y: nat) -> Seq<(int, int)> {
    let x = at.0 as int;
    let y = at.1 as int;
    let north = y > 0;
    let south = y + 1 <= max_y - 1;
    let west = x > 0;
    let east = x + 1 <= max_x - 1;
    slot(north && west, y - 1, x - 1) + slot(north, y - 1, x) + slot(north && east, y - 1, x + 1)
        + slot(east, y, x + 1) + slot(south && east, y + 1, x + 1) + slot(south, y + 1, x) + slot(
        south && west,
        y + 1,
        x - 1,
    ) + slot(west, y, x - 1)
}

/// Each of `cells` names a cell that `grid` really has.
pub open spec fn cells_exist(grid: Seq<Seq<bool>>, cells: Seq<(int, int)>) -> bool {
    forall|k: int| 0 <= k < cells.len() ==> has_cell(grid, (#[trigger] cells[k]).0, cells[k].1)
}

/// The values that `grid` holds at `cells`, in the same order.
pub open spec fn values_at(grid: Seq<Seq<bool>>, cells: Seq<(int, int)>) -> Seq<bool> {
    Seq::new(cells.len(), |k: int| grid[cells[k].0][cells[k].1])
}

/// What one more slot adds: all cells of the longer sequence exist just when
/// those of the shorter one and the cell of the slot do; and the values read
/// at the longer sequence are those read at the shorter one, then the slot's.
pub proof fn lemma_append_slot(
    grid: Seq<Seq<bool>>,
    done: Seq<(int, int)>,
    present: bool,
    row: int,
    column: int,
)
    ensures
        cells_exist(grid, done + slot(present, row, column)) <==> cells_exist(grid, done) && (
        present ==> has_cell(grid, row, column)),
        values_at(grid, done + slot(present, row, column)) == if present {
            values_at(grid, done).push(grid[row][column])
        } else {
            values_at(grid, done)
        },
{
    let longer = done + slot(present, row, column);
    if cells_exist(grid, longer) {
        assert forall|k: int| 0 <= k < done.len() implies has_cell(
            grid,
            (#[trigger] done[k]).0,
            done[k].1,
        ) by {
            assert(longer[k] == done[k]);
        }
        if present {
            assert(longer[done.len() as int] == (row, column));
        }
    }
    if cells_exist(grid, done) && (present ==> has_cell(grid, row, column)) {
        assert forall|k: int| 0 <= k < longer.len() implies has_cell(
            grid,
            (#[trigger] longer[k]).0,
            longer[k].1,
        ) by {
            if k < done.len() {
                assert(longer[k] == done[k]);
            }
        }
    }
    if present {
        assert(values_at(grid, longer) =~= values_at(grid, done).push(grid[row][column]));
    } else {
        assert(longer =~= done);
    }
}

/// On a board whose rows all have `max_x` cells, every neighbour of a cursor
/// that stands on the board exists.
pub proof fn lemma_neighbours_exist_on_rectangle(
    grid: Seq<Seq<bool>>,
    at: (nat, nat),
    max_x: nat,
    max_y: nat,
)
    requires
        grid.len() == max_y,
        is_rectangular(grid, max_x),
        at.0 < max_x,
        at.1 < max_y,
    ensures
        cells_exist(grid, neighbour_cells(at, max_x, max_y)),
{
    let x = at.0 as int;
    let y = at.1 as int;
    let north = y > 0;
    let south = y + 1 <= max_y - 1;
    let west = x > 0;
    let east = x + 1 <= max_x - 1;
    let nw = slot(north && west, y - 1, x - 1);
    let n = nw + slot(north, y - 1, x);
    let ne = n + slot(north && east, y - 1, x + 1);
    let e = ne + slot(east, y, x + 1);
    let se = e + slot(south && east, y + 1, x + 1);
    let s = se + slot(south, y + 1, x);
    let sw = s + slot(south && west, y + 1, x - 1);
    assert(Seq::<(int, int)>::empty() + nw =~= nw);
    lemma_append_slot(grid, Seq::empty(), north && west, y - 1, x - 1);
    lemma_append_slot(grid, nw, north, y - 1, x);
    lemma_append_slot(grid, n, north && east, y - 1, x + 1);
    lemma_append_slot(grid, ne, east, y, x + 1);
    lemma_append_slot(grid, e, south && east, y + 1, x + 1);
    lemma_append_slot(grid, se, south, y + 1, x);
    lemma_append_slot(grid, s, south && west, y + 1, x - 1);
    lemma_append_slot(grid, sw, west, y, x - 1);
}

/// The cell `(row, column)` touches the cursor `at = (x, y)`: it lies at most
/// one row and one column away, and it is not the cursor's own cell.
pub open spec fn is_next_to(cell: (int, int), at: (nat, nat)) -> bool {
    &&& at.1 - 1 <= cell.0 <= at.1 + 1
    &&& at.0 - 1 <= cell.1 <= at.0 + 1
    &&& cell != (at.1 as int, at.0 as int)
}

/// The cell `(row, column)` lies on a board of `max_x` columns and `max_y` rows.
pub open spec fn is_on_board(cell: (int, int), max_x: nat, max_y: nat) -> bool {
    0 <= cell.0 < max_y && 0 <= cell.1 < max_x
}

/// For a cursor on the board, the neighbours are exactly the cells of the
/// board that touch the cursor, each of them once.
pub proof fn lemma_neighbours_are_the_cells_around(at: (nat, nat), max_x: nat, max_y: nat)
    requires
        at.0 < max_x,
        at.1 < max_y,
    ensures
        forall|cell: (int, int)|
            neighbour_cells(at, max_x, max_y).contains(cell) <==> is_next_to(cell, at)
                && is_on_board(cell, max_x, max_y),
        neighbour_cells(at, max_x, max_y).no_duplicates(),
{
    let x = at.0 as int;
    let y = at.1 as int;
    let north = y > 0;
    let south = y + 1 <= max_y - 1;
    let west = x > 0;
    let east = x + 1 <= max_x - 1;
    let none = Seq::<(int, int)>::empty();
    let nw = slot(north && west, y - 1, x - 1);
    let n = nw + slot(north, y - 1, x);
    let ne = n + slot(north && east, y - 1, x + 1);
    let e = ne + slot(east, y, x + 1);
    let se = e + slot(south && east, y + 1, x + 1);
    let s = se + slot(south, y + 1, x);
    let sw = s + slot(south && west, y + 1, x - 1);
    assert(none + nw =~= nw);
    lemma_slot_membership(none, north && west, y - 1, x - 1);
    lemma_slot_membership(nw, north, y - 1, x);
    lemma_slot_membership(n, north && east, y - 1, x + 1);
    lemma_slot_membership(ne, east, y, x + 1);
    lemma_slot_membership(e, south && east, y + 1, x + 1);
    lemma_slot_membership(se, south, y + 1, x);
    lemma_slot_membership(s, south && west, y + 1, x - 1);
    lemma_slot_membership(sw, west, y, x - 1);
}

/// What one more slot adds to a sequence of cells: the slot's cell, if it is
/// present, and no duplicate unless that cell was there before.
proof fn lemma_slot_membership(done: Seq<(int, int)>, present: bool, row: int, column: int)
    ensures
        forall|cell: (int, int)| #[trigger]
            (done + slot(present, row, column)).contains(cell) <==> done.contains(cell) || (present
                && cell == (row, column)),
        done.no_duplicates() && !(present && done.contains((row, column))) ==> (done + slot(
            present,
            row,
            column,
        )).no_duplicates(),
{
    let longer = done + slot(present, row, column);
    if !present {
        assert(longer =~= done);
    }
    assert forall|cell: (int, int)| done.contains(cell) || (present && cell == (row, column))
        implies longer.contains(cell) by {
        if done.contains(cell) {
            let k = done.index_of(cell);
            assert(longer[k] == cell);
        } else {
            assert(longer[done.len() as int] == cell);
        }
    }
    assert forall|cell: (int, int)| longer.contains(cell) implies done.contains(cell) || (present
        && cell == (row, column)) by {
        let k = longer.index_of(cell);
        if k < done.len() {
            assert(done[k] == cell);
        }
    }
}

/// The cursor stands in the first or in the last column.
pub open spec fn in_outer_column(at: (nat, nat), max_x: nat) -> bool {
    at.0 == 0 || at.0 + 1 == max_x
}

/// The cursor stands in the first or in the last row.
pub open spec fn in_outer_row(at: (nat, nat), max_y: nat) -> bool {
    at.1 == 0 || at.1 + 1 == max_y
}

/// On a board of at least two columns and two rows, a cursor on the board
/// has three neighbours in a corner, five elsewhere on the border, and eight
/// inside the board.
pub proof fn lemma_neighbour_count(at: (nat, nat), max_x: nat, max_y: nat)
    requires
        max_x >= 2,
        max_y >= 2,
        at.0 < max_x,
        at.1 < max_y,
    ensures
        in_outer_column(at, max_x) && in_outer_row(at, max_y) ==> neighbour_cells(
            at,
            max_x,
            max_y,
        ).len() == 3,
        in_outer_column(at, max_x) != in_outer_row(at, max_y) ==> neighbour_cells(
            at,
            max_x,
            max_y,
        ).len() == 5,
        !in_outer_column(at, max_x) && !in_outer_row(at, max_y) ==> neighbour_cells(
            at,
            max_x,
            max_y,
        ).len() == 8,
{
}

} // verus!
