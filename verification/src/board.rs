//! The board: a grid of booleans and the cursor that walks it.

use vstd::prelude::*;
use crate::coordinate::Coordinate;
use crate::grid::{has_cell, is_widest_row_len, rows, Matrix};
use crate::neighbours::{cells_exist, lemma_append_slot, neighbour_cells, slot, values_at};
use crate::raster::raster_next;

verus! {

/// A grid of booleans together with a cursor. `max_y` is the number of rows
/// and `max_x` the length of the longest row.
pub struct Board {
    matrix: Matrix,
    max_x: usize,
    max_y: usize,
    pub current_position: Coordinate,
}

impl Board {
    /// The cells of the board, row by row.
    pub closed spec fn grid(&self) -> Seq<Seq<bool>> {
        rows(&self.matrix)
    }

    /// The number of columns that the cursor walks.
    pub closed spec fn max_x(&self) -> nat {
        self.max_x as nat
    }

    /// The number of rows that the cursor walks.
    pub closed spec fn max_y(&self) -> nat {
        self.max_y as nat
    }

    /// Where the cursor stands, as `(x, y)`.
    pub closed spec fn cursor(&self) -> (nat, nat) {
        self.current_position@
    }

    /// The board has a row, and its two dimensions are those of its grid.
    pub open spec fn wf(&self) -> bool {
        &&& self.grid().len() > 0
        &&& self.max_y() == self.grid().len()
        &&& is_widest_row_len(self.grid(), self.max_x())
    }

    /// The cursor stands on a cell of the board.
    pub open spec fn cursor_on_board(&self) -> bool {
        self.cursor().0 < self.max_x() && self.cursor().1 < self.max_y()
    }

    /// The cells around the cursor, as `(row, column)` pairs in reporting order.
    pub open spec fn neighbour_cells(&self) -> Seq<(int, int)> {
        neighbour_cells(self.cursor(), self.max_x(), self.max_y())
    }

    /// A board on `board`, with the cursor at the origin. A board needs at
    /// least one row.
    pub fn new(board: Matrix) -> (created: Board)
        requires
            board@.len() > 0,
        ensures
            created.wf(),
            created.grid() == rows(&board),
            created.cursor() == (0nat, 0nat),
            created.cursor_on_board() <==> created.max_x() > 0,
    {
        let max_y: usize = board.len();
        let max_x: usize = Board::get_max_x(&board);
        Board { matrix: board, current_position: Coordinate::new(0, 0), max_y, max_x }
    }

    /// The length of the longest row of `board`.
    fn get_max_x(board: &Matrix) -> (length: usize)
        requires
            board@.len() > 0,
        ensures
            is_widest_row_len(rows(board), length as nat),
    {
        let mut length: usize = board[0].len();
        let mut row: usize = 1;
        let ghost mut longest: int = 0;
        while row < board.len()
            invariant
                1 <= row <= board@.len(),
                forall|r: int| 0 <= r < row ==> (#[trigger] rows(board)[r]).len() <= length,
                0 <= longest < row,
                rows(board)[longest].len() == length,
            decreases board@.len() - row,
        {
            if board[row].len() > length {
                length = board[row].len();
                proof {
                    longest = row as int;
                }
            }
            row += 1;
        }
        length
    }

    /// Where the cursor stands. Code that is verified outside this module
    /// cannot read the field `current_position`, and reads the cursor here.
    pub fn position(&self) -> (position: Coordinate)
        ensures
            position@ == self.cursor(),
    {
        self.current_position
    }

    /// Moves the cursor one cell on: to the right within a row, from the end
    /// of a row to the start of the next, and from the end of the last row
    /// back to the origin. The grid and the dimensions stay as they are.
    pub fn next_position(&mut self)
        ensures
            final(self).cursor() == raster_next(
                old(self).cursor(),
                old(self).max_x(),
                old(self).max_y(),
            ),
            // within a row: one column on, same row
            old(self).cursor().0 + 1 < old(self).max_x()
                ==> final(self).cursor() == (old(self).cursor().0 + 1, old(self).cursor().1),
            // at the end of a row that is not the last: start of the next row
            old(self).cursor().0 + 1 >= old(self).max_x()
                && old(self).cursor().1 + 1 < old(self).max_y()
                ==> final(self).cursor() == (0nat, old(self).cursor().1 + 1),
            // at the end of the last row: back to the origin
            old(self).cursor().0 + 1 >= old(self).max_x()
                && old(self).cursor().1 + 1 >= old(self).max_y()
                ==> final(self).cursor() == (0nat, 0nat),
            final(self).grid() == old(self).grid(),
            final(self).max_x() == old(self).max_x(),
            final(self).max_y() == old(self).max_y(),
            old(self).wf() ==> final(self).wf(),
            old(self).cursor_on_board() ==> final(self).cursor_on_board(),
    {
        let (old_x, old_y) = self.current_position.as_tuple();

        if self.max_x == 0 || old_x >= self.max_x - 1 {
            if self.max_y > 0 && old_y < self.max_y - 1 {
                self.current_position = Coordinate::new(0, old_y + 1);
            } else {
                self.current_position = Coordinate::new(0, 0);
            }
        } else {
            self.current_position = Coordinate::new(old_x + 1, old_y);
        }
    }

    /// The value under the cursor, read as `grid[x][y]`: the cursor's `x`
    /// picks the row and its `y` the cell in it, the other way round than in
    /// the neighbour lookup. That cell must exist.
    pub fn current_positions_value(&self) -> (value: bool)
        requires
            has_cell(self.grid(), self.cursor().0 as int, self.cursor().1 as int),
        ensures
            value == self.grid()[self.cursor().0 as int][self.cursor().1 as int],
    {
        self.current_position.value(&self.matrix)
    }

    /// The values of the cells around the cursor, read as `grid[row][column]`
    /// with the cursor's `y` as the row and its `x` as the column. A short row
    /// may lack a cell that the dimensions promise, so every cell that is read
    /// must exist.
    pub fn current_positions_neighbours(&self) -> (neighbours: Vec<bool>)
        requires
            cells_exist(self.grid(), self.neighbour_cells()),
        ensures
            neighbours@ == values_at(self.grid(), self.neighbour_cells()),
            neighbours@.len() == self.neighbour_cells().len(),
    {
        let mut neighbours: Vec<bool> = Vec::new();
        let (x, y) = self.current_position.as_tuple();

        let north = y > 0;
        let south = self.max_y > 0 && y < self.max_y - 1;
        let west = x > 0;
        let east = self.max_x > 0 && x < self.max_x - 1;

        // The cells reported so far, after each of the eight directions.
        let ghost grid = self.grid();
        let ghost nw = slot(north && west, y - 1, x - 1);
        let ghost n = nw + slot(north, y - 1, x as int);
        let ghost ne = n + slot(north && east, y - 1, x + 1);
        let ghost e = ne + slot(east, y as int, x + 1);
        let ghost se = e + slot(south && east, y + 1, x + 1);
        let ghost s = se + slot(south, y + 1, x as int);
        let ghost sw = s + slot(south && west, y + 1, x - 1);
        let ghost w = sw + slot(west, y as int, x - 1);
        proof {
            assert(w == self.neighbour_cells());
            lemma_append_slot(grid, sw, west, y as int, x - 1);
            lemma_append_slot(grid, s, south && west, y + 1, x - 1);
            lemma_append_slot(grid, se, south, y + 1, x as int);
            lemma_append_slot(grid, e, south && east, y + 1, x + 1);
            lemma_append_slot(grid, ne, east, y as int, x + 1);
            lemma_append_slot(grid, n, north && east, y - 1, x + 1);
            lemma_append_slot(grid, nw, north, y - 1, x as int);
            lemma_append_slot(grid, Seq::empty(), north && west, y - 1, x - 1);
            assert(Seq::<(int, int)>::empty() + nw =~= nw);
            assert(neighbours@ =~= values_at(grid, Seq::empty()));
        }

        if north {
            if west {
                neighbours.push(self.matrix[y - 1][x - 1]);
            }
            assert(neighbours@ == values_at(grid, nw));
            neighbours.push(self.matrix[y - 1][x]);
            assert(neighbours@ == values_at(grid, n));
            if east {
                neighbours.push(self.matrix[y - 1][x + 1]);
            }
        }
        assert(neighbours@ == values_at(grid, ne));
        if east {
            neighbours.push(self.matrix[y][x + 1]);
        }
        assert(neighbours@ == values_at(grid, e));
        if south {
            if east {
                neighbours.push(self.matrix[y + 1][x + 1]);
            }
            assert(neighbours@ == values_at(grid, se));
            neighbours.push(self.matrix[y + 1][x]);
            assert(neighbours@ == values_at(grid, s));
            if west {
                neighbours.push(self.matrix[y + 1][x - 1]);
            }
        }
        assert(neighbours@ == values_at(grid, sw));
        if west {
            neighbours.push(self.matrix[y][x - 1]);
        }
        neighbours
    }
}

} // verus!
