//! A cell position on a board.

use vstd::prelude::*;
use crate::grid::{has_cell, rows, Matrix};

verus! {

/// A pair of column (`x`) and row (`y`) numbers. It is a plain value: it is
/// never changed in place, and nothing ties it to a particular board.
#[derive(Clone, Copy, Debug)]
pub struct Coordinate {
    x: usize,
    y: usize,
}

impl View for Coordinate {
    type V = (nat, nat);

    /// The pair `(x, y)`.
    closed spec fn view(&self) -> (nat, nat) {
        (self.x as nat, self.y as nat)
    }
}

impl Coordinate {
    /// The coordinate `(x, y)`. Any pair of numbers will do: nothing is held
    /// against a board here.
    pub fn new(x: usize, y: usize) -> (coordinate: Coordinate)
        ensures
            coordinate@ == (x as nat, y as nat),
    {
        Coordinate { x, y }
    }

    /// The column number.
    pub fn x(&self) -> (x: usize)
        ensures
            x == self@.0,
    {
        self.x
    }

    /// The row number.
    pub fn y(&self) -> (y: usize)
        ensures
            y == self@.1,
    {
        self.y
    }

    /// The value that `matrix` holds for this coordinate. The lookup takes `x`
    /// as the first index and `y` as the second: it reads `matrix[x][y]`.
    pub fn value(&self, matrix: &Matrix) -> (value: bool)
        requires
            has_cell(rows(matrix), self@.0 as int, self@.1 as int),
        ensures
            value == rows(matrix)[self@.0 as int][self@.1 as int],
    {
        matrix[self.x][self.y]
    }

    /// Both numbers at once, `x` first.
    pub fn as_tuple(&self) -> (pair: (usize, usize))
        ensures
            pair.0 == self@.0,
            pair.1 == self@.1,
    {
        (self.x, self.y)
    }
}

} // verus!
