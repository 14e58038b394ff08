//! The game: the owner of one board.

use vstd::prelude::*;
use crate::board::Board;
use crate::grid::{rows, Matrix};

verus! {

/// A game holds exactly one board and adds nothing to it.
pub struct Game {
    current_board: Board,
}

impl View for Game {
    type V = Board;

    /// The board of the game.
    closed spec fn view(&self) -> Board {
        self.current_board
    }
}

impl Game {
    /// A game on a fresh board over `matrix`, which needs at least one row.
    pub fn new(matrix: Matrix) -> (game: Game)
        requires
            matrix@.len() > 0,
        ensures
            game@.wf(),
            game@.grid() == rows(&matrix),
            game@.cursor() == (0nat, 0nat),
            game@.cursor_on_board() <==> game@.max_x() > 0,
    {
        Game { current_board: Board::new(matrix) }
    }

    /// The board of the game, to look at.
    pub fn board(&self) -> (board: &Board)
        ensures
            *board == self@,
    {
        &self.current_board
    }
}

} // verus!
