//! A boolean board with a cursor that walks it cell by cell, row after row.

pub mod board;
pub mod coordinate;
pub mod game;
pub mod grid;
pub mod neighbours;
pub mod raster;

pub use board::Board;
pub use coordinate::Coordinate;
pub use game::Game;
