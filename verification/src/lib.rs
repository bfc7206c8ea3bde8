//! Conway's Game of Life on a fixed-size toroidal grid.
//!
//! The executable [`Universe`] owns a flat, row-major buffer of cells. Every
//! operation on it is specified against the mathematical [`Grid`] it
//! represents.

pub mod cell;
pub mod coord;
pub mod grid;
pub mod laws;
pub mod patterns;
pub mod universe;

pub use cell::Cell;
pub use coord::{Coord, OutOfBounds};
pub use grid::Grid;
pub use universe::Universe;
