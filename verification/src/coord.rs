//! Grid coordinates and the error for those that fall outside a grid.

use vstd::prelude::*;

verus! {

/// A position in grid space: `row` on the vertical axis, `col` on the
/// horizontal one.
///
/// A coordinate carries no bounds of its own; whether it addresses a cell
/// depends on the grid it is used with.
#[derive(Clone, Copy, Debug, PartialEq, Eq, Structural)]
pub struct Coord {
    pub row: usize,
    pub col: usize,
}

impl Coord {
    pub fn new(y: usize, x: usize) -> (c: Coord)
        ensures
            c.row == y,
            c.col == x,
    {
        Coord { row: y, col: x }
    }
}

/// A coordinate or flat index that addresses no cell of the grid.
#[derive(Clone, Copy, Debug, PartialEq, Eq, Structural)]
pub struct OutOfBounds;

} // verus!
