//! The mathematical grid: what a universe is, apart from how it is stored.

use vstd::prelude::*;
use crate::cell::Cell;

verus! {

/// A `height` by `width` torus of cells, laid out row by row in `cells`.
pub struct Grid {
    pub height: nat,
    pub width: nat,
    pub cells: Seq<Cell>,
}

impl Grid {
    /// The flat sequence holds exactly one cell per position.
    pub open spec fn wf(self) -> bool {
        self.cells.len() == self.height * self.width
    }

    /// The grid of the given dimensions in which every cell is dead.
    pub open spec fn dead(height: nat, width: nat) -> Grid {
        Grid { height, width, cells: Seq::new(height * width, |i: int| Cell::Dead) }
    }

    /// Whether `(row, col)` addresses a cell of this grid.
    pub open spec fn contains(self, row: int, col: int) -> bool {
        0 <= row < self.height && 0 <= col < self.width
    }

    /// The flat index of `(row, col)`.
    pub open spec fn index_of(self, row: int, col: int) -> int {
        col + self.width * row
    }

    /// The row of the cell at flat index `index`.
    pub open spec fn row_of(self, index: int) -> int {
        index / (self.width as int)
    }

    /// The column of the cell at flat index `index`.
    pub open spec fn col_of(self, index: int) -> int {
        index % (self.width as int)
    }

    /// The cell at `(row, col)`.
    pub open spec fn at(self, row: int, col: int) -> Cell {
        self.cells[self.index_of(row, col)]
    }

    /// This grid with the cell at flat index `index` replaced by `value`;
    /// the grid itself when it has no cell of that index.
    pub open spec fn with_index(self, index: int, value: Cell) -> Grid {
        if 0 <= index < self.cells.len() {
            Grid { cells: self.cells.update(index, value), ..self }
        } else {
            self
        }
    }

    /// This grid with the cell at `(row, col)` replaced by `value`; the
    /// grid itself when the position lies outside it.
    pub open spec fn with_cell(self, row: int, col: int, value: Cell) -> Grid {
        if self.contains(row, col) {
            Grid { cells: self.cells.update(self.index_of(row, col), value), ..self }
        } else {
            self
        }
    }

    /// This grid with the cell at `(row, col)` negated.
    pub open spec fn toggled(self, row: int, col: int) -> Grid {
        self.with_cell(row, col, self.at(row, col).flipped())
    }

    /// The cell reached from `(row, col)` by the offset `(dy, dx)`, where
    /// each edge of the grid continues at the opposite edge.
    pub open spec fn neighbor(self, row: int, col: int, dy: int, dx: int) -> Cell {
        self.at((row + dy) % (self.height as int), (col + dx) % (self.width as int))
    }

    /// One if the neighbor at offset `(dy, dx)` is alive, zero otherwise.
    pub open spec fn live(self, row: int, col: int, dy: int, dx: int) -> nat {
        if self.neighbor(row, col, dy, dx) is Alive {
            1
        } else {
            0
        }
    }

    /// How many of the eight offsets around `(row, col)` lead to a live
    /// cell.
    pub open spec fn neighbor_count(self, row: int, col: int) -> nat {
        self.live(row, col, -1, -1) + self.live(row, col, -1, 0) + self.live(row, col, -1, 1)
            + self.live(row, col, 0, -1) + self.live(row, col, 0, 1)
            + self.live(row, col, 1, -1) + self.live(row, col, 1, 0) + self.live(row, col, 1, 1)
    }

    /// The next generation: every cell evolved by the neighbor count it has
    /// in this one.
    pub open spec fn step(self) -> Grid {
        Grid {
            cells: Seq::new(
                self.cells.len(),
                |i: int| self.cells[i].evolved(self.neighbor_count(self.row_of(i), self.col_of(i))),
            ),
            ..self
        }
    }

    /// What is at `(row, col)` once the grid has been given new dimensions:
    /// the old cell where there was one, a dead cell elsewhere.
    pub open spec fn at_or_dead(self, row: int, col: int) -> Cell {
        if self.contains(row, col) {
            self.at(row, col)
        } else {
            Cell::Dead
        }
    }

    /// This grid rebuilt with the given dimensions. Cells at positions that
    /// both grids have are kept; all others are dead.
    pub open spec fn resized(self, height: nat, width: nat) -> Grid {
        Grid {
            height,
            width,
            cells: Seq::new(
                height * width,
                |i: int| self.at_or_dead(i / (width as int), i % (width as int)),
            ),
        }
    }

    /// The character at position `p` of the rendered text: each row takes
    /// `width` glyphs and one line break.
    pub open spec fn rendered_char(self, p: int) -> char {
        let line = self.width as int + 1;
        if p % line == self.width {
            '\n'
        } else {
            self.at(p / line, p % line).spec_glyph()
        }
    }

    /// The grid as text: the glyphs of each row in order, a line break
    /// after the last column of each row. A grid without columns renders
    /// as the empty text.
    pub open spec fn rendered(self) -> Seq<char> {
        if self.width == 0 {
            Seq::empty()
        } else {
            Seq::new(self.height * (self.width + 1), |p: int| self.rendered_char(p))
        }
    }
}

} // verus!
