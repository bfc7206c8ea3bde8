//! Two classic patterns and what a generation does to them, on a torus of
//! any size that has room for them.

use vstd::prelude::*;
use crate::grid::Grid;
use crate::laws::{lemma_index_round_trip, lemma_ring_steps, lemma_step_at, lemma_step_shape};

verus! {

/// Whether `i` is `from` or the position after it on a ring of `n`.
pub open spec fn in_pair(i: int, from: int, n: int) -> bool {
    i == from || i == (from + 1) % n
}

/// Whether `i` is `center` or one of the two positions beside it on a ring
/// of `n`.
pub open spec fn in_triple(i: int, center: int, n: int) -> bool {
    i == (center - 1) % n || i == center || i == (center + 1) % n
}

impl Grid {
    /// The cell at `(row, col)` is alive and no other.
    pub open spec fn is_lone_cell(self, row: int, col: int) -> bool {
        forall|r: int, c: int|
            self.contains(r, c) ==> (#[trigger] self.at(r, c) is Alive <==> r == row && c == col)
    }

    /// The live cells are exactly the two-by-two block whose upper left
    /// corner is `(row, col)`.
    pub open spec fn is_block(self, row: int, col: int) -> bool {
        forall|r: int, c: int|
            self.contains(r, c) ==> (#[trigger] self.at(r, c) is Alive <==> in_pair(
                r,
                row,
                self.height as int,
            ) && in_pair(c, col, self.width as int))
    }

    /// The live cells are exactly the three cells of row `row` that are
    /// centered on column `col`.
    pub open spec fn is_horizontal_blinker(self, row: int, col: int) -> bool {
        forall|r: int, c: int|
            self.contains(r, c) ==> (#[trigger] self.at(r, c) is Alive <==> r == row && in_triple(
                c,
                col,
                self.width as int,
            ))
    }

    /// The live cells are exactly the three cells of column `col` that are
    /// centered on row `row`.
    pub open spec fn is_vertical_blinker(self, row: int, col: int) -> bool {
        forall|r: int, c: int|
            self.contains(r, c) ==> (#[trigger] self.at(r, c) is Alive <==> c == col && in_triple(
                r,
                row,
                self.height as int,
            ))
    }
}

/// Around a lone live cell, each of its eight neighbors counts one live
/// neighbor, also those that are reached across an edge. The cell itself
/// and every cell farther away count none. This holds on every grid of at
/// least three rows and three columns.
pub proof fn lemma_lone_cell_counts(g: Grid, row: int, col: int, y: int, x: int)
    requires
        g.wf(),
        g.height >= 3,
        g.width >= 3,
        g.contains(row, col),
        g.is_lone_cell(row, col),
        g.contains(y, x),
    ensures
        g.neighbor_count(y, x) == if (y, x) != (row, col) && in_triple(y, row, g.height as int)
            && in_triple(x, col, g.width as int) {
            1nat
        } else {
            0nat
        },
{
    let h = g.height as int;
    let w = g.width as int;
    lemma_ring_steps(y, h);
    lemma_ring_steps(x, w);
    lemma_ring_steps(row, h);
    lemma_ring_steps(col, w);
}

/// What a block does to one cell: nothing.
proof fn lemma_block_keeps_cell(g: Grid, row: int, col: int, y: int, x: int)
    requires
        g.wf(),
        g.height >= 3,
        g.width >= 3,
        g.contains(row, col),
        g.is_block(row, col),
        g.contains(y, x),
    ensures
        g.at(y, x).evolved(g.neighbor_count(y, x)) == g.at(y, x),
{
    let h = g.height as int;
    let w = g.width as int;
    lemma_ring_steps(y, h);
    lemma_ring_steps(x, w);
    lemma_ring_steps(row, h);
    lemma_ring_steps(col, w);
}

/// A two-by-two block of live cells in an otherwise dead grid is a still
/// life: the next generation is the same grid. This holds wherever the
/// block lies, also across an edge, on every grid of at least three rows
/// and three columns.
pub proof fn lemma_block_is_still(g: Grid, row: int, col: int)
    requires
        g.wf(),
        g.height >= 3,
        g.width >= 3,
        g.contains(row, col),
        g.is_block(row, col),
    ensures
        g.step() == g,
{
    assert forall|i: int| 0 <= i < g.cells.len() implies g.step().cells[i] == g.cells[i] by {
        lemma_index_round_trip(g, i);
        lemma_block_keeps_cell(g, row, col, g.row_of(i), g.col_of(i));
    }
    assert(g.step().cells =~= g.cells);
}

/// What a generation makes of one cell of a horizontal blinker's grid.
proof fn lemma_horizontal_blinker_cell(g: Grid, row: int, col: int, y: int, x: int)
    requires
        g.wf(),
        g.height >= 3,
        g.width >= 4,
        g.contains(row, col),
        g.is_horizontal_blinker(row, col),
        g.contains(y, x),
    ensures
        g.at(y, x).evolved(g.neighbor_count(y, x)) is Alive <==> x == col && in_triple(
            y,
            row,
            g.height as int,
        ),
{
    let h = g.height as int;
    let w = g.width as int;
    lemma_ring_steps(y, h);
    lemma_ring_steps(x, w);
    lemma_ring_steps(row, h);
    lemma_ring_steps(col, w);
}

/// What a generation makes of one cell of a vertical blinker's grid.
proof fn lemma_vertical_blinker_cell(g: Grid, row: int, col: int, y: int, x: int)
    requires
        g.wf(),
        g.height >= 4,
        g.width >= 3,
        g.contains(row, col),
        g.is_vertical_blinker(row, col),
        g.contains(y, x),
    ensures
        g.at(y, x).evolved(g.neighbor_count(y, x)) is Alive <==> y == row && in_triple(
            x,
            col,
            g.width as int,
        ),
{
    let h = g.height as int;
    let w = g.width as int;
    lemma_ring_steps(y, h);
    lemma_ring_steps(x, w);
    lemma_ring_steps(row, h);
    lemma_ring_steps(col, w);
}

/// A horizontal blinker becomes, in one generation, the vertical blinker
/// with the same center. This holds wherever the blinker lies, on every
/// grid of at least three rows and four columns.
pub proof fn lemma_blinker_turns_upright(g: Grid, row: int, col: int)
    requires
        g.wf(),
        g.height >= 3,
        g.width >= 4,
        g.contains(row, col),
        g.is_horizontal_blinker(row, col),
    ensures
        g.step().is_vertical_blinker(row, col),
{
    let next = g.step();
    assert forall|r: int, c: int| next.contains(r, c) implies (#[trigger] next.at(r, c) is Alive
        <==> c == col && in_triple(r, row, next.height as int)) by {
        lemma_step_at(g, r, c);
        lemma_horizontal_blinker_cell(g, row, col, r, c);
    }
}

/// A vertical blinker becomes, in one generation, the horizontal blinker
/// with the same center. This holds wherever the blinker lies, on every
/// grid of at least four rows and three columns.
pub proof fn lemma_blinker_lies_down(g: Grid, row: int, col: int)
    requires
        g.wf(),
        g.height >= 4,
        g.width >= 3,
        g.contains(row, col),
        g.is_vertical_blinker(row, col),
    ensures
        g.step().is_horizontal_blinker(row, col),
{
    let next = g.step();
    assert forall|r: int, c: int| next.contains(r, c) implies (#[trigger] next.at(r, c) is Alive
        <==> r == row && in_triple(c, col, next.width as int)) by {
        lemma_step_at(g, r, c);
        lemma_vertical_blinker_cell(g, row, col, r, c);
    }
}

/// Two grids of the same shape with the same live cells are the same grid.
pub proof fn lemma_same_live_cells(a: Grid, b: Grid)
    requires
        a.wf(),
        b.wf(),
        a.height == b.height,
        a.width == b.width,
        forall|r: int, c: int|
            a.contains(r, c) ==> (#[trigger] a.at(r, c) is Alive <==> b.at(r, c) is Alive),
    ensures
        a == b,
{
    assert forall|i: int| 0 <= i < a.cells.len() implies a.cells[i] == b.cells[i] by {
        lemma_index_round_trip(a, i);
        let r = a.row_of(i);
        let c = a.col_of(i);
        assert(a.at(r, c) is Alive <==> b.at(r, c) is Alive);
    }
    assert(a.cells =~= b.cells);
}

/// A blinker oscillates with period two: after two generations the grid
/// is what it was. This holds wherever the blinker lies, on every grid of
/// at least four rows and four columns.
pub proof fn lemma_blinker_period_two(g: Grid, row: int, col: int)
    requires
        g.wf(),
        g.height >= 4,
        g.width >= 4,
        g.contains(row, col),
        g.is_horizontal_blinker(row, col),
    ensures
        g.step().is_vertical_blinker(row, col),
        g.step().step() == g,
{
    lemma_blinker_turns_upright(g, row, col);
    lemma_step_shape(g);
    lemma_blinker_lies_down(g.step(), row, col);
    lemma_step_shape(g.step());
    let back = g.step().step();
    assert forall|r: int, c: int| back.contains(r, c) implies (#[trigger] back.at(r, c) is Alive
        <==> g.at(r, c) is Alive) by {
        assert(g.contains(r, c));
    }
    lemma_same_live_cells(back, g);
}

} // verus!
