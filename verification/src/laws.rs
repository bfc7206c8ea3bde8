//! Properties of the grid that hold for every grid and every input.

use vstd::prelude::*;
use vstd::arithmetic::div_mod::{
    lemma_fundamental_div_mod, lemma_fundamental_div_mod_converse, lemma_mod_add_multiples_vanish,
    lemma_mod_self_0, lemma_small_mod,
};
use vstd::arithmetic::mul::lemma_mul_is_commutative;
use crate::cell::Cell;
use crate::grid::Grid;

verus! {

/// Every position of the grid has a flat index below `height * width`.
pub proof fn lemma_index_in_range(g: Grid, row: int, col: int)
    requires
        g.contains(row, col),
    ensures
        0 <= g.index_of(row, col) < g.height * g.width,
{
    let h = g.height as int;
    let w = g.width as int;
    assert(0 <= w * row && w * row + w <= h * w) by (nonlinear_arith)
        requires
            0 <= row < h,
            0 < w,
    ;
}

/// Taking the flat index of a position and splitting it again gives the
/// position back.
pub proof fn lemma_coord_round_trip(g: Grid, row: int, col: int)
    requires
        g.contains(row, col),
    ensures
        g.row_of(g.index_of(row, col)) == row,
        g.col_of(g.index_of(row, col)) == col,
{
    let w = g.width as int;
    lemma_mul_is_commutative(w, row);
    lemma_fundamental_div_mod_converse(g.index_of(row, col), w, row, col);
}

/// Splitting a flat index below `height * width` gives a position of the
/// grid, and the flat index of that position is the index split.
pub proof fn lemma_index_round_trip(g: Grid, index: int)
    requires
        0 <= index < g.height * g.width,
    ensures
        g.contains(g.row_of(index), g.col_of(index)),
        g.index_of(g.row_of(index), g.col_of(index)) == index,
{
    let h = g.height as int;
    let w = g.width as int;
    assert(w > 0) by (nonlinear_arith)
        requires
            0 <= index < h * w,
            0 <= w,
    ;
    lemma_fundamental_div_mod(index, w);
    let q = index / w;
    let r = index % w;
    assert(0 <= q < h) by (nonlinear_arith)
        requires
            index == w * q + r,
            0 <= r < w,
            0 <= index < h * w,
    ;
}

/// With at least one column, splitting a flat index gives a position of
/// the grid exactly when the index is below `height * width`.
pub proof fn lemma_index_bounds(g: Grid, index: int)
    requires
        g.width > 0,
        0 <= index,
    ensures
        0 <= g.col_of(index) < g.width,
        0 <= g.row_of(index),
        g.row_of(index) < g.height <==> index < g.height * g.width,
{
    let h = g.height as int;
    let w = g.width as int;
    lemma_fundamental_div_mod(index, w);
    let q = index / w;
    let r = index % w;
    assert(0 <= q && (q < h <==> index < h * w)) by (nonlinear_arith)
        requires
            index == w * q + r,
            0 <= r < w,
            0 <= index,
            0 <= h,
    ;
}

/// One step backwards, no step, and one step forwards from position `i` on
/// a ring of `n` positions.
pub proof fn lemma_ring_steps(i: int, n: int)
    requires
        0 <= i < n,
    ensures
        (i - 1) % n == if i == 0 { n - 1 } else { i - 1 },
        (i + 0) % n == i,
        (i + 1) % n == if i + 1 == n { 0 } else { i + 1 },
{
    lemma_small_mod(i as nat, n as nat);
    if i == 0 {
        lemma_mod_add_multiples_vanish(-1, n);
        lemma_small_mod((n - 1) as nat, n as nat);
    } else {
        lemma_small_mod((i - 1) as nat, n as nat);
    }
    if i + 1 == n {
        lemma_mod_self_0(n);
    } else {
        lemma_small_mod((i + 1) as nat, n as nat);
    }
}

/// Two different positions of the grid have different flat indices.
pub proof fn lemma_index_injective(g: Grid, row: int, col: int, other_row: int, other_col: int)
    requires
        g.contains(row, col),
        g.contains(other_row, other_col),
        g.index_of(row, col) == g.index_of(other_row, other_col),
    ensures
        row == other_row,
        col == other_col,
{
    lemma_coord_round_trip(g, row, col);
    lemma_coord_round_trip(g, other_row, other_col);
}

/// Writing a cell changes that cell and no other, and keeps the grid's
/// shape.
pub proof fn lemma_with_cell(g: Grid, row: int, col: int, value: Cell, other_row: int, other_col: int)
    requires
        g.wf(),
        g.contains(row, col),
        g.contains(other_row, other_col),
    ensures
        g.with_cell(row, col, value).wf(),
        g.with_cell(row, col, value).height == g.height,
        g.with_cell(row, col, value).width == g.width,
        g.with_cell(row, col, value).at(row, col) == value,
        (other_row, other_col) != (row, col) ==> g.with_cell(row, col, value).at(
            other_row,
            other_col,
        ) == g.at(other_row, other_col),
{
    lemma_index_in_range(g, row, col);
    lemma_index_in_range(g, other_row, other_col);
    if g.index_of(row, col) == g.index_of(other_row, other_col) {
        lemma_index_injective(g, row, col, other_row, other_col);
    }
}

/// Toggling the same position twice restores the grid, whatever the
/// position and whatever the grid held.
pub proof fn lemma_toggle_involution(g: Grid, row: int, col: int)
    requires
        g.wf(),
    ensures
        g.toggled(row, col).toggled(row, col) == g,
{
    if g.contains(row, col) {
        lemma_index_in_range(g, row, col);
        assert(g.toggled(row, col).toggled(row, col).cells =~= g.cells);
    }
}

/// Every position has between zero and eight live neighbors.
pub proof fn lemma_neighbor_count_bound(g: Grid, row: int, col: int)
    ensures
        g.neighbor_count(row, col) <= 8,
{
}

/// A generation step keeps the grid's shape.
pub proof fn lemma_step_shape(g: Grid)
    requires
        g.wf(),
    ensures
        g.step().wf(),
        g.step().height == g.height,
        g.step().width == g.width,
{
}

/// The cell of the next generation at a position is the present cell
/// there, evolved by the number of its live neighbors.
pub proof fn lemma_step_at(g: Grid, row: int, col: int)
    requires
        g.wf(),
        g.contains(row, col),
    ensures
        g.step().at(row, col) == g.at(row, col).evolved(g.neighbor_count(row, col)),
{
    lemma_index_in_range(g, row, col);
    lemma_coord_round_trip(g, row, col);
}

/// The next generation is determined by the present one: two universes
/// that hold the same grid hold the same grid after each has advanced by
/// one generation.
pub proof fn lemma_tick_deterministic(a: Grid, b: Grid, a_next: Grid, b_next: Grid)
    requires
        a == b,
        a_next == a.step(),
        b_next == b.step(),
    ensures
        a_next == b_next,
{
}

/// A resized grid has the new shape. At each of its positions it holds the
/// old cell where the old grid had that position, and a dead cell where it
/// had not.
pub proof fn lemma_resize_preserves_overlap(g: Grid, height: nat, width: nat, row: int, col: int)
    requires
        0 <= row < height,
        0 <= col < width,
    ensures
        g.resized(height, width).wf(),
        g.resized(height, width).height == height,
        g.resized(height, width).width == width,
        g.contains(row, col) ==> g.resized(height, width).at(row, col) == g.at(row, col),
        !g.contains(row, col) ==> g.resized(height, width).at(row, col) == Cell::Dead,
{
    let resized = g.resized(height, width);
    lemma_index_in_range(resized, row, col);
    lemma_coord_round_trip(resized, row, col);
}

/// Resizing a grid to the dimensions it has changes nothing.
pub proof fn lemma_resize_same(g: Grid)
    requires
        g.wf(),
    ensures
        g.resized(g.height, g.width) == g,
{
    let resized = g.resized(g.height, g.width);
    assert forall|i: int| 0 <= i < g.cells.len() implies resized.cells[i] == g.cells[i] by {
        lemma_index_round_trip(g, i);
    }
    assert(resized.cells =~= g.cells);
}

/// Growing a grid and then cutting it back to its former dimensions
/// restores it: nothing of the pattern is lost by growing.
pub proof fn lemma_grow_then_shrink(g: Grid, height: nat, width: nat)
    requires
        g.wf(),
        g.height <= height,
        g.width <= width,
    ensures
        g.resized(height, width).resized(g.height, g.width) == g,
{
    let grown = g.resized(height, width);
    let back = grown.resized(g.height, g.width);
    assert forall|i: int| 0 <= i < g.cells.len() implies back.cells[i] == g.cells[i] by {
        lemma_index_round_trip(g, i);
        lemma_resize_preserves_overlap(g, height, width, g.row_of(i), g.col_of(i));
    }
    assert(back.cells =~= g.cells);
}

} // verus!
