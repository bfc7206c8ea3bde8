//! The executable grid engine.

use vstd::prelude::*;
use vstd::arithmetic::div_mod::{lemma_fundamental_div_mod, lemma_fundamental_div_mod_converse};
use vstd::string::StringExecFns;
use crate::cell::Cell;
use crate::coord::{Coord, OutOfBounds};
use crate::grid::Grid;
use crate::laws::{
    lemma_coord_round_trip, lemma_index_bounds, lemma_index_in_range, lemma_index_round_trip,
    lemma_ring_steps,
};

verus! {

/// A Game of Life universe: a toroidal grid of cells stored row by row in
/// one flat buffer, with a scratch buffer of the same shape that is used
/// only while a generation is computed.
#[derive(Debug)]
pub struct Universe {
    cells: Vec<Cell>,
    back_buffer: Vec<Cell>,
    height: usize,
    width: usize,
}

impl View for Universe {
    type V = Grid;

    /// The grid this universe holds. The scratch buffer is no part of it.
    closed spec fn view(&self) -> Grid {
        Grid { height: self.height as nat, width: self.width as nat, cells: self.cells@ }
    }
}

impl Clone for Universe {
    fn clone(&self) -> (copy: Universe)
        ensures
            copy@ == self@,
    {
        proof {
            use_type_invariant(self);
        }
        let cells = self.cells.clone();
        let back_buffer = self.back_buffer.clone();
        assert(cells@ =~= self.cells@);
        Universe { cells, back_buffer, height: self.height, width: self.width }
    }
}

/// The index before `i` on a ring of `n` positions.
fn ring_prev(i: usize, n: usize) -> (prev: usize)
    requires
        i < n,
    ensures
        prev < n,
        prev == (i - 1) % (n as int),
{
    proof {
        lemma_ring_steps(i as int, n as int);
    }
    if i == 0 {
        n - 1
    } else {
        i - 1
    }
}

/// The index after `i` on a ring of `n` positions.
fn ring_next(i: usize, n: usize) -> (next: usize)
    requires
        i < n,
    ensures
        next < n,
        next == (i + 1) % (n as int),
{
    proof {
        lemma_ring_steps(i as int, n as int);
    }
    if i + 1 == n {
        0
    } else {
        i + 1
    }
}

/// What a grid under reconstruction holds at `(row, col)` when the
/// row-by-row copy of the first `cols` columns of `before` stands at
/// `(y, x)`: the old cell where the copy has passed, a dead cell elsewhere.
spec fn carried(before: Grid, row: int, col: int, y: int, x: int, cols: int) -> Cell {
    if 0 <= col < cols && (0 <= row < y || (row == y && col < x)) {
        before.at(row, col)
    } else {
        Cell::Dead
    }
}

impl Universe {
    /// What holds of every universe at all times: the live buffer has one
    /// cell per position, and the scratch buffer has the same length.
    #[verifier::type_invariant]
    pub closed spec fn inv(self) -> bool {
        &&& self.cells.len() == self.height * self.width
        &&& self.back_buffer.len() == self.cells.len()
    }

    /// The grid of a universe is well formed.
    pub proof fn lemma_view_wf(self)
        requires
            self.inv(),
        ensures
            self@.wf(),
    {
    }

    /// Creates a universe of the given dimensions in which every cell is
    /// dead.
    ///
    /// Either dimension may be zero. The universe then has no cells, and
    /// every operation on a single cell fails with [`OutOfBounds`].
    pub fn new(height: usize, width: usize) -> (universe: Universe)
        requires
            height * width <= usize::MAX,
        ensures
            universe@ == Grid::dead(height as nat, width as nat),
    {
        assert(width * height == height * width) by (nonlinear_arith);
        let cells = vec![Cell::Dead; width * height];
        let back_buffer = vec![Cell::Dead; width * height];
        assert(cells@ =~= Grid::dead(height as nat, width as nat).cells);
        Universe { cells, back_buffer, height, width }
    }

    /// The number of rows.
    pub fn get_height(&self) -> (height: usize)
        ensures
            height == self@.height,
    {
        self.height
    }

    /// The number of columns.
    pub fn get_width(&self) -> (width: usize)
        ensures
            width == self@.width,
    {
        self.width
    }

    /// The cells in row-major order.
    pub fn cells(&self) -> (cells: &Vec<Cell>)
        ensures
            cells@ == self@.cells,
    {
        &self.cells
    }

    /// Whether `c` addresses a cell of this universe.
    fn contains(&self, c: Coord) -> (inside: bool)
        ensures
            inside == self@.contains(c.row as int, c.col as int),
    {
        c.row < self.height && c.col < self.width
    }

    /// The flat index of a position that is known to lie inside the grid.
    fn flat_index(&self, row: usize, col: usize) -> (index: usize)
        requires
            self@.contains(row as int, col as int),
        ensures
            index == self@.index_of(row as int, col as int),
            index < self@.cells.len(),
    {
        proof {
            use_type_invariant(self);
            lemma_index_in_range(self@, row as int, col as int);
            assert(0 <= self.width * row) by (nonlinear_arith);
        }
        col + self.width * row
    }

    /// The flat index of `c`: `c.col + width * c.row`.
    ///
    /// Fails when `c` lies outside the grid.
    pub fn coord_to_idx(&self, c: Coord) -> (index: Result<usize, OutOfBounds>)
        ensures
            index is Ok <==> self@.contains(c.row as int, c.col as int),
            index matches Ok(i) ==> i == self@.index_of(c.row as int, c.col as int) && i
                < self@.cells.len(),
    {
        if self.contains(c) {
            Ok(self.flat_index(c.row, c.col))
        } else {
            Err(OutOfBounds)
        }
    }

    /// The position that the flat index `i` stands for: row `i / width`,
    /// column `i % width`.
    ///
    /// The position lies inside the grid exactly when `i` is below
    /// `height * width`.
    pub fn idx_to_coords(&self, i: usize) -> (c: Coord)
        requires
            self@.width > 0,
        ensures
            c.row == self@.row_of(i as int),
            c.col == self@.col_of(i as int),
            self@.contains(c.row as int, c.col as int) <==> i < self@.height * self@.width,
    {
        proof {
            lemma_index_bounds(self@, i as int);
        }
        Coord { row: i / self.width, col: i % self.width }
    }

    /// The cell at `c`.
    ///
    /// Fails when `c` lies outside the grid.
    pub fn get(&self, c: Coord) -> (cell: Result<Cell, OutOfBounds>)
        ensures
            cell is Ok <==> self@.contains(c.row as int, c.col as int),
            cell matches Ok(value) ==> value == self@.at(c.row as int, c.col as int),
    {
        if self.contains(c) {
            let index = self.flat_index(c.row, c.col);
            Ok(self.cells[index])
        } else {
            Err(OutOfBounds)
        }
    }

    /// The cell at flat index `i`.
    ///
    /// Fails when the grid has no cell of that index.
    pub fn get_by_index(&self, i: usize) -> (cell: Result<Cell, OutOfBounds>)
        ensures
            cell is Ok <==> i < self@.cells.len(),
            cell matches Ok(value) ==> value == self@.cells[i as int],
    {
        if i < self.cells.len() {
            Ok(self.cells[i])
        } else {
            Err(OutOfBounds)
        }
    }

    /// Whether the cell at `c` is alive.
    ///
    /// Fails when `c` lies outside the grid.
    pub fn is_alive(&self, c: Coord) -> (alive: Result<bool, OutOfBounds>)
        ensures
            alive is Ok <==> self@.contains(c.row as int, c.col as int),
            alive matches Ok(b) ==> b == (self@.at(c.row as int, c.col as int) is Alive),
    {
        match self.get(c) {
            Ok(cell) => Ok(cell.is_alive()),
            Err(e) => Err(e),
        }
    }

    /// Overwrites the cell at `c`; no other cell changes.
    ///
    /// Fails, and leaves the universe as it is, when `c` lies outside the
    /// grid.
    pub fn set_pixel(&mut self, c: Coord, val: Cell) -> (done: Result<(), OutOfBounds>)
        ensures
            done is Ok <==> old(self)@.contains(c.row as int, c.col as int),
            final(self)@ == old(self)@.with_cell(c.row as int, c.col as int, val),
    {
        proof {
            use_type_invariant(&*self);
        }
        if self.contains(c) {
            let index = self.flat_index(c.row, c.col);
            self.cells[index] = val;
            Ok(())
        } else {
            Err(OutOfBounds)
        }
    }

    /// Overwrites the cell at flat index `i`; no other cell changes.
    ///
    /// Fails, and leaves the universe as it is, when the grid has no cell
    /// of that index.
    pub fn set_by_index(&mut self, i: usize, val: Cell) -> (done: Result<(), OutOfBounds>)
        ensures
            done is Ok <==> i < old(self)@.cells.len(),
            final(self)@ == old(self)@.with_index(i as int, val),
    {
        proof {
            use_type_invariant(&*self);
        }
        if i < self.cells.len() {
            self.cells[i] = val;
            Ok(())
        } else {
            Err(OutOfBounds)
        }
    }

    /// Negates the cell at `c`; no other cell changes.
    ///
    /// Fails, and leaves the universe as it is, when `c` lies outside the
    /// grid.
    pub fn toggle_pixel(&mut self, c: Coord) -> (done: Result<(), OutOfBounds>)
        ensures
            done is Ok <==> old(self)@.contains(c.row as int, c.col as int),
            final(self)@ == old(self)@.toggled(c.row as int, c.col as int),
    {
        match self.get(c) {
            Ok(cell) => self.set_pixel(c, cell.negate()),
            Err(e) => Err(e),
        }
    }

    /// One if the cell at a position inside the grid is alive, else zero.
    fn live_at(&self, row: usize, col: usize) -> (live: u8)
        requires
            self@.contains(row as int, col as int),
        ensures
            live == if self@.at(row as int, col as int) is Alive { 1u8 } else { 0u8 },
    {
        let index = self.flat_index(row, col);
        if self.cells[index].is_alive() {
            1
        } else {
            0
        }
    }

    /// Counts the live cells among the eight toroidal neighbors of a
    /// position inside the grid.
    fn count_around(&self, row: usize, col: usize) -> (count: u8)
        requires
            self@.contains(row as int, col as int),
        ensures
            count == self@.neighbor_count(row as int, col as int),
            count <= 8,
    {
        let up = ring_prev(row, self.height);
        let down = ring_next(row, self.height);
        let left = ring_prev(col, self.width);
        let right = ring_next(col, self.width);
        proof {
            lemma_ring_steps(row as int, self.height as int);
            lemma_ring_steps(col as int, self.width as int);
        }
        self.live_at(up, left) + self.live_at(up, col) + self.live_at(up, right)
            + self.live_at(row, left) + self.live_at(row, right)
            + self.live_at(down, left) + self.live_at(down, col) + self.live_at(down, right)
    }

    /// The number of live cells among the eight neighbors of `c`, where
    /// each edge of the grid continues at the opposite edge.
    ///
    /// Fails when `c` lies outside the grid.
    pub fn alive_neighbor_count(&self, c: Coord) -> (count: Result<u8, OutOfBounds>)
        ensures
            count is Ok <==> self@.contains(c.row as int, c.col as int),
            count matches Ok(n) ==> n == self@.neighbor_count(c.row as int, c.col as int) && n <= 8,
    {
        if self.contains(c) {
            Ok(self.count_around(c.row, c.col))
        } else {
            Err(OutOfBounds)
        }
    }

    /// Advances the universe by exactly one generation.
    ///
    /// Every cell of the new generation is computed from the old one alone:
    /// the results are written to the scratch buffer, which is exchanged
    /// with the live buffer once all cells are done.
    pub fn tick(&mut self)
        ensures
            final(self)@ == old(self)@.step(),
    {
        proof {
            use_type_invariant(&*self);
        }
        let ghost before = self@;
        let mut y: usize = 0;
        while y < self.height
            invariant
                y <= self.height,
                self@ == before,
                self.inv(),
                forall|i: int|
                    0 <= i < y * self.width ==> self.back_buffer@[i] == before.step().cells[i],
            decreases self.height - y,
        {
            let mut x: usize = 0;
            while x < self.width
                invariant
                    y < self.height,
                    x <= self.width,
                    self@ == before,
                    self.inv(),
                    forall|i: int|
                        0 <= i < y * self.width + x ==> self.back_buffer@[i]
                            == before.step().cells[i],
                decreases self.width - x,
            {
                let i = self.flat_index(y, x);
                let next = self.cells[i].evolve(self.count_around(y, x));
                proof {
                    lemma_coord_round_trip(before, y as int, x as int);
                    assert(self.width * y == y * self.width) by (nonlinear_arith);
                }
                self.back_buffer[i] = next;
                x += 1;
            }
            proof {
                assert((y + 1) * self.width == y * self.width + self.width) by (nonlinear_arith);
            }
            y += 1;
        }
        core::mem::swap(&mut self.cells, &mut self.back_buffer);
        proof {
            assert(self.cells@ =~= before.step().cells);
        }
    }

    /// Gives the universe new dimensions: `new_dims.row` rows and
    /// `new_dims.col` columns.
    ///
    /// The grid is rebuilt. A cell keeps its state where its position
    /// exists under both the old and the new dimensions; every other cell
    /// of the new grid is dead.
    pub fn set_dimensions(&mut self, new_dims: Coord)
        requires
            new_dims.row * new_dims.col <= usize::MAX,
        ensures
            final(self)@ == old(self)@.resized(new_dims.row as nat, new_dims.col as nat),
    {
        proof {
            use_type_invariant(&*self);
        }
        let ghost before = self@;
        let mut rebuilt = Universe::new(new_dims.row, new_dims.col);
        proof {
            use_type_invariant(&rebuilt);
        }
        let ghost shape = rebuilt@;
        let rows = if self.height < rebuilt.height { self.height } else { rebuilt.height };
        let cols = if self.width < rebuilt.width { self.width } else { rebuilt.width };
        let mut y: usize = 0;
        while y < rows
            invariant
                y <= rows,
                rows <= before.height,
                rows <= shape.height,
                cols <= before.width,
                cols <= shape.width,
                self@ == before,
                self.inv(),
                rebuilt.inv(),
                rebuilt@.height == shape.height,
                rebuilt@.width == shape.width,
                forall|i: int|
                    0 <= i < rebuilt.cells.len() ==> #[trigger] rebuilt.cells@[i] == carried(
                        before,
                        shape.row_of(i),
                        shape.col_of(i),
                        y as int,
                        0,
                        cols as int,
                    ),
            decreases rows - y,
        {
            let mut x: usize = 0;
            while x < cols
                invariant
                    y < rows,
                    x <= cols,
                    rows <= before.height,
                    rows <= shape.height,
                    cols <= before.width,
                    cols <= shape.width,
                    self@ == before,
                    self.inv(),
                    rebuilt.inv(),
                    rebuilt@.height == shape.height,
                    rebuilt@.width == shape.width,
                    forall|i: int|
                        0 <= i < rebuilt.cells.len() ==> #[trigger] rebuilt.cells@[i] == carried(
                            before,
                            shape.row_of(i),
                            shape.col_of(i),
                            y as int,
                            x as int,
                            cols as int,
                        ),
                decreases cols - x,
            {
                let from = self.flat_index(y, x);
                let to = rebuilt.flat_index(y, x);
                rebuilt.cells[to] = self.cells[from];
                proof {
                    lemma_coord_round_trip(shape, y as int, x as int);
                    assert forall|i: int| 0 <= i < rebuilt.cells.len() && i != to implies !(
                    shape.row_of(i) == y && shape.col_of(i) == x) by {
                        lemma_fundamental_div_mod(i, shape.width as int);
                    }
                }
                x += 1;
            }
            y += 1;
        }
        proof {
            let target = before.resized(new_dims.row as nat, new_dims.col as nat);
            assert forall|i: int| 0 <= i < rebuilt.cells.len() implies rebuilt.cells@[i]
                == target.cells[i] by {
                lemma_index_round_trip(shape, i);
            }
            assert(rebuilt.cells@ =~= target.cells);
        }
        *self = rebuilt;
    }

    /// Renders the grid as text: one glyph per cell, row by row, with a
    /// line break after the last column of each row.
    pub fn render(&self) -> (text: String)
        ensures
            text@ == self@.rendered(),
    {
        let mut text = String::new();
        if self.width == 0 {
            return text;
        }
        let ghost line = self.width as int + 1;
        let mut y: usize = 0;
        while y < self.height
            invariant
                y <= self.height,
                self.width > 0,
                line == self.width + 1,
                text@.len() == y * line,
                forall|p: int| 0 <= p < text@.len() ==> text@[p] == self@.rendered_char(p),
            decreases self.height - y,
        {
            let mut x: usize = 0;
            while x < self.width
                invariant
                    y < self.height,
                    x <= self.width,
                    line == self.width + 1,
                    text@.len() == y * line + x,
                    forall|p: int| 0 <= p < text@.len() ==> text@[p] == self@.rendered_char(p),
                decreases self.width - x,
            {
                let index = self.flat_index(y, x);
                proof {
                    assert(0 <= y * line) by (nonlinear_arith)
                        requires
                            0 <= line,
                    ;
                    lemma_fundamental_div_mod_converse(y * line + x, line, y as int, x as int);
                }
                text.append(self.cells[index].as_str());
                x += 1;
            }
            proof {
                assert(0 <= y * line) by (nonlinear_arith)
                    requires
                        0 <= line,
                ;
                lemma_fundamental_div_mod_converse(
                    y * line + self.width,
                    line,
                    y as int,
                    self.width as int,
                );
                reveal_strlit("\n");
                assert((y + 1) * line == y * line + line) by (nonlinear_arith);
            }
            text.append("\n");
            y += 1;
        }
        proof {
            assert(text@ =~= self@.rendered());
        }
        text
    }
}

} // verus!
