//! The grid state machine: a double-buffered toroidal Game of Life grid
//! plus the RGBA pixel buffer that mirrors it.

use crate::model::{
    grid_index, lemma_grid_index_bound, lemma_grid_index_recover, lemma_wrap_dec, lemma_wrap_inc,
    lemma_wrap_self, next_grid, pixel_byte, seed_cell, spec_canvas, spec_live_neighbors,
    spec_transitions, Cell, Transition,
};
use vstd::prelude::*;

verus! {

/// Why a universe could not be constructed.
#[derive(Clone, Copy, PartialEq, Eq, Structural, Debug)]
pub enum CreationError {
    /// `width` or `height` was zero.
    ZeroDimension,
}

/// A `width x height` toroidal Game of Life grid.
///
/// `cells` holds the authoritative current generation; `cells_tmp` is the
/// scratch buffer the next generation is written into before the two are
/// swapped. `canvas` is the RGBA pixel buffer, 4 bytes per cell.
pub struct Universe {
    width: u32,
    height: u32,
    canvas: Vec<u8>,
    cells: Vec<Cell>,
    cells_tmp: Vec<Cell>,
}

impl Universe {
    /// The current generation, row-major.
    pub closed spec fn grid(self) -> Seq<Cell> {
        self.cells@
    }

    /// The scratch buffer's contents.
    pub closed spec fn scratch(self) -> Seq<Cell> {
        self.cells_tmp@
    }

    /// The RGBA pixel buffer's contents.
    pub closed spec fn canvas_view(self) -> Seq<u8> {
        self.canvas@
    }

    /// Grid width in cells.
    pub closed spec fn spec_width(self) -> int {
        self.width as int
    }

    /// Grid height in cells.
    pub closed spec fn spec_height(self) -> int {
        self.height as int
    }

    /// Well-formedness: positive dimensions, both cell buffers of length
    /// `width * height`, and a pixel buffer 4 times that long.
    pub closed spec fn wf(self) -> bool {
        &&& 0 < self.width
        &&& 0 < self.height
        &&& self.width * self.height <= u32::MAX
        &&& self.cells@.len() == self.width * self.height
        &&& self.cells_tmp@.len() == self.cells@.len()
        &&& self.canvas@.len() == 4 * self.cells@.len()
        &&& 4 * self.cells@.len() <= usize::MAX
    }

    /// Grid width in cells.
    pub fn width(&self) -> (w: u32)
        ensures
            w as int == self.spec_width(),
    {
        self.width
    }

    /// Grid height in cells.
    pub fn height(&self) -> (h: u32)
        ensures
            h as int == self.spec_height(),
    {
        self.height
    }

    /// Row-major index of `(row, col)`, in range by construction.
    fn cell_index(&self, row: u32, col: u32) -> (i: usize)
        requires
            self.wf(),
            row < self.height,
            col < self.width,
        ensures
            i == grid_index(self.spec_width(), row as int, col as int),
            i < self.grid().len(),
    {
        proof {
            lemma_grid_index_bound(self.width as int, self.height as int, row as int, col as int);
            assert((row as int) * (self.width as int) + (col as int) < (self.height as int) * (
            self.width as int)) by (nonlinear_arith)
                requires
                    row < self.height,
                    col < self.width,
            ;
        }
        (row as usize) * (self.width as usize) + (col as usize)
    }

    /// The current state of the cell at `(row, col)`.
    pub fn get_cell(&self, row: u32, col: u32) -> (c: Cell)
        requires
            self.wf(),
            (row as int) < self.spec_height(),
            (col as int) < self.spec_width(),
        ensures
            c == self.grid()[grid_index(self.spec_width(), row as int, col as int)],
    {
        let i = self.cell_index(row, col);
        self.cells[i]
    }

    /// The scratch buffer's state at `(row, col)`; after a `tick` this is the
    /// previous generation.
    pub fn scratch_cell(&self, row: u32, col: u32) -> (c: Cell)
        requires
            self.wf(),
            (row as int) < self.spec_height(),
            (col as int) < self.spec_width(),
        ensures
            c == self.scratch()[grid_index(self.spec_width(), row as int, col as int)],
    {
        let i = self.cell_index(row, col);
        self.cells_tmp[i]
    }

    /// Overwrite the cell at `(row, col)`; everything else, the scratch
    /// buffer and the pixel buffer included, is untouched.
    pub fn set_cell(&mut self, row: u32, col: u32, state: Cell)
        requires
            old(self).wf(),
            row < old(self).spec_height(),
            col < old(self).spec_width(),
        ensures
            final(self).wf(),
            final(self).spec_width() == old(self).spec_width(),
            final(self).spec_height() == old(self).spec_height(),
            final(self).grid() == old(self).grid().update(
                grid_index(old(self).spec_width(), row as int, col as int),
                state,
            ),
            final(self).scratch() == old(self).scratch(),
            final(self).canvas_view() == old(self).canvas_view(),
    {
        let i = self.cell_index(row, col);
        self.cells.set(i, state);
    }

    /// Count the live cells among the 8 toroidally wrapped neighbors of
    /// `(row, col)`.
    #[verifier::rlimit(50)]
    #[verifier::spinoff_prover]
    pub fn live_neighbor_count(&self, row: u32, col: u32) -> (n: u8)
        requires
            self.wf(),
            (row as int) < self.spec_height(),
            (col as int) < self.spec_width(),
        ensures
            n as int == spec_live_neighbors(
                self.grid(),
                self.spec_width(),
                self.spec_height(),
                row as int,
                col as int,
            ),
            n <= 8,
    {
        let h = self.height;
        let w = self.width;
        let row_up: u32 = if row == 0 {
            h - 1
        } else {
            row - 1
        };
        let row_down: u32 = if row == h - 1 {
            0
        } else {
            row + 1
        };
        let col_left: u32 = if col == 0 {
            w - 1
        } else {
            col - 1
        };
        let col_right: u32 = if col == w - 1 {
            0
        } else {
            col + 1
        };
        proof {
            lemma_wrap_dec(row as int, h as int);
            lemma_wrap_inc(row as int, h as int);
            lemma_wrap_dec(col as int, w as int);
            lemma_wrap_inc(col as int, w as int);
            lemma_wrap_self(col as int, w as int);
            lemma_wrap_self(row as int, h as int);
        }
        let mut n: u8 = 0;
        if matches!(self.get_cell(row_up, col_left), Cell::Alive) {
            n = n + 1;
        }
        if matches!(self.get_cell(row_up, col), Cell::Alive) {
            n = n + 1;
        }
        if matches!(self.get_cell(row_up, col_right), Cell::Alive) {
            n = n + 1;
        }
        if matches!(self.get_cell(row, col_left), Cell::Alive) {
            n = n + 1;
        }
        if matches!(self.get_cell(row, col_right), Cell::Alive) {
            n = n + 1;
        }
        if matches!(self.get_cell(row_down, col_left), Cell::Alive) {
            n = n + 1;
        }
        if matches!(self.get_cell(row_down, col), Cell::Alive) {
            n = n + 1;
        }
        if matches!(self.get_cell(row_down, col_right), Cell::Alive) {
            n = n + 1;
        }
        n
    }

    /// Read-only view of the RGBA pixel buffer.
    pub fn canvas_data(&self) -> (d: &Vec<u8>)
        ensures
            d@ == self.canvas_view(),
    {
        &self.canvas
    }

    /// Paint the pixel quad starting at `index` opaque black; every other
    /// byte of the pixel buffer, and both cell buffers, stay as they were.
    fn make_dead(&mut self, index: usize)
        requires
            index + 3 < old(self).canvas.len(),
        ensures
            final(self).canvas@.len() == old(self).canvas@.len(),
            forall|j: int|
                0 <= j < old(self).canvas@.len() && !(index <= j <= index + 3)
                    ==> final(self).canvas@[j] == old(self).canvas@[j],
            final(self).canvas@[index as int] == 0u8,
            final(self).canvas@[index + 1] == 0u8,
            final(self).canvas@[index + 2] == 0u8,
            final(self).canvas@[index + 3] == 255u8,
            final(self).cells == old(self).cells,
            final(self).cells_tmp == old(self).cells_tmp,
            final(self).width == old(self).width,
            final(self).height == old(self).height,
    {
        self.canvas.set(index, 0);
        self.canvas.set(index + 1, 0);
        self.canvas.set(index + 2, 0);
        self.canvas.set(index + 3, 255);
    }

    /// Paint the pixel quad starting at `index` opaque white; every other
    /// byte of the pixel buffer, and both cell buffers, stay as they were.
    fn make_alive(&mut self, index: usize)
        requires
            index + 3 < old(self).canvas.len(),
        ensures
            final(self).canvas@.len() == old(self).canvas@.len(),
            forall|j: int|
                0 <= j < old(self).canvas@.len() && !(index <= j <= index + 3)
                    ==> final(self).canvas@[j] == old(self).canvas@[j],
            final(self).canvas@[index as int] == 255u8,
            final(self).canvas@[index + 1] == 255u8,
            final(self).canvas@[index + 2] == 255u8,
            final(self).canvas@[index + 3] == 255u8,
            final(self).cells == old(self).cells,
            final(self).cells_tmp == old(self).cells_tmp,
            final(self).width == old(self).width,
            final(self).height == old(self).height,
    {
        self.canvas.set(index, 255);
        self.canvas.set(index + 1, 255);
        self.canvas.set(index + 2, 255);
        self.canvas.set(index + 3, 255);
    }

    /// Rewrite the whole pixel buffer from the current grid: afterwards
    /// every cell's quad holds exactly the color for its state.
    pub fn full_sync(&mut self)
        requires
            old(self).wf(),
        ensures
            final(self).wf(),
            final(self).spec_width() == old(self).spec_width(),
            final(self).spec_height() == old(self).spec_height(),
            final(self).grid() == old(self).grid(),
            final(self).scratch() == old(self).scratch(),
            final(self).canvas_view() == spec_canvas(old(self).grid()),
    {
        let size = self.cells.len();
        for index in 0..size
            invariant
                size == self.cells.len(),
                self.wf(),
                self.cells == old(self).cells,
                self.cells_tmp == old(self).cells_tmp,
                self.width == old(self).width,
                self.height == old(self).height,
                self.canvas@.len() == old(self).canvas@.len(),
                forall|j: int|
                    0 <= j < 4 * index ==> self.canvas@[j] == pixel_byte(
                        self.cells@[j / 4],
                        j % 4,
                    ),
        {
            let canvas_index = 4 * index;
            match self.cells[index] {
                Cell::Alive => self.make_alive(canvas_index),
                Cell::Dead => self.make_dead(canvas_index),
            }
            proof {
                assert forall|j: int| 4 * index <= j < 4 * (index + 1) implies self.canvas@[j]
                    == pixel_byte(self.cells@[j / 4], j % 4) by {
                    lemma_grid_index_recover(4, index as int, j - 4 * index);
                }
            }
        }
        proof {
            assert(self.canvas@ =~= spec_canvas(self.grid()));
        }
    }

    /// Advance the grid one generation.
    ///
    /// The next generation is computed cell by cell from the current one
    /// (so every neighbor count reflects the previous generation uniformly),
    /// written into the scratch buffer, and the two buffers are then
    /// swapped: afterwards the grid holds `next_grid` of the old grid and
    /// the scratch buffer holds the old grid itself. The returned sequence
    /// is exactly `spec_transitions` over the whole grid: one report per
    /// cell whose state flipped, with its new state, in row-major order.
    pub fn tick(&mut self) -> (ts: Vec<Transition>)
        requires
            old(self).wf(),
        ensures
            final(self).wf(),
            final(self).spec_width() == old(self).spec_width(),
            final(self).spec_height() == old(self).spec_height(),
            final(self).grid() == next_grid(
                old(self).grid(),
                old(self).spec_width(),
                old(self).spec_height(),
            ),
            final(self).scratch() == old(self).grid(),
            final(self).canvas_view() == old(self).canvas_view(),
            ts@ == spec_transitions(
                old(self).grid(),
                final(self).grid(),
                old(self).spec_width(),
                old(self).grid().len() as int,
            ),
    {
        let h = self.height;
        let w = self.width;
        let ghost g0 = self.cells@;
        let ghost wi = self.width as int;
        let ghost hi = self.height as int;
        let ghost ng = next_grid(g0, wi, hi);
        let mut ts: Vec<Transition> = Vec::new();
        for row in 0..h
            invariant
                self.wf(),
                self.width == old(self).width,
                self.height == old(self).height,
                w == self.width,
                h == self.height,
                wi == self.width as int,
                hi == self.height as int,
                g0 == old(self).cells@,
                ng == next_grid(g0, wi, hi),
                self.cells@ == g0,
                self.canvas@ == old(self).canvas@,
                forall|i: int| 0 <= i < row * wi ==> self.cells_tmp@[i] == ng[i],
                ts@ == spec_transitions(g0, ng, wi, row * wi),
        {
            for col in 0..w
                invariant
                    self.wf(),
                    self.width == old(self).width,
                    self.height == old(self).height,
                    w == self.width,
                    h == self.height,
                    row < h,
                    wi == self.width as int,
                    hi == self.height as int,
                    g0 == old(self).cells@,
                    ng == next_grid(g0, wi, hi),
                    self.cells@ == g0,
                    self.canvas@ == old(self).canvas@,
                    forall|i: int| 0 <= i < row * wi + col ==> self.cells_tmp@[i] == ng[i],
                    ts@ == spec_transitions(g0, ng, wi, row * wi + col),
            {
                let idx = self.cell_index(row, col);
                let cell = self.cells[idx];
                let live_neighbors = self.live_neighbor_count(row, col);
                let next = match (cell, live_neighbors) {
                    (Cell::Alive, 2) | (Cell::Alive, 3) => Cell::Alive,
                    (Cell::Alive, _) => Cell::Dead,
                    (Cell::Dead, 3) => Cell::Alive,
                    (Cell::Dead, _) => Cell::Dead,
                };
                proof {
                    lemma_grid_index_recover(wi, row as int, col as int);
                    assert(next == ng[idx as int]) by {
                        reveal(crate::model::next_cell);
                    };
                }
                self.cells_tmp.set(idx, next);
                if next != cell {
                    let report = Transition { row, col, state: next };
                    ts.push(report);
                }
                proof {
                    assert(ts@ == spec_transitions(g0, ng, wi, idx + 1));
                }
            }
            proof {
                assert((row + 1) * wi == row * wi + wi) by (nonlinear_arith);
            }
        }
        proof {
            assert(hi * wi == wi * hi) by (nonlinear_arith);
            assert(self.cells_tmp@ =~= ng);
        }
        core::mem::swap(&mut self.cells, &mut self.cells_tmp);
        ts
    }

    /// Build a `width x height` universe. Zero in either dimension is
    /// rejected; otherwise the grid is seeded so that cell `i` is alive
    /// exactly when `i % 2 == 0 || i % 7 == 0`, the scratch buffer is all
    /// dead, and the pixel buffer is already synced to the seeded grid.
    pub fn new(width: u32, height: u32) -> (r: Result<Universe, CreationError>)
        requires
            width * height <= u32::MAX,
            4 * (width * height) <= usize::MAX,
        ensures
            r is Ok <==> (width > 0 && height > 0),
            r is Err ==> r->Err_0 == CreationError::ZeroDimension,
            r matches Ok(u) ==> {
                &&& u.wf()
                &&& u.spec_width() == width
                &&& u.spec_height() == height
                &&& u.grid().len() == width * height
                &&& forall|i: int| 0 <= i < u.grid().len() ==> #[trigger] u.grid()[i] == seed_cell(i)
                &&& u.scratch().len() == width * height
                &&& forall|i: int| 0 <= i < u.scratch().len() ==> #[trigger] u.scratch()[i] == Cell::Dead
                &&& u.canvas_view() == spec_canvas(u.grid())
            },
    {
        if width == 0 || height == 0 {
            return Err(CreationError::ZeroDimension);
        }
        let size: u32 = width * height;
        let mut cells: Vec<Cell> = Vec::new();
        let mut i: u32 = 0;
        while i < size
            invariant
                i <= size,
                cells@.len() == i,
                forall|j: int| 0 <= j < i ==> cells@[j] == seed_cell(j),
            decreases size - i,
        {
            let c = if i % 2 == 0 || i % 7 == 0 {
                Cell::Alive
            } else {
                Cell::Dead
            };
            cells.push(c);
            i = i + 1;
        }
        let mut cells_tmp: Vec<Cell> = Vec::new();
        let mut j: u32 = 0;
        while j < size
            invariant
                j <= size,
                cells_tmp@.len() == j,
                forall|k: int| 0 <= k < j ==> cells_tmp@[k] == Cell::Dead,
            decreases size - j,
        {
            cells_tmp.push(Cell::Dead);
            j = j + 1;
        }
        let byte_count: usize = 4 * (size as usize);
        let mut canvas: Vec<u8> = Vec::new();
        let mut b: usize = 0;
        while b < byte_count
            invariant
                b <= byte_count,
                canvas@.len() == b,
            decreases byte_count - b,
        {
            canvas.push(0);
            b = b + 1;
        }
        let mut universe = Universe { width, height, canvas, cells, cells_tmp };
        universe.full_sync();
        Ok(universe)
    }

    /// Repaint just the pixel quad of the cell at `(row, col)` with the
    /// color for `state`; the rest of the pixel buffer and both cell
    /// buffers stay as they were.
    pub fn apply_transition(&mut self, row: u32, col: u32, state: Cell)
        requires
            old(self).wf(),
            row < old(self).spec_height(),
            col < old(self).spec_width(),
        ensures
            final(self).wf(),
            final(self).spec_width() == old(self).spec_width(),
            final(self).spec_height() == old(self).spec_height(),
            final(self).grid() == old(self).grid(),
            final(self).scratch() == old(self).scratch(),
            final(self).canvas_view().len() == old(self).canvas_view().len(),
            forall|k: int|
                0 <= k < 4 ==> final(self).canvas_view()[4 * grid_index(
                    old(self).spec_width(),
                    row as int,
                    col as int,
                ) + k] == pixel_byte(state, k),
            forall|j: int|
                0 <= j < old(self).canvas_view().len() && !(4 * grid_index(
                    old(self).spec_width(),
                    row as int,
                    col as int,
                ) <= j < 4 * grid_index(old(self).spec_width(), row as int, col as int) + 4)
                    ==> final(self).canvas_view()[j] == old(self).canvas_view()[j],
    {
        let i = self.cell_index(row, col);
        let canvas_index = 4 * i;
        match state {
            Cell::Alive => self.make_alive(canvas_index),
            Cell::Dead => self.make_dead(canvas_index),
        }
    }
}

} // verus!
