//! Mathematical model of the automaton: cell states, the B3/S23 rule,
//! toroidal neighbor counting, the seeded initial grid, and the RGBA pixel
//! encoding. Everything here is specification; the executable code in
//! `universe` is proved against these definitions.

use vstd::arithmetic::div_mod::{
    lemma_fundamental_div_mod, lemma_fundamental_div_mod_converse_div,
    lemma_fundamental_div_mod_converse_mod, lemma_mod_bound, lemma_small_mod,
};
use vstd::prelude::*;

verus! {

/// The state of one grid cell.
#[derive(Clone, Copy, PartialEq, Eq, Structural, Debug)]
pub enum Cell {
    Dead,
    Alive,
}

/// One reported state flip: the cell at `(row, col)` now holds `state`.
#[derive(Clone, Copy, PartialEq, Eq, Structural, Debug)]
pub struct Transition {
    pub row: u32,
    pub col: u32,
    pub state: Cell,
}

/// The deterministic seeding rule: cell `i` starts alive exactly when
/// `i % 2 == 0 || i % 7 == 0`.
pub open spec fn seed_cell(i: int) -> Cell {
    if i % 2 == 0 || i % 7 == 0 {
        Cell::Alive
    } else {
        Cell::Dead
    }
}

/// Row-major index of `(row, col)` on a grid `width` cells wide.
pub open spec fn grid_index(width: int, row: int, col: int) -> int {
    row * width + col
}

/// 1 if the cell at `(row, col)` is alive, else 0.
pub open spec fn alive_at(cells: Seq<Cell>, width: int, row: int, col: int) -> int {
    if cells[grid_index(width, row, col)] is Alive {
        1
    } else {
        0
    }
}

/// The coordinate one step toward 0, wrapping: the "-1" offset is taken as
/// `m - 1` and reduced modulo `m`, as toroidal topology demands.
pub open spec fn wrap_dec(x: int, m: int) -> int {
    (x + m - 1) % m
}

/// The coordinate one step away from 0, reduced modulo `m`.
pub open spec fn wrap_inc(x: int, m: int) -> int {
    (x + 1) % m
}

/// Number of live cells among the 8 toroidally wrapped Moore neighbors of
/// `(row, col)`; the center cell itself is not counted.
pub open spec fn spec_live_neighbors(
    cells: Seq<Cell>,
    width: int,
    height: int,
    row: int,
    col: int,
) -> int {
    alive_at(cells, width, wrap_dec(row, height), wrap_dec(col, width)) + alive_at(
        cells,
        width,
        wrap_dec(row, height),
        col,
    ) + alive_at(cells, width, wrap_dec(row, height), wrap_inc(col, width)) + alive_at(
        cells,
        width,
        row,
        wrap_dec(col, width),
    ) + alive_at(cells, width, row, wrap_inc(col, width)) + alive_at(
        cells,
        width,
        wrap_inc(row, height),
        wrap_dec(col, width),
    ) + alive_at(cells, width, wrap_inc(row, height), col) + alive_at(
        cells,
        width,
        wrap_inc(row, height),
        wrap_inc(col, width),
    )
}

/// The standard B3/S23 rule: a live cell survives with 2 or 3 live
/// neighbors, a dead cell is born with exactly 3, and every other cell is
/// dead in the next generation.
pub open spec fn life_rule(c: Cell, live_neighbors: int) -> Cell {
    match c {
        Cell::Alive => if live_neighbors == 2 || live_neighbors == 3 {
            Cell::Alive
        } else {
            Cell::Dead
        },
        Cell::Dead => if live_neighbors == 3 {
            Cell::Alive
        } else {
            Cell::Dead
        },
    }
}

/// Next state of the cell at `(row, col)` under the rule.
#[verifier::opaque]
pub open spec fn next_cell(
    cells: Seq<Cell>,
    width: int,
    height: int,
    row: int,
    col: int,
) -> Cell {
    life_rule(
        cells[grid_index(width, row, col)],
        spec_live_neighbors(cells, width, height, row, col),
    )
}

/// The whole next generation, cell by cell, of a `width x height` grid.
pub open spec fn next_grid(cells: Seq<Cell>, width: int, height: int) -> Seq<Cell> {
    Seq::new((width * height) as nat, |i: int| next_cell(cells, width, height, i / width, i % width))
}

/// The grid after `n` generation advances.
pub open spec fn next_grid_iter(cells: Seq<Cell>, width: int, height: int, n: nat) -> Seq<Cell>
    decreases n,
{
    if n == 0 {
        cells
    } else {
        next_grid(next_grid_iter(cells, width, height, (n - 1) as nat), width, height)
    }
}

/// The transition reports for the first `upto` cells of a generation
/// advance that took `old_cells` to `new_cells`: one report per cell whose
/// state differs, carrying its coordinates and new state, in row-major
/// order.
pub open spec fn spec_transitions(
    old_cells: Seq<Cell>,
    new_cells: Seq<Cell>,
    width: int,
    upto: int,
) -> Seq<Transition>
    decreases upto,
{
    if upto <= 0 {
        Seq::empty()
    } else {
        let prev = spec_transitions(old_cells, new_cells, width, upto - 1);
        if new_cells[upto - 1] != old_cells[upto - 1] {
            prev.push(
                Transition {
                    row: ((upto - 1) / width) as u32,
                    col: ((upto - 1) % width) as u32,
                    state: new_cells[upto - 1],
                },
            )
        } else {
            prev
        }
    }
}

/// Byte `k` (0..4) of the RGBA quad for a cell: alive is opaque white
/// `(255,255,255,255)`, dead is opaque black `(0,0,0,255)`.
pub open spec fn pixel_byte(c: Cell, k: int) -> u8 {
    match c {
        Cell::Alive => 255u8,
        Cell::Dead => if k == 3 {
            255u8
        } else {
            0u8
        },
    }
}

/// The fully synced pixel buffer of a grid: one RGBA quad per cell, in the
/// same row-major order, `4 * cells.len()` bytes in all.
pub open spec fn spec_canvas(cells: Seq<Cell>) -> Seq<u8> {
    Seq::new(4 * cells.len(), |j: int| pixel_byte(cells[j / 4], j % 4))
}

/// For an in-range coordinate, the wrapped "-1" step lands on `m - 1` at the
/// 0 edge and on `x - 1` elsewhere.
pub proof fn lemma_wrap_dec(x: int, m: int)
    requires
        0 <= x < m,
    ensures
        wrap_dec(x, m) == if x == 0 {
            m - 1
        } else {
            x - 1
        },
{
    if x == 0 {
        lemma_small_mod((m - 1) as nat, m as nat);
    } else {
        lemma_fundamental_div_mod_converse_mod(x + m - 1, m, 1, x - 1);
    }
}

/// For an in-range coordinate, the wrapped "+1" step lands on 0 at the far
/// edge and on `x + 1` elsewhere.
pub proof fn lemma_wrap_inc(x: int, m: int)
    requires
        0 <= x < m,
    ensures
        wrap_inc(x, m) == if x == m - 1 {
            0
        } else {
            x + 1
        },
{
    if x == m - 1 {
        lemma_fundamental_div_mod_converse_mod(x + 1, m, 1, 0);
    } else {
        lemma_small_mod((x + 1) as nat, m as nat);
    }
}

/// An in-range coordinate is unchanged by the wrap: `x % m == x`.
pub proof fn lemma_wrap_self(x: int, m: int)
    requires
        0 <= x < m,
    ensures
        x % m == x,
{
    lemma_small_mod(x as nat, m as nat);
}

/// The row-major index of an in-range cell lies within the grid.
pub proof fn lemma_grid_index_bound(width: int, height: int, row: int, col: int)
    by (nonlinear_arith)
    requires
        0 <= row < height,
        0 <= col < width,
    ensures
        0 <= grid_index(width, row, col) < width * height,
{
}

/// Row and column are recovered from the row-major index by division and
/// remainder.
pub proof fn lemma_grid_index_recover(width: int, row: int, col: int)
    requires
        0 < width,
        0 <= row,
        0 <= col < width,
    ensures
        grid_index(width, row, col) / width == row,
        grid_index(width, row, col) % width == col,
{
    lemma_fundamental_div_mod_converse_div(row * width + col, width, row, col);
    lemma_fundamental_div_mod_converse_mod(row * width + col, width, row, col);
}

/// Any in-grid index splits into an in-range row and column.
pub proof fn lemma_grid_index_split(width: int, height: int, i: int)
    requires
        0 < width,
        0 < height,
        0 <= i < width * height,
    ensures
        0 <= i / width < height,
        0 <= i % width < width,
        grid_index(width, i / width, i % width) == i,
{
    lemma_fundamental_div_mod(i, width);
    lemma_mod_bound(i, width);
    assert(0 <= i / width < height && (i / width) * width + i % width == i) by (nonlinear_arith)
        requires
            0 < width,
            0 < height,
            0 <= i < width * height,
            i == width * (i / width) + i % width,
            0 <= i % width < width,
    ;
}

} // verus!
