//! Properties of the model that hold beyond any single function's
//! contract: exactness of the transition reports, idempotence of the pixel
//! sync, and the behavior of two classic patterns (the still-life block and
//! the blinker) under the generation rule.

use crate::model::{
    grid_index, lemma_grid_index_bound, lemma_grid_index_recover, lemma_grid_index_split,
    lemma_wrap_dec, lemma_wrap_inc, lemma_wrap_self, life_rule, next_grid, next_grid_iter,
    spec_canvas,
    spec_transitions, Cell, Transition,
};
use vstd::prelude::*;

verus! {

/// Every report in `ts` names an in-range cell with index below `upto`
/// whose state differs between the two grids, and carries the new state:
/// no false positives.
pub open spec fn reports_are_flips(
    old_cells: Seq<Cell>,
    new_cells: Seq<Cell>,
    width: int,
    height: int,
    upto: int,
    ts: Seq<Transition>,
) -> bool {
    forall|k: int|
        0 <= k < ts.len() ==> {
            let t = #[trigger] ts[k];
            &&& 0 <= t.col < width
            &&& 0 <= t.row < height
            &&& 0 <= grid_index(width, t.row as int, t.col as int) < upto
            &&& t.state == new_cells[grid_index(width, t.row as int, t.col as int)]
            &&& t.state != old_cells[grid_index(width, t.row as int, t.col as int)]
        }
}

/// Every cell with index below `upto` whose state differs between the two
/// grids is named by some report in `ts`: no omissions.
pub open spec fn all_flips_reported(
    old_cells: Seq<Cell>,
    new_cells: Seq<Cell>,
    width: int,
    upto: int,
    ts: Seq<Transition>,
) -> bool {
    forall|i: int|
        0 <= i < upto && #[trigger] new_cells[i] != old_cells[i] ==> exists|k: int|
            0 <= k < ts.len() && grid_index(width, (#[trigger] ts[k]).row as int, ts[k].col as int)
                == i
}

/// The reports in `ts` come in strictly increasing row-major order, so in
/// particular no cell is reported twice.
pub open spec fn reports_ordered(width: int, ts: Seq<Transition>) -> bool {
    forall|k1: int, k2: int|
        0 <= k1 < k2 < ts.len() ==> grid_index(
            width,
            (#[trigger] ts[k1]).row as int,
            ts[k1].col as int,
        ) < grid_index(width, (#[trigger] ts[k2]).row as int, ts[k2].col as int)
}

proof fn lemma_transitions_are_flips(
    old_cells: Seq<Cell>,
    new_cells: Seq<Cell>,
    width: int,
    height: int,
    upto: int,
)
    requires
        0 < width <= u32::MAX,
        0 < height <= u32::MAX,
        0 <= upto <= width * height,
    ensures
        reports_are_flips(
            old_cells,
            new_cells,
            width,
            height,
            upto,
            spec_transitions(old_cells, new_cells, width, upto),
        ),
    decreases upto,
{
    if upto > 0 {
        lemma_transitions_are_flips(old_cells, new_cells, width, height, upto - 1);
        let prev = spec_transitions(old_cells, new_cells, width, upto - 1);
        let ts = spec_transitions(old_cells, new_cells, width, upto);
        let j = upto - 1;
        lemma_grid_index_split(width, height, j);
        if new_cells[j] != old_cells[j] {
            assert(forall|k: int| 0 <= k < prev.len() ==> ts[k] == prev[k]);
            assert(grid_index(width, ts[ts.len() - 1].row as int, ts[ts.len() - 1].col as int)
                == j);
        }
    }
}

proof fn lemma_transitions_complete(
    old_cells: Seq<Cell>,
    new_cells: Seq<Cell>,
    width: int,
    height: int,
    upto: int,
)
    requires
        0 < width <= u32::MAX,
        0 < height <= u32::MAX,
        0 <= upto <= width * height,
    ensures
        all_flips_reported(
            old_cells,
            new_cells,
            width,
            upto,
            spec_transitions(old_cells, new_cells, width, upto),
        ),
    decreases upto,
{
    if upto > 0 {
        lemma_transitions_complete(old_cells, new_cells, width, height, upto - 1);
        let prev = spec_transitions(old_cells, new_cells, width, upto - 1);
        let ts = spec_transitions(old_cells, new_cells, width, upto);
        let j = upto - 1;
        lemma_grid_index_split(width, height, j);
        assert forall|i: int| 0 <= i < upto && #[trigger] new_cells[i] != old_cells[i] implies exists|
            k: int,
        |
            0 <= k < ts.len() && grid_index(width, (#[trigger] ts[k]).row as int, ts[k].col as int)
                == i by {
            if i < j {
                let k0 = choose|k: int|
                    0 <= k < prev.len() && grid_index(
                        width,
                        (#[trigger] prev[k]).row as int,
                        prev[k].col as int,
                    ) == i;
                assert(ts[k0] == prev[k0]);
                assert(grid_index(width, ts[k0].row as int, ts[k0].col as int) == i);
            } else {
                assert(grid_index(width, ts[ts.len() - 1].row as int, ts[ts.len() - 1].col as int)
                    == i);
            }
        }
    }
}

proof fn lemma_transitions_ordered(
    old_cells: Seq<Cell>,
    new_cells: Seq<Cell>,
    width: int,
    height: int,
    upto: int,
)
    requires
        0 < width <= u32::MAX,
        0 < height <= u32::MAX,
        0 <= upto <= width * height,
    ensures
        reports_ordered(width, spec_transitions(old_cells, new_cells, width, upto)),
    decreases upto,
{
    if upto > 0 {
        lemma_transitions_ordered(old_cells, new_cells, width, height, upto - 1);
        lemma_transitions_are_flips(old_cells, new_cells, width, height, upto - 1);
        let prev = spec_transitions(old_cells, new_cells, width, upto - 1);
        let ts = spec_transitions(old_cells, new_cells, width, upto);
        let j = upto - 1;
        lemma_grid_index_split(width, height, j);
        if new_cells[j] != old_cells[j] {
            assert(forall|k: int| 0 <= k < prev.len() ==> ts[k] == prev[k]);
            assert(grid_index(width, ts[ts.len() - 1].row as int, ts[ts.len() - 1].col as int)
                == j);
        }
    }
}

/// Transition-report exactness: the reports for a generation advance name
/// exactly the cells whose state differs between the old and the new grid.
/// Every report is a real flip carrying the new state, every flipped cell
/// is reported, and the reports come in strictly increasing row-major
/// order: no false positives, no omissions, no duplicates.
pub proof fn lemma_transitions_exact(
    old_cells: Seq<Cell>,
    new_cells: Seq<Cell>,
    width: int,
    height: int,
    upto: int,
)
    requires
        0 < width <= u32::MAX,
        0 < height <= u32::MAX,
        0 <= upto <= width * height,
    ensures
        reports_are_flips(
            old_cells,
            new_cells,
            width,
            height,
            upto,
            spec_transitions(old_cells, new_cells, width, upto),
        ),
        all_flips_reported(
            old_cells,
            new_cells,
            width,
            upto,
            spec_transitions(old_cells, new_cells, width, upto),
        ),
        reports_ordered(width, spec_transitions(old_cells, new_cells, width, upto)),
{
    lemma_transitions_are_flips(old_cells, new_cells, width, height, upto);
    lemma_transitions_complete(old_cells, new_cells, width, height, upto);
    lemma_transitions_ordered(old_cells, new_cells, width, height, upto);
}

/// The grid whose cell `(row, col)` is alive exactly when
/// `pattern(row, col)` holds.
pub open spec fn pattern_grid(
    width: int,
    height: int,
    pattern: spec_fn(int, int) -> bool,
) -> Seq<Cell> {
    Seq::new(
        (width * height) as nat,
        |i: int|
            if pattern(i / width, i % width) {
                Cell::Alive
            } else {
                Cell::Dead
            },
    )
}

/// 1 if the condition holds, else 0.
pub open spec fn ind(b: bool) -> int {
    if b {
        1
    } else {
        0
    }
}

proof fn lemma_pattern_grid_at(
    width: int,
    height: int,
    pattern: spec_fn(int, int) -> bool,
    row: int,
    col: int,
)
    requires
        0 < width,
        0 < height,
        0 <= row < height,
        0 <= col < width,
    ensures
        pattern_grid(width, height, pattern)[grid_index(width, row, col)] == (if pattern(row, col) {
            Cell::Alive
        } else {
            Cell::Dead
        }),
{
    lemma_grid_index_bound(width, height, row, col);
    lemma_grid_index_recover(width, row, col);
}

/// One cell of the next generation of a pattern grid, with every wrapped
/// neighbor coordinate written out and the neighbor count expressed over
/// the pattern itself.
#[verifier::spinoff_prover]
proof fn lemma_pattern_step(
    width: int,
    height: int,
    pattern: spec_fn(int, int) -> bool,
    row: int,
    col: int,
)
    requires
        0 < width,
        0 < height,
        0 <= row < height,
        0 <= col < width,
    ensures
        ({
            let up = if row == 0 {
                height - 1
            } else {
                row - 1
            };
            let down = if row == height - 1 {
                0
            } else {
                row + 1
            };
            let left = if col == 0 {
                width - 1
            } else {
                col - 1
            };
            let right = if col == width - 1 {
                0
            } else {
                col + 1
            };
            next_grid(pattern_grid(width, height, pattern), width, height)[grid_index(
                width,
                row,
                col,
            )] == life_rule(
                if pattern(row, col) {
                    Cell::Alive
                } else {
                    Cell::Dead
                },
                ind(pattern(up, left)) + ind(pattern(up, col)) + ind(pattern(up, right)) + ind(
                    pattern(row, left),
                ) + ind(pattern(row, right)) + ind(pattern(down, left)) + ind(pattern(down, col))
                    + ind(pattern(down, right)),
            )
        }),
{
    reveal(crate::model::next_cell);
    let up = if row == 0 {
        height - 1
    } else {
        row - 1
    };
    let down = if row == height - 1 {
        0
    } else {
        row + 1
    };
    let left = if col == 0 {
        width - 1
    } else {
        col - 1
    };
    let right = if col == width - 1 {
        0
    } else {
        col + 1
    };
    lemma_wrap_dec(row, height);
    lemma_wrap_inc(row, height);
    lemma_wrap_self(row, height);
    lemma_wrap_dec(col, width);
    lemma_wrap_inc(col, width);
    lemma_wrap_self(col, width);
    lemma_grid_index_bound(width, height, row, col);
    lemma_grid_index_recover(width, row, col);
    lemma_pattern_grid_at(width, height, pattern, row, col);
    lemma_pattern_grid_at(width, height, pattern, up, left);
    lemma_pattern_grid_at(width, height, pattern, up, col);
    lemma_pattern_grid_at(width, height, pattern, up, right);
    lemma_pattern_grid_at(width, height, pattern, row, left);
    lemma_pattern_grid_at(width, height, pattern, row, right);
    lemma_pattern_grid_at(width, height, pattern, down, left);
    lemma_pattern_grid_at(width, height, pattern, down, col);
    lemma_pattern_grid_at(width, height, pattern, down, right);
}

/// A cell of the 2x2 block whose upper-left corner sits at `(r0, c0)`.
pub open spec fn block_alive(row: int, col: int, r0: int, c0: int) -> bool {
    r0 <= row <= r0 + 1 && c0 <= col <= c0 + 1
}

/// A 2x2 block of live cells at `(r0, c0)` in an otherwise dead grid.
pub open spec fn block_grid(width: int, height: int, r0: int, c0: int) -> Seq<Cell> {
    pattern_grid(width, height, |row: int, col: int| block_alive(row, col, r0, c0))
}

/// Still-life invariant: on any grid at least 4x4, a 2x2 block of live
/// cells (placed without wrapping) in an otherwise dead grid is unchanged
/// by a generation advance — each live cell has exactly 3 live neighbors
/// and no dead cell has more than 2 — and hence by any number of advances.
#[verifier::rlimit(50)]
#[verifier::spinoff_prover]
pub proof fn lemma_block_still_life(width: int, height: int, r0: int, c0: int)
    requires
        4 <= width,
        4 <= height,
        0 <= r0,
        r0 + 1 < height,
        0 <= c0,
        c0 + 1 < width,
    ensures
        next_grid(block_grid(width, height, r0, c0), width, height) == block_grid(
            width,
            height,
            r0,
            c0,
        ),
{
    let pattern = |row: int, col: int| block_alive(row, col, r0, c0);
    let g = pattern_grid(width, height, pattern);
    assert forall|i: int| 0 <= i < width * height implies next_grid(g, width, height)[i] == g[i] by {
        lemma_grid_index_split(width, height, i);
        let row = i / width;
        let col = i % width;
        lemma_pattern_step(width, height, pattern, row, col);
        lemma_pattern_grid_at(width, height, pattern, row, col);
    }
    assert(next_grid(g, width, height) =~= g);
}

/// A cell of the horizontal blinker: three live cells in row `r0` at
/// columns `c0..c0+2`.
pub open spec fn blinker_h_alive(row: int, col: int, r0: int, c0: int) -> bool {
    row == r0 && c0 <= col <= c0 + 2
}

/// A cell of the vertical blinker: three live cells in column `c0 + 1` at
/// rows `r0-1..r0+1`.
pub open spec fn blinker_v_alive(row: int, col: int, r0: int, c0: int) -> bool {
    r0 - 1 <= row <= r0 + 1 && col == c0 + 1
}

/// A horizontal blinker at `(r0, c0)` in an otherwise dead grid.
pub open spec fn blinker_h_grid(width: int, height: int, r0: int, c0: int) -> Seq<Cell> {
    pattern_grid(width, height, |row: int, col: int| blinker_h_alive(row, col, r0, c0))
}

/// A vertical blinker in an otherwise dead grid, in the position the
/// horizontal one at `(r0, c0)` flips into.
pub open spec fn blinker_v_grid(width: int, height: int, r0: int, c0: int) -> Seq<Cell> {
    pattern_grid(width, height, |row: int, col: int| blinker_v_alive(row, col, r0, c0))
}

/// Oscillator: on a grid at least 5x5, a horizontal blinker placed with a
/// clear margin (so wraparound has no effect) flips to the vertical
/// blinker after one generation advance, back to the horizontal one after
/// a second, and so has period two.
#[verifier::rlimit(50)]
#[verifier::spinoff_prover]
pub proof fn lemma_blinker_oscillates(width: int, height: int, r0: int, c0: int)
    requires
        5 <= width,
        5 <= height,
        2 <= r0,
        r0 + 2 < height,
        1 <= c0,
        c0 + 3 < width,
    ensures
        next_grid(blinker_h_grid(width, height, r0, c0), width, height) == blinker_v_grid(
            width,
            height,
            r0,
            c0,
        ),
        next_grid(blinker_v_grid(width, height, r0, c0), width, height) == blinker_h_grid(
            width,
            height,
            r0,
            c0,
        ),
        next_grid(
            next_grid(blinker_h_grid(width, height, r0, c0), width, height),
            width,
            height,
        ) == blinker_h_grid(width, height, r0, c0),
{
    let pattern_h = |row: int, col: int| blinker_h_alive(row, col, r0, c0);
    let pattern_v = |row: int, col: int| blinker_v_alive(row, col, r0, c0);
    let gh = pattern_grid(width, height, pattern_h);
    let gv = pattern_grid(width, height, pattern_v);
    assert forall|i: int| 0 <= i < width * height implies next_grid(gh, width, height)[i]
        == gv[i] by {
        lemma_grid_index_split(width, height, i);
        let row = i / width;
        let col = i % width;
        lemma_pattern_step(width, height, pattern_h, row, col);
        lemma_pattern_grid_at(width, height, pattern_h, row, col);
        lemma_pattern_grid_at(width, height, pattern_v, row, col);
    }
    assert(next_grid(gh, width, height) =~= gv);
    assert forall|i: int| 0 <= i < width * height implies next_grid(gv, width, height)[i]
        == gh[i] by {
        lemma_grid_index_split(width, height, i);
        let row = i / width;
        let col = i % width;
        lemma_pattern_step(width, height, pattern_v, row, col);
        lemma_pattern_grid_at(width, height, pattern_v, row, col);
        lemma_pattern_grid_at(width, height, pattern_h, row, col);
    }
    assert(next_grid(gv, width, height) =~= gh);
}

/// Still-life invariant, iterated: the block grid is unchanged by any
/// number of generation advances.
pub proof fn lemma_block_still_life_forever(
    width: int,
    height: int,
    r0: int,
    c0: int,
    n: nat,
)
    requires
        4 <= width,
        4 <= height,
        0 <= r0,
        r0 + 1 < height,
        0 <= c0,
        c0 + 1 < width,
    ensures
        next_grid_iter(block_grid(width, height, r0, c0), width, height, n) == block_grid(
            width,
            height,
            r0,
            c0,
        ),
    decreases n,
{
    if n > 0 {
        lemma_block_still_life_forever(width, height, r0, c0, (n - 1) as nat);
        lemma_block_still_life(width, height, r0, c0);
    }
}

/// Idempotence of the full pixel sync: the synced buffer is a function of
/// the grid alone, so syncing twice from the same grid yields
/// byte-identical buffers.
pub proof fn lemma_full_sync_idempotent(cells: Seq<Cell>, first: Seq<u8>, second: Seq<u8>)
    requires
        first == spec_canvas(cells),
        second == spec_canvas(cells),
    ensures
        first == second,
{
}

} // verus!
