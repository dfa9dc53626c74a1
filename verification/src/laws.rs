//! Properties of the grid model, stated and proved as standalone lemmas.

use vstd::prelude::*;
use crate::grid::{all_dead, alive_count, cell_at, live_neighbors, step, wrap};

verus! {

/// Wrapping one step past either edge of a dimension lands on the opposite
/// edge: row 0's "north" is the last row, and the last row's "south" is row 0
/// (and likewise for columns).
pub proof fn lemma_wrap_crosses_edges(dim: int)
    requires
        1 <= dim,
    ensures
        wrap(0, -1, dim) == dim - 1,
        wrap(dim - 1, 1, dim) == 0,
{
}

/// Toroidal wrap correctness at the top edge: a cell in row 0 has exactly 8
/// neighbour positions, and the three "northern" ones are read from the
/// bottom row `h - 1`.
pub proof fn lemma_top_row_neighbors_wrap(g: Seq<bool>, w: nat, h: nat, col: nat)
    requires
        2 <= h,
        1 <= w,
        col < w,
    ensures
        live_neighbors(g, w, h, 0, col) == alive_count(
            cell_at(g, w, h - 1, wrap(col as int, -1, w as int)),
        ) + alive_count(cell_at(g, w, h - 1, col as int)) + alive_count(
            cell_at(g, w, h - 1, wrap(col as int, 1, w as int)),
        ) + alive_count(cell_at(g, w, 0, wrap(col as int, -1, w as int))) + alive_count(
            cell_at(g, w, 0, wrap(col as int, 1, w as int)),
        ) + alive_count(cell_at(g, w, 1, wrap(col as int, -1, w as int))) + alive_count(
            cell_at(g, w, 1, col as int),
        ) + alive_count(cell_at(g, w, 1, wrap(col as int, 1, w as int))),
{
}

/// Toroidal wrap correctness at the left edge: a cell in column 0 has exactly
/// 8 neighbour positions, and the three "western" ones are read from the
/// rightmost column `w - 1`.
pub proof fn lemma_left_column_neighbors_wrap(g: Seq<bool>, w: nat, h: nat, row: nat)
    requires
        2 <= w,
        1 <= h,
        row < h,
    ensures
        live_neighbors(g, w, h, row, 0) == alive_count(
            cell_at(g, w, wrap(row as int, -1, h as int), w - 1),
        ) + alive_count(cell_at(g, w, wrap(row as int, -1, h as int), 0)) + alive_count(
            cell_at(g, w, wrap(row as int, -1, h as int), 1),
        ) + alive_count(cell_at(g, w, row as int, w - 1)) + alive_count(
            cell_at(g, w, row as int, 1),
        ) + alive_count(cell_at(g, w, wrap(row as int, 1, h as int), w - 1)) + alive_count(
            cell_at(g, w, wrap(row as int, 1, h as int), 0),
        ) + alive_count(cell_at(g, w, wrap(row as int, 1, h as int), 1)),
{
}

/// Toroidal wrap correctness at the bottom edge: a cell in the last row has
/// exactly 8 neighbour positions, and the three "southern" ones are read
/// from row 0.
pub proof fn lemma_bottom_row_neighbors_wrap(g: Seq<bool>, w: nat, h: nat, col: nat)
    requires
        2 <= h,
        1 <= w,
        col < w,
    ensures
        live_neighbors(g, w, h, (h - 1) as nat, col) == alive_count(
            cell_at(g, w, h - 2, wrap(col as int, -1, w as int)),
        ) + alive_count(cell_at(g, w, h - 2, col as int)) + alive_count(
            cell_at(g, w, h - 2, wrap(col as int, 1, w as int)),
        ) + alive_count(cell_at(g, w, h - 1, wrap(col as int, -1, w as int))) + alive_count(
            cell_at(g, w, h - 1, wrap(col as int, 1, w as int)),
        ) + alive_count(cell_at(g, w, 0, wrap(col as int, -1, w as int))) + alive_count(
            cell_at(g, w, 0, col as int),
        ) + alive_count(cell_at(g, w, 0, wrap(col as int, 1, w as int))),
{
}

/// Toroidal wrap correctness at the right edge: a cell in the last column
/// has exactly 8 neighbour positions, and the three "eastern" ones are read
/// from column 0.
pub proof fn lemma_right_column_neighbors_wrap(g: Seq<bool>, w: nat, h: nat, row: nat)
    requires
        2 <= w,
        1 <= h,
        row < h,
    ensures
        live_neighbors(g, w, h, row, (w - 1) as nat) == alive_count(
            cell_at(g, w, wrap(row as int, -1, h as int), w - 2),
        ) + alive_count(cell_at(g, w, wrap(row as int, -1, h as int), w - 1)) + alive_count(
            cell_at(g, w, wrap(row as int, -1, h as int), 0),
        ) + alive_count(cell_at(g, w, row as int, w - 2)) + alive_count(
            cell_at(g, w, row as int, 0),
        ) + alive_count(cell_at(g, w, wrap(row as int, 1, h as int), w - 2)) + alive_count(
            cell_at(g, w, wrap(row as int, 1, h as int), w - 1),
        ) + alive_count(cell_at(g, w, wrap(row as int, 1, h as int), 0)),
{
}

/// Tick determinism: advancing a generation is a function of the grid
/// content and the dimensions alone, so equal grids step to equal grids.
pub proof fn lemma_step_deterministic(g1: Seq<bool>, g2: Seq<bool>, w: nat, h: nat)
    requires
        g1 == g2,
    ensures
        step(g1, w, h) == step(g2, w, h),
{
}

/// Toggle round trip: toggling a cell flips exactly that cell and no other,
/// and toggling it twice restores the original grid.
pub proof fn lemma_toggle_round_trip(g: Seq<bool>, k: int)
    requires
        0 <= k < g.len(),
    ensures
        g.update(k, !g[k])[k] == !g[k],
        forall|j: int| 0 <= j < g.len() && j != k ==> g.update(k, !g[k])[j] == g[j],
        g.update(k, !g[k]).update(k, !g.update(k, !g[k])[k]) == g,
{
    assert(g.update(k, !g[k]).update(k, !g.update(k, !g[k])[k]) =~= g);
}

/// Reset-to-empty agreement: per-cell states that are all dead — what a
/// randomised reset hands over when every draw stays at or below the dead
/// probability — are exactly the purged grid of the same size.
pub proof fn lemma_all_false_is_all_dead(v: Seq<bool>)
    requires
        forall|i: int| 0 <= i < v.len() ==> !v[i],
    ensures
        v == all_dead(v.len()),
{
    assert(v =~= all_dead(v.len()));
}

} // verus!
