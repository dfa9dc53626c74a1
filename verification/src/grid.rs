//! The mathematical model of the toroidal Life grid.
//!
//! A generation is a `Seq<bool>` of length `width * height`, stored row-major:
//! the cell at `(row, col)` lives at index `row * width + col`.  The grid is a
//! torus: moving one step past an edge lands on the opposite edge, so every
//! cell has exactly eight neighbour positions.

use vstd::prelude::*;

verus! {

/// 1 for a live cell, 0 for a dead one; neighbour counts are sums of these.
pub open spec fn alive_count(b: bool) -> int {
    if b {
        1
    } else {
        0
    }
}

/// Row-major position of `(row, col)` in the packed grid.
pub open spec fn linear_index(width: nat, row: nat, col: nat) -> nat {
    row * width + col
}

/// An all-dead generation of `n` cells.
pub open spec fn all_dead(n: nat) -> Seq<bool> {
    Seq::new(n, |k: int| false)
}

/// Toroidal wrap of `base + delta` into `0 .. dim`.  This is not a general
/// modulus: it assumes `0 <= base < dim` and `-dim < delta < dim`, so one
/// correction suffices.
pub open spec fn wrap(base: int, delta: int, dim: int) -> int {
    let moved = base + delta;
    if moved < 0 {
        moved + dim
    } else if moved > dim - 1 {
        moved - dim
    } else {
        moved
    }
}

/// The cell of `g` at (already wrapped) coordinates `(row, col)`.
pub open spec fn cell_at(g: Seq<bool>, width: nat, row: int, col: int) -> bool {
    g[row * width + col]
}

/// Number of live cells among the 8 toroidal neighbour positions of
/// `(row, col)`: the wrapped rows above and below, the wrapped columns left
/// and right, and the four diagonals.  On a degenerate torus (a dimension of
/// 1 or 2) some of the eight positions coincide and are counted once each
/// time they occur, exactly as the unrolled 3x3 scan visits them.
pub open spec fn live_neighbors(g: Seq<bool>, width: nat, height: nat, row: nat, col: nat) -> int
    recommends
        1 <= width,
        1 <= height,
        row < height,
        col < width,
        g.len() == width * height,
{
    let north = wrap(row as int, -1, height as int);
    let south = wrap(row as int, 1, height as int);
    let west = wrap(col as int, -1, width as int);
    let east = wrap(col as int, 1, width as int);
    alive_count(cell_at(g, width, north, west)) + alive_count(cell_at(g, width, north, col as int))
        + alive_count(cell_at(g, width, north, east)) + alive_count(
        cell_at(g, width, row as int, west),
    ) + alive_count(cell_at(g, width, row as int, east)) + alive_count(
        cell_at(g, width, south, west),
    ) + alive_count(cell_at(g, width, south, col as int)) + alive_count(
        cell_at(g, width, south, east),
    )
}

/// The classic B3/S23 rule: a live cell survives with 2 or 3 live
/// neighbours, a dead cell is born with exactly 3, everything else is dead.
pub open spec fn next_state(alive: bool, neighbors: int) -> bool {
    if alive {
        neighbors == 2 || neighbors == 3
    } else {
        neighbors == 3
    }
}

/// One generation of the whole grid: every cell advances by the rule,
/// reading only the pre-step grid.
pub open spec fn step(g: Seq<bool>, width: nat, height: nat) -> Seq<bool>
    recommends
        1 <= width,
        g.len() == width * height,
{
    Seq::new(
        g.len(),
        |k: int|
            next_state(
                g[k],
                live_neighbors(g, width, height, (k / width as int) as nat, (k % width as int) as nat),
            ),
    )
}

/// The grid index a pattern offset `(dr, dc)` lands on when stamped around
/// `(row, col)`, both coordinates wrapped toroidally.
pub open spec fn wrapped_index(width: nat, height: nat, row: nat, col: nat, dr: int, dc: int) -> int {
    wrap(row as int, dr, height as int) * width + wrap(col as int, dc, width as int)
}

/// The five offsets of the glider stamp (heading toward the bottom right),
/// in the order they are stamped.
pub open spec fn glider_delta_at(j: int) -> (int, int) {
    if j == 0 {
        (-1, 0)
    } else if j == 1 {
        (1, 0)
    } else if j == 2 {
        (0, 1)
    } else if j == 3 {
        (1, -1)
    } else {
        (1, 1)
    }
}

/// The four "arm" deltas of the pulsar stamp, in stamping order.
pub open spec fn pulsar_arm_at(i: int) -> int {
    if i == 0 {
        -6
    } else if i == 1 {
        -1
    } else if i == 2 {
        1
    } else {
        6
    }
}

/// The six "run" deltas of the pulsar stamp, in stamping order.
pub open spec fn pulsar_run_at(j: int) -> int {
    if j == 0 {
        -4
    } else if j == 1 {
        -3
    } else if j == 2 {
        -2
    } else if j == 3 {
        2
    } else if j == 4 {
        3
    } else {
        4
    }
}

/// Whether `d` is an arm delta.
pub open spec fn pulsar_arm(d: int) -> bool {
    d == -6 || d == -1 || d == 1 || d == 6
}

/// Whether `d` is a run delta.
pub open spec fn pulsar_run(d: int) -> bool {
    d == -4 || d == -3 || d == -2 || d == 2 || d == 3 || d == 4
}

/// The 48 offsets of the pulsar stamp: every (run, arm) pair and its
/// transpose, giving the pattern its 4-fold symmetry.
pub open spec fn pulsar_delta(dr: int, dc: int) -> bool {
    (pulsar_run(dr) && pulsar_arm(dc)) || (pulsar_arm(dr) && pulsar_run(dc))
}

/// Every arm delta appears at some stamping position.
pub proof fn lemma_arm_indexed(d: int)
    requires
        pulsar_arm(d),
    ensures
        exists|i: int| 0 <= i < 4 && pulsar_arm_at(i) == d,
{
    if d == -6 {
        assert(pulsar_arm_at(0) == -6);
    } else if d == -1 {
        assert(pulsar_arm_at(1) == -1);
    } else if d == 1 {
        assert(pulsar_arm_at(2) == 1);
    } else {
        assert(pulsar_arm_at(3) == 6);
    }
}

/// Every run delta appears at some stamping position.
pub proof fn lemma_run_indexed(d: int)
    requires
        pulsar_run(d),
    ensures
        exists|j: int| 0 <= j < 6 && pulsar_run_at(j) == d,
{
    if d == -4 {
        assert(pulsar_run_at(0) == -4);
    } else if d == -3 {
        assert(pulsar_run_at(1) == -3);
    } else if d == -2 {
        assert(pulsar_run_at(2) == -2);
    } else if d == 2 {
        assert(pulsar_run_at(3) == 2);
    } else if d == 3 {
        assert(pulsar_run_at(4) == 3);
    } else {
        assert(pulsar_run_at(5) == 4);
    }
}

/// A wrapped stamp offset always lands strictly inside the grid.
pub proof fn lemma_wrapped_index_in_range(
    width: nat,
    height: nat,
    row: nat,
    col: nat,
    dr: int,
    dc: int,
)
    requires
        row < height,
        col < width,
        -(height as int) < dr < height as int,
        -(width as int) < dc < width as int,
    ensures
        0 <= wrapped_index(width, height, row, col, dr, dc) < width * height,
        wrapped_index(width, height, row, col, dr, dc) == linear_index(
            width,
            wrap(row as int, dr, height as int) as nat,
            wrap(col as int, dc, width as int) as nat,
        ),
{
    let r = wrap(row as int, dr, height as int);
    let c = wrap(col as int, dc, width as int);
    assert(0 <= r < height);
    assert(0 <= c < width);
    lemma_index_bound(width, height, r as nat, c as nat);
}

/// A cell strictly inside the grid has a strictly in-range linear index.
pub proof fn lemma_index_bound(width: nat, height: nat, row: nat, col: nat)
    requires
        row < height,
        col < width,
    ensures
        linear_index(width, row, col) < width * height,
{
    assert(row * width + col < (row + 1) * width) by (nonlinear_arith)
        requires
            col < width,
    ;
    assert((row + 1) * width <= height * width) by (nonlinear_arith)
        requires
            row + 1 <= height,
    ;
    assert(height * width == width * height) by (nonlinear_arith);
}

/// A linear index decomposes back into its row and column.
pub proof fn lemma_index_decomposes(width: nat, row: nat, col: nat)
    requires
        1 <= width,
        col < width,
    ensures
        linear_index(width, row, col) as int / width as int == row,
        linear_index(width, row, col) as int % width as int == col,
{
    vstd::arithmetic::div_mod::lemma_fundamental_div_mod_converse(
        linear_index(width, row, col) as int,
        width as int,
        row as int,
        col as int,
    );
}

} // verus!
