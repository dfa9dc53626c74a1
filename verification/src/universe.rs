//! The simulation engine: a `Universe` owns the current generation, a
//! scratch buffer for the one being computed, and the editing and stepping
//! operations over them.

use vstd::prelude::*;
use fixedbitset::FixedBitSet;
use crate::bitset::{
    bits, bitset_clear, bitset_clone, bitset_get, bitset_set, bitset_toggle,
    bitset_with_capacity,
};
use crate::grid::{
    all_dead, glider_delta_at, lemma_arm_indexed, lemma_index_bound, lemma_index_decomposes,
    lemma_run_indexed, lemma_wrapped_index_in_range, linear_index, live_neighbors,
    pulsar_arm, pulsar_arm_at, pulsar_delta, pulsar_run, pulsar_run_at, step, wrap,
    wrapped_index,
};

verus! {

/// Number of columns and rows of a freshly constructed universe.
pub const DEFAULT_SIDE: u32 = 80;

/// The arm delta stamped at position `i` of the pulsar's outer loop.
fn pulsar_arm_delta(i: usize) -> (d: i64)
    requires
        i < 4,
    ensures
        d == pulsar_arm_at(i as int),
        -6 <= d <= 6,
{
    if i == 0 {
        -6
    } else if i == 1 {
        -1
    } else if i == 2 {
        1
    } else {
        6
    }
}

/// The run delta stamped at position `j` of the pulsar's inner loop.
fn pulsar_run_delta(j: usize) -> (d: i64)
    requires
        j < 6,
    ensures
        d == pulsar_run_at(j as int),
        -4 <= d <= 4,
{
    if j == 0 {
        -4
    } else if j == 1 {
        -3
    } else if j == 2 {
        -2
    } else if j == 3 {
        2
    } else if j == 4 {
        3
    } else {
        4
    }
}

/// A fixed-size toroidal Life grid.
///
/// `cells` is the current generation, one bit per cell in row-major order;
/// `next` is an equally sized scratch buffer that `tick` fills before it
/// becomes the new current generation.
pub struct Universe {
    width: u32,
    height: u32,
    cells: FixedBitSet,
    next: FixedBitSet,
}

impl Universe {
    /// The number of columns, as a mathematical value.
    pub closed spec fn spec_width(self) -> nat {
        self.width as nat
    }

    /// The number of rows, as a mathematical value.
    pub closed spec fn spec_height(self) -> nat {
        self.height as nat
    }

    /// The number of cells in the grid.
    pub open spec fn size(self) -> nat {
        self.spec_width() * self.spec_height()
    }

    /// The current generation, as a sequence of one boolean per cell.
    pub closed spec fn grid(self) -> Seq<bool> {
        bits(self.cells)
    }

    /// The scratch buffer for the generation being computed.
    pub closed spec fn scratch(self) -> Seq<bool> {
        bits(self.next)
    }

    /// Well-formedness: both buffers hold exactly one bit per cell, and the
    /// cell count fits the index arithmetic.
    pub open spec fn wf(self) -> bool {
        &&& self.grid().len() == self.size()
        &&& self.scratch().len() == self.size()
        &&& self.size() <= u32::MAX
    }

    /// A fresh universe: the default 80 x 80 grid with every cell dead.
    /// Randomised seeding is the host's business: it draws from its random
    /// source and hands the outcome to [`Universe::reset`].
    pub fn new() -> (u: Universe)
        ensures
            u.wf(),
            u.spec_width() == DEFAULT_SIDE,
            u.spec_height() == DEFAULT_SIDE,
            u.grid() == all_dead(u.size()),
            u.scratch() == all_dead(u.size()),
    {
        let size = (DEFAULT_SIDE * DEFAULT_SIDE) as usize;
        let cells = bitset_with_capacity(size);
        let next = bitset_clone(&cells);
        let u = Universe { width: DEFAULT_SIDE, height: DEFAULT_SIDE, cells, next };
        proof {
            assert(u.grid() =~= all_dead(u.size()));
            assert(u.scratch() =~= all_dead(u.size()));
        }
        u
    }

    /// The number of columns.
    pub fn width(&self) -> (w: u32)
        ensures
            w == self.spec_width(),
    {
        self.width
    }

    /// The number of rows.
    pub fn height(&self) -> (h: u32)
        ensures
            h == self.spec_height(),
    {
        self.height
    }

    /// Replace the height, reallocate both buffers at the new total size and
    /// clear every cell to dead.  Prior live cells are not preserved.
    pub fn set_height(&mut self, height: u32)
        requires
            old(self).spec_width() * height <= u32::MAX,
        ensures
            final(self).wf(),
            final(self).spec_width() == old(self).spec_width(),
            final(self).spec_height() == height,
            final(self).grid() == all_dead(final(self).size()),
            final(self).scratch() == all_dead(final(self).size()),
    {
        self.height = height;
        let size = (self.width * height) as usize;
        self.cells = bitset_with_capacity(size);
        self.next = bitset_clone(&self.cells);
        proof {
            assert(self.grid() =~= all_dead(self.size()));
            assert(self.scratch() =~= all_dead(self.size()));
        }
    }

    /// Replace the width, reallocate both buffers at the new total size and
    /// clear every cell to dead.  Prior live cells are not preserved.
    pub fn set_width(&mut self, width: u32)
        requires
            width * old(self).spec_height() <= u32::MAX,
        ensures
            final(self).wf(),
            final(self).spec_width() == width,
            final(self).spec_height() == old(self).spec_height(),
            final(self).grid() == all_dead(final(self).size()),
            final(self).scratch() == all_dead(final(self).size()),
    {
        self.width = width;
        let size = (width * self.height) as usize;
        self.cells = bitset_with_capacity(size);
        self.next = bitset_clone(&self.cells);
        proof {
            assert(self.grid() =~= all_dead(self.size()));
            assert(self.scratch() =~= all_dead(self.size()));
        }
    }

    /// Row-major index of an in-bounds cell.
    fn get_index(&self, row: u32, column: u32) -> (idx: usize)
        requires
            self.wf(),
            row < self.spec_height(),
            column < self.spec_width(),
        ensures
            idx == linear_index(self.spec_width(), row as nat, column as nat),
            idx < self.size(),
    {
        proof {
            lemma_index_bound(self.spec_width(), self.spec_height(), row as nat, column as nat);
        }
        (row * self.width + column) as usize
    }

    /// Flip the single cell at `(row, column)`; every other cell and the
    /// scratch buffer keep their state.
    pub fn toggle_cell(&mut self, row: u32, column: u32)
        requires
            old(self).wf(),
            row < old(self).spec_height(),
            column < old(self).spec_width(),
        ensures
            final(self).wf(),
            final(self).spec_width() == old(self).spec_width(),
            final(self).spec_height() == old(self).spec_height(),
            final(self).grid() == old(self).grid().update(
                linear_index(old(self).spec_width(), row as nat, column as nat) as int,
                !old(self).grid()[linear_index(old(self).spec_width(), row as nat, column as nat) as int],
            ),
            final(self).scratch() == old(self).scratch(),
    {
        let idx = self.get_index(row, column);
        bitset_toggle(&mut self.cells, idx);
    }

    /// Set every cell of both buffers to dead.
    pub fn purge(&mut self)
        requires
            old(self).wf(),
        ensures
            final(self).wf(),
            final(self).spec_width() == old(self).spec_width(),
            final(self).spec_height() == old(self).spec_height(),
            final(self).grid() == all_dead(final(self).size()),
            final(self).scratch() == all_dead(final(self).size()),
    {
        bitset_clear(&mut self.cells);
        bitset_clear(&mut self.next);
        proof {
            assert(self.grid() =~= all_dead(self.size()));
            assert(self.scratch() =~= all_dead(self.size()));
        }
    }

    /// Overwrite the current generation with the given per-cell states, one
    /// boolean per cell in row-major order.  The scratch buffer is left
    /// stale, as a following `tick` rebuilds it anyway.  The host's
    /// randomised reset draws from its random source and passes the outcome
    /// here, so a draw kept below the dead-probability threshold for every
    /// cell yields an all-dead grid.
    pub fn reset(&mut self, alive: &Vec<bool>)
        requires
            old(self).wf(),
            alive@.len() == old(self).size(),
        ensures
            final(self).wf(),
            final(self).spec_width() == old(self).spec_width(),
            final(self).spec_height() == old(self).spec_height(),
            final(self).grid() == alive@,
            final(self).scratch() == old(self).scratch(),
    {
        let n = alive.len();
        let mut i: usize = 0;
        while i < n
            invariant
                i <= n,
                n == alive@.len(),
                n == self.size(),
                self.wf(),
                self.spec_width() == old(self).spec_width(),
                self.spec_height() == old(self).spec_height(),
                self.scratch() == old(self).scratch(),
                forall|k: int| 0 <= k < i ==> self.grid()[k] == alive@[k],
            decreases n - i,
        {
            bitset_set(&mut self.cells, i, alive[i]);
            i = i + 1;
        }
        proof {
            assert(self.grid() =~= alive@);
        }
    }

    /// Count the live cells among the 8 toroidally wrapped neighbours of an
    /// in-bounds cell, by an unrolled scan of the wrapped row and column
    /// triples.
    fn live_neighbor_count(&self, row: u32, column: u32) -> (count: u8)
        requires
            self.wf(),
            row < self.spec_height(),
            column < self.spec_width(),
        ensures
            count == live_neighbors(
                self.grid(),
                self.spec_width(),
                self.spec_height(),
                row as nat,
                column as nat,
            ),
            count <= 8,
    {
        let north = if row == 0 {
            self.height - 1
        } else {
            row - 1
        };
        let south = if row == self.height - 1 {
            0
        } else {
            row + 1
        };
        let west = if column == 0 {
            self.width - 1
        } else {
            column - 1
        };
        let east = if column == self.width - 1 {
            0
        } else {
            column + 1
        };
        proof {
            assert(north == wrap(row as int, -1, self.spec_height() as int));
            assert(south == wrap(row as int, 1, self.spec_height() as int));
            assert(west == wrap(column as int, -1, self.spec_width() as int));
            assert(east == wrap(column as int, 1, self.spec_width() as int));
        }
        let mut count: u8 = 0;
        if bitset_get(&self.cells, self.get_index(north, west)) {
            count = count + 1;
        }
        if bitset_get(&self.cells, self.get_index(north, column)) {
            count = count + 1;
        }
        if bitset_get(&self.cells, self.get_index(north, east)) {
            count = count + 1;
        }
        if bitset_get(&self.cells, self.get_index(row, west)) {
            count = count + 1;
        }
        if bitset_get(&self.cells, self.get_index(row, east)) {
            count = count + 1;
        }
        if bitset_get(&self.cells, self.get_index(south, west)) {
            count = count + 1;
        }
        if bitset_get(&self.cells, self.get_index(south, column)) {
            count = count + 1;
        }
        if bitset_get(&self.cells, self.get_index(south, east)) {
            count = count + 1;
        }
        count
    }

    /// Advance the grid by one generation of the B3/S23 rule.  Every cell's
    /// new state is computed from the pre-tick grid into the scratch buffer,
    /// which then becomes the new current generation.
    pub fn tick(&mut self)
        requires
            old(self).wf(),
        ensures
            final(self).wf(),
            final(self).spec_width() == old(self).spec_width(),
            final(self).spec_height() == old(self).spec_height(),
            final(self).grid() == step(
                old(self).grid(),
                old(self).spec_width(),
                old(self).spec_height(),
            ),
            final(self).scratch() == final(self).grid(),
    {
        let w = self.width;
        let h = self.height;
        let mut row: u32 = 0;
        while row < h
            invariant
                self.wf(),
                w == self.spec_width(),
                h == self.spec_height(),
                self.spec_width() == old(self).spec_width(),
                self.spec_height() == old(self).spec_height(),
                self.grid() == old(self).grid(),
                row <= h,
                forall|k: int|
                    0 <= k < row * w ==> self.scratch()[k] == step(
                        old(self).grid(),
                        old(self).spec_width(),
                        old(self).spec_height(),
                    )[k],
            decreases h - row,
        {
            let mut col: u32 = 0;
            while col < w
                invariant
                    self.wf(),
                    w == self.spec_width(),
                    h == self.spec_height(),
                    self.spec_width() == old(self).spec_width(),
                    self.spec_height() == old(self).spec_height(),
                    self.grid() == old(self).grid(),
                    row < h,
                    col <= w,
                    forall|k: int|
                        0 <= k < row * w + col ==> self.scratch()[k] == step(
                            old(self).grid(),
                            old(self).spec_width(),
                            old(self).spec_height(),
                        )[k],
                decreases w - col,
            {
                let idx = self.get_index(row, col);
                let n = self.live_neighbor_count(row, col);
                let alive = bitset_get(&self.cells, idx);
                let lives_on = if alive {
                    n == 2 || n == 3
                } else {
                    n == 3
                };
                bitset_set(&mut self.next, idx, lives_on);
                proof {
                    lemma_index_decomposes(w as nat, row as nat, col as nat);
                    assert(self.scratch()[idx as int] == step(
                        old(self).grid(),
                        old(self).spec_width(),
                        old(self).spec_height(),
                    )[idx as int]);
                }
                col = col + 1;
            }
            proof {
                assert((row as int + 1) * w as int == row as int * w as int + w as int)
                    by (nonlinear_arith);
            }
            row = row + 1;
        }
        self.cells = bitset_clone(&self.next);
        proof {
            assert(self.size() == h * w) by (nonlinear_arith)
                requires
                    self.size() == w * h,
            ;
            assert(self.grid() =~= step(
                old(self).grid(),
                old(self).spec_width(),
                old(self).spec_height(),
            ));
        }
    }

    /// Toroidal wrap of `row + delta` into the row range.  Assumes the
    /// magnitude of `delta` stays below the height, so a single correction
    /// suffices.
    fn wrap_row(&self, row: u32, delta: i64) -> (r: u32)
        requires
            row < self.spec_height(),
            -(self.spec_height() as int) < delta < self.spec_height() as int,
        ensures
            r == wrap(row as int, delta as int, self.spec_height() as int),
            r < self.spec_height(),
    {
        let dim = self.height as i64;
        let moved = row as i64 + delta;
        if moved < 0 {
            (moved + dim) as u32
        } else if moved > dim - 1 {
            (moved - dim) as u32
        } else {
            moved as u32
        }
    }

    /// Toroidal wrap of `column + delta` into the column range, under the
    /// same single-correction assumption.
    fn wrap_column(&self, column: u32, delta: i64) -> (c: u32)
        requires
            column < self.spec_width(),
            -(self.spec_width() as int) < delta < self.spec_width() as int,
        ensures
            c == wrap(column as int, delta as int, self.spec_width() as int),
            c < self.spec_width(),
    {
        let dim = self.width as i64;
        let moved = column as i64 + delta;
        if moved < 0 {
            (moved + dim) as u32
        } else if moved > dim - 1 {
            (moved - dim) as u32
        } else {
            moved as u32
        }
    }

    /// Set the single cell at offset `(dr, dc)` from `(row, column)` alive,
    /// both coordinates wrapped toroidally.
    fn stamp_cell(&mut self, row: u32, column: u32, dr: i64, dc: i64)
        requires
            old(self).wf(),
            row < old(self).spec_height(),
            column < old(self).spec_width(),
            -(old(self).spec_height() as int) < dr < old(self).spec_height() as int,
            -(old(self).spec_width() as int) < dc < old(self).spec_width() as int,
        ensures
            final(self).wf(),
            final(self).spec_width() == old(self).spec_width(),
            final(self).spec_height() == old(self).spec_height(),
            final(self).scratch() == old(self).scratch(),
            final(self).grid() == old(self).grid().update(
                wrapped_index(
                    old(self).spec_width(),
                    old(self).spec_height(),
                    row as nat,
                    column as nat,
                    dr as int,
                    dc as int,
                ),
                true,
            ),
    {
        let r = self.wrap_row(row, dr);
        let c = self.wrap_column(column, dc);
        let idx = self.get_index(r, c);
        bitset_set(&mut self.cells, idx, true);
    }

    /// Stamp a glider around `(row, column)`: the five cells at the glider
    /// offsets, wrapped toroidally, become alive; no cell is cleared and the
    /// scratch buffer keeps its state.
    pub fn add_glider(&mut self, row: u32, column: u32)
        requires
            old(self).wf(),
            2 <= old(self).spec_width(),
            2 <= old(self).spec_height(),
            row < old(self).spec_height(),
            column < old(self).spec_width(),
        ensures
            final(self).wf(),
            final(self).spec_width() == old(self).spec_width(),
            final(self).spec_height() == old(self).spec_height(),
            final(self).scratch() == old(self).scratch(),
            final(self).grid().len() == old(self).grid().len(),
            forall|k: int| 0 <= k < old(self).grid().len() && old(self).grid()[k]
                ==> final(self).grid()[k],
            forall|j: int|
                #![trigger glider_delta_at(j)]
                0 <= j < 5 ==> final(self).grid()[wrapped_index(
                    old(self).spec_width(),
                    old(self).spec_height(),
                    row as nat,
                    column as nat,
                    glider_delta_at(j).0,
                    glider_delta_at(j).1,
                )],
            forall|k: int|
                0 <= k < old(self).grid().len() && final(self).grid()[k] && !old(self).grid()[k]
                    ==> exists|j: int|
                    #![trigger glider_delta_at(j)]
                    0 <= j < 5 && k == wrapped_index(
                        old(self).spec_width(),
                        old(self).spec_height(),
                        row as nat,
                        column as nat,
                        glider_delta_at(j).0,
                        glider_delta_at(j).1,
                    ),
    {
        proof {
            assert forall|j: int| #![trigger glider_delta_at(j)] 0 <= j < 5 implies 0 <= wrapped_index(
                old(self).spec_width(),
                old(self).spec_height(),
                row as nat,
                column as nat,
                glider_delta_at(j).0,
                glider_delta_at(j).1,
            ) < old(self).grid().len() by {
                lemma_wrapped_index_in_range(
                    old(self).spec_width(),
                    old(self).spec_height(),
                    row as nat,
                    column as nat,
                    glider_delta_at(j).0,
                    glider_delta_at(j).1,
                );
            }
        }
        self.stamp_cell(row, column, -1, 0);
        self.stamp_cell(row, column, 1, 0);
        self.stamp_cell(row, column, 0, 1);
        self.stamp_cell(row, column, 1, -1);
        self.stamp_cell(row, column, 1, 1);
        proof {
            assert(glider_delta_at(0) == (-1int, 0int));
            assert(glider_delta_at(1) == (1int, 0int));
            assert(glider_delta_at(2) == (0int, 1int));
            assert(glider_delta_at(3) == (1int, -1int));
            assert(glider_delta_at(4) == (1int, 1int));
        }
    }

    /// Stamp a pulsar around `(row, column)`: the 48 cells at the pulsar
    /// offsets (every run/arm pair and its transpose), wrapped toroidally,
    /// become alive; no cell is cleared and the scratch buffer keeps its
    /// state.
    pub fn add_pulsar(&mut self, row: u32, column: u32)
        requires
            old(self).wf(),
            7 <= old(self).spec_width(),
            7 <= old(self).spec_height(),
            row < old(self).spec_height(),
            column < old(self).spec_width(),
        ensures
            final(self).wf(),
            final(self).spec_width() == old(self).spec_width(),
            final(self).spec_height() == old(self).spec_height(),
            final(self).scratch() == old(self).scratch(),
            final(self).grid().len() == old(self).grid().len(),
            forall|k: int| 0 <= k < old(self).grid().len() && old(self).grid()[k]
                ==> final(self).grid()[k],
            forall|dr: int, dc: int|
                #[trigger] pulsar_delta(dr, dc) ==> final(self).grid()[wrapped_index(
                    old(self).spec_width(),
                    old(self).spec_height(),
                    row as nat,
                    column as nat,
                    dr,
                    dc,
                )],
            forall|k: int|
                0 <= k < old(self).grid().len() && final(self).grid()[k] && !old(self).grid()[k]
                    ==> exists|dr: int, dc: int|
                    pulsar_delta(dr, dc) && k == wrapped_index(
                        old(self).spec_width(),
                        old(self).spec_height(),
                        row as nat,
                        column as nat,
                        dr,
                        dc,
                    ),
    {
        let ghost w = old(self).spec_width();
        let ghost h = old(self).spec_height();
        proof {
            assert forall|dr: int, dc: int| #[trigger] pulsar_delta(dr, dc) implies 0
                <= wrapped_index(w, h, row as nat, column as nat, dr, dc) < old(
                self,
            ).grid().len() by {
                lemma_wrapped_index_in_range(w, h, row as nat, column as nat, dr, dc);
            }
        }
        let mut a: usize = 0;
        while a < 4
            invariant
                self.wf(),
                self.spec_width() == w,
                self.spec_height() == h,
                7 <= w,
                7 <= h,
                row < h,
                column < w,
                a <= 4,
                self.scratch() == old(self).scratch(),
                self.grid().len() == old(self).grid().len(),
                forall|dr: int, dc: int|
                    #[trigger] pulsar_delta(dr, dc) ==> 0 <= wrapped_index(
                        w,
                        h,
                        row as nat,
                        column as nat,
                        dr,
                        dc,
                    ) < self.grid().len(),
                forall|k: int| 0 <= k < old(self).grid().len() && old(self).grid()[k]
                    ==> self.grid()[k],
                forall|i2: int, j2: int|
                    #![trigger pulsar_arm_at(i2), pulsar_run_at(j2)]
                    0 <= i2 < a && 0 <= j2 < 6 ==> self.grid()[wrapped_index(
                        w,
                        h,
                        row as nat,
                        column as nat,
                        pulsar_run_at(j2),
                        pulsar_arm_at(i2),
                    )] && self.grid()[wrapped_index(
                        w,
                        h,
                        row as nat,
                        column as nat,
                        pulsar_arm_at(i2),
                        pulsar_run_at(j2),
                    )],
                forall|k: int|
                    0 <= k < old(self).grid().len() && self.grid()[k] && !old(self).grid()[k]
                        ==> exists|dr: int, dc: int|
                        pulsar_delta(dr, dc) && k == wrapped_index(
                            w,
                            h,
                            row as nat,
                            column as nat,
                            dr,
                            dc,
                        ),
            decreases 4 - a,
        {
            let dc = pulsar_arm_delta(a);
            let mut b: usize = 0;
            while b < 6
                invariant
                    self.wf(),
                    self.spec_width() == w,
                    self.spec_height() == h,
                    7 <= w,
                    7 <= h,
                    row < h,
                    column < w,
                    a < 4,
                    b <= 6,
                    dc == pulsar_arm_at(a as int),
                    self.scratch() == old(self).scratch(),
                    self.grid().len() == old(self).grid().len(),
                    forall|dr: int, dc2: int|
                        #[trigger] pulsar_delta(dr, dc2) ==> 0 <= wrapped_index(
                            w,
                            h,
                            row as nat,
                            column as nat,
                            dr,
                            dc2,
                        ) < self.grid().len(),
                    forall|k: int| 0 <= k < old(self).grid().len() && old(self).grid()[k]
                        ==> self.grid()[k],
                    forall|i2: int, j2: int|
                        #![trigger pulsar_arm_at(i2), pulsar_run_at(j2)]
                        0 <= i2 < a && 0 <= j2 < 6 ==> self.grid()[wrapped_index(
                            w,
                            h,
                            row as nat,
                            column as nat,
                            pulsar_run_at(j2),
                            pulsar_arm_at(i2),
                        )] && self.grid()[wrapped_index(
                            w,
                            h,
                            row as nat,
                            column as nat,
                            pulsar_arm_at(i2),
                            pulsar_run_at(j2),
                        )],
                    forall|j2: int|
                        #![trigger pulsar_run_at(j2)]
                        0 <= j2 < b ==> self.grid()[wrapped_index(
                            w,
                            h,
                            row as nat,
                            column as nat,
                            pulsar_run_at(j2),
                            pulsar_arm_at(a as int),
                        )] && self.grid()[wrapped_index(
                            w,
                            h,
                            row as nat,
                            column as nat,
                            pulsar_arm_at(a as int),
                            pulsar_run_at(j2),
                        )],
                    forall|k: int|
                        0 <= k < old(self).grid().len() && self.grid()[k] && !old(self).grid()[k]
                            ==> exists|dr: int, dc2: int|
                            pulsar_delta(dr, dc2) && k == wrapped_index(
                                w,
                                h,
                                row as nat,
                                column as nat,
                                dr,
                                dc2,
                            ),
                decreases 6 - b,
            {
                let dr = pulsar_run_delta(b);
                proof {
                    assert(pulsar_run(dr as int));
                    assert(pulsar_arm(dc as int));
                    assert(pulsar_delta(dr as int, dc as int));
                    assert(pulsar_delta(dc as int, dr as int));
                    assert forall|i2: int, j2: int|
                        #![trigger pulsar_arm_at(i2), pulsar_run_at(j2)]
                        0 <= i2 < 4 && 0 <= j2 < 6 implies {
                        &&& pulsar_delta(pulsar_run_at(j2), pulsar_arm_at(i2))
                        &&& pulsar_delta(pulsar_arm_at(i2), pulsar_run_at(j2))
                        &&& 0 <= wrapped_index(
                            w,
                            h,
                            row as nat,
                            column as nat,
                            pulsar_run_at(j2),
                            pulsar_arm_at(i2),
                        ) < self.grid().len()
                        &&& 0 <= wrapped_index(
                            w,
                            h,
                            row as nat,
                            column as nat,
                            pulsar_arm_at(i2),
                            pulsar_run_at(j2),
                        ) < self.grid().len()
                    } by {
                        lemma_wrapped_index_in_range(
                            w,
                            h,
                            row as nat,
                            column as nat,
                            pulsar_run_at(j2),
                            pulsar_arm_at(i2),
                        );
                        lemma_wrapped_index_in_range(
                            w,
                            h,
                            row as nat,
                            column as nat,
                            pulsar_arm_at(i2),
                            pulsar_run_at(j2),
                        );
                    }
                }
                self.stamp_cell(row, column, dr, dc);
                self.stamp_cell(row, column, dc, dr);
                b = b + 1;
            }
            a = a + 1;
        }
        proof {
            assert forall|dr: int, dc: int| #[trigger] pulsar_delta(dr, dc) implies self.grid()[wrapped_index(
                w,
                h,
                row as nat,
                column as nat,
                dr,
                dc,
            )] by {
                if pulsar_run(dr) && pulsar_arm(dc) {
                    lemma_run_indexed(dr);
                    lemma_arm_indexed(dc);
                    let j2 = choose|j2: int| 0 <= j2 < 6 && pulsar_run_at(j2) == dr;
                    let i2 = choose|i2: int| 0 <= i2 < 4 && pulsar_arm_at(i2) == dc;
                    assert(self.grid()[wrapped_index(
                        w,
                        h,
                        row as nat,
                        column as nat,
                        pulsar_run_at(j2),
                        pulsar_arm_at(i2),
                    )]);
                } else {
                    lemma_run_indexed(dc);
                    lemma_arm_indexed(dr);
                    let j2 = choose|j2: int| 0 <= j2 < 6 && pulsar_run_at(j2) == dc;
                    let i2 = choose|i2: int| 0 <= i2 < 4 && pulsar_arm_at(i2) == dr;
                    assert(self.grid()[wrapped_index(
                        w,
                        h,
                        row as nat,
                        column as nat,
                        pulsar_arm_at(i2),
                        pulsar_run_at(j2),
                    )]);
                }
            }
        }
    }

    /// Read-only view of the packed bit array of the current generation, for
    /// an external renderer.
    pub fn get_cells(&self) -> (r: &FixedBitSet)
        ensures
            bits(*r) == self.grid(),
    {
        &self.cells
    }

    /// Set every listed `(row, col)` cell alive, at its exact coordinates
    /// (no wrap-around); no cell is cleared and the scratch buffer keeps its
    /// state.
    pub fn set_cells(&mut self, cells: &[(u32, u32)])
        requires
            old(self).wf(),
            forall|j: int|
                0 <= j < cells@.len() ==> cells@[j].0 < old(self).spec_height() && cells@[j].1
                    < old(self).spec_width(),
        ensures
            final(self).wf(),
            final(self).spec_width() == old(self).spec_width(),
            final(self).spec_height() == old(self).spec_height(),
            final(self).scratch() == old(self).scratch(),
            final(self).grid().len() == old(self).grid().len(),
            forall|k: int| 0 <= k < old(self).grid().len() && old(self).grid()[k]
                ==> final(self).grid()[k],
            forall|j: int|
                0 <= j < cells@.len() ==> final(self).grid()[linear_index(
                    old(self).spec_width(),
                    cells@[j].0 as nat,
                    cells@[j].1 as nat,
                ) as int],
            forall|k: int|
                0 <= k < old(self).grid().len() && final(self).grid()[k] && !old(self).grid()[k]
                    ==> exists|j: int|
                    0 <= j < cells@.len() && k == linear_index(
                        old(self).spec_width(),
                        cells@[j].0 as nat,
                        cells@[j].1 as nat,
                    ),
    {
        let n = cells.len();
        let mut i: usize = 0;
        while i < n
            invariant
                i <= n,
                n == cells@.len(),
                self.wf(),
                self.spec_width() == old(self).spec_width(),
                self.spec_height() == old(self).spec_height(),
                self.scratch() == old(self).scratch(),
                self.grid().len() == old(self).grid().len(),
                forall|j: int|
                    0 <= j < n ==> cells@[j].0 < self.spec_height() && cells@[j].1
                        < self.spec_width(),
                forall|k: int| 0 <= k < old(self).grid().len() && old(self).grid()[k]
                    ==> self.grid()[k],
                forall|j: int|
                    0 <= j < i ==> self.grid()[linear_index(
                        self.spec_width(),
                        cells@[j].0 as nat,
                        cells@[j].1 as nat,
                    ) as int],
                forall|k: int|
                    0 <= k < old(self).grid().len() && self.grid()[k] && !old(self).grid()[k]
                        ==> exists|j: int|
                        0 <= j < n && k == linear_index(
                            self.spec_width(),
                            cells@[j].0 as nat,
                            cells@[j].1 as nat,
                        ),
            decreases n - i,
        {
            proof {
                assert forall|j: int| 0 <= j < n implies linear_index(
                    self.spec_width(),
                    cells@[j].0 as nat,
                    cells@[j].1 as nat,
                ) < self.grid().len() by {
                    lemma_index_bound(
                        self.spec_width(),
                        self.spec_height(),
                        cells@[j].0 as nat,
                        cells@[j].1 as nat,
                    );
                }
            }
            let pair = cells[i];
            let idx = self.get_index(pair.0, pair.1);
            bitset_set(&mut self.cells, idx, true);
            i = i + 1;
        }
    }
}

} // verus!
