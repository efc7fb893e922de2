//! The executable engine: a `Universe` keeps its cells in a packed bit set
//! and advances them one generation at a time.

use crate::bitset::{bits_of, packs, set_range};
use crate::engine::EngineState;
use crate::grid::{
    lemma_index, lemma_index_order, lemma_revived_one_more, lemma_window, lemma_wrap, rule, unit,
    wrap, Grid,
};
use crate::neighbors::lemma_counting_strategies_agree;
use fixedbitset::FixedBitSet;
use vstd::prelude::*;

verus! {

/// A toroidal grid of cells together with a snapshot of the cells it was
/// built with.
pub struct Universe {
    width: u32,
    height: u32,
    /// One bit for each cell, row by row.
    cells: FixedBitSet,
    /// The cells as they were when the universe was built.
    init_states: FixedBitSet,
}

impl View for Universe {
    type V = EngineState;

    closed spec fn view(&self) -> EngineState {
        EngineState {
            grid: Grid {
                width: self.width as nat,
                height: self.height as nat,
                cells: bits_of(self.cells),
            },
            snapshot: bits_of(self.init_states),
        }
    }
}

/// Decides a cell's next state from its state and the number of its live
/// neighbours: a live cell with fewer than two or more than three dies, a
/// dead cell with exactly three is born, and any other cell stays as it is.
pub fn next_state(alive: bool, live_neighbors: u8) -> (next: bool)
    ensures
        next == rule(alive, live_neighbors as int),
{
    match (alive, live_neighbors) {
        (true, n) if n < 2 => false,
        (true, n) if n > 3 => false,
        (false, 3) => true,
        (otherwise, _) => otherwise,
    }
}

impl Universe {
    /// Both buffers hold one bit for each position, and the positions can be
    /// counted in a `usize`.
    pub open spec fn wf(&self) -> bool {
        &&& self@.wf()
        &&& self@.grid.cells.len() <= usize::MAX
    }

    /// An all-dead universe of the given height and width.
    pub fn new(height: u32, width: u32) -> (universe: Self)
        requires
            width * height <= usize::MAX,
        ensures
            universe.wf(),
            universe@ == EngineState::blank(width as nat, height as nat),
    {
        let size = (width as usize) * (height as usize);
        let cells = FixedBitSet::with_capacity(size);
        let init_states = cells.clone();
        let universe = Universe { width, height, cells, init_states };
        assert(universe@.grid.cells =~= Grid::dead(width as nat, height as nat).cells);
        universe
    }

    /// A universe of 64 rows and 64 columns in which the cell at storage
    /// place `i` is alive exactly when `i` is a multiple of two or of seven.
    pub fn new_fixed() -> (universe: Self)
        ensures
            universe.wf(),
            universe@ == EngineState::fresh(Grid::patterned(64, 64)),
    {
        let width = 64u32;
        let height = 64u32;
        let size = (width * height) as usize;

        let mut cells = FixedBitSet::with_capacity(size);
        for i in 0..size
            invariant
                size == 4096,
                bits_of(cells).len() == size,
                forall|k: int| 0 <= k < i ==> bits_of(cells)[k] == (k % 2 == 0 || k % 7 == 0),
        {
            cells.set(i, i % 2 == 0 || i % 7 == 0);
        }
        let init_states = cells.clone();

        let universe = Universe { width, height, cells, init_states };
        assert(universe@.grid.cells =~= Grid::patterned(64, 64).cells);
        universe
    }

    /// A universe of 64 rows and 64 columns seeded from a run of random
    /// draws, one for each cell in storage order: the cell is alive exactly
    /// when its draw came out in the upper half.
    pub fn new_randomized(draws: &[bool]) -> (universe: Self)
        requires
            draws@.len() == 64 * 64,
        ensures
            universe.wf(),
            universe@ == EngineState::fresh(Grid { width: 64, height: 64, cells: draws@ }),
    {
        let width = 64u32;
        let height = 64u32;
        let size = (width * height) as usize;

        let mut cells = FixedBitSet::with_capacity(size);

        for i in 0..size
            invariant
                size == 4096,
                draws@.len() == size,
                bits_of(cells).len() == size,
                forall|k: int| 0 <= k < i ==> bits_of(cells)[k] == draws@[k],
        {
            cells.set(i, draws[i]);
        }
        let init_states = cells.clone();

        let universe = Universe { width, height, cells, init_states };
        assert(universe@.grid.cells =~= draws@);
        universe
    }

    /// Set the width of the universe.
    ///
    /// The universe is rebuilt at the new size with every cell dead, and the
    /// snapshot with it.
    pub fn set_width(&mut self, width: u32)
        requires
            old(self).wf(),
            width * old(self)@.grid.height <= usize::MAX,
        ensures
            final(self).wf(),
            final(self)@ == EngineState::blank(width as nat, old(self)@.grid.height),
    {
        self.width = width;
        self.rebuild();
    }

    /// Set the height of the universe.
    ///
    /// The universe is rebuilt at the new size with every cell dead, and the
    /// snapshot with it.
    pub fn set_height(&mut self, height: u32)
        requires
            old(self).wf(),
            old(self)@.grid.width * height <= usize::MAX,
        ensures
            final(self).wf(),
            final(self)@ == EngineState::blank(old(self)@.grid.width, height as nat),
    {
        self.height = height;
        self.rebuild();
    }

    /// Replaces both buffers by all-dead ones that fit the dimensions.
    fn rebuild(&mut self)
        requires
            old(self).width * old(self).height <= usize::MAX,
        ensures
            final(self).wf(),
            final(self)@ == EngineState::blank(old(self).width as nat, old(self).height as nat),
    {
        let size = self.width as usize * self.height as usize;
        self.cells = FixedBitSet::with_capacity(size);
        self.init_states = self.cells.clone();
        assert(self@.grid.cells =~= Grid::dead(self.width as nat, self.height as nat).cells);
    }

    /// The number of columns.
    pub fn width(&self) -> (width: u32)
        ensures
            width == self@.grid.width,
    {
        self.width
    }

    /// The number of rows.
    pub fn height(&self) -> (height: u32)
        ensures
            height == self@.grid.height,
    {
        self.height
    }

    /// The place of a cell in the bit set.
    fn get_index(&self, row: u32, column: u32) -> (idx: usize)
        requires
            self.wf(),
            self@.grid.has(row as int, column as int),
        ensures
            idx == self@.grid.index(row as int, column as int),
            idx < self@.grid.cells.len(),
    {
        proof {
            reveal(Grid::index);
            lemma_index(self@.grid, row as int, column as int);
            assert(0 <= row * self.width) by (nonlinear_arith);
        }
        row as usize * self.width as usize + column as usize
    }

    /// Whether the cell at `(row, column)` is alive.
    pub fn is_alive(&self, row: u32, column: u32) -> (alive: bool)
        requires
            self.wf(),
            self@.grid.has(row as int, column as int),
        ensures
            alive == self@.grid.alive(row as int, column as int),
    {
        let idx = self.get_index(row, column);
        self.cells.contains(idx)
    }

    /// One for a live cell, zero for a dead one.
    fn live_at(&self, row: u32, column: u32) -> (count: u8)
        requires
            self.wf(),
            self@.grid.has(row as int, column as int),
        ensures
            count == unit(self@.grid.alive(row as int, column as int)),
    {
        let idx = self.get_index(row, column);
        self.cells.contains(idx) as u8
    }

    /// Counts the live neighbours of a cell by looking up each of the eight
    /// directions. At an edge the row or column before the first is the last,
    /// and the one after the last is the first: subtracting one from row or
    /// column zero would underflow, so the edges are told apart first.
    pub fn live_neighbor_count(&self, row: u32, column: u32) -> (count: u8)
        requires
            self.wf(),
            self@.grid.has(row as int, column as int),
        ensures
            count == self@.grid.live_neighbors(row as int, column as int),
            count == self@.grid.count_by_directions(row as int, column as int),
            count <= 8,
    {
        let mut count: u8 = 0;

        let north = if row == 0 {
            self.height - 1
        } else {
            row - 1
        };

        let south = if row == self.height - 1 {
            0
        } else {
            row + 1
        };

        let west = if column == 0 {
            self.width - 1
        } else {
            column - 1
        };

        let east = if column == self.width - 1 {
            0
        } else {
            column + 1
        };

        assert(north == self@.grid.north(row as int) && south == self@.grid.south(row as int));
        assert(west == self@.grid.west(column as int) && east == self@.grid.east(column as int));

        count += self.live_at(north, west);
        count += self.live_at(north, column);
        count += self.live_at(north, east);
        count += self.live_at(row, west);
        count += self.live_at(row, east);
        count += self.live_at(south, west);
        count += self.live_at(south, column);
        count += self.live_at(south, east);

        proof {
            lemma_counting_strategies_agree(self@.grid, row as int, column as int);
        }
        count
    }

    /// Counts the live neighbours of a cell by walking the three by three
    /// window around it, each coordinate taken modulo the dimension, and then
    /// taking the cell's own state off the sum.
    pub fn live_neighbor_count_by_offsets(&self, row: u32, column: u32) -> (count: u8)
        requires
            self.wf(),
            self@.grid.has(row as int, column as int),
        ensures
            count == self@.grid.live_neighbors(row as int, column as int),
            count == self@.grid.count_by_offsets(row as int, column as int),
            count <= 8,
    {
        let mut count: u8 = 0;
        // The offsets -1, 0 and 1 are held as 0, 1 and 2, so that adding the
        // dimension before taking the modulus never goes below zero.
        for d_row in 0..3u64
            invariant
                self.wf(),
                self@.grid.has(row as int, column as int),
                count == self@.grid.window(row as int, column as int, (3 * d_row) as nat),
                count <= 3 * d_row,
        {
            for d_col in 0..3u64
                invariant
                    self.wf(),
                    self@.grid.has(row as int, column as int),
                    d_row < 3,
                    count == self@.grid.window(
                        row as int,
                        column as int,
                        (3 * d_row + d_col) as nat,
                    ),
                    count <= 3 * d_row + d_col,
            {
                proof {
                    lemma_wrap(row + (d_row - 1), self.height as int);
                    lemma_wrap(column + (d_col - 1), self.width as int);
                    reveal(wrap);
                }
                let height = self.height as u64;
                let width = self.width as u64;
                let neighbor_row = (row as u64 + d_row + height - 1) % height;
                let neighbor_col = (column as u64 + d_col + width - 1) % width;
                assert(neighbor_row == wrap(row + (d_row - 1), self.height as int));
                assert(neighbor_col == wrap(column + (d_col - 1), self.width as int));
                count += self.live_at(neighbor_row as u32, neighbor_col as u32);
            }
        }
        proof {
            lemma_window(self@.grid, row as int, column as int);
        }
        count - self.live_at(row, column)
    }

    /// Advances the universe by one generation. Every cell's next state is
    /// computed from the generation before into a second buffer, which then
    /// replaces the first.
    pub fn tick(&mut self)
        requires
            old(self).wf(),
        ensures
            final(self).wf(),
            final(self)@ == old(self)@.tick(),
    {
        let mut next = self.cells.clone();
        let ghost before = self@.grid;
        proof {
            lemma_index_order(before, 0, 0);
        }

        for row in 0..self.height
            invariant
                self.wf(),
                self@.grid == before,
                bits_of(next).len() == before.cells.len(),
                forall|k: int|
                    0 <= k < before.index(row as int, 0) ==> bits_of(next)[k]
                        == before.step().cells[k],
        {
            for col in 0..self.width
                invariant
                    self.wf(),
                    self@.grid == before,
                    row < self.height,
                    bits_of(next).len() == before.cells.len(),
                    forall|k: int|
                        0 <= k < before.index(row as int, col as int) ==> bits_of(next)[k]
                            == before.step().cells[k],
            {
                let live_neighbors = self.live_neighbor_count(row, col);
                let idx = self.get_index(row, col);
                let cell = self.cells.contains(idx);
                proof {
                    lemma_index(before, row as int, col as int);
                    lemma_index_order(before, row as int, col as int);
                }
                next.set(idx, next_state(cell, live_neighbors));
            }
            proof {
                lemma_index_order(before, row as int, 0);
            }
        }

        proof {
            lemma_index_order(before, 0, 0);
            assert(bits_of(next) =~= before.step().cells);
        }
        self.cells = next;
    }

    /// Inverts the cell at `(row, column)` and no other.
    pub fn toggle_cell(&mut self, row: u32, column: u32)
        requires
            old(self).wf(),
            old(self)@.grid.has(row as int, column as int),
        ensures
            final(self).wf(),
            final(self)@ == old(self)@.toggle(row as int, column as int),
    {
        let idx = self.get_index(row, column);
        self.cells.toggle(idx);
    }

    /// Set cells to be alive in a universe by passing the row and column
    /// of each cell as an array. Cells that are not listed stay as they are.
    pub fn set_cells(&mut self, cells: &[(u32, u32)])
        requires
            old(self).wf(),
            forall|i: int|
                0 <= i < cells@.len() ==> old(self)@.grid.has(
                    (#[trigger] cells@[i]).0 as int,
                    cells@[i].1 as int,
                ),
        ensures
            final(self).wf(),
            final(self)@ == old(self)@.revive(cells@),
    {
        let ghost before = self@.grid;
        assert(self@.grid.cells =~= before.revived(cells@.take(0)).cells);
        for i in 0..cells.len()
            invariant
                self.wf(),
                self@.snapshot == old(self)@.snapshot,
                self@.grid.width == before.width,
                self@.grid.height == before.height,
                before.wf(),
                forall|j: int|
                    0 <= j < cells@.len() ==> before.has(
                        (#[trigger] cells@[j]).0 as int,
                        cells@[j].1 as int,
                    ),
                self@.grid.cells == before.revived(cells@.take(i as int)).cells,
        {
            let (row, col) = cells[i];
            let idx = self.get_index(row, col);
            proof {
                lemma_revived_one_more(before, cells@, i as int);
                assert(idx == before.index(row as int, col as int)) by {
                    reveal(Grid::index);
                }
            }
            self.cells.set(idx, true);
        }
        assert(cells@.take(cells@.len() as int) =~= cells@);
    }

    /// Reset all cells to dead, keeping the dimensions.
    pub fn reset_cells(&mut self)
        requires
            old(self).wf(),
        ensures
            final(self).wf(),
            final(self)@ == old(self)@.clear(),
    {
        let size = self.width as usize * self.height as usize;
        set_range(&mut self.cells, 0, size, false);
        assert(self@.grid.cells =~= old(self)@.clear().grid.cells);
    }

    /// Reset to the initial state.
    pub fn reset_init_state(&mut self)
        requires
            old(self).wf(),
        ensures
            final(self).wf(),
            final(self)@ == old(self)@.restore(),
    {
        self.cells = self.init_states.clone();
    }

    /// The live grid as a bit set.
    pub fn get_cells(&self) -> (set: &FixedBitSet)
        ensures
            bits_of(*set) == self@.grid.cells,
    {
        &self.cells
    }

    /// The packed words of the live grid, row by row.
    pub fn cells(&self) -> (words: &[usize])
        ensures
            packs(words@, self@.grid.cells),
    {
        self.cells.as_slice()
    }

    /// The packed words of the snapshot, row by row.
    pub fn init_states(&self) -> (words: &[usize])
        ensures
            packs(words@, self@.snapshot),
    {
        self.init_states.as_slice()
    }
}

} // verus!
