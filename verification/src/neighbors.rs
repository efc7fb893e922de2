//! Two ways of counting a cell's live neighbours, and the proof that they
//! agree with each other and with the model's count.

use crate::grid::{lemma_window, lemma_wrap, unit, wrap, Grid};
use vstd::prelude::*;

verus! {

impl Grid {
    /// The row above `row`; above the first row lies the last.
    pub open spec fn north(self, row: int) -> int {
        if row == 0 {
            self.height - 1
        } else {
            row - 1
        }
    }

    /// The row below `row`; below the last row lies the first.
    pub open spec fn south(self, row: int) -> int {
        if row == self.height - 1 {
            0
        } else {
            row + 1
        }
    }

    /// The column left of `col`; left of the first column lies the last.
    pub open spec fn west(self, col: int) -> int {
        if col == 0 {
            self.width - 1
        } else {
            col - 1
        }
    }

    /// The column right of `col`; right of the last column lies the first.
    pub open spec fn east(self, col: int) -> int {
        if col == self.width - 1 {
            0
        } else {
            col + 1
        }
    }

    /// The neighbour count taken direction by direction, with the edges
    /// handled by case distinction.
    pub open spec fn count_by_directions(self, row: int, col: int) -> nat {
        unit(self.alive(self.north(row), self.west(col))) + unit(self.alive(self.north(row), col))
            + unit(self.alive(self.north(row), self.east(col))) + unit(
            self.alive(row, self.west(col)),
        ) + unit(self.alive(row, self.east(col))) + unit(
            self.alive(self.south(row), self.west(col)),
        ) + unit(self.alive(self.south(row), col)) + unit(
            self.alive(self.south(row), self.east(col)),
        )
    }

    /// The neighbour count taken as the sum over the three by three window
    /// around the cell, with the edges handled by the modulus, less the
    /// cell's own state.
    pub open spec fn count_by_offsets(self, row: int, col: int) -> int {
        self.window(row, col, 9) - unit(self.alive(row, col))
    }
}

/// Stepping by direction and stepping by offset name the same rows and
/// columns.
pub proof fn lemma_directions(grid: Grid, row: int, col: int)
    requires
        grid.has(row, col),
    ensures
        grid.north(row) == wrap(row + (-1), grid.height as int),
        grid.south(row) == wrap(row + 1, grid.height as int),
        grid.west(col) == wrap(col + (-1), grid.width as int),
        grid.east(col) == wrap(col + 1, grid.width as int),
        row == wrap(row + 0, grid.height as int),
        col == wrap(col + 0, grid.width as int),
{
    lemma_wrap(row - 1, grid.height as int);
    lemma_wrap(row + 0, grid.height as int);
    lemma_wrap(row + 1, grid.height as int);
    lemma_wrap(col - 1, grid.width as int);
    lemma_wrap(col + 0, grid.width as int);
    lemma_wrap(col + 1, grid.width as int);
}

/// The two counting strategies give the same count for every cell of every
/// grid, and that count is the number of live cells among the eight toroidal
/// neighbours.
pub proof fn lemma_counting_strategies_agree(grid: Grid, row: int, col: int)
    requires
        grid.wf(),
        grid.has(row, col),
    ensures
        grid.count_by_directions(row, col) == grid.live_neighbors(row, col),
        grid.count_by_offsets(row, col) == grid.live_neighbors(row, col),
        grid.count_by_directions(row, col) == grid.count_by_offsets(row, col),
        grid.live_neighbors(row, col) <= 8,
{
    lemma_directions(grid, row, col);
    lemma_window(grid, row, col);
}

/// The grid wraps around its corners: the upper left cell has the lower
/// right cell as its diagonal neighbour, and the other way round, so a live
/// cell in one corner is counted by the opposite corner.
pub proof fn lemma_corners_are_neighbors(grid: Grid)
    requires
        grid.wf(),
        grid.width > 0,
        grid.height > 0,
    ensures
        grid.neighbor(0, 0, -1, -1) == grid.alive(grid.height - 1, grid.width - 1),
        grid.neighbor(grid.height - 1, grid.width - 1, 1, 1) == grid.alive(0, 0),
        grid.alive(grid.height - 1, grid.width - 1) ==> grid.live_neighbors(0, 0) >= 1,
        grid.alive(0, 0) ==> grid.live_neighbors(grid.height - 1, grid.width - 1) >= 1,
{
    lemma_wrap(-1, grid.height as int);
    lemma_wrap(-1, grid.width as int);
    lemma_wrap(grid.height as int, grid.height as int);
    lemma_wrap(grid.width as int, grid.width as int);
}

} // verus!
