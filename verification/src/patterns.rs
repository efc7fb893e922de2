//! Two classic patterns on the torus: the block, which never changes, and
//! the blinker, which turns a quarter every generation.

use crate::grid::{lemma_position, lemma_step, lemma_wrap, wrap, Grid};
use vstd::prelude::*;

verus! {

/// `(row, col)` lies in the two by two block whose upper left cell is
/// `(top, left)`. A block that starts in the last row or column continues in
/// the first.
pub open spec fn in_block(grid: Grid, top: int, left: int, row: int, col: int) -> bool {
    &&& row == top || row == wrap(top + 1, grid.height as int)
    &&& col == left || col == wrap(left + 1, grid.width as int)
}

/// The grid holds a two by two block at `(top, left)` and no other live
/// cell.
pub open spec fn is_block(grid: Grid, top: int, left: int) -> bool {
    &&& grid.wf()
    &&& grid.has(top, left)
    &&& forall|row: int, col: int|
        grid.has(row, col) ==> (#[trigger] grid.alive(row, col) <==> in_block(
            grid,
            top,
            left,
            row,
            col,
        ))
}

/// On a grid of at least three rows and three columns a lone block is a
/// still life: one generation leaves it as it is.
pub proof fn lemma_block_survives_a_step(grid: Grid, top: int, left: int)
    requires
        is_block(grid, top, left),
        grid.width >= 3,
        grid.height >= 3,
    ensures
        grid.step() == grid,
{
    let w = grid.width as int;
    let h = grid.height as int;
    lemma_step(grid);
    lemma_wrap(top + 1, h);
    lemma_wrap(left + 1, w);
    assert forall|k: int| 0 <= k < grid.cells.len() implies #[trigger] grid.step().cells[k]
        == grid.cells[k] by {
        lemma_position(grid, k);
        let row = k / w;
        let col = k % w;
        lemma_wrap(row - 1, h);
        lemma_wrap(row + 0, h);
        lemma_wrap(row + 1, h);
        lemma_wrap(col - 1, w);
        lemma_wrap(col + 0, w);
        lemma_wrap(col + 1, w);
        assert(grid.cells[k] == grid.alive(row, col));
        assert(grid.next_alive(row, col) == grid.alive(row, col));
    }
    assert(grid.step().cells =~= grid.cells);
}

/// On a grid of at least three rows and three columns a lone block is
/// unchanged by any number of generations.
pub proof fn lemma_block_is_still_life(grid: Grid, top: int, left: int, n: nat)
    requires
        is_block(grid, top, left),
        grid.width >= 3,
        grid.height >= 3,
    ensures
        grid.steps(n) == grid,
    decreases n,
{
    if n > 0 {
        lemma_block_survives_a_step(grid, top, left);
        lemma_block_is_still_life(grid, top, left, (n - 1) as nat);
    }
}

/// `x` is `centre` or one of the two places next to it on a ring of `n`
/// places.
pub open spec fn around(centre: int, x: int, n: nat) -> bool {
    x == centre || x == wrap(centre - 1, n as int) || x == wrap(centre + 1, n as int)
}

/// The grid holds three live cells side by side in one row, with
/// `(row, col)` in the middle, and no other live cell.
pub open spec fn is_horizontal_blinker(grid: Grid, row: int, col: int) -> bool {
    &&& grid.wf()
    &&& grid.has(row, col)
    &&& forall|r: int, c: int|
        grid.has(r, c) ==> (#[trigger] grid.alive(r, c) <==> r == row && around(col, c, grid.width))
}

/// The grid holds three live cells one above the other in one column, with
/// `(row, col)` in the middle, and no other live cell.
pub open spec fn is_vertical_blinker(grid: Grid, row: int, col: int) -> bool {
    &&& grid.wf()
    &&& grid.has(row, col)
    &&& forall|r: int, c: int|
        grid.has(r, c) ==> (#[trigger] grid.alive(r, c) <==> c == col && around(
            row,
            r,
            grid.height,
        ))
}

/// On a grid of at least four rows and four columns a horizontal blinker
/// stands upright after one generation, around the same middle cell.
pub proof fn lemma_blinker_rises(grid: Grid, row: int, col: int)
    requires
        is_horizontal_blinker(grid, row, col),
        grid.width >= 4,
        grid.height >= 4,
    ensures
        is_vertical_blinker(grid.step(), row, col),
{
    let w = grid.width as int;
    let h = grid.height as int;
    lemma_step(grid);
    lemma_wrap(row - 1, h);
    lemma_wrap(row + 1, h);
    lemma_wrap(col - 1, w);
    lemma_wrap(col + 1, w);
    assert forall|r: int, c: int| grid.has(r, c) implies (#[trigger] grid.step().alive(r, c) <==> c
        == col && around(row, r, grid.height)) by {
        lemma_wrap(r - 1, h);
        lemma_wrap(r + 0, h);
        lemma_wrap(r + 1, h);
        lemma_wrap(c - 1, w);
        lemma_wrap(c + 0, w);
        lemma_wrap(c + 1, w);
        assert(grid.step().alive(r, c) == grid.next_alive(r, c));
    }
}

/// On a grid of at least four rows and four columns an upright blinker lies
/// flat after one generation, around the same middle cell.
pub proof fn lemma_blinker_falls(grid: Grid, row: int, col: int)
    requires
        is_vertical_blinker(grid, row, col),
        grid.width >= 4,
        grid.height >= 4,
    ensures
        is_horizontal_blinker(grid.step(), row, col),
{
    let w = grid.width as int;
    let h = grid.height as int;
    lemma_step(grid);
    lemma_wrap(row - 1, h);
    lemma_wrap(row + 1, h);
    lemma_wrap(col - 1, w);
    lemma_wrap(col + 1, w);
    assert forall|r: int, c: int| grid.has(r, c) implies (#[trigger] grid.step().alive(r, c) <==> r
        == row && around(col, c, grid.width)) by {
        lemma_wrap(r - 1, h);
        lemma_wrap(r + 0, h);
        lemma_wrap(r + 1, h);
        lemma_wrap(c - 1, w);
        lemma_wrap(c + 0, w);
        lemma_wrap(c + 1, w);
        assert(grid.step().alive(r, c) == grid.next_alive(r, c));
    }
}

/// Two grids of the same dimensions with the same live cells are the same
/// grid.
pub proof fn lemma_same_cells(a: Grid, b: Grid)
    requires
        a.wf(),
        b.wf(),
        a.width == b.width,
        a.height == b.height,
        forall|r: int, c: int| a.has(r, c) ==> #[trigger] a.alive(r, c) == b.alive(r, c),
    ensures
        a == b,
{
    assert forall|k: int| 0 <= k < a.cells.len() implies a.cells[k] == b.cells[k] by {
        lemma_position(a, k);
        lemma_position(b, k);
        let r = k / a.width as int;
        let c = k % a.width as int;
        assert(a.alive(r, c) == b.alive(r, c));
    }
    assert(a.cells =~= b.cells);
}

/// On a grid of at least four rows and four columns a blinker oscillates
/// with period two: flat, upright, and flat again as it was.
pub proof fn lemma_blinker_oscillates(grid: Grid, row: int, col: int)
    requires
        is_horizontal_blinker(grid, row, col),
        grid.width >= 4,
        grid.height >= 4,
    ensures
        is_vertical_blinker(grid.steps(1), row, col),
        grid.steps(2) == grid,
{
    reveal_with_fuel(Grid::steps, 3);
    lemma_blinker_rises(grid, row, col);
    lemma_step(grid);
    lemma_blinker_falls(grid.step(), row, col);
    lemma_step(grid.step());
    lemma_same_cells(grid.step().step(), grid);
}

} // verus!
