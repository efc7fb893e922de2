//! The mathematical model of the automaton: a toroidal grid of cells, the
//! neighbour count, the birth/survival rule and the generation step.

use vstd::arithmetic::div_mod::{lemma_fundamental_div_mod, lemma_fundamental_div_mod_converse};
use vstd::prelude::*;

verus! {

/// Position `x` folded onto a ring of `n` places. For `-1 <= x <= n` this is
/// the place one before, at or one after `x` on the ring.
#[verifier::opaque]
pub open spec fn wrap(x: int, n: int) -> int {
    (x + n) % n
}

/// A live cell counts one, a dead cell none.
pub open spec fn unit(alive: bool) -> nat {
    if alive {
        1
    } else {
        0
    }
}

/// The birth/survival rule: a cell lives in the next generation exactly when
/// it has three live neighbours, or is alive now and has two.
pub open spec fn rule(alive: bool, live_neighbors: int) -> bool {
    live_neighbors == 3 || (alive && live_neighbors == 2)
}

/// A grid of `height` rows and `width` columns, stored row by row.
#[verifier::ext_equal]
pub struct Grid {
    pub width: nat,
    pub height: nat,
    pub cells: Seq<bool>,
}

impl Grid {
    /// The storage holds one cell for each position.
    pub open spec fn wf(self) -> bool {
        self.cells.len() == self.width * self.height
    }

    /// `(row, col)` names a position of the grid.
    pub open spec fn has(self, row: int, col: int) -> bool {
        0 <= row < self.height && 0 <= col < self.width
    }

    /// The place of `(row, col)` in the row-major storage.
    #[verifier::opaque]
    pub open spec fn index(self, row: int, col: int) -> int {
        row * self.width + col
    }

    /// Whether the cell at `(row, col)` is alive.
    pub open spec fn alive(self, row: int, col: int) -> bool {
        self.cells[self.index(row, col)]
    }

    /// The state of the cell `d_row` rows and `d_col` columns away from
    /// `(row, col)`, with both coordinates wrapping around the edges.
    pub open spec fn neighbor(self, row: int, col: int, d_row: int, d_col: int) -> bool {
        self.alive(wrap(row + d_row, self.height as int), wrap(col + d_col, self.width as int))
    }

    /// The number of live cells among the eight toroidal neighbours of
    /// `(row, col)`.
    pub open spec fn live_neighbors(self, row: int, col: int) -> nat {
        unit(self.neighbor(row, col, -1, -1)) + unit(self.neighbor(row, col, -1, 0)) + unit(
            self.neighbor(row, col, -1, 1),
        ) + unit(self.neighbor(row, col, 0, -1)) + unit(self.neighbor(row, col, 0, 1)) + unit(
            self.neighbor(row, col, 1, -1),
        ) + unit(self.neighbor(row, col, 1, 0)) + unit(self.neighbor(row, col, 1, 1))
    }

    /// The number of live cells among the first `n` cells of the three by
    /// three window centred on `(row, col)`, taken row by row from its upper
    /// left corner; the centre itself is the fifth.
    pub open spec fn window(self, row: int, col: int, n: nat) -> nat
        decreases n,
    {
        if n == 0 {
            0
        } else {
            self.window(row, col, (n - 1) as nat) + unit(
                self.neighbor(row, col, (n - 1) / 3 - 1, (n - 1) % 3 - 1),
            )
        }
    }

    /// The state of `(row, col)` one generation later.
    pub open spec fn next_alive(self, row: int, col: int) -> bool {
        rule(self.alive(row, col), self.live_neighbors(row, col) as int)
    }

    /// The next generation: every cell is decided from this grid alone.
    pub open spec fn step(self) -> Grid {
        Grid {
            width: self.width,
            height: self.height,
            cells: Seq::new(
                self.cells.len(),
                |k: int| self.next_alive(k / self.width as int, k % self.width as int),
            ),
        }
    }

    /// The grid `n` generations later.
    pub open spec fn steps(self, n: nat) -> Grid
        decreases n,
    {
        if n == 0 {
            self
        } else {
            self.step().steps((n - 1) as nat)
        }
    }

    /// The grid with the cell at `(row, col)` inverted.
    pub open spec fn toggled(self, row: int, col: int) -> Grid {
        Grid {
            width: self.width,
            height: self.height,
            cells: self.cells.update(self.index(row, col), !self.alive(row, col)),
        }
    }

    /// `(row, col)` is one of the listed coordinates.
    pub open spec fn lists(coords: Seq<(u32, u32)>, row: int, col: int) -> bool {
        exists|i: int|
            0 <= i < coords.len() && (#[trigger] coords[i]).0 == row && coords[i].1 == col
    }

    /// The grid with every listed cell alive and all others as they were.
    pub open spec fn revived(self, coords: Seq<(u32, u32)>) -> Grid {
        Grid {
            width: self.width,
            height: self.height,
            cells: Seq::new(
                self.cells.len(),
                |k: int|
                    self.cells[k] || Self::lists(
                        coords,
                        k / self.width as int,
                        k % self.width as int,
                    ),
            ),
        }
    }

    /// The grid whose cell at storage place `k` is alive exactly when `k` is
    /// a multiple of two or of seven.
    pub open spec fn patterned(width: nat, height: nat) -> Grid {
        Grid { width, height, cells: Seq::new(width * height, |k: int| k % 2 == 0 || k % 7 == 0) }
    }

    /// The all-dead grid of the given dimensions.
    pub open spec fn dead(width: nat, height: nat) -> Grid {
        Grid { width, height, cells: Seq::new(width * height, |k: int| false) }
    }
}

/// On a ring of `n` places, stepping back from place 0 lands on the last
/// place, stepping forward from the last place lands on place 0, and every
/// other step stays in range.
pub proof fn lemma_wrap(x: int, n: int)
    requires
        0 < n,
        -1 <= x <= n,
    ensures
        wrap(x, n) == if x == -1 {
            n - 1
        } else if x == n {
            0
        } else {
            x
        },
        0 <= wrap(x, n) < n,
{
    reveal(wrap);
    if x == -1 {
        lemma_fundamental_div_mod_converse(x + n, n, 0, n - 1);
    } else if x == n {
        lemma_fundamental_div_mod_converse(x + n, n, 2, 0);
    } else {
        lemma_fundamental_div_mod_converse(x + n, n, 1, x);
    }
}

/// The three by three window around a cell holds the cell and its eight
/// neighbours: the window's count less the cell's own state is the neighbour
/// count.
pub proof fn lemma_window(grid: Grid, row: int, col: int)
    requires
        grid.wf(),
        grid.has(row, col),
    ensures
        grid.window(row, col, 9) == grid.live_neighbors(row, col) + unit(grid.alive(row, col)),
{
    lemma_wrap(row + 0, grid.height as int);
    lemma_wrap(col + 0, grid.width as int);
    reveal_with_fuel(Grid::window, 10);
}

/// A position of the grid has a place in the storage, and the place
/// determines the position.
pub proof fn lemma_index(grid: Grid, row: int, col: int)
    requires
        grid.wf(),
        grid.has(row, col),
    ensures
        0 <= grid.index(row, col) < grid.cells.len(),
        grid.index(row, col) / grid.width as int == row,
        grid.index(row, col) % grid.width as int == col,
{
    reveal(Grid::index);
    let w = grid.width as int;
    let h = grid.height as int;
    assert(0 <= row * w && row * w + w <= w * h) by (nonlinear_arith)
        requires
            0 <= row < h,
            0 < w,
    ;
    lemma_fundamental_div_mod_converse(row * w + col, w, row, col);
}

/// Places run on from one row to the next: a position is followed by its
/// right-hand neighbour, and the end of a row by the start of the next.
pub proof fn lemma_index_order(grid: Grid, row: int, col: int)
    ensures
        grid.index(row, col + 1) == grid.index(row, col) + 1,
        grid.index(row, grid.width as int) == grid.index(row + 1, 0),
        grid.index(0, 0) == 0,
        grid.index(grid.height as int, 0) == grid.width * grid.height,
{
    reveal(Grid::index);
    let w = grid.width as int;
    let h = grid.height as int;
    assert(row * w + w == (row + 1) * w) by (nonlinear_arith);
    assert(h * w == w * h) by (nonlinear_arith);
}

/// Every place in the storage belongs to exactly one position of the grid.
pub proof fn lemma_position(grid: Grid, k: int)
    requires
        grid.wf(),
        0 <= k < grid.cells.len(),
    ensures
        grid.has(k / grid.width as int, k % grid.width as int),
        grid.index(k / grid.width as int, k % grid.width as int) == k,
{
    reveal(Grid::index);
    let w = grid.width as int;
    let h = grid.height as int;
    assert(w > 0) by (nonlinear_arith)
        requires
            0 <= k < w * h,
            0 <= w,
            0 <= h,
    ;
    lemma_fundamental_div_mod(k, w);
    let q = k / w;
    let r = k % w;
    assert(0 <= q < h) by (nonlinear_arith)
        requires
            k == w * q + r,
            0 <= r < w,
            0 <= k < w * h,
    ;
    assert(q * w == w * q) by (nonlinear_arith);
}

/// Reviving the first `n + 1` listed cells is reviving the first `n` and then
/// setting the cell that comes next in the list.
pub proof fn lemma_revived_one_more(grid: Grid, coords: Seq<(u32, u32)>, n: int)
    requires
        grid.wf(),
        0 <= n < coords.len(),
        grid.has(coords[n].0 as int, coords[n].1 as int),
    ensures
        grid.revived(coords.take(n + 1)).cells == grid.revived(coords.take(n)).cells.update(
            grid.index(coords[n].0 as int, coords[n].1 as int),
            true,
        ),
{
    let (row, col) = (coords[n].0 as int, coords[n].1 as int);
    let place = grid.index(row, col);
    let shorter = coords.take(n);
    let longer = coords.take(n + 1);
    let w = grid.width as int;
    lemma_index(grid, row, col);
    assert forall|k: int| 0 <= k < grid.cells.len() implies #[trigger] grid.revived(
        longer,
    ).cells[k] == grid.revived(shorter).cells.update(place, true)[k] by {
        lemma_position(grid, k);
        if k == place {
            assert(longer[n] == coords[n]);
            assert(Grid::lists(longer, k / w, k % w));
        } else {
            if Grid::lists(longer, k / w, k % w) {
                let i = choose|i: int|
                    0 <= i < longer.len() && (#[trigger] longer[i]).0 == k / w && longer[i].1 == k
                        % w;
                assert(i != n);
                assert(shorter[i] == longer[i]);
                assert(Grid::lists(shorter, k / w, k % w));
            }
            if Grid::lists(shorter, k / w, k % w) {
                let i = choose|i: int|
                    0 <= i < shorter.len() && (#[trigger] shorter[i]).0 == k / w && shorter[i].1
                        == k % w;
                assert(longer[i] == shorter[i]);
                assert(Grid::lists(longer, k / w, k % w));
            }
        }
    }
    assert(grid.revived(longer).cells =~= grid.revived(shorter).cells.update(place, true));
}

/// Reviving a list of cells brings exactly those cells to life: a position is
/// alive afterwards when it was alive before or is listed, and the
/// dimensions stay.
pub proof fn lemma_revived(grid: Grid, coords: Seq<(u32, u32)>)
    requires
        grid.wf(),
    ensures
        grid.revived(coords).wf(),
        grid.revived(coords).width == grid.width,
        grid.revived(coords).height == grid.height,
        forall|row: int, col: int|
            grid.has(row, col) ==> #[trigger] grid.revived(coords).alive(row, col) == (grid.alive(
                row,
                col,
            ) || Grid::lists(coords, row, col)),
{
    assert forall|row: int, col: int| grid.has(row, col) implies #[trigger] grid.revived(
        coords,
    ).alive(row, col) == (grid.alive(row, col) || Grid::lists(coords, row, col)) by {
        lemma_index(grid, row, col);
        assert(grid.revived(coords).index(row, col) == grid.index(row, col)) by {
            reveal(Grid::index);
        }
    }
}

/// A generation keeps the dimensions, and decides each cell by the rule from
/// the cell and its neighbours in the grid before.
pub proof fn lemma_step(grid: Grid)
    requires
        grid.wf(),
    ensures
        grid.step().wf(),
        grid.step().width == grid.width,
        grid.step().height == grid.height,
        forall|row: int, col: int|
            grid.has(row, col) ==> #[trigger] grid.step().alive(row, col) == grid.next_alive(
                row,
                col,
            ),
{
    assert forall|row: int, col: int| grid.has(row, col) implies #[trigger] grid.step().alive(
        row,
        col,
    ) == grid.next_alive(row, col) by {
        lemma_index(grid, row, col);
        assert(grid.step().index(row, col) == grid.index(row, col)) by {
            reveal(Grid::index);
        }
    }
}

} // verus!
