//! The engine as a mathematical state: the live grid and the snapshot taken
//! when the grid was last built, with one transition for each operation.

use crate::bitset::{packed_bit, packs};
use crate::grid::{lemma_index, lemma_step, Grid};
use vstd::prelude::*;

verus! {

/// What an engine holds: the grid that evolves and the snapshot that a
/// restore brings back.
#[verifier::ext_equal]
pub struct EngineState {
    pub grid: Grid,
    pub snapshot: Seq<bool>,
}

impl EngineState {
    /// The grid is well formed and the snapshot has a cell for each of its
    /// positions.
    pub open spec fn wf(self) -> bool {
        self.grid.wf() && self.snapshot.len() == self.grid.cells.len()
    }

    /// An engine just built around `grid`: the snapshot is the grid itself.
    pub open spec fn fresh(grid: Grid) -> EngineState {
        EngineState { grid, snapshot: grid.cells }
    }

    /// One generation passes; the snapshot is untouched.
    pub open spec fn tick(self) -> EngineState {
        EngineState { grid: self.grid.step(), snapshot: self.snapshot }
    }

    /// One cell is inverted; the snapshot is untouched.
    pub open spec fn toggle(self, row: int, col: int) -> EngineState {
        EngineState { grid: self.grid.toggled(row, col), snapshot: self.snapshot }
    }

    /// The listed cells come alive; the snapshot is untouched.
    pub open spec fn revive(self, coords: Seq<(u32, u32)>) -> EngineState {
        EngineState { grid: self.grid.revived(coords), snapshot: self.snapshot }
    }

    /// Every cell dies; dimensions and snapshot are untouched.
    pub open spec fn clear(self) -> EngineState {
        EngineState { grid: Grid::dead(self.grid.width, self.grid.height), snapshot: self.snapshot }
    }

    /// The snapshot becomes the live grid again.
    pub open spec fn restore(self) -> EngineState {
        EngineState {
            grid: Grid { width: self.grid.width, height: self.grid.height, cells: self.snapshot },
            snapshot: self.snapshot,
        }
    }

    /// An engine just built all-dead at the given dimensions: a dimension
    /// change leaves this behind, snapshot included.
    pub open spec fn blank(width: nat, height: nat) -> EngineState {
        Self::fresh(Grid::dead(width, height))
    }
}

/// One change that leaves the dimensions and the snapshot alone.
pub enum Edit {
    /// One generation passes.
    Tick,
    /// The cell at `(row, col)` is inverted.
    Toggle { row: int, col: int },
    /// The listed cells come alive.
    Revive { coords: Seq<(u32, u32)> },
    /// Every cell dies.
    Clear,
}

impl EngineState {
    /// The edit names only positions of this engine's grid.
    pub open spec fn admits(self, edit: Edit) -> bool {
        match edit {
            Edit::Toggle { row, col } => self.grid.has(row, col),
            Edit::Revive { coords } => forall|i: int|
                0 <= i < coords.len() ==> self.grid.has(
                    (#[trigger] coords[i]).0 as int,
                    coords[i].1 as int,
                ),
            _ => true,
        }
    }

    /// The state after one edit.
    pub open spec fn apply(self, edit: Edit) -> EngineState {
        match edit {
            Edit::Tick => self.tick(),
            Edit::Toggle { row, col } => self.toggle(row, col),
            Edit::Revive { coords } => self.revive(coords),
            Edit::Clear => self.clear(),
        }
    }

    /// The state after a run of edits, first to last.
    pub open spec fn run(self, edits: Seq<Edit>) -> EngineState
        decreases edits.len(),
    {
        if edits.len() == 0 {
            self
        } else {
            self.run(edits.drop_last()).apply(edits.last())
        }
    }
}

/// The next generation is decided by the grid alone: engines that hold the
/// same grid hold the same grid after a tick, whatever else they hold.
pub proof fn lemma_tick_is_deterministic(a: EngineState, b: EngineState)
    requires
        a.grid == b.grid,
    ensures
        a.tick().grid == b.tick().grid,
{
}

/// Inverting a cell changes that cell and nothing else: the storage keeps
/// its length, the cell's place holds the opposite state, and every other
/// place holds what it held.
pub proof fn lemma_toggle_changes_one_cell(grid: Grid, row: int, col: int)
    requires
        grid.wf(),
        grid.has(row, col),
    ensures
        grid.toggled(row, col).wf(),
        grid.toggled(row, col).alive(row, col) == !grid.alive(row, col),
        forall|k: int|
            0 <= k < grid.cells.len() && k != grid.index(row, col) ==> grid.toggled(
                row,
                col,
            ).cells[k] == grid.cells[k],
        forall|r: int, c: int|
            grid.has(r, c) && (r, c) != (row, col) ==> #[trigger] grid.toggled(row, col).alive(r, c)
                == grid.alive(r, c),
{
    lemma_index(grid, row, col);
    assert(grid.toggled(row, col).index(row, col) == grid.index(row, col)) by {
        reveal(Grid::index);
    }
    let toggled = grid.toggled(row, col);
    assert forall|r: int, c: int|
        grid.has(r, c) && (r, c) != (row, col) implies #[trigger] toggled.alive(r, c)
        == grid.alive(r, c) by {
        lemma_index(grid, r, c);
        assert(toggled.index(r, c) == grid.index(r, c)) by {
            reveal(Grid::index);
        }
    }
}

/// In the packed words of the grid, inverting a cell flips the one bit that
/// holds the cell and no other bit that holds a cell.
pub proof fn lemma_toggle_flips_one_packed_bit(
    grid: Grid,
    row: int,
    col: int,
    before: Seq<usize>,
    after: Seq<usize>,
)
    requires
        grid.wf(),
        grid.has(row, col),
        packs(before, grid.cells),
        packs(after, grid.toggled(row, col).cells),
    ensures
        after.len() == before.len(),
        forall|i: int|
            0 <= i < grid.cells.len() ==> (#[trigger] packed_bit(after, i) != packed_bit(before, i)
                <==> i == grid.index(row, col)),
{
    lemma_index(grid, row, col);
    let toggled = grid.toggled(row, col).cells;
    assert forall|i: int| 0 <= i < grid.cells.len() implies (#[trigger] packed_bit(after, i)
        != packed_bit(before, i) <==> i == grid.index(row, col)) by {
        assert(grid.cells[i] == packed_bit(before, i));
        assert(toggled[i] == packed_bit(after, i));
    }
}

/// An edit keeps a well-formed engine well formed, and keeps its dimensions
/// and its snapshot.
pub proof fn lemma_edit_keeps_snapshot(state: EngineState, edit: Edit)
    requires
        state.wf(),
        state.admits(edit),
    ensures
        state.apply(edit).wf(),
        state.apply(edit).snapshot == state.snapshot,
        state.apply(edit).grid.width == state.grid.width,
        state.apply(edit).grid.height == state.grid.height,
{
    match edit {
        Edit::Tick => {
            lemma_step(state.grid);
        },
        Edit::Toggle { row, col } => {
            lemma_index(state.grid, row, col);
        },
        _ => {},
    }
}

/// Whatever run of ticks, toggles and other edits an engine goes through, a
/// restore brings back the snapshot it started with. For an engine that was
/// just seeded, that is the seeded grid itself, cell for cell.
pub proof fn lemma_restore_after_edits(state: EngineState, edits: Seq<Edit>)
    requires
        state.wf(),
        forall|i: int| 0 <= i < edits.len() ==> state.admits(#[trigger] edits[i]),
    ensures
        state.run(edits).wf(),
        state.run(edits).grid.width == state.grid.width,
        state.run(edits).grid.height == state.grid.height,
        state.run(edits).snapshot == state.snapshot,
        state.run(edits).restore().grid == (Grid {
            width: state.grid.width,
            height: state.grid.height,
            cells: state.snapshot,
        }),
        state.snapshot == state.grid.cells ==> state.run(edits).restore().grid == state.grid,
    decreases edits.len(),
{
    if edits.len() > 0 {
        let earlier = edits.drop_last();
        lemma_restore_after_edits(state, earlier);
        let before = state.run(earlier);
        assert(before.admits(edits.last()));
        lemma_edit_keeps_snapshot(before, edits.last());
    }
}

} // verus!
