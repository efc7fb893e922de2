use game_of_life::universe::next_state;
use game_of_life::Universe;

fn universe_with(height: u32, width: u32, live: &[(u32, u32)]) -> Universe {
    let mut universe = Universe::new(height, width);
    universe.set_cells(live);
    universe
}

fn live_cells(universe: &Universe) -> Vec<(u32, u32)> {
    let mut live = Vec::new();
    for row in 0..universe.height() {
        for col in 0..universe.width() {
            if universe.is_alive(row, col) {
                live.push((row, col));
            }
        }
    }
    live
}

/// A small generator of repeatable pseudo-random bits.
fn next_bit(state: &mut u64) -> bool {
    *state = state.wrapping_mul(6364136223846793005).wrapping_add(1442695040888963407);
    (*state >> 33) & 1 == 1
}

fn scrambled(height: u32, width: u32, state: &mut u64) -> Universe {
    let mut universe = Universe::new(height, width);
    for row in 0..height {
        for col in 0..width {
            if next_bit(state) {
                universe.toggle_cell(row, col);
            }
        }
    }
    universe
}

#[test]
fn rule_table() {
    for n in 0u8..=8 {
        assert_eq!(next_state(true, n), n == 2 || n == 3, "live cell, {} neighbours", n);
        assert_eq!(next_state(false, n), n == 3, "dead cell, {} neighbours", n);
    }
}

#[test]
fn live_cell_with_one_neighbor_dies() {
    let mut universe = universe_with(5, 5, &[(2, 2), (1, 1)]);
    assert_eq!(universe.live_neighbor_count(2, 2), 1);
    universe.tick();
    assert!(!universe.is_alive(2, 2));
}

#[test]
fn live_cell_with_no_neighbor_dies() {
    let mut universe = universe_with(5, 5, &[(2, 2)]);
    assert_eq!(universe.live_neighbor_count(2, 2), 0);
    universe.tick();
    assert!(!universe.is_alive(2, 2));
}

#[test]
fn live_cell_with_two_neighbors_lives() {
    let mut universe = universe_with(5, 5, &[(2, 2), (1, 1), (3, 3)]);
    assert_eq!(universe.live_neighbor_count(2, 2), 2);
    universe.tick();
    assert!(universe.is_alive(2, 2));
}

#[test]
fn live_cell_with_three_neighbors_lives() {
    let mut universe = universe_with(5, 5, &[(2, 2), (1, 1), (3, 3), (2, 1)]);
    assert_eq!(universe.live_neighbor_count(2, 2), 3);
    universe.tick();
    assert!(universe.is_alive(2, 2));
}

#[test]
fn live_cell_with_four_neighbors_dies() {
    let mut universe = universe_with(5, 5, &[(2, 2), (1, 1), (1, 3), (3, 1), (3, 3)]);
    assert_eq!(universe.live_neighbor_count(2, 2), 4);
    universe.tick();
    assert!(!universe.is_alive(2, 2));
}

#[test]
fn dead_cell_with_three_neighbors_is_born() {
    let mut universe = universe_with(5, 5, &[(1, 1), (1, 3), (3, 2)]);
    assert_eq!(universe.live_neighbor_count(2, 2), 3);
    universe.tick();
    assert!(universe.is_alive(2, 2));
}

#[test]
fn dead_cell_with_two_neighbors_stays_dead() {
    let mut universe = universe_with(5, 5, &[(1, 1), (3, 3)]);
    assert_eq!(universe.live_neighbor_count(2, 2), 2);
    universe.tick();
    assert!(!universe.is_alive(2, 2));
}

#[test]
fn dead_cell_with_four_neighbors_stays_dead() {
    let mut universe = universe_with(5, 5, &[(1, 1), (1, 3), (3, 1), (3, 3)]);
    assert_eq!(universe.live_neighbor_count(2, 2), 4);
    universe.tick();
    assert!(!universe.is_alive(2, 2));
}

#[test]
fn full_neighborhood_counts_eight() {
    let universe = universe_with(
        5,
        5,
        &[(1, 1), (1, 2), (1, 3), (2, 1), (2, 3), (3, 1), (3, 2), (3, 3)],
    );
    assert_eq!(universe.live_neighbor_count(2, 2), 8);
    assert_eq!(universe.live_neighbor_count_by_offsets(2, 2), 8);
}

#[test]
fn a_cell_does_not_count_itself() {
    let universe = universe_with(5, 5, &[(2, 2)]);
    assert_eq!(universe.live_neighbor_count(2, 2), 0);
    assert_eq!(universe.live_neighbor_count_by_offsets(2, 2), 0);
}

#[test]
fn corners_are_diagonal_neighbors() {
    let universe = universe_with(4, 6, &[(3, 5)]);
    assert_eq!(universe.live_neighbor_count(0, 0), 1);
    assert_eq!(universe.live_neighbor_count_by_offsets(0, 0), 1);

    let universe = universe_with(4, 6, &[(0, 0)]);
    assert_eq!(universe.live_neighbor_count(3, 5), 1);
    assert_eq!(universe.live_neighbor_count_by_offsets(3, 5), 1);
}

#[test]
fn top_and_bottom_rows_are_adjacent() {
    let universe = universe_with(4, 6, &[(0, 2)]);
    assert_eq!(universe.live_neighbor_count(3, 1), 1);
    assert_eq!(universe.live_neighbor_count(3, 2), 1);
    assert_eq!(universe.live_neighbor_count(3, 3), 1);
    assert_eq!(universe.live_neighbor_count(1, 2), 1);
    // Two rows away is not adjacent.
    assert_eq!(universe.live_neighbor_count(2, 2), 0);
    assert_eq!(universe.live_neighbor_count(3, 4), 0);
}

#[test]
fn left_and_right_columns_are_adjacent() {
    let universe = universe_with(4, 6, &[(2, 0)]);
    assert_eq!(universe.live_neighbor_count(1, 5), 1);
    assert_eq!(universe.live_neighbor_count(2, 5), 1);
    assert_eq!(universe.live_neighbor_count(3, 5), 1);
    assert_eq!(universe.live_neighbor_count(2, 1), 1);
    // Two columns away is not adjacent.
    assert_eq!(universe.live_neighbor_count(2, 4), 0);
    assert_eq!(universe.live_neighbor_count(2, 2), 0);
}

#[test]
fn single_cell_universe_is_its_own_neighbor() {
    let mut universe = universe_with(1, 1, &[(0, 0)]);
    assert_eq!(universe.live_neighbor_count(0, 0), 8);
    assert_eq!(universe.live_neighbor_count_by_offsets(0, 0), 8);
    universe.tick();
    assert!(!universe.is_alive(0, 0));
}

#[test]
fn counting_strategies_agree_on_random_grids() {
    let mut state: u64 = 0x9e3779b97f4a7c15;
    let sizes = [(1u32, 1u32), (1, 5), (2, 2), (3, 3), (4, 7), (8, 8)];
    for round in 0..1000 {
        let (height, width) = sizes[round % sizes.len()];
        let universe = scrambled(height, width, &mut state);
        for row in 0..height {
            for col in 0..width {
                assert_eq!(
                    universe.live_neighbor_count(row, col),
                    universe.live_neighbor_count_by_offsets(row, col),
                    "round {}, cell ({}, {})",
                    round,
                    row,
                    col
                );
            }
        }
    }
}

#[test]
fn block_is_a_still_life() {
    let block = [(2, 2), (2, 3), (3, 2), (3, 3)];
    let mut universe = universe_with(6, 6, &block);
    for _ in 0..10 {
        universe.tick();
        assert_eq!(live_cells(&universe), block.to_vec());
    }
}

#[test]
fn block_across_the_corner_is_a_still_life() {
    let block = [(0, 0), (0, 4), (3, 0), (3, 4)];
    let mut universe = universe_with(4, 5, &block);
    for _ in 0..5 {
        universe.tick();
        assert_eq!(live_cells(&universe), block.to_vec());
    }
}

#[test]
fn block_on_three_by_three_is_a_still_life() {
    let block = [(0, 0), (0, 1), (1, 0), (1, 1)];
    let mut universe = universe_with(3, 3, &block);
    for _ in 0..5 {
        universe.tick();
        assert_eq!(live_cells(&universe), block.to_vec());
    }
}

#[test]
fn block_filling_a_two_by_two_torus_dies() {
    let mut universe = universe_with(2, 2, &[(0, 0), (0, 1), (1, 0), (1, 1)]);
    assert_eq!(universe.live_neighbor_count(0, 0), 8);
    universe.tick();
    assert_eq!(live_cells(&universe), vec![]);
}

#[test]
fn blinker_oscillates() {
    let horizontal = vec![(2, 1), (2, 2), (2, 3)];
    let vertical = vec![(1, 2), (2, 2), (3, 2)];
    let mut universe = universe_with(5, 5, &horizontal);
    universe.tick();
    assert_eq!(live_cells(&universe), vertical);
    universe.tick();
    assert_eq!(live_cells(&universe), horizontal);
    universe.tick();
    assert_eq!(live_cells(&universe), vertical);
}

#[test]
fn blinker_across_the_edge_oscillates() {
    let horizontal = vec![(0, 0), (0, 1), (0, 3)];
    let vertical = vec![(0, 0), (1, 0), (3, 0)];
    let mut universe = universe_with(4, 4, &horizontal);
    universe.tick();
    assert_eq!(live_cells(&universe), vertical);
    universe.tick();
    assert_eq!(live_cells(&universe), horizontal);
}

#[test]
fn glider_moves_one_generation() {
    let mut universe = universe_with(6, 6, &[(1, 2), (2, 3), (3, 1), (3, 2), (3, 3)]);
    let expected = universe_with(6, 6, &[(2, 1), (2, 3), (3, 2), (3, 3), (4, 2)]);
    universe.tick();
    assert_eq!(universe.get_cells(), expected.get_cells());
}

#[test]
fn glider_returns_shifted_after_four_generations() {
    let mut universe = universe_with(8, 8, &[(1, 2), (2, 3), (3, 1), (3, 2), (3, 3)]);
    for _ in 0..4 {
        universe.tick();
    }
    let expected = universe_with(8, 8, &[(2, 3), (3, 4), (4, 2), (4, 3), (4, 4)]);
    assert_eq!(universe.get_cells(), expected.get_cells());
}

#[test]
fn tick_is_deterministic() {
    let mut state: u64 = 7;
    let mut first = scrambled(9, 11, &mut state);
    let mut state: u64 = 7;
    let mut second = scrambled(9, 11, &mut state);
    assert_eq!(first.get_cells(), second.get_cells());
    for _ in 0..5 {
        first.tick();
        second.tick();
        assert_eq!(first.get_cells(), second.get_cells());
    }
}

#[test]
fn tick_reads_only_the_previous_generation() {
    // Every cell of the next generation must follow from the counts taken
    // before any cell was written.
    let mut state: u64 = 99;
    let mut universe = scrambled(7, 6, &mut state);
    let mut expected = Vec::new();
    for row in 0..7 {
        for col in 0..6 {
            let n = universe.live_neighbor_count(row, col);
            expected.push(next_state(universe.is_alive(row, col), n));
        }
    }
    universe.tick();
    for row in 0..7u32 {
        for col in 0..6u32 {
            assert_eq!(universe.is_alive(row, col), expected[(row * 6 + col) as usize]);
        }
    }
}

#[test]
fn tick_keeps_dimensions_and_snapshot() {
    let mut universe = Universe::new_fixed();
    let seed: Vec<usize> = universe.init_states().to_vec();
    universe.tick();
    assert_eq!(universe.width(), 64);
    assert_eq!(universe.height(), 64);
    assert_eq!(universe.get_cells().len(), 4096);
    assert_eq!(universe.init_states(), &seed[..]);
    assert_ne!(universe.cells(), &seed[..]);
}
