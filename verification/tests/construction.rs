use fixedbitset::FixedBitSet;
use game_of_life::Universe;

fn live_cells(universe: &Universe) -> Vec<(u32, u32)> {
    let mut live = Vec::new();
    for row in 0..universe.height() {
        for col in 0..universe.width() {
            if universe.is_alive(row, col) {
                live.push((row, col));
            }
        }
    }
    live
}

#[test]
fn new_universe_is_all_dead() {
    let universe = Universe::new(3, 5);
    assert_eq!(universe.height(), 3);
    assert_eq!(universe.width(), 5);
    assert_eq!(universe.get_cells().len(), 15);
    assert_eq!(universe.get_cells().count_ones(..), 0);
    assert_eq!(live_cells(&universe), vec![]);
}

#[test]
fn new_takes_height_before_width() {
    let universe = Universe::new(2, 7);
    assert_eq!(universe.height(), 2);
    assert_eq!(universe.width(), 7);
}

#[test]
fn new_universe_without_cells() {
    let mut universe = Universe::new(0, 4);
    assert_eq!(universe.get_cells().len(), 0);
    universe.tick();
    universe.reset_cells();
    universe.reset_init_state();
    assert_eq!(universe.get_cells().len(), 0);
    assert_eq!(universe.cells().len(), 0);
}

#[test]
fn new_fixed_is_64_by_64() {
    let universe = Universe::new_fixed();
    assert_eq!(universe.width(), 64);
    assert_eq!(universe.height(), 64);
    assert_eq!(universe.get_cells().len(), 4096);
}

#[test]
fn new_fixed_follows_the_pattern() {
    let universe = Universe::new_fixed();
    let cells = universe.get_cells();
    for i in 0..4096usize {
        assert_eq!(cells.contains(i), i % 2 == 0 || i % 7 == 0, "cell {}", i);
    }
    assert!(universe.is_alive(0, 0));
    assert!(!universe.is_alive(0, 1));
    assert!(universe.is_alive(0, 7));
    assert!(!universe.is_alive(0, 9));
    assert!(universe.is_alive(0, 21));
    // Place 65 = 1 * 64 + 1 is odd and no multiple of seven; place 77 is 7 * 11.
    assert!(!universe.is_alive(1, 1));
    assert!(universe.is_alive(1, 13));
    // The last place, 4095, is 7 * 585.
    assert!(universe.is_alive(63, 63));
    // 2048 even places and 293 odd multiples of seven.
    assert_eq!(cells.count_ones(..), 2341);
}

#[test]
fn new_fixed_is_reproducible() {
    let first = Universe::new_fixed();
    let second = Universe::new_fixed();
    assert_eq!(first.get_cells(), second.get_cells());
    assert_eq!(first.cells(), second.cells());
}

#[test]
fn new_fixed_snapshot_is_the_seed() {
    let universe = Universe::new_fixed();
    assert_eq!(universe.cells(), universe.init_states());
}

#[test]
fn new_randomized_follows_the_draws() {
    let mut draws = vec![false; 4096];
    let mut state: u32 = 12345;
    for draw in draws.iter_mut() {
        state = state.wrapping_mul(1664525).wrapping_add(1013904223);
        *draw = (state >> 16) & 1 == 1;
    }
    let universe = Universe::new_randomized(&draws);
    assert_eq!(universe.width(), 64);
    assert_eq!(universe.height(), 64);
    assert_eq!(universe.get_cells().len(), 4096);
    for i in 0..4096usize {
        assert_eq!(universe.get_cells().contains(i), draws[i], "cell {}", i);
        assert_eq!(universe.is_alive((i / 64) as u32, (i % 64) as u32), draws[i]);
    }
    assert_eq!(universe.cells(), universe.init_states());
}

#[test]
fn new_randomized_with_all_draws_low_is_dead() {
    let universe = Universe::new_randomized(&vec![false; 4096]);
    assert_eq!(universe.get_cells().count_ones(..), 0);
}

#[test]
fn new_randomized_with_all_draws_high_is_full() {
    let universe = Universe::new_randomized(&vec![true; 4096]);
    assert_eq!(universe.get_cells().count_ones(..), 4096);
}

#[test]
fn set_width_clears_and_resizes() {
    let mut universe = Universe::new(4, 4);
    universe.set_cells(&[(0, 0), (1, 2), (3, 3)]);
    assert_eq!(universe.get_cells().count_ones(..), 3);
    universe.set_width(6);
    assert_eq!(universe.width(), 6);
    assert_eq!(universe.height(), 4);
    assert_eq!(universe.get_cells().len(), 24);
    assert_eq!(universe.get_cells().count_ones(..), 0);
    assert_eq!(live_cells(&universe), vec![]);
}

#[test]
fn set_height_clears_and_resizes() {
    let mut universe = Universe::new_fixed();
    universe.set_height(3);
    assert_eq!(universe.width(), 64);
    assert_eq!(universe.height(), 3);
    assert_eq!(universe.get_cells().len(), 192);
    assert_eq!(universe.get_cells().count_ones(..), 0);
}

#[test]
fn set_width_to_a_smaller_size_clears() {
    let mut universe = Universe::new_fixed();
    universe.set_width(2);
    assert_eq!(universe.get_cells().len(), 128);
    assert_eq!(universe.get_cells(), &FixedBitSet::with_capacity(128));
}

#[test]
fn resized_universe_can_be_used() {
    let mut universe = Universe::new(2, 2);
    universe.set_width(6);
    universe.set_height(6);
    universe.set_cells(&[(5, 5), (0, 0)]);
    assert_eq!(live_cells(&universe), vec![(0, 0), (5, 5)]);
    universe.tick();
    assert_eq!(live_cells(&universe), vec![]);
}

#[test]
fn resize_also_resets_the_snapshot() {
    let mut universe = Universe::new_fixed();
    universe.set_width(8);
    universe.set_height(8);
    universe.set_cells(&[(1, 1)]);
    universe.reset_init_state();
    assert_eq!(universe.width(), 8);
    assert_eq!(universe.height(), 8);
    assert_eq!(universe.get_cells(), &FixedBitSet::with_capacity(64));
    assert_eq!(universe.init_states().len(), universe.cells().len());
}
