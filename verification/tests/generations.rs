use game_of_life::{Seed, Universe};

/// The positions of the live cells, in row-major order.
fn living(universe: &Universe) -> Vec<(u32, u32)> {
    let mut live = Vec::new();
    for row in 0..universe.height() {
        for col in 0..universe.width() {
            if universe.get_cells()[universe.get_index(row, col)] {
                live.push((row, col));
            }
        }
    }
    live
}

#[test]
fn tick_gives_equal_universes_equal_successors() {
    let cells = [(0, 1), (1, 2), (2, 0), (2, 1), (2, 2), (5, 5), (4, 0)];
    let mut first = Universe::new(6, 6);
    first.set_cells(&cells, true);
    let mut second = Universe::new(6, 6);
    second.set_cells(&cells, true);
    assert_eq!(first.get_cells(), second.get_cells());
    first.tick();
    second.tick();
    assert_eq!(first.get_cells(), second.get_cells());
    assert_eq!(first.cells(), second.cells());
    first.tick();
    second.tick();
    assert_eq!(first.get_cells(), second.get_cells());

    let mut sown = Universe::with_seed(9, 7, Seed::Pattern);
    let mut drawn = Universe::new(9, 7);
    let draws: Vec<bool> = (0..63).map(|i| i % 2 == 0 || i % 7 == 0).collect();
    drawn.randomize(&draws);
    sown.tick();
    drawn.tick();
    assert_eq!(sown.get_cells(), drawn.get_cells());
}

#[test]
fn empty_universe_stays_empty() {
    let mut universe = Universe::new(7, 5);
    for _ in 0..10 {
        universe.tick();
        assert_eq!(universe.get_cells().count_ones(..), 0);
        assert_eq!(universe.get_cells().len(), 35);
    }
    assert_eq!(universe.width(), 7);
    assert_eq!(universe.height(), 5);
}

#[test]
fn block_is_a_still_life() {
    let mut universe = Universe::new(4, 4);
    universe.set_cells(&[(1, 1), (1, 2), (2, 1), (2, 2)], true);
    for row in 1..3 {
        for col in 1..3 {
            assert_eq!(universe.live_neighbor_count(row, col), 3);
        }
    }
    let before = universe.get_cells().clone();
    for _ in 0..3 {
        universe.tick();
        assert_eq!(universe.get_cells(), &before);
    }
    assert_eq!(living(&universe), vec![(1, 1), (1, 2), (2, 1), (2, 2)]);
}

#[test]
fn block_across_the_edges_is_a_still_life() {
    let mut universe = Universe::new(5, 6);
    universe.set_cells(&[(5, 4), (5, 0), (0, 4), (0, 0)], true);
    universe.tick();
    assert_eq!(living(&universe), vec![(0, 0), (0, 4), (5, 0), (5, 4)]);
    universe.tick();
    assert_eq!(living(&universe), vec![(0, 0), (0, 4), (5, 0), (5, 4)]);
}

#[test]
fn diagonal_line_shrinks_to_its_centre_and_dies() {
    let mut universe = Universe::new(5, 5);
    universe.set_cells(&[(1, 1), (2, 2), (3, 3)], true);
    assert_eq!(living(&universe), vec![(1, 1), (2, 2), (3, 3)]);
    universe.tick();
    assert_eq!(living(&universe), vec![(2, 2)]);
    universe.tick();
    assert_eq!(living(&universe), vec![]);
    universe.tick();
    assert_eq!(living(&universe), vec![]);
}

#[test]
fn blinker_has_period_two() {
    let mut universe = Universe::new(5, 5);
    universe.set_cells(&[(2, 1), (2, 2), (2, 3)], true);
    for _ in 0..3 {
        universe.tick();
        assert_eq!(living(&universe), vec![(1, 2), (2, 2), (3, 2)]);
        universe.tick();
        assert_eq!(living(&universe), vec![(2, 1), (2, 2), (2, 3)]);
    }
}

#[test]
fn glider_takes_its_next_shape() {
    let mut universe = Universe::new(6, 6);
    universe.set_cells(&[(0, 1), (1, 2), (2, 0), (2, 1), (2, 2)], true);
    universe.tick();
    assert_eq!(living(&universe), vec![(1, 0), (1, 2), (2, 1), (2, 2), (3, 1)]);
    universe.tick();
    assert_eq!(living(&universe), vec![(1, 2), (2, 0), (2, 2), (3, 1), (3, 2)]);
}

#[test]
fn crowded_cell_dies_and_lonely_cell_dies() {
    let mut universe = Universe::new(7, 7);
    universe.set_cells(&[(3, 3), (2, 3), (4, 3), (3, 2), (3, 4)], true);
    assert_eq!(universe.live_neighbor_count(3, 3), 4);
    universe.tick();
    assert!(!universe.get_cells()[universe.get_index(3, 3)]);
    assert_eq!(
        living(&universe),
        vec![(2, 2), (2, 3), (2, 4), (3, 2), (3, 4), (4, 2), (4, 3), (4, 4)]
    );

    let mut lonely = Universe::new(5, 5);
    lonely.set_cells(&[(0, 0), (0, 1)], true);
    lonely.tick();
    assert_eq!(living(&lonely), vec![]);
}

#[test]
fn three_neighbours_bring_a_dead_cell_to_life() {
    let mut universe = Universe::new(5, 5);
    universe.set_cells(&[(1, 1), (1, 3), (3, 2)], true);
    assert_eq!(universe.live_neighbor_count(2, 2), 3);
    universe.tick();
    assert_eq!(living(&universe), vec![(2, 2)]);
}

#[test]
fn one_row_torus_meets_its_own_row_again() {
    let mut universe = Universe::new(4, 1);
    universe.set_cells(&[(0, 0), (0, 1)], true);
    assert_eq!(universe.live_neighbor_count(0, 0), 4);
    assert_eq!(universe.live_neighbor_count(0, 1), 4);
    assert_eq!(universe.live_neighbor_count(0, 2), 3);
    assert_eq!(universe.live_neighbor_count(0, 3), 3);
    universe.tick();
    assert_eq!(living(&universe), vec![(0, 2), (0, 3)]);
    universe.tick();
    assert_eq!(living(&universe), vec![(0, 0), (0, 1)]);
}
