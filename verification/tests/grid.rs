use game_of_life::grid::{next_cell_state, Grid, ALIVE, DEAD, MIN_SIDE};
use game_of_life::LifeError;

fn grid_with(h: i32, w: i32, wrap: bool, live: &[(i32, i32)]) -> Grid {
    let mut g = Grid::new(h, w, wrap).unwrap();
    for &(x, y) in live {
        g.set(x, y, ALIVE);
    }
    g
}

fn live_cells(g: &Grid) -> Vec<(i32, i32)> {
    let mut out = Vec::new();
    for y in 0..g.height() {
        for x in 0..g.width() {
            if g.at(x, y) == ALIVE {
                out.push((x, y));
            }
        }
    }
    out
}

fn stepped(g: &Grid) -> Grid {
    let mut dst = Grid::new(g.height(), g.width(), g.wraps()).unwrap();
    g.step(&mut dst);
    dst
}

#[test]
fn new_grid_is_all_dead() {
    let g = Grid::new(5, 7, false).unwrap();
    assert_eq!(g.height(), 5);
    assert_eq!(g.width(), 7);
    assert!(!g.wraps());
    assert_eq!(g.cells(), &vec![DEAD; 35]);
}

#[test]
fn new_grid_of_minimum_size_is_accepted() {
    assert_eq!(MIN_SIDE, 4);
    let g = Grid::new(4, 4, true).unwrap();
    assert_eq!(g.cells().len(), 16);
    assert!(g.wraps());
}

#[test]
fn new_grid_below_minimum_is_refused() {
    assert_eq!(Grid::new(3, 4, false).err(), Some(LifeError::InvalidDimensions));
    assert_eq!(Grid::new(4, 3, true).err(), Some(LifeError::InvalidDimensions));
    assert_eq!(Grid::new(0, 0, true).err(), Some(LifeError::InvalidDimensions));
    assert_eq!(Grid::new(-5, 10, false).err(), Some(LifeError::InvalidDimensions));
    assert_eq!(Grid::new(10, -5, false).err(), Some(LifeError::InvalidDimensions));
}

#[test]
fn cells_are_row_major() {
    let g = grid_with(4, 5, false, &[(3, 1)]);
    let mut expected = vec![DEAD; 20];
    expected[1 * 5 + 3] = ALIVE;
    assert_eq!(g.cells(), &expected);
}

#[test]
fn wrapped_read_is_periodic() {
    let g = grid_with(4, 6, true, &[(0, 0), (5, 1), (2, 3), (3, 2)]);
    for y in 0..4 {
        for x in 0..6 {
            assert_eq!(g.at(x, y), g.at(x + 6, y));
            assert_eq!(g.at(x, y), g.at(x, y + 4));
            assert_eq!(g.at(x, y), g.at(x - 6, y - 4));
        }
    }
}

#[test]
fn wrapped_read_folds_negative_coordinates() {
    let g = grid_with(4, 6, true, &[(5, 3)]);
    assert_eq!(g.at(-1, -1), ALIVE);
    assert_eq!(g.at(-7, -5), ALIVE);
    assert_eq!(g.at(-1, 0), DEAD);
    assert_eq!(g.at(11, 7), ALIVE);
}

#[test]
fn wrapped_position_is_euclidean() {
    let g = Grid::new(4, 6, true).unwrap();
    assert_eq!(g.get_wrapped_pos(-1, -1), (5, 3));
    assert_eq!(g.get_wrapped_pos(6, 4), (0, 0));
    assert_eq!(g.get_wrapped_pos(2, 3), (2, 3));
    assert_eq!(g.get_wrapped_pos(-13, 9), (5, 1));
    assert_eq!(g.get_wrapped_pos(i32::MIN, i32::MAX), (4, 3));
}

#[test]
fn unwrapped_read_outside_is_dead() {
    let mut g = Grid::new(4, 5, false).unwrap();
    for y in 0..4 {
        for x in 0..5 {
            g.set(x, y, ALIVE);
        }
    }
    assert_eq!(g.at(-1, 0), DEAD);
    assert_eq!(g.at(5, 0), DEAD);
    assert_eq!(g.at(0, -1), DEAD);
    assert_eq!(g.at(0, 4), DEAD);
    assert_eq!(g.at(i32::MIN, i32::MAX), DEAD);
    assert_eq!(g.at(4, 3), ALIVE);
    assert_eq!(g.at(0, 0), ALIVE);
}

#[test]
fn unwrapped_write_outside_is_dropped() {
    let mut g = Grid::new(4, 4, false).unwrap();
    g.set(-1, 0, ALIVE);
    g.set(4, 0, ALIVE);
    g.set(0, -1, ALIVE);
    g.set(0, 4, ALIVE);
    assert_eq!(g.cells(), &vec![DEAD; 16]);
}

#[test]
fn wrapped_write_folds_like_read() {
    let mut g = Grid::new(4, 5, true).unwrap();
    g.set(-1, -1, ALIVE);
    assert_eq!(live_cells(&g), vec![(4, 3)]);
    g.set(5, 4, ALIVE);
    assert_eq!(live_cells(&g), vec![(0, 0), (4, 3)]);
    g.set(9, 7, DEAD);
    assert_eq!(live_cells(&g), vec![(0, 0)]);
}

#[test]
fn write_changes_one_cell() {
    let mut g = grid_with(4, 4, false, &[(1, 1)]);
    g.set(2, 3, ALIVE);
    assert_eq!(live_cells(&g), vec![(1, 1), (2, 3)]);
    g.set(1, 1, DEAD);
    assert_eq!(live_cells(&g), vec![(2, 3)]);
}

#[test]
fn neighbours_leave_out_the_cell_itself() {
    let g = grid_with(5, 5, false, &[(2, 2)]);
    assert_eq!(g.neighbours(2, 2), 0);
    for (x, y) in [(1, 1), (2, 1), (3, 1), (1, 2), (3, 2), (1, 3), (2, 3), (3, 3)] {
        assert_eq!(g.neighbours(x, y), 1);
    }
    assert_eq!(g.neighbours(0, 0), 0);
    assert_eq!(g.neighbours(4, 2), 0);
}

#[test]
fn neighbours_count_all_eight() {
    let mut g = Grid::new(5, 5, false).unwrap();
    for y in 0..5 {
        for x in 0..5 {
            g.set(x, y, ALIVE);
        }
    }
    assert_eq!(g.neighbours(2, 2), 8);
    assert_eq!(g.neighbours(0, 0), 3);
    assert_eq!(g.neighbours(2, 0), 5);
    assert_eq!(g.neighbours(-1, -1), 1);
    assert_eq!(g.neighbours(-2, -2), 0);
}

#[test]
fn neighbours_are_between_zero_and_eight() {
    let mut g = Grid::new(4, 4, true).unwrap();
    for y in 0..4 {
        for x in 0..4 {
            g.set(x, y, ALIVE);
        }
    }
    for y in -6..10 {
        for x in -6..10 {
            assert_eq!(g.neighbours(x, y), 8);
        }
    }
    let empty = Grid::new(4, 4, true).unwrap();
    assert_eq!(empty.neighbours(1, 1), 0);
    assert_eq!(g.neighbours(i32::MAX, i32::MIN), 8);
}

#[test]
fn neighbours_wrap_around_the_edges() {
    let g = grid_with(4, 5, true, &[(4, 3)]);
    assert_eq!(g.neighbours(0, 0), 1);
    assert_eq!(g.neighbours(3, 0), 1);
    assert_eq!(g.neighbours(0, 2), 1);
    assert_eq!(g.neighbours(4, 3), 0);
    assert_eq!(g.neighbours(2, 1), 0);
    let flat = grid_with(4, 5, false, &[(4, 3)]);
    assert_eq!(flat.neighbours(0, 0), 0);
    assert_eq!(flat.neighbours(3, 2), 1);
}

#[test]
fn rule_for_one_cell() {
    for n in 0..=8 {
        let survives = if n == 2 || n == 3 { ALIVE } else { DEAD };
        assert_eq!(next_cell_state(ALIVE, n), survives);
        let born = if n == 3 { ALIVE } else { DEAD };
        assert_eq!(next_cell_state(DEAD, n), born);
    }
}

#[test]
fn all_dead_grid_stays_dead() {
    for wrap in [false, true] {
        let g = Grid::new(6, 5, wrap).unwrap();
        let next = stepped(&g);
        assert_eq!(next.cells(), &vec![DEAD; 30]);
    }
}

#[test]
fn lonely_cell_dies() {
    let g = grid_with(5, 5, false, &[(2, 2)]);
    assert_eq!(live_cells(&stepped(&g)), vec![]);
    let pair = grid_with(5, 5, false, &[(2, 2), (3, 2)]);
    assert_eq!(live_cells(&stepped(&pair)), vec![]);
}

#[test]
fn cell_with_two_or_three_neighbours_survives() {
    let two = grid_with(5, 5, false, &[(1, 1), (2, 2), (3, 3)]);
    assert_eq!(two.neighbours(2, 2), 2);
    assert_eq!(stepped(&two).at(2, 2), ALIVE);
    let three = grid_with(5, 5, false, &[(1, 1), (2, 2), (3, 3), (1, 3)]);
    assert_eq!(three.neighbours(2, 2), 3);
    assert_eq!(stepped(&three).at(2, 2), ALIVE);
}

#[test]
fn crowded_cell_dies() {
    let g = grid_with(5, 5, false, &[(2, 2), (1, 1), (3, 1), (1, 3), (3, 3)]);
    assert_eq!(g.neighbours(2, 2), 4);
    assert_eq!(stepped(&g).at(2, 2), DEAD);
}

#[test]
fn dead_cell_with_three_neighbours_is_born() {
    let g = grid_with(5, 5, false, &[(1, 1), (3, 1), (2, 3)]);
    assert_eq!(g.at(2, 2), DEAD);
    assert_eq!(g.neighbours(2, 2), 3);
    assert_eq!(live_cells(&stepped(&g)), vec![(2, 2)]);
}

#[test]
fn step_reads_only_the_generation_before() {
    let g = grid_with(5, 5, false, &[(1, 2), (2, 2), (3, 2)]);
    let mut dst = grid_with(5, 5, false, &[(0, 0), (4, 4), (2, 2)]);
    g.step(&mut dst);
    assert_eq!(live_cells(&dst), vec![(2, 1), (2, 2), (2, 3)]);
    assert_eq!(live_cells(&g), vec![(1, 2), (2, 2), (3, 2)]);
}

#[test]
fn block_is_stable() {
    for wrap in [false, true] {
        for (h, w) in [(4, 4), (5, 7), (8, 4)] {
            for by in 0..h - 1 {
                for bx in 0..w - 1 {
                    let block = [(bx, by), (bx + 1, by), (bx, by + 1), (bx + 1, by + 1)];
                    let g = grid_with(h, w, wrap, &block);
                    let next = stepped(&g);
                    assert_eq!(next.cells(), g.cells());
                }
            }
        }
    }
}

#[test]
fn blinker_has_period_two() {
    for (h, w) in [(4, 4), (5, 5), (6, 9)] {
        for cy in 1..h - 1 {
            for cx in 1..w - 1 {
                let row = grid_with(h, w, false, &[(cx - 1, cy), (cx, cy), (cx + 1, cy)]);
                let column = stepped(&row);
                assert_eq!(live_cells(&column), vec![(cx, cy - 1), (cx, cy), (cx, cy + 1)]);
                let back = stepped(&column);
                assert_eq!(back.cells(), row.cells());
            }
        }
    }
}

#[test]
fn blinker_without_clearance_decays() {
    let row = grid_with(4, 4, false, &[(0, 0), (1, 0), (2, 0)]);
    let next = stepped(&row);
    assert_eq!(live_cells(&next), vec![(1, 0), (1, 1)]);
    assert_eq!(live_cells(&stepped(&next)), vec![]);
}

#[test]
fn glider_moves_across_the_wrapped_edge() {
    let mut g = grid_with(6, 6, true, &[(1, 0), (2, 1), (0, 2), (1, 2), (2, 2)]);
    for _ in 0..4 {
        g = stepped(&g);
    }
    assert_eq!(live_cells(&g), vec![(2, 1), (3, 2), (1, 3), (2, 3), (3, 3)]);
    for _ in 0..20 {
        g = stepped(&g);
    }
    assert_eq!(live_cells(&g), vec![(1, 0), (2, 1), (0, 2), (1, 2), (2, 2)]);
}

#[test]
fn seeding_with_every_draw_below_is_all_dead() {
    let mut g = grid_with(4, 4, false, &[(1, 1), (2, 2)]);
    g.randomize(&vec![true; 16]);
    assert_eq!(g.cells(), &vec![DEAD; 16]);
}

#[test]
fn seeding_with_no_draw_below_is_all_alive() {
    let mut g = Grid::new(4, 5, true).unwrap();
    g.randomize(&vec![false; 20]);
    assert_eq!(g.cells(), &vec![ALIVE; 20]);
}

#[test]
fn seeding_goes_row_by_row() {
    let mut g = Grid::new(4, 5, false).unwrap();
    let mut dead = vec![true; 20];
    dead[7] = false;
    dead[19] = false;
    g.randomize(&dead);
    assert_eq!(live_cells(&g), vec![(2, 1), (4, 3)]);
    assert_eq!(g.height(), 4);
    assert_eq!(g.width(), 5);
}

#[test]
fn clone_is_independent() {
    let mut g = grid_with(4, 4, true, &[(1, 2)]);
    let copy = g.clone();
    g.set(0, 0, ALIVE);
    assert_eq!(live_cells(&copy), vec![(1, 2)]);
    assert_eq!(live_cells(&g), vec![(0, 0), (1, 2)]);
    assert!(copy.wraps());
}

#[test]
fn resample_doubles_each_cell() {
    let g = grid_with(4, 4, false, &[(1, 0), (3, 3)]);
    let pixels = g.resample(8, 8);
    let mut expected = vec![0u8; 64];
    for (x, y) in [(2, 0), (3, 0), (2, 1), (3, 1), (6, 6), (7, 6), (6, 7), (7, 7)] {
        expected[y * 8 + x] = 1;
    }
    assert_eq!(pixels, expected);
}

#[test]
fn resample_halves_the_grid() {
    let g = grid_with(4, 4, false, &[(0, 0), (1, 1), (2, 0), (2, 2), (3, 3)]);
    assert_eq!(g.resample(2, 2), vec![1, 1, 0, 1]);
}

#[test]
fn resample_to_uneven_size() {
    let g = grid_with(4, 4, false, &[(0, 0), (1, 0), (2, 0), (3, 0)]);
    let one_in_row = grid_with(4, 4, false, &[(1, 2)]);
    assert_eq!(g.resample(1, 6), vec![1, 1, 1, 1, 1, 1]);
    // columns 0..6 read the cells 0, 0, 1, 2, 2, 3; rows 0..3 read 0, 1, 2
    assert_eq!(
        one_in_row.resample(3, 6),
        vec![0, 0, 0, 0, 0, 0, 0, 0, 0, 0, 0, 0, 0, 0, 1, 0, 0, 0]
    );
}

#[test]
fn resample_to_same_size_is_the_grid() {
    let g = grid_with(4, 5, true, &[(0, 0), (4, 3), (2, 1)]);
    assert_eq!(&g.resample(4, 5), g.cells());
}
