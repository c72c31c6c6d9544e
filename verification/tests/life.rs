use toroidal_life::{Cell, CreationError, Universe};

fn make_cleared(width: u32, height: u32) -> Universe {
    let mut u = Universe::new(width, height).unwrap();
    for row in 0..height {
        for col in 0..width {
            u.set_cell(row, col, Cell::Dead);
        }
    }
    u
}

fn snapshot(u: &Universe) -> Vec<Cell> {
    let mut cells = Vec::new();
    for row in 0..u.height() {
        for col in 0..u.width() {
            cells.push(u.get_cell(row, col));
        }
    }
    cells
}

#[test]
fn new_rejects_zero_dimensions() {
    assert!(matches!(Universe::new(0, 5), Err(CreationError::ZeroDimension)));
    assert!(matches!(Universe::new(5, 0), Err(CreationError::ZeroDimension)));
    assert!(matches!(Universe::new(0, 0), Err(CreationError::ZeroDimension)));
}

#[test]
fn new_reports_dimensions() {
    let u = Universe::new(8, 5).unwrap();
    assert_eq!(u.width(), 8);
    assert_eq!(u.height(), 5);
}

#[test]
fn new_seeds_grid_by_the_fixed_rule() {
    let u = Universe::new(8, 8).unwrap();
    for i in 0u32..64 {
        let expected = if i % 2 == 0 || i % 7 == 0 {
            Cell::Alive
        } else {
            Cell::Dead
        };
        assert_eq!(u.get_cell(i / 8, i % 8), expected, "cell {}", i);
    }
}

#[test]
fn new_starts_with_synced_canvas() {
    let u = Universe::new(4, 4).unwrap();
    let bytes = u.canvas_data();
    assert_eq!(bytes.len(), 4 * 16);
    for i in 0..16usize {
        let expected: [u8; 4] = if i % 2 == 0 || i % 7 == 0 {
            [255, 255, 255, 255]
        } else {
            [0, 0, 0, 255]
        };
        assert_eq!(&bytes[4 * i..4 * i + 4], &expected, "pixel quad {}", i);
    }
}

#[test]
fn neighbor_count_sees_lone_center_from_every_cell() {
    let mut u = make_cleared(3, 3);
    u.set_cell(1, 1, Cell::Alive);
    for row in 0..3 {
        for col in 0..3 {
            let expected = if (row, col) == (1, 1) { 0 } else { 1 };
            assert_eq!(u.live_neighbor_count(row, col), expected, "at ({},{})", row, col);
        }
    }
}

#[test]
fn neighbor_count_wraps_around_edges() {
    let mut u = make_cleared(3, 3);
    u.set_cell(0, 0, Cell::Alive);
    // The opposite corner and both opposite edges reach (0,0) only through
    // the toroidal wrap.
    assert_eq!(u.live_neighbor_count(2, 2), 1);
    assert_eq!(u.live_neighbor_count(2, 0), 1);
    assert_eq!(u.live_neighbor_count(0, 2), 1);
    assert_eq!(u.live_neighbor_count(1, 1), 1);
    // The live cell does not count itself.
    assert_eq!(u.live_neighbor_count(0, 0), 0);
}

#[test]
fn block_is_a_still_life() {
    let mut u = make_cleared(6, 6);
    for (row, col) in [(2, 2), (2, 3), (3, 2), (3, 3)] {
        u.set_cell(row, col, Cell::Alive);
    }
    let before = snapshot(&u);
    for generation in 0..4 {
        let transitions = u.tick();
        assert!(transitions.is_empty(), "flips in generation {}", generation);
        assert_eq!(snapshot(&u), before, "changed in generation {}", generation);
    }
}

#[test]
fn blinker_flips_between_horizontal_and_vertical() {
    let mut u = make_cleared(5, 5);
    for col in [1, 2, 3] {
        u.set_cell(2, col, Cell::Alive);
    }
    u.tick();
    for row in 0..5 {
        for col in 0..5 {
            let expected = if col == 2 && (1..=3).contains(&row) {
                Cell::Alive
            } else {
                Cell::Dead
            };
            assert_eq!(u.get_cell(row, col), expected, "vertical phase at ({},{})", row, col);
        }
    }
    u.tick();
    for row in 0..5 {
        for col in 0..5 {
            let expected = if row == 2 && (1..=3).contains(&col) {
                Cell::Alive
            } else {
                Cell::Dead
            };
            assert_eq!(u.get_cell(row, col), expected, "horizontal phase at ({},{})", row, col);
        }
    }
}

#[test]
fn lone_cell_dies() {
    let mut u = make_cleared(5, 5);
    u.set_cell(2, 2, Cell::Alive);
    u.tick();
    for row in 0..5 {
        for col in 0..5 {
            assert_eq!(u.get_cell(row, col), Cell::Dead);
        }
    }
}

#[test]
fn transitions_are_exactly_the_grid_diff_in_order() {
    let mut u = Universe::new(6, 6).unwrap();
    let before = snapshot(&u);
    let transitions = u.tick();
    let after = snapshot(&u);
    let mut expected = Vec::new();
    for row in 0..6u32 {
        for col in 0..6u32 {
            let i = (row * 6 + col) as usize;
            if before[i] != after[i] {
                expected.push((row, col, after[i]));
            }
        }
    }
    let reported: Vec<(u32, u32, Cell)> =
        transitions.iter().map(|t| (t.row, t.col, t.state)).collect();
    assert_eq!(reported, expected);
}

#[test]
fn scratch_holds_previous_generation_after_tick() {
    let mut u = Universe::new(5, 4).unwrap();
    // A sentinel flip makes the previous generation distinctive.
    u.set_cell(3, 4, Cell::Alive);
    let before = snapshot(&u);
    u.tick();
    for row in 0..4 {
        for col in 0..5 {
            let i = (row * 5 + col) as usize;
            assert_eq!(u.scratch_cell(row, col), before[i], "scratch at ({},{})", row, col);
        }
    }
}

#[test]
fn tick_preserves_dimensions() {
    let mut u = Universe::new(7, 3).unwrap();
    u.tick();
    assert_eq!(u.width(), 7);
    assert_eq!(u.height(), 3);
}

#[test]
fn full_sync_writes_the_fixed_color_mapping() {
    let mut u = make_cleared(4, 4);
    u.set_cell(0, 0, Cell::Alive);
    u.set_cell(2, 3, Cell::Alive);
    u.full_sync();
    let bytes = u.canvas_data();
    for i in 0..16usize {
        let alive = i == 0 || i == 2 * 4 + 3;
        let expected: [u8; 4] = if alive {
            [255, 255, 255, 255]
        } else {
            [0, 0, 0, 255]
        };
        assert_eq!(&bytes[4 * i..4 * i + 4], &expected, "pixel quad {}", i);
    }
}

#[test]
fn full_sync_is_idempotent() {
    let mut u = Universe::new(5, 4).unwrap();
    u.set_cell(1, 1, Cell::Dead);
    u.full_sync();
    let first = u.canvas_data().clone();
    u.full_sync();
    let second = u.canvas_data().clone();
    assert_eq!(first, second);
}

#[test]
fn apply_transition_repaints_only_one_quad() {
    let mut u = make_cleared(4, 4);
    u.full_sync();
    let before = u.canvas_data().clone();
    u.apply_transition(1, 2, Cell::Alive);
    let after = u.canvas_data();
    let quad = 4 * (1 * 4 + 2);
    for j in 0..before.len() {
        if (quad..quad + 4).contains(&j) {
            assert_eq!(after[j], 255, "byte {}", j);
        } else {
            assert_eq!(after[j], before[j], "byte {}", j);
        }
    }
}
