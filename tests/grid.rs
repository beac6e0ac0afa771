use life::grid::{generation, next_cell, randomize, world_from_bits, World, ALIVE, DEAD};

fn world_with(width: usize, height: usize, live: &[(usize, usize)]) -> World {
    let mut w = World::dead(width, height);
    for &(x, y) in live {
        w.set(x, y, true);
    }
    w
}

fn live_cells(w: &World) -> Vec<(usize, usize)> {
    let mut out = Vec::new();
    for x in 0..w.width() {
        for y in 0..w.height() {
            if w.is_alive(x, y) {
                out.push((x, y));
            }
        }
    }
    out
}

#[test]
fn generation_keeps_dimensions() {
    for &(w, h) in &[(1usize, 1usize), (3, 7), (10, 4), (0, 5), (5, 0)] {
        let world = world_with(w, h, &[]);
        let next = generation(&world);
        assert_eq!(next.width(), w);
        assert_eq!(next.height(), h);
    }
    let big = randomize(World::dead(40, 30));
    let next = generation(&big);
    assert_eq!((next.width(), next.height()), (40, 30));
}

#[test]
fn live_cell_with_one_neighbor_dies() {
    let w = world_with(5, 5, &[(2, 2), (2, 3)]);
    assert_eq!(w.neighbors(2, 2), 1);
    let next = generation(&w);
    assert!(!next.is_alive(2, 2));
    assert!(!next.is_alive(2, 3));
}

#[test]
fn live_cell_with_two_or_three_neighbors_survives() {
    let two = world_with(5, 5, &[(2, 2), (1, 2), (3, 2)]);
    assert_eq!(two.neighbors(2, 2), 2);
    assert!(generation(&two).is_alive(2, 2));
    let three = world_with(5, 5, &[(2, 2), (1, 1), (3, 3), (1, 3)]);
    assert_eq!(three.neighbors(2, 2), 3);
    assert!(generation(&three).is_alive(2, 2));
}

#[test]
fn live_cell_with_four_neighbors_dies() {
    let w = world_with(5, 5, &[(2, 2), (1, 2), (3, 2), (2, 1), (2, 3)]);
    assert_eq!(w.neighbors(2, 2), 4);
    assert!(!generation(&w).is_alive(2, 2));
    let full = world_with(3, 3, &[(0, 0), (1, 0), (2, 0), (0, 1), (1, 1), (2, 1), (0, 2), (1, 2), (2, 2)]);
    assert_eq!(full.neighbors(1, 1), 8);
    assert!(!generation(&full).is_alive(1, 1));
}

#[test]
fn dead_cell_with_three_neighbors_is_born() {
    let w = world_with(5, 5, &[(1, 1), (3, 1), (2, 3)]);
    assert_eq!(w.neighbors(2, 2), 3);
    assert!(generation(&w).is_alive(2, 2));
}

#[test]
fn dead_cell_without_three_neighbors_stays_dead() {
    let two = world_with(5, 5, &[(1, 1), (3, 1)]);
    assert_eq!(two.neighbors(2, 2), 2);
    assert!(!generation(&two).is_alive(2, 2));
    let four = world_with(5, 5, &[(1, 1), (3, 1), (1, 3), (3, 3)]);
    assert_eq!(four.neighbors(2, 2), 4);
    assert!(!generation(&four).is_alive(2, 2));
}

#[test]
fn next_cell_follows_the_rule_for_every_count() {
    for count in 0u8..=8 {
        let survive = if count == 2 || count == 3 { ALIVE } else { DEAD };
        let born = if count == 3 { ALIVE } else { DEAD };
        assert_eq!(next_cell(ALIVE, count), survive, "live cell, {} neighbors", count);
        assert_eq!(next_cell(DEAD, count), born, "dead cell, {} neighbors", count);
    }
}

#[test]
fn corner_counts_only_cells_on_the_grid() {
    let all: Vec<(usize, usize)> = (0..5).flat_map(|x| (0..5).map(move |y| (x, y))).collect();
    let full = world_with(5, 5, &all);
    assert_eq!(full.neighbors(0, 0), 3);
    assert_eq!(full.neighbors(4, 4), 3);
    assert_eq!(full.neighbors(0, 2), 5);
    assert_eq!(full.neighbors(2, 2), 8);
    let corner = world_with(5, 5, &[(1, 0), (0, 1), (1, 1), (4, 4), (4, 0), (0, 4)]);
    assert_eq!(corner.neighbors(0, 0), 3);
    assert!(generation(&corner).is_alive(0, 0));
}

#[test]
fn empty_world_stays_empty() {
    let w = World::dead(8, 6);
    assert_eq!(generation(&w), w);
}

#[test]
fn lone_cell_dies() {
    let w = world_with(5, 5, &[(2, 2)]);
    let next = generation(&w);
    assert_eq!(next, World::dead(5, 5));
    assert!(live_cells(&next).is_empty());
}

#[test]
fn block_is_still_life() {
    let block = world_with(6, 6, &[(2, 2), (3, 2), (2, 3), (3, 3)]);
    assert_eq!(generation(&block), block);
    let corner_block = world_with(4, 4, &[(0, 0), (1, 0), (0, 1), (1, 1)]);
    assert_eq!(generation(&corner_block), corner_block);
}

#[test]
fn blinker_has_period_two() {
    let row = world_with(5, 5, &[(1, 2), (2, 2), (3, 2)]);
    let once = generation(&row);
    assert_eq!(live_cells(&once), vec![(2, 1), (2, 2), (2, 3)]);
    assert_ne!(once, row);
    assert_eq!(generation(&once), row);
}

#[test]
fn step_leaves_input_unchanged() {
    let row = world_with(5, 5, &[(1, 2), (2, 2), (3, 2)]);
    let copy = row.clone();
    let _ = generation(&row);
    assert_eq!(row, copy);
}

#[test]
fn set_changes_one_cell() {
    let mut w = World::dead(3, 2);
    w.set(2, 1, true);
    assert_eq!(w.cell(2, 1), ALIVE);
    assert_eq!(live_cells(&w), vec![(2, 1)]);
    w.set(2, 1, false);
    assert_eq!(w.cell(2, 1), DEAD);
    assert_eq!(w, World::dead(3, 2));
}

#[test]
fn randomize_is_about_half_alive() {
    let w = randomize(World::dead(266, 166));
    assert_eq!((w.width(), w.height()), (266, 166));
    let total = 266 * 166;
    let alive = live_cells(&w).len();
    for x in 0..w.width() {
        for y in 0..w.height() {
            let c = w.cell(x, y);
            assert!(c == ALIVE || c == DEAD);
        }
    }
    let share = alive as f64 / total as f64;
    assert!(share > 0.45 && share < 0.55, "share of live cells {}", share);
}

#[test]
fn world_from_bits_sets_each_cell_from_its_bit() {
    let bits = vec![vec![true, false, false], vec![false, true, true]];
    let w = world_from_bits(2, 3, &bits);
    assert_eq!((w.width(), w.height()), (2, 3));
    assert_eq!(live_cells(&w), vec![(0, 0), (1, 1), (1, 2)]);
    assert_eq!(w.cell(0, 1), DEAD);
    let none = world_from_bits(2, 3, &vec![vec![false; 3]; 2]);
    assert_eq!(none, World::dead(2, 3));
}

#[test]
fn world_from_bits_ignores_any_earlier_world() {
    let bits = vec![vec![false, true], vec![true, false], vec![true, true]];
    let a = world_from_bits(3, 2, &bits);
    let b = world_from_bits(3, 2, &bits);
    assert_eq!(a, b);
    assert_eq!(live_cells(&a), vec![(0, 1), (1, 0), (2, 0), (2, 1)]);
}

#[test]
fn randomize_does_not_keep_a_full_world() {
    let mut full = World::dead(120, 100);
    for x in 0..120 {
        for y in 0..100 {
            full.set(x, y, true);
        }
    }
    let r = randomize(full.clone());
    assert_eq!((r.width(), r.height()), (120, 100));
    assert_ne!(r, full);
}
