use game_of_life::grid::{next_state, Grid};

fn grid_with(n: usize, cells: &[(usize, usize)]) -> Grid {
    let mut g = Grid::new(n);
    for &(r, c) in cells {
        g.toggle(r, c);
    }
    g
}

fn live_cells(g: &Grid) -> Vec<(usize, usize)> {
    let mut out = Vec::new();
    for r in 0..g.size() {
        for c in 0..g.size() {
            if g.get(r, c) {
                out.push((r, c));
            }
        }
    }
    out
}

#[test]
fn rule_table() {
    for n in 0..=8u8 {
        assert_eq!(next_state(true, n), n == 2 || n == 3, "alive with {}", n);
        assert_eq!(next_state(false, n), n == 3, "dead with {}", n);
    }
}

#[test]
fn new_grid_is_dead() {
    let g = Grid::new(25);
    assert_eq!(g.size(), 25);
    assert!(live_cells(&g).is_empty());
}

#[test]
fn dead_grid_stays_dead() {
    let g = Grid::new(25);
    let next = g.advance();
    assert_eq!(next.size(), 25);
    assert!(live_cells(&next).is_empty());
}

#[test]
fn empty_grid_advances() {
    let g = Grid::new(0);
    assert_eq!(g.advance().size(), 0);
}

#[test]
fn lone_cell_dies() {
    let g = grid_with(25, &[(10, 10)]);
    assert_eq!(g.count_live_neighbors(10, 10), 0);
    for dr in 0..3usize {
        for dc in 0..3usize {
            if dr != 1 || dc != 1 {
                assert_eq!(g.count_live_neighbors(9 + dr, 9 + dc), 1);
            }
        }
    }
    assert!(live_cells(&g.advance()).is_empty());
}

#[test]
fn lone_cell_dies_next_to_border() {
    let g = grid_with(5, &[(1, 1)]);
    assert_eq!(g.count_live_neighbors(0, 0), 1);
    assert_eq!(g.count_live_neighbors(0, 1), 1);
    assert!(live_cells(&g.advance()).is_empty());
}

#[test]
fn crowded_cell_dies() {
    let g = grid_with(5, &[(1, 1), (1, 2), (1, 3), (2, 1), (2, 2)]);
    assert_eq!(g.count_live_neighbors(2, 2), 4);
    assert!(!g.advance().get(2, 2));
}

#[test]
fn block_is_still() {
    let cells = [(4, 6), (4, 7), (5, 6), (5, 7)];
    let g = grid_with(25, &cells);
    let next = g.advance();
    assert_eq!(live_cells(&next), cells.to_vec());
}

#[test]
fn block_in_small_grid_is_still() {
    let cells = [(1, 1), (1, 2), (2, 1), (2, 2)];
    let g = grid_with(4, &cells);
    assert_eq!(live_cells(&g.advance()), cells.to_vec());
}

#[test]
fn blinker_oscillates() {
    let across = vec![(12, 11), (12, 12), (12, 13)];
    let down = vec![(11, 12), (12, 12), (13, 12)];
    let g = grid_with(25, &across);
    let once = g.advance();
    assert_eq!(live_cells(&once), down);
    let twice = once.advance();
    assert_eq!(live_cells(&twice), across);
}

#[test]
fn advance_is_repeatable() {
    let g = grid_with(6, &[(0, 0), (0, 1), (2, 3), (3, 3), (4, 3), (5, 5)]);
    let a = g.advance().advance();
    let b = g.advance().advance();
    assert_eq!(live_cells(&a), live_cells(&b));
    assert_eq!(live_cells(&g), vec![(0, 0), (0, 1), (2, 3), (3, 3), (4, 3), (5, 5)]);
}

#[test]
fn border_reads_are_clamped() {
    // (0, 0) reads itself three times through clamping, and (0, 1) twice.
    let g = grid_with(5, &[(0, 0), (0, 1)]);
    assert_eq!(g.count_live_neighbors(0, 0), 5);
    assert_eq!(g.count_live_neighbors(0, 1), 3);
    assert_eq!(g.count_live_neighbors(1, 0), 3);
    assert_eq!(g.count_live_neighbors(1, 1), 2);
    assert_eq!(g.count_live_neighbors(0, 2), 2);
    assert_eq!(live_cells(&g.advance()), vec![(0, 1), (1, 0)]);
}

#[test]
fn far_corner_reads_are_clamped() {
    let g = grid_with(3, &[(2, 2)]);
    assert_eq!(g.count_live_neighbors(2, 2), 3);
    assert_eq!(g.count_live_neighbors(2, 1), 2);
    assert_eq!(g.count_live_neighbors(1, 1), 1);
}

#[test]
fn simulate_replaces_grid() {
    let mut g = grid_with(7, &[(3, 2), (3, 3), (3, 4)]);
    g.simulate();
    assert_eq!(live_cells(&g), vec![(2, 3), (3, 3), (4, 3)]);
    assert_eq!(g.size(), 7);
}

#[test]
fn toggle_twice_restores() {
    let mut g = grid_with(5, &[(2, 2)]);
    g.toggle(2, 2);
    assert!(!g.get(2, 2));
    g.toggle(2, 2);
    assert!(g.get(2, 2));
    g.toggle(0, 4);
    g.toggle(0, 4);
    assert_eq!(live_cells(&g), vec![(2, 2)]);
}

#[test]
fn clear_kills_everything() {
    let mut g = grid_with(5, &[(0, 0), (2, 2), (4, 4)]);
    g.clear();
    assert_eq!(g.size(), 5);
    assert!(live_cells(&g).is_empty());
}
