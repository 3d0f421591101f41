use game_of_life::config::Config;
use game_of_life::game::{look_of, Game, Input, Look};

fn quiet(now_ms: u64) -> Input {
    Input { now_ms, pointer_x: -1, pointer_y: -1, click: false, toggle_run: false, reset: false }
}

fn click_at(now_ms: u64, x: i64, y: i64) -> Input {
    Input { click: true, pointer_x: x, pointer_y: y, ..quiet(now_ms) }
}

fn live_count(g: &Game) -> usize {
    let mut n = 0;
    for r in 0..g.grid.size() {
        for c in 0..g.grid.size() {
            if g.grid.get(r, c) {
                n += 1;
            }
        }
    }
    n
}

#[test]
fn new_game_is_paused_and_dead() {
    let g = Game::new(Config::classic(), 500);
    assert!(!g.running);
    assert_eq!(g.deadline_ms, 500);
    assert_eq!(g.grid.size(), 25);
    assert_eq!(live_count(&g), 0);
}

#[test]
fn click_flips_cell_under_pointer() {
    let mut g = Game::new(Config::classic(), 0);
    assert!(!g.frame(&click_at(10, 45, 130)));
    assert!(g.grid.get(3, 1));
    assert_eq!(live_count(&g), 1);
}

#[test]
fn click_twice_restores_cell() {
    let mut g = Game::new(Config::classic(), 0);
    g.click(85, 85);
    g.click(200, 40);
    assert!(g.grid.get(1, 5));
    g.click(200, 40);
    assert!(!g.grid.get(1, 5));
    assert!(g.grid.get(2, 2));
}

#[test]
fn click_outside_is_ignored() {
    let mut g = Game::new(Config::classic(), 0);
    g.frame(&click_at(0, 1000, 10));
    g.frame(&click_at(0, -3, 10));
    assert_eq!(live_count(&g), 0);
}

#[test]
fn toggle_parity() {
    let mut g = Game::new(Config::classic(), 1_000_000);
    let toggle = Input { toggle_run: true, ..quiet(0) };
    for k in 1..=6 {
        g.frame(&toggle);
        assert_eq!(g.running, k % 2 == 1);
        g.frame(&quiet(0));
        assert_eq!(g.running, k % 2 == 1);
    }
    assert!(!g.running);
}

#[test]
fn reset_clears_and_keeps_flag() {
    let mut g = Game::new(Config::classic(), 1_000_000);
    g.click(10, 10);
    g.click(500, 500);
    g.toggle_run();
    g.reset();
    assert_eq!(live_count(&g), 0);
    assert!(g.running);
    assert_eq!(g.deadline_ms, 1_000_000);
}

#[test]
fn reset_frame_wins_over_click() {
    let mut g = Game::new(Config::classic(), 1_000_000);
    g.click(10, 10);
    let input = Input { reset: true, ..click_at(0, 500, 500) };
    g.frame(&input);
    assert_eq!(live_count(&g), 0);
    assert!(!g.running);
}

#[test]
fn paused_game_does_not_advance() {
    let mut g = Game::new(Config::classic(), 0);
    g.click(40, 0);
    assert!(!g.frame(&quiet(5000)));
    assert!(g.grid.get(0, 1));
    assert_eq!(g.deadline_ms, 0);
}

#[test]
fn running_game_advances_when_due() {
    let mut g = Game::new(Config::classic(), 100);
    // A blinker across row 12, centred on column 12.
    g.click(11 * 40, 12 * 40);
    g.click(12 * 40, 12 * 40);
    g.click(13 * 40, 12 * 40);
    let start = Input { toggle_run: true, ..quiet(50) };
    assert!(!g.frame(&start));
    assert!(g.running);
    assert_eq!(g.deadline_ms, 100);
    assert!(g.frame(&quiet(100)));
    assert_eq!(g.deadline_ms, 1100);
    assert!(g.grid.get(11, 12) && g.grid.get(12, 12) && g.grid.get(13, 12));
    assert_eq!(live_count(&g), 3);
    assert!(!g.frame(&quiet(1099)));
    assert!(g.grid.get(11, 12));
    assert!(g.frame(&quiet(1100)));
    assert!(g.grid.get(12, 11) && g.grid.get(12, 12) && g.grid.get(12, 13));
    assert_eq!(g.deadline_ms, 2100);
}

#[test]
fn toggle_and_due_in_one_frame_advances() {
    let mut g = Game::new(Config::classic(), 0);
    g.click(400, 400);
    let input = Input { toggle_run: true, ..quiet(10) };
    assert!(g.frame(&input));
    assert_eq!(live_count(&g), 0);
    assert_eq!(g.deadline_ms, 1010);
}

#[test]
fn deadline_saturates() {
    let mut g = Game::new(Config::classic(), 0);
    g.toggle_run();
    assert!(g.frame(&quiet(u64::MAX - 10)));
    assert_eq!(g.deadline_ms, u64::MAX);
}

#[test]
fn hover_cell_follows_pointer() {
    let g = Game::new(Config::classic(), 0);
    assert_eq!(g.hover_cell(45, 130), Some((3, 1)));
    assert_eq!(g.hover_cell(-1, 0), None);
}

#[test]
fn looks() {
    assert_eq!(look_of(true, false), Look::Filled);
    assert_eq!(look_of(true, true), Look::Filled);
    assert_eq!(look_of(false, true), Look::Highlighted);
    assert_eq!(look_of(false, false), Look::Faint);
}
