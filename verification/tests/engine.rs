use lifestep::engine::Engine;
use lifestep::grid::Grid;
use lifestep::life::apply_rule;

fn grid3() -> Grid {
    Grid::new(4, 3).expect("positive scalars")
}

/// Columns left-to-right, rows top-to-bottom: two live cells in the first
/// column, one atop the second.
fn scenario_state() -> Vec<Vec<bool>> {
    vec![
        vec![true, true, false],
        vec![true, false, false],
        vec![false, false, false],
    ]
}

fn scenario_expected() -> Vec<Vec<bool>> {
    vec![
        vec![true, true, false],
        vec![true, true, false],
        vec![false, false, false],
    ]
}

#[test]
fn rule_table_exact() {
    let expected_alive = [false, false, true, true, false, false, false, false, false];
    let expected_dead = [false, false, false, true, false, false, false, false, false];
    for n in 0..9i8 {
        assert_eq!(apply_rule(true, n), expected_alive[n as usize]);
        assert_eq!(apply_rule(false, n), expected_dead[n as usize]);
    }
}

#[test]
fn grid_rejects_non_positive() {
    assert!(Grid::new(0, 3).is_none());
    assert!(Grid::new(4, 0).is_none());
    assert!(Grid::new(-1, 3).is_none());
    assert!(Grid::new(4, -7).is_none());
    let g = Grid::new(4, 150).expect("both positive");
    assert_eq!(g.cell_size(), 4);
    assert_eq!(g.side(), 150);
}

#[test]
fn concrete_three_by_three_step() {
    let mut e = Engine::from_state(grid3(), scenario_state()).expect("square matrix");
    let done = e.advance(u64::MAX);
    assert!(done);
    assert_eq!(e.current_generation(), &scenario_expected());
}

#[test]
fn split_step_equals_single_step() {
    let mut whole = Engine::from_state(grid3(), scenario_state()).expect("square matrix");
    assert!(whole.advance_columns(usize::MAX));

    let mut pieces = Engine::from_state(grid3(), scenario_state()).expect("square matrix");
    let mut calls = 0;
    while !pieces.advance_columns(1) {
        calls += 1;
        assert!(calls < 10, "a 3x3 step needs at most three calls");
    }
    assert_eq!(pieces.current_generation(), whole.current_generation());
    assert_eq!(pieces.current_generation(), &scenario_expected());
}

#[test]
fn zero_budget_still_progresses() {
    let mut e = Engine::from_state(grid3(), scenario_state()).expect("square matrix");
    assert!(e.idle());
    assert!(!e.advance_columns(0));
    assert_eq!(e.progress(), 1);
    assert!(!e.advance_columns(0));
    assert_eq!(e.progress(), 2);
    assert!(e.advance_columns(0));
    assert!(e.idle());
    assert_eq!(e.current_generation(), &scenario_expected());
}

#[test]
fn zero_time_budget_completes_eventually() {
    let mut e = Engine::from_state(grid3(), scenario_state()).expect("square matrix");
    let mut calls = 0;
    while !e.advance(0) {
        calls += 1;
        assert!(calls < 10, "a 3x3 step needs at most three calls");
    }
    assert_eq!(e.current_generation(), &scenario_expected());
}

#[test]
fn idle_has_no_carry_over() {
    // Drive one engine through two whole generations.
    let mut veteran = Engine::from_state(grid3(), scenario_state()).expect("square matrix");
    while !veteran.advance_columns(1) {}
    let after_one = veteran.current_generation().clone();
    while !veteran.advance_columns(1) {}

    // A fresh engine started at the intermediate generation must agree.
    let mut fresh = Engine::from_state(grid3(), after_one).expect("square matrix");
    assert!(fresh.advance_columns(usize::MAX));
    assert_eq!(fresh.current_generation(), veteran.current_generation());
}

#[test]
fn neighbor_counts_clamp_at_boundary() {
    let all_alive = vec![
        vec![true, true, true],
        vec![true, true, true],
        vec![true, true, true],
    ];
    let e = Engine::from_state(grid3(), all_alive).expect("square matrix");
    // Corners see three neighbors, never wrapped ones.
    assert_eq!(e.neighbor_count(0, 0), 3);
    assert_eq!(e.neighbor_count(0, 2), 3);
    assert_eq!(e.neighbor_count(2, 0), 3);
    assert_eq!(e.neighbor_count(2, 2), 3);
    // Non-corner edge cells see five.
    assert_eq!(e.neighbor_count(0, 1), 5);
    assert_eq!(e.neighbor_count(1, 0), 5);
    assert_eq!(e.neighbor_count(2, 1), 5);
    assert_eq!(e.neighbor_count(1, 2), 5);
    // The interior cell sees all eight.
    assert_eq!(e.neighbor_count(1, 1), 8);
}

#[test]
fn from_state_rejects_wrong_dimensions() {
    let short = vec![vec![true, true, false], vec![false, false, false]];
    assert!(Engine::from_state(grid3(), short).is_none());
    let ragged = vec![
        vec![true, true, false],
        vec![false, false],
        vec![false, false, false],
    ];
    assert!(Engine::from_state(grid3(), ragged).is_none());
    let empty: Vec<Vec<bool>> = vec![];
    assert!(Engine::from_state(grid3(), empty).is_none());
}

#[test]
fn dead_universe_stays_dead() {
    let grid = Grid::new(2, 5).expect("both positive");
    let mut e = Engine::new(grid);
    assert!(e.advance(u64::MAX));
    for col in e.current_generation() {
        assert_eq!(col.len(), 5);
        for &cell in col {
            assert!(!cell);
        }
    }
}

#[test]
fn blinker_oscillates_with_period_two() {
    let vertical = vec![
        vec![false, false, false],
        vec![true, true, true],
        vec![false, false, false],
    ];
    let horizontal = vec![
        vec![false, true, false],
        vec![false, true, false],
        vec![false, true, false],
    ];
    let mut e = Engine::from_state(grid3(), vertical.clone()).expect("square matrix");
    assert!(e.advance(u64::MAX));
    assert_eq!(e.current_generation(), &horizontal);
    assert!(e.advance(u64::MAX));
    assert_eq!(e.current_generation(), &vertical);
}

#[test]
fn initialize_enters_idle_with_square_generation() {
    let grid = Grid::new(4, 8).expect("both positive");
    let mut e = Engine::new(grid);
    // Leave a step half done, then re-initialize over it.
    assert!(!e.advance_columns(2));
    e.initialize();
    assert!(e.idle());
    assert_eq!(e.progress(), 0);
    let gen = e.current_generation();
    assert_eq!(gen.len(), 8);
    for col in gen {
        assert_eq!(col.len(), 8);
    }
    // The randomized engine still steps to completion.
    assert!(e.advance(u64::MAX));
    assert!(e.idle());
}
