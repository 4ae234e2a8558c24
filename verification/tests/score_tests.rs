use tetris_core::score::Scoring;

#[test]
fn new_scoring_is_zero() {
    let s = Scoring::new();
    assert_eq!(s.score(), 0);
    assert_eq!(s.lines(), 0);
    assert_eq!(s.level(), 0);
}

#[test]
fn level_is_lines_over_ten() {
    let mut s = Scoring::new();
    for _ in 0..9 {
        s.line_clears(1);
    }
    assert_eq!(s.lines(), 9);
    assert_eq!(s.level(), 0);
    s.line_clears(1);
    assert_eq!(s.lines(), 10);
    assert_eq!(s.level(), 1);
    for _ in 0..5 {
        s.line_clears(4);
    }
    assert_eq!(s.lines(), 30);
    assert_eq!(s.level(), 3);
}

#[test]
fn clear_values_by_count_at_level_zero() {
    let mut s = Scoring::new();
    s.line_clears(1);
    assert_eq!(s.score(), 100);
    let mut s = Scoring::new();
    s.line_clears(2);
    assert_eq!(s.score(), 300);
    let mut s = Scoring::new();
    s.line_clears(3);
    assert_eq!(s.score(), 500);
    let mut s = Scoring::new();
    s.line_clears(4);
    assert_eq!(s.score(), 800);
}

#[test]
fn clear_value_scales_with_level() {
    let mut s = Scoring::new();
    // Reach level 2 first: 20 single clears at levels 0 and 1.
    for _ in 0..20 {
        s.line_clears(1);
    }
    let before = s.score();
    assert_eq!(s.level(), 2);
    s.line_clears(4);
    assert_eq!(s.score(), before + 800 * 3);
}

#[test]
fn zero_lines_changes_nothing() {
    let mut s = Scoring::new();
    s.line_clears(2);
    let score = s.score();
    let lines = s.lines();
    s.line_clears(0);
    assert_eq!(s.score(), score);
    assert_eq!(s.lines(), lines);
}

#[test]
fn drop_points_per_row() {
    let mut s = Scoring::new();
    s.soft_drop(7);
    assert_eq!(s.score(), 7);
    s.hard_drop(21);
    assert_eq!(s.score(), 7 + 42);
    assert_eq!(s.lines(), 0);
}
