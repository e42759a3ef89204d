use tetris_core::game::{GameState, State};
use tetris_core::parse::parse_high_score;
use tetris_core::{STAGE_WIDTH, STAGE_HEIGHT, UPDATE_INTERVAL_MS};

#[test]
fn new_session_defaults() {
    let gs = GameState::new();
    assert_eq!(gs.score, 0);
    assert_eq!(gs.high_score, 0);
    assert_eq!(gs.level, 1);
    assert_eq!(gs.lines, 0);
    assert!(gs.status == State::Running);
    assert_eq!(gs.update_interval, UPDATE_INTERVAL_MS);
    assert_eq!(gs.current_position.x, 0);
    assert_eq!(gs.current_position.y, 0);
    for x in 0..STAGE_WIDTH {
        for y in 0..STAGE_HEIGHT {
            assert!(!gs.get_stage(x, y));
        }
    }
    for x in 0..4 {
        for y in 0..4 {
            assert!(!gs.get_current_block(x, y));
            assert!(!gs.get_next_block(x, y));
        }
    }
}

#[test]
fn set_stage_then_get_stage() {
    let mut gs = GameState::new();
    gs.set_stage(3, 5, true);
    assert!(gs.get_stage(3, 5));
    assert!(!gs.get_stage(5, 3));
    assert!(!gs.get_stage(3, 4));
    assert!(!gs.get_stage(2, 5));
    gs.set_stage(3, 5, false);
    assert!(!gs.get_stage(3, 5));
}

#[test]
fn inc_score_accumulates() {
    let mut gs = GameState::new();
    gs.inc_score(100);
    gs.inc_score(50);
    assert_eq!(gs.score, 150);
}

#[test]
fn set_high_score_installs_loaded_value() {
    let mut gs = GameState::new();
    gs.set_high_score(4321);
    assert_eq!(gs.high_score, 4321);
    assert_eq!(gs.score, 0);
}

#[test]
fn parse_plain_number() {
    assert_eq!(parse_high_score(&b"12345".to_vec()), 12345);
    assert_eq!(parse_high_score(&b"0".to_vec()), 0);
    assert_eq!(parse_high_score(&b"007".to_vec()), 7);
}

#[test]
fn parse_empty_falls_back_to_zero() {
    assert_eq!(parse_high_score(&Vec::new()), 0);
}

#[test]
fn parse_corrupt_falls_back_to_zero() {
    assert_eq!(parse_high_score(&b"12a4".to_vec()), 0);
    assert_eq!(parse_high_score(&b"-5".to_vec()), 0);
    assert_eq!(parse_high_score(&b" 12".to_vec()), 0);
}

#[test]
fn parse_handles_i64_boundary() {
    assert_eq!(parse_high_score(&b"9223372036854775807".to_vec()), i64::MAX);
    assert_eq!(parse_high_score(&b"9223372036854775808".to_vec()), 0);
    assert_eq!(parse_high_score(&b"99999999999999999999999".to_vec()), 0);
}
