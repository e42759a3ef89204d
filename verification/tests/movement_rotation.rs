use tetris_core::game::{GameState, Pos};
use tetris_core::movement::{can_move_down, advance_block, move_left, move_right, check_collision};
use tetris_core::rotate::{rotate_block, rotate_current, can_rotate};
use tetris_core::session::spawn_with;
use tetris_core::catalog::{BlockKind, shape_of};
use tetris_core::mat::{mat_from_vec, mat_get};
use tetris_core::BLOCK_SIZE;

/// A mask occupying the four cells of local row y = 0: a horizontal bar.
fn horizontal_bar() -> simple_matrix::Matrix<bool> {
    mat_from_vec(
        BLOCK_SIZE,
        BLOCK_SIZE,
        vec![
            true, false, false, false,
            true, false, false, false,
            true, false, false, false,
            true, false, false, false,
        ],
    )
}

/// Spawns `kind` as the active piece at the start anchor.
fn session_with(kind: BlockKind) -> GameState {
    let mut gs = GameState::new();
    spawn_with(&mut gs, kind);
    spawn_with(&mut gs, kind);
    gs
}

#[test]
fn descends_nineteen_times_then_stops_at_floor() {
    let mut gs = GameState::new();
    gs.current_block = horizontal_bar();
    gs.current_position = Pos { x: 3, y: 0 };
    for _ in 0..19 {
        assert!(can_move_down(&gs));
        advance_block(&mut gs);
    }
    assert_eq!(gs.current_position.y, 19);
    assert!(!can_move_down(&gs));
}

#[test]
fn smashboy_descends_to_its_own_floor() {
    let mut gs = session_with(BlockKind::Smashboy);
    for _ in 0..18 {
        assert!(can_move_down(&gs));
        advance_block(&mut gs);
    }
    assert_eq!(gs.current_position.y, 18);
    assert!(!can_move_down(&gs));
}

#[test]
fn descent_blocked_by_occupied_cell() {
    let mut gs = session_with(BlockKind::Smashboy);
    // Smashboy covers (3..=4, 0..=1); occupy the cell right below one of
    // its bottom cells.
    gs.set_stage(3, 2, true);
    assert!(!can_move_down(&gs));
    // A cell below the other column blocks too.
    let mut gs2 = session_with(BlockKind::Smashboy);
    gs2.set_stage(4, 2, true);
    assert!(!can_move_down(&gs2));
    // A cell elsewhere does not.
    let mut gs3 = session_with(BlockKind::Smashboy);
    gs3.set_stage(7, 2, true);
    assert!(can_move_down(&gs3));
}

#[test]
fn move_left_stops_at_wall() {
    let mut gs = session_with(BlockKind::Smashboy);
    for expected in [2usize, 1, 0] {
        move_left(&mut gs);
        assert_eq!(gs.current_position.x, expected);
    }
    move_left(&mut gs);
    assert_eq!(gs.current_position.x, 0);
}

#[test]
fn move_right_stops_at_wall() {
    let mut gs = session_with(BlockKind::Smashboy);
    for expected in [4usize, 5, 6, 7, 8] {
        move_right(&mut gs);
        assert_eq!(gs.current_position.x, expected);
    }
    move_right(&mut gs);
    assert_eq!(gs.current_position.x, 8);
}

#[test]
fn move_left_blocked_by_occupied_cell() {
    let mut gs = session_with(BlockKind::Smashboy);
    gs.set_stage(2, 1, true);
    move_left(&mut gs);
    assert_eq!(gs.current_position.x, 3);
}

#[test]
fn move_right_blocked_by_occupied_cell() {
    let mut gs = session_with(BlockKind::Smashboy);
    gs.set_stage(5, 0, true);
    move_right(&mut gs);
    assert_eq!(gs.current_position.x, 3);
}

#[test]
fn collision_reported_on_overlap_only() {
    let mut gs = session_with(BlockKind::Smashboy);
    assert!(!check_collision(&gs));
    gs.set_stage(4, 1, true);
    assert!(check_collision(&gs));
}

#[test]
fn hero_rotates_from_vertical_to_horizontal() {
    let mut gs = session_with(BlockKind::Hero);
    // The Hero mask occupies local (0, 0..=3): a vertical bar.
    for y in 0..4 {
        assert!(gs.get_current_block(0, y));
    }
    assert!(rotate_current(&mut gs));
    for x in 0..4 {
        for y in 0..4 {
            assert_eq!(gs.get_current_block(x, y), y == 0);
        }
    }
    assert_eq!(gs.current_position.x, 3);
    assert_eq!(gs.current_position.y, 0);
}

#[test]
fn four_rotations_restore_the_shape() {
    for kind in [
        BlockKind::Smashboy,
        BlockKind::OrangeRicky,
        BlockKind::BlueRicky,
        BlockKind::ClevelandZ,
        BlockKind::RhodeIslandZ,
        BlockKind::Hero,
        BlockKind::Teewee,
    ] {
        let orig = shape_of(kind);
        let mut m = shape_of(kind);
        for _ in 0..4 {
            rotate_block(&mut m);
        }
        for x in 0..4 {
            for y in 0..4 {
                assert_eq!(mat_get(&m, x, y), mat_get(&orig, x, y));
            }
        }
    }
}

#[test]
fn rotation_rejected_against_the_wall() {
    let mut gs = session_with(BlockKind::Hero);
    gs.current_position = Pos { x: 9, y: 0 };
    assert!(!can_rotate(&gs));
    assert!(!rotate_current(&mut gs));
    // Still the vertical bar, anchor untouched.
    for y in 0..4 {
        assert!(gs.get_current_block(0, y));
    }
    assert_eq!(gs.current_position.x, 9);
}

#[test]
fn rotation_rejected_on_occupied_cell() {
    let mut gs = session_with(BlockKind::Hero);
    gs.set_stage(5, 0, true);
    assert!(!rotate_current(&mut gs));
    for y in 0..4 {
        assert!(gs.get_current_block(0, y));
    }
}

#[test]
fn square_rotation_is_identity() {
    let mut gs = session_with(BlockKind::Smashboy);
    assert!(rotate_current(&mut gs));
    for x in 0..4 {
        for y in 0..4 {
            assert_eq!(gs.get_current_block(x, y), x < 2 && y < 2);
        }
    }
}
