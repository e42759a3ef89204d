use tetris_core::game::{GameState, Pos, State};
use tetris_core::clear::{is_full_row, remove_full_rows};
use tetris_core::movement::apply_block_to_stage;
use tetris_core::session::{
    spawn_with, generate_new_block, update_tick, update_tick_with, process_level_up,
    process_game_over,
};
use tetris_core::catalog::{BlockKind, shape_of};
use tetris_core::mat::{mat_from_vec, mat_get};
use tetris_core::{STAGE_WIDTH, BLOCK_SIZE, UPDATE_LIMIT_MS};

fn fill_row(gs: &mut GameState, y: usize) {
    for x in 0..STAGE_WIDTH {
        gs.set_stage(x, y, true);
    }
}

fn occupied_cells(gs: &GameState) -> Vec<(usize, usize)> {
    let mut v = Vec::new();
    for x in 0..10 {
        for y in 0..20 {
            if gs.get_stage(x, y) {
                v.push((x, y));
            }
        }
    }
    v
}

/// A mask occupying only local (0, 0).
fn single_cell() -> simple_matrix::Matrix<bool> {
    let mut data = vec![false; 16];
    data[0] = true;
    mat_from_vec(BLOCK_SIZE, BLOCK_SIZE, data)
}

fn session_with(kind: BlockKind) -> GameState {
    let mut gs = GameState::new();
    spawn_with(&mut gs, kind);
    spawn_with(&mut gs, kind);
    gs
}

#[test]
fn full_row_detection() {
    let mut gs = GameState::new();
    for x in 0..9 {
        gs.set_stage(x, 7, true);
    }
    assert!(!is_full_row(&gs, 7));
    gs.set_stage(9, 7, true);
    assert!(is_full_row(&gs, 7));
    assert!(!is_full_row(&gs, 6));
}

#[test]
fn two_bottom_rows_clear_and_leave_the_field_empty() {
    let mut gs = GameState::new();
    fill_row(&mut gs, 18);
    fill_row(&mut gs, 19);
    let cleared = remove_full_rows(&mut gs);
    assert!(cleared);
    assert_eq!(gs.lines, 2);
    assert_eq!(gs.score, 250);
    assert!(occupied_cells(&gs).is_empty());
}

#[test]
fn cells_above_cleared_rows_shift_down_in_order() {
    let mut gs = GameState::new();
    fill_row(&mut gs, 18);
    fill_row(&mut gs, 19);
    gs.set_stage(0, 17, true);
    gs.set_stage(5, 15, true);
    let cleared = remove_full_rows(&mut gs);
    assert!(cleared);
    assert_eq!(gs.lines, 2);
    assert_eq!(occupied_cells(&gs), vec![(0, 19), (5, 17)]);
}

#[test]
fn single_row_scores_without_bonus() {
    let mut gs = GameState::new();
    fill_row(&mut gs, 19);
    assert!(remove_full_rows(&mut gs));
    assert_eq!(gs.score, 100);
    assert_eq!(gs.lines, 1);
}

#[test]
fn four_rows_score_with_one_bonus() {
    let mut gs = GameState::new();
    for y in 16..20 {
        fill_row(&mut gs, y);
    }
    assert!(remove_full_rows(&mut gs));
    assert_eq!(gs.score, 450);
    assert_eq!(gs.lines, 4);
}

#[test]
fn interleaved_full_rows_cascade() {
    let mut gs = GameState::new();
    fill_row(&mut gs, 19);
    fill_row(&mut gs, 18);
    fill_row(&mut gs, 16);
    gs.set_stage(0, 17, true);
    assert!(remove_full_rows(&mut gs));
    assert_eq!(gs.lines, 3);
    assert_eq!(gs.score, 350);
    assert_eq!(occupied_cells(&gs), vec![(0, 19)]);
}

#[test]
fn no_full_rows_is_a_quiet_pass() {
    let mut gs = GameState::new();
    gs.set_stage(4, 12, true);
    assert!(!remove_full_rows(&mut gs));
    assert_eq!(gs.score, 0);
    assert_eq!(gs.lines, 0);
    assert_eq!(occupied_cells(&gs), vec![(4, 12)]);
}

#[test]
fn locking_writes_exactly_the_piece_cells() {
    let mut gs = session_with(BlockKind::Smashboy);
    gs.current_position = Pos { x: 6, y: 17 };
    apply_block_to_stage(&mut gs);
    assert_eq!(occupied_cells(&gs), vec![(6, 17), (6, 18), (7, 17), (7, 18)]);
}

#[test]
fn spawning_promotes_the_buffered_piece() {
    let mut gs = GameState::new();
    spawn_with(&mut gs, BlockKind::Smashboy);
    // The very first buffered piece was empty.
    for x in 0..4 {
        for y in 0..4 {
            assert!(!gs.get_current_block(x, y));
        }
    }
    spawn_with(&mut gs, BlockKind::Hero);
    let smash = shape_of(BlockKind::Smashboy);
    let hero = shape_of(BlockKind::Hero);
    for x in 0..4 {
        for y in 0..4 {
            assert_eq!(gs.get_current_block(x, y), mat_get(&smash, x, y));
            assert_eq!(gs.get_next_block(x, y), mat_get(&hero, x, y));
        }
    }
    assert_eq!(gs.current_position.x, 3);
    assert_eq!(gs.current_position.y, 0);
}

#[test]
fn random_draw_buffers_a_catalog_shape() {
    let mut gs = GameState::new();
    generate_new_block(&mut gs);
    generate_new_block(&mut gs);
    let kinds = [
        BlockKind::Smashboy,
        BlockKind::OrangeRicky,
        BlockKind::BlueRicky,
        BlockKind::ClevelandZ,
        BlockKind::RhodeIslandZ,
        BlockKind::Hero,
        BlockKind::Teewee,
    ];
    let mut cur = Vec::new();
    let mut nxt = Vec::new();
    for x in 0..4 {
        for y in 0..4 {
            cur.push(gs.get_current_block(x, y));
            nxt.push(gs.get_next_block(x, y));
        }
    }
    let is_catalog = |cells: &Vec<bool>| {
        kinds.iter().any(|k| {
            let m = shape_of(*k);
            (0..4).all(|x| (0..4).all(|y| cells[x * 4 + y] == mat_get(&m, x, y)))
        })
    };
    assert!(is_catalog(&cur), "current block is not a catalog shape");
    assert!(is_catalog(&nxt), "next block is not a catalog shape");
    assert_eq!(gs.current_position.x, 3);
    assert_eq!(gs.current_position.y, 0);
}

#[test]
fn tick_descends_when_room_is_left() {
    let mut gs = session_with(BlockKind::Smashboy);
    let cleared = update_tick(&mut gs);
    assert!(!cleared);
    assert_eq!(gs.current_position.y, 1);
    assert_eq!(gs.score, 0);
    assert!(gs.status == State::Running);
}

#[test]
fn spawn_into_filled_footprint_is_game_over() {
    let mut gs = session_with(BlockKind::Smashboy);
    // Pre-fill the top two rows where the spawn footprint lands.
    for y in 0..2 {
        for x in 3..5 {
            gs.set_stage(x, y, true);
        }
    }
    // Park the active piece on the floor so that the tick locks it and
    // spawns the buffered piece into the filled footprint.
    gs.current_position = Pos { x: 0, y: 18 };
    let cleared = update_tick_with(&mut gs, BlockKind::Teewee);
    assert!(!cleared);
    assert!(gs.status == State::GameOver);
}

#[test]
fn level_up_pends_exactly_when_score_crosses_the_threshold() {
    let mut gs = GameState::new();
    spawn_with(&mut gs, BlockKind::Smashboy);
    for i in 1..=10i64 {
        gs.current_block = single_cell();
        gs.current_position = Pos { x: 9, y: 19 };
        for x in 0..9 {
            gs.set_stage(x, 19, true);
        }
        let cleared = update_tick_with(&mut gs, BlockKind::Smashboy);
        assert!(cleared);
        assert_eq!(gs.score, i * 100);
        assert_eq!(gs.lines, i);
        if i < 10 {
            assert!(gs.status == State::Running, "pending too early at {}", i);
        } else {
            assert!(gs.status == State::LevelDone);
        }
    }
    let new_high = process_level_up(&mut gs);
    assert!(new_high);
    assert_eq!(gs.level, 2);
    assert_eq!(gs.high_score, 1000);
    assert!(gs.status == State::Running);
    assert_eq!(gs.update_interval, 450);
}

#[test]
fn interval_shrinks_to_its_floor_and_stays() {
    let mut gs = GameState::new();
    let mut expected = [450u64, 400, 350, 300, 250, 200, 200, 200].to_vec();
    for want in expected.drain(..) {
        gs.status = State::LevelDone;
        process_level_up(&mut gs);
        assert_eq!(gs.update_interval, want);
        assert!(gs.update_interval >= UPDATE_LIMIT_MS);
    }
}

#[test]
fn game_over_persists_the_high_score_once() {
    let mut gs = GameState::new();
    gs.score = 500;
    gs.status = State::GameOver;
    assert!(process_game_over(&mut gs));
    assert_eq!(gs.high_score, 500);
    assert!(!process_game_over(&mut gs));
    assert_eq!(gs.high_score, 500);
    assert!(gs.status == State::GameOver);
}

#[test]
fn game_over_keeps_a_higher_stored_score() {
    let mut gs = GameState::new();
    gs.set_high_score(900);
    gs.score = 500;
    gs.status = State::GameOver;
    assert!(!process_game_over(&mut gs));
    assert_eq!(gs.high_score, 900);
}
