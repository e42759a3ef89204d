//! The game session state machine: spawning, the gravity tick, leveling and
//! the game-over and level-up bookkeeping.
//!
//! The random piece source is reached through one trusted wrapper; all the
//! logic that consumes the draw takes the drawn kind as an argument and is
//! verified for every value of it.

use vstd::prelude::*;
use rand::Rng;
use crate::game::{GameState, Pos, State, same_counters};
use crate::catalog::{BlockKind, shape_mask, is_catalog_mask, shape_of, kind_from_index};
use crate::mat::mat_clone;
use crate::movement::{
    spec_can_descend, spec_overlaps, locked_cells, can_move_down, advance_block,
    apply_block_to_stage, check_collision,
};
use crate::model::{rows_of, cleared_stage_rows, num_full};
use crate::clear::remove_full_rows;
use crate::{
    STAGE_HEIGHT, START_X, START_Y, ROW_SCORE, BONUS_SCORE, LEVEL_UP_SCORE, UPDATE_STEP_MS,
    UPDATE_LIMIT_MS,
};

verus! {

/// Relies on rand::Rng::gen_range on the range 0..n: the draw lies below n;
/// it panics only on an empty range.
#[verifier::external_body]
fn random_below(n: usize) -> (r: usize)
    requires
        n > 0,
    ensures
        r < n,
{
    rand::thread_rng().gen_range(0..n)
}

/// Promotes the buffered piece to active, buffers the piece of the given
/// kind, and resets the anchor to the spawn position.
pub fn spawn_with(game_state: &mut GameState, kind: BlockKind)
    requires
        old(game_state).wf(),
    ensures
        final(game_state).wf(),
        final(game_state).cur_cells() == old(game_state).next_cells(),
        final(game_state).next_cells() == shape_mask(kind),
        final(game_state).current_position == (Pos { x: START_X, y: START_Y }),
        final(game_state).stage == old(game_state).stage,
        same_counters(*old(game_state), *final(game_state)),
{
    game_state.current_block = mat_clone(&game_state.next_block);
    game_state.next_block = shape_of(kind);
    game_state.current_position = Pos { x: START_X, y: START_Y };
}

/// Promotes the buffered piece and draws the new buffered piece from the
/// random source. Whatever the source returns, the new buffered mask is one
/// of the seven catalog shapes.
pub fn generate_new_block(game_state: &mut GameState)
    requires
        old(game_state).wf(),
    ensures
        final(game_state).wf(),
        final(game_state).cur_cells() == old(game_state).next_cells(),
        is_catalog_mask(final(game_state).next_cells()),
        final(game_state).current_position == (Pos { x: START_X, y: START_Y }),
        final(game_state).stage == old(game_state).stage,
        same_counters(*old(game_state), *final(game_state)),
{
    let part = random_below(7);
    let kind = kind_from_index(part);
    spawn_with(game_state, kind);
    proof {
        assert(game_state.next_cells() == shape_mask(kind));
    }
}

/// What one gravity tick does, given the mask that ends up buffered.
///
/// When the piece can descend it falls one row and nothing else changes.
/// Otherwise the piece locks into the stage, full rows are cleared and
/// scored, the buffered piece is promoted to the spawn anchor, the given
/// mask is buffered, and the status becomes GameOver on a spawn collision,
/// LevelDone when the new score reaches the level's threshold, and stays
/// Running otherwise.
pub open spec fn tick_rel(
    pre: GameState,
    post: GameState,
    next_mask: Seq<Seq<bool>>,
    cleared: bool,
) -> bool {
    if spec_can_descend(pre) {
        &&& post.current_position.x == pre.current_position.x
        &&& post.current_position.y == pre.current_position.y + 1
        &&& post.stage == pre.stage
        &&& post.current_block == pre.current_block
        &&& post.next_block == pre.next_block
        &&& same_counters(pre, post)
        &&& cleared == false
    } else {
        let locked = locked_cells(pre.stage_cells(), pre.cur_cells(), pre.current_position);
        let n = num_full(locked);
        let new_score = pre.score + ROW_SCORE as int * n + if n > 1 {
            BONUS_SCORE as int
        } else {
            0int
        };
        &&& rows_of(post.stage_cells()) == cleared_stage_rows(locked)
        &&& post.score == new_score
        &&& post.lines == pre.lines + n
        &&& post.cur_cells() == pre.next_cells()
        &&& post.next_cells() == next_mask
        &&& post.current_position == (Pos { x: START_X, y: START_Y })
        &&& post.status == if spec_overlaps(
            post.stage_cells(),
            pre.next_cells(),
            Pos { x: START_X, y: START_Y },
        ) {
            State::GameOver
        } else if new_score >= LEVEL_UP_SCORE as int * pre.level {
            State::LevelDone
        } else {
            State::Running
        }
        &&& post.level == pre.level
        &&& post.high_score == pre.high_score
        &&& post.update_interval == pre.update_interval
        &&& cleared == (n > 0)
    }
}

/// The lock half of a tick: lock, clear, score, level check, spawn of the
/// given kind, game-over check. Returns whether any row was cleared.
fn lock_step(game_state: &mut GameState, kind: BlockKind) -> (cleared: bool)
    requires
        old(game_state).wf(),
        old(game_state).status == State::Running,
        !spec_can_descend(*old(game_state)),
        old(game_state).score + STAGE_HEIGHT as int * ROW_SCORE as int + BONUS_SCORE as int
            <= i64::MAX,
        old(game_state).lines + STAGE_HEIGHT as int <= i64::MAX,
        LEVEL_UP_SCORE as int * old(game_state).level <= i64::MAX,
    ensures
        final(game_state).wf(),
        tick_rel(*old(game_state), *final(game_state), shape_mask(kind), cleared),
{
    apply_block_to_stage(game_state);
    let cleared = remove_full_rows(game_state);
    if game_state.score >= LEVEL_UP_SCORE * game_state.level {
        game_state.status = State::LevelDone;
    }
    spawn_with(game_state, kind);
    if check_collision(game_state) {
        game_state.status = State::GameOver;
    }
    cleared
}

/// One gravity tick with the buffered piece drawn from the random source.
pub fn update_tick(game_state: &mut GameState) -> (cleared: bool)
    requires
        old(game_state).wf(),
        old(game_state).status == State::Running,
        old(game_state).current_position.y < STAGE_HEIGHT,
        old(game_state).score + STAGE_HEIGHT as int * ROW_SCORE as int + BONUS_SCORE as int
            <= i64::MAX,
        old(game_state).lines + STAGE_HEIGHT as int <= i64::MAX,
        LEVEL_UP_SCORE as int * old(game_state).level <= i64::MAX,
    ensures
        final(game_state).wf(),
        exists|kind: BlockKind|
            tick_rel(*old(game_state), *final(game_state), shape_mask(kind), cleared),
{
    if can_move_down(game_state) {
        advance_block(game_state);
        proof {
            assert(tick_rel(
                *old(game_state),
                *game_state,
                shape_mask(BlockKind::Smashboy),
                false,
            ));
        }
        false
    } else {
        let part = random_below(7);
        let kind = kind_from_index(part);
        lock_step(game_state, kind)
    }
}

/// One gravity tick with an injected piece kind, for deterministic use.
pub fn update_tick_with(game_state: &mut GameState, kind: BlockKind) -> (cleared: bool)
    requires
        old(game_state).wf(),
        old(game_state).status == State::Running,
        old(game_state).current_position.y < STAGE_HEIGHT,
        old(game_state).score + STAGE_HEIGHT as int * ROW_SCORE as int + BONUS_SCORE as int
            <= i64::MAX,
        old(game_state).lines + STAGE_HEIGHT as int <= i64::MAX,
        LEVEL_UP_SCORE as int * old(game_state).level <= i64::MAX,
    ensures
        final(game_state).wf(),
        tick_rel(*old(game_state), *final(game_state), shape_mask(kind), cleared),
{
    if can_move_down(game_state) {
        advance_block(game_state);
        false
    } else {
        lock_step(game_state, kind)
    }
}

/// Finishes a pending level-up: raises the level, tightens the gravity
/// interval down to its floor, returns to Running, and raises the high
/// score when the score passed it. Returns whether a new high score must be
/// persisted.
pub fn process_level_up(game_state: &mut GameState) -> (new_high: bool)
    requires
        old(game_state).wf(),
        old(game_state).status == State::LevelDone,
        old(game_state).level < i64::MAX,
    ensures
        final(game_state).wf(),
        final(game_state).level == old(game_state).level + 1,
        final(game_state).update_interval == if old(game_state).update_interval > UPDATE_LIMIT_MS {
            old(game_state).update_interval - UPDATE_STEP_MS
        } else {
            old(game_state).update_interval as int
        },
        final(game_state).status == State::Running,
        final(game_state).high_score == if old(game_state).score > old(game_state).high_score {
            old(game_state).score
        } else {
            old(game_state).high_score
        },
        new_high == (old(game_state).score > old(game_state).high_score),
        final(game_state).stage == old(game_state).stage,
        final(game_state).current_block == old(game_state).current_block,
        final(game_state).next_block == old(game_state).next_block,
        final(game_state).current_position == old(game_state).current_position,
        final(game_state).score == old(game_state).score,
        final(game_state).lines == old(game_state).lines,
{
    if game_state.update_interval > UPDATE_LIMIT_MS {
        game_state.update_interval -= UPDATE_STEP_MS;
    }
    game_state.level += 1;
    game_state.status = State::Running;
    if game_state.score > game_state.high_score {
        game_state.high_score = game_state.score;
        true
    } else {
        false
    }
}

/// The high-score check against the terminal state: raises the stored high
/// score once when the final score passed it. Returns whether the new high
/// score must be persisted; a second call returns false.
pub fn process_game_over(game_state: &mut GameState) -> (new_high: bool)
    requires
        old(game_state).wf(),
        old(game_state).status == State::GameOver,
    ensures
        final(game_state).wf(),
        final(game_state).high_score == if old(game_state).score > old(game_state).high_score {
            old(game_state).score
        } else {
            old(game_state).high_score
        },
        new_high == (old(game_state).score > old(game_state).high_score),
        final(game_state).stage == old(game_state).stage,
        final(game_state).current_block == old(game_state).current_block,
        final(game_state).next_block == old(game_state).next_block,
        final(game_state).current_position == old(game_state).current_position,
        final(game_state).score == old(game_state).score,
        final(game_state).level == old(game_state).level,
        final(game_state).lines == old(game_state).lines,
        final(game_state).status == old(game_state).status,
        final(game_state).update_interval == old(game_state).update_interval,
{
    if game_state.score > game_state.high_score {
        game_state.high_score = game_state.score;
        true
    } else {
        false
    }
}

} // verus!
