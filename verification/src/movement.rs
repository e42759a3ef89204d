//! Collision checks and movement: every mutating move is preceded by a pure
//! validity predicate, and invalid moves are silent no-ops.

use vstd::prelude::*;
use crate::game::{GameState, Pos, same_but_stage};
use crate::model::{wf_stage, wf_block};
use crate::{STAGE_WIDTH, STAGE_HEIGHT, BLOCK_SIZE};

verus! {

/// Mask cell (x, y) does not stand on the floor and has a free stage cell
/// directly below it (vacuously true for an unoccupied mask cell).
pub open spec fn cell_free_below(gs: GameState, x: int, y: int) -> bool {
    gs.cur_cells()[x][y] ==> {
        &&& gs.current_position.y + y != STAGE_HEIGHT - 1
        &&& !gs.stage_cells()[gs.current_position.x + x][gs.current_position.y + y + 1]
    }
}

/// The active piece can descend one row.
pub open spec fn spec_can_descend(gs: GameState) -> bool {
    forall|x: int, y: int|
        0 <= x < BLOCK_SIZE && 0 <= y < BLOCK_SIZE ==> #[trigger] cell_free_below(gs, x, y)
}

/// The descent predicate fails exactly when some occupied cell sits on the
/// bottom row of the field or directly above an occupied stage cell.
pub proof fn lemma_descend_blocked_iff(gs: GameState)
    ensures
        !spec_can_descend(gs) <==> exists|x: int, y: int|
            0 <= x < BLOCK_SIZE && 0 <= y < BLOCK_SIZE && #[trigger] gs.cur_cells()[x][y]
                && (gs.current_position.y + y == STAGE_HEIGHT - 1
                    || gs.stage_cells()[gs.current_position.x + x][gs.current_position.y + y + 1]),
{
    if !spec_can_descend(gs) {
        let (x, y): (int, int) = choose|x: int, y: int|
            0 <= x < BLOCK_SIZE && 0 <= y < BLOCK_SIZE && !(#[trigger] cell_free_below(gs, x, y));
        assert(gs.cur_cells()[x][y]
            && (gs.current_position.y + y == STAGE_HEIGHT - 1
                || gs.stage_cells()[gs.current_position.x + x][gs.current_position.y + y + 1]));
    }
    if exists|x: int, y: int|
        0 <= x < BLOCK_SIZE && 0 <= y < BLOCK_SIZE && #[trigger] gs.cur_cells()[x][y]
            && (gs.current_position.y + y == STAGE_HEIGHT - 1
                || gs.stage_cells()[gs.current_position.x + x][gs.current_position.y + y + 1]) {
        let (x, y): (int, int) = choose|x: int, y: int|
            0 <= x < BLOCK_SIZE && 0 <= y < BLOCK_SIZE && #[trigger] gs.cur_cells()[x][y]
                && (gs.current_position.y + y == STAGE_HEIGHT - 1
                    || gs.stage_cells()[gs.current_position.x + x][gs.current_position.y + y + 1]);
        assert(!cell_free_below(gs, x, y));
    }
}

/// Whether the active piece can fall one row: scans the mask from its bottom
/// row upward, so the first blocking cell ends the scan.
pub fn can_move_down(game_state: &GameState) -> (r: bool)
    requires
        game_state.wf(),
    ensures
        r == spec_can_descend(*game_state),
{
    let mut yi: usize = BLOCK_SIZE;
    while yi > 0
        invariant
            game_state.wf(),
            yi <= BLOCK_SIZE,
            forall|x: int, y: int|
                0 <= x < BLOCK_SIZE && yi <= y < BLOCK_SIZE ==> #[trigger] cell_free_below(*game_state, x, y),
        decreases yi,
    {
        let y = yi - 1;
        let mut x: usize = 0;
        while x < BLOCK_SIZE
            invariant
                game_state.wf(),
                1 <= yi <= BLOCK_SIZE,
                y == yi - 1,
                x <= BLOCK_SIZE,
                forall|x2: int, y2: int|
                    0 <= x2 < BLOCK_SIZE && yi <= y2 < BLOCK_SIZE
                        ==> #[trigger] cell_free_below(*game_state, x2, y2),
                forall|x2: int| 0 <= x2 < x ==> #[trigger] cell_free_below(*game_state, x2, y as int),
            decreases BLOCK_SIZE - x,
        {
            if game_state.get_current_block(x, y) {
                if game_state.current_position.y + y == STAGE_HEIGHT - 1 {
                    proof {
                        assert(!cell_free_below(*game_state, x as int, y as int));
                    }
                    return false;
                } else if game_state.get_stage(
                    game_state.current_position.x + x,
                    game_state.current_position.y + y + 1,
                ) {
                    proof {
                        assert(!cell_free_below(*game_state, x as int, y as int));
                    }
                    return false;
                }
            }
            proof {
                assert(cell_free_below(*game_state, x as int, y as int));
            }
            x += 1;
        }
        yi -= 1;
    }
    true
}

/// Moves the active piece one row down. Its caller has just checked
/// `can_move_down`; the anchor bound only rules out advancing an anchor that
/// already sits past the field with an empty mask.
pub fn advance_block(game_state: &mut GameState)
    requires
        old(game_state).wf(),
        spec_can_descend(*old(game_state)),
        old(game_state).current_position.y < STAGE_HEIGHT,
    ensures
        final(game_state).wf(),
        final(game_state).current_position.x == old(game_state).current_position.x,
        final(game_state).current_position.y == old(game_state).current_position.y + 1,
        final(game_state).stage == old(game_state).stage,
        final(game_state).current_block == old(game_state).current_block,
        final(game_state).next_block == old(game_state).next_block,
        crate::game::same_counters(*old(game_state), *final(game_state)),
{
    game_state.current_position.y += 1;
    proof {
        assert forall|x: int, y: int|
            0 <= x < BLOCK_SIZE && 0 <= y < BLOCK_SIZE && #[trigger] game_state.cur_cells()[x][y]
            implies game_state.current_position.x + x < STAGE_WIDTH
                && game_state.current_position.y + y < STAGE_HEIGHT by {
            assert(cell_free_below(*old(game_state), x, y));
        }
    }
}

/// Mask cell (x, y) is not against the left wall and has a free stage cell
/// directly to its left.
pub open spec fn cell_free_left(gs: GameState, x: int, y: int) -> bool {
    gs.cur_cells()[x][y] ==> {
        &&& gs.current_position.x + x != 0
        &&& !gs.stage_cells()[gs.current_position.x + x - 1][gs.current_position.y + y]
    }
}

/// The active piece can move one column left.
pub open spec fn spec_can_move_left(gs: GameState) -> bool {
    forall|x: int, y: int|
        0 <= x < BLOCK_SIZE && 0 <= y < BLOCK_SIZE ==> #[trigger] cell_free_left(gs, x, y)
}

/// Mask cell (x, y) is not against the right wall and has a free stage cell
/// directly to its right.
pub open spec fn cell_free_right(gs: GameState, x: int, y: int) -> bool {
    gs.cur_cells()[x][y] ==> {
        &&& gs.current_position.x + x != STAGE_WIDTH - 1
        &&& !gs.stage_cells()[gs.current_position.x + x + 1][gs.current_position.y + y]
    }
}

/// The active piece can move one column right.
pub open spec fn spec_can_move_right(gs: GameState) -> bool {
    forall|x: int, y: int|
        0 <= x < BLOCK_SIZE && 0 <= y < BLOCK_SIZE ==> #[trigger] cell_free_right(gs, x, y)
}

/// Moves the piece one column left if nothing blocks it; otherwise a silent
/// no-op. The anchor bound only rules out moving an empty mask whose anchor
/// already sits on column 0.
pub fn move_left(game_state: &mut GameState)
    requires
        old(game_state).wf(),
        spec_can_move_left(*old(game_state)) ==> old(game_state).current_position.x >= 1,
    ensures
        final(game_state).wf(),
        spec_can_move_left(*old(game_state)) ==> {
            &&& final(game_state).current_position.x == old(game_state).current_position.x - 1
            &&& final(game_state).current_position.y == old(game_state).current_position.y
            &&& final(game_state).stage == old(game_state).stage
            &&& final(game_state).current_block == old(game_state).current_block
            &&& final(game_state).next_block == old(game_state).next_block
            &&& crate::game::same_counters(*old(game_state), *final(game_state))
        },
        !spec_can_move_left(*old(game_state)) ==> *final(game_state) == *old(game_state),
{
    let mut x: usize = 0;
    while x < BLOCK_SIZE
        invariant
            game_state.wf(),
            *game_state == *old(game_state),
            x <= BLOCK_SIZE,
            spec_can_move_left(*game_state) ==> game_state.current_position.x >= 1,
            forall|x2: int, y2: int|
                0 <= x2 < x && 0 <= y2 < BLOCK_SIZE ==> #[trigger] cell_free_left(*game_state, x2, y2),
        decreases BLOCK_SIZE - x,
    {
        let mut y: usize = 0;
        while y < BLOCK_SIZE
            invariant
                game_state.wf(),
                *game_state == *old(game_state),
                x < BLOCK_SIZE,
                y <= BLOCK_SIZE,
                spec_can_move_left(*game_state) ==> game_state.current_position.x >= 1,
                forall|x2: int, y2: int|
                    0 <= x2 < x && 0 <= y2 < BLOCK_SIZE ==> #[trigger] cell_free_left(*game_state, x2, y2),
                forall|y2: int| 0 <= y2 < y ==> #[trigger] cell_free_left(*game_state, x as int, y2),
            decreases BLOCK_SIZE - y,
        {
            if game_state.get_current_block(x, y) {
                if game_state.current_position.x + x == 0 {
                    proof {
                        assert(!cell_free_left(*game_state, x as int, y as int));
                    }
                    return;
                } else if game_state.get_stage(
                    game_state.current_position.x + x - 1,
                    game_state.current_position.y + y,
                ) {
                    proof {
                        assert(!cell_free_left(*game_state, x as int, y as int));
                    }
                    return;
                }
            }
            proof {
                assert(cell_free_left(*game_state, x as int, y as int));
            }
            y += 1;
        }
        x += 1;
    }
    game_state.current_position.x -= 1;
}

/// Moves the piece one column right if nothing blocks it; otherwise a silent
/// no-op. The anchor bound only rules out moving an empty mask whose anchor
/// has reached the very last representable column.
pub fn move_right(game_state: &mut GameState)
    requires
        old(game_state).wf(),
        spec_can_move_right(*old(game_state)) ==> old(game_state).current_position.x < usize::MAX,
    ensures
        final(game_state).wf(),
        spec_can_move_right(*old(game_state)) ==> {
            &&& final(game_state).current_position.x == old(game_state).current_position.x + 1
            &&& final(game_state).current_position.y == old(game_state).current_position.y
            &&& final(game_state).stage == old(game_state).stage
            &&& final(game_state).current_block == old(game_state).current_block
            &&& final(game_state).next_block == old(game_state).next_block
            &&& crate::game::same_counters(*old(game_state), *final(game_state))
        },
        !spec_can_move_right(*old(game_state)) ==> *final(game_state) == *old(game_state),
{
    let mut xi: usize = BLOCK_SIZE;
    while xi > 0
        invariant
            game_state.wf(),
            *game_state == *old(game_state),
            xi <= BLOCK_SIZE,
            spec_can_move_right(*game_state) ==> game_state.current_position.x < usize::MAX,
            forall|x2: int, y2: int|
                xi <= x2 < BLOCK_SIZE && 0 <= y2 < BLOCK_SIZE
                    ==> #[trigger] cell_free_right(*game_state, x2, y2),
        decreases xi,
    {
        let x = xi - 1;
        let mut y: usize = 0;
        while y < BLOCK_SIZE
            invariant
                game_state.wf(),
                *game_state == *old(game_state),
                1 <= xi <= BLOCK_SIZE,
                x == xi - 1,
                y <= BLOCK_SIZE,
                spec_can_move_right(*game_state) ==> game_state.current_position.x < usize::MAX,
                forall|x2: int, y2: int|
                    xi <= x2 < BLOCK_SIZE && 0 <= y2 < BLOCK_SIZE
                        ==> #[trigger] cell_free_right(*game_state, x2, y2),
                forall|y2: int| 0 <= y2 < y ==> #[trigger] cell_free_right(*game_state, x as int, y2),
            decreases BLOCK_SIZE - y,
        {
            if game_state.get_current_block(x, y) {
                if game_state.current_position.x + x == STAGE_WIDTH - 1 {
                    proof {
                        assert(!cell_free_right(*game_state, x as int, y as int));
                    }
                    return;
                } else if game_state.get_stage(
                    game_state.current_position.x + x + 1,
                    game_state.current_position.y + y,
                ) {
                    proof {
                        assert(!cell_free_right(*game_state, x as int, y as int));
                    }
                    return;
                }
            }
            proof {
                assert(cell_free_right(*game_state, x as int, y as int));
            }
            y += 1;
        }
        xi -= 1;
    }
    game_state.current_position.x += 1;
    proof {
        assert forall|x: int, y: int|
            0 <= x < BLOCK_SIZE && 0 <= y < BLOCK_SIZE && #[trigger] game_state.cur_cells()[x][y]
            implies game_state.current_position.x + x < STAGE_WIDTH
                && game_state.current_position.y + y < STAGE_HEIGHT by {
            assert(cell_free_right(*old(game_state), x, y));
        }
    }
}

/// The mask, anchored at `pos`, overlaps some occupied stage cell.
pub open spec fn spec_overlaps(stage: Seq<Seq<bool>>, block: Seq<Seq<bool>>, pos: Pos) -> bool {
    exists|x: int, y: int|
        0 <= x < BLOCK_SIZE && 0 <= y < BLOCK_SIZE && #[trigger] block[x][y]
            && stage[pos.x + x][pos.y + y]
}

/// Whether the active piece overlaps the settled stage where it stands.
pub fn check_collision(game_state: &GameState) -> (r: bool)
    requires
        game_state.wf(),
    ensures
        r == spec_overlaps(
            game_state.stage_cells(),
            game_state.cur_cells(),
            game_state.current_position,
        ),
{
    let mut x: usize = 0;
    while x < BLOCK_SIZE
        invariant
            game_state.wf(),
            x <= BLOCK_SIZE,
            forall|x2: int, y2: int|
                0 <= x2 < x && 0 <= y2 < BLOCK_SIZE && #[trigger] game_state.cur_cells()[x2][y2]
                    ==> !game_state.stage_cells()[game_state.current_position.x + x2][
                        game_state.current_position.y + y2],
        decreases BLOCK_SIZE - x,
    {
        let mut yi: usize = BLOCK_SIZE;
        while yi > 0
            invariant
                game_state.wf(),
                x < BLOCK_SIZE,
                yi <= BLOCK_SIZE,
                forall|x2: int, y2: int|
                    0 <= x2 < x && 0 <= y2 < BLOCK_SIZE && #[trigger] game_state.cur_cells()[x2][y2]
                        ==> !game_state.stage_cells()[game_state.current_position.x + x2][
                            game_state.current_position.y + y2],
                forall|y2: int|
                    yi <= y2 < BLOCK_SIZE && #[trigger] game_state.cur_cells()[x as int][y2]
                        ==> !game_state.stage_cells()[game_state.current_position.x + x][
                            game_state.current_position.y + y2],
            decreases yi,
        {
            let y = yi - 1;
            if game_state.get_current_block(x, y)
                && game_state.get_stage(
                    game_state.current_position.x + x,
                    game_state.current_position.y + y,
                ) {
                return true;
            }
            yi -= 1;
        }
        x += 1;
    }
    false
}

/// The mask, anchored at `pos`, covers the stage cell (gx, gy).
pub open spec fn occupied_at(block: Seq<Seq<bool>>, pos: Pos, gx: int, gy: int) -> bool {
    &&& pos.x <= gx < pos.x + BLOCK_SIZE
    &&& pos.y <= gy < pos.y + BLOCK_SIZE
    &&& block[gx - pos.x][gy - pos.y]
}

/// The stage after locking the mask into it: each cell is occupied if it was
/// before or if the anchored mask covers it.
pub open spec fn locked_cells(stage: Seq<Seq<bool>>, block: Seq<Seq<bool>>, pos: Pos) -> Seq<
    Seq<bool>,
> {
    Seq::new(
        STAGE_WIDTH as nat,
        |gx: int| Seq::new(
            STAGE_HEIGHT as nat,
            |gy: int| stage[gx][gy] || occupied_at(block, pos, gx, gy),
        ),
    )
}

/// Locking writes every occupied cell of the piece inside the field bounds
/// and touches nothing else: the locked stage still has exactly
/// STAGE_WIDTH x STAGE_HEIGHT cells, each occupied cell of the mask lands on
/// an in-bounds stage cell, and every newly occupied cell comes from the
/// mask.
pub proof fn lemma_lock_stays_in_bounds(stage: Seq<Seq<bool>>, block: Seq<Seq<bool>>, pos: Pos)
    requires
        wf_stage(stage),
        wf_block(block),
        crate::game::piece_in_bounds(block, pos),
    ensures
        wf_stage(locked_cells(stage, block, pos)),
        forall|x: int, y: int|
            0 <= x < BLOCK_SIZE && 0 <= y < BLOCK_SIZE && #[trigger] block[x][y] ==> {
                &&& 0 <= pos.x + x < STAGE_WIDTH
                &&& 0 <= pos.y + y < STAGE_HEIGHT
                &&& locked_cells(stage, block, pos)[pos.x + x][pos.y + y]
            },
        forall|gx: int, gy: int|
            0 <= gx < STAGE_WIDTH && 0 <= gy < STAGE_HEIGHT
                && #[trigger] locked_cells(stage, block, pos)[gx][gy] && !stage[gx][gy]
                ==> occupied_at(block, pos, gx, gy),
{
}

/// During the lock scan, mask cell (lx, ly) has already been visited when the
/// outer loop stands at column x and the inner at row y.
pub open spec fn lock_visited(lx: int, ly: int, x: int, y: int) -> bool {
    lx < x || (lx == x && ly < y)
}

/// Locks the active piece: writes each of its occupied cells into the stage.
pub fn apply_block_to_stage(game_state: &mut GameState)
    requires
        old(game_state).wf(),
    ensures
        final(game_state).wf(),
        final(game_state).stage_cells() == locked_cells(
            old(game_state).stage_cells(),
            old(game_state).cur_cells(),
            old(game_state).current_position,
        ),
        same_but_stage(*old(game_state), *final(game_state)),
{
    let ghost orig = *game_state;
    let mut x: usize = 0;
    while x < BLOCK_SIZE
        invariant
            game_state.wf(),
            x <= BLOCK_SIZE,
            same_but_stage(orig, *game_state),
            orig.wf(),
            forall|gx: int, gy: int|
                0 <= gx < STAGE_WIDTH && 0 <= gy < STAGE_HEIGHT
                    ==> #[trigger] game_state.stage_cells()[gx][gy] == (orig.stage_cells()[gx][gy]
                        || (occupied_at(orig.cur_cells(), orig.current_position, gx, gy)
                            && lock_visited(
                                gx - orig.current_position.x,
                                gy - orig.current_position.y,
                                x as int,
                                0,
                            ))),
        decreases BLOCK_SIZE - x,
    {
        let mut y: usize = 0;
        while y < BLOCK_SIZE
            invariant
                game_state.wf(),
                x < BLOCK_SIZE,
                y <= BLOCK_SIZE,
                same_but_stage(orig, *game_state),
                orig.wf(),
                forall|gx: int, gy: int|
                    0 <= gx < STAGE_WIDTH && 0 <= gy < STAGE_HEIGHT
                        ==> #[trigger] game_state.stage_cells()[gx][gy] == (orig.stage_cells()[gx][gy]
                            || (occupied_at(orig.cur_cells(), orig.current_position, gx, gy)
                                && lock_visited(
                                    gx - orig.current_position.x,
                                    gy - orig.current_position.y,
                                    x as int,
                                    y as int,
                                ))),
            decreases BLOCK_SIZE - y,
        {
            if game_state.get_current_block(x, y) {
                game_state.set_stage(
                    game_state.current_position.x + x,
                    game_state.current_position.y + y,
                    true,
                );
            }
            y += 1;
        }
        x += 1;
    }
    proof {
        assert forall|gx: int| 0 <= gx < STAGE_WIDTH
            implies game_state.stage_cells()[gx] =~= locked_cells(
                orig.stage_cells(),
                orig.cur_cells(),
                orig.current_position,
            )[gx] by {}
        assert(game_state.stage_cells() =~= locked_cells(
            orig.stage_cells(),
            orig.cur_cells(),
            orig.current_position,
        ));
    }
}

} // verus!
