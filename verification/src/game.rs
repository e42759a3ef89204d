//! The session state: stage, active and upcoming piece, counters and status.

use vstd::prelude::*;
use simple_matrix::Matrix;
use crate::mat::{mat_cells, mat_from_vec, mat_get, mat_set};
use crate::model::{wf_stage, wf_block};
use crate::{STAGE_WIDTH, STAGE_HEIGHT, BLOCK_SIZE, UPDATE_INTERVAL_MS, UPDATE_LIMIT_MS};

verus! {

/// A grid coordinate: the anchor of the active piece's bounding box.
#[derive(Clone, Copy, PartialEq, Eq, Structural, Debug)]
pub struct Pos {
    pub x: usize,
    pub y: usize,
}

/// Session status. GameOver is terminal for gravity ticks.
#[derive(Clone, Copy, PartialEq, Eq, Structural, Debug)]
pub enum State {
    Running,
    LevelDone,
    GameOver,
}

/// The whole simulation state of one session.
pub struct GameState {
    pub stage: Matrix<bool>,
    pub current_block: Matrix<bool>,
    pub next_block: Matrix<bool>,
    pub current_position: Pos,
    pub score: i64,
    pub high_score: i64,
    pub level: i64,
    pub lines: i64,
    pub status: State,
    /// Gravity interval in milliseconds.
    pub update_interval: u64,
}

/// Every occupied cell of the mask, anchored at `pos`, lies inside the field.
pub open spec fn piece_in_bounds(block: Seq<Seq<bool>>, pos: Pos) -> bool {
    forall|x: int, y: int|
        0 <= x < BLOCK_SIZE && 0 <= y < BLOCK_SIZE && #[trigger] block[x][y]
            ==> pos.x + x < STAGE_WIDTH && pos.y + y < STAGE_HEIGHT
}

/// All fields of `b` other than the stage equal those of `a`.
pub open spec fn same_but_stage(a: GameState, b: GameState) -> bool {
    &&& b.current_block == a.current_block
    &&& b.next_block == a.next_block
    &&& b.current_position == a.current_position
    &&& b.score == a.score
    &&& b.high_score == a.high_score
    &&& b.level == a.level
    &&& b.lines == a.lines
    &&& b.status == a.status
    &&& b.update_interval == a.update_interval
}

/// All counters and the status of `b` equal those of `a`; only the geometry
/// (stage, blocks, anchor) may differ.
pub open spec fn same_counters(a: GameState, b: GameState) -> bool {
    &&& b.score == a.score
    &&& b.high_score == a.high_score
    &&& b.level == a.level
    &&& b.lines == a.lines
    &&& b.status == a.status
    &&& b.update_interval == a.update_interval
}

impl GameState {
    /// The stage contents, column by column.
    pub open spec fn stage_cells(self) -> Seq<Seq<bool>> {
        mat_cells(self.stage)
    }

    /// The active piece's mask.
    pub open spec fn cur_cells(self) -> Seq<Seq<bool>> {
        mat_cells(self.current_block)
    }

    /// The upcoming piece's mask.
    pub open spec fn next_cells(self) -> Seq<Seq<bool>> {
        mat_cells(self.next_block)
    }

    /// Well-formedness: the dimensions of the three matrices, the live-piece
    /// bounds invariant, and the ranges of the counters.
    pub open spec fn wf(self) -> bool {
        &&& wf_stage(self.stage_cells())
        &&& wf_block(self.cur_cells())
        &&& wf_block(self.next_cells())
        &&& piece_in_bounds(self.cur_cells(), self.current_position)
        &&& 0 <= self.score
        &&& 0 <= self.high_score
        &&& 1 <= self.level
        &&& 0 <= self.lines
        &&& UPDATE_LIMIT_MS <= self.update_interval <= UPDATE_INTERVAL_MS
        &&& self.update_interval % crate::UPDATE_STEP_MS == 0
    }

    /// A fresh session: empty stage, empty piece masks, zeroed counters,
    /// level 1, Running, base gravity interval.
    pub fn new() -> (gs: GameState)
        ensures
            gs.wf(),
            forall|x: int, y: int|
                0 <= x < STAGE_WIDTH && 0 <= y < STAGE_HEIGHT ==> !(#[trigger] gs.stage_cells()[x][y]),
            forall|x: int, y: int|
                0 <= x < BLOCK_SIZE && 0 <= y < BLOCK_SIZE ==> !(#[trigger] gs.cur_cells()[x][y]),
            forall|x: int, y: int|
                0 <= x < BLOCK_SIZE && 0 <= y < BLOCK_SIZE ==> !(#[trigger] gs.next_cells()[x][y]),
            gs.current_position == (Pos { x: 0, y: 0 }),
            gs.score == 0,
            gs.high_score == 0,
            gs.level == 1,
            gs.lines == 0,
            gs.status == State::Running,
            gs.update_interval == UPDATE_INTERVAL_MS,
    {
        GameState {
            stage: mat_from_vec(STAGE_WIDTH, STAGE_HEIGHT, false_vec(STAGE_WIDTH * STAGE_HEIGHT)),
            current_block: mat_from_vec(BLOCK_SIZE, BLOCK_SIZE, false_vec(BLOCK_SIZE * BLOCK_SIZE)),
            next_block: mat_from_vec(BLOCK_SIZE, BLOCK_SIZE, false_vec(BLOCK_SIZE * BLOCK_SIZE)),
            current_position: Pos { x: 0, y: 0 },
            score: 0,
            high_score: 0,
            level: 1,
            lines: 0,
            status: State::Running,
            update_interval: UPDATE_INTERVAL_MS,
        }
    }

    /// Occupancy of the stage cell (x, y).
    pub fn get_stage(&self, x: usize, y: usize) -> (b: bool)
        requires
            wf_stage(self.stage_cells()),
            x < STAGE_WIDTH,
            y < STAGE_HEIGHT,
        ensures
            b == self.stage_cells()[x as int][y as int],
    {
        mat_get(&self.stage, x, y)
    }

    /// Occupancy of the active piece's mask at local (x, y).
    pub fn get_current_block(&self, x: usize, y: usize) -> (b: bool)
        requires
            wf_block(self.cur_cells()),
            x < BLOCK_SIZE,
            y < BLOCK_SIZE,
        ensures
            b == self.cur_cells()[x as int][y as int],
    {
        mat_get(&self.current_block, x, y)
    }

    /// Occupancy of the upcoming piece's mask at local (x, y).
    pub fn get_next_block(&self, x: usize, y: usize) -> (b: bool)
        requires
            wf_block(self.next_cells()),
            x < BLOCK_SIZE,
            y < BLOCK_SIZE,
        ensures
            b == self.next_cells()[x as int][y as int],
    {
        mat_get(&self.next_block, x, y)
    }

    /// Writes the stage cell (x, y).
    pub fn set_stage(&mut self, x: usize, y: usize, val: bool)
        requires
            wf_stage(old(self).stage_cells()),
            x < STAGE_WIDTH,
            y < STAGE_HEIGHT,
        ensures
            final(self).stage_cells() == old(self).stage_cells().update(
                x as int,
                old(self).stage_cells()[x as int].update(y as int, val),
            ),
            wf_stage(final(self).stage_cells()),
            same_but_stage(*old(self), *final(self)),
    {
        mat_set(&mut self.stage, x, y, val);
        proof {
            assert forall|x2: int| 0 <= x2 < self.stage_cells().len()
                implies (#[trigger] self.stage_cells()[x2]).len() == STAGE_HEIGHT by {
                if x2 == x as int {
                    assert(self.stage_cells()[x2].len() == STAGE_HEIGHT);
                }
            }
        }
    }

    /// Adds `val` to the score.
    pub fn inc_score(&mut self, val: i64)
        requires
            0 <= val,
            old(self).score + val <= i64::MAX,
        ensures
            final(self).score == old(self).score + val,
            final(self).stage == old(self).stage,
            final(self).current_block == old(self).current_block,
            final(self).next_block == old(self).next_block,
            final(self).current_position == old(self).current_position,
            final(self).high_score == old(self).high_score,
            final(self).level == old(self).level,
            final(self).lines == old(self).lines,
            final(self).status == old(self).status,
            final(self).update_interval == old(self).update_interval,
    {
        self.score += val;
    }

    /// Installs the high score loaded from the external store at session
    /// start.
    pub fn set_high_score(&mut self, val: i64)
        requires
            0 <= val,
        ensures
            final(self).high_score == val,
            final(self).stage == old(self).stage,
            final(self).current_block == old(self).current_block,
            final(self).next_block == old(self).next_block,
            final(self).current_position == old(self).current_position,
            final(self).score == old(self).score,
            final(self).level == old(self).level,
            final(self).lines == old(self).lines,
            final(self).status == old(self).status,
            final(self).update_interval == old(self).update_interval,
    {
        self.high_score = val;
    }
}

/// A vector of `n` unoccupied cells.
fn false_vec(n: usize) -> (v: Vec<bool>)
    ensures
        v@.len() == n,
        forall|i: int| 0 <= i < n ==> !(#[trigger] v@[i]),
{
    let mut v: Vec<bool> = Vec::new();
    let mut i: usize = 0;
    while i < n
        invariant
            i <= n,
            v@.len() == i,
            forall|j: int| 0 <= j < i ==> !(#[trigger] v@[j]),
        decreases n - i,
    {
        v.push(false);
        i += 1;
    }
    v
}

} // verus!
