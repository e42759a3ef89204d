//! Rules engine of a falling-block puzzle game: the playing-field grid, the
//! active and upcoming piece, rotation geometry, collision and line-clear
//! logic, and the scoring/leveling state machine.
//!
//! The grid and the piece masks are stored in `simple_matrix::Matrix<bool>`
//! values; the few matrix operations the engine needs are reached through
//! trusted wrappers in `mat`. Everything around them is verified.

use vstd::prelude::*;

pub mod mat;
pub mod model;
pub mod catalog;
pub mod game;
pub mod movement;
pub mod rotate;
pub mod clear;
pub mod session;
pub mod parse;

verus! {

/// Width of the playing field, in cells.
pub const STAGE_WIDTH: usize = 10;

/// Height of the playing field, in cells.
pub const STAGE_HEIGHT: usize = 20;

/// Side of the square bounding box that holds a piece mask.
pub const BLOCK_SIZE: usize = 4;

/// Score granted for each cleared row.
pub const ROW_SCORE: i64 = 100;

/// Extra score granted once when a single pass clears more than one row.
pub const BONUS_SCORE: i64 = 50;

/// The level is done when the score reaches `LEVEL_UP_SCORE * level`.
pub const LEVEL_UP_SCORE: i64 = 1000;

/// Gravity interval at level 1, in milliseconds.
pub const UPDATE_INTERVAL_MS: u64 = 500;

/// How much the gravity interval shrinks on each level-up, in milliseconds.
pub const UPDATE_STEP_MS: u64 = 50;

/// The gravity interval never goes below this floor, in milliseconds.
pub const UPDATE_LIMIT_MS: u64 = 200;

/// Column of the anchor where a freshly spawned piece appears.
pub const START_X: usize = 3;

/// Row of the anchor where a freshly spawned piece appears.
pub const START_Y: usize = 0;

} // verus!
