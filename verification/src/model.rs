//! The mathematical model of the playing field and of piece masks.
//!
//! A matrix's contents (`mat_cells`) index as `cells[x][y]`: the first index
//! runs over columns of the field (0 <= x < STAGE_WIDTH for the stage,
//! 0 <= x < BLOCK_SIZE for a mask), the second over rows, y increasing
//! downward. `row_of`/`rows_of` give the transposed, row-by-row view of the
//! stage that the line-clear logic speaks about.

use vstd::prelude::*;
use crate::{STAGE_WIDTH, STAGE_HEIGHT, BLOCK_SIZE};

verus! {

/// The stage holds exactly STAGE_WIDTH columns of STAGE_HEIGHT cells.
pub open spec fn wf_stage(c: Seq<Seq<bool>>) -> bool {
    &&& c.len() == STAGE_WIDTH
    &&& forall|x: int| 0 <= x < c.len() ==> (#[trigger] c[x]).len() == STAGE_HEIGHT
}

/// A piece mask holds exactly BLOCK_SIZE columns of BLOCK_SIZE cells.
pub open spec fn wf_block(c: Seq<Seq<bool>>) -> bool {
    &&& c.len() == BLOCK_SIZE
    &&& forall|x: int| 0 <= x < c.len() ==> (#[trigger] c[x]).len() == BLOCK_SIZE
}

/// Whether the mask has any occupied cell at all.
pub open spec fn has_cell(c: Seq<Seq<bool>>) -> bool {
    exists|x: int, y: int| 0 <= x < BLOCK_SIZE && 0 <= y < BLOCK_SIZE && c[x][y]
}

/// Row y of the stage, left to right.
pub open spec fn row_of(c: Seq<Seq<bool>>, y: int) -> Seq<bool> {
    Seq::new(STAGE_WIDTH as nat, |x: int| c[x][y])
}

/// The stage as a sequence of its STAGE_HEIGHT rows, top row first.
pub open spec fn rows_of(c: Seq<Seq<bool>>) -> Seq<Seq<bool>> {
    Seq::new(STAGE_HEIGHT as nat, |y: int| row_of(c, y))
}

/// A row with every cell unoccupied.
pub open spec fn empty_row() -> Seq<bool> {
    Seq::new(STAGE_WIDTH as nat, |x: int| false)
}

/// A row is full when every one of its STAGE_WIDTH cells is occupied.
pub open spec fn row_full(r: Seq<bool>) -> bool {
    forall|x: int| 0 <= x < STAGE_WIDTH ==> r[x]
}

/// The predicate that keeps a row out of a line-clear pass.
pub open spec fn not_full_pred() -> spec_fn(Seq<bool>) -> bool {
    |r: Seq<bool>| !row_full(r)
}

/// The rows of the stage that are not full, in their original order.
pub open spec fn kept_rows(rs: Seq<Seq<bool>>) -> Seq<Seq<bool>> {
    rs.filter(not_full_pred())
}

/// A run of `n` empty rows.
pub open spec fn empty_rows(n: int) -> Seq<Seq<bool>> {
    Seq::new(n as nat, |y: int| empty_row())
}

/// How many rows of the stage are full.
pub open spec fn num_full(c: Seq<Seq<bool>>) -> int {
    STAGE_HEIGHT - kept_rows(rows_of(c)).len()
}

/// The stage after one line-clear pass: the rows that were not full keep
/// their order and settle at the bottom, and the cleared space reappears as
/// empty rows on top.
pub open spec fn cleared_stage_rows(c: Seq<Seq<bool>>) -> Seq<Seq<bool>> {
    empty_rows(num_full(c)) + kept_rows(rows_of(c))
}

} // verus!
