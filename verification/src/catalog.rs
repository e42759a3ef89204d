//! The catalog of the seven canonical piece shapes, as 4x4 occupancy masks.
//!
//! Masks index as `mask[x][y]` (x across, y down), matching the storage
//! order of the stage, so an occupied mask cell (x, y) of a piece anchored at
//! `pos` covers the stage cell (pos.x + x, pos.y + y).

use vstd::prelude::*;
use simple_matrix::Matrix;
use crate::mat::{mat_cells, mat_from_vec};
use crate::model::wf_block;
use crate::BLOCK_SIZE;

verus! {

/// The seven piece kinds of the classic set.
#[derive(Clone, Copy, PartialEq, Eq, Structural, Debug)]
pub enum BlockKind {
    Smashboy,
    OrangeRicky,
    BlueRicky,
    ClevelandZ,
    RhodeIslandZ,
    Hero,
    Teewee,
}

/// The canonical occupancy mask of each kind.
pub open spec fn shape_mask(kind: BlockKind) -> Seq<Seq<bool>> {
    match kind {
        BlockKind::Smashboy => seq![
            seq![true, true, false, false],
            seq![true, true, false, false],
            seq![false, false, false, false],
            seq![false, false, false, false],
        ],
        BlockKind::OrangeRicky => seq![
            seq![false, false, true, false],
            seq![true, true, true, false],
            seq![false, false, false, false],
            seq![false, false, false, false],
        ],
        BlockKind::BlueRicky => seq![
            seq![true, false, false, false],
            seq![true, true, true, false],
            seq![false, false, false, false],
            seq![false, false, false, false],
        ],
        BlockKind::ClevelandZ => seq![
            seq![true, true, false, false],
            seq![false, true, true, false],
            seq![false, false, false, false],
            seq![false, false, false, false],
        ],
        BlockKind::RhodeIslandZ => seq![
            seq![false, true, true, false],
            seq![true, true, false, false],
            seq![false, false, false, false],
            seq![false, false, false, false],
        ],
        BlockKind::Hero => seq![
            seq![true, true, true, true],
            seq![false, false, false, false],
            seq![false, false, false, false],
            seq![false, false, false, false],
        ],
        BlockKind::Teewee => seq![
            seq![false, true, false, false],
            seq![true, true, true, false],
            seq![false, false, false, false],
            seq![false, false, false, false],
        ],
    }
}

/// The kind at each position of the catalog's draw table, in the order the
/// random source indexes it.
pub fn kind_from_index(i: usize) -> (kind: BlockKind)
    requires
        i < 7,
    ensures
        kind == spec_kind_from_index(i as int),
{
    match i {
        0 => BlockKind::Smashboy,
        1 => BlockKind::OrangeRicky,
        2 => BlockKind::BlueRicky,
        3 => BlockKind::ClevelandZ,
        4 => BlockKind::RhodeIslandZ,
        5 => BlockKind::Hero,
        _ => BlockKind::Teewee,
    }
}

/// Draw-table order of the kinds.
pub open spec fn spec_kind_from_index(i: int) -> BlockKind {
    if i == 0 {
        BlockKind::Smashboy
    } else if i == 1 {
        BlockKind::OrangeRicky
    } else if i == 2 {
        BlockKind::BlueRicky
    } else if i == 3 {
        BlockKind::ClevelandZ
    } else if i == 4 {
        BlockKind::RhodeIslandZ
    } else if i == 5 {
        BlockKind::Hero
    } else {
        BlockKind::Teewee
    }
}

/// Whether a mask is one of the seven canonical shapes.
pub open spec fn is_catalog_mask(c: Seq<Seq<bool>>) -> bool {
    exists|kind: BlockKind| c == shape_mask(kind)
}

/// Builds the matrix that holds the canonical mask of `kind`.
pub fn shape_of(kind: BlockKind) -> (m: Matrix<bool>)
    ensures
        mat_cells(m) == shape_mask(kind),
        wf_block(mat_cells(m)),
{
    let v: Vec<bool> = match kind {
        BlockKind::Smashboy => vec![
            true, true, false, false,
            true, true, false, false,
            false, false, false, false,
            false, false, false, false,
        ],
        BlockKind::OrangeRicky => vec![
            false, false, true, false,
            true, true, true, false,
            false, false, false, false,
            false, false, false, false,
        ],
        BlockKind::BlueRicky => vec![
            true, false, false, false,
            true, true, true, false,
            false, false, false, false,
            false, false, false, false,
        ],
        BlockKind::ClevelandZ => vec![
            true, true, false, false,
            false, true, true, false,
            false, false, false, false,
            false, false, false, false,
        ],
        BlockKind::RhodeIslandZ => vec![
            false, true, true, false,
            true, true, false, false,
            false, false, false, false,
            false, false, false, false,
        ],
        BlockKind::Hero => vec![
            true, true, true, true,
            false, false, false, false,
            false, false, false, false,
            false, false, false, false,
        ],
        BlockKind::Teewee => vec![
            false, true, false, false,
            true, true, true, false,
            false, false, false, false,
            false, false, false, false,
        ],
    };
    let m = mat_from_vec(BLOCK_SIZE, BLOCK_SIZE, v);
    proof {
        assert(mat_cells(m)[0] =~= shape_mask(kind)[0]);
        assert(mat_cells(m)[1] =~= shape_mask(kind)[1]);
        assert(mat_cells(m)[2] =~= shape_mask(kind)[2]);
        assert(mat_cells(m)[3] =~= shape_mask(kind)[3]);
        assert(mat_cells(m) =~= shape_mask(kind));
    }
    m
}

} // verus!
