//! Rotation geometry: a quarter turn clockwise followed by repacking the
//! mask to the top-left of its bounding box.
//!
//! The repack trims only leading empty rows and columns, never trailing
//! ones; rotation is committed only after the validity check passes.

use vstd::prelude::*;
use simple_matrix::Matrix;
use crate::mat::{mat_cells, mat_get, mat_set, mat_clone};
use crate::game::GameState;
use crate::model::wf_block;
use crate::{STAGE_WIDTH, STAGE_HEIGHT, BLOCK_SIZE};

verus! {

/// The mask turned a quarter turn clockwise: cell (x, y) of the result is
/// cell (y, BLOCK_SIZE - 1 - x) of the source.
pub open spec fn rot_cw(c: Seq<Seq<bool>>) -> Seq<Seq<bool>> {
    Seq::new(
        BLOCK_SIZE as nat,
        |x: int| Seq::new(BLOCK_SIZE as nat, |y: int| c[y][BLOCK_SIZE - 1 - x]),
    )
}

/// Outer line x of the mask (a column of the field) holds no occupied
/// cell.
pub open spec fn mask_row_empty(c: Seq<Seq<bool>>, x: int) -> bool {
    forall|y: int| 0 <= y < BLOCK_SIZE ==> !(#[trigger] c[x][y])
}

/// Inner line y of the mask (a row of the field) holds no occupied cell.
pub open spec fn mask_col_empty(c: Seq<Seq<bool>>, y: int) -> bool {
    forall|x: int| 0 <= x < BLOCK_SIZE ==> !(#[trigger] c[x][y])
}

/// How many leading (outer-index) lines of the mask are empty.
pub open spec fn lead_empty_rows(c: Seq<Seq<bool>>) -> int {
    if !mask_row_empty(c, 0) {
        0
    } else if !mask_row_empty(c, 1) {
        1
    } else if !mask_row_empty(c, 2) {
        2
    } else if !mask_row_empty(c, 3) {
        3
    } else {
        4
    }
}

/// How many leading (inner-index) lines of the mask are empty.
pub open spec fn lead_empty_cols(c: Seq<Seq<bool>>) -> int {
    if !mask_col_empty(c, 0) {
        0
    } else if !mask_col_empty(c, 1) {
        1
    } else if !mask_col_empty(c, 2) {
        2
    } else if !mask_col_empty(c, 3) {
        3
    } else {
        4
    }
}

/// The mask shifted so that its leading empty rows and columns disappear;
/// trailing empty rows and columns are left alone.
pub open spec fn repack(c: Seq<Seq<bool>>) -> Seq<Seq<bool>> {
    let er = lead_empty_rows(c);
    let ec = lead_empty_cols(c);
    Seq::new(
        BLOCK_SIZE as nat,
        |x: int| Seq::new(
            BLOCK_SIZE as nat,
            |y: int| if x < BLOCK_SIZE - er && y < BLOCK_SIZE - ec {
                c[x + er][y + ec]
            } else {
                false
            },
        ),
    )
}

/// One full rotation step: quarter turn clockwise, then repack.
pub open spec fn rotated(c: Seq<Seq<bool>>) -> Seq<Seq<bool>> {
    repack(rot_cw(c))
}

/// Reads a mask cell, keeping the mask's well-formedness visible.
fn bget(m: &Matrix<bool>, r: usize, c: usize) -> (b: bool)
    requires
        wf_block(mat_cells(*m)),
        r < BLOCK_SIZE,
        c < BLOCK_SIZE,
    ensures
        b == mat_cells(*m)[r as int][c as int],
{
    mat_get(m, r, c)
}

/// Writes a mask cell, keeping the mask's well-formedness.
fn bset(m: &mut Matrix<bool>, r: usize, c: usize, v: bool)
    requires
        wf_block(mat_cells(*old(m))),
        r < BLOCK_SIZE,
        c < BLOCK_SIZE,
    ensures
        wf_block(mat_cells(*final(m))),
        mat_cells(*final(m)) == mat_cells(*old(m)).update(
            r as int,
            mat_cells(*old(m))[r as int].update(c as int, v),
        ),
{
    mat_set(m, r, c, v);
    proof {
        assert forall|x: int| 0 <= x < mat_cells(*m).len()
            implies (#[trigger] mat_cells(*m)[x]).len() == BLOCK_SIZE by {
            if x == r as int {
                assert(mat_cells(*m)[x].len() == BLOCK_SIZE);
            }
        }
    }
}

/// Whether outer line x of the mask is entirely empty.
fn mask_row_empty_exec(m: &Matrix<bool>, x: usize) -> (b: bool)
    requires
        wf_block(mat_cells(*m)),
        x < BLOCK_SIZE,
    ensures
        b == mask_row_empty(mat_cells(*m), x as int),
{
    let mut y: usize = 0;
    while y < BLOCK_SIZE
        invariant
            wf_block(mat_cells(*m)),
            x < BLOCK_SIZE,
            y <= BLOCK_SIZE,
            forall|y2: int| 0 <= y2 < y ==> !(#[trigger] mat_cells(*m)[x as int][y2]),
        decreases BLOCK_SIZE - y,
    {
        if bget(m, x, y) {
            return false;
        }
        y += 1;
    }
    true
}

/// Whether inner line y of the mask is entirely empty.
fn mask_col_empty_exec(m: &Matrix<bool>, y: usize) -> (b: bool)
    requires
        wf_block(mat_cells(*m)),
        y < BLOCK_SIZE,
    ensures
        b == mask_col_empty(mat_cells(*m), y as int),
{
    let mut x: usize = 0;
    while x < BLOCK_SIZE
        invariant
            wf_block(mat_cells(*m)),
            y < BLOCK_SIZE,
            x <= BLOCK_SIZE,
            forall|x2: int| 0 <= x2 < x ==> !(#[trigger] mat_cells(*m)[x2][y as int]),
        decreases BLOCK_SIZE - x,
    {
        if bget(m, x, y) {
            return false;
        }
        x += 1;
    }
    true
}

/// How many leading outer lines of the mask are empty.
fn count_lead_empty_rows(m: &Matrix<bool>) -> (r: usize)
    requires
        wf_block(mat_cells(*m)),
    ensures
        r == lead_empty_rows(mat_cells(*m)),
        r <= BLOCK_SIZE,
{
    if !mask_row_empty_exec(m, 0) {
        0
    } else if !mask_row_empty_exec(m, 1) {
        1
    } else if !mask_row_empty_exec(m, 2) {
        2
    } else if !mask_row_empty_exec(m, 3) {
        3
    } else {
        4
    }
}

/// How many leading inner lines of the mask are empty.
fn count_lead_empty_cols(m: &Matrix<bool>) -> (r: usize)
    requires
        wf_block(mat_cells(*m)),
    ensures
        r == lead_empty_cols(mat_cells(*m)),
        r <= BLOCK_SIZE,
{
    if !mask_col_empty_exec(m, 0) {
        0
    } else if !mask_col_empty_exec(m, 1) {
        1
    } else if !mask_col_empty_exec(m, 2) {
        2
    } else if !mask_col_empty_exec(m, 3) {
        3
    } else {
        4
    }
}

/// Rotates the mask a quarter turn clockwise in place, then repacks it to
/// the top-left of its bounding box.
pub fn rotate_block(block: &mut Matrix<bool>)
    requires
        wf_block(mat_cells(*old(block))),
    ensures
        wf_block(mat_cells(*final(block))),
        mat_cells(*final(block)) == rotated(mat_cells(*old(block))),
{
    let ghost orig = mat_cells(*old(block));
    let tmp = mat_clone(block);

    // Quarter turn: write each column of the turned mask from a row of the
    // snapshot.
    let mut x: usize = 0;
    while x < BLOCK_SIZE
        invariant
            wf_block(mat_cells(*block)),
            mat_cells(tmp) == orig,
            wf_block(orig),
            x <= BLOCK_SIZE,
            forall|r: int, c: int|
                0 <= r < BLOCK_SIZE && 0 <= c < BLOCK_SIZE ==> (#[trigger] mat_cells(*block)[r][c])
                    == if c < x {
                    orig[c][BLOCK_SIZE - 1 - r]
                } else {
                    orig[r][c]
                },
        decreases BLOCK_SIZE - x,
    {
        let mut y: usize = 0;
        while y < BLOCK_SIZE
            invariant
                wf_block(mat_cells(*block)),
                mat_cells(tmp) == orig,
                wf_block(orig),
                x < BLOCK_SIZE,
                y <= BLOCK_SIZE,
                forall|r: int, c: int|
                    0 <= r < BLOCK_SIZE && 0 <= c < BLOCK_SIZE
                        ==> (#[trigger] mat_cells(*block)[r][c]) == if c < x || (c == x && r < y) {
                        orig[c][BLOCK_SIZE - 1 - r]
                    } else {
                        orig[r][c]
                    },
            decreases BLOCK_SIZE - y,
        {
            let v = bget(&tmp, x, BLOCK_SIZE - 1 - y);
            bset(block, y, x, v);
            y += 1;
        }
        x += 1;
    }
    proof {
        assert forall|r: int| 0 <= r < BLOCK_SIZE
            implies mat_cells(*block)[r] =~= rot_cw(orig)[r] by {}
        assert(mat_cells(*block) =~= rot_cw(orig));
    }

    // Repack: shift away the leading empty rows and columns.
    let ghost turned = mat_cells(*block);
    let empty_rows = count_lead_empty_rows(block);
    let empty_cols = count_lead_empty_cols(block);
    let tmp2 = mat_clone(block);

    let mut r: usize = 0;
    while r < BLOCK_SIZE
        invariant
            wf_block(mat_cells(*block)),
            r <= BLOCK_SIZE,
            mat_cells(tmp2) == turned,
            wf_block(turned),
            forall|r2: int, c2: int|
                0 <= r2 < BLOCK_SIZE && 0 <= c2 < BLOCK_SIZE
                    ==> (#[trigger] mat_cells(*block)[r2][c2]) == if r2 < r {
                    false
                } else {
                    turned[r2][c2]
                },
        decreases BLOCK_SIZE - r,
    {
        let mut c: usize = 0;
        while c < BLOCK_SIZE
            invariant
                wf_block(mat_cells(*block)),
                r < BLOCK_SIZE,
                c <= BLOCK_SIZE,
                mat_cells(tmp2) == turned,
                wf_block(turned),
                forall|r2: int, c2: int|
                    0 <= r2 < BLOCK_SIZE && 0 <= c2 < BLOCK_SIZE
                        ==> (#[trigger] mat_cells(*block)[r2][c2]) == if r2 < r || (r2 == r && c2 < c) {
                        false
                    } else {
                        turned[r2][c2]
                    },
            decreases BLOCK_SIZE - c,
        {
            bset(block, r, c, false);
            c += 1;
        }
        r += 1;
    }

    let mut r: usize = 0;
    while r < BLOCK_SIZE - empty_rows
        invariant
            wf_block(mat_cells(*block)),
            empty_rows == lead_empty_rows(turned),
            empty_cols == lead_empty_cols(turned),
            empty_rows <= BLOCK_SIZE,
            empty_cols <= BLOCK_SIZE,
            r <= BLOCK_SIZE - empty_rows,
            mat_cells(tmp2) == turned,
            wf_block(turned),
            forall|r2: int, c2: int|
                0 <= r2 < BLOCK_SIZE && 0 <= c2 < BLOCK_SIZE
                    ==> (#[trigger] mat_cells(*block)[r2][c2]) == if r2 < r && c2
                        < BLOCK_SIZE - empty_cols {
                    turned[r2 + empty_rows][c2 + empty_cols]
                } else {
                    false
                },
        decreases BLOCK_SIZE - empty_rows - r,
    {
        let mut c: usize = 0;
        while c < BLOCK_SIZE - empty_cols
            invariant
                wf_block(mat_cells(*block)),
                empty_rows == lead_empty_rows(turned),
                empty_cols == lead_empty_cols(turned),
                empty_rows <= BLOCK_SIZE,
                empty_cols <= BLOCK_SIZE,
                r < BLOCK_SIZE - empty_rows,
                c <= BLOCK_SIZE - empty_cols,
                mat_cells(tmp2) == turned,
                wf_block(turned),
                forall|r2: int, c2: int|
                    0 <= r2 < BLOCK_SIZE && 0 <= c2 < BLOCK_SIZE
                        ==> (#[trigger] mat_cells(*block)[r2][c2]) == if (r2 < r && c2
                            < BLOCK_SIZE - empty_cols) || (r2 == r && c2 < c) {
                        turned[r2 + empty_rows][c2 + empty_cols]
                    } else {
                        false
                    },
            decreases BLOCK_SIZE - empty_cols - c,
        {
            let v = bget(&tmp2, r + empty_rows, c + empty_cols);
            bset(block, r, c, v);
            c += 1;
        }
        r += 1;
    }
    proof {
        assert forall|r2: int| 0 <= r2 < BLOCK_SIZE
            implies mat_cells(*block)[r2] =~= rotated(orig)[r2] by {}
        assert(mat_cells(*block) =~= rotated(orig));
    }
}

/// Index of the last non-empty outer line of the mask, -1 when the mask is
/// empty.
pub open spec fn last_row(c: Seq<Seq<bool>>) -> int {
    if !mask_row_empty(c, 3) {
        3
    } else if !mask_row_empty(c, 2) {
        2
    } else if !mask_row_empty(c, 1) {
        1
    } else if !mask_row_empty(c, 0) {
        0
    } else {
        -1
    }
}

/// Index of the last non-empty inner line of the mask, -1 when the mask is
/// empty.
pub open spec fn last_col(c: Seq<Seq<bool>>) -> int {
    if !mask_col_empty(c, 3) {
        3
    } else if !mask_col_empty(c, 2) {
        2
    } else if !mask_col_empty(c, 1) {
        1
    } else if !mask_col_empty(c, 0) {
        0
    } else {
        -1
    }
}

/// A non-empty mask is packed when it hugs the top-left corner: no leading
/// empty rows or columns. An empty mask counts as packed.
pub open spec fn is_packed(c: Seq<Seq<bool>>) -> bool {
    crate::model::has_cell(c) ==> lead_empty_rows(c) == 0 && lead_empty_cols(c) == 0
}

/// Every occupied cell lies between the leading-empty counts and the last
/// non-empty lines.
proof fn lemma_mask_bounds(c: Seq<Seq<bool>>)
    requires
        wf_block(c),
    ensures
        forall|a: int, b: int|
            0 <= a < BLOCK_SIZE && 0 <= b < BLOCK_SIZE && #[trigger] c[a][b] ==> {
                &&& lead_empty_rows(c) <= a <= last_row(c)
                &&& lead_empty_cols(c) <= b <= last_col(c)
            },
{
    assert forall|a: int, b: int|
        0 <= a < BLOCK_SIZE && 0 <= b < BLOCK_SIZE && #[trigger] c[a][b]
        implies {
            &&& lead_empty_rows(c) <= a <= last_row(c)
            &&& lead_empty_cols(c) <= b <= last_col(c)
        } by {
        assert(!mask_row_empty(c, a));
        assert(!mask_col_empty(c, b));
    }
}

/// How the quarter turn maps empty lines: rows of the turned mask come from
/// columns of the source, columns from rows.
proof fn lemma_rot_empties(c: Seq<Seq<bool>>)
    requires
        wf_block(c),
    ensures
        forall|i: int|
            0 <= i < BLOCK_SIZE
                ==> (#[trigger] mask_row_empty(rot_cw(c), i) <==> mask_col_empty(
                c,
                BLOCK_SIZE - 1 - i,
            )),
        forall|i: int|
            0 <= i < BLOCK_SIZE
                ==> (#[trigger] mask_col_empty(rot_cw(c), i) <==> mask_row_empty(c, i)),
{
    assert forall|i: int| 0 <= i < BLOCK_SIZE
        implies (#[trigger] mask_row_empty(rot_cw(c), i) <==> mask_col_empty(
            c,
            BLOCK_SIZE - 1 - i,
        )) by {
        assert(forall|y: int| 0 <= y < BLOCK_SIZE ==> (#[trigger] rot_cw(c)[i][y]) == c[y][BLOCK_SIZE
            - 1 - i]);
        if mask_row_empty(rot_cw(c), i) {
            assert forall|x: int| 0 <= x < BLOCK_SIZE implies !(#[trigger] c[x][BLOCK_SIZE - 1
                - i]) by {
                assert(!rot_cw(c)[i][x]);
            }
        }
        if mask_col_empty(c, BLOCK_SIZE - 1 - i) {
            assert forall|y: int| 0 <= y < BLOCK_SIZE implies !(#[trigger] rot_cw(c)[i][y]) by {
                assert(!c[y][BLOCK_SIZE - 1 - i]);
            }
        }
    }
    assert forall|i: int| 0 <= i < BLOCK_SIZE
        implies (#[trigger] mask_col_empty(rot_cw(c), i) <==> mask_row_empty(c, i)) by {
        if mask_col_empty(rot_cw(c), i) {
            assert forall|y: int| 0 <= y < BLOCK_SIZE implies !(#[trigger] c[i][y]) by {
                assert(!rot_cw(c)[BLOCK_SIZE - 1 - y][i]);
            }
        }
        if mask_row_empty(c, i) {
            assert forall|x: int| 0 <= x < BLOCK_SIZE implies !(#[trigger] rot_cw(c)[x][i]) by {
                assert(!c[i][BLOCK_SIZE - 1 - x]);
            }
        }
    }
}

/// Pointwise characterization of one rotation step of a non-empty mask:
/// cell (x, y) of the result reads the source at row (y + leading empty
/// rows) and column (last column - x).
proof fn lemma_rotated_char(c: Seq<Seq<bool>>)
    requires
        wf_block(c),
        crate::model::has_cell(c),
    ensures
        0 <= last_col(c) <= 3,
        0 <= lead_empty_rows(c) <= 3,
        lead_empty_rows(rot_cw(c)) == 3 - last_col(c),
        lead_empty_cols(rot_cw(c)) == lead_empty_rows(c),
        forall|x: int, y: int|
            0 <= x < BLOCK_SIZE && 0 <= y < BLOCK_SIZE ==> (#[trigger] rotated(c)[x][y]) == (x
                <= last_col(c) && y <= 3 - lead_empty_rows(c) && c[y + lead_empty_rows(c)][
                last_col(c) - x]),
{
    let (a0, b0): (int, int) = choose|a: int, b: int|
        0 <= a < BLOCK_SIZE && 0 <= b < BLOCK_SIZE && c[a][b];
    lemma_mask_bounds(c);
    assert(!mask_row_empty(c, a0));
    assert(!mask_col_empty(c, b0));
    lemma_rot_empties(c);
}

/// One rotation step leaves the mask packed; a non-empty mask stays
/// non-empty, and its last lines swap roles with a shift by the trimmed
/// leading lines.
proof fn lemma_rotated_packed(c: Seq<Seq<bool>>)
    requires
        wf_block(c),
        crate::model::has_cell(c),
    ensures
        wf_block(rotated(c)),
        crate::model::has_cell(rotated(c)),
        lead_empty_rows(rotated(c)) == 0,
        lead_empty_cols(rotated(c)) == 0,
        forall|i: int|
            0 <= i < BLOCK_SIZE
                ==> (#[trigger] mask_col_empty(rotated(c), i) <==> (i > 3 - lead_empty_rows(c)
                || mask_row_empty(c, i + lead_empty_rows(c)))),
        forall|i: int|
            0 <= i < BLOCK_SIZE
                ==> (#[trigger] mask_row_empty(rotated(c), i) <==> (i > last_col(c)
                || mask_col_empty(c, last_col(c) - i))),
{
    lemma_rotated_char(c);
    lemma_mask_bounds(c);
    let lr = lead_empty_rows(c);
    let lc = last_col(c);
    assert forall|i: int| 0 <= i < BLOCK_SIZE
        implies (#[trigger] mask_col_empty(rotated(c), i) <==> (i > 3 - lr || mask_row_empty(
            c,
            i + lr,
        ))) by {
        if i <= 3 - lr {
            if !mask_row_empty(c, i + lr) {
                let b = choose|b: int| 0 <= b < BLOCK_SIZE && #[trigger] c[i + lr][b];
                assert(rotated(c)[lc - b][i]);
                assert(!mask_col_empty(rotated(c), i));
            }
            if !mask_col_empty(rotated(c), i) {
                let x = choose|x: int| 0 <= x < BLOCK_SIZE && #[trigger] rotated(c)[x][i];
                assert(c[i + lr][lc - x]);
                assert(!mask_row_empty(c, i + lr));
            }
        } else {
            assert forall|x: int| 0 <= x < BLOCK_SIZE implies !(#[trigger] rotated(c)[x][i]) by {}
        }
    }
    assert forall|i: int| 0 <= i < BLOCK_SIZE
        implies (#[trigger] mask_row_empty(rotated(c), i) <==> (i > lc || mask_col_empty(
            c,
            lc - i,
        ))) by {
        if i <= lc {
            if !mask_col_empty(c, lc - i) {
                let a = choose|a: int| 0 <= a < BLOCK_SIZE && #[trigger] c[a][lc - i];
                assert(rotated(c)[i][a - lr]);
                assert(!mask_row_empty(rotated(c), i));
            }
            if !mask_row_empty(rotated(c), i) {
                let y = choose|y: int| 0 <= y < BLOCK_SIZE && #[trigger] rotated(c)[i][y];
                assert(c[y + lr][lc - i]);
                assert(!mask_col_empty(c, lc - i));
            }
        } else {
            assert forall|y: int| 0 <= y < BLOCK_SIZE implies !(#[trigger] rotated(c)[i][y]) by {}
        }
    }
    let b1 = choose|b: int| 0 <= b < BLOCK_SIZE && #[trigger] c[lead_empty_rows(c)][b];
    assert(!mask_row_empty(c, lr));
    assert(c[lr][b1]);
    assert(rotated(c)[lc - b1][0]);
    assert(!mask_col_empty(rotated(c), 0));
    let a1 = choose|a: int| 0 <= a < BLOCK_SIZE && #[trigger] c[a][last_col(c)];
    assert(!mask_col_empty(c, lc));
    assert(c[a1][lc]);
    assert(rotated(c)[0][a1 - lr]);
    assert(!mask_row_empty(rotated(c), 0));
}

/// Two rotation steps of a packed, non-empty mask turn it upside down
/// within its own bounding box, and keep its bounding box.
proof fn lemma_rotate_twice(c: Seq<Seq<bool>>)
    requires
        wf_block(c),
        crate::model::has_cell(c),
        lead_empty_rows(c) == 0,
        lead_empty_cols(c) == 0,
    ensures
        wf_block(rotated(rotated(c))),
        crate::model::has_cell(rotated(rotated(c))),
        lead_empty_rows(rotated(rotated(c))) == 0,
        lead_empty_cols(rotated(rotated(c))) == 0,
        last_row(rotated(rotated(c))) == last_row(c),
        last_col(rotated(rotated(c))) == last_col(c),
        forall|x: int, y: int|
            0 <= x < BLOCK_SIZE && 0 <= y < BLOCK_SIZE ==> (#[trigger] rotated(rotated(c))[x][y])
                == (x <= last_row(c) && y <= last_col(c) && c[last_row(c) - x][last_col(c) - y]),
{
    let c1 = rotated(c);
    let c2 = rotated(c1);
    let mm = last_col(c);
    let rr = last_row(c);
    lemma_mask_bounds(c);
    lemma_rotated_char(c);
    lemma_rotated_packed(c);
    // The columns of the turned mask mirror the rows of the source, so its
    // last column is the source's last row.
    assert(last_col(c1) == rr);
    assert(0 <= rr <= 3);
    lemma_rotated_char(c1);
    lemma_rotated_packed(c1);
    lemma_mask_bounds(c1);
    assert forall|x: int, y: int| 0 <= x < BLOCK_SIZE && 0 <= y < BLOCK_SIZE
        implies (#[trigger] c2[x][y]) == (x <= rr && y <= mm && c[rr - x][mm - y]) by {
        assert(c2[x][y] == (x <= rr && y <= 3 && c1[y][rr - x]));
        if x <= rr {
            assert(c1[y][rr - x] == (y <= mm && rr - x <= 3 && c[rr - x][mm - y]));
        }
    }
    assert(last_col(c2) == mm) by {
        assert(forall|i: int|
            0 <= i < BLOCK_SIZE
                ==> (#[trigger] mask_col_empty(c2, i) <==> (i > 3 || mask_row_empty(c1, i))));
        assert(forall|i: int|
            0 <= i < BLOCK_SIZE
                ==> (#[trigger] mask_row_empty(c1, i) <==> (i > mm || mask_col_empty(c, mm - i))));
    }
    assert(last_row(c2) == rr) by {
        assert(forall|i: int|
            0 <= i < BLOCK_SIZE
                ==> (#[trigger] mask_row_empty(c2, i) <==> (i > rr || mask_col_empty(c1, rr - i))));
        assert(forall|i: int|
            0 <= i < BLOCK_SIZE
                ==> (#[trigger] mask_col_empty(c1, i) <==> mask_row_empty(c, i)));
    }
}

/// Four rotation steps return a packed mask to itself: the rotation cycle
/// of every packed shape (every catalog shape, and everything `rotated`
/// produces) has length dividing four. The leading-only trim never breaks
/// the cycle for packed masks; an unpacked mask is first packed by its
/// first rotation step.
pub proof fn lemma_rotate_four_cycle(c: Seq<Seq<bool>>)
    requires
        wf_block(c),
        is_packed(c),
    ensures
        rotated(rotated(rotated(rotated(c)))) == c,
{
    if !crate::model::has_cell(c) {
        lemma_rotate_empty(c);
        lemma_rotate_empty(rotated(c));
        lemma_rotate_empty(rotated(rotated(c)));
        lemma_rotate_empty(rotated(rotated(rotated(c))));
    } else {
        let c2 = rotated(rotated(c));
        let c4 = rotated(rotated(c2));
        let rr = last_row(c);
        let mm = last_col(c);
        lemma_mask_bounds(c);
        lemma_rotate_twice(c);
        lemma_rotate_twice(c2);
        assert forall|x: int, y: int| 0 <= x < BLOCK_SIZE && 0 <= y < BLOCK_SIZE
            implies (#[trigger] c4[x][y]) == c[x][y] by {
            assert(c4[x][y] == (x <= rr && y <= mm && c2[rr - x][mm - y]));
            if x <= rr && y <= mm {
                assert(c2[rr - x][mm - y] == (rr - x <= rr && mm - y <= mm && c[x][y]));
            }
        }
        assert forall|x: int| 0 <= x < BLOCK_SIZE implies c4[x] =~= c[x] by {}
        assert(c4 =~= c);
    }
}

/// One rotation step always yields a packed mask, so the cycle law applies
/// to everything `rotated` produces.
pub proof fn lemma_rotated_is_packed(c: Seq<Seq<bool>>)
    requires
        wf_block(c),
    ensures
        wf_block(rotated(c)),
        is_packed(rotated(c)),
{
    if crate::model::has_cell(c) {
        lemma_rotated_packed(c);
    } else {
        lemma_rotate_empty(c);
    }
}

/// Every catalog shape is packed, so its rotation cycle has length
/// dividing four.
pub proof fn lemma_catalog_packed(kind: crate::catalog::BlockKind)
    ensures
        wf_block(crate::catalog::shape_mask(kind)),
        is_packed(crate::catalog::shape_mask(kind)),
{
    let c = crate::catalog::shape_mask(kind);
    match kind {
        crate::catalog::BlockKind::Smashboy => {
            assert(c[0][0]);
            assert(!mask_row_empty(c, 0));
            assert(!mask_col_empty(c, 0));
        },
        crate::catalog::BlockKind::OrangeRicky => {
            assert(c[0][2]);
            assert(c[1][0]);
            assert(!mask_row_empty(c, 0));
            assert(!mask_col_empty(c, 0));
        },
        crate::catalog::BlockKind::BlueRicky => {
            assert(c[0][0]);
            assert(!mask_row_empty(c, 0));
            assert(!mask_col_empty(c, 0));
        },
        crate::catalog::BlockKind::ClevelandZ => {
            assert(c[0][0]);
            assert(!mask_row_empty(c, 0));
            assert(!mask_col_empty(c, 0));
        },
        crate::catalog::BlockKind::RhodeIslandZ => {
            assert(c[0][1]);
            assert(c[1][0]);
            assert(!mask_row_empty(c, 0));
            assert(!mask_col_empty(c, 0));
        },
        crate::catalog::BlockKind::Hero => {
            assert(c[0][0]);
            assert(!mask_row_empty(c, 0));
            assert(!mask_col_empty(c, 0));
        },
        crate::catalog::BlockKind::Teewee => {
            assert(c[0][1]);
            assert(c[1][0]);
            assert(!mask_row_empty(c, 0));
            assert(!mask_col_empty(c, 0));
        },
    }
}

/// Rotating a mask with no occupied cell gives it back unchanged.
proof fn lemma_rotate_empty(c: Seq<Seq<bool>>)
    requires
        wf_block(c),
        !crate::model::has_cell(c),
    ensures
        rotated(c) == c,
        wf_block(rotated(c)),
        !crate::model::has_cell(rotated(c)),
{
    assert forall|x: int, y: int| 0 <= x < BLOCK_SIZE && 0 <= y < BLOCK_SIZE
        implies !(#[trigger] rotated(c)[x][y]) && !c[x][y] by {
        let er = lead_empty_rows(rot_cw(c));
        let ec = lead_empty_cols(rot_cw(c));
        if x < BLOCK_SIZE - er && y < BLOCK_SIZE - ec {
            assert(rotated(c)[x][y] == rot_cw(c)[x + er][y + ec]);
        }
    }
    assert forall|x: int| 0 <= x < BLOCK_SIZE implies rotated(c)[x] =~= c[x] by {}
    assert(rotated(c) =~= c);
}

/// The rotated mask, kept at the current anchor, stays inside the field and
/// overlaps no occupied stage cell.
pub open spec fn spec_can_rotate(gs: GameState) -> bool {
    forall|x: int, y: int|
        0 <= x < BLOCK_SIZE && 0 <= y < BLOCK_SIZE && #[trigger] rotated(gs.cur_cells())[x][y] ==> {
            &&& gs.current_position.x + x < STAGE_WIDTH
            &&& gs.current_position.y + y < STAGE_HEIGHT
            &&& !gs.stage_cells()[gs.current_position.x + x][gs.current_position.y + y]
        }
}

/// An occupied cell of the rotated mask comes from an occupied cell of the
/// source mask.
proof fn lemma_rotated_cell_source(c: Seq<Seq<bool>>, x: int, y: int)
    requires
        wf_block(c),
        0 <= x < BLOCK_SIZE,
        0 <= y < BLOCK_SIZE,
        rotated(c)[x][y],
    ensures
        exists|sx: int, sy: int| 0 <= sx < BLOCK_SIZE && 0 <= sy < BLOCK_SIZE && #[trigger] c[sx][sy],
{
    let er = lead_empty_rows(rot_cw(c));
    let ec = lead_empty_cols(rot_cw(c));
    assert(rot_cw(c)[x + er][y + ec]);
    assert(c[y + ec][BLOCK_SIZE - 1 - (x + er)]);
}

/// Whether the active piece may rotate in place: rotates a scratch copy and
/// checks it against bounds and stage occupancy at the current anchor.
pub fn can_rotate(game_state: &GameState) -> (r: bool)
    requires
        game_state.wf(),
    ensures
        r == spec_can_rotate(*game_state),
{
    let mut tmp = mat_clone(&game_state.current_block);
    rotate_block(&mut tmp);
    let ghost rc = rotated(game_state.cur_cells());

    let mut x: usize = 0;
    while x < BLOCK_SIZE
        invariant
            game_state.wf(),
            mat_cells(tmp) == rc,
            rc == rotated(game_state.cur_cells()),
            wf_block(rc),
            x <= BLOCK_SIZE,
            forall|x2: int, y2: int|
                0 <= x2 < x && 0 <= y2 < BLOCK_SIZE && #[trigger] rc[x2][y2] ==> {
                    &&& game_state.current_position.x + x2 < STAGE_WIDTH
                    &&& game_state.current_position.y + y2 < STAGE_HEIGHT
                    &&& !game_state.stage_cells()[game_state.current_position.x + x2][
                        game_state.current_position.y + y2]
                },
        decreases BLOCK_SIZE - x,
    {
        let mut y: usize = 0;
        while y < BLOCK_SIZE
            invariant
                game_state.wf(),
                mat_cells(tmp) == rc,
                rc == rotated(game_state.cur_cells()),
                wf_block(rc),
                x < BLOCK_SIZE,
                y <= BLOCK_SIZE,
                forall|x2: int, y2: int|
                    0 <= x2 < x && 0 <= y2 < BLOCK_SIZE && #[trigger] rc[x2][y2] ==> {
                        &&& game_state.current_position.x + x2 < STAGE_WIDTH
                        &&& game_state.current_position.y + y2 < STAGE_HEIGHT
                        &&& !game_state.stage_cells()[game_state.current_position.x + x2][
                            game_state.current_position.y + y2]
                    },
                forall|y2: int|
                    0 <= y2 < y && #[trigger] rc[x as int][y2] ==> {
                        &&& game_state.current_position.x + x < STAGE_WIDTH
                        &&& game_state.current_position.y + y2 < STAGE_HEIGHT
                        &&& !game_state.stage_cells()[game_state.current_position.x + x][
                            game_state.current_position.y + y2]
                    },
            decreases BLOCK_SIZE - y,
        {
            if bget(&tmp, x, y) {
                proof {
                    lemma_rotated_cell_source(game_state.cur_cells(), x as int, y as int);
                }
                let gx = game_state.current_position.x + x;
                let gy = game_state.current_position.y + y;
                if gx > STAGE_WIDTH - 1 || gy > STAGE_HEIGHT - 1 {
                    return false;
                } else if game_state.get_stage(gx, gy) {
                    return false;
                }
            }
            y += 1;
        }
        x += 1;
    }
    true
}

/// Rotates the active piece in place if the rotated mask fits; otherwise a
/// silent no-op. Returns whether the rotation was committed.
pub fn rotate_current(game_state: &mut GameState) -> (r: bool)
    requires
        old(game_state).wf(),
    ensures
        final(game_state).wf(),
        r == spec_can_rotate(*old(game_state)),
        r ==> {
            &&& final(game_state).cur_cells() == rotated(old(game_state).cur_cells())
            &&& final(game_state).stage == old(game_state).stage
            &&& final(game_state).next_block == old(game_state).next_block
            &&& final(game_state).current_position == old(game_state).current_position
            &&& crate::game::same_counters(*old(game_state), *final(game_state))
        },
        !r ==> *final(game_state) == *old(game_state),
{
    if can_rotate(game_state) {
        rotate_block(&mut game_state.current_block);
        true
    } else {
        false
    }
}

} // verus!
