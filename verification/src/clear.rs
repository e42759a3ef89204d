//! The line-clear engine: full-row detection, removal, gravity cascade and
//! the scoring it feeds.

use vstd::prelude::*;
use crate::game::{GameState, same_but_stage};
use crate::model::{
    wf_stage, row_of, rows_of, empty_row, empty_rows, row_full, not_full_pred, kept_rows,
    num_full, cleared_stage_rows,
};
use crate::{STAGE_WIDTH, STAGE_HEIGHT, ROW_SCORE, BONUS_SCORE};

verus! {

/// Whether every cell of stage row `row` is occupied.
pub fn is_full_row(game_state: &GameState, row: usize) -> (r: bool)
    requires
        wf_stage(game_state.stage_cells()),
        row < STAGE_HEIGHT,
    ensures
        r == row_full(rows_of(game_state.stage_cells())[row as int]),
{
    let mut x: usize = 0;
    while x < STAGE_WIDTH
        invariant
            wf_stage(game_state.stage_cells()),
            row < STAGE_HEIGHT,
            x <= STAGE_WIDTH,
            forall|x2: int| 0 <= x2 < x ==> #[trigger] game_state.stage_cells()[x2][row as int],
        decreases STAGE_WIDTH - x,
    {
        if !game_state.get_stage(x, row) {
            proof {
                assert(!row_of(game_state.stage_cells(), row as int)[x as int]);
            }
            return false;
        }
        x += 1;
    }
    proof {
        assert forall|x2: int| 0 <= x2 < STAGE_WIDTH
            implies rows_of(game_state.stage_cells())[row as int][x2] by {}
    }
    true
}

/// Clears every cell of stage row `row`.
pub fn remove_row(game_state: &mut GameState, row: usize)
    requires
        wf_stage(old(game_state).stage_cells()),
        row < STAGE_HEIGHT,
    ensures
        wf_stage(final(game_state).stage_cells()),
        same_but_stage(*old(game_state), *final(game_state)),
        rows_of(final(game_state).stage_cells()) == rows_of(old(game_state).stage_cells()).update(
            row as int,
            empty_row(),
        ),
{
    let ghost orig = old(game_state).stage_cells();
    let mut x: usize = 0;
    while x < STAGE_WIDTH
        invariant
            wf_stage(game_state.stage_cells()),
            same_but_stage(*old(game_state), *game_state),
            row < STAGE_HEIGHT,
            x <= STAGE_WIDTH,
            forall|x2: int, y2: int|
                0 <= x2 < STAGE_WIDTH && 0 <= y2 < STAGE_HEIGHT
                    ==> (#[trigger] game_state.stage_cells()[x2][y2]) == if y2 == row && x2 < x {
                    false
                } else {
                    orig[x2][y2]
                },
        decreases STAGE_WIDTH - x,
    {
        game_state.set_stage(x, row, false);
        x += 1;
    }
    proof {
        assert forall|k: int| 0 <= k < STAGE_HEIGHT
            implies rows_of(game_state.stage_cells())[k] =~= rows_of(orig).update(
                row as int,
                empty_row(),
            )[k] by {}
        assert(rows_of(game_state.stage_cells()) =~= rows_of(orig).update(row as int, empty_row()));
    }
}

/// Copies stage row `src` onto stage row `dst`.
pub fn copy_line(game_state: &mut GameState, src: usize, dst: usize)
    requires
        wf_stage(old(game_state).stage_cells()),
        src < STAGE_HEIGHT,
        dst < STAGE_HEIGHT,
        src != dst,
    ensures
        wf_stage(final(game_state).stage_cells()),
        same_but_stage(*old(game_state), *final(game_state)),
        rows_of(final(game_state).stage_cells()) == rows_of(old(game_state).stage_cells()).update(
            dst as int,
            row_of(old(game_state).stage_cells(), src as int),
        ),
{
    let ghost orig = old(game_state).stage_cells();
    let mut x: usize = 0;
    while x < STAGE_WIDTH
        invariant
            wf_stage(game_state.stage_cells()),
            same_but_stage(*old(game_state), *game_state),
            src < STAGE_HEIGHT,
            dst < STAGE_HEIGHT,
            src != dst,
            x <= STAGE_WIDTH,
            forall|x2: int, y2: int|
                0 <= x2 < STAGE_WIDTH && 0 <= y2 < STAGE_HEIGHT
                    ==> (#[trigger] game_state.stage_cells()[x2][y2]) == if y2 == dst && x2 < x {
                    orig[x2][src as int]
                } else {
                    orig[x2][y2]
                },
        decreases STAGE_WIDTH - x,
    {
        let v = game_state.get_stage(x, src);
        game_state.set_stage(x, dst, v);
        x += 1;
    }
    proof {
        assert forall|k: int| 0 <= k < STAGE_HEIGHT
            implies rows_of(game_state.stage_cells())[k] =~= rows_of(orig).update(
                dst as int,
                row_of(orig, src as int),
            )[k] by {}
        assert(rows_of(game_state.stage_cells()) =~= rows_of(orig).update(
            dst as int,
            row_of(orig, src as int),
        ));
    }
}

/// Shifts every row above `row` down by one, into `row`, and leaves the top
/// row empty.
pub fn collapse_above(game_state: &mut GameState, row: usize)
    requires
        wf_stage(old(game_state).stage_cells()),
        row < STAGE_HEIGHT,
    ensures
        wf_stage(final(game_state).stage_cells()),
        same_but_stage(*old(game_state), *final(game_state)),
        rows_of(final(game_state).stage_cells()) == seq![empty_row()] + rows_of(
            old(game_state).stage_cells(),
        ).take(row as int) + rows_of(old(game_state).stage_cells()).skip(row as int + 1),
{
    let ghost orig_rows = rows_of(old(game_state).stage_cells());
    let mut x: usize = 0;
    while x < row
        invariant
            wf_stage(game_state.stage_cells()),
            same_but_stage(*old(game_state), *game_state),
            row < STAGE_HEIGHT,
            x <= row,
            orig_rows == rows_of(old(game_state).stage_cells()),
            forall|k: int|
                0 <= k < STAGE_HEIGHT
                    ==> (#[trigger] rows_of(game_state.stage_cells())[k]) == if row - x < k <= row {
                    orig_rows[k - 1]
                } else {
                    orig_rows[k]
                },
        decreases row - x,
    {
        let ghost pre_cells = game_state.stage_cells();
        copy_line(game_state, row - 1 - x, row - x);
        proof {
            let src = row as int - 1 - x;
            let dst = row as int - x;
            assert(rows_of(pre_cells)[src] == row_of(pre_cells, src));
            assert forall|k: int| 0 <= k < STAGE_HEIGHT
                implies (#[trigger] rows_of(game_state.stage_cells())[k]) == if row - (x + 1) < k
                    <= row {
                    orig_rows[k - 1]
                } else {
                    orig_rows[k]
                } by {
                assert(rows_of(game_state.stage_cells())[k] == rows_of(pre_cells).update(
                    dst,
                    row_of(pre_cells, src),
                )[k]);
                if k == dst {
                    assert(rows_of(pre_cells)[src] == orig_rows[src]);
                }
            }
        }
        x += 1;
    }
    remove_row(game_state, 0);
    proof {
        let fin = rows_of(game_state.stage_cells());
        let want = seq![empty_row()] + orig_rows.take(row as int) + orig_rows.skip(row as int + 1);
        assert forall|k: int| 0 <= k < STAGE_HEIGHT implies fin[k] == want[k] by {
            if k == 0 {
            } else if k <= row {
                assert(want[k] == orig_rows.take(row as int)[k - 1]);
            } else {
                assert(want[k] == orig_rows.skip(row as int + 1)[k - row - 1]);
            }
        }
        assert(fin =~= want);
    }
}

/// `kept_rows` of a one-row sequence: the row itself unless it is full.
proof fn lemma_kept_singleton(r: Seq<bool>)
    ensures
        kept_rows(seq![r]) == if row_full(r) {
            Seq::<Seq<bool>>::empty()
        } else {
            seq![r]
        },
{
    reveal_with_fuel(Seq::filter, 3);
    assert(seq![r].drop_last() =~= Seq::<Seq<bool>>::empty());
    assert(seq![r].last() == r);
    if !row_full(r) {
        assert(kept_rows(seq![r]) =~= seq![r]);
    } else {
        assert(kept_rows(seq![r]) =~= Seq::<Seq<bool>>::empty());
    }
}

/// Peeling the first row off a suffix: a full row disappears from
/// `kept_rows`, any other row stays in front.
proof fn lemma_kept_cons(s: Seq<Seq<bool>>, i: int)
    requires
        0 <= i < s.len(),
    ensures
        kept_rows(s.skip(i)) == if row_full(s[i]) {
            kept_rows(s.skip(i + 1))
        } else {
            seq![s[i]] + kept_rows(s.skip(i + 1))
        },
{
    assert(s.skip(i) =~= seq![s[i]] + s.skip(i + 1));
    Seq::<Seq<bool>>::filter_distributes_over_add(seq![s[i]], s.skip(i + 1), not_full_pred());
    lemma_kept_singleton(s[i]);
    if row_full(s[i]) {
        assert(Seq::<Seq<bool>>::empty() + kept_rows(s.skip(i + 1)) =~= kept_rows(s.skip(i + 1)));
    }
}

/// Rows produced by `kept_rows` are never full.
proof fn lemma_kept_not_full(rs: Seq<Seq<bool>>, i: int)
    requires
        0 <= i < kept_rows(rs).len(),
    ensures
        !row_full(kept_rows(rs)[i]),
{
    rs.lemma_filter_pred(not_full_pred(), i);
}

/// An empty row is not full.
proof fn lemma_empty_row_not_full()
    ensures
        !row_full(empty_row()),
{
    assert(!empty_row()[0]);
}

/// One line-clear pass, scanning from the bottom row upward: each full row
/// is removed and everything above it falls one row; stacked full rows at
/// the same position are consumed in turn. Grants the per-row score for each
/// cleared row and one multi-clear bonus when more than one row went;
/// returns whether any row was cleared.
pub fn remove_full_rows(game_state: &mut GameState) -> (r: bool)
    requires
        old(game_state).wf(),
        old(game_state).score + STAGE_HEIGHT as int * ROW_SCORE as int + BONUS_SCORE as int
            <= i64::MAX,
        old(game_state).lines + STAGE_HEIGHT as int <= i64::MAX,
    ensures
        final(game_state).wf(),
        rows_of(final(game_state).stage_cells()) == cleared_stage_rows(old(game_state).stage_cells()),
        final(game_state).score == old(game_state).score + ROW_SCORE as int * num_full(
            old(game_state).stage_cells(),
        ) + if num_full(old(game_state).stage_cells()) > 1 {
            BONUS_SCORE as int
        } else {
            0
        },
        final(game_state).lines == old(game_state).lines + num_full(old(game_state).stage_cells()),
        r == (num_full(old(game_state).stage_cells()) > 0),
        final(game_state).current_block == old(game_state).current_block,
        final(game_state).next_block == old(game_state).next_block,
        final(game_state).current_position == old(game_state).current_position,
        final(game_state).high_score == old(game_state).high_score,
        final(game_state).level == old(game_state).level,
        final(game_state).status == old(game_state).status,
        final(game_state).update_interval == old(game_state).update_interval,
{
    let ghost orig = *old(game_state);
    let ghost orig_rows = rows_of(orig.stage_cells());
    let mut lines: i64 = 0;
    let ghost mut k: int = 0;
    let ghost mut m: int = STAGE_HEIGHT as int;
    proof {
        assert(orig_rows.take(m) =~= orig_rows);
        assert(orig_rows.skip(m) =~= Seq::<Seq<bool>>::empty());
        assert(kept_rows(Seq::<Seq<bool>>::empty()) =~= Seq::<Seq<bool>>::empty()) by {
            reveal_with_fuel(Seq::filter, 2);
        }
        assert(empty_rows(0) + orig_rows.take(m) + kept_rows(orig_rows.skip(m)) =~= rows_of(
            game_state.stage_cells(),
        ));
    }
    let mut y: usize = 0;
    while y < STAGE_HEIGHT
        invariant
            game_state.wf(),
            orig.wf(),
            y <= STAGE_HEIGHT,
            orig_rows == rows_of(orig.stage_cells()),
            0 <= k,
            0 <= m <= STAGE_HEIGHT,
            lines == k,
            k + m + kept_rows(orig_rows.skip(m)).len() == STAGE_HEIGHT,
            m > 0 ==> k + m == STAGE_HEIGHT - y,
            rows_of(game_state.stage_cells()) == empty_rows(k) + orig_rows.take(m) + kept_rows(
                orig_rows.skip(m),
            ),
            game_state.score == orig.score + ROW_SCORE as int * k,
            orig.score + STAGE_HEIGHT as int * ROW_SCORE as int + BONUS_SCORE as int <= i64::MAX,
            orig.lines + STAGE_HEIGHT as int <= i64::MAX,
            game_state.current_block == orig.current_block,
            game_state.next_block == orig.next_block,
            game_state.current_position == orig.current_position,
            game_state.high_score == orig.high_score,
            game_state.level == orig.level,
            game_state.lines == orig.lines,
            game_state.status == orig.status,
            game_state.update_interval == orig.update_interval,
        decreases STAGE_HEIGHT - y,
    {
        while is_full_row(game_state, STAGE_HEIGHT - 1 - y)
            invariant
                game_state.wf(),
                orig.wf(),
                y < STAGE_HEIGHT,
                orig_rows == rows_of(orig.stage_cells()),
                0 <= k,
                0 <= m <= STAGE_HEIGHT,
                lines == k,
                k + m + kept_rows(orig_rows.skip(m)).len() == STAGE_HEIGHT,
                m > 0 ==> k + m == STAGE_HEIGHT - y,
                rows_of(game_state.stage_cells()) == empty_rows(k) + orig_rows.take(m) + kept_rows(
                    orig_rows.skip(m),
                ),
                game_state.score == orig.score + ROW_SCORE as int * k,
                orig.score + STAGE_HEIGHT as int * ROW_SCORE as int + BONUS_SCORE as int
                    <= i64::MAX,
                orig.lines + STAGE_HEIGHT as int <= i64::MAX,
                game_state.current_block == orig.current_block,
                game_state.next_block == orig.next_block,
                game_state.current_position == orig.current_position,
                game_state.high_score == orig.high_score,
                game_state.level == orig.level,
                game_state.lines == orig.lines,
                game_state.status == orig.status,
                game_state.update_interval == orig.update_interval,
            decreases m,
        {
            let row = STAGE_HEIGHT - 1 - y;
            let ghost p = row as int;
            proof {
                // The row at the scan position is full, so the unprocessed
                // region is non-empty and the row is the last unprocessed
                // original row.
                let cur_rows = rows_of(game_state.stage_cells());
                assert(row_full(cur_rows[p]));
                if m == 0 {
                    assert(cur_rows[p] == (empty_rows(k) + kept_rows(orig_rows.skip(0)))[p]);
                    if p < k {
                        assert(cur_rows[p] == empty_row());
                        lemma_empty_row_not_full();
                    } else {
                        assert(cur_rows[p] == kept_rows(orig_rows.skip(0))[p - k]);
                        lemma_kept_not_full(orig_rows.skip(0), p - k);
                    }
                    assert(false);
                }
                assert(k + m == STAGE_HEIGHT - y);
                assert(p == k + m - 1);
                assert(cur_rows[p] == orig_rows.take(m)[p - k]);
                assert(row_full(orig_rows[m - 1]));
            }
            let ghost pre_rows = rows_of(game_state.stage_cells());
            remove_row(game_state, row);
            collapse_above(game_state, row);
            lines += 1;
            game_state.inc_score(ROW_SCORE);
            proof {
                let after_remove = pre_rows.update(p, empty_row());
                let now = rows_of(game_state.stage_cells());
                assert(now == seq![empty_row()] + after_remove.take(p) + after_remove.skip(p + 1));
                assert(after_remove.take(p) =~= pre_rows.take(p));
                assert(after_remove.skip(p + 1) =~= pre_rows.skip(p + 1));
                lemma_kept_cons(orig_rows, m - 1);
                assert(pre_rows.take(p) =~= empty_rows(k) + orig_rows.take(m - 1));
                assert(pre_rows.skip(p + 1) =~= kept_rows(orig_rows.skip(m)));
                assert(now =~= empty_rows(k + 1) + orig_rows.take(m - 1) + kept_rows(
                    orig_rows.skip(m - 1),
                ));
                k = k + 1;
                m = m - 1;
            }
        }
        proof {
            // The row at the scan position is not full; if it is still an
            // unprocessed original row, it joins the kept region.
            if m > 0 {
                let cur_rows = rows_of(game_state.stage_cells());
                let p = STAGE_HEIGHT - 1 - y;
                assert(cur_rows[p] == orig_rows.take(m)[p - k]);
                assert(!row_full(orig_rows[m - 1]));
                lemma_kept_cons(orig_rows, m - 1);
                assert(empty_rows(k) + orig_rows.take(m) + kept_rows(orig_rows.skip(m)) =~= empty_rows(
                    k,
                ) + orig_rows.take(m - 1) + kept_rows(orig_rows.skip(m - 1)));
                m = m - 1;
            }
        }
        y += 1;
    }
    proof {
        assert(m == 0);
        assert(orig_rows.skip(0) =~= orig_rows);
        assert(orig_rows.take(0) =~= Seq::<Seq<bool>>::empty());
        assert(k == num_full(orig.stage_cells()));
        assert(empty_rows(k) + Seq::<Seq<bool>>::empty() + kept_rows(orig_rows) =~= cleared_stage_rows(
            orig.stage_cells(),
        ));
    }
    let cleared = lines;
    game_state.lines += cleared;
    if cleared > 1 {
        game_state.inc_score(BONUS_SCORE);
    }
    cleared > 0
}

} // verus!
