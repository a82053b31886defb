//! Session-level laws: rectangularity is preserved by the global column
//! operations and by undo/redo, undo and redo round-trip through an edit,
//! and a fully packed row is a fixed point of the throw operation.
//!
//! Each lemma's hypotheses are exactly what the corresponding editing
//! command's contract establishes, so a caller that ran the command can
//! apply the lemma to its pre- and post-states.

use vstd::prelude::*;

use crate::grid::can_shift_left;
use crate::grid::can_shift_right;
use crate::grid::gap_left_of;
use crate::grid::gap_right_of;
use crate::grid::lemma_gap_right_of_exact;
use crate::grid::row_shifted_left;
use crate::grid::row_shifted_right;
use crate::grid::lemma_delete_gap_column_rectangular;
use crate::grid::lemma_gap_left_of;
use crate::grid::lemma_insert_gap_column_rectangular;
use crate::grid::thrown_left;
use crate::grid::AlignmentModel;
use crate::session::App;

verus! {

/// The whole session is rectangular: the current alignment and every
/// snapshot on either history stack.
pub open spec fn rectangular_session(a: App) -> bool {
    &&& a.alignment@.rectangular()
    &&& forall|k: int|
        0 <= k < a.history.undo_snapshots().len() ==> (
        #[trigger] a.history.undo_snapshots()[k]).alignment.rectangular()
    &&& forall|k: int|
        0 <= k < a.history.redo_snapshots().len() ==> (
        #[trigger] a.history.redo_snapshots()[k]).alignment.rectangular()
}

/// Inserting a gap column keeps the whole session rectangular.  The
/// hypotheses are the contract of the insert command: the alignment gains
/// a gap column and the pre-state is snapshotted.  (The one excluded
/// corner: an alignment with no sequences but annotation rows present,
/// edited at column 0.)
pub proof fn lemma_insert_gap_column_preserves_rectangular(pre: App, post: App)
    requires
        rectangular_session(pre),
        pre.alignment@.sequences.len() > 0 || pre.cursor_col != 0,
        post.alignment@ == pre.alignment@.with_gap_column(pre.cursor_col as int, pre.gap_char),
        post.history.undo_snapshots() == pre.history.undo_snapshots().push(pre.snapshot_model()),
        post.history.redo_snapshots().len() == 0,
    ensures
        rectangular_session(post),
{
    lemma_insert_gap_column_rectangular(pre.alignment@, pre.cursor_col as int, pre.gap_char);
    assert forall|k: int| 0 <= k < post.history.undo_snapshots().len() implies (
    #[trigger] post.history.undo_snapshots()[k]).alignment.rectangular() by {
        if k < pre.history.undo_snapshots().len() {
            assert(post.history.undo_snapshots()[k] == pre.history.undo_snapshots()[k]);
        } else {
            assert(post.history.undo_snapshots()[k] == pre.snapshot_model());
        }
    }
}

/// Deleting a gap column keeps the whole session rectangular.
pub proof fn lemma_delete_gap_column_preserves_rectangular(pre: App, post: App)
    requires
        rectangular_session(pre),
        post.alignment@ == pre.alignment@.without_column(pre.cursor_col as int),
        post.history.undo_snapshots() == pre.history.undo_snapshots().push(pre.snapshot_model()),
        post.history.redo_snapshots().len() == 0,
    ensures
        rectangular_session(post),
{
    lemma_delete_gap_column_rectangular(pre.alignment@, pre.cursor_col as int);
    assert forall|k: int| 0 <= k < post.history.undo_snapshots().len() implies (
    #[trigger] post.history.undo_snapshots()[k]).alignment.rectangular() by {
        if k < pre.history.undo_snapshots().len() {
            assert(post.history.undo_snapshots()[k] == pre.history.undo_snapshots()[k]);
        } else {
            assert(post.history.undo_snapshots()[k] == pre.snapshot_model());
        }
    }
}

/// Undo keeps the whole session rectangular: it only moves alignments
/// between the current state and the two stacks.
pub proof fn lemma_undo_preserves_rectangular(pre: App, post: App)
    requires
        rectangular_session(pre),
        pre.history.undo_snapshots().len() == 0 ==> post.alignment@ == pre.alignment@
            && post.history.undo_snapshots() == pre.history.undo_snapshots()
            && post.history.redo_snapshots() == pre.history.redo_snapshots(),
        pre.history.undo_snapshots().len() > 0 ==> post.alignment@
            == pre.history.undo_snapshots().last().alignment && post.history.undo_snapshots()
            == pre.history.undo_snapshots().drop_last() && post.history.redo_snapshots()
            == pre.history.redo_snapshots().push(pre.snapshot_model()),
    ensures
        rectangular_session(post),
{
    if pre.history.undo_snapshots().len() > 0 {
        assert(pre.history.undo_snapshots().last().alignment.rectangular());
        assert forall|k: int| 0 <= k < post.history.undo_snapshots().len() implies (
        #[trigger] post.history.undo_snapshots()[k]).alignment.rectangular() by {
            assert(post.history.undo_snapshots()[k] == pre.history.undo_snapshots()[k]);
        }
        assert forall|k: int| 0 <= k < post.history.redo_snapshots().len() implies (
        #[trigger] post.history.redo_snapshots()[k]).alignment.rectangular() by {
            if k < pre.history.redo_snapshots().len() {
                assert(post.history.redo_snapshots()[k] == pre.history.redo_snapshots()[k]);
            } else {
                assert(post.history.redo_snapshots()[k] == pre.snapshot_model());
            }
        }
    }
}

/// Redo keeps the whole session rectangular, symmetrically to undo.
pub proof fn lemma_redo_preserves_rectangular(pre: App, post: App)
    requires
        rectangular_session(pre),
        pre.history.redo_snapshots().len() == 0 ==> post.alignment@ == pre.alignment@
            && post.history.undo_snapshots() == pre.history.undo_snapshots()
            && post.history.redo_snapshots() == pre.history.redo_snapshots(),
        pre.history.redo_snapshots().len() > 0 ==> post.alignment@
            == pre.history.redo_snapshots().last().alignment && post.history.redo_snapshots()
            == pre.history.redo_snapshots().drop_last() && post.history.undo_snapshots()
            == pre.history.undo_snapshots().push(pre.snapshot_model()),
    ensures
        rectangular_session(post),
{
    if pre.history.redo_snapshots().len() > 0 {
        assert(pre.history.redo_snapshots().last().alignment.rectangular());
        assert forall|k: int| 0 <= k < post.history.redo_snapshots().len() implies (
        #[trigger] post.history.redo_snapshots()[k]).alignment.rectangular() by {
            assert(post.history.redo_snapshots()[k] == pre.history.redo_snapshots()[k]);
        }
        assert forall|k: int| 0 <= k < post.history.undo_snapshots().len() implies (
        #[trigger] post.history.undo_snapshots()[k]).alignment.rectangular() by {
            if k < pre.history.undo_snapshots().len() {
                assert(post.history.undo_snapshots()[k] == pre.history.undo_snapshots()[k]);
            } else {
                assert(post.history.undo_snapshots()[k] == pre.snapshot_model());
            }
        }
    }
}

/// Undo/redo round-trip.  `s0` is the session before an edit; the edit
/// snapshots `s0` and produces `s1`; undoing `s1` produces `s2`; redoing
/// `s2` produces `s3`.  Then `s2` carries `s0`'s alignment and cursor, and
/// `s3` carries `s1`'s alignment with the cursor as it stood at the edit.
pub proof fn lemma_undo_redo_round_trip(s0: App, s1: App, s2: App, s3: App)
    requires
        // the edit: pre-state snapshotted, cursor untouched, redo cleared
        s1.history.undo_snapshots() == s0.history.undo_snapshots().push(s0.snapshot_model()),
        s1.history.redo_snapshots().len() == 0,
        s1.cursor_row == s0.cursor_row,
        s1.cursor_col == s0.cursor_col,
        // the undo, as its contract describes it
        s2.alignment@ == s1.history.undo_snapshots().last().alignment,
        s2.cursor_row == s1.history.undo_snapshots().last().cursor_row,
        s2.cursor_col == s1.history.undo_snapshots().last().cursor_col,
        s2.history.undo_snapshots() == s1.history.undo_snapshots().drop_last(),
        s2.history.redo_snapshots() == s1.history.redo_snapshots().push(s1.snapshot_model()),
        // the redo, as its contract describes it
        s3.alignment@ == s2.history.redo_snapshots().last().alignment,
        s3.cursor_row == s2.history.redo_snapshots().last().cursor_row,
        s3.cursor_col == s2.history.redo_snapshots().last().cursor_col,
    ensures
        s2.alignment@ == s0.alignment@,
        s2.cursor_row == s0.cursor_row,
        s2.cursor_col == s0.cursor_col,
        s2.history.undo_snapshots() == s0.history.undo_snapshots(),
        s3.alignment@ == s1.alignment@,
        s3.cursor_row == s1.cursor_row,
        s3.cursor_col == s1.cursor_col,
{
    assert(s1.history.undo_snapshots().last() == s0.snapshot_model());
    assert(s1.history.undo_snapshots().drop_last() =~= s0.history.undo_snapshots());
    assert(s2.history.redo_snapshots().last() == s1.snapshot_model());
}

/// Throw idempotence at the boundary: when no gap symbol lies strictly
/// left of the cursor column in the row, the repeated left shift finds
/// nothing to consume and the alignment is a fixed point, whatever budget
/// the loop is given.
pub proof fn lemma_throw_left_packed(
    al: AlignmentModel,
    row: int,
    col: int,
    gaps: Seq<char>,
    fuel: nat,
)
    requires
        0 <= row < al.sequences.len(),
        forall|k: int|
            0 <= k < col && k < al.sequences[row].data.len() ==> !gaps.contains(
                #[trigger] al.sequences[row].data[k],
            ),
    ensures
        thrown_left(al, row, col, gaps, fuel) == al,
        !can_shift_left(al.sequences[row].data, gaps, col),
{
    if can_shift_left(al.sequences[row].data, gaps, col) {
        lemma_gap_left_of(al.sequences[row].data, gaps, col);
        let g = gap_left_of(al.sequences[row].data, gaps, col);
        assert(gaps.contains(al.sequences[row].data[g]));
        assert(false);
    }
}

/// Round-trip of shift.  A left shift at `col` consumes the nearest gap,
/// at some position `g`, and opens a fresh gap at `col`; the right shift
/// at `g` finds exactly that gap and puts everything back.  This holds
/// whenever the consumed gap was the canonical gap symbol (the one a shift
/// re-inserts) and the cursor column itself held a residue.
pub proof fn lemma_shift_round_trip(d: Seq<char>, gaps: Seq<char>, col: int)
    requires
        can_shift_left(d, gaps, col),
        d[gap_left_of(d, gaps, col)] == gaps[0],
        !gaps.contains(d[col]),
    ensures
        ({
            let g = gap_left_of(d, gaps, col);
            let d1 = row_shifted_left(d, gaps, col);
            &&& can_shift_right(d1, gaps, g)
            &&& gap_right_of(d1, gaps, g) == col
            &&& row_shifted_right(d1, gaps, g) == d
        }),
{
    let g = gap_left_of(d, gaps, col);
    lemma_gap_left_of(d, gaps, col);
    let d1 = row_shifted_left(d, gaps, col);
    assert(d1.len() == d.len());
    assert(d1[col] == gaps[0]);
    assert(gaps.contains(gaps[0])) by {
        assert(gaps[0] == gaps[0]);
    }
    assert forall|k: int| g < k < col implies !gaps.contains(#[trigger] d1[k]) by {
        assert(d1[k] == d[k + 1]);
        if k + 1 < col {
            assert(!gaps.contains(d[k + 1]));
        } else {
            assert(k + 1 == col);
            assert(!gaps.contains(d[col]));
        }
    }
    lemma_gap_right_of_exact(d1, gaps, g, col);
    assert(d1.remove(col) =~= d.remove(g));
    assert(row_shifted_right(d1, gaps, g) =~= d);
}

} // verus!
