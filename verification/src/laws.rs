//! What holds of the undo/redo engine and of the horizontal movements,
//! whatever the buffer and the actions.

use crate::action::{
    lemma_edit_inverse, lemma_record_keeps_inv, lemma_stacks_frame, ActionView, NOTHING_TO_REDO,
};
use crate::buffer::BufferView;
use crate::text::{
    content_len, lemma_breaks_monotonic, lemma_content_len_bounds, lemma_insert_removed,
    lemma_line_of_bounds, lemma_line_of_content, lemma_line_start_bounds, lemma_line_start_le,
    lemma_remove_inserted, line_count, line_of, line_start,
};
use crate::utils::{lemma_range_in_text, lemma_target_in_text, Movement, Selection};
use vstd::prelude::*;

verus! {

/// Each of the actions changes the text and is carried out on the buffer
/// that the ones before it have left.
pub open spec fn all_recorded(b: BufferView, actions: Seq<ActionView>) -> bool
    decreases actions.len(),
{
    actions.len() > 0 ==> {
        &&& actions[0].mutating()
        &&& actions[0].error() is None
        &&& actions[0].fits(b.text.len() as int)
        &&& all_recorded(actions[0].record(b).after, actions.drop_first())
    }
}

/// The buffer after `Buffer::apply` of each of the actions in turn.
pub open spec fn record_all(b: BufferView, actions: Seq<ActionView>) -> BufferView
    decreases actions.len(),
{
    if actions.len() == 0 {
        b
    } else {
        record_all(actions[0].record(b).after, actions.drop_first())
    }
}

/// The buffer after `n` times `Undo`.
pub open spec fn undo_times(b: BufferView, n: nat) -> BufferView
    decreases n,
{
    if n == 0 {
        b
    } else {
        ActionView::Undo.record(undo_times(b, (n - 1) as nat)).after
    }
}

/// Where the cursor is after the actions have been applied and all of them
/// undone. Undoing an insertion puts the cursor where the insertion was made.
/// Undoing a deletion moves the cursor, from where the later undos have left
/// it, forward by the length of what is put back.
pub open spec fn cursor_after_undos(b: BufferView, actions: Seq<ActionView>) -> int
    decreases actions.len(),
{
    if actions.len() == 0 {
        b.cursor
    } else {
        match actions[0] {
            ActionView::Insert(_) => b.cursor,
            ActionView::InsertAt(idx, _) => idx,
            ActionView::Delete(sel) => cursor_after_undos(
                actions[0].record(b).after,
                actions.drop_first(),
            ) + (sel.range(b).1 - sel.range(b).0),
            _ => b.cursor,
        }
    }
}

/// The buffer after an action that changes the text, seen from the buffer
/// before it: the stacks apart, it is what carrying the action out gives, and
/// the undo stack has the action's inverse on top.
proof fn lemma_recorded(b: BufferView, a: ActionView)
    requires
        b.inv(),
        a.mutating(),
        a.error() is None,
        a.fits(b.text.len() as int),
    ensures
        a.record(b).after.inv(),
        a.record(b).after.text == a.perform(b).text,
        a.record(b).after.undo == b.undo.push(a.inverse(b)),
        a.record(b).after.saved_col == b.saved_col,
        a.record(b).after.mode == b.mode,
        a.record(b).after.path == b.path,
{
    lemma_record_keeps_inv(a, b);
    lemma_edit_inverse(a, b);
    lemma_stacks_frame(a, b, b.undo.push(a.inverse(b)), Seq::empty());
}

/// `Undo` on a buffer whose text and undo stack are those that an action
/// has left takes that action back: the text and the undo stack are as
/// before the action.
proof fn lemma_undo_takes_back(b: BufferView, a: ActionView, y: BufferView)
    requires
        b.wf(),
        a.mutating(),
        a.error() is None,
        a.fits(b.text.len() as int),
        y.inv(),
        y.text == a.perform(b).text,
        y.undo == b.undo.push(a.inverse(b)),
    ensures
        ActionView::Undo.record(y).after.inv(),
        ActionView::Undo.record(y).after.text == b.text,
        ActionView::Undo.record(y).after.undo == b.undo,
        ActionView::Undo.record(y).after.saved_col == y.saved_col,
        ActionView::Undo.record(y).after.mode == y.mode,
        ActionView::Undo.record(y).after.path == y.path,
        ActionView::Undo.record(y).after.cursor == (match a {
            ActionView::InsertAt(idx, _) => idx,
            ActionView::Delete(sel) => y.cursor + (sel.range(b).1 - sel.range(b).0),
            _ => b.cursor,
        }),
{
    let last = a.inverse(b);
    let undo = y.undo.drop_last();
    let redo = y.redo.push(last.inverse(y));
    assert(y.undo.last() == last);
    assert(undo =~= b.undo);
    lemma_edit_inverse(a, b);
    lemma_record_keeps_inv(ActionView::Undo, y);
    lemma_edit_inverse(last, y);
    lemma_stacks_frame(last, y, undo, redo);
    assert(ActionView::Undo.record(y).after == (BufferView { undo, redo, ..last.perform(y) }));
    match a {
        ActionView::Delete(sel) => {
            lemma_range_in_text(sel, b);
        },
        _ => {},
    }
}

/// Undo round trip. After any number of actions that change the text, as
/// many times `Undo` give back the text, and with it the undo stack, the
/// saved column, the mode and the path. The cursor ends where
/// `cursor_after_undos` says; that is where it was before the actions if the
/// first of them is an `Insert`.
pub proof fn law_undo_round_trip(b: BufferView, actions: Seq<ActionView>)
    requires
        b.inv(),
        all_recorded(b, actions),
    ensures
        undo_times(record_all(b, actions), actions.len()).inv(),
        undo_times(record_all(b, actions), actions.len()).text == b.text,
        undo_times(record_all(b, actions), actions.len()).undo == b.undo,
        undo_times(record_all(b, actions), actions.len()).saved_col == b.saved_col,
        undo_times(record_all(b, actions), actions.len()).mode == b.mode,
        undo_times(record_all(b, actions), actions.len()).path == b.path,
        undo_times(record_all(b, actions), actions.len()).cursor == cursor_after_undos(
            b,
            actions,
        ),
        actions.len() > 0 && actions[0] is Insert ==> undo_times(
            record_all(b, actions),
            actions.len(),
        ).cursor == b.cursor,
    decreases actions.len(),
{
    if actions.len() > 0 {
        let first = actions[0];
        let rest = actions.drop_first();
        let next = first.record(b).after;
        lemma_recorded(b, first);
        law_undo_round_trip(next, rest);
        // The buffer after all actions and all undos but the last.
        let y = undo_times(record_all(next, rest), rest.len());
        assert(undo_times(record_all(b, actions), actions.len()) == ActionView::Undo.record(
            y,
        ).after);
        lemma_undo_takes_back(b, first, y);
    }
}

/// Redo exactness. `Undo` and then `Redo` give back the text, both stacks,
/// the saved column, the mode and the path. The buffer is marked as edited,
/// and the cursor rests where the undone and redone edit leaves it: so the
/// buffer is exactly as before if it was marked as edited and the cursor had
/// not moved since that edit.
pub proof fn law_undo_then_redo(b: BufferView)
    requires
        b.inv(),
        b.undo.len() > 0,
    ensures
        ActionView::Undo.record(b).result == Ok::<Option<Seq<char>>, Seq<char>>(None),
        ActionView::Redo.record(ActionView::Undo.record(b).after).result == Ok::<
            Option<Seq<char>>,
            Seq<char>,
        >(None),
        ActionView::Redo.record(ActionView::Undo.record(b).after).after == (BufferView {
            cursor: b.undo.last().rest(),
            edited: true,
            ..b
        }),
{
    let last = b.undo.last();
    let undo1 = b.undo.drop_last();
    let back = last.inverse(b);
    let redo1 = b.redo.push(back);
    lemma_edit_inverse(last, b);
    lemma_stacks_frame(last, b, undo1, redo1);
    let u = ActionView::Undo.record(b).after;
    assert(u == (BufferView { undo: undo1, redo: redo1, ..last.perform(b) }));
    assert(redo1.last() == back);
    assert(redo1.drop_last() =~= b.redo);
    let again = back.inverse(u);
    let undo2 = undo1.push(again);
    lemma_edit_inverse(back, u);
    lemma_stacks_frame(back, u, undo2, b.redo);
    let r = ActionView::Redo.record(u).after;
    assert(r == (BufferView { undo: undo2, redo: b.redo, ..back.perform(u) }));
    match last {
        ActionView::InsertAt(idx, t) => {
            lemma_remove_inserted(b.text, idx, t);
            assert(again == last);
        },
        ActionView::Delete(Selection::Bounds(start, end)) => {
            lemma_insert_removed(b.text, start.0 as int, end.0 as int);
            assert(again == last);
        },
        _ => {},
    }
    assert(undo2 =~= b.undo);
}

/// Branch discard. After `Undo`, and then an action that changes the text,
/// `Redo` fails with "Nothing to redo" and leaves the buffer as it is.
pub proof fn law_branch_discard(b: BufferView, a: ActionView)
    requires
        b.inv(),
        a.mutating(),
        a.error() is None,
        a.fits(ActionView::Undo.record(b).after.text.len() as int),
    ensures
        ({
            let edited = a.record(ActionView::Undo.record(b).after).after;
            &&& edited.redo.len() == 0
            &&& ActionView::Redo.record(edited).result == Err::<Option<Seq<char>>, Seq<char>>(
                NOTHING_TO_REDO@,
            )
            &&& ActionView::Redo.record(edited).after == edited
        }),
{
    let undone = ActionView::Undo.record(b).after;
    lemma_record_keeps_inv(ActionView::Undo, b);
    lemma_stacks_frame(a, undone, undone.undo.push(a.inverse(undone)), Seq::empty());
}

/// The buffer after each of the movements in turn.
pub open spec fn moved(b: BufferView, moves: Seq<Movement>) -> BufferView
    decreases moves.len(),
{
    if moves.len() == 0 {
        b
    } else {
        ActionView::Move(moves.last()).perform(moved(b, moves.drop_last()))
    }
}

/// Horizontal clamp, to the right. However often and however far the cursor
/// moves right, it stays in its row, at or before the row's greatest column.
pub proof fn law_right_stays_in_row(b: BufferView, moves: Seq<Movement>)
    requires
        b.wf(),
        moves.len() > 0,
        forall|i: int| 0 <= i < moves.len() ==> moves[i] is Right,
    ensures
        moved(b, moves).wf(),
        moved(b, moves).text == b.text,
        moved(b, moves).row() == b.row(),
        moved(b, moves).col() <= content_len(b.text, b.row()),
    decreases moves.len(),
{
    let before = moved(b, moves.drop_last());
    if moves.len() > 1 {
        law_right_stays_in_row(b, moves.drop_last());
    }
    lemma_target_in_text(moves.last(), before);
    lemma_line_of_bounds(b.text, before.cursor);
    lemma_content_len_bounds(b.text, before.row());
    let target = moves.last().target(before);
    lemma_line_of_content(b.text, before.row(), target);
    lemma_line_of_bounds(b.text, target);
}

/// Horizontal clamp, to the left. However often and however far the cursor
/// moves left, it stays in its row, at or after the row's start.
pub proof fn law_left_stays_in_row(b: BufferView, moves: Seq<Movement>)
    requires
        b.wf(),
        forall|i: int| 0 <= i < moves.len() ==> moves[i] is Left,
    ensures
        moved(b, moves).wf(),
        moved(b, moves).text == b.text,
        moved(b, moves).row() == b.row(),
        line_start(b.text, b.row()) <= moved(b, moves).cursor <= b.cursor,
    decreases moves.len(),
{
    lemma_line_of_bounds(b.text, b.cursor);
    if moves.len() > 0 {
        law_left_stays_in_row(b, moves.drop_last());
        let before = moved(b, moves.drop_last());
        let target = moves.last().target(before);
        lemma_line_start_bounds(b.text, b.row());
        lemma_content_len_bounds(b.text, b.row());
        if target < before.cursor {
            lemma_line_of_inside_span(b.text, b.row(), target, before.cursor);
        }
        lemma_line_of_bounds(b.text, target);
    }
}

/// A position between the start of a line and a position of that line lies
/// in that line.
proof fn lemma_line_of_inside_span(s: Seq<char>, l: nat, i: int, j: int)
    requires
        l < line_count(s),
        line_start(s, l) <= i <= j <= s.len(),
        line_of(s, j) == l,
    ensures
        line_of(s, i) == l,
{
    lemma_line_start_bounds(s, l);
    lemma_line_start_le(s, l, i);
    lemma_breaks_monotonic(s, i, j);
}

} // verus!
