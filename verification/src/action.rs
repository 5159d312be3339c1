//! The actions on a buffer, their inverses, and the undo/redo engine.
//!
//! An action is applied in one of two ways. `BufferAction::apply` carries the
//! action out and records nothing; for `Undo` and `Redo` it moves an entry
//! from one stack to the other. `Buffer::apply` is what an editor calls for a
//! command of the user: before an action that changes the text it pushes the
//! action's inverse on the undo stack and empties the redo stack.

use crate::buffer::{Buffer, BufferView, EditMode};
use crate::text::{
    insert_at, lemma_insert_removed, lemma_line_of_bounds, lemma_remove_inserted, remove_range,
};
use crate::utils::{
    lemma_range_in_text, lemma_target_in_text, spec_max, spec_min, BufCharIdx, BufCol, Movement,
    Selection, MOVEMENT_NOT_IMPLEMENTED, SELECTION_NOT_SUPPORTED,
};
use vstd::prelude::*;
use vstd::string::StrSliceExecFns;

verus! {

/// The error of `Undo` on an empty undo stack.
pub const NOTHING_TO_UNDO: &'static str = "Nothing to undo";

/// The error of `Redo` on an empty redo stack.
pub const NOTHING_TO_REDO: &'static str = "Nothing to redo";

/// What is to be drawn again after a command.
#[derive(Clone, Copy, Debug, PartialEq, Eq, Structural)]
pub enum RenderAction {
    DrawAll,
    DrawFromCursor,
    UpdateCursor,
    Nothing,
}

/// What a key stands for: an action on the buffer, and what to draw after it.
pub struct Command {
    pub buffer_action: BufferAction,
    pub render_action: RenderAction,
}

impl Command {
    pub fn new(buffer_action: BufferAction, render_action: RenderAction) -> (command: Self)
        ensures
            command.buffer_action == buffer_action,
            command.render_action == render_action,
    {
        Self { buffer_action, render_action }
    }
}

/// Something that can be carried out on a target.
pub trait Action: Sized {
    type Target;

    type Output;

    type Error;

    /// What the action asks of the target.
    spec fn applicable(&self, target: &Self::Target) -> bool;

    /// What the action makes of the target, and what it returns.
    spec fn applied(
        &self,
        before: &Self::Target,
        after: &Self::Target,
        res: Result<Self::Output, Self::Error>,
    ) -> bool;

    fn apply(self, target: &mut Self::Target) -> (res: Result<Self::Output, Self::Error>)
        requires
            self.applicable(old(target)),
        ensures
            self.applied(old(target), final(target), res),
    ;
}

/// An action that knows the action that takes it back.
pub trait Undoable: Action {
    /// What the action asks of the target to give its inverse.
    spec fn invertible(&self, target: &Self::Target) -> bool;

    /// `inverse` is the action that takes this one back on the target.
    spec fn inverted(&self, target: &Self::Target, inverse: &Self) -> bool;

    /// The action that takes this one back. It is computed on the target as
    /// it is before this action is applied.
    fn inverse(&self, target: &Self::Target) -> (inverse: Self)
        requires
            self.invertible(target),
        ensures
            self.inverted(target, &inverse),
    ;
}

#[allow(unused)]
#[derive(Clone, Debug, PartialEq, Eq)]
pub enum BufferAction {
    Undo,
    Redo,
    MoveTo(BufCharIdx, BufCol),
    Move(Movement),
    Delete(Selection),
    InsertAt(BufCharIdx, String),
    Insert(String),
    Yank(Selection),
    SetMode(EditMode),
    Nothing,
}

/// What an action is, as plain values.
pub enum ActionView {
    Undo,
    Redo,
    MoveTo(int, int),
    Move(Movement),
    Delete(Selection),
    InsertAt(int, Seq<char>),
    Insert(Seq<char>),
    Yank(Selection),
    SetMode(EditMode),
    Nothing,
}

impl View for BufferAction {
    type V = ActionView;

    open spec fn view(&self) -> ActionView {
        match self {
            BufferAction::Undo => ActionView::Undo,
            BufferAction::Redo => ActionView::Redo,
            BufferAction::MoveTo(idx, col) => ActionView::MoveTo(idx.0 as int, col.0 as int),
            BufferAction::Move(m) => ActionView::Move(*m),
            BufferAction::Delete(sel) => ActionView::Delete(*sel),
            BufferAction::InsertAt(idx, text) => ActionView::InsertAt(idx.0 as int, text@),
            BufferAction::Insert(text) => ActionView::Insert(text@),
            BufferAction::Yank(sel) => ActionView::Yank(*sel),
            BufferAction::SetMode(mode) => ActionView::SetMode(*mode),
            BufferAction::Nothing => ActionView::Nothing,
        }
    }
}

/// The state after an action and what the action returned: the text that it
/// yanked, if any, or its error.
pub struct Step {
    pub after: BufferView,
    pub result: Result<Option<Seq<char>>, Seq<char>>,
}

/// What `apply` returns, as plain values.
pub open spec fn result_view(res: Result<Option<String>, &'static str>) -> Result<
    Option<Seq<char>>,
    Seq<char>,
> {
    match res {
        Ok(Some(s)) => Ok(Some(s@)),
        Ok(None) => Ok(None),
        Err(e) => Err(e@),
    }
}

impl ActionView {
    /// The actions that change the text.
    pub open spec fn mutating(self) -> bool {
        self is Delete || self is InsertAt || self is Insert
    }

    /// The actions that the stacks hold: an insertion at an offset, or a
    /// deletion of a range of offsets whose start is at or before its end.
    pub open spec fn is_edit(self) -> bool {
        ||| self is InsertAt
        ||| self matches ActionView::Delete(Selection::Bounds(start, end)) && start.0 <= end.0
    }

    /// Where the cursor rests right after the edit that this edit takes
    /// back: at the offset of an insertion, at the end of a deleted range.
    pub open spec fn rest(self) -> int {
        match self {
            ActionView::InsertAt(idx, _) => idx,
            ActionView::Delete(Selection::Bounds(_, end)) => end.0 as int,
            _ => 0,
        }
    }

    /// Whether the action can be carried out on a text of this length: its
    /// offsets lie in the text, and the text that it inserts leaves the length
    /// within a machine word.
    pub open spec fn fits(self, len: int) -> bool {
        match self {
            ActionView::MoveTo(idx, col) => 0 <= idx <= len && 0 <= col,
            ActionView::InsertAt(idx, t) => 0 <= idx <= len && len + t.len() <= usize::MAX,
            ActionView::Insert(t) => len + t.len() <= usize::MAX,
            ActionView::Delete(sel) => sel.fits(len),
            ActionView::Yank(sel) => sel.fits(len),
            _ => true,
        }
    }

    /// The error of an action that is not carried out, if it is one.
    pub open spec fn error(self) -> Option<Seq<char>> {
        match self {
            ActionView::Move(m) => if m.implemented() {
                None
            } else {
                Some(MOVEMENT_NOT_IMPLEMENTED@)
            },
            ActionView::Delete(sel) => selection_error(sel),
            ActionView::Yank(sel) => selection_error(sel),
            _ => None,
        }
    }

    /// The buffer after the action, for an action other than `Undo` and
    /// `Redo` that is carried out.
    pub open spec fn perform(self, b: BufferView) -> BufferView {
        match self {
            ActionView::MoveTo(idx, col) => BufferView { cursor: idx, saved_col: col, ..b },
            ActionView::Move(m) => {
                let moved = BufferView { cursor: m.target(b), ..b };
                if m.horizontal() {
                    BufferView { saved_col: moved.col(), ..moved }
                } else {
                    moved
                }
            },
            ActionView::Delete(sel) => BufferView {
                text: remove_range(b.text, sel.range(b).0, sel.range(b).1),
                cursor: sel.range(b).0,
                edited: true,
                ..b
            },
            ActionView::InsertAt(idx, t) => BufferView {
                text: insert_at(b.text, idx, t),
                cursor: b.cursor + t.len(),
                edited: true,
                ..b
            },
            ActionView::Insert(t) => BufferView {
                text: insert_at(b.text, b.cursor, t),
                cursor: b.cursor + t.len(),
                edited: true,
                ..b
            },
            ActionView::SetMode(mode) => BufferView { mode: mode, ..b },
            _ => b,
        }
    }

    /// The text that the action hands out: that of its selection for `Yank`.
    pub open spec fn yanked(self, b: BufferView) -> Option<Seq<char>> {
        match self {
            ActionView::Yank(sel) => Some(b.text.subrange(sel.range(b).0, sel.range(b).1)),
            _ => None,
        }
    }

    /// The action that takes this one back, computed on the buffer as it is
    /// before this one.
    pub open spec fn inverse(self, b: BufferView) -> ActionView {
        match self {
            ActionView::MoveTo(_, _) => ActionView::MoveTo(b.cursor, b.saved_col),
            ActionView::Move(_) => ActionView::MoveTo(b.cursor, b.saved_col),
            ActionView::Delete(sel) => if sel.supported() {
                ActionView::InsertAt(
                    sel.range(b).0,
                    b.text.subrange(sel.range(b).0, sel.range(b).1),
                )
            } else {
                ActionView::Nothing
            },
            ActionView::InsertAt(idx, t) => ActionView::Delete(
                Selection::Bounds(BufCharIdx(idx as usize), BufCharIdx((idx + t.len()) as usize)),
            ),
            ActionView::Insert(t) => ActionView::Delete(
                Selection::Bounds(
                    BufCharIdx(b.cursor as usize),
                    BufCharIdx((b.cursor + t.len()) as usize),
                ),
            ),
            ActionView::SetMode(_) => ActionView::SetMode(b.mode),
            _ => ActionView::Nothing,
        }
    }

    /// What carrying out an action other than `Undo` and `Redo` gives: the
    /// error and the buffer as it was, or the buffer after the action.
    pub open spec fn direct(self, b: BufferView) -> Step {
        match self.error() {
            Some(e) => Step { after: b, result: Err(e) },
            None => Step { after: self.perform(b), result: Ok(self.yanked(b)) },
        }
    }

    /// What `BufferAction::apply` gives. `Undo` takes the last action off the
    /// undo stack, pushes its inverse on the redo stack and carries it out;
    /// `Redo` does the same from the redo stack to the undo stack.
    pub open spec fn run(self, b: BufferView) -> Step {
        match self {
            ActionView::Undo => if b.undo.len() == 0 {
                Step { after: b, result: Err(NOTHING_TO_UNDO@) }
            } else {
                let last = b.undo.last();
                last.direct(
                    BufferView {
                        undo: b.undo.drop_last(),
                        redo: b.redo.push(last.inverse(b)),
                        ..b
                    },
                )
            },
            ActionView::Redo => if b.redo.len() == 0 {
                Step { after: b, result: Err(NOTHING_TO_REDO@) }
            } else {
                let last = b.redo.last();
                last.direct(
                    BufferView {
                        undo: b.undo.push(last.inverse(b)),
                        redo: b.redo.drop_last(),
                        ..b
                    },
                )
            },
            _ => self.direct(b),
        }
    }

    /// What `Buffer::apply` gives. An action that changes the text first has
    /// its inverse pushed on the undo stack, and the redo stack emptied; any
    /// other action is run as it is.
    pub open spec fn record(self, b: BufferView) -> Step {
        if self.mutating() && self.error() is None {
            self.direct(
                BufferView { undo: b.undo.push(self.inverse(b)), redo: Seq::empty(), ..b },
            )
        } else {
            self.run(b)
        }
    }
}

/// The error of a selection that is not carried out, if it is one.
pub open spec fn selection_error(sel: Selection) -> Option<Seq<char>> {
    if sel.supported() {
        None
    } else if sel is UpTo {
        Some(MOVEMENT_NOT_IMPLEMENTED@)
    } else {
        Some(SELECTION_NOT_SUPPORTED@)
    }
}

/// The text after an edit.
pub open spec fn text_after(a: ActionView, text: Seq<char>) -> Seq<char> {
    match a {
        ActionView::InsertAt(idx, t) => insert_at(text, idx, t),
        ActionView::Delete(Selection::Bounds(start, end)) => remove_range(
            text,
            spec_min(start.0 as int, end.0 as int),
            spec_max(start.0 as int, end.0 as int),
        ),
        _ => text,
    }
}

/// A stack can be played back from `text`: its last action is an edit that
/// fits the text, the one before it is an edit that fits the text after the
/// last one, and so on down the stack.
pub open spec fn history_ok(text: Seq<char>, stack: Seq<ActionView>) -> bool
    decreases stack.len(),
{
    stack.len() > 0 ==> {
        &&& stack.last().is_edit()
        &&& stack.last().fits(text.len() as int)
        &&& history_ok(text_after(stack.last(), text), stack.drop_last())
    }
}

/// An action that changes the text, fits a buffer and is carried out
/// changes nothing but text, cursor and dirty flag, and its inverse is an
/// edit that fits the new text and gives the old text back.
pub proof fn lemma_edit_inverse(a: ActionView, b: BufferView)
    requires
        b.wf(),
        a.mutating(),
        a.error() is None,
        a.fits(b.text.len() as int),
    ensures
        a.perform(b).wf(),
        a.perform(b) == (BufferView {
            text: a.perform(b).text,
            cursor: a.perform(b).cursor,
            edited: true,
            ..b
        }),
        a.is_edit() ==> a.perform(b).text == text_after(a, b.text),
        a.inverse(b).is_edit(),
        a.inverse(b).fits(a.perform(b).text.len() as int),
        text_after(a.inverse(b), a.perform(b).text) == b.text,
{
    match a {
        ActionView::Delete(sel) => {
            lemma_range_in_text(sel, b);
            lemma_insert_removed(b.text, sel.range(b).0, sel.range(b).1);
        },
        ActionView::InsertAt(idx, t) => {
            lemma_remove_inserted(b.text, idx, t);
        },
        ActionView::Insert(t) => {
            lemma_remove_inserted(b.text, b.cursor, t);
        },
        _ => {},
    }
}

/// What an action does to text, cursor, saved column, mode and dirty flag,
/// what it yanks and what its inverse is do not depend on the stacks, which
/// it leaves as they are.
pub proof fn lemma_stacks_frame(
    a: ActionView,
    b: BufferView,
    undo: Seq<ActionView>,
    redo: Seq<ActionView>,
)
    ensures
        a.perform(BufferView { undo, redo, ..b }) == (BufferView { undo, redo, ..a.perform(b) }),
        a.inverse(BufferView { undo, redo, ..b }) == a.inverse(b),
        a.yanked(BufferView { undo, redo, ..b }) == a.yanked(b),
{
}

/// Carrying out an action that fits a well-formed buffer leaves the buffer
/// well formed, and leaves the stacks as they are.
pub proof fn lemma_direct_wf(a: ActionView, b: BufferView)
    requires
        b.wf(),
        a.fits(b.text.len() as int),
    ensures
        a.direct(b).after.wf(),
        a.direct(b).after.undo == b.undo,
        a.direct(b).after.redo == b.redo,
        !a.mutating() ==> a.direct(b).after.text == b.text,
{
    if a.error() is None {
        match a {
            ActionView::Move(m) => {
                lemma_target_in_text(m, b);
                lemma_line_of_bounds(b.text, m.target(b));
            },
            ActionView::Delete(_) => {
                lemma_edit_inverse(a, b);
            },
            ActionView::InsertAt(_, _) => {
                lemma_edit_inverse(a, b);
            },
            ActionView::Insert(_) => {
                lemma_edit_inverse(a, b);
            },
            _ => {},
        }
    }
}

/// Moving the last action of one stack to the other as its inverse, and
/// carrying it out, leaves both stacks playable.
proof fn lemma_shift_keeps_history(
    text: Seq<char>,
    from: Seq<ActionView>,
    to: Seq<ActionView>,
    b: BufferView,
)
    requires
        b.wf(),
        b.text == text,
        history_ok(text, from),
        history_ok(text, to),
        from.len() > 0,
    ensures
        from.last().error() is None,
        from.last().mutating(),
        from.last().fits(text.len() as int),
        history_ok(from.last().perform(b).text, from.drop_last()),
        history_ok(from.last().perform(b).text, to.push(from.last().inverse(b))),
{
    let last = from.last();
    lemma_edit_inverse(last, b);
    let pushed = to.push(last.inverse(b));
    assert(pushed.last() == last.inverse(b));
    assert(pushed.drop_last() =~= to);
}

/// `BufferAction::apply` leaves a buffer well formed. Unless the action
/// changes the text, the stacks stay playable.
pub proof fn lemma_run_keeps_inv(a: ActionView, b: BufferView)
    requires
        b.inv(),
        a.fits(b.text.len() as int),
    ensures
        a.run(b).after.wf(),
        !a.mutating() ==> a.run(b).after.inv(),
{
    match a {
        ActionView::Undo => {
            if b.undo.len() > 0 {
                let last = b.undo.last();
                let undo = b.undo.drop_last();
                let redo = b.redo.push(last.inverse(b));
                lemma_shift_keeps_history(b.text, b.undo, b.redo, b);
                lemma_edit_inverse(last, b);
                lemma_stacks_frame(last, b, undo, redo);
            }
        },
        ActionView::Redo => {
            if b.redo.len() > 0 {
                let last = b.redo.last();
                let undo = b.undo.push(last.inverse(b));
                let redo = b.redo.drop_last();
                lemma_shift_keeps_history(b.text, b.redo, b.undo, b);
                lemma_edit_inverse(last, b);
                lemma_stacks_frame(last, b, undo, redo);
            }
        },
        _ => {
            lemma_direct_wf(a, b);
        },
    }
}

/// `Buffer::apply` keeps the stacks playable.
pub proof fn lemma_record_keeps_inv(a: ActionView, b: BufferView)
    requires
        b.inv(),
        a.fits(b.text.len() as int),
    ensures
        a.record(b).after.inv(),
{
    if a.mutating() && a.error() is None {
        let undo = b.undo.push(a.inverse(b));
        let redo = Seq::<ActionView>::empty();
        lemma_edit_inverse(a, b);
        lemma_stacks_frame(a, b, undo, redo);
        assert(undo.last() == a.inverse(b));
        assert(undo.drop_last() =~= b.undo);
        let after = a.record(b).after;
        assert(after == (BufferView { undo, redo, ..a.perform(b) }));
        assert(history_ok(after.text, undo));
        assert(history_ok(after.text, redo));
    } else {
        lemma_run_keeps_inv(a, b);
        if a.mutating() {
            lemma_direct_wf(a, b);
        }
    }
}

impl BufferAction {
    /// Whether the action can be carried out on the buffer: see
    /// `ActionView::fits`.
    pub fn fits(&self, buf: &Buffer) -> (ok: bool)
        ensures
            ok == self@.fits(buf@.text.len() as int),
    {
        let len = buf.len_chars();
        match self {
            BufferAction::MoveTo(idx, _) => idx.0 <= len,
            BufferAction::InsertAt(idx, text) => idx.0 <= len && text.as_str().unicode_len()
                <= usize::MAX - len,
            BufferAction::Insert(text) => text.as_str().unicode_len() <= usize::MAX - len,
            BufferAction::Delete(sel) => selection_fits(sel, len),
            BufferAction::Yank(sel) => selection_fits(sel, len),
            _ => true,
        }
    }

    /// Carries out an action other than `Undo` and `Redo`, which it leaves
    /// undone.
    pub(crate) fn perform(self, buf: &mut Buffer) -> (res: Result<
        Option<String>,
        &'static str,
    >)
        requires
            old(buf).wf(),
            self@.fits(old(buf)@.text.len() as int),
        ensures
            final(buf)@ == self@.direct(old(buf)@).after,
            result_view(res) == self@.direct(old(buf)@).result,
    {
        proof {
            lemma_direct_wf(self@, buf@);
        }
        match self {
            BufferAction::MoveTo(idx, saved_col) => {
                buf.idx = idx;
                buf.saved_col = saved_col;
                Ok(None)
            },
            BufferAction::Move(movement) => {
                match movement.dest(buf) {
                    Ok(dest) => {
                        buf.idx = dest;
                        if movement.is_horizontal() {
                            buf.save_col();
                        }
                        Ok(None)
                    },
                    Err(e) => Err(e),
                }
            },
            BufferAction::Delete(selection) => {
                match selection.bounds(buf) {
                    Ok(range) => {
                        proof {
                            lemma_range_in_text(selection, buf@);
                        }
                        buf.remove(range);
                        Ok(None)
                    },
                    Err(e) => Err(e),
                }
            },
            BufferAction::InsertAt(idx, text) => {
                buf.insert(idx, text.as_str());
                buf.idx = BufCharIdx(buf.idx.0 + text.as_str().unicode_len());
                Ok(None)
            },
            BufferAction::Insert(text) => {
                buf.insert(buf.idx, text.as_str());
                buf.idx = BufCharIdx(buf.idx.0 + text.as_str().unicode_len());
                Ok(None)
            },
            BufferAction::Yank(selection) => {
                match selection.bounds(buf) {
                    Ok(range) => {
                        proof {
                            lemma_range_in_text(selection, buf@);
                        }
                        Ok(Some(buf.slice(range)))
                    },
                    Err(e) => Err(e),
                }
            },
            BufferAction::SetMode(mode) => {
                buf.mode = mode;
                Ok(None)
            },
            _ => Ok(None),
        }
    }
}

/// Whether a selection by offsets lies in a text of length `len`.
fn selection_fits(sel: &Selection, len: usize) -> (ok: bool)
    ensures
        ok == sel.fits(len as int),
{
    match sel {
        Selection::Bounds(start, end) => start.0 <= len && end.0 <= len,
        _ => true,
    }
}

impl Action for BufferAction {
    type Target = Buffer;

    type Output = Option<String>;

    type Error = &'static str;

    /// The buffer is well formed and the action fits the text. `Undo` and
    /// `Redo`, which read the stacks, ask that these can be played back.
    open spec fn applicable(&self, target: &Buffer) -> bool {
        &&& target.wf()
        &&& self@.fits(target@.text.len() as int)
        &&& (self@ is Undo || self@ is Redo) ==> target.inv()
    }

    /// The buffer and the result are those of `ActionView::run`. The buffer
    /// stays well formed, and stacks that could be played back still can,
    /// unless the action changes the text.
    open spec fn applied(
        &self,
        before: &Buffer,
        after: &Buffer,
        res: Result<Option<String>, &'static str>,
    ) -> bool {
        &&& after@ == self@.run(before@).after
        &&& result_view(res) == self@.run(before@).result
        &&& after.wf()
        &&& (before.inv() && !self@.mutating()) ==> after.inv()
    }

    /// Carries the action out and returns the text that it yanked, if any.
    /// An action that changes the text is not recorded on the undo stack:
    /// `Buffer::apply` does that.
    fn apply(self, buf: &mut Buffer) -> (res: Result<Option<String>, &'static str>) {
        let ghost before = buf@;
        proof {
            if before.inv() {
                lemma_run_keeps_inv(self@, before);
            } else {
                lemma_direct_wf(self@, before);
            }
        }
        match self {
            BufferAction::Undo => {
                match buf.undo.pop() {
                    Some(action) => {
                        proof {
                            lemma_shift_keeps_history(before.text, before.undo, before.redo, before);
                        }
                        assert(buf@.undo =~= before.undo.drop_last());
                        let inverse = action.inverse(buf);
                        buf.redo.push(inverse);
                        assert(buf@.redo =~= before.redo.push(action@.inverse(before)));
                        action.perform(buf)
                    },
                    None => Err(NOTHING_TO_UNDO),
                }
            },
            BufferAction::Redo => {
                match buf.redo.pop() {
                    Some(action) => {
                        proof {
                            lemma_shift_keeps_history(before.text, before.redo, before.undo, before);
                        }
                        assert(buf@.redo =~= before.redo.drop_last());
                        let inverse = action.inverse(buf);
                        buf.undo.push(inverse);
                        assert(buf@.undo =~= before.undo.push(action@.inverse(before)));
                        action.perform(buf)
                    },
                    None => Err(NOTHING_TO_REDO),
                }
            },
            _ => self.perform(buf),
        }
    }
}

impl Undoable for BufferAction {
    /// The inverse of an action that changes the text is read off the text:
    /// for such an action the buffer is well formed and the action fits the
    /// text. The other actions ask nothing.
    open spec fn invertible(&self, target: &Buffer) -> bool {
        self@.mutating() ==> target.wf() && self@.fits(target@.text.len() as int)
    }

    /// The inverse is that of `ActionView::inverse`.
    open spec fn inverted(&self, target: &Buffer, inverse: &Self) -> bool {
        inverse@ == self@.inverse(target@)
    }

    fn inverse(&self, buf: &Buffer) -> (inverse: Self) {
        match self {
            BufferAction::Undo => BufferAction::Nothing,
            BufferAction::Redo => BufferAction::Nothing,
            BufferAction::MoveTo(_, _) | BufferAction::Move(_) => BufferAction::MoveTo(
                buf.idx,
                buf.saved_col,
            ),
            BufferAction::Delete(selection) => {
                match selection.bounds(buf) {
                    Ok(bounds) => {
                        proof {
                            lemma_range_in_text(*selection, buf@);
                        }
                        BufferAction::InsertAt(bounds.start, buf.slice(bounds))
                    },
                    Err(_) => BufferAction::Nothing,
                }
            },
            BufferAction::InsertAt(idx, text) => {
                BufferAction::Delete(
                    Selection::Bounds(*idx, BufCharIdx(idx.0 + text.as_str().unicode_len())),
                )
            },
            BufferAction::Insert(text) => BufferAction::Delete(
                Selection::Bounds(
                    buf.idx,
                    BufCharIdx(buf.idx.0 + text.as_str().unicode_len()),
                ),
            ),
            BufferAction::Yank(_) => BufferAction::Nothing,
            BufferAction::SetMode(_) => BufferAction::SetMode(buf.mode),
            BufferAction::Nothing => BufferAction::Nothing,
        }
    }
}

} // verus!
