//! Actions as objects that remember what they need to take themselves back.
//!
//! Each action is applied to a buffer once and can then be undone once, as
//! long as nothing else has changed the buffer in between.

use crate::buffer::{Buffer, BufferView, EditMode};
use crate::text::{insert_at, lemma_line_of_bounds, remove_range};
use crate::utils::{
    lemma_range_in_text, lemma_target_in_text, BufCharIdx, BufCol, BufRange, Movement, Selection,
};
use vstd::prelude::*;
use vstd::string::StrSliceExecFns;

verus! {

/// A movement of the cursor.
pub struct Move {
    pub movement: Movement,
    /// The offset of the cursor before the movement.
    pub origin: usize,
    /// The saved column before the movement, if the movement has set it.
    pub saved_col: Option<usize>,
}

/// The movements that set the saved column when they are applied as a `Move`.
pub open spec fn sets_saved_col(m: Movement) -> bool {
    m is Left || m is Right || m is Home || m is End
}

impl Move {
    pub fn new(movement: Movement) -> (action: Self)
        ensures
            action.movement == movement,
            action.origin == 0,
            action.saved_col is None,
    {
        Self { movement, origin: 0, saved_col: None }
    }

    /// Moves the cursor, and remembers where it was. A movement that is not
    /// carried out leaves buffer and action as they were.
    pub fn apply(&mut self, buf: &mut Buffer) -> (res: Result<(), &'static str>)
        requires
            old(buf).wf(),
        ensures
            final(self).movement == old(self).movement,
            res is Ok <==> old(self).movement.implemented(),
            res is Err ==> final(buf)@ == old(buf)@ && *final(self) == *old(self),
            res is Ok ==> {
                &&& final(buf).wf()
                &&& final(self).origin == old(buf)@.cursor
                &&& final(buf)@.cursor == old(self).movement.target(old(buf)@)
                &&& final(buf)@ == (BufferView {
                    cursor: final(buf)@.cursor,
                    saved_col: final(buf)@.saved_col,
                    ..old(buf)@
                })
                &&& sets_saved_col(old(self).movement) ==> final(self).saved_col == Some(
                    old(buf)@.saved_col as usize,
                ) && final(buf)@.saved_col == final(buf)@.col()
                &&& !sets_saved_col(old(self).movement) ==> final(self).saved_col == old(
                    self,
                ).saved_col && final(buf)@.saved_col == old(buf)@.saved_col
            },
    {
        proof {
            lemma_target_in_text(self.movement, buf@);
        }
        let dest = match self.movement.dest(buf) {
            Ok(dest) => dest,
            Err(e) => {
                return Err(e);
            },
        };
        self.origin = buf.idx.0;
        buf.idx = dest;
        let horizontal = match self.movement {
            Movement::Left(_) => true,
            Movement::Right(_) => true,
            Movement::Home => true,
            Movement::End => true,
            _ => false,
        };
        if horizontal {
            self.saved_col = Some(buf.saved_col.0);
            buf.save_col();
            proof {
                lemma_line_of_bounds(buf@.text, buf@.cursor);
            }
        }
        Ok(())
    }

    /// Puts the cursor and the saved column back where they were.
    pub fn undo(&mut self, buf: &mut Buffer)
        requires
            old(self).origin <= old(buf)@.text.len(),
        ensures
            *final(self) == *old(self),
            final(buf)@ == (BufferView {
                cursor: old(self).origin as int,
                saved_col: match old(self).saved_col {
                    Some(col) => col as int,
                    None => old(buf)@.saved_col,
                },
                ..old(buf)@
            }),
    {
        buf.idx = BufCharIdx(self.origin);
        if let Some(col) = self.saved_col {
            buf.saved_col = BufCol(col);
        }
    }
}

/// A deletion of a selection.
pub struct Delete {
    pub selection: Selection,
    /// Where `undo` puts the cursor.
    pub origin: usize,
    /// The start of what was deleted.
    pub left_bound: usize,
    /// What was deleted.
    pub removed: String,
}

impl Delete {
    pub fn new(selection: Selection) -> (action: Self)
        ensures
            action.selection == selection,
            action.origin == 0,
            action.left_bound == 0,
            action.removed@ == Seq::<char>::empty(),
    {
        Self { selection, origin: 0, left_bound: 0, removed: String::new() }
    }

    /// Deletes the selection, and remembers what it held and where. A
    /// selection that is not carried out leaves buffer and action as they
    /// were.
    pub fn apply(&mut self, buf: &mut Buffer) -> (res: Result<(), &'static str>)
        requires
            old(buf).wf(),
            old(self).selection.fits(old(buf)@.text.len() as int),
        ensures
            final(self).selection == old(self).selection,
            final(self).origin == old(self).origin,
            res is Ok <==> old(self).selection.supported(),
            res is Err ==> final(buf)@ == old(buf)@ && *final(self) == *old(self),
            res is Ok ==> ({
                let range = old(self).selection.range(old(buf)@);
                &&& final(self).left_bound == range.0
                &&& final(self).removed@ == old(buf)@.text.subrange(range.0, range.1)
                &&& final(buf)@ == (BufferView {
                    text: remove_range(old(buf)@.text, range.0, range.1),
                    cursor: range.0,
                    edited: true,
                    ..old(buf)@
                })
            }),
    {
        proof {
            lemma_range_in_text(self.selection, buf@);
        }
        let bounds = match self.selection.bounds(buf) {
            Ok(bounds) => bounds,
            Err(e) => {
                return Err(e);
            },
        };
        self.left_bound = bounds.start.0;
        self.removed = buf.slice(bounds);
        buf.remove(bounds);
        Ok(())
    }

    /// Puts back what was deleted, and the cursor at the action's origin.
    pub fn undo(&mut self, buf: &mut Buffer)
        requires
            old(self).left_bound <= old(buf)@.text.len(),
            old(self).origin <= old(buf)@.text.len() + old(self).removed@.len(),
        ensures
            *final(self) == *old(self),
            final(buf)@ == (BufferView {
                text: insert_at(
                    old(buf)@.text,
                    old(self).left_bound as int,
                    old(self).removed@,
                ),
                cursor: old(self).origin as int,
                edited: true,
                ..old(buf)@
            }),
    {
        buf.insert(BufCharIdx(self.left_bound), self.removed.as_str());
        buf.idx = BufCharIdx(self.origin);
    }
}

/// An insertion of text at the cursor.
pub struct Insert {
    pub text: String,
    /// The offset at which the text was inserted.
    pub origin: usize,
}

impl Insert {
    pub fn new(text: String) -> (action: Self)
        ensures
            action.text == text,
            action.origin == 0,
    {
        Self { text, origin: 0 }
    }

    /// Inserts the text at the cursor, which stays where it is, and remembers
    /// the offset.
    pub fn apply(&mut self, buf: &mut Buffer)
        requires
            old(buf).wf(),
        ensures
            final(self).text == old(self).text,
            final(self).origin == old(buf)@.cursor,
            final(buf)@ == (BufferView {
                text: insert_at(old(buf)@.text, old(buf)@.cursor, old(self).text@),
                edited: true,
                ..old(buf)@
            }),
    {
        self.origin = buf.idx.0;
        buf.insert(buf.idx, self.text.as_str());
    }

    /// Takes out as many characters as the text has, from the offset at which
    /// it was inserted, and puts the cursor there.
    pub fn undo(&mut self, buf: &mut Buffer)
        requires
            old(self).origin + old(self).text@.len() <= old(buf)@.text.len(),
        ensures
            *final(self) == *old(self),
            final(buf)@ == (BufferView {
                text: remove_range(
                    old(buf)@.text,
                    old(self).origin as int,
                    old(self).origin + old(self).text@.len(),
                ),
                cursor: old(self).origin as int,
                edited: true,
                ..old(buf)@
            }),
    {
        let _len = buf.len_chars();
        let end = self.origin + self.text.as_str().unicode_len();
        buf.remove(BufRange::new(BufCharIdx(self.origin), BufCharIdx(end)));
    }
}

/// A copy of a selection, for the clipboard.
pub struct Yank {
    pub selection: Selection,
}

impl Yank {
    pub fn new(selection: Selection) -> (action: Self)
        ensures
            action.selection == selection,
    {
        Self { selection }
    }

    /// The text of the selection. The buffer stays as it is.
    pub fn apply(&mut self, buf: &Buffer) -> (res: Result<String, &'static str>)
        requires
            buf.wf(),
            old(self).selection.fits(buf@.text.len() as int),
        ensures
            *final(self) == *old(self),
            res is Ok <==> old(self).selection.supported(),
            res matches Ok(text) ==> text@ == buf@.text.subrange(
                old(self).selection.range(buf@).0,
                old(self).selection.range(buf@).1,
            ),
    {
        proof {
            lemma_range_in_text(self.selection, buf@);
        }
        match self.selection.bounds(buf) {
            Ok(bounds) => Ok(buf.slice(bounds)),
            Err(e) => Err(e),
        }
    }

    /// Does nothing: a yank changes nothing.
    pub fn undo(&mut self, buf: &mut Buffer)
        ensures
            *final(self) == *old(self),
            *final(buf) == *old(buf),
    {
    }
}

/// A change of mode.
pub struct SetMode {
    pub mode: EditMode,
    /// The mode before the change.
    pub prev_mode: EditMode,
}

impl SetMode {
    pub fn new(mode: EditMode) -> (action: Self)
        ensures
            action.mode == mode,
            action.prev_mode == EditMode::Normal,
    {
        Self { mode, prev_mode: EditMode::Normal }
    }

    /// Puts the buffer in the mode, and remembers the mode that it was in.
    pub fn apply(&mut self, buf: &mut Buffer)
        ensures
            final(self).mode == old(self).mode,
            final(self).prev_mode == old(buf)@.mode,
            final(buf)@ == (BufferView { mode: old(self).mode, ..old(buf)@ }),
    {
        self.prev_mode = buf.mode;
        buf.mode = self.mode;
    }

    /// Puts the buffer back in the mode that it was in.
    pub fn undo(&mut self, buf: &mut Buffer)
        ensures
            *final(self) == *old(self),
            final(buf)@ == (BufferView { mode: old(self).prev_mode, ..old(buf)@ }),
    {
        buf.mode = self.prev_mode;
    }
}

} // verus!
