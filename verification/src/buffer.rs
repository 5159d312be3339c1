//! The text buffer: a rope of characters with a cursor, an edit mode, a dirty
//! flag and the two stacks of the undo/redo engine.

use crate::action::{
    history_ok, lemma_record_keeps_inv, result_view, Action, ActionView, BufferAction, Undoable,
};
use crate::rope::{
    rope_byte_to_char, rope_char, rope_char_to_line, rope_from_str, rope_insert, rope_len_bytes,
    rope_len_chars, rope_len_lines, rope_line_len, rope_line_to_byte, rope_line_to_char,
    rope_remove, rope_slice_string, rope_text,
};
use crate::text::{
    break_ends_at, byte_len, byte_of_char, char_of_byte, content_len, insert_at, is_break_char, lemma_content_len_bounds,
    lemma_line_ends_with_break, lemma_line_of_bounds, lemma_line_start_bounds,
    lemma_line_start_monotonic, lemma_line_start_past_last, line_count, line_of, line_start,
    remove_range,
};
use crate::utils::{BufByteIdx, BufCharIdx, BufCol, BufPos, BufRange, BufRow};
use ropey::Rope;
use vstd::prelude::*;

verus! {

/// The mode that decides what a key does.
#[derive(Clone, Copy, Debug, PartialEq, Eq, Structural)]
pub enum EditMode {
    Normal,
    Insert,
    Command,
}

impl Default for EditMode {
    fn default() -> (mode: Self)
        ensures
            mode == EditMode::Normal,
    {
        EditMode::Normal
    }
}

/// What a buffer is, as plain values.
pub struct BufferView {
    /// The characters of the text.
    pub text: Seq<char>,
    /// The character offset of the cursor.
    pub cursor: int,
    /// The column that vertical movements try to reach.
    pub saved_col: int,
    pub mode: EditMode,
    /// Whether the text has changed since it was last written out.
    pub edited: bool,
    pub path: Seq<char>,
    /// The actions that undo the edits made so far, the latest last.
    pub undo: Seq<ActionView>,
    /// The actions that redo the edits undone so far, the latest last.
    pub redo: Seq<ActionView>,
}

impl BufferView {
    /// The cursor lies in the text or at its end, and the text has a length
    /// that a machine word holds.
    pub open spec fn wf(self) -> bool {
        &&& 0 <= self.cursor <= self.text.len() <= usize::MAX
        &&& 0 <= self.saved_col
    }

    /// The buffer is well formed and each stack can be played back from the
    /// present text.
    pub open spec fn inv(self) -> bool {
        &&& self.wf()
        &&& history_ok(self.text, self.undo)
        &&& history_ok(self.text, self.redo)
    }

    /// The row of the cursor.
    pub open spec fn row(self) -> nat {
        line_of(self.text, self.cursor)
    }

    /// The column of the cursor.
    pub open spec fn col(self) -> int {
        self.cursor - line_start(self.text, self.row())
    }
}

pub struct Buffer {
    /// Rope representation of the contents of this buffer
    pub text: Rope,
    /// Current index of the cursor within the rope
    pub idx: BufCharIdx,
    /// The column index the cursor will snap to when moving between lines
    pub saved_col: BufCol,
    /// The mode the buffer is currently in
    pub mode: EditMode,
    /// Whether the buffer has been edited since saving
    pub edited: bool,
    /// The path of the file being edited
    pub path: String,
    pub undo: Vec<BufferAction>,
    pub redo: Vec<BufferAction>,
}

impl View for Buffer {
    type V = BufferView;

    open spec fn view(&self) -> BufferView {
        BufferView {
            text: rope_text(self.text),
            cursor: self.idx.0 as int,
            saved_col: self.saved_col.0 as int,
            mode: self.mode,
            edited: self.edited,
            path: self.path@,
            undo: self.undo@.map_values(|a: BufferAction| a@),
            redo: self.redo@.map_values(|a: BufferAction| a@),
        }
    }
}

impl Buffer {
    /// See `BufferView::wf`.
    pub open spec fn wf(&self) -> bool {
        self@.wf()
    }

    /// See `BufferView::inv`.
    pub open spec fn inv(&self) -> bool {
        self@.inv()
    }

    /// A buffer for the file at `path` that holds `contents`, with the cursor
    /// at the start, in normal mode and with empty stacks.
    pub fn new(path: String, contents: &str) -> (buf: Self)
        ensures
            buf.inv(),
            buf@ == (BufferView {
                text: contents@,
                cursor: 0,
                saved_col: 0,
                mode: EditMode::Normal,
                edited: false,
                path: path@,
                undo: Seq::empty(),
                redo: Seq::empty(),
            }),
    {
        let text = rope_from_str(contents);
        let _len = rope_len_chars(&text);
        let buf = Self {
            text,
            idx: BufCharIdx(0),
            saved_col: BufCol(0),
            mode: EditMode::Normal,
            edited: false,
            path,
            undo: Vec::new(),
            redo: Vec::new(),
        };
        assert(buf@.undo =~= Seq::empty());
        assert(buf@.redo =~= Seq::empty());
        buf
    }

    /// Whether the cursor lies in the text or at its end.
    pub fn is_wf(&self) -> (ok: bool)
        ensures
            ok == self.wf(),
    {
        self.idx.0 <= rope_len_chars(&self.text)
    }

    /// The number of characters of the text.
    pub fn len_chars(&self) -> (n: usize)
        ensures
            n == self@.text.len(),
    {
        rope_len_chars(&self.text)
    }

    /// The number of lines of the text.
    pub fn len_lines(&self) -> (n: usize)
        ensures
            n == line_count(self@.text),
    {
        rope_len_lines(&self.text)
    }

    /// The number of bytes of the text in UTF-8.
    pub fn len_bytes(&self) -> (n: usize)
        ensures
            n == byte_len(self@.text),
    {
        rope_len_bytes(&self.text)
    }

    /// Returns which row the cursor is on
    pub fn row(&self) -> (row: BufRow)
        requires
            self.wf(),
        ensures
            row.0 == self@.row(),
            row.0 < line_count(self@.text),
    {
        proof {
            lemma_line_of_bounds(self@.text, self@.cursor);
        }
        self.char_to_line(self.idx)
    }

    /// Returns which column the cursor is on
    pub fn col(&self) -> (col: BufCol)
        requires
            self.wf(),
        ensures
            col.0 == self@.col(),
    {
        proof {
            lemma_line_of_bounds(self@.text, self@.cursor);
        }
        let row = self.row();
        let start = self.line_to_char(row);
        BufCol(self.idx.0 - start.0)
    }

    /// Returns the greatest column of a line: the number of its characters,
    /// its line break not counted.
    pub fn max_col(&self, line: BufRow) -> (col: BufCol)
        requires
            line.0 < line_count(self@.text),
        ensures
            col.0 == content_len(self@.text, line.0 as nat),
    {
        let ghost s = self@.text;
        let ghost l = line.0 as nat;
        proof {
            lemma_content_len_bounds(s, l);
            lemma_line_start_bounds(s, l);
            lemma_line_start_bounds(s, l + 1);
            lemma_line_start_monotonic(s, l, l + 1);
        }
        let len = rope_line_len(&self.text, line.0);
        if len == 0 {
            return BufCol(0);
        }
        let _total = rope_len_chars(&self.text);
        let start = rope_line_to_char(&self.text, line.0);
        let end = start + len;
        let last = rope_char(&self.text, end - 1);
        proof {
            // The line ends where the next one starts or where the text ends,
            // so its last character ends a break exactly if it can end one.
            if l + 1 < line_count(s) {
                lemma_line_ends_with_break(s, l);
            } else {
                lemma_line_start_past_last(s, l + 1);
            }
            assert(break_ends_at(s, end - 1) == is_break_char(last));
        }
        if !is_break(last) {
            BufCol(len)
        } else if last == '\n' && end >= 2 && rope_char(&self.text, end - 2) == '\r' {
            BufCol(len - 2)
        } else {
            BufCol(len - 1)
        }
    }

    pub fn insert(&mut self, i: BufCharIdx, string: &str)
        requires
            i.0 <= old(self)@.text.len(),
        ensures
            final(self)@ == (BufferView {
                text: insert_at(old(self)@.text, i.0 as int, string@),
                edited: true,
                ..old(self)@
            }),
    {
        rope_insert(&mut self.text, i.0, string);
        self.edited = true;
    }

    /// Takes the characters of the range out of the text and puts the cursor
    /// at the start of the range.
    pub fn remove(&mut self, range: BufRange)
        requires
            range.start.0 <= range.end.0 <= old(self)@.text.len(),
        ensures
            final(self)@ == (BufferView {
                text: remove_range(old(self)@.text, range.start.0 as int, range.end.0 as int),
                cursor: range.start.0 as int,
                edited: true,
                ..old(self)@
            }),
    {
        self.idx = range.start;
        rope_remove(&mut self.text, range.start.0, range.end.0);
        self.edited = true;
    }

    /// The position of the cursor as column and row.
    pub fn cursor(&self) -> (pos: BufPos)
        requires
            self.wf(),
        ensures
            pos.x.0 == self@.col(),
            pos.y.0 == self@.row(),
    {
        BufPos::new(self.col(), self.row())
    }

    /// The position of a character as column and row.
    pub fn char_to_pos(&self, character: BufCharIdx) -> (pos: BufPos)
        requires
            character.0 <= self@.text.len(),
        ensures
            pos.y.0 == line_of(self@.text, character.0 as int),
            pos.x.0 == character.0 - line_start(
                self@.text,
                line_of(self@.text, character.0 as int),
            ),
    {
        proof {
            lemma_line_of_bounds(self@.text, character.0 as int);
        }
        let row = self.char_to_line(character);
        let start = self.line_to_char(row);
        BufPos::new(BufCol(character.0 - start.0), row)
    }

    /// The line that holds a character.
    pub fn char_to_line(&self, character: BufCharIdx) -> (row: BufRow)
        requires
            character.0 <= self@.text.len(),
        ensures
            row.0 == line_of(self@.text, character.0 as int),
    {
        BufRow(rope_char_to_line(&self.text, character.0))
    }

    /// The offset at which a line starts, and the length of the text for the
    /// line after the last.
    pub fn line_to_char(&self, line: BufRow) -> (idx: BufCharIdx)
        requires
            line.0 <= line_count(self@.text),
        ensures
            idx.0 == line_start(self@.text, line.0 as nat),
    {
        BufCharIdx(rope_line_to_char(&self.text, line.0))
    }

    /// The character to which a byte belongs, and the length of the text for
    /// the offset after the last byte.
    pub fn byte_to_char(&self, byte: BufByteIdx) -> (idx: BufCharIdx)
        requires
            byte.0 <= byte_len(self@.text),
        ensures
            idx.0 == char_of_byte(self@.text, byte.0 as int),
    {
        BufCharIdx(rope_byte_to_char(&self.text, byte.0))
    }

    /// The byte offset at which a line starts, and the length of the text in
    /// bytes for the line after the last.
    pub fn line_to_byte(&self, line: BufRow) -> (idx: BufByteIdx)
        requires
            line.0 <= line_count(self@.text),
        ensures
            idx.0 == byte_of_char(self@.text, line_start(self@.text, line.0 as nat)),
    {
        BufByteIdx(rope_line_to_byte(&self.text, line.0))
    }

    /// The characters of a range, as a string.
    pub fn slice(&self, range: BufRange) -> (s: String)
        requires
            range.start.0 <= range.end.0 <= self@.text.len(),
        ensures
            s@ == self@.text.subrange(range.start.0 as int, range.end.0 as int),
    {
        rope_slice_string(&self.text, range.start.0, range.end.0)
    }

    /// Makes the cursor's column the one that vertical movements try to reach.
    pub fn save_col(&mut self)
        requires
            old(self).wf(),
        ensures
            final(self)@ == (BufferView { saved_col: old(self)@.col(), ..old(self)@ }),
    {
        self.saved_col = self.col();
    }

    /// Applies a command of the user. Before an action that changes the
    /// text, the action's inverse is pushed on the undo stack and the redo
    /// stack is emptied; then the action is carried out. Returns the text
    /// that a `Yank` picked. An action that is not carried out leaves the
    /// buffer as it was.
    pub fn apply(&mut self, action: BufferAction) -> (res: Result<Option<String>, &'static str>)
        requires
            old(self).inv(),
            action@.fits(old(self)@.text.len() as int),
        ensures
            final(self).inv(),
            final(self)@ == action@.record(old(self)@).after,
            result_view(res) == action@.record(old(self)@).result,
    {
        let ghost before = self@;
        proof {
            lemma_record_keeps_inv(action@, before);
        }
        let recorded = match &action {
            BufferAction::Delete(selection) => selection.bounds(self).is_ok(),
            BufferAction::InsertAt(_, _) => true,
            BufferAction::Insert(_) => true,
            _ => false,
        };
        if recorded {
            let inverse = action.inverse(self);
            self.redo.clear();
            self.undo.push(inverse);
            assert(self@.redo =~= Seq::empty());
            assert(self@.undo =~= before.undo.push(action@.inverse(before)));
            action.perform(self)
        } else {
            action.apply(self)
        }
    }

    /// Hands out the whole text for saving, and marks the buffer as clean.
    pub fn write(&mut self) -> (contents: String)
        ensures
            contents@ == old(self)@.text,
            final(self)@ == (BufferView { edited: false, ..old(self)@ }),
    {
        let len = rope_len_chars(&self.text);
        let contents = rope_slice_string(&self.text, 0, len);
        self.edited = false;
        assert(contents@ =~= self@.text);
        contents
    }
}

/// Whether a character can end a line.
fn is_break(c: char) -> (b: bool)
    ensures
        b == is_break_char(c),
{
    c == '\n' || c == '\u{0B}' || c == '\u{0C}' || c == '\r' || c == '\u{85}' || c == '\u{2028}' || c
        == '\u{2029}'
}

} // verus!
