//! Coordinate types, movements and selections.
//!
//! Positions in the buffer and positions on the terminal are different types,
//! and so are character offsets and byte offsets, so that one is never taken
//! for the other.

use crate::buffer::{Buffer, BufferView};
use crate::rope::{rope_char, rope_text};
use crate::text::{
    char_is_whitespace, content_len, first_non_blank, is_whitespace, lemma_content_len_bounds,
    lemma_line_of_bounds, lemma_line_start_bounds, lemma_line_start_monotonic, line_count,
    line_of, line_start,
};
use vstd::prelude::*;

verus! {

/// An offset into the buffer, counted in characters.
#[derive(Clone, Copy, Default, Debug, PartialEq, Eq, Structural)]
pub struct BufCharIdx(pub usize);

/// An offset into the buffer, counted in bytes of UTF-8.
#[derive(Clone, Copy, Default, Debug, PartialEq, Eq, Structural)]
pub struct BufByteIdx(pub usize);

/// A half-open range of characters of the buffer.
#[derive(Clone, Copy, Default, Debug, PartialEq, Eq, Structural)]
pub struct BufRange {
    pub start: BufCharIdx,
    pub end: BufCharIdx,
}

impl BufRange {
    /// The range between two offsets, given in either order.
    pub fn new(start: BufCharIdx, end: BufCharIdx) -> (range: Self)
        ensures
            range.start.0 <= range.end.0,
            range.start.0 == spec_min(start.0 as int, end.0 as int),
            range.end.0 == spec_max(start.0 as int, end.0 as int),
    {
        if end.0 < start.0 {
            Self { start: end, end: start }
        } else {
            Self { start, end }
        }
    }

    /// Whether the start lies at or before the end.
    pub open spec fn ordered(self) -> bool {
        self.start.0 <= self.end.0
    }
}

/// The smaller of two integers.
pub open spec fn spec_min(a: int, b: int) -> int {
    if a <= b {
        a
    } else {
        b
    }
}

/// The larger of two integers.
pub open spec fn spec_max(a: int, b: int) -> int {
    if a >= b {
        a
    } else {
        b
    }
}

/// A column of the buffer: an offset into a line, counted in characters.
#[derive(Clone, Copy, Default, Debug, PartialEq, Eq, Structural)]
pub struct BufCol(pub usize);

impl BufCol {
    /// The terminal column with the same number, cut down to 16 bits.
    pub fn as_termcol(self) -> (col: TermCol)
        ensures
            col.0 == self.0 % 0x10000,
    {
        let x: usize = self.0;
        assert(x as u16 == x % 0x10000) by (bit_vector);
        TermCol(x as u16)
    }
}

/// A row of the buffer: the number of a line.
#[derive(Clone, Copy, Default, Debug, PartialEq, Eq, Structural)]
pub struct BufRow(pub usize);

impl BufRow {
    /// The terminal row with the same number, cut down to 16 bits.
    pub fn as_termrow(self) -> (row: TermRow)
        ensures
            row.0 == self.0 % 0x10000,
    {
        let y: usize = self.0;
        assert(y as u16 == y % 0x10000) by (bit_vector);
        TermRow(y as u16)
    }
}

/// A position in the buffer, as column and row.
#[derive(Clone, Copy, Default, Debug, PartialEq, Eq, Structural)]
pub struct BufPos {
    pub x: BufCol,
    pub y: BufRow,
}

impl BufPos {
    pub fn new(x: BufCol, y: BufRow) -> (pos: Self)
        ensures
            pos.x == x,
            pos.y == y,
    {
        Self { x, y }
    }
}

/// A column of the terminal.
#[derive(Clone, Copy, Default, Debug, PartialEq, Eq, Structural)]
pub struct TermCol(pub u16);

impl TermCol {
    /// The buffer column with the same number.
    pub fn as_bufcol(self) -> (col: BufCol)
        ensures
            col.0 == self.0,
    {
        BufCol(self.0 as usize)
    }
}

/// A row of the terminal.
#[derive(Clone, Copy, Default, Debug, PartialEq, Eq, Structural)]
pub struct TermRow(pub u16);

impl TermRow {
    /// The buffer row with the same number.
    pub fn as_bufrow(self) -> (row: BufRow)
        ensures
            row.0 == self.0,
    {
        BufRow(self.0 as usize)
    }
}

/// A position on the terminal, as column and row.
#[derive(Clone, Copy, Default, Debug, PartialEq, Eq, Structural)]
pub struct TermPos {
    pub x: TermCol,
    pub y: TermRow,
}

impl TermPos {
    pub fn new(x: TermCol, y: TermRow) -> (pos: Self)
        ensures
            pos.x == x,
            pos.y == y,
    {
        Self { x, y }
    }
}

/// The error of a movement that this library does not carry out.
pub const MOVEMENT_NOT_IMPLEMENTED: &'static str = "Movement not implemented";

/// The error of a selection that this library does not carry out.
pub const SELECTION_NOT_SUPPORTED: &'static str = "Selection not supported";

/// A way to move the cursor.
#[derive(Clone, Copy, Debug, PartialEq, Eq, Structural)]
pub enum Movement {
    Up(usize),
    Down(usize),
    Left(usize),
    Right(usize),
    Home,
    End,
    Top,
    Bottom,
    FirstChar,
    NextWord(usize),
    PrevWord(usize),
}

impl Movement {
    /// Whether the movement stays on the cursor's line, so that it sets the
    /// saved column.
    pub open spec fn horizontal(self) -> bool {
        !(self is Up || self is Down || self is Top || self is Bottom)
    }

    /// Whether this library carries the movement out.
    pub open spec fn implemented(self) -> bool {
        !(self is NextWord || self is PrevWord)
    }

    /// The offset that the movement leads to from the cursor of `b`, for a
    /// movement that is carried out.
    pub open spec fn target(self, b: BufferView) -> int {
        self.target_at(b.text, b.cursor, b.saved_col)
    }

    /// The offset that the movement leads to in the text `s` from `cursor`,
    /// with the saved column `saved_col`.
    pub open spec fn target_at(self, s: Seq<char>, cursor: int, saved_col: int) -> int {
        let row = line_of(s, cursor);
        let home = line_start(s, row);
        let end = home + content_len(s, row);
        match self {
            Movement::Up(n) => {
                let y = if n >= row {
                    0nat
                } else {
                    (row - n) as nat
                };
                line_start(s, y) + spec_min(content_len(s, y), saved_col)
            },
            Movement::Down(n) => {
                let y = if row + n >= line_count(s) {
                    (line_count(s) - 1) as nat
                } else {
                    row + n as nat
                };
                line_start(s, y) + spec_min(content_len(s, y), saved_col)
            },
            Movement::Left(n) => spec_max(cursor - n, home),
            Movement::Right(n) => spec_min(cursor + n, end),
            Movement::Home => home,
            Movement::End => end,
            Movement::FirstChar => {
                let p = first_non_blank(s, home, end);
                if p < end {
                    p
                } else {
                    home
                }
            },
            Movement::Top => 0,
            Movement::Bottom => s.len() as int,
            Movement::NextWord(_) => cursor,
            Movement::PrevWord(_) => cursor,
        }
    }

    pub fn is_horizontal(&self) -> (b: bool)
        ensures
            b == self.horizontal(),
    {
        match self {
            Movement::Up(_) => false,
            Movement::Down(_) => false,
            Movement::Top => false,
            Movement::Bottom => false,
            _ => true,
        }
    }

    /// The offset that the movement leads to from the cursor of `buf`. The
    /// word movements are not carried out: they give an error.
    pub fn dest(&self, buf: &Buffer) -> (res: Result<BufCharIdx, &'static str>)
        requires
            buf.wf(),
        ensures
            self.implemented() ==> res == Ok::<BufCharIdx, &'static str>(
                BufCharIdx(self.target(buf@) as usize),
            ),
            self.implemented() ==> 0 <= self.target(buf@) <= buf@.text.len(),
            !self.implemented() ==> (res matches Err(e) && e@ == MOVEMENT_NOT_IMPLEMENTED@),
    {
        let ghost s = buf@.text;
        let row = buf.row();
        let lines = buf.len_lines();
        proof {
            lemma_line_of_bounds(s, buf@.cursor);
            lemma_content_len_bounds(s, row.0 as nat);
            lemma_line_start_bounds(s, row.0 as nat);
        }
        match self {
            Movement::Up(amount) => {
                let y = BufRow(
                    if *amount >= row.0 {
                        0
                    } else {
                        row.0 - *amount
                    },
                );
                Ok(column_in_line(buf, y))
            },
            Movement::Down(amount) => {
                let y = BufRow(
                    if *amount >= lines - row.0 {
                        lines - 1
                    } else {
                        row.0 + *amount
                    },
                );
                Ok(column_in_line(buf, y))
            },
            Movement::Left(amount) => {
                let home = buf.line_to_char(row);
                if *amount > buf.idx.0 - home.0 {
                    Ok(home)
                } else {
                    Ok(BufCharIdx(buf.idx.0 - *amount))
                }
            },
            Movement::Right(amount) => {
                let home = buf.line_to_char(row);
                let end = home.0 + buf.max_col(row).0;
                if buf.idx.0 >= end || *amount >= end - buf.idx.0 {
                    Ok(BufCharIdx(end))
                } else {
                    Ok(BufCharIdx(buf.idx.0 + *amount))
                }
            },
            Movement::Home => Ok(buf.line_to_char(row)),
            Movement::End => {
                let home = buf.line_to_char(row);
                Ok(BufCharIdx(home.0 + buf.max_col(row).0))
            },
            Movement::FirstChar => {
                let home = buf.line_to_char(row);
                let end = home.0 + buf.max_col(row).0;
                let mut i = home.0;
                while i < end && char_is_whitespace(rope_char(&buf.text, i))
                    invariant
                        home.0 <= i <= end <= s.len(),
                        s == rope_text(buf.text),
                        first_non_blank(s, home.0 as int, end as int) == first_non_blank(
                            s,
                            i as int,
                            end as int,
                        ),
                    decreases end - i,
                {
                    i += 1;
                }
                if i < end {
                    Ok(BufCharIdx(i))
                } else {
                    Ok(home)
                }
            },
            Movement::Top => Ok(BufCharIdx(0)),
            Movement::Bottom => Ok(BufCharIdx(buf.len_chars())),
            Movement::NextWord(_amount) => Err(MOVEMENT_NOT_IMPLEMENTED),
            Movement::PrevWord(_amount) => Err(MOVEMENT_NOT_IMPLEMENTED),
        }
    }
}

/// The offset in line `y` of the saved column, or of the line's greatest
/// column where the line is shorter.
fn column_in_line(buf: &Buffer, y: BufRow) -> (idx: BufCharIdx)
    requires
        buf.wf(),
        y.0 < line_count(buf@.text),
    ensures
        idx.0 == line_start(buf@.text, y.0 as nat) + spec_min(
            content_len(buf@.text, y.0 as nat),
            buf@.saved_col,
        ),
        idx.0 <= buf@.text.len(),
{
    proof {
        lemma_content_len_bounds(buf@.text, y.0 as nat);
        lemma_line_start_bounds(buf@.text, y.0 as nat);
    }
    let max = buf.max_col(y).0;
    let x = if max <= buf.saved_col.0 {
        max
    } else {
        buf.saved_col.0
    };
    BufCharIdx(buf.line_to_char(y).0 + x)
}

/// A way to pick a range of the text.
#[derive(Clone, Copy, Debug, PartialEq, Eq, Structural)]
pub enum Selection {
    Bounds(BufCharIdx, BufCharIdx),
    Lines(usize),
    UpTo(Movement),
    Between { first: char, last: char, inclusive: bool },
    Word { inclusive: bool },
    Paragraph { inclusive: bool },
}

impl Selection {
    /// Whether this library carries the selection out.
    pub open spec fn supported(self) -> bool {
        match self {
            Selection::Bounds(_, _) => true,
            Selection::Lines(_) => true,
            Selection::UpTo(m) => m.implemented(),
            _ => false,
        }
    }

    /// Whether a selection by offsets lies in a text of length `len`. The
    /// other selections always do.
    pub open spec fn fits(self, len: int) -> bool {
        self matches Selection::Bounds(start, end) ==> start.0 <= len && end.0 <= len
    }

    /// The range that the selection picks in `b`, as start and end, for a
    /// selection that is carried out.
    pub open spec fn range(self, b: BufferView) -> (int, int) {
        self.range_at(b.text, b.cursor, b.saved_col)
    }

    /// The range that the selection picks in the text `s` with the cursor at
    /// `cursor` and the saved column `saved_col`.
    pub open spec fn range_at(self, s: Seq<char>, cursor: int, saved_col: int) -> (int, int) {
        match self {
            Selection::Bounds(start, end) => (
                spec_min(start.0 as int, end.0 as int),
                spec_max(start.0 as int, end.0 as int),
            ),
            Selection::Lines(n) => {
                let row = line_of(s, cursor);
                let last = if row + n >= line_count(s) {
                    line_count(s)
                } else {
                    row + n as nat
                };
                (line_start(s, row), line_start(s, last))
            },
            Selection::UpTo(m) => (
                spec_min(cursor, m.target_at(s, cursor, saved_col)),
                spec_max(cursor, m.target_at(s, cursor, saved_col)),
            ),
            _ => (0, 0),
        }
    }

    /// The range that the selection picks in `buf`, its start at or before
    /// its end. The selections by delimiters, word and paragraph are not
    /// carried out, and neither is one up to a word movement: they give an
    /// error.
    pub fn bounds(&self, buf: &Buffer) -> (res: Result<BufRange, &'static str>)
        requires
            buf.wf(),
        ensures
            self.supported() ==> res == Ok::<BufRange, &'static str>(
                BufRange {
                    start: BufCharIdx(self.range(buf@).0 as usize),
                    end: BufCharIdx(self.range(buf@).1 as usize),
                },
            ),
            self.supported() ==> 0 <= self.range(buf@).0 <= self.range(buf@).1 <= usize::MAX,
            self.supported() && !(self is Bounds) ==> self.range(buf@).1 <= buf@.text.len(),
            !self.supported() ==> (res matches Err(e) && e@ == (if self is UpTo {
                MOVEMENT_NOT_IMPLEMENTED@
            } else {
                SELECTION_NOT_SUPPORTED@
            })),
    {
        let ghost s = buf@.text;
        match self {
            Selection::Bounds(start, end) => Ok(BufRange::new(*start, *end)),
            Selection::Lines(amount) => {
                let row = buf.row();
                let lines = buf.len_lines();
                let start = buf.line_to_char(row);
                let dest = BufRow(
                    if *amount >= lines - row.0 {
                        lines
                    } else {
                        row.0 + *amount
                    },
                );
                let end = buf.line_to_char(dest);
                proof {
                    lemma_line_start_monotonic(s, row.0 as nat, dest.0 as nat);
                    lemma_line_start_bounds(s, dest.0 as nat);
                    lemma_line_start_bounds(s, row.0 as nat);
                }
                Ok(BufRange::new(start, end))
            },
            Selection::UpTo(mov) => {
                match mov.dest(buf) {
                    Ok(dest) => Ok(BufRange::new(buf.idx, dest)),
                    Err(e) => Err(e),
                }
            },
            Selection::Between { first: _, last: _, inclusive: _ } => Err(SELECTION_NOT_SUPPORTED),
            Selection::Word { inclusive: _ } => Err(SELECTION_NOT_SUPPORTED),
            Selection::Paragraph { inclusive: _ } => Err(SELECTION_NOT_SUPPORTED),
        }
    }
}

/// From `i` up to `end` the search for a character that is not white space
/// ends between the two.
pub proof fn lemma_first_non_blank_bounds(s: Seq<char>, i: int, end: int)
    requires
        i <= end,
    ensures
        i <= first_non_blank(s, i, end) <= end,
    decreases end - i,
{
    if i < end && is_whitespace(s[i]) {
        lemma_first_non_blank_bounds(s, i + 1, end);
    }
}

/// Every movement leads to an offset in the text or at its end.
pub proof fn lemma_target_in_text(m: Movement, b: BufferView)
    requires
        b.wf(),
    ensures
        0 <= m.target(b) <= b.text.len(),
{
    let s = b.text;
    let row = b.row();
    lemma_line_of_bounds(s, b.cursor);
    lemma_content_len_bounds(s, row);
    lemma_line_start_bounds(s, row);
    match m {
        Movement::Up(n) => {
            let y = if n >= row {
                0nat
            } else {
                (row - n) as nat
            };
            lemma_content_len_bounds(s, y);
            lemma_line_start_bounds(s, y);
        },
        Movement::Down(n) => {
            let y = if row + n >= line_count(s) {
                (line_count(s) - 1) as nat
            } else {
                row + n as nat
            };
            lemma_content_len_bounds(s, y);
            lemma_line_start_bounds(s, y);
        },
        Movement::FirstChar => {
            lemma_first_non_blank_bounds(
                s,
                line_start(s, row),
                line_start(s, row) + content_len(s, row),
            );
        },
        _ => {},
    }
}

/// The range of a selection that is carried out and fits the text lies in the
/// text, its start at or before its end.
pub proof fn lemma_range_in_text(sel: Selection, b: BufferView)
    requires
        b.wf(),
        sel.fits(b.text.len() as int),
    ensures
        0 <= sel.range(b).0 <= sel.range(b).1 <= b.text.len(),
{
    let s = b.text;
    match sel {
        Selection::Lines(n) => {
            let row = b.row();
            let last = if row + n >= line_count(s) {
                line_count(s)
            } else {
                row + n as nat
            };
            lemma_line_of_bounds(s, b.cursor);
            lemma_line_start_monotonic(s, row, last);
            lemma_line_start_bounds(s, row);
            lemma_line_start_bounds(s, last);
        },
        Selection::UpTo(m) => {
            lemma_target_in_text(m, b);
        },
        _ => {},
    }
}

impl Default for Selection {
    fn default() -> (sel: Self)
        ensures
            sel == Selection::Lines(0),
    {
        Self::Lines(0)
    }
}

} // verus!
