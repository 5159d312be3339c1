//! Where the text of a range goes on the terminal.

use crate::buffer::Buffer;
use crate::rect::Rect;
use crate::rope::rope_slice_lines;
use crate::text::{line_count, line_of, line_start, line_text};
use crate::utils::{BufCol, BufPos, BufRange, BufRow, TermPos, TermRow};
use vstd::prelude::*;

verus! {

/// A piece of text and where on the terminal it starts.
pub struct Piece {
    pub at: TermPos,
    pub text: String,
}

/// The position in the buffer of the character at `idx`.
pub open spec fn pos_of(text: Seq<char>, idx: int) -> BufPos {
    BufPos {
        x: BufCol((idx - line_start(text, line_of(text, idx))) as usize),
        y: BufRow(line_of(text, idx) as usize),
    }
}

/// The number of pieces that a text of `lines` lines gives from row `row` of
/// the terminal down: one for each line, as far as the terminal has rows.
pub open spec fn piece_count(lines: nat, row: int) -> int {
    if lines <= 0x10000 - row {
        lines as int
    } else {
        0x10000 - row
    }
}

/// Where each line of a range goes. The range is divided into its own lines.
/// The first goes where the viewport shows the start of the range, each later
/// one at the viewport's left edge on the next row. Nothing is returned where
/// the viewport cannot show the start of the range.
pub fn print_range(rect: &Rect, buf: &Buffer, range: BufRange) -> (res: Option<Vec<Piece>>)
    requires
        range.start.0 <= range.end.0 <= buf@.text.len(),
    ensures
        res is Some <==> rect.places(pos_of(buf@.text, range.start.0 as int)),
        res matches Some(pieces) ==> ({
            let part = buf@.text.subrange(range.start.0 as int, range.end.0 as int);
            let start = pos_of(buf@.text, range.start.0 as int);
            let x = (start.x.0 - rect.scroll.x.0) % 0x10000 + rect.offset.x.0;
            let y = (start.y.0 - rect.scroll.y.0) % 0x10000 + rect.offset.y.0;
            &&& pieces@.len() == piece_count(line_count(part), y)
            &&& forall|k: int|
                0 <= k < pieces@.len() ==> {
                    &&& (#[trigger] pieces@[k]).text@ == line_text(part, k as nat)
                    &&& pieces@[k].at.y.0 == y + k
                    &&& pieces@[k].at.x.0 == (if k == 0 {
                        x
                    } else {
                        rect.offset.x.0 as int
                    })
                }
        }),
{
    let start = buf.char_to_pos(range.start);
    if !rect.can_place(start) {
        return None;
    }
    let first = rect.terminal_pos(start);
    let lines = rope_slice_lines(&buf.text, range.start.0, range.end.0);
    let ghost part = buf@.text.subrange(range.start.0 as int, range.end.0 as int);
    let mut pieces: Vec<Piece> = Vec::new();
    let mut at = first;
    let mut k: usize = 0;
    while k < lines.len() && k as u64 + first.y.0 as u64 <= 0xffff
        invariant
            k <= lines@.len(),
            forall|j: int|
                0 <= j < lines@.len() ==> (#[trigger] lines@[j])@ == line_text(part, j as nat),
            pieces@.len() == k,
            k <= 0x10000 - first.y.0,
            k < 0x10000 - first.y.0 ==> at.y.0 == first.y.0 + k,
            at.x.0 == (if k == 0 {
                first.x.0
            } else {
                rect.offset.x.0
            }),
            forall|j: int|
                0 <= j < k ==> {
                    &&& (#[trigger] pieces@[j]).text@ == line_text(part, j as nat)
                    &&& pieces@[j].at.y.0 == first.y.0 + j
                    &&& pieces@[j].at.x.0 == (if j == 0 {
                        first.x.0
                    } else {
                        rect.offset.x.0
                    })
                },
        decreases lines@.len() - k,
    {
        let text = lines[k].clone();
        pieces.push(Piece { at, text });
        k += 1;
        if at.y.0 < u16::MAX {
            at = TermPos::new(rect.offset.x, TermRow(at.y.0 + 1));
        } else {
            at = TermPos::new(rect.offset.x, at.y);
        }
    }
    Some(pieces)
}

} // verus!
