//! The viewport: the part of the buffer that the terminal shows, and where on
//! the terminal it is drawn.

use crate::utils::{spec_max, BufCol, BufPos, BufRow, TermCol, TermPos, TermRow};
use vstd::prelude::*;

verus! {

/// The columns kept between the cursor and the left edge.
pub const MARGIN_LEFT: usize = 5;

/// The columns kept between the cursor and the right edge.
pub const MARGIN_RIGHT: usize = 5;

/// The rows kept between the cursor and the top edge.
pub const MARGIN_TOP: usize = 3;

/// The rows kept between the cursor and the bottom edge.
pub const MARGIN_BOTTOM: usize = 3;

/// The scroll offset along one axis after the cursor has moved to `cursor`:
/// the view of `extent` cells starts at `scroll` and keeps `near` cells before
/// the cursor and `far` cells from the cursor to its end.
///
/// Where fewer than `near` cells lie before the cursor, the view starts
/// `near` cells before it, or at 0. Where then the cursor and `far` cells
/// after it do not fit in the view, the view ends `far` cells after the
/// cursor.
pub open spec fn scrolled(scroll: int, cursor: int, near: int, far: int, extent: int) -> int {
    let first = if cursor - scroll < near {
        spec_max(0, cursor - near)
    } else {
        scroll
    };
    if cursor - first + far > extent {
        cursor + far - extent
    } else {
        first
    }
}

pub struct Rect {
    pub width: TermCol,
    pub height: TermRow,
    pub offset: TermPos,
    pub scroll: BufPos,
}

impl Rect {
    pub fn new(width: TermCol, height: TermRow, x: TermCol, y: TermRow) -> (rect: Self)
        ensures
            rect.width == width,
            rect.height == height,
            rect.offset == (TermPos { x, y }),
            rect.scroll == (BufPos { x: BufCol(0), y: BufRow(0) }),
    {
        Self {
            width,
            height,
            offset: TermPos::new(x, y),
            scroll: BufPos::new(BufCol(0), BufRow(0)),
        }
    }

    pub fn resize(&mut self, width: TermCol, height: TermRow)
        ensures
            final(self).width == width,
            final(self).height == height,
            final(self).offset == old(self).offset,
            final(self).scroll == old(self).scroll,
    {
        self.width = width;
        self.height = height;
    }

    /// Scrolls by the least amount that brings the cursor inside the margins,
    /// and not at all where it is inside them already.
    pub fn scroll_to_cursor(&mut self, cursor: BufPos)
        requires
            cursor.x.0 + MARGIN_RIGHT <= usize::MAX,
            cursor.y.0 + MARGIN_BOTTOM <= usize::MAX,
        ensures
            final(self).width == old(self).width,
            final(self).height == old(self).height,
            final(self).offset == old(self).offset,
            final(self).scroll.x.0 == scrolled(
                old(self).scroll.x.0 as int,
                cursor.x.0 as int,
                MARGIN_LEFT as int,
                MARGIN_RIGHT as int,
                old(self).width.0 as int,
            ),
            final(self).scroll.y.0 == scrolled(
                old(self).scroll.y.0 as int,
                cursor.y.0 as int,
                MARGIN_TOP as int,
                MARGIN_BOTTOM as int,
                old(self).height.0 as int,
            ),
            MARGIN_RIGHT <= old(self).width.0 ==> final(self).scroll.x.0 <= cursor.x.0,
            MARGIN_BOTTOM <= old(self).height.0 ==> final(self).scroll.y.0 <= cursor.y.0,
    {
        self.scroll.x = BufCol(
            scroll_axis(self.scroll.x.0, cursor.x.0, MARGIN_LEFT, MARGIN_RIGHT, self.width.0),
        );
        self.scroll.y = BufRow(
            scroll_axis(self.scroll.y.0, cursor.y.0, MARGIN_TOP, MARGIN_BOTTOM, self.height.0),
        );
    }

    #[allow(unused)]
    /// Returns the leftmost column of the currently visible area
    pub fn left(&self) -> (col: BufCol)
        ensures
            col == self.scroll.x,
    {
        self.scroll.x
    }

    #[allow(unused)]
    /// Returns the column right after the currently visible area
    pub fn right(&self) -> (col: BufCol)
        requires
            self.scroll.x.0 + self.width.0 <= usize::MAX,
        ensures
            col.0 == self.scroll.x.0 + self.width.0,
    {
        BufCol(self.scroll.x.0 + self.width.as_bufcol().0)
    }

    /// Returns the top row of the currently visible area
    pub fn top(&self) -> (row: BufRow)
        ensures
            row == self.scroll.y,
    {
        self.scroll.y
    }

    /// Returns the row right after the currently visible area
    pub fn bottom(&self) -> (row: BufRow)
        requires
            self.scroll.y.0 + self.height.0 <= usize::MAX,
        ensures
            row.0 == self.scroll.y.0 + self.height.0,
    {
        BufRow(self.scroll.y.0 + self.height.as_bufrow().0)
    }

    /// The terminal column of a buffer column: its distance from the scroll
    /// offset, cut down to 16 bits, after the viewport's own offset.
    pub fn terminal_x(&self, x: BufCol) -> (col: TermCol)
        requires
            self.scroll.x.0 <= x.0,
            (x.0 - self.scroll.x.0) % 0x10000 + self.offset.x.0 <= u16::MAX,
        ensures
            col.0 == (x.0 - self.scroll.x.0) % 0x10000 + self.offset.x.0,
    {
        TermCol(BufCol(x.0 - self.scroll.x.0).as_termcol().0 + self.offset.x.0)
    }

    /// The terminal row of a buffer row: its distance from the scroll offset,
    /// cut down to 16 bits, after the viewport's own offset.
    pub fn terminal_y(&self, y: BufRow) -> (row: TermRow)
        requires
            self.scroll.y.0 <= y.0,
            (y.0 - self.scroll.y.0) % 0x10000 + self.offset.y.0 <= u16::MAX,
        ensures
            row.0 == (y.0 - self.scroll.y.0) % 0x10000 + self.offset.y.0,
    {
        TermRow(BufRow(y.0 - self.scroll.y.0).as_termrow().0 + self.offset.y.0)
    }

    /// Whether `terminal_pos` can place the position: it lies at or after the
    /// scroll offset, and its place fits the terminal's 16-bit coordinates.
    pub open spec fn places(&self, pos: BufPos) -> bool {
        &&& self.scroll.x.0 <= pos.x.0
        &&& self.scroll.y.0 <= pos.y.0
        &&& (pos.x.0 - self.scroll.x.0) % 0x10000 + self.offset.x.0 <= u16::MAX
        &&& (pos.y.0 - self.scroll.y.0) % 0x10000 + self.offset.y.0 <= u16::MAX
    }

    /// Whether `terminal_pos` can place the position.
    pub fn can_place(&self, pos: BufPos) -> (ok: bool)
        ensures
            ok == self.places(pos),
    {
        self.scroll.x.0 <= pos.x.0 && self.scroll.y.0 <= pos.y.0 && BufCol(
            pos.x.0 - self.scroll.x.0,
        ).as_termcol().0 <= u16::MAX - self.offset.x.0 && BufRow(
            pos.y.0 - self.scroll.y.0,
        ).as_termrow().0 <= u16::MAX - self.offset.y.0
    }

    pub fn terminal_pos(&self, pos: BufPos) -> (term: TermPos)
        requires
            self.places(pos),
        ensures
            term.x.0 == (pos.x.0 - self.scroll.x.0) % 0x10000 + self.offset.x.0,
            term.y.0 == (pos.y.0 - self.scroll.y.0) % 0x10000 + self.offset.y.0,
    {
        TermPos::new(self.terminal_x(pos.x), self.terminal_y(pos.y))
    }
}

/// The scroll offset along one axis: see `scrolled`.
fn scroll_axis(scroll: usize, cursor: usize, near: usize, far: usize, extent: u16) -> (res: usize)
    requires
        cursor + far <= usize::MAX,
    ensures
        res == scrolled(scroll as int, cursor as int, near as int, far as int, extent as int),
        far <= extent ==> res <= cursor,
{
    let mut scroll = scroll;
    if cursor < scroll || cursor - scroll < near {
        scroll = if cursor < near {
            0
        } else {
            cursor - near
        };
    }
    if cursor - scroll > (extent as usize) || far > (extent as usize) - (cursor - scroll) {
        scroll = cursor + far - (extent as usize);
    }
    scroll
}

} // verus!
