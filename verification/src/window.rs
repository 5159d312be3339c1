//! A window: a buffer, the viewport that shows it and its highlight overlay.
//!
//! Nothing here writes to the terminal. Each function says what is to be
//! drawn and where, and leaves the drawing to the caller.

use crate::action::{lemma_direct_wf, BufferAction, RenderAction};
use crate::buffer::{Buffer, BufferView, EditMode};
use crate::config::Config;
use crate::highlight::language::{detect, detected};
use crate::highlight::{grammar_loads, overlay, spans, spans_in_text, Highlighter, Span};
use crate::input::{insert_binding, normal_binding, InputHandler, Key};
use crate::rect::{scrolled, Rect, MARGIN_BOTTOM, MARGIN_LEFT, MARGIN_RIGHT, MARGIN_TOP};
use crate::text::{byte_of_char, line_count, line_start};
use crate::utils::{spec_min, BufCol, BufPos, BufRow, TermCol, TermPos, TermRow};
use vstd::prelude::*;

verus! {

/// The number of decimal digits of a number.
pub open spec fn digits(n: nat) -> nat
    decreases n,
{
    if n < 10 {
        1
    } else {
        1 + digits(n / 10)
    }
}

/// A number that a machine word holds has at most twenty digits.
pub proof fn lemma_digits_bound(n: nat)
    requires
        n <= u64::MAX,
    ensures
        1 <= digits(n) <= 20,
{
    reveal_with_fuel(digits, 21);
}

/// The width of the gutter that shows the line numbers of a text of `lines`
/// lines: the digits of `lines` and one column more.
pub fn gutter_width(lines: usize) -> (width: u16)
    ensures
        width == digits(lines as nat) + 1,
{
    let mut n = lines;
    let mut count: u16 = 1;
    proof {
        lemma_digits_bound(lines as nat);
    }
    while n >= 10
        invariant
            digits(lines as nat) == count - 1 + digits(n as nat),
            1 <= count <= digits(lines as nat) <= 20,
        decreases n,
    {
        n = n / 10;
        count += 1;
    }
    count + 1
}

/// The shape of the cursor.
#[derive(Clone, Copy, Debug, PartialEq, Eq, Structural)]
pub enum CursorShape {
    Block,
    Line,
}

/// The shape that the cursor has in a mode: a line in insert mode, a block
/// in the others.
pub fn cursor_shape(mode: EditMode) -> (shape: CursorShape)
    ensures
        shape == (if mode == EditMode::Insert {
            CursorShape::Line
        } else {
            CursorShape::Block
        }),
{
    match mode {
        EditMode::Insert => CursorShape::Line,
        _ => CursorShape::Block,
    }
}

/// The number shown in the gutter on one row of the terminal.
#[derive(Clone, Copy, Debug, PartialEq, Eq, Structural)]
pub struct LineNumber {
    /// The row of the terminal.
    pub row: u16,
    /// The number to show: the cursor's line number, counted from 1, on the
    /// cursor's row, and the distance to the cursor's row on the others.
    pub number: usize,
    /// Whether this is the cursor's row.
    pub active: bool,
}

/// The number shown on row `row` of the terminal when the cursor is on row
/// `cursor` of the terminal and on line `line` of the buffer.
pub open spec fn line_number(row: int, cursor: int, line: int) -> LineNumber {
    LineNumber {
        row: row as u16,
        number: (if row == cursor {
            line + 1
        } else if row < cursor {
            cursor - row
        } else {
            row - cursor
        }) as usize,
        active: row == cursor,
    }
}

/// The numbers shown in a gutter of `height` rows.
pub fn line_numbers(height: u16, cursor: u16, line: usize) -> (numbers: Vec<LineNumber>)
    requires
        line < usize::MAX,
    ensures
        numbers@.len() == height,
        forall|r: int|
            0 <= r < height ==> #[trigger] numbers@[r] == line_number(
                r,
                cursor as int,
                line as int,
            ),
{
    let mut numbers: Vec<LineNumber> = Vec::new();
    let mut row: u16 = 0;
    while row < height
        invariant
            row <= height,
            line < usize::MAX,
            numbers@.len() == row,
            forall|r: int|
                0 <= r < row ==> #[trigger] numbers@[r] == line_number(
                    r,
                    cursor as int,
                    line as int,
                ),
        decreases height - row,
    {
        let number: usize = if row == cursor {
            line + 1
        } else if row < cursor {
            (cursor - row) as usize
        } else {
            (row - cursor) as usize
        };
        numbers.push(LineNumber { row, number, active: row == cursor });
        row += 1;
    }
    numbers
}

/// What a key has led to: what is to be drawn again, and the text to put on
/// the clipboard, if the key yanked some.
pub struct Handled {
    pub render: RenderAction,
    pub yanked: Option<String>,
}

/// Where the cursor is to be shown, and with it the gutter.
pub struct CursorUpdate {
    pub shape: CursorShape,
    pub pos: TermPos,
    pub numbers: Vec<LineNumber>,
}

pub struct Window {
    /// The buffer displayed by the window
    pub buf: Buffer,
    /// The space the window gets to render
    pub rect: Rect,
    /// Configuration for this window
    pub config: Config,
    pub hl: Highlighter,
}

impl Window {
    /// The buffer's stacks can be played back, and the highlight cache is
    /// not stale.
    pub open spec fn inv(&self) -> bool {
        &&& self.buf.inv()
        &&& self.hl.fresh_for(self.buf@.text)
    }

    /// A window on the file at `path` that holds `contents`, on a terminal of
    /// `width` columns and `height` rows. The gutter takes the first columns,
    /// the viewport the rest. The buffer is new, the configuration is the one
    /// given, and the highlighter has the configuration's categories and
    /// styles and the grammar of the language that the path tells, if that
    /// loads.
    pub fn new(path: String, contents: &str, config: Config, width: u16, height: u16) -> (res:
        Option<Self>)
        ensures
            res is Some <==> width >= digits(line_count(contents@)) + 1,
            res matches Some(w) ==> {
                &&& w.inv()
                &&& w.buf@ == (BufferView {
                    text: contents@,
                    cursor: 0,
                    saved_col: 0,
                    mode: EditMode::Normal,
                    edited: false,
                    path: path@,
                    undo: Seq::empty(),
                    redo: Seq::empty(),
                })
                &&& w.config == config
                &&& w.rect.offset == (TermPos {
                    x: TermCol((digits(line_count(contents@)) + 1) as u16),
                    y: TermRow(0),
                })
                &&& w.rect.width.0 == width - (digits(line_count(contents@)) + 1)
                &&& w.rect.height.0 == height
                &&& w.rect.scroll == (BufPos { x: BufCol(0), y: BufRow(0) })
                &&& w.hl.events() is None
                &&& w.hl.styles().names() == config.hl.names()
                &&& w.hl.styles().looks() == config.hl.looks()
                &&& w.hl.has_grammar() == match detected(path@) {
                    Some(l) => grammar_loads(l),
                    None => false,
                }
            },
    {
        let lang = detect(path.as_str());
        let styles = crate::config::HighlightStyles::new(
            clone_names(&config.hl.types),
            clone_styles(&config.hl.styles),
        );
        assert(styles.names() =~= config.hl.names());
        assert(styles.looks() =~= config.hl.looks());
        let hl = Highlighter::new(lang, styles);
        let buf = Buffer::new(path, contents);
        let gutter = gutter_width(buf.len_lines());
        if width < gutter {
            return None;
        }
        Some(
            Window {
                buf,
                rect: Rect::new(TermCol(width - gutter), TermRow(height), TermCol(gutter), TermRow(0)),
                config,
                hl,
            },
        )
    }

    /// Takes the new size of the terminal: the viewport gets what the gutter
    /// leaves. Nothing changes where the terminal is narrower than the gutter.
    pub fn update_size(&mut self, width: u16, height: u16) -> (ok: bool)
        ensures
            ok == (width >= old(self).rect.offset.x.0),
            ok ==> final(self).rect.width.0 == width - old(self).rect.offset.x.0,
            ok ==> final(self).rect.height.0 == height,
            !ok ==> final(self).rect.width == old(self).rect.width,
            !ok ==> final(self).rect.height == old(self).rect.height,
            final(self).rect.offset == old(self).rect.offset,
            final(self).rect.scroll == old(self).rect.scroll,
            final(self).buf == old(self).buf,
            final(self).hl == old(self).hl,
    {
        if width < self.rect.offset.x.0 {
            return false;
        }
        self.rect.resize(TermCol(width - self.rect.offset.x.0), TermRow(height));
        true
    }

    /// Carries out what a key stands for in the buffer's mode. The highlight
    /// cache is emptied when the key can have changed the text. A key without
    /// a command, or with one that does not fit the text, does nothing, and an
    /// error of the action is passed over.
    pub fn handle_keyevent(&mut self, key: Key) -> (handled: Option<Handled>)
        requires
            old(self).inv(),
        ensures
            final(self).inv(),
            final(self).rect == old(self).rect,
            final(self).config == old(self).config,
            final(self).hl.styles() == old(self).hl.styles(),
            final(self).hl.has_grammar() == old(self).hl.has_grammar(),
            final(self).hl.grammar() == old(self).hl.grammar(),
            ({
                let binding = match old(self).buf@.mode {
                    EditMode::Normal => normal_binding(key),
                    EditMode::Insert => insert_binding(key),
                    EditMode::Command => None,
                };
                match binding {
                    Some(action) if action.fits(old(self).buf@.text.len() as int) => {
                        &&& handled matches Some(h)
                        &&& h.render == RenderAction::DrawAll
                        &&& final(self).buf@ == action.record(old(self).buf@).after
                        &&& final(self).hl.events() == (if action is Move || action is SetMode {
                            old(self).hl.events()
                        } else {
                            None
                        })
                        &&& match action.record(old(self).buf@).result {
                            Ok(Some(text)) => h.yanked matches Some(s) && s@ == text,
                            _ => h.yanked is None,
                        }
                    },
                    _ => {
                        &&& handled is None
                        &&& final(self).buf@ == old(self).buf@
                        &&& final(self).hl == old(self).hl
                    },
                }
            }),
    {
        let parsed = match self.buf.mode {
            EditMode::Normal => InputHandler::parse_normal(key),
            EditMode::Insert => InputHandler::parse_insert(key),
            EditMode::Command => None,
        };
        match parsed {
            Some(command) => {
                if !command.buffer_action.fits(&self.buf) {
                    return None;
                }
                let ghost action = command.buffer_action@;
                let ghost before = self.buf@;
                let keeps_text = match &command.buffer_action {
                    BufferAction::Move(_) => true,
                    BufferAction::SetMode(_) => true,
                    _ => false,
                };
                proof {
                    if keeps_text {
                        lemma_direct_wf(action, before);
                    }
                }
                let res = self.buf.apply(command.buffer_action);
                if !keeps_text {
                    self.hl.invalidate();
                }
                let yanked = match res {
                    Ok(text) => text,
                    Err(_) => None,
                };
                Some(Handled { render: command.render_action, yanked })
            },
            None => None,
        }
    }

    /// Scrolls the viewport to the cursor and tells where the cursor and the
    /// gutter are to be shown, or nothing where the terminal cannot show the
    /// cursor. The gutter is as wide as the line numbers ask for now.
    pub fn update_cursor(&mut self) -> (update: Option<CursorUpdate>)
        requires
            old(self).buf.wf(),
        ensures
            final(self).buf == old(self).buf,
            final(self).hl == old(self).hl,
            final(self).config == old(self).config,
            final(self).rect == old(self).rect_at_cursor(),
            update is Some <==> old(self).shows_cursor(),
            update matches Some(u) ==> {
                &&& u.shape == (if old(self).buf@.mode == EditMode::Insert {
                    CursorShape::Line
                } else {
                    CursorShape::Block
                })
                &&& u.pos == old(self).cursor_place()
                &&& u.numbers@.len() == old(self).rect.height.0
                &&& forall|r: int|
                    0 <= r < old(self).rect.height.0 ==> #[trigger] u.numbers@[r] == line_number(
                        r,
                        old(self).cursor_place().y.0 as int,
                        old(self).buf@.row() as int,
                    )
            },
    {
        let cursor = self.buf.cursor();
        if cursor.x.0 > usize::MAX - MARGIN_RIGHT || cursor.y.0 > usize::MAX - MARGIN_BOTTOM {
            return None;
        }
        self.rect.scroll_to_cursor(cursor);
        self.rect.offset.x = TermCol(gutter_width(self.buf.len_lines()));
        if !self.rect.can_place(cursor) {
            return None;
        }
        let pos = self.rect.terminal_pos(cursor);
        let numbers = line_numbers(self.rect.height.0, pos.y.0, cursor.y.0);
        Some(CursorUpdate { shape: cursor_shape(self.buf.mode), pos, numbers })
    }

    /// The position of the cursor in the buffer, as column and row.
    pub open spec fn cursor_pos(&self) -> BufPos {
        BufPos { x: BufCol(self.buf@.col() as usize), y: BufRow(self.buf@.row() as usize) }
    }

    /// Whether the margins after the cursor can still be counted in a machine
    /// word. Only a cursor within a few cells of the greatest column or row
    /// that a word holds fails this.
    pub open spec fn margins_fit(&self) -> bool {
        &&& self.buf@.col() + MARGIN_RIGHT <= usize::MAX
        &&& self.buf@.row() + MARGIN_BOTTOM <= usize::MAX
    }

    /// The viewport that `update_cursor` leaves: scrolled along both axes to
    /// the cursor, and set off to the right by the gutter of the text as it
    /// is now. Its size and its row on the terminal stay. Where the margins
    /// cannot be counted the viewport stays as it is.
    pub open spec fn rect_at_cursor(&self) -> Rect {
        if self.margins_fit() {
            Rect {
                width: self.rect.width,
                height: self.rect.height,
                offset: TermPos {
                    x: TermCol((digits(line_count(self.buf@.text)) + 1) as u16),
                    y: self.rect.offset.y,
                },
                scroll: BufPos {
                    x: BufCol(
                        scrolled(
                            self.rect.scroll.x.0 as int,
                            self.buf@.col(),
                            MARGIN_LEFT as int,
                            MARGIN_RIGHT as int,
                            self.rect.width.0 as int,
                        ) as usize,
                    ),
                    y: BufRow(
                        scrolled(
                            self.rect.scroll.y.0 as int,
                            self.buf@.row() as int,
                            MARGIN_TOP as int,
                            MARGIN_BOTTOM as int,
                            self.rect.height.0 as int,
                        ) as usize,
                    ),
                },
            }
        } else {
            self.rect
        }
    }

    /// Whether `update_cursor` can show the cursor: the margins can be
    /// counted, and the scrolled viewport can place the cursor on the
    /// terminal.
    pub open spec fn shows_cursor(&self) -> bool {
        self.margins_fit() && self.rect_at_cursor().places(self.cursor_pos())
    }

    /// Where on the terminal the scrolled viewport shows the cursor.
    pub open spec fn cursor_place(&self) -> TermPos {
        let rect = self.rect_at_cursor();
        let pos = self.cursor_pos();
        TermPos {
            x: TermCol(((pos.x.0 - rect.scroll.x.0) % 0x10000 + rect.offset.x.0) as u16),
            y: TermRow(((pos.y.0 - rect.scroll.y.0) % 0x10000 + rect.offset.y.0) as u16),
        }
    }

    /// The rows that `draw` shows from `first_line` on: up to the last row of
    /// the viewport but one, and no further than the text has lines.
    pub open spec fn drawn_rows(&self, first_line: BufRow) -> (int, int) {
        let bottom = self.rect.scroll.y.0 + self.rect.height.0;
        let last = spec_min(
            if bottom >= 1 {
                bottom - 1
            } else {
                0
            },
            line_count(self.buf@.text) as int,
        );
        (spec_min(first_line.0 as int, last), last)
    }

    /// The spans to draw from the line `first_line` down to the end of the
    /// viewport, each with the index of its style. The highlight cache is
    /// filled first if it is empty.
    pub fn draw(&mut self, first_line: BufRow) -> (out: Vec<Span>)
        requires
            old(self).inv(),
        ensures
            final(self).inv(),
            final(self).buf == old(self).buf,
            final(self).rect == old(self).rect,
            final(self).hl.events() == Some(
                match old(self).hl.events() {
                    Some(events) => events,
                    None => old(self).hl.events_of(old(self).buf@.text),
                },
            ),
            final(self).hl.styles() == old(self).hl.styles(),
            final(self).hl.has_grammar() == old(self).hl.has_grammar(),
            final(self).hl.grammar() == old(self).hl.grammar(),
            out@ == spans(
                final(self).hl.events()->0,
                Seq::empty(),
                old(self).buf@.text,
                byte_of_char(
                    old(self).buf@.text,
                    line_start(old(self).buf@.text, old(self).drawn_rows(first_line).0 as nat),
                ),
                byte_of_char(
                    old(self).buf@.text,
                    line_start(old(self).buf@.text, old(self).drawn_rows(first_line).1 as nat),
                ),
            ),
            spans_in_text(out@, old(self).buf@.text.len() as int),
    {
        let lines = self.buf.len_lines();
        let height = self.rect.height.0 as usize;
        let last = if self.rect.scroll.y.0 > usize::MAX - height {
            lines
        } else {
            let bottom = self.rect.scroll.y.0 + height;
            let below = if bottom >= 1 {
                bottom - 1
            } else {
                0
            };
            if below <= lines {
                below
            } else {
                lines
            }
        };
        let first = if first_line.0 <= last {
            first_line.0
        } else {
            last
        };
        if !self.hl.has_hl() {
            self.hl.update_hl(&self.buf);
        }
        assert(first == self.drawn_rows(first_line).0);
        assert(last == self.drawn_rows(first_line).1);
        overlay(self.hl.get_hl(), &self.buf, BufRow(first), BufRow(last))
    }
}

/// A copy of the names of the categories.
fn clone_names(names: &Vec<String>) -> (out: Vec<String>)
    ensures
        out@.len() == names@.len(),
        forall|i: int| 0 <= i < out@.len() ==> (#[trigger] out@[i])@ == names@[i]@,
{
    let mut out: Vec<String> = Vec::new();
    let mut i: usize = 0;
    while i < names.len()
        invariant
            i <= names@.len(),
            out@.len() == i,
            forall|k: int| 0 <= k < i ==> (#[trigger] out@[k])@ == names@[k]@,
        decreases names@.len() - i,
    {
        out.push(names[i].clone());
        i += 1;
    }
    out
}

/// A copy of the styles of the categories.
fn clone_styles(styles: &Vec<crate::config::Style>) -> (out: Vec<crate::config::Style>)
    ensures
        out@.len() == styles@.len(),
        forall|i: int| 0 <= i < out@.len() ==> (#[trigger] out@[i])@ == styles@[i]@,
{
    let mut out: Vec<crate::config::Style> = Vec::new();
    let mut i: usize = 0;
    while i < styles.len()
        invariant
            i <= styles@.len(),
            out@.len() == i,
            forall|k: int| 0 <= k < i ==> (#[trigger] out@[k])@ == styles@[k]@,
        decreases styles@.len() - i,
    {
        out.push(styles[i].copy());
        i += 1;
    }
    out
}

} // verus!
