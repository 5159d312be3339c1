use editor_core::action::{BufferAction, Command, RenderAction};
use editor_core::buffer::{Buffer, EditMode};
use editor_core::command::{Delete, Insert, Move, SetMode, Yank};
use editor_core::config::Config;
use editor_core::highlight::HighlightEvent;
use editor_core::input::{InputHandler, Key};
use editor_core::rect::Rect;
use editor_core::render::print_range;
use editor_core::utils::{
    BufCharIdx, BufCol, BufPos, BufRange, BufRow, Movement, Selection, TermCol, TermPos, TermRow,
    MOVEMENT_NOT_IMPLEMENTED, SELECTION_NOT_SUPPORTED,
};
use editor_core::window::{
    cursor_shape, gutter_width, line_numbers, CursorShape, LineNumber, Window,
};

fn text(buf: &Buffer) -> String {
    buf.slice(BufRange::new(BufCharIdx(0), BufCharIdx(buf.len_chars())))
}

fn window(contents: &str) -> Window {
    Window::new(String::from("notes.txt"), contents, Config::default(), 40, 10).unwrap()
}

#[test]
fn gutter_is_one_wider_than_the_digits() {
    assert_eq!(gutter_width(0), 2);
    assert_eq!(gutter_width(9), 2);
    assert_eq!(gutter_width(10), 3);
    assert_eq!(gutter_width(99), 3);
    assert_eq!(gutter_width(100), 4);
    assert_eq!(gutter_width(12345), 6);
    assert_eq!(gutter_width(usize::MAX), usize::MAX.to_string().len() as u16 + 1);
}

#[test]
fn line_numbers_count_from_the_cursor() {
    let numbers = line_numbers(4, 1, 41);
    assert_eq!(
        numbers,
        vec![
            LineNumber { row: 0, number: 1, active: false },
            LineNumber { row: 1, number: 42, active: true },
            LineNumber { row: 2, number: 1, active: false },
            LineNumber { row: 3, number: 2, active: false },
        ]
    );
    assert!(line_numbers(0, 0, 0).is_empty());
}

#[test]
fn cursor_shape_follows_the_mode() {
    assert_eq!(cursor_shape(EditMode::Normal), CursorShape::Block);
    assert_eq!(cursor_shape(EditMode::Insert), CursorShape::Line);
    assert_eq!(cursor_shape(EditMode::Command), CursorShape::Block);
    assert_eq!(EditMode::default(), EditMode::Normal);
}

#[test]
fn new_window_leaves_room_for_the_gutter() {
    let w = window("a\nb\nc\n");
    assert_eq!(w.rect.offset, TermPos::new(TermCol(2), TermRow(0)));
    assert_eq!(w.rect.width, TermCol(38));
    assert_eq!(w.rect.height, TermRow(10));
    assert_eq!(w.rect.scroll, BufPos::new(BufCol(0), BufRow(0)));
    assert!(!w.hl.has_hl());
    assert!(Window::new(String::from("x"), "a", Config::default(), 1, 10).is_none());
    assert!(Window::new(String::from("x"), "a", Config::default(), 2, 10).is_some());
}

#[test]
fn update_size_keeps_the_gutter() {
    let mut w = window("a\n");
    assert!(w.update_size(80, 24));
    assert_eq!((w.rect.width, w.rect.height), (TermCol(78), TermRow(24)));
    assert!(!w.update_size(1, 5));
    assert_eq!((w.rect.width, w.rect.height), (TermCol(78), TermRow(24)));
}

#[test]
fn keys_edit_the_buffer_and_empty_the_cache() {
    let mut w = window("abc\n");
    assert_eq!(w.draw(BufRow(0)).len(), 1);
    assert!(w.hl.has_hl());
    let handled = w.handle_keyevent(Key::Right).unwrap();
    assert_eq!(handled.render, RenderAction::DrawAll);
    assert!(handled.yanked.is_none());
    assert_eq!(w.buf.idx, BufCharIdx(1));
    assert!(w.hl.has_hl());
    assert!(w.handle_keyevent(Key::Char('x')).is_none());
    assert!(w.handle_keyevent(Key::Char('i')).is_some());
    assert_eq!(w.buf.mode, EditMode::Insert);
    assert!(w.hl.has_hl());
    assert!(w.handle_keyevent(Key::Char('x')).is_some());
    assert_eq!(text(&w.buf), "axbc\n");
    assert!(!w.hl.has_hl());
    assert!(w.handle_keyevent(Key::Enter).is_some());
    assert!(w.handle_keyevent(Key::Tab).is_some());
    assert_eq!(text(&w.buf), "ax\n\tbc\n");
    assert!(w.handle_keyevent(Key::Backspace).is_some());
    assert!(w.handle_keyevent(Key::Delete).is_some());
    assert_eq!(text(&w.buf), "ax\nc\n");
    assert!(w.handle_keyevent(Key::Other).is_none());
    assert!(w.handle_keyevent(Key::Esc).is_some());
    assert_eq!(w.buf.mode, EditMode::Normal);
    assert!(w.handle_keyevent(Key::Char('u')).is_some());
    assert_eq!(text(&w.buf), "ax\nbc\n");
    assert!(w.handle_keyevent(Key::Char('U')).is_some());
    assert_eq!(text(&w.buf), "ax\nc\n");
    assert!(w.handle_keyevent(Key::Char('d')).is_some());
    assert_eq!(text(&w.buf), "ax\n");
    assert_eq!(w.draw(BufRow(0)), w.draw(BufRow(0)));
    assert_eq!(w.hl.get_hl(), &[HighlightEvent::Source { start: 0, end: 3 }]);
}

#[test]
fn bindings_of_both_modes() {
    let c = InputHandler::parse_insert(Key::Char('q')).unwrap();
    assert_eq!(c.buffer_action, BufferAction::Insert(String::from("q")));
    assert_eq!(c.render_action, RenderAction::DrawAll);
    let moves = [
        (Key::Up, Movement::Up(1)),
        (Key::Down, Movement::Down(1)),
        (Key::Left, Movement::Left(1)),
        (Key::Right, Movement::Right(1)),
        (Key::Home, Movement::Home),
        (Key::End, Movement::End),
        (Key::PageUp, Movement::Up(25)),
        (Key::PageDown, Movement::Down(25)),
    ];
    for (key, movement) in moves {
        let i = InputHandler::parse_insert(key).unwrap();
        assert_eq!(i.buffer_action, BufferAction::Move(movement));
        let n = InputHandler::parse_normal(key).unwrap();
        assert_eq!(n.buffer_action, BufferAction::Move(movement));
    }
    assert_eq!(
        InputHandler::parse_insert(Key::Esc).unwrap().buffer_action,
        BufferAction::SetMode(EditMode::Normal)
    );
    assert_eq!(
        InputHandler::parse_insert(Key::Backspace).unwrap().buffer_action,
        BufferAction::Delete(Selection::UpTo(Movement::Left(1)))
    );
    assert_eq!(
        InputHandler::parse_normal(Key::Delete).unwrap().buffer_action,
        BufferAction::Delete(Selection::UpTo(Movement::Right(1)))
    );
    assert_eq!(
        InputHandler::parse_normal(Key::Char('d')).unwrap().buffer_action,
        BufferAction::Delete(Selection::Lines(1))
    );
    assert_eq!(
        InputHandler::parse_normal(Key::Char('u')).unwrap().buffer_action,
        BufferAction::Undo
    );
    assert_eq!(
        InputHandler::parse_normal(Key::Char('U')).unwrap().buffer_action,
        BufferAction::Redo
    );
    assert!(InputHandler::parse_normal(Key::Esc).is_none());
    assert!(InputHandler::parse_normal(Key::Enter).is_none());
    assert!(InputHandler::parse_normal(Key::Backspace).is_none());
    assert!(InputHandler::parse_insert(Key::Other).is_none());
    let c = Command::new(BufferAction::Nothing, RenderAction::UpdateCursor);
    assert_eq!(c.buffer_action, BufferAction::Nothing);
    assert_eq!(c.render_action, RenderAction::UpdateCursor);
}

#[test]
fn update_cursor_scrolls_and_places() {
    let mut text = String::new();
    for i in 0..30 {
        text.push_str(&format!("line {}\n", i));
    }
    let mut w = window(&text);
    for _ in 0..20 {
        assert!(w.handle_keyevent(Key::Down).is_some());
    }
    let update = w.update_cursor().unwrap();
    assert_eq!(update.shape, CursorShape::Block);
    assert_eq!(w.rect.scroll.y, BufRow(13));
    assert_eq!(w.rect.offset.x, TermCol(3));
    assert_eq!(update.pos, TermPos::new(TermCol(3), TermRow(7)));
    assert_eq!(update.numbers.len(), 10);
    assert_eq!(update.numbers[7], LineNumber { row: 7, number: 21, active: true });
    assert_eq!(update.numbers[0], LineNumber { row: 0, number: 7, active: false });
    let mut small = Window::new(String::from("x"), "a\nb\nc\nd\n", Config::default(), 40, 2).unwrap();
    assert!(small.update_cursor().is_none());
}

#[test]
fn draw_takes_the_rows_of_the_viewport() {
    let mut w = Window::new(String::from("x"), "a\nb\nc\nd\ne\n", Config::default(), 40, 4).unwrap();
    let spans = w.draw(BufRow(0));
    assert_eq!(spans.len(), 1);
    assert_eq!((spans[0].range.start, spans[0].range.end), (BufCharIdx(0), BufCharIdx(6)));
    assert_eq!(spans[0].style, None);
    let spans = w.draw(BufRow(2));
    assert_eq!((spans[0].range.start, spans[0].range.end), (BufCharIdx(4), BufCharIdx(6)));
    let spans = w.draw(BufRow(9));
    assert_eq!((spans[0].range.start, spans[0].range.end), (BufCharIdx(6), BufCharIdx(6)));
}

#[test]
fn print_range_places_each_line() {
    let buf = Buffer::new(String::from("t"), "abc\ndef\nghi");
    let rect = Rect::new(TermCol(20), TermRow(5), TermCol(3), TermRow(1));
    let pieces = print_range(&rect, &buf, BufRange::new(BufCharIdx(1), BufCharIdx(9))).unwrap();
    assert_eq!(pieces.len(), 3);
    assert_eq!((pieces[0].at, pieces[0].text.as_str()), (TermPos::new(TermCol(4), TermRow(1)), "bc\n"));
    assert_eq!((pieces[1].at, pieces[1].text.as_str()), (TermPos::new(TermCol(3), TermRow(2)), "def\n"));
    assert_eq!((pieces[2].at, pieces[2].text.as_str()), (TermPos::new(TermCol(3), TermRow(3)), "g"));
    let empty = print_range(&rect, &buf, BufRange::new(BufCharIdx(5), BufCharIdx(5))).unwrap();
    assert_eq!(empty.len(), 1);
    assert_eq!((empty[0].at, empty[0].text.as_str()), (TermPos::new(TermCol(4), TermRow(2)), ""));
    let ends = print_range(&rect, &buf, BufRange::new(BufCharIdx(0), BufCharIdx(4))).unwrap();
    assert_eq!(ends.len(), 2);
    assert_eq!(ends[1].text, "");
    let mut scrolled = Rect::new(TermCol(20), TermRow(5), TermCol(3), TermRow(1));
    scrolled.scroll = BufPos::new(BufCol(2), BufRow(0));
    assert!(print_range(&scrolled, &buf, BufRange::new(BufCharIdx(1), BufCharIdx(2))).is_none());
    assert_eq!(buf.char_to_pos(BufCharIdx(6)), BufPos::new(BufCol(2), BufRow(1)));
    assert_eq!(buf.cursor(), BufPos::new(BufCol(0), BufRow(0)));
    assert_eq!(buf.line_to_byte(BufRow(2)).0, 8);
    assert!(buf.is_wf());
}

#[test]
fn action_objects_apply_and_undo() {
    let mut buf = Buffer::new(String::from("t"), "hello\nworld\n");
    let mut mv = Move::new(Movement::End);
    assert_eq!(mv.apply(&mut buf), Ok(()));
    assert_eq!((buf.idx, buf.saved_col), (BufCharIdx(5), BufCol(5)));
    assert_eq!((mv.origin, mv.saved_col), (0, Some(0)));
    let mut down = Move::new(Movement::Down(1));
    assert_eq!(down.apply(&mut buf), Ok(()));
    assert_eq!((buf.idx, buf.saved_col), (BufCharIdx(11), BufCol(5)));
    assert_eq!(down.saved_col, None);
    down.undo(&mut buf);
    mv.undo(&mut buf);
    assert_eq!((buf.idx, buf.saved_col), (BufCharIdx(0), BufCol(0)));
    assert_eq!(Move::new(Movement::PrevWord(1)).apply(&mut buf), Err(MOVEMENT_NOT_IMPLEMENTED));

    let mut del = Delete::new(Selection::Lines(1));
    assert_eq!(del.apply(&mut buf), Ok(()));
    assert_eq!(text(&buf), "world\n");
    assert_eq!((del.left_bound, del.removed.as_str()), (0, "hello\n"));
    del.undo(&mut buf);
    assert_eq!(text(&buf), "hello\nworld\n");
    assert_eq!(buf.idx, BufCharIdx(0));
    let mut word = Delete::new(Selection::Word { inclusive: false });
    assert_eq!(word.apply(&mut buf), Err(SELECTION_NOT_SUPPORTED));
    assert_eq!(text(&buf), "hello\nworld\n");

    let mut ins = Insert::new(String::from("é!"));
    ins.apply(&mut buf);
    assert_eq!(text(&buf), "é!hello\nworld\n");
    assert_eq!((ins.origin, buf.idx), (0, BufCharIdx(0)));
    ins.undo(&mut buf);
    assert_eq!(text(&buf), "hello\nworld\n");

    let mut yank = Yank::new(Selection::UpTo(Movement::End));
    assert_eq!(yank.apply(&buf), Ok(String::from("hello")));
    yank.undo(&mut buf);
    assert_eq!(Yank::new(Selection::Paragraph { inclusive: true }).apply(&buf), Err(SELECTION_NOT_SUPPORTED));

    let mut mode = SetMode::new(EditMode::Insert);
    mode.apply(&mut buf);
    assert_eq!((buf.mode, mode.prev_mode), (EditMode::Insert, EditMode::Normal));
    mode.undo(&mut buf);
    assert_eq!(buf.mode, EditMode::Normal);
}

#[test]
fn new_window_takes_what_it_is_given() {
    let mut config = Config::default();
    config.hl.types.truncate(5);
    config.hl.styles.truncate(5);
    let mut w = Window::new(String::from("src/main.rs/"), "fn f() {}\n", config, 40, 10).unwrap();
    assert_eq!(w.buf.path, "src/main.rs/");
    assert_eq!(w.buf.mode, EditMode::Normal);
    assert_eq!(w.buf.idx, BufCharIdx(0));
    assert!(!w.buf.edited);
    assert_eq!(text(&w.buf), "fn f() {}\n");
    assert_eq!(w.config.hl.types.len(), 5);
    assert_eq!(w.hl.style_count(), 5);
    assert_eq!(w.hl.get_style(4), &w.config.hl.styles[4]);
    let spans = w.draw(BufRow(0));
    assert_eq!((spans[0].range.start, spans[0].range.end), (BufCharIdx(0), BufCharIdx(2)));
    assert_eq!(spans[0].style, Some(4));
    let mut plain = Window::new(String::from("notes"), "fn f() {}\n", Config::default(), 40, 10).unwrap();
    let spans = plain.draw(BufRow(0));
    assert_eq!(spans.len(), 1);
    assert_eq!(spans[0].style, None);
}
