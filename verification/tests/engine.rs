use editor_core::action::{Action, BufferAction, Undoable, NOTHING_TO_REDO, NOTHING_TO_UNDO};
use editor_core::buffer::{Buffer, EditMode};
use editor_core::utils::{
    BufCharIdx, BufCol, BufRange, Movement, Selection, MOVEMENT_NOT_IMPLEMENTED,
    SELECTION_NOT_SUPPORTED,
};

fn buffer(contents: &str) -> Buffer {
    Buffer::new(String::from("test.txt"), contents)
}

fn text(buf: &Buffer) -> String {
    buf.slice(BufRange::new(BufCharIdx(0), BufCharIdx(buf.len_chars())))
}

#[test]
fn insert_then_undo_restores_content_and_cursor() {
    let mut buf = buffer("abc\ndef\n");
    assert_eq!(buf.apply(BufferAction::Insert(String::from("X"))), Ok(None));
    assert_eq!(text(&buf), "Xabc\ndef\n");
    assert_eq!(buf.idx, BufCharIdx(1));
    assert!(buf.edited);
    assert_eq!(buf.apply(BufferAction::Undo), Ok(None));
    assert_eq!(text(&buf), "abc\ndef\n");
    assert_eq!(buf.idx, BufCharIdx(0));
}

#[test]
fn up_keeps_saved_column() {
    let mut buf = buffer("hello\nworld\n");
    assert_eq!(buf.apply(BufferAction::MoveTo(BufCharIdx(6), BufCol(0))), Ok(None));
    assert_eq!(buf.row().0, 1);
    assert_eq!(buf.col().0, 0);
    assert_eq!(Movement::Up(1).dest(&buf), Ok(BufCharIdx(0)));
}

#[test]
fn delete_line_then_undo() {
    let mut buf = buffer("a\nb\nc\n");
    assert_eq!(buf.apply(BufferAction::Delete(Selection::Lines(1))), Ok(None));
    assert_eq!(text(&buf), "b\nc\n");
    assert_eq!(buf.idx, BufCharIdx(0));
    assert_eq!(buf.apply(BufferAction::Undo), Ok(None));
    assert_eq!(text(&buf), "a\nb\nc\n");
}

#[test]
fn three_inserts_two_undos_one_redo() {
    let mut buf = buffer("");
    for s in ["one ", "two ", "three"] {
        assert_eq!(buf.apply(BufferAction::Insert(String::from(s))), Ok(None));
    }
    assert_eq!(text(&buf), "one two three");
    assert_eq!(buf.apply(BufferAction::Undo), Ok(None));
    assert_eq!(buf.apply(BufferAction::Undo), Ok(None));
    assert_eq!(text(&buf), "one ");
    assert_eq!(buf.undo.len(), 1);
    assert_eq!(buf.redo.len(), 2);
    assert_eq!(buf.apply(BufferAction::Redo), Ok(None));
    assert_eq!(text(&buf), "one two ");
    assert_eq!(buf.redo.len(), 1);
    assert_eq!(buf.apply(BufferAction::Redo), Ok(None));
    assert_eq!(text(&buf), "one two three");
    assert!(buf.redo.is_empty());
    assert_eq!(buf.apply(BufferAction::Redo), Err(NOTHING_TO_REDO));
}

#[test]
fn undo_on_empty_stack_fails() {
    let mut buf = buffer("abc");
    assert_eq!(buf.apply(BufferAction::Undo), Err(NOTHING_TO_UNDO));
    assert_eq!(buf.apply(BufferAction::Redo), Err(NOTHING_TO_REDO));
    assert_eq!(text(&buf), "abc");
    assert!(!buf.edited);
}

#[test]
fn new_action_discards_redo_branch() {
    let mut buf = buffer("abc");
    assert_eq!(buf.apply(BufferAction::Insert(String::from("x"))), Ok(None));
    assert_eq!(buf.apply(BufferAction::Undo), Ok(None));
    assert_eq!(buf.redo.len(), 1);
    assert_eq!(buf.apply(BufferAction::Insert(String::from("y"))), Ok(None));
    assert_eq!(buf.apply(BufferAction::Redo), Err(NOTHING_TO_REDO));
    assert_eq!(text(&buf), "yabc");
}

#[test]
fn undo_then_redo_restores_state() {
    let mut buf = buffer("hello world");
    assert_eq!(buf.apply(BufferAction::MoveTo(BufCharIdx(5), BufCol(5))), Ok(None));
    assert_eq!(buf.apply(BufferAction::Insert(String::from(","))), Ok(None));
    let undo_before = buf.undo.clone();
    assert_eq!(buf.apply(BufferAction::Undo), Ok(None));
    assert_eq!(text(&buf), "hello world");
    assert_eq!(buf.apply(BufferAction::Redo), Ok(None));
    assert_eq!(text(&buf), "hello, world");
    assert_eq!(buf.idx, BufCharIdx(6));
    assert_eq!(buf.undo, undo_before);
    assert!(buf.redo.is_empty());
}

#[test]
fn range_is_normalized() {
    let r = BufRange::new(BufCharIdx(7), BufCharIdx(3));
    assert_eq!(r.start, BufCharIdx(3));
    assert_eq!(r.end, BufCharIdx(7));
    let r = BufRange::new(BufCharIdx(3), BufCharIdx(7));
    assert_eq!((r.start, r.end), (BufCharIdx(3), BufCharIdx(7)));
    let r = BufRange::new(BufCharIdx(4), BufCharIdx(4));
    assert_eq!((r.start, r.end), (BufCharIdx(4), BufCharIdx(4)));
}

#[test]
fn right_stops_at_end_of_line() {
    let mut buf = buffer("abc\ndef\n");
    for _ in 0..10 {
        assert_eq!(buf.apply(BufferAction::Move(Movement::Right(1))), Ok(None));
        assert!(buf.col().0 <= buf.max_col(buf.row()).0);
        assert_eq!(buf.row().0, 0);
    }
    assert_eq!(buf.idx, BufCharIdx(3));
    assert_eq!(Movement::Right(usize::MAX).dest(&buf), Ok(BufCharIdx(3)));
}

#[test]
fn left_stops_at_start_of_line() {
    let mut buf = buffer("abc\ndef\n");
    assert_eq!(buf.apply(BufferAction::MoveTo(BufCharIdx(6), BufCol(2))), Ok(None));
    assert_eq!(Movement::Left(1).dest(&buf), Ok(BufCharIdx(5)));
    assert_eq!(Movement::Left(2).dest(&buf), Ok(BufCharIdx(4)));
    assert_eq!(Movement::Left(3).dest(&buf), Ok(BufCharIdx(4)));
    assert_eq!(Movement::Left(usize::MAX).dest(&buf), Ok(BufCharIdx(4)));
}

#[test]
fn max_col_leaves_out_the_line_break() {
    let buf = buffer("abc\nde\r\n\nxyz");
    assert_eq!(buf.len_lines(), 4);
    assert_eq!(buf.max_col(editor_core::utils::BufRow(0)).0, 3);
    assert_eq!(buf.max_col(editor_core::utils::BufRow(1)).0, 2);
    assert_eq!(buf.max_col(editor_core::utils::BufRow(2)).0, 0);
    assert_eq!(buf.max_col(editor_core::utils::BufRow(3)).0, 3);
    let empty = buffer("");
    assert_eq!(empty.len_lines(), 1);
    assert_eq!(empty.max_col(editor_core::utils::BufRow(0)).0, 0);
    let cr = buffer("a\rb\u{2028}c\u{85}");
    assert_eq!(cr.len_lines(), 4);
    assert_eq!(cr.max_col(editor_core::utils::BufRow(0)).0, 1);
    assert_eq!(cr.max_col(editor_core::utils::BufRow(1)).0, 1);
    assert_eq!(cr.max_col(editor_core::utils::BufRow(2)).0, 1);
    assert_eq!(cr.max_col(editor_core::utils::BufRow(3)).0, 0);
}

#[test]
fn movements_compute_their_destination() {
    let mut buf = buffer("  hello\nab\n\nlast line");
    assert_eq!(Movement::FirstChar.dest(&buf), Ok(BufCharIdx(2)));
    assert_eq!(Movement::End.dest(&buf), Ok(BufCharIdx(7)));
    assert_eq!(Movement::Bottom.dest(&buf), Ok(BufCharIdx(21)));
    assert_eq!(buf.apply(BufferAction::Move(Movement::End)), Ok(None));
    assert_eq!(buf.saved_col, BufCol(7));
    assert_eq!(Movement::Down(1).dest(&buf), Ok(BufCharIdx(10)));
    assert_eq!(Movement::Down(2).dest(&buf), Ok(BufCharIdx(11)));
    assert_eq!(Movement::Down(3).dest(&buf), Ok(BufCharIdx(19)));
    assert_eq!(Movement::Down(usize::MAX).dest(&buf), Ok(BufCharIdx(19)));
    assert_eq!(buf.apply(BufferAction::Move(Movement::Down(1))), Ok(None));
    assert_eq!(buf.idx, BufCharIdx(10));
    assert_eq!(buf.saved_col, BufCol(7));
    assert_eq!(Movement::Up(1).dest(&buf), Ok(BufCharIdx(7)));
    assert_eq!(Movement::Up(9).dest(&buf), Ok(BufCharIdx(7)));
    assert_eq!(Movement::Home.dest(&buf), Ok(BufCharIdx(8)));
    assert_eq!(Movement::Top.dest(&buf), Ok(BufCharIdx(0)));
    assert_eq!(Movement::NextWord(1).dest(&buf), Err(MOVEMENT_NOT_IMPLEMENTED));
    assert_eq!(Movement::PrevWord(1).dest(&buf), Err(MOVEMENT_NOT_IMPLEMENTED));
    let blank = buffer("   \nx");
    assert_eq!(Movement::FirstChar.dest(&blank), Ok(BufCharIdx(0)));
}

#[test]
fn selections_compute_their_bounds() {
    let mut buf = buffer("one\ntwo\nthree\n");
    assert_eq!(buf.apply(BufferAction::MoveTo(BufCharIdx(5), BufCol(1))), Ok(None));
    let lines = Selection::Lines(1).bounds(&buf).unwrap();
    assert_eq!((lines.start, lines.end), (BufCharIdx(4), BufCharIdx(8)));
    let all = Selection::Lines(9).bounds(&buf).unwrap();
    assert_eq!((all.start, all.end), (BufCharIdx(4), BufCharIdx(14)));
    let none = Selection::Lines(0).bounds(&buf).unwrap();
    assert_eq!((none.start, none.end), (BufCharIdx(4), BufCharIdx(4)));
    let left = Selection::UpTo(Movement::Left(1)).bounds(&buf).unwrap();
    assert_eq!((left.start, left.end), (BufCharIdx(4), BufCharIdx(5)));
    let end = Selection::UpTo(Movement::End).bounds(&buf).unwrap();
    assert_eq!((end.start, end.end), (BufCharIdx(5), BufCharIdx(7)));
    let given = Selection::Bounds(BufCharIdx(9), BufCharIdx(2)).bounds(&buf).unwrap();
    assert_eq!((given.start, given.end), (BufCharIdx(2), BufCharIdx(9)));
    assert_eq!(Selection::Word { inclusive: true }.bounds(&buf), Err(SELECTION_NOT_SUPPORTED));
    assert_eq!(Selection::Paragraph { inclusive: false }.bounds(&buf), Err(SELECTION_NOT_SUPPORTED));
    assert_eq!(
        Selection::Between { first: '(', last: ')', inclusive: true }.bounds(&buf),
        Err(SELECTION_NOT_SUPPORTED)
    );
    assert_eq!(
        Selection::UpTo(Movement::NextWord(1)).bounds(&buf),
        Err(MOVEMENT_NOT_IMPLEMENTED)
    );
    assert_eq!(Selection::default(), Selection::Lines(0));
}

#[test]
fn unsupported_delete_leaves_buffer_alone() {
    let mut buf = buffer("abc");
    assert_eq!(
        buf.apply(BufferAction::Delete(Selection::Word { inclusive: true })),
        Err(SELECTION_NOT_SUPPORTED)
    );
    assert_eq!(text(&buf), "abc");
    assert!(buf.undo.is_empty());
    assert!(!buf.edited);
    assert_eq!(
        buf.apply(BufferAction::Yank(Selection::Paragraph { inclusive: true })),
        Err(SELECTION_NOT_SUPPORTED)
    );
    assert_eq!(
        buf.apply(BufferAction::Move(Movement::NextWord(2))),
        Err(MOVEMENT_NOT_IMPLEMENTED)
    );
}

#[test]
fn yank_hands_out_the_selection() {
    let mut buf = buffer("one\ntwo\n");
    assert_eq!(
        buf.apply(BufferAction::Yank(Selection::Lines(1))),
        Ok(Some(String::from("one\n")))
    );
    assert_eq!(text(&buf), "one\ntwo\n");
    assert!(buf.undo.is_empty());
    assert!(!buf.edited);
}

#[test]
fn inverse_is_computed_before_the_action() {
    let mut buf = buffer("hello");
    assert_eq!(buf.apply(BufferAction::MoveTo(BufCharIdx(2), BufCol(2))), Ok(None));
    assert_eq!(
        BufferAction::Insert(String::from("ab")).inverse(&buf),
        BufferAction::Delete(Selection::Bounds(BufCharIdx(2), BufCharIdx(4)))
    );
    assert_eq!(
        BufferAction::InsertAt(BufCharIdx(1), String::from("xyz")).inverse(&buf),
        BufferAction::Delete(Selection::Bounds(BufCharIdx(1), BufCharIdx(4)))
    );
    assert_eq!(
        BufferAction::Delete(Selection::UpTo(Movement::End)).inverse(&buf),
        BufferAction::InsertAt(BufCharIdx(2), String::from("llo"))
    );
    assert_eq!(
        BufferAction::Move(Movement::End).inverse(&buf),
        BufferAction::MoveTo(BufCharIdx(2), BufCol(2))
    );
    assert_eq!(
        BufferAction::SetMode(EditMode::Insert).inverse(&buf),
        BufferAction::SetMode(EditMode::Normal)
    );
    assert_eq!(BufferAction::Yank(Selection::Lines(1)).inverse(&buf), BufferAction::Nothing);
    assert_eq!(BufferAction::Undo.inverse(&buf), BufferAction::Nothing);
}

#[test]
fn plain_apply_records_nothing() {
    let mut buf = buffer("abc");
    assert_eq!(BufferAction::Insert(String::from("x")).apply(&mut buf), Ok(None));
    assert_eq!(text(&buf), "xabc");
    assert!(buf.undo.is_empty());
    assert_eq!(BufferAction::SetMode(EditMode::Insert).apply(&mut buf), Ok(None));
    assert_eq!(buf.mode, EditMode::Insert);
    assert_eq!(BufferAction::Nothing.apply(&mut buf), Ok(None));
}

#[test]
fn insert_at_moves_the_cursor_by_the_inserted_length() {
    let mut buf = buffer("abcdef");
    assert_eq!(buf.apply(BufferAction::MoveTo(BufCharIdx(4), BufCol(4))), Ok(None));
    assert_eq!(buf.apply(BufferAction::InsertAt(BufCharIdx(1), String::from("é√"))), Ok(None));
    assert_eq!(text(&buf), "aé√bcdef");
    assert_eq!(buf.idx, BufCharIdx(6));
    assert_eq!(buf.len_bytes(), 11);
    assert_eq!(buf.byte_to_char(editor_core::utils::BufByteIdx(3)), BufCharIdx(2));
    assert_eq!(buf.byte_to_char(editor_core::utils::BufByteIdx(4)), BufCharIdx(2));
    assert_eq!(buf.byte_to_char(editor_core::utils::BufByteIdx(11)), BufCharIdx(8));
}

#[test]
fn fits_tells_offsets_outside_the_text() {
    let buf = buffer("abc");
    assert!(BufferAction::MoveTo(BufCharIdx(3), BufCol(0)).fits(&buf));
    assert!(!BufferAction::MoveTo(BufCharIdx(4), BufCol(0)).fits(&buf));
    assert!(BufferAction::InsertAt(BufCharIdx(3), String::from("x")).fits(&buf));
    assert!(!BufferAction::InsertAt(BufCharIdx(4), String::from("x")).fits(&buf));
    assert!(!BufferAction::Delete(Selection::Bounds(BufCharIdx(0), BufCharIdx(4))).fits(&buf));
    assert!(BufferAction::Delete(Selection::Bounds(BufCharIdx(3), BufCharIdx(0))).fits(&buf));
    assert!(BufferAction::Delete(Selection::Lines(7)).fits(&buf));
    assert!(BufferAction::Undo.fits(&buf));
}

#[test]
fn write_hands_out_the_text_and_clears_the_flag() {
    let mut buf = buffer("abc\n");
    assert_eq!(buf.apply(BufferAction::Insert(String::from("x"))), Ok(None));
    assert!(buf.edited);
    assert_eq!(buf.write(), "xabc\n");
    assert!(!buf.edited);
    assert_eq!(buf.path, "test.txt");
}

#[test]
fn first_char_skips_white_space_only() {
    let white: [u32; 18] = [
        0x09, 0x20, 0xa0, 0x1680, 0x2000, 0x2001, 0x2002, 0x2003, 0x2004, 0x2005, 0x2006, 0x2007,
        0x2008, 0x2009, 0x200a, 0x202f, 0x205f, 0x3000,
    ];
    let breaks: [u32; 7] = [0x0a, 0x0b, 0x0c, 0x0d, 0x85, 0x2028, 0x2029];
    for n in 0..0x3100u32 {
        let c = match char::from_u32(n) {
            Some(c) => c,
            None => continue,
        };
        if breaks.contains(&n) {
            assert!(c.is_whitespace());
            continue;
        }
        assert_eq!(c.is_whitespace(), white.contains(&n), "{:x}", n);
        let buf = buffer(&format!("{}x", c));
        let expected = if white.contains(&n) { 1 } else { 0 };
        assert_eq!(Movement::FirstChar.dest(&buf), Ok(BufCharIdx(expected)), "{:x}", n);
    }
    let buf = buffer("\u{a0}\u{3000}\t x\u{2003}");
    assert_eq!(Movement::FirstChar.dest(&buf), Ok(BufCharIdx(4)));
    let buf = buffer("\u{200b}x");
    assert_eq!(Movement::FirstChar.dest(&buf), Ok(BufCharIdx(0)));
    let buf = buffer("\u{180e}x");
    assert_eq!(Movement::FirstChar.dest(&buf), Ok(BufCharIdx(0)));
}

#[test]
fn plain_apply_of_a_move_follows_an_edit() {
    let mut buf = buffer("ab\ncd");
    assert_eq!(Action::apply(BufferAction::Insert(String::from("x")), &mut buf), Ok(None));
    assert_eq!(Action::apply(BufferAction::Move(Movement::Right(1)), &mut buf), Ok(None));
    assert_eq!(buf.idx, BufCharIdx(2));
    assert_eq!(text(&buf), "xab\ncd");
    assert_eq!(BufferAction::Undo.inverse(&buf), BufferAction::Nothing);
    assert_eq!(BufferAction::Yank(Selection::Lines(1)).inverse(&buf), BufferAction::Nothing);
}
