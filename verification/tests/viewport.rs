use editor_core::rect::Rect;
use editor_core::utils::{BufCol, BufPos, BufRow, TermCol, TermPos, TermRow};

#[test]
fn scroll_right_keeps_margin() {
    let mut rect = Rect::new(TermCol(20), TermRow(10), TermCol(4), TermRow(0));
    rect.scroll_to_cursor(BufPos::new(BufCol(19), BufRow(0)));
    assert_eq!(rect.scroll.x, BufCol(4));
    assert_eq!(rect.scroll.y, BufRow(0));
}

#[test]
fn no_scroll_inside_margins() {
    let mut rect = Rect::new(TermCol(20), TermRow(10), TermCol(4), TermRow(0));
    rect.scroll = BufPos::new(BufCol(10), BufRow(10));
    rect.scroll_to_cursor(BufPos::new(BufCol(15), BufRow(13)));
    assert_eq!(rect.scroll, BufPos::new(BufCol(10), BufRow(10)));
    rect.scroll_to_cursor(BufPos::new(BufCol(25), BufRow(17)));
    assert_eq!(rect.scroll, BufPos::new(BufCol(10), BufRow(10)));
}

#[test]
fn scroll_in_each_direction() {
    let mut rect = Rect::new(TermCol(20), TermRow(10), TermCol(4), TermRow(0));
    rect.scroll = BufPos::new(BufCol(10), BufRow(10));
    rect.scroll_to_cursor(BufPos::new(BufCol(12), BufRow(11)));
    assert_eq!(rect.scroll, BufPos::new(BufCol(7), BufRow(8)));
    rect.scroll_to_cursor(BufPos::new(BufCol(2), BufRow(1)));
    assert_eq!(rect.scroll, BufPos::new(BufCol(0), BufRow(0)));
    rect.scroll_to_cursor(BufPos::new(BufCol(30), BufRow(30)));
    assert_eq!(rect.scroll, BufPos::new(BufCol(15), BufRow(23)));
}

#[test]
fn edges_and_terminal_positions() {
    let mut rect = Rect::new(TermCol(20), TermRow(10), TermCol(4), TermRow(1));
    rect.scroll = BufPos::new(BufCol(3), BufRow(7));
    assert_eq!(rect.left(), BufCol(3));
    assert_eq!(rect.right(), BufCol(23));
    assert_eq!(rect.top(), BufRow(7));
    assert_eq!(rect.bottom(), BufRow(17));
    assert_eq!(rect.terminal_x(BufCol(5)), TermCol(6));
    assert_eq!(rect.terminal_y(BufRow(9)), TermRow(3));
    let pos = BufPos::new(BufCol(3), BufRow(7));
    assert!(rect.can_place(pos));
    assert_eq!(rect.terminal_pos(pos), TermPos::new(TermCol(4), TermRow(1)));
    assert!(!rect.can_place(BufPos::new(BufCol(2), BufRow(7))));
    rect.resize(TermCol(80), TermRow(24));
    assert_eq!((rect.width, rect.height), (TermCol(80), TermRow(24)));
    assert_eq!(rect.offset, TermPos::new(TermCol(4), TermRow(1)));
}

#[test]
fn coordinates_convert() {
    assert_eq!(BufCol(70000).as_termcol(), TermCol(4464));
    assert_eq!(BufRow(12).as_termrow(), TermRow(12));
    assert_eq!(TermCol(9).as_bufcol(), BufCol(9));
    assert_eq!(TermRow(65535).as_bufrow(), BufRow(65535));
}
