use bytecode_parser::paragraph::{ParagraphState, ScrollPos};

#[test]
fn vertical_scroll_stops_at_last_screen() {
    let mut s = ParagraphState { scroll: ScrollPos { x: 3, y: 0 }, lines: 50, height: 12 };
    s.set_scroll_vertical(10);
    assert_eq!(s.scroll().y, 10);
    s.set_scroll_vertical(45);
    assert_eq!(s.scroll().y, 40);
    assert_eq!(s.scroll().x, 3);
}

#[test]
fn vertical_scroll_with_small_view_or_text() {
    let mut s = ParagraphState::default();
    s.set_scroll_vertical(5);
    assert_eq!(s.scroll().y, 0);
    let mut s = ParagraphState { scroll: ScrollPos { x: 0, y: 0 }, lines: 7, height: 1 };
    s.set_scroll_vertical(9);
    assert_eq!(s.scroll().y, 7);
}

#[test]
fn set_scroll_moves_anywhere() {
    let mut s = ParagraphState::default();
    s.set_scroll(ScrollPos { x: 4, y: 99 });
    assert_eq!(s.scroll(), ScrollPos { x: 4, y: 99 });
}
