use termcore::constants::TERMINAL_COLS;
use termcore::cursor::{Cursor, CursorDirection};

fn at(row: usize, col: usize) -> Cursor {
    let mut c = Cursor::new();
    c.row = row;
    c.col = col;
    c
}

#[test]
fn new_cursor_is_top_left() {
    let c = Cursor::new();
    assert_eq!((c.row, c.col), (0, 0));
}

#[test]
fn left_at_column_zero_stays() {
    let mut c = at(4, 0);
    c.move_to(CursorDirection::Left);
    assert_eq!((c.row, c.col), (4, 0));
    let mut d = at(4, 9);
    d.move_to(CursorDirection::Left);
    assert_eq!((d.row, d.col), (4, 8));
}

#[test]
fn up_moves_or_goes_to_line_start() {
    let mut c = at(2, 5);
    c.move_to(CursorDirection::Up);
    assert_eq!((c.row, c.col), (1, 5));
    let mut d = at(0, 5);
    d.move_to(CursorDirection::Up);
    assert_eq!((d.row, d.col), (0, 0));
}

#[test]
fn right_moves_until_width_then_wraps() {
    let mut c = at(0, TERMINAL_COLS - 1);
    c.move_to(CursorDirection::Right);
    assert_eq!((c.row, c.col), (0, TERMINAL_COLS));
    c.move_to(CursorDirection::Right);
    assert_eq!((c.row, c.col), (1, 0));
}

#[test]
fn line_moves() {
    let mut c = at(3, 7);
    c.move_to(CursorDirection::Down);
    assert_eq!((c.row, c.col), (4, 7));
    c.move_to(CursorDirection::NextLine);
    assert_eq!((c.row, c.col), (5, 0));
    c.move_to(CursorDirection::EOL);
    assert_eq!((c.row, c.col), (5, TERMINAL_COLS));
    c.move_to(CursorDirection::BOL);
    assert_eq!((c.row, c.col), (5, 0));
    c.move_to(CursorDirection::BOF);
    assert_eq!((c.row, c.col), (0, 0));
}

#[test]
fn down_saturates_at_the_largest_row() {
    let mut c = at(usize::MAX, 3);
    c.move_to(CursorDirection::Down);
    assert_eq!((c.row, c.col), (usize::MAX, 3));
}
