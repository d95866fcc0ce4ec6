use termcore::constants::{TERMINAL_COLS, TERMINAL_ROWS};
use termcore::terminal::Terminal;

fn cursor(t: &Terminal) -> (usize, usize) {
    (t.cursor().row, t.cursor().col)
}

fn ch(t: &Terminal, row: usize, col: usize) -> u8 {
    t.buffer().get_char_at(row, col)
}

#[test]
fn short_line_is_written_in_place() {
    let mut t = Terminal::new();
    let unhandled = t.set_data(b"hello");
    assert!(unhandled.is_empty());
    for (i, b) in b"hello".iter().enumerate() {
        assert_eq!(ch(&t, 0, i), *b);
    }
    assert_eq!(cursor(&t), (0, 5));
    assert_eq!(ch(&t, 0, 5), 0);
}

#[test]
fn full_row_wraps_to_next_line() {
    let mut t = Terminal::new();
    t.set_data(&[b'a'; 80]);
    for col in 0..TERMINAL_COLS {
        assert_eq!(ch(&t, 0, col), b'a');
    }
    assert_eq!(cursor(&t), (1, 0));
    assert_eq!(ch(&t, 1, 0), 0);
    t.set_data(b"bc");
    assert_eq!(cursor(&t), (1, 2));
    assert_eq!(ch(&t, 1, 0), b'b');
    assert_eq!(ch(&t, 1, 1), b'c');
}

#[test]
fn long_line_keeps_every_byte() {
    let mut t = Terminal::new();
    let data: Vec<u8> = (0..170u32).map(|i| b'A' + (i % 26) as u8).collect();
    t.set_data(&data);
    for (i, b) in data.iter().enumerate() {
        assert_eq!(ch(&t, i / TERMINAL_COLS, i % TERMINAL_COLS), *b);
    }
    assert_eq!(cursor(&t), (2, 10));
}

#[test]
fn erase_display_clears_and_resets_view() {
    let mut t = Terminal::new();
    let mut data = Vec::new();
    for _ in 0..30 {
        data.extend_from_slice(b"line\n");
    }
    t.set_data(&data);
    assert_eq!(t.start_line(), 30 + 1 - TERMINAL_ROWS);
    let unhandled = t.set_data(b"\x1b[2J");
    assert!(unhandled.is_empty());
    assert_eq!(t.start_line(), 0);
    assert_eq!(ch(&t, 0, 0), 0);
    assert_eq!(ch(&t, 29, 3), 0);
    assert_eq!(t.buffer().lines_count(), 25);
    assert_eq!(cursor(&t), (30, 0));
}

#[test]
fn erase_display_variants() {
    for seq in [&b"\x1b[J"[..], b"\x1b[0J", b"\x1b[1J", b"\x1b[2J"] {
        let mut t = Terminal::new();
        t.set_data(b"abc");
        let unhandled = t.set_data(seq);
        assert!(unhandled.is_empty());
        assert_eq!(ch(&t, 0, 0), 0);
    }
    let mut t = Terminal::new();
    t.set_data(b"abc");
    let unhandled = t.set_data(b"\x1b[3J");
    assert_eq!(unhandled, vec![b"[3J".to_vec()]);
    assert_eq!(ch(&t, 0, 0), b'a');
}

#[test]
fn lone_escape_skips_one_byte() {
    let mut t = Terminal::new();
    let unhandled = t.set_data(b"\x1bxy");
    assert_eq!(unhandled, vec![Vec::<u8>::new()]);
    assert_eq!(ch(&t, 0, 0), b'x');
    assert_eq!(ch(&t, 0, 1), b'y');
    assert_eq!(cursor(&t), (0, 2));
}

#[test]
fn escape_in_the_middle_resumes_after_the_sequence() {
    let mut t = Terminal::new();
    t.set_data(b"ab\x1b[Hcd\x1b[5mef");
    assert_eq!(ch(&t, 0, 0), b'c');
    assert_eq!(ch(&t, 0, 1), b'd');
    assert_eq!(ch(&t, 0, 2), b'e');
    assert_eq!(ch(&t, 0, 3), b'f');
    assert_eq!(cursor(&t), (0, 4));
}

#[test]
fn tab_fills_to_next_stop() {
    let mut t = Terminal::new();
    t.set_data(b"abc\t");
    assert_eq!(cursor(&t), (0, 8));
    for col in 3..8 {
        assert_eq!(ch(&t, 0, col), b' ');
    }
    t.set_data(b"\t");
    assert_eq!(cursor(&t), (0, 16));
}

#[test]
fn tab_near_the_edge_wraps() {
    let mut t = Terminal::new();
    t.set_data(&[b'a'; 75]);
    t.set_data(b"\t");
    for col in 75..TERMINAL_COLS {
        assert_eq!(ch(&t, 0, col), b' ');
    }
    assert_eq!(ch(&t, 1, 0), 0);
    assert_eq!(cursor(&t), (1, 0));
    t.set_data(b"\t");
    assert_eq!(cursor(&t), (1, 8));
}

#[test]
fn erase_line_at_last_column_keeps_next_row() {
    let mut t = Terminal::new();
    t.set_data(&[b'a'; 80]);
    t.set_data(b"z");
    t.set_data(b"\x1b[H");
    t.set_data(&[b'a'; 79]);
    assert_eq!(cursor(&t), (0, 79));
    let unhandled = t.set_data(b"\x1b[K");
    assert!(unhandled.is_empty());
    assert_eq!(ch(&t, 0, 79), 0);
    assert_eq!(ch(&t, 0, 78), b'a');
    assert_eq!(ch(&t, 1, 0), b'z');
    assert_eq!(cursor(&t), (0, 79));
}

#[test]
fn lone_escape_before_a_letter() {
    let mut t = Terminal::new();
    t.set_data(b"\x1bXa");
    assert_eq!(ch(&t, 0, 0), b'X');
    assert_eq!(ch(&t, 0, 1), b'a');
    assert_eq!(cursor(&t), (0, 2));
}

#[test]
fn twenty_five_lines_scroll_one_row() {
    let mut t = Terminal::new();
    let mut data = Vec::new();
    for i in 0..25 {
        if i > 0 {
            data.push(b'\n');
        }
        data.extend_from_slice(b"text");
    }
    t.set_data(&data);
    assert_eq!(t.start_line(), 1);
    assert_eq!(t.cursor().row, 24);
    assert_eq!(t.cursor().row - t.start_line(), TERMINAL_ROWS - 1);
}

#[test]
fn clear_twice_is_clear_once() {
    let mut once = Terminal::new();
    once.set_data(b"abc\ndef");
    once.set_data(b"\x1b[2J");
    let mut twice = Terminal::new();
    twice.set_data(b"abc\ndef");
    twice.set_data(b"\x1b[2J\x1b[2J");
    assert_eq!(once.start_line(), 0);
    assert_eq!(twice.start_line(), 0);
    assert_eq!(cursor(&once), cursor(&twice));
    assert_eq!(once.buffer().lines_count(), twice.buffer().lines_count());
    for row in 0..2 {
        for col in 0..TERMINAL_COLS {
            assert_eq!(ch(&once, row, col), 0);
            assert_eq!(ch(&twice, row, col), 0);
        }
    }
}

#[test]
fn backspace_at_line_start_does_nothing() {
    let mut t = Terminal::new();
    t.set_data(b"\x08");
    assert_eq!(cursor(&t), (0, 0));
    t.set_data(b"ab\x08");
    assert_eq!(cursor(&t), (0, 1));
    assert_eq!(ch(&t, 0, 1), b'b');
}

#[test]
fn carriage_return_bell_and_erase_line() {
    let mut t = Terminal::new();
    t.set_data(b"abc\r\x07");
    assert_eq!(cursor(&t), (0, 0));
    t.set_data(b"\x1b[K");
    assert_eq!(ch(&t, 0, 0), 0);
    assert_eq!(ch(&t, 0, 1), b'b');
}

#[test]
fn snapshot_shows_visible_rows_and_cursor() {
    let mut t = Terminal::new();
    t.set_data(b"hi\nthere");
    let s = t.render_snapshot();
    assert_eq!(s.cells.len(), TERMINAL_ROWS * TERMINAL_COLS);
    assert_eq!(s.cells[0], b'h');
    assert_eq!(s.cells[1], b'i');
    assert_eq!(s.cells[TERMINAL_COLS], b't');
    assert_eq!(s.cursor, Some((1, 5)));
}

#[test]
fn snapshot_follows_the_view() {
    let mut t = Terminal::new();
    let mut data = Vec::new();
    for i in 0..30u8 {
        data.push(b'A' + i);
        data.push(b'\n');
    }
    t.set_data(&data);
    let s = t.render_snapshot();
    assert_eq!(t.start_line(), 7);
    assert_eq!(s.cells[0], b'A' + 7);
    assert_eq!(s.cursor, Some((TERMINAL_ROWS - 1, 0)));
    t.set_data(b"\x1b[2J");
    assert_eq!(t.render_snapshot().cursor, None);
    t.set_data(b"\x1b[H");
    assert_eq!(t.render_snapshot().cursor, Some((0, 0)));
}
