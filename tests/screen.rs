use termcore::screen::ScreenBuffer;

#[test]
fn new_buffer_reads_empty() {
    let b = ScreenBuffer::new(80, 24);
    assert_eq!(b.get_char_at(0, 0), 0);
    assert_eq!(b.get_char_at(23, 79), 0);
    assert_eq!(b.lines_count(), 25);
}

#[test]
fn set_then_get() {
    let mut b = ScreenBuffer::new(80, 24);
    b.set_char_at(b'x', 3, 7);
    assert_eq!(b.get_char_at(3, 7), b'x');
    assert_eq!(b.get_char_at(3, 6), 0);
    assert_eq!(b.lines_count(), 25);
}

#[test]
fn write_past_end_grows_by_whole_pages() {
    let mut b = ScreenBuffer::new(80, 24);
    b.set_char_at(b'y', 24, 0);
    assert_eq!(b.get_char_at(24, 0), b'y');
    assert_eq!(b.lines_count(), 49);
    b.set_char_at(b'z', 200, 5);
    assert_eq!(b.get_char_at(200, 5), b'z');
    assert_eq!(b.get_char_at(24, 0), b'y');
    assert_eq!(b.lines_count(), 217);
}

#[test]
fn read_beyond_extent_is_zero_and_does_not_grow() {
    let b = ScreenBuffer::new(80, 24);
    assert_eq!(b.get_char_at(1000, 3), 0);
    assert_eq!(b.get_char_at(usize::MAX, usize::MAX), 0);
    assert_eq!(b.lines_count(), 25);
}

#[test]
fn clear_empties_and_shrinks_to_one_page() {
    let mut b = ScreenBuffer::new(80, 24);
    b.set_char_at(b'q', 30, 1);
    b.clear();
    assert_eq!(b.get_char_at(30, 1), 0);
    assert_eq!(b.lines_count(), 25);
    b.clear();
    assert_eq!(b.get_char_at(30, 1), 0);
    assert_eq!(b.lines_count(), 25);
}
