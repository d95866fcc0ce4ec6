use termcore::device::CustomEvent;

#[test]
fn nonempty_read_gives_its_bytes() {
    let buf = [1u8, 2, 3, 4, 5];
    match CustomEvent::from_read(&buf, Some(3)) {
        CustomEvent::StdOut(v) => assert_eq!(v, vec![1, 2, 3]),
        CustomEvent::Terminate => panic!("expected output"),
    }
    assert!(!CustomEvent::from_read(&buf, Some(5)).ends_stream());
}

#[test]
fn end_of_file_or_error_ends_the_stream() {
    let buf = [0u8; 4];
    assert!(CustomEvent::from_read(&buf, Some(0)).ends_stream());
    assert!(CustomEvent::from_read(&buf, None).ends_stream());
}
