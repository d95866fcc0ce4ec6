use termcore::characters::{EscapeCode, InputChar, KeyCode, Modifiers};

const NONE: Modifiers = Modifiers { shift: false, ctrl: false };
const SHIFT: Modifiers = Modifiers { shift: true, ctrl: false };
const CTRL: Modifiers = Modifiers { shift: false, ctrl: true };

#[test]
fn parse_erase_display() {
    let (rest, params, inter, fin) = EscapeCode::parse_csi(b"[2J");
    assert_eq!(rest, b"");
    assert_eq!(params, b"2".to_vec());
    assert_eq!(inter, Vec::<u8>::new());
    assert_eq!(fin, b'J');
}

#[test]
fn parse_not_a_control_sequence() {
    let (rest, params, inter, fin) = EscapeCode::parse_csi(b"x[2J");
    assert_eq!(rest, b"x[2J");
    assert!(params.is_empty());
    assert!(inter.is_empty());
    assert_eq!(fin, 0);
    let (rest, _, _, fin) = EscapeCode::parse_csi(b"");
    assert_eq!(rest, b"");
    assert_eq!(fin, 0);
}

#[test]
fn parse_parameters_intermediates_and_rest() {
    let (rest, params, inter, fin) = EscapeCode::parse_csi(b"[12;3 !qabc");
    assert_eq!(params, b"12;3".to_vec());
    assert_eq!(inter, b" !".to_vec());
    assert_eq!(fin, b'q');
    assert_eq!(rest, b"abc");
}

#[test]
fn parse_without_final_byte() {
    let (rest, params, inter, fin) = EscapeCode::parse_csi(b"[2\n");
    assert_eq!(params, b"2".to_vec());
    assert!(inter.is_empty());
    assert_eq!(fin, 0);
    assert_eq!(rest, b"\n");
}

#[test]
fn digits_and_shifted_symbols() {
    assert_eq!(InputChar::from(KeyCode::Key0, NONE), Some('0'));
    assert_eq!(InputChar::from(KeyCode::Key7, NONE), Some('7'));
    assert_eq!(InputChar::from(KeyCode::Key0, SHIFT), Some(')'));
    assert_eq!(InputChar::from(KeyCode::Key2, SHIFT), Some('@'));
    assert_eq!(InputChar::from(KeyCode::Numpad5, NONE), Some('5'));
    assert_eq!(InputChar::from(KeyCode::Numpad5, SHIFT), Some('5'));
}

#[test]
fn letters() {
    assert_eq!(InputChar::from(KeyCode::A, NONE), Some('a'));
    assert_eq!(InputChar::from(KeyCode::Z, NONE), Some('z'));
    assert_eq!(InputChar::from(KeyCode::Q, SHIFT), Some('Q'));
    let both = Modifiers { shift: true, ctrl: true };
    assert_eq!(InputChar::from(KeyCode::C, both), Some('C'));
}

#[test]
fn control_letters_keep_their_table() {
    assert_eq!(InputChar::from(KeyCode::A, CTRL), Some('\x01'));
    assert_eq!(InputChar::from(KeyCode::C, CTRL), Some('\x03'));
    assert_eq!(InputChar::from(KeyCode::I, CTRL), Some('\x09'));
    assert_eq!(InputChar::from(KeyCode::J, CTRL), Some('\x10'));
    assert_eq!(InputChar::from(KeyCode::S, CTRL), Some('\x19'));
    assert_eq!(InputChar::from(KeyCode::T, CTRL), Some('\x1a'));
    assert_eq!(InputChar::from(KeyCode::U, CTRL), Some('\x21'));
    assert_eq!(InputChar::from(KeyCode::Z, CTRL), Some('\x26'));
}

#[test]
fn punctuation_and_whitespace() {
    assert_eq!(InputChar::from(KeyCode::Minus, NONE), Some('-'));
    assert_eq!(InputChar::from(KeyCode::Minus, SHIFT), Some('_'));
    assert_eq!(InputChar::from(KeyCode::Equals, SHIFT), Some('+'));
    assert_eq!(InputChar::from(KeyCode::Slash, SHIFT), Some('?'));
    assert_eq!(InputChar::from(KeyCode::Backslash, NONE), Some('\\'));
    assert_eq!(InputChar::from(KeyCode::Apostrophe, SHIFT), Some('"'));
    assert_eq!(InputChar::from(KeyCode::LBracket, SHIFT), Some('{'));
    assert_eq!(InputChar::from(KeyCode::Plus, SHIFT), Some('+'));
    assert_eq!(InputChar::from(KeyCode::Tab, NONE), Some('\t'));
    assert_eq!(InputChar::from(KeyCode::Back, NONE), Some('\x08'));
    assert_eq!(InputChar::from(KeyCode::Space, SHIFT), Some(' '));
    assert_eq!(InputChar::from(KeyCode::Return, NONE), Some('\n'));
    assert_eq!(InputChar::from(KeyCode::Other, NONE), None);
    assert_eq!(InputChar::from(KeyCode::Other, CTRL), None);
}
