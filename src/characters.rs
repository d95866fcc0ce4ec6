use vstd::prelude::*;

verus! {

pub const NEWLINE_CHAR: u8 = 10;

pub const SPACE_CHAR: u8 = 32;

pub const TAB_CHAR: u8 = 9;

pub const BACK_CHAR: u8 = 8;

pub const ESC_CHAR: u8 = 27;

pub const CR_CHAR: u8 = 13;

pub const BELL_CHAR: u8 = 7;

/// The byte that follows ESC to open a control sequence.
pub const CSI_LEAD: u8 = 0x5B;

/// Length of the longest prefix of `s` whose bytes all lie in `lo..=hi`.
pub open spec fn run_len(s: Seq<u8>, lo: u8, hi: u8) -> nat
    decreases s.len(),
{
    if s.len() > 0 && lo <= s[0] <= hi {
        1 + run_len(s.drop_first(), lo, hi)
    } else {
        0
    }
}

/// A byte that can end a control sequence.
pub open spec fn is_final_byte(b: u8) -> bool {
    0x40 <= b <= 0x7E
}

/// A control sequence split into what is left after it, its parameter
/// bytes (`0x30..=0x3F`), its intermediate bytes (`0x20..=0x2F`) and its
/// final byte. `s` is what follows an
/// ESC byte; unless it opens with `[`, nothing is taken from it and the
/// final byte is `0`. A final byte is taken only where one stands after the
/// intermediates; otherwise the final byte is `0` and the bytes after the
/// intermediates are left.
pub open spec fn csi(s: Seq<u8>) -> (Seq<u8>, Seq<u8>, Seq<u8>, u8) {
    if s.len() > 0 && s[0] == CSI_LEAD {
        let a = s.drop_first();
        let p = run_len(a, 0x30, 0x3F);
        let b = a.skip(p as int);
        let q = run_len(b, 0x20, 0x2F);
        let c = b.skip(q as int);
        if c.len() > 0 && is_final_byte(c[0]) {
            (c.drop_first(), a.take(p as int), b.take(q as int), c[0])
        } else {
            (c, a.take(p as int), b.take(q as int), 0)
        }
    } else {
        (s, Seq::empty(), Seq::empty(), 0)
    }
}

/// How many bytes `csi` takes from `s`.
pub open spec fn csi_len(s: Seq<u8>) -> nat {
    (s.len() - csi(s).0.len()) as nat
}

proof fn lemma_run_len(s: Seq<u8>, lo: u8, hi: u8, k: nat)
    requires
        k <= s.len(),
        forall|j: int| 0 <= j < k ==> lo <= #[trigger] s[j] <= hi,
        k == s.len() || !(lo <= s[k as int] <= hi),
    ensures
        run_len(s, lo, hi) == k,
    decreases k,
{
    if k > 0 {
        assert(lo <= s[0] <= hi);
        lemma_run_len(s.drop_first(), lo, hi, (k - 1) as nat);
    }
}

proof fn lemma_run_len_bound(s: Seq<u8>, lo: u8, hi: u8)
    ensures
        run_len(s, lo, hi) <= s.len(),
    decreases s.len(),
{
    if s.len() > 0 {
        lemma_run_len_bound(s.drop_first(), lo, hi);
    }
}

/// A control sequence is taken from the front of what follows the ESC, and
/// nothing is taken unless that opens with `[`.
pub proof fn lemma_csi_len(s: Seq<u8>)
    ensures
        csi_len(s) <= s.len(),
        csi(s).0 == s.skip(csi_len(s) as int),
        !(s.len() > 0 && s[0] == CSI_LEAD) ==> csi_len(s) == 0,
{
    if s.len() > 0 && s[0] == CSI_LEAD {
        let a = s.drop_first();
        let p = run_len(a, 0x30, 0x3F);
        lemma_run_len_bound(a, 0x30, 0x3F);
        let b = a.skip(p as int);
        let q = run_len(b, 0x20, 0x2F);
        lemma_run_len_bound(b, 0x20, 0x2F);
        let c = b.skip(q as int);
        assert(c =~= s.skip(1 + p + q as int));
        if c.len() > 0 && is_final_byte(c[0]) {
            assert(csi(s).0 =~= s.skip(csi_len(s) as int));
        } else {
            assert(csi(s).0 =~= s.skip(csi_len(s) as int));
        }
    } else {
        assert(s.skip(0) =~= s);
    }
}

/// Splits off the longest prefix of `input` whose bytes all lie in `lo..=hi`.
fn split_run(input: &[u8], lo: u8, hi: u8) -> (r: (&[u8], Vec<u8>))
    ensures
        run_len(input@, lo, hi) <= input@.len(),
        r.1@ == input@.take(run_len(input@, lo, hi) as int),
        r.0@ == input@.skip(run_len(input@, lo, hi) as int),
{
    let mut found: Vec<u8> = Vec::new();
    let mut k: usize = 0;
    while k < input.len() && lo <= input[k] && input[k] <= hi
        invariant
            k <= input@.len(),
            forall|j: int| 0 <= j < k ==> lo <= #[trigger] input@[j] <= hi,
            found@ == input@.take(k as int),
        decreases input@.len() - k,
    {
        found.push(input[k]);
        k += 1;
        assert(found@ =~= input@.take(k as int));
    }
    proof {
        lemma_run_len(input@, lo, hi, k as nat);
    }
    let remain = &input[k..input.len()];
    assert(remain@ =~= input@.skip(k as int));
    (remain, found)
}

/// Parses control sequences that follow an ESC byte.
pub struct EscapeCode {}

impl EscapeCode {
    fn parse_param(input: &[u8]) -> (r: (&[u8], Vec<u8>))
        ensures
            run_len(input@, 0x30, 0x3F) <= input@.len(),
            r.1@ == input@.take(run_len(input@, 0x30, 0x3F) as int),
            r.0@ == input@.skip(run_len(input@, 0x30, 0x3F) as int),
    {
        split_run(input, 0x30, 0x3F)
    }

    fn parse_intermediates(input: &[u8]) -> (r: (&[u8], Vec<u8>))
        ensures
            run_len(input@, 0x20, 0x2F) <= input@.len(),
            r.1@ == input@.take(run_len(input@, 0x20, 0x2F) as int),
            r.0@ == input@.skip(run_len(input@, 0x20, 0x2F) as int),
    {
        split_run(input, 0x20, 0x2F)
    }

    fn parse_final(input: &[u8]) -> (r: (&[u8], u8))
        ensures
            input@.len() > 0 && is_final_byte(input@[0]) ==> r.0@ == input@.drop_first() && r.1
                == input@[0],
            !(input@.len() > 0 && is_final_byte(input@[0])) ==> r.0@ == input@ && r.1 == 0,
    {
        if input.len() > 0 && 0x40 <= input[0] && input[0] <= 0x7E {
            let remain = &input[1..input.len()];
            assert(remain@ =~= input@.drop_first());
            (remain, input[0])
        } else {
            (input, 0)
        }
    }

    /// Splits the control sequence at the start of `buf` (the bytes after an
    /// ESC) into the bytes left after it, its parameters, its intermediates
    /// and its final byte.
    pub fn parse_csi(buf: &[u8]) -> (r: (&[u8], Vec<u8>, Vec<u8>, u8))
        ensures
            (r.0@, r.1@, r.2@, r.3) == csi(buf@),
            !(buf@.len() > 0 && buf@[0] == CSI_LEAD) ==> r.0@ == buf@ && r.1@.len() == 0
                && r.2@.len() == 0 && r.3 == 0,
            r.0@ == buf@.skip(csi_len(buf@) as int),
    {
        if buf.len() > 0 && buf[0] == CSI_LEAD {
            let rest = &buf[1..buf.len()];
            assert(rest@ =~= buf@.drop_first());
            let (remain, param) = Self::parse_param(rest);
            let (remain, intermediates) = Self::parse_intermediates(remain);
            let (remain, final_byte) = Self::parse_final(remain);
            proof {
                let a = buf@.drop_first();
                let p = run_len(a, 0x30, 0x3F);
                let b = a.skip(p as int);
                let q = run_len(b, 0x20, 0x2F);
                let c = b.skip(q as int);
                assert(c =~= buf@.skip(1 + p + q as int));
                if c.len() > 0 && is_final_byte(c[0]) {
                    assert(buf@.skip(csi_len(buf@) as int) =~= c.drop_first());
                } else {
                    assert(buf@.skip(csi_len(buf@) as int) =~= c);
                }
            }
            (remain, param, intermediates, final_byte)
        } else {
            assert(buf@.skip(0) =~= buf@);
            (buf, Vec::new(), Vec::new(), 0)
        }
    }
}

/// A key of the keyboard, as far as the encoder tells keys apart. Keys that
/// type nothing (modifiers, function keys, arrows) are `Other`.
#[derive(Clone, Copy, Debug, PartialEq, Eq)]
pub enum KeyCode {
    Key0,
    Key1,
    Key2,
    Key3,
    Key4,
    Key5,
    Key6,
    Key7,
    Key8,
    Key9,
    A,
    B,
    C,
    D,
    E,
    F,
    G,
    H,
    I,
    J,
    K,
    L,
    M,
    N,
    O,
    P,
    Q,
    R,
    S,
    T,
    U,
    V,
    W,
    X,
    Y,
    Z,
    Numpad0,
    Numpad1,
    Numpad2,
    Numpad3,
    Numpad4,
    Numpad5,
    Numpad6,
    Numpad7,
    Numpad8,
    Numpad9,
    Back,
    Return,
    Space,
    Tab,
    Apostrophe,
    Asterisk,
    Backslash,
    Colon,
    Comma,
    Equals,
    Grave,
    LBracket,
    Minus,
    Period,
    Plus,
    RBracket,
    Semicolon,
    Slash,
    Other,
}

/// The modifier keys held down with a key press.
#[derive(Clone, Copy, Debug, PartialEq, Eq)]
pub struct Modifiers {
    pub shift: bool,
    pub ctrl: bool,
}

/// The digit a key of the digit row or of the numeric keypad stands for.
pub open spec fn digit_of(key: KeyCode) -> Option<int> {
    match key {
        KeyCode::Key0 | KeyCode::Numpad0 => Some(0),
        KeyCode::Key1 | KeyCode::Numpad1 => Some(1),
        KeyCode::Key2 | KeyCode::Numpad2 => Some(2),
        KeyCode::Key3 | KeyCode::Numpad3 => Some(3),
        KeyCode::Key4 | KeyCode::Numpad4 => Some(4),
        KeyCode::Key5 | KeyCode::Numpad5 => Some(5),
        KeyCode::Key6 | KeyCode::Numpad6 => Some(6),
        KeyCode::Key7 | KeyCode::Numpad7 => Some(7),
        KeyCode::Key8 | KeyCode::Numpad8 => Some(8),
        KeyCode::Key9 | KeyCode::Numpad9 => Some(9),
        _ => None,
    }
}

/// Whether a key lies on the digit row above the letters.
pub open spec fn on_digit_row(key: KeyCode) -> bool {
    match key {
        KeyCode::Key0 | KeyCode::Key1 | KeyCode::Key2 | KeyCode::Key3 | KeyCode::Key4
        | KeyCode::Key5 | KeyCode::Key6 | KeyCode::Key7 | KeyCode::Key8 | KeyCode::Key9 => true,
        _ => false,
    }
}

/// Position of a letter key in the alphabet, from `0` for `A`.
pub open spec fn letter_index(key: KeyCode) -> Option<int> {
    match key {
        KeyCode::A => Some(0),
        KeyCode::B => Some(1),
        KeyCode::C => Some(2),
        KeyCode::D => Some(3),
        KeyCode::E => Some(4),
        KeyCode::F => Some(5),
        KeyCode::G => Some(6),
        KeyCode::H => Some(7),
        KeyCode::I => Some(8),
        KeyCode::J => Some(9),
        KeyCode::K => Some(10),
        KeyCode::L => Some(11),
        KeyCode::M => Some(12),
        KeyCode::N => Some(13),
        KeyCode::O => Some(14),
        KeyCode::P => Some(15),
        KeyCode::Q => Some(16),
        KeyCode::R => Some(17),
        KeyCode::S => Some(18),
        KeyCode::T => Some(19),
        KeyCode::U => Some(20),
        KeyCode::V => Some(21),
        KeyCode::W => Some(22),
        KeyCode::X => Some(23),
        KeyCode::Y => Some(24),
        KeyCode::Z => Some(25),
        _ => None,
    }
}

/// What shift makes of a digit key on a US keyboard.
pub open spec fn shifted_digit(d: int) -> char {
    seq![')', '!', '@', '#', '$', '%', '^', '&', '*', '('][d]
}

/// The byte that control with the letter at `i` sends. Letters `A` to `I`
/// give their position in the alphabet; from `J` on, the position is written
/// in decimal and read as hexadecimal (`J`, the tenth, gives `0x10`), except
/// `T`, which gives `0x1a`.
pub open spec fn control_code(i: int) -> u8 {
    let p = i + 1;
    if p == 20 {
        0x1a
    } else {
        ((p / 10) * 16 + p % 10) as u8
    }
}

/// The glyphs of a punctuation key: without and with shift.
pub open spec fn punctuation(key: KeyCode) -> Option<(char, char)> {
    match key {
        KeyCode::Apostrophe => Some(('\'', '"')),
        KeyCode::Asterisk => Some(('*', '*')),
        KeyCode::Backslash => Some(('\\', '|')),
        KeyCode::Colon => Some((':', ':')),
        KeyCode::Comma => Some((',', '<')),
        KeyCode::Equals => Some(('=', '+')),
        KeyCode::Grave => Some(('`', '~')),
        KeyCode::LBracket => Some(('[', '{')),
        KeyCode::Minus => Some(('-', '_')),
        KeyCode::Period => Some(('.', '>')),
        KeyCode::Plus => Some(('+', '+')),
        KeyCode::RBracket => Some((']', '}')),
        KeyCode::Semicolon => Some((';', ':')),
        KeyCode::Slash => Some(('/', '?')),
        _ => None,
    }
}

/// The byte of a whitespace or editing key. Return sends a line feed, the
/// byte the shell reads as the end of a line.
pub open spec fn whitespace_char(key: KeyCode) -> Option<char> {
    match key {
        KeyCode::Tab => Some('\t'),
        KeyCode::Back => Some('\x08'),
        KeyCode::Space => Some(' '),
        KeyCode::Return => Some('\n'),
        _ => None,
    }
}

/// What a key press sends to the shell: a digit key its digit, or with shift
/// (digit row only) its symbol; a letter key its upper case letter with
/// shift, else its control code with control, else its lower case letter; a
/// punctuation key its glyph for the shift state; tab, backspace, space and
/// return their byte; any other key nothing.
pub open spec fn key_char(key: KeyCode, m: Modifiers) -> Option<char> {
    match digit_of(key) {
        Some(d) => if m.shift && on_digit_row(key) {
            Some(shifted_digit(d))
        } else {
            Some(((0x30 + d) as u8) as char)
        },
        None => match letter_index(key) {
            Some(i) => if m.shift {
                Some(((0x41 + i) as u8) as char)
            } else if m.ctrl {
                Some(control_code(i) as char)
            } else {
                Some(((0x61 + i) as u8) as char)
            },
            None => match punctuation(key) {
                Some(glyphs) => Some(
                    if m.shift {
                        glyphs.1
                    } else {
                        glyphs.0
                    },
                ),
                None => whitespace_char(key),
            },
        },
    }
}

/// Encodes key presses as the bytes a shell reads.
pub struct InputChar {}

impl InputChar {
    /// The character a key press sends, or `None` for a key that types
    /// nothing.
    pub fn from(key: KeyCode, modifiers: Modifiers) -> (r: Option<char>)
        ensures
            r == key_char(key, modifiers),
    {
        match key {
            KeyCode::Key0 if modifiers.shift => Some(')'),
            KeyCode::Key1 if modifiers.shift => Some('!'),
            KeyCode::Key2 if modifiers.shift => Some('@'),
            KeyCode::Key3 if modifiers.shift => Some('#'),
            KeyCode::Key4 if modifiers.shift => Some('$'),
            KeyCode::Key5 if modifiers.shift => Some('%'),
            KeyCode::Key6 if modifiers.shift => Some('^'),
            KeyCode::Key7 if modifiers.shift => Some('&'),
            KeyCode::Key8 if modifiers.shift => Some('*'),
            KeyCode::Key9 if modifiers.shift => Some('('),

            KeyCode::Key0 | KeyCode::Numpad0 => Some('0'),
            KeyCode::Key1 | KeyCode::Numpad1 => Some('1'),
            KeyCode::Key2 | KeyCode::Numpad2 => Some('2'),
            KeyCode::Key3 | KeyCode::Numpad3 => Some('3'),
            KeyCode::Key4 | KeyCode::Numpad4 => Some('4'),
            KeyCode::Key5 | KeyCode::Numpad5 => Some('5'),
            KeyCode::Key6 | KeyCode::Numpad6 => Some('6'),
            KeyCode::Key7 | KeyCode::Numpad7 => Some('7'),
            KeyCode::Key8 | KeyCode::Numpad8 => Some('8'),
            KeyCode::Key9 | KeyCode::Numpad9 => Some('9'),

            KeyCode::A if modifiers.shift => Some('A'),
            KeyCode::B if modifiers.shift => Some('B'),
            KeyCode::C if modifiers.shift => Some('C'),
            KeyCode::D if modifiers.shift => Some('D'),
            KeyCode::E if modifiers.shift => Some('E'),
            KeyCode::F if modifiers.shift => Some('F'),
            KeyCode::G if modifiers.shift => Some('G'),
            KeyCode::H if modifiers.shift => Some('H'),
            KeyCode::I if modifiers.shift => Some('I'),
            KeyCode::J if modifiers.shift => Some('J'),
            KeyCode::K if modifiers.shift => Some('K'),
            KeyCode::L if modifiers.shift => Some('L'),
            KeyCode::M if modifiers.shift => Some('M'),
            KeyCode::N if modifiers.shift => Some('N'),
            KeyCode::O if modifiers.shift => Some('O'),
            KeyCode::P if modifiers.shift => Some('P'),
            KeyCode::Q if modifiers.shift => Some('Q'),
            KeyCode::R if modifiers.shift => Some('R'),
            KeyCode::S if modifiers.shift => Some('S'),
            KeyCode::T if modifiers.shift => Some('T'),
            KeyCode::U if modifiers.shift => Some('U'),
            KeyCode::V if modifiers.shift => Some('V'),
            KeyCode::W if modifiers.shift => Some('W'),
            KeyCode::X if modifiers.shift => Some('X'),
            KeyCode::Y if modifiers.shift => Some('Y'),
            KeyCode::Z if modifiers.shift => Some('Z'),

            KeyCode::A if modifiers.ctrl => Some('\x01'),
            KeyCode::B if modifiers.ctrl => Some('\x02'),
            KeyCode::C if modifiers.ctrl => Some('\x03'),
            KeyCode::D if modifiers.ctrl => Some('\x04'),
            KeyCode::E if modifiers.ctrl => Some('\x05'),
            KeyCode::F if modifiers.ctrl => Some('\x06'),
            KeyCode::G if modifiers.ctrl => Some('\x07'),
            KeyCode::H if modifiers.ctrl => Some('\x08'),
            KeyCode::I if modifiers.ctrl => Some('\x09'),
            KeyCode::J if modifiers.ctrl => Some('\x10'),
            KeyCode::K if modifiers.ctrl => Some('\x11'),
            KeyCode::L if modifiers.ctrl => Some('\x12'),
            KeyCode::M if modifiers.ctrl => Some('\x13'),
            KeyCode::N if modifiers.ctrl => Some('\x14'),
            KeyCode::O if modifiers.ctrl => Some('\x15'),
            KeyCode::P if modifiers.ctrl => Some('\x16'),
            KeyCode::Q if modifiers.ctrl => Some('\x17'),
            KeyCode::R if modifiers.ctrl => Some('\x18'),
            KeyCode::S if modifiers.ctrl => Some('\x19'),
            KeyCode::T if modifiers.ctrl => Some('\x1a'),
            KeyCode::U if modifiers.ctrl => Some('\x21'),
            KeyCode::V if modifiers.ctrl => Some('\x22'),
            KeyCode::W if modifiers.ctrl => Some('\x23'),
            KeyCode::X if modifiers.ctrl => Some('\x24'),
            KeyCode::Y if modifiers.ctrl => Some('\x25'),
            KeyCode::Z if modifiers.ctrl => Some('\x26'),

            KeyCode::A => Some('a'),
            KeyCode::B => Some('b'),
            KeyCode::C => Some('c'),
            KeyCode::D => Some('d'),
            KeyCode::E => Some('e'),
            KeyCode::F => Some('f'),
            KeyCode::G => Some('g'),
            KeyCode::H => Some('h'),
            KeyCode::I => Some('i'),
            KeyCode::J => Some('j'),
            KeyCode::K => Some('k'),
            KeyCode::L => Some('l'),
            KeyCode::M => Some('m'),
            KeyCode::N => Some('n'),
            KeyCode::O => Some('o'),
            KeyCode::P => Some('p'),
            KeyCode::Q => Some('q'),
            KeyCode::R => Some('r'),
            KeyCode::S => Some('s'),
            KeyCode::T => Some('t'),
            KeyCode::U => Some('u'),
            KeyCode::V => Some('v'),
            KeyCode::W => Some('w'),
            KeyCode::X => Some('x'),
            KeyCode::Y => Some('y'),
            KeyCode::Z => Some('z'),

            KeyCode::Tab => Some('\t'),
            KeyCode::Back => Some('\x08'),
            KeyCode::Space => Some(' '),

            KeyCode::Apostrophe if modifiers.shift => Some('"'),
            KeyCode::Apostrophe => Some('\''),
            KeyCode::Asterisk => Some('*'),
            KeyCode::Backslash if modifiers.shift => Some('|'),
            KeyCode::Backslash => Some('\\'),
            KeyCode::Colon => Some(':'),
            KeyCode::Comma if modifiers.shift => Some('<'),
            KeyCode::Comma => Some(','),
            KeyCode::Equals if modifiers.shift => Some('+'),
            KeyCode::Equals => Some('='),
            KeyCode::Grave if modifiers.shift => Some('~'),
            KeyCode::Grave => Some('`'),
            KeyCode::LBracket if modifiers.shift => Some('{'),
            KeyCode::LBracket => Some('['),
            KeyCode::Minus if modifiers.shift => Some('_'),
            KeyCode::Minus => Some('-'),
            KeyCode::Period if modifiers.shift => Some('>'),
            KeyCode::Period => Some('.'),
            KeyCode::Plus => Some('+'),
            KeyCode::RBracket if modifiers.shift => Some('}'),
            KeyCode::RBracket => Some(']'),
            KeyCode::Semicolon if modifiers.shift => Some(':'),
            KeyCode::Semicolon => Some(';'),
            KeyCode::Slash if modifiers.shift => Some('?'),
            KeyCode::Slash => Some('/'),

            KeyCode::Return => Some('\n'),

            _ => None,
        }
    }
}

} // verus!
