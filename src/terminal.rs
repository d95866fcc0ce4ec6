use vstd::prelude::*;

use crate::characters::{
    csi,
    csi_len,
    EscapeCode,
    BACK_CHAR,
    BELL_CHAR,
    CR_CHAR,
    ESC_CHAR,
    NEWLINE_CHAR,
    SPACE_CHAR,
    TAB_CHAR,
};
use crate::constants::{TERMINAL_COLS, TERMINAL_ROWS};
use crate::cursor::{moved, Cursor, CursorDirection};
use crate::screen::{cell_at, empty_cells, write_cell, ScreenBuffer};
use vstd::slice::slice_to_vec;

verus! {

/// Tab stops stand at every multiple of this column.
pub const TAB_STOP: usize = 8;

/// Final byte of erase-display (`J`).
pub const ERASE_DISPLAY: u8 = 0x4A;

/// Final byte of erase-line (`K`).
pub const ERASE_LINE: u8 = 0x4B;

/// Final byte of cursor-home (`H`).
pub const CURSOR_HOME: u8 = 0x48;

/// The emulator as its contracts see it: the cells of the whole buffer,
/// `TERMINAL_COLS` per row, the cursor, and the first visible row.
pub struct TerminalState {
    pub cells: Seq<u8>,
    pub row: int,
    pub col: int,
    pub start_line: int,
}

/// Cells in one screenful: the unit in which the buffer grows.
pub open spec fn page_len() -> nat {
    (TERMINAL_COLS * TERMINAL_ROWS) as nat
}

/// The state at start-up: one empty page, cursor and view at the top.
pub open spec fn initial_state() -> TerminalState {
    TerminalState { cells: empty_cells(page_len()), row: 0, col: 0, start_line: 0 }
}

/// The byte shown at `(row, col)`.
pub open spec fn state_char(s: TerminalState, row: int, col: int) -> u8 {
    cell_at(s.cells, row * TERMINAL_COLS + col)
}

/// Whether the cells a write at `row` touches can be addressed: the rows
/// up to `row + 1` and one page more fit in a `usize` index.
pub open spec fn rows_fit(row: int) -> bool {
    (row + 1) * TERMINAL_COLS + page_len() < usize::MAX
}

/// `c` written at the cursor.
pub open spec fn put(s: TerminalState, c: u8) -> TerminalState {
    TerminalState {
        cells: write_cell(s.cells, (s.row * TERMINAL_COLS + s.col) as nat, page_len(), c),
        ..s
    }
}

/// The cursor moved one step in `d`.
pub open spec fn go(s: TerminalState, d: CursorDirection) -> TerminalState {
    TerminalState { row: moved(s.row, s.col, d).0, col: moved(s.row, s.col, d).1, ..s }
}

/// The cursor moved past the cell it stands on: one column right, or, once
/// it passes the last column, to the start of the next row. The cursor of a
/// terminal so never stands beyond the last column.
pub open spec fn advance(s: TerminalState) -> TerminalState {
    let t = go(s, CursorDirection::Right);
    if t.col >= TERMINAL_COLS {
        go(t, CursorDirection::NextLine)
    } else {
        t
    }
}

/// `n` spaces written, each followed by an advance.
pub open spec fn fill_spaces(s: TerminalState, n: nat) -> TerminalState
    decreases n,
{
    if n == 0 {
        s
    } else {
        fill_spaces(advance(put(s, SPACE_CHAR)), (n - 1) as nat)
    }
}

/// How many cells a tab covers from `col`: up to the next tab stop.
pub open spec fn tab_span(col: int) -> nat {
    ((1 + col / (TAB_STOP as int)) * TAB_STOP - col) as nat
}

/// The view moved down just far enough that the cursor's row is visible.
pub open spec fn scroll(s: TerminalState) -> TerminalState {
    if s.row >= s.start_line + TERMINAL_ROWS {
        TerminalState { start_line: s.row + 1 - TERMINAL_ROWS, ..s }
    } else {
        s
    }
}

/// Whether a byte is written to the screen as it is.
pub open spec fn is_plain(b: u8) -> bool {
    b != BACK_CHAR && b != ESC_CHAR && b != BELL_CHAR && b != NEWLINE_CHAR && b != CR_CHAR && b
        != TAB_CHAR
}

/// The effect of one byte other than ESC.
pub open spec fn apply_byte(s: TerminalState, b: u8) -> TerminalState {
    if b == BACK_CHAR {
        go(s, CursorDirection::Left)
    } else if b == BELL_CHAR {
        s
    } else {
        scroll(
            if b == NEWLINE_CHAR {
                go(s, CursorDirection::NextLine)
            } else if b == CR_CHAR {
                go(s, CursorDirection::BOL)
            } else if b == TAB_CHAR {
                fill_spaces(s, tab_span(s.col))
            } else {
                advance(put(s, b))
            },
        )
    }
}

/// Erase-display: final byte `J`, no intermediates, and no parameter or one
/// of `0`, `1`, `2`.
pub open spec fn is_erase_display(params: Seq<u8>, inter: Seq<u8>, final_byte: u8) -> bool {
    &&& final_byte == ERASE_DISPLAY
    &&& inter.len() == 0
    &&& (params.len() == 0 || (params.len() == 1 && 0x30 <= params[0] <= 0x32))
}

/// A sequence with final byte `f` and neither parameters nor intermediates.
pub open spec fn is_bare(params: Seq<u8>, inter: Seq<u8>, final_byte: u8, f: u8) -> bool {
    final_byte == f && params.len() == 0 && inter.len() == 0
}

/// Whether the controller acts on a parsed sequence.
pub open spec fn is_recognized(params: Seq<u8>, inter: Seq<u8>, final_byte: u8) -> bool {
    is_erase_display(params, inter, final_byte) || is_bare(params, inter, final_byte, ERASE_LINE)
        || is_bare(params, inter, final_byte, CURSOR_HOME)
}

/// The whole buffer emptied and the view back at the top; the cursor stays.
pub open spec fn cleared(s: TerminalState) -> TerminalState {
    TerminalState { cells: empty_cells(page_len()), start_line: 0, ..s }
}

/// The effect of a parsed escape sequence.
pub open spec fn apply_csi(s: TerminalState, p: (Seq<u8>, Seq<u8>, Seq<u8>, u8)) -> TerminalState {
    if is_erase_display(p.1, p.2, p.3) {
        cleared(s)
    } else if is_bare(p.1, p.2, p.3, ERASE_LINE) {
        put(s, 0)
    } else if is_bare(p.1, p.2, p.3, CURSOR_HOME) {
        go(s, CursorDirection::BOF)
    } else {
        s
    }
}

/// How many bytes the step at `i` takes: an ESC and the sequence after it,
/// or one byte.
pub open spec fn step_len(data: Seq<u8>, i: int) -> nat {
    if data[i] == ESC_CHAR {
        1 + csi_len(data.skip(i + 1))
    } else {
        1
    }
}

/// The effect of the step at `i`.
pub open spec fn step(s: TerminalState, data: Seq<u8>, i: int) -> TerminalState {
    if data[i] == ESC_CHAR {
        apply_csi(s, csi(data.skip(i + 1)))
    } else {
        apply_byte(s, data[i])
    }
}

/// The state after the bytes of `data` from index `i` on. No step runs past
/// the end of `data` (`lemma_step_len`).
pub open spec fn run(s: TerminalState, data: Seq<u8>, i: nat) -> TerminalState
    decreases data.len() - i,
{
    if i < data.len() && i + step_len(data, i as int) <= data.len() {
        run(step(s, data, i as int), data, i + step_len(data, i as int))
    } else {
        s
    }
}

/// The escape sequences from index `i` on that the controller does not act
/// on, each as the bytes that follow its ESC.
pub open spec fn unhandled_from(data: Seq<u8>, i: nat) -> Seq<Seq<u8>>
    decreases data.len() - i,
{
    if i < data.len() && i + step_len(data, i as int) <= data.len() {
        let rest = unhandled_from(data, i + step_len(data, i as int));
        let p = csi(data.skip(i + 1 as int));
        if data[i as int] == ESC_CHAR && !is_recognized(p.1, p.2, p.3) {
            seq![data.subrange(i + 1 as int, i + step_len(data, i as int) as int)] + rest
        } else {
            rest
        }
    } else {
        Seq::empty()
    }
}

/// Every step moves forward by at least one byte and ends within the data
/// it reads, so any finite input is processed to its end.
pub proof fn lemma_step_len(data: Seq<u8>, i: int)
    requires
        0 <= i < data.len(),
    ensures
        step_len(data, i) >= 1,
        i + step_len(data, i) <= data.len(),
{
    if data[i] == ESC_CHAR {
        crate::characters::lemma_csi_len(data.skip(i + 1));
    }
}

/// The terminal emulation engine: a screen buffer, a cursor, and the first
/// row on view.
pub struct Terminal {
    buffer: ScreenBuffer,
    cursor: Cursor,
    start_line: usize,
}

/// What the rendering side draws: the visible rows, `TERMINAL_COLS` cells
/// each, one after the other, and the cursor relative to the first of them
/// when it stands on one.
pub struct Snapshot {
    pub cells: Vec<u8>,
    pub cursor: Option<(usize, usize)>,
}

impl View for Terminal {
    type V = TerminalState;

    closed spec fn view(&self) -> TerminalState {
        TerminalState {
            cells: self.buffer@,
            row: self.cursor.row as int,
            col: self.cursor.col as int,
            start_line: self.start_line as int,
        }
    }
}

fn is_erase_display_exec(params: &Vec<u8>, inter: &Vec<u8>, final_byte: u8) -> (r: bool)
    ensures
        r == is_erase_display(params@, inter@, final_byte),
{
    final_byte == ERASE_DISPLAY && inter.len() == 0 && (params.len() == 0 || (params.len() == 1
        && 0x30 <= params[0] && params[0] <= 0x32))
}

fn is_bare_exec(params: &Vec<u8>, inter: &Vec<u8>, final_byte: u8, f: u8) -> (r: bool)
    ensures
        r == is_bare(params@, inter@, final_byte, f),
{
    final_byte == f && params.len() == 0 && inter.len() == 0
}

impl Terminal {
    /// The buffer is a well-formed grid of the terminal's size, the cursor
    /// stands on one of the columns, and the view's last row fits in
    /// a `usize`.
    pub closed spec fn wf(&self) -> bool {
        &&& self.buffer.wf()
        &&& self.buffer.spec_width() == TERMINAL_COLS
        &&& self.buffer.spec_height() == TERMINAL_ROWS
        &&& self.cursor.col < TERMINAL_COLS
        &&& self.start_line + TERMINAL_ROWS <= usize::MAX
    }

    /// A terminal with an empty screen and the cursor at the top left.
    pub fn new() -> (r: Self)
        ensures
            r.wf(),
            r@ == initial_state(),
    {
        Self {
            buffer: ScreenBuffer::new(TERMINAL_COLS, TERMINAL_ROWS),
            cursor: Cursor::new(),
            start_line: 0,
        }
    }

    /// The cursor.
    pub fn cursor(&self) -> (r: &Cursor)
        ensures
            r.row == self@.row,
            r.col == self@.col,
    {
        &self.cursor
    }

    /// The screen buffer.
    pub fn buffer(&self) -> (r: &ScreenBuffer)
        requires
            self.wf(),
        ensures
            r.wf(),
            r@ == self@.cells,
            r.spec_width() == TERMINAL_COLS,
            r.spec_height() == TERMINAL_ROWS,
    {
        &self.buffer
    }

    /// The first visible row.
    pub fn start_line(&self) -> (r: usize)
        ensures
            r == self@.start_line,
    {
        self.start_line
    }

    /// Whether `set_data` can take `len` more bytes: every row they can
    /// reach is still addressable.
    pub fn can_take(&self, len: usize) -> (r: bool)
        ensures
            r == rows_fit(self@.row + len),
    {
        let limit: usize = (usize::MAX - TERMINAL_COLS * TERMINAL_ROWS - 1) / TERMINAL_COLS;
        match self.cursor.row.checked_add(len) {
            Some(last) => last < limit,
            None => false,
        }
    }

    /// Moves the cursor past the cell it stands on, wrapping to the next row
    /// after the last column.
    fn advance(&mut self)
        requires
            old(self).wf(),
            rows_fit(old(self)@.row),
        ensures
            final(self).wf(),
            final(self).buffer == old(self).buffer,
            final(self)@ == advance(old(self)@),
    {
        self.cursor.move_to(CursorDirection::Right);
        if self.cursor.col >= TERMINAL_COLS {
            self.cursor.move_to(CursorDirection::NextLine);
        }
    }

    /// Writes `n` spaces from the cursor on, advancing after each.
    fn fill_spaces(&mut self, n: usize)
        requires
            old(self).wf(),
            rows_fit(old(self)@.row + 1),
            n == tab_span(old(self)@.col),
        ensures
            final(self).wf(),
            final(self)@ == fill_spaces(old(self)@, n as nat),
            final(self)@.row <= old(self)@.row + 1,
    {
        let ghost before = self@;
        let mut j: usize = 0;
        while j < n
            invariant
                self.wf(),
                j <= n,
                n == tab_span(before.col),
                0 <= before.col < TERMINAL_COLS,
                before.col + n <= TERMINAL_COLS,
                rows_fit(before.row + 1),
                fill_spaces(self@, (n - j) as nat) == fill_spaces(before, n as nat),
                self@.start_line == before.start_line,
                (self@.row == before.row && self@.col == before.col + j) || (j == n && self@.row
                    == before.row + 1 && self@.col == 0),
            decreases n - j,
        {
            self.buffer.set_char_at(SPACE_CHAR, self.cursor.row, self.cursor.col);
            self.advance();
            j += 1;
        }
    }

    /// Processes one byte other than ESC.
    fn put_byte(&mut self, b: u8)
        requires
            old(self).wf(),
            b != ESC_CHAR,
            rows_fit(old(self)@.row + 1),
        ensures
            final(self).wf(),
            final(self)@ == apply_byte(old(self)@, b),
            final(self)@.row <= old(self)@.row + 1,
    {
        if b == BACK_CHAR {
            self.cursor.move_to(CursorDirection::Left);
        } else if b != BELL_CHAR {
            if b == NEWLINE_CHAR {
                self.cursor.move_to(CursorDirection::NextLine);
            } else if b == CR_CHAR {
                self.cursor.move_to(CursorDirection::BOL);
            } else if b == TAB_CHAR {
                let next = (1 + self.cursor.col / TAB_STOP) * TAB_STOP;
                self.fill_spaces(next - self.cursor.col);
            } else {
                self.buffer.set_char_at(b, self.cursor.row, self.cursor.col);
                self.advance();
            }
            if self.cursor.row >= TERMINAL_ROWS && self.cursor.row - TERMINAL_ROWS
                >= self.start_line {
                self.start_line = 1 + self.cursor.row - TERMINAL_ROWS;
            }
        }
    }

    /// Feeds a chunk of the shell's output through the emulator: control
    /// bytes move the cursor, escape sequences are parsed and applied, and
    /// every other byte is written at the cursor, which then advances and
    /// wraps to the next row after the last column. Returns the escape
    /// sequences it did not act on, each as the bytes after its ESC.
    pub fn set_data(&mut self, buf: &[u8]) -> (unhandled: Vec<Vec<u8>>)
        requires
            old(self).wf(),
            rows_fit(old(self)@.row + buf@.len()),
        ensures
            final(self).wf(),
            final(self)@ == run(old(self)@, buf@, 0),
            final(self)@.col < TERMINAL_COLS,
            unhandled@.map_values(|v: Vec<u8>| v@) == unhandled_from(buf@, 0),
    {
        let mut unhandled: Vec<Vec<u8>> = Vec::new();
        let mut i: usize = 0;
        while i < buf.len()
            invariant
                self.wf(),
                i <= buf@.len(),
                rows_fit(old(self)@.row + buf@.len()),
                self@.row <= old(self)@.row + i,
                run(self@, buf@, i as nat) == run(old(self)@, buf@, 0),
                unhandled@.map_values(|v: Vec<u8>| v@) + unhandled_from(buf@, i as nat)
                    == unhandled_from(buf@, 0),
            decreases buf@.len() - i,
        {
            proof {
                lemma_step_len(buf@, i as int);
            }
            let b = buf[i];
            if b == ESC_CHAR {
                let rest = &buf[i + 1..buf.len()];
                assert(rest@ == buf@.skip(i + 1));
                let (remain, params, inter, final_byte) = EscapeCode::parse_csi(rest);
                let consumed = rest.len() - remain.len();
                if is_erase_display_exec(&params, &inter, final_byte) {
                    self.buffer.clear();
                    self.start_line = 0;
                } else if is_bare_exec(&params, &inter, final_byte, ERASE_LINE) {
                    self.buffer.set_char_at(0, self.cursor.row, self.cursor.col);
                } else if is_bare_exec(&params, &inter, final_byte, CURSOR_HOME) {
                    self.cursor.move_to(CursorDirection::BOF);
                } else {
                    let seq_bytes = slice_to_vec(&rest[0..consumed]);
                    assert(seq_bytes@ =~= buf@.subrange(i + 1, i + 1 + consumed));
                    let ghost before = unhandled@;
                    unhandled.push(seq_bytes);
                    assert(unhandled@.map_values(|v: Vec<u8>| v@) =~= before.map_values(
                        |v: Vec<u8>| v@,
                    ).push(buf@.subrange(i + 1, i + 1 + consumed)));
                }
                i = i + 1 + consumed;
            } else {
                self.put_byte(b);
                i = i + 1;
            }
        }
        unhandled
    }

    /// The visible rows and where the cursor stands among them. Reads only.
    pub fn render_snapshot(&self) -> (r: Snapshot)
        requires
            self.wf(),
        ensures
            r.cells@.len() == TERMINAL_ROWS * TERMINAL_COLS,
            forall|row: int, col: int|
                0 <= row < TERMINAL_ROWS && 0 <= col < TERMINAL_COLS ==> #[trigger] r.cells@[row
                    * TERMINAL_COLS + col] == state_char(self@, self@.start_line + row, col),
            r.cursor == if self@.start_line <= self@.row < self@.start_line + TERMINAL_ROWS {
                Some(((self@.row - self@.start_line) as usize, self@.col as usize))
            } else {
                None
            },
    {
        let mut cells: Vec<u8> = Vec::new();
        let mut row: usize = 0;
        while row < TERMINAL_ROWS
            invariant
                self.wf(),
                row <= TERMINAL_ROWS,
                cells@.len() == row * TERMINAL_COLS,
                forall|r: int, c: int|
                    0 <= r < row && 0 <= c < TERMINAL_COLS ==> #[trigger] cells@[r * TERMINAL_COLS
                        + c] == state_char(self@, self@.start_line + r, c),
            decreases TERMINAL_ROWS - row,
        {
            let mut col: usize = 0;
            while col < TERMINAL_COLS
                invariant
                    self.wf(),
                    row < TERMINAL_ROWS,
                    col <= TERMINAL_COLS,
                    cells@.len() == row * TERMINAL_COLS + col,
                    forall|r: int, c: int|
                        0 <= r < row && 0 <= c < TERMINAL_COLS ==> #[trigger] cells@[r
                            * TERMINAL_COLS + c] == state_char(self@, self@.start_line + r, c),
                    forall|c: int|
                        0 <= c < col ==> #[trigger] cells@[row * TERMINAL_COLS + c] == state_char(
                            self@,
                            self@.start_line + row,
                            c,
                        ),
                decreases TERMINAL_COLS - col,
            {
                let c = self.buffer.get_char_at(self.start_line + row, col);
                cells.push(c);
                col += 1;
            }
            row += 1;
        }
        let cursor = if self.start_line <= self.cursor.row && self.cursor.row - self.start_line
            < TERMINAL_ROWS {
            Some((self.cursor.row - self.start_line, self.cursor.col))
        } else {
            None
        };
        Snapshot { cells, cursor }
    }
}

} // verus!
