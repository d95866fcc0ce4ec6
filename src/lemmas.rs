use vstd::prelude::*;

use crate::characters::{
    csi,
    csi_len,
    run_len,
    BACK_CHAR,
    CSI_LEAD,
    ESC_CHAR,
    NEWLINE_CHAR,
    SPACE_CHAR,
    TAB_CHAR,
};
use crate::constants::{TERMINAL_COLS, TERMINAL_ROWS};
use crate::screen::{cell_at, empty_cells, lemma_write_cell};
use crate::terminal::{
    advance,
    apply_byte,
    cleared,
    fill_spaces,
    lemma_step_len,
    is_plain,
    page_len,
    put,
    run,
    state_char,
    step,
    step_len,
    tab_span,
    TerminalState,
    ERASE_DISPLAY,
    ERASE_LINE,
};

verus! {

/// Plain bytes from index `i` on, as long as they fit on the cursor's row,
/// are written one after the other from the cursor on; the cursor wraps to
/// the next row as it passes the last column.
proof fn lemma_plain_run(s: TerminalState, data: Seq<u8>, i: nat)
    requires
        i <= data.len(),
        s.row >= 0,
        0 <= s.col < TERMINAL_COLS,
        s.col + (data.len() - i) <= TERMINAL_COLS,
        forall|j: int| i <= j < data.len() ==> is_plain(#[trigger] data[j]),
    ensures
        s.col + (data.len() - i) < TERMINAL_COLS ==> run(s, data, i).row == s.row && run(
            s,
            data,
            i,
        ).col == s.col + (data.len() - i),
        s.col + (data.len() - i) == TERMINAL_COLS ==> run(s, data, i).row == s.row + 1 && run(
            s,
            data,
            i,
        ).col == 0,
        forall|idx: int| #[trigger]
            cell_at(run(s, data, i).cells, idx) == if s.row * TERMINAL_COLS + s.col <= idx < s.row
                * TERMINAL_COLS + s.col + (data.len() - i) {
                data[i + idx - (s.row * TERMINAL_COLS + s.col)]
            } else {
                cell_at(s.cells, idx)
            },
    decreases data.len() - i,
{
    if i < data.len() {
        let b = data[i as int];
        assert(is_plain(b));
        assert(step_len(data, i as int) == 1);
        let s1 = step(s, data, i as int);
        lemma_write_cell(s.cells, (s.row * TERMINAL_COLS + s.col) as nat, page_len(), b);
        if s.col + 1 < TERMINAL_COLS {
            assert(s1.row == s.row && s1.col == s.col + 1);
        } else {
            assert(s1.row == s.row + 1 && s1.col == 0);
            assert(i + 1 == data.len());
        }
        lemma_plain_run(s1, data, i + 1);
    }
}

/// Plain bytes written from the start of a row, no more than a row's worth,
/// land in that row, byte `i` at column `i`, and no other cell changes.
/// Fewer than a row's worth leave the cursor just after the last of them;
/// a full row's worth wraps the cursor to the start of the next row.
pub proof fn lemma_plain_line(s: TerminalState, data: Seq<u8>)
    requires
        s.row >= 0,
        s.col == 0,
        data.len() <= TERMINAL_COLS,
        forall|j: int| 0 <= j < data.len() ==> is_plain(#[trigger] data[j]),
    ensures
        data.len() < TERMINAL_COLS ==> run(s, data, 0).row == s.row && run(s, data, 0).col
            == data.len(),
        data.len() == TERMINAL_COLS ==> run(s, data, 0).row == s.row + 1 && run(s, data, 0).col
            == 0,
        forall|i: int|
            0 <= i < data.len() ==> #[trigger] state_char(run(s, data, 0), s.row, i) == data[i],
        forall|idx: int|
            !(s.row * TERMINAL_COLS <= idx < s.row * TERMINAL_COLS + data.len()) ==> #[trigger]
                cell_at(run(s, data, 0).cells, idx) == cell_at(s.cells, idx),
{
    lemma_plain_run(s, data, 0);
    assert forall|i: int| 0 <= i < data.len() implies #[trigger] state_char(
        run(s, data, 0),
        s.row,
        i,
    ) == data[i] by {
        let idx = s.row * TERMINAL_COLS + i;
        assert(cell_at(run(s, data, 0).cells, idx) == data[idx - s.row * TERMINAL_COLS]);
    }
}

proof fn lemma_fill_spaces(s: TerminalState, n: nat)
    requires
        s.row >= 0,
        0 <= s.col < TERMINAL_COLS,
        s.col + n <= TERMINAL_COLS,
    ensures
        s.col + n < TERMINAL_COLS ==> fill_spaces(s, n).row == s.row && fill_spaces(s, n).col
            == s.col + n,
        s.col + n == TERMINAL_COLS ==> fill_spaces(s, n).row == s.row + 1 && fill_spaces(s, n).col
            == 0,
        fill_spaces(s, n).start_line == s.start_line,
        forall|idx: int| #[trigger]
            cell_at(fill_spaces(s, n).cells, idx) == if s.row * TERMINAL_COLS + s.col <= idx < s.row
                * TERMINAL_COLS + s.col + n {
                SPACE_CHAR
            } else {
                cell_at(s.cells, idx)
            },
    decreases n,
{
    if n > 0 {
        lemma_write_cell(s.cells, (s.row * TERMINAL_COLS + s.col) as nat, page_len(), SPACE_CHAR);
        let t = advance(put(s, SPACE_CHAR));
        if s.col + 1 == TERMINAL_COLS {
            assert(n == 1);
            assert(fill_spaces(t, 0) == t);
        } else {
            lemma_fill_spaces(t, (n - 1) as nat);
        }
    }
}

/// A tab writes spaces from the cursor up to the next multiple of eight and
/// moves the cursor there, on the same row, or to the start of the next row
/// where that multiple is the right edge; no other cell changes.
pub proof fn lemma_tab(s: TerminalState)
    requires
        s.row >= 0,
        0 <= s.col < TERMINAL_COLS,
    ensures
        (s.col / 8 + 1) * 8 < TERMINAL_COLS ==> apply_byte(s, TAB_CHAR).row == s.row && apply_byte(
            s,
            TAB_CHAR,
        ).col == (s.col / 8 + 1) * 8,
        (s.col / 8 + 1) * 8 == TERMINAL_COLS ==> apply_byte(s, TAB_CHAR).row == s.row + 1
            && apply_byte(s, TAB_CHAR).col == 0,
        forall|c: int|
            s.col <= c < (s.col / 8 + 1) * 8 ==> #[trigger] state_char(
                apply_byte(s, TAB_CHAR),
                s.row,
                c,
            ) == SPACE_CHAR,
        forall|idx: int|
            !(s.row * TERMINAL_COLS + s.col <= idx < s.row * TERMINAL_COLS + (s.col / 8 + 1) * 8)
                ==> #[trigger] cell_at(apply_byte(s, TAB_CHAR).cells, idx) == cell_at(s.cells, idx),
{
    let n = tab_span(s.col);
    assert(s.col + n == (s.col / 8 + 1) * 8);
    assert((s.col / 8 + 1) * 8 <= TERMINAL_COLS);
    lemma_fill_spaces(s, n);
}

proof fn lemma_fill_spaces_start_line(s: TerminalState, n: nat)
    ensures
        fill_spaces(s, n).start_line == s.start_line,
    decreases n,
{
    if n > 0 {
        let t = advance(put(s, SPACE_CHAR));
        lemma_fill_spaces_start_line(t, (n - 1) as nat);
    }
}

/// A byte other than ESC keeps a visible cursor visible: where it takes the
/// cursor below the last visible row, the view moves down by exactly the
/// overflow, so the cursor lands on the last visible row; otherwise the view
/// stays.
pub proof fn lemma_scroll(s: TerminalState, b: u8)
    requires
        b != ESC_CHAR,
        s.row < s.start_line + TERMINAL_ROWS,
    ensures
        apply_byte(s, b).row < apply_byte(s, b).start_line + TERMINAL_ROWS,
        apply_byte(s, b).start_line == if apply_byte(s, b).row >= s.start_line + TERMINAL_ROWS {
            apply_byte(s, b).row + 1 - TERMINAL_ROWS
        } else {
            s.start_line
        },
{
    lemma_fill_spaces_start_line(s, tab_span(s.col));
}

proof fn lemma_newline_run(s: TerminalState, data: Seq<u8>, i: nat)
    requires
        i <= data.len(),
        forall|j: int| i <= j < data.len() ==> #[trigger] data[j] == NEWLINE_CHAR,
        0 <= s.row < s.start_line + TERMINAL_ROWS,
    ensures
        run(s, data, i).row == s.row + (data.len() - i),
        run(s, data, i).cells == s.cells,
        i < data.len() ==> run(s, data, i).col == 0,
        run(s, data, i).start_line == if run(s, data, i).row >= s.start_line + TERMINAL_ROWS {
            run(s, data, i).row + 1 - TERMINAL_ROWS
        } else {
            s.start_line
        },
    decreases data.len() - i,
{
    if i < data.len() {
        assert(data[i as int] == NEWLINE_CHAR);
        assert(step_len(data, i as int) == 1);
        lemma_newline_run(step(s, data, i as int), data, i + 1);
    }
}

/// `n` line feeds from a visible cursor move it `n` rows down to the start
/// of a row, change no cell, and scroll the view only as far as needed to
/// keep the cursor on its last row.
pub proof fn lemma_newlines(s: TerminalState, n: nat)
    requires
        0 <= s.row < s.start_line + TERMINAL_ROWS,
    ensures
        run(s, Seq::new(n, |_j: int| NEWLINE_CHAR), 0).row == s.row + n,
        run(s, Seq::new(n, |_j: int| NEWLINE_CHAR), 0).cells == s.cells,
        n > 0 ==> run(s, Seq::new(n, |_j: int| NEWLINE_CHAR), 0).col == 0,
        run(s, Seq::new(n, |_j: int| NEWLINE_CHAR), 0).start_line == if s.row + n >= s.start_line
            + TERMINAL_ROWS {
            s.row + n + 1 - TERMINAL_ROWS
        } else {
            s.start_line
        },
{
    lemma_newline_run(s, Seq::new(n, |_j: int| NEWLINE_CHAR), 0);
}

/// An ESC that does not open a control sequence is skipped alone: the step
/// takes exactly that one byte and changes nothing.
pub proof fn lemma_lone_escape(s: TerminalState, data: Seq<u8>, i: int)
    requires
        0 <= i < data.len(),
        data[i] == ESC_CHAR,
        !(i + 1 < data.len() && data[i + 1] == CSI_LEAD),
    ensures
        step_len(data, i) == 1,
        step(s, data, i) == s,
{
    let rest = data.skip(i as int + 1);
    assert(!(rest.len() > 0 && rest[0] == CSI_LEAD));
}

/// The parameter bytes erase-display takes: none, or one of `0`, `1`, `2`.
pub open spec fn is_erase_param(p: Seq<u8>) -> bool {
    p.len() == 0 || (p.len() == 1 && 0x30 <= p[0] <= 0x32)
}

/// The bytes `ESC [ p J`.
pub open spec fn erase_display_bytes(p: Seq<u8>) -> Seq<u8> {
    seq![ESC_CHAR, CSI_LEAD] + p + seq![ERASE_DISPLAY]
}

proof fn lemma_erase_display_step(s: TerminalState, data: Seq<u8>, i: int, p: Seq<u8>)
    requires
        is_erase_param(p),
        0 <= i,
        i + p.len() + 3 <= data.len(),
        data.subrange(i, i + p.len() + 3 as int) == erase_display_bytes(p),
    ensures
        step_len(data, i) == p.len() + 3,
        step(s, data, i) == cleared(s),
{
    let e = erase_display_bytes(p);
    assert(data[i] == e[0]);
    let rest = data.skip(i as int + 1);
    assert(rest[0] == e[1]);
    let a = rest.drop_first();
    if p.len() == 0 {
        assert(a[0] == e[2]);
        assert(run_len(a, 0x30, 0x3F) == 0);
        assert(a.skip(0) =~= a);
        assert(run_len(a, 0x20, 0x2F) == 0);
        assert(a.take(0) =~= Seq::<u8>::empty());
        assert(csi(rest).1 =~= p);
    } else {
        assert(a[0] == e[2]);
        assert(a[1] == e[3]);
        assert(run_len(a.drop_first(), 0x30, 0x3F) == 0);
        assert(run_len(a, 0x30, 0x3F) == 1);
        let b = a.skip(1);
        assert(b[0] == ERASE_DISPLAY);
        assert(run_len(b, 0x20, 0x2F) == 0);
        assert(b.skip(0) =~= b);
        assert(a.take(1) =~= p);
        assert(csi(rest).1 =~= p);
    }
    assert(csi(rest).2 =~= Seq::<u8>::empty());
    assert(csi(rest).3 == ERASE_DISPLAY);
    assert(csi_len(rest) == p.len() + 2);
}

/// Feeding erase-display, with no parameter or with `0`, `1` or `2`, empties
/// the whole buffer and brings the view back to the top; the cursor stays.
pub proof fn lemma_erase_display(s: TerminalState, p: Seq<u8>)
    requires
        is_erase_param(p),
    ensures
        run(s, erase_display_bytes(p), 0) == cleared(s),
        run(s, erase_display_bytes(p), 0).cells == empty_cells(page_len()),
        run(s, erase_display_bytes(p), 0).start_line == 0,
{
    let data = erase_display_bytes(p);
    assert(data.subrange(0, p.len() + 3 as int) =~= data);
    lemma_erase_display_step(s, data, 0, p);
    assert(run(cleared(s), data, p.len() + 3) == cleared(s));
}

/// Clearing twice in a row leaves the same state as clearing once: an empty
/// buffer and the view at the top.
pub proof fn lemma_clear_twice(s: TerminalState, p: Seq<u8>)
    requires
        is_erase_param(p),
    ensures
        cleared(cleared(s)) == cleared(s),
        run(s, erase_display_bytes(p) + erase_display_bytes(p), 0) == run(
            s,
            erase_display_bytes(p),
            0,
        ),
{
    let n: nat = p.len() + 3;
    let m: int = n as int;
    let data = erase_display_bytes(p) + erase_display_bytes(p);
    assert(data.subrange(0, m) =~= erase_display_bytes(p));
    assert(data.subrange(m, m + m) =~= erase_display_bytes(p));
    lemma_erase_display_step(s, data, 0, p);
    lemma_erase_display_step(cleared(s), data, m, p);
    assert(run(cleared(cleared(s)), data, (n + n) as nat) == cleared(cleared(s)));
    assert(run(cleared(s), data, n as nat) == run(cleared(cleared(s)), data, (n + n) as nat));
    assert(run(s, data, 0) == run(cleared(s), data, n as nat));
    lemma_erase_display(s, p);
}

/// The bytes `ESC [ K`.
pub open spec fn erase_line_bytes() -> Seq<u8> {
    seq![ESC_CHAR, CSI_LEAD, ERASE_LINE]
}

/// Erase-line empties the cell under the cursor and nothing else: no cell of
/// another row changes, and the cursor and the view stay.
pub proof fn lemma_erase_line(s: TerminalState)
    requires
        s.row >= 0,
        0 <= s.col < TERMINAL_COLS,
    ensures
        run(s, erase_line_bytes(), 0).row == s.row,
        run(s, erase_line_bytes(), 0).col == s.col,
        run(s, erase_line_bytes(), 0).start_line == s.start_line,
        state_char(run(s, erase_line_bytes(), 0), s.row, s.col) == 0,
        forall|idx: int|
            idx != s.row * TERMINAL_COLS + s.col ==> #[trigger] cell_at(
                run(s, erase_line_bytes(), 0).cells,
                idx,
            ) == cell_at(s.cells, idx),
        forall|c: int|
            0 <= c < TERMINAL_COLS ==> #[trigger] state_char(
                run(s, erase_line_bytes(), 0),
                s.row + 1,
                c,
            ) == state_char(s, s.row + 1, c),
{
    let data = erase_line_bytes();
    let rest = data.skip(1);
    assert(rest =~= seq![CSI_LEAD, ERASE_LINE]);
    let a = rest.drop_first();
    assert(a =~= seq![ERASE_LINE]);
    assert(run_len(a, 0x30, 0x3F) == 0);
    assert(a.skip(0) =~= a);
    assert(run_len(a, 0x20, 0x2F) == 0);
    assert(csi(rest).1 =~= Seq::<u8>::empty());
    assert(csi(rest).2 =~= Seq::<u8>::empty());
    assert(csi(rest).3 == ERASE_LINE);
    assert(csi_len(rest) == 2);
    assert(step_len(data, 0) == 3);
    lemma_write_cell(s.cells, (s.row * TERMINAL_COLS + s.col) as nat, page_len(), 0);
    assert(run(step(s, data, 0), data, 3) == step(s, data, 0));
}

/// Processing depends only on the bytes still to come.
proof fn lemma_run_same_rest(s: TerminalState, d1: Seq<u8>, i: nat, d2: Seq<u8>, j: nat)
    requires
        i <= d1.len(),
        j <= d2.len(),
        d1.skip(i as int) == d2.skip(j as int),
    ensures
        run(s, d1, i) == run(s, d2, j),
    decreases d1.len() - i,
{
    assert(d1.len() - i == d2.skip(j as int).len());
    if i < d1.len() {
        assert(d1[i as int] == d1.skip(i as int)[0]);
        assert(d2[j as int] == d2.skip(j as int)[0]);
        assert(d1.skip(i as int + 1) =~= d2.skip(j as int + 1)) by {
            assert forall|k: int| 0 <= k < d1.skip(i as int + 1).len() implies #[trigger] d1.skip(
                i as int + 1,
            )[k] == d2.skip(j as int + 1)[k] by {
                assert(d1.skip(i as int)[k + 1] == d2.skip(j as int)[k + 1]);
                assert(d1.skip(i as int)[k + 1] == d1[i + 1 + k]);
                assert(d2.skip(j as int)[k + 1] == d2[j + 1 + k]);
            }
        }
        lemma_step_len(d1, i as int);
        lemma_step_len(d2, j as int);
        let n = step_len(d1, i as int);
        assert(n == step_len(d2, j as int));
        assert(step(s, d1, i as int) == step(s, d2, j as int));
        assert(d1.skip(i as int + n) =~= d2.skip(j as int + n)) by {
            assert forall|k: int| 0 <= k < d1.skip(i as int + n).len() implies #[trigger] d1.skip(
                i as int + n,
            )[k] == d2.skip(j as int + n)[k] by {
                assert(d1.skip(i as int)[k + n] == d2.skip(j as int)[k + n]);
                assert(d1.skip(i as int)[k + n] == d1[i + n + k]);
                assert(d2.skip(j as int)[k + n] == d2[j + n + k]);
            }
        }
        lemma_run_same_rest(step(s, d1, i as int), d1, i + n, d2, j + n);
    }
}

/// An ESC that does not open a control sequence is skipped as one byte:
/// processing from it on gives what processing the data without that byte
/// gives.
pub proof fn lemma_lone_escape_dropped(s: TerminalState, data: Seq<u8>, k: nat)
    requires
        k < data.len(),
        data[k as int] == ESC_CHAR,
        !(k + 1 < data.len() && data[k as int + 1] == CSI_LEAD),
    ensures
        run(s, data, k) == run(s, data.remove(k as int), k),
{
    lemma_lone_escape(s, data, k as int);
    assert(run(s, data, k) == run(s, data, k + 1));
    assert(data.skip(k as int + 1) =~= data.remove(k as int).skip(k as int));
    lemma_run_same_rest(s, data, k + 1, data.remove(k as int), k);
}

/// A backspace at the start of a row changes nothing.
pub proof fn lemma_backspace_at_line_start(s: TerminalState)
    requires
        s.col == 0,
    ensures
        apply_byte(s, BACK_CHAR) == s,
        run(s, seq![BACK_CHAR], 0) == s,
{
    let data = seq![BACK_CHAR];
    assert(step_len(data, 0) == 1);
    assert(run(s, data, 1) == s);
}

} // verus!
