use vstd::prelude::*;

use crate::constants::TERMINAL_COLS;

verus! {

/// The ways the cursor can move.
pub enum CursorDirection {
    Up,
    Down,
    Left,
    Right,
    NextLine,
    BOL,
    EOL,
    BOF,
}

/// Where `d` takes a cursor at `(row, col)`, with rows unbounded.
pub open spec fn moved(row: int, col: int, d: CursorDirection) -> (int, int) {
    match d {
        CursorDirection::Up => if row > 0 {
            (row - 1, col)
        } else {
            (row, 0)
        },
        CursorDirection::Down => (row + 1, col),
        CursorDirection::Left => if col > 0 {
            (row, col - 1)
        } else {
            (row, col)
        },
        CursorDirection::Right => if col < TERMINAL_COLS {
            (row, col + 1)
        } else {
            (row + 1, 0)
        },
        CursorDirection::NextLine => (row + 1, 0),
        CursorDirection::BOL => (row, 0),
        CursorDirection::EOL => (row, TERMINAL_COLS as int),
        CursorDirection::BOF => (0, 0),
    }
}

/// How many other moves a move is made of; it bounds the recursion of
/// `move_to`.
pub open spec fn move_depth(d: CursorDirection) -> nat {
    match d {
        CursorDirection::Right => 2,
        CursorDirection::NextLine => 1,
        CursorDirection::Up => 1,
        _ => 0,
    }
}

/// A position on the grid: `row` counts lines from the top of the whole
/// buffer, `col` counts cells from the left edge.
pub struct Cursor {
    pub row: usize,
    pub col: usize,
}

impl Cursor {
    /// The top-left corner.
    pub fn new() -> (r: Self)
        ensures
            r.row == 0,
            r.col == 0,
    {
        Self { row: 0, col: 0 }
    }

    /// Moves the cursor one step in `direction`. Nothing underflows: moving
    /// left from the first column or up from the first row stays on the
    /// grid; the row saturates at the top of its integer range.
    pub fn move_to(&mut self, direction: CursorDirection)
        ensures
            final(self).row == if moved(old(self).row as int, old(self).col as int, direction).0
                <= usize::MAX {
                moved(old(self).row as int, old(self).col as int, direction).0
            } else {
                usize::MAX as int
            },
            final(self).col == moved(old(self).row as int, old(self).col as int, direction).1,
        decreases move_depth(direction),
    {
        match direction {
            CursorDirection::Up => {
                if self.row > 0 {
                    self.row -= 1;
                } else {
                    self.move_to(CursorDirection::BOL);
                }
            },
            CursorDirection::Down => {
                if self.row < usize::MAX {
                    self.row += 1;
                }
            },
            CursorDirection::Left => {
                if self.col > 0 {
                    self.col -= 1;
                }
            },
            CursorDirection::Right => {
                if self.col < TERMINAL_COLS {
                    self.col += 1;
                } else {
                    self.move_to(CursorDirection::NextLine);
                }
            },
            CursorDirection::NextLine => {
                self.move_to(CursorDirection::Down);
                self.move_to(CursorDirection::BOL);
            },
            CursorDirection::BOL => {
                self.col = 0;
            },
            CursorDirection::EOL => {
                self.col = TERMINAL_COLS;
            },
            CursorDirection::BOF => {
                self.row = 0;
                self.col = 0;
            },
        }
    }
}

} // verus!
