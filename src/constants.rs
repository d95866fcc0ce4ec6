use vstd::prelude::*;

verus! {

/// Number of columns of the terminal grid.
pub const TERMINAL_COLS: usize = 80;

/// Number of rows of the terminal grid that are visible at once.
pub const TERMINAL_ROWS: usize = 24;

} // verus!
