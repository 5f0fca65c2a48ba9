use vstd::prelude::*;

verus! {

/// Width of the window, in pixels: the widest a board can be.
pub const WIDTH: usize = 500;

/// Height of the window, in pixels: the tallest a board can be.
pub const HEIGHT: usize = 600;

/// The least width and the least height of a board, in pixels.
pub const MIN_SIDE: usize = 100;

/// Columns of a board unless the settings say otherwise.
pub const DEFAULT_COLUMNS: usize = 5;

/// Rows of a board unless the settings say otherwise.
pub const DEFAULT_ROWS: usize = 6;

} // verus!
