//! Layout and size constants shared by the UI.

use vstd::prelude::*;

verus! {

/// Space in pixels between the window edge and the grid.
pub const PADDING: u32 = 2;

/// Space in pixels above the grid (the same as `PADDING` outside macOS,
/// where the title bar does not overlap the content).
pub const PADDING_TOP: u32 = 2;

/// Cell width in pixels before a font is loaded.
pub const DEFAULT_CELL_WIDTH: u32 = 10;

/// Cell height in pixels before a font is loaded.
pub const DEFAULT_CELL_HEIGHT: u32 = 20;

/// Columns of the UI that is attached to Neovim at start.
pub const DEFAULT_COLS: u64 = 80;

/// Rows of the UI that is attached to Neovim at start.
pub const DEFAULT_ROWS: u64 = 24;

} // verus!
