//! The editor model that Neovim's redraw events build: cells, grids,
//! highlights, dirty rows and the state that holds them.

pub mod cell;
pub mod dirty;
pub mod grid;
pub mod highlight;
pub mod state;

pub use cell::{Cell, CellFlags};
pub use dirty::DirtyTracker;
pub use grid::Grid;
pub use highlight::{Color, DefaultColors, HighlightAttributes, HighlightMap, StyleFlags, UnderlineStyle};
pub use state::{Cursor, CursorShape, EditorState, ModeInfo};
