//! The redraw events, as the rest of the UI names them.

pub use super::ui::{GridCell, RedrawEvent};
