//! The redraw decoder under the name the rest of the UI uses.

pub use super::ui::parse_redraw;
