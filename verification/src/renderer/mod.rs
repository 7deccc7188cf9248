//! The parts of the renderer that decide what is drawn: glyph atlas
//! packing, batch sizing, quad flags, and the font machinery's data.

pub mod atlas;
pub mod batch;
pub mod context;
pub mod font;
pub mod grid_renderer;
pub mod pipeline;
