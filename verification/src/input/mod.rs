//! Keyboard and mouse input and the handler that turns it into commands.

pub mod handler;
pub mod keyboard;
pub mod mouse;
