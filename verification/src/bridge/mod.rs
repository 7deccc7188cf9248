//! What passes between the UI and Neovim: commands, redraw events and
//! their decoding.

pub mod command;
pub mod events;
pub mod parser;
pub mod process;
pub mod ui;
pub mod value;
