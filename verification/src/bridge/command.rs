//! The commands that the UI sends to the task that talks to Neovim.

use vstd::prelude::*;

verus! {

/// A request to the Neovim task.
#[derive(Debug, Clone)]
pub enum AppCommand {
    /// Start Neovim with these arguments.
    SpawnNeovim(Vec<String>),
    /// Resize the attached UI.
    Resize { cols: u64, rows: u64 },
    /// Send keys in Neovim's key notation.
    Input(String),
    /// Send a mouse event (`nvim_input_mouse`).
    MouseInput { button: String, action: String, modifier: String, grid: i64, row: i64, col: i64 },
    /// Quit Neovim and stop the task.
    Quit,
}

} // verus!
