//! Events that the Neovim side hands to the UI.

use vstd::prelude::*;

use crate::bridge::ui::RedrawEvent;

verus! {

/// What the Neovim task reports.
#[derive(Debug, Clone)]
pub enum NeovimEvent {
    /// A batch of redraw events.
    Redraw(Vec<RedrawEvent>),
    /// The end of a batch of updates.
    Flush,
    /// Neovim has exited.
    Quit,
}

} // verus!
