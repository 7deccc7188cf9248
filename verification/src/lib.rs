//! Editor model, input translation and rendering logic of a Neovim GUI.

use vstd::prelude::*;

pub mod bridge;
pub mod cli;
pub mod config;
pub mod constants;
pub mod editor;
pub mod event;
pub mod font_loader;
pub mod input;
pub mod renderer;

verus! {

} // verus!
