//! Loading of the embedded symbols font by the font machinery.

use vstd::prelude::*;

verus! {

/// Registers the embedded symbols font. No platform but macOS registers
/// it yet; elsewhere nothing happens, and calling it again is harmless.
pub fn register_embedded_fonts() {
}

} // verus!
