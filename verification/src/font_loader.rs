//! Registration of the fonts shipped inside the binary.

use vstd::prelude::*;

verus! {

/// Registers the embedded fonts with the system. Only macOS has a
/// registration (through Core Text, outside this library); elsewhere there
/// is nothing to do, and calling it any number of times is harmless.
pub fn register_embedded_fonts() {
}

} // verus!
