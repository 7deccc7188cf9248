//! Which codepoints the fallback chain looks for in the embedded Nerd Font
//! before asking the system.

use vstd::prelude::*;

verus! {

/// The codepoint lies in a Unicode private use area, where Nerd Fonts put
/// their icons: the one of the Basic Multilingual Plane, or the
/// supplementary areas A and B.
pub open spec fn in_private_use_area(codepoint: u32) -> bool {
    ||| 0xE000 <= codepoint <= 0xF8FF
    ||| 0xF0000 <= codepoint <= 0xFFFFD
    ||| 0x100000 <= codepoint <= 0x10FFFD
}

/// Returns true for a codepoint that the embedded Nerd Font is tried for
/// first.
pub fn is_nerd_font_codepoint(codepoint: u32) -> (b: bool)
    ensures
        b == in_private_use_area(codepoint),
{
    (0xE000 <= codepoint && codepoint <= 0xF8FF) || (0xF0000 <= codepoint && codepoint <= 0xFFFFD) || (0x100000
        <= codepoint && codepoint <= 0x10FFFD)
}

} // verus!
