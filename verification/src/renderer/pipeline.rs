//! Flags that tell the shader how to draw a quad.

use vstd::prelude::*;

verus! {

/// The quad samples the glyph atlas.
pub const FLAG_TEXTURED: u32 = 1;

/// The sampled glyph has its own colors (an emoji) and is not tinted.
pub const FLAG_COLORED_GLYPH: u32 = 2;

/// The flags of a glyph quad: always textured, and colored for a color
/// glyph. Background quads have no flag.
pub fn glyph_flags(is_colored: bool) -> (flags: u32)
    ensures
        flags == if is_colored { FLAG_TEXTURED | FLAG_COLORED_GLYPH } else { FLAG_TEXTURED },
        flags == if is_colored { 3u32 } else { 1u32 },
{
    let flags = FLAG_TEXTURED | if is_colored { FLAG_COLORED_GLYPH } else { 0 };
    assert(1u32 | 2u32 == 3u32) by (bit_vector);
    assert(1u32 | 0u32 == 1u32) by (bit_vector);
    flags
}

} // verus!
