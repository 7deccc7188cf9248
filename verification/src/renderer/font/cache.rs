//! The cache of glyphs placed in the atlas, keyed by glyph id and face.

use std::collections::HashMap;
use vstd::prelude::*;

use super::collection::{CollectionIndex, Style};

verus! {

broadcast use vstd::std_specs::hash::group_hash_axioms;

/// A shaped glyph: its glyph id in a face of the collection.
#[derive(Clone, Copy, PartialEq, Eq, Structural, Hash, Debug)]
pub struct GlyphCacheKey {
    /// The glyph id from shaping.
    pub glyph_id: u32,
    /// The face of the collection that holds the glyph.
    pub font_index: CollectionIndex,
}

impl GlyphCacheKey {
    /// The key of glyph `glyph_id` of face `font_index`.
    pub fn new(glyph_id: u32, font_index: CollectionIndex) -> (k: Self)
        ensures
            k == (GlyphCacheKey { glyph_id, font_index }),
    {
        GlyphCacheKey { glyph_id, font_index }
    }
}

/// The number of a style in a packed key.
pub open spec fn style_code(s: Style) -> u64 {
    match s {
        Style::Regular => 0,
        Style::Bold => 1,
        Style::Italic => 2,
        Style::BoldItalic => 3,
    }
}

/// A key packed into one integer: glyph id, style and face index each in
/// their own bits.
pub open spec fn key_code(k: GlyphCacheKey) -> u64 {
    (k.glyph_id as u64 * 0x1_0000_0000 + style_code(k.font_index.style) * 0x1_0000 + k.font_index.idx as u64) as u64
}

/// Different keys pack to different integers.
pub proof fn law_key_code_injective(a: GlyphCacheKey, b: GlyphCacheKey)
    ensures
        key_code(a) == key_code(b) ==> a == b,
{
    let ga = a.glyph_id as int;
    let gb = b.glyph_id as int;
    let sa = style_code(a.font_index.style) as int;
    let sb = style_code(b.font_index.style) as int;
    let ia = a.font_index.idx as int;
    let ib = b.font_index.idx as int;
    assert(ga * 0x1_0000_0000 + sa * 0x1_0000 + ia < 0x1_0000_0000_0000_0000) by (nonlinear_arith)
        requires
            0 <= ga < 0x1_0000_0000,
            0 <= sa < 4,
            0 <= ia < 0x1_0000,
    ;
    assert(gb * 0x1_0000_0000 + sb * 0x1_0000 + ib < 0x1_0000_0000_0000_0000) by (nonlinear_arith)
        requires
            0 <= gb < 0x1_0000_0000,
            0 <= sb < 4,
            0 <= ib < 0x1_0000,
    ;
    if key_code(a) == key_code(b) {
        assert(ga == gb && sa == sb && ia == ib) by (nonlinear_arith)
            requires
                ga * 0x1_0000_0000 + sa * 0x1_0000 + ia == gb * 0x1_0000_0000 + sb * 0x1_0000 + ib,
                0 <= ga < 0x1_0000_0000,
                0 <= sa < 4,
                0 <= ia < 0x1_0000,
                0 <= gb < 0x1_0000_0000,
                0 <= sb < 4,
                0 <= ib < 0x1_0000,
        ;
    }
}

/// Packs a key into one integer.
pub fn pack_key(k: &GlyphCacheKey) -> (c: u64)
    ensures
        c == key_code(*k),
{
    let s: u64 = match k.font_index.style {
        Style::Regular => 0,
        Style::Bold => 1,
        Style::Italic => 2,
        Style::BoldItalic => 3,
    };
    let g: u64 = k.glyph_id as u64;
    let i: u64 = k.font_index.idx as u64;
    assert(g * 0x1_0000_0000 + s * 0x1_0000 + i < 0x1_0000_0000_0000_0000) by (nonlinear_arith)
        requires
            g < 0x1_0000_0000,
            s < 4,
            i < 0x1_0000,
    ;
    g * 0x1_0000_0000 + s * 0x1_0000 + i
}

/// A glyph placed in the atlas, with what drawing it needs.
#[derive(Clone, Copy, Debug, PartialEq, Eq, Structural)]
pub struct CachedGlyph {
    /// Left edge in the atlas.
    pub atlas_x: u32,
    /// Top edge in the atlas.
    pub atlas_y: u32,
    /// Width in pixels.
    pub width: u32,
    /// Height in pixels.
    pub height: u32,
    /// Offset from the pen position to the left edge.
    pub bearing_x: i32,
    /// Offset from the baseline to the top edge.
    pub bearing_y: i32,
    /// Whether the glyph has its own colors (an emoji).
    pub is_colored: bool,
}

impl CachedGlyph {
    /// A glyph with nothing to draw.
    pub open spec fn spec_empty() -> CachedGlyph {
        CachedGlyph { atlas_x: 0, atlas_y: 0, width: 0, height: 0, bearing_x: 0, bearing_y: 0, is_colored: false }
    }

    /// Creates a glyph with nothing to draw.
    pub fn empty() -> (g: Self)
        ensures
            g == Self::spec_empty(),
    {
        CachedGlyph { atlas_x: 0, atlas_y: 0, width: 0, height: 0, bearing_x: 0, bearing_y: 0, is_colored: false }
    }
}

/// Glyphs by key: `Some` for a glyph placed in the atlas, `None` for one
/// that could not be rasterized (so that it is not tried again).
#[derive(Debug)]
pub struct ShapedGlyphCache {
    cache: HashMap<u64, Option<CachedGlyph>>,
}

impl View for ShapedGlyphCache {
    type V = Map<u64, Option<CachedGlyph>>;

    closed spec fn view(&self) -> Map<u64, Option<CachedGlyph>> {
        self.cache@
    }
}

impl ShapedGlyphCache {
    /// The entry of `key`, if there is one.
    pub open spec fn entry(&self, key: GlyphCacheKey) -> Option<Option<CachedGlyph>> {
        if self@.contains_key(key_code(key)) {
            Some(self@[key_code(key)])
        } else {
            None
        }
    }

    /// An empty cache.
    pub fn new() -> (c: Self)
        ensures
            c@ == Map::<u64, Option<CachedGlyph>>::empty(),
    {
        ShapedGlyphCache { cache: HashMap::new() }
    }

    /// `Some(Some(glyph))` for a cached glyph, `Some(None)` for a cached
    /// failure, `None` for a key not in the cache.
    pub fn get(&self, key: &GlyphCacheKey) -> (r: Option<Option<&CachedGlyph>>)
        ensures
            match r {
                Some(Some(g)) => self.entry(*key) == Some(Some(*g)),
                Some(None) => self.entry(*key) == Some(None::<CachedGlyph>),
                None => self.entry(*key) is None,
            },
    {
        let code = pack_key(key);
        match self.cache.get(&code) {
            Some(entry) => match entry {
                Some(g) => Some(Some(g)),
                None => Some(None),
            },
            None => None,
        }
    }

    /// Stores the result for `key`; `None` records a failed rasterization.
    pub fn insert(&mut self, key: GlyphCacheKey, glyph: Option<CachedGlyph>)
        ensures
            final(self)@ == old(self)@.insert(key_code(key), glyph),
    {
        let code = pack_key(&key);
        self.cache.insert(code, glyph);
    }

    /// Whether the cache has an entry for `key`.
    pub fn contains(&self, key: &GlyphCacheKey) -> (b: bool)
        ensures
            b == self.entry(*key) is Some,
    {
        let code = pack_key(key);
        self.cache.contains_key(&code)
    }

    /// The number of entries.
    pub fn len(&self) -> (n: usize)
        ensures
            n == self@.len(),
    {
        self.cache.len()
    }

    /// Whether the cache has no entry.
    pub fn is_empty(&self) -> (b: bool)
        ensures
            b == (self@.len() == 0),
    {
        self.cache.len() == 0
    }

    /// Forgets every entry.
    pub fn clear(&mut self)
        ensures
            final(self)@ == Map::<u64, Option<CachedGlyph>>::empty(),
    {
        self.cache.clear();
    }
}

impl Default for ShapedGlyphCache {
    fn default() -> (c: Self)
        ensures
            c@ == Map::<u64, Option<CachedGlyph>>::empty(),
    {
        Self::new()
    }
}

/// Reading a key back gives what was last stored for it; other keys read
/// as before.
pub proof fn law_cache_get_after_insert(
    before: Map<u64, Option<CachedGlyph>>,
    key: GlyphCacheKey,
    glyph: Option<CachedGlyph>,
    other: GlyphCacheKey,
)
    ensures
        before.insert(key_code(key), glyph)[key_code(key)] == glyph,
        other != key ==> (before.insert(key_code(key), glyph).contains_key(key_code(other)) == before.contains_key(
            key_code(other),
        ) && before.insert(key_code(key), glyph)[key_code(other)] == before[key_code(other)]),
{
    law_key_code_injective(key, other);
}

} // verus!
