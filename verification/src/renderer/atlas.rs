//! Placing glyphs in the atlas texture, row by row, and the pixel data
//! that is uploaded for them.

use vstd::prelude::*;

use super::font::cache::{key_code, law_key_code_injective, CachedGlyph, GlyphCacheKey, ShapedGlyphCache};
use super::font::face::GlyphBuffer;

verus! {

/// Width and height of the square atlas texture, in pixels.
pub const ATLAS_SIZE: u32 = 1024;

/// Pixels left free right of and below each glyph.
pub const ATLAS_PADDING: u32 = 1;

/// Where the next glyph goes: glyphs fill a row from the left; a glyph that
/// does not fit the row's width starts a new row below the tallest glyph of
/// the current one.
#[derive(Debug, Clone, Copy, PartialEq, Eq, Structural)]
pub struct AtlasPacker {
    size: u32,
    current_row_y: u32,
    current_row_x: u32,
    current_row_height: u32,
}

/// The packer's state: atlas size, and the top, next free column and
/// height of the current row.
pub struct PackerView {
    pub size: int,
    pub row_y: int,
    pub row_x: int,
    pub row_height: int,
}

/// The place of a `w` by `h` glyph in state `s`, and the state after it;
/// `None` (and the state kept) when the atlas is full.
pub open spec fn allocation(s: PackerView, w: int, h: int) -> (Option<(int, int)>, PackerView) {
    let pw = w + ATLAS_PADDING;
    let ph = h + ATLAS_PADDING;
    if s.row_x + pw <= s.size {
        (
            Some((s.row_x, s.row_y)),
            PackerView {
                row_x: s.row_x + pw,
                row_height: if s.row_height >= ph { s.row_height } else { ph },
                ..s
            },
        )
    } else {
        let ny = s.row_y + s.row_height;
        if ny + ph > s.size {
            (None, s)
        } else {
            (Some((0, ny)), PackerView { row_y: ny, row_x: pw, row_height: ph, ..s })
        }
    }
}

impl AtlasPacker {
    /// The packer's state.
    pub closed spec fn spec_state(&self) -> PackerView {
        PackerView {
            size: self.size as int,
            row_y: self.current_row_y as int,
            row_x: self.current_row_x as int,
            row_height: self.current_row_height as int,
        }
    }

    /// The current row never starts below the atlas.
    pub closed spec fn wf(&self) -> bool {
        self.current_row_y <= self.size
    }

    /// An empty atlas of `size` by `size` pixels.
    pub fn new(size: u32) -> (p: Self)
        ensures
            p.wf(),
            p.spec_state() == (PackerView { size: size as int, row_y: 0, row_x: 0, row_height: 0 }),
    {
        AtlasPacker { size, current_row_y: 0, current_row_x: 0, current_row_height: 0 }
    }

    /// The atlas size in pixels.
    pub fn atlas_size(&self) -> (s: u32)
        ensures
            s == self.spec_state().size,
    {
        self.size
    }

    /// Finds room for a `width` by `height` glyph, or `None` when the atlas
    /// is full.
    pub fn allocate(&mut self, width: u32, height: u32) -> (r: Option<(u32, u32)>)
        requires
            old(self).wf(),
            width < u32::MAX,
            height < u32::MAX,
        ensures
            final(self).wf(),
            final(self).spec_state() == allocation(old(self).spec_state(), width as int, height as int).1,
            match r {
                Some((x, y)) => allocation(old(self).spec_state(), width as int, height as int).0 == Some(
                    (x as int, y as int),
                ),
                None => allocation(old(self).spec_state(), width as int, height as int).0 is None,
            },
    {
        let padded_width: u32 = width + ATLAS_PADDING;
        let padded_height: u32 = height + ATLAS_PADDING;
        if (self.current_row_x as u64) + (padded_width as u64) <= self.size as u64 {
            let x = self.current_row_x;
            let y = self.current_row_y;
            self.current_row_x = self.current_row_x + padded_width;
            if self.current_row_height < padded_height {
                self.current_row_height = padded_height;
            }
            return Some((x, y));
        }
        let new_row_y: u64 = self.current_row_y as u64 + self.current_row_height as u64;
        if new_row_y + padded_height as u64 > self.size as u64 {
            return None;
        }
        self.current_row_y = new_row_y as u32;
        self.current_row_x = padded_width;
        self.current_row_height = padded_height;
        Some((0, new_row_y as u32))
    }

    /// Empties the atlas.
    pub fn reset(&mut self)
        ensures
            final(self).wf(),
            final(self).spec_state() == (PackerView {
                size: old(self).spec_state().size,
                row_y: 0,
                row_x: 0,
                row_height: 0,
            }),
    {
        self.current_row_x = 0;
        self.current_row_y = 0;
        self.current_row_height = 0;
    }
}

/// Places a rasterized glyph of `width` by `height` pixels: a glyph with no
/// pixels takes no room and sits at the origin; any other takes the room
/// the packer gives, or is refused when the atlas is full. The second
/// result tells whether pixels must be uploaded.
pub fn place_glyph(
    packer: &mut AtlasPacker,
    width: u32,
    height: u32,
    bearing_x: i32,
    bearing_y: i32,
    is_colored: bool,
) -> (r: Option<(CachedGlyph, bool)>)
    requires
        old(packer).wf(),
        width < u32::MAX,
        height < u32::MAX,
    ensures
        final(packer).wf(),
        width == 0 || height == 0 ==> *final(packer) == *old(packer) && r == Some(
            (CachedGlyph { atlas_x: 0, atlas_y: 0, width: 0, height: 0, bearing_x, bearing_y, is_colored }, false),
        ),
        width != 0 && height != 0 ==> {
            let (place, after) = allocation(old(packer).spec_state(), width as int, height as int);
            &&& final(packer).spec_state() == after
            &&& match place {
                Some((x, y)) => r == Some(
                    (
                        CachedGlyph {
                            atlas_x: x as u32,
                            atlas_y: y as u32,
                            width,
                            height,
                            bearing_x,
                            bearing_y,
                            is_colored,
                        },
                        true,
                    ),
                ),
                None => r is None,
            }
        },
{
    if width == 0 || height == 0 {
        return Some(
            (CachedGlyph { atlas_x: 0, atlas_y: 0, width: 0, height: 0, bearing_x, bearing_y, is_colored }, false),
        );
    }
    match packer.allocate(width, height) {
        Some((x, y)) => Some((CachedGlyph { atlas_x: x, atlas_y: y, width, height, bearing_x, bearing_y, is_colored }, true)),
        None => None,
    }
}

/// The RGBA pixels uploaded for a glyph of `n` pixels: coverage (RGB)
/// becomes white with the mean of the three channels as alpha, missing
/// pixels transparent black; color data (RGBA) is taken as it is when it
/// has exactly `n` pixels, and is all zero otherwise.
pub open spec fn rgba_of(buffer: GlyphBuffer, n: int) -> Seq<u8> {
    match buffer {
        GlyphBuffer::Rgb(data) => Seq::new(
            (4 * n) as nat,
            |j: int|
                {
                    let i = j / 4;
                    if 3 * i + 2 < data@.len() {
                        if j % 4 == 3 {
                            ((data@[3 * i] as int + data@[3 * i + 1] as int + data@[3 * i + 2] as int) / 3) as u8
                        } else {
                            255u8
                        }
                    } else {
                        0u8
                    }
                },
        ),
        GlyphBuffer::Rgba(data) => if data@.len() == 4 * n {
            data@
        } else {
            Seq::new((4 * n) as nat, |j: int| 0u8)
        },
    }
}

/// Converts a glyph's pixels to RGBA for the atlas texture.
pub fn to_rgba(buffer: &GlyphBuffer, width: u32, height: u32) -> (rgba: Vec<u8>)
    requires
        width as int * height as int <= u32::MAX,
        4 * (width as int * height as int) <= usize::MAX,
    ensures
        rgba@ == rgba_of(*buffer, width as int * height as int),
{
    let pixel_count: usize = (width * height) as usize;
    let total: usize = pixel_count * 4;
    let mut rgba: Vec<u8> = Vec::with_capacity(total);
    match buffer {
        GlyphBuffer::Rgb(data) => {
            let mut i: usize = 0;
            while i < pixel_count
                invariant
                    i <= pixel_count,
                    4 * pixel_count <= usize::MAX,
                    rgba@.len() == 4 * i,
                    forall|j: int| 0 <= j < 4 * i ==> #[trigger] rgba@[j] == rgba_of(*buffer, pixel_count as int)[j],
                    *buffer == GlyphBuffer::Rgb(*data),
                decreases pixel_count - i,
            {
                let ghost before = rgba@;
                let idx: usize = i * 3;
                if idx + 2 < data.len() {
                    let r = data[idx];
                    let g = data[idx + 1];
                    let b = data[idx + 2];
                    let alpha: u8 = ((r as u32 + g as u32 + b as u32) / 3) as u8;
                    rgba.push(255);
                    rgba.push(255);
                    rgba.push(255);
                    rgba.push(alpha);
                } else {
                    rgba.push(0);
                    rgba.push(0);
                    rgba.push(0);
                    rgba.push(0);
                }
                proof {
                    assert forall|j: int| 0 <= j < 4 * (i + 1) implies #[trigger] rgba@[j] == rgba_of(
                        *buffer,
                        pixel_count as int,
                    )[j] by {
                        if j < 4 * i {
                            assert(rgba@[j] == before[j]);
                        } else {
                            assert(j / 4 == i) by (nonlinear_arith)
                                requires
                                    4 * i <= j < 4 * i + 4,
                            ;
                            assert(j % 4 == j - 4 * i) by (nonlinear_arith)
                                requires
                                    4 * i <= j < 4 * i + 4,
                            ;
                        }
                    }
                }
                i = i + 1;
            }
            assert(rgba@ =~= rgba_of(*buffer, pixel_count as int));
        },
        GlyphBuffer::Rgba(data) => {
            if data.len() == total {
                let mut i: usize = 0;
                while i < total
                    invariant
                        i <= total,
                        total == data@.len(),
                        rgba@ == data@.take(i as int),
                    decreases total - i,
                {
                    rgba.push(data[i]);
                    i = i + 1;
                    assert(rgba@ =~= data@.take(i as int));
                }
                assert(data@.take(total as int) =~= data@);
            } else {
                let mut i: usize = 0;
                while i < total
                    invariant
                        i <= total,
                        rgba@ == Seq::new(i as nat, |j: int| 0u8),
                    decreases total - i,
                {
                    rgba.push(0);
                    i = i + 1;
                    assert(rgba@ =~= Seq::new(i as nat, |j: int| 0u8));
                }
            }
        },
    }
    rgba
}

/// What rasterizing a glyph gave: its size in pixels, its placement and
/// whether it has its own colors.
#[derive(Debug, Clone, Copy, PartialEq, Eq, Structural)]
pub struct RasterInfo {
    pub width: u32,
    pub height: u32,
    pub bearing_x: i32,
    pub bearing_y: i32,
    pub is_colored: bool,
}

/// Records the outcome of rasterizing the glyph `key` that the cache did
/// not have: a failure is cached as `None` so it is not tried again; a
/// glyph is placed (see `place_glyph`) and cached, unless the atlas is full,
/// in which case nothing is cached. The second result tells whether pixels
/// must be uploaded.
pub fn record_rasterized(
    cache: &mut ShapedGlyphCache,
    packer: &mut AtlasPacker,
    key: GlyphCacheKey,
    rasterized: Option<RasterInfo>,
) -> (r: Option<(CachedGlyph, bool)>)
    requires
        old(packer).wf(),
        match rasterized {
            Some(info) => info.width < u32::MAX && info.height < u32::MAX,
            None => true,
        },
    ensures
        final(packer).wf(),
        match rasterized {
            None => r is None && *final(packer) == *old(packer) && final(cache)@ == old(cache)@.insert(
                key_code(key),
                None,
            ),
            Some(info) => {
                &&& info.width == 0 || info.height == 0 ==> *final(packer) == *old(packer) && r == Some(
                    (
                        CachedGlyph {
                            atlas_x: 0,
                            atlas_y: 0,
                            width: 0,
                            height: 0,
                            bearing_x: info.bearing_x,
                            bearing_y: info.bearing_y,
                            is_colored: info.is_colored,
                        },
                        false,
                    ),
                )
                &&& info.width != 0 && info.height != 0 ==> {
                    let (place, after) = allocation(old(packer).spec_state(), info.width as int, info.height as int);
                    &&& final(packer).spec_state() == after
                    &&& match place {
                        Some((x, y)) => r == Some(
                            (
                                CachedGlyph {
                                    atlas_x: x as u32,
                                    atlas_y: y as u32,
                                    width: info.width,
                                    height: info.height,
                                    bearing_x: info.bearing_x,
                                    bearing_y: info.bearing_y,
                                    is_colored: info.is_colored,
                                },
                                true,
                            ),
                        ),
                        None => r is None,
                    }
                }
                &&& match r {
                    Some((g, _)) => final(cache)@ == old(cache)@.insert(key_code(key), Some(g)),
                    None => final(cache)@ == old(cache)@,
                }
            },
        },
        final(cache).entry(key) == match r {
            Some((g, _)) => Some(Some(g)),
            None => if rasterized is None {
                Some(None::<CachedGlyph>)
            } else {
                old(cache).entry(key)
            },
        },
        forall|other: GlyphCacheKey| other != key ==> #[trigger] final(cache).entry(other) == old(cache).entry(other),
{
    proof {
        assert forall|other: GlyphCacheKey| other != key implies key_code(other) != key_code(key) by {
            law_key_code_injective(key, other);
        }
    }
    match rasterized {
        None => {
            cache.insert(key, None);
            None
        },
        Some(info) => {
            let placed = place_glyph(
                packer,
                info.width,
                info.height,
                info.bearing_x,
                info.bearing_y,
                info.is_colored,
            );
            match placed {
                Some((g, upload)) => {
                    cache.insert(key, Some(g));
                    Some((g, upload))
                },
                None => None,
            }
        },
    }
}

/// After a glyph is placed, the current row keeps the glyph: the next free
/// column is right of it and the row is at least as tall as it.
pub proof fn law_allocation_advances(s: PackerView, w: int, h: int)
    requires
        0 <= w,
        0 <= h,
        s.row_height >= 0,
        allocation(s, w, h).0 is Some,
    ensures
        ({
            let (place, after) = allocation(s, w, h);
            let (x, y) = place->0;
            &&& after.row_y == y
            &&& after.row_x == x + w + ATLAS_PADDING
            &&& after.row_height >= h + ATLAS_PADDING
            &&& y + h + ATLAS_PADDING <= after.row_y + after.row_height
        }),
{
}

/// Two glyphs placed one after the other do not overlap: the second starts
/// right of the first in the same row, or in a row below it.
pub proof fn law_allocations_disjoint(s: PackerView, w1: int, h1: int, w2: int, h2: int)
    requires
        0 <= w1,
        0 <= h1,
        0 <= w2,
        0 <= h2,
        s.row_height >= 0,
        allocation(s, w1, h1).0 is Some,
        allocation(allocation(s, w1, h1).1, w2, h2).0 is Some,
    ensures
        ({
            let (x1, y1) = allocation(s, w1, h1).0->0;
            let (x2, y2) = allocation(allocation(s, w1, h1).1, w2, h2).0->0;
            (y2 == y1 && x2 >= x1 + w1 + ATLAS_PADDING) || y2 >= y1 + h1 + ATLAS_PADDING
        }),
{
}

/// The places of glyphs of sizes `sizes` allocated one after the other
/// from state `s`, and the state after them.
pub open spec fn allocations(s: PackerView, sizes: Seq<(int, int)>) -> (Seq<Option<(int, int)>>, PackerView)
    decreases sizes.len(),
{
    if sizes.len() == 0 {
        (Seq::empty(), s)
    } else {
        let (places, t) = allocations(s, sizes.drop_last());
        let (p, u) = allocation(t, sizes.last().0, sizes.last().1);
        (places.push(p), u)
    }
}

/// The column of a place.
pub open spec fn place_x(p: Option<(int, int)>) -> int {
    match p {
        Some((x, _)) => x,
        None => 0,
    }
}

/// The row of a place.
pub open spec fn place_y(p: Option<(int, int)>) -> int {
    match p {
        Some((_, y)) => y,
        None => 0,
    }
}

/// The padded rectangle of a `w` by `h` glyph placed at (`x`, `y`) lies
/// above the current row of `t`, or in it left of its next free column.
pub open spec fn packed_in(t: PackerView, x: int, y: int, w: int, h: int) -> bool {
    ||| y + h + ATLAS_PADDING <= t.row_y
    ||| (y == t.row_y && x + w + ATLAS_PADDING <= t.row_x && h + ATLAS_PADDING <= t.row_height)
}

/// The padded rectangles of two placed glyphs share no pixel.
pub open spec fn apart(x1: int, y1: int, w1: int, h1: int, x2: int, y2: int, w2: int, h2: int) -> bool {
    ||| x1 + w1 + ATLAS_PADDING <= x2
    ||| x2 + w2 + ATLAS_PADDING <= x1
    ||| y1 + h1 + ATLAS_PADDING <= y2
    ||| y2 + h2 + ATLAS_PADDING <= y1
}

/// Over any number of glyphs allocated one after the other, no two placed
/// glyphs overlap, padding included; every placed glyph lies above the
/// packer's current row or in it; and a glyph whose padded width fits the
/// atlas ends inside it horizontally.
pub proof fn law_allocations_pairwise_disjoint(s: PackerView, sizes: Seq<(int, int)>)
    requires
        s.row_height >= 0,
        s.row_x >= 0,
        forall|i: int| 0 <= i < sizes.len() ==> 0 <= (#[trigger] sizes[i]).0 && 0 <= sizes[i].1,
    ensures
        ({
            let (places, t) = allocations(s, sizes);
            &&& places.len() == sizes.len()
            &&& t.size == s.size
            &&& t.row_height >= 0
            &&& t.row_x >= 0
            &&& forall|i: int|
                0 <= i < places.len() && (#[trigger] places[i]) is Some ==> packed_in(
                    t,
                    place_x(places[i]),
                    place_y(places[i]),
                    sizes[i].0,
                    sizes[i].1,
                )
            &&& forall|i: int|
                0 <= i < places.len() && (#[trigger] places[i]) is Some && sizes[i].0 + ATLAS_PADDING <= s.size
                    ==> place_x(places[i]) + sizes[i].0 + ATLAS_PADDING <= s.size
            &&& forall|i: int, j: int|
                0 <= i < j < places.len() && (#[trigger] places[i]) is Some && (#[trigger] places[j]) is Some
                    ==> apart(
                    place_x(places[i]),
                    place_y(places[i]),
                    sizes[i].0,
                    sizes[i].1,
                    place_x(places[j]),
                    place_y(places[j]),
                    sizes[j].0,
                    sizes[j].1,
                )
        }),
    decreases sizes.len(),
{
    if sizes.len() > 0 {
        let prev = sizes.drop_last();
        assert forall|i: int| 0 <= i < prev.len() implies 0 <= (#[trigger] prev[i]).0 && 0 <= prev[i].1 by {
            assert(prev[i] == sizes[i]);
        }
        law_allocations_pairwise_disjoint(s, prev);
        let (places, t) = allocations(s, prev);
        let (w, h) = sizes.last();
        let (p, u) = allocation(t, w, h);
        let all = places.push(p);
        let n = places.len() as int;
        assert forall|i: int| 0 <= i < n implies #[trigger] sizes[i] == prev[i] by {}
        assert forall|i: int| 0 <= i < all.len() && (#[trigger] all[i]) is Some implies packed_in(
            u,
            place_x(all[i]),
            place_y(all[i]),
            sizes[i].0,
            sizes[i].1,
        ) by {
            if i < n {
                assert(all[i] == places[i]);
                assert(sizes[i] == prev[i]);
            }
        }
        assert forall|i: int| 0 <= i < all.len() && (#[trigger] all[i]) is Some && sizes[i].0 + ATLAS_PADDING <= s.size
            implies place_x(all[i]) + sizes[i].0 + ATLAS_PADDING <= s.size by {
            if i < n {
                assert(all[i] == places[i]);
                assert(sizes[i] == prev[i]);
            }
        }
        assert forall|i: int, j: int| 0 <= i < j < all.len() && (#[trigger] all[i]) is Some && (#[trigger] all[j]) is Some
            implies apart(
            place_x(all[i]),
            place_y(all[i]),
            sizes[i].0,
            sizes[i].1,
            place_x(all[j]),
            place_y(all[j]),
            sizes[j].0,
            sizes[j].1,
        ) by {
            assert(all[i] == places[i]);
            assert(sizes[i] == prev[i]);
            if j < n {
                assert(all[j] == places[j]);
                assert(sizes[j] == prev[j]);
                assert(places[i] is Some && places[j] is Some);
            } else {
                assert(places[i] is Some);
                assert(packed_in(t, place_x(places[i]), place_y(places[i]), prev[i].0, prev[i].1));
            }
        }
        assert(allocations(s, sizes) == (all, u));
    }
}

} // verus!
