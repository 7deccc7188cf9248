//! Font styles, and the index of a face within a collection of fonts.

use vstd::prelude::*;

verus! {

/// The style of a font face.
#[derive(Debug, Clone, Copy, PartialEq, Eq, Structural, Hash)]
pub enum Style {
    Regular,
    Bold,
    Italic,
    BoldItalic,
}

/// The style with the given weight and slant.
pub open spec fn style_of(bold: bool, italic: bool) -> Style {
    match (bold, italic) {
        (false, false) => Style::Regular,
        (true, false) => Style::Bold,
        (false, true) => Style::Italic,
        (true, true) => Style::BoldItalic,
    }
}

impl Style {
    /// The style with the given weight and slant.
    pub fn from_flags(bold: bool, italic: bool) -> (s: Self)
        ensures
            s == style_of(bold, italic),
    {
        match (bold, italic) {
            (false, false) => Style::Regular,
            (true, false) => Style::Bold,
            (false, true) => Style::Italic,
            (true, true) => Style::BoldItalic,
        }
    }

    /// The style is bold.
    pub open spec fn bold(self) -> bool {
        self is Bold || self is BoldItalic
    }

    /// The style is italic.
    pub open spec fn italic(self) -> bool {
        self is Italic || self is BoldItalic
    }

    /// Whether the style is bold.
    pub fn is_bold(&self) -> (b: bool)
        ensures
            b == self.bold(),
    {
        match self {
            Style::Bold | Style::BoldItalic => true,
            _ => false,
        }
    }

    /// Whether the style is italic.
    pub fn is_italic(&self) -> (b: bool)
        ensures
            b == self.italic(),
    {
        match self {
            Style::Italic | Style::BoldItalic => true,
            _ => false,
        }
    }
}

/// A style reads back the weight and slant it was made from.
pub proof fn law_style_round_trip(bold: bool, italic: bool)
    ensures
        style_of(bold, italic).bold() == bold,
        style_of(bold, italic).italic() == italic,
{
}

/// A face of a collection: its style and its place in that style's list
/// (0 is the primary face, higher indices are fallbacks).
#[derive(Debug, Clone, Copy, PartialEq, Eq, Structural, Hash)]
pub struct CollectionIndex {
    pub style: Style,
    pub idx: u16,
}

impl CollectionIndex {
    /// The face at `idx` in the list of `style`.
    pub fn new(style: Style, idx: u16) -> (c: Self)
        ensures
            c == (CollectionIndex { style, idx }),
    {
        CollectionIndex { style, idx }
    }

    /// The primary face of `style`.
    pub fn primary(style: Style) -> (c: Self)
        ensures
            c == (CollectionIndex { style, idx: 0 }),
    {
        CollectionIndex { style, idx: 0 }
    }
}

/// The first face in a list that has the glyph: its place and the glyph id.
pub open spec fn first_hit(hits: Seq<Option<u32>>) -> Option<(int, u32)>
    decreases hits.len(),
{
    if hits.len() == 0 {
        None
    } else {
        match first_hit(hits.drop_last()) {
            Some(h) => Some(h),
            None => match hits.last() {
                Some(g) => Some((hits.len() - 1, g)),
                None => None,
            },
        }
    }
}

/// Where a character's glyph is found among the faces of a collection:
/// the faces of its style first, then (for another style) the regular
/// faces. `style_hits` and `regular_hits` hold, per face, the glyph id the
/// face has for the character, if any.
pub open spec fn resolved_in(
    style: Style,
    style_hits: Seq<Option<u32>>,
    regular_hits: Seq<Option<u32>>,
) -> Option<(CollectionIndex, u32)> {
    match first_hit(style_hits) {
        Some((i, g)) => Some((CollectionIndex { style, idx: i as u16 }, g)),
        None => if style != Style::Regular {
            match first_hit(regular_hits) {
                Some((i, g)) => Some((CollectionIndex { style: Style::Regular, idx: i as u16 }, g)),
                None => None,
            }
        } else {
            None
        },
    }
}

proof fn lemma_first_hit(hits: Seq<Option<u32>>)
    ensures
        match first_hit(hits) {
            Some((i, g)) => 0 <= i < hits.len() && hits[i] == Some(g) && forall|k: int| 0 <= k < i ==> #[trigger] hits[k] is None,
            None => forall|k: int| 0 <= k < hits.len() ==> #[trigger] hits[k] is None,
        },
    decreases hits.len(),
{
    if hits.len() > 0 {
        let p = hits.drop_last();
        lemma_first_hit(p);
        match first_hit(p) {
            Some((i, g)) => {
                assert(p[i] == hits[i]);
                assert forall|k: int| 0 <= k < i implies #[trigger] hits[k] is None by {
                    assert(p[k] == hits[k]);
                }
            },
            None => {
                assert forall|k: int| 0 <= k < p.len() implies #[trigger] hits[k] is None by {
                    assert(p[k] == hits[k]);
                }
            },
        }
    }
}

/// The first face of a list that has the glyph.
fn find_hit(hits: &[Option<u32>]) -> (r: Option<(usize, u32)>)
    ensures
        match r {
            Some((i, g)) => first_hit(hits@) == Some((i as int, g)),
            None => first_hit(hits@) is None,
        },
{
    proof {
        lemma_first_hit(hits@);
    }
    let mut i: usize = 0;
    while i < hits.len()
        invariant
            i <= hits@.len(),
            forall|k: int| 0 <= k < i ==> #[trigger] hits@[k] is None,
        decreases hits@.len() - i,
    {
        if let Some(g) = hits[i] {
            proof {
                lemma_first_hit(hits@);
                match first_hit(hits@) {
                    Some((j, h)) => {
                        if j < i {
                            assert(hits@[j] is None);
                        }
                        if j > i {
                            assert(hits@[i as int] is None);
                        }
                    },
                    None => {
                        assert(hits@[i as int] is None);
                    },
                }
            }
            return Some((i, g));
        }
        i = i + 1;
    }
    None
}

/// Finds a character's glyph among the faces of a collection, given what
/// each face has for it (see `resolved_in`); `None` leaves the search to the
/// fallback fonts.
pub fn resolve_in_faces(style: Style, style_hits: &[Option<u32>], regular_hits: &[Option<u32>]) -> (r: Option<
    (CollectionIndex, u32),
>)
    ensures
        r == resolved_in(style, style_hits@, regular_hits@),
{
    match find_hit(style_hits) {
        Some((i, g)) => Some((CollectionIndex { style, idx: i as u16 }, g)),
        None => {
            if style != Style::Regular {
                match find_hit(regular_hits) {
                    Some((i, g)) => Some((CollectionIndex { style: Style::Regular, idx: i as u16 }, g)),
                    None => None,
                }
            } else {
                None
            }
        },
    }
}

/// Where a glyph found in a fallback face lands when no face of the
/// collection has it: the fallback face is added after the `style_len`
/// faces of the style (its index taken as a 16-bit number), and the glyph
/// is the one the fallback face gives, if it gives one.
pub open spec fn fallback_hit_of(style: Style, style_len: usize, fallback_glyph: Option<u32>) -> Option<
    (CollectionIndex, u32),
> {
    match fallback_glyph {
        Some(g) => Some((CollectionIndex { style, idx: (style_len % 0x10000) as u16 }, g)),
        None => None,
    }
}

/// Returns where a glyph found in a fallback face lands (see
/// `fallback_hit_of`).
pub fn fallback_hit(style: Style, style_len: usize, fallback_glyph: Option<u32>) -> (r: Option<(CollectionIndex, u32)>)
    ensures
        r == fallback_hit_of(style, style_len, fallback_glyph),
{
    match fallback_glyph {
        Some(g) => {
            let idx: u16 = (style_len % 0x10000) as u16;
            Some((CollectionIndex { style, idx }, g))
        },
        None => None,
    }
}

} // verus!
