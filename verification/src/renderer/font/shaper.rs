//! Shaping data: shaped glyphs, OpenType features, and how a run's text is
//! split among the faces of a collection before it is shaped.

use vstd::prelude::*;

use super::collection::{CollectionIndex, Style};

verus! {

/// A glyph that shaping placed.
#[derive(Debug, Clone, Copy, PartialEq, Eq, Structural)]
pub struct ShapedGlyph {
    pub glyph_id: u32,
    /// The character of the run's text the glyph starts at.
    pub cluster: u32,
    pub x_advance: i32,
    pub y_advance: i32,
    pub x_offset: i32,
    pub y_offset: i32,
    pub font_index: CollectionIndex,
}

/// A text to shape, and its style.
#[derive(Debug, Clone, Copy)]
pub struct TextRun<'a> {
    pub text: &'a str,
    pub style: Style,
}

/// An OpenType tag from its four bytes, first byte highest.
pub open spec fn tag_of(a: u8, b: u8, c: u8, d: u8) -> u32 {
    (a as int * 0x100_0000 + b as int * 0x1_0000 + c as int * 0x100 + d as int) as u32
}

/// Builds an OpenType tag from its four bytes, first byte highest.
pub fn make_tag(a: u8, b: u8, c: u8, d: u8) -> (t: u32)
    ensures
        t == tag_of(a, b, c, d),
{
    let t: u32 = ((a as u32) << 24u32) | ((b as u32) << 16u32) | ((c as u32) << 8u32) | (d as u32);
    assert(t == (a as u32) * 0x100_0000u32 + (b as u32) * 0x1_0000u32 + (c as u32) * 0x100u32 + (d as u32))
        by (bit_vector)
        requires
            t == ((a as u32) << 24u32) | ((b as u32) << 16u32) | ((c as u32) << 8u32) | (d as u32),
    ;
    t
}

/// Start of the range a feature applies to: the whole text.
pub const FEATURE_GLOBAL_START: u32 = 0;

/// End of the range a feature applies to: the whole text.
pub const FEATURE_GLOBAL_END: u32 = 0xFFFF_FFFF;

/// An OpenType feature switched on or off over a range of the text.
#[derive(Debug, Clone, Copy, PartialEq, Eq, Structural)]
pub struct FontFeature {
    pub tag: u32,
    pub value: u32,
    pub start: u32,
    pub end: u32,
}

/// A feature switched on over the whole text.
pub open spec fn enabled_feature(tag: u32) -> FontFeature {
    FontFeature { tag, value: 1, start: FEATURE_GLOBAL_START, end: FEATURE_GLOBAL_END }
}

/// The feature that a name switches on: its first four bytes are the tag;
/// a name shorter than four bytes names none.
pub fn parse_feature(s: &[u8]) -> (f: Option<FontFeature>)
    ensures
        match f {
            Some(x) => s@.len() >= 4 && x == enabled_feature(tag_of(s@[0], s@[1], s@[2], s@[3])),
            None => s@.len() < 4,
        },
{
    if s.len() < 4 {
        return None;
    }
    Some(
        FontFeature {
            tag: make_tag(s[0], s[1], s[2], s[3]),
            value: 1,
            start: FEATURE_GLOBAL_START,
            end: FEATURE_GLOBAL_END,
        },
    )
}

/// The features always on: contextual alternates (`calt`) and standard
/// ligatures (`liga`).
pub fn default_features() -> (fs: Vec<FontFeature>)
    ensures
        fs@ == seq![enabled_feature(tag_of(0x63, 0x61, 0x6c, 0x74)), enabled_feature(tag_of(0x6c, 0x69, 0x67, 0x61))],
{
    let mut fs: Vec<FontFeature> = Vec::new();
    fs.push(
        FontFeature {
            tag: make_tag(0x63, 0x61, 0x6c, 0x74),
            value: 1,
            start: FEATURE_GLOBAL_START,
            end: FEATURE_GLOBAL_END,
        },
    );
    fs.push(
        FontFeature {
            tag: make_tag(0x6c, 0x69, 0x67, 0x61),
            value: 1,
            start: FEATURE_GLOBAL_START,
            end: FEATURE_GLOBAL_END,
        },
    );
    assert(fs@ =~= seq![enabled_feature(tag_of(0x63, 0x61, 0x6c, 0x74)), enabled_feature(tag_of(0x6c, 0x69, 0x67, 0x61))]);
    fs
}

/// The default features followed by those named, skipping names shorter
/// than four bytes.
pub open spec fn features_with(names: Seq<Seq<u8>>) -> Seq<FontFeature>
    decreases names.len(),
{
    if names.len() == 0 {
        seq![enabled_feature(tag_of(0x63, 0x61, 0x6c, 0x74)), enabled_feature(tag_of(0x6c, 0x69, 0x67, 0x61))]
    } else {
        let n = names.last();
        if n.len() >= 4 {
            features_with(names.drop_last()).push(enabled_feature(tag_of(n[0], n[1], n[2], n[3])))
        } else {
            features_with(names.drop_last())
        }
    }
}

/// The features of a shaper made with extra feature names.
pub fn features_from_names(names: &[&[u8]]) -> (fs: Vec<FontFeature>)
    ensures
        fs@ == features_with(names@.map_values(|n: &[u8]| n@)),
{
    let mut fs = default_features();
    let ghost views = names@.map_values(|n: &[u8]| n@);
    let mut i: usize = 0;
    while i < names.len()
        invariant
            i <= names@.len(),
            views == names@.map_values(|n: &[u8]| n@),
            fs@ == features_with(views.take(i as int)),
        decreases names@.len() - i,
    {
        proof {
            assert(views.take(i + 1).drop_last() =~= views.take(i as int));
            assert(views.take(i + 1).last() == names@[i as int]@);
        }
        match parse_feature(names[i]) {
            Some(f) => fs.push(f),
            None => {},
        }
        i = i + 1;
    }
    assert(views.take(names@.len() as int) =~= views);
    fs
}

/// The face a piece of text starts in: the face that has its first
/// character, or the style's primary face.
pub open spec fn first_face(resolved: Seq<Option<CollectionIndex>>, start: int, style: Style) -> CollectionIndex {
    match resolved[start] {
        Some(i) => i,
        None => CollectionIndex { style, idx: 0 },
    }
}

/// Where a piece of text in face `face` that reached `q` ends: at the first
/// character that another face has (characters no face has stay).
pub open spec fn face_run_end(resolved: Seq<Option<CollectionIndex>>, q: int, face: CollectionIndex) -> int
    decreases resolved.len() - q,
{
    if q >= resolved.len() {
        resolved.len() as int
    } else {
        match resolved[q] {
            Some(i) => if i != face {
                q
            } else {
                face_run_end(resolved, q + 1, face)
            },
            None => face_run_end(resolved, q + 1, face),
        }
    }
}

pub proof fn lemma_face_run_end(resolved: Seq<Option<CollectionIndex>>, q: int, face: CollectionIndex)
    requires
        0 <= q <= resolved.len(),
    ensures
        q <= face_run_end(resolved, q, face) <= resolved.len(),
    decreases resolved.len() - q,
{
    if q < resolved.len() {
        match resolved[q] {
            Some(i) => if i == face {
                lemma_face_run_end(resolved, q + 1, face);
            },
            None => lemma_face_run_end(resolved, q + 1, face),
        }
    }
}

/// The pieces of a text from character `start` on, as character ranges and
/// the face each is shaped with, given the face (if any) that has each
/// character.
pub open spec fn face_runs(resolved: Seq<Option<CollectionIndex>>, start: int, style: Style) -> Seq<(int, int, CollectionIndex)>
    decreases resolved.len() - start,
{
    if start < 0 || start >= resolved.len() {
        Seq::empty()
    } else {
        let face = first_face(resolved, start, style);
        let end = face_run_end(resolved, start + 1, face);
        proof {
            lemma_face_run_end(resolved, start + 1, face);
        }
        seq![(start, end, face)] + face_runs(resolved, end, style)
    }
}

/// Splits a text among faces: `resolved` holds, for each character, the
/// face that has it, if any. Each piece starts in the face of its first
/// character (or the primary face of `style`) and runs until a character
/// that another face has.
pub fn split_face_runs(resolved: &[Option<CollectionIndex>], style: Style) -> (runs: Vec<(usize, usize, CollectionIndex)>)
    ensures
        runs@.len() == face_runs(resolved@, 0, style).len(),
        forall|i: int|
            0 <= i < runs@.len() ==> ({
                let (s, e, f) = #[trigger] runs@[i];
                let (vs, ve, vf) = face_runs(resolved@, 0, style)[i];
                s == vs && e == ve && f == vf
            }),
{
    let ghost res = resolved@;
    let mut runs: Vec<(usize, usize, CollectionIndex)> = Vec::new();
    let ghost mut done: Seq<(int, int, CollectionIndex)> = Seq::empty();
    let n = resolved.len();
    let mut start: usize = 0;
    while start < n
        invariant
            n == res.len(),
            res == resolved@,
            start <= n,
            runs@.len() == done.len(),
            forall|i: int|
                0 <= i < runs@.len() ==> ({
                    let (s, e, f) = #[trigger] runs@[i];
                    let (vs, ve, vf) = done[i];
                    s == vs && e == ve && f == vf
                }),
            done + face_runs(res, start as int, style) == face_runs(res, 0, style),
        decreases n - start,
    {
        let face = match resolved[start] {
            Some(i) => i,
            None => CollectionIndex { style, idx: 0 },
        };
        let mut end: usize = start + 1;
        proof {
            lemma_face_run_end(res, start + 1, face);
        }
        while end < n
            invariant
                n == res.len(),
                res == resolved@,
                start < end <= n,
                face_run_end(res, start + 1, face) == face_run_end(res, end as int, face),
            ensures
                start < end <= n,
                face_run_end(res, start + 1, face) == end,
            decreases n - end,
        {
            match resolved[end] {
                Some(i) => {
                    if i != face {
                        break;
                    }
                },
                None => {},
            }
            end = end + 1;
        }
        let ghost piece = (start as int, end as int, face);
        proof {
            assert(face_runs(res, start as int, style) == seq![piece] + face_runs(res, end as int, style));
            assert(done.push(piece) + face_runs(res, end as int, style) =~= done + face_runs(res, start as int, style));
            done = done.push(piece);
        }
        runs.push((start, end, face));
        start = end;
    }
    proof {
        assert(face_runs(res, start as int, style) =~= Seq::<(int, int, CollectionIndex)>::empty());
        assert(done + face_runs(res, start as int, style) =~= done);
    }
    runs
}

/// Moves the clusters of glyphs shaped from a piece of text to the place of
/// that piece in the whole run.
pub fn offset_clusters(glyphs: &mut Vec<ShapedGlyph>, offset: u32)
    requires
        forall|i: int| 0 <= i < old(glyphs)@.len() ==> #[trigger] old(glyphs)@[i].cluster + offset <= u32::MAX,
    ensures
        final(glyphs)@.len() == old(glyphs)@.len(),
        forall|i: int|
            0 <= i < final(glyphs)@.len() ==> #[trigger] final(glyphs)@[i] == (ShapedGlyph {
                cluster: (old(glyphs)@[i].cluster + offset) as u32,
                ..old(glyphs)@[i]
            }),
{
    let n = glyphs.len();
    let mut i: usize = 0;
    while i < n
        invariant
            n == glyphs@.len(),
            n == old(glyphs)@.len(),
            i <= n,
            forall|k: int| 0 <= k < n ==> #[trigger] old(glyphs)@[k].cluster + offset <= u32::MAX,
            forall|k: int|
                0 <= k < i ==> #[trigger] glyphs@[k] == (ShapedGlyph {
                    cluster: (old(glyphs)@[k].cluster + offset) as u32,
                    ..old(glyphs)@[k]
                }),
            forall|k: int| i <= k < n ==> #[trigger] glyphs@[k] == old(glyphs)@[k],
        decreases n - i,
    {
        let mut g = glyphs[i];
        g.cluster = g.cluster + offset;
        glyphs.set(i, g);
        i = i + 1;
    }
}

/// The pieces of a text split among faces cover it exactly: each is not
/// empty, each starts where the one before ends, the first starts at
/// `start` and the last ends at the end of the text.
pub proof fn law_face_runs_partition(resolved: Seq<Option<CollectionIndex>>, start: int, style: Style)
    requires
        0 <= start <= resolved.len(),
    ensures
        ({
            let runs = face_runs(resolved, start, style);
            &&& forall|i: int| 0 <= i < runs.len() ==> (#[trigger] runs[i]).0 < runs[i].1
            &&& forall|i: int| 0 <= i < runs.len() - 1 ==> (#[trigger] runs[i]).1 == runs[i + 1].0
            &&& runs.len() == 0 <==> start == resolved.len()
            &&& runs.len() > 0 ==> runs[0].0 == start && runs[runs.len() - 1].1 == resolved.len()
        }),
    decreases resolved.len() - start,
{
    if start < resolved.len() {
        let face = first_face(resolved, start, style);
        lemma_face_run_end(resolved, start + 1, face);
        let end = face_run_end(resolved, start + 1, face);
        law_face_runs_partition(resolved, end, style);
        let runs = face_runs(resolved, start, style);
        let tail = face_runs(resolved, end, style);
        assert(runs == seq![(start, end, face)] + tail);
        assert forall|i: int| 0 < i < runs.len() implies #[trigger] runs[i] == tail[i - 1] by {}
        assert forall|i: int| 0 <= i < runs.len() - 1 implies (#[trigger] runs[i]).1 == runs[i + 1].0 by {
            if i > 0 {
                assert(runs[i] == tail[i - 1]);
                assert(runs[i + 1] == tail[i]);
            }
        }
    }
}

} // verus!
