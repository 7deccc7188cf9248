//! The cache of shaped runs, keyed by a hash of the run's text and style so
//! that the same text anywhere on screen is shaped once. When full, the
//! oldest entry makes room.

use std::collections::HashMap;
use std::collections::VecDeque;
use std::collections::hash_map::DefaultHasher;
use std::hash::Hasher;
use vstd::prelude::*;
use vstd::std_specs::hash::DefaultHasherAdditionalSpecFns;
use vstd::string::*;

use super::collection::Style;
use super::shaper::ShapedGlyph;

verus! {

broadcast use vstd::std_specs::hash::group_hash_axioms;

/// Most runs the cache holds.
pub const MAX_CACHE_ENTRIES: usize = 2048;

/// The discriminant of a style: its place among the styles.
pub open spec fn style_byte(s: Style) -> u8 {
    match s {
        Style::Regular => 0,
        Style::Bold => 1,
        Style::Italic => 2,
        Style::BoldItalic => 3,
    }
}

/// The bytes a style's discriminant is hashed as: a 64-bit word, least
/// significant byte first.
pub open spec fn style_word(s: Style) -> Seq<u8> {
    seq![style_byte(s), 0u8, 0u8, 0u8, 0u8, 0u8, 0u8, 0u8]
}

/// A run's cache key: the hash of its text and style, wherever it is.
#[derive(Debug, Clone, Copy, PartialEq, Eq, Structural, Hash)]
pub struct ShapingCacheKey(pub u64);

impl ShapingCacheKey {
    /// The key of `text` in `style`: std's default hasher fed what hashing
    /// the text and then the style feeds it, namely the UTF-8 bytes of the
    /// text, a `0xFF` end mark, and the style's discriminant as a 64-bit
    /// word in the byte order of x86-64 and AArch64.
    pub fn new(text: &str, style: Style) -> (k: Self)
        ensures
            k.0 == DefaultHasher::spec_finish(seq![text.spec_bytes(), seq![0xFFu8], style_word(style)]),
    {
        let code: u8 = match style {
            Style::Regular => 0,
            Style::Bold => 1,
            Style::Italic => 2,
            Style::BoldItalic => 3,
        };
        let mut mark: Vec<u8> = Vec::new();
        mark.push(0xFF);
        let mut word: Vec<u8> = Vec::new();
        word.push(code);
        let mut i: usize = 1;
        while i < 8
            invariant
                1 <= i <= 8,
                word@.len() == i,
                word@[0] == code,
                forall|j: int| 1 <= j < i ==> word@[j] == 0u8,
            decreases 8 - i,
        {
            word.push(0);
            i = i + 1;
        }
        assert(mark@ =~= seq![0xFFu8]);
        assert(word@ =~= style_word(style));
        let mut hasher = DefaultHasher::new();
        hasher.write(text.as_bytes());
        hasher.write(mark.as_slice());
        hasher.write(word.as_slice());
        assert(hasher@ =~~= seq![text.spec_bytes(), seq![0xFFu8], style_word(style)]);
        ShapingCacheKey(hasher.finish())
    }
}

/// The shaped glyphs of a run, positioned relative to the run's start.
#[derive(Debug, Clone)]
pub struct CachedShapedRun {
    pub glyphs: Vec<ShapedGlyph>,
}

/// The cache after storing `glyphs` under `key`: a key already cached keeps
/// its place; a new key goes last, after the oldest key is dropped when the
/// cache is full.
pub open spec fn after_insert(
    runs: Map<u64, Seq<ShapedGlyph>>,
    order: Seq<u64>,
    key: u64,
    glyphs: Seq<ShapedGlyph>,
) -> (Map<u64, Seq<ShapedGlyph>>, Seq<u64>) {
    if runs.contains_key(key) {
        (runs.insert(key, glyphs), order)
    } else if order.len() >= MAX_CACHE_ENTRIES {
        (runs.remove(order[0]).insert(key, glyphs), order.skip(1).push(key))
    } else {
        (runs.insert(key, glyphs), order.push(key))
    }
}

/// Shaped runs by key, and the keys from oldest to newest.
#[derive(Debug)]
pub struct ShapingCache {
    entries: HashMap<u64, CachedShapedRun>,
    insertion_order: VecDeque<u64>,
}

impl ShapingCache {
    /// The cached glyphs by key.
    pub closed spec fn spec_runs(&self) -> Map<u64, Seq<ShapedGlyph>> {
        Map::new(|k: u64| self.entries@.contains_key(k), |k: u64| self.entries@[k].glyphs@)
    }

    /// The cached keys, oldest first.
    pub closed spec fn spec_order(&self) -> Seq<u64> {
        self.insertion_order@
    }

    /// The keys in the order are exactly those cached, each once, and there
    /// are no more than the cache holds.
    pub closed spec fn wf(&self) -> bool {
        &&& forall|k: u64| self.entries@.contains_key(k) <==> #[trigger] self.insertion_order@.contains(k)
        &&& self.insertion_order@.no_duplicates()
        &&& self.insertion_order@.len() <= MAX_CACHE_ENTRIES
    }

    /// A well-formed cache keeps its invariant: each cached key once in the
    /// order, and no more keys than the limit.
    pub proof fn lemma_inv(&self)
        requires
            self.wf(),
        ensures
            cache_inv(self.spec_runs(), self.spec_order()),
    {
        assert forall|k: u64| self.spec_runs().contains_key(k) <==> #[trigger] self.spec_order().contains(k) by {
            assert(self.spec_runs().contains_key(k) == self.entries@.contains_key(k));
        }
    }

    /// An empty cache.
    pub fn new() -> (c: Self)
        ensures
            c.wf(),
            c.spec_runs() == Map::<u64, Seq<ShapedGlyph>>::empty(),
            c.spec_order() == Seq::<u64>::empty(),
    {
        let c = ShapingCache {
            entries: HashMap::with_capacity(MAX_CACHE_ENTRIES),
            insertion_order: VecDeque::with_capacity(MAX_CACHE_ENTRIES),
        };
        assert(c.spec_runs() =~= Map::<u64, Seq<ShapedGlyph>>::empty());
        c
    }

    /// The glyphs cached for `key`, or `None` on a miss.
    pub fn get_glyphs(&self, key: ShapingCacheKey) -> (r: Option<&[ShapedGlyph]>)
        ensures
            match r {
                Some(g) => self.spec_runs().contains_key(key.0) && g@ == self.spec_runs()[key.0],
                None => !self.spec_runs().contains_key(key.0),
            },
    {
        match self.entries.get(&key.0) {
            Some(e) => Some(e.glyphs.as_slice()),
            None => None,
        }
    }

    /// Stores the glyphs of a run (see `after_insert`).
    pub fn insert(&mut self, key: ShapingCacheKey, glyphs: Vec<ShapedGlyph>)
        requires
            old(self).wf(),
        ensures
            final(self).wf(),
            (final(self).spec_runs(), final(self).spec_order()) == after_insert(
                old(self).spec_runs(),
                old(self).spec_order(),
                key.0,
                glyphs@,
            ),
    {
        let ghost old_runs = self.spec_runs();
        let ghost old_order = self.spec_order();
        if self.entries.contains_key(&key.0) {
            self.entries.insert(key.0, CachedShapedRun { glyphs });
            assert(self.spec_runs() =~= old_runs.insert(key.0, glyphs@));
            return;
        }
        self.insert_inner(key, glyphs);
    }

    /// Stores the glyphs of a key not cached yet, dropping the oldest entry
    /// first when the cache is full.
    fn insert_inner(&mut self, key: ShapingCacheKey, glyphs: Vec<ShapedGlyph>)
        requires
            old(self).wf(),
            !old(self).spec_runs().contains_key(key.0),
        ensures
            final(self).wf(),
            (final(self).spec_runs(), final(self).spec_order()) == after_insert(
                old(self).spec_runs(),
                old(self).spec_order(),
                key.0,
                glyphs@,
            ),
    {
        let ghost old_runs = self.spec_runs();
        let ghost old_order = self.spec_order();
        if self.insertion_order.len() >= MAX_CACHE_ENTRIES {
            if let Some(old_key) = self.insertion_order.pop_front() {
                self.entries.remove(&old_key);
                proof {
                    assert(self.spec_runs() =~= old_runs.remove(old_key));
                    assert forall|k: u64| self.entries@.contains_key(k) <==> #[trigger] self.insertion_order@.contains(k) by {
                        if self.insertion_order@.contains(k) {
                            let i = choose|i: int| 0 <= i < self.insertion_order@.len() && self.insertion_order@[i] == k;
                            assert(old_order[i + 1] == k);
                            assert(old_order[0] != old_order[i + 1]);
                        }
                        if old_order.contains(k) && k != old_key {
                            let i = choose|i: int| 0 <= i < old_order.len() && old_order[i] == k;
                            assert(i != 0);
                            assert(self.insertion_order@[i - 1] == k);
                        }
                    }
                }
            }
        }
        let ghost mid_runs = self.spec_runs();
        let ghost mid_order = self.spec_order();
        self.entries.insert(key.0, CachedShapedRun { glyphs });
        self.insertion_order.push_back(key.0);
        proof {
            assert(self.spec_runs() =~= mid_runs.insert(key.0, glyphs@));
            assert forall|k: u64| self.entries@.contains_key(k) <==> #[trigger] self.insertion_order@.contains(k) by {
                if k != key.0 && self.insertion_order@.contains(k) {
                    let i = choose|i: int| 0 <= i < self.insertion_order@.len() && self.insertion_order@[i] == k;
                    assert(i < mid_order.len());
                    assert(mid_order[i] == k);
                }
                if k == key.0 {
                    assert(self.insertion_order@[mid_order.len() as int] == k);
                }
                if mid_order.contains(k) {
                    let i = choose|i: int| 0 <= i < mid_order.len() && mid_order[i] == k;
                    assert(self.insertion_order@[i] == k);
                }
            }
            assert(!mid_order.contains(key.0));
            if old_order.len() >= MAX_CACHE_ENTRIES {
                assert(mid_order =~= old_order.skip(1));
            }
        }
    }

    /// Forgets every run; to be done when the fonts change.
    pub fn clear(&mut self)
        ensures
            final(self).wf(),
            final(self).spec_runs() == Map::<u64, Seq<ShapedGlyph>>::empty(),
            final(self).spec_order() == Seq::<u64>::empty(),
    {
        self.entries.clear();
        self.insertion_order.clear();
        assert(self.spec_runs() =~= Map::<u64, Seq<ShapedGlyph>>::empty());
    }

    /// The number of cached runs.
    pub fn len(&self) -> (n: usize)
        requires
            self.wf(),
        ensures
            n == self.spec_order().len(),
            n == self.spec_runs().len(),
    {
        proof {
            self.insertion_order@.unique_seq_to_set();
            assert(self.spec_runs().dom() =~= self.insertion_order@.to_set());
        }
        self.insertion_order.len()
    }
}

impl Default for ShapingCache {
    fn default() -> (c: Self)
        ensures
            c.wf(),
            c.spec_runs() == Map::<u64, Seq<ShapedGlyph>>::empty(),
            c.spec_order() == Seq::<u64>::empty(),
    {
        Self::new()
    }
}

/// A run read back right after it was stored gives the stored glyphs.
pub proof fn law_get_after_insert(
    runs: Map<u64, Seq<ShapedGlyph>>,
    order: Seq<u64>,
    key: u64,
    glyphs: Seq<ShapedGlyph>,
)
    ensures
        after_insert(runs, order, key, glyphs).0.contains_key(key),
        after_insert(runs, order, key, glyphs).0[key] == glyphs,
{
}

/// Storing never makes the cache hold more than its limit, and a full cache
/// drops exactly its oldest key.
pub proof fn law_bounded_oldest_first(
    runs: Map<u64, Seq<ShapedGlyph>>,
    order: Seq<u64>,
    key: u64,
    glyphs: Seq<ShapedGlyph>,
)
    requires
        order.len() <= MAX_CACHE_ENTRIES,
        forall|k: u64| runs.contains_key(k) <==> #[trigger] order.contains(k),
    ensures
        after_insert(runs, order, key, glyphs).1.len() <= MAX_CACHE_ENTRIES,
        !runs.contains_key(key) && order.len() == MAX_CACHE_ENTRIES ==> !after_insert(
            runs,
            order,
            key,
            glyphs,
        ).0.contains_key(order[0]) || order[0] == key,
{
}

/// What a cache holds between calls: its order lists each cached key once,
/// and there are no more keys than the limit.
pub open spec fn cache_inv(runs: Map<u64, Seq<ShapedGlyph>>, order: Seq<u64>) -> bool {
    &&& forall|k: u64| runs.contains_key(k) <==> #[trigger] order.contains(k)
    &&& order.no_duplicates()
    &&& order.len() <= MAX_CACHE_ENTRIES
}

/// The cache after storing each (key, glyphs) pair of `ops` in turn, with
/// the history of the keys stored while they were missing: the keys of
/// `order` first, then each such key in the order it was stored.
pub open spec fn after_inserts(
    runs: Map<u64, Seq<ShapedGlyph>>,
    order: Seq<u64>,
    ops: Seq<(u64, Seq<ShapedGlyph>)>,
) -> (Map<u64, Seq<ShapedGlyph>>, Seq<u64>, Seq<u64>)
    decreases ops.len(),
{
    if ops.len() == 0 {
        (runs, order, order)
    } else {
        let (r, o, h) = after_inserts(runs, order, ops.drop_last());
        let (k, g) = ops.last();
        let (r2, o2) = after_insert(r, o, k, g);
        (r2, o2, if r.contains_key(k) { h } else { h.push(k) })
    }
}

/// Storing one run keeps the cache's invariant.
pub proof fn lemma_after_insert_inv(
    runs: Map<u64, Seq<ShapedGlyph>>,
    order: Seq<u64>,
    key: u64,
    glyphs: Seq<ShapedGlyph>,
)
    requires
        cache_inv(runs, order),
    ensures
        cache_inv(after_insert(runs, order, key, glyphs).0, after_insert(runs, order, key, glyphs).1),
{
    let (r2, o2) = after_insert(runs, order, key, glyphs);
    if runs.contains_key(key) {
        assert forall|k: u64| r2.contains_key(k) <==> #[trigger] o2.contains(k) by {
            assert(order.contains(key));
        }
    } else {
        assert(!order.contains(key));
        let base = if order.len() >= MAX_CACHE_ENTRIES { order.skip(1) } else { order };
        assert(o2 == base.push(key));
        assert forall|i: int| 0 <= i < base.len() implies #[trigger] base[i] != key by {
            if order.len() >= MAX_CACHE_ENTRIES {
                assert(base[i] == order[i + 1]);
                assert(order.contains(order[i + 1]));
            } else {
                assert(order.contains(order[i]));
            }
        }
        assert forall|a: int, b: int| 0 <= a < o2.len() && 0 <= b < o2.len() && a != b implies o2[a] != o2[b] by {
            if a < base.len() && b < base.len() {
                if order.len() >= MAX_CACHE_ENTRIES {
                    assert(base[a] == order[a + 1] && base[b] == order[b + 1]);
                }
            } else if a < base.len() {
                assert(o2[a] == base[a]);
            } else if b < base.len() {
                assert(o2[b] == base[b]);
            }
        }
        assert forall|k: u64| r2.contains_key(k) <==> #[trigger] o2.contains(k) by {
            if k == key {
                assert(o2[base.len() as int] == key);
            } else {
                if o2.contains(k) {
                    let i = choose|i: int| 0 <= i < o2.len() && o2[i] == k;
                    assert(i < base.len());
                    if order.len() >= MAX_CACHE_ENTRIES {
                        assert(order[i + 1] == k);
                        assert(order.contains(k));
                        assert(order[0] != order[i + 1]);
                    } else {
                        assert(order.contains(k));
                    }
                }
                if r2.contains_key(k) {
                    assert(order.contains(k));
                    let i = choose|i: int| 0 <= i < order.len() && order[i] == k;
                    if order.len() >= MAX_CACHE_ENTRIES {
                        assert(i != 0);
                        assert(o2[i - 1] == k);
                    } else {
                        assert(o2[i] == k);
                    }
                }
            }
        }
    }
}

/// Over any number of stores, the cache keeps its invariant and never holds
/// more than its limit; the last run stored reads back; and the keys it
/// holds are always the newest of the keys stored while missing, oldest
/// first: a key leaves only when it is the oldest, and only when the cache
/// is full.
pub proof fn law_inserts_oldest_first(
    runs: Map<u64, Seq<ShapedGlyph>>,
    order: Seq<u64>,
    ops: Seq<(u64, Seq<ShapedGlyph>)>,
)
    requires
        cache_inv(runs, order),
    ensures
        ({
            let (r, o, h) = after_inserts(runs, order, ops);
            &&& cache_inv(r, o)
            &&& o.len() == if h.len() < MAX_CACHE_ENTRIES { h.len() } else { MAX_CACHE_ENTRIES as nat }
            &&& o == h.skip(h.len() - o.len())
            &&& ops.len() > 0 ==> r.contains_key(ops.last().0) && r[ops.last().0] == ops.last().1
        }),
    decreases ops.len(),
{
    if ops.len() == 0 {
        assert(order.skip(0) =~= order);
    } else {
        law_inserts_oldest_first(runs, order, ops.drop_last());
        let (r, o, h) = after_inserts(runs, order, ops.drop_last());
        let (k, g) = ops.last();
        lemma_after_insert_inv(r, o, k, g);
        let (r2, o2, h2) = after_inserts(runs, order, ops);
        if !r.contains_key(k) {
            if o.len() >= MAX_CACHE_ENTRIES {
                assert(o2 =~= h2.skip(h2.len() - o2.len()));
            } else {
                assert(o =~= h);
                assert(o2 =~= h2.skip(h2.len() - o2.len()));
            }
        }
    }
}

} // verus!
