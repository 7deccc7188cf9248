//! Tracking of the rows of the main grid that changed since the last frame.

use vstd::prelude::*;

verus! {

/// Bit `j` of the 64-bit word `c` is set.
pub open spec fn bit_at(c: u64, j: u64) -> bool {
    (c >> j) & 1u64 == 1u64
}

/// The number of 64-bit words that hold one bit per row.
pub open spec fn chunk_count(rows: nat) -> nat {
    (rows + 63) / 64
}

/// Whether the bitmap `chunks` marks `row`.
pub open spec fn row_bit(chunks: Seq<u64>, row: int) -> bool {
    bit_at(chunks[row / 64], (row % 64) as u64)
}

proof fn lemma_bit_of_or(c: u64, k: u64, j: u64)
    requires
        k < 64,
        j < 64,
    ensures
        bit_at(c | (1u64 << k), j) == (j == k || bit_at(c, j)),
{
    assert(((c | (1u64 << k)) >> j) & 1u64 == 1u64 <==> (j == k || (c >> j) & 1u64 == 1u64))
        by (bit_vector)
        requires
            k < 64,
            j < 64,
    ;
}

proof fn lemma_bit_of_max(j: u64)
    requires
        j < 64,
    ensures
        bit_at(0xFFFF_FFFF_FFFF_FFFFu64, j),
{
    assert((0xFFFF_FFFF_FFFF_FFFFu64 >> j) & 1u64 == 1u64) by (bit_vector)
        requires
            j < 64,
    ;
}

proof fn lemma_bit_of_zero(j: u64)
    requires
        j < 64,
    ensures
        !bit_at(0u64, j),
{
    assert((0u64 >> j) & 1u64 != 1u64) by (bit_vector);
}

proof fn lemma_bit_test(c: u64, k: u64)
    requires
        k < 64,
    ensures
        ((c & (1u64 << k)) != 0) == bit_at(c, k),
        bit_at(c, k) ==> c != 0,
{
    assert(((c & (1u64 << k)) != 0u64) == ((c >> k) & 1u64 == 1u64)) by (bit_vector)
        requires
            k < 64,
    ;
    assert((c >> k) & 1u64 == 1u64 ==> c != 0u64) by (bit_vector);
}

/// A word that is not zero has a set bit.
proof fn lemma_nonzero_has_bit(c: u64)
    requires
        c != 0,
    ensures
        exists|j: u64| j < 64 && #[trigger] bit_at(c, j),
    decreases c,
{
    if c & 1u64 == 1u64 {
        assert((c >> 0u64) & 1u64 == c & 1u64) by (bit_vector);
        assert(bit_at(c, 0));
    } else {
        let d: u64 = c >> 1u64;
        assert(c != 0u64 && c & 1u64 != 1u64 ==> c >> 1u64 != 0u64 && c >> 1u64 < c) by (bit_vector);
        lemma_nonzero_has_bit(d);
        let j = choose|j: u64| j < 64 && #[trigger] bit_at(d, j);
        assert(j < 64 && ((c >> 1u64) >> j) & 1u64 == 1u64 ==> j < 63 && (c >> (j + 1u64)) & 1u64
            == 1u64) by (bit_vector);
        assert(bit_at(c, (j + 1) as u64));
    }
}

/// Tracks which rows of the grid changed since the last render, one bit per
/// row, so that only changed rows need to be drawn again.
#[derive(Debug, Clone)]
pub struct DirtyTracker {
    dirty_rows: Vec<u64>,
    row_count: usize,
    full_dirty: bool,
}

impl View for DirtyTracker {
    type V = Seq<bool>;

    /// For each tracked row, whether it is dirty.
    closed spec fn view(&self) -> Seq<bool> {
        Seq::new(self.row_count as nat, |r: int| row_bit(self.dirty_rows@, r))
    }
}

/// The indices of the marked entries, in increasing order.
pub open spec fn marked_indices(s: Seq<bool>) -> Seq<usize>
    decreases s.len(),
{
    if s.len() == 0 {
        Seq::empty()
    } else if s.last() {
        marked_indices(s.drop_last()).push((s.len() - 1) as usize)
    } else {
        marked_indices(s.drop_last())
    }
}

impl DirtyTracker {
    /// The bitmap has one word per 64 rows, and a bit past the last row is
    /// only ever set together with every other bit.
    pub closed spec fn wf(&self) -> bool {
        &&& self.dirty_rows@.len() == chunk_count(self.row_count as nat)
        &&& (forall|i: int|
            0 <= i < self.dirty_rows@.len() ==> #[trigger] self.dirty_rows@[i]
                == 0xFFFF_FFFF_FFFF_FFFFu64) || (forall|i: int, j: u64|
            0 <= i < self.dirty_rows@.len() && j < 64 && #[trigger] bit_at(self.dirty_rows@[i], j)
                ==> i * 64 + j < self.row_count)
    }

    /// Whether the whole grid was marked dirty since the last clear.
    pub closed spec fn spec_full_dirty(&self) -> bool {
        self.full_dirty
    }

    /// Creates a tracker for `row_count` rows with every row dirty.
    pub fn new(row_count: usize) -> (t: Self)
        requires
            row_count <= usize::MAX - 63,
        ensures
            t.wf(),
            t@ == Seq::new(row_count as nat, |r: int| true),
            t.spec_full_dirty(),
    {
        let num_chunks: usize = (row_count + 63) / 64;
        let dirty_rows: Vec<u64> = vec![0xFFFF_FFFF_FFFF_FFFFu64; num_chunks];
        let t = DirtyTracker { dirty_rows, row_count, full_dirty: true };
        proof {
            assert forall|r: int| 0 <= r < row_count implies #[trigger] row_bit(t.dirty_rows@, r) by {
                lemma_bit_of_max((r % 64) as u64);
            }
        }
        assert(t@ =~= Seq::new(row_count as nat, |r: int| true));
        t
    }

    /// Returns the number of rows being tracked.
    pub fn row_count(&self) -> (n: usize)
        ensures
            n == self@.len(),
    {
        self.row_count
    }

    /// Marks one row as dirty; rows past the end are ignored.
    pub fn mark_row(&mut self, row: usize)
        requires
            old(self).wf(),
        ensures
            final(self).wf(),
            final(self)@ == if row < old(self)@.len() {
                old(self)@.update(row as int, true)
            } else {
                old(self)@
            },
            final(self).spec_full_dirty() == old(self).spec_full_dirty(),
    {
        if row < self.row_count {
            let chunk: usize = row / 64;
            let bit: usize = row % 64;
            let ghost before = self.dirty_rows@;
            let word: u64 = self.dirty_rows[chunk] | (1u64 << (bit as u64));
            self.dirty_rows.set(chunk, word);
            proof {
                let after = self.dirty_rows@;
                assert forall|r: int| 0 <= r < self.row_count implies #[trigger] row_bit(after, r)
                    == (r == row || row_bit(before, r)) by {
                    lemma_bit_of_or(before[chunk as int], bit as u64, (r % 64) as u64);
                }
                assert(self@ =~= old(self)@.update(row as int, true));
                if forall|i: int| 0 <= i < before.len() ==> #[trigger] before[i]
                    == 0xFFFF_FFFF_FFFF_FFFFu64 {
                    assert(0xFFFF_FFFF_FFFF_FFFFu64 | (1u64 << (bit as u64))
                        == 0xFFFF_FFFF_FFFF_FFFFu64) by (bit_vector);
                    assert forall|i: int| 0 <= i < after.len() implies #[trigger] after[i]
                        == 0xFFFF_FFFF_FFFF_FFFFu64 by {}
                } else {
                    assert forall|i: int, j: u64|
                        0 <= i < after.len() && j < 64 && #[trigger] bit_at(after[i], j) implies i
                        * 64 + j < self.row_count by {
                        if i == chunk {
                            lemma_bit_of_or(before[i], bit as u64, j);
                        }
                    }
                }
            }
        }
    }

    /// Marks the rows `start..end` as dirty, clipped to the tracked rows.
    pub fn mark_rows(&mut self, start: usize, end: usize)
        requires
            old(self).wf(),
        ensures
            final(self).wf(),
            final(self)@ == Seq::new(
                old(self)@.len(),
                |r: int| old(self)@[r] || (start <= r < end),
            ),
            final(self).spec_full_dirty() == old(self).spec_full_dirty(),
    {
        let lo = if start < self.row_count { start } else { self.row_count };
        let hi = if end < self.row_count { end } else { self.row_count };
        let mut row = lo;
        while row < hi
            invariant
                self.wf(),
                lo <= row,
                row <= hi || lo == row,
                hi <= self@.len(),
                lo == if start < old(self)@.len() { start } else { old(self)@.len() as usize },
                hi == if end < old(self)@.len() { end } else { old(self)@.len() as usize },
                self@.len() == old(self)@.len(),
                self.spec_full_dirty() == old(self).spec_full_dirty(),
                forall|r: int|
                    0 <= r < self@.len() ==> #[trigger] self@[r] == (old(self)@[r] || (lo <= r
                        < row)),
            decreases hi - row,
        {
            self.mark_row(row);
            row = row + 1;
        }
        assert(self@ =~= Seq::new(old(self)@.len(), |r: int| old(self)@[r] || (start <= r < end)));
    }

    /// Marks every row as dirty and records that the whole grid is dirty.
    pub fn mark_all(&mut self)
        requires
            old(self).wf(),
        ensures
            final(self).wf(),
            final(self)@ == Seq::new(old(self)@.len(), |r: int| true),
            final(self).spec_full_dirty(),
    {
        self.fill(0xFFFF_FFFF_FFFF_FFFFu64);
        self.full_dirty = true;
        proof {
            assert forall|r: int| 0 <= r < self.row_count implies #[trigger] row_bit(self.dirty_rows@, r) by {
                lemma_bit_of_max((r % 64) as u64);
            }
        }
        assert(self@ =~= Seq::new(old(self)@.len(), |r: int| true));
    }

    /// Clears every dirty flag.
    pub fn clear(&mut self)
        requires
            old(self).wf(),
        ensures
            final(self).wf(),
            final(self)@ == Seq::new(old(self)@.len(), |r: int| false),
            !final(self).spec_full_dirty(),
    {
        self.fill(0u64);
        self.full_dirty = false;
        proof {
            assert forall|r: int| 0 <= r < self.row_count implies !#[trigger] row_bit(self.dirty_rows@, r) by {
                lemma_bit_of_zero((r % 64) as u64);
            }
            assert forall|i: int, j: u64|
                0 <= i < self.dirty_rows@.len() && j < 64 && #[trigger] bit_at(self.dirty_rows@[i], j)
                implies i * 64 + j < self.row_count by {
                lemma_bit_of_zero(j);
            }
        }
        assert(self@ =~= Seq::new(old(self)@.len(), |r: int| false));
    }

    /// Sets every word of the bitmap to `word`.
    fn fill(&mut self, word: u64)
        ensures
            final(self).dirty_rows@.len() == old(self).dirty_rows@.len(),
            forall|i: int| 0 <= i < final(self).dirty_rows@.len() ==> #[trigger] final(self).dirty_rows@[i] == word,
            final(self).row_count == old(self).row_count,
            final(self).full_dirty == old(self).full_dirty,
    {
        let n = self.dirty_rows.len();
        let mut i: usize = 0;
        while i < n
            invariant
                n == self.dirty_rows@.len(),
                n == old(self).dirty_rows@.len(),
                i <= n,
                self.row_count == old(self).row_count,
                self.full_dirty == old(self).full_dirty,
                forall|k: int| 0 <= k < i ==> #[trigger] self.dirty_rows@[k] == word,
            decreases n - i,
        {
            self.dirty_rows.set(i, word);
            i = i + 1;
        }
    }

    /// Returns true if `row` is a tracked row that is dirty.
    pub fn is_row_dirty(&self, row: usize) -> (b: bool)
        requires
            self.wf(),
        ensures
            b == (row < self@.len() && self@[row as int]),
    {
        if row >= self.row_count {
            return false;
        }
        let chunk: usize = row / 64;
        let bit: usize = row % 64;
        proof {
            lemma_bit_test(self.dirty_rows@[chunk as int], bit as u64);
        }
        (self.dirty_rows[chunk] & (1u64 << (bit as u64))) != 0
    }

    /// Returns true if any row is dirty.
    pub fn has_dirty(&self) -> (b: bool)
        requires
            self.wf(),
        ensures
            b == exists|r: int| 0 <= r < self@.len() && #[trigger] self@[r],
    {
        let n = self.dirty_rows.len();
        let mut i: usize = 0;
        while i < n
            invariant
                self.wf(),
                n == self.dirty_rows@.len(),
                i <= n,
                forall|k: int| 0 <= k < i ==> #[trigger] self.dirty_rows@[k] == 0,
            decreases n - i,
        {
            if self.dirty_rows[i] != 0 {
                proof {
                    let c = self.dirty_rows@[i as int];
                    if forall|k: int| 0 <= k < n ==> #[trigger] self.dirty_rows@[k]
                        == 0xFFFF_FFFF_FFFF_FFFFu64 {
                        lemma_bit_of_max(0);
                        assert(self.row_count > 0);
                        assert(row_bit(self.dirty_rows@, 0));
                        assert(self@[0]);
                    } else {
                        lemma_nonzero_has_bit(c);
                        let j = choose|j: u64| j < 64 && #[trigger] bit_at(c, j);
                        let r: int = i * 64 + j;
                        assert(r / 64 == i && r % 64 == j);
                        assert(r < self.row_count);
                        assert(row_bit(self.dirty_rows@, r));
                        assert(self@[r]);
                    }
                }
                return true;
            }
            i = i + 1;
        }
        proof {
            assert forall|r: int| 0 <= r < self@.len() implies !#[trigger] self@[r] by {
                lemma_bit_of_zero((r % 64) as u64);
            }
        }
        false
    }

    /// Returns true if the entire grid was marked as dirty.
    pub fn is_full_dirty(&self) -> (b: bool)
        ensures
            b == self.spec_full_dirty(),
    {
        self.full_dirty
    }

    /// The dirty rows in increasing order.
    pub fn dirty_rows(&self) -> (rows: Vec<usize>)
        requires
            self.wf(),
        ensures
            rows@ == marked_indices(self@),
    {
        let mut rows: Vec<usize> = Vec::new();
        let mut row: usize = 0;
        while row < self.row_count
            invariant
                self.wf(),
                row <= self@.len(),
                rows@ == marked_indices(self@.take(row as int)),
            decreases self@.len() - row,
        {
            assert(self@.take(row + 1).drop_last() =~= self@.take(row as int));
            if self.is_row_dirty(row) {
                rows.push(row);
            }
            row = row + 1;
        }
        assert(self@.take(self@.len() as int) =~= self@);
        rows
    }

    /// Tracks `new_row_count` rows from now on, all of them dirty.
    pub fn resize(&mut self, new_row_count: usize)
        requires
            old(self).wf(),
            new_row_count <= usize::MAX - 63,
        ensures
            final(self).wf(),
            final(self)@ == Seq::new(new_row_count as nat, |r: int| true),
            final(self).spec_full_dirty(),
    {
        let num_chunks: usize = (new_row_count + 63) / 64;
        self.dirty_rows.resize(num_chunks, 0xFFFF_FFFF_FFFF_FFFFu64);
        self.row_count = new_row_count;
        self.fill(0xFFFF_FFFF_FFFF_FFFFu64);
        self.full_dirty = true;
        proof {
            assert forall|r: int| 0 <= r < self.row_count implies #[trigger] row_bit(self.dirty_rows@, r) by {
                lemma_bit_of_max((r % 64) as u64);
            }
        }
        assert(self@ =~= Seq::new(new_row_count as nat, |r: int| true));
    }
}

impl Default for DirtyTracker {
    fn default() -> (t: Self)
        ensures
            t.wf(),
            t@.len() == 0,
            t.spec_full_dirty(),
    {
        Self::new(0)
    }
}

/// The list of dirty rows holds exactly the rows that are dirty.
pub proof fn law_dirty_rows_are_the_marked_rows(s: Seq<bool>)
    requires
        s.len() <= usize::MAX,
    ensures
        forall|i: int| 0 <= i < marked_indices(s).len() ==> #[trigger] marked_indices(s)[i] < s.len()
            && s[marked_indices(s)[i] as int],
        forall|r: int| 0 <= r < s.len() && #[trigger] s[r] ==> marked_indices(s).contains(r as usize),
    decreases s.len(),
{
    if s.len() > 0 {
        let p = s.drop_last();
        law_dirty_rows_are_the_marked_rows(p);
        let m = marked_indices(s);
        let mp = marked_indices(p);
        assert forall|i: int| 0 <= i < m.len() implies #[trigger] m[i] < s.len() && s[m[i] as int] by {
            if i < mp.len() {
                assert(m[i] == mp[i]);
                assert(s[mp[i] as int] == p[mp[i] as int]);
            }
        }
        assert forall|r: int| 0 <= r < s.len() && #[trigger] s[r] implies m.contains(r as usize) by {
            if r < s.len() - 1 {
                assert(p[r] == s[r]);
                let k = choose|k: int| 0 <= k < mp.len() && mp[k] == r as usize;
                assert(m[k] == mp[k]);
            } else {
                assert(m[m.len() - 1] == r as usize);
            }
        }
    }
}

/// After clearing, no row is dirty; after marking a tracked row, it is.
pub proof fn law_clear_and_mark(n: nat, row: int)
    ensures
        marked_indices(Seq::new(n, |r: int| false)) == Seq::<usize>::empty(),
        0 <= row < n ==> Seq::new(n, |r: int| false).update(row, true)[row],
    decreases n,
{
    if n > 0 {
        law_clear_and_mark((n - 1) as nat, row);
        assert(Seq::new(n, |r: int| false).drop_last() =~= Seq::new((n - 1) as nat, |r: int| false));
    }
}

} // verus!
