//! Grouping the cells of a row into text runs, the unit of shaping.

use vstd::prelude::*;
use vstd::string::*;

use super::collection::{style_of, Style};
use crate::editor::cell::{Cell, CellFlags};
use crate::editor::highlight::HighlightMap;

verus! {

/// Consecutive cells with the same highlight, as one text.
#[derive(Debug, Clone)]
pub struct Run {
    /// Column of the run's first cell.
    pub start_col: usize,
    /// The texts of the run's cells, one after the other.
    pub text: String,
    /// Font style from the highlight's attributes.
    pub style: Style,
    /// Highlight id of the run's cells.
    pub highlight_id: u64,
}

impl Run {
    /// Whether the run has no text.
    pub fn is_empty(&self) -> (b: bool)
        ensures
            b == (self.text@.len() == 0),
    {
        self.text.as_str().unicode_len() == 0
    }
}

/// A run, with its text as characters.
pub struct RunView {
    pub start_col: int,
    pub text: Seq<char>,
    pub style: Style,
    pub highlight_id: u64,
}

/// The cell is the right half of a double-width character.
pub open spec fn spacer(c: Cell) -> bool {
    c.flags.0 & CellFlags::spacer_bit() == CellFlags::spacer_bit()
}

/// The first cell at or after `p` that is no spacer (or the end).
pub open spec fn skip_spacers(cells: Seq<Cell>, p: int) -> int
    decreases cells.len() - p,
{
    if p >= cells.len() || !spacer(cells[p]) {
        p
    } else {
        skip_spacers(cells, p + 1)
    }
}

/// The end of a run of highlight `hl` that has reached `q`: the first cell
/// at or after `q` that is no spacer and has another highlight (or the end).
pub open spec fn run_end(cells: Seq<Cell>, q: int, hl: u64) -> int
    decreases cells.len() - q,
{
    if q >= cells.len() {
        cells.len() as int
    } else if !spacer(cells[q]) && cells[q].highlight_id != hl {
        q
    } else {
        run_end(cells, q + 1, hl)
    }
}

/// The texts of the cells `from..to` that are no spacers.
pub open spec fn run_text(cells: Seq<Cell>, from: int, to: int) -> Seq<char>
    decreases to - from,
{
    if to <= from {
        Seq::empty()
    } else {
        run_text(cells, from, to - 1) + if spacer(cells[to - 1]) {
            Seq::empty()
        } else {
            cells[to - 1].text@
        }
    }
}

/// The font style of a highlight: bold and italic as its attributes say.
pub open spec fn style_for(highlights: HighlightMap, hl: u64) -> Style {
    let bits = highlights.spec_get(hl).style.0;
    style_of(bits & 0x001 == 0x001, bits & 0x002 == 0x002)
}

/// The run that starts at or after `pos`, and where the next one is looked
/// for; no run once only spacers are left.
pub open spec fn next_run(cells: Seq<Cell>, pos: int, highlights: HighlightMap) -> (Option<RunView>, int) {
    let p = skip_spacers(cells, pos);
    if p >= cells.len() {
        (None, p)
    } else {
        let hl = cells[p].highlight_id;
        let e = run_end(cells, p + 1, hl);
        (Some(RunView { start_col: p, text: run_text(cells, p, e), style: style_for(highlights, hl), highlight_id: hl }), e)
    }
}

pub proof fn lemma_skip_spacers(cells: Seq<Cell>, p: int)
    requires
        0 <= p,
    ensures
        p <= skip_spacers(cells, p),
        skip_spacers(cells, p) < cells.len() ==> !spacer(cells[skip_spacers(cells, p)]),
        p <= cells.len() ==> skip_spacers(cells, p) <= cells.len(),
        forall|k: int| p <= k < skip_spacers(cells, p) ==> spacer(#[trigger] cells[k]),
    decreases cells.len() - p,
{
    if p < cells.len() && spacer(cells[p]) {
        lemma_skip_spacers(cells, p + 1);
    }
}

pub proof fn lemma_run_end(cells: Seq<Cell>, q: int, hl: u64)
    requires
        0 <= q,
    ensures
        q <= cells.len() ==> q <= run_end(cells, q, hl) <= cells.len(),
        q > cells.len() ==> run_end(cells, q, hl) == cells.len(),
        forall|k: int|
            q <= k < run_end(cells, q, hl) ==> spacer(#[trigger] cells[k]) || cells[k].highlight_id == hl,
        run_end(cells, q, hl) < cells.len() ==> !spacer(cells[run_end(cells, q, hl)]) && cells[run_end(
            cells,
            q,
            hl,
        )].highlight_id != hl,
    decreases cells.len() - q,
{
    if q < cells.len() && !(!spacer(cells[q]) && cells[q].highlight_id != hl) {
        lemma_run_end(cells, q + 1, hl);
    }
}

/// The runs of the cells from `pos` on, in order.
pub open spec fn runs_from(cells: Seq<Cell>, pos: int, highlights: HighlightMap) -> Seq<RunView>
    decreases cells.len() - pos,
{
    if pos < 0 || pos >= cells.len() {
        Seq::empty()
    } else {
        proof {
            lemma_skip_spacers(cells, pos);
            lemma_run_end(cells, skip_spacers(cells, pos) + 1, cells[skip_spacers(cells, pos)].highlight_id);
        }
        match next_run(cells, pos, highlights) {
            (Some(r), e) => seq![r] + runs_from(cells, e, highlights),
            (None, _) => Seq::empty(),
        }
    }
}

/// The run matches its description.
pub open spec fn run_matches(r: Run, v: RunView) -> bool {
    &&& r.start_col == v.start_col
    &&& r.text@ == v.text
    &&& r.style == v.style
    &&& r.highlight_id == v.highlight_id
}

/// Walks a row of cells run by run. A run ends where a cell that is no
/// spacer has another highlight; spacers (right halves of wide characters)
/// add no text and never start a run.
pub struct RunIterator<'a> {
    cells: &'a [Cell],
    highlights: &'a HighlightMap,
    current_pos: usize,
}

impl<'a> RunIterator<'a> {
    /// The cells walked.
    pub closed spec fn spec_cells(&self) -> Seq<Cell> {
        self.cells@
    }

    /// The highlight definitions that give the runs' styles.
    pub closed spec fn spec_highlights(&self) -> HighlightMap {
        *self.highlights
    }

    /// The column where the next run is looked for.
    pub closed spec fn spec_pos(&self) -> int {
        self.current_pos as int
    }

    /// Starts at the first column of `cells`.
    pub fn new(cells: &'a [Cell], highlights: &'a HighlightMap) -> (it: Self)
        ensures
            it.spec_cells() == cells@,
            it.spec_highlights() == *highlights,
            it.spec_pos() == 0,
    {
        RunIterator { cells, highlights, current_pos: 0 }
    }

    /// The font style of a highlight.
    fn style_for_highlight(&self, highlight_id: u64) -> (s: Style)
        requires
            self.highlights.wf(),
        ensures
            s == style_for(*self.highlights, highlight_id),
    {
        let attrs = self.highlights.get(highlight_id);
        let bits = attrs.style.0;
        Style::from_flags(bits & 0x001 == 0x001, bits & 0x002 == 0x002)
    }

    /// The next run, or `None` when only spacers are left.
    pub fn next(&mut self) -> (r: Option<Run>)
        requires
            old(self).spec_highlights().wf(),
            old(self).spec_pos() <= old(self).spec_cells().len(),
        ensures
            final(self).spec_cells() == old(self).spec_cells(),
            final(self).spec_highlights() == old(self).spec_highlights(),
            final(self).spec_pos() <= final(self).spec_cells().len(),
            ({
                let (v, e) = next_run(old(self).spec_cells(), old(self).spec_pos(), old(self).spec_highlights());
                &&& final(self).spec_pos() == e
                &&& match (r, v) {
                    (Some(run), Some(view)) => run_matches(run, view),
                    (None, None) => true,
                    _ => false,
                }
            }),
    {
        let ghost cells = self.cells@;
        proof {
            lemma_skip_spacers(cells, self.current_pos as int);
        }
        while self.current_pos < self.cells.len()
            invariant
                self.cells@ == cells,
                self.current_pos <= cells.len(),
                old(self).spec_pos() <= self.current_pos,
                skip_spacers(cells, old(self).spec_pos()) == skip_spacers(cells, self.current_pos as int),
                self.highlights == old(self).highlights,
            ensures
                self.cells@ == cells,
                self.current_pos <= cells.len(),
                self.highlights == old(self).highlights,
                skip_spacers(cells, old(self).spec_pos()) == self.current_pos,
            decreases cells.len() - self.current_pos,
        {
            if !self.cells[self.current_pos].is_wide_spacer() {
                break;
            }
            self.current_pos = self.current_pos + 1;
        }
        if self.current_pos >= self.cells.len() {
            return None;
        }
        let start_col = self.current_pos;
        let first_cell = &self.cells[self.current_pos];
        let highlight_id = first_cell.highlight_id;
        let style = self.style_for_highlight(highlight_id);
        let mut text = String::new();
        text.append(first_cell.text.as_str());
        self.current_pos = self.current_pos + 1;
        proof {
            assert(run_text(cells, start_col as int, start_col + 1) =~= text@) by {
                assert(run_text(cells, start_col as int, start_col as int) =~= Seq::<char>::empty());
            }
        }
        while self.current_pos < self.cells.len()
            invariant
                self.cells@ == cells,
                start_col < self.current_pos <= cells.len(),
                run_end(cells, start_col + 1, highlight_id) == run_end(cells, self.current_pos as int, highlight_id),
                text@ == run_text(cells, start_col as int, self.current_pos as int),
                self.highlights == old(self).highlights,
            ensures
                self.cells@ == cells,
                start_col < self.current_pos <= cells.len(),
                run_end(cells, start_col + 1, highlight_id) == self.current_pos,
                text@ == run_text(cells, start_col as int, self.current_pos as int),
                self.highlights == old(self).highlights,
            decreases cells.len() - self.current_pos,
        {
            let cell = &self.cells[self.current_pos];
            if cell.is_wide_spacer() {
                self.current_pos = self.current_pos + 1;
                continue;
            }
            if cell.highlight_id != highlight_id {
                break;
            }
            text.append(cell.text.as_str());
            self.current_pos = self.current_pos + 1;
        }
        Some(Run { start_col, text, style, highlight_id })
    }

    /// All the runs left, in order.
    pub fn collect_runs(&mut self) -> (runs: Vec<Run>)
        requires
            old(self).spec_highlights().wf(),
            old(self).spec_pos() <= old(self).spec_cells().len(),
        ensures
            ({
                let views = runs_from(old(self).spec_cells(), old(self).spec_pos(), old(self).spec_highlights());
                &&& runs@.len() == views.len()
                &&& forall|i: int| 0 <= i < runs@.len() ==> run_matches(#[trigger] runs@[i], views[i])
            }),
    {
        let mut runs: Vec<Run> = Vec::new();
        let ghost cells = self.spec_cells();
        let ghost hm = self.spec_highlights();
        let ghost start = self.spec_pos();
        let ghost mut done: Seq<RunView> = Seq::empty();
        loop
            invariant
                hm.wf(),
                self.spec_cells() == cells,
                self.spec_highlights() == hm,
                cells == old(self).spec_cells(),
                hm == old(self).spec_highlights(),
                start == old(self).spec_pos(),
                0 <= self.spec_pos() <= cells.len(),
                runs@.len() == done.len(),
                forall|i: int| 0 <= i < runs@.len() ==> run_matches(#[trigger] runs@[i], done[i]),
                done + runs_from(cells, self.spec_pos(), hm) == runs_from(cells, start, hm),
            ensures
                runs@.len() == done.len(),
                forall|i: int| 0 <= i < runs@.len() ==> run_matches(#[trigger] runs@[i], done[i]),
                done == runs_from(cells, start, hm),
            decreases cells.len() - self.spec_pos(),
        {
            let ghost pos0 = self.spec_pos();
            proof {
                lemma_skip_spacers(cells, pos0);
                if skip_spacers(cells, pos0) < cells.len() {
                    lemma_run_end(cells, skip_spacers(cells, pos0) + 1, cells[skip_spacers(cells, pos0)].highlight_id);
                }
            }
            match self.next() {
                Some(r) => {
                    let ghost view = next_run(cells, pos0, hm).0->0;
                    proof {
                        assert(runs_from(cells, pos0, hm) == seq![view] + runs_from(cells, self.spec_pos(), hm));
                        assert(done.push(view) + runs_from(cells, self.spec_pos(), hm) =~= done + runs_from(cells, pos0, hm));
                        done = done.push(view);
                    }
                    runs.push(r);
                },
                None => {
                    proof {
                        assert(runs_from(cells, pos0, hm) =~= Seq::<RunView>::empty());
                        assert(done + runs_from(cells, pos0, hm) =~= done);
                    }
                    break;
                },
            }
        }
        runs
    }
}

/// The texts of runs, one after the other.
pub open spec fn joined_text(runs: Seq<RunView>) -> Seq<char>
    decreases runs.len(),
{
    if runs.len() == 0 {
        Seq::empty()
    } else {
        runs[0].text + joined_text(runs.skip(1))
    }
}

proof fn lemma_run_text_split(cells: Seq<Cell>, a: int, b: int, c: int)
    requires
        a <= b <= c,
    ensures
        run_text(cells, a, c) == run_text(cells, a, b) + run_text(cells, b, c),
    decreases c - b,
{
    if c == b {
        assert(run_text(cells, a, b) + run_text(cells, b, c) =~= run_text(cells, a, b));
    } else {
        lemma_run_text_split(cells, a, b, c - 1);
        assert(run_text(cells, a, c) =~= run_text(cells, a, b) + run_text(cells, b, c));
    }
}

proof fn lemma_run_text_spacers(cells: Seq<Cell>, a: int, b: int)
    requires
        a <= b,
        forall|k: int| a <= k < b ==> spacer(#[trigger] cells[k]),
    ensures
        run_text(cells, a, b) == Seq::<char>::empty(),
    decreases b - a,
{
    if a < b {
        lemma_run_text_spacers(cells, a, b - 1);
        assert(run_text(cells, a, b) =~= Seq::<char>::empty());
    }
}

/// The runs of a row hold all of its text: their texts, one after the
/// other, are the texts of the cells that are no spacers, in order.
pub proof fn law_runs_cover_the_row(cells: Seq<Cell>, pos: int, highlights: HighlightMap)
    requires
        0 <= pos <= cells.len(),
    ensures
        joined_text(runs_from(cells, pos, highlights)) == run_text(cells, pos, cells.len() as int),
    decreases cells.len() - pos,
{
    let n = cells.len() as int;
    if pos == n {
        assert(joined_text(runs_from(cells, pos, highlights)) =~= Seq::<char>::empty());
    } else {
        lemma_skip_spacers(cells, pos);
        let p = skip_spacers(cells, pos);
        lemma_run_text_spacers(cells, pos, p);
        if p >= n {
            assert(p == n);
            assert(runs_from(cells, pos, highlights) =~= Seq::<RunView>::empty());
        } else {
            let hl = cells[p].highlight_id;
            lemma_run_end(cells, p + 1, hl);
            let e = run_end(cells, p + 1, hl);
            let view = next_run(cells, pos, highlights).0->0;
            law_runs_cover_the_row(cells, e, highlights);
            let rs = runs_from(cells, pos, highlights);
            assert(rs == seq![view] + runs_from(cells, e, highlights));
            assert(rs.skip(1) =~= runs_from(cells, e, highlights));
            lemma_run_text_split(cells, pos, p, n);
            lemma_run_text_split(cells, p, e, n);
            assert(run_text(cells, pos, n) =~= run_text(cells, p, e) + run_text(cells, e, n));
        }
    }
}

/// Every run starts at a cell that is no spacer, and later runs start
/// further right.
pub proof fn law_runs_start_at_cells(cells: Seq<Cell>, pos: int, highlights: HighlightMap)
    requires
        0 <= pos <= cells.len(),
    ensures
        forall|i: int|
            0 <= i < runs_from(cells, pos, highlights).len() ==> pos <= (#[trigger] runs_from(cells, pos, highlights)[i]).start_col < cells.len()
                && !spacer(cells[runs_from(cells, pos, highlights)[i].start_col]),
        forall|i: int, j: int|
            0 <= i < j < runs_from(cells, pos, highlights).len() ==> (#[trigger] runs_from(cells, pos, highlights)[i]).start_col
                < (#[trigger] runs_from(cells, pos, highlights)[j]).start_col,
    decreases cells.len() - pos,
{
    let n = cells.len() as int;
    if pos < n {
        lemma_skip_spacers(cells, pos);
        let p = skip_spacers(cells, pos);
        if p < n {
            let hl = cells[p].highlight_id;
            lemma_run_end(cells, p + 1, hl);
            let e = run_end(cells, p + 1, hl);
            law_runs_start_at_cells(cells, e, highlights);
            let rs = runs_from(cells, pos, highlights);
            let tail = runs_from(cells, e, highlights);
            assert(rs == seq![next_run(cells, pos, highlights).0->0] + tail);
            assert forall|i: int| 0 < i < rs.len() implies #[trigger] rs[i] == tail[i - 1] by {}
        }
    }
}

/// Where run `i` of `runs` ends: where the next one starts, or at column
/// `n` for the last.
pub open spec fn run_stop(runs: Seq<RunView>, i: int, n: int) -> int {
    if i + 1 < runs.len() {
        runs[i + 1].start_col
    } else {
        n
    }
}

/// The cells of a run that are no spacers all have the run's highlight,
/// whose bold and italic give the run's style; two runs in a row have
/// different highlights.
pub proof fn law_runs_share_highlight(cells: Seq<Cell>, pos: int, highlights: HighlightMap)
    requires
        0 <= pos <= cells.len(),
    ensures
        ({
            let rs = runs_from(cells, pos, highlights);
            &&& forall|i: int| 0 <= i < rs.len() ==> (#[trigger] rs[i]).style == style_for(highlights, rs[i].highlight_id)
            &&& forall|i: int, k: int|
                0 <= i < rs.len() && (#[trigger] rs[i]).start_col <= k < run_stop(rs, i, cells.len() as int)
                    && !spacer(#[trigger] cells[k]) ==> cells[k].highlight_id == rs[i].highlight_id
            &&& forall|i: int| 0 <= i && i + 1 < rs.len() ==> (#[trigger] rs[i + 1]).highlight_id != rs[i].highlight_id
        }),
    decreases cells.len() - pos,
{
    let n = cells.len() as int;
    if pos < n {
        lemma_skip_spacers(cells, pos);
        let p = skip_spacers(cells, pos);
        if p < n {
            let hl = cells[p].highlight_id;
            lemma_run_end(cells, p + 1, hl);
            let e = run_end(cells, p + 1, hl);
            law_runs_share_highlight(cells, e, highlights);
            law_runs_start_at_cells(cells, e, highlights);
            let rs = runs_from(cells, pos, highlights);
            let tail = runs_from(cells, e, highlights);
            let head = next_run(cells, pos, highlights).0->0;
            assert(rs == seq![head] + tail);
            assert forall|i: int| 0 < i < rs.len() implies #[trigger] rs[i] == tail[i - 1] by {}
            if e < n {
                lemma_skip_spacers(cells, e);
                assert(skip_spacers(cells, e) == e);
                assert(tail.len() > 0);
                assert(tail[0].start_col == e);
                assert(tail[0].highlight_id == cells[e].highlight_id);
            } else {
                assert(tail.len() == 0);
            }
            assert forall|i: int, k: int|
                0 <= i < rs.len() && (#[trigger] rs[i]).start_col <= k < run_stop(rs, i, n)
                    && !spacer(#[trigger] cells[k]) implies cells[k].highlight_id == rs[i].highlight_id by {
                if i == 0 {
                    assert(run_stop(rs, 0, n) == e);
                    if k > p {
                        assert(p + 1 <= k < e);
                    }
                } else {
                    assert(rs[i] == tail[i - 1]);
                    assert(run_stop(rs, i, n) == run_stop(tail, i - 1, n));
                }
            }
            assert forall|i: int| 0 <= i && i + 1 < rs.len() implies (#[trigger] rs[i + 1]).highlight_id
                != rs[i].highlight_id by {
                if i == 0 {
                    assert(rs[1] == tail[0]);
                } else {
                    assert(rs[i] == tail[i - 1]);
                    assert(rs[i + 1] == tail[i]);
                }
            }
        }
    }
}

} // verus!
