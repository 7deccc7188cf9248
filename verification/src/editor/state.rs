//! The editor state that Neovim's redraw events build up: grids,
//! highlights, cursor, modes and the rows that need drawing again.

use vstd::prelude::*;

use super::dirty::DirtyTracker;
use super::grid::{blank_grid, line_updated, resized, scrolled, Grid};
use super::highlight::{define_highlight, Color, DefaultColors, HighlightAttributes, HighlightMap};
use super::cell::CellView;

verus! {

/// Cursor shape as defined by Neovim's `mode_info_set`.
#[derive(Debug, Clone, Copy, PartialEq, Eq, Structural)]
pub enum CursorShape {
    Block,
    Horizontal,
    Vertical,
}

impl Default for CursorShape {
    fn default() -> (s: Self)
        ensures
            s == CursorShape::Block,
    {
        CursorShape::Block
    }
}

/// Information about one cursor mode.
#[derive(Debug, PartialEq, Eq, Structural)]
pub struct ModeInfo {
    pub cursor_shape: CursorShape,
    pub cell_percentage: u8,
    pub attr_id: u64,
    pub blink_wait: u32,
    pub blink_on: u32,
    pub blink_off: u32,
}

impl ModeInfo {
    /// A block cursor with every other setting zero.
    pub open spec fn plain() -> ModeInfo {
        ModeInfo {
            cursor_shape: CursorShape::Block,
            cell_percentage: 0,
            attr_id: 0,
            blink_wait: 0,
            blink_on: 0,
            blink_off: 0,
        }
    }
}

impl Clone for ModeInfo {
    fn clone(&self) -> (m: Self)
        ensures
            m == *self,
    {
        ModeInfo { ..*self }
    }
}

impl Default for ModeInfo {
    fn default() -> (m: Self)
        ensures
            m == ModeInfo::plain(),
    {
        ModeInfo {
            cursor_shape: CursorShape::Block,
            cell_percentage: 0,
            attr_id: 0,
            blink_wait: 0,
            blink_on: 0,
            blink_off: 0,
        }
    }
}

/// The cursor's current state.
#[derive(Debug, PartialEq, Eq, Structural)]
pub struct Cursor {
    pub grid: u64,
    pub row: usize,
    pub col: usize,
    pub visible: bool,
}

impl Clone for Cursor {
    fn clone(&self) -> (c: Self)
        ensures
            c == *self,
    {
        Cursor { ..*self }
    }
}

impl Default for Cursor {
    fn default() -> (c: Self)
        ensures
            c == (Cursor { grid: 0, row: 0, col: 0, visible: false }),
    {
        Cursor { grid: 0, row: 0, col: 0, visible: false }
    }
}

/// The grid stored under key `id` in the parallel sequences of keys and
/// grids, if there is one.
pub open spec fn grid_at(ids: Seq<u64>, grids: Seq<Grid>, id: u64) -> Option<Grid> {
    if exists|i: int| 0 <= i < ids.len() && ids[i] == id {
        Some(grids[choose|i: int| 0 <= i < ids.len() && ids[i] == id])
    } else {
        None
    }
}

/// With distinct keys, the grid stored under the key at `i` is the grid at `i`.
proof fn lemma_grid_at(ids: Seq<u64>, grids: Seq<Grid>, i: int)
    requires
        ids.no_duplicates(),
        0 <= i < ids.len(),
    ensures
        grid_at(ids, grids, ids[i]) == Some(grids[i]),
{
    let id = ids[i];
    assert(0 <= i < ids.len() && ids[i] == id);
    let j = choose|j: int| 0 <= j < ids.len() && ids[j] == id;
    assert(j == i);
}

/// Replacing the grid at `i` changes the lookup of its key only.
proof fn lemma_grid_at_update(ids: Seq<u64>, grids: Seq<Grid>, i: int, g: Grid)
    requires
        ids.no_duplicates(),
        ids.len() == grids.len(),
        0 <= i < ids.len(),
    ensures
        forall|q: u64| #[trigger] grid_at(ids, grids.update(i, g), q) == if q == ids[i] {
            Some(g)
        } else {
            grid_at(ids, grids, q)
        },
{
    assert forall|q: u64| #[trigger] grid_at(ids, grids.update(i, g), q) == if q == ids[i] {
        Some(g)
    } else {
        grid_at(ids, grids, q)
    } by {
        if exists|j: int| 0 <= j < ids.len() && ids[j] == q {
            let j = choose|j: int| 0 <= j < ids.len() && ids[j] == q;
            lemma_grid_at(ids, grids, j);
            lemma_grid_at(ids, grids.update(i, g), j);
        }
    }
}

/// Adding a grid under a new key changes the lookup of that key only.
proof fn lemma_grid_at_push(ids: Seq<u64>, grids: Seq<Grid>, id: u64, g: Grid)
    requires
        ids.no_duplicates(),
        ids.len() == grids.len(),
        !ids.contains(id),
    ensures
        ids.push(id).no_duplicates(),
        forall|q: u64| #[trigger] grid_at(ids.push(id), grids.push(g), q) == if q == id {
            Some(g)
        } else {
            grid_at(ids, grids, q)
        },
{
    let nids = ids.push(id);
    let ngrids = grids.push(g);
    assert forall|a: int, b: int| 0 <= a < nids.len() && 0 <= b < nids.len() && a != b implies nids[a]
        != nids[b] by {
        if a < ids.len() && b < ids.len() {
            assert(nids[a] == ids[a] && nids[b] == ids[b]);
        } else if a < ids.len() {
            assert(nids[a] == ids[a]);
            assert(ids.contains(ids[a]));
        } else {
            assert(nids[b] == ids[b]);
            assert(ids.contains(ids[b]));
        }
    }
    assert forall|q: u64| #[trigger] grid_at(nids, ngrids, q) == if q == id {
        Some(g)
    } else {
        grid_at(ids, grids, q)
    } by {
        if q == id {
            lemma_grid_at(nids, ngrids, ids.len() as int);
        } else if exists|j: int| 0 <= j < ids.len() && ids[j] == q {
            let j = choose|j: int| 0 <= j < ids.len() && ids[j] == q;
            lemma_grid_at(ids, grids, j);
            assert(nids[j] == ids[j]);
            lemma_grid_at(nids, ngrids, j);
        } else {
            assert forall|j: int| 0 <= j < nids.len() implies nids[j] != q by {
                if j < ids.len() {
                    assert(nids[j] == ids[j]);
                }
            }
        }
    }
}

/// Central container of the editor state needed to draw the Neovim UI.
#[derive(Debug)]
pub struct EditorState {
    ids: Vec<u64>,
    grids: Vec<Grid>,
    /// Highlight definitions.
    pub highlights: HighlightMap,
    /// Cursor state.
    pub cursor: Cursor,
    modes: Vec<ModeInfo>,
    current_mode: usize,
    dirty: DirtyTracker,
    default_cols: usize,
    default_rows: usize,
}

impl EditorState {
    /// Each grid is stored under a distinct key, the main grid (key 1)
    /// first; every part is well formed and there is at least one mode.
    pub closed spec fn wf(&self) -> bool {
        &&& self.ids@.len() == self.grids@.len()
        &&& self.ids@.len() >= 1
        &&& self.ids@[0] == 1
        &&& self.ids@.no_duplicates()
        &&& forall|i: int| 0 <= i < self.grids@.len() ==> #[trigger] self.grids@[i].wf()
        &&& self.highlights.wf()
        &&& self.dirty.wf()
        &&& self.modes@.len() >= 1
    }

    /// The grid stored under key `id`, if there is one.
    pub closed spec fn spec_grid(&self, id: u64) -> Option<Grid> {
        grid_at(self.ids@, self.grids@, id)
    }

    /// The highlight definitions.
    pub closed spec fn spec_highlights(&self) -> HighlightMap {
        self.highlights
    }

    /// The cursor.
    pub closed spec fn spec_cursor(&self) -> Cursor {
        self.cursor
    }

    /// The dirty rows of the main grid.
    pub closed spec fn spec_dirty(&self) -> DirtyTracker {
        self.dirty
    }

    /// The cursor modes.
    pub closed spec fn spec_modes(&self) -> Seq<ModeInfo> {
        self.modes@
    }

    /// The index of the current mode.
    pub closed spec fn spec_current_mode(&self) -> usize {
        self.current_mode
    }

    /// The main grid always exists.
    pub proof fn lemma_main_grid(&self)
        requires
            self.wf(),
        ensures
            self.spec_grid(1) is Some,
            self.spec_grid(1)->0.wf(),
    {
        lemma_grid_at(self.ids@, self.grids@, 0);
    }

    /// Creates the state of a fresh UI: a blank main grid of `cols` by `rows`,
    /// no highlight, a visible cursor at the origin of the main grid, one
    /// default mode and every row dirty.
    pub fn new(cols: usize, rows: usize) -> (s: Self)
        requires
            cols * rows <= usize::MAX,
            rows <= usize::MAX - 63,
        ensures
            s.wf(),
            s.spec_grid(1) is Some,
            s.spec_grid(1)->0.spec_id() == 1,
            s.spec_grid(1)->0.spec_width() == cols,
            s.spec_grid(1)->0.spec_height() == rows,
            s.spec_grid(1)->0@ == blank_grid(cols as nat, rows as nat),
            forall|id: u64| id != 1 ==> s.spec_grid(id) is None,
            s.spec_highlights()@ == Map::<u64, HighlightAttributes>::empty(),
            s.spec_highlights().spec_defaults() == DefaultColors::initial(),
            s.spec_cursor() == (Cursor { grid: 1, row: 0, col: 0, visible: true }),
            s.spec_modes() == seq![ModeInfo::plain()],
            s.spec_current_mode() == 0,
            s.spec_dirty()@ == Seq::new(rows as nat, |r: int| true),
            s.spec_dirty().spec_full_dirty(),
    {
        let mut ids: Vec<u64> = Vec::new();
        ids.push(1);
        let mut grids: Vec<Grid> = Vec::new();
        grids.push(Grid::new(1, cols, rows));
        let mut modes: Vec<ModeInfo> = Vec::new();
        modes.push(ModeInfo::default());
        let s = EditorState {
            ids,
            grids,
            highlights: HighlightMap::new(),
            cursor: Cursor { grid: 1, row: 0, col: 0, visible: true },
            modes,
            current_mode: 0,
            dirty: DirtyTracker::new(rows),
            default_cols: cols,
            default_rows: rows,
        };
        proof {
            lemma_grid_at(s.ids@, s.grids@, 0);
            assert forall|id: u64| id != 1 implies s.spec_grid(id) is None by {
                assert forall|i: int| 0 <= i < s.ids@.len() implies s.ids@[i] != id by {
                    assert(i == 0);
                }
            }
        }
        assert(s.modes@ =~= seq![ModeInfo::plain()]);
        s
    }

    /// Position of the key `id`, if it is one.
    fn find_grid(&self, id: u64) -> (i: Option<usize>)
        requires
            self.wf(),
        ensures
            match i {
                Some(k) => k < self.ids@.len() && self.ids@[k as int] == id,
                None => !self.ids@.contains(id),
            },
    {
        let mut k: usize = 0;
        while k < self.ids.len()
            invariant
                k <= self.ids@.len(),
                forall|j: int| 0 <= j < k ==> #[trigger] self.ids@[j] != id,
            decreases self.ids@.len() - k,
        {
            if self.ids[k] == id {
                return Some(k);
            }
            k = k + 1;
        }
        None
    }

    /// Returns the main grid (key 1).
    pub fn main_grid(&self) -> (g: &Grid)
        requires
            self.wf(),
        ensures
            self.spec_grid(1) == Some(*g),
            g.wf(),
    {
        proof {
            lemma_grid_at(self.ids@, self.grids@, 0);
        }
        &self.grids[0]
    }

    /// Returns the grid stored under `id`, if there is one.
    pub fn grid(&self, id: u64) -> (g: Option<&Grid>)
        requires
            self.wf(),
        ensures
            match g {
                Some(x) => self.spec_grid(id) == Some(*x) && x.wf(),
                None => self.spec_grid(id) is None,
            },
    {
        match self.find_grid(id) {
            Some(i) => {
                proof {
                    lemma_grid_at(self.ids@, self.grids@, i as int);
                }
                Some(&self.grids[i])
            },
            None => None,
        }
    }

    /// Returns the highlight definitions.
    pub fn highlights(&self) -> (h: &HighlightMap)
        ensures
            *h == self.spec_highlights(),
            self.wf() ==> h.wf(),
    {
        &self.highlights
    }

    /// Returns the cursor.
    pub fn cursor(&self) -> (c: &Cursor)
        ensures
            *c == self.spec_cursor(),
    {
        &self.cursor
    }

    /// Returns the dirty tracker.
    pub fn dirty(&self) -> (d: &DirtyTracker)
        ensures
            *d == self.spec_dirty(),
            self.wf() ==> d.wf(),
    {
        &self.dirty
    }

    /// Returns the current mode, or the first one when the current index has
    /// no mode.
    pub fn current_mode(&self) -> (m: &ModeInfo)
        requires
            self.wf(),
        ensures
            *m == if self.spec_current_mode() < self.spec_modes().len() {
                self.spec_modes()[self.spec_current_mode() as int]
            } else {
                self.spec_modes()[0]
            },
    {
        if self.current_mode < self.modes.len() {
            &self.modes[self.current_mode]
        } else {
            &self.modes[0]
        }
    }
}


impl EditorState {
    /// The state is `old` with the contents of the grid stored under `id`
    /// set to `view` at size `w` by `h`; the grid keeps its own id (a new
    /// one takes `id`), and every other grid, the highlights, the cursor and
    /// the modes are kept.
    pub open spec fn grid_set(self, old: EditorState, id: u64, w: nat, h: nat, view: Seq<Seq<CellView>>) -> bool {
        &&& forall|q: u64| q != id ==> #[trigger] self.spec_grid(q) == old.spec_grid(q)
        &&& self.spec_grid(id) is Some
        &&& self.spec_grid(id)->0.spec_id() == match old.spec_grid(id) {
            Some(g) => g.spec_id(),
            None => id,
        }
        &&& self.spec_grid(id)->0.spec_width() == w
        &&& self.spec_grid(id)->0.spec_height() == h
        &&& self.spec_grid(id)->0@ == view
        &&& self.spec_highlights() == old.spec_highlights()
        &&& self.spec_cursor() == old.spec_cursor()
        &&& self.spec_modes() == old.spec_modes()
        &&& self.spec_current_mode() == old.spec_current_mode()
    }

    /// Handles a `grid_resize` event: resizes grid `grid_id`, or creates it
    /// blank; resizing the main grid marks all of it dirty.
    pub fn grid_resize(&mut self, grid_id: u64, width: usize, height: usize)
        requires
            old(self).wf(),
            width * height <= usize::MAX,
            height <= usize::MAX - 63,
        ensures
            final(self).wf(),
            final(self).grid_set(*old(self), grid_id, width as nat, height as nat,
                match old(self).spec_grid(grid_id) {
                    Some(g) => resized(g@, g.spec_width(), g.spec_height(), width as nat, height as nat),
                    None => blank_grid(width as nat, height as nat),
                }),
            grid_id == 1 ==> final(self).spec_dirty()@ == Seq::new(height as nat, |r: int| true)
                && final(self).spec_dirty().spec_full_dirty(),
            grid_id != 1 ==> final(self).spec_dirty() == old(self).spec_dirty(),
    {
        match self.find_grid(grid_id) {
            Some(i) => {
                let ghost before = self.grids@;
                proof {
                    lemma_grid_at(self.ids@, before, i as int);
                }
                let g = &mut self.grids[i];
                g.resize(width, height);
                proof {
                    lemma_grid_at_update(self.ids@, before, i as int, self.grids@[i as int]);
                    assert(self.grids@ == before.update(i as int, self.grids@[i as int]));
                }
            },
            None => {
                let ghost before_ids = self.ids@;
                let ghost before = self.grids@;
                let g = Grid::new(grid_id, width, height);
                self.ids.push(grid_id);
                self.grids.push(g);
                proof {
                    lemma_grid_at_push(before_ids, before, grid_id, g);
                    assert(self.ids@[0] == before_ids[0]);
                    assert forall|i: int| 0 <= i < self.grids@.len() implies #[trigger] self.grids@[i].wf() by {
                        if i < before.len() {
                            assert(self.grids@[i] == before[i]);
                        }
                    }
                }
            },
        }
        if grid_id == 1 {
            self.dirty.resize(height);
        }
    }

    /// Handles a `grid_clear` event: blanks grid `grid_id`, if there is one;
    /// clearing the main grid marks all of it dirty.
    pub fn grid_clear(&mut self, grid_id: u64)
        requires
            old(self).wf(),
        ensures
            final(self).wf(),
            match old(self).spec_grid(grid_id) {
                Some(g) => final(self).grid_set(*old(self), grid_id, g.spec_width(), g.spec_height(),
                    blank_grid(g.spec_width(), g.spec_height())),
                None => *final(self) == *old(self),
            },
            grid_id == 1 ==> final(self).spec_dirty()@ == Seq::new(old(self).spec_dirty()@.len(), |r: int| true)
                && final(self).spec_dirty().spec_full_dirty(),
            grid_id != 1 ==> final(self).spec_dirty() == old(self).spec_dirty(),
    {
        proof {
            lemma_grid_at(self.ids@, self.grids@, 0);
        }
        if let Some(i) = self.find_grid(grid_id) {
            let ghost before = self.grids@;
            proof {
                lemma_grid_at(self.ids@, before, i as int);
            }
            let g = &mut self.grids[i];
            g.clear();
            proof {
                lemma_grid_at_update(self.ids@, before, i as int, self.grids@[i as int]);
                assert(self.grids@ == before.update(i as int, self.grids@[i as int]));
            }
            if grid_id == 1 {
                self.dirty.mark_all();
            }
        }
    }

    /// Handles a `grid_line` event on grid `grid_id` (see `Grid::update_line`);
    /// a line of the main grid marks its row dirty.
    pub fn grid_line(&mut self, grid_id: u64, row: usize, col_start: usize, cells: &[(String, Option<u64>, usize)])
        requires
            old(self).wf(),
        ensures
            final(self).wf(),
            match old(self).spec_grid(grid_id) {
                Some(g) => final(self).grid_set(*old(self), grid_id, g.spec_width(), g.spec_height(),
                    line_updated(g@, g.spec_width(), g.spec_height(), row as int, col_start as int, cells@)),
                None => *final(self) == *old(self),
            },
            grid_id == 1 ==> final(self).spec_dirty()@ == if row < old(self).spec_dirty()@.len() {
                old(self).spec_dirty()@.update(row as int, true)
            } else {
                old(self).spec_dirty()@
            },
            final(self).spec_dirty().spec_full_dirty() == old(self).spec_dirty().spec_full_dirty(),
            grid_id != 1 ==> final(self).spec_dirty() == old(self).spec_dirty(),
    {
        proof {
            lemma_grid_at(self.ids@, self.grids@, 0);
        }
        if let Some(i) = self.find_grid(grid_id) {
            let ghost before = self.grids@;
            proof {
                lemma_grid_at(self.ids@, before, i as int);
            }
            let g = &mut self.grids[i];
            g.update_line(row, col_start, cells);
            proof {
                lemma_grid_at_update(self.ids@, before, i as int, self.grids@[i as int]);
                assert(self.grids@ == before.update(i as int, self.grids@[i as int]));
            }
            if grid_id == 1 {
                self.dirty.mark_row(row);
            }
        }
    }

    /// Handles a `grid_scroll` event on grid `grid_id` (see `Grid::scroll`);
    /// scrolling the main grid marks the rows `top..bot` dirty.
    pub fn grid_scroll(&mut self, grid_id: u64, top: usize, bot: usize, left: usize, right: usize, rows: i64)
        requires
            old(self).wf(),
        ensures
            final(self).wf(),
            match old(self).spec_grid(grid_id) {
                Some(g) => final(self).grid_set(*old(self), grid_id, g.spec_width(), g.spec_height(),
                    scrolled(g@, g.spec_width(), g.spec_height(), top as int, bot as int, left as int, right as int, rows as int)),
                None => *final(self) == *old(self),
            },
            grid_id == 1 ==> final(self).spec_dirty()@ == Seq::new(
                old(self).spec_dirty()@.len(),
                |r: int| old(self).spec_dirty()@[r] || (top <= r < bot),
            ),
            final(self).spec_dirty().spec_full_dirty() == old(self).spec_dirty().spec_full_dirty(),
            grid_id != 1 ==> final(self).spec_dirty() == old(self).spec_dirty(),
    {
        proof {
            lemma_grid_at(self.ids@, self.grids@, 0);
        }
        if let Some(i) = self.find_grid(grid_id) {
            let ghost before = self.grids@;
            proof {
                lemma_grid_at(self.ids@, before, i as int);
            }
            let g = &mut self.grids[i];
            g.scroll(top, bot, left, right, rows);
            proof {
                lemma_grid_at_update(self.ids@, before, i as int, self.grids@[i as int]);
                assert(self.grids@ == before.update(i as int, self.grids@[i as int]));
            }
            if grid_id == 1 {
                self.dirty.mark_rows(top, bot);
            }
        }
    }
}

/// `rows` with `row` marked dirty, when it is one of them.
pub open spec fn row_marked(rows: Seq<bool>, row: int) -> Seq<bool> {
    if 0 <= row < rows.len() {
        rows.update(row, true)
    } else {
        rows
    }
}

impl EditorState {
    /// The parts of the state other than the dirty rows are those of `old`.
    pub open spec fn same_but_dirty(self, old: EditorState) -> bool {
        &&& forall|q: u64| #[trigger] self.spec_grid(q) == old.spec_grid(q)
        &&& self.spec_highlights() == old.spec_highlights()
        &&& self.spec_cursor() == old.spec_cursor()
        &&& self.spec_modes() == old.spec_modes()
        &&& self.spec_current_mode() == old.spec_current_mode()
    }

    /// Returns the main grid for writing. Whatever is written, the state
    /// holds the written grid under key 1 and every other grid as it was; as
    /// long as the grid stays well formed, so does the state.
    pub fn main_grid_mut(&mut self) -> (g: &mut Grid)
        requires
            old(self).wf(),
        ensures
            old(self).spec_grid(1) == Some(*g),
            final(self).spec_grid(1) == Some(*final(g)),
            forall|q: u64| q != 1 ==> #[trigger] final(self).spec_grid(q) == old(self).spec_grid(q),
            final(g).wf() ==> final(self).wf(),
            final(self).spec_highlights() == old(self).spec_highlights(),
            final(self).spec_cursor() == old(self).spec_cursor(),
            final(self).spec_modes() == old(self).spec_modes(),
            final(self).spec_current_mode() == old(self).spec_current_mode(),
            final(self).spec_dirty() == old(self).spec_dirty(),
    {
        proof {
            lemma_grid_at(self.ids@, self.grids@, 0);
        }
        let ghost before = self.grids@;
        let r = &mut self.grids[0];
        proof {
            lemma_grid_at_update(self.ids@, before, 0, *final(r));
            lemma_grid_at(self.ids@, before.update(0, *final(r)), 0);
        }
        r
    }

    /// Returns the grid stored under `id` for writing, if there is one.
    /// Whatever is written, the state holds the written grid under `id` and
    /// every other grid as it was; as long as the grid stays well formed, so
    /// does the state.
    pub fn grid_mut(&mut self, id: u64) -> (g: Option<&mut Grid>)
        requires
            old(self).wf(),
        ensures
            match g {
                Some(r) => {
                    &&& old(self).spec_grid(id) == Some(*r)
                    &&& final(self).spec_grid(id) == Some(*final(r))
                    &&& forall|q: u64| q != id ==> #[trigger] final(self).spec_grid(q) == old(self).spec_grid(q)
                    &&& final(r).wf() ==> final(self).wf()
                },
                None => old(self).spec_grid(id) is None && *final(self) == *old(self),
            },
            final(self).spec_highlights() == old(self).spec_highlights(),
            final(self).spec_cursor() == old(self).spec_cursor(),
            final(self).spec_modes() == old(self).spec_modes(),
            final(self).spec_current_mode() == old(self).spec_current_mode(),
            final(self).spec_dirty() == old(self).spec_dirty(),
    {
        match self.find_grid(id) {
            Some(i) => {
                let ghost before = self.grids@;
                proof {
                    lemma_grid_at(self.ids@, before, i as int);
                }
                let r = &mut self.grids[i];
                proof {
                    lemma_grid_at_update(self.ids@, before, i as int, *final(r));
                    lemma_grid_at(self.ids@, before.update(i as int, *final(r)), i as int);
                }
                Some(r)
            },
            None => None,
        }
    }

    /// Returns the dirty tracker for writing. As long as it stays well
    /// formed, so does the state, whose other parts are kept.
    pub fn dirty_mut(&mut self) -> (d: &mut DirtyTracker)
        requires
            old(self).wf(),
        ensures
            *d == old(self).spec_dirty(),
            d.wf(),
            final(d).wf() ==> final(self).wf(),
            final(self).spec_dirty() == *final(d),
            final(self).same_but_dirty(*old(self)),
    {
        &mut self.dirty
    }

    /// Handles a `grid_cursor_goto` event: moves the cursor and marks the rows
    /// it leaves and enters on the main grid dirty.
    pub fn grid_cursor_goto(&mut self, grid_id: u64, row: usize, col: usize)
        requires
            old(self).wf(),
        ensures
            final(self).wf(),
            final(self).spec_cursor() == (Cursor { grid: grid_id, row, col, visible: old(self).spec_cursor().visible }),
            final(self).spec_dirty()@ == {
                let left = if old(self).spec_cursor().grid == 1 {
                    row_marked(old(self).spec_dirty()@, old(self).spec_cursor().row as int)
                } else {
                    old(self).spec_dirty()@
                };
                if grid_id == 1 { row_marked(left, row as int) } else { left }
            },
            final(self).spec_dirty().spec_full_dirty() == old(self).spec_dirty().spec_full_dirty(),
            forall|q: u64| #[trigger] final(self).spec_grid(q) == old(self).spec_grid(q),
            final(self).spec_highlights() == old(self).spec_highlights(),
            final(self).spec_modes() == old(self).spec_modes(),
            final(self).spec_current_mode() == old(self).spec_current_mode(),
    {
        if self.cursor.grid == 1 {
            self.dirty.mark_row(self.cursor.row);
        }
        self.cursor.grid = grid_id;
        self.cursor.row = row;
        self.cursor.col = col;
        if grid_id == 1 {
            self.dirty.mark_row(row);
        }
    }

    /// Handles a `hl_attr_define` event.
    pub fn hl_attr_define(&mut self, id: u64, attrs: HighlightAttributes)
        requires
            old(self).wf(),
        ensures
            final(self).wf(),
            final(self).spec_highlights()@ == define_highlight(old(self).spec_highlights()@, id, attrs),
            final(self).spec_highlights().spec_defaults() == old(self).spec_highlights().spec_defaults(),
            forall|q: u64| #[trigger] final(self).spec_grid(q) == old(self).spec_grid(q),
            final(self).spec_cursor() == old(self).spec_cursor(),
            final(self).spec_modes() == old(self).spec_modes(),
            final(self).spec_current_mode() == old(self).spec_current_mode(),
            final(self).spec_dirty() == old(self).spec_dirty(),
    {
        self.highlights.define(id, attrs);
    }

    /// Handles a `default_colors_set` event: sets the default colors from
    /// 24-bit values and marks every row dirty.
    pub fn default_colors_set(&mut self, fg: u32, bg: u32, sp: u32)
        requires
            old(self).wf(),
        ensures
            final(self).wf(),
            final(self).spec_highlights()@ == old(self).spec_highlights()@,
            final(self).spec_highlights().spec_defaults().foreground.0 == (fg % 0x100_0000) * 0x100 + 0xFF,
            final(self).spec_highlights().spec_defaults().background.0 == (bg % 0x100_0000) * 0x100 + 0xFF,
            final(self).spec_highlights().spec_defaults().special.0 == (sp % 0x100_0000) * 0x100 + 0xFF,
            final(self).spec_dirty()@ == Seq::new(old(self).spec_dirty()@.len(), |r: int| true),
            final(self).spec_dirty().spec_full_dirty(),
            forall|q: u64| #[trigger] final(self).spec_grid(q) == old(self).spec_grid(q),
            final(self).spec_cursor() == old(self).spec_cursor(),
            final(self).spec_modes() == old(self).spec_modes(),
            final(self).spec_current_mode() == old(self).spec_current_mode(),
    {
        let foreground = Color::from_u24(fg);
        let background = Color::from_u24(bg);
        let special = Color::from_u24(sp);
        self.highlights.set_defaults(foreground, background, special);
        self.dirty.mark_all();
    }

    /// Handles a `mode_info_set` event: replaces the modes, keeping one
    /// default mode when none is given.
    pub fn mode_info_set(&mut self, modes: Vec<ModeInfo>)
        requires
            old(self).wf(),
        ensures
            final(self).wf(),
            final(self).spec_modes() == if modes@.len() == 0 { seq![ModeInfo::plain()] } else { modes@ },
            final(self).spec_current_mode() == old(self).spec_current_mode(),
            final(self).spec_dirty() == old(self).spec_dirty(),
            forall|q: u64| #[trigger] final(self).spec_grid(q) == old(self).spec_grid(q),
            final(self).spec_highlights() == old(self).spec_highlights(),
            final(self).spec_cursor() == old(self).spec_cursor(),
    {
        self.modes = modes;
        if self.modes.len() == 0 {
            self.modes.push(ModeInfo::default());
            assert(self.modes@ =~= seq![ModeInfo::plain()]);
        }
    }

    /// Handles a `mode_change` event: selects mode `mode_idx` and marks the
    /// cursor's row dirty. The mode's name is not used.
    pub fn mode_change(&mut self, mode: &str, mode_idx: usize)
        requires
            old(self).wf(),
        ensures
            final(self).wf(),
            final(self).spec_current_mode() == mode_idx,
            final(self).spec_dirty()@ == row_marked(old(self).spec_dirty()@, old(self).spec_cursor().row as int),
            final(self).spec_dirty().spec_full_dirty() == old(self).spec_dirty().spec_full_dirty(),
            forall|q: u64| #[trigger] final(self).spec_grid(q) == old(self).spec_grid(q),
            final(self).spec_highlights() == old(self).spec_highlights(),
            final(self).spec_cursor() == old(self).spec_cursor(),
            final(self).spec_modes() == old(self).spec_modes(),
    {
        self.current_mode = mode_idx;
        self.dirty.mark_row(self.cursor.row);
    }

    /// Handles a `flush` event, which ends a batch of updates; the state is
    /// left as it is.
    pub fn flush(&mut self)
        ensures
            *final(self) == *old(self),
    {
    }

    /// Clears every dirty flag after a frame was drawn.
    pub fn clear_dirty(&mut self)
        requires
            old(self).wf(),
        ensures
            final(self).wf(),
            final(self).spec_dirty()@ == Seq::new(old(self).spec_dirty()@.len(), |r: int| false),
            !final(self).spec_dirty().spec_full_dirty(),
            final(self).same_but_dirty(*old(self)),
    {
        self.dirty.clear();
    }
}

impl Default for EditorState {
    fn default() -> (s: Self)
        ensures
            s.wf(),
            s.spec_grid(1) is Some,
            s.spec_grid(1)->0.spec_width() == 80,
            s.spec_grid(1)->0.spec_height() == 24,
            s.spec_grid(1)->0@ == blank_grid(80, 24),
            s.spec_cursor() == (Cursor { grid: 1, row: 0, col: 0, visible: true }),
            s.spec_dirty()@ == Seq::new(24, |r: int| true),
    {
        Self::new(80, 24)
    }
}

/// Marking a row dirty keeps the number of rows, makes that row dirty when
/// the grid has it, and leaves every other row as it was.
pub proof fn law_row_marked(rows: Seq<bool>, row: int, k: int)
    requires
        0 <= k < rows.len(),
    ensures
        row_marked(rows, row).len() == rows.len(),
        row_marked(rows, row)[k] == (rows[k] || k == row),
{
}

} // verus!
