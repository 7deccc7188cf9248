//! A 2D grid of cells: the main screen or a window of the multigrid extension.

use vstd::prelude::*;

use super::cell::{blank_cell, Cell, CellFlags, CellView};

verus! {

/// Position of the cell at (`r`, `c`) in row-major storage of width `w`.
proof fn lemma_cell_index(r: int, c: int, w: int, h: int)
    requires
        0 <= r < h,
        0 <= c < w,
    ensures
        0 <= r * w,
        r * w + c < w * h,
        r * w + w <= w * h,
{
    assert(0 <= r * w && r * w + c < w * h && r * w + w <= w * h) by (nonlinear_arith)
        requires
            0 <= r < h,
            0 <= c < w,
    ;
}

/// Distinct cells have distinct positions in row-major storage.
proof fn lemma_cell_index_injective(r1: int, c1: int, r2: int, c2: int, w: int)
    requires
        0 <= c1 < w,
        0 <= c2 < w,
        0 <= r1,
        0 <= r2,
        r1 * w + c1 == r2 * w + c2,
    ensures
        r1 == r2,
        c1 == c2,
{
    assert(r1 == r2) by (nonlinear_arith)
        requires
            0 <= c1 < w,
            0 <= c2 < w,
            0 <= r1,
            0 <= r2,
            r1 * w + c1 == r2 * w + c2,
    ;
}

/// A grid of `w` columns and `h` rows of blank cells.
pub open spec fn blank_grid(w: nat, h: nat) -> Seq<Seq<CellView>> {
    Seq::new(h, |r: int| Seq::new(w, |c: int| blank_cell()))
}

/// The grid `v` (`w` by `h`) resized to `nw` by `nh`: cells inside both sizes
/// keep their content, new cells are blank.
pub open spec fn resized(v: Seq<Seq<CellView>>, w: nat, h: nat, nw: nat, nh: nat) -> Seq<Seq<CellView>> {
    Seq::new(
        nh,
        |r: int|
            Seq::new(nw, |c: int| if r < h && c < w { v[r][c] } else { blank_cell() }),
    )
}

/// The cell written by one entry of a `grid_line` event: an empty text makes
/// the right half of a wide character, any other text a plain cell.
pub open spec fn apply_op(op: (Seq<char>, u64), cell: CellView) -> CellView {
    if op.0.len() == 0 {
        CellView {
            text: Seq::empty(),
            highlight_id: op.1,
            flags: (cell.flags | CellFlags::spacer_bit()) & !CellFlags::wide_bit(),
        }
    } else {
        CellView { text: op.0, highlight_id: op.1, flags: 0 }
    }
}

/// The highlight id in force after the entries `items`: the last one given,
/// or 0 where none is.
pub open spec fn line_highlight(items: Seq<(String, Option<u64>, usize)>) -> u64
    decreases items.len(),
{
    if items.len() == 0 {
        0
    } else {
        match items.last().1 {
            Some(h) => h,
            None => line_highlight(items.drop_last()),
        }
    }
}

/// How many cells one entry covers: its repeat count, and at least one.
pub open spec fn repeat_of(item: (String, Option<u64>, usize)) -> nat {
    if item.2 == 0 {
        1
    } else {
        item.2 as nat
    }
}

/// The cells that the entries `items` write, left to right, as text and
/// highlight id, each entry repeated by its count.
pub open spec fn line_ops(items: Seq<(String, Option<u64>, usize)>) -> Seq<(Seq<char>, u64)>
    decreases items.len(),
{
    if items.len() == 0 {
        Seq::empty()
    } else {
        let prev = items.drop_last();
        let it = items.last();
        let hl = match it.1 {
            Some(h) => h,
            None => line_highlight(prev),
        };
        line_ops(prev) + Seq::new(repeat_of(it), |k: int| (it.0@, hl))
    }
}

/// Row `row` of `v` after a `grid_line` event that starts at `col_start`; the
/// cells past the right edge are dropped, and a row outside the grid leaves
/// it unchanged.
pub open spec fn line_updated(
    v: Seq<Seq<CellView>>,
    w: nat,
    h: nat,
    row: int,
    col_start: int,
    items: Seq<(String, Option<u64>, usize)>,
) -> Seq<Seq<CellView>> {
    if row >= h {
        v
    } else {
        v.update(
            row,
            Seq::new(
                w,
                |c: int|
                    if col_start <= c && c - col_start < line_ops(items).len() {
                        apply_op(line_ops(items)[c - col_start], v[row][c])
                    } else {
                        v[row][c]
                    },
            ),
        )
    }
}

/// The grid `v` after scrolling the region of rows `top..bot` and columns
/// `left..right` (both clipped to the grid) by `rows`: each cell of the region
/// takes the content of the cell `rows` rows below it, or becomes blank where
/// that cell lies outside the region. An empty region, or one that starts
/// outside the grid, leaves the grid unchanged.
pub open spec fn scrolled(
    v: Seq<Seq<CellView>>,
    w: nat,
    h: nat,
    top: int,
    bot: int,
    left: int,
    right: int,
    rows: int,
) -> Seq<Seq<CellView>> {
    if top >= bot || left >= right || top >= h || left >= w {
        v
    } else {
        let b = if bot < h { bot } else { h as int };
        let rt = if right < w { right } else { w as int };
        Seq::new(
            h,
            |r: int|
                Seq::new(
                    w,
                    |c: int|
                        if top <= r < b && left <= c < rt {
                            if top <= r + rows < b {
                                v[r + rows][c]
                            } else {
                                blank_cell()
                            }
                        } else {
                            v[r][c]
                        },
                ),
        )
    }
}

/// The cells of row-major storage `cells`, `w` wide and `h` high, row by row.
pub open spec fn grid_view(cells: Seq<Cell>, w: nat, h: nat) -> Seq<Seq<CellView>> {
    Seq::new(h, |r: int| Seq::new(w, |c: int| cells[r * w + c]@))
}

/// Writing the cell at (`r`, `c`) of row-major storage changes that cell of
/// the grid and no other.
proof fn lemma_store_cell(cells: Seq<Cell>, w: nat, h: nat, r: int, c: int, x: Cell)
    requires
        cells.len() == w * h,
        0 <= r < h,
        0 <= c < w,
    ensures
        grid_view(cells.update(r * w + c, x), w, h) == grid_view(cells, w, h).update(
            r,
            grid_view(cells, w, h)[r].update(c, x@),
        ),
{
    let nv = grid_view(cells.update(r * w + c, x), w, h);
    let ov = grid_view(cells, w, h);
    lemma_cell_index(r, c, w as int, h as int);
    assert forall|y: int, z: int| 0 <= y < h && 0 <= z < w implies #[trigger] nv[y][z] == (if y
        == r && z == c {
        x@
    } else {
        ov[y][z]
    }) by {
        lemma_cell_index(y, z, w as int, h as int);
        if y * w + z == r * w + c {
            lemma_cell_index_injective(y, z, r, c, w as int);
        }
    }
    assert(nv =~~= ov.update(r, ov[r].update(c, x@)));
}

/// The cells `s` show the row `row`.
pub open spec fn cells_match(s: Seq<Cell>, row: Seq<CellView>) -> bool {
    &&& s.len() == row.len()
    &&& forall|c: int| 0 <= c < s.len() ==> #[trigger] s[c]@ == row[c]
}

/// A 2D grid of cells stored in row-major order, the order in which Neovim's
/// `grid_line` events arrive.
#[derive(Debug)]
pub struct Grid {
    /// Grid id (1 is the main grid, others come from the multigrid extension).
    pub id: u64,
    width: usize,
    height: usize,
    cells: Vec<Cell>,
}

impl View for Grid {
    type V = Seq<Seq<CellView>>;

    /// The cells, row by row.
    closed spec fn view(&self) -> Seq<Seq<CellView>> {
        grid_view(self.cells@, self.width as nat, self.height as nat)
    }
}

impl Grid {
    /// The storage holds exactly one cell per position.
    pub closed spec fn wf(&self) -> bool {
        self.cells@.len() == self.width * self.height
    }

    /// The grid id.
    pub closed spec fn spec_id(&self) -> u64 {
        self.id
    }

    /// Number of columns.
    pub closed spec fn spec_width(&self) -> nat {
        self.width as nat
    }

    /// Number of rows.
    pub closed spec fn spec_height(&self) -> nat {
        self.height as nat
    }

    /// The view has one row per row of the grid and one cell per column.
    pub proof fn lemma_shape(&self)
        ensures
            self@.len() == self.spec_height(),
            forall|r: int| 0 <= r < self.spec_height() ==> #[trigger] self@[r].len() == self.spec_width(),
            self.spec_width() <= usize::MAX,
            self.spec_height() <= usize::MAX,
    {
    }

    /// Creates a grid of blank cells.
    pub fn new(id: u64, width: usize, height: usize) -> (g: Self)
        requires
            width * height <= usize::MAX,
        ensures
            g.wf(),
            g.spec_id() == id,
            g.spec_width() == width,
            g.spec_height() == height,
            g@ == blank_grid(width as nat, height as nat),
    {
        let cells = vec![Cell::blank(); width * height];
        let g = Grid { id, width, height, cells };
        assert forall|r: int, c: int| 0 <= r < height && 0 <= c < width implies #[trigger] g@[r][c]
            == blank_cell() by {
            lemma_cell_index(r, c, width as int, height as int);
        }
        assert(g@ =~~= blank_grid(width as nat, height as nat));
        g
    }

    /// Returns the grid id.
    pub fn id(&self) -> (i: u64)
        ensures
            i == self.spec_id(),
    {
        self.id
    }

    /// Returns the number of columns.
    pub fn width(&self) -> (w: usize)
        ensures
            w == self.spec_width(),
    {
        self.width
    }

    /// Returns the number of rows.
    pub fn height(&self) -> (h: usize)
        ensures
            h == self.spec_height(),
    {
        self.height
    }

    /// Returns the number of cells.
    pub fn len(&self) -> (n: usize)
        requires
            self.wf(),
        ensures
            n == self.spec_width() * self.spec_height(),
    {
        self.cells.len()
    }

    /// Returns true if the grid has no cell.
    pub fn is_empty(&self) -> (b: bool)
        requires
            self.wf(),
        ensures
            b == (self.spec_width() * self.spec_height() == 0),
    {
        self.cells.len() == 0
    }

    /// Position in storage of the cell at (`row`, `col`).
    fn index_of(&self, row: usize, col: usize) -> (i: usize)
        requires
            self.wf(),
            row < self.height,
            col < self.width,
        ensures
            i == row * self.width + col,
            i < self.cells@.len(),
    {
        let n = self.cells.len();
        proof {
            lemma_cell_index(row as int, col as int, self.width as int, self.height as int);
        }
        row * self.width + col
    }

    /// The cell at (`row`, `col`), or `None` outside the grid.
    pub fn get(&self, row: usize, col: usize) -> (c: Option<&Cell>)
        requires
            self.wf(),
        ensures
            match c {
                Some(cell) => row < self.spec_height() && col < self.spec_width() && cell@
                    == self@[row as int][col as int],
                None => row >= self.spec_height() || col >= self.spec_width(),
            },
    {
        if row < self.height && col < self.width {
            let i = self.index_of(row, col);
            Some(&self.cells[i])
        } else {
            None
        }
    }

    /// Replaces the cell at (`row`, `col`).
    fn put(&mut self, row: usize, col: usize, cell: Cell)
        requires
            old(self).wf(),
            row < old(self).height,
            col < old(self).width,
        ensures
            final(self).wf(),
            final(self).id == old(self).id,
            final(self).width == old(self).width,
            final(self).height == old(self).height,
            final(self)@ == old(self)@.update(
                row as int,
                old(self)@[row as int].update(col as int, cell@),
            ),
    {
        let i = self.index_of(row, col);
        proof {
            lemma_store_cell(self.cells@, self.width as nat, self.height as nat, row as int, col as int, cell);
        }
        self.cells.set(i, cell);
    }

    /// The cells of row `row`, or `None` outside the grid.
    pub fn row(&self, row: usize) -> (s: Option<&[Cell]>)
        requires
            self.wf(),
        ensures
            match s {
                Some(cells) => row < self.spec_height() && cells_match(cells@, self@[row as int]),
                None => row >= self.spec_height(),
            },
    {
        if row < self.height {
            let n = self.cells.len();
            assert(row * self.width + self.width <= n) by (nonlinear_arith)
                requires
                    row < self.height,
                    n == self.width * self.height,
            ;
            let start: usize = row * self.width;
            let cells = vstd::slice::slice_subrange(self.cells.as_slice(), start, start + self.width);
            Some(cells)
        } else {
            None
        }
    }

    /// The rows of the grid, top to bottom.
    pub fn rows(&self) -> (rs: Vec<&[Cell]>)
        requires
            self.wf(),
            self.spec_width() > 0,
        ensures
            rs@.len() == self.spec_height(),
            forall|r: int| 0 <= r < self.spec_height() ==> cells_match(#[trigger] rs@[r]@, self@[r]),
    {
        let mut rs: Vec<&[Cell]> = Vec::new();
        let mut r: usize = 0;
        while r < self.height
            invariant
                self.wf(),
                r <= self.height,
                rs@.len() == r,
                forall|i: int| 0 <= i < r ==> cells_match(#[trigger] rs@[i]@, self@[i]),
            decreases self.height - r,
        {
            let cells = self.row(r).unwrap();
            rs.push(cells);
            r = r + 1;
        }
        rs
    }

    /// Makes every cell blank.
    pub fn clear(&mut self)
        requires
            old(self).wf(),
        ensures
            final(self).wf(),
            final(self).spec_id() == old(self).spec_id(),
            final(self).spec_width() == old(self).spec_width(),
            final(self).spec_height() == old(self).spec_height(),
            final(self)@ == blank_grid(old(self).spec_width(), old(self).spec_height()),
    {
        let n = self.cells.len();
        let mut i: usize = 0;
        while i < n
            invariant
                n == self.cells@.len(),
                i <= n,
                self.id == old(self).id,
                self.width == old(self).width,
                self.height == old(self).height,
                self.cells@.len() == old(self).cells@.len(),
                forall|k: int| 0 <= k < i ==> #[trigger] self.cells@[k]@ == blank_cell(),
            decreases n - i,
        {
            self.cells.set(i, Cell::blank());
            i = i + 1;
        }
        assert forall|r: int, c: int|
            0 <= r < self.height && 0 <= c < self.width implies #[trigger] self@[r][c] == blank_cell() by {
            lemma_cell_index(r, c, self.width as int, self.height as int);
        }
        assert(self@ =~~= blank_grid(old(self).spec_width(), old(self).spec_height()));
    }
}


impl Grid {
    /// Resizes the grid; cells inside both the old and the new size keep their
    /// content, new cells are blank.
    pub fn resize(&mut self, new_width: usize, new_height: usize)
        requires
            old(self).wf(),
            new_width * new_height <= usize::MAX,
        ensures
            final(self).wf(),
            final(self).spec_id() == old(self).spec_id(),
            final(self).spec_width() == new_width,
            final(self).spec_height() == new_height,
            final(self)@ == resized(
                old(self)@,
                old(self).spec_width(),
                old(self).spec_height(),
                new_width as nat,
                new_height as nat,
            ),
    {
        let ghost ov = self@;
        let ghost w = self.width as nat;
        let ghost h = self.height as nat;
        if new_width == self.width && new_height == self.height {
            assert(self@ =~~= resized(ov, w, h, w, h));
            return;
        }
        let mut new_cells = vec![Cell::blank(); new_width * new_height];
        let copy_width = if self.width < new_width { self.width } else { new_width };
        let copy_height = if self.height < new_height { self.height } else { new_height };
        let ghost nw = new_width as nat;
        let ghost nh = new_height as nat;
        assert(grid_view(new_cells@, nw, nh) =~~= Seq::new(nh, |r: int| Seq::new(nw, |c: int| blank_cell()))) by {
            assert forall|r: int, c: int| 0 <= r < nh && 0 <= c < nw implies #[trigger] new_cells@[r * nw + c]@ == blank_cell() by {
                lemma_cell_index(r, c, nw as int, nh as int);
            }
        }
        assert(grid_view(new_cells@, nw, nh) =~~= Seq::new(
            nh,
            |r: int| Seq::new(nw, |c: int| if r < 0 && c < copy_width { ov[r][c] } else { blank_cell() }),
        ));
        let mut row: usize = 0;
        while row < copy_height
            invariant
                nw * nh <= usize::MAX,
                nw == new_width,
                nh == new_height,
                self.wf(),
                self@ == ov,
                self.width == w,
                self.height == h,
                self.id == old(self).id,
                copy_width <= w,
                copy_width <= nw,
                copy_height <= h,
                copy_height <= nh,
                row <= copy_height,
                new_cells@.len() == nw * nh,
                grid_view(new_cells@, nw, nh) == Seq::new(
                    nh,
                    |r: int| Seq::new(nw, |c: int| if r < row && c < copy_width { ov[r][c] } else { blank_cell() }),
                ),
            decreases copy_height - row,
        {
            assert(grid_view(new_cells@, nw, nh) =~~= Seq::new(
                nh,
                |r: int|
                    Seq::new(
                        nw,
                        |c: int|
                            if (r < row && c < copy_width) || (r == row && c < 0) {
                                ov[r][c]
                            } else {
                                blank_cell()
                            },
                    ),
            ));
            let mut col: usize = 0;
            while col < copy_width
                invariant
                    nw * nh <= usize::MAX,
                    nw == new_width,
                    nh == new_height,
                    self.wf(),
                    self@ == ov,
                    self.width == w,
                    self.height == h,
                    copy_width <= w,
                    copy_width <= nw,
                    copy_height <= h,
                    copy_height <= nh,
                    row < copy_height,
                    col <= copy_width,
                    new_cells@.len() == nw * nh,
                    grid_view(new_cells@, nw, nh) == Seq::new(
                        nh,
                        |r: int|
                            Seq::new(
                                nw,
                                |c: int|
                                    if (r < row && c < copy_width) || (r == row && c < col) {
                                        ov[r][c]
                                    } else {
                                        blank_cell()
                                    },
                            ),
                    ),
                decreases copy_width - col,
            {
                let cell = self.get(row, col).unwrap().clone();
                proof {
                    lemma_cell_index(row as int, col as int, nw as int, nh as int);
                    lemma_store_cell(new_cells@, nw, nh, row as int, col as int, cell);
                }
                let ghost before = grid_view(new_cells@, nw, nh);
                new_cells.set(row * new_width + col, cell);
                assert(grid_view(new_cells@, nw, nh) =~~= Seq::new(
                    nh,
                    |r: int|
                        Seq::new(
                            nw,
                            |c: int|
                                if (r < row && c < copy_width) || (r == row && c < col + 1) {
                                    ov[r][c]
                                } else {
                                    blank_cell()
                                },
                        ),
                ));
                col = col + 1;
            }
            assert(grid_view(new_cells@, nw, nh) =~~= Seq::new(
                nh,
                |r: int| Seq::new(nw, |c: int| if r < row + 1 && c < copy_width { ov[r][c] } else { blank_cell() }),
            ));
            row = row + 1;
        }
        self.width = new_width;
        self.height = new_height;
        self.cells = new_cells;
        assert(self@ =~~= resized(ov, w, h, nw, nh));
    }
}


/// Row `dst` of `v` with the cells in columns `left..right` taken from row
/// `src`.
pub open spec fn row_copied(v: Seq<Seq<CellView>>, w: nat, dst: int, src: int, left: int, right: int) -> Seq<Seq<CellView>> {
    v.update(dst, Seq::new(w, |c: int| if left <= c < right { v[src][c] } else { v[dst][c] }))
}

/// Row `row` of `v` with the cells in columns `left..right` blank.
pub open spec fn row_blanked(v: Seq<Seq<CellView>>, w: nat, row: int, left: int, right: int) -> Seq<Seq<CellView>> {
    v.update(row, Seq::new(w, |c: int| if left <= c < right { blank_cell() } else { v[row][c] }))
}

impl Grid {
    /// Copies the cells in columns `left..right` of row `src` into row `dst`.
    fn copy_cells_in_row(&mut self, dst: usize, src: usize, left: usize, right: usize)
        requires
            old(self).wf(),
            dst < old(self).height,
            src < old(self).height,
            left <= right <= old(self).width,
        ensures
            final(self).wf(),
            final(self).id == old(self).id,
            final(self).width == old(self).width,
            final(self).height == old(self).height,
            final(self)@ == row_copied(old(self)@, old(self).width as nat, dst as int, src as int, left as int, right as int),
    {
        let ghost ov = self@;
        let ghost w = self.width as nat;
        assert(self@ =~~= row_copied(ov, w, dst as int, src as int, left as int, left as int));
        let mut col = left;
        while col < right
            invariant
                self.wf(),
                self.id == old(self).id,
                self.width == old(self).width,
                self.height == old(self).height,
                w == self.width,
                ov == old(self)@,
                dst < self.height,
                src < self.height,
                left <= col <= right,
                right <= self.width,
                self@ == row_copied(ov, w, dst as int, src as int, left as int, col as int),
            decreases right - col,
        {
            let cell = self.get(src, col).unwrap().clone();
            self.put(dst, col, cell);
            assert(self@ =~~= row_copied(ov, w, dst as int, src as int, left as int, col + 1));
            col = col + 1;
        }
    }

    /// Makes the cells in columns `left..right` of row `row` blank.
    fn blank_cells_in_row(&mut self, row: usize, left: usize, right: usize)
        requires
            old(self).wf(),
            row < old(self).height,
            left <= right <= old(self).width,
        ensures
            final(self).wf(),
            final(self).id == old(self).id,
            final(self).width == old(self).width,
            final(self).height == old(self).height,
            final(self)@ == row_blanked(old(self)@, old(self).width as nat, row as int, left as int, right as int),
    {
        let ghost ov = self@;
        let ghost w = self.width as nat;
        assert(self@ =~~= row_blanked(ov, w, row as int, left as int, left as int));
        let mut col = left;
        while col < right
            invariant
                self.wf(),
                self.id == old(self).id,
                self.width == old(self).width,
                self.height == old(self).height,
                w == self.width,
                ov == old(self)@,
                row < self.height,
                left <= col <= right,
                right <= self.width,
                self@ == row_blanked(ov, w, row as int, left as int, col as int),
            decreases right - col,
        {
            self.put(row, col, Cell::blank());
            assert(self@ =~~= row_blanked(ov, w, row as int, left as int, col + 1));
            col = col + 1;
        }
    }
}


/// Row `y` of `v` with the cells in columns `left..right` taken from row `src`.
pub open spec fn shifted_row(v: Seq<Seq<CellView>>, w: nat, y: int, src: int, left: int, right: int) -> Seq<CellView> {
    Seq::new(w, |c: int| if left <= c < right { v[src][c] } else { v[y][c] })
}

/// Row `y` of `v` with the cells in columns `left..right` blank.
pub open spec fn blanked_row(v: Seq<Seq<CellView>>, w: nat, y: int, left: int, right: int) -> Seq<CellView> {
    Seq::new(w, |c: int| if left <= c < right { blank_cell() } else { v[y][c] })
}

impl Grid {
    /// Makes the cells of rows `top..bot`, columns `left..right`, blank.
    fn blank_region(&mut self, top: usize, bot: usize, left: usize, right: usize)
        requires
            old(self).wf(),
            top <= bot <= old(self).height,
            left <= right <= old(self).width,
        ensures
            final(self).wf(),
            final(self).id == old(self).id,
            final(self).width == old(self).width,
            final(self).height == old(self).height,
            final(self)@ == Seq::new(
                old(self).height as nat,
                |y: int|
                    if top <= y < bot {
                        blanked_row(old(self)@, old(self).width as nat, y, left as int, right as int)
                    } else {
                        old(self)@[y]
                    },
            ),
    {
        let ghost ov = self@;
        let ghost w = self.width as nat;
        let ghost h = self.height as nat;
        assert(self@ =~~= Seq::new(h, |y: int| if top <= y < top { blanked_row(ov, w, y, left as int, right as int) } else { ov[y] }));
        let mut row = top;
        while row < bot
            invariant
                self.wf(),
                self.id == old(self).id,
                self.width == old(self).width,
                self.height == old(self).height,
                w == self.width,
                h == self.height,
                ov == old(self)@,
                top <= row <= bot,
                bot <= self.height,
                left <= right <= self.width,
                self@ == Seq::new(h, |y: int| if top <= y < row { blanked_row(ov, w, y, left as int, right as int) } else { ov[y] }),
            decreases bot - row,
        {
            self.blank_cells_in_row(row, left, right);
            assert(self@ =~~= Seq::new(h, |y: int| if top <= y < row + 1 { blanked_row(ov, w, y, left as int, right as int) } else { ov[y] }));
            row = row + 1;
        }
    }

    /// Scrolls the region of rows `top..bot` and columns `left..right` by
    /// `rows`, as Neovim's `grid_scroll` event asks: with `rows > 0` the content
    /// moves up, with `rows < 0` down, and the rows that become free are blank.
    pub fn scroll(&mut self, top: usize, bot: usize, left: usize, right: usize, rows: i64)
        requires
            old(self).wf(),
        ensures
            final(self).wf(),
            final(self).spec_id() == old(self).spec_id(),
            final(self).spec_width() == old(self).spec_width(),
            final(self).spec_height() == old(self).spec_height(),
            final(self)@ == scrolled(
                old(self)@,
                old(self).spec_width(),
                old(self).spec_height(),
                top as int,
                bot as int,
                left as int,
                right as int,
                rows as int,
            ),
    {
        let ghost ov = self@;
        let ghost w = self.width as nat;
        let ghost h = self.height as nat;
        if top >= bot || left >= right || top >= self.height || left >= self.width {
            return;
        }
        let bot = if bot < self.height { bot } else { self.height };
        let right = if right < self.width { right } else { self.width };
        let region_height: usize = bot - top;
        let magnitude: u64 = if rows >= 0 { rows as u64 } else { (0i128 - rows as i128) as u64 };
        if magnitude >= region_height as u64 {
            self.blank_region(top, bot, left, right);
            assert(self@ =~~= scrolled(ov, w, h, top as int, bot as int, left as int, right as int, rows as int));
            return;
        }
        if rows > 0 {
            let n: usize = rows as usize;
            let mid: usize = bot - n;
            assert(self@ =~~= Seq::new(h, |y: int| if top <= y < top { shifted_row(ov, w, y, y + n, left as int, right as int) } else { ov[y] }));
            let mut row = top;
            while row < mid
                invariant
                    self.wf(),
                    self.id == old(self).id,
                    self.width == old(self).width,
                    self.height == old(self).height,
                    w == self.width,
                    h == self.height,
                    ov == old(self)@,
                    top <= row <= mid,
                    mid + n == bot,
                    bot <= self.height,
                    left <= right <= self.width,
                    self@ == Seq::new(h, |y: int| if top <= y < row { shifted_row(ov, w, y, y + n, left as int, right as int) } else { ov[y] }),
                decreases mid - row,
            {
                self.copy_cells_in_row(row, row + n, left, right);
                assert(self@ =~~= Seq::new(h, |y: int| if top <= y < row + 1 { shifted_row(ov, w, y, y + n, left as int, right as int) } else { ov[y] }));
                row = row + 1;
            }
            let ghost copied = self@;
            self.blank_region(mid, bot, left, right);
            assert(self@ =~~= scrolled(ov, w, h, top as int, bot as int, left as int, right as int, rows as int));
        } else {
            let n: usize = (0i128 - rows as i128) as usize;
            let mid: usize = top + n;
            assert(self@ =~~= Seq::new(h, |y: int| if bot <= y < bot { shifted_row(ov, w, y, y - n, left as int, right as int) } else { ov[y] }));
            let mut row = bot;
            while row > mid
                invariant
                    self.wf(),
                    self.id == old(self).id,
                    self.width == old(self).width,
                    self.height == old(self).height,
                    w == self.width,
                    h == self.height,
                    ov == old(self)@,
                    mid <= row <= bot,
                    mid == top + n,
                    bot <= self.height,
                    left <= right <= self.width,
                    self@ == Seq::new(h, |y: int| if row <= y < bot { shifted_row(ov, w, y, y - n, left as int, right as int) } else { ov[y] }),
                decreases row - mid,
            {
                self.copy_cells_in_row(row - 1, row - 1 - n, left, right);
                assert(self@ =~~= Seq::new(h, |y: int| if row - 1 <= y < bot { shifted_row(ov, w, y, y - n, left as int, right as int) } else { ov[y] }));
                row = row - 1;
            }
            self.blank_region(top, mid, left, right);
            assert(self@ =~~= scrolled(ov, w, h, top as int, bot as int, left as int, right as int, rows as int));
        }
    }
}


/// Row `row` of `v` with the cells of columns `col_start..col` written by the
/// entries `items`.
pub open spec fn line_written(
    v: Seq<Seq<CellView>>,
    w: nat,
    row: int,
    col_start: int,
    col: int,
    items: Seq<(String, Option<u64>, usize)>,
) -> Seq<Seq<CellView>> {
    v.update(
        row,
        Seq::new(
            w,
            |c: int|
                if col_start <= c < col {
                    apply_op(line_ops(items)[c - col_start], v[row][c])
                } else {
                    v[row][c]
                },
        ),
    )
}

/// The cells written by the first `i` entries begin the cells written by all
/// of them.
proof fn lemma_line_ops_prefix(items: Seq<(String, Option<u64>, usize)>, i: int)
    requires
        0 <= i <= items.len(),
    ensures
        line_ops(items.take(i)).len() <= line_ops(items).len(),
        forall|k: int|
            0 <= k < line_ops(items.take(i)).len() ==> #[trigger] line_ops(items.take(i))[k]
                == line_ops(items)[k],
    decreases items.len() - i,
{
    if i == items.len() {
        assert(items.take(i) =~= items);
    } else {
        lemma_line_ops_prefix(items, i + 1);
        lemma_line_ops_step(items, i);
        assert forall|k: int| 0 <= k < line_ops(items.take(i)).len() implies #[trigger] line_ops(
            items.take(i),
        )[k] == line_ops(items)[k] by {
            assert(line_ops(items.take(i + 1))[k] == line_ops(items.take(i))[k]);
        }
    }
}

/// The cells written by the first `i + 1` entries are those of the first `i`
/// followed by entry `i`, repeated.
proof fn lemma_line_ops_step(items: Seq<(String, Option<u64>, usize)>, i: int)
    requires
        0 <= i < items.len(),
    ensures
        line_ops(items.take(i + 1)) == line_ops(items.take(i)) + Seq::new(
            repeat_of(items[i]),
            |k: int|
                (
                    items[i].0@,
                    match items[i].1 {
                        Some(h) => h,
                        None => line_highlight(items.take(i)),
                    },
                ),
        ),
        line_highlight(items.take(i + 1)) == match items[i].1 {
            Some(h) => h,
            None => line_highlight(items.take(i)),
        },
{
    assert(items.take(i + 1).drop_last() =~= items.take(i));
    assert(items.take(i + 1).last() == items[i]);
}

impl Grid {
    /// Applies a `grid_line` event: starting at (`row`, `col_start`), each
    /// entry `(text, highlight, repeat)` writes its text into `repeat` cells
    /// (at least one); an entry without a highlight keeps the previous one
    /// (0 at the start), and an empty text marks the right half of a wide
    /// character. Cells past the right edge are dropped.
    pub fn update_line(&mut self, row: usize, col_start: usize, cells: &[(String, Option<u64>, usize)])
        requires
            old(self).wf(),
        ensures
            final(self).wf(),
            final(self).spec_id() == old(self).spec_id(),
            final(self).spec_width() == old(self).spec_width(),
            final(self).spec_height() == old(self).spec_height(),
            final(self)@ == line_updated(
                old(self)@,
                old(self).spec_width(),
                old(self).spec_height(),
                row as int,
                col_start as int,
                cells@,
            ),
    {
        let ghost ov = self@;
        let ghost w = self.width as nat;
        let ghost items = cells@;
        if row >= self.height {
            return;
        }
        let mut col: usize = col_start;
        let mut last_hl_id: u64 = 0;
        let mut i: usize = 0;
        assert(items.take(0) =~= Seq::<(String, Option<u64>, usize)>::empty());
        assert(self@ =~~= line_written(ov, w, row as int, col_start as int, col as int, items));
        while i < cells.len()
            invariant
                self.wf(),
                self.id == old(self).id,
                self.width == old(self).width,
                self.height == old(self).height,
                w == self.width,
                ov == old(self)@,
                items == cells@,
                row < self.height,
                i <= cells@.len(),
                last_hl_id == line_highlight(items.take(i as int)),
                col >= col_start,
                col <= self.width || col == col_start,
                col < self.width ==> col - col_start == line_ops(items.take(i as int)).len(),
                col - col_start <= line_ops(items.take(i as int)).len(),
                self@ == line_written(ov, w, row as int, col_start as int, col as int, items),
            decreases cells@.len() - i,
        {
            let item = &cells[i];
            let hl_id: u64 = match item.1 {
                Some(h) => h,
                None => last_hl_id,
            };
            last_hl_id = hl_id;
            let is_wide_spacer = item.0.as_str().is_empty();
            let repeat: usize = if item.2 > 1 { item.2 } else { 1 };
            let ghost base = line_ops(items.take(i as int)).len();
            proof {
                lemma_line_ops_step(items, i as int);
                lemma_line_ops_prefix(items, i as int + 1);
                assert forall|k: int| base <= k < base + repeat implies #[trigger] line_ops(items)[k]
                    == (items[i as int].0@, hl_id) by {
                    assert(line_ops(items.take(i + 1))[k] == line_ops(items)[k]);
                }
            }
            let mut j: usize = 0;
            while j < repeat && col < self.width
                invariant
                    self.wf(),
                    self.id == old(self).id,
                    self.width == old(self).width,
                    self.height == old(self).height,
                    w == self.width,
                    ov == old(self)@,
                    items == cells@,
                    row < self.height,
                    i < cells@.len(),
                    *item == items[i as int],
                    repeat == repeat_of(items[i as int]),
                    hl_id == line_highlight(items.take(i + 1)),
                    is_wide_spacer == (items[i as int].0@.len() == 0),
                    base == line_ops(items.take(i as int)).len(),
                    line_ops(items.take(i + 1)).len() == base + repeat,
                    line_ops(items.take(i + 1)).len() <= line_ops(items).len(),
                    forall|k: int| base <= k < base + repeat ==> #[trigger] line_ops(items)[k] == (items[i as int].0@, hl_id),
                    j <= repeat,
                    col >= col_start,
                    col <= self.width || col == col_start,
                    col < self.width ==> col - col_start == base + j,
                    col - col_start <= base + j,
                    self@ == line_written(ov, w, row as int, col_start as int, col as int, items),
                decreases repeat - j,
            {
                let flags: u16 = self.get(row, col).unwrap().flags.0;
                let cell = if is_wide_spacer {
                    Cell { text: String::new(), highlight_id: hl_id, flags: CellFlags((flags | 0x2u16) & !0x1u16) }
                } else {
                    Cell { text: item.0.clone(), highlight_id: hl_id, flags: CellFlags::empty() }
                };
                proof {
                    let k = col - col_start;
                    assert(line_ops(items.take(i + 1))[k] == line_ops(items)[k]);
                }
                self.put(row, col, cell);
                assert(self@ =~~= line_written(ov, w, row as int, col_start as int, col + 1, items));
                col = col + 1;
                j = j + 1;
            }
            i = i + 1;
        }
        assert(items.take(cells@.len() as int) =~= items);
        assert(self@ =~~= line_updated(ov, w, self.height as nat, row as int, col_start as int, items));
    }
}


impl Grid {
    /// The cell at (`row`, `col`) for writing, or `None` outside the grid.
    pub fn get_mut(&mut self, row: usize, col: usize) -> (c: Option<&mut Cell>)
        requires
            old(self).wf(),
        ensures
            final(self).wf(),
            final(self).spec_id() == old(self).spec_id(),
            final(self).spec_width() == old(self).spec_width(),
            final(self).spec_height() == old(self).spec_height(),
            match c {
                Some(cell) => row < old(self).spec_height() && col < old(self).spec_width()
                    && (*cell)@ == old(self)@[row as int][col as int] && final(self)@ == old(self)@.update(
                    row as int,
                    old(self)@[row as int].update(col as int, (*final(cell))@),
                ),
                None => (row >= old(self).spec_height() || col >= old(self).spec_width()) && final(self)@ == old(self)@,
            },
    {
        if row < self.height && col < self.width {
            let i = self.index_of(row, col);
            let ghost before = self.cells@;
            let r = &mut self.cells[i];
            proof {
                lemma_store_cell(before, self.width as nat, self.height as nat, row as int, col as int, *final(r));
            }
            Some(r)
        } else {
            None
        }
    }
}

/// What a list of cells shows.
pub open spec fn views_of(cells: Seq<Cell>) -> Seq<CellView> {
    Seq::new(cells.len(), |c: int| cells[c]@)
}

/// Replacing the cells of one row in row-major storage changes that row of
/// the grid and no other.
proof fn lemma_store_row(cells: Seq<Cell>, w: nat, h: nat, r: int, x: Seq<Cell>)
    requires
        cells.len() == w * h,
        0 <= r < h,
    ensures
        x.len() == w ==> ({
            let start = r * w;
            let nc = cells.subrange(0, start) + x + cells.subrange(start + w, cells.len() as int);
            &&& nc.len() == w * h
            &&& grid_view(nc, w, h) == grid_view(cells, w, h).update(r, views_of(x))
        }),
{
    if x.len() == w {
        lemma_store_row_len(cells, w, h, r, x);
    }
}

proof fn lemma_store_row_len(cells: Seq<Cell>, w: nat, h: nat, r: int, x: Seq<Cell>)
    requires
        cells.len() == w * h,
        0 <= r < h,
        x.len() == w,
    ensures
        ({
            let start = r * w;
            let nc = cells.subrange(0, start) + x + cells.subrange(start + w, cells.len() as int);
            &&& nc.len() == w * h
            &&& grid_view(nc, w, h) == grid_view(cells, w, h).update(r, views_of(x))
        }),
{
    let start = r * w;
    let nc = cells.subrange(0, start) + x + cells.subrange(start + w, cells.len() as int);
    if w > 0 {
        lemma_cell_index(r, 0, w as int, h as int);
    } else {
        assert(r * w == 0) by (nonlinear_arith)
            requires
                w == 0,
        ;
    }
    assert(start + w <= w * h) by (nonlinear_arith)
        requires
            0 <= r < h,
            start == r * w,
    ;
    let nv = grid_view(nc, w, h);
    let ov = grid_view(cells, w, h).update(r, views_of(x));
    assert forall|y: int, z: int| 0 <= y < h && 0 <= z < w implies #[trigger] nv[y][z] == ov[y][z] by {
        lemma_cell_index(y, z, w as int, h as int);
        if y < r {
            assert(y * w + z < start) by (nonlinear_arith)
                requires
                    0 <= y < r,
                    0 <= z < w,
                    start == r * w,
            ;
        } else if y > r {
            assert(y * w + z >= start + w) by (nonlinear_arith)
                requires
                    r < y,
                    0 <= z < w,
                    start == r * w,
            ;
        } else {
            assert(y * w + z - start == z);
        }
    }
    assert(nv =~~= ov);
}

impl Grid {
    /// The cells of row `row` for writing, or `None` outside the grid. As
    /// long as the row keeps its length, the grid stays well formed and shows
    /// the written cells in that row.
    pub fn row_mut(&mut self, row: usize) -> (s: Option<&mut [Cell]>)
        requires
            old(self).wf(),
        ensures
            final(self).spec_id() == old(self).spec_id(),
            final(self).spec_width() == old(self).spec_width(),
            final(self).spec_height() == old(self).spec_height(),
            match s {
                Some(cells) => row < old(self).spec_height() && cells_match(cells@, old(self)@[row as int]),
                None => row >= old(self).spec_height() && final(self)@ == old(self)@ && final(self).wf(),
            },
            match s {
                Some(cells) => final(cells)@.len() == old(self).spec_width() ==> final(self).wf(),
                None => true,
            },
            match s {
                Some(cells) => final(cells)@.len() == old(self).spec_width() ==> final(self)@ == old(self)@.update(
                    row as int,
                    views_of(final(cells)@),
                ),
                None => true,
            },
    {
        if row < self.height {
            let n = self.cells.len();
            assert(row * self.width + self.width <= n) by (nonlinear_arith)
                requires
                    row < self.height,
                    n == self.width * self.height,
            ;
            let start: usize = row * self.width;
            let w = self.width;
            let ghost before = self.cells@;
            let all = self.cells.as_mut_slice();
            let (left, rest) = all.split_at_mut(start);
            let (r, right) = rest.split_at_mut(w);
            proof {
                lemma_store_row(before, w as nat, self.height as nat, row as int, final(r)@);
                assert forall|c: int| 0 <= c < r@.len() implies #[trigger] r@[c]@ == old(self)@[row as int][c] by {
                    lemma_cell_index(row as int, c, w as int, self.height as int);
                }
                assert(final(left)@ == left@);
                assert(final(right)@ == right@);
                assert(left@ =~= before.subrange(0, start as int));
                assert(right@ =~= before.subrange(start + w, before.len() as int));
                assert(final(left)@ + final(r)@ + final(right)@ =~= before.subrange(0, start as int) + final(r)@
                    + before.subrange(start + w, before.len() as int));
                assert(final(left)@ + (final(r)@ + final(right)@) =~= before.subrange(0, start as int) + final(r)@
                    + before.subrange(start + w, before.len() as int));
                assert(final(r)@.len() == w ==> grid_view(final(left)@ + (final(r)@ + final(right)@), w as nat, old(self).height as nat)
                    == grid_view(before, w as nat, old(self).height as nat).update(row as int, views_of(final(r)@)));
            }
            Some(r)
        } else {
            None
        }
    }
}

/// `v` has `h` rows of `w` cells each.
pub open spec fn shaped(v: Seq<Seq<CellView>>, w: nat, h: nat) -> bool {
    &&& v.len() == h
    &&& forall|r: int| 0 <= r < h ==> #[trigger] v[r].len() == w
}

/// Growing a grid and shrinking it back to its size gives the grid back.
pub proof fn law_resize_round_trip(v: Seq<Seq<CellView>>, w: nat, h: nat, nw: nat, nh: nat)
    requires
        shaped(v, w, h),
        w <= nw,
        h <= nh,
    ensures
        resized(resized(v, w, h, nw, nh), nw, nh, w, h) == v,
{
    assert(resized(resized(v, w, h, nw, nh), nw, nh, w, h) =~~= v);
}

/// Resizing keeps every cell that lies inside both sizes and blanks the rest.
pub proof fn law_resize_keeps_overlap(v: Seq<Seq<CellView>>, w: nat, h: nat, nw: nat, nh: nat, r: int, c: int)
    requires
        shaped(v, w, h),
        0 <= r < nh,
        0 <= c < nw,
    ensures
        shaped(resized(v, w, h, nw, nh), nw, nh),
        resized(v, w, h, nw, nh)[r][c] == if r < h && c < w { v[r][c] } else { blank_cell() },
{
}

/// Scrolling by zero rows leaves the grid as it was.
pub proof fn law_scroll_by_zero(v: Seq<Seq<CellView>>, w: nat, h: nat, top: int, bot: int, left: int, right: int)
    requires
        shaped(v, w, h),
        0 <= top,
        0 <= left,
    ensures
        scrolled(v, w, h, top, bot, left, right, 0) == v,
{
    assert(scrolled(v, w, h, top, bot, left, right, 0) =~~= v);
}

/// A `grid_line` event with no entries leaves the grid as it was.
pub proof fn law_empty_line(v: Seq<Seq<CellView>>, w: nat, h: nat, row: int, col_start: int)
    requires
        shaped(v, w, h),
        0 <= row,
    ensures
        line_updated(v, w, h, row, col_start, Seq::empty()) == v,
{
    reveal_with_fuel(line_ops, 1);
    if row < h {
        assert(line_updated(v, w, h, row, col_start, Seq::empty())[row] =~= v[row]);
    }
    assert(line_updated(v, w, h, row, col_start, Seq::empty()) =~~= v);
}

/// Scrolling up by `n` rows moves each row of the region `n` rows up and
/// blanks the last `n` rows of the region.
pub proof fn law_scroll_up_moves_rows(
    v: Seq<Seq<CellView>>,
    w: nat,
    h: nat,
    top: int,
    bot: int,
    n: int,
    r: int,
    c: int,
)
    requires
        shaped(v, w, h),
        0 <= top < bot <= h,
        0 < n,
        top <= r < bot,
        0 <= c < w,
    ensures
        scrolled(v, w, h, top, bot, 0, w as int, n)[r][c] == if r + n < bot { v[r + n][c] } else { blank_cell() },
{
}

/// Scrolling touches only its region: every cell outside rows `top..bot`
/// or outside columns `left..right` keeps its content. Inside the region,
/// each cell takes the content of the cell `n` rows further down (up for a
/// negative `n`) in the same column, or becomes blank when that cell lies
/// outside the region or the grid. The grid keeps its shape.
pub proof fn law_scroll_region(
    v: Seq<Seq<CellView>>,
    w: nat,
    h: nat,
    top: int,
    bot: int,
    left: int,
    right: int,
    n: int,
    r: int,
    c: int,
)
    requires
        shaped(v, w, h),
        0 <= top,
        0 <= left,
        0 <= r < h,
        0 <= c < w,
    ensures
        shaped(scrolled(v, w, h, top, bot, left, right, n), w, h),
        !(top <= r < bot && left <= c < right) ==> scrolled(v, w, h, top, bot, left, right, n)[r][c] == v[r][c],
        top <= r < bot && left <= c < right ==> scrolled(v, w, h, top, bot, left, right, n)[r][c] == if top <= r + n
            < bot && r + n < h {
            v[r + n][c]
        } else {
            blank_cell()
        },
{
}

/// The number of cells that the entries of a `grid_line` event write:
/// each entry its repeat count, and at least one.
pub open spec fn cells_written(items: Seq<(String, Option<u64>, usize)>) -> nat
    decreases items.len(),
{
    if items.len() == 0 {
        0
    } else {
        cells_written(items.drop_last()) + if items.last().2 == 0 {
            1nat
        } else {
            items.last().2 as nat
        }
    }
}

/// The entries of a `grid_line` event write as many cells as their repeat
/// counts add up to, each entry at least one.
pub proof fn law_line_cell_count(items: Seq<(String, Option<u64>, usize)>)
    ensures
        line_ops(items).len() == cells_written(items),
    decreases items.len(),
{
    if items.len() > 0 {
        law_line_cell_count(items.drop_last());
    }
}

/// A `grid_line` event writes only its own row, from its first column on,
/// and only as many cells as its entries cover: every other cell keeps its
/// content.
pub proof fn law_line_frame(
    v: Seq<Seq<CellView>>,
    w: nat,
    h: nat,
    row: int,
    col_start: int,
    items: Seq<(String, Option<u64>, usize)>,
    r: int,
    c: int,
)
    requires
        shaped(v, w, h),
        0 <= row,
        0 <= col_start,
        0 <= r < h,
        0 <= c < w,
        r != row || c < col_start || c >= col_start + cells_written(items),
    ensures
        line_updated(v, w, h, row, col_start, items)[r][c] == v[r][c],
        shaped(line_updated(v, w, h, row, col_start, items), w, h),
{
    law_line_cell_count(items);
}

/// A `grid_line` event of one entry with a text, a highlight and a repeat
/// count `k` writes that text and highlight, with no flag, into the `k`
/// cells from its first column (one cell for a count of 0), as far as the
/// row reaches.
pub proof fn law_line_single_entry(
    v: Seq<Seq<CellView>>,
    w: nat,
    h: nat,
    row: int,
    col_start: int,
    text: String,
    hl: u64,
    k: usize,
    c: int,
)
    requires
        shaped(v, w, h),
        0 <= row < h,
        0 <= col_start <= c < w,
        c < col_start + (if k == 0 { 1 } else { k as int }),
        text@.len() > 0,
    ensures
        line_updated(v, w, h, row, col_start, seq![(text, Some(hl), k)])[row][c] == (CellView {
            text: text@,
            highlight_id: hl,
            flags: 0,
        }),
{
    let items = seq![(text, Some(hl), k)];
    let prev = items.drop_last();
    assert(prev =~= Seq::<(String, Option<u64>, usize)>::empty());
    assert(line_ops(prev) =~= Seq::<(Seq<char>, u64)>::empty());
    assert(items.last() == (text, Some(hl), k));
    let ops = line_ops(items);
    assert(ops.len() == repeat_of(items.last()));
    assert(ops[c - col_start] == (text@, hl));
}

/// An entry without a highlight keeps the last highlight given before it:
/// after entries whose last highlight is `h` at entry `j`, the highlight in
/// force is `h`.
pub proof fn law_line_highlight_carried(items: Seq<(String, Option<u64>, usize)>, j: int, h: u64)
    requires
        0 <= j < items.len(),
        items[j].1 == Some(h),
        forall|i: int| j < i < items.len() ==> (#[trigger] items[i]).1 is None,
    ensures
        line_highlight(items) == h,
    decreases items.len(),
{
    if j < items.len() - 1 {
        let prev = items.drop_last();
        assert forall|i: int| j < i < prev.len() implies (#[trigger] prev[i]).1 is None by {
            assert(prev[i] == items[i]);
        }
        assert(prev[j] == items[j]);
        assert(items.last() == items[items.len() - 1]);
        law_line_highlight_carried(prev, j, h);
    }
}

/// Before any entry gives a highlight, the highlight in force is 0.
pub proof fn law_line_highlight_default(items: Seq<(String, Option<u64>, usize)>)
    requires
        forall|i: int| 0 <= i < items.len() ==> (#[trigger] items[i]).1 is None,
    ensures
        line_highlight(items) == 0,
    decreases items.len(),
{
    if items.len() > 0 {
        let prev = items.drop_last();
        assert forall|i: int| 0 <= i < prev.len() implies (#[trigger] prev[i]).1 is None by {
            assert(prev[i] == items[i]);
        }
        assert(items.last() == items[items.len() - 1]);
        law_line_highlight_default(prev);
    }
}

} // verus!
