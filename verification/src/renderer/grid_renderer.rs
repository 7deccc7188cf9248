//! What the grid renderer draws for each cell and for the cursor: which
//! colors, which glyph and which decoration lines. Turning these into
//! positions in pixels is left to the caller, which knows the cell size.

use vstd::prelude::*;

use super::font::face::FaceError;
use crate::editor::cell::{Cell, CellFlags, CellView};
use crate::editor::grid::cells_match;
use crate::editor::highlight::{underline_of, Color, HighlightAttributes, HighlightMap, StyleFlags, UnderlineStyle};
use crate::editor::state::{CursorShape, EditorState, ModeInfo};

verus! {

/// Why the grid renderer could not be set up.
#[derive(Debug)]
pub enum GridRendererError {
    /// The font face could not be made.
    Face(FaceError),
}

impl From<FaceError> for GridRendererError {
    fn from(e: FaceError) -> (r: Self) {
        GridRendererError::Face(e)
    }
}

impl vstd::std_specs::convert::FromSpecImpl<FaceError> for GridRendererError {
    open spec fn obeys_from_spec() -> bool {
        true
    }

    open spec fn from_spec(e: FaceError) -> GridRendererError {
        GridRendererError::Face(e)
    }
}

/// A color to draw with: one that a highlight sets, or one of the default
/// colors that the caller draws the frame with.
#[derive(Debug, Clone, Copy, PartialEq, Eq, Structural)]
pub enum Paint {
    /// A color of the highlight.
    Own(Color),
    /// The default background.
    DefaultBackground,
    /// The default foreground.
    DefaultForeground,
}

/// `c` when there is one, else `d`.
pub open spec fn paint_or(c: Option<Color>, d: Paint) -> Paint {
    match c {
        Some(x) => Paint::Own(x),
        None => d,
    }
}

/// The background and the foreground of text with attributes `attrs`:
/// missing colors are the defaults, and reverse swaps the two.
pub open spec fn colors_of(attrs: HighlightAttributes) -> (Paint, Paint) {
    let bg = paint_or(attrs.background, Paint::DefaultBackground);
    let fg = paint_or(attrs.foreground, Paint::DefaultForeground);
    if attrs.reversed() {
        (fg, bg)
    } else {
        (bg, fg)
    }
}

fn own_or(c: Option<Color>, d: Paint) -> (p: Paint)
    ensures
        p == paint_or(c, d),
{
    match c {
        Some(x) => Paint::Own(x),
        None => d,
    }
}

/// Returns the background and the foreground to draw text with `attrs`.
pub fn resolve_colors(attrs: &HighlightAttributes) -> (r: (Paint, Paint))
    ensures
        r == colors_of(*attrs),
{
    let bg = own_or(attrs.background, Paint::DefaultBackground);
    let fg = own_or(attrs.foreground, Paint::DefaultForeground);
    if attrs.style.contains(StyleFlags::reverse()) {
        (fg, bg)
    } else {
        (bg, fg)
    }
}

/// Toggling the reverse attribute of a highlight swaps the background and
/// the foreground its text is drawn with.
pub proof fn law_reverse_swaps_colors(attrs: HighlightAttributes)
    ensures
        ({
            let toggled = HighlightAttributes { style: StyleFlags(attrs.style.0 ^ 0x100u16), ..attrs };
            colors_of(toggled) == (colors_of(attrs).1, colors_of(attrs).0)
        }),
{
    let b = attrs.style.0;
    assert(((b ^ 0x100u16) & 0x100u16 == 0x100u16) == !(b & 0x100u16 == 0x100u16)) by (bit_vector);
}

/// Which line of a cell a decoration is.
#[derive(Debug, Clone, Copy, PartialEq, Eq, Structural)]
pub enum DecorationKind {
    /// The underline at the font's underline position.
    Underline,
    /// The upper line of a double underline, one thickness above.
    UnderlineAbove,
    /// The lower line of a double underline, one thickness below.
    UnderlineBelow,
    /// The line through the text at the font's strikeout position.
    Strikethrough,
}

/// One decoration line and its color.
#[derive(Debug, Clone, Copy, PartialEq, Eq, Structural)]
pub struct Decoration {
    pub kind: DecorationKind,
    pub paint: Paint,
}

/// The decoration lines of text with `attrs` drawn in `fg`, in drawing
/// order: the underlines in the special color (or `fg` without one), then
/// the strikethrough in `fg`. Curly, dotted and dashed underlines are drawn
/// as a single line.
pub open spec fn decorations_of(attrs: HighlightAttributes, fg: Paint) -> Seq<Decoration> {
    let special = paint_or(attrs.special, fg);
    let under = match underline_of(attrs.style) {
        UnderlineStyle::NoUnderline => Seq::<Decoration>::empty(),
        UnderlineStyle::Double => seq![
            Decoration { kind: DecorationKind::UnderlineAbove, paint: special },
            Decoration { kind: DecorationKind::UnderlineBelow, paint: special },
        ],
        _ => seq![Decoration { kind: DecorationKind::Underline, paint: special }],
    };
    if attrs.style.spec_bits() & 0x080 == 0x080 {
        under.push(Decoration { kind: DecorationKind::Strikethrough, paint: fg })
    } else {
        under
    }
}

/// Returns the decoration lines of text with `attrs` drawn in `fg`.
pub fn cell_decorations(attrs: &HighlightAttributes, fg: Paint) -> (d: Vec<Decoration>)
    ensures
        d@ == decorations_of(*attrs, fg),
{
    let special = own_or(attrs.special, fg);
    let mut d: Vec<Decoration> = Vec::new();
    match attrs.underline_style() {
        UnderlineStyle::NoUnderline => {},
        UnderlineStyle::Double => {
            d.push(Decoration { kind: DecorationKind::UnderlineAbove, paint: special });
            d.push(Decoration { kind: DecorationKind::UnderlineBelow, paint: special });
        },
        _ => {
            d.push(Decoration { kind: DecorationKind::Underline, paint: special });
        },
    }
    if attrs.has_strikethrough() {
        d.push(Decoration { kind: DecorationKind::Strikethrough, paint: fg });
    }
    assert(d@ =~= decorations_of(*attrs, fg));
    d
}

/// The character of a cell to draw, with its style and color.
#[derive(Debug, Clone, Copy, PartialEq, Eq, Structural)]
pub struct GlyphPaint {
    pub ch: char,
    pub bold: bool,
    pub italic: bool,
    pub paint: Paint,
}

/// The glyph drawn for `cell` in `paint`: the first character of its text in
/// the bold and italic of its highlight; none for an empty cell, the right
/// half of a wide character or a cell without text.
pub open spec fn glyph_of(highlights: HighlightMap, cell: CellView, paint: Paint) -> Option<GlyphPaint> {
    if Cell::spec_is_empty(cell) || cell.flags & CellFlags::spacer_bit() == CellFlags::spacer_bit()
        || cell.text.len() == 0 {
        None
    } else {
        let attrs = highlights.spec_get(cell.highlight_id);
        Some(
            GlyphPaint {
                ch: cell.text[0],
                bold: attrs.style.spec_bits() & 0x001 == 0x001,
                italic: attrs.style.spec_bits() & 0x002 == 0x002,
                paint,
            },
        )
    }
}

/// Returns the glyph to draw for `cell` in `paint`, if any.
pub fn cell_glyph(highlights: &HighlightMap, cell: &Cell, paint: Paint) -> (g: Option<GlyphPaint>)
    requires
        highlights.wf(),
    ensures
        g == glyph_of(*highlights, cell@, paint),
{
    if cell.is_empty() || cell.is_wide_spacer() {
        return None;
    }
    let text = cell.text.as_str();
    if text.is_empty() {
        return None;
    }
    let ch = text.get_char(0);
    let attrs = highlights.get(cell.highlight_id);
    Some(GlyphPaint { ch, bold: attrs.is_bold(), italic: attrs.is_italic(), paint })
}

/// What is drawn for one cell of the grid.
#[derive(Debug)]
pub struct CellPaint {
    /// The cell's background.
    pub background: Paint,
    /// The cell's character, if one is drawn.
    pub glyph: Option<GlyphPaint>,
    /// The cell's decoration lines, in drawing order.
    pub decorations: Vec<Decoration>,
}

/// `p` is what is drawn for `cell` with the highlights `highlights`.
pub open spec fn paints_cell(p: CellPaint, highlights: HighlightMap, cell: CellView) -> bool {
    let attrs = highlights.spec_get(cell.highlight_id);
    let (bg, fg) = colors_of(attrs);
    &&& p.background == bg
    &&& p.glyph == glyph_of(highlights, cell, fg)
    &&& p.decorations@ == decorations_of(attrs, fg)
}

/// Returns what is drawn for `cell`: the background and foreground of its
/// highlight, its glyph in the foreground and its decorations.
pub fn cell_paint(highlights: &HighlightMap, cell: &Cell) -> (p: CellPaint)
    requires
        highlights.wf(),
    ensures
        paints_cell(p, *highlights, cell@),
{
    let attrs = highlights.get(cell.highlight_id);
    let (background, foreground) = resolve_colors(attrs);
    let glyph = cell_glyph(highlights, cell, foreground);
    let decorations = cell_decorations(attrs, foreground);
    CellPaint { background, glyph, decorations }
}

/// Returns what is drawn for each cell of row `row` of the main grid, left
/// to right.
pub fn row_paint(state: &EditorState, row: usize) -> (ps: Vec<CellPaint>)
    requires
        state.wf(),
        row < state.spec_grid(1)->0.spec_height(),
    ensures
        ps@.len() == state.spec_grid(1)->0.spec_width(),
        forall|c: int|
            0 <= c < ps@.len() ==> paints_cell(
                #[trigger] ps@[c],
                state.spec_highlights(),
                state.spec_grid(1)->0@[row as int][c],
            ),
{
    let grid = state.main_grid();
    proof {
        state.lemma_main_grid();
        grid.lemma_shape();
    }
    let cells = grid.row(row).unwrap();
    let highlights = state.highlights();
    let mut ps: Vec<CellPaint> = Vec::new();
    let mut c: usize = 0;
    while c < cells.len()
        invariant
            highlights.wf(),
            *highlights == state.spec_highlights(),
            cells_match(cells@, grid@[row as int]),
            c <= cells@.len(),
            ps@.len() == c,
            forall|k: int| 0 <= k < c ==> paints_cell(#[trigger] ps@[k], *highlights, grid@[row as int][k]),
        decreases cells@.len() - c,
    {
        let p = cell_paint(highlights, &cells[c]);
        ps.push(p);
        proof {
            assert(ps@[c as int] == p);
        }
        c = c + 1;
    }
    ps
}

/// What is drawn for the cursor.
#[derive(Debug, Clone, Copy, PartialEq, Eq, Structural)]
pub struct CursorPaint {
    /// Row of the cursor on the main grid.
    pub row: usize,
    /// Column of the cursor on the main grid.
    pub col: usize,
    /// Shape of the current mode.
    pub shape: CursorShape,
    /// Size of a bar cursor as the mode gives it (see `cursor_percent`).
    pub cell_percentage: u8,
    /// Color of the cursor.
    pub paint: Paint,
    /// The character drawn over a block cursor, if any.
    pub glyph: Option<GlyphPaint>,
}

/// The mode in use: the current one, or the first when the current index
/// has no mode.
pub open spec fn mode_in_use(s: EditorState) -> ModeInfo {
    if s.spec_current_mode() < s.spec_modes().len() {
        s.spec_modes()[s.spec_current_mode() as int]
    } else {
        s.spec_modes()[0]
    }
}

/// What is drawn for the cursor of `s`: nothing when it is hidden, blinked
/// off, on another grid than the main one or outside it. Else a cursor of
/// the mode's shape in the foreground of the mode's highlight (the default
/// foreground without one), and for a block cursor the cell's glyph in the
/// cell's background.
pub open spec fn cursor_paint_of(s: EditorState, blink_visible: bool) -> Option<CursorPaint> {
    let cur = s.spec_cursor();
    let g = s.spec_grid(1)->0;
    if !cur.visible || !blink_visible || cur.grid != 1 || cur.row >= g.spec_height() || cur.col
        >= g.spec_width() {
        None
    } else {
        let mode = mode_in_use(s);
        let hl = s.spec_highlights();
        let paint = if mode.attr_id > 0 {
            paint_or(hl.spec_get(mode.attr_id).foreground, Paint::DefaultForeground)
        } else {
            Paint::DefaultForeground
        };
        let cell = g@[cur.row as int][cur.col as int];
        let glyph = if mode.cursor_shape == CursorShape::Block {
            glyph_of(hl, cell, paint_or(hl.spec_get(cell.highlight_id).background, Paint::DefaultBackground))
        } else {
            None
        };
        Some(
            CursorPaint {
                row: cur.row,
                col: cur.col,
                shape: mode.cursor_shape,
                cell_percentage: mode.cell_percentage,
                paint,
                glyph,
            },
        )
    }
}

/// Returns what is drawn for the cursor, given whether the blink shows it.
pub fn cursor_paint(state: &EditorState, blink_visible: bool) -> (p: Option<CursorPaint>)
    requires
        state.wf(),
    ensures
        p == cursor_paint_of(*state, blink_visible),
{
    let cursor = state.cursor();
    if !cursor.visible || !blink_visible {
        return None;
    }
    if cursor.grid != 1 {
        return None;
    }
    let mode = state.current_mode();
    let grid = state.main_grid();
    proof {
        state.lemma_main_grid();
    }
    if cursor.row >= grid.height() || cursor.col >= grid.width() {
        return None;
    }
    let paint = if mode.attr_id > 0 {
        own_or(state.highlights().get(mode.attr_id).foreground, Paint::DefaultForeground)
    } else {
        Paint::DefaultForeground
    };
    let glyph = if mode.cursor_shape == CursorShape::Block {
        match grid.get(cursor.row, cursor.col) {
            Some(c) => {
                let text_paint = own_or(state.highlights().get(c.highlight_id).background, Paint::DefaultBackground);
                cell_glyph(state.highlights(), c, text_paint)
            },
            None => None,
        }
    } else {
        None
    };
    Some(
        CursorPaint {
            row: cursor.row,
            col: cursor.col,
            shape: mode.cursor_shape,
            cell_percentage: mode.cell_percentage,
            paint,
            glyph,
        },
    )
}

/// How much of the cell a cursor covers, in percent: the mode's percentage
/// up to 100 when it gives one, else a quarter for a bar and all of it for a
/// block.
pub open spec fn cursor_percent_of(shape: CursorShape, cell_percentage: u8) -> u8 {
    if cell_percentage > 0 {
        if cell_percentage < 100 {
            cell_percentage
        } else {
            100
        }
    } else {
        match shape {
            CursorShape::Vertical => 25,
            CursorShape::Horizontal => 25,
            CursorShape::Block => 100,
        }
    }
}

/// Returns how much of the cell a cursor of `shape` covers, in percent.
pub fn cursor_percent(shape: CursorShape, cell_percentage: u8) -> (p: u8)
    ensures
        p == cursor_percent_of(shape, cell_percentage),
        1 <= p <= 100,
{
    if cell_percentage > 0 {
        if cell_percentage < 100 {
            cell_percentage
        } else {
            100
        }
    } else {
        match shape {
            CursorShape::Vertical => 25,
            CursorShape::Horizontal => 25,
            CursorShape::Block => 100,
        }
    }
}

/// The decoration is one of the lines of an underline.
pub open spec fn is_underline(kind: DecorationKind) -> bool {
    kind == DecorationKind::Underline || kind == DecorationKind::UnderlineAbove || kind
        == DecorationKind::UnderlineBelow
}

/// What the decorations of text drawn in `fg` are, in terms of the style
/// bits: every underline line is drawn in the special color when one is set
/// and in `fg` otherwise, whatever the underline style; the strikethrough is
/// drawn in `fg`, last, exactly when its bit is set; a double underline
/// (unless curly wins) gives an upper then a lower line; any other
/// underline bit gives one line; no underline bit gives none.
pub proof fn law_decorations(attrs: HighlightAttributes, fg: Paint)
    ensures
        ({
            let d = decorations_of(attrs, fg);
            let bits = attrs.style.0;
            let curl = bits & 0x008 == 0x008;
            let double = bits & 0x010 == 0x010;
            let any_under = bits & 0x004 == 0x004 || curl || double || bits & 0x020 == 0x020 || bits & 0x040
                == 0x040;
            let strike = bits & 0x080 == 0x080;
            let unders: int = if !any_under {
                0
            } else if double && !curl {
                2
            } else {
                1
            };
            &&& d.len() == unders + if strike { 1int } else { 0 }
            &&& forall|i: int|
                0 <= i < d.len() && is_underline(#[trigger] d[i].kind) ==> d[i].paint == match attrs.special {
                    Some(sp) => Paint::Own(sp),
                    None => fg,
                }
            &&& forall|i: int| 0 <= i < unders ==> is_underline(#[trigger] d[i].kind)
            &&& strike ==> d[d.len() - 1] == Decoration { kind: DecorationKind::Strikethrough, paint: fg }
            &&& unders == 2 ==> d[0].kind == DecorationKind::UnderlineAbove && d[1].kind
                == DecorationKind::UnderlineBelow
            &&& unders == 1 ==> d[0].kind == DecorationKind::Underline
        }),
{
}

/// What is drawn for the cursor, in terms of the state: a cursor exactly
/// when it is shown, not blinked off and on a cell of the main grid; at the
/// cursor's cell, in the shape and size of the mode in use; in the
/// foreground of the mode's highlight when the mode names one that sets a
/// foreground, else the default foreground. Only a block cursor carries a
/// glyph: the first character of a non-empty cell that is no spacer, in
/// the bold and italic of the cell's highlight and the cell's background
/// (the default background without one).
pub proof fn law_cursor_paint(s: EditorState, blink_visible: bool)
    ensures
        ({
            let cur = s.spec_cursor();
            let g = s.spec_grid(1)->0;
            let mode = mode_in_use(s);
            let hl = s.spec_highlights();
            let p = cursor_paint_of(s, blink_visible);
            &&& p is Some <==> (cur.visible && blink_visible && cur.grid == 1 && cur.row < g.spec_height() && cur.col
                < g.spec_width())
            &&& p is Some ==> {
                let q = p->0;
                let cell = g@[cur.row as int][cur.col as int];
                &&& q.row == cur.row && q.col == cur.col
                &&& q.shape == mode.cursor_shape && q.cell_percentage == mode.cell_percentage
                &&& mode.attr_id == 0 ==> q.paint == Paint::DefaultForeground
                &&& mode.attr_id != 0 ==> q.paint == match hl.spec_get(mode.attr_id).foreground {
                    Some(f) => Paint::Own(f),
                    None => Paint::DefaultForeground,
                }
                &&& mode.cursor_shape != CursorShape::Block ==> q.glyph is None
                &&& mode.cursor_shape == CursorShape::Block ==> (q.glyph is Some <==> (!Cell::spec_is_empty(cell)
                    && cell.flags & 0x2 != 0x2 && cell.text.len() > 0))
                &&& q.glyph is Some ==> {
                    let gl = q.glyph->0;
                    let a = hl.spec_get(cell.highlight_id);
                    &&& gl.ch == cell.text[0]
                    &&& gl.bold == (a.style.0 & 0x001 == 0x001)
                    &&& gl.italic == (a.style.0 & 0x002 == 0x002)
                    &&& gl.paint == match a.background {
                        Some(b) => Paint::Own(b),
                        None => Paint::DefaultBackground,
                    }
                }
            }
        }),
{
}

/// The colors of a cell without reverse: its own background and foreground,
/// or the defaults where it sets none.
pub proof fn law_colors_plain(attrs: HighlightAttributes)
    requires
        attrs.style.0 & 0x100 != 0x100,
    ensures
        colors_of(attrs).0 == match attrs.background {
            Some(b) => Paint::Own(b),
            None => Paint::DefaultBackground,
        },
        colors_of(attrs).1 == match attrs.foreground {
            Some(f) => Paint::Own(f),
            None => Paint::DefaultForeground,
        },
{
}

} // verus!
