use gui_nvim::editor::{Color, CursorShape, EditorState, HighlightAttributes, ModeInfo, StyleFlags};
use gui_nvim::renderer::grid_renderer::{
    cell_decorations, cursor_paint, cursor_percent, resolve_colors, row_paint, Decoration, DecorationKind,
    GlyphPaint, Paint,
};

fn attrs_with(fg: Option<Color>, bg: Option<Color>, style: StyleFlags) -> HighlightAttributes {
    HighlightAttributes { foreground: fg, background: bg, style, ..Default::default() }
}

#[test]
fn paint_resolve_colors_plain_and_reversed() {
    let red = Color::from_rgb(255, 0, 0);
    let plain = attrs_with(Some(red), None, StyleFlags::empty());
    assert_eq!(resolve_colors(&plain), (Paint::DefaultBackground, Paint::Own(red)));

    let reversed = attrs_with(Some(red), None, StyleFlags::reverse());
    assert_eq!(resolve_colors(&reversed), (Paint::Own(red), Paint::DefaultBackground));

    let nothing = attrs_with(None, None, StyleFlags::reverse());
    assert_eq!(resolve_colors(&nothing), (Paint::DefaultForeground, Paint::DefaultBackground));
}

#[test]
fn paint_decorations_double_underline_and_strikethrough() {
    let blue = Color::from_rgb(0, 0, 255);
    let mut attrs = attrs_with(None, None, StyleFlags::underdouble().union(StyleFlags::strikethrough()));
    attrs.special = Some(blue);
    let fg = Paint::DefaultForeground;
    let d = cell_decorations(&attrs, fg);
    assert_eq!(
        d,
        vec![
            Decoration { kind: DecorationKind::UnderlineAbove, paint: Paint::Own(blue) },
            Decoration { kind: DecorationKind::UnderlineBelow, paint: Paint::Own(blue) },
            Decoration { kind: DecorationKind::Strikethrough, paint: fg },
        ]
    );
}

#[test]
fn paint_decorations_single_line_styles_use_foreground() {
    let green = Color::from_rgb(0, 255, 0);
    let curl = attrs_with(Some(green), None, StyleFlags::undercurl());
    assert_eq!(
        cell_decorations(&curl, Paint::Own(green)),
        vec![Decoration { kind: DecorationKind::Underline, paint: Paint::Own(green) }]
    );
    let none = attrs_with(None, None, StyleFlags::bold());
    assert!(cell_decorations(&none, Paint::DefaultForeground).is_empty());
}

#[test]
fn paint_row_of_main_grid() {
    let mut state = EditorState::new(3, 2);
    let red = Color::from_rgb(255, 0, 0);
    state.hl_attr_define(4, attrs_with(Some(red), None, StyleFlags::bold()));
    let cells = vec![("a".to_string(), Some(4), 1), (" ".to_string(), Some(0), 1)];
    state.grid_line(1, 1, 0, &cells);

    let row = row_paint(&state, 1);
    assert_eq!(row.len(), 3);
    assert_eq!(row[0].background, Paint::DefaultBackground);
    assert_eq!(row[0].glyph, Some(GlyphPaint { ch: 'a', bold: true, italic: false, paint: Paint::Own(red) }));
    assert!(row[0].decorations.is_empty());
    assert_eq!(row[1].glyph, None);
    assert_eq!(row[2].glyph, None);
}

#[test]
fn paint_cursor_block_on_blank_cell() {
    let state = EditorState::new(80, 24);
    let p = cursor_paint(&state, true).unwrap();
    assert_eq!(p.row, 0);
    assert_eq!(p.col, 0);
    assert_eq!(p.shape, CursorShape::Block);
    assert_eq!(p.paint, Paint::DefaultForeground);
    assert_eq!(p.glyph, None);
}

#[test]
fn paint_cursor_hidden_cases() {
    let mut state = EditorState::new(80, 24);
    assert!(cursor_paint(&state, false).is_none());

    state.grid_cursor_goto(2, 0, 0);
    assert!(cursor_paint(&state, true).is_none());

    state.grid_cursor_goto(1, 24, 0);
    assert!(cursor_paint(&state, true).is_none());

    state.grid_cursor_goto(1, 3, 3);
    state.cursor.visible = false;
    assert!(cursor_paint(&state, true).is_none());
}

#[test]
fn paint_cursor_mode_color_and_glyph() {
    let mut state = EditorState::new(10, 5);
    let yellow = Color::from_rgb(255, 255, 0);
    let navy = Color::from_rgb(0, 0, 128);
    state.hl_attr_define(7, attrs_with(Some(yellow), None, StyleFlags::empty()));
    state.hl_attr_define(9, attrs_with(None, Some(navy), StyleFlags::italic()));
    state.mode_info_set(vec![ModeInfo { cursor_shape: CursorShape::Block, attr_id: 7, ..Default::default() }]);
    let cells = vec![("x".to_string(), Some(9), 1)];
    state.grid_line(1, 2, 4, &cells);
    state.grid_cursor_goto(1, 2, 4);

    let p = cursor_paint(&state, true).unwrap();
    assert_eq!(p.paint, Paint::Own(yellow));
    assert_eq!(p.glyph, Some(GlyphPaint { ch: 'x', bold: false, italic: true, paint: Paint::Own(navy) }));
}

#[test]
fn paint_cursor_bar_has_no_glyph() {
    let mut state = EditorState::new(10, 5);
    state.mode_info_set(vec![ModeInfo { cursor_shape: CursorShape::Vertical, cell_percentage: 30, ..Default::default() }]);
    let cells = vec![("y".to_string(), Some(0), 1)];
    state.grid_line(1, 0, 0, &cells);
    let p = cursor_paint(&state, true).unwrap();
    assert_eq!(p.shape, CursorShape::Vertical);
    assert_eq!(p.cell_percentage, 30);
    assert_eq!(p.glyph, None);
}

#[test]
fn paint_cursor_percent_values() {
    assert_eq!(cursor_percent(CursorShape::Vertical, 0), 25);
    assert_eq!(cursor_percent(CursorShape::Horizontal, 0), 25);
    assert_eq!(cursor_percent(CursorShape::Block, 0), 100);
    assert_eq!(cursor_percent(CursorShape::Vertical, 30), 30);
    assert_eq!(cursor_percent(CursorShape::Horizontal, 150), 100);
}

#[test]
fn paint_reverse_toggle_swaps_colors() {
    let red = Color::from_rgb(255, 0, 0);
    let blue = Color::from_rgb(0, 0, 255);
    let plain = attrs_with(Some(red), Some(blue), StyleFlags::bold());
    let reversed = attrs_with(Some(red), Some(blue), StyleFlags::bold().union(StyleFlags::reverse()));
    let (bg, fg) = resolve_colors(&plain);
    assert_eq!(resolve_colors(&reversed), (fg, bg));
}
