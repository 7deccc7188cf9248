use gui_nvim::editor::{Cell, Color, CursorShape, EditorState, HighlightAttributes, ModeInfo, StyleFlags};

fn main_cell(state: &mut EditorState, row: usize, col: usize) -> &mut Cell {
    state.main_grid_mut().get_mut(row, col).unwrap()
}

#[test]
fn state_test_new() {
    let state = EditorState::new(80, 24);
    assert_eq!(state.main_grid().width(), 80);
    assert_eq!(state.main_grid().height(), 24);
    assert!(state.dirty().has_dirty());
}

#[test]
fn test_grid_resize() {
    let mut state = EditorState::new(80, 24);
    state.clear_dirty();

    state.grid_resize(1, 100, 30);
    assert_eq!(state.main_grid().width(), 100);
    assert_eq!(state.main_grid().height(), 30);
    assert!(state.dirty().is_full_dirty());
}

#[test]
fn state_test_grid_clear() {
    let mut state = EditorState::new(80, 24);
    main_cell(&mut state, 0, 0).text = "x".into();
    state.clear_dirty();

    state.grid_clear(1);
    assert_eq!(state.main_grid().get(0, 0).unwrap().text, " ");
    assert!(state.dirty().is_full_dirty());
}

#[test]
fn test_grid_line() {
    let mut state = EditorState::new(80, 24);
    state.clear_dirty();

    let cells: Vec<(String, Option<u64>, usize)> = vec![("a".into(), Some(0), 1), ("b".into(), None, 1)];
    state.grid_line(1, 5, 0, &cells);

    assert_eq!(state.main_grid().get(5, 0).unwrap().text, "a");
    assert_eq!(state.main_grid().get(5, 1).unwrap().text, "b");
    assert!(state.dirty().is_row_dirty(5));
    assert!(!state.dirty().is_row_dirty(4));
}

#[test]
fn test_grid_scroll() {
    let mut state = EditorState::new(80, 24);
    main_cell(&mut state, 0, 0).text = "a".into();
    main_cell(&mut state, 1, 0).text = "b".into();
    state.clear_dirty();

    state.grid_scroll(1, 0, 24, 0, 80, 1);
    assert_eq!(state.main_grid().get(0, 0).unwrap().text, "b");
    assert!(state.dirty().is_row_dirty(0));
}

#[test]
fn test_cursor_goto() {
    let mut state = EditorState::new(80, 24);
    state.clear_dirty();

    state.grid_cursor_goto(1, 10, 20);
    assert_eq!(state.cursor.grid, 1);
    assert_eq!(state.cursor.row, 10);
    assert_eq!(state.cursor.col, 20);
    assert!(state.dirty().is_row_dirty(10));
}

#[test]
fn test_cursor_move_marks_old_row() {
    let mut state = EditorState::new(80, 24);
    state.grid_cursor_goto(1, 5, 0);
    state.clear_dirty();

    state.grid_cursor_goto(1, 10, 0);
    assert!(state.dirty().is_row_dirty(5));
    assert!(state.dirty().is_row_dirty(10));
}

#[test]
fn test_hl_attr_define() {
    let mut state = EditorState::new(80, 24);

    let attrs = HighlightAttributes {
        foreground: Some(Color::from_rgb(255, 0, 0)),
        style: StyleFlags::bold(),
        ..Default::default()
    };
    state.hl_attr_define(1, attrs);

    assert!(state.highlights.get(1).is_bold());
}

#[test]
fn test_default_colors_set() {
    let mut state = EditorState::new(80, 24);
    state.clear_dirty();

    state.default_colors_set(0xFFFFFF, 0x000000, 0xFF0000);
    assert_eq!(state.highlights.defaults.foreground, Color::from_rgb(255, 255, 255));
    assert!(state.dirty().is_full_dirty());
}

#[test]
fn test_mode_info_set() {
    let mut state = EditorState::new(80, 24);

    let modes = vec![
        ModeInfo { cursor_shape: CursorShape::Block, ..Default::default() },
        ModeInfo { cursor_shape: CursorShape::Vertical, cell_percentage: 25, ..Default::default() },
    ];
    state.mode_info_set(modes);
    assert_eq!(state.current_mode().cursor_shape, CursorShape::Block);
}

#[test]
fn test_mode_change() {
    let mut state = EditorState::new(80, 24);

    let modes = vec![
        ModeInfo { cursor_shape: CursorShape::Block, ..Default::default() },
        ModeInfo { cursor_shape: CursorShape::Vertical, ..Default::default() },
    ];
    state.mode_info_set(modes);
    state.cursor.row = 5;
    state.clear_dirty();

    state.mode_change("insert", 1);
    assert_eq!(state.current_mode().cursor_shape, CursorShape::Vertical);
    assert!(state.dirty().is_row_dirty(5));
}

#[test]
fn test_multigrid() {
    let mut state = EditorState::new(80, 24);

    state.grid_resize(2, 40, 10);
    assert!(state.grid(2).is_some());
    assert_eq!(state.grid(2).unwrap().width(), 40);
}

#[test]
fn state_other_grids_do_not_touch_dirty_rows() {
    let mut state = EditorState::new(10, 5);
    state.grid_resize(2, 4, 4);
    state.clear_dirty();
    let cells: Vec<(String, Option<u64>, usize)> = vec![("z".into(), Some(2), 1)];
    state.grid_line(2, 1, 0, &cells);
    assert!(!state.dirty().has_dirty());
    assert_eq!(state.grid(2).unwrap().get(1, 0).unwrap().text, "z");
    assert_eq!(state.main_grid().get(1, 0).unwrap().text, " ");
    // Events on a grid that does not exist change nothing.
    state.grid_clear(7);
    state.grid_line(7, 0, 0, &cells);
    assert!(state.grid(7).is_none());
    assert!(!state.dirty().has_dirty());
}

#[test]
fn state_empty_modes_keep_a_default_and_unknown_mode_falls_back() {
    let mut state = EditorState::default();
    assert_eq!(state.main_grid().width(), 80);
    state.mode_info_set(Vec::new());
    assert_eq!(state.current_mode().cursor_shape, CursorShape::Block);
    state.mode_change("normal", 9);
    assert_eq!(state.current_mode().cursor_shape, CursorShape::Block);
    state.flush();
    assert_eq!(state.main_grid().height(), 24);
}

#[test]
fn state_grids_are_found_by_their_key() {
    let mut state = EditorState::new(80, 24);
    state.grid_resize(2, 40, 10);
    state.grid_mut(2).unwrap().id = 5;
    assert_eq!(state.grid(2).unwrap().id, 5);
    assert!(state.grid(5).is_none());
    assert_eq!(state.main_grid().id, 1);
}
