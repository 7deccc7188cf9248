use gui_nvim::editor::{Cell, Grid};

fn at(grid: &Grid, row: usize, col: usize) -> &Cell {
    grid.get(row, col).unwrap()
}

fn at_mut(grid: &mut Grid, row: usize, col: usize) -> &mut Cell {
    grid.get_mut(row, col).unwrap()
}

#[test]
fn test_grid_new() {
    let grid = Grid::new(1, 80, 24);
    assert_eq!(grid.id, 1);
    assert_eq!(grid.width(), 80);
    assert_eq!(grid.height(), 24);
    assert_eq!(grid.len(), 80 * 24);
}

#[test]
fn test_grid_get() {
    let grid = Grid::new(1, 10, 5);

    assert!(grid.get(0, 0).is_some());
    assert!(grid.get(4, 9).is_some());
    assert!(grid.get(5, 0).is_none()); // row out of bounds
    assert!(grid.get(0, 10).is_none()); // col out of bounds
}

#[test]
fn test_grid_get_mut() {
    let mut grid = Grid::new(1, 10, 5);

    if let Some(cell) = grid.get_mut(0, 0) {
        cell.text = "x".into();
        cell.highlight_id = 5;
    }

    assert_eq!(grid.get(0, 0).unwrap().text, "x");
    assert_eq!(grid.get(0, 0).unwrap().highlight_id, 5);
}

#[test]
fn test_grid_index() {
    let mut grid = Grid::new(1, 10, 5);
    at_mut(&mut grid, 2, 3).text = "y".into();

    assert_eq!(at(&grid, 2, 3).text, "y");
}

#[test]
fn test_grid_row() {
    let mut grid = Grid::new(1, 3, 2);
    at_mut(&mut grid, 0, 0).text = "a".into();
    at_mut(&mut grid, 0, 1).text = "b".into();
    at_mut(&mut grid, 0, 2).text = "c".into();

    let row = grid.row(0).unwrap();
    assert_eq!(row.len(), 3);
    assert_eq!(row[0].text, "a");
    assert_eq!(row[1].text, "b");
    assert_eq!(row[2].text, "c");
}

#[test]
fn grid_test_grid_clear() {
    let mut grid = Grid::new(1, 5, 5);
    at_mut(&mut grid, 0, 0).text = "x".into();
    at_mut(&mut grid, 0, 0).highlight_id = 5;

    grid.clear();

    assert_eq!(at(&grid, 0, 0).text, " ");
    assert_eq!(at(&grid, 0, 0).highlight_id, 0);
}

#[test]
fn test_grid_resize_larger() {
    let mut grid = Grid::new(1, 3, 2);
    at_mut(&mut grid, 0, 0).text = "a".into();
    at_mut(&mut grid, 1, 2).text = "b".into();

    grid.resize(5, 4);

    assert_eq!(grid.width(), 5);
    assert_eq!(grid.height(), 4);
    assert_eq!(at(&grid, 0, 0).text, "a");
    assert_eq!(at(&grid, 1, 2).text, "b");
    assert_eq!(at(&grid, 3, 4).text, " "); // New cell
}

#[test]
fn test_grid_resize_smaller() {
    let mut grid = Grid::new(1, 5, 5);
    at_mut(&mut grid, 0, 0).text = "a".into();
    at_mut(&mut grid, 4, 4).text = "b".into();

    grid.resize(3, 3);

    assert_eq!(grid.width(), 3);
    assert_eq!(grid.height(), 3);
    assert_eq!(at(&grid, 0, 0).text, "a");
    // (4, 4) is now out of bounds
    assert!(grid.get(4, 4).is_none());
}

#[test]
fn test_grid_update_line() {
    let mut grid = Grid::new(1, 10, 5);

    // Simulate: ["a", 1], ["b", 1], ["c", 2]
    let cells: Vec<(String, Option<u64>, usize)> = vec![
        ("a".into(), Some(1), 1),
        ("b".into(), None, 1),    // reuses hl_id 1
        ("c".into(), Some(2), 1), // new hl_id
    ];

    grid.update_line(0, 0, &cells);

    assert_eq!(at(&grid, 0, 0).text, "a");
    assert_eq!(at(&grid, 0, 0).highlight_id, 1);
    assert_eq!(at(&grid, 0, 1).text, "b");
    assert_eq!(at(&grid, 0, 1).highlight_id, 1);
    assert_eq!(at(&grid, 0, 2).text, "c");
    assert_eq!(at(&grid, 0, 2).highlight_id, 2);
}

#[test]
fn test_grid_update_line_with_repeat() {
    let mut grid = Grid::new(1, 10, 5);

    // Simulate: [" ", 0, 5] (5 spaces)
    let cells: Vec<(String, Option<u64>, usize)> = vec![(" ".into(), Some(0), 5)];

    grid.update_line(0, 2, &cells);

    for col in 2..7 {
        assert_eq!(at(&grid, 0, col).text, " ");
        assert_eq!(at(&grid, 0, col).highlight_id, 0);
    }
}

#[test]
fn test_grid_scroll_down() {
    let mut grid = Grid::new(1, 5, 5);
    at_mut(&mut grid, 0, 0).text = "a".into();
    at_mut(&mut grid, 1, 0).text = "b".into();
    at_mut(&mut grid, 2, 0).text = "c".into();

    // Scroll down by 1 (content moves up)
    grid.scroll(0, 5, 0, 5, 1);

    assert_eq!(at(&grid, 0, 0).text, "b");
    assert_eq!(at(&grid, 1, 0).text, "c");
    assert_eq!(at(&grid, 4, 0).text, " "); // Cleared
}

#[test]
fn test_grid_scroll_up() {
    let mut grid = Grid::new(1, 5, 5);
    at_mut(&mut grid, 2, 0).text = "a".into();
    at_mut(&mut grid, 3, 0).text = "b".into();
    at_mut(&mut grid, 4, 0).text = "c".into();

    // Scroll up by 1 (content moves down)
    grid.scroll(0, 5, 0, 5, -1);

    assert_eq!(at(&grid, 0, 0).text, " "); // Cleared
    assert_eq!(at(&grid, 3, 0).text, "a");
    assert_eq!(at(&grid, 4, 0).text, "b");
}

#[test]
fn test_grid_scroll_region() {
    let mut grid = Grid::new(1, 10, 10);
    at_mut(&mut grid, 2, 2).text = "x".into();
    at_mut(&mut grid, 3, 2).text = "y".into();

    // Scroll only a region
    grid.scroll(2, 5, 2, 8, 1);

    assert_eq!(at(&grid, 2, 2).text, "y");
    assert_eq!(at(&grid, 4, 2).text, " "); // Cleared
}

#[test]
fn test_grid_rows_iterator() {
    let grid = Grid::new(1, 3, 2);
    let rows: Vec<_> = grid.rows();

    assert_eq!(rows.len(), 2);
    assert_eq!(rows[0].len(), 3);
    assert_eq!(rows[1].len(), 3);
}

#[test]
fn test_grid_update_line_clears_flags() {
    let mut grid = Grid::new(1, 10, 5);

    // First, simulate a wide spacer being set
    at_mut(&mut grid, 0, 1).set_wide_spacer(true);
    assert!(at(&grid, 0, 1).is_wide_spacer());
    assert!(!at(&grid, 0, 1).is_empty()); // Spacer flag means not empty

    // Now update the line with regular text
    let cells: Vec<(String, Option<u64>, usize)> = vec![("x".into(), Some(1), 1)];
    grid.update_line(0, 1, &cells);

    // After update, flags should be cleared
    assert!(!at(&grid, 0, 1).is_wide_spacer());
    assert_eq!(at(&grid, 0, 1).text, "x");
    // Cell with text "x" and hl_id 1 should not be empty
    assert!(!at(&grid, 0, 1).is_empty());
}

#[test]
fn test_grid_update_line_space_with_cleared_flags() {
    let mut grid = Grid::new(1, 10, 5);

    // Set wide spacer flag
    at_mut(&mut grid, 0, 0).set_wide_spacer(true);
    assert!(at(&grid, 0, 0).is_wide_spacer());

    // Update with a space and default highlight
    let cells: Vec<(String, Option<u64>, usize)> = vec![(" ".into(), Some(0), 1)];
    grid.update_line(0, 0, &cells);

    // After update, cell should be empty (space with hl_id 0 and no flags)
    assert!(!at(&grid, 0, 0).is_wide_spacer());
    assert_eq!(at(&grid, 0, 0).text, " ");
    assert!(at(&grid, 0, 0).is_empty());
}

#[test]
fn grid_resize_round_trip_law() {
    let mut grid = Grid::new(3, 4, 3);
    at_mut(&mut grid, 2, 3).text = "z".into();
    at_mut(&mut grid, 1, 1).highlight_id = 9;
    grid.resize(7, 6);
    grid.resize(4, 3);
    assert_eq!(at(&grid, 2, 3).text, "z");
    assert_eq!(at(&grid, 1, 1).highlight_id, 9);
    assert_eq!(at(&grid, 0, 0).text, " ");
}

#[test]
fn grid_scroll_by_zero_and_empty_line_law() {
    let mut grid = Grid::new(1, 4, 4);
    at_mut(&mut grid, 1, 1).text = "q".into();
    grid.scroll(0, 4, 0, 4, 0);
    assert_eq!(at(&grid, 1, 1).text, "q");
    let cells: Vec<(String, Option<u64>, usize)> = vec![];
    grid.update_line(1, 0, &cells);
    assert_eq!(at(&grid, 1, 1).text, "q");
}

#[test]
fn grid_line_clipped_and_wide_spacer() {
    let mut grid = Grid::new(1, 4, 2);
    let cells: Vec<(String, Option<u64>, usize)> = vec![("x".into(), Some(3), 10)];
    grid.update_line(0, 2, &cells);
    assert_eq!(at(&grid, 0, 1).text, " ");
    assert_eq!(at(&grid, 0, 2).text, "x");
    assert_eq!(at(&grid, 0, 3).highlight_id, 3);
    // An empty text makes the right half of a wide character.
    let cells: Vec<(String, Option<u64>, usize)> = vec![("あ".into(), Some(1), 1), ("".into(), None, 1)];
    grid.update_line(1, 0, &cells);
    assert!(at(&grid, 1, 1).is_wide_spacer());
    assert_eq!(at(&grid, 1, 1).highlight_id, 1);
    // Rows outside the grid are ignored.
    grid.update_line(5, 0, &cells);
    assert_eq!(grid.height(), 2);
}

#[test]
fn grid_row_mut_writes_one_row() {
    let mut grid = Grid::new(1, 3, 2);
    {
        let row = grid.row_mut(1).unwrap();
        row[0].text = "p".into();
        row[2].highlight_id = 4;
    }
    assert_eq!(at(&grid, 1, 0).text, "p");
    assert_eq!(at(&grid, 1, 2).highlight_id, 4);
    assert_eq!(at(&grid, 0, 0).text, " ");
    assert!(grid.row_mut(2).is_none());
}
