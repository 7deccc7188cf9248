use gui_nvim::editor::{Cell, CellFlags};
use std::mem;

#[test]
fn test_cell_default() {
    let cell = Cell::default();
    assert_eq!(cell.text, " ");
    assert_eq!(cell.highlight_id, 0);
    assert!(cell.flags.is_empty());
    assert!(cell.is_empty());
}

#[test]
fn test_cell_new() {
    let cell = Cell::new("a", 5);
    assert_eq!(cell.text, "a");
    assert_eq!(cell.highlight_id, 5);
    assert!(!cell.is_empty());
}

#[test]
fn test_cell_is_empty() {
    let empty = Cell::default();
    assert!(empty.is_empty());

    let with_text = Cell::new("x", 0);
    assert!(!with_text.is_empty());

    let with_highlight = Cell::new(" ", 1);
    assert!(!with_highlight.is_empty());
}

#[test]
fn test_cell_wide_char() {
    let mut cell = Cell::new("あ", 0);
    assert!(!cell.is_wide());

    cell.set_wide(true);
    assert!(cell.is_wide());
    assert!(!cell.is_empty());

    cell.set_wide(false);
    assert!(!cell.is_wide());
}

#[test]
fn test_cell_wide_spacer() {
    let mut cell = Cell::default();
    assert!(!cell.is_wide_spacer());

    cell.set_wide_spacer(true);
    assert!(cell.is_wide_spacer());
    assert!(!cell.is_empty());

    cell.set_wide_spacer(false);
    assert!(!cell.is_wide_spacer());
}

#[test]
fn test_cell_clear() {
    let mut cell = Cell::new("x", 5);
    cell.set_wide(true);

    cell.clear();
    assert_eq!(cell.text, " ");
    assert_eq!(cell.highlight_id, 0);
    assert!(cell.flags.is_empty());
    assert!(cell.is_empty());
}

#[test]
fn test_cell_size() {
    // text + highlight_id: u64 (8) + flags: u16 (2) + padding
    let size = mem::size_of::<Cell>();
    assert!(size <= 40, "Cell size {} is larger than expected", size);
}

#[test]
fn test_cell_clone() {
    let cell = Cell::new("test", 42);
    let cloned = cell.clone();
    assert_eq!(cell, cloned);
}

#[test]
fn cell_empty_text_counts_as_empty() {
    let cell = Cell::new("", 0);
    assert!(cell.is_empty());
    let spacer = Cell { text: String::new(), highlight_id: 0, flags: CellFlags::wide_char_spacer() };
    assert!(spacer.is_wide_spacer());
    assert!(!spacer.is_wide());
}
