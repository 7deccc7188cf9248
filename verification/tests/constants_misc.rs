use gui_nvim::bridge::ui::RedrawEvent;
use gui_nvim::constants::{DEFAULT_CELL_HEIGHT, DEFAULT_CELL_WIDTH, DEFAULT_COLS, DEFAULT_ROWS, PADDING};
use gui_nvim::event::NeovimEvent;

#[test]
fn test_default_dimensions() {
    assert_eq!(DEFAULT_COLS, 80);
    assert_eq!(DEFAULT_ROWS, 24);
}

#[test]
fn constants_cell_defaults() {
    assert_eq!(DEFAULT_CELL_WIDTH, 10);
    assert_eq!(DEFAULT_CELL_HEIGHT, 20);
    assert_eq!(PADDING, 2);
}

#[test]
fn test_neovim_event_variants() {
    let redraw = NeovimEvent::Redraw(Vec::<RedrawEvent>::new());
    let flush = NeovimEvent::Flush;
    let quit = NeovimEvent::Quit;

    assert!(matches!(redraw, NeovimEvent::Redraw(_)));
    assert!(matches!(flush, NeovimEvent::Flush));
    assert!(matches!(quit, NeovimEvent::Quit));
}

#[test]
fn font_loader_test_register_embedded_fonts_no_panic() {
    gui_nvim::font_loader::register_embedded_fonts();
}

#[test]
fn mod_test_register_embedded_fonts_no_panic() {
    gui_nvim::renderer::font::loader::register_embedded_fonts();
}
