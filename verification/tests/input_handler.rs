use gui_nvim::bridge::command::AppCommand;
use gui_nvim::input::handler::InputHandler;
use gui_nvim::input::keyboard::{Key, KeyEvent, Modifiers, NamedKey, PhysicalKey};
use gui_nvim::input::mouse::{GridPosition, MouseButton, ScrollDirection};

fn mouse_parts(c: &AppCommand) -> (String, String, String, i64, i64, i64) {
    match c {
        AppCommand::MouseInput { button, action, modifier, grid, row, col } => {
            (button.clone(), action.clone(), modifier.clone(), *grid, *row, *col)
        }
        other => panic!("not a mouse command: {:?}", other),
    }
}

#[test]
fn handler_keys_become_input_commands() {
    let mut h = InputHandler::new();
    h.handle_modifiers_changed(Modifiers { ctrl: true, ..Default::default() });
    let ev = KeyEvent { pressed: true, logical_key: Key::Character("w".to_string()), physical_key: PhysicalKey::Unidentified };
    match h.handle_keyboard_input(&ev) {
        Some(AppCommand::Input(keys)) => assert_eq!(keys, "<C-w>"),
        other => panic!("unexpected {:?}", other),
    }
    let shift = KeyEvent { pressed: true, logical_key: Key::Named(NamedKey::Control), physical_key: PhysicalKey::Unidentified };
    assert!(h.handle_keyboard_input(&shift).is_none());
}

#[test]
fn handler_click_needs_a_position() {
    let mut h = InputHandler::default();
    assert!(h.handle_mouse_input(true, MouseButton::Left).is_none());
    assert!(h.handle_cursor_moved(GridPosition { row: 3, col: 4 }).is_none());
    let press = h.handle_mouse_input(true, MouseButton::Left).unwrap();
    assert_eq!(mouse_parts(&press), ("left".into(), "press".into(), "".into(), 0, 3, 4));
    // Moving with the button held drags; staying on the cell does not.
    let drag = h.handle_cursor_moved(GridPosition { row: 3, col: 5 }).unwrap();
    assert_eq!(mouse_parts(&drag), ("left".into(), "drag".into(), "".into(), 0, 3, 5));
    assert!(h.handle_cursor_moved(GridPosition { row: 3, col: 5 }).is_none());
    h.handle_modifiers_changed(Modifiers { shift: true, ..Default::default() });
    let release = h.handle_mouse_input(false, MouseButton::Left).unwrap();
    assert_eq!(mouse_parts(&release), ("left".into(), "release".into(), "S".into(), 0, 3, 5));
    assert!(h.handle_cursor_moved(GridPosition { row: 9, col: 9 }).is_none());
    assert!(h.handle_mouse_input(true, MouseButton::Back).is_none());
}

#[test]
fn handler_wheel_sends_one_command_per_step() {
    let mut h = InputHandler::new();
    assert!(h.handle_mouse_wheel(Some((ScrollDirection::Down, 2))).is_empty());
    h.handle_cursor_moved(GridPosition { row: 1, col: 2 });
    let cmds = h.handle_mouse_wheel(Some((ScrollDirection::Down, 3)));
    assert_eq!(cmds.len(), 3);
    for c in &cmds {
        assert_eq!(mouse_parts(c), ("wheel".into(), "down".into(), "".into(), 0, 1, 2));
    }
    assert!(h.handle_mouse_wheel(None).is_empty());
}
