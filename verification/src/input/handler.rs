//! The input handler: keeps the modifiers and the mouse state, and decides
//! which command each input event sends to Neovim.

use vstd::prelude::*;
use vstd::string::*;

use super::keyboard::{key_event_to_neovim, neovim_keys, KeyEvent, Modifiers};
use super::mouse::{
    button_type_of, modifier_letters, modifiers_to_string, mouse_button_to_type, GridPosition,
    MouseAction, MouseButton, MouseButtonType, MouseState, ScrollDirection,
};
use crate::bridge::command::AppCommand;

verus! {

/// `c` is the mouse command for `button`, `action` and `modifier` at
/// (`row`, `col`) of the main grid.
pub open spec fn is_mouse_command(
    c: AppCommand,
    button: Seq<char>,
    action: Seq<char>,
    modifier: Seq<char>,
    row: i64,
    col: i64,
) -> bool {
    match c {
        AppCommand::MouseInput { button: b, action: a, modifier: m, grid: g, row: r, col: k } => b@ == button
            && a@ == action && m@ == modifier && g == 0 && r == row && k == col,
        _ => false,
    }
}

/// Translates input events into commands for Neovim.
#[derive(Debug)]
pub struct InputHandler {
    modifiers: Modifiers,
    mouse_state: MouseState,
}

impl Default for InputHandler {
    fn default() -> (h: Self)
        ensures
            h.spec_modifiers() == (Modifiers { ctrl: false, shift: false, alt: false, logo: false }),
            h.spec_mouse() == (MouseState { last_position: None, pressed_button: None }),
    {
        Self::new()
    }
}

impl InputHandler {
    /// The modifiers held.
    pub closed spec fn spec_modifiers(&self) -> Modifiers {
        self.modifiers
    }

    /// The mouse state.
    pub closed spec fn spec_mouse(&self) -> MouseState {
        self.mouse_state
    }

    /// No modifier held, no mouse position seen and no button held.
    pub fn new() -> (h: Self)
        ensures
            h.spec_modifiers() == (Modifiers { ctrl: false, shift: false, alt: false, logo: false }),
            h.spec_mouse() == (MouseState { last_position: None, pressed_button: None }),
    {
        InputHandler { modifiers: Modifiers::default(), mouse_state: MouseState::new() }
    }

    /// Records the modifiers now held.
    pub fn handle_modifiers_changed(&mut self, modifiers: Modifiers)
        ensures
            final(self).spec_modifiers() == modifiers,
            final(self).spec_mouse() == old(self).spec_mouse(),
    {
        self.modifiers = modifiers;
    }

    /// The command for a key event: the keys in Neovim's notation, or
    /// nothing when the key sends none.
    pub fn handle_keyboard_input(&self, event: &KeyEvent) -> (c: Option<AppCommand>)
        ensures
            match c {
                Some(AppCommand::Input(keys)) => neovim_keys(*event, self.spec_modifiers()) == Some(keys@),
                Some(_) => false,
                None => neovim_keys(*event, self.spec_modifiers()) is None,
            },
    {
        match key_event_to_neovim(event, &self.modifiers) {
            Some(keys) => Some(AppCommand::Input(keys)),
            None => None,
        }
    }

    /// The command for a button press or release at the last mouse
    /// position. Buttons Neovim does not know, and clicks before the mouse
    /// was seen on the grid, send nothing and change nothing.
    pub fn handle_mouse_input(&mut self, pressed: bool, button: MouseButton) -> (c: Option<AppCommand>)
        ensures
            final(self).spec_modifiers() == old(self).spec_modifiers(),
            match (button_type_of(button), old(self).spec_mouse().last_position) {
                (Some(bt), Some(pos)) => {
                    &&& final(self).spec_mouse() == (MouseState {
                        pressed_button: if pressed { Some(bt) } else { None },
                        ..old(self).spec_mouse()
                    })
                    &&& c is Some
                    &&& is_mouse_command(
                        c->0,
                        bt.name(),
                        if pressed { MouseAction::Press.name() } else { MouseAction::Release.name() },
                        modifier_letters(old(self).spec_modifiers()),
                        pos.row,
                        pos.col,
                    )
                },
                _ => c is None && final(self).spec_mouse() == old(self).spec_mouse(),
            },
    {
        if let Some(button_type) = mouse_button_to_type(button) {
            if let Some(grid_pos) = self.mouse_state.last_position {
                let action = if pressed {
                    self.mouse_state.button_pressed(button_type);
                    MouseAction::Press
                } else {
                    self.mouse_state.button_released();
                    MouseAction::Release
                };
                let modifier = modifiers_to_string(&self.modifiers);
                return Some(
                    AppCommand::MouseInput {
                        button: String::from_str(button_type.as_str()),
                        action: String::from_str(action.as_str()),
                        modifier,
                        grid: 0,
                        row: grid_pos.row,
                        col: grid_pos.col,
                    },
                );
            }
        }
        None
    }

    /// Records the mouse's new grid position; while a button is held, moving
    /// to another cell (or the first position seen) sends a drag.
    pub fn handle_cursor_moved(&mut self, grid_pos: GridPosition) -> (c: Option<AppCommand>)
        ensures
            final(self).spec_modifiers() == old(self).spec_modifiers(),
            final(self).spec_mouse() == (MouseState { last_position: Some(grid_pos), ..old(self).spec_mouse() }),
            match old(self).spec_mouse().pressed_button {
                Some(bt) => if old(self).spec_mouse().last_position != Some(grid_pos) {
                    c is Some && is_mouse_command(
                        c->0,
                        bt.name(),
                        MouseAction::Drag.name(),
                        modifier_letters(old(self).spec_modifiers()),
                        grid_pos.row,
                        grid_pos.col,
                    )
                } else {
                    c is None
                },
                None => c is None,
            },
    {
        let old_pos = self.mouse_state.last_position;
        self.mouse_state.update_position(grid_pos);
        if self.mouse_state.is_dragging() {
            let moved = match old_pos {
                Some(p) => p.row != grid_pos.row || p.col != grid_pos.col,
                None => true,
            };
            if moved {
                if let Some(button_type) = self.mouse_state.pressed_button {
                    let modifier = modifiers_to_string(&self.modifiers);
                    return Some(
                        AppCommand::MouseInput {
                            button: String::from_str(button_type.as_str()),
                            action: String::from_str(MouseAction::Drag.as_str()),
                            modifier,
                            grid: 0,
                            row: grid_pos.row,
                            col: grid_pos.col,
                        },
                    );
                }
            }
        }
        None
    }

    /// The commands for a wheel scroll of `count` steps in a direction (as
    /// the scroll delta gives them): one wheel command per step at the last
    /// mouse position, or none before the mouse was seen on the grid.
    pub fn handle_mouse_wheel(&self, scroll: Option<(ScrollDirection, u32)>) -> (cs: Vec<AppCommand>)
        ensures
            match (self.spec_mouse().last_position, scroll) {
                (Some(pos), Some((dir, count))) => cs@.len() == count && forall|i: int|
                    0 <= i < cs@.len() ==> is_mouse_command(
                        #[trigger] cs@[i],
                        "wheel"@,
                        dir.name(),
                        modifier_letters(self.spec_modifiers()),
                        pos.row,
                        pos.col,
                    ),
                _ => cs@.len() == 0,
            },
    {
        let mut cs: Vec<AppCommand> = Vec::new();
        if let Some(grid_pos) = self.mouse_state.last_position {
            if let Some((direction, count)) = scroll {
                let modifier = modifiers_to_string(&self.modifiers);
                let mut k: u32 = 0;
                while k < count
                    invariant
                        k <= count,
                        cs@.len() == k,
                        modifier@ == modifier_letters(self.spec_modifiers()),
                        forall|i: int|
                            0 <= i < cs@.len() ==> is_mouse_command(
                                #[trigger] cs@[i],
                                "wheel"@,
                                direction.name(),
                                modifier_letters(self.spec_modifiers()),
                                grid_pos.row,
                                grid_pos.col,
                            ),
                    decreases count - k,
                {
                    cs.push(
                        AppCommand::MouseInput {
                            button: String::from_str("wheel"),
                            action: String::from_str(direction.as_str()),
                            modifier: modifier.clone(),
                            grid: 0,
                            row: grid_pos.row,
                            col: grid_pos.col,
                        },
                    );
                    k = k + 1;
                }
            }
        }
        cs
    }
}

} // verus!
