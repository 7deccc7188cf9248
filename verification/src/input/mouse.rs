//! Mouse buttons, actions and positions in the terms Neovim's
//! `nvim_input_mouse` takes them.

use vstd::prelude::*;
use vstd::string::*;

use super::keyboard::Modifiers;

verus! {

/// What the mouse did.
#[derive(Clone, Copy, Debug, PartialEq, Eq, Structural)]
pub enum MouseAction {
    Press,
    Release,
    Drag,
    Move,
}

impl MouseAction {
    /// Neovim's name of the action.
    pub open spec fn name(self) -> Seq<char> {
        match self {
            MouseAction::Press => "press"@,
            MouseAction::Release => "release"@,
            MouseAction::Drag => "drag"@,
            MouseAction::Move => "move"@,
        }
    }

    /// Returns Neovim's name of the action.
    pub fn as_str(&self) -> (s: &'static str)
        ensures
            s@ == self.name(),
    {
        match self {
            MouseAction::Press => "press",
            MouseAction::Release => "release",
            MouseAction::Drag => "drag",
            MouseAction::Move => "move",
        }
    }
}

/// The mouse buttons that Neovim knows.
#[derive(Clone, Copy, Debug, PartialEq, Eq, Structural)]
pub enum MouseButtonType {
    Left,
    Right,
    Middle,
}

impl MouseButtonType {
    /// Neovim's name of the button.
    pub open spec fn name(self) -> Seq<char> {
        match self {
            MouseButtonType::Left => "left"@,
            MouseButtonType::Right => "right"@,
            MouseButtonType::Middle => "middle"@,
        }
    }

    /// Returns Neovim's name of the button.
    pub fn as_str(&self) -> (s: &'static str)
        ensures
            s@ == self.name(),
    {
        match self {
            MouseButtonType::Left => "left",
            MouseButtonType::Right => "right",
            MouseButtonType::Middle => "middle",
        }
    }
}

/// A button of the pointing device, as the windowing system reports it.
#[derive(Clone, Copy, Debug, PartialEq, Eq, Structural)]
pub enum MouseButton {
    Left,
    Right,
    Middle,
    Back,
    Forward,
    Other(u16),
}

/// The Neovim button for a device button; the others have none.
pub open spec fn button_type_of(button: MouseButton) -> Option<MouseButtonType> {
    match button {
        MouseButton::Left => Some(MouseButtonType::Left),
        MouseButton::Right => Some(MouseButtonType::Right),
        MouseButton::Middle => Some(MouseButtonType::Middle),
        _ => None,
    }
}

/// Returns the Neovim button for a device button, or `None` for buttons
/// Neovim does not know.
pub fn mouse_button_to_type(button: MouseButton) -> (r: Option<MouseButtonType>)
    ensures
        r == button_type_of(button),
{
    match button {
        MouseButton::Left => Some(MouseButtonType::Left),
        MouseButton::Right => Some(MouseButtonType::Right),
        MouseButton::Middle => Some(MouseButtonType::Middle),
        _ => None,
    }
}

/// A cell position on the grid.
#[derive(Clone, Copy, Debug, PartialEq, Eq, Structural)]
pub struct GridPosition {
    pub row: i64,
    pub col: i64,
}

/// The modifier letters of Neovim's mouse input, in the order `S`, `C`,
/// `A`, `D`.
pub open spec fn modifier_letters(m: Modifiers) -> Seq<char> {
    (if m.shift { "S"@ } else { Seq::empty() }) + (if m.ctrl { "C"@ } else { Seq::empty() }) + (if m.alt {
        "A"@
    } else {
        Seq::empty()
    }) + (if m.logo { "D"@ } else { Seq::empty() })
}

/// Returns the modifier letters of Neovim's mouse input for the modifiers
/// held.
pub fn modifiers_to_string(modifiers: &Modifiers) -> (s: String)
    ensures
        s@ == modifier_letters(*modifiers),
{
    let mut result = String::new();
    if modifiers.shift {
        result.append("S");
    }
    if modifiers.ctrl {
        result.append("C");
    }
    if modifiers.alt {
        result.append("A");
    }
    if modifiers.logo {
        result.append("D");
    }
    assert(result@ =~= modifier_letters(*modifiers));
    result
}

/// The direction of a wheel scroll.
#[derive(Clone, Copy, Debug, PartialEq, Eq, Structural)]
pub enum ScrollDirection {
    Up,
    Down,
    Left,
    Right,
}

impl ScrollDirection {
    /// Neovim's name of the direction.
    pub open spec fn name(self) -> Seq<char> {
        match self {
            ScrollDirection::Up => "up"@,
            ScrollDirection::Down => "down"@,
            ScrollDirection::Left => "left"@,
            ScrollDirection::Right => "right"@,
        }
    }

    /// Returns Neovim's name of the direction.
    pub fn as_str(&self) -> (s: &'static str)
        ensures
            s@ == self.name(),
    {
        match self {
            ScrollDirection::Up => "up",
            ScrollDirection::Down => "down",
            ScrollDirection::Left => "left",
            ScrollDirection::Right => "right",
        }
    }
}

/// Where the mouse was last seen and which button is held.
#[derive(Clone, Copy, Debug, PartialEq, Eq, Structural)]
pub struct MouseState {
    pub last_position: Option<GridPosition>,
    pub pressed_button: Option<MouseButtonType>,
}

impl Default for MouseState {
    fn default() -> (s: Self)
        ensures
            s == (MouseState { last_position: None, pressed_button: None }),
    {
        MouseState { last_position: None, pressed_button: None }
    }
}

impl MouseState {
    /// No position seen yet and no button held.
    pub fn new() -> (s: Self)
        ensures
            s == (MouseState { last_position: None, pressed_button: None }),
    {
        MouseState { last_position: None, pressed_button: None }
    }

    /// Records the mouse's position.
    pub fn update_position(&mut self, position: GridPosition)
        ensures
            *final(self) == (MouseState { last_position: Some(position), ..*old(self) }),
    {
        self.last_position = Some(position);
    }

    /// Records that `button` is held.
    pub fn button_pressed(&mut self, button: MouseButtonType)
        ensures
            *final(self) == (MouseState { pressed_button: Some(button), ..*old(self) }),
    {
        self.pressed_button = Some(button);
    }

    /// Records that no button is held.
    pub fn button_released(&mut self)
        ensures
            *final(self) == (MouseState { pressed_button: None, ..*old(self) }),
    {
        self.pressed_button = None;
    }

    /// Whether a button is held, so that moving drags.
    pub fn is_dragging(&self) -> (b: bool)
        ensures
            b == self.pressed_button is Some,
    {
        self.pressed_button.is_some()
    }
}

/// The three buttons Neovim knows keep their identity, and no other button
/// is passed on.
pub proof fn law_buttons_kept(button: MouseButton)
    ensures
        button_type_of(button) is Some ==> (button_type_of(button) == Some(MouseButtonType::Left) <==> button
            == MouseButton::Left),
        button_type_of(button) is Some ==> (button_type_of(button) == Some(MouseButtonType::Right) <==> button
            == MouseButton::Right),
        button_type_of(button) is Some ==> (button_type_of(button) == Some(MouseButtonType::Middle) <==> button
            == MouseButton::Middle),
        button_type_of(button) is Some <==> (button == MouseButton::Left || button == MouseButton::Right || button
            == MouseButton::Middle),
{
}

/// Different actions, buttons and scroll directions get different names.
pub proof fn law_mouse_names_distinct(a1: MouseAction, a2: MouseAction, b1: MouseButtonType, b2: MouseButtonType, d1: ScrollDirection, d2: ScrollDirection)
    ensures
        a1.name() == a2.name() ==> a1 == a2,
        b1.name() == b2.name() ==> b1 == b2,
        d1.name() == d2.name() ==> d1 == d2,
{
    reveal_strlit("press");
    reveal_strlit("release");
    reveal_strlit("drag");
    reveal_strlit("move");
    reveal_strlit("left");
    reveal_strlit("right");
    reveal_strlit("middle");
    reveal_strlit("up");
    reveal_strlit("down");
    assert(a1.name().len() > 0 && a2.name().len() > 0);
    if a1.name() == a2.name() {
        assert(a1.name()[0] == a2.name()[0]);
        assert(a1.name().len() == a2.name().len());
    }
    if b1.name() == b2.name() {
        assert(b1.name()[0] == b2.name()[0]);
    }
    if d1.name() == d2.name() {
        assert(d1.name()[0] == d2.name()[0]);
    }
}

/// Each modifier adds its own letter, in the order shift, control, alt,
/// logo: `S`, `C`, `A`, `D`; no modifier gives no letter.
pub proof fn law_modifier_letters(m: Modifiers)
    ensures
        modifier_letters(m).len() == (if m.shift { 1int } else { 0 }) + (if m.ctrl { 1int } else { 0 }) + (if m.alt {
            1int
        } else {
            0
        }) + (if m.logo { 1int } else { 0 }),
        m.shift ==> modifier_letters(m)[0] == 'S',
        !m.shift && m.ctrl ==> modifier_letters(m)[0] == 'C',
        !m.shift && !m.ctrl && m.alt ==> modifier_letters(m)[0] == 'A',
        !m.shift && !m.ctrl && !m.alt && m.logo ==> modifier_letters(m)[0] == 'D',
        m.logo ==> modifier_letters(m)[modifier_letters(m).len() - 1] == 'D',
{
    reveal_strlit("S");
    reveal_strlit("C");
    reveal_strlit("A");
    reveal_strlit("D");
}

} // verus!
