//! Translation of key presses into Neovim's key notation (`<C-a>`, `<CR>`, ...).

use vstd::prelude::*;
use vstd::string::*;

verus! {

/// The modifier keys held down.
#[derive(Clone, Copy, Debug, PartialEq, Eq, Structural)]
pub struct Modifiers {
    pub ctrl: bool,
    pub shift: bool,
    pub alt: bool,
    pub logo: bool,
}

impl Default for Modifiers {
    fn default() -> (m: Self)
        ensures
            m == (Modifiers { ctrl: false, shift: false, alt: false, logo: false }),
    {
        Modifiers { ctrl: false, shift: false, alt: false, logo: false }
    }
}

/// The named (non-character) keys that the translation knows; every other
/// named key is `Other`.
#[derive(Clone, Copy, Debug, PartialEq, Eq, Structural)]
pub enum NamedKey {
    Enter,
    Tab,
    Space,
    Backspace,
    Escape,
    Delete,
    Insert,
    Home,
    End,
    PageUp,
    PageDown,
    ArrowUp,
    ArrowDown,
    ArrowLeft,
    ArrowRight,
    F1,
    F2,
    F3,
    F4,
    F5,
    F6,
    F7,
    F8,
    F9,
    F10,
    F11,
    F12,
    Help,
    Undo,
    Shift,
    Control,
    Alt,
    Super,
    Meta,
    Hyper,
    NumLock,
    CapsLock,
    ScrollLock,
    Other,
}

/// The physical key codes that the translation knows; every other code is
/// `Other`.
#[derive(Clone, Copy, Debug, PartialEq, Eq, Structural)]
pub enum KeyCode {
    Enter,
    NumpadEnter,
    Tab,
    Space,
    Backspace,
    Escape,
    Delete,
    Insert,
    Home,
    End,
    PageUp,
    PageDown,
    ArrowUp,
    ArrowDown,
    ArrowLeft,
    ArrowRight,
    F1,
    F2,
    F3,
    F4,
    F5,
    F6,
    F7,
    F8,
    F9,
    F10,
    F11,
    F12,
    Numpad0,
    Numpad1,
    Numpad2,
    Numpad3,
    Numpad4,
    Numpad5,
    Numpad6,
    Numpad7,
    Numpad8,
    Numpad9,
    NumpadAdd,
    NumpadSubtract,
    NumpadMultiply,
    NumpadDivide,
    NumpadDecimal,
    Other,
}

/// The key on the keyboard, by position.
#[derive(Clone, Copy, Debug, PartialEq, Eq, Structural)]
pub enum PhysicalKey {
    Code(KeyCode),
    Unidentified,
}

/// The key as the keyboard layout gives it.
#[derive(Clone, Debug)]
pub enum Key {
    Named(NamedKey),
    Character(String),
    Unidentified,
    Dead,
}

/// A key press or release.
#[derive(Clone, Debug)]
pub struct KeyEvent {
    pub pressed: bool,
    pub logical_key: Key,
    pub physical_key: PhysicalKey,
}

/// Neovim's name of a named key; modifier and lock keys, and keys with no
/// name, have none.
pub open spec fn named_key_name(key: NamedKey) -> Option<Seq<char>> {
    match key {
        NamedKey::Enter => Some("CR"@),
        NamedKey::Tab => Some("Tab"@),
        NamedKey::Space => Some("Space"@),
        NamedKey::Backspace => Some("BS"@),
        NamedKey::Escape => Some("Esc"@),
        NamedKey::Delete => Some("Del"@),
        NamedKey::Insert => Some("Insert"@),
        NamedKey::Home => Some("Home"@),
        NamedKey::End => Some("End"@),
        NamedKey::PageUp => Some("PageUp"@),
        NamedKey::PageDown => Some("PageDown"@),
        NamedKey::ArrowUp => Some("Up"@),
        NamedKey::ArrowDown => Some("Down"@),
        NamedKey::ArrowLeft => Some("Left"@),
        NamedKey::ArrowRight => Some("Right"@),
        NamedKey::F1 => Some("F1"@),
        NamedKey::F2 => Some("F2"@),
        NamedKey::F3 => Some("F3"@),
        NamedKey::F4 => Some("F4"@),
        NamedKey::F5 => Some("F5"@),
        NamedKey::F6 => Some("F6"@),
        NamedKey::F7 => Some("F7"@),
        NamedKey::F8 => Some("F8"@),
        NamedKey::F9 => Some("F9"@),
        NamedKey::F10 => Some("F10"@),
        NamedKey::F11 => Some("F11"@),
        NamedKey::F12 => Some("F12"@),
        NamedKey::Help => Some("Help"@),
        NamedKey::Undo => Some("Undo"@),
        _ => None,
    }
}

/// Neovim's name of a physical key, used when the layout does not identify
/// the key.
pub open spec fn key_code_name(code: KeyCode) -> Option<Seq<char>> {
    match code {
        KeyCode::Enter => Some("CR"@),
        KeyCode::NumpadEnter => Some("CR"@),
        KeyCode::Tab => Some("Tab"@),
        KeyCode::Space => Some("Space"@),
        KeyCode::Backspace => Some("BS"@),
        KeyCode::Escape => Some("Esc"@),
        KeyCode::Delete => Some("Del"@),
        KeyCode::Insert => Some("Insert"@),
        KeyCode::Home => Some("Home"@),
        KeyCode::End => Some("End"@),
        KeyCode::PageUp => Some("PageUp"@),
        KeyCode::PageDown => Some("PageDown"@),
        KeyCode::ArrowUp => Some("Up"@),
        KeyCode::ArrowDown => Some("Down"@),
        KeyCode::ArrowLeft => Some("Left"@),
        KeyCode::ArrowRight => Some("Right"@),
        KeyCode::F1 => Some("F1"@),
        KeyCode::F2 => Some("F2"@),
        KeyCode::F3 => Some("F3"@),
        KeyCode::F4 => Some("F4"@),
        KeyCode::F5 => Some("F5"@),
        KeyCode::F6 => Some("F6"@),
        KeyCode::F7 => Some("F7"@),
        KeyCode::F8 => Some("F8"@),
        KeyCode::F9 => Some("F9"@),
        KeyCode::F10 => Some("F10"@),
        KeyCode::F11 => Some("F11"@),
        KeyCode::F12 => Some("F12"@),
        KeyCode::Numpad0 => Some("k0"@),
        KeyCode::Numpad1 => Some("k1"@),
        KeyCode::Numpad2 => Some("k2"@),
        KeyCode::Numpad3 => Some("k3"@),
        KeyCode::Numpad4 => Some("k4"@),
        KeyCode::Numpad5 => Some("k5"@),
        KeyCode::Numpad6 => Some("k6"@),
        KeyCode::Numpad7 => Some("k7"@),
        KeyCode::Numpad8 => Some("k8"@),
        KeyCode::Numpad9 => Some("k9"@),
        KeyCode::NumpadAdd => Some("kPlus"@),
        KeyCode::NumpadSubtract => Some("kMinus"@),
        KeyCode::NumpadMultiply => Some("kMultiply"@),
        KeyCode::NumpadDivide => Some("kDivide"@),
        KeyCode::NumpadDecimal => Some("kPoint"@),
        KeyCode::Other => None,
    }
}

/// A plain character as Neovim reads it: `<`, `\` and `|` are spelled out.
pub open spec fn escaped(key: Seq<char>) -> Seq<char> {
    if key == seq!['<'] {
        "<lt>"@
    } else if key == seq!['\\'] {
        "<Bslash>"@
    } else if key == seq!['|'] {
        "<Bar>"@
    } else {
        key
    }
}

/// Ctrl, Alt or the logo key is held.
pub open spec fn has_modifiers(m: Modifiers) -> bool {
    m.ctrl || m.alt || m.logo
}

/// Shift is written out: for a special key, or together with another
/// modifier (otherwise the character itself carries the shift).
pub open spec fn shift_relevant(m: Modifiers, is_special: bool) -> bool {
    m.shift && (is_special || has_modifiers(m))
}

/// The modifier prefix, in the order `D-`, `C-`, `M-`, `S-`.
pub open spec fn modifier_prefix(m: Modifiers, is_special: bool) -> Seq<char> {
    (if m.logo { "D-"@ } else { Seq::empty() }) + (if m.ctrl { "C-"@ } else { Seq::empty() }) + (if m.alt {
        "M-"@
    } else {
        Seq::empty()
    }) + (if shift_relevant(m, is_special) { "S-"@ } else { Seq::empty() })
}

/// A key in Neovim's notation: a special key or a modified key in angle
/// brackets with its modifier prefix, a plain character as it is (escaped).
pub open spec fn formatted_key(key: Seq<char>, m: Modifiers, is_special: bool) -> Seq<char> {
    if !has_modifiers(m) && !shift_relevant(m, is_special) {
        if is_special {
            "<"@ + key + ">"@
        } else {
            escaped(key)
        }
    } else {
        "<"@ + modifier_prefix(m, is_special) + key + ">"@
    }
}

/// A one-character text whose character is an ASCII control character.
pub open spec fn is_control_text(text: Seq<char>) -> bool {
    text.len() == 1 && ((text[0] as u32) < 0x20 || text[0] as u32 == 0x7f)
}

/// The keys that Neovim receives for a key event, if any: nothing on
/// release, for dead keys, modifier and lock keys and control characters.
pub open spec fn neovim_keys(event: KeyEvent, m: Modifiers) -> Option<Seq<char>> {
    if !event.pressed {
        None
    } else {
        match event.logical_key {
            Key::Named(n) => match named_key_name(n) {
                Some(k) => Some(formatted_key(k, m, true)),
                None => None,
            },
            Key::Character(c) => if is_control_text(c@) {
                None
            } else {
                Some(formatted_key(c@, m, false))
            },
            Key::Unidentified => match event.physical_key {
                PhysicalKey::Code(code) => match key_code_name(code) {
                    Some(k) => Some(formatted_key(k, m, true)),
                    None => None,
                },
                PhysicalKey::Unidentified => None,
            },
            Key::Dead => None,
        }
    }
}

/// Translates a key event into Neovim's key notation, or `None` when it
/// sends nothing.
pub fn key_event_to_neovim(event: &KeyEvent, modifiers: &Modifiers) -> (r: Option<String>)
    ensures
        match r {
            Some(s) => neovim_keys(*event, *modifiers) == Some(s@),
            None => neovim_keys(*event, *modifiers) is None,
        },
{
    if !event.pressed {
        return None;
    }
    match &event.logical_key {
        Key::Named(named) => match named_key_to_str(*named) {
            Some(k) => format_with_modifiers(k.as_str(), modifiers, true),
            None => None,
        },
        Key::Character(c) => {
            let s = c.as_str();
            if s.unicode_len() == 1 {
                let ch = s.get_char(0);
                let code = ch as u32;
                if code < 0x20 || code == 0x7f {
                    return None;
                }
            }
            format_with_modifiers(s, modifiers, false)
        },
        Key::Unidentified => try_physical_key(&event.physical_key, modifiers),
        Key::Dead => None,
    }
}

/// Neovim's name of a named key, or `None` for a key that sends nothing on
/// its own.
pub fn named_key_to_str(key: NamedKey) -> (r: Option<String>)
    ensures
        match r {
            Some(s) => named_key_name(key) == Some(s@),
            None => named_key_name(key) is None,
        },
{
    let s: &str = match key {
        NamedKey::Enter => "CR",
        NamedKey::Tab => "Tab",
        NamedKey::Space => "Space",
        NamedKey::Backspace => "BS",
        NamedKey::Escape => "Esc",
        NamedKey::Delete => "Del",
        NamedKey::Insert => "Insert",
        NamedKey::Home => "Home",
        NamedKey::End => "End",
        NamedKey::PageUp => "PageUp",
        NamedKey::PageDown => "PageDown",
        NamedKey::ArrowUp => "Up",
        NamedKey::ArrowDown => "Down",
        NamedKey::ArrowLeft => "Left",
        NamedKey::ArrowRight => "Right",
        NamedKey::F1 => "F1",
        NamedKey::F2 => "F2",
        NamedKey::F3 => "F3",
        NamedKey::F4 => "F4",
        NamedKey::F5 => "F5",
        NamedKey::F6 => "F6",
        NamedKey::F7 => "F7",
        NamedKey::F8 => "F8",
        NamedKey::F9 => "F9",
        NamedKey::F10 => "F10",
        NamedKey::F11 => "F11",
        NamedKey::F12 => "F12",
        NamedKey::Help => "Help",
        NamedKey::Undo => "Undo",
        _ => {
            return None;
        },
    };
    Some(String::from_str(s))
}

/// Whether the key is a named (special) key.
pub fn is_special_key(key: &Key) -> (b: bool)
    ensures
        b == (*key is Named),
{
    match key {
        Key::Named(_) => true,
        _ => false,
    }
}

/// The keys for a key that the layout does not identify, named by its
/// physical position.
pub fn try_physical_key(physical: &PhysicalKey, modifiers: &Modifiers) -> (r: Option<String>)
    ensures
        match r {
            Some(s) => match *physical {
                PhysicalKey::Code(code) => match key_code_name(code) {
                    Some(k) => s@ == formatted_key(k, *modifiers, true),
                    None => false,
                },
                PhysicalKey::Unidentified => false,
            },
            None => match *physical {
                PhysicalKey::Code(code) => key_code_name(code) is None,
                PhysicalKey::Unidentified => true,
            },
        },
{
    match physical {
        PhysicalKey::Code(code) => match physical_keycode_to_str(*code) {
            Some(k) => format_with_modifiers(k.as_str(), modifiers, true),
            None => None,
        },
        PhysicalKey::Unidentified => None,
    }
}

/// Neovim's name of a physical key, or `None` for a key it has no name for.
pub fn physical_keycode_to_str(code: KeyCode) -> (r: Option<String>)
    ensures
        match r {
            Some(s) => key_code_name(code) == Some(s@),
            None => key_code_name(code) is None,
        },
{
    let s: &str = match code {
        KeyCode::Enter => "CR",
        KeyCode::NumpadEnter => "CR",
        KeyCode::Tab => "Tab",
        KeyCode::Space => "Space",
        KeyCode::Backspace => "BS",
        KeyCode::Escape => "Esc",
        KeyCode::Delete => "Del",
        KeyCode::Insert => "Insert",
        KeyCode::Home => "Home",
        KeyCode::End => "End",
        KeyCode::PageUp => "PageUp",
        KeyCode::PageDown => "PageDown",
        KeyCode::ArrowUp => "Up",
        KeyCode::ArrowDown => "Down",
        KeyCode::ArrowLeft => "Left",
        KeyCode::ArrowRight => "Right",
        KeyCode::F1 => "F1",
        KeyCode::F2 => "F2",
        KeyCode::F3 => "F3",
        KeyCode::F4 => "F4",
        KeyCode::F5 => "F5",
        KeyCode::F6 => "F6",
        KeyCode::F7 => "F7",
        KeyCode::F8 => "F8",
        KeyCode::F9 => "F9",
        KeyCode::F10 => "F10",
        KeyCode::F11 => "F11",
        KeyCode::F12 => "F12",
        KeyCode::Numpad0 => "k0",
        KeyCode::Numpad1 => "k1",
        KeyCode::Numpad2 => "k2",
        KeyCode::Numpad3 => "k3",
        KeyCode::Numpad4 => "k4",
        KeyCode::Numpad5 => "k5",
        KeyCode::Numpad6 => "k6",
        KeyCode::Numpad7 => "k7",
        KeyCode::Numpad8 => "k8",
        KeyCode::Numpad9 => "k9",
        KeyCode::NumpadAdd => "kPlus",
        KeyCode::NumpadSubtract => "kMinus",
        KeyCode::NumpadMultiply => "kMultiply",
        KeyCode::NumpadDivide => "kDivide",
        KeyCode::NumpadDecimal => "kPoint",
        KeyCode::Other => {
            return None;
        },
    };
    Some(String::from_str(s))
}

/// Writes `key` in Neovim's notation with the modifiers held; always gives
/// a result.
pub fn format_with_modifiers(key: &str, modifiers: &Modifiers, is_special: bool) -> (r: Option<String>)
    ensures
        r == Some(r->0),
        r->0@ == formatted_key(key@, *modifiers, is_special),
{
    let has_mods = modifiers.ctrl || modifiers.alt || modifiers.logo;
    let shift_rel = modifiers.shift && (is_special || has_mods);
    if !has_mods && !shift_rel {
        if is_special {
            let mut s = String::from_str("<");
            s.append(key);
            s.append(">");
            assert(s@ =~= "<"@ + key@ + ">"@);
            return Some(s);
        }
        return Some(escape_literal(key));
    }
    let mut s = String::from_str("<");
    let ghost before = s@;
    if modifiers.logo {
        s.append("D-");
    }
    if modifiers.ctrl {
        s.append("C-");
    }
    if modifiers.alt {
        s.append("M-");
    }
    if shift_rel {
        s.append("S-");
    }
    assert(s@ =~= "<"@ + modifier_prefix(*modifiers, is_special));
    s.append(key);
    s.append(">");
    assert(s@ =~= "<"@ + modifier_prefix(*modifiers, is_special) + key@ + ">"@);
    Some(s)
}

/// A plain character as Neovim reads it: `<`, `\` and `|` are spelled out,
/// any other text is kept.
pub fn escape_literal(key: &str) -> (s: String)
    ensures
        s@ == escaped(key@),
{
    if key.unicode_len() == 1 {
        let c = key.get_char(0);
        assert(key@ =~= seq![c]);
        if c == '<' {
            return String::from_str("<lt>");
        } else if c == '\\' {
            return String::from_str("<Bslash>");
        } else if c == '|' {
            return String::from_str("<Bar>");
        }
    }
    String::from_str(key)
}

/// A special key, or any key with Ctrl, Alt or the logo key, is written in
/// angle brackets; a plain character without them is written as itself,
/// unless it is one of `<`, `\` and `|`.
pub proof fn law_bracketed_keys(key: Seq<char>, m: Modifiers, is_special: bool)
    ensures
        is_special || has_modifiers(m) ==> {
            let f = formatted_key(key, m, is_special);
            f.len() >= 2 && f[0] == '<' && f[f.len() - 1] == '>'
        },
        !is_special && !has_modifiers(m) && key != seq!['<'] && key != seq!['\\'] && key != seq!['|'] ==> formatted_key(
            key,
            m,
            is_special,
        ) == key,
{
    reveal_strlit("<");
    reveal_strlit(">");
}

/// Function keys keep their number: `F1` to `F12` are named `F` followed
/// by their number in decimal.
pub proof fn law_function_key_names()
    ensures
        named_key_name(NamedKey::F1) == Some(seq!['F', '1']),
        named_key_name(NamedKey::F2) == Some(seq!['F', '2']),
        named_key_name(NamedKey::F3) == Some(seq!['F', '3']),
        named_key_name(NamedKey::F4) == Some(seq!['F', '4']),
        named_key_name(NamedKey::F5) == Some(seq!['F', '5']),
        named_key_name(NamedKey::F6) == Some(seq!['F', '6']),
        named_key_name(NamedKey::F7) == Some(seq!['F', '7']),
        named_key_name(NamedKey::F8) == Some(seq!['F', '8']),
        named_key_name(NamedKey::F9) == Some(seq!['F', '9']),
        named_key_name(NamedKey::F10) == Some(seq!['F', '1', '0']),
        named_key_name(NamedKey::F11) == Some(seq!['F', '1', '1']),
        named_key_name(NamedKey::F12) == Some(seq!['F', '1', '2']),
{
    reveal_strlit("CR");
    reveal_strlit("Tab");
    reveal_strlit("Space");
    reveal_strlit("BS");
    reveal_strlit("Esc");
    reveal_strlit("Del");
    reveal_strlit("Insert");
    reveal_strlit("Home");
    reveal_strlit("End");
    reveal_strlit("PageUp");
    reveal_strlit("PageDown");
    reveal_strlit("Up");
    reveal_strlit("Down");
    reveal_strlit("Left");
    reveal_strlit("Right");
    reveal_strlit("F1");
    reveal_strlit("F2");
    reveal_strlit("F3");
    reveal_strlit("F4");
    reveal_strlit("F5");
    reveal_strlit("F6");
    reveal_strlit("F7");
    reveal_strlit("F8");
    reveal_strlit("F9");
    reveal_strlit("F10");
    reveal_strlit("F11");
    reveal_strlit("F12");
    reveal_strlit("Help");
    reveal_strlit("Undo");
}

/// Different named keys get different names, so a key pressed is never
/// sent to Neovim as another one.
pub proof fn law_named_keys_distinct(a: NamedKey, b: NamedKey)
    requires
        named_key_name(a) is Some,
        named_key_name(a) == named_key_name(b),
    ensures
        a == b,
{
    reveal_strlit("CR");
    reveal_strlit("Tab");
    reveal_strlit("Space");
    reveal_strlit("BS");
    reveal_strlit("Esc");
    reveal_strlit("Del");
    reveal_strlit("Insert");
    reveal_strlit("Home");
    reveal_strlit("End");
    reveal_strlit("PageUp");
    reveal_strlit("PageDown");
    reveal_strlit("Up");
    reveal_strlit("Down");
    reveal_strlit("Left");
    reveal_strlit("Right");
    reveal_strlit("F1");
    reveal_strlit("F2");
    reveal_strlit("F3");
    reveal_strlit("F4");
    reveal_strlit("F5");
    reveal_strlit("F6");
    reveal_strlit("F7");
    reveal_strlit("F8");
    reveal_strlit("F9");
    reveal_strlit("F10");
    reveal_strlit("F11");
    reveal_strlit("F12");
    reveal_strlit("Help");
    reveal_strlit("Undo");
    let n = named_key_name(a)->0;
    assert(n.len() == named_key_name(b)->0.len());
    assert(n[0] == named_key_name(b)->0[0]);
    if n.len() > 1 {
        assert(n[1] == named_key_name(b)->0[1]);
    }
    if n.len() > 2 {
        assert(n[2] == named_key_name(b)->0[2]);
    }
}

/// A physical key and the logical key it stands for are named alike, and
/// the Enter of the keypad is named as Enter.
pub proof fn law_physical_keys_named_alike()
    ensures
        key_code_name(KeyCode::Enter) == named_key_name(NamedKey::Enter),
        key_code_name(KeyCode::Tab) == named_key_name(NamedKey::Tab),
        key_code_name(KeyCode::Space) == named_key_name(NamedKey::Space),
        key_code_name(KeyCode::Backspace) == named_key_name(NamedKey::Backspace),
        key_code_name(KeyCode::Escape) == named_key_name(NamedKey::Escape),
        key_code_name(KeyCode::Delete) == named_key_name(NamedKey::Delete),
        key_code_name(KeyCode::Insert) == named_key_name(NamedKey::Insert),
        key_code_name(KeyCode::Home) == named_key_name(NamedKey::Home),
        key_code_name(KeyCode::End) == named_key_name(NamedKey::End),
        key_code_name(KeyCode::PageUp) == named_key_name(NamedKey::PageUp),
        key_code_name(KeyCode::PageDown) == named_key_name(NamedKey::PageDown),
        key_code_name(KeyCode::ArrowUp) == named_key_name(NamedKey::ArrowUp),
        key_code_name(KeyCode::ArrowDown) == named_key_name(NamedKey::ArrowDown),
        key_code_name(KeyCode::ArrowLeft) == named_key_name(NamedKey::ArrowLeft),
        key_code_name(KeyCode::ArrowRight) == named_key_name(NamedKey::ArrowRight),
        key_code_name(KeyCode::F1) == named_key_name(NamedKey::F1),
        key_code_name(KeyCode::F2) == named_key_name(NamedKey::F2),
        key_code_name(KeyCode::F3) == named_key_name(NamedKey::F3),
        key_code_name(KeyCode::F4) == named_key_name(NamedKey::F4),
        key_code_name(KeyCode::F5) == named_key_name(NamedKey::F5),
        key_code_name(KeyCode::F6) == named_key_name(NamedKey::F6),
        key_code_name(KeyCode::F7) == named_key_name(NamedKey::F7),
        key_code_name(KeyCode::F8) == named_key_name(NamedKey::F8),
        key_code_name(KeyCode::F9) == named_key_name(NamedKey::F9),
        key_code_name(KeyCode::F10) == named_key_name(NamedKey::F10),
        key_code_name(KeyCode::F11) == named_key_name(NamedKey::F11),
        key_code_name(KeyCode::F12) == named_key_name(NamedKey::F12),
        key_code_name(KeyCode::NumpadEnter) == named_key_name(NamedKey::Enter),
{
}

/// The digits of the keypad are named `k` followed by the digit.
pub proof fn law_keypad_digit_names()
    ensures
        key_code_name(KeyCode::Numpad0) == Some(seq!['k', '0']),
        key_code_name(KeyCode::Numpad1) == Some(seq!['k', '1']),
        key_code_name(KeyCode::Numpad2) == Some(seq!['k', '2']),
        key_code_name(KeyCode::Numpad3) == Some(seq!['k', '3']),
        key_code_name(KeyCode::Numpad4) == Some(seq!['k', '4']),
        key_code_name(KeyCode::Numpad5) == Some(seq!['k', '5']),
        key_code_name(KeyCode::Numpad6) == Some(seq!['k', '6']),
        key_code_name(KeyCode::Numpad7) == Some(seq!['k', '7']),
        key_code_name(KeyCode::Numpad8) == Some(seq!['k', '8']),
        key_code_name(KeyCode::Numpad9) == Some(seq!['k', '9']),
{
    reveal_strlit("CR");
    reveal_strlit("Tab");
    reveal_strlit("Space");
    reveal_strlit("BS");
    reveal_strlit("Esc");
    reveal_strlit("Del");
    reveal_strlit("Insert");
    reveal_strlit("Home");
    reveal_strlit("End");
    reveal_strlit("PageUp");
    reveal_strlit("PageDown");
    reveal_strlit("Up");
    reveal_strlit("Down");
    reveal_strlit("Left");
    reveal_strlit("Right");
    reveal_strlit("F1");
    reveal_strlit("F2");
    reveal_strlit("F3");
    reveal_strlit("F4");
    reveal_strlit("F5");
    reveal_strlit("F6");
    reveal_strlit("F7");
    reveal_strlit("F8");
    reveal_strlit("F9");
    reveal_strlit("F10");
    reveal_strlit("F11");
    reveal_strlit("F12");
    reveal_strlit("k0");
    reveal_strlit("k1");
    reveal_strlit("k2");
    reveal_strlit("k3");
    reveal_strlit("k4");
    reveal_strlit("k5");
    reveal_strlit("k6");
    reveal_strlit("k7");
    reveal_strlit("k8");
    reveal_strlit("k9");
    reveal_strlit("kPlus");
    reveal_strlit("kMinus");
    reveal_strlit("kMultiply");
    reveal_strlit("kDivide");
    reveal_strlit("kPoint");
    reveal_strlit("Help");
    reveal_strlit("Undo");
}

/// Different physical keys get different names, but for the two Enter keys,
/// which Neovim does not tell apart.
pub proof fn law_key_codes_distinct(a: KeyCode, b: KeyCode)
    requires
        key_code_name(a) is Some,
        key_code_name(a) == key_code_name(b),
        !((a == KeyCode::Enter || a == KeyCode::NumpadEnter) && (b == KeyCode::Enter || b == KeyCode::NumpadEnter)),
    ensures
        a == b,
{
    reveal_strlit("CR");
    reveal_strlit("Tab");
    reveal_strlit("Space");
    reveal_strlit("BS");
    reveal_strlit("Esc");
    reveal_strlit("Del");
    reveal_strlit("Insert");
    reveal_strlit("Home");
    reveal_strlit("End");
    reveal_strlit("PageUp");
    reveal_strlit("PageDown");
    reveal_strlit("Up");
    reveal_strlit("Down");
    reveal_strlit("Left");
    reveal_strlit("Right");
    reveal_strlit("F1");
    reveal_strlit("F2");
    reveal_strlit("F3");
    reveal_strlit("F4");
    reveal_strlit("F5");
    reveal_strlit("F6");
    reveal_strlit("F7");
    reveal_strlit("F8");
    reveal_strlit("F9");
    reveal_strlit("F10");
    reveal_strlit("F11");
    reveal_strlit("F12");
    reveal_strlit("k0");
    reveal_strlit("k1");
    reveal_strlit("k2");
    reveal_strlit("k3");
    reveal_strlit("k4");
    reveal_strlit("k5");
    reveal_strlit("k6");
    reveal_strlit("k7");
    reveal_strlit("k8");
    reveal_strlit("k9");
    reveal_strlit("kPlus");
    reveal_strlit("kMinus");
    reveal_strlit("kMultiply");
    reveal_strlit("kDivide");
    reveal_strlit("kPoint");
    reveal_strlit("Help");
    reveal_strlit("Undo");
    let n = key_code_name(a)->0;
    assert(n.len() == key_code_name(b)->0.len());
    assert(n[0] == key_code_name(b)->0[0]);
    if n.len() > 1 {
        assert(n[1] == key_code_name(b)->0[1]);
    }
    if n.len() > 2 {
        assert(n[2] == key_code_name(b)->0[2]);
    }
}

/// A bracketed key is `<`, then one letter and a `-` for each modifier
/// that counts, in the order logo `D`, control `C`, alt `M`, shift `S`,
/// then the key's name whole, then `>`.
pub proof fn law_modifier_prefix_order(key: Seq<char>, m: Modifiers, is_special: bool)
    requires
        is_special || has_modifiers(m),
    ensures
        ({
            let f = formatted_key(key, m, is_special);
            let d: int = if m.logo { 1 } else { 0 };
            let c: int = if m.ctrl { 1 } else { 0 };
            let a: int = if m.alt { 1 } else { 0 };
            let s: int = if shift_relevant(m, is_special) { 1 } else { 0 };
            let p = 2 * (d + c + a + s);
            &&& f.len() == key.len() + p + 2
            &&& f[0] == '<' && f[f.len() - 1] == '>'
            &&& f.subrange(p + 1, p + 1 + key.len()) == key
            &&& m.logo ==> f[1] == 'D' && f[2] == '-'
            &&& m.ctrl ==> f[1 + 2 * d] == 'C' && f[2 + 2 * d] == '-'
            &&& m.alt ==> f[1 + 2 * (d + c)] == 'M' && f[2 + 2 * (d + c)] == '-'
            &&& shift_relevant(m, is_special) ==> f[1 + 2 * (d + c + a)] == 'S' && f[2 + 2 * (d + c + a)] == '-'
        }),
{
    reveal_strlit("<");
    reveal_strlit(">");
    reveal_strlit("D-");
    reveal_strlit("C-");
    reveal_strlit("M-");
    reveal_strlit("S-");
    let f = formatted_key(key, m, is_special);
    let pre = modifier_prefix(m, is_special);
    assert(f == "<"@ + pre + key + ">"@);
    let d: int = if m.logo { 1 } else { 0 };
    let c: int = if m.ctrl { 1 } else { 0 };
    let a: int = if m.alt { 1 } else { 0 };
    let p = 2 * (d + c + a + if shift_relevant(m, is_special) { 1int } else { 0 });
    assert(pre.len() == p);
    assert(f.subrange(p + 1, p + 1 + key.len()) =~= key);
}

/// The three characters that Neovim reads specially are spelled out: `<`
/// as `<lt>`, `\` as `<Bslash>`, `|` as `<Bar>`; every other text is kept.
pub proof fn law_escaped_characters(key: Seq<char>)
    ensures
        escaped(seq!['<']) == seq!['<', 'l', 't', '>'],
        escaped(seq!['\\']) == seq!['<', 'B', 's', 'l', 'a', 's', 'h', '>'],
        escaped(seq!['|']) == seq!['<', 'B', 'a', 'r', '>'],
        key != seq!['<'] && key != seq!['\\'] && key != seq!['|'] ==> escaped(key) == key,
{
    reveal_strlit("<lt>");
    reveal_strlit("<Bslash>");
    reveal_strlit("<Bar>");
    assert("<lt>"@ =~= seq!['<', 'l', 't', '>']);
    assert("<Bslash>"@ =~= seq!['<', 'B', 's', 'l', 'a', 's', 'h', '>']);
    assert("<Bar>"@ =~= seq!['<', 'B', 'a', 'r', '>']);
    assert(seq!['\\'][0] != seq!['<'][0]);
    assert(seq!['|'][0] != seq!['<'][0]);
    assert(seq!['|'][0] != seq!['\\'][0]);
}

} // verus!
