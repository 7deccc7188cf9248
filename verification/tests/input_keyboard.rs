use gui_nvim::input::keyboard::{
    escape_literal, format_with_modifiers, key_event_to_neovim, named_key_to_str, physical_keycode_to_str, Key,
    KeyCode, KeyEvent, Modifiers, NamedKey, PhysicalKey,
};

fn no_mods() -> Modifiers {
    Modifiers::default()
}

fn with_ctrl() -> Modifiers {
    Modifiers { ctrl: true, ..Default::default() }
}

fn with_alt() -> Modifiers {
    Modifiers {
        alt: true,
        ..Default::default()
    }
}

fn with_shift() -> Modifiers {
    Modifiers {
        shift: true,
        ..Default::default()
    }
}

fn with_logo() -> Modifiers {
    Modifiers {
        logo: true,
        ..Default::default()
    }
}

fn with_ctrl_shift() -> Modifiers {
    Modifiers {
        ctrl: true,
        shift: true,
        ..Default::default()
    }
}

#[test]
fn test_named_key_enter() {
    assert_eq!(named_key_to_str(NamedKey::Enter), Some("CR".to_string()));
}

#[test]
fn test_named_key_escape() {
    assert_eq!(named_key_to_str(NamedKey::Escape), Some("Esc".to_string()));
}

#[test]
fn test_named_key_tab() {
    assert_eq!(named_key_to_str(NamedKey::Tab), Some("Tab".to_string()));
}

#[test]
fn test_named_key_backspace() {
    assert_eq!(
        named_key_to_str(NamedKey::Backspace),
        Some("BS".to_string())
    );
}

#[test]
fn test_named_key_space() {
    assert_eq!(named_key_to_str(NamedKey::Space), Some("Space".to_string()));
}

#[test]
fn test_named_key_delete() {
    assert_eq!(named_key_to_str(NamedKey::Delete), Some("Del".to_string()));
}

#[test]
fn test_named_key_arrows() {
    assert_eq!(named_key_to_str(NamedKey::ArrowUp), Some("Up".to_string()));
    assert_eq!(
        named_key_to_str(NamedKey::ArrowDown),
        Some("Down".to_string())
    );
    assert_eq!(
        named_key_to_str(NamedKey::ArrowLeft),
        Some("Left".to_string())
    );
    assert_eq!(
        named_key_to_str(NamedKey::ArrowRight),
        Some("Right".to_string())
    );
}

#[test]
fn test_named_key_function_keys() {
    assert_eq!(named_key_to_str(NamedKey::F1), Some("F1".to_string()));
    assert_eq!(named_key_to_str(NamedKey::F12), Some("F12".to_string()));
}

#[test]
fn test_named_key_navigation() {
    assert_eq!(named_key_to_str(NamedKey::Home), Some("Home".to_string()));
    assert_eq!(named_key_to_str(NamedKey::End), Some("End".to_string()));
    assert_eq!(
        named_key_to_str(NamedKey::PageUp),
        Some("PageUp".to_string())
    );
    assert_eq!(
        named_key_to_str(NamedKey::PageDown),
        Some("PageDown".to_string())
    );
    assert_eq!(
        named_key_to_str(NamedKey::Insert),
        Some("Insert".to_string())
    );
}

#[test]
fn test_modifier_keys_return_none() {
    assert_eq!(named_key_to_str(NamedKey::Shift), None);
    assert_eq!(named_key_to_str(NamedKey::Control), None);
    assert_eq!(named_key_to_str(NamedKey::Alt), None);
    assert_eq!(named_key_to_str(NamedKey::Super), None);
}

#[test]
fn test_lock_keys_return_none() {
    assert_eq!(named_key_to_str(NamedKey::NumLock), None);
    assert_eq!(named_key_to_str(NamedKey::CapsLock), None);
    assert_eq!(named_key_to_str(NamedKey::ScrollLock), None);
}

#[test]
fn test_physical_keycode_numpad() {
    assert_eq!(
        physical_keycode_to_str(KeyCode::Numpad0),
        Some("k0".to_string())
    );
    assert_eq!(
        physical_keycode_to_str(KeyCode::Numpad9),
        Some("k9".to_string())
    );
    assert_eq!(
        physical_keycode_to_str(KeyCode::NumpadAdd),
        Some("kPlus".to_string())
    );
    assert_eq!(
        physical_keycode_to_str(KeyCode::NumpadSubtract),
        Some("kMinus".to_string())
    );
    assert_eq!(
        physical_keycode_to_str(KeyCode::NumpadMultiply),
        Some("kMultiply".to_string())
    );
    assert_eq!(
        physical_keycode_to_str(KeyCode::NumpadDivide),
        Some("kDivide".to_string())
    );
    assert_eq!(
        physical_keycode_to_str(KeyCode::NumpadDecimal),
        Some("kPoint".to_string())
    );
}

#[test]
fn test_format_regular_character() {
    assert_eq!(
        format_with_modifiers("a", &no_mods(), false),
        Some("a".to_string())
    );
}

#[test]
fn test_format_special_key_no_modifiers() {
    assert_eq!(
        format_with_modifiers("CR", &no_mods(), true),
        Some("<CR>".to_string())
    );
}

#[test]
fn test_format_with_ctrl() {
    assert_eq!(
        format_with_modifiers("a", &with_ctrl(), false),
        Some("<C-a>".to_string())
    );
}

#[test]
fn test_format_with_alt() {
    assert_eq!(
        format_with_modifiers("a", &with_alt(), false),
        Some("<M-a>".to_string())
    );
}

#[test]
fn test_format_with_logo() {
    assert_eq!(
        format_with_modifiers("a", &with_logo(), false),
        Some("<D-a>".to_string())
    );
}

#[test]
fn test_format_special_key_with_shift() {
    assert_eq!(
        format_with_modifiers("Tab", &with_shift(), true),
        Some("<S-Tab>".to_string())
    );
}

#[test]
fn test_format_regular_char_shift_ignored() {
    // Shift on regular chars is usually handled by the key text (a -> A)
    assert_eq!(
        format_with_modifiers("A", &with_shift(), false),
        Some("A".to_string())
    );
}

#[test]
fn test_format_with_ctrl_shift() {
    assert_eq!(
        format_with_modifiers("a", &with_ctrl_shift(), false),
        Some("<C-S-a>".to_string())
    );
}

#[test]
fn test_format_multiple_modifiers() {
    let mods = Modifiers {
        ctrl: true,
        alt: true,
        shift: true,
        logo: true,
    };
    assert_eq!(
        format_with_modifiers("a", &mods, false),
        Some("<D-C-M-S-a>".to_string())
    );
}

#[test]
fn test_escape_less_than() {
    assert_eq!(escape_literal("<"), "<lt>".to_string());
}

#[test]
fn test_escape_backslash() {
    assert_eq!(escape_literal("\\"), "<Bslash>".to_string());
}

#[test]
fn test_escape_bar() {
    assert_eq!(escape_literal("|"), "<Bar>".to_string());
}

#[test]
fn test_escape_regular_char() {
    assert_eq!(escape_literal("a"), "a".to_string());
}

#[test]
fn test_modifiers_default() {
    let mods = Modifiers::default();
    assert!(!mods.ctrl);
    assert!(!mods.alt);
    assert!(!mods.shift);
    assert!(!mods.logo);
}

fn press(key: Key) -> KeyEvent {
    KeyEvent { pressed: true, logical_key: key, physical_key: PhysicalKey::Unidentified }
}

#[test]
fn keyboard_event_translation() {
    assert_eq!(key_event_to_neovim(&press(Key::Named(NamedKey::Enter)), &no_mods()), Some("<CR>".to_string()));
    assert_eq!(key_event_to_neovim(&press(Key::Character("a".to_string())), &with_ctrl()), Some("<C-a>".to_string()));
    assert_eq!(key_event_to_neovim(&press(Key::Character("<".to_string())), &no_mods()), Some("<lt>".to_string()));
    // Control characters, dead keys, modifier keys and releases send nothing.
    assert_eq!(key_event_to_neovim(&press(Key::Character("\u{1b}".to_string())), &no_mods()), None);
    assert_eq!(key_event_to_neovim(&press(Key::Dead), &no_mods()), None);
    assert_eq!(key_event_to_neovim(&press(Key::Named(NamedKey::Shift)), &with_shift()), None);
    let released = KeyEvent { pressed: false, logical_key: Key::Named(NamedKey::Enter), physical_key: PhysicalKey::Unidentified };
    assert_eq!(key_event_to_neovim(&released, &no_mods()), None);
    // A key the layout does not identify is named by its position.
    let numpad = KeyEvent { pressed: true, logical_key: Key::Unidentified, physical_key: PhysicalKey::Code(KeyCode::Numpad5) };
    assert_eq!(key_event_to_neovim(&numpad, &with_shift()), Some("<S-k5>".to_string()));
    let unknown = KeyEvent { pressed: true, logical_key: Key::Unidentified, physical_key: PhysicalKey::Code(KeyCode::Other) };
    assert_eq!(key_event_to_neovim(&unknown, &no_mods()), None);
}

#[test]
fn keyboard_escape_with_modifiers_and_multichar() {
    assert_eq!(format_with_modifiers("|", &no_mods(), false), Some("<Bar>".to_string()));
    assert_eq!(format_with_modifiers("ab", &no_mods(), false), Some("ab".to_string()));
    assert_eq!(format_with_modifiers("F5", &with_alt(), true), Some("<M-F5>".to_string()));
    assert_eq!(escape_literal("<<"), "<<".to_string());
}
