use gui_nvim::config::{guifont_parts, PerformanceSettings, VsyncMode};

fn parts(g: &str) -> Option<(String, Option<String>)> {
    guifont_parts(g)
}

#[test]
fn config_default_vsync() {
    assert_eq!(VsyncMode::default(), VsyncMode::MailboxIfAvailable);
    assert_eq!(PerformanceSettings::default().vsync, VsyncMode::MailboxIfAvailable);
}

#[test]
fn config_guifont_simple() {
    assert_eq!(parts("Fira Code:h14"), Some(("Fira Code".to_string(), Some("14".to_string()))));
}

#[test]
fn config_guifont_escaped_space() {
    assert_eq!(parts("Fira\\ Code:h14"), Some(("Fira Code".to_string(), Some("14".to_string()))));
}

#[test]
fn config_guifont_multiple() {
    assert_eq!(parts("Fira Code:h14,Monospace:h12"), Some(("Fira Code".to_string(), Some("14".to_string()))));
}

#[test]
fn config_guifont_no_size_and_empty() {
    assert_eq!(parts("Fira Code"), Some(("Fira Code".to_string(), None)));
    assert_eq!(parts(""), None);
    // The size follows the last `:h`.
    assert_eq!(parts("A:hB:h9"), Some(("A:hB".to_string(), Some("9".to_string()))));
    assert_eq!(parts(",x"), Some((String::new(), None)));
}
