use gui_nvim::config::{Platform, VsyncMode};
use gui_nvim::renderer::context::{frame_latency, select_present_mode, PresentMode};
use gui_nvim::renderer::font::fallback::is_nerd_font_codepoint;

#[test]
fn test_nerd_font_codepoint_detection() {
    // Known Nerd Font codepoints
    assert!(is_nerd_font_codepoint(0xE000)); // Pomicons start
    assert!(is_nerd_font_codepoint(0xE0A0)); // Powerline
    assert!(is_nerd_font_codepoint(0xEF3E)); // Gap that was previously missed
    assert!(is_nerd_font_codepoint(0xF000)); // Font Awesome
    assert!(is_nerd_font_codepoint(0xF0001)); // Material Design (Supplementary PUA)
    assert!(is_nerd_font_codepoint(0xF8FF)); // End of BMP PUA

    // NOT Nerd Font codepoints
    assert!(!is_nerd_font_codepoint(0x0041)); // 'A'
    assert!(!is_nerd_font_codepoint(0x1F600)); // Emoji (not in PUA)
    assert!(!is_nerd_font_codepoint(0xDFFF)); // Before PUA
}

#[test]
fn nerd_font_supplementary_area_b_edges() {
    assert!(is_nerd_font_codepoint(0x100000));
    assert!(is_nerd_font_codepoint(0x10FFFD));
    assert!(!is_nerd_font_codepoint(0x10FFFE));
    assert!(!is_nerd_font_codepoint(0xFFFFE));
    assert!(!is_nerd_font_codepoint(0xF900));
}

#[test]
fn present_mode_follows_vsync_setting() {
    let offered = [PresentMode::Fifo, PresentMode::Immediate];
    assert_eq!(select_present_mode(&offered, VsyncMode::Enabled, Platform::Other), PresentMode::AutoVsync);
    assert_eq!(select_present_mode(&offered, VsyncMode::Disabled, Platform::Other), PresentMode::AutoNoVsync);
    assert_eq!(select_present_mode(&offered, VsyncMode::DisplayLink, Platform::Other), PresentMode::AutoVsync);
}

#[test]
fn present_mode_mailbox_only_where_offered() {
    let with_mailbox = [PresentMode::Fifo, PresentMode::Mailbox];
    let without = [PresentMode::Fifo, PresentMode::Immediate];
    assert_eq!(select_present_mode(&with_mailbox, VsyncMode::MailboxIfAvailable, Platform::Other), PresentMode::Mailbox);
    assert_eq!(select_present_mode(&without, VsyncMode::MailboxIfAvailable, Platform::Other), PresentMode::AutoVsync);
    assert_eq!(select_present_mode(&[], VsyncMode::MailboxIfAvailable, Platform::Other), PresentMode::AutoVsync);
}

#[test]
fn frame_latency_is_one_with_vsync() {
    assert_eq!(frame_latency(PresentMode::AutoVsync), 1);
    assert_eq!(frame_latency(PresentMode::Fifo), 1);
    assert_eq!(frame_latency(PresentMode::Mailbox), 1);
    assert_eq!(frame_latency(PresentMode::AutoNoVsync), 2);
    assert_eq!(frame_latency(PresentMode::Immediate), 2);
    assert_eq!(frame_latency(PresentMode::FifoRelaxed), 2);
}

#[test]
fn present_mode_display_link_on_macos_paces_itself() {
    let offered = [PresentMode::Fifo, PresentMode::Mailbox];
    assert_eq!(select_present_mode(&offered, VsyncMode::DisplayLink, Platform::MacOs), PresentMode::AutoNoVsync);
    assert_eq!(select_present_mode(&offered, VsyncMode::DisplayLink, Platform::Windows), PresentMode::AutoVsync);
    assert_eq!(select_present_mode(&offered, VsyncMode::MailboxIfAvailable, Platform::MacOs), PresentMode::Mailbox);
}

#[test]
fn vsync_default_per_platform() {
    assert_eq!(VsyncMode::default_for(Platform::MacOs), VsyncMode::DisplayLink);
    assert_eq!(VsyncMode::default_for(Platform::Windows), VsyncMode::MailboxIfAvailable);
    assert_eq!(VsyncMode::default_for(Platform::Other), VsyncMode::MailboxIfAvailable);
    assert_eq!(VsyncMode::default(), VsyncMode::MailboxIfAvailable);
}
