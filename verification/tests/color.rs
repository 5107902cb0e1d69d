use runemark::color::sanitize_visible_text;
use runemark::{ColorMode, Console, SymbolTheme, Tone};

#[test]
fn color_mode_auto_honours_no_color() {
    assert!(!ColorMode::Auto.enabled_with(true, false));
    assert!(ColorMode::Auto.enabled_with(true, true));
}

#[test]
fn color_mode_always_and_never_ignore_the_stream() {
    assert!(ColorMode::Always.enabled_with(false, true));
    assert!(ColorMode::Always.enabled_with(false, false));
    assert!(!ColorMode::Never.enabled_with(true, true));
    assert!(!ColorMode::Auto.enabled_with(false, true));
}

#[test]
fn console_disabled_color_falls_back_to_ascii_theme() {
    let console = Console::new(ColorMode::Never, true, true);
    assert!(!console.color_enabled());
    assert_eq!(console.symbol_theme(), SymbolTheme::Ascii);
}

#[test]
fn console_enabled_color_defaults_to_unicode_theme() {
    let console = Console::new(ColorMode::Always, false, true);
    assert!(console.color_enabled());
    assert_eq!(console.symbol_theme(), SymbolTheme::Unicode);
}

#[test]
fn with_theme_overrides_the_default_theme() {
    let console = Console::new(ColorMode::Always, false, true).with_theme(SymbolTheme::Ascii);
    assert_eq!(console.symbol_theme(), SymbolTheme::Ascii);
}

#[test]
fn paint_returns_plain_text_when_color_is_disabled() {
    let console = Console::new(ColorMode::Never, false, true);
    assert_eq!(console.paint(Tone::Error, "boom"), "boom");
}

#[test]
fn paint_wraps_the_value_in_ansi_codes_when_color_is_enabled() {
    let console = Console::new(ColorMode::Always, false, true);
    assert_eq!(console.paint(Tone::Error, "boom"), "\x1b[1;91mboom\x1b[0m");
}

#[test]
fn paint_neutralizes_embedded_escape_sequences() {
    let console = Console::new(ColorMode::Never, false, true);
    let malicious = "\x1b[32mFake Green\x1b[0m\x07\x7f";
    assert_eq!(
        console.paint(Tone::Info, malicious),
        "^[[32mFake Green^[[0m^G^?"
    );
}

#[test]
fn paint_preserves_newlines_and_tabs_but_neutralizes_carriage_returns() {
    let console = Console::new(ColorMode::Never, false, true);
    let formatted = "Line 1\n\tIndented Line 2\r\nDone";
    assert_eq!(
        console.paint(Tone::Info, formatted),
        "Line 1\n\tIndented Line 2^M\nDone"
    );
}

#[test]
fn every_tone_has_its_own_style() {
    let console = Console::new(ColorMode::Always, false, true);
    assert_eq!(console.paint(Tone::Title, "x"), "\x1b[1;96mx\x1b[0m");
    assert_eq!(console.paint(Tone::Muted, "x"), "\x1b[2mx\x1b[0m");
    assert_eq!(console.paint(Tone::Info, "x"), "\x1b[36mx\x1b[0m");
    assert_eq!(console.paint(Tone::Success, "x"), "\x1b[1;92mx\x1b[0m");
    assert_eq!(console.paint(Tone::Warning, "x"), "\x1b[1;93mx\x1b[0m");
}

#[test]
fn c1_controls_are_dropped_and_sanitizing_twice_changes_nothing() {
    let once = sanitize_visible_text("a\u{9b}b\u{1b}c");
    assert_eq!(once, "ab^[c");
    assert_eq!(sanitize_visible_text(&once), once);
}

#[test]
fn a_colour_mode_defaults_to_auto() {
    assert_eq!(ColorMode::default(), ColorMode::Auto);
    assert_eq!(SymbolTheme::default(), SymbolTheme::Unicode);
}
