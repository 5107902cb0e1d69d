use runemark::location::{is_allowed_url_scheme, is_safe_osc8_target, link_target};
use runemark::{format_osc8, ColorMode, Console, Location};

#[test]
fn location_plain_formatting() {
    let loc = Location::file_line_col("src/main.rs", 12, 4);
    assert_eq!(loc.to_plain_string(), "src/main.rs:12:4");
}

#[test]
fn location_osc8_rendering() {
    let loc = Location::Url("https://example.com".into());
    let console = Console::new(ColorMode::Always, false, true);
    let rendered = loc.render(console);
    assert!(rendered.contains("\x1b]8;;https://example.com\x1b\\"));
}

#[test]
fn file_location_osc8_rendering_uses_an_absolute_encoded_url() {
    let loc = Location::file_line("a path#with special.rs", 12);
    let console = Console::new(ColorMode::Always, false, true);
    let rendered = loc.render(console);

    assert!(rendered.contains("\x1b]8;;file:///"));
    assert!(rendered.contains("a%20path%23with%20special.rs#12\x1b\\"));
}

#[test]
fn location_url_rejects_disallowed_schemes() {
    let loc = Location::Url("javascript:alert(1)".into());
    let console = Console::new(ColorMode::Always, false, true);
    let rendered = loc.render(console);
    assert!(!rendered.contains("\x1b]8;;"));
    assert!(rendered.contains("javascript:alert(1)"));
}

#[test]
fn location_url_rejects_embedded_escape_characters() {
    let loc = Location::Url("https://example.com/\x1b]8;;\x07evil".into());
    let console = Console::new(ColorMode::Always, false, true);
    let rendered = loc.render(console);
    assert!(!rendered.contains("\x1b]8;;https://"));
}

#[test]
fn format_osc8_suppresses_unsafe_target() {
    let text = "click here";
    assert_eq!(
        format_osc8("https://safe.com", text),
        "\x1b]8;;https://safe.com\x1b\\click here\x1b]8;;\x1b\\"
    );
    assert_eq!(format_osc8("https://evil.com\x07echo", text), text);
    assert_eq!(format_osc8("https://evil.com\x1b\\pwn", text), text);
}

#[test]
fn plain_locations_and_public_osc8_text_neutralize_control_characters() {
    let loc = Location::Url("https://example.com/\x1b[31m\rspoof".into());
    assert_eq!(
        loc.render(Console::new(ColorMode::Never, false, true)),
        "https://example.com/^[[31m^Mspoof"
    );

    let rendered = format_osc8("https://example.com", "safe\x1b[31m\rtext");
    assert!(rendered.contains("safe^[[31m^Mtext"));
    assert!(!rendered.contains("safe\x1b[31m"));
}

#[test]
fn url_schemes_are_matched_without_regard_to_case() {
    assert!(is_allowed_url_scheme("HTTPS://example.com"));
    assert!(is_allowed_url_scheme("http://x"));
    assert!(!is_allowed_url_scheme("https:/x"));
    assert!(!is_allowed_url_scheme("file:///etc"));
    assert!(!is_safe_osc8_target(""));
    assert!(!is_safe_osc8_target("https://a\u{9b}b"));
    assert!(is_safe_osc8_target("https://a b"));
}

#[test]
fn selectors_and_artifacts_render_styled_without_a_link() {
    let console = Console::new(ColorMode::Always, false, true);
    assert_eq!(
        Location::Selector(".btn".into()).render(console),
        "\x1b[36m`.btn`\x1b[0m"
    );
    assert_eq!(
        Location::Artifact("dist/a.js".into()).render(console),
        "\x1b[1;92mdist/a.js\x1b[0m"
    );
}

#[test]
fn a_resolved_file_location_links_to_the_given_path() {
    let console = Console::new(ColorMode::Always, false, true);
    let loc = Location::file_line_col("src\\lib.rs", 3, 7);
    assert_eq!(
        loc.render_resolved(console, "C:\\work\\src\\lib.rs"),
        "\x1b]8;;file:///C:/work/src/lib.rs#3:7\x1b\\\x1b[2msrc\\lib.rs:3:7\x1b[0m\x1b]8;;\x1b\\"
    );
}

#[test]
fn link_target_prefers_the_canonical_path_then_the_path_then_the_joined_one() {
    assert_eq!(link_target("a.rs", Some("/src/a.rs".to_string()), false, Some("/cwd/a.rs".to_string())), "/src/a.rs");
    assert_eq!(link_target("/abs/a.rs", None, true, Some("/cwd/a.rs".to_string())), "/abs/a.rs");
    assert_eq!(link_target("a.rs", None, false, Some("/cwd/a.rs".to_string())), "/cwd/a.rs");
    assert_eq!(link_target("a.rs", None, false, None), "a.rs");
}

#[test]
fn a_missing_relative_file_links_to_the_current_directory() {
    let loc = Location::file("no-such-dir-for-runemark/x.rs");
    let rendered = loc.render(Console::new(ColorMode::Always, false, true));
    assert!(rendered.contains("\x1b]8;;file:///"));
    assert!(rendered.contains("no-such-dir-for-runemark/x.rs\x1b\\"));
}
