use runemark::testing::strip_ansi;
use runemark::{ColorMode, Console, Location, Tone};

#[test]
fn test_strip_ansi_colors() {
    let colored = "\x1b[31mError\x1b[0m occurred";
    assert_eq!(strip_ansi(colored), "Error occurred");
}

#[test]
fn test_strip_ansi_osc8_hyperlinks() {
    let linked = "\x1b]8;;https://example.com\x1b\\\x1b[36mexample\x1b[0m\x1b]8;;\x1b\\";
    assert_eq!(strip_ansi(linked), "example");
}

#[test]
fn stripping_a_painted_span_gives_its_plain_form() {
    let colour = Console::new(ColorMode::Always, false, true);
    let plain = Console::new(ColorMode::Never, false, true);
    for tone in [Tone::Title, Tone::Muted, Tone::Info, Tone::Success, Tone::Warning, Tone::Error] {
        let text = "risky\x1b[2J text";
        assert_eq!(strip_ansi(&colour.paint(tone, text)), plain.paint(tone, text));
    }
}

#[test]
fn stripping_leaves_plain_text_alone() {
    assert_eq!(strip_ansi("plain [text] m"), "plain [text] m");
    assert_eq!(strip_ansi("\x1b"), "\x1b");
}

#[test]
fn a_stripped_url_location_reads_as_its_plain_form() {
    let colour = Console::new(ColorMode::Always, false, true);
    let loc = Location::Url("https://example.com/a".into());
    assert_eq!(strip_ansi(&loc.render(colour)), loc.to_plain_string());
}
