use runemark::{ColorMode, Console, SymbolTheme, Tone, Verdict};

#[test]
fn verdict_ascii_rendering() {
    let console = Console::new(ColorMode::Never, false, true).with_theme(SymbolTheme::Ascii);
    assert_eq!(
        Verdict::Passed.render(console, "All checks green"),
        "[OK] All checks green"
    );
    assert_eq!(
        Verdict::Failed.render(console, "2 errors found"),
        "[FAIL] 2 errors found"
    );
}

#[test]
fn verdict_unicode_symbols_and_labels() {
    assert_eq!(Verdict::Passed.symbol(SymbolTheme::Unicode), "✔");
    assert_eq!(Verdict::Warning.symbol(SymbolTheme::Unicode), "⚠");
    assert_eq!(Verdict::Failed.symbol(SymbolTheme::Unicode), "✖");
    assert_eq!(Verdict::ActionRequired.symbol(SymbolTheme::Unicode), "➜");
    assert_eq!(Verdict::Skipped.symbol(SymbolTheme::Unicode), "⊝");
    assert_eq!(Verdict::Info.symbol(SymbolTheme::Unicode), "ℹ");
    assert_eq!(Verdict::ActionRequired.label(), "ACTION REQUIRED");
    assert_eq!(Verdict::Skipped.tone(), Tone::Muted);
}

#[test]
fn a_coloured_verdict_paints_only_its_symbol() {
    let console = Console::new(ColorMode::Always, false, true);
    assert_eq!(
        Verdict::Passed.render(console, "done"),
        "\x1b[1;92m✔\x1b[0m done"
    );
}

#[test]
fn verdict_write_to_appends() {
    let console = Console::new(ColorMode::Never, false, true);
    let mut out = String::from("> ");
    Verdict::Info.write_to(console, "note", &mut out);
    assert_eq!(out, "> [INFO] note");
}
