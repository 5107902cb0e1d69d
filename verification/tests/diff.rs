use runemark::{ColorMode, Console, DiffBlock, FileAction, FileChange, SymbolTheme, Tone};

#[test]
fn diff_block_rendering() {
    let diff = DiffBlock::new()
        .add_change(
            FileChange::new(FileAction::Added, "src/components/Header.tsx").with_delta("+1.4 kB"),
        )
        .add_change(FileChange::new(FileAction::Modified, "src/App.tsx"));

    let console = Console::new(ColorMode::Never, false, true);
    let output = diff.render(console);

    assert!(output.contains("+ CREATE src/components/Header.tsx (+1.4 kB)"));
    assert!(output.contains("~ UPDATE src/App.tsx"));
}

#[test]
fn diff_uses_ascii_rename_marker_for_plain_output() {
    let diff = DiffBlock::new().add_change(FileChange::new(FileAction::Renamed, "src/new.rs"));
    let console = Console::new(ColorMode::Never, false, true);

    assert_eq!(diff.render(console), "  -> RENAME src/new.rs\n");
}

#[test]
fn file_actions_have_markers_tones_and_labels() {
    assert_eq!(FileAction::Renamed.symbol(SymbolTheme::Unicode), "→");
    assert_eq!(FileAction::Deleted.symbol(SymbolTheme::Ascii), "-");
    assert_eq!(FileAction::Deleted.tone(), Tone::Error);
    assert_eq!(FileAction::Modified.label(), "UPDATE");
}

#[test]
fn an_empty_diff_renders_nothing() {
    let console = Console::new(ColorMode::Never, false, true);
    assert_eq!(DiffBlock::new().render(console), "");
}

#[test]
fn a_coloured_diff_paints_marker_label_and_delta() {
    let console = Console::new(ColorMode::Always, false, true);
    let diff = DiffBlock::new()
        .add_change(FileChange::new(FileAction::Added, "a.rs").with_delta("+1"));
    assert_eq!(
        diff.render(console),
        "  \x1b[1;92m+\x1b[0m \x1b[1;92mCREATE\x1b[0m a.rs\x1b[2m (+1)\x1b[0m\n"
    );
}
