use runemark::progress::{select_backend, ProgressBackend};
use runemark::{ColorMode, Console, PlainProgress, ProgressMode, ProgressSink, SilentProgress, Tone, Verdict};

#[test]
fn plain_progress_emits_bounded_lifecycle_lines() {
    let mut progress = PlainProgress::new(Console::new(ColorMode::Never, false, true), Vec::new());

    progress.start(4, "Auditing URLs");
    progress.advance(1, "https://example.com");
    progress.notice(Tone::Warning, "One URL failed");
    progress.finish(Verdict::Warning, "Audit complete");

    assert_eq!(
        String::from_utf8(progress.into_inner()).unwrap(),
        "Auditing URLs (0/4)\nOne URL failed\n[WARN] Audit complete\n"
    );
}

#[test]
fn progress_auto_mode_is_interactive_only_for_terminals() {
    assert!(ProgressMode::Auto.is_interactive(true));
    assert!(!ProgressMode::Auto.is_interactive(false));
    assert!(ProgressMode::Always.is_interactive(false));
}

#[test]
fn never_mode_is_silent_and_auto_follows_the_stream() {
    assert_eq!(select_backend(ProgressMode::Never, true), ProgressBackend::Silent);
    assert_eq!(select_backend(ProgressMode::Auto, true), ProgressBackend::Interactive);
    assert_eq!(select_backend(ProgressMode::Auto, false), ProgressBackend::Plain);
    assert_eq!(select_backend(ProgressMode::Always, false), ProgressBackend::Interactive);
    assert_eq!(ProgressMode::default(), ProgressMode::Auto);
}

#[test]
fn plain_progress_keeps_what_the_buffer_held_and_counts_in_decimal() {
    let mut progress = PlainProgress::new(Console::new(ColorMode::Never, false, true), b"> ".to_vec());
    progress.start(1024, "Sync");
    assert_eq!(String::from_utf8(progress.into_inner()).unwrap(), "> Sync (0/1024)\n");
}

#[test]
fn a_silent_sink_accepts_every_event() {
    let mut sink = SilentProgress;
    sink.start(1, "x");
    sink.advance(1, "x");
    sink.notice(Tone::Info, "x");
    sink.finish(Verdict::Passed, "x");
}

#[test]
fn plain_progress_start_line_neutralises_the_message() {
    let mut progress = PlainProgress::new(Console::new(ColorMode::Always, true, true), Vec::new());
    progress.start(2, "\x1b[31mRed\x07\r");
    assert_eq!(String::from_utf8(progress.into_inner()).unwrap(), "^[[31mRed^G^M (0/2)\n");
}
