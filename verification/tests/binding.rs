use runemark::binding::{
    console_from_parts, parse_file_action, parse_tone, parse_verdict, progress_settings,
    render_context, render_diff, render_error, report_from_input, BindingError, JsConsoleOptions,
    JsDiffInput, JsErrorBlockInput, JsFileChange, JsFinding, JsFindingGroup, JsLocation, JsMetric,
    JsNextStep, JsProgressOptions, JsRenderOptions, JsReportInput, NativeConsole, NativeReport,
};
use runemark::{DetailLevel, FileAction, Location, ProgressMode, SymbolTheme, Tone, Verdict};

fn never() -> Option<JsConsoleOptions> {
    Some(JsConsoleOptions { color: Some("never".into()), symbols: None, is_terminal: None })
}

fn input(title: &str, verdict: &str) -> JsReportInput {
    JsReportInput {
        schema_version: None,
        title: title.into(),
        verdict: verdict.into(),
        metrics: None,
        groups: None,
        next_steps: None,
        detail_level: None,
        max_compact_samples: None,
    }
}

fn finding(message: &str) -> JsFinding {
    JsFinding {
        message: message.into(),
        tone: None,
        location: None,
        rule_id: None,
        remedy: None,
        confidence: None,
        badge: None,
    }
}

fn message(e: BindingError) -> String {
    e.message()
}

fn refuses(e: &BindingError, what: &str, value: &str) -> bool {
    matches!(e, BindingError::InvalidValue { kind, value: v } if kind == what && v == value)
}

#[test]
fn host_names_map_onto_tones_verdicts_and_actions() {
    assert_eq!(parse_tone("warning").unwrap(), Tone::Warning);
    assert_eq!(parse_verdict("action-required").unwrap(), Verdict::ActionRequired);
    assert_eq!(parse_file_action("renamed").unwrap(), FileAction::Renamed);
    assert_eq!(message(parse_tone("loud").unwrap_err()), "invalid tone: loud");
    assert!(refuses(&parse_verdict("Passed").unwrap_err(), "verdict", "Passed"));
}

#[test]
fn console_options_default_to_auto_and_may_name_a_theme() {
    let c = console_from_parts(&None, &None, true, true).unwrap();
    assert!(c.color_enabled());
    assert_eq!(c.symbol_theme(), SymbolTheme::Unicode);
    let c = console_from_parts(&Some("auto".into()), &Some("ascii".into()), true, false).unwrap();
    assert!(!c.color_enabled());
    assert_eq!(c.symbol_theme(), SymbolTheme::Ascii);
    let e = console_from_parts(&Some("sometimes".into()), &None, true, true).unwrap_err();
    assert_eq!(e.message(), "invalid color mode: sometimes");
    let e = console_from_parts(&None, &Some("emoji".into()), true, true).unwrap_err();
    assert_eq!(e.message(), "invalid symbol theme: emoji");
}

#[test]
fn a_native_console_paints_and_renders_verdicts() {
    let console = NativeConsole::new(never(), true, true).unwrap();
    assert_eq!(console.paint("error".into(), "x\x07".into()).unwrap(), "x^G");
    assert_eq!(console.render_verdict("passed".into(), "ok".into()).unwrap(), "[OK] ok");
    assert!(refuses(&console.render_verdict("fine".into(), "ok".into()).unwrap_err(), "verdict", "fine"));
}

#[test]
fn a_host_report_is_checked_and_built() {
    let mut report = input("Audit", "warning");
    report.metrics = Some(vec![JsMetric {
        key: "Issues".into(),
        value: "2".into(),
        tone: Some("warning".into()),
        trend: Some("positive".into()),
        delta: Some("+1".into()),
    }]);
    let mut f = finding("Broken link");
    f.rule_id = Some("links/broken".into());
    f.location = Some(JsLocation { kind: "file".into(), value: "a.md".into(), line: Some(3), column: None });
    f.confidence = Some("high".into());
    report.groups = Some(vec![JsFindingGroup {
        title: "Links".into(),
        findings: Some(vec![f]),
        total_count: Some(4),
        advisory: None,
    }]);
    report.next_steps = Some(vec![JsNextStep { text: "Fix".into(), command: Some("make fix".into()) }]);
    report.max_compact_samples = Some(1);
    let built = report_from_input(&report).unwrap();
    assert_eq!(built.title, "Audit");
    assert_eq!(built.detail_level, DetailLevel::Compact);
    assert_eq!(built.max_compact_samples, 1);
    assert_eq!(built.groups[0].total_count, 4);
    assert_eq!(built.groups[0].findings[0].location, Some(Location::file_line("a.md", 3)));
    let native = NativeReport::new(report).unwrap();
    let options = Some(JsRenderOptions { color: Some("never".into()), symbols: None, is_terminal: None, width: None });
    let shown = native.render(options, true, true).unwrap();
    assert!(shown.contains("  Issues: 2 (+1)\n"));
    assert!(shown.contains("* Links (4)\n  - Broken link [links/broken] (high confidence) at a.md:3\n  ... 3 more finding(s)"));
    assert!(shown.ends_with("Next steps:\n  - Fix\n    $ make fix\n"));
}

#[test]
fn a_host_report_is_refused_at_its_first_fault() {
    let mut report = input("Audit", "maybe");
    assert!(refuses(&report_from_input(&report).unwrap_err(), "verdict", "maybe"));
    report.detail_level = Some("verbose".into());
    assert_eq!(report_from_input(&report).unwrap_err().message(), "invalid detail level: verbose");
    let mut report = input("Audit", "info");
    let mut f = finding("x");
    f.badge = None;
    f.location = Some(JsLocation { kind: "ftp".into(), value: "x".into(), line: None, column: None });
    report.groups = Some(vec![JsFindingGroup { title: "G".into(), findings: Some(vec![f]), total_count: None, advisory: None }]);
    assert_eq!(report_from_input(&report).unwrap_err().message(), "invalid location kind: ftp");
    report.schema_version = Some(2);
    assert_eq!(
        report_from_input(&report).unwrap_err().message(),
        "unsupported ReportInput schemaVersion; expected 1"
    );
}

#[test]
fn host_error_blocks_and_diffs_render() {
    let block = JsErrorBlockInput {
        heading: "Broken".into(),
        explanation: None,
        remedy: Some("Retry".into()),
        commands: Some(vec!["make".into()]),
    };
    assert_eq!(render_error(block, never(), true, true).unwrap(), "[FAIL] Broken\n\n  Remedy: Retry\n\n  $ make\n");
    let diff = JsDiffInput {
        changes: vec![JsFileChange { action: "added".into(), path: "a.rs".into(), delta: None }],
    };
    assert_eq!(render_diff(diff, never(), true, true).unwrap(), "  + CREATE a.rs\n");
    let bad = JsDiffInput {
        changes: vec![JsFileChange { action: "moved".into(), path: "a.rs".into(), delta: None }],
    };
    assert_eq!(render_diff(bad, never(), true, true).unwrap_err().message(), "invalid file action: moved");
}

#[test]
fn render_and_progress_options_resolve_their_streams() {
    let (console, layout) = render_context(
        Some(JsRenderOptions { color: None, symbols: None, is_terminal: Some(false), width: Some(0) }),
        true,
        true,
    )
    .unwrap();
    assert!(!console.color_enabled());
    assert_eq!(layout.width(), None);
    let (console, mode, is_terminal) = progress_settings(
        Some(JsProgressOptions { color: Some("always".into()), symbols: None, is_terminal: None, mode: Some("never".into()) }),
        false,
        true,
        true,
    )
    .unwrap();
    assert!(console.color_enabled());
    assert_eq!(mode, ProgressMode::Never);
    assert!(is_terminal, "the run itself falls back on standard error");
    let e = progress_settings(
        Some(JsProgressOptions { color: None, symbols: None, is_terminal: None, mode: Some("fast".into()) }),
        false,
        false,
        true,
    )
    .unwrap_err();
    assert_eq!(e.message(), "invalid progress mode: fast");
}
