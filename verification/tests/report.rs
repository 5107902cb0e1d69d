use runemark::{
    Badge, ColorMode, Confidence, Console, DetailLevel, Finding, FindingGroup, Location, Metric,
    NextStep, RenderOptions, Report, ScopeNote, Tone, Trend, Verdict, Vocabulary,
};

fn plain() -> Console {
    Console::new(ColorMode::Never, false, true)
}

#[test]
fn report_compact_rendering() {
    let report = Report::new("Astro Post Audit", Verdict::Warning)
        .add_metric(Metric::new("Errors", "0"))
        .add_metric(Metric::new("Warnings", "2").with_tone(Tone::Warning))
        .add_group(
            FindingGroup::new("Performance Warnings")
                .add_finding(Finding::new(Tone::Warning, "Large image uncompressed")),
        );

    let output = report.render(plain());

    assert!(output.contains("[WARN] Astro Post Audit"));
    assert!(output.contains("Errors: 0"));
    assert!(output.contains("Warnings: 2"));
    assert!(output.contains("* Performance Warnings (1)"));
    assert!(output.contains("- Large image uncompressed"));
}

#[test]
fn report_writes_to_a_trait_object_writer() {
    let report = Report::new("Audit", Verdict::Passed);
    let mut output = String::new();

    report.write_to(plain(), &mut output);

    assert_eq!(output, "[OK] Audit\n\n");
}

#[test]
fn compact_report_counts_all_omitted_findings() {
    let report = Report::new("Audit", Verdict::Warning).add_group(
        FindingGroup::new("Warnings")
            .with_total_count(5)
            .add_finding(Finding::new(Tone::Warning, "One representative warning")),
    );

    let output = report.render(plain());

    assert!(output.contains("* Warnings (5)"));
    assert!(output.contains("... 4 more finding(s) (use --details to view all)"));
}

#[test]
fn compact_report_renders_aggregate_only_groups() {
    let report = Report::new("Audit", Verdict::Warning)
        .add_group(FindingGroup::new("Warnings").with_total_count(2));

    let output = report.render(plain());

    assert!(output.contains("* Warnings (2)"));
    assert!(output.contains("... 2 more finding(s) (use --details to view all)"));
}

#[test]
fn detailed_report_marks_findings_missing_from_the_report_data() {
    let report = Report::new("Audit", Verdict::Warning)
        .with_detail_level(DetailLevel::Detailed)
        .add_group(
            FindingGroup::new("Warnings")
                .with_total_count(2)
                .add_finding(Finding::new(Tone::Warning, "Representative warning")),
        );

    let output = report.render(plain());

    assert!(output.contains("- Representative warning"));
    assert!(output.contains("... 1 finding(s) not included in the report data"));
}

#[test]
fn narrow_layout_stacks_metrics() {
    let report = Report::new("Audit", Verdict::Warning)
        .add_metric(Metric::new("Errors", "0"))
        .add_metric(Metric::new("Warnings", "12"));

    let output = report.render_with_options(plain(), RenderOptions::new().with_width(20));

    assert!(output.contains("  Errors: 0\n  Warnings: 12\n"));
}

#[test]
fn narrow_layout_wraps_finding_messages_with_a_hanging_indent() {
    let report = Report::new("Audit", Verdict::Warning).add_group(
        FindingGroup::new("Warnings")
            .add_finding(Finding::new(Tone::Warning, "This message needs wrapping")),
    );

    let output = report.render_with_options(plain(), RenderOptions::new().with_width(20));

    assert!(output.contains("  - This message\n    needs wrapping"));
}

#[test]
fn narrow_layout_wraps_finding_metadata_with_a_hanging_indent() {
    let report = Report::new("Audit", Verdict::Warning).add_group(
        FindingGroup::new("Images").add_finding(
            Finding::new(Tone::Warning, "Image missing alt")
                .with_rule_id("a11y/img-alt")
                .with_confidence(Confidence::High)
                .with_location(Location::file_line_col("src/pages/index.astro", 42, 10)),
        ),
    );

    let output = report.render_with_options(plain(), RenderOptions::new().with_width(40));

    assert!(output.contains(
        "  - Image missing alt [a11y/img-alt]\n    (high confidence)\n    at src/pages/index.astro:42:10\n"
    ));
}

#[test]
fn top_issue_order_is_deterministic_for_equal_counts() {
    let report = Report::new("Audit", Verdict::Warning)
        .add_group(
            FindingGroup::new("Warnings")
                .add_finding(Finding::new(Tone::Warning, "Second").with_rule_id("z-rule"))
                .add_finding(Finding::new(Tone::Warning, "First").with_rule_id("a-rule")),
        )
        .add_group(FindingGroup::new("Other").with_total_count(18));

    let output = report.render(plain());

    assert!(output.find("a-rule").unwrap() < output.find("z-rule").unwrap());
}

#[test]
fn max_compact_samples_boundary_testing() {
    let make_report = |limit: usize| {
        let mut group = FindingGroup::new("Issues");
        for i in 0..5 {
            group = group.add_finding(Finding::new(Tone::Warning, &format!("Issue {i}")));
        }
        let mut r = Report::new("Audit", Verdict::Warning).add_group(group);
        r.max_compact_samples = limit;
        r
    };

    let console = plain();

    // Below count (4 of 5)
    let out_4 = make_report(4).render(console);
    assert!(out_4.contains("... 1 more finding(s) (use --details to view all)"));
    assert!(out_4.contains("- Issue 3"));
    assert!(!out_4.contains("- Issue 4"));

    // Exactly at count (5 of 5)
    let out_5 = make_report(5).render(console);
    assert!(!out_5.contains("more finding(s)"));
    assert!(out_5.contains("- Issue 4"));

    // Above count (6 of 5)
    let out_6 = make_report(6).render(console);
    assert!(!out_6.contains("more finding(s)"));
    assert!(out_6.contains("- Issue 4"));
}

#[test]
fn top_issues_threshold_boundary_testing() {
    let make_report = |count: usize| {
        let mut group = FindingGroup::new("Issues");
        for i in 0..count {
            group = group.add_finding(
                Finding::new(Tone::Warning, &format!("Issue {i}")).with_rule_id("common-rule"),
            );
        }
        Report::new("Audit", Verdict::Warning).add_group(group)
    };

    let console = plain();

    // 19 findings (below threshold 20) -> no top issues
    let out_19 = make_report(19).render(console);
    assert!(!out_19.contains("Top issue rules:"));

    // 20 findings (at threshold 20) -> top issues shown
    let out_20 = make_report(20).render(console);
    assert!(out_20.contains("Top issue rules:"));
    assert!(out_20.contains("common-rule"));

    // 21 findings (above threshold 20) -> top issues shown
    let out_21 = make_report(21).render(console);
    assert!(out_21.contains("Top issue rules:"));
}

#[test]
fn unicode_width_and_overlong_word_handling() {
    let console = plain();

    // CJK characters take 2 columns each
    let report = Report::new("Audit", Verdict::Info).add_group(
        FindingGroup::new("CJK").add_finding(Finding::new(Tone::Info, "你好世界测试")),
    );
    let out = report.render_with_options(console, RenderOptions::new().with_width(10));
    assert!(out.contains("你好世界测试") || out.contains("你好"));

    // Single overlong word exceeds available width without panic or infinite loop
    let long_word = "SupercalifragilisticexpialidociousAndEvenLongerThanTerminalWidth";
    let report_long = Report::new("Audit", Verdict::Warning).add_group(
        FindingGroup::new("Overlong").add_finding(Finding::new(Tone::Warning, long_word)),
    );
    let out_long = report_long.render_with_options(console, RenderOptions::new().with_width(20));
    assert!(out_long.contains(long_word));
}

#[test]
fn the_top_issue_list_counts_rules_and_keeps_the_five_most_frequent() {
    let mut group = FindingGroup::new("Issues");
    let rules = [
        ("r-a", 1), ("r-b", 6), ("r-c", 3), ("r-d", 3), ("r-e", 2), ("r-f", 6), ("r-g", 1),
    ];
    for (rule, n) in rules {
        for _ in 0..n {
            group = group.add_finding(Finding::new(Tone::Warning, "x").with_rule_id(rule));
        }
    }
    let output = Report::new("Audit", Verdict::Warning).add_group(group).render(plain());
    assert!(output.contains(
        "  Top issue rules:\n       6x  r-b\n       6x  r-f\n       3x  r-c\n       3x  r-d\n       2x  r-e\n\n"
    ));
    assert!(!output.contains("x  r-a"));
}

#[test]
fn a_report_header_lists_vocabulary_and_scope_notes() {
    let report = Report::new("Audit", Verdict::Info)
        .add_vocabulary(Vocabulary::DryRun)
        .add_vocabulary(Vocabulary::Baseline("main".into()))
        .add_vocabulary(Vocabulary::Truncated(50))
        .add_vocabulary(Vocabulary::EmptyState("Nothing to do".into()))
        .add_scope_note(ScopeNote::new("Scope", vec!["src".into(), "tests".into()]));
    assert_eq!(
        report.render(plain()),
        "[INFO] Audit\n  [DRY-RUN] • Baseline: main • Truncated at 50 • Nothing to do\n  Scope: src, tests\n\n"
    );
}

#[test]
fn a_detailed_finding_shows_its_remedy_and_badges_render_in_brackets() {
    let report = Report::new("Audit", Verdict::Failed)
        .with_detail_level(DetailLevel::Detailed)
        .add_group(
            FindingGroup::new("G").add_finding(
                Finding::new(Tone::Error, "Broken")
                    .with_badge(Badge::quick_win())
                    .with_remedy("Fix it"),
            ),
        );
    assert_eq!(
        report.render(plain()),
        "[FAIL] Audit\n\n* G (1)\n  - [QUICK WIN] Broken\n    Remedy: Fix it\n\n"
    );
    assert_eq!(Badge::gained().render(plain()), "[GAINED]");
    assert_eq!(Badge::lost().tone, Tone::Error);
}

#[test]
fn a_metric_delta_takes_the_trend_tone() {
    let colour = Console::new(ColorMode::Always, false, true);
    let report = Report::new("A", Verdict::Info)
        .add_metric(Metric::new("Speed", "1s").with_trend(Trend::Negative, "+2s"));
    let out = report.render(colour);
    assert!(out.contains("\x1b[2mSpeed: \x1b[0m\x1b[36m1s\x1b[0m \x1b[1;91m(+2s)\x1b[0m"));
}

#[test]
fn render_options_ignore_a_zero_width() {
    assert_eq!(RenderOptions::new().with_width(0).width(), None);
    assert_eq!(RenderOptions::new().with_width(30).width(), Some(30));
    assert_eq!(RenderOptions::default().width(), None);
    assert_eq!(Confidence::Low.label(), "low confidence");
}

#[test]
fn a_group_without_findings_or_count_is_left_out() {
    let report = Report::new("Audit", Verdict::Passed).add_group(FindingGroup::new("Empty"));
    assert_eq!(report.render(plain()), "[OK] Audit\n\n");
}

#[test]
fn next_steps_list_commands_under_their_text() {
    let report = Report::new("Audit", Verdict::Passed)
        .add_next_step(NextStep::new("Review").with_command("cargo test"));
    assert_eq!(
        report.render(plain()),
        "[OK] Audit\n\nNext steps:\n  - Review\n    $ cargo test\n"
    );
}

#[test]
fn a_report_links_file_locations_to_resolved_paths_with_colour() {
    let colour = Console::new(ColorMode::Always, false, true);
    let report = Report::new("A", Verdict::Info).add_group(
        FindingGroup::new("G")
            .add_finding(Finding::new(Tone::Info, "m").with_location(Location::file("x.rs"))),
    );
    let out = report.render_resolved(colour, RenderOptions::new(), &vec![vec!["/srv/x.rs".to_string()]]);
    assert!(out.contains("at \x1b]8;;file:///srv/x.rs\x1b\\\x1b[2mx.rs\x1b[0m\x1b]8;;\x1b\\\n"));
}
