//! Decision-oriented report data model: metrics, findings, groups, and next steps.

use vstd::prelude::*;
use crate::color::{Console, Tone, painted};
use crate::location::Location;
use crate::text::{owned, push_char, push_str};
use crate::verdict::Verdict;

verus! {

/// Render detail mode for reports.
#[derive(Debug, Clone, Copy, PartialEq, Eq, Structural)]
#[non_exhaustive]
pub enum DetailLevel {
    /// Compact summary with aggregated counts and bounded finding samples.
    Compact,
    /// Full detail view for every finding provided by the report data, with
    /// locations, rule IDs, and remedies.
    Detailed,
}

impl Default for DetailLevel {
    fn default() -> (d: Self)
        ensures
            d == DetailLevel::Compact,
    {
        DetailLevel::Compact
    }
}

/// Host-provided layout constraints for rendering a report.
///
/// Runemark deliberately does not inspect the terminal size itself. Applications
/// can pass a known width for an interactive terminal or a deterministic width
/// for tests and redirected output.
#[derive(Debug, Clone, Copy, PartialEq, Eq, Structural)]
#[non_exhaustive]
pub struct RenderOptions {
    width: Option<usize>,
}

impl Default for RenderOptions {
    fn default() -> (o: Self)
        ensures
            o.spec_width() is None,
    {
        RenderOptions { width: None }
    }
}

impl RenderOptions {
    /// The configured width, if any.
    pub closed spec fn spec_width(self) -> Option<usize> {
        self.width
    }

    /// Creates unconstrained rendering options.
    pub fn new() -> (o: Self)
        ensures
            o.spec_width() is None,
    {
        RenderOptions { width: None }
    }

    /// Uses the available terminal width for adaptive report layout.
    ///
    /// A width of zero is ignored because no usable terminal layout can be
    /// derived from it.
    pub fn with_width(self, width: usize) -> (o: Self)
        ensures
            o.spec_width() == (if width > 0 { Some(width) } else { None::<usize> }),
    {
        RenderOptions { width: if width > 0 { Some(width) } else { None } }
    }

    /// Returns the configured terminal width, if any.
    pub fn width(self) -> (w: Option<usize>)
        ensures
            w == self.spec_width(),
    {
        self.width
    }
}

/// Confidence level of an audit finding or diagnostic check.
#[derive(Debug, Clone, Copy, PartialEq, Eq, Structural)]
#[non_exhaustive]
pub enum Confidence {
    High,
    Medium,
    Low,
}

/// The label of a confidence level.
pub open spec fn confidence_label(c: Confidence) -> Seq<char> {
    match c {
        Confidence::High => "high confidence"@,
        Confidence::Medium => "medium confidence"@,
        Confidence::Low => "low confidence"@,
    }
}

/// Each confidence level is reported under its own name: no two levels
/// share a label, and each label is the level's name, `high`, `medium` or
/// `low`, followed by ` confidence`.
pub proof fn law_confidence_labels_name_their_level(a: Confidence, b: Confidence)
    ensures
        confidence_label(a) == confidence_label(b) ==> a == b,
        confidence_label(a) == (match a {
            Confidence::High => "high"@,
            Confidence::Medium => "medium"@,
            Confidence::Low => "low"@,
        }) + " confidence"@,
{
    reveal_strlit("high confidence");
    reveal_strlit("medium confidence");
    reveal_strlit("low confidence");
    reveal_strlit("high");
    reveal_strlit("medium");
    reveal_strlit("low");
    reveal_strlit(" confidence");
    assert("high confidence"@[0] == 'h');
    assert("medium confidence"@[0] == 'm');
    assert("low confidence"@[0] == 'l');
    assert(confidence_label(a) =~= (match a {
        Confidence::High => "high"@,
        Confidence::Medium => "medium"@,
        Confidence::Low => "low"@,
    }) + " confidence"@);
}

impl Confidence {
    /// The label of this confidence level, e.g. `high confidence`.
    pub fn label(self) -> (s: &'static str)
        ensures
            s@ == confidence_label(self),
    {
        match self {
            Confidence::High => "high confidence",
            Confidence::Medium => "medium confidence",
            Confidence::Low => "low confidence",
        }
    }
}

/// Trend direction for metrics and performance deltas.
#[derive(Debug, Clone, Copy, PartialEq, Eq, Structural)]
#[non_exhaustive]
pub enum Trend {
    Positive,
    Negative,
    Neutral,
}

/// A status badge tag for findings, KPIs, or changes (e.g. `[QUICK WIN]`, `[GAINED]`).
#[derive(Debug, Clone, PartialEq, Eq)]
#[non_exhaustive]
pub struct Badge {
    pub label: String,
    pub tone: Tone,
}

/// A badge's text: its label in square brackets.
pub open spec fn badge_text(label: Seq<char>) -> Seq<char> {
    seq!['['] + label + seq![']']
}

impl Badge {
    /// Creates a badge.
    pub fn new(label: &str, tone: Tone) -> (b: Self)
        ensures
            b.label@ == label@,
            b.tone == tone,
    {
        Badge { label: owned(label), tone }
    }

    /// The `QUICK WIN` badge.
    pub fn quick_win() -> (b: Self)
        ensures
            b.label@ == "QUICK WIN"@,
            b.tone == Tone::Success,
    {
        Badge::new("QUICK WIN", Tone::Success)
    }

    /// The `GAINED` badge.
    pub fn gained() -> (b: Self)
        ensures
            b.label@ == "GAINED"@,
            b.tone == Tone::Success,
    {
        Badge::new("GAINED", Tone::Success)
    }

    /// The `LOST` badge.
    pub fn lost() -> (b: Self)
        ensures
            b.label@ == "LOST"@,
            b.tone == Tone::Error,
    {
        Badge::new("LOST", Tone::Error)
    }

    /// The badge painted in its tone, e.g. `[critical]`.
    pub fn render(&self, console: Console) -> (s: String)
        ensures
            s@ == painted(console.spec_color(), self.tone, badge_text(self.label@)),
    {
        let mut t = String::new();
        push_char(&mut t, '[');
        push_str(&mut t, self.label.as_str());
        push_char(&mut t, ']');
        assert(t@ =~= badge_text(self.label@));
        console.paint(self.tone, t.as_str())
    }
}

/// A key-value metric item with optional trend and threshold coloring.
#[derive(Debug, Clone, PartialEq, Eq)]
#[non_exhaustive]
pub struct Metric {
    pub key: String,
    pub value: String,
    pub tone: Option<Tone>,
    pub trend: Option<Trend>,
    pub delta: Option<String>,
}

impl Metric {
    /// Creates a new metric pair.
    pub fn new(key: &str, value: &str) -> (m: Self)
        ensures
            m.key@ == key@,
            m.value@ == value@,
            m.tone is None,
            m.trend is None,
            m.delta is None,
    {
        Metric { key: owned(key), value: owned(value), tone: None, trend: None, delta: None }
    }

    /// Sets the semantic tone for this metric.
    pub fn with_tone(self, tone: Tone) -> (m: Self)
        ensures
            m.key == self.key,
            m.value == self.value,
            m.tone == Some(tone),
            m.trend == self.trend,
            m.delta == self.delta,
    {
        Metric { tone: Some(tone), ..self }
    }

    /// Attaches a trend direction and delta string (e.g. `+14.2%`).
    pub fn with_trend(self, trend: Trend, delta: &str) -> (m: Self)
        ensures
            m.key == self.key,
            m.value == self.value,
            m.tone == self.tone,
            m.trend == Some(trend),
            m.delta matches Some(d) && d@ == delta@,
    {
        Metric { trend: Some(trend), delta: Some(owned(delta)), ..self }
    }
}

/// An individual finding entry within a report.
#[derive(Debug, Clone, PartialEq, Eq)]
#[non_exhaustive]
pub struct Finding {
    pub message: String,
    pub tone: Tone,
    pub location: Option<Location>,
    pub rule_id: Option<String>,
    pub remedy: Option<String>,
    pub confidence: Option<Confidence>,
    pub badge: Option<Badge>,
}

impl Finding {
    /// Creates a basic finding.
    pub fn new(tone: Tone, message: &str) -> (f: Self)
        ensures
            f.message@ == message@,
            f.tone == tone,
            f.location is None,
            f.rule_id is None,
            f.remedy is None,
            f.confidence is None,
            f.badge is None,
    {
        Finding {
            message: owned(message),
            tone,
            location: None,
            rule_id: None,
            remedy: None,
            confidence: None,
            badge: None,
        }
    }

    /// Attaches a location to this finding.
    pub fn with_location(self, location: Location) -> (f: Self)
        ensures
            f == (Finding { location: Some(location), ..self }),
    {
        Finding { location: Some(location), ..self }
    }

    /// Attaches a rule identifier.
    pub fn with_rule_id(self, rule_id: &str) -> (f: Self)
        ensures
            f.message == self.message,
            f.tone == self.tone,
            f.location == self.location,
            f.rule_id matches Some(r) && r@ == rule_id@,
            f.remedy == self.remedy,
            f.confidence == self.confidence,
            f.badge == self.badge,
    {
        Finding { rule_id: Some(owned(rule_id)), ..self }
    }

    /// Attaches a remedy hint.
    pub fn with_remedy(self, remedy: &str) -> (f: Self)
        ensures
            f.message == self.message,
            f.tone == self.tone,
            f.location == self.location,
            f.rule_id == self.rule_id,
            f.remedy matches Some(r) && r@ == remedy@,
            f.confidence == self.confidence,
            f.badge == self.badge,
    {
        Finding { remedy: Some(owned(remedy)), ..self }
    }

    /// Attaches a confidence level rating.
    pub fn with_confidence(self, confidence: Confidence) -> (f: Self)
        ensures
            f == (Finding { confidence: Some(confidence), ..self }),
    {
        Finding { confidence: Some(confidence), ..self }
    }

    /// Attaches a status badge.
    pub fn with_badge(self, badge: Badge) -> (f: Self)
        ensures
            f == (Finding { badge: Some(badge), ..self }),
    {
        Finding { badge: Some(badge), ..self }
    }
}

/// A group of related findings (e.g. by rule or category).
#[derive(Debug, Clone, PartialEq, Eq)]
#[non_exhaustive]
pub struct FindingGroup {
    pub title: String,
    pub findings: Vec<Finding>,
    pub total_count: usize,
    pub advisory: bool,
}

/// The count a group reports: its recorded total, or the number of findings
/// it holds if that is larger.
pub open spec fn group_count(g: FindingGroup) -> nat {
    if g.total_count >= g.findings@.len() { g.total_count as nat } else { g.findings@.len() }
}

impl FindingGroup {
    /// Creates a finding group.
    pub fn new(title: &str) -> (g: Self)
        ensures
            g.title@ == title@,
            g.findings@.len() == 0,
            g.total_count == 0,
            !g.advisory,
    {
        FindingGroup { title: owned(title), findings: Vec::new(), total_count: 0, advisory: false }
    }

    /// Marks this finding group as advisory-only.
    pub fn with_advisory(self, advisory: bool) -> (g: Self)
        ensures
            g == (FindingGroup { advisory, ..self }),
    {
        FindingGroup { advisory, ..self }
    }

    /// Records the total count when this group only contains a bounded sample.
    pub fn with_total_count(self, total_count: usize) -> (g: Self)
        ensures
            g.title == self.title,
            g.findings == self.findings,
            g.advisory == self.advisory,
            g.total_count as nat == (if total_count >= self.findings@.len() {
                total_count as nat
            } else {
                self.findings@.len()
            }),
    {
        let n = self.findings.len();
        let total = if total_count >= n { total_count } else { n };
        FindingGroup { total_count: total, ..self }
    }

    /// Adds a finding to this group.
    pub fn add_finding(self, finding: Finding) -> (g: Self)
        ensures
            g.title == self.title,
            g.advisory == self.advisory,
            g.findings@ == self.findings@.push(finding),
            g.total_count as nat == (if self.total_count >= g.findings@.len() {
                self.total_count as nat
            } else {
                g.findings@.len()
            }),
    {
        let mut findings = self.findings;
        findings.push(finding);
        let n = findings.len();
        let total = if self.total_count >= n { self.total_count } else { n };
        FindingGroup { title: self.title, findings, total_count: total, advisory: self.advisory }
    }

    /// The count this group reports.
    pub fn rendered_count(&self) -> (n: usize)
        ensures
            n as nat == group_count(*self),
    {
        let len = self.findings.len();
        if self.total_count >= len { self.total_count } else { len }
    }
}

/// A scope or completeness note (e.g. analysis scope warnings, unavailable history).
#[derive(Debug, Clone, PartialEq, Eq)]
#[non_exhaustive]
pub struct ScopeNote {
    pub heading: String,
    pub items: Vec<String>,
}

impl ScopeNote {
    /// Creates a scope note.
    pub fn new(heading: &str, items: Vec<String>) -> (n: Self)
        ensures
            n.heading@ == heading@,
            n.items == items,
    {
        ScopeNote { heading: owned(heading), items }
    }
}

/// A next-step action recommendation at the end of a report.
#[derive(Debug, Clone, PartialEq, Eq)]
#[non_exhaustive]
pub struct NextStep {
    pub text: String,
    pub command: Option<String>,
}

impl NextStep {
    /// Creates a next step recommendation.
    pub fn new(text: &str) -> (s: Self)
        ensures
            s.text@ == text@,
            s.command is None,
    {
        NextStep { text: owned(text), command: None }
    }

    /// Attaches a copyable command.
    pub fn with_command(self, command: &str) -> (s: Self)
        ensures
            s.text == self.text,
            s.command matches Some(c) && c@ == command@,
    {
        NextStep { text: self.text, command: Some(owned(command)) }
    }
}

/// Common shared result status vocabulary (empty-state, dry-run, baseline, truncated).
#[derive(Debug, Clone, PartialEq, Eq)]
#[non_exhaustive]
pub enum Vocabulary {
    /// Dry run indicator.
    DryRun,
    /// Clean empty state.
    EmptyState(String),
    /// Baseline reference comparison.
    Baseline(String),
    /// Truncated result notice.
    Truncated(usize),
}

/// A complete decision-oriented report model.
#[derive(Debug, Clone, PartialEq, Eq)]
#[non_exhaustive]
pub struct Report {
    pub title: String,
    pub verdict: Verdict,
    pub metrics: Vec<Metric>,
    pub groups: Vec<FindingGroup>,
    pub scope_notes: Vec<ScopeNote>,
    pub next_steps: Vec<NextStep>,
    pub vocabulary_notes: Vec<Vocabulary>,
    pub detail_level: DetailLevel,
    pub max_compact_samples: usize,
    pub top_issues_threshold: Option<usize>,
}

impl Report {
    /// Creates a new report with a title and an outcome; it starts compact, with three
    /// sampled findings per group, and the top issue rules shown from twenty
    /// findings on.
    pub fn new(title: &str, verdict: Verdict) -> (r: Self)
        ensures
            r.title@ == title@,
            r.verdict == verdict,
            r.metrics@.len() == 0,
            r.groups@.len() == 0,
            r.scope_notes@.len() == 0,
            r.next_steps@.len() == 0,
            r.vocabulary_notes@.len() == 0,
            r.detail_level == DetailLevel::Compact,
            r.max_compact_samples == 3,
            r.top_issues_threshold == Some(20usize),
    {
        Report {
            title: owned(title),
            verdict,
            metrics: Vec::new(),
            groups: Vec::new(),
            scope_notes: Vec::new(),
            next_steps: Vec::new(),
            vocabulary_notes: Vec::new(),
            detail_level: DetailLevel::Compact,
            max_compact_samples: 3,
            top_issues_threshold: Some(20),
        }
    }

    /// Sets the detail level mode.
    pub fn with_detail_level(self, level: DetailLevel) -> (r: Self)
        ensures
            r == (Report { detail_level: level, ..self }),
    {
        Report { detail_level: level, ..self }
    }

    /// Adds a metric item to the summary grid.
    pub fn add_metric(self, metric: Metric) -> (r: Self)
        ensures
            r.metrics@ == self.metrics@.push(metric),
            r == (Report { metrics: r.metrics, ..self }),
    {
        let mut metrics = self.metrics;
        metrics.push(metric);
        Report { metrics, ..self }
    }

    /// Adds a group of findings.
    pub fn add_group(self, group: FindingGroup) -> (r: Self)
        ensures
            r.groups@ == self.groups@.push(group),
            r == (Report { groups: r.groups, ..self }),
    {
        let mut groups = self.groups;
        groups.push(group);
        Report { groups, ..self }
    }

    /// Adds a scope note with heading and items.
    pub fn add_scope_note(self, note: ScopeNote) -> (r: Self)
        ensures
            r.scope_notes@ == self.scope_notes@.push(note),
            r == (Report { scope_notes: r.scope_notes, ..self }),
    {
        let mut scope_notes = self.scope_notes;
        scope_notes.push(note);
        Report { scope_notes, ..self }
    }

    /// Adds a vocabulary note (dry-run, baseline, empty state).
    pub fn add_vocabulary(self, vocab: Vocabulary) -> (r: Self)
        ensures
            r.vocabulary_notes@ == self.vocabulary_notes@.push(vocab),
            r == (Report { vocabulary_notes: r.vocabulary_notes, ..self }),
    {
        let mut vocabulary_notes = self.vocabulary_notes;
        vocabulary_notes.push(vocab);
        Report { vocabulary_notes, ..self }
    }

    /// Adds a next-step recommendation.
    pub fn add_next_step(self, step: NextStep) -> (r: Self)
        ensures
            r.next_steps@ == self.next_steps@.push(step),
            r == (Report { next_steps: r.next_steps, ..self }),
    {
        let mut next_steps = self.next_steps;
        next_steps.push(step);
        Report { next_steps, ..self }
    }
}

} // verus!
