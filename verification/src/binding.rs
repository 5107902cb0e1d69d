//! The plain-data boundary of the Node package: the objects a host passes,
//! and their checked conversion into the library's own values.
//!
//! Every name a host spells out (a tone, a verdict, a colour mode) is
//! checked here; an unknown name is answered with an error that names the
//! kind of value and the value itself.

use vstd::prelude::*;
use crate::color::{ColorMode, Console, SymbolTheme, Tone, color_policy, console_with, lemma_console_determined};
use crate::diff::{DiffBlock, FileAction, FileChange, changes_text};
use crate::error_block::{ErrorBlock, error_block_text};
use crate::location::Location;
use crate::progress::ProgressMode;
use crate::report::model::{
    Badge, Confidence, DetailLevel, Finding, FindingGroup, Metric, NextStep, RenderOptions, Report, Trend,
};
use crate::report::render::{report_text, resolved_for};
use crate::text::{owned, push_str, str_eq};
use crate::verdict::{Verdict, verdict_line};

verus! {

/// Console options a host passes.
pub struct JsConsoleOptions {
    pub color: Option<String>,
    pub symbols: Option<String>,
    pub is_terminal: Option<bool>,
}

/// Report rendering options a host passes.
pub struct JsRenderOptions {
    pub color: Option<String>,
    pub symbols: Option<String>,
    pub is_terminal: Option<bool>,
    pub width: Option<u32>,
}

/// A metric as a host passes it.
pub struct JsMetric {
    pub key: String,
    pub value: String,
    pub tone: Option<String>,
    pub trend: Option<String>,
    pub delta: Option<String>,
}

/// A location as a host passes it: its kind (`file`, `url`, `selector` or
/// `artifact`) and its text.
pub struct JsLocation {
    pub kind: String,
    pub value: String,
    pub line: Option<u32>,
    pub column: Option<u32>,
}

/// A badge as a host passes it.
pub struct JsBadge {
    pub label: String,
    pub tone: Option<String>,
}

/// A finding as a host passes it.
pub struct JsFinding {
    pub message: String,
    pub tone: Option<String>,
    pub location: Option<JsLocation>,
    pub rule_id: Option<String>,
    pub remedy: Option<String>,
    pub confidence: Option<String>,
    pub badge: Option<JsBadge>,
}

/// A finding group as a host passes it.
pub struct JsFindingGroup {
    pub title: String,
    pub findings: Option<Vec<JsFinding>>,
    pub total_count: Option<u32>,
    pub advisory: Option<bool>,
}

/// A next step as a host passes it.
pub struct JsNextStep {
    pub text: String,
    pub command: Option<String>,
}

/// A report as a host passes it.
pub struct JsReportInput {
    pub schema_version: Option<u32>,
    pub title: String,
    pub verdict: String,
    pub metrics: Option<Vec<JsMetric>>,
    pub groups: Option<Vec<JsFindingGroup>>,
    pub next_steps: Option<Vec<JsNextStep>>,
    pub detail_level: Option<String>,
    pub max_compact_samples: Option<u32>,
}

/// An error block as a host passes it.
pub struct JsErrorBlockInput {
    pub heading: String,
    pub explanation: Option<String>,
    pub remedy: Option<String>,
    pub commands: Option<Vec<String>>,
}

/// A file change as a host passes it.
pub struct JsFileChange {
    pub action: String,
    pub path: String,
    pub delta: Option<String>,
}

/// A diff as a host passes it.
pub struct JsDiffInput {
    pub changes: Vec<JsFileChange>,
}

/// Progress options a host passes.
pub struct JsProgressOptions {
    pub color: Option<String>,
    pub symbols: Option<String>,
    pub is_terminal: Option<bool>,
    pub mode: Option<String>,
}

/// Why host input was refused.
#[derive(Debug)]
pub enum BindingError {
    /// A name the library does not know: the kind of value and the value.
    InvalidValue { kind: String, value: String },
    /// A report schema version other than 1.
    UnsupportedSchema,
}

/// The message of an error.
pub open spec fn error_message(e: BindingError) -> Seq<char> {
    match e {
        BindingError::InvalidValue { kind, value } => "invalid "@ + kind@ + ": "@ + value@,
        BindingError::UnsupportedSchema => "unsupported ReportInput schemaVersion; expected 1"@,
    }
}

impl BindingError {
    /// The message of this error, e.g. `invalid tone: loud`.
    pub fn message(&self) -> (s: String)
        ensures
            s@ == error_message(*self),
    {
        match self {
            BindingError::InvalidValue { kind, value } => {
                let mut s = String::new();
                push_str(&mut s, "invalid ");
                push_str(&mut s, kind.as_str());
                push_str(&mut s, ": ");
                push_str(&mut s, value.as_str());
                assert(s@ =~= error_message(*self));
                s
            },
            BindingError::UnsupportedSchema => owned("unsupported ReportInput schemaVersion; expected 1"),
        }
    }
}

/// The first of two faults.
pub open spec fn or_else(a: Option<(Seq<char>, Seq<char>)>, b: Option<(Seq<char>, Seq<char>)>) -> Option<(Seq<char>, Seq<char>)> {
    if a is Some { a } else { b }
}

/// A fault when `ok` fails.
pub open spec fn fault_unless(ok: bool, kind: Seq<char>, value: Seq<char>) -> Option<(Seq<char>, Seq<char>)> {
    if ok { None } else { Some((kind, value)) }
}

/// The first fault among `s`, in order.
pub open spec fn first_fault<T>(s: Seq<T>, f: spec_fn(T) -> Option<(Seq<char>, Seq<char>)>) -> Option<(Seq<char>, Seq<char>)>
    decreases s.len(),
{
    if s.len() == 0 {
        None
    } else {
        or_else(first_fault(s.drop_last(), f), f(s.last()))
    }
}

/// The text of an optional string, or `d` when there is none.
pub open spec fn or_default(o: Option<String>, d: Seq<char>) -> Seq<char> {
    match o {
        Some(s) => s@,
        None => d,
    }
}

/// Whether an error is the refusal of `value` as a `kind`.
pub open spec fn refuses(e: BindingError, fault: (Seq<char>, Seq<char>)) -> bool {
    e matches BindingError::InvalidValue { kind, value } && kind@ == fault.0 && value@ == fault.1
}

/// The refusal of `value` as a `kind`.
fn invalid_value(kind: &str, value: &str) -> (e: BindingError)
    ensures
        refuses(e, (kind@, value@)),
{
    BindingError::InvalidValue { kind: owned(kind), value: owned(value) }
}

/// The tone a host names.
pub open spec fn tone_named(s: Seq<char>) -> Option<Tone> {
    if s == "title"@ { Some(Tone::Title) }
    else if s == "muted"@ { Some(Tone::Muted) }
    else if s == "info"@ { Some(Tone::Info) }
    else if s == "success"@ { Some(Tone::Success) }
    else if s == "warning"@ { Some(Tone::Warning) }
    else if s == "error"@ { Some(Tone::Error) }
    else { None }
}

/// The verdict a host names.
pub open spec fn verdict_named(s: Seq<char>) -> Option<Verdict> {
    if s == "passed"@ { Some(Verdict::Passed) }
    else if s == "warning"@ { Some(Verdict::Warning) }
    else if s == "failed"@ { Some(Verdict::Failed) }
    else if s == "action-required"@ { Some(Verdict::ActionRequired) }
    else if s == "skipped"@ { Some(Verdict::Skipped) }
    else if s == "info"@ { Some(Verdict::Info) }
    else { None }
}

/// The file action a host names.
pub open spec fn action_named(s: Seq<char>) -> Option<FileAction> {
    if s == "added"@ { Some(FileAction::Added) }
    else if s == "modified"@ { Some(FileAction::Modified) }
    else if s == "deleted"@ { Some(FileAction::Deleted) }
    else if s == "renamed"@ { Some(FileAction::Renamed) }
    else { None }
}

/// The colour mode a host names.
pub open spec fn color_named(s: Seq<char>) -> Option<ColorMode> {
    if s == "auto"@ { Some(ColorMode::Auto) }
    else if s == "always"@ { Some(ColorMode::Always) }
    else if s == "never"@ { Some(ColorMode::Never) }
    else { None }
}

/// The progress mode a host names.
pub open spec fn progress_named(s: Seq<char>) -> Option<ProgressMode> {
    if s == "auto"@ { Some(ProgressMode::Auto) }
    else if s == "always"@ { Some(ProgressMode::Always) }
    else if s == "never"@ { Some(ProgressMode::Never) }
    else { None }
}

/// The detail level a host names.
pub open spec fn detail_named(s: Seq<char>) -> Option<DetailLevel> {
    if s == "compact"@ { Some(DetailLevel::Compact) }
    else if s == "detailed"@ { Some(DetailLevel::Detailed) }
    else { None }
}

/// The trend a host names.
pub open spec fn trend_named(s: Seq<char>) -> Option<Trend> {
    if s == "positive"@ { Some(Trend::Positive) }
    else if s == "negative"@ { Some(Trend::Negative) }
    else if s == "neutral"@ { Some(Trend::Neutral) }
    else { None }
}

/// The confidence a host names.
pub open spec fn confidence_named(s: Seq<char>) -> Option<Confidence> {
    if s == "high"@ { Some(Confidence::High) }
    else if s == "medium"@ { Some(Confidence::Medium) }
    else if s == "low"@ { Some(Confidence::Low) }
    else { None }
}

/// Reads a tone's name.
pub fn parse_tone(value: &str) -> (r: Result<Tone, BindingError>)
    ensures
        r matches Ok(t) ==> tone_named(value@) == Some(t),
        r matches Err(e) ==> tone_named(value@) is None && refuses(e, ("tone"@, value@)),
{
    if str_eq(value, "title") { Ok(Tone::Title) }
    else if str_eq(value, "muted") { Ok(Tone::Muted) }
    else if str_eq(value, "info") { Ok(Tone::Info) }
    else if str_eq(value, "success") { Ok(Tone::Success) }
    else if str_eq(value, "warning") { Ok(Tone::Warning) }
    else if str_eq(value, "error") { Ok(Tone::Error) }
    else { Err(invalid_value("tone", value)) }
}

/// Reads a verdict's name.
pub fn parse_verdict(value: &str) -> (r: Result<Verdict, BindingError>)
    ensures
        r matches Ok(v) ==> verdict_named(value@) == Some(v),
        r matches Err(e) ==> verdict_named(value@) is None && refuses(e, ("verdict"@, value@)),
{
    if str_eq(value, "passed") { Ok(Verdict::Passed) }
    else if str_eq(value, "warning") { Ok(Verdict::Warning) }
    else if str_eq(value, "failed") { Ok(Verdict::Failed) }
    else if str_eq(value, "action-required") { Ok(Verdict::ActionRequired) }
    else if str_eq(value, "skipped") { Ok(Verdict::Skipped) }
    else if str_eq(value, "info") { Ok(Verdict::Info) }
    else { Err(invalid_value("verdict", value)) }
}

/// Reads a file action's name.
pub fn parse_file_action(value: &str) -> (r: Result<FileAction, BindingError>)
    ensures
        r matches Ok(a) ==> action_named(value@) == Some(a),
        r matches Err(e) ==> action_named(value@) is None && refuses(e, ("file action"@, value@)),
{
    if str_eq(value, "added") { Ok(FileAction::Added) }
    else if str_eq(value, "modified") { Ok(FileAction::Modified) }
    else if str_eq(value, "deleted") { Ok(FileAction::Deleted) }
    else if str_eq(value, "renamed") { Ok(FileAction::Renamed) }
    else { Err(invalid_value("file action", value)) }
}

fn parse_color_mode(value: &str) -> (r: Result<ColorMode, BindingError>)
    ensures
        r matches Ok(m) ==> color_named(value@) == Some(m),
        r matches Err(e) ==> color_named(value@) is None && refuses(e, ("color mode"@, value@)),
{
    if str_eq(value, "auto") { Ok(ColorMode::Auto) }
    else if str_eq(value, "always") { Ok(ColorMode::Always) }
    else if str_eq(value, "never") { Ok(ColorMode::Never) }
    else { Err(invalid_value("color mode", value)) }
}

/// Reads a progress mode's name.
pub fn parse_progress_mode(value: &str) -> (r: Result<ProgressMode, BindingError>)
    ensures
        r matches Ok(m) ==> progress_named(value@) == Some(m),
        r matches Err(e) ==> progress_named(value@) is None && refuses(e, ("progress mode"@, value@)),
{
    if str_eq(value, "auto") { Ok(ProgressMode::Auto) }
    else if str_eq(value, "always") { Ok(ProgressMode::Always) }
    else if str_eq(value, "never") { Ok(ProgressMode::Never) }
    else { Err(invalid_value("progress mode", value)) }
}

fn parse_detail_level(value: &str) -> (r: Result<DetailLevel, BindingError>)
    ensures
        r matches Ok(d) ==> detail_named(value@) == Some(d),
        r matches Err(e) ==> detail_named(value@) is None && refuses(e, ("detail level"@, value@)),
{
    if str_eq(value, "compact") { Ok(DetailLevel::Compact) }
    else if str_eq(value, "detailed") { Ok(DetailLevel::Detailed) }
    else { Err(invalid_value("detail level", value)) }
}

fn parse_trend(value: &str) -> (r: Result<Trend, BindingError>)
    ensures
        r matches Ok(t) ==> trend_named(value@) == Some(t),
        r matches Err(e) ==> trend_named(value@) is None && refuses(e, ("metric trend"@, value@)),
{
    if str_eq(value, "positive") { Ok(Trend::Positive) }
    else if str_eq(value, "negative") { Ok(Trend::Negative) }
    else if str_eq(value, "neutral") { Ok(Trend::Neutral) }
    else { Err(invalid_value("metric trend", value)) }
}

fn parse_confidence(value: &str) -> (r: Result<Confidence, BindingError>)
    ensures
        r matches Ok(c) ==> confidence_named(value@) == Some(c),
        r matches Err(e) ==> confidence_named(value@) is None && refuses(e, ("confidence"@, value@)),
{
    if str_eq(value, "high") { Ok(Confidence::High) }
    else if str_eq(value, "medium") { Ok(Confidence::Medium) }
    else if str_eq(value, "low") { Ok(Confidence::Low) }
    else { Err(invalid_value("confidence", value)) }
}

/// The text of an optional string, or `d`.
fn text_or<'a>(o: &'a Option<String>, d: &'a str) -> (s: &'a str)
    ensures
        s@ == or_default(*o, d@),
{
    match o {
        Some(s) => s.as_str(),
        None => d,
    }
}

/// The fault in a colour mode and a symbol theme a host names.
pub open spec fn console_fault(color: Option<String>, symbols: Option<String>) -> Option<(Seq<char>, Seq<char>)> {
    or_else(
        fault_unless(color_named(or_default(color, "auto"@)) is Some, "color mode"@, or_default(color, "auto"@)),
        match symbols {
            Some(s) => fault_unless(s@ == "unicode"@ || s@ == "ascii"@, "symbol theme"@, s@),
            None => None,
        },
    )
}

/// The console a host's options describe: the colour mode (`auto` by
/// default) resolved for the stream, and the named symbol theme or the
/// console's own default.
pub open spec fn console_named(color: Option<String>, symbols: Option<String>, is_terminal: bool, no_color_unset: bool) -> Console {
    let enabled = color_policy(color_named(or_default(color, "auto"@)).unwrap(), is_terminal, no_color_unset);
    let theme = match symbols {
        Some(s) => if s@ == "unicode"@ { SymbolTheme::Unicode } else { SymbolTheme::Ascii },
        None => if enabled { SymbolTheme::Unicode } else { SymbolTheme::Ascii },
    };
    console_with(enabled, theme)
}

/// Builds the console a host's options describe on a stream that is a
/// terminal when `is_terminal` holds, with `NO_COLOR` unset when
/// `no_color_unset` holds.
pub fn console_from_parts(color: &Option<String>, symbols: &Option<String>, is_terminal: bool, no_color_unset: bool) -> (r: Result<Console, BindingError>)
    ensures
        console_fault(*color, *symbols) is None ==> r == Ok::<Console, BindingError>(console_named(*color, *symbols, is_terminal, no_color_unset)),
        console_fault(*color, *symbols) matches Some(f) ==> r matches Err(e) && refuses(e, f),
{
    let mode = match parse_color_mode(text_or(color, "auto")) {
        Ok(m) => m,
        Err(e) => { return Err(e); },
    };
    let console = Console::new(mode, is_terminal, no_color_unset);
    let ghost enabled = console.spec_color();
    let r = match symbols {
        None => Ok(console),
        Some(s) => if str_eq(s.as_str(), "unicode") {
            Ok(console.with_theme(SymbolTheme::Unicode))
        } else if str_eq(s.as_str(), "ascii") {
            Ok(console.with_theme(SymbolTheme::Ascii))
        } else {
            Err(invalid_value("symbol theme", s.as_str()))
        },
    };
    proof {
        if let Ok(c) = r {
            let want = console_named(*color, *symbols, is_terminal, no_color_unset);
            assert(c.spec_color() == enabled);
            lemma_console_determined(c, want);
        }
    }
    r
}

/// The colour mode a host's console options name.
pub open spec fn options_color(o: Option<JsConsoleOptions>) -> Option<String> {
    match o { Some(o) => o.color, None => None }
}

/// The symbol theme a host's console options name.
pub open spec fn options_symbols(o: Option<JsConsoleOptions>) -> Option<String> {
    match o { Some(o) => o.symbols, None => None }
}

/// Whether the stream is a terminal: as the options say, or as measured.
pub open spec fn options_terminal(o: Option<JsConsoleOptions>, measured: bool) -> bool {
    match o {
        Some(o) => match o.is_terminal { Some(t) => t, None => measured },
        None => measured,
    }
}

/// Builds the console that console options describe; `stdout_terminal`
/// is whether standard output is a terminal, used where the options do
/// not say.
pub fn console_from_options(options: Option<JsConsoleOptions>, stdout_terminal: bool, no_color_unset: bool) -> (r: Result<Console, BindingError>)
    ensures
        console_fault(options_color(options), options_symbols(options)) is None ==> r == Ok::<Console, BindingError>(console_named(
            options_color(options), options_symbols(options), options_terminal(options, stdout_terminal), no_color_unset)),
        console_fault(options_color(options), options_symbols(options)) matches Some(f) ==> r matches Err(e) && refuses(e, f),
{
    match options {
        Some(o) => {
            let is_terminal = match o.is_terminal { Some(t) => t, None => stdout_terminal };
            console_from_parts(&o.color, &o.symbols, is_terminal, no_color_unset)
        },
        None => console_from_parts(&None, &None, stdout_terminal, no_color_unset),
    }
}

/// The views of optional strings agree.
pub open spec fn same_text(a: Option<String>, b: Option<String>) -> bool {
    match (a, b) {
        (Some(x), Some(y)) => x@ == y@,
        (None, None) => true,
        _ => false,
    }
}

/// The texts of a list of strings agree with `v`'s.
pub open spec fn same_texts(a: Seq<String>, b: Seq<String>) -> bool {
    a.len() == b.len() && forall|i: int| 0 <= i < a.len() ==> (#[trigger] a[i])@ == b[i]@
}

/// The commands a host passes.
pub open spec fn commands_of(input: JsErrorBlockInput) -> Seq<String> {
    match input.commands { Some(v) => v@, None => Seq::empty() }
}

/// `b` holds what the host's error block holds.
pub open spec fn error_block_from(input: JsErrorBlockInput, b: ErrorBlock) -> bool {
    &&& b.heading@ == input.heading@
    &&& same_text(b.explanation, input.explanation)
    &&& same_text(b.remedy, input.remedy)
    &&& same_texts(b.commands@, commands_of(input))
}

/// Renders a host's error block.
pub fn render_error(input: JsErrorBlockInput, options: Option<JsConsoleOptions>, stdout_terminal: bool, no_color_unset: bool) -> (r: Result<String, BindingError>)
    ensures
        console_fault(options_color(options), options_symbols(options)) matches Some(f) ==> r matches Err(e) && refuses(e, f),
        console_fault(options_color(options), options_symbols(options)) is None ==> (r matches Ok(s) && exists|b: ErrorBlock|
            error_block_from(input, b) && s@ == #[trigger] error_block_text(console_named(options_color(options),
                options_symbols(options), options_terminal(options, stdout_terminal), no_color_unset), b)),
{
    let mut block = ErrorBlock::new(input.heading.as_str());
    match &input.explanation {
        Some(e) => { block = block.with_explanation(e.as_str()); },
        None => {},
    }
    match &input.remedy {
        Some(r) => { block = block.with_remedy(r.as_str()); },
        None => {},
    }
    let commands: Vec<String> = match input.commands { Some(v) => v, None => Vec::new() };
    let ghost cmds = commands@;
    let mut i: usize = 0;
    while i < commands.len()
        invariant
            i <= commands@.len(),
            block.heading@ == input.heading@,
            same_text(block.explanation, input.explanation),
            same_text(block.remedy, input.remedy),
            same_texts(block.commands@, commands@.take(i as int)),
        decreases commands@.len() - i,
    {
        let ghost before = block.commands@;
        block = block.add_command(commands[i].as_str());
        proof {
            assert forall|k: int| 0 <= k < block.commands@.len() implies
                (#[trigger] block.commands@[k])@ == commands@.take(i as int + 1)[k]@ by {
                if k < before.len() {
                    assert(block.commands@[k] == block.commands@.drop_last()[k]);
                }
            }
        }
        i = i + 1;
    }
    assert(commands@.take(i as int) =~= commands@);
    let console = match console_from_options(options, stdout_terminal, no_color_unset) {
        Ok(c) => c,
        Err(e) => { return Err(e); },
    };
    let s = block.render(console);
    assert(error_block_from(input, block));
    Ok(s)
}

/// The fault in a host's file change.
pub open spec fn change_fault(c: JsFileChange) -> Option<(Seq<char>, Seq<char>)> {
    fault_unless(action_named(c.action@) is Some, "file action"@, c.action@)
}

/// `out` holds what the host's file changes hold.
pub open spec fn changes_from(input: Seq<JsFileChange>, out: Seq<FileChange>) -> bool {
    &&& input.len() == out.len()
    &&& forall|i: int| 0 <= i < input.len() ==> {
        &&& Some((#[trigger] out[i]).action) == action_named(input[i].action@)
        &&& out[i].path@ == input[i].path@
        &&& same_text(out[i].delta, input[i].delta)
    }
}

/// Renders a host's diff.
pub fn render_diff(input: JsDiffInput, options: Option<JsConsoleOptions>, stdout_terminal: bool, no_color_unset: bool) -> (r: Result<String, BindingError>)
    ensures
        first_fault(input.changes@, |c: JsFileChange| change_fault(c)) matches Some(f) ==> r matches Err(e) && refuses(e, f),
        first_fault(input.changes@, |c: JsFileChange| change_fault(c)) is None ==> (
            console_fault(options_color(options), options_symbols(options)) matches Some(f) ==> (r matches Err(e) && refuses(e, f))),
        first_fault(input.changes@, |c: JsFileChange| change_fault(c)) is None ==> (
            console_fault(options_color(options), options_symbols(options)) is None ==> (r matches Ok(s)
            && exists|cs: Seq<FileChange>| changes_from(input.changes@, cs) && s@ == #[trigger] changes_text(
                console_named(options_color(options), options_symbols(options), options_terminal(options, stdout_terminal), no_color_unset), cs))),
{
    let ghost f = |c: JsFileChange| change_fault(c);
    let mut block = DiffBlock::new();
    let mut i: usize = 0;
    while i < input.changes.len()
        invariant
            i <= input.changes@.len(),
            f == (|c: JsFileChange| change_fault(c)),
            first_fault(input.changes@.take(i as int), f) is None,
            changes_from(input.changes@.take(i as int), block.changes@),
        decreases input.changes@.len() - i,
    {
        let change = &input.changes[i];
        let ghost t = input.changes@.take(i as int + 1);
        proof {
            assert(t.drop_last() =~= input.changes@.take(i as int));
            assert(t.last() == input.changes@[i as int]);
        }
        let action = match parse_file_action(change.action.as_str()) {
            Ok(a) => a,
            Err(e) => {
                proof { lemma_first_fault_prefix(input.changes@, f, i as int + 1); }
                return Err(e);
            },
        };
        let mut fc = FileChange::new(action, change.path.as_str());
        match &change.delta {
            Some(d) => { fc = fc.with_delta(d.as_str()); },
            None => {},
        }
        let ghost before = block.changes@;
        block = block.add_change(fc);
        proof {
            assert forall|k: int| 0 <= k < t.len() implies {
                &&& Some((#[trigger] block.changes@[k]).action) == action_named(t[k].action@)
                &&& block.changes@[k].path@ == t[k].path@
                &&& same_text(block.changes@[k].delta, t[k].delta)
            } by {
                if k < i {
                    assert(block.changes@[k] == before[k]);
                    assert(t[k] == input.changes@.take(i as int)[k]);
                }
            }
        }
        i = i + 1;
    }
    assert(input.changes@.take(i as int) =~= input.changes@);
    let console = match console_from_options(options, stdout_terminal, no_color_unset) {
        Ok(c) => c,
        Err(e) => { return Err(e); },
    };
    Ok(block.render(console))
}

/// Where a prefix of `s` holds a fault, `s` holds that fault first.
pub proof fn lemma_first_fault_prefix<T>(s: Seq<T>, f: spec_fn(T) -> Option<(Seq<char>, Seq<char>)>, n: int)
    requires
        0 <= n <= s.len(),
        first_fault(s.take(n), f) is Some,
    ensures
        first_fault(s, f) == first_fault(s.take(n), f),
    decreases s.len() - n,
{
    if n < s.len() {
        assert(s.take(n + 1).drop_last() =~= s.take(n));
        lemma_first_fault_prefix(s, f, n + 1);
    } else {
        assert(s.take(n) =~= s);
    }
}

/// An optional count as a `usize`.
pub open spec fn opt_usize(o: Option<u32>) -> Option<usize> {
    match o {
        Some(x) => Some(x as usize),
        None => None,
    }
}

/// The fault in a host's metric: an unknown tone, or an unknown trend on a
/// metric with a delta.
pub open spec fn metric_fault(m: JsMetric) -> Option<(Seq<char>, Seq<char>)> {
    or_else(
        match m.tone {
            Some(t) => fault_unless(tone_named(t@) is Some, "tone"@, t@),
            None => None,
        },
        match m.delta {
            Some(_) => fault_unless(trend_named(or_default(m.trend, "neutral"@)) is Some, "metric trend"@,
                or_default(m.trend, "neutral"@)),
            None => None,
        },
    )
}

/// `out` holds what the host's metric holds.
pub open spec fn metric_from(m: JsMetric, out: Metric) -> bool {
    &&& out.key@ == m.key@
    &&& out.value@ == m.value@
    &&& out.tone == match m.tone {
        Some(t) => tone_named(t@),
        None => None,
    }
    &&& match m.delta {
        Some(d) => out.trend == trend_named(or_default(m.trend, "neutral"@)) && (out.delta matches Some(od) && od@ == d@),
        None => out.trend is None && out.delta is None,
    }
}

fn metric_from_input(m: &JsMetric) -> (r: Result<Metric, BindingError>)
    ensures
        metric_fault(*m) matches Some(f) ==> r matches Err(e) && refuses(e, f),
        metric_fault(*m) is None ==> (r matches Ok(out) && metric_from(*m, out)),
{
    let mut output = Metric::new(m.key.as_str(), m.value.as_str());
    match &m.tone {
        Some(t) => {
            match parse_tone(t.as_str()) {
                Ok(tone) => { output = output.with_tone(tone); },
                Err(e) => { return Err(e); },
            }
        },
        None => {},
    }
    match &m.delta {
        Some(d) => {
            let trend = match parse_trend(text_or(&m.trend, "neutral")) {
                Ok(t) => t,
                Err(e) => { return Err(e); },
            };
            output = output.with_trend(trend, d.as_str());
        },
        None => {},
    }
    Ok(output)
}

/// Whether a host names a location kind the library has.
pub open spec fn location_kind_known(k: Seq<char>) -> bool {
    k == "file"@ || k == "url"@ || k == "selector"@ || k == "artifact"@
}

/// `loc` is the location a host's location describes.
pub open spec fn location_from(l: JsLocation, loc: Location) -> bool {
    if l.kind@ == "file"@ {
        loc matches Location::File { path, line, column } && path@ == l.value@ && line == opt_usize(l.line)
            && column == (if l.line is Some { opt_usize(l.column) } else { None })
    } else if l.kind@ == "url"@ {
        loc matches Location::Url(u) && u@ == l.value@
    } else if l.kind@ == "selector"@ {
        loc matches Location::Selector(u) && u@ == l.value@
    } else {
        loc matches Location::Artifact(u) && u@ == l.value@
    }
}

fn location_from_input(l: &JsLocation) -> (r: Result<Location, BindingError>)
    ensures
        !location_kind_known(l.kind@) ==> (r matches Err(e) && refuses(e, ("location kind"@, l.kind@))),
        location_kind_known(l.kind@) ==> (r matches Ok(loc) && location_from(*l, loc)),
{
    let kind = l.kind.as_str();
    if str_eq(kind, "file") {
        match l.line {
            Some(line) => match l.column {
                Some(column) => Ok(Location::file_line_col(l.value.as_str(), line as usize, column as usize)),
                None => Ok(Location::file_line(l.value.as_str(), line as usize)),
            },
            None => Ok(Location::file(l.value.as_str())),
        }
    } else if str_eq(kind, "url") {
        Ok(Location::Url(owned(l.value.as_str())))
    } else if str_eq(kind, "selector") {
        Ok(Location::Selector(owned(l.value.as_str())))
    } else if str_eq(kind, "artifact") {
        Ok(Location::Artifact(owned(l.value.as_str())))
    } else {
        Err(invalid_value("location kind", kind))
    }
}

/// The fault in a host's finding: an unknown tone (`warning` by default), an
/// unknown location kind, an unknown confidence, or an unknown badge tone
/// (`info` by default), in that order.
pub open spec fn finding_fault(f: JsFinding) -> Option<(Seq<char>, Seq<char>)> {
    or_else(
        fault_unless(tone_named(or_default(f.tone, "warning"@)) is Some, "tone"@, or_default(f.tone, "warning"@)),
        or_else(
            match f.location {
                Some(l) => fault_unless(location_kind_known(l.kind@), "location kind"@, l.kind@),
                None => None,
            },
            or_else(
                match f.confidence {
                    Some(c) => fault_unless(confidence_named(c@) is Some, "confidence"@, c@),
                    None => None,
                },
                match f.badge {
                    Some(b) => fault_unless(tone_named(or_default(b.tone, "info"@)) is Some, "tone"@, or_default(b.tone, "info"@)),
                    None => None,
                },
            ),
        ),
    )
}

/// `out` holds what the host's finding holds.
pub open spec fn finding_from(f: JsFinding, out: Finding) -> bool {
    &&& out.message@ == f.message@
    &&& Some(out.tone) == tone_named(or_default(f.tone, "warning"@))
    &&& match f.location {
        Some(l) => out.location matches Some(loc) && location_from(l, loc),
        None => out.location is None,
    }
    &&& same_text(out.rule_id, f.rule_id)
    &&& same_text(out.remedy, f.remedy)
    &&& out.confidence == match f.confidence {
        Some(c) => confidence_named(c@),
        None => None,
    }
    &&& match f.badge {
        Some(b) => out.badge matches Some(ob) && ob.label@ == b.label@ && Some(ob.tone) == tone_named(or_default(b.tone, "info"@)),
        None => out.badge is None,
    }
}

fn finding_from_input(f: &JsFinding) -> (r: Result<Finding, BindingError>)
    ensures
        finding_fault(*f) matches Some(fa) ==> r matches Err(e) && refuses(e, fa),
        finding_fault(*f) is None ==> (r matches Ok(out) && finding_from(*f, out)),
{
    let tone = match parse_tone(text_or(&f.tone, "warning")) {
        Ok(t) => t,
        Err(e) => { return Err(e); },
    };
    let mut finding = Finding::new(tone, f.message.as_str());
    match &f.location {
        Some(l) => {
            match location_from_input(l) {
                Ok(loc) => { finding = finding.with_location(loc); },
                Err(e) => { return Err(e); },
            }
        },
        None => {},
    }
    match &f.rule_id {
        Some(r) => { finding = finding.with_rule_id(r.as_str()); },
        None => {},
    }
    match &f.remedy {
        Some(r) => { finding = finding.with_remedy(r.as_str()); },
        None => {},
    }
    match &f.confidence {
        Some(c) => {
            match parse_confidence(c.as_str()) {
                Ok(conf) => { finding = finding.with_confidence(conf); },
                Err(e) => { return Err(e); },
            }
        },
        None => {},
    }
    match &f.badge {
        Some(b) => {
            match parse_tone(text_or(&b.tone, "info")) {
                Ok(t) => { finding = finding.with_badge(Badge::new(b.label.as_str(), t)); },
                Err(e) => { return Err(e); },
            }
        },
        None => {},
    }
    Ok(finding)
}

/// The findings a host's group passes.
pub open spec fn findings_of(g: JsFindingGroup) -> Seq<JsFinding> {
    match g.findings {
        Some(v) => v@,
        None => Seq::empty(),
    }
}

/// The fault in a host's group: the first fault among its findings.
pub open spec fn group_fault(g: JsFindingGroup) -> Option<(Seq<char>, Seq<char>)> {
    first_fault(findings_of(g), |f: JsFinding| finding_fault(f))
}

/// `out` holds what the host's group holds; its count is the one given, or
/// the number of findings if that is larger.
pub open spec fn group_from(g: JsFindingGroup, out: FindingGroup) -> bool {
    let given: nat = match g.total_count {
        Some(t) => t as nat,
        None => 0,
    };
    &&& out.title@ == g.title@
    &&& out.advisory == match g.advisory {
        Some(a) => a,
        None => false,
    }
    &&& out.findings@.len() == findings_of(g).len()
    &&& forall|i: int| 0 <= i < out.findings@.len() ==> finding_from(findings_of(g)[i], #[trigger] out.findings@[i])
    &&& out.total_count as nat == if given >= out.findings@.len() { given } else { out.findings@.len() }
}

fn group_from_input(g: &JsFindingGroup) -> (r: Result<FindingGroup, BindingError>)
    ensures
        group_fault(*g) matches Some(fa) ==> r matches Err(e) && refuses(e, fa),
        group_fault(*g) is None ==> (r matches Ok(out) && group_from(*g, out)),
{
    let advisory = match g.advisory {
        Some(a) => a,
        None => false,
    };
    let mut group = FindingGroup::new(g.title.as_str()).with_advisory(advisory);
    match g.total_count {
        Some(t) => { group = group.with_total_count(t as usize); },
        None => {},
    }
    let ghost given: nat = match g.total_count {
        Some(t) => t as nat,
        None => 0,
    };
    let ghost ff = |f: JsFinding| finding_fault(f);
    let empty: Vec<JsFinding> = Vec::new();
    let fs: &Vec<JsFinding> = match &g.findings {
        Some(v) => v,
        None => &empty,
    };
    assert(fs@ == findings_of(*g));
    let mut i: usize = 0;
    while i < fs.len()
        invariant
            i <= fs@.len(),
            fs@ == findings_of(*g),
            ff == (|f: JsFinding| finding_fault(f)),
            first_fault(fs@.take(i as int), ff) is None,
            group.title@ == g.title@,
            group.advisory == advisory,
            group.findings@.len() == i,
            forall|k: int| 0 <= k < i ==> finding_from(fs@[k], #[trigger] group.findings@[k]),
            group.total_count as nat == if given >= i { given } else { i as nat },
        decreases fs@.len() - i,
    {
        let ghost t = fs@.take(i as int + 1);
        proof {
            assert(t.drop_last() =~= fs@.take(i as int));
            assert(t.last() == fs@[i as int]);
        }
        let finding = match finding_from_input(&fs[i]) {
            Ok(f) => f,
            Err(e) => {
                proof { lemma_first_fault_prefix(fs@, ff, i as int + 1); }
                return Err(e);
            },
        };
        let ghost before = group.findings@;
        group = group.add_finding(finding);
        proof {
            assert forall|k: int| 0 <= k < i + 1 implies finding_from(fs@[k], #[trigger] group.findings@[k]) by {
                if k < i {
                    assert(group.findings@[k] == before[k]);
                }
            }
        }
        i = i + 1;
    }
    assert(fs@.take(i as int) =~= fs@);
    Ok(group)
}

/// `out` holds what the host's next step holds.
pub open spec fn step_from(s: JsNextStep, out: NextStep) -> bool {
    out.text@ == s.text@ && same_text(out.command, s.command)
}

/// The metrics a host's report passes.
pub open spec fn metrics_of(input: JsReportInput) -> Seq<JsMetric> {
    match input.metrics {
        Some(v) => v@,
        None => Seq::empty(),
    }
}

/// The groups a host's report passes.
pub open spec fn groups_of(input: JsReportInput) -> Seq<JsFindingGroup> {
    match input.groups {
        Some(v) => v@,
        None => Seq::empty(),
    }
}

/// The next steps a host's report passes.
pub open spec fn steps_of(input: JsReportInput) -> Seq<JsNextStep> {
    match input.next_steps {
        Some(v) => v@,
        None => Seq::empty(),
    }
}

/// Whether the library reads a host's report schema: version 1, the
/// default.
pub open spec fn schema_supported(input: JsReportInput) -> bool {
    match input.schema_version {
        Some(v) => v == 1,
        None => true,
    }
}

/// The fault in a host's report: an unknown detail level (`compact` by
/// default), an unknown verdict, then the first fault among its metrics and
/// then among its groups.
pub open spec fn report_fault(input: JsReportInput) -> Option<(Seq<char>, Seq<char>)> {
    or_else(
        fault_unless(detail_named(or_default(input.detail_level, "compact"@)) is Some, "detail level"@,
            or_default(input.detail_level, "compact"@)),
        or_else(
            fault_unless(verdict_named(input.verdict@) is Some, "verdict"@, input.verdict@),
            or_else(
                first_fault(metrics_of(input), |m: JsMetric| metric_fault(m)),
                first_fault(groups_of(input), |g: JsFindingGroup| group_fault(g)),
            ),
        ),
    )
}

/// `r` is the report a host's report describes.
pub open spec fn report_from(input: JsReportInput, r: Report) -> bool {
    &&& r.title@ == input.title@
    &&& Some(r.verdict) == verdict_named(input.verdict@)
    &&& Some(r.detail_level) == detail_named(or_default(input.detail_level, "compact"@))
    &&& r.max_compact_samples == match input.max_compact_samples {
        Some(m) => m as usize,
        None => 3usize,
    }
    &&& r.top_issues_threshold == Some(20usize)
    &&& r.metrics@.len() == metrics_of(input).len()
    &&& forall|i: int| 0 <= i < r.metrics@.len() ==> metric_from(metrics_of(input)[i], #[trigger] r.metrics@[i])
    &&& r.groups@.len() == groups_of(input).len()
    &&& forall|i: int| 0 <= i < r.groups@.len() ==> group_from(groups_of(input)[i], #[trigger] r.groups@[i])
    &&& r.next_steps@.len() == steps_of(input).len()
    &&& forall|i: int| 0 <= i < r.next_steps@.len() ==> step_from(steps_of(input)[i], #[trigger] r.next_steps@[i])
    &&& r.scope_notes@.len() == 0
    &&& r.vocabulary_notes@.len() == 0
}

/// Builds the report a host describes.
pub fn report_from_input(input: &JsReportInput) -> (r: Result<Report, BindingError>)
    ensures
        !schema_supported(*input) ==> (r matches Err(BindingError::UnsupportedSchema)),
        schema_supported(*input) ==> (report_fault(*input) matches Some(f) ==> (r matches Err(e) && refuses(e, f))),
        schema_supported(*input) ==> (report_fault(*input) is None ==> (r matches Ok(rep) && report_from(*input, rep))),
{
    match input.schema_version {
        Some(v) => if v != 1 {
            return Err(BindingError::UnsupportedSchema);
        },
        None => {},
    }
    let detail_level = match parse_detail_level(text_or(&input.detail_level, "compact")) {
        Ok(d) => d,
        Err(e) => { return Err(e); },
    };
    let verdict = match parse_verdict(input.verdict.as_str()) {
        Ok(v) => v,
        Err(e) => { return Err(e); },
    };
    let mut report = Report::new(input.title.as_str(), verdict).with_detail_level(detail_level);
    match input.max_compact_samples {
        Some(m) => { report.max_compact_samples = m as usize; },
        None => {},
    }
    let no_metrics: Vec<JsMetric> = Vec::new();
    let ms: &Vec<JsMetric> = match &input.metrics {
        Some(v) => v,
        None => &no_metrics,
    };
    let ghost mf = |m: JsMetric| metric_fault(m);
    let mut i: usize = 0;
    while i < ms.len()
        invariant
            i <= ms@.len(),
            ms@ == metrics_of(*input),
            mf == (|m: JsMetric| metric_fault(m)),
            schema_supported(*input),
            detail_named(or_default(input.detail_level, "compact"@)) == Some(detail_level),
            verdict_named(input.verdict@) == Some(verdict),
            first_fault(ms@.take(i as int), mf) is None,
            report.title@ == input.title@,
            report.verdict == verdict,
            report.detail_level == detail_level,
            report.max_compact_samples == match input.max_compact_samples {
                Some(m) => m as usize,
                None => 3usize,
            },
            report.top_issues_threshold == Some(20usize),
            report.metrics@.len() == i,
            forall|k: int| 0 <= k < i ==> metric_from(ms@[k], #[trigger] report.metrics@[k]),
            report.groups@.len() == 0,
            report.next_steps@.len() == 0,
            report.scope_notes@.len() == 0,
            report.vocabulary_notes@.len() == 0,
        decreases ms@.len() - i,
    {
        let ghost t = ms@.take(i as int + 1);
        proof {
            assert(t.drop_last() =~= ms@.take(i as int));
            assert(t.last() == ms@[i as int]);
        }
        let metric = match metric_from_input(&ms[i]) {
            Ok(m) => m,
            Err(e) => {
                proof { lemma_first_fault_prefix(ms@, mf, i as int + 1); }
                return Err(e);
            },
        };
        let ghost before = report.metrics@;
        report = report.add_metric(metric);
        proof {
            assert forall|k: int| 0 <= k < i + 1 implies metric_from(ms@[k], #[trigger] report.metrics@[k]) by {
                if k < i {
                    assert(report.metrics@[k] == before[k]);
                }
            }
        }
        i = i + 1;
    }
    assert(ms@.take(i as int) =~= ms@);
    let no_groups: Vec<JsFindingGroup> = Vec::new();
    let gs: &Vec<JsFindingGroup> = match &input.groups {
        Some(v) => v,
        None => &no_groups,
    };
    let ghost gf = |g: JsFindingGroup| group_fault(g);
    let mut j: usize = 0;
    while j < gs.len()
        invariant
            j <= gs@.len(),
            gs@ == groups_of(*input),
            gf == (|g: JsFindingGroup| group_fault(g)),
            schema_supported(*input),
            detail_named(or_default(input.detail_level, "compact"@)) == Some(detail_level),
            verdict_named(input.verdict@) == Some(verdict),
            first_fault(metrics_of(*input), |m: JsMetric| metric_fault(m)) is None,
            first_fault(gs@.take(j as int), gf) is None,
            report.title@ == input.title@,
            report.verdict == verdict,
            report.detail_level == detail_level,
            report.max_compact_samples == match input.max_compact_samples {
                Some(m) => m as usize,
                None => 3usize,
            },
            report.top_issues_threshold == Some(20usize),
            report.metrics@.len() == metrics_of(*input).len(),
            forall|k: int| 0 <= k < report.metrics@.len() ==> metric_from(metrics_of(*input)[k], #[trigger] report.metrics@[k]),
            report.groups@.len() == j,
            forall|k: int| 0 <= k < j ==> group_from(gs@[k], #[trigger] report.groups@[k]),
            report.next_steps@.len() == 0,
            report.scope_notes@.len() == 0,
            report.vocabulary_notes@.len() == 0,
        decreases gs@.len() - j,
    {
        let ghost t = gs@.take(j as int + 1);
        proof {
            assert(t.drop_last() =~= gs@.take(j as int));
            assert(t.last() == gs@[j as int]);
        }
        let group = match group_from_input(&gs[j]) {
            Ok(g) => g,
            Err(e) => {
                proof { lemma_first_fault_prefix(gs@, gf, j as int + 1); }
                return Err(e);
            },
        };
        let ghost before = report.groups@;
        report = report.add_group(group);
        proof {
            assert forall|k: int| 0 <= k < j + 1 implies group_from(gs@[k], #[trigger] report.groups@[k]) by {
                if k < j {
                    assert(report.groups@[k] == before[k]);
                }
            }
        }
        j = j + 1;
    }
    assert(gs@.take(j as int) =~= gs@);
    let no_steps: Vec<JsNextStep> = Vec::new();
    let ss: &Vec<JsNextStep> = match &input.next_steps {
        Some(v) => v,
        None => &no_steps,
    };
    let mut k: usize = 0;
    while k < ss.len()
        invariant
            k <= ss@.len(),
            ss@ == steps_of(*input),
            report.title@ == input.title@,
            report.verdict == verdict,
            report.detail_level == detail_level,
            report.max_compact_samples == match input.max_compact_samples {
                Some(m) => m as usize,
                None => 3usize,
            },
            report.top_issues_threshold == Some(20usize),
            report.metrics@.len() == metrics_of(*input).len(),
            forall|m: int| 0 <= m < report.metrics@.len() ==> metric_from(metrics_of(*input)[m], #[trigger] report.metrics@[m]),
            report.groups@.len() == groups_of(*input).len(),
            forall|m: int| 0 <= m < report.groups@.len() ==> group_from(groups_of(*input)[m], #[trigger] report.groups@[m]),
            report.next_steps@.len() == k,
            forall|m: int| 0 <= m < k ==> step_from(ss@[m], #[trigger] report.next_steps@[m]),
            report.scope_notes@.len() == 0,
            report.vocabulary_notes@.len() == 0,
        decreases ss@.len() - k,
    {
        let step_in = &ss[k];
        let mut step = NextStep::new(step_in.text.as_str());
        match &step_in.command {
            Some(c) => { step = step.with_command(c.as_str()); },
            None => {},
        }
        let ghost before = report.next_steps@;
        report = report.add_next_step(step);
        proof {
            assert forall|m: int| 0 <= m < k + 1 implies step_from(ss@[m], #[trigger] report.next_steps@[m]) by {
                if m < k {
                    assert(report.next_steps@[m] == before[m]);
                }
            }
        }
        k = k + 1;
    }
    Ok(report)
}

/// Native state behind the JavaScript console facade.
pub struct NativeConsole {
    console: Console,
}

impl NativeConsole {
    /// The console this facade paints with.
    pub closed spec fn spec_console(&self) -> Console {
        self.console
    }

    /// Builds the console that the options describe.
    pub fn new(options: Option<JsConsoleOptions>, stdout_terminal: bool, no_color_unset: bool) -> (r: Result<Self, BindingError>)
        ensures
            console_fault(options_color(options), options_symbols(options)) is None ==> (r matches Ok(n)
                && n.spec_console() == console_named(options_color(options), options_symbols(options),
                    options_terminal(options, stdout_terminal), no_color_unset)),
            console_fault(options_color(options), options_symbols(options)) matches Some(f) ==> r matches Err(e) && refuses(e, f),
    {
        match console_from_options(options, stdout_terminal, no_color_unset) {
            Ok(console) => Ok(NativeConsole { console }),
            Err(e) => Err(e),
        }
    }

    /// Paints `message` in the named tone.
    pub fn paint(&self, tone: String, message: String) -> (r: Result<String, BindingError>)
        ensures
            tone_named(tone@) matches Some(t) ==> (r matches Ok(s)
                && s@ == crate::color::painted(self.spec_console().spec_color(), t, message@)),
            tone_named(tone@) is None ==> (r matches Err(e) && refuses(e, ("tone"@, tone@))),
    {
        match parse_tone(tone.as_str()) {
            Ok(t) => Ok(self.console.paint(t, message.as_str())),
            Err(e) => Err(e),
        }
    }

    /// Renders a verdict line for the named verdict.
    pub fn render_verdict(&self, verdict: String, message: String) -> (r: Result<String, BindingError>)
        ensures
            verdict_named(verdict@) matches Some(v) ==> (r matches Ok(s)
                && s@ == verdict_line(self.spec_console(), v, message@)),
            verdict_named(verdict@) is None ==> (r matches Err(e) && refuses(e, ("verdict"@, verdict@))),
    {
        match parse_verdict(verdict.as_str()) {
            Ok(v) => Ok(v.render(self.console, message.as_str())),
            Err(e) => Err(e),
        }
    }
}

/// The colour mode a host's render options name.
pub open spec fn render_color(o: Option<JsRenderOptions>) -> Option<String> {
    match o { Some(o) => o.color, None => None }
}

/// The symbol theme a host's render options name.
pub open spec fn render_symbols(o: Option<JsRenderOptions>) -> Option<String> {
    match o { Some(o) => o.symbols, None => None }
}

/// Whether the stream is a terminal: as the render options say, or as
/// measured.
pub open spec fn render_terminal(o: Option<JsRenderOptions>, measured: bool) -> bool {
    match o {
        Some(o) => match o.is_terminal { Some(t) => t, None => measured },
        None => measured,
    }
}

/// The width the render options give: none for zero.
pub open spec fn render_width(o: Option<JsRenderOptions>) -> Option<usize> {
    match o {
        Some(o) => match o.width {
            Some(w) => if w > 0 { Some(w as usize) } else { None },
            None => None,
        },
        None => None,
    }
}

/// The console and layout that render options describe.
pub fn render_context(options: Option<JsRenderOptions>, stdout_terminal: bool, no_color_unset: bool) -> (r: Result<(Console, RenderOptions), BindingError>)
    ensures
        console_fault(render_color(options), render_symbols(options)) is None ==> (r matches Ok(ctx)
            && ctx.0 == console_named(render_color(options), render_symbols(options),
                render_terminal(options, stdout_terminal), no_color_unset)
            && ctx.1.spec_width() == render_width(options)),
        console_fault(render_color(options), render_symbols(options)) matches Some(f) ==> r matches Err(e) && refuses(e, f),
{
    match options {
        Some(o) => {
            let is_terminal = match o.is_terminal { Some(t) => t, None => stdout_terminal };
            let console = match console_from_parts(&o.color, &o.symbols, is_terminal, no_color_unset) {
                Ok(c) => c,
                Err(e) => { return Err(e); },
            };
            let layout = match o.width {
                Some(w) => RenderOptions::new().with_width(w as usize),
                None => RenderOptions::new(),
            };
            Ok((console, layout))
        },
        None => {
            let console = match console_from_parts(&None, &None, stdout_terminal, no_color_unset) {
                Ok(c) => c,
                Err(e) => { return Err(e); },
            };
            Ok((console, RenderOptions::new()))
        },
    }
}

/// Native state behind the JavaScript report facade.
pub struct NativeReport {
    report: Report,
}

impl NativeReport {
    /// The report this facade renders.
    pub closed spec fn spec_report(&self) -> Report {
        self.report
    }

    /// Builds the report a host describes.
    pub fn new(input: JsReportInput) -> (r: Result<Self, BindingError>)
        ensures
            !schema_supported(input) ==> (r matches Err(BindingError::UnsupportedSchema)),
            schema_supported(input) ==> (report_fault(input) matches Some(f) ==> (r matches Err(e) && refuses(e, f))),
            schema_supported(input) ==> (report_fault(input) is None ==> (r matches Ok(n) && report_from(input, n.spec_report()))),
    {
        match report_from_input(&input) {
            Ok(report) => Ok(NativeReport { report }),
            Err(e) => Err(e),
        }
    }

    /// Renders the report with the console and layout the options describe.
    pub fn render(&self, options: Option<JsRenderOptions>, stdout_terminal: bool, no_color_unset: bool) -> (r: Result<String, BindingError>)
        ensures
            console_fault(render_color(options), render_symbols(options)) matches Some(f) ==> r matches Err(e) && refuses(e, f),
            console_fault(render_color(options), render_symbols(options)) is None ==> (r matches Ok(s)
                && exists|resolved: Seq<Seq<Seq<char>>>|
                    resolved_for(self.spec_report(), console_named(render_color(options), render_symbols(options),
                        render_terminal(options, stdout_terminal), no_color_unset).spec_color(), resolved)
                    && s@ == #[trigger] report_text(
                    console_named(render_color(options), render_symbols(options), render_terminal(options, stdout_terminal), no_color_unset),
                    render_width(options), self.spec_report(), resolved)),
    {
        match render_context(options, stdout_terminal, no_color_unset) {
            Ok((console, layout)) => Ok(self.report.render_with_options(console, layout)),
            Err(e) => Err(e),
        }
    }
}

/// The colour mode a host's progress options name.
pub open spec fn progress_color(o: Option<JsProgressOptions>) -> Option<String> {
    match o { Some(o) => o.color, None => None }
}

/// The symbol theme a host's progress options name.
pub open spec fn progress_symbols(o: Option<JsProgressOptions>) -> Option<String> {
    match o { Some(o) => o.symbols, None => None }
}

/// The progress mode a host's options name: `auto` by default.
pub open spec fn progress_mode_text(o: Option<JsProgressOptions>) -> Seq<char> {
    match o { Some(o) => or_default(o.mode, "auto"@), None => "auto"@ }
}

/// Whether a stream is a terminal: as the progress options say, or as
/// measured.
pub open spec fn progress_terminal(o: Option<JsProgressOptions>, measured: bool) -> bool {
    match o {
        Some(o) => match o.is_terminal { Some(t) => t, None => measured },
        None => measured,
    }
}

/// The fault in a host's progress options: one in the console options, then
/// an unknown progress mode.
pub open spec fn progress_fault(o: Option<JsProgressOptions>) -> Option<(Seq<char>, Seq<char>)> {
    or_else(console_fault(progress_color(o), progress_symbols(o)),
        fault_unless(progress_named(progress_mode_text(o)) is Some, "progress mode"@, progress_mode_text(o)))
}

/// The console, mode and terminal capability a progress run on standard
/// error is set up with. The console falls back on whether standard output
/// is a terminal, the run itself on whether standard error is.
pub fn progress_settings(options: Option<JsProgressOptions>, stdout_terminal: bool, stderr_terminal: bool, no_color_unset: bool)
    -> (r: Result<(Console, ProgressMode, bool), BindingError>)
    ensures
        progress_fault(options) matches Some(f) ==> r matches Err(e) && refuses(e, f),
        progress_fault(options) is None ==> (r matches Ok(s)
            && s.0 == console_named(progress_color(options), progress_symbols(options),
                progress_terminal(options, stdout_terminal), no_color_unset)
            && Some(s.1) == progress_named(progress_mode_text(options))
            && s.2 == progress_terminal(options, stderr_terminal)),
{
    let none: Option<String> = None;
    let (color, symbols, is_terminal, mode): (&Option<String>, &Option<String>, Option<bool>, &str) = match &options {
        Some(o) => (&o.color, &o.symbols, o.is_terminal, text_or(&o.mode, "auto")),
        None => (&none, &none, None, "auto"),
    };
    let console_terminal = match is_terminal { Some(t) => t, None => stdout_terminal };
    let console = match console_from_parts(color, symbols, console_terminal, no_color_unset) {
        Ok(c) => c,
        Err(e) => { return Err(e); },
    };
    let mode = match parse_progress_mode(mode) {
        Ok(m) => m,
        Err(e) => { return Err(e); },
    };
    let run_terminal = match is_terminal { Some(t) => t, None => stderr_terminal };
    Ok((console, mode, run_terminal))
}

} // verus!
