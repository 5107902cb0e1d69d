//! Rendering of the report model to plain and ANSI-styled terminal output.

use vstd::prelude::*;
use crate::color::{Console, SymbolTheme, Tone, painted, sanitize, push_sanitized};
use crate::text::{char_count, decimal, decimal_string, display_width, push_char, push_decimal, push_repeat, push_str, repeat, sat, str_width};
use crate::verdict::verdict_line;
use crate::location::{Location, plain_text, possible_target, rendered};
use super::model::{
    DetailLevel, RenderOptions, Finding, FindingGroup, Metric, NextStep, Report, ScopeNote, Trend, Vocabulary,
    badge_text, confidence_label, group_count,
};
use super::top::{count_rules, entries_at, law_top_rules_unique, report_rules, select_top, top_ok, top_rules};
use super::wrap::{
    continuation, start_suffix, strings_view, suffix_end, suffix_lead, wrapped, write_wrapped_toned_text,
};

verus! {

/// `a` and `b` added, then clamped, is `a` clamped, `b` added, then clamped.
pub proof fn lemma_sat_add(a: int, b: int)
    requires
        a >= 0,
        b >= 0,
    ensures
        sat(sat(a) + b) == sat(a + b),
{
}

/// The items joined by `sep`.
pub open spec fn join(items: Seq<Seq<char>>, sep: Seq<char>) -> Seq<char>
    decreases items.len(),
{
    if items.len() == 0 {
        Seq::empty()
    } else if items.len() == 1 {
        items[0]
    } else {
        join(items.drop_last(), sep) + sep + items.last()
    }
}

/// Appends the strings of `items` joined by `sep`.
fn push_joined(out: &mut String, items: &Vec<String>, sep: &str)
    ensures
        final(out)@ == old(out)@ + join(strings_view(items@), sep@),
{
    let ghost start = out@;
    let mut i: usize = 0;
    while i < items.len()
        invariant
            i <= items@.len(),
            out@ == start + join(strings_view(items@.take(i as int)), sep@),
        decreases items@.len() - i,
    {
        let ghost prev = strings_view(items@.take(i as int));
        if i > 0 {
            push_str(out, sep);
        }
        push_str(out, items[i].as_str());
        proof {
            let now = strings_view(items@.take(i as int + 1));
            assert(now.drop_last() =~= prev);
            assert(now.last() == items@[i as int]@);
            if i == 0 {
                assert(prev.len() == 0);
                assert(now =~= seq![items@[0]@]);
            }
        }
        i = i + 1;
    }
    assert(items@.take(i as int) =~= items@);
}

/// The text of a vocabulary note.
pub open spec fn vocab_text(v: Vocabulary) -> Seq<char> {
    match v {
        Vocabulary::DryRun => "[DRY-RUN]"@,
        Vocabulary::EmptyState(m) => m@,
        Vocabulary::Baseline(b) => "Baseline: "@ + b@,
        Vocabulary::Truncated(n) => "Truncated at "@ + decimal(n as nat),
    }
}

/// The vocabulary notes line: the notes joined by ` • `, muted, if there
/// are any.
pub open spec fn notes_line(console: Console, vs: Seq<Vocabulary>) -> Seq<char> {
    if vs.len() == 0 {
        Seq::empty()
    } else {
        seq![' ', ' '] + painted(console.spec_color(), Tone::Muted,
            join(vs.map_values(|v: Vocabulary| vocab_text(v)), seq![' ', '•', ' '])) + seq!['\n']
    }
}

/// A scope note line: its heading as a warning, then its items joined by
/// commas, muted.
pub open spec fn scope_line(console: Console, n: ScopeNote) -> Seq<char> {
    seq![' ', ' '] + painted(console.spec_color(), Tone::Warning, n.heading@ + seq![':', ' '])
        + painted(console.spec_color(), Tone::Muted, join(strings_view(n.items@), seq![',', ' '])) + seq!['\n']
}

/// The scope note lines, in order.
pub open spec fn scope_lines(console: Console, ns: Seq<ScopeNote>) -> Seq<char>
    decreases ns.len(),
{
    if ns.len() == 0 {
        Seq::empty()
    } else {
        scope_lines(console, ns.drop_last()) + scope_line(console, ns.last())
    }
}

/// The report header: the verdict line for the title, the vocabulary
/// notes, the scope notes, and a blank line.
pub open spec fn header_text(console: Console, r: Report) -> Seq<char> {
    verdict_line(console, r.verdict, r.title@) + seq!['\n'] + notes_line(console, r.vocabulary_notes@)
        + scope_lines(console, r.scope_notes@) + seq!['\n']
}

fn vocab_string(v: &Vocabulary) -> (s: String)
    ensures
        s@ == vocab_text(*v),
{
    let mut s = String::new();
    match v {
        Vocabulary::DryRun => {
            push_str(&mut s, "[DRY-RUN]");
        },
        Vocabulary::EmptyState(m) => {
            push_str(&mut s, m.as_str());
        },
        Vocabulary::Baseline(b) => {
            push_str(&mut s, "Baseline: ");
            push_str(&mut s, b.as_str());
        },
        Vocabulary::Truncated(n) => {
            push_str(&mut s, "Truncated at ");
            push_decimal(&mut s, *n as u64);
        },
    }
    assert(s@ =~= vocab_text(*v));
    s
}

fn write_scope_note(console: Console, n: &ScopeNote, out: &mut String)
    ensures
        final(out)@ == old(out)@ + scope_line(console, *n),
{
    let mut heading = String::new();
    push_str(&mut heading, n.heading.as_str());
    push_str(&mut heading, ": ");
    let mut items = String::new();
    push_joined(&mut items, &n.items, ", ");
    push_str(out, "  ");
    console.write_paint(Tone::Warning, heading.as_str(), out);
    console.write_paint(Tone::Muted, items.as_str(), out);
    push_char(out, '\n');
    proof {
        reveal_strlit("  ");
        reveal_strlit(": ");
        reveal_strlit(", ");
        assert(heading@ =~= n.heading@ + seq![':', ' ']);
        assert(", "@ =~= seq![',', ' ']);
        assert(items@ =~= join(strings_view(n.items@), seq![',', ' ']));
    }
    assert(final(out)@ =~= old(out)@ + scope_line(console, *n));
}

impl Report {
    /// Appends the header: verdict line, vocabulary badges, and scope notes.
    pub fn write_header(&self, console: Console, out: &mut String)
        ensures
            final(out)@ == old(out)@ + header_text(console, *self),
    {
        let ghost start = out@;
        self.verdict.write_to(console, self.title.as_str(), out);
        push_char(out, '\n');
        let ghost a = out@;
        if self.vocabulary_notes.len() > 0 {
            let mut items: Vec<String> = Vec::new();
            let mut i: usize = 0;
            while i < self.vocabulary_notes.len()
                invariant
                    i <= self.vocabulary_notes@.len(),
                    strings_view(items@) == self.vocabulary_notes@.take(i as int).map_values(|v: Vocabulary| vocab_text(v)),
                decreases self.vocabulary_notes@.len() - i,
            {
                let t = vocab_string(&self.vocabulary_notes[i]);
                let ghost old_items = items@;
                let ghost tv = t@;
                items.push(t);
                proof {
                    assert(strings_view(items@) =~= strings_view(old_items).push(tv));
                    assert(self.vocabulary_notes@.take(i as int + 1).map_values(|v: Vocabulary| vocab_text(v))
                        =~= self.vocabulary_notes@.take(i as int).map_values(|v: Vocabulary| vocab_text(v))
                            .push(vocab_text(self.vocabulary_notes@[i as int])));
                }
                i = i + 1;
            }
            assert(self.vocabulary_notes@.take(i as int) =~= self.vocabulary_notes@);
            let mut line = String::new();
            push_joined(&mut line, &items, " • ");
            proof {
                reveal_strlit(" • ");
                assert(" • "@ =~= seq![' ', '•', ' ']);
            }
            push_str(out, "  ");
            console.write_paint(Tone::Muted, line.as_str(), out);
            push_char(out, '\n');
            proof { reveal_strlit("  "); }
        }
        assert(out@ =~= a + notes_line(console, self.vocabulary_notes@));
        let ghost b = out@;
        let mut k: usize = 0;
        while k < self.scope_notes.len()
            invariant
                k <= self.scope_notes@.len(),
                out@ == b + scope_lines(console, self.scope_notes@.take(k as int)),
            decreases self.scope_notes@.len() - k,
        {
            write_scope_note(console, &self.scope_notes[k], out);
            proof {
                assert(self.scope_notes@.take(k as int + 1).drop_last() =~= self.scope_notes@.take(k as int));
            }
            k = k + 1;
        }
        assert(self.scope_notes@.take(k as int) =~= self.scope_notes@);
        push_char(out, '\n');
        assert(out@ =~= start + header_text(console, *self));
    }
}

/// The tone of a metric's delta: success for a positive trend, error for a
/// negative one, muted otherwise.
pub open spec fn trend_tone(t: Option<Trend>) -> Tone {
    match t {
        Some(Trend::Positive) => Tone::Success,
        Some(Trend::Negative) => Tone::Error,
        _ => Tone::Muted,
    }
}

/// A metric: its muted key and a colon, its value in its tone (information
/// by default), and its delta in brackets in the trend's tone.
pub open spec fn metric_text(console: Console, m: Metric) -> Seq<char> {
    painted(console.spec_color(), Tone::Muted, m.key@ + seq![':', ' '])
        + painted(console.spec_color(), match m.tone { Some(t) => t, None => Tone::Info }, m.value@)
        + match m.delta {
            Some(d) => seq![' '] + painted(console.spec_color(), trend_tone(m.trend), seq!['('] + d@ + seq![')']),
            None => Seq::empty(),
        }
}

/// The columns a metric takes.
pub open spec fn metric_width(m: Metric) -> int {
    str_width(m.key@) + 2 + str_width(m.value@) + match m.delta {
        Some(d) => str_width(d@) as int + 3,
        None => 0int,
    }
}

/// The columns the metrics take in total.
pub open spec fn metrics_width(ms: Seq<Metric>) -> int
    decreases ms.len(),
{
    if ms.len() == 0 { 0 } else { metrics_width(ms.drop_last()) + metric_width(ms.last()) }
}

/// Whether the metrics are stacked one per line: when a width is given and
/// the metrics on one line, indented and three spaces apart, would pass it
/// (the columns counted up to the largest `usize`).
pub open spec fn metrics_stack(width: Option<usize>, ms: Seq<Metric>) -> bool {
    match width {
        Some(w) => sat(2 + metrics_width(ms) + 3 * (ms.len() - 1)) > w,
        None => false,
    }
}

/// The metrics one per line, indented.
pub open spec fn stacked_metrics(console: Console, ms: Seq<Metric>) -> Seq<char>
    decreases ms.len(),
{
    if ms.len() == 0 {
        Seq::empty()
    } else {
        stacked_metrics(console, ms.drop_last()) + seq![' ', ' '] + metric_text(console, ms.last()) + seq!['\n']
    }
}

/// The metrics on one line, three spaces apart.
pub open spec fn inline_metrics(console: Console, ms: Seq<Metric>) -> Seq<char>
    decreases ms.len(),
{
    if ms.len() == 0 {
        Seq::empty()
    } else if ms.len() == 1 {
        metric_text(console, ms[0])
    } else {
        inline_metrics(console, ms.drop_last()) + seq![' ', ' ', ' '] + metric_text(console, ms.last())
    }
}

/// The summary metrics grid and a blank line, if there are metrics.
pub open spec fn metrics_text(console: Console, width: Option<usize>, ms: Seq<Metric>) -> Seq<char> {
    if ms.len() == 0 {
        Seq::empty()
    } else if metrics_stack(width, ms) {
        stacked_metrics(console, ms) + seq!['\n']
    } else {
        seq![' ', ' '] + inline_metrics(console, ms) + seq!['\n', '\n']
    }
}

fn write_metric(metric: &Metric, console: Console, out: &mut String)
    ensures
        final(out)@ == old(out)@ + metric_text(console, *metric),
{
    let ghost start = out@;
    let mut key = String::new();
    push_str(&mut key, metric.key.as_str());
    push_str(&mut key, ": ");
    proof {
        reveal_strlit(": ");
        assert(key@ =~= metric.key@ + seq![':', ' ']);
    }
    console.write_paint(Tone::Muted, key.as_str(), out);
    let tone = match metric.tone { Some(t) => t, None => Tone::Info };
    console.write_paint(tone, metric.value.as_str(), out);
    let ghost mid = out@;
    match &metric.delta {
        Some(d) => {
            push_char(out, ' ');
            let trend_tone = match metric.trend {
                Some(Trend::Positive) => Tone::Success,
                Some(Trend::Negative) => Tone::Error,
                _ => Tone::Muted,
            };
            let mut t = String::new();
            push_char(&mut t, '(');
            push_str(&mut t, d.as_str());
            push_char(&mut t, ')');
            assert(t@ =~= seq!['('] + d@ + seq![')']);
            console.write_paint(trend_tone, t.as_str(), out);
        },
        None => {},
    }
    assert(out@ =~= start + metric_text(console, *metric));
}

/// The columns a metric takes, clamped to the largest `usize`.
fn metric_display_width(metric: &Metric) -> (w: usize)
    ensures
        w as int == sat(metric_width(*metric)),
{
    let kw = display_width(metric.key.as_str());
    let vw = display_width(metric.value.as_str());
    let base = kw.saturating_add(2).saturating_add(vw);
    proof {
        lemma_sat_add(kw + 2, vw as int);
    }
    match &metric.delta {
        Some(d) => {
            let dw = display_width(d.as_str()).saturating_add(3);
            proof {
                lemma_sat_add(kw + 2 + vw, dw as int);
                lemma_sat_add(str_width(d@) as int + 3, kw + 2 + vw);
                assert(sat(kw + 2 + vw + sat(str_width(d@) as int + 3)) == sat(kw + 2 + vw + str_width(d@) + 3));
            }
            base.saturating_add(dw)
        },
        None => base,
    }
}

impl Report {
    /// Appends the summary metrics grid.
    pub fn write_metrics(&self, console: Console, width: Option<usize>, out: &mut String)
        ensures
            final(out)@ == old(out)@ + metrics_text(console, width, self.metrics@),
    {
        let ms = &self.metrics;
        if ms.len() == 0 {
            assert(out@ =~= old(out)@ + metrics_text(console, width, self.metrics@));
            return;
        }
        let mut inline_width: usize = 2;
        let mut i: usize = 0;
        while i < ms.len()
            invariant
                0 < ms@.len(),
                i <= ms@.len(),
                inline_width as int == sat(2 + metrics_width(ms@.take(i as int)) + 3 * (if i == 0 { 0int } else { i - 1 })),
            decreases ms@.len() - i,
        {
            let ghost prev = 2 + metrics_width(ms@.take(i as int)) + 3 * (if i == 0 { 0int } else { i - 1 });
            let mw = metric_display_width(&ms[i]);
            proof {
                assert(ms@.take(i as int + 1).drop_last() =~= ms@.take(i as int));
                assert(ms@.take(i as int + 1).last() == ms@[i as int]);
                assert(metrics_width(ms@.take(i as int)) >= 0) by {
                    lemma_metrics_width_nonneg(ms@.take(i as int));
                }
                lemma_sat_add(prev, metric_width(ms@[i as int]));
                lemma_sat_add(metric_width(ms@[i as int]), prev);
            }
            inline_width = inline_width.saturating_add(mw);
            if i > 0 {
                proof { lemma_sat_add(prev + metric_width(ms@[i as int]), 3); }
                inline_width = inline_width.saturating_add(3);
            }
            i = i + 1;
        }
        assert(ms@.take(i as int) =~= ms@);
        proof {
            lemma_metrics_width_nonneg(ms@);
            let x = 2 + metrics_width(ms@) + 3 * (ms@.len() - 1);
            assert(inline_width as int == sat(x));
        }
        let stack = match width {
            Some(w) => inline_width > w,
            None => false,
        };
        assert(stack == metrics_stack(width, ms@));
        let ghost start = out@;
        if stack {
            let mut k: usize = 0;
            while k < ms.len()
                invariant
                    k <= ms@.len(),
                    out@ == start + stacked_metrics(console, ms@.take(k as int)),
                decreases ms@.len() - k,
            {
                push_str(out, "  ");
                write_metric(&ms[k], console, out);
                push_char(out, '\n');
                proof {
                    reveal_strlit("  ");
                    assert(ms@.take(k as int + 1).drop_last() =~= ms@.take(k as int));
                }
                k = k + 1;
            }
            assert(ms@.take(k as int) =~= ms@);
            push_char(out, '\n');
        } else {
            push_str(out, "  ");
            proof { reveal_strlit("  "); }
            let ghost lead = out@;
            let mut k: usize = 0;
            while k < ms.len()
                invariant
                    k <= ms@.len(),
                    out@ == lead + inline_metrics(console, ms@.take(k as int)),
                decreases ms@.len() - k,
            {
                if k > 0 {
                    push_str(out, "   ");
                    proof { reveal_strlit("   "); }
                }
                write_metric(&ms[k], console, out);
                proof {
                    assert(ms@.take(k as int + 1).drop_last() =~= ms@.take(k as int));
                    if k == 0 {
                        assert(ms@.take(1)[0] == ms@[0]);
                    }
                }
                k = k + 1;
            }
            assert(ms@.take(k as int) =~= ms@);
            push_char(out, '\n');
            push_char(out, '\n');
        }
        assert(out@ =~= start + metrics_text(console, width, self.metrics@));
    }
}

proof fn lemma_metrics_width_nonneg(ms: Seq<Metric>)
    ensures
        metrics_width(ms) >= 0,
    decreases ms.len(),
{
    if ms.len() > 0 {
        lemma_metrics_width_nonneg(ms.drop_last());
    }
}

/// The bullet of a next step under a theme.
pub open spec fn step_bullet(theme: SymbolTheme) -> Seq<char> {
    match theme {
        SymbolTheme::Unicode => seq!['•'],
        SymbolTheme::Ascii => seq!['-'],
    }
}

/// A next step: an indented bullet and its neutralised text, then its
/// command after `$ ` on a line of its own.
pub open spec fn step_text(console: Console, s: NextStep) -> Seq<char> {
    seq![' ', ' '] + step_bullet(console.spec_theme()) + seq![' '] + sanitize(s.text@) + seq!['\n']
        + match s.command {
            Some(c) => seq![' ', ' ', ' ', ' '] + painted(console.spec_color(), Tone::Info, seq!['$', ' '] + c@) + seq!['\n'],
            None => Seq::empty(),
        }
}

/// The next steps, in order.
pub open spec fn steps_text(console: Console, ss: Seq<NextStep>) -> Seq<char>
    decreases ss.len(),
{
    if ss.len() == 0 {
        Seq::empty()
    } else {
        steps_text(console, ss.drop_last()) + step_text(console, ss.last())
    }
}

/// The next steps under their heading, if there are any.
pub open spec fn next_steps_text(console: Console, ss: Seq<NextStep>) -> Seq<char> {
    if ss.len() == 0 {
        Seq::empty()
    } else {
        painted(console.spec_color(), Tone::Title, "Next steps:"@) + seq!['\n'] + steps_text(console, ss)
    }
}

fn write_step(console: Console, step: &NextStep, out: &mut String)
    ensures
        final(out)@ == old(out)@ + step_text(console, *step),
{
    let ghost start = out@;
    push_str(out, "  ");
    match console.symbol_theme() {
        SymbolTheme::Unicode => push_char(out, '•'),
        SymbolTheme::Ascii => push_char(out, '-'),
    }
    push_char(out, ' ');
    push_sanitized(out, step.text.as_str());
    push_char(out, '\n');
    proof { reveal_strlit("  "); }
    let ghost mid = out@;
    match &step.command {
        Some(c) => {
            let mut t = String::new();
            push_str(&mut t, "$ ");
            push_str(&mut t, c.as_str());
            proof {
                reveal_strlit("$ ");
                reveal_strlit("    ");
                assert(t@ =~= seq!['$', ' '] + c@);
            }
            push_str(out, "    ");
            console.write_paint(Tone::Info, t.as_str(), out);
            push_char(out, '\n');
        },
        None => {},
    }
    assert(out@ =~= start + step_text(console, *step));
}

impl Report {
    /// Appends the next-step recommendations, each with an optional copyable command.
    pub fn write_next_steps(&self, console: Console, out: &mut String)
        ensures
            final(out)@ == old(out)@ + next_steps_text(console, self.next_steps@),
    {
        if self.next_steps.len() == 0 {
            assert(out@ =~= old(out)@ + next_steps_text(console, self.next_steps@));
            return;
        }
        let ghost start = out@;
        console.write_paint(Tone::Title, "Next steps:", out);
        push_char(out, '\n');
        let ghost lead = out@;
        let mut k: usize = 0;
        while k < self.next_steps.len()
            invariant
                k <= self.next_steps@.len(),
                out@ == lead + steps_text(console, self.next_steps@.take(k as int)),
            decreases self.next_steps@.len() - k,
        {
            write_step(console, &self.next_steps[k], out);
            proof {
                assert(self.next_steps@.take(k as int + 1).drop_last() =~= self.next_steps@.take(k as int));
            }
            k = k + 1;
        }
        assert(self.next_steps@.take(k as int) =~= self.next_steps@);
        assert(out@ =~= start + next_steps_text(console, self.next_steps@));
    }
}

/// The start of a finding line: an indented dash and the painted badge.
pub open spec fn finding_head(console: Console, f: Finding) -> Seq<char> {
    seq![' ', ' ', '-', ' '] + match f.badge {
        Some(b) => painted(console.spec_color(), b.tone, badge_text(b.label@)) + seq![' '],
        None => Seq::empty(),
    }
}

/// The columns before a finding's message.
pub open spec fn message_start(f: Finding) -> int {
    match f.badge {
        Some(b) => sat(str_width(seq![' ', ' ', '-', ' ']) as int + str_width(badge_text(b.label@) + seq![' '])),
        None => str_width(seq![' ', ' ', '-', ' ']) as int,
    }
}

/// A finding's message in its tone, wrapped when a width is given. Gives
/// the text and the width of its last line.
pub open spec fn message_part(color: bool, width: Option<usize>, f: Finding) -> (Seq<char>, int) {
    match width {
        Some(w) => wrapped(color, f.tone, f.message@, w as int, message_start(f)),
        None => (painted(color, f.tone, f.message@), sat(message_start(f) + str_width(f.message@))),
    }
}

/// A rule identifier in square brackets.
pub open spec fn rule_text(r: Seq<char>) -> Seq<char> {
    seq!['['] + r + seq![']']
}

/// A confidence level in round brackets.
pub open spec fn confidence_text(c: super::model::Confidence) -> Seq<char> {
    seq!['('] + confidence_label(c) + seq![')']
}

/// A muted suffix after a line `lw` columns wide: the text and the line
/// width after it.
pub open spec fn muted_suffix(color: bool, width: Option<usize>, lw: int, t: Seq<char>) -> (Seq<char>, int) {
    let sw = str_width(t) as int;
    (suffix_lead(lw, sw, width) + painted(color, Tone::Muted, t), suffix_end(lw, sw, width))
}

/// The rule identifier suffix of a finding, if it has one.
pub open spec fn rule_part(color: bool, width: Option<usize>, f: Finding, lw: int) -> (Seq<char>, int) {
    match f.rule_id {
        Some(r) => muted_suffix(color, width, lw, rule_text(r@)),
        None => (Seq::empty(), lw),
    }
}

/// The confidence suffix of a finding, if it has one.
pub open spec fn confidence_part(color: bool, width: Option<usize>, f: Finding, lw: int) -> (Seq<char>, int) {
    match f.confidence {
        Some(c) => muted_suffix(color, width, lw, confidence_text(c)),
        None => (Seq::empty(), lw),
    }
}

/// The location suffix of a finding, if it has one: `at` and the rendered
/// location, a file location linking to `resolved`.
pub open spec fn location_part(console: Console, width: Option<usize>, f: Finding, lw: int, resolved: Seq<char>) -> Seq<char> {
    match f.location {
        Some(loc) => {
            let sw = sat(str_width(seq!['a', 't', ' ']) as int + str_width(plain_text(loc)));
            suffix_lead(lw, sw, width) + seq!['a', 't', ' '] + rendered(loc, console.spec_color(), resolved)
        },
        None => Seq::empty(),
    }
}

/// The remedy line of a finding, shown in detailed mode only.
pub open spec fn remedy_line(console: Console, level: DetailLevel, f: Finding) -> Seq<char> {
    if level == DetailLevel::Detailed {
        match f.remedy {
            Some(rem) => seq![' ', ' ', ' ', ' '] + painted(console.spec_color(), Tone::Muted, "Remedy: "@ + rem@) + seq!['\n'],
            None => Seq::empty(),
        }
    } else {
        Seq::empty()
    }
}

/// A finding as rendered: its line (badge, message, rule identifier,
/// confidence, location, each suffix moving to a continuation line where
/// it would pass the width) and, in detailed mode, its remedy.
pub open spec fn finding_text(console: Console, level: DetailLevel, width: Option<usize>, f: Finding, resolved: Seq<char>) -> Seq<char> {
    let color = console.spec_color();
    let m = message_part(color, width, f);
    let r = rule_part(color, width, f, m.1);
    let c = confidence_part(color, width, f, r.1);
    finding_head(console, f) + m.0 + r.0 + c.0 + location_part(console, width, f, c.1, resolved) + seq!['\n']
        + remedy_line(console, level, f)
}

/// Appends a muted suffix.
fn write_muted_suffix(console: Console, width: Option<usize>, line_width: usize, t: &str, out: &mut String) -> (lw: usize)
    ensures
        final(out)@ == old(out)@ + muted_suffix(console.spec_color(), width, line_width as int, t@).0,
        lw as int == muted_suffix(console.spec_color(), width, line_width as int, t@).1,
{
    let ghost start = out@;
    let lw = start_suffix(line_width, display_width(t), width, out);
    console.write_paint(Tone::Muted, t, out);
    assert(out@ =~= start + muted_suffix(console.spec_color(), width, line_width as int, t@).0);
    lw
}

fn write_finding_head(f: &Finding, console: Console, out: &mut String) -> (w: usize)
    ensures
        final(out)@ == old(out)@ + finding_head(console, *f),
        w as int == message_start(*f),
{
    let ghost start = out@;
    push_str(out, "  - ");
    proof {
        reveal_strlit("  - ");
        assert("  - "@ =~= seq![' ', ' ', '-', ' ']);
    }
    let mut message_start_width = display_width("  - ");
    match &f.badge {
        Some(b) => {
            let badge = b.render(console);
            push_str(out, badge.as_str());
            push_char(out, ' ');
            let mut t = String::new();
            push_char(&mut t, '[');
            push_str(&mut t, b.label.as_str());
            push_char(&mut t, ']');
            push_char(&mut t, ' ');
            assert(t@ =~= badge_text(b.label@) + seq![' ']);
            message_start_width = message_start_width.saturating_add(display_width(t.as_str()));
        },
        None => {},
    }
    assert(out@ =~= start + finding_head(console, *f));
    message_start_width
}

fn write_message(f: &Finding, console: Console, width: Option<usize>, start_width: usize, out: &mut String) -> (w: usize)
    requires
        start_width as int == message_start(*f),
    ensures
        final(out)@ == old(out)@ + message_part(console.spec_color(), width, *f).0,
        w as int == message_part(console.spec_color(), width, *f).1,
{
    match width {
        Some(w) => write_wrapped_toned_text(console, f.tone, f.message.as_str(), w, start_width, out),
        None => {
            console.write_paint(f.tone, f.message.as_str(), out);
            start_width.saturating_add(display_width(f.message.as_str()))
        },
    }
}

fn write_rule(f: &Finding, console: Console, width: Option<usize>, line_width: usize, out: &mut String) -> (w: usize)
    ensures
        final(out)@ == old(out)@ + rule_part(console.spec_color(), width, *f, line_width as int).0,
        w as int == rule_part(console.spec_color(), width, *f, line_width as int).1,
{
    match &f.rule_id {
        Some(r) => {
            let mut t = String::new();
            push_char(&mut t, '[');
            push_str(&mut t, r.as_str());
            push_char(&mut t, ']');
            assert(t@ =~= rule_text(r@));
            write_muted_suffix(console, width, line_width, t.as_str(), out)
        },
        None => {
            assert(out@ =~= old(out)@ + Seq::<char>::empty());
            line_width
        },
    }
}

fn write_confidence(f: &Finding, console: Console, width: Option<usize>, line_width: usize, out: &mut String) -> (w: usize)
    ensures
        final(out)@ == old(out)@ + confidence_part(console.spec_color(), width, *f, line_width as int).0,
        w as int == confidence_part(console.spec_color(), width, *f, line_width as int).1,
{
    match &f.confidence {
        Some(conf) => {
            let mut t = String::new();
            push_char(&mut t, '(');
            push_str(&mut t, conf.label());
            push_char(&mut t, ')');
            assert(t@ =~= confidence_text(*conf));
            write_muted_suffix(console, width, line_width, t.as_str(), out)
        },
        None => {
            assert(out@ =~= old(out)@ + Seq::<char>::empty());
            line_width
        },
    }
}

fn write_location(f: &Finding, console: Console, width: Option<usize>, line_width: usize, resolved: &str, out: &mut String)
    ensures
        final(out)@ == old(out)@ + location_part(console, width, *f, line_width as int, resolved@),
{
    let ghost start = out@;
    match &f.location {
        Some(loc) => {
            let plain = loc.to_plain_string();
            proof {
                reveal_strlit("at ");
                assert("at "@ =~= seq!['a', 't', ' ']);
            }
            let location_width = display_width("at ").saturating_add(display_width(plain.as_str()));
            start_suffix(line_width, location_width, width, out);
            push_str(out, "at ");
            let text = loc.render_resolved(console, resolved);
            push_str(out, text.as_str());
        },
        None => {},
    }
    assert(out@ =~= start + location_part(console, width, *f, line_width as int, resolved@));
}

fn write_remedy(f: &Finding, console: Console, detail_level: DetailLevel, out: &mut String)
    ensures
        final(out)@ == old(out)@ + remedy_line(console, detail_level, *f),
{
    let ghost start = out@;
    if detail_level == DetailLevel::Detailed {
        match &f.remedy {
            Some(rem) => {
                let mut t = String::new();
                push_str(&mut t, "Remedy: ");
                push_str(&mut t, rem.as_str());
                push_str(out, "    ");
                console.write_paint(Tone::Muted, t.as_str(), out);
                push_char(out, '\n');
                proof {
                    reveal_strlit("    ");
                    reveal_strlit("Remedy: ");
                    assert(t@ =~= "Remedy: "@ + rem@);
                }
            },
            None => {},
        }
    }
    assert(out@ =~= start + remedy_line(console, detail_level, *f));
}

/// Appends a single finding line and, in detailed mode, its remedy.
#[verifier::rlimit(40)]
pub fn write_finding(f: &Finding, console: Console, detail_level: DetailLevel, width: Option<usize>, resolved: &str, out: &mut String)
    ensures
        final(out)@ == old(out)@ + finding_text(console, detail_level, width, *f, resolved@),
{
    let ghost start = out@;
    let msw = write_finding_head(f, console, out);
    let lw1 = write_message(f, console, width, msw, out);
    let lw2 = write_rule(f, console, width, lw1, out);
    let lw3 = write_confidence(f, console, width, lw2, out);
    write_location(f, console, width, lw3, resolved, out);
    push_char(out, '\n');
    write_remedy(f, console, detail_level, out);
    assert(out@ =~= start + finding_text(console, detail_level, width, *f, resolved@));
}

/// The marker of a finding group under a theme.
pub open spec fn group_marker(theme: SymbolTheme) -> Seq<char> {
    match theme {
        SymbolTheme::Unicode => seq!['●'],
        SymbolTheme::Ascii => seq!['*'],
    }
}

/// How many findings of a group are shown at most: the compact sample size,
/// or all in detailed mode.
pub open spec fn sample_limit(level: DetailLevel, max_samples: usize) -> nat {
    match level {
        DetailLevel::Compact => max_samples as nat,
        DetailLevel::Detailed => usize::MAX as nat,
    }
}

/// How many findings of a group are shown.
pub open spec fn shown_count(g: FindingGroup, level: DetailLevel, max_samples: usize) -> nat {
    let limit = sample_limit(level, max_samples);
    if g.findings@.len() <= limit { g.findings@.len() } else { limit }
}

/// The notice for findings that are not shown.
pub open spec fn omitted_text(level: DetailLevel, n: nat) -> Seq<char> {
    match level {
        DetailLevel::Compact => "... "@ + decimal(n) + " more finding(s) (use --details to view all)"@,
        DetailLevel::Detailed => "... "@ + decimal(n) + " finding(s) not included in the report data"@,
    }
}

/// The entry `k` of `res`, or nothing past its end.
pub open spec fn pick<T>(res: Seq<Seq<T>>, k: int) -> Seq<T> {
    if 0 <= k < res.len() { res[k] } else { Seq::empty() }
}

/// The findings, each linking its file location to the path at its
/// position in `res`.
pub open spec fn findings_text(console: Console, level: DetailLevel, width: Option<usize>, fs: Seq<Finding>, res: Seq<Seq<char>>) -> Seq<char>
    decreases fs.len(),
{
    if fs.len() == 0 {
        Seq::empty()
    } else {
        findings_text(console, level, width, fs.drop_last(), res)
            + finding_text(console, level, width, fs.last(), pick(res, fs.len() - 1))
    }
}

/// A group's heading line: the marker, the title, the count in brackets,
/// and an advisory badge.
pub open spec fn group_heading(console: Console, g: FindingGroup) -> Seq<char> {
    group_marker(console.spec_theme()) + seq![' '] + painted(console.spec_color(), Tone::Title, g.title@) + seq![' ']
        + painted(console.spec_color(), Tone::Muted, seq!['('] + decimal(group_count(g)) + seq![')'])
        + (if g.advisory { seq![' '] + painted(console.spec_color(), Tone::Info, "[advisory]"@) } else { Seq::empty() })
        + seq!['\n']
}

/// A finding group: its heading, the findings shown, a notice of those not
/// shown, and a blank line.
pub open spec fn group_text(console: Console, level: DetailLevel, max_samples: usize, width: Option<usize>, g: FindingGroup, res: Seq<Seq<char>>) -> Seq<char> {
    let shown = shown_count(g, level, max_samples);
    group_heading(console, g)
        + findings_text(console, level, width, g.findings@.take(shown as int), res)
        + (if group_count(g) > shown {
            seq![' ', ' '] + painted(console.spec_color(), Tone::Muted, omitted_text(level, (group_count(g) - shown) as nat)) + seq!['\n']
        } else {
            Seq::empty()
        })
        + seq!['\n']
}

/// The groups that report any finding, in order; group `i` links its file
/// locations to the paths in entry `i` of `res`.
pub open spec fn groups_text(console: Console, level: DetailLevel, max_samples: usize, width: Option<usize>, gs: Seq<FindingGroup>, res: Seq<Seq<Seq<char>>>) -> Seq<char>
    decreases gs.len(),
{
    if gs.len() == 0 {
        Seq::empty()
    } else {
        groups_text(console, level, max_samples, width, gs.drop_last(), res) + if group_count(gs.last()) > 0 {
            group_text(console, level, max_samples, width, gs.last(), pick(res, gs.len() - 1))
        } else {
            Seq::empty()
        }
    }
}

fn write_group_heading(group: &FindingGroup, console: Console, total: usize, out: &mut String)
    requires
        total as nat == group_count(*group),
    ensures
        final(out)@ == old(out)@ + group_heading(console, *group),
{
    let ghost start = out@;
    match console.symbol_theme() {
        SymbolTheme::Unicode => push_char(out, '●'),
        SymbolTheme::Ascii => push_char(out, '*'),
    }
    push_char(out, ' ');
    console.write_paint(Tone::Title, group.title.as_str(), out);
    push_char(out, ' ');
    let mut t = String::new();
    push_char(&mut t, '(');
    push_decimal(&mut t, total as u64);
    push_char(&mut t, ')');
    assert(t@ =~= seq!['('] + decimal(group_count(*group)) + seq![')']);
    console.write_paint(Tone::Muted, t.as_str(), out);
    if group.advisory {
        push_char(out, ' ');
        console.write_paint(Tone::Info, "[advisory]", out);
    }
    push_char(out, '\n');
    assert(out@ =~= start + group_heading(console, *group));
}

fn write_omitted(console: Console, level: DetailLevel, remaining: usize, out: &mut String)
    ensures
        final(out)@ == old(out)@ + seq![' ', ' '] + painted(console.spec_color(), Tone::Muted, omitted_text(level, remaining as nat)) + seq!['\n'],
{
    let mut t = String::new();
    push_str(&mut t, "... ");
    push_decimal(&mut t, remaining as u64);
    match level {
        DetailLevel::Compact => push_str(&mut t, " more finding(s) (use --details to view all)"),
        DetailLevel::Detailed => push_str(&mut t, " finding(s) not included in the report data"),
    }
    assert(t@ =~= omitted_text(level, remaining as nat));
    let ghost start = out@;
    push_str(out, "  ");
    console.write_paint(Tone::Muted, t.as_str(), out);
    push_char(out, '\n');
    proof { reveal_strlit("  "); }
    assert(out@ =~= start + seq![' ', ' '] + painted(console.spec_color(), Tone::Muted, omitted_text(level, remaining as nat)) + seq!['\n']);
}

impl Report {
    /// Appends a single finding group: heading line, bounded finding
    /// sample, and an omitted-count notice when the sample does not cover
    /// every finding. File locations link to the paths in `resolved`.
    #[verifier::rlimit(40)]
    pub fn write_group(&self, group: &FindingGroup, console: Console, width: Option<usize>, resolved: &Vec<String>, out: &mut String)
        ensures
            final(out)@ == old(out)@ + group_text(console, self.detail_level, self.max_compact_samples, width, *group, strings_view(resolved@)),
    {
        let ghost start = out@;
        let ghost res = strings_view(resolved@);
        let total_count = group.rendered_count();
        write_group_heading(group, console, total_count, out);
        let sample_limit = match self.detail_level {
            DetailLevel::Compact => self.max_compact_samples,
            DetailLevel::Detailed => usize::MAX,
        };
        let n = group.findings.len();
        let shown = if n <= sample_limit { n } else { sample_limit };
        assert(shown as nat == shown_count(*group, self.detail_level, self.max_compact_samples));
        let ghost lead = out@;
        let mut k: usize = 0;
        while k < shown
            invariant
                shown <= group.findings@.len(),
                k <= shown,
                res == strings_view(resolved@),
                out@ == lead + findings_text(console, self.detail_level, width, group.findings@.take(k as int), res),
            decreases shown - k,
        {
            proof { reveal_strlit(""); }
            let path: &str = if k < resolved.len() { resolved[k].as_str() } else { "" };
            assert(path@ == pick(res, k as int));
            write_finding(&group.findings[k], console, self.detail_level, width, path, out);
            proof {
                let t = group.findings@.take(k as int + 1);
                assert(t.drop_last() =~= group.findings@.take(k as int));
                assert(t.last() == group.findings@[k as int]);
            }
            k = k + 1;
        }
        let ghost mid = out@;
        if total_count > shown {
            write_omitted(console, self.detail_level, total_count - shown, out);
        }
        push_char(out, '\n');
        assert(out@ =~= start + group_text(console, self.detail_level, self.max_compact_samples, width, *group, res));
    }

    /// Appends every finding group that reports a finding. Group `i` links
    /// its file locations to the paths in `resolved[i]`.
    pub fn write_groups(&self, console: Console, width: Option<usize>, resolved: &Vec<Vec<String>>, out: &mut String)
        ensures
            final(out)@ == old(out)@ + groups_text(console, self.detail_level, self.max_compact_samples, width, self.groups@, resolved_view(resolved@)),
    {
        let ghost start = out@;
        let ghost res = resolved_view(resolved@);
        let empty: Vec<String> = Vec::new();
        let mut i: usize = 0;
        while i < self.groups.len()
            invariant
                i <= self.groups@.len(),
                res == resolved_view(resolved@),
                empty@.len() == 0,
                out@ == start + groups_text(console, self.detail_level, self.max_compact_samples, width, self.groups@.take(i as int), res),
            decreases self.groups@.len() - i,
        {
            let group = &self.groups[i];
            let paths: &Vec<String> = if i < resolved.len() { &resolved[i] } else { &empty };
            assert(strings_view(paths@) =~= pick(res, i as int));
            if group.rendered_count() > 0 {
                self.write_group(group, console, width, paths, out);
            }
            proof {
                let t = self.groups@.take(i as int + 1);
                assert(t.drop_last() =~= self.groups@.take(i as int));
                assert(t.last() == self.groups@[i as int]);
            }
            i = i + 1;
        }
        assert(self.groups@.take(i as int) =~= self.groups@);
    }
}

/// The paths of a resolution table as character sequences.
pub open spec fn resolved_view(v: Seq<Vec<String>>) -> Seq<Seq<Seq<char>>> {
    v.map_values(|g: Vec<String>| strings_view(g@))
}

/// The path of a file location, or nothing for any other location.
pub open spec fn file_path(l: Option<Location>) -> Seq<char> {
    match l {
        Some(Location::File { path, .. }) => path@,
        _ => Seq::empty(),
    }
}

/// Whether a finding's location is a file.
pub open spec fn is_file(l: Option<Location>) -> bool {
    l matches Some(Location::File { .. })
}

/// A table of link targets for `r`'s findings: a row per group and an
/// entry per finding; with colour on, a file location's entry is a target
/// its path can resolve to, and every other entry is empty.
pub open spec fn resolved_for(r: Report, color: bool, resolved: Seq<Seq<Seq<char>>>) -> bool {
    &&& resolved.len() == r.groups@.len()
    &&& forall|i: int| 0 <= i < resolved.len() ==> (#[trigger] resolved[i]).len() == r.groups@[i].findings@.len()
    &&& forall|i: int, k: int| 0 <= i < resolved.len() && 0 <= k < resolved[i].len() ==>
        if color && is_file(r.groups@[i].findings@[k].location) {
            possible_target(file_path(r.groups@[i].findings@[k].location), #[trigger] resolved[i][k])
        } else {
            resolved[i][k] == Seq::<char>::empty()
        }
}

/// The sum of the counts the groups report.
pub open spec fn total_count(gs: Seq<FindingGroup>) -> int
    decreases gs.len(),
{
    if gs.len() == 0 { 0 } else { total_count(gs.drop_last()) + group_count(gs.last()) }
}

/// `d` right-aligned in four columns.
pub open spec fn pad4(d: Seq<char>) -> Seq<char> {
    if d.len() < 4 { repeat(' ', (4 - d.len()) as nat) + d } else { d }
}

/// A line of the top issue rules: the count right-aligned, `x`, and the
/// muted rule identifier.
pub open spec fn top_line(console: Console, e: (Seq<char>, nat)) -> Seq<char> {
    seq![' ', ' ', ' ', ' '] + pad4(decimal(e.1)) + seq!['x', ' ', ' ']
        + painted(console.spec_color(), Tone::Muted, e.0) + seq!['\n']
}

/// The lines of the top issue rules, in order.
pub open spec fn top_lines(console: Console, es: Seq<(Seq<char>, nat)>) -> Seq<char>
    decreases es.len(),
{
    if es.len() == 0 {
        Seq::empty()
    } else {
        top_lines(console, es.drop_last()) + top_line(console, es.last())
    }
}

/// The top issue rules, shown once the findings reported reach the
/// threshold and any finding carries a rule identifier.
pub open spec fn top_text(console: Console, r: Report) -> Seq<char> {
    match r.top_issues_threshold {
        None => Seq::empty(),
        Some(t) => if total_count(r.groups@) < t {
            Seq::empty()
        } else {
            let rules = report_rules(r.groups@);
            if rules.len() == 0 {
                Seq::empty()
            } else {
                seq![' ', ' '] + painted(console.spec_color(), Tone::Title, "Top issue rules:"@) + seq!['\n']
                    + top_lines(console, top_rules(rules)) + seq!['\n']
            }
        },
    }
}

fn write_top_line(console: Console, rule: &str, count: usize, out: &mut String)
    ensures
        final(out)@ == old(out)@ + top_line(console, (rule@, count as nat)),
{
    let ghost start = out@;
    push_str(out, "    ");
    let d = decimal_string(count as u64);
    let len = char_count(d.as_str());
    if len < 4 {
        push_repeat(out, ' ', 4 - len);
    }
    push_str(out, d.as_str());
    push_str(out, "x  ");
    console.write_paint(Tone::Muted, rule, out);
    push_char(out, '\n');
    proof {
        reveal_strlit("    ");
        reveal_strlit("x  ");
    }
    assert(out@ =~= start + top_line(console, (rule@, count as nat)));
}

proof fn lemma_total_count_nonneg(gs: Seq<FindingGroup>)
    ensures
        total_count(gs) >= 0,
    decreases gs.len(),
{
    if gs.len() > 0 {
        lemma_total_count_nonneg(gs.drop_last());
    }
}

impl Report {
    /// Appends the aggregated "top issue rules" summary, shown once the
    /// finding count reaches `top_issues_threshold`.
    pub fn write_top_issues(&self, console: Console, out: &mut String)
        ensures
            final(out)@ == old(out)@ + top_text(console, *self),
    {
        let ghost start = out@;
        let mut total: usize = 0;
        let mut i: usize = 0;
        while i < self.groups.len()
            invariant
                i <= self.groups@.len(),
                total as int == sat(total_count(self.groups@.take(i as int))),
            decreases self.groups@.len() - i,
        {
            let ghost prev = total_count(self.groups@.take(i as int));
            let c = self.groups[i].rendered_count();
            proof {
                let t = self.groups@.take(i as int + 1);
                assert(t.drop_last() =~= self.groups@.take(i as int));
                assert(t.last() == self.groups@[i as int]);
                lemma_total_count_nonneg(self.groups@.take(i as int));
                lemma_sat_add(prev, c as int);
            }
            total = total.saturating_add(c);
            i = i + 1;
        }
        assert(self.groups@.take(i as int) =~= self.groups@);
        proof { lemma_total_count_nonneg(self.groups@); }
        let thresh = match self.top_issues_threshold {
            None => {
                assert(out@ =~= start + top_text(console, *self));
                return;
            },
            Some(t) => t,
        };
        if total < thresh {
            assert(out@ =~= start + top_text(console, *self));
            return;
        }
        let ghost rules = report_rules(self.groups@);
        let (keys, counts) = count_rules(&self.groups);
        if keys.len() == 0 {
            proof {
                if rules.len() > 0 {
                    assert(rules.contains(rules[0]));
                }
            }
            assert(out@ =~= start + top_text(console, *self));
            return;
        }
        proof {
            assert(rules.contains(keys@[0]@));
        }
        let idx = select_top(&keys, &counts, Ghost(rules));
        proof {
            let o = entries_at(keys@, counts@, idx@);
            assert(top_ok(rules, o));
            let c = top_rules(rules);
            assert(top_ok(rules, c));
            law_top_rules_unique(rules, c, o);
        }
        push_str(out, "  ");
        console.write_paint(Tone::Title, "Top issue rules:", out);
        push_char(out, '\n');
        proof { reveal_strlit("  "); }
        let ghost lead = out@;
        let ghost es = entries_at(keys@, counts@, idx@);
        let mut k: usize = 0;
        while k < idx.len()
            invariant
                k <= idx@.len(),
                es == entries_at(keys@, counts@, idx@),
                forall|m: int| 0 <= m < idx@.len() ==> idx@[m] < keys@.len(),
                keys@.len() == counts@.len(),
                out@ == lead + top_lines(console, es.take(k as int)),
            decreases idx@.len() - k,
        {
            let j = idx[k];
            write_top_line(console, keys[j].as_str(), counts[j], out);
            proof {
                let t = es.take(k as int + 1);
                assert(t.drop_last() =~= es.take(k as int));
                assert(t.last() == (keys@[j as int]@, counts@[j as int] as nat));
            }
            k = k + 1;
        }
        assert(es.take(k as int) =~= es);
        push_char(out, '\n');
        assert(out@ =~= start + top_text(console, *self));
    }
}

/// A report as rendered within `width` columns, if a width is given:
/// header, metrics, top issue rules, finding groups and next steps. With colour on, the file location of finding `k` of
/// group `i` links to `resolved[i][k]`; without colour no path is used.
pub open spec fn report_text(console: Console, width: Option<usize>, r: Report, resolved: Seq<Seq<Seq<char>>>) -> Seq<char> {
    header_text(console, r)
        + metrics_text(console, width, r.metrics@)
        + top_text(console, r)
        + groups_text(console, r.detail_level, r.max_compact_samples, width, r.groups@,
            if console.spec_color() { resolved } else { Seq::empty() })
        + next_steps_text(console, r.next_steps@)
}

impl Report {
    /// Appends the report, linking file locations to the paths in
    /// `resolved` (entry `i` for group `i`, one path per finding).
    pub fn write_resolved(&self, console: Console, options: RenderOptions, resolved: &Vec<Vec<String>>, out: &mut String)
        ensures
            final(out)@ == old(out)@ + report_text(console, options.spec_width(), *self, resolved_view(resolved@)),
    {
        let ghost start = out@;
        let width = options.width();
        self.write_header(console, out);
        self.write_metrics(console, width, out);
        self.write_top_issues(console, out);
        let none: Vec<Vec<String>> = Vec::new();
        let table: &Vec<Vec<String>> = if console.color_enabled() { resolved } else { &none };
        assert(resolved_view(none@) =~= Seq::<Seq<Seq<char>>>::empty());
        self.write_groups(console, width, table, out);
        self.write_next_steps(console, out);
        assert(out@ =~= start + report_text(console, options.spec_width(), *self, resolved_view(resolved@)));
    }

    /// Renders the report, linking file locations to the paths in
    /// `resolved`.
    pub fn render_resolved(&self, console: Console, options: RenderOptions, resolved: &Vec<Vec<String>>) -> (s: String)
        ensures
            s@ == report_text(console, options.spec_width(), *self, resolved_view(resolved@)),
    {
        let mut s = String::new();
        self.write_resolved(console, options, resolved, &mut s);
        assert(s@ =~= report_text(console, options.spec_width(), *self, resolved_view(resolved@)));
        s
    }

    /// The paths file locations link to, one per finding of each group:
    /// resolved through the file system when colour is on, empty otherwise.
    fn resolve_locations(&self, console: Console) -> (table: Vec<Vec<String>>)
        ensures
            resolved_for(*self, console.spec_color(), resolved_view(table@)),
    {
        let mut table: Vec<Vec<String>> = Vec::new();
        let ghost color = console.spec_color();
        let mut i: usize = 0;
        while i < self.groups.len()
            invariant
                i <= self.groups@.len(),
                color == console.spec_color(),
                table@.len() == i,
                forall|j: int| 0 <= j < i ==> (#[trigger] table@[j])@.len() == self.groups@[j].findings@.len(),
                forall|j: int, k: int| 0 <= j < i && 0 <= k < table@[j]@.len() ==>
                    if color && is_file(self.groups@[j].findings@[k].location) {
                        possible_target(file_path(self.groups@[j].findings@[k].location), (#[trigger] table@[j]@[k])@)
                    } else {
                        table@[j]@[k]@ == Seq::<char>::empty()
                    },
            decreases self.groups@.len() - i,
        {
            let fs = &self.groups[i].findings;
            let mut paths: Vec<String> = Vec::new();
            let mut k: usize = 0;
            while k < fs.len()
                invariant
                    k <= fs@.len(),
                    color == console.spec_color(),
                    fs@ == self.groups@[i as int].findings@,
                    paths@.len() == k,
                    forall|m: int| 0 <= m < k ==>
                        if color && is_file(fs@[m].location) {
                            possible_target(file_path(fs@[m].location), (#[trigger] paths@[m])@)
                        } else {
                            paths@[m]@ == Seq::<char>::empty()
                        },
                decreases fs@.len() - k,
            {
                let p = match &fs[k].location {
                    Some(Location::File { path, .. }) => if console.color_enabled() {
                        crate::location::resolve_path(path.as_str())
                    } else {
                        String::new()
                    },
                    _ => String::new(),
                };
                paths.push(p);
                k = k + 1;
            }
            table.push(paths);
            i = i + 1;
        }
        proof {
            let rv = resolved_view(table@);
            assert forall|j: int| 0 <= j < rv.len() implies (#[trigger] rv[j]).len() == self.groups@[j].findings@.len() by {
                assert(rv[j] == strings_view(table@[j]@));
            }
            assert forall|j: int, k: int| 0 <= j < rv.len() && 0 <= k < rv[j].len() implies
                if color && is_file(self.groups@[j].findings@[k].location) {
                    possible_target(file_path(self.groups@[j].findings@[k].location), #[trigger] rv[j][k])
                } else {
                    rv[j][k] == Seq::<char>::empty()
                } by {
                assert(rv[j] == strings_view(table@[j]@));
                assert(rv[j][k] == table@[j]@[k]@);
            }
        }
        table
    }

    /// Appends the report with host-provided layout constraints. File
    /// locations link to their paths as the file system resolves them.
    pub fn write_with_options(&self, console: Console, options: RenderOptions, out: &mut String)
        ensures
            exists|resolved: Seq<Seq<Seq<char>>>| resolved_for(*self, console.spec_color(), resolved)
                && final(out)@ == old(out)@ + #[trigger] report_text(console, options.spec_width(), *self, resolved),
            !console.spec_color() ==> final(out)@ == old(out)@ + report_text(console, options.spec_width(), *self, Seq::empty()),
    {
        let table = self.resolve_locations(console);
        self.write_resolved(console, options, &table, out);
    }

    /// Appends the report.
    pub fn write_to(&self, console: Console, out: &mut String)
        ensures
            exists|resolved: Seq<Seq<Seq<char>>>| resolved_for(*self, console.spec_color(), resolved)
                && final(out)@ == old(out)@ + #[trigger] report_text(console, None, *self, resolved),
            !console.spec_color() ==> final(out)@ == old(out)@ + report_text(console, None, *self, Seq::empty()),
    {
        self.write_with_options(console, RenderOptions::new(), out);
    }

    /// Renders the report as a formatted String.
    pub fn render(&self, console: Console) -> (s: String)
        ensures
            exists|resolved: Seq<Seq<Seq<char>>>| resolved_for(*self, console.spec_color(), resolved)
                && s@ == #[trigger] report_text(console, None, *self, resolved),
            !console.spec_color() ==> s@ == report_text(console, None, *self, Seq::empty()),
    {
        let mut s = String::new();
        self.write_to(console, &mut s);
        proof {
            assert forall|x: Seq<char>| s@ == Seq::<char>::empty() + x <==> s@ == x by {
                assert(Seq::<char>::empty() + x =~= x);
            }
        }
        s
    }

    /// Renders the report with host-provided layout constraints.
    pub fn render_with_options(&self, console: Console, options: RenderOptions) -> (s: String)
        ensures
            exists|resolved: Seq<Seq<Seq<char>>>| resolved_for(*self, console.spec_color(), resolved)
                && s@ == #[trigger] report_text(console, options.spec_width(), *self, resolved),
            !console.spec_color() ==> s@ == report_text(console, options.spec_width(), *self, Seq::empty()),
    {
        let mut s = String::new();
        self.write_with_options(console, options, &mut s);
        proof {
            assert forall|x: Seq<char>| s@ == Seq::<char>::empty() + x <==> s@ == x by {
                assert(Seq::<char>::empty() + x =~= x);
            }
        }
        s
    }
}

} // verus!
