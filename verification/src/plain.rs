//! What rendering without colour guarantees: whatever the text handed to
//! a renderer holds, its plain output carries no control character that
//! could act on a terminal (no escape, bell or carriage return).

use vstd::prelude::*;
use crate::color::{Console, Tone, control_free, is_dangerous_control, lemma_sanitize_control_free, painted, sanitize};
use crate::diff::{change_line, changes_text};
use crate::error_block::{command_lines, commands_part, error_block_text, explanation_part, remedy_part};
use crate::location::{plain_text, rendered};
use crate::report::model::{DetailLevel, Finding, FindingGroup, Metric, NextStep, Report, ScopeNote};
use crate::report::render::{
    confidence_text, finding_head, finding_text, findings_text, group_heading, group_marker, group_text,
    groups_text, header_text, inline_metrics, location_part, message_part, message_start, metric_text,
    metrics_text, next_steps_text, notes_line, pad4, pick, remedy_line, report_text, rule_text, scope_line,
    scope_lines, shown_count, stacked_metrics, step_bullet, step_text, steps_text, top_line, top_lines, top_text,
    confidence_part, rule_part,
};
use crate::report::wrap::{continuation, suffix_lead, wrap_step, wrap_words};
use crate::text::{decimal, digit_char, repeat};
use crate::verdict::{Verdict, verdict_line};

verus! {

/// Text made of parts without control characters has none.
pub proof fn lemma_concat_control_free(a: Seq<char>, b: Seq<char>)
    requires
        control_free(a),
        control_free(b),
    ensures
        control_free(a + b),
{
    assert forall|i: int| 0 <= i < (a + b).len() implies !is_dangerous_control(#[trigger] (a + b)[i]) by {
        if i < a.len() {
            assert((a + b)[i] == a[i]);
        } else {
            assert((a + b)[i] == b[i - a.len()]);
        }
    }
}

/// Painted text without colour is neutralised text.
pub proof fn lemma_plain_painted(tone: Tone, text: Seq<char>)
    ensures
        control_free(painted(false, tone, text)),
{
    lemma_sanitize_control_free(text);
}

/// Decimal digits are not control characters.
pub proof fn lemma_decimal_control_free(n: nat)
    ensures
        control_free(decimal(n)),
    decreases n,
{
    if n >= 10 {
        lemma_decimal_control_free(n / 10);
        let d = digit_char(n % 10);
        assert(!is_dangerous_control(d));
        lemma_concat_control_free(decimal(n / 10), seq![d]);
        assert(decimal(n / 10).push(d) =~= decimal(n / 10) + seq![d]);
    } else {
        assert(!is_dangerous_control(digit_char(n)));
    }
}

/// Spaces are not control characters.
pub proof fn lemma_repeat_space_control_free(n: nat)
    ensures
        control_free(repeat(' ', n)),
{
}

/// Without colour, a verdict line carries no control character.
pub proof fn law_plain_verdict_is_control_free(console: Console, v: Verdict, message: Seq<char>)
    requires
        !console.spec_color(),
    ensures
        control_free(verdict_line(console, v, message)),
{
    lemma_plain_painted(crate::verdict::verdict_tone(v), crate::verdict::verdict_symbol(v, console.spec_theme()));
    lemma_sanitize_control_free(message);
    lemma_concat_control_free(
        painted(false, crate::verdict::verdict_tone(v), crate::verdict::verdict_symbol(v, console.spec_theme())), seq![' ']);
    lemma_concat_control_free(
        painted(false, crate::verdict::verdict_tone(v), crate::verdict::verdict_symbol(v, console.spec_theme())) + seq![' '],
        sanitize(message));
}

proof fn lemma_command_lines_control_free(console: Console, cmds: Seq<String>)
    requires
        !console.spec_color(),
    ensures
        control_free(command_lines(console, cmds)),
    decreases cmds.len(),
{
    if cmds.len() > 0 {
        lemma_command_lines_control_free(console, cmds.drop_last());
        let p = painted(false, Tone::Info, seq!['$', ' '] + cmds.last()@);
        lemma_plain_painted(Tone::Info, seq!['$', ' '] + cmds.last()@);
        let a = command_lines(console, cmds.drop_last());
        lemma_concat_control_free(a, seq![' ', ' ']);
        lemma_concat_control_free(a + seq![' ', ' '], p);
        lemma_concat_control_free(a + seq![' ', ' '] + p, seq!['\n']);
    }
}

/// Without colour, an error block carries no control character.
pub proof fn law_plain_error_block_is_control_free(console: Console, b: crate::error_block::ErrorBlock)
    requires
        !console.spec_color(),
    ensures
        control_free(error_block_text(console, b)),
{
    let head = verdict_line(console, Verdict::Failed, b.heading@);
    law_plain_verdict_is_control_free(console, Verdict::Failed, b.heading@);
    lemma_concat_control_free(head, seq!['\n']);
    let e = explanation_part(console, b.explanation);
    match b.explanation {
        Some(x) => {
            lemma_plain_painted(Tone::Muted, x@);
            lemma_concat_control_free(seq![' ', ' '], painted(false, Tone::Muted, x@));
            lemma_concat_control_free(seq![' ', ' '] + painted(false, Tone::Muted, x@), seq!['\n']);
        },
        None => {},
    }
    let r = remedy_part(console, b.remedy);
    match b.remedy {
        Some(x) => {
            let p = painted(false, Tone::Warning, "Remedy:"@);
            lemma_plain_painted(Tone::Warning, "Remedy:"@);
            lemma_sanitize_control_free(x@);
            lemma_concat_control_free(seq!['\n', ' ', ' '], p);
            lemma_concat_control_free(seq!['\n', ' ', ' '] + p, seq![' ']);
            lemma_concat_control_free(seq!['\n', ' ', ' '] + p + seq![' '], sanitize(x@));
            lemma_concat_control_free(seq!['\n', ' ', ' '] + p + seq![' '] + sanitize(x@), seq!['\n']);
        },
        None => {},
    }
    let c = commands_part(console, b.commands@);
    if b.commands@.len() > 0 {
        lemma_command_lines_control_free(console, b.commands@);
        lemma_concat_control_free(seq!['\n'], command_lines(console, b.commands@));
    }
    lemma_concat_control_free(head + seq!['\n'], e);
    lemma_concat_control_free(head + seq!['\n'] + e, r);
    lemma_concat_control_free(head + seq!['\n'] + e + r, c);
}

proof fn lemma_change_line_control_free(console: Console, c: crate::diff::FileChange)
    requires
        !console.spec_color(),
    ensures
        control_free(change_line(console, c)),
{
    let tone = crate::diff::action_tone(c.action);
    let s = painted(false, tone, crate::diff::action_symbol(c.action, console.spec_theme()));
    let l = painted(false, tone, crate::diff::action_label(c.action));
    lemma_plain_painted(tone, crate::diff::action_symbol(c.action, console.spec_theme()));
    lemma_plain_painted(tone, crate::diff::action_label(c.action));
    lemma_sanitize_control_free(c.path@);
    let d = match c.delta {
        Some(d) => painted(false, Tone::Muted, seq![' ', '('] + d@ + seq![')']),
        None => Seq::empty(),
    };
    match c.delta {
        Some(x) => { lemma_plain_painted(Tone::Muted, seq![' ', '('] + x@ + seq![')']); },
        None => {},
    }
    lemma_concat_control_free(seq![' ', ' '], s);
    lemma_concat_control_free(seq![' ', ' '] + s, seq![' ']);
    lemma_concat_control_free(seq![' ', ' '] + s + seq![' '], l);
    lemma_concat_control_free(seq![' ', ' '] + s + seq![' '] + l, seq![' ']);
    lemma_concat_control_free(seq![' ', ' '] + s + seq![' '] + l + seq![' '], sanitize(c.path@));
    lemma_concat_control_free(seq![' ', ' '] + s + seq![' '] + l + seq![' '] + sanitize(c.path@), d);
    lemma_concat_control_free(seq![' ', ' '] + s + seq![' '] + l + seq![' '] + sanitize(c.path@) + d, seq!['\n']);
}

/// Without colour, a diff block carries no control character.
pub proof fn law_plain_diff_is_control_free(console: Console, cs: Seq<crate::diff::FileChange>)
    requires
        !console.spec_color(),
    ensures
        control_free(changes_text(console, cs)),
    decreases cs.len(),
{
    if cs.len() > 0 {
        law_plain_diff_is_control_free(console, cs.drop_last());
        lemma_change_line_control_free(console, cs.last());
        lemma_concat_control_free(changes_text(console, cs.drop_last()), change_line(console, cs.last()));
    }
}

/// Parts without control characters make a whole without them.
pub broadcast proof fn lemma_concat_keeps_control_free(a: Seq<char>, b: Seq<char>)
    requires
        control_free(a),
        control_free(b),
    ensures
        #[trigger] control_free(a + b),
{
    lemma_concat_control_free(a, b);
}

proof fn lemma_painted_all(color: bool)
    requires
        !color,
    ensures
        forall|tone: Tone, text: Seq<char>| #[trigger] control_free(painted(color, tone, text)),
{
    assert forall|tone: Tone, text: Seq<char>| #[trigger] control_free(painted(color, tone, text)) by {
        lemma_plain_painted(tone, text);
    }
}

proof fn lemma_suffix_lead_control_free(lw: int, sw: int, width: Option<usize>)
    ensures
        control_free(suffix_lead(lw, sw, width)),
{
    broadcast use lemma_concat_keeps_control_free;
    assert(control_free(continuation()));
    assert(control_free(seq!['\n']));
}

proof fn lemma_wrap_words_control_free(tone: Tone, ws: Seq<Seq<char>>, width: int, lw: int, first: bool, cw: int)
    ensures
        control_free(wrap_words(false, tone, ws, width, lw, first, cw).0),
    decreases ws.len(),
{
    broadcast use lemma_concat_keeps_control_free;
    if ws.len() > 0 {
        let st = wrap_step(false, tone, ws[0], width, lw, first, cw);
        lemma_wrap_words_control_free(tone, ws.drop_first(), width, st.1, false, cw);
        lemma_plain_painted(tone, ws[0]);
        assert(control_free(continuation()));
        assert(control_free(seq!['\n']));
        assert(control_free(seq![' ']));
        assert(control_free(Seq::<char>::empty()));
        assert(control_free(st.0));
    }
}

proof fn lemma_finding_control_free(console: Console, level: DetailLevel, width: Option<usize>, f: Finding, resolved: Seq<char>)
    requires
        !console.spec_color(),
    ensures
        control_free(finding_text(console, level, width, f, resolved)),
{
    broadcast use lemma_concat_keeps_control_free;
    lemma_painted_all(console.spec_color());
    let color = console.spec_color();
    let m = message_part(color, width, f);
    let r = rule_part(color, width, f, m.1);
    let c = confidence_part(color, width, f, r.1);
    match width {
        Some(w) => {
            let cw = crate::text::str_width(continuation()) as int;
            lemma_wrap_words_control_free(f.tone, crate::report::wrap::words(f.message@), w as int, message_start(f), true, cw);
        },
        None => {},
    }
    assert(control_free(m.0));
    match f.rule_id {
        Some(x) => {
            lemma_suffix_lead_control_free(m.1, crate::text::str_width(rule_text(x@)) as int, width);
        },
        None => {},
    }
    assert(control_free(r.0));
    match f.confidence {
        Some(x) => {
            lemma_suffix_lead_control_free(r.1, crate::text::str_width(confidence_text(x)) as int, width);
        },
        None => {},
    }
    assert(control_free(c.0));
    match f.location {
        Some(loc) => {
            let sw = crate::text::sat(crate::text::str_width(seq!['a', 't', ' ']) as int + crate::text::str_width(plain_text(loc)));
            lemma_suffix_lead_control_free(c.1, sw, width);
            lemma_sanitize_control_free(crate::location::raw_plain(loc));
            assert(rendered(loc, false, resolved) == plain_text(loc));
            assert(control_free(seq!['a', 't', ' ']));
        },
        None => {},
    }
    assert(control_free(location_part(console, width, f, c.1, resolved)));
    assert(control_free(finding_head(console, f))) by {
        assert(control_free(seq![' ', ' ', '-', ' ']));
        assert(control_free(seq![' ']));
    }
    assert(control_free(remedy_line(console, level, f))) by {
        assert(control_free(seq![' ', ' ', ' ', ' ']));
        assert(control_free(seq!['\n']));
    }
    assert(control_free(seq!['\n']));
}

proof fn lemma_findings_control_free(console: Console, level: DetailLevel, width: Option<usize>, fs: Seq<Finding>, res: Seq<Seq<char>>)
    requires
        !console.spec_color(),
    ensures
        control_free(findings_text(console, level, width, fs, res)),
    decreases fs.len(),
{
    broadcast use lemma_concat_keeps_control_free;
    if fs.len() > 0 {
        lemma_findings_control_free(console, level, width, fs.drop_last(), res);
        lemma_finding_control_free(console, level, width, fs.last(), pick(res, fs.len() - 1));
    }
}

proof fn lemma_group_control_free(console: Console, level: DetailLevel, max_samples: usize, width: Option<usize>, g: FindingGroup, res: Seq<Seq<char>>)
    requires
        !console.spec_color(),
    ensures
        control_free(group_text(console, level, max_samples, width, g, res)),
{
    broadcast use lemma_concat_keeps_control_free;
    lemma_painted_all(console.spec_color());
    let shown = shown_count(g, level, max_samples);
    lemma_findings_control_free(console, level, width, g.findings@.take(shown as int), res);
    assert(control_free(group_marker(console.spec_theme())));
    assert(control_free(seq![' ']));
    assert(control_free(seq!['\n']));
    assert(control_free(seq![' ', ' ']));
    assert(control_free(Seq::<char>::empty()));
    assert(control_free(group_heading(console, g)));
}

proof fn lemma_groups_control_free(console: Console, level: DetailLevel, max_samples: usize, width: Option<usize>, gs: Seq<FindingGroup>, res: Seq<Seq<Seq<char>>>)
    requires
        !console.spec_color(),
    ensures
        control_free(groups_text(console, level, max_samples, width, gs, res)),
    decreases gs.len(),
{
    broadcast use lemma_concat_keeps_control_free;
    if gs.len() > 0 {
        lemma_groups_control_free(console, level, max_samples, width, gs.drop_last(), res);
        lemma_group_control_free(console, level, max_samples, width, gs.last(), pick(res, gs.len() - 1));
        assert(control_free(Seq::<char>::empty()));
    }
}

proof fn lemma_scope_lines_control_free(console: Console, ns: Seq<ScopeNote>)
    requires
        !console.spec_color(),
    ensures
        control_free(scope_lines(console, ns)),
    decreases ns.len(),
{
    broadcast use lemma_concat_keeps_control_free;
    lemma_painted_all(console.spec_color());
    if ns.len() > 0 {
        lemma_scope_lines_control_free(console, ns.drop_last());
        assert(control_free(seq![' ', ' ']));
        assert(control_free(seq!['\n']));
        assert(control_free(scope_line(console, ns.last())));
    }
}

proof fn lemma_header_control_free(console: Console, r: Report)
    requires
        !console.spec_color(),
    ensures
        control_free(header_text(console, r)),
{
    broadcast use lemma_concat_keeps_control_free;
    lemma_painted_all(console.spec_color());
    law_plain_verdict_is_control_free(console, r.verdict, r.title@);
    lemma_scope_lines_control_free(console, r.scope_notes@);
    assert(control_free(seq![' ', ' ']));
    assert(control_free(seq!['\n']));
    assert(control_free(Seq::<char>::empty()));
    assert(control_free(notes_line(console, r.vocabulary_notes@)));
}

proof fn lemma_metric_control_free(console: Console, m: Metric)
    requires
        !console.spec_color(),
    ensures
        control_free(metric_text(console, m)),
{
    broadcast use lemma_concat_keeps_control_free;
    lemma_painted_all(console.spec_color());
    assert(control_free(seq![' ']));
    assert(control_free(Seq::<char>::empty()));
}

proof fn lemma_stacked_control_free(console: Console, ms: Seq<Metric>)
    requires
        !console.spec_color(),
    ensures
        control_free(stacked_metrics(console, ms)),
    decreases ms.len(),
{
    broadcast use lemma_concat_keeps_control_free;
    if ms.len() > 0 {
        lemma_stacked_control_free(console, ms.drop_last());
        lemma_metric_control_free(console, ms.last());
        assert(control_free(seq![' ', ' ']));
        assert(control_free(seq!['\n']));
    }
}

proof fn lemma_inline_control_free(console: Console, ms: Seq<Metric>)
    requires
        !console.spec_color(),
    ensures
        control_free(inline_metrics(console, ms)),
    decreases ms.len(),
{
    broadcast use lemma_concat_keeps_control_free;
    if ms.len() == 1 {
        lemma_metric_control_free(console, ms[0]);
    } else if ms.len() > 1 {
        lemma_inline_control_free(console, ms.drop_last());
        lemma_metric_control_free(console, ms.last());
        assert(control_free(seq![' ', ' ', ' ']));
    }
}

proof fn lemma_metrics_control_free(console: Console, width: Option<usize>, ms: Seq<Metric>)
    requires
        !console.spec_color(),
    ensures
        control_free(metrics_text(console, width, ms)),
{
    broadcast use lemma_concat_keeps_control_free;
    lemma_stacked_control_free(console, ms);
    lemma_inline_control_free(console, ms);
    assert(control_free(seq![' ', ' ']));
    assert(control_free(seq!['\n']));
    assert(control_free(seq!['\n', '\n']));
}

proof fn lemma_top_lines_control_free(console: Console, es: Seq<(Seq<char>, nat)>)
    requires
        !console.spec_color(),
    ensures
        control_free(top_lines(console, es)),
    decreases es.len(),
{
    broadcast use lemma_concat_keeps_control_free;
    lemma_painted_all(console.spec_color());
    if es.len() > 0 {
        lemma_top_lines_control_free(console, es.drop_last());
        let d = decimal(es.last().1);
        lemma_decimal_control_free(es.last().1);
        if d.len() < 4 {
            lemma_repeat_space_control_free((4 - d.len()) as nat);
        }
        assert(control_free(pad4(d)));
        assert(control_free(seq![' ', ' ', ' ', ' ']));
        assert(control_free(seq!['x', ' ', ' ']));
        assert(control_free(seq!['\n']));
        assert(control_free(top_line(console, es.last())));
    }
}

proof fn lemma_top_control_free(console: Console, r: Report)
    requires
        !console.spec_color(),
    ensures
        control_free(top_text(console, r)),
{
    broadcast use lemma_concat_keeps_control_free;
    lemma_painted_all(console.spec_color());
    lemma_top_lines_control_free(console, crate::report::top::top_rules(crate::report::top::report_rules(r.groups@)));
    assert(control_free(seq![' ', ' ']));
    assert(control_free(seq!['\n']));
    assert(control_free(Seq::<char>::empty()));
}

proof fn lemma_steps_control_free(console: Console, ss: Seq<NextStep>)
    requires
        !console.spec_color(),
    ensures
        control_free(steps_text(console, ss)),
    decreases ss.len(),
{
    broadcast use lemma_concat_keeps_control_free;
    lemma_painted_all(console.spec_color());
    if ss.len() > 0 {
        lemma_steps_control_free(console, ss.drop_last());
        lemma_sanitize_control_free(ss.last().text@);
        assert(control_free(seq![' ', ' ']));
        assert(control_free(seq![' ', ' ', ' ', ' ']));
        assert(control_free(seq![' ']));
        assert(control_free(seq!['\n']));
        assert(control_free(step_bullet(console.spec_theme())));
        assert(control_free(Seq::<char>::empty()));
        assert(control_free(step_text(console, ss.last())));
    }
}

/// Without colour, a report carries no control character, whatever its
/// titles, messages, paths and notes held.
pub proof fn law_plain_report_is_control_free(console: Console, width: Option<usize>, r: Report, resolved: Seq<Seq<Seq<char>>>)
    requires
        !console.spec_color(),
    ensures
        control_free(report_text(console, width, r, resolved)),
{
    broadcast use lemma_concat_keeps_control_free;
    lemma_header_control_free(console, r);
    lemma_metrics_control_free(console, width, r.metrics@);
    lemma_top_control_free(console, r);
    lemma_groups_control_free(console, r.detail_level, r.max_compact_samples, width, r.groups@, Seq::empty());
    lemma_painted_all(console.spec_color());
    lemma_steps_control_free(console, r.next_steps@);
    assert(control_free(Seq::<char>::empty()));
    assert(control_free(next_steps_text(console, r.next_steps@)));
}

/// Without colour a report is fixed by the report and the width alone:
/// where its file locations resolve on this machine plays no part.
pub proof fn law_plain_report_ignores_resolution(console: Console, width: Option<usize>, r: Report,
    a: Seq<Seq<Seq<char>>>, b: Seq<Seq<Seq<char>>>)
    requires
        !console.spec_color(),
    ensures
        report_text(console, width, r, a) == report_text(console, width, r, b),
{
}

/// The start line of a progress run carries no control character, whatever
/// the message holds: it is neutralised before it is written.
pub proof fn law_progress_start_is_control_free(total: u64, message: Seq<char>)
    ensures
        control_free(crate::progress::start_line(total, message)),
{
    lemma_sanitize_control_free(message);
    lemma_decimal_control_free(total as nat);
    let a = seq![' ', '(', '0', '/'];
    let b = seq![')', '\n'];
    assert(control_free(a));
    assert(control_free(b));
    lemma_concat_control_free(sanitize(message), a);
    lemma_concat_control_free(sanitize(message) + a, decimal(total as nat));
    lemma_concat_control_free(sanitize(message) + a + decimal(total as nat), b);
}

} // verus!
