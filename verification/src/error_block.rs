//! Structured diagnostic and error/prerequisite presentation blocks.

use vstd::prelude::*;
use crate::color::{Console, Tone, painted, sanitize, push_sanitized};
use crate::text::{owned, push_char, push_str};
use crate::verdict::{Verdict, verdict_line};

verus! {

/// A structured error or prerequisite block providing actionable remedies.
#[derive(Debug, Clone)]
#[non_exhaustive]
pub struct ErrorBlock {
    /// Heading or summary of the prerequisite / error.
    pub heading: String,
    /// Explanation of why the error occurred.
    pub explanation: Option<String>,
    /// Step-by-step remedy or action to resolve the issue.
    pub remedy: Option<String>,
    /// Copyable shell commands or code snippets.
    pub commands: Vec<String>,
}

/// The command lines: each command, after `$ `, painted as information on
/// an indented line of its own.
pub open spec fn command_lines(console: Console, cmds: Seq<String>) -> Seq<char>
    decreases cmds.len(),
{
    if cmds.len() == 0 {
        Seq::empty()
    } else {
        command_lines(console, cmds.drop_last()) + seq![' ', ' ']
            + painted(console.spec_color(), Tone::Info, seq!['$', ' '] + cmds.last()@) + seq!['\n']
    }
}

/// The explanation line, if there is one.
pub open spec fn explanation_part(console: Console, e: Option<String>) -> Seq<char> {
    match e {
        Some(e) => seq![' ', ' '] + painted(console.spec_color(), Tone::Muted, e@) + seq!['\n'],
        None => Seq::empty(),
    }
}

/// The remedy line after a blank line, if there is one.
pub open spec fn remedy_part(console: Console, r: Option<String>) -> Seq<char> {
    match r {
        Some(r) => seq!['\n', ' ', ' '] + painted(console.spec_color(), Tone::Warning, "Remedy:"@)
            + seq![' '] + sanitize(r@) + seq!['\n'],
        None => Seq::empty(),
    }
}

/// The command lines after a blank line, if there are any.
pub open spec fn commands_part(console: Console, cmds: Seq<String>) -> Seq<char> {
    if cmds.len() == 0 {
        Seq::empty()
    } else {
        seq!['\n'] + command_lines(console, cmds)
    }
}

/// An error block as rendered: a failed verdict line for the heading, the
/// muted explanation, the remedy after a blank line, and the commands after
/// another.
pub open spec fn error_block_text(console: Console, b: ErrorBlock) -> Seq<char> {
    verdict_line(console, Verdict::Failed, b.heading@) + seq!['\n']
        + explanation_part(console, b.explanation) + remedy_part(console, b.remedy)
        + commands_part(console, b.commands@)
}

/// Appends the command lines of `cmds` to `out`.
fn write_command_lines(console: Console, cmds: &Vec<String>, out: &mut String)
    ensures
        final(out)@ == old(out)@ + command_lines(console, cmds@),
{
    let ghost lead = out@;
    let mut i: usize = 0;
    while i < cmds.len()
        invariant
            i <= cmds@.len(),
            out@ == lead + command_lines(console, cmds@.take(i as int)),
        decreases cmds@.len() - i,
    {
        let mut line = String::new();
        push_str(&mut line, "$ ");
        push_str(&mut line, cmds[i].as_str());
        proof {
            reveal_strlit("$ ");
            reveal_strlit("  ");
            assert(line@ =~= seq!['$', ' '] + cmds@[i as int]@);
        }
        let ghost before = out@;
        push_str(out, "  ");
        console.write_paint(Tone::Info, line.as_str(), out);
        push_char(out, '\n');
        proof {
            let t = cmds@.take(i as int + 1);
            assert(t.drop_last() =~= cmds@.take(i as int));
            assert(t.last() == cmds@[i as int]);
            assert(out@ =~= before + seq![' ', ' '] + painted(console.spec_color(), Tone::Info, line@) + seq!['\n']);
        }
        i = i + 1;
    }
    assert(cmds@.take(i as int) =~= cmds@);
}

fn write_explanation(console: Console, e: &Option<String>, out: &mut String)
    ensures
        final(out)@ == old(out)@ + explanation_part(console, *e),
{
    match e {
        Some(e) => {
            let ghost a = out@;
            push_str(out, "  ");
            console.write_paint(Tone::Muted, e.as_str(), out);
            push_char(out, '\n');
            proof { reveal_strlit("  "); }
            assert(out@ =~= a + seq![' ', ' '] + painted(console.spec_color(), Tone::Muted, e@) + seq!['\n']);
        },
        None => { assert(old(out)@ + Seq::<char>::empty() =~= old(out)@); },
    }
}

fn write_remedy(console: Console, r: &Option<String>, out: &mut String)
    ensures
        final(out)@ == old(out)@ + remedy_part(console, *r),
{
    match r {
        Some(r) => {
            let ghost a = out@;
            push_char(out, '\n');
            push_str(out, "  ");
            console.write_paint(Tone::Warning, "Remedy:", out);
            push_char(out, ' ');
            push_sanitized(out, r.as_str());
            push_char(out, '\n');
            proof { reveal_strlit("  "); }
            assert(out@ =~= a + (seq!['\n', ' ', ' '] + painted(console.spec_color(), Tone::Warning, "Remedy:"@)
                + seq![' '] + sanitize(r@) + seq!['\n']));
        },
        None => { assert(old(out)@ + Seq::<char>::empty() =~= old(out)@); },
    }
}

fn write_commands(console: Console, cmds: &Vec<String>, out: &mut String)
    ensures
        final(out)@ == old(out)@ + commands_part(console, cmds@),
{
    if cmds.len() > 0 {
        let ghost a = out@;
        push_char(out, '\n');
        write_command_lines(console, cmds, out);
        assert(out@ =~= a + (seq!['\n'] + command_lines(console, cmds@)));
    } else {
        assert(old(out)@ + Seq::<char>::empty() =~= old(out)@);
    }
}

impl ErrorBlock {
    /// Creates a new error block with a heading.
    pub fn new(heading: &str) -> (b: Self)
        ensures
            b.heading@ == heading@,
            b.explanation is None,
            b.remedy is None,
            b.commands@.len() == 0,
    {
        ErrorBlock { heading: owned(heading), explanation: None, remedy: None, commands: Vec::new() }
    }

    /// Sets the detailed explanation text.
    pub fn with_explanation(self, text: &str) -> (b: Self)
        ensures
            b.heading == self.heading,
            b.explanation matches Some(e) && e@ == text@,
            b.remedy == self.remedy,
            b.commands == self.commands,
    {
        ErrorBlock { explanation: Some(owned(text)), ..self }
    }

    /// Sets the remedy guidance text.
    pub fn with_remedy(self, text: &str) -> (b: Self)
        ensures
            b.heading == self.heading,
            b.explanation == self.explanation,
            b.remedy matches Some(r) && r@ == text@,
            b.commands == self.commands,
    {
        ErrorBlock { remedy: Some(owned(text)), ..self }
    }

    /// Adds a copyable command snippet.
    pub fn add_command(self, command: &str) -> (b: Self)
        ensures
            b.heading == self.heading,
            b.explanation == self.explanation,
            b.remedy == self.remedy,
            b.commands@.len() == self.commands@.len() + 1,
            b.commands@.drop_last() == self.commands@,
            b.commands@.last()@ == command@,
    {
        let mut commands = self.commands;
        commands.push(owned(command));
        ErrorBlock { commands, ..self }
    }

    /// Appends the error block to `out`.
    pub fn write_to(&self, console: Console, out: &mut String)
        ensures
            final(out)@ == old(out)@ + error_block_text(console, *self),
    {
        let ghost start = out@;
        Verdict::Failed.write_to(console, self.heading.as_str(), out);
        push_char(out, '\n');
        write_explanation(console, &self.explanation, out);
        write_remedy(console, &self.remedy, out);
        write_commands(console, &self.commands, out);
        assert(final(out)@ =~= start + error_block_text(console, *self));
    }

    /// Renders the error block as a formatted String.
    pub fn render(&self, console: Console) -> (s: String)
        ensures
            s@ == error_block_text(console, *self),
    {
        let mut s = String::new();
        self.write_to(console, &mut s);
        assert(s@ =~= error_block_text(console, *self));
        s
    }
}

} // verus!
