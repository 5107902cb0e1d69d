//! Progress lifecycles: the mode policy, a silent sink, and a line-oriented
//! sink that writes into an in-memory buffer.

use vstd::prelude::*;
use crate::color::{Console, Tone, painted, push_sanitized, sanitize};
use crate::text::{push_char, push_decimal, push_str};
use crate::text::decimal;
use crate::verdict::{Verdict, verdict_line};

verus! {

/// Controls whether a progress sink renders an interactive progress bar.
#[derive(Debug, Clone, Copy, PartialEq, Eq, Structural)]
#[non_exhaustive]
pub enum ProgressMode {
    /// Use an interactive bar only for a terminal; use plain lifecycle lines otherwise.
    Auto,
    /// Prefer an interactive bar even if the output stream is not a terminal.
    Always,
    /// Suppress all progress output.
    Never,
}

impl Default for ProgressMode {
    fn default() -> (m: Self)
        ensures
            m == ProgressMode::Auto,
    {
        ProgressMode::Auto
    }
}

/// Whether a mode renders an interactive bar on a stream.
pub open spec fn interactive(mode: ProgressMode, is_terminal: bool) -> bool {
    match mode {
        ProgressMode::Auto => is_terminal,
        ProgressMode::Always => true,
        ProgressMode::Never => false,
    }
}

impl ProgressMode {
    /// Returns whether this mode should use an interactive progress renderer.
    pub fn is_interactive(self, is_terminal: bool) -> (r: bool)
        ensures
            r == interactive(self, is_terminal),
    {
        match self {
            ProgressMode::Auto => is_terminal,
            ProgressMode::Always => true,
            ProgressMode::Never => false,
        }
    }
}

/// The kind of sink a standard-error progress run uses.
#[derive(Debug, Clone, Copy, PartialEq, Eq, Structural)]
pub enum ProgressBackend {
    /// No visible output.
    Silent,
    /// Compact start, notice and finish lines.
    Plain,
    /// A live progress bar.
    Interactive,
}

/// The sink for a mode and stream: nothing for `Never`, a live bar where the
/// mode is interactive on the stream, plain lines otherwise.
pub open spec fn backend_for(mode: ProgressMode, is_terminal: bool) -> ProgressBackend {
    if mode == ProgressMode::Never {
        ProgressBackend::Silent
    } else if interactive(mode, is_terminal) {
        ProgressBackend::Interactive
    } else {
        ProgressBackend::Plain
    }
}

/// Chooses the sink for a standard-error progress run.
pub fn select_backend(mode: ProgressMode, is_terminal: bool) -> (b: ProgressBackend)
    ensures
        b == backend_for(mode, is_terminal),
{
    if mode == ProgressMode::Never {
        ProgressBackend::Silent
    } else if mode.is_interactive(is_terminal) {
        ProgressBackend::Interactive
    } else {
        ProgressBackend::Plain
    }
}

/// A lifecycle sink for a long-running operation.
///
/// Progress updates are best-effort display events. A sink intentionally does
/// not propagate I/O failures into the application's primary operation.
pub trait ProgressSink {
    /// Announces the start of an operation with its expected total work units.
    fn start(&mut self, total: u64, message: &str);

    /// Records the current completed work-unit count and an optional status message.
    fn advance(&mut self, position: u64, message: &str);

    /// Writes a notice without corrupting an active interactive progress bar.
    fn notice(&mut self, tone: Tone, message: &str);

    /// Closes the operation with its semantic outcome.
    fn finish(&mut self, verdict: Verdict, message: &str);
}

/// A progress sink that deliberately emits no output.
#[derive(Debug, Default)]
pub struct SilentProgress;

impl ProgressSink for SilentProgress {
    fn start(&mut self, _total: u64, _message: &str) {}

    fn advance(&mut self, _position: u64, _message: &str) {}

    fn notice(&mut self, _tone: Tone, _message: &str) {}

    fn finish(&mut self, _verdict: Verdict, _message: &str) {}
}

/// The start line: the message, neutralised, and `(0/total)`.
pub open spec fn start_line(total: u64, message: Seq<char>) -> Seq<char> {
    sanitize(message) + seq![' ', '(', '0', '/'] + decimal(total as nat) + seq![')', '\n']
}

/// A notice line: the painted message.
pub open spec fn notice_line(console: Console, tone: Tone, message: Seq<char>) -> Seq<char> {
    painted(console.spec_color(), tone, message) + seq!['\n']
}

/// The finish line: the verdict line for the message.
pub open spec fn finish_line(console: Console, verdict: Verdict, message: Seq<char>) -> Seq<char> {
    verdict_line(console, verdict, message) + seq!['\n']
}

/// A line-oriented progress sink for logs, pipes, and deterministic tests.
/// Its lines are appended to a byte buffer as UTF-8.
pub struct PlainProgress {
    console: Console,
    writer: Vec<u8>,
}

impl PlainProgress {
    /// The console this sink paints with.
    pub closed spec fn spec_console(&self) -> Console {
        self.console
    }

    /// The bytes written so far.
    pub closed spec fn spec_written(&self) -> Seq<u8> {
        self.writer@
    }

    /// Creates a line-oriented progress sink that appends to `writer`.
    pub fn new(console: Console, writer: Vec<u8>) -> (p: Self)
        ensures
            p.spec_console() == console,
            p.spec_written() == writer@,
    {
        PlainProgress { console, writer }
    }

    /// Returns the underlying buffer after all progress output has completed.
    pub fn into_inner(self) -> (w: Vec<u8>)
        ensures
            w@ == self.spec_written(),
    {
        self.writer
    }

    /// Appends the UTF-8 bytes of `line`.
    fn emit(&mut self, line: &str)
        ensures
            final(self).spec_console() == old(self).spec_console(),
            final(self).spec_written() == old(self).spec_written() + vstd::utf8::encode_utf8(line@),
    {
        let mut bytes = line.as_bytes_vec();
        self.writer.append(&mut bytes);
    }
}

impl ProgressSink for PlainProgress {
    fn start(&mut self, total: u64, message: &str)
        ensures
            final(self).spec_console() == old(self).spec_console(),
            final(self).spec_written() == old(self).spec_written()
                + vstd::utf8::encode_utf8(start_line(total, message@)),
    {
        let mut line = String::new();
        push_sanitized(&mut line, message);
        push_str(&mut line, " (0/");
        push_decimal(&mut line, total);
        push_char(&mut line, ')');
        push_char(&mut line, '\n');
        proof {
            reveal_strlit(" (0/");
            assert(line@ =~= start_line(total, message@));
        }
        self.emit(line.as_str());
    }

    /// Plain output deliberately avoids one line per unit of work.
    fn advance(&mut self, _position: u64, _message: &str)
        ensures
            final(self).spec_console() == old(self).spec_console(),
            final(self).spec_written() == old(self).spec_written(),
    {
    }

    fn notice(&mut self, tone: Tone, message: &str)
        ensures
            final(self).spec_console() == old(self).spec_console(),
            final(self).spec_written() == old(self).spec_written()
                + vstd::utf8::encode_utf8(notice_line(old(self).spec_console(), tone, message@)),
    {
        let mut line = String::new();
        self.console.write_paint(tone, message, &mut line);
        push_char(&mut line, '\n');
        assert(line@ =~= notice_line(self.console, tone, message@));
        self.emit(line.as_str());
    }

    fn finish(&mut self, verdict: Verdict, message: &str)
        ensures
            final(self).spec_console() == old(self).spec_console(),
            final(self).spec_written() == old(self).spec_written()
                + vstd::utf8::encode_utf8(finish_line(old(self).spec_console(), verdict, message@)),
    {
        let mut line = String::new();
        verdict.write_to(self.console, message, &mut line);
        push_char(&mut line, '\n');
        assert(line@ =~= finish_line(self.console, verdict, message@));
        self.emit(line.as_str());
    }
}

} // verus!
