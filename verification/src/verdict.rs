//! Verdict models and renderers for CLI commands and audit outcomes.

use vstd::prelude::*;
use crate::color::{Console, SymbolTheme, Tone, painted, sanitize, push_sanitized};
use crate::text::push_char;

verus! {

/// The outcome status of a CLI command, audit run, or validation pass.
#[derive(Debug, Clone, Copy, PartialEq, Eq, Structural)]
#[non_exhaustive]
pub enum Verdict {
    /// Operation completed successfully with no findings or issues.
    Passed,
    /// Operation completed with non-blocking warnings.
    Warning,
    /// Operation failed with error findings or broken assertions.
    Failed,
    /// Manual user action or configuration step is required.
    ActionRequired,
    /// Step or check was skipped.
    Skipped,
    /// Information-only outcome.
    Info,
}

/// The semantic tone of a verdict.
pub open spec fn verdict_tone(v: Verdict) -> Tone {
    match v {
        Verdict::Passed => Tone::Success,
        Verdict::Warning => Tone::Warning,
        Verdict::Failed => Tone::Error,
        Verdict::ActionRequired => Tone::Warning,
        Verdict::Skipped => Tone::Muted,
        Verdict::Info => Tone::Info,
    }
}

/// The symbol of a verdict under a theme.
pub open spec fn verdict_symbol(v: Verdict, theme: SymbolTheme) -> Seq<char> {
    match theme {
        SymbolTheme::Unicode => match v {
            Verdict::Passed => seq!['✔'],
            Verdict::Warning => seq!['⚠'],
            Verdict::Failed => seq!['✖'],
            Verdict::ActionRequired => seq!['➜'],
            Verdict::Skipped => seq!['⊝'],
            Verdict::Info => seq!['ℹ'],
        },
        SymbolTheme::Ascii => match v {
            Verdict::Passed => seq!['[', 'O', 'K', ']'],
            Verdict::Warning => seq!['[', 'W', 'A', 'R', 'N', ']'],
            Verdict::Failed => seq!['[', 'F', 'A', 'I', 'L', ']'],
            Verdict::ActionRequired => seq!['[', 'A', 'C', 'T', ']'],
            Verdict::Skipped => seq!['[', 'S', 'K', 'I', 'P', ']'],
            Verdict::Info => seq!['[', 'I', 'N', 'F', 'O', ']'],
        },
    }
}

/// The default text label of a verdict.
pub open spec fn verdict_label(v: Verdict) -> Seq<char> {
    match v {
        Verdict::Passed => "PASSED"@,
        Verdict::Warning => "WARNING"@,
        Verdict::Failed => "FAILED"@,
        Verdict::ActionRequired => "ACTION REQUIRED"@,
        Verdict::Skipped => "SKIPPED"@,
        Verdict::Info => "INFO"@,
    }
}

/// A verdict line: the painted symbol, a space, and the neutralised message.
pub open spec fn verdict_line(console: Console, v: Verdict, message: Seq<char>) -> Seq<char> {
    painted(console.spec_color(), verdict_tone(v), verdict_symbol(v, console.spec_theme()))
        + seq![' '] + sanitize(message)
}

impl Verdict {
    /// Returns the semantic tone corresponding to this verdict.
    pub fn tone(self) -> (t: Tone)
        ensures
            t == verdict_tone(self),
    {
        match self {
            Verdict::Passed => Tone::Success,
            Verdict::Warning => Tone::Warning,
            Verdict::Failed => Tone::Error,
            Verdict::ActionRequired => Tone::Warning,
            Verdict::Skipped => Tone::Muted,
            Verdict::Info => Tone::Info,
        }
    }

    /// Returns the symbol representation according to the active theme.
    pub fn symbol(self, theme: SymbolTheme) -> (s: &'static str)
        ensures
            s@ == verdict_symbol(self, theme),
    {
        match theme {
            SymbolTheme::Unicode => match self {
                Verdict::Passed => { proof { reveal_strlit("✔"); } "✔" },
                Verdict::Warning => { proof { reveal_strlit("⚠"); } "⚠" },
                Verdict::Failed => { proof { reveal_strlit("✖"); } "✖" },
                Verdict::ActionRequired => { proof { reveal_strlit("➜"); } "➜" },
                Verdict::Skipped => { proof { reveal_strlit("⊝"); } "⊝" },
                Verdict::Info => { proof { reveal_strlit("ℹ"); } "ℹ" },
            },
            SymbolTheme::Ascii => match self {
                Verdict::Passed => { proof { reveal_strlit("[OK]"); } "[OK]" },
                Verdict::Warning => { proof { reveal_strlit("[WARN]"); } "[WARN]" },
                Verdict::Failed => { proof { reveal_strlit("[FAIL]"); } "[FAIL]" },
                Verdict::ActionRequired => { proof { reveal_strlit("[ACT]"); } "[ACT]" },
                Verdict::Skipped => { proof { reveal_strlit("[SKIP]"); } "[SKIP]" },
                Verdict::Info => { proof { reveal_strlit("[INFO]"); } "[INFO]" },
            },
        }
    }

    /// Default text label for the verdict.
    pub fn label(self) -> (s: &'static str)
        ensures
            s@ == verdict_label(self),
    {
        match self {
            Verdict::Passed => "PASSED",
            Verdict::Warning => "WARNING",
            Verdict::Failed => "FAILED",
            Verdict::ActionRequired => "ACTION REQUIRED",
            Verdict::Skipped => "SKIPPED",
            Verdict::Info => "INFO",
        }
    }

    /// Appends a verdict line (symbol and message) to `out`.
    pub fn write_to(self, console: Console, message: &str, out: &mut String)
        ensures
            final(out)@ == old(out)@ + verdict_line(console, self, message@),
    {
        let sym = self.symbol(console.symbol_theme());
        console.write_paint(self.tone(), sym, out);
        push_char(out, ' ');
        push_sanitized(out, message);
        assert(final(out)@ =~= old(out)@ + verdict_line(console, self, message@));
    }

    /// Renders a verdict line (symbol and message) as a String.
    pub fn render(self, console: Console, message: &str) -> (s: String)
        ensures
            s@ == verdict_line(console, self, message@),
    {
        let mut s = String::new();
        self.write_to(console, message, &mut s);
        assert(s@ =~= verdict_line(console, self, message@));
        s
    }
}

} // verus!
