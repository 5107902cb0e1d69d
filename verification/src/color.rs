//! Colour policy, semantic tones, symbol themes, and the control-character
//! neutralisation every piece of rendered text passes through.

use vstd::prelude::*;
use crate::text::{push_char, push_str};

verus! {

/// Controls whether semantic ANSI styles are emitted.
#[derive(Debug, Clone, Copy, PartialEq, Eq, Structural)]
#[non_exhaustive]
pub enum ColorMode {
    /// Emit styles only for an interactive terminal and when `NO_COLOR` is unset.
    Auto,
    /// Always emit styles.
    Always,
    /// Never emit styles.
    Never,
}

impl Default for ColorMode {
    fn default() -> (m: Self)
        ensures
            m == ColorMode::Auto,
    {
        ColorMode::Auto
    }
}

/// Whether a colour policy emits styles on a stream.
pub open spec fn color_policy(mode: ColorMode, is_terminal: bool, no_color_unset: bool) -> bool {
    match mode {
        ColorMode::Auto => is_terminal && no_color_unset,
        ColorMode::Always => true,
        ColorMode::Never => false,
    }
}

impl ColorMode {
    /// Resolves this policy for a stream, given whether the stream is a
    /// terminal and whether the `NO_COLOR` variable is unset.
    pub fn enabled_with(self, is_terminal: bool, no_color_unset: bool) -> (r: bool)
        ensures
            r == color_policy(self, is_terminal, no_color_unset),
    {
        match self {
            ColorMode::Auto => is_terminal && no_color_unset,
            ColorMode::Always => true,
            ColorMode::Never => false,
        }
    }
}

/// Semantic emphasis independent of a concrete terminal color theme.
#[derive(Debug, Clone, Copy, PartialEq, Eq, Structural)]
#[non_exhaustive]
pub enum Tone {
    Title,
    Muted,
    Info,
    Success,
    Warning,
    Error,
}

/// Symbol output mode for icons (Unicode vs ASCII fallback).
#[derive(Debug, Clone, Copy, PartialEq, Eq, Structural)]
#[non_exhaustive]
pub enum SymbolTheme {
    /// Use modern UTF-8 symbols (✓, ⚠, ✖, ℹ, etc.)
    Unicode,
    /// Use ASCII fallbacks for plain or legacy environments (`[OK]`, `[WARN]`, `[FAIL]`, `[INFO]`)
    Ascii,
}

impl Default for SymbolTheme {
    fn default() -> (t: Self)
        ensures
            t == SymbolTheme::Unicode,
    {
        SymbolTheme::Unicode
    }
}

/// Applies the colour policy and semantic theme to one terminal stream.
#[derive(Debug, Clone, Copy)]
pub struct Console {
    color: bool,
    theme: SymbolTheme,
}

/// The ANSI style that opens a span of `tone`.
pub open spec fn tone_style(tone: Tone) -> Seq<char> {
    match tone {
        Tone::Title => seq!['\x1b', '[', '1', ';', '9', '6', 'm'],
        Tone::Muted => seq!['\x1b', '[', '2', 'm'],
        Tone::Info => seq!['\x1b', '[', '3', '6', 'm'],
        Tone::Success => seq!['\x1b', '[', '1', ';', '9', '2', 'm'],
        Tone::Warning => seq!['\x1b', '[', '1', ';', '9', '3', 'm'],
        Tone::Error => seq!['\x1b', '[', '1', ';', '9', '1', 'm'],
    }
}

/// The ANSI sequence that closes every styled span.
pub open spec fn style_reset() -> Seq<char> {
    seq!['\x1b', '[', '0', 'm']
}

/// A control character that could move the cursor, change styles, or
/// otherwise act on the terminal; newline and tab are kept.
pub open spec fn is_dangerous_control(c: char) -> bool {
    let code = c as u32;
    (code <= 0x1f && c != '\n' && c != '\t') || code == 0x7f || (0x80 <= code && code <= 0x9f)
}

/// The visible replacement of one character: itself when harmless, caret
/// notation for C0 controls and DEL, nothing for C1 controls.
pub open spec fn sanitize_char(c: char) -> Seq<char> {
    let code = c as u32;
    if !is_dangerous_control(c) {
        seq![c]
    } else if code == 0x7f {
        seq!['^', '?']
    } else if code <= 0x1f {
        seq!['^', ((code + 64) as u8) as char]
    } else {
        Seq::empty()
    }
}

/// `s` with every dangerous control character neutralised.
pub open spec fn sanitize(s: Seq<char>) -> Seq<char>
    decreases s.len(),
{
    if s.len() == 0 {
        Seq::empty()
    } else {
        sanitize(s.drop_last()) + sanitize_char(s.last())
    }
}

/// Text in `tone`: styled when colour is on, plain otherwise, and in both
/// cases neutralised.
pub open spec fn painted(color: bool, tone: Tone, text: Seq<char>) -> Seq<char> {
    if color {
        tone_style(tone) + sanitize(text) + style_reset()
    } else {
        sanitize(text)
    }
}


/// Whether `s` holds no dangerous control character.
pub open spec fn control_free(s: Seq<char>) -> bool {
    forall|i: int| 0 <= i < s.len() ==> !is_dangerous_control(#[trigger] s[i])
}

/// Neutralising text is a per-character map: it distributes over
/// concatenation.
pub proof fn lemma_sanitize_concat(a: Seq<char>, b: Seq<char>)
    ensures
        sanitize(a + b) == sanitize(a) + sanitize(b),
    decreases b.len(),
{
    if b.len() == 0 {
        assert(a + b =~= a);
        assert(sanitize(a) + sanitize(b) =~= sanitize(a));
    } else {
        assert((a + b).drop_last() =~= a + b.drop_last());
        assert((a + b).last() == b.last());
        lemma_sanitize_concat(a, b.drop_last());
        assert(sanitize(a + b) =~= sanitize(a) + sanitize(b));
    }
}

/// Neutralised text never carries a dangerous control character.
pub proof fn lemma_sanitize_control_free(s: Seq<char>)
    ensures
        control_free(sanitize(s)),
    decreases s.len(),
{
    if s.len() > 0 {
        lemma_sanitize_control_free(s.drop_last());
        let c = s.last();
        let code = c as u32;
        if is_dangerous_control(c) && code <= 0x1f && code != 0x7f {
            let shifted = ((code + 64) as u8) as char;
            assert(shifted as u32 == code + 64);
        }
        assert(control_free(sanitize_char(c)));
        let r = sanitize(s);
        assert(r =~= sanitize(s.drop_last()) + sanitize_char(c));
        assert forall|i: int| 0 <= i < r.len() implies !is_dangerous_control(#[trigger] r[i]) by {
            if i < sanitize(s.drop_last()).len() {
                assert(r[i] == sanitize(s.drop_last())[i]);
            } else {
                assert(r[i] == sanitize_char(c)[i - sanitize(s.drop_last()).len()]);
            }
        }
    }
}

/// Text without dangerous control characters is left as it is.
pub proof fn lemma_sanitize_identity(s: Seq<char>)
    requires
        control_free(s),
    ensures
        sanitize(s) == s,
    decreases s.len(),
{
    if s.len() > 0 {
        assert(control_free(s.drop_last())) by {
            assert forall|i: int| 0 <= i < s.drop_last().len() implies !is_dangerous_control(#[trigger] s.drop_last()[i]) by {
                assert(s.drop_last()[i] == s[i]);
            }
        }
        lemma_sanitize_identity(s.drop_last());
        assert(!is_dangerous_control(s[s.len() - 1]));
        assert(sanitize(s) =~= s);
    }
}

/// Neutralising is idempotent: what the renderers write once is not
/// changed by writing it again.
pub proof fn law_sanitize_idempotent(s: Seq<char>)
    ensures
        sanitize(sanitize(s)) == sanitize(s),
{
    lemma_sanitize_control_free(s);
    lemma_sanitize_identity(sanitize(s));
}

/// With colour off, painted text holds no dangerous control character,
/// whatever the input held.
pub proof fn law_plain_paint_is_control_free(tone: Tone, text: Seq<char>)
    ensures
        control_free(painted(false, tone, text)),
{
    lemma_sanitize_control_free(text);
}

/// A console is determined by whether it paints and by its theme.
pub proof fn lemma_console_determined(a: Console, b: Console)
    requires
        a.spec_color() == b.spec_color(),
        a.spec_theme() == b.spec_theme(),
    ensures
        a == b,
{
}

/// The console that paints when `color` holds, with symbols of `theme`.
pub open spec fn console_with(color: bool, theme: SymbolTheme) -> Console {
    choose|c: Console| c.spec_color() == color && c.spec_theme() == theme
}

impl Console {
    /// Whether this console emits ANSI styles.
    pub closed spec fn spec_color(self) -> bool {
        self.color
    }

    /// The symbol theme of this console.
    pub closed spec fn spec_theme(self) -> SymbolTheme {
        self.theme
    }

    /// Creates a console for a stream with the supplied terminal capability.
    ///
    /// `no_color_unset` is whether the `NO_COLOR` environment variable is
    /// unset; the application reads its environment and passes the answer.
    pub fn new(color: ColorMode, is_terminal: bool, no_color_unset: bool) -> (c: Self)
        ensures
            c.spec_color() == color_policy(color, is_terminal, no_color_unset),
            c.spec_theme() == (if c.spec_color() { SymbolTheme::Unicode } else { SymbolTheme::Ascii }),
    {
        let enabled = color.enabled_with(is_terminal, no_color_unset);
        Console {
            color: enabled,
            theme: if enabled { SymbolTheme::Unicode } else { SymbolTheme::Ascii },
        }
    }

    /// Explicitly override the symbol theme.
    pub fn with_theme(self, theme: SymbolTheme) -> (c: Self)
        ensures
            c.spec_color() == self.spec_color(),
            c.spec_theme() == theme,
    {
        Console { color: self.color, theme }
    }

    /// Returns whether this console emits ANSI styles.
    pub fn color_enabled(self) -> (r: bool)
        ensures
            r == self.spec_color(),
    {
        self.color
    }

    /// Returns the symbol theme used by this console.
    pub fn symbol_theme(self) -> (t: SymbolTheme)
        ensures
            t == self.spec_theme(),
    {
        self.theme
    }

    /// Appends styled, control-character-safe text to `out`.
    pub fn write_paint(self, tone: Tone, value: &str, out: &mut String)
        ensures
            final(out)@ == old(out)@ + painted(self.spec_color(), tone, value@),
    {
        if !self.color {
            push_sanitized(out, value);
        } else {
            let ghost before = out@;
            push_str(out, tone_style_str(tone));
            push_sanitized(out, value);
            push_str(out, "\x1b[0m");
            proof { reveal_strlit("\x1b[0m"); }
            assert(final(out)@ =~= before + painted(self.spec_color(), tone, value@));
        }
    }

    /// Styles a value according to the semantic theme into a String.
    pub fn paint(self, tone: Tone, value: &str) -> (s: String)
        ensures
            s@ == painted(self.spec_color(), tone, value@),
    {
        let mut s = String::new();
        self.write_paint(tone, value, &mut s);
        assert(s@ =~= painted(self.spec_color(), tone, value@));
        s
    }
}

fn tone_style_str(tone: Tone) -> (s: &'static str)
    ensures
        s@ == tone_style(tone),
{
    match tone {
        Tone::Title => { proof { reveal_strlit("\x1b[1;96m"); } "\x1b[1;96m" },
        Tone::Muted => { proof { reveal_strlit("\x1b[2m"); } "\x1b[2m" },
        Tone::Info => { proof { reveal_strlit("\x1b[36m"); } "\x1b[36m" },
        Tone::Success => { proof { reveal_strlit("\x1b[1;92m"); } "\x1b[1;92m" },
        Tone::Warning => { proof { reveal_strlit("\x1b[1;93m"); } "\x1b[1;93m" },
        Tone::Error => { proof { reveal_strlit("\x1b[1;91m"); } "\x1b[1;91m" },
    }
}

/// Whether `ch` is a dangerous control character.
pub fn is_dangerous(ch: char) -> (r: bool)
    ensures
        r == is_dangerous_control(ch),
{
    let code = ch as u32;
    (code <= 0x1f && ch != '\n' && ch != '\t') || code == 0x7f || (0x80 <= code && code <= 0x9f)
}

/// Appends the visible replacement of `ch`.
fn push_sanitized_char(out: &mut String, ch: char)
    ensures
        final(out)@ == old(out)@ + sanitize_char(ch),
{
    let code = ch as u32;
    if !is_dangerous(ch) {
        push_char(out, ch);
    } else if code == 0x7f {
        push_char(out, '^');
        push_char(out, '?');
    } else if code <= 0x1f {
        push_char(out, '^');
        let shifted = (code as u8) + 64u8;
        push_char(out, shifted as char);
    }
    assert(final(out)@ =~= old(out)@ + sanitize_char(ch));
}

/// Appends `input` with every dangerous control character neutralised.
pub fn push_sanitized(out: &mut String, input: &str)
    ensures
        final(out)@ == old(out)@ + sanitize(input@),
{
    let ghost start = out@;
    for ch in it: input.chars()
        invariant
            it.seq() == input@,
            out@ == start + sanitize(it.seq().take(it.index() as int)),
    {
        let ghost i = it.index() as int;
        push_sanitized_char(out, ch);
        assert(it.seq().take(i + 1).drop_last() =~= it.seq().take(i));
    }
    assert(input@.take(input@.len() as int) =~= input@);
}

/// `input` with every dangerous control character neutralised.
pub fn sanitize_visible_text(input: &str) -> (s: String)
    ensures
        s@ == sanitize(input@),
{
    let mut s = String::new();
    push_sanitized(&mut s, input);
    assert(s@ =~= sanitize(input@));
    s
}

} // verus!
