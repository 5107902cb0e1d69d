//! Location formatting and terminal hyperlink support (OSC 8).

use vstd::prelude::*;
use crate::color::{Console, Tone, is_dangerous_control, lemma_sanitize_control_free, painted, sanitize, style_reset, tone_style};
use crate::select::interactive::ascii_lower;
use crate::text::{chars_of, decimal, owned, push_char, push_decimal, push_str};

verus! {

/// A location within a file, document, or remote resource.
#[derive(Debug, Clone, PartialEq, Eq)]
#[non_exhaustive]
pub enum Location {
    /// Local file path with optional line and column numbers.
    #[non_exhaustive]
    File {
        path: String,
        line: Option<usize>,
        column: Option<usize>,
    },
    /// Remote or web URL.
    Url(String),
    /// CSS or DOM selector / node target.
    Selector(String),
    /// Output artifact or destination path.
    Artifact(String),
}

/// A location as plain text, before neutralising: `path:line:column`,
/// `path:line` or `path` for a file, the URL, the selector in backticks,
/// or the artifact path.
pub open spec fn raw_plain(loc: Location) -> Seq<char> {
    match loc {
        Location::File { path, line, column } => match line {
            Some(l) => match column {
                Some(c) => path@ + seq![':'] + decimal(l as nat) + seq![':'] + decimal(c as nat),
                None => path@ + seq![':'] + decimal(l as nat),
            },
            None => path@,
        },
        Location::Url(u) => u@,
        Location::Selector(s) => seq!['`'] + s@ + seq!['`'],
        Location::Artifact(p) => p@,
    }
}

/// A location as a plain, control-character-safe text span.
pub open spec fn plain_text(loc: Location) -> Seq<char> {
    sanitize(raw_plain(loc))
}

/// Whether `url` starts with `http://` or `https://`, in any ASCII case.
pub open spec fn allowed_scheme(url: Seq<char>) -> bool {
    let lower = url.map_values(|c: char| ascii_lower(c));
    crate::text::has_prefix(lower, seq!['h', 't', 't', 'p', ':', '/', '/'])
        || crate::text::has_prefix(lower, seq!['h', 't', 't', 'p', 's', ':', '/', '/'])
}

/// A character an OSC 8 target may not hold: a C0 control, DEL, or a C1
/// control.
pub open spec fn unsafe_target_char(c: char) -> bool {
    let code = c as u32;
    code <= 0x1f || code == 0x7f || (0x80 <= code && code <= 0x9f)
}

/// Whether `url` is a non-empty OSC 8 target free of control characters,
/// escape characters, and embedded terminators.
pub open spec fn safe_target(url: Seq<char>) -> bool {
    url.len() > 0 && forall|i: int| 0 <= i < url.len() ==> !unsafe_target_char(#[trigger] url[i])
}

/// An OSC 8 hyperlink around `text`.
pub open spec fn osc8(url: Seq<char>, text: Seq<char>) -> Seq<char> {
    seq!['\x1b', ']', '8', ';', ';'] + url + seq!['\x1b', '\\'] + text + seq!['\x1b', ']', '8', ';', ';', '\x1b', '\\']
}

/// Whether a byte passes into a file URL as it is.
pub open spec fn url_safe_byte(b: u8) -> bool {
    (0x30 <= b && b <= 0x39) || (0x41 <= b && b <= 0x5a) || (0x61 <= b && b <= 0x7a)
        || b == 0x2f || b == 0x2d || b == 0x2e || b == 0x5f || b == 0x7e || b == 0x3a
}

/// The upper-case hexadecimal digit of `d`.
pub open spec fn hex_digit(d: u8) -> char {
    if d < 10 { ((d + 48) as u8) as char } else { ((d + 55) as u8) as char }
}

/// Percent-encodes bytes for a file URL: safe bytes as they are, others as
/// `%XX`.
pub open spec fn percent_encoded(bytes: Seq<u8>) -> Seq<char>
    decreases bytes.len(),
{
    if bytes.len() == 0 {
        Seq::empty()
    } else {
        let b = bytes.last();
        percent_encoded(bytes.drop_last()) + (if url_safe_byte(b) {
            seq![b as char]
        } else {
            seq!['%', hex_digit(b / 16), hex_digit(b % 16)]
        })
    }
}

/// The value of an upper-case hexadecimal digit.
pub open spec fn hex_value(c: char) -> int {
    if '0' <= c && c <= '9' {
        c as int - '0' as int
    } else if 'A' <= c && c <= 'F' {
        c as int - 'A' as int + 10
    } else {
        -1
    }
}

/// Percent-decoding, read from the end: `%` and two upper-case hex digits
/// stand for the byte they spell, any other character for its own code.
pub open spec fn percent_decoded(s: Seq<char>) -> Seq<u8>
    decreases s.len(),
{
    if s.len() == 0 {
        Seq::empty()
    } else if s.len() >= 3 && s[s.len() - 3] == '%' {
        percent_decoded(s.subrange(0, s.len() - 3)).push((hex_value(s[s.len() - 2]) * 16 + hex_value(s[s.len() - 1])) as u8)
    } else {
        percent_decoded(s.drop_last()).push(s.last() as u8)
    }
}

/// A `%` in an encoded text always begins a whole escape.
proof fn lemma_percent_starts_escape(bytes: Seq<u8>)
    ensures
        forall|p: int| 0 <= p < percent_encoded(bytes).len() && #[trigger] percent_encoded(bytes)[p] == '%'
            ==> p + 3 <= percent_encoded(bytes).len(),
    decreases bytes.len(),
{
    if bytes.len() > 0 {
        let prefix = bytes.drop_last();
        lemma_percent_starts_escape(prefix);
        let e = percent_encoded(prefix);
        let b = bytes.last();
        let tail = if url_safe_byte(b) { seq![b as char] } else { seq!['%', hex_digit(b / 16), hex_digit(b % 16)] };
        assert(percent_encoded(bytes) == e + tail);
        assert forall|p: int| 0 <= p < percent_encoded(bytes).len() && #[trigger] percent_encoded(bytes)[p] == '%'
            implies p + 3 <= percent_encoded(bytes).len() by {
            if p < e.len() {
                assert(percent_encoded(bytes)[p] == e[p]);
            } else if url_safe_byte(b) {
                assert(percent_encoded(bytes)[p] == b as char);
                assert((b as char) as u32 == b as u32);
            }
        }
    }
}

/// Each hex digit written reads back as its value.
proof fn lemma_hex_digit_value(d: u8)
    requires
        d < 16,
    ensures
        hex_value(hex_digit(d)) == d,
{
    if d < 10 {
        assert((((d + 48) as u8) as char) as int == d + 48);
    } else {
        assert((((d + 55) as u8) as char) as int == d + 55);
    }
}

/// Percent-encoding loses nothing: decoding the encoded text gives back
/// exactly the bytes, each escape being `%` and the upper-case hex digits
/// of the byte.
pub proof fn law_percent_encoding_round_trips(bytes: Seq<u8>)
    ensures
        percent_decoded(percent_encoded(bytes)) == bytes,
    decreases bytes.len(),
{
    if bytes.len() > 0 {
        let prefix = bytes.drop_last();
        law_percent_encoding_round_trips(prefix);
        lemma_percent_starts_escape(prefix);
        let e = percent_encoded(prefix);
        let b = bytes.last();
        let s = percent_encoded(bytes);
        if url_safe_byte(b) {
            let tail = seq![b as char];
            assert(s == e + tail);
            assert((b as char) as u32 == b as u32);
            if s.len() >= 3 {
                assert(s[s.len() - 3] == e[e.len() - 2]);
                assert(s[s.len() - 3] != '%');
            }
            assert(s.drop_last() =~= e);
            assert(s.last() == b as char);
            assert(((b as char) as u8) == b);
        } else {
            let tail = seq!['%', hex_digit(b / 16), hex_digit(b % 16)];
            assert(s == e + tail);
            assert(s.subrange(0, s.len() - 3) =~= e);
            lemma_hex_digit_value(b / 16);
            lemma_hex_digit_value(b % 16);
        }
        assert(bytes =~= prefix.push(b));
    }
}

/// `path` with backslashes as slashes, rooted with a leading slash.
pub open spec fn url_path(path: Seq<char>) -> Seq<char> {
    let slashed = path.map_values(|c: char| if c == '\\' { '/' } else { c });
    if slashed.len() > 0 && slashed[0] == '/' { slashed } else { seq!['/'] + slashed }
}

/// The `file://` URL of a resolved path, with the line and column as its
/// fragment.
pub open spec fn file_url(resolved: Seq<char>, line: Option<usize>, column: Option<usize>) -> Seq<char> {
    let base = seq!['f', 'i', 'l', 'e', ':', '/', '/'] + percent_encoded(vstd::utf8::encode_utf8(url_path(resolved)));
    match line {
        Some(l) => match column {
            Some(c) => base + seq!['#'] + decimal(l as nat) + seq![':'] + decimal(c as nat),
            None => base + seq!['#'] + decimal(l as nat),
        },
        None => base,
    }
}

/// A file URL names its path exactly: after `file://`, and before any
/// `#line:column` fragment, percent-decoding gives back the UTF-8 bytes of
/// the rooted path.
pub proof fn law_file_url_names_its_path(resolved: Seq<char>)
    ensures
        ({
            let url = file_url(resolved, None, None);
            &&& url.subrange(0, 7) == seq!['f', 'i', 'l', 'e', ':', '/', '/']
            &&& percent_decoded(url.subrange(7, url.len() as int)) == vstd::utf8::encode_utf8(url_path(resolved))
        }),
{
    let enc = percent_encoded(vstd::utf8::encode_utf8(url_path(resolved)));
    let url = file_url(resolved, None, None);
    assert(url.subrange(7, url.len() as int) =~= enc);
    assert(url.subrange(0, 7) =~= seq!['f', 'i', 'l', 'e', ':', '/', '/']);
    law_percent_encoding_round_trips(vstd::utf8::encode_utf8(url_path(resolved)));
}

/// A location as rendered: plain without colour; with colour, a file as a
/// hyperlink to its resolved path, a URL as a hyperlink only for an allowed
/// scheme and a safe target, and selectors and artifacts styled.
pub open spec fn rendered(loc: Location, color: bool, resolved: Seq<char>) -> Seq<char> {
    if !color {
        plain_text(loc)
    } else {
        match loc {
            Location::File { path, line, column } =>
                osc8(file_url(resolved, line, column), painted(color, Tone::Muted, plain_text(loc))),
            Location::Url(u) => if allowed_scheme(u@) && safe_target(u@) {
                osc8(u@, painted(color, Tone::Info, u@))
            } else {
                painted(color, Tone::Info, u@)
            },
            Location::Selector(s) => painted(color, Tone::Info, seq!['`'] + s@ + seq!['`']),
            Location::Artifact(p) => painted(color, Tone::Success, p@),
        }
    }
}

/// `std::path::Path::is_absolute`. What it decides follows the platform's
/// path rules (a leading `/` on Unix, a prefix and a root on Windows), so
/// nothing is stated of it.
#[verifier::external_body]
fn is_absolute_path(path: &str) -> bool {
    std::path::Path::new(path).is_absolute()
}

/// `std::path::Path::canonicalize`, as text. What it returns depends on the
/// file system; on success it is the canonical, absolute form of the path,
/// which is never empty. Nothing more is stated of it.
#[verifier::external_body]
fn canonical_path(path: &str) -> (r: Option<String>)
    ensures
        r matches Some(p) ==> p@.len() > 0,
{
    std::path::Path::new(path).canonicalize().ok().map(|p| p.to_string_lossy().into_owned())
}

/// `std::path::absolute` of `.`, as text: the current directory, as
/// `std::env::current_dir` reports it (a lone `.` joins onto nothing). It
/// depends on the process's environment, so nothing is stated of it.
#[verifier::external_body]
fn current_directory() -> Option<String> {
    std::path::absolute(".").ok().map(|p| p.to_string_lossy().into_owned())
}

/// `std::path::Path::join`, as text: `path` pushed onto `base`. Pushing a
/// non-empty path never leaves an empty one; the separator and the rules
/// for absolute parts are the platform's, so nothing more is stated.
#[verifier::external_body]
fn join_path(base: &str, path: &str) -> (r: String)
    ensures
        path@.len() > 0 ==> r@.len() > 0,
{
    std::path::Path::new(base).join(path).to_string_lossy().into_owned()
}

/// The characters of an optional string.
pub open spec fn opt_chars(o: Option<String>) -> Option<Seq<char>> {
    match o {
        Some(s) => Some(s@),
        None => None,
    }
}

/// The path a file location links to, given what the file system and the
/// platform answered: the canonical path when there is one; otherwise the
/// path itself when it is absolute, and when it is not, the path joined to
/// the current directory, or the path itself when that cannot be had.
pub open spec fn link_target_spec(path: Seq<char>, canonical: Option<Seq<char>>, absolute: bool,
    joined: Option<Seq<char>>) -> Seq<char>
{
    match canonical {
        Some(c) => c,
        None => if absolute {
            path
        } else {
            match joined {
                Some(j) => j,
                None => path,
            }
        },
    }
}

/// A target `path` can resolve to: the fallback over some answers of the
/// file system and the platform, a canonical path being never empty and a
/// non-empty path joined to a directory never empty either.
pub open spec fn possible_target(path: Seq<char>, target: Seq<char>) -> bool {
    exists|c: Option<Seq<char>>, a: bool, j: Option<Seq<char>>|
        (c matches Some(p) ==> p.len() > 0)
        && (j matches Some(q) ==> (path.len() > 0 ==> q.len() > 0))
        && target == #[trigger] link_target_spec(path, c, a, j)
}

/// Chooses the link target from what the file system and the platform
/// answered, as `link_target_spec` says.
pub fn link_target(path: &str, canonical: Option<String>, absolute: bool, joined: Option<String>) -> (t: String)
    ensures
        t@ == link_target_spec(path@, opt_chars(canonical), absolute, opt_chars(joined)),
{
    match canonical {
        Some(c) => c,
        None => if absolute {
            owned(path)
        } else {
            match joined {
                Some(j) => j,
                None => owned(path),
            }
        },
    }
}

impl Location {
    /// Creates a file location without a line or column number.
    pub fn file(path: &str) -> (l: Self)
        ensures
            l matches Location::File { path: p, line, column } && p@ == path@ && line is None && column is None,
    {
        Location::File { path: owned(path), line: None, column: None }
    }

    /// Creates a file location with a line.
    pub fn file_line(path: &str, line: usize) -> (l: Self)
        ensures
            l matches Location::File { path: p, line: ln, column } && p@ == path@ && ln == Some(line) && column is None,
    {
        Location::File { path: owned(path), line: Some(line), column: None }
    }

    /// Creates a file location with line and column.
    pub fn file_line_col(path: &str, line: usize, column: usize) -> (l: Self)
        ensures
            l matches Location::File { path: p, line: ln, column: c } && p@ == path@ && ln == Some(line) && c == Some(column),
    {
        Location::File { path: owned(path), line: Some(line), column: Some(column) }
    }

    /// Renders the location as a plain text span (e.g. `src/lib.rs:42:10`).
    pub fn to_plain_string(&self) -> (s: String)
        ensures
            s@ == plain_text(*self),
    {
        let mut raw = String::new();
        match self {
            Location::File { path, line, column } => {
                push_str(&mut raw, path.as_str());
                match line {
                    Some(l) => {
                        push_char(&mut raw, ':');
                        push_decimal(&mut raw, *l as u64);
                        match column {
                            Some(c) => {
                                push_char(&mut raw, ':');
                                push_decimal(&mut raw, *c as u64);
                            },
                            None => {},
                        }
                    },
                    None => {},
                }
            },
            Location::Url(u) => { push_str(&mut raw, u.as_str()); },
            Location::Selector(sel) => {
                push_char(&mut raw, '`');
                push_str(&mut raw, sel.as_str());
                push_char(&mut raw, '`');
            },
            Location::Artifact(p) => { push_str(&mut raw, p.as_str()); },
        }
        assert(raw@ =~= raw_plain(*self));
        crate::color::sanitize_visible_text(raw.as_str())
    }

    /// Renders the location given the path a file location resolves to;
    /// `resolved` is not used for any other location.
    pub fn render_resolved(&self, console: Console, resolved: &str) -> (s: String)
        ensures
            s@ == rendered(*self, console.spec_color(), resolved@),
    {
        let plain = self.to_plain_string();
        if !console.color_enabled() {
            return plain;
        }
        match self {
            Location::File { path, line, column } => {
                let url = file_url_of(resolved, *line, *column);
                let styled = console.paint(Tone::Muted, plain.as_str());
                let r = format_osc8_with_trusted_text(url.as_str(), styled.as_str());
                r
            },
            Location::Url(u) => {
                let styled = console.paint(Tone::Info, u.as_str());
                if is_allowed_url_scheme(u.as_str()) && is_safe_osc8_target(u.as_str()) {
                    format_osc8_with_trusted_text(u.as_str(), styled.as_str())
                } else {
                    styled
                }
            },
            Location::Selector(sel) => {
                let mut t = String::new();
                push_char(&mut t, '`');
                push_str(&mut t, sel.as_str());
                push_char(&mut t, '`');
                assert(t@ =~= seq!['`'] + sel@ + seq!['`']);
                console.paint(Tone::Info, t.as_str())
            },
            Location::Artifact(p) => console.paint(Tone::Success, p.as_str()),
        }
    }

    /// Renders the location, opting into OSC 8 terminal hyperlinks when
    /// colour is on. A file location links to its path as the file system
    /// resolves it.
    pub fn render(&self, console: Console) -> (s: String)
        ensures
            exists|resolved: Seq<char>| s@ == #[trigger] rendered(*self, console.spec_color(), resolved),
            !console.spec_color() || !(*self is File) ==> s@ == rendered(*self, console.spec_color(), Seq::empty()),
            *self matches Location::File { path, .. } ==> (console.spec_color() ==>
                exists|t: Seq<char>| possible_target(path@, t) && s@ == #[trigger] rendered(*self, true, t)),
    {
        match self {
            Location::File { path, .. } => {
                if !console.color_enabled() {
                    let s = self.render_resolved(console, "");
                    proof { reveal_strlit(""); assert(""@ =~= Seq::<char>::empty()); }
                    return s;
                }
                let resolved = resolve_path(path.as_str());
                let s = self.render_resolved(console, resolved.as_str());
                s
            },
            _ => {
                let s = self.render_resolved(console, "");
                proof { reveal_strlit(""); assert(""@ =~= Seq::<char>::empty()); }
                s
            },
        }
    }
}

/// The path a file location links to: its canonical form, or where the
/// file system cannot give one, the path itself when absolute and joined
/// to the current directory otherwise. Each question is asked only when
/// the answers before it leave it open.
pub(crate) fn resolve_path(path: &str) -> (r: String)
    ensures
        possible_target(path@, r@),
{
    let canonical = canonical_path(path);
    let absolute = match canonical {
        Some(_) => false,
        None => is_absolute_path(path),
    };
    let joined = match canonical {
        Some(_) => None,
        None => if absolute {
            None
        } else {
            match current_directory() {
                Some(dir) => Some(join_path(dir.as_str(), path)),
                None => None,
            }
        },
    };
    let t = link_target(path, canonical, absolute, joined);
    assert(link_target_spec(path@, opt_chars(canonical), absolute, opt_chars(joined)) == t@);
    t
}

/// Checks whether a URL scheme is allowed for terminal hyperlinking.
///
/// Only `http://` and `https://` are permitted for remote targets.
pub fn is_allowed_url_scheme(url: &str) -> (r: bool)
    ensures
        r == allowed_scheme(url@),
{
    let cs = chars_of(url);
    let ghost lower = url@.map_values(|c: char| ascii_lower(c));
    let http = chars_of("http://");
    let https = chars_of("https://");
    proof {
        reveal_strlit("http://");
        reveal_strlit("https://");
        assert(http@ =~= seq!['h', 't', 't', 'p', ':', '/', '/']);
        assert(https@ =~= seq!['h', 't', 't', 'p', 's', ':', '/', '/']);
    }
    starts_with_lowered(&cs, &http) || starts_with_lowered(&cs, &https)
}

/// Whether `s`, ASCII-lowercased, starts with `prefix`.
fn starts_with_lowered(s: &Vec<char>, prefix: &Vec<char>) -> (r: bool)
    ensures
        r == crate::text::has_prefix(s@.map_values(|c: char| ascii_lower(c)), prefix@),
{
    let ghost lower = s@.map_values(|c: char| ascii_lower(c));
    if prefix.len() > s.len() {
        return false;
    }
    let mut i: usize = 0;
    while i < prefix.len()
        invariant
            prefix@.len() <= s@.len(),
            i <= prefix@.len(),
            lower == s@.map_values(|c: char| ascii_lower(c)),
            forall|k: int| 0 <= k < i ==> lower[k] == prefix@[k],
        decreases prefix@.len() - i,
    {
        if crate::select::interactive::to_ascii_lower(s[i]) != prefix[i] {
            assert(lower.take(prefix@.len() as int)[i as int] != prefix@[i as int]);
            return false;
        }
        i = i + 1;
    }
    assert(lower.take(prefix@.len() as int) =~= prefix@);
    true
}

/// Checks whether an OSC 8 hyperlink target contains no control characters,
/// escape characters, or embedded termination sequences.
pub fn is_safe_osc8_target(url: &str) -> (r: bool)
    ensures
        r == safe_target(url@),
{
    let cs = chars_of(url);
    if cs.len() == 0 {
        return false;
    }
    let mut i: usize = 0;
    while i < cs.len()
        invariant
            cs@ == url@,
            i <= cs@.len(),
            forall|k: int| 0 <= k < i ==> !unsafe_target_char(#[trigger] cs@[k]),
        decreases cs@.len() - i,
    {
        let code = cs[i] as u32;
        if code <= 0x1f || code == 0x7f || (0x80 <= code && code <= 0x9f) {
            return false;
        }
        i = i + 1;
    }
    true
}

/// An OSC 8 hyperlink around text that is already safe.
fn format_osc8_with_trusted_text(url: &str, text: &str) -> (s: String)
    ensures
        s@ == osc8(url@, text@),
{
    let mut s = String::new();
    push_char(&mut s, '\x1b');
    push_char(&mut s, ']');
    push_char(&mut s, '8');
    push_char(&mut s, ';');
    push_char(&mut s, ';');
    push_str(&mut s, url);
    push_char(&mut s, '\x1b');
    push_char(&mut s, '\\');
    push_str(&mut s, text);
    push_char(&mut s, '\x1b');
    push_char(&mut s, ']');
    push_char(&mut s, '8');
    push_char(&mut s, ';');
    push_char(&mut s, ';');
    push_char(&mut s, '\x1b');
    push_char(&mut s, '\\');
    assert(s@ =~= osc8(url@, text@));
    s
}

/// Formats an OSC 8 hyperlinked string for terminal emulators.
///
/// If `url` contains control characters, escape codes, or embedded
/// terminators, hyperlink formatting is suppressed and the neutralised
/// `text` is returned.
pub fn format_osc8(url: &str, text: &str) -> (s: String)
    ensures
        s@ == (if safe_target(url@) { osc8(url@, sanitize(text@)) } else { sanitize(text@) }),
{
    let safe_text = crate::color::sanitize_visible_text(text);
    if !is_safe_osc8_target(url) {
        return safe_text;
    }
    format_osc8_with_trusted_text(url, safe_text.as_str())
}

fn hex(d: u8) -> (c: char)
    requires
        d < 16,
    ensures
        c == hex_digit(d),
{
    if d < 10 { (d + 48) as char } else { (d + 55) as char }
}

/// Percent-encodes the UTF-8 bytes of `path` for a file URL.
fn percent_encode(path: &str) -> (s: String)
    ensures
        s@ == percent_encoded(vstd::utf8::encode_utf8(path@)),
{
    let bytes = path.as_bytes();
    let mut s = String::new();
    let mut i: usize = 0;
    while i < bytes.len()
        invariant
            bytes@ == vstd::utf8::encode_utf8(path@),
            i <= bytes@.len(),
            s@ == percent_encoded(bytes@.take(i as int)),
        decreases bytes@.len() - i,
    {
        let b = bytes[i];
        if (0x30 <= b && b <= 0x39) || (0x41 <= b && b <= 0x5a) || (0x61 <= b && b <= 0x7a)
            || b == 0x2f || b == 0x2d || b == 0x2e || b == 0x5f || b == 0x7e || b == 0x3a {
            push_char(&mut s, b as char);
        } else {
            push_char(&mut s, '%');
            push_char(&mut s, hex(b / 16));
            push_char(&mut s, hex(b % 16));
        }
        proof {
            assert(bytes@.take(i as int + 1).drop_last() =~= bytes@.take(i as int));
        }
        i = i + 1;
    }
    proof { assert(bytes@.take(i as int) =~= bytes@); }
    s
}

/// The `file://` URL of a resolved path.
fn file_url_of(resolved: &str, line: Option<usize>, column: Option<usize>) -> (s: String)
    ensures
        s@ == file_url(resolved@, line, column),
{
    let cs = chars_of(resolved);
    let mut p = String::new();
    let starts_slash = cs.len() > 0 && (cs[0] == '/' || cs[0] == '\\');
    if !starts_slash {
        push_char(&mut p, '/');
    }
    let ghost lead = p@;
    let mut i: usize = 0;
    while i < cs.len()
        invariant
            cs@ == resolved@,
            i <= cs@.len(),
            p@ == lead + cs@.take(i as int).map_values(|c: char| if c == '\\' { '/' } else { c }),
        decreases cs@.len() - i,
    {
        push_char(&mut p, if cs[i] == '\\' { '/' } else { cs[i] });
        proof {
            assert(cs@.take(i as int + 1).map_values(|c: char| if c == '\\' { '/' } else { c })
                =~= cs@.take(i as int).map_values(|c: char| if c == '\\' { '/' } else { c }).push(if cs@[i as int] == '\\' { '/' } else { cs@[i as int] }));
        }
        i = i + 1;
    }
    proof {
        assert(cs@.take(i as int) =~= cs@);
        assert(p@ =~= url_path(resolved@));
    }
    let mut s = String::new();
    push_str(&mut s, "file://");
    proof { reveal_strlit("file://"); }
    let enc = percent_encode(p.as_str());
    push_str(&mut s, enc.as_str());
    match line {
        Some(l) => {
            push_char(&mut s, '#');
            push_decimal(&mut s, l as u64);
            match column {
                Some(c) => {
                    push_char(&mut s, ':');
                    push_decimal(&mut s, c as u64);
                },
                None => {},
            }
        },
        None => {},
    }
    assert(s@ =~= file_url(resolved@, line, column));
    s
}

/// Every escape character in `s` opens a CSI sequence (`ESC [`), so `s`
/// holds no OSC sequence and no hyperlink.
pub open spec fn only_csi_escapes(s: Seq<char>) -> bool {
    forall|i: int| 0 <= i < s.len() && #[trigger] s[i] == '\x1b' ==> i + 1 < s.len() && s[i + 1] == '['
}

/// With colour on, a URL becomes a terminal hyperlink only when its scheme
/// is `http` or `https` and its target is safe. Any other URL is styled
/// text, and its rendering opens no OSC sequence whatever the URL holds.
pub proof fn law_unsafe_url_is_never_linked(u: String, resolved: Seq<char>)
    requires
        !(allowed_scheme(u@) && safe_target(u@)),
    ensures
        rendered(Location::Url(u), true, resolved) == painted(true, Tone::Info, u@),
        only_csi_escapes(rendered(Location::Url(u), true, resolved)),
{
    let t = sanitize(u@);
    lemma_sanitize_control_free(u@);
    let r = painted(true, Tone::Info, u@);
    assert(r =~= tone_style(Tone::Info) + t + style_reset());
    let a = tone_style(Tone::Info).len() as int;
    let b = a + t.len();
    assert forall|i: int| 0 <= i < r.len() && #[trigger] r[i] == '\x1b' implies i + 1 < r.len() && r[i + 1] == '[' by {
        if i < a {
            assert(r[i] == tone_style(Tone::Info)[i]);
            assert(i == 0);
            assert(r[1] == '[');
        } else if i < b {
            assert(r[i] == t[i - a]);
            assert(!is_dangerous_control(t[i - a]));
        } else {
            assert(r[i] == style_reset()[i - b]);
            assert(i == b);
            assert(r[i + 1] == style_reset()[1]);
        }
    }
}

} // verus!
