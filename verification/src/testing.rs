//! ANSI stripping for golden CLI tests.

use vstd::prelude::*;
use crate::color::{Tone, is_dangerous_control, lemma_sanitize_control_free, painted, sanitize, style_reset};
use crate::text::{chars_of, push_char};

verus! {

/// What `strip_ansi` keeps of `s`, reading it in a state: inside a CSI
/// sequence (`csi`), inside an OSC sequence (`osc`), or neither.
///
/// `ESC ]` opens an OSC sequence, which a BEL or a backslash closes; `ESC [`
/// opens a CSI sequence, which an ASCII letter closes. Characters inside a
/// sequence, and the ones that open and close it, are dropped.
pub open spec fn stripped(s: Seq<char>, csi: bool, osc: bool) -> Seq<char>
    decreases s.len(),
{
    if s.len() == 0 {
        Seq::empty()
    } else {
        let ch = s[0];
        let rest = s.drop_first();
        if ch == '\x1b' && rest.len() > 0 && rest[0] == ']' {
            stripped(rest.drop_first(), csi, true)
        } else if ch == '\x1b' && rest.len() > 0 && rest[0] == '[' {
            stripped(rest.drop_first(), true, osc)
        } else if csi {
            stripped(rest, !(('a' <= ch && ch <= 'z') || ('A' <= ch && ch <= 'Z')), osc)
        } else if osc {
            stripped(rest, csi, !(ch == '\x07' || ch == '\\'))
        } else {
            seq![ch] + stripped(rest, csi, osc)
        }
    }
}

/// Strips ANSI escape sequences (colors, styling, OSC 8 links) from a rendered string.
pub fn strip_ansi(input: &str) -> (s: String)
    ensures
        s@ == stripped(input@, false, false),
{
    let cs = chars_of(input);
    let n = cs.len();
    let mut out = String::new();
    let mut in_escape = false;
    let mut in_osc8 = false;
    let mut i: usize = 0;
    proof {
        assert(cs@.skip(0) =~= input@);
        assert(out@ + stripped(input@, false, false) =~= stripped(input@, false, false));
    }
    while i < n
        invariant
            n == cs@.len(),
            cs@ == input@,
            i <= n,
            out@ + stripped(cs@.skip(i as int), in_escape, in_osc8) == stripped(input@, false, false),
        decreases n - i,
    {
        let ghost rest = cs@.skip(i as int);
        let ch = cs[i];
        proof {
            assert(rest[0] == ch);
            assert(rest.drop_first() =~= cs@.skip(i as int + 1));
            if i + 1 < n {
                assert(rest.drop_first()[0] == cs@[i as int + 1]);
                assert(rest.drop_first().drop_first() =~= cs@.skip(i as int + 2));
            }
        }
        if ch == '\x1b' && i + 1 < n && cs[i + 1] == ']' {
            in_osc8 = true;
            i = i + 2;
        } else if ch == '\x1b' && i + 1 < n && cs[i + 1] == '[' {
            in_escape = true;
            i = i + 2;
        } else if in_escape {
            if ('a' <= ch && ch <= 'z') || ('A' <= ch && ch <= 'Z') {
                in_escape = false;
            }
            i = i + 1;
        } else if in_osc8 {
            if ch == '\x07' || ch == '\\' {
                in_osc8 = false;
            }
            i = i + 1;
        } else {
            let ghost before = out@;
            push_char(&mut out, ch);
            proof {
                assert(before + stripped(rest, false, false)
                    =~= out@ + stripped(cs@.skip(i as int + 1), false, false));
            }
            i = i + 1;
        }
    }
    proof {
        assert(cs@.skip(i as int) =~= Seq::<char>::empty());
        assert(out@ + Seq::<char>::empty() =~= out@);
    }
    out
}

/// Text without an escape character passes through stripping as it is.
proof fn lemma_stripped_plain(x: Seq<char>, rest: Seq<char>)
    requires
        forall|i: int| 0 <= i < x.len() ==> x[i] != '\x1b',
    ensures
        stripped(x + rest, false, false) == x + stripped(rest, false, false),
    decreases x.len(),
{
    if x.len() == 0 {
        assert(x + rest =~= rest);
        assert(x + stripped(rest, false, false) =~= stripped(rest, false, false));
    } else {
        let s = x + rest;
        assert(s[0] == x[0]);
        assert(s.drop_first() =~= x.drop_first() + rest);
        lemma_stripped_plain(x.drop_first(), rest);
        assert(x + stripped(rest, false, false) =~= seq![x[0]] + (x.drop_first() + stripped(rest, false, false)));
    }
}

/// The parameters of a CSI sequence, up to its final `m`, are dropped.
proof fn lemma_stripped_csi_body(body: Seq<char>, rest: Seq<char>)
    requires
        forall|i: int| 0 <= i < body.len() ==> body[i] != '\x1b' && !(('a' <= body[i] && body[i] <= 'z') || ('A' <= body[i] && body[i] <= 'Z')),
    ensures
        stripped(body + seq!['m'] + rest, true, false) == stripped(rest, false, false),
    decreases body.len(),
{
    let s = body + seq!['m'] + rest;
    if body.len() == 0 {
        assert(s[0] == 'm');
        assert(s.drop_first() =~= rest);
    } else {
        assert(s[0] == body[0]);
        assert(s.drop_first() =~= body.drop_first() + seq!['m'] + rest);
        lemma_stripped_csi_body(body.drop_first(), rest);
    }
}

/// A whole `ESC [ ... m` style sequence is dropped.
proof fn lemma_stripped_style(body: Seq<char>, rest: Seq<char>)
    requires
        forall|i: int| 0 <= i < body.len() ==> body[i] != '\x1b' && !(('a' <= body[i] && body[i] <= 'z') || ('A' <= body[i] && body[i] <= 'Z')),
    ensures
        stripped(seq!['\x1b', '['] + body + seq!['m'] + rest, false, false) == stripped(rest, false, false),
{
    let s = seq!['\x1b', '['] + body + seq!['m'] + rest;
    assert(s[0] == '\x1b');
    assert(s.drop_first()[0] == '[');
    assert(s.drop_first().drop_first() =~= body + seq!['m'] + rest);
    lemma_stripped_csi_body(body, rest);
}

/// Stripping the styles from painted text leaves the text as it is painted
/// without colour: `strip_ansi` recovers the plain rendering.
pub proof fn law_strip_recovers_plain_paint(tone: Tone, text: Seq<char>)
    ensures
        stripped(painted(true, tone, text), false, false) == painted(false, tone, text),
        stripped(painted(false, tone, text), false, false) == painted(false, tone, text),
{
    let t = sanitize(text);
    lemma_sanitize_control_free(text);
    assert forall|i: int| 0 <= i < t.len() implies t[i] != '\x1b' by {
        assert(!is_dangerous_control(t[i]));
    }
    let body: Seq<char> = match tone {
        Tone::Title => seq!['1', ';', '9', '6'],
        Tone::Muted => seq!['2'],
        Tone::Info => seq!['3', '6'],
        Tone::Success => seq!['1', ';', '9', '2'],
        Tone::Warning => seq!['1', ';', '9', '3'],
        Tone::Error => seq!['1', ';', '9', '1'],
    };
    let reset_body: Seq<char> = seq!['0'];
    let tail = t + style_reset();
    assert(painted(true, tone, text) =~= seq!['\x1b', '['] + body + seq!['m'] + tail);
    lemma_stripped_style(body, tail);
    lemma_stripped_plain(t, style_reset());
    assert(style_reset() =~= seq!['\x1b', '['] + reset_body + seq!['m'] + Seq::<char>::empty());
    lemma_stripped_style(reset_body, Seq::<char>::empty());
    assert(t + Seq::<char>::empty() =~= t);
    lemma_stripped_plain(t, Seq::<char>::empty());
}

} // verus!
