//! Word wrapping for finding lines: splitting text at white space, laying
//! words out within a width, and starting same-line suffixes.

use vstd::prelude::*;
use crate::color::{Console, Tone, painted, sanitize};
use crate::text::{display_width, push_char, push_str, sat, str_width};

verus! {

/// The hanging indent of a continued finding line.
pub open spec fn continuation() -> Seq<char> {
    seq![' ', ' ', ' ', ' ']
}

/// Whether `c` is white space: a character with Unicode's `White_Space`
/// property, the set `char::is_whitespace` tests.
pub open spec fn is_space(c: char) -> bool {
    ('\t' <= c && c <= '\r') || c == ' ' || c == '\u{85}' || c == '\u{a0}' || c == '\u{1680}'
        || ('\u{2000}' <= c && c <= '\u{200a}') || c == '\u{2028}' || c == '\u{2029}'
        || c == '\u{202f}' || c == '\u{205f}' || c == '\u{3000}'
}

/// Whether `c` is white space.
pub fn is_space_char(c: char) -> (r: bool)
    ensures
        r == is_space(c),
{
    ('\t' <= c && c <= '\r') || c == ' ' || c == '\u{85}' || c == '\u{a0}' || c == '\u{1680}'
        || ('\u{2000}' <= c && c <= '\u{200a}') || c == '\u{2028}' || c == '\u{2029}'
        || c == '\u{202f}' || c == '\u{205f}' || c == '\u{3000}'
}

/// The words of `s` after the partial word `cur`: maximal runs of
/// characters that are not white space, in order.
pub open spec fn words_from(s: Seq<char>, cur: Seq<char>) -> Seq<Seq<char>>
    decreases s.len(),
{
    if s.len() == 0 {
        if cur.len() == 0 { Seq::empty() } else { seq![cur] }
    } else if is_space(s[0]) {
        (if cur.len() == 0 { Seq::empty() } else { seq![cur] }) + words_from(s.drop_first(), Seq::empty())
    } else {
        words_from(s.drop_first(), cur.push(s[0]))
    }
}

/// The words of `s`, as `str::split_whitespace` yields them.
pub open spec fn words(s: Seq<char>) -> Seq<Seq<char>> {
    words_from(s, Seq::empty())
}

/// The character sequences of a list of strings.
pub open spec fn strings_view(v: Seq<String>) -> Seq<Seq<char>> {
    v.map_values(|w: String| w@)
}

/// Splits `text` into its words.
pub fn split_words(text: &str) -> (ws: Vec<String>)
    ensures
        strings_view(ws@) == words(text@),
{
    let cs = crate::text::chars_of(text);
    let n = cs.len();
    let mut ws: Vec<String> = Vec::new();
    let mut cur = String::new();
    let mut has_cur = false;
    let mut i: usize = 0;
    proof {
        assert(cs@.skip(0) =~= text@);
        assert(strings_view(ws@) + words_from(cs@.skip(0), cur@) =~= words(text@));
    }
    while i < n
        invariant
            n == cs@.len(),
            cs@ == text@,
            i <= n,
            has_cur == (cur@.len() > 0),
            strings_view(ws@) + words_from(cs@.skip(i as int), cur@) == words(text@),
        decreases n - i,
    {
        let c = cs[i];
        let ghost rest = cs@.skip(i as int);
        proof {
            assert(rest[0] == c);
            assert(rest.drop_first() =~= cs@.skip(i as int + 1));
        }
        if is_space_char(c) {
            let ghost before = strings_view(ws@);
            if has_cur {
                let ghost w = cur@;
                let done = cur;
                ws.push(done);
                cur = String::new();
                has_cur = false;
                proof {
                    assert(strings_view(ws@) =~= before + seq![w]);
                    assert(before + (seq![w] + words_from(cs@.skip(i as int + 1), Seq::empty()))
                        =~= strings_view(ws@) + words_from(cs@.skip(i as int + 1), cur@));
                }
            } else {
                proof {
                    assert(cur@.len() == 0);
                    assert(cur@ =~= Seq::<char>::empty());
                    assert(Seq::<Seq<char>>::empty() + words_from(cs@.skip(i as int + 1), Seq::empty())
                        =~= words_from(cs@.skip(i as int + 1), Seq::empty()));
                }
            }
        } else {
            push_char(&mut cur, c);
            has_cur = true;
        }
        i = i + 1;
    }
    if has_cur {
        let ghost before = strings_view(ws@);
        let ghost w = cur@;
        ws.push(cur);
        proof {
            assert(cs@.skip(i as int).len() == 0);
            assert(strings_view(ws@) =~= before + seq![w]);
        }
    } else {
        proof {
            assert(cs@.skip(i as int).len() == 0);
            assert(strings_view(ws@) + Seq::<Seq<char>>::empty() =~= strings_view(ws@));
        }
    }
    ws
}

/// One word laid out from a line `lw` columns wide, `first` when no word is
/// on the line yet: a word that would pass `width` starts a new line under
/// the hanging indent (`cw` columns wide), and words on a line are
/// separated by one space. Gives the text and the new line width, counted
/// with saturating arithmetic.
pub open spec fn wrap_step(color: bool, tone: Tone, w: Seq<char>, width: int, lw: int, first: bool, cw: int) -> (Seq<char>, int) {
    let ww = str_width(w) as int;
    let sep: int = if first { 0 } else { 1 };
    let brk = !first && sat(sat(lw + sep) + ww) > width;
    let lw1 = if brk { cw } else { lw };
    let first1 = if brk { true } else { first };
    let pre = if brk { seq!['\n'] + continuation() } else { Seq::empty() };
    let sp = if !first1 { seq![' '] } else { Seq::empty() };
    let lw2 = if !first1 { sat(lw1 + 1) } else { lw1 };
    (pre + sp + painted(color, tone, w), sat(lw2 + ww))
}

/// Lays out the words `ws` one after another from a line `lw` columns
/// wide. Gives the text and the width of the last line.
pub open spec fn wrap_words(color: bool, tone: Tone, ws: Seq<Seq<char>>, width: int, lw: int, first: bool, cw: int) -> (Seq<char>, int)
    decreases ws.len(),
{
    if ws.len() == 0 {
        (Seq::empty(), lw)
    } else {
        let st = wrap_step(color, tone, ws[0], width, lw, first, cw);
        let rest = wrap_words(color, tone, ws.drop_first(), width, st.1, false, cw);
        (st.0 + rest.0, rest.1)
    }
}

/// Each word of `ws` neutralised, as painting without colour leaves it.
pub open spec fn neutralised(ws: Seq<Seq<char>>) -> Seq<Seq<char>> {
    ws.map_values(|w: Seq<char>| sanitize(w))
}

/// `ws` in order: the first after nothing when `first`, and every other
/// after a single space or, where `brk` says, after a line break and the
/// hanging indent.
pub open spec fn joined(ws: Seq<Seq<char>>, brk: Seq<bool>, first: bool) -> Seq<char>
    decreases ws.len(),
{
    if ws.len() == 0 {
        Seq::empty()
    } else {
        let sep = if first { Seq::empty() } else if brk[0] { seq!['\n'] + continuation() } else { seq![' '] };
        sep + ws[0] + joined(ws.drop_first(), brk.drop_first(), false)
    }
}

/// Where each word of `ws` lands: whether it opens its line, and the width
/// of that line once the word is on it — the indent or the text before,
/// then each word of the line with one space between two.
pub open spec fn wrap_layout(ws: Seq<Seq<char>>, width: int, lw: int, first: bool, cw: int) -> Seq<(bool, int)>
    decreases ws.len(),
{
    if ws.len() == 0 {
        Seq::empty()
    } else {
        let ww = str_width(ws[0]) as int;
        let brk = !first && sat(sat(lw + 1) + ww) > width;
        let opens = first || brk;
        let after = if brk { sat(cw + ww) } else if first { sat(lw + ww) } else { sat(sat(lw + 1) + ww) };
        seq![(opens, after)] + wrap_layout(ws.drop_first(), width, after, false, cw)
    }
}

/// Wrapping loses no word and adds none: without colour the wrapped text is
/// the words, neutralised, in their order, each after a single space or
/// after a line break and the hanging indent. And a line passes the width
/// only where a word opens it: a word that would pass it goes to the next
/// line, so only a word wider than the room on its own line can overflow.
pub proof fn law_wrap_keeps_words_and_fits(tone: Tone, ws: Seq<Seq<char>>, width: int, lw: int, first: bool, cw: int)
    ensures
        exists|brk: Seq<bool>| brk.len() == ws.len()
            && #[trigger] joined(neutralised(ws), brk, first) == wrap_words(false, tone, ws, width, lw, first, cw).0,
        wrap_layout(ws, width, lw, first, cw).len() == ws.len(),
        forall|k: int| 0 <= k < ws.len() ==>
            (#[trigger] wrap_layout(ws, width, lw, first, cw)[k]).1 <= width || wrap_layout(ws, width, lw, first, cw)[k].0,
    decreases ws.len(),
{
    let brk = wrap_breaks(ws, width, lw, first, cw);
    lemma_wrap_joined(tone, ws, width, lw, first, cw);
    assert(joined(neutralised(ws), brk, first) == wrap_words(false, tone, ws, width, lw, first, cw).0);
    if ws.len() > 0 {
        let ww = str_width(ws[0]) as int;
        let b = !first && sat(sat(lw + 1) + ww) > width;
        let after = if b { sat(cw + ww) } else if first { sat(lw + ww) } else { sat(sat(lw + 1) + ww) };
        law_wrap_keeps_words_and_fits(tone, ws.drop_first(), width, after, false, cw);
        let lay = wrap_layout(ws, width, lw, first, cw);
        let rest = wrap_layout(ws.drop_first(), width, after, false, cw);
        assert(lay == seq![(first || b, after)] + rest);
        assert forall|k: int| 0 <= k < ws.len() implies (#[trigger] lay[k]).1 <= width || lay[k].0 by {
            if k > 0 {
                assert(lay[k] == rest[k - 1]);
            }
        }
    }
}

/// Where wrapping breaks the line before each word of `ws`.
spec fn wrap_breaks(ws: Seq<Seq<char>>, width: int, lw: int, first: bool, cw: int) -> Seq<bool>
    decreases ws.len(),
{
    if ws.len() == 0 {
        Seq::empty()
    } else {
        let ww = str_width(ws[0]) as int;
        let brk = !first && sat(sat(lw + 1) + ww) > width;
        let st = wrap_step(false, Tone::Info, ws[0], width, lw, first, cw);
        seq![brk] + wrap_breaks(ws.drop_first(), width, st.1, false, cw)
    }
}

proof fn lemma_wrap_joined(tone: Tone, ws: Seq<Seq<char>>, width: int, lw: int, first: bool, cw: int)
    ensures
        wrap_breaks(ws, width, lw, first, cw).len() == ws.len(),
        joined(neutralised(ws), wrap_breaks(ws, width, lw, first, cw), first)
            == wrap_words(false, tone, ws, width, lw, first, cw).0,
    decreases ws.len(),
{
    if ws.len() > 0 {
        let st = wrap_step(false, tone, ws[0], width, lw, first, cw);
        assert(st.1 == wrap_step(false, Tone::Info, ws[0], width, lw, first, cw).1);
        lemma_wrap_joined(tone, ws.drop_first(), width, st.1, false, cw);
        let sw = neutralised(ws);
        assert(sw.drop_first() =~= neutralised(ws.drop_first()));
        let brk = wrap_breaks(ws, width, lw, first, cw);
        assert(brk.drop_first() == wrap_breaks(ws.drop_first(), width, st.1, false, cw));
        assert(sw[0] == sanitize(ws[0]));
        let ww = str_width(ws[0]) as int;
        let b = !first && sat(sat(lw + 1) + ww) > width;
        let sep = if first { Seq::<char>::empty() } else if b { seq!['\n'] + continuation() } else { seq![' '] };
        let pre = if b { seq!['\n'] + continuation() } else { Seq::<char>::empty() };
        let first1 = if b { true } else { first };
        let sp = if !first1 { seq![' '] } else { Seq::<char>::empty() };
        assert(pre + sp =~= sep);
        assert(st.0 == pre + sp + sanitize(ws[0]));
        assert(wrap_words(false, tone, ws, width, lw, first, cw).0
            == st.0 + wrap_words(false, tone, ws.drop_first(), width, st.1, false, cw).0);
        assert(joined(sw, brk, first) =~= sep + sw[0] + joined(sw.drop_first(), brk.drop_first(), false));
    }
}

/// Appends one word of a wrapped message.
fn write_word(console: Console, tone: Tone, word: &str, width: usize, line_width: usize, first_word: bool, out: &mut String) -> (lw: usize)
    ensures
        final(out)@ == old(out)@ + wrap_step(console.spec_color(), tone, word@, width as int, line_width as int,
            first_word, str_width(continuation()) as int).0,
        lw as int == wrap_step(console.spec_color(), tone, word@, width as int, line_width as int,
            first_word, str_width(continuation()) as int).1,
{
    proof {
        reveal_strlit("    ");
        assert("    "@ =~= continuation());
    }
    let ghost before = out@;
    let word_width = display_width(word);
    let separator_width: usize = if first_word { 0 } else { 1 };
    let mut lw = line_width;
    let mut first = first_word;
    if !first && lw.saturating_add(separator_width).saturating_add(word_width) > width {
        push_char(out, '\n');
        push_str(out, "    ");
        lw = display_width("    ");
        first = true;
    }
    if !first {
        push_char(out, ' ');
        lw = lw.saturating_add(1);
    }
    console.write_paint(tone, word, out);
    proof {
        let color = console.spec_color();
        let sep: int = if first_word { 0 } else { 1 };
        let brk = !first_word && sat(sat(line_width + sep) + word_width) > width;
        let pre = if brk { seq!['\n'] + continuation() } else { Seq::<char>::empty() };
        let first1 = if brk { true } else { first_word };
        let sp = if !first1 { seq![' '] } else { Seq::<char>::empty() };
        assert(out@ =~= before + (pre + sp + painted(color, tone, word@)));
    }
    lw.saturating_add(word_width)
}

/// A message written from a line `first_width` columns wide and wrapped at
/// `width`: painted whole when the width leaves no room past the hanging
/// indent or the line is already full, word by word otherwise. Gives the
/// text and the width of the last line.
pub open spec fn wrapped(color: bool, tone: Tone, text: Seq<char>, width: int, first_width: int) -> (Seq<char>, int) {
    let cw = str_width(continuation()) as int;
    if width <= cw || first_width >= width {
        (painted(color, tone, text), sat(first_width + str_width(text)))
    } else {
        wrap_words(color, tone, words(text), width, first_width, true, cw)
    }
}

/// Appends `text` word by word, wrapping at `width` with the hanging indent.
/// Returns the width of the last line written.
pub fn write_wrapped_toned_text(console: Console, tone: Tone, text: &str, width: usize, first_line_width: usize, out: &mut String) -> (lw: usize)
    ensures
        final(out)@ == old(out)@ + wrapped(console.spec_color(), tone, text@, width as int, first_line_width as int).0,
        lw as int == wrapped(console.spec_color(), tone, text@, width as int, first_line_width as int).1,
{
    let continuation_width = display_width("    ");
    proof {
        reveal_strlit("    ");
        assert("    "@ =~= continuation());
    }
    if width <= continuation_width || first_line_width >= width {
        console.write_paint(tone, text, out);
        return first_line_width.saturating_add(display_width(text));
    }
    let ws = split_words(text);
    let ghost all = strings_view(ws@);
    let ghost color = console.spec_color();
    let ghost cw = continuation_width as int;
    let ghost start = out@;
    let mut line_width = first_line_width;
    let mut first_word = true;
    let mut i: usize = 0;
    proof {
        assert(all.skip(0) =~= all);
        assert(start + wrap_words(color, tone, all.skip(0), width as int, line_width as int, first_word, cw).0
            =~= start + wrap_words(color, tone, all, width as int, first_line_width as int, true, cw).0);
    }
    while i < ws.len()
        invariant
            all == strings_view(ws@),
            all == words(text@),
            i <= ws@.len(),
            cw == str_width(continuation()) as int,
            continuation_width as int == cw,
            color == console.spec_color(),
            out@ + wrap_words(color, tone, all.skip(i as int), width as int, line_width as int, first_word, cw).0
                == start + wrap_words(color, tone, all, width as int, first_line_width as int, true, cw).0,
            wrap_words(color, tone, all.skip(i as int), width as int, line_width as int, first_word, cw).1
                == wrap_words(color, tone, all, width as int, first_line_width as int, true, cw).1,
        decreases ws@.len() - i,
    {
        let ghost rest = all.skip(i as int);
        let word = ws[i].as_str();
        proof {
            assert(rest[0] == word@);
            assert(rest.drop_first() =~= all.skip(i as int + 1));
        }
        line_width = write_word(console, tone, word, width, line_width, first_word, out);
        first_word = false;
        i = i + 1;
    }
    proof {
        assert(all.skip(i as int) =~= Seq::<Seq<char>>::empty());
        assert(out@ + Seq::<char>::empty() =~= out@);
    }
    line_width
}

/// Whether a suffix `sw` columns wide, after a line `lw` columns wide, goes
/// to a new line: only under a width that leaves room past the hanging
/// indent, and only when the suffix would pass it.
pub open spec fn suffix_breaks(lw: int, sw: int, width: Option<usize>) -> bool {
    match width {
        Some(w) => w > str_width(continuation()) && sat(sat(lw + 1) + sw) > w,
        None => false,
    }
}

/// What starts a suffix: a line break and the hanging indent, or a space.
pub open spec fn suffix_lead(lw: int, sw: int, width: Option<usize>) -> Seq<char> {
    if suffix_breaks(lw, sw, width) { seq!['\n'] + continuation() } else { seq![' '] }
}

/// The line width after a suffix.
pub open spec fn suffix_end(lw: int, sw: int, width: Option<usize>) -> int {
    if suffix_breaks(lw, sw, width) {
        sat(str_width(continuation()) + sw)
    } else {
        sat(sat(lw + 1) + sw)
    }
}

/// Starts a same-line suffix `suffix_width` columns wide: a space, or, when a width is
/// known and the suffix would not fit, a line break with the hanging indent.
/// Returns the line width after the suffix.
pub fn start_suffix(line_width: usize, suffix_width: usize, width: Option<usize>, out: &mut String) -> (lw: usize)
    ensures
        final(out)@ == old(out)@ + suffix_lead(line_width as int, suffix_width as int, width),
        lw as int == suffix_end(line_width as int, suffix_width as int, width),
{
    let continuation_width = display_width("    ");
    proof {
        reveal_strlit("    ");
        assert("    "@ =~= continuation());
    }
    let breaks = match width {
        Some(w) => w > continuation_width && line_width.saturating_add(1).saturating_add(suffix_width) > w,
        None => false,
    };
    if breaks {
        let ghost before = out@;
        push_char(out, '\n');
        push_str(out, "    ");
        assert(out@ =~= before + (seq!['\n'] + continuation()));
        continuation_width.saturating_add(suffix_width)
    } else {
        push_char(out, ' ');
        line_width.saturating_add(1).saturating_add(suffix_width)
    }
}

} // verus!
