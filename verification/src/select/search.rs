//! Ranking menu entries against a typed query.
//!
//! The tiers matter more than the numbers: a name the user is typing beats
//! a description that happens to contain the same letters, and a run of
//! adjacent characters beats the same letters scattered through the name.

use vstd::prelude::*;
use crate::text::chars_of;
use super::Item;

verus! {

/// The lowercase form of a string, as `str::to_lowercase` gives it.
pub uninterp spec fn lowercase(s: Seq<char>) -> Seq<char>;

/// Lowercases `s` with `str::to_lowercase` (full Unicode case mapping).
/// The mapping is a function of the characters alone; its tables are not
/// restated.
#[verifier::external_body]
pub fn to_lowercase(s: &str) -> (r: String)
    ensures
        r@ == lowercase(s@),
{
    s.to_lowercase()
}

/// The number of bytes UTF-8 spends on `c`.
pub open spec fn utf8_len(c: char) -> nat {
    let code = c as u32;
    if code <= 0x7f { 1 } else if code <= 0x7ff { 2 } else if code <= 0xffff { 3 } else { 4 }
}

/// The number of bytes UTF-8 spends on `s`.
pub open spec fn byte_len(s: Seq<char>) -> nat
    decreases s.len(),
{
    if s.len() == 0 { 0 } else { byte_len(s.drop_last()) + utf8_len(s.last()) }
}

/// Whether `pat` occurs in `text` at character index `i`.
pub open spec fn occurs_at(text: Seq<char>, pat: Seq<char>, i: int) -> bool {
    0 <= i && i + pat.len() <= text.len() && text.subrange(i, i + pat.len()) == pat
}

/// The first character index at or after `i` where `pat` occurs in `text`.
pub open spec fn find_from(text: Seq<char>, pat: Seq<char>, i: nat) -> Option<nat>
    decreases text.len() + 1 - i,
{
    if i + pat.len() > text.len() {
        None
    } else if occurs_at(text, pat, i as int) {
        Some(i)
    } else {
        find_from(text, pat, i + 1)
    }
}

/// The byte offset of the first occurrence of `pat` in `text`, as
/// `str::find` reports it.
pub open spec fn find_bytes(text: Seq<char>, pat: Seq<char>) -> Option<nat> {
    match find_from(text, pat, 0) {
        Some(i) => Some(byte_len(text.take(i as int))),
        None => None,
    }
}

/// The first character index at or after `from` holding `c`.
pub open spec fn next_index(text: Seq<char>, c: char, from: nat) -> Option<nat>
    decreases text.len() - from,
{
    if from >= text.len() {
        None
    } else if text[from as int] == c {
        Some(from)
    } else {
        next_index(text, c, from + 1)
    }
}

/// Where the characters of `query` are found in `text`, each at the first
/// place after the previous one, or `None` if `query` is not a subsequence.
pub open spec fn subsequence_positions(text: Seq<char>, query: Seq<char>, from: nat) -> Option<Seq<nat>>
    decreases query.len(),
{
    if query.len() == 0 {
        Some(Seq::empty())
    } else {
        match next_index(text, query[0], from) {
            None => None,
            Some(p) => match subsequence_positions(text, query.drop_first(), p + 1) {
                None => None,
                Some(rest) => Some(seq![p] + rest),
            },
        }
    }
}

/// The span, in bytes, that `query` occupies in `text` as a subsequence.
pub open spec fn subsequence_span_spec(text: Seq<char>, query: Seq<char>) -> Option<nat> {
    match subsequence_positions(text, query, 0) {
        None => None,
        Some(ps) => if ps.len() == 0 {
            Some(1)
        } else {
            Some((byte_len(text.take(ps.last() as int)) - byte_len(text.take(ps[0] as int)) + 1) as nat)
        },
    }
}

pub open spec fn clamp_u32(n: nat) -> u32 {
    if n > u32::MAX { u32::MAX } else { n as u32 }
}

pub open spec fn add_sat_u32(a: u32, b: u32) -> u32 {
    if a + b > u32::MAX { u32::MAX } else { (a + b) as u32 }
}

/// Tier of a match in the label.
pub const LABEL_SUBSTRING: u32 = 0;
/// Tier of a scattered match in the label.
pub const LABEL_SUBSEQUENCE: u32 = 1_000;
/// Tier of a match in the description.
pub const DESCRIPTION: u32 = 10_000;

/// How well an entry answers a lowercased `query`, lower being better, or
/// `None` when it does not match.
pub open spec fn score_spec(item: Item, query: Seq<char>) -> Option<u32> {
    let label = lowercase(item.label@);
    match find_bytes(label, query) {
        Some(at) => Some(add_sat_u32(LABEL_SUBSTRING, clamp_u32(at))),
        None => match subsequence_span_spec(label, query) {
            Some(span) => Some(add_sat_u32(LABEL_SUBSEQUENCE, clamp_u32(span))),
            None => match item.description {
                None => None,
                Some(d) => match find_bytes(lowercase(d@), query) {
                    Some(at) => Some(add_sat_u32(DESCRIPTION, clamp_u32(at))),
                    None => None,
                },
            },
        },
    }
}

/// Matching ignores the case of a label: two entries whose labels have the
/// same lowercase form, and the same description, score alike against any
/// query.
pub proof fn law_score_ignores_label_case(a: Item, b: Item, query: Seq<char>)
    requires
        lowercase(a.label@) == lowercase(b.label@),
        a.description == b.description,
    ensures
        score_spec(a, query) == score_spec(b, query),
{
}

/// An occurrence of `pat` at `at` is found, at `at` or earlier, by a search
/// from any index up to `at`.
proof fn lemma_find_from_reaches(text: Seq<char>, pat: Seq<char>, i: nat, at: nat)
    requires
        i <= at,
        occurs_at(text, pat, at as int),
    ensures
        find_from(text, pat, i) matches Some(j) && j <= at,
    decreases at - i,
{
    if !occurs_at(text, pat, i as int) {
        lemma_find_from_reaches(text, pat, i + 1, at);
    }
}

/// A label whose lowercase form contains the query matches in the label's
/// own tier, scored no worse than the byte offset of that occurrence: a
/// query typed in lowercase finds `Deploy` by `dep`.
pub proof fn law_label_occurrence_matches(item: Item, query: Seq<char>, at: nat)
    requires
        occurs_at(lowercase(item.label@), query, at as int),
    ensures
        score_spec(item, query) matches Some(s) && s as nat <= byte_len(lowercase(item.label@).take(at as int)),
{
    let label = lowercase(item.label@);
    lemma_find_from_reaches(label, query, 0, at);
    let j = find_from(label, query, 0)->0;
    lemma_byte_len_mono(label, j as int, at as int);
}

/// The UTF-8 length of one character.
pub fn char_utf8_len(c: char) -> (n: usize)
    ensures
        n as nat == utf8_len(c),
{
    let code = c as u32;
    if code <= 0x7f { 1 } else if code <= 0x7ff { 2 } else if code <= 0xffff { 3 } else { 4 }
}

proof fn lemma_byte_len_mono(s: Seq<char>, i: int, j: int)
    requires
        0 <= i <= j <= s.len(),
    ensures
        byte_len(s.take(i)) <= byte_len(s.take(j)),
    decreases j - i,
{
    if i < j {
        lemma_byte_len_mono(s, i, j - 1);
        assert(s.take(j).drop_last() =~= s.take(j - 1));
    }
}

/// Every character costs at least one byte, so a string's byte length is
/// at least its character count, and each prefix is shorter than the whole.
proof fn lemma_byte_len_bound(s: Seq<char>, i: int)
    requires
        0 <= i < s.len(),
    ensures
        byte_len(s.take(i)) < byte_len(s),
{
    lemma_byte_len_mono(s, i, i + 1);
    assert(s.take(i + 1).drop_last() =~= s.take(i));
    lemma_byte_len_mono(s, i + 1, s.len() as int);
    assert(s.take(s.len() as int) =~= s);
}


proof fn lemma_byte_len_prepend(c: char, s: Seq<char>)
    ensures
        byte_len(seq![c] + s) == utf8_len(c) + byte_len(s),
    decreases s.len(),
{
    if s.len() == 0 {
        assert((seq![c] + s).drop_last() =~= Seq::<char>::empty());
        assert((seq![c] + s).last() == c);
        assert(byte_len(Seq::<char>::empty()) == 0);
    } else {
        assert((seq![c] + s).drop_last() =~= seq![c] + s.drop_last());
        assert((seq![c] + s).last() == s.last());
        lemma_byte_len_prepend(c, s.drop_last());
    }
}

/// UTF-8 spends on a string what `vstd`'s encoding of it holds.
proof fn lemma_byte_len_encode(s: Seq<char>)
    ensures
        byte_len(s) == vstd::utf8::encode_utf8(s).len(),
    decreases s.len(),
{
    if s.len() > 0 {
        lemma_byte_len_encode(s.drop_first());
        assert(s =~= seq![s[0]] + s.drop_first());
        lemma_byte_len_prepend(s[0], s.drop_first());
        vstd::utf8::char_is_scalar(s[0]);
    }
}

/// A string's UTF-8 length fits in a `usize`, as every string in memory does.
pub fn byte_len_fits(s: &str)
    ensures
        byte_len(s@) <= usize::MAX,
{
    broadcast use vstd::slice::group_slice_axioms;
    let b = s.as_bytes();
    let _n = b.len();
    proof { lemma_byte_len_encode(s@); }
}

/// The span `query` occupies in `text` as a subsequence, if it occurs at all.
///
/// The span is what separates a tight match from a lucky one: `dl` spans
/// two characters in `dl-report` and fourteen in `deploy:landings`.
#[verifier::rlimit(50)]
pub fn subsequence_span(text: &Vec<char>, query: &Vec<char>) -> (r: Option<usize>)
    requires
        byte_len(text@) <= usize::MAX,
    ensures
        r matches Some(n) ==> subsequence_span_spec(text@, query@) == Some(n as nat),
        r is None ==> subsequence_span_spec(text@, query@) is None,
{
    let mut j: usize = 0;
    let mut bytes: usize = 0;
    let mut first: Option<usize> = None;
    let mut last: usize = 0;
    let mut q: usize = 0;
    let ghost mut found: Seq<nat> = Seq::empty();
    proof { assert(query@.skip(0) =~= query@); assert(text@.take(0) =~= Seq::<char>::empty()); }
    while q < query.len()
        invariant
            byte_len(text@) <= usize::MAX,
            q <= query@.len(),
            j <= text@.len(),
            bytes as nat == byte_len(text@.take(j as int)),
            found.len() == q,
            q > 0 ==> j > 0 && found.last() == j - 1,
            forall|m: int| 0 <= m < found.len() ==> found[m] < j,
            q > 0 ==> found[0] <= found.last(),
            q > 0 ==> found.last() < text@.len(),
            first is None <==> q == 0,
            first matches Some(f) ==> f as nat == byte_len(text@.take(found[0] as int)),
            q > 0 ==> last as nat == byte_len(text@.take(found.last() as int)),
            q > 0 ==> last < byte_len(text@),
            subsequence_positions(text@, query@, 0) == (match subsequence_positions(text@, query@.skip(q as int), j as nat) {
                None => None,
                Some(rest) => Some(found + rest),
            }),
        decreases query@.len() - q,
    {
        let wanted = query[q];
        let ghost rest_q = query@.skip(q as int);
        let ghost j0 = j;
        assert(rest_q[0] == wanted);
        assert(rest_q.drop_first() =~= query@.skip(q as int + 1));
        while j < text.len() && text[j] != wanted
            invariant
                byte_len(text@) <= usize::MAX,
                j0 <= j <= text@.len(),
                bytes as nat == byte_len(text@.take(j as int)),
                next_index(text@, wanted, j as nat) == next_index(text@, wanted, j0 as nat),
            decreases text@.len() - j,
        {
            proof {
                lemma_byte_len_bound(text@, j as int);
                assert(text@.take(j + 1).drop_last() =~= text@.take(j as int));
                lemma_byte_len_mono(text@, j + 1, text@.len() as int);
                assert(text@.take(text@.len() as int) =~= text@);
            }
            bytes = bytes + char_utf8_len(text[j]);
            j = j + 1;
        }
        if j >= text.len() {
            return None;
        }
        proof {
            lemma_byte_len_bound(text@, j as int);
            assert(text@.take(j + 1).drop_last() =~= text@.take(j as int));
            lemma_byte_len_mono(text@, j + 1, text@.len() as int);
            assert(text@.take(text@.len() as int) =~= text@);
            found = found.push(j as nat);
        }
        if first.is_none() {
            first = Some(bytes);
        }
        last = bytes;
        bytes = bytes + char_utf8_len(text[j]);
        j = j + 1;
        q = q + 1;
        proof {
            assert(found.drop_last() + seq![found.last()] =~= found);
            assert forall|r: Seq<nat>| found.drop_last() + (seq![(j - 1) as nat] + r) == found + r by {
                assert(found.drop_last() + (seq![(j - 1) as nat] + r) =~= found + r);
            }
        }
    }
    proof {
        assert(query@.skip(q as int) =~= Seq::<char>::empty());
        assert(found + Seq::<nat>::empty() =~= found);
    }
    match first {
        None => Some(1),
        Some(f) => {
            proof { lemma_byte_len_mono(text@, found[0] as int, found.last() as int); }
            Some(last - f + 1)
        },
    }
}

/// The byte offset of the first occurrence of `pat` in `text`.
pub fn find_in(text: &Vec<char>, pat: &Vec<char>) -> (r: Option<usize>)
    requires
        byte_len(text@) <= usize::MAX,
    ensures
        r matches Some(b) ==> find_bytes(text@, pat@) == Some(b as nat),
        r is None ==> find_bytes(text@, pat@) is None,
{
    let mut i: usize = 0;
    let mut bytes: usize = 0;
    proof { assert(text@.take(0) =~= Seq::<char>::empty()); }
    while pat.len() <= text.len() && i <= text.len() - pat.len()
        invariant
            byte_len(text@) <= usize::MAX,
            i <= text@.len(),
            bytes as nat == byte_len(text@.take(i as int)),
            find_from(text@, pat@, 0) == find_from(text@, pat@, i as nat),
        decreases text@.len() - i,
    {
        let mut k: usize = 0;
        let mut same = true;
        while k < pat.len() && same
            invariant
                i + pat@.len() <= text@.len(),
                i + pat.len() <= text.len(),
                k <= pat@.len(),
                same ==> forall|m: int| 0 <= m < k ==> text@[i + m] == pat@[m],
                !same ==> !occurs_at(text@, pat@, i as int),
            decreases pat@.len() - k + (if same { 1int } else { 0int }),
        {
            if text[i + k] != pat[k] {
                same = false;
                assert(text@.subrange(i as int, i + pat@.len())[k as int] != pat@[k as int]);
            } else {
                k = k + 1;
            }
        }
        if same {
            assert(text@.subrange(i as int, i + pat@.len()) =~= pat@);
            return Some(bytes);
        }
        proof {
            if pat@.len() == 0 {
                assert(text@.subrange(i as int, i as int) =~= pat@);
            }
            lemma_byte_len_bound(text@, i as int);
            assert(text@.take(i + 1).drop_last() =~= text@.take(i as int));
            assert(text@.take(i + 1).last() == text@[i as int]);
            lemma_byte_len_mono(text@, i + 1, text@.len() as int);
            assert(text@.take(text@.len() as int) =~= text@);
        }
        bytes = bytes + char_utf8_len(text[i]);
        i = i + 1;
    }
    None
}

} // verus!

verus! {

/// Clamps a byte offset into a `u32`, as `u32::try_from(..).unwrap_or(u32::MAX)`.
fn clamp(n: usize) -> (r: u32)
    ensures
        r == clamp_u32(n as nat),
{
    if (n as u64) > (u32::MAX as u64) { u32::MAX } else { n as u32 }
}

/// Scores `item` against a lowercased `query`, or `None` if it does not
/// match. The tier constants are added with saturation.
pub fn score(item: &Item, query: &Vec<char>) -> (r: Option<u32>)
    ensures
        r == score_spec(*item, query@),
{
    let label_s = to_lowercase(item.label.as_str());
    byte_len_fits(label_s.as_str());
    let label = chars_of(label_s.as_str());
    match find_in(&label, query) {
        Some(at) => return Some(LABEL_SUBSTRING.saturating_add(clamp(at))),
        None => {},
    }
    match subsequence_span(&label, query) {
        Some(span) => return Some(LABEL_SUBSEQUENCE.saturating_add(clamp(span))),
        None => {},
    }
    match &item.description {
        None => None,
        Some(d) => {
            let desc_s = to_lowercase(d.as_str());
            byte_len_fits(desc_s.as_str());
            let desc = chars_of(desc_s.as_str());
            match find_in(&desc, query) {
                Some(at) => Some(DESCRIPTION.saturating_add(clamp(at))),
                None => None,
            }
        },
    }
}

/// Whether `a` sorts strictly before `b`, comparing characters by code
/// point as `str`'s ordering does.
pub open spec fn lex_lt(a: Seq<char>, b: Seq<char>) -> bool
    decreases a.len(),
{
    if a.len() == 0 {
        b.len() > 0
    } else if b.len() == 0 {
        false
    } else if a[0] < b[0] {
        true
    } else if a[0] > b[0] {
        false
    } else {
        lex_lt(a.drop_first(), b.drop_first())
    }
}

pub proof fn lemma_lex_irreflexive(a: Seq<char>)
    ensures
        !lex_lt(a, a),
    decreases a.len(),
{
    if a.len() > 0 {
        lemma_lex_irreflexive(a.drop_first());
    }
}

pub proof fn lemma_lex_transitive(a: Seq<char>, b: Seq<char>, c: Seq<char>)
    requires
        lex_lt(a, b),
        lex_lt(b, c),
    ensures
        lex_lt(a, c),
    decreases a.len(),
{
    if a.len() > 0 && b.len() > 0 && c.len() > 0 {
        if a[0] == b[0] && b[0] == c[0] {
            lemma_lex_transitive(a.drop_first(), b.drop_first(), c.drop_first());
        }
    }
}

pub proof fn lemma_lex_total(a: Seq<char>, b: Seq<char>)
    requires
        a != b,
    ensures
        lex_lt(a, b) || lex_lt(b, a),
    decreases a.len(),
{
    if a.len() > 0 && b.len() > 0 {
        if a[0] == b[0] {
            if a.drop_first() == b.drop_first() {
                assert(a =~= seq![a[0]] + a.drop_first());
                assert(b =~= seq![b[0]] + b.drop_first());
            }
            lemma_lex_total(a.drop_first(), b.drop_first());
        }
    } else if a.len() == 0 && b.len() == 0 {
        assert(a =~= b);
    }
}

/// Compares two strings by code point.
pub fn lex_less(a: &str, b: &str) -> (r: bool)
    ensures
        r == lex_lt(a@, b@),
{
    let va = chars_of(a);
    let vb = chars_of(b);
    let mut i: usize = 0;
    assert(a@.skip(0) =~= a@);
    assert(b@.skip(0) =~= b@);
    while i < va.len() && i < vb.len() && va[i] == vb[i]
        invariant
            va@ == a@,
            vb@ == b@,
            i <= va@.len(),
            i <= vb@.len(),
            lex_lt(a@, b@) == lex_lt(a@.skip(i as int), b@.skip(i as int)),
        decreases va@.len() - i,
    {
        proof {
            assert(a@.skip(i as int).drop_first() =~= a@.skip(i as int + 1));
            assert(b@.skip(i as int).drop_first() =~= b@.skip(i as int + 1));
        }
        i = i + 1;
    }
    let ghost sa = a@.skip(i as int);
    let ghost sb = b@.skip(i as int);
    if i == va.len() {
        assert(sa.len() == 0);
        i < vb.len()
    } else if i == vb.len() {
        assert(sb.len() == 0);
        false
    } else {
        assert(sa[0] == va@[i as int]);
        assert(sb[0] == vb@[i as int]);
        va[i] < vb[i]
    }
}

} // verus!

verus! {

/// A matching entry: its score, where it sits (group and position in the
/// group), and its position in the whole menu.
#[derive(Debug, Clone, Copy, PartialEq, Eq, Structural)]
pub struct Ranked {
    pub score: u32,
    pub group: usize,
    pub item: usize,
    pub pos: usize,
}

/// The label of the entry a match refers to.
pub open spec fn ranked_label(groups: Seq<super::Group>, r: Ranked) -> Seq<char> {
    groups[r.group as int].items@[r.item as int].label@
}

/// Whether `x` is drawn before `y`: better score first, then label order,
/// then menu order (the ranking is stable).
pub open spec fn ranks_before(groups: Seq<super::Group>, x: Ranked, y: Ranked) -> bool {
    let lx = ranked_label(groups, x);
    let ly = ranked_label(groups, y);
    x.score < y.score || (x.score == y.score && (lex_lt(lx, ly) || (lx == ly && x.pos < y.pos)))
}

/// The number of entries in the first `g` groups.
pub open spec fn items_before(groups: Seq<super::Group>, g: int) -> nat {
    super::all_items(groups.take(g)).len()
}

/// The matches among the first `g` groups and the first `i` entries of
/// group `g`, in menu order.
pub open spec fn candidates_upto(groups: Seq<super::Group>, query: Seq<char>, g: nat, i: nat) -> Seq<Ranked>
    decreases g, i,
{
    if i == 0 {
        if g == 0 {
            Seq::empty()
        } else {
            candidates_upto(groups, query, (g - 1) as nat, groups[g - 1].items@.len())
        }
    } else {
        let prev = candidates_upto(groups, query, g, (i - 1) as nat);
        match score_spec(groups[g as int].items@[i - 1], query) {
            None => prev,
            Some(s) => prev.push(Ranked {
                score: s,
                group: g as usize,
                item: (i - 1) as usize,
                pos: (items_before(groups, g as int) + i - 1) as usize,
            }),
        }
    }
}

/// Every entry of the menu that matches `query`, in menu order.
pub open spec fn candidates(groups: Seq<super::Group>, query: Seq<char>) -> Seq<Ranked> {
    if groups.len() == 0 {
        Seq::empty()
    } else {
        candidates_upto(groups, query, (groups.len() - 1) as nat, groups.last().items@.len())
    }
}

/// `r` is `cands` in ranking order: the same matches, each before every
/// match it ranks before.
pub open spec fn ranked_ok(groups: Seq<super::Group>, cands: Seq<Ranked>, r: Seq<Ranked>) -> bool {
    &&& r.len() == cands.len()
    &&& forall|k: int| 0 <= k < r.len() ==> cands.contains(#[trigger] r[k])
    &&& forall|k: int| 0 <= k < cands.len() ==> r.contains(#[trigger] cands[k])
    &&& forall|a: int, b: int| 0 <= a < b < r.len() ==> ranks_before(groups, #[trigger] r[a], #[trigger] r[b])
}

/// A match refers to an entry of the menu.
pub open spec fn ref_valid(groups: Seq<super::Group>, r: Ranked) -> bool {
    r.group < groups.len() && r.item < groups[r.group as int].items@.len()
}

proof fn lemma_ranks_total(groups: Seq<super::Group>, x: Ranked, y: Ranked)
    requires
        x.pos != y.pos,
    ensures
        ranks_before(groups, x, y) || ranks_before(groups, y, x),
{
    let lx = ranked_label(groups, x);
    let ly = ranked_label(groups, y);
    if lx != ly {
        lemma_lex_total(lx, ly);
    }
}

proof fn lemma_ranks_transitive(groups: Seq<super::Group>, x: Ranked, y: Ranked, z: Ranked)
    requires
        ranks_before(groups, x, y),
        ranks_before(groups, y, z),
    ensures
        ranks_before(groups, x, z),
{
    let lx = ranked_label(groups, x);
    let ly = ranked_label(groups, y);
    let lz = ranked_label(groups, z);
    if x.score == y.score && y.score == z.score {
        if lex_lt(lx, ly) && lex_lt(ly, lz) {
            lemma_lex_transitive(lx, ly, lz);
        }
    }
}

proof fn lemma_ranks_irreflexive(groups: Seq<super::Group>, x: Ranked)
    ensures
        !ranks_before(groups, x, x),
{
    lemma_lex_irreflexive(ranked_label(groups, x));
}

/// Whether `x` ranks before `y`.
fn ranks_before_exec(groups: &Vec<super::Group>, x: Ranked, y: Ranked) -> (r: bool)
    requires
        ref_valid(groups@, x),
        ref_valid(groups@, y),
    ensures
        r == ranks_before(groups@, x, y),
{
    if x.score != y.score {
        return x.score < y.score;
    }
    let lx = groups[x.group].items[x.item].label.as_str();
    let ly = groups[y.group].items[y.item].label.as_str();
    if lex_less(lx, ly) {
        return true;
    }
    if lex_less(ly, lx) {
        return false;
    }
    proof {
        if lx@ != ly@ {
            lemma_lex_total(lx@, ly@);
        }
    }
    x.pos < y.pos
}

/// The matches of a lowercased `query`, in menu order.
pub fn collect_candidates(groups: &Vec<super::Group>, query: &Vec<char>) -> (c: Vec<Ranked>)
    ensures
        c@ == candidates(groups@, query@),
        forall|k: int| 0 <= k < c@.len() ==> ref_valid(groups@, #[trigger] c@[k]),
        forall|a: int, b: int| 0 <= a < b < c@.len() ==> (#[trigger] c@[a]).pos < (#[trigger] c@[b]).pos,
{
    let mut c: Vec<Ranked> = Vec::new();
    if groups.len() == 0 {
        return c;
    }
    let total = super::flat_items(groups).len();
    let mut g: usize = 0;
    let mut pos: usize = 0;
    let ghost mut seen: Seq<&super::Item> = Seq::empty();
    loop
        invariant
            0 < groups@.len(),
            g < groups@.len(),
            super::all_items(groups@).len() <= usize::MAX,
            pos as nat == items_before(groups@, g as int),
            c@ == candidates_upto(groups@, query@, g as nat, 0),
            forall|k: int| 0 <= k < c@.len() ==> ref_valid(groups@, #[trigger] c@[k]),
            forall|k: int| 0 <= k < c@.len() ==> (#[trigger] c@[k]).pos < pos,
            forall|a: int, b: int| 0 <= a < b < c@.len() ==> (#[trigger] c@[a]).pos < (#[trigger] c@[b]).pos,
        decreases groups@.len() - g,
    {
        let group = &groups[g];
        let mut i: usize = 0;
        while i < group.items.len()
            invariant
                g < groups@.len(),
                super::all_items(groups@).len() <= usize::MAX,
                group == groups@[g as int],
                i <= group.items@.len(),
                pos as nat == items_before(groups@, g as int) + i,
                c@ == candidates_upto(groups@, query@, g as nat, i as nat),
                forall|k: int| 0 <= k < c@.len() ==> ref_valid(groups@, #[trigger] c@[k]),
                forall|k: int| 0 <= k < c@.len() ==> (#[trigger] c@[k]).pos < pos,
                forall|a: int, b: int| 0 <= a < b < c@.len() ==> (#[trigger] c@[a]).pos < (#[trigger] c@[b]).pos,
            decreases group.items@.len() - i,
        {
            proof { items_before_bound(groups@, g as int, i as int); }
            match score(&group.items[i], query) {
                None => {},
                Some(s) => {
                    c.push(Ranked { score: s, group: g, item: i, pos });
                },
            }
            pos = pos + 1;
            i = i + 1;
        }
        proof {
            assert(groups@.take(g as int + 1).drop_last() =~= groups@.take(g as int));
            assert(groups@.take(g as int + 1).last() == groups@[g as int]);
        }
        if g == groups.len() - 1 {
            return c;
        }
        g = g + 1;
    }
}

/// The entries before the end of group `g` fit a `usize`: they are entries
/// of the menu, whose count is a vector's length.
proof fn items_before_bound(groups: Seq<super::Group>, g: int, i: int)
    requires
        0 <= g < groups.len(),
        0 <= i < groups[g].items@.len(),
        super::all_items(groups).len() <= usize::MAX,
    ensures
        items_before(groups, g) + i < usize::MAX,
{
    assert(groups.take(g + 1).drop_last() =~= groups.take(g));
    assert(groups.take(g + 1).last() == groups[g]);
    super::lemma_all_items_prefix(groups, g + 1);
}

/// Sorts the matches into ranking order. The sort is stable: matches that
/// tie on score and label keep their menu order.
pub fn rank(groups: &Vec<super::Group>, cands: &Vec<Ranked>) -> (r: Vec<Ranked>)
    requires
        forall|k: int| 0 <= k < cands@.len() ==> ref_valid(groups@, #[trigger] cands@[k]),
        forall|a: int, b: int| 0 <= a < b < cands@.len() ==> (#[trigger] cands@[a]).pos < (#[trigger] cands@[b]).pos,
    ensures
        ranked_ok(groups@, cands@, r@),
        forall|k: int| 0 <= k < r@.len() ==> ref_valid(groups@, #[trigger] r@[k]),
{
    let mut out: Vec<Ranked> = Vec::new();
    let mut k: usize = 0;
    while k < cands.len()
        invariant
            k <= cands@.len(),
            forall|m: int| 0 <= m < cands@.len() ==> ref_valid(groups@, #[trigger] cands@[m]),
            forall|a: int, b: int| 0 <= a < b < cands@.len() ==> (#[trigger] cands@[a]).pos < (#[trigger] cands@[b]).pos,
            ranked_ok(groups@, cands@.take(k as int), out@),
            forall|m: int| 0 <= m < out@.len() ==> ref_valid(groups@, #[trigger] out@[m]),
        decreases cands@.len() - k,
    {
        let c = cands[k];
        let mut j: usize = 0;
        while j < out.len() && !ranks_before_exec(groups, c, out[j])
            invariant
                j <= out@.len(),
                ref_valid(groups@, c),
                forall|m: int| 0 <= m < out@.len() ==> ref_valid(groups@, #[trigger] out@[m]),
                forall|m: int| 0 <= m < j ==> !ranks_before(groups@, c, #[trigger] out@[m]),
            decreases out@.len() - j,
        {
            j = j + 1;
        }
        let ghost old_out = out@;
        proof {
            // Every match already placed comes earlier in menu order.
            assert forall|m: int| 0 <= m < old_out.len() implies (#[trigger] old_out[m]).pos < c.pos by {
                assert(cands@.take(k as int).contains(old_out[m]));
                let w = choose|w: int| 0 <= w < k && cands@.take(k as int)[w] == old_out[m];
                assert(cands@[w] == old_out[m]);
            }
            assert forall|m: int| 0 <= m < j implies ranks_before(groups@, #[trigger] old_out[m], c) by {
                lemma_ranks_total(groups@, old_out[m], c);
            }
            assert forall|m: int| j <= m < old_out.len() implies ranks_before(groups@, c, #[trigger] old_out[m]) by {
                if m > j {
                    lemma_ranks_transitive(groups@, c, old_out[j as int], old_out[m]);
                }
            }
        }
        out.insert(j, c);
        proof {
            let t = cands@.take(k as int + 1);
            assert(t =~= cands@.take(k as int).push(c));
            assert forall|m: int| 0 <= m < out@.len() implies t.contains(#[trigger] out@[m]) by {
                if m < j {
                    assert(out@[m] == old_out[m]);
                    assert(cands@.take(k as int).contains(old_out[m]));
                    let w = choose|w: int| 0 <= w < k && cands@.take(k as int)[w] == old_out[m];
                    assert(t[w] == out@[m]);
                } else if m == j {
                    assert(t[k as int] == c);
                } else {
                    assert(out@[m] == old_out[m - 1]);
                    assert(cands@.take(k as int).contains(old_out[m - 1]));
                    let w = choose|w: int| 0 <= w < k && cands@.take(k as int)[w] == old_out[m - 1];
                    assert(t[w] == out@[m]);
                }
            }
            assert forall|m: int| 0 <= m < t.len() implies out@.contains(#[trigger] t[m]) by {
                if m == k {
                    assert(out@[j as int] == c);
                } else {
                    assert(t[m] == cands@.take(k as int)[m]);
                    assert(old_out.contains(t[m]));
                    let w = choose|w: int| 0 <= w < old_out.len() && old_out[w] == t[m];
                    if w < j {
                        assert(out@[w] == t[m]);
                    } else {
                        assert(out@[w + 1] == t[m]);
                    }
                }
            }
            assert forall|a: int, b: int| 0 <= a < b < out@.len() implies ranks_before(groups@, #[trigger] out@[a], #[trigger] out@[b]) by {
                if a < j && b < j {
                    assert(out@[a] == old_out[a] && out@[b] == old_out[b]);
                } else if a < j && b == j {
                } else if a < j {
                    assert(out@[a] == old_out[a] && out@[b] == old_out[b - 1]);
                    if a < b - 1 {
                    } else {
                    }
                } else if a == j {
                    assert(out@[b] == old_out[b - 1]);
                } else {
                    assert(out@[a] == old_out[a - 1] && out@[b] == old_out[b - 1]);
                }
            }
            assert forall|m: int| 0 <= m < out@.len() implies ref_valid(groups@, #[trigger] out@[m]) by {
                if m < j {
                    assert(out@[m] == old_out[m]);
                } else if m > j {
                    assert(out@[m] == old_out[m - 1]);
                }
            }
        }
        k = k + 1;
    }
    proof { assert(cands@.take(cands@.len() as int) =~= cands@); }
    out
}

} // verus!

verus! {

/// Two sequences both in strict ranking order and holding the same matches
/// are the same sequence.
proof fn lemma_sorted_unique(groups: Seq<super::Group>, r1: Seq<Ranked>, r2: Seq<Ranked>)
    requires
        r1.len() == r2.len(),
        forall|k: int| 0 <= k < r1.len() ==> r2.contains(#[trigger] r1[k]),
        forall|k: int| 0 <= k < r2.len() ==> r1.contains(#[trigger] r2[k]),
        forall|a: int, b: int| 0 <= a < b < r1.len() ==> ranks_before(groups, #[trigger] r1[a], #[trigger] r1[b]),
        forall|a: int, b: int| 0 <= a < b < r2.len() ==> ranks_before(groups, #[trigger] r2[a], #[trigger] r2[b]),
    ensures
        r1 == r2,
    decreases r1.len(),
{
    if r1.len() == 0 {
        assert(r1 =~= r2);
    } else {
        let x = r1[0];
        let y = r2[0];
        if x != y {
            assert(r2.contains(x));
            let i = choose|i: int| 0 <= i < r2.len() && r2[i] == x;
            assert(r1.contains(y));
            let j = choose|j: int| 0 <= j < r1.len() && r1[j] == y;
            assert(i > 0 && j > 0);
            assert(ranks_before(groups, y, x));
            assert(ranks_before(groups, x, y));
            lemma_ranks_transitive(groups, x, y, x);
            lemma_ranks_irreflexive(groups, x);
        }
        let s1 = r1.drop_first();
        let s2 = r2.drop_first();
        assert forall|k: int| 0 <= k < s1.len() implies s2.contains(#[trigger] s1[k]) by {
            assert(s1[k] == r1[k + 1]);
            assert(r2.contains(r1[k + 1]));
            let w = choose|w: int| 0 <= w < r2.len() && r2[w] == r1[k + 1];
            if w == 0 {
                assert(ranks_before(groups, r1[0], r1[k + 1]));
                lemma_ranks_irreflexive(groups, r1[0]);
            }
            assert(s2[w - 1] == s1[k]);
        }
        assert forall|k: int| 0 <= k < s2.len() implies s1.contains(#[trigger] s2[k]) by {
            assert(s2[k] == r2[k + 1]);
            assert(r1.contains(r2[k + 1]));
            let w = choose|w: int| 0 <= w < r1.len() && r1[w] == r2[k + 1];
            if w == 0 {
                assert(ranks_before(groups, r2[0], r2[k + 1]));
                lemma_ranks_irreflexive(groups, r2[0]);
            }
            assert(s1[w - 1] == s2[k]);
        }
        assert forall|a: int, b: int| 0 <= a < b < s1.len() implies ranks_before(groups, #[trigger] s1[a], #[trigger] s1[b]) by {
            assert(s1[a] == r1[a + 1] && s1[b] == r1[b + 1]);
        }
        assert forall|a: int, b: int| 0 <= a < b < s2.len() implies ranks_before(groups, #[trigger] s2[a], #[trigger] s2[b]) by {
            assert(s2[a] == r2[a + 1] && s2[b] == r2[b + 1]);
        }
        lemma_sorted_unique(groups, s1, s2);
        assert(r1 =~= r2) by {
            assert forall|k: int| 0 <= k < r1.len() implies r1[k] == r2[k] by {
                if k > 0 { assert(r1[k] == s1[k - 1]); assert(r2[k] == s2[k - 1]); }
            }
        }
    }
}

/// The ranking of a search is determined by the matches: there is one
/// order that puts every match before the matches it ranks before.
pub proof fn law_ranking_unique(groups: Seq<super::Group>, cands: Seq<Ranked>, r1: Seq<Ranked>, r2: Seq<Ranked>)
    requires
        ranked_ok(groups, cands, r1),
        ranked_ok(groups, cands, r2),
    ensures
        r1 == r2,
{
    assert forall|k: int| 0 <= k < r1.len() implies r2.contains(#[trigger] r1[k]) by {
        assert(cands.contains(r1[k]));
        let w = choose|w: int| 0 <= w < cands.len() && cands[w] == r1[k];
        assert(r2.contains(cands[w]));
    }
    assert forall|k: int| 0 <= k < r2.len() implies r1.contains(#[trigger] r2[k]) by {
        assert(cands.contains(r2[k]));
        let w = choose|w: int| 0 <= w < cands.len() && cands[w] == r2[k];
        assert(r1.contains(cands[w]));
    }
    lemma_sorted_unique(groups, r1, r2);
}

} // verus!
