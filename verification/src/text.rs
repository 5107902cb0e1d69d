//! Character-level building blocks shared by every renderer: measuring
//! display width, appending characters and numbers, and padding.

use vstd::prelude::*;
use unicode_width::UnicodeWidthStr;

verus! {

/// The displayed width of a string in terminal columns, as the
/// `unicode-width` crate measures it.
pub uninterp spec fn str_width(s: Seq<char>) -> nat;

/// Measures `text` with `unicode_width::UnicodeWidthStr::width`.
///
/// The crate's algorithm (East Asian width tables, emoji and joiner
/// sequences) is not restated; the contract only names the result, which
/// depends on the characters alone. One fact of it is stated: each printable
/// ASCII character (a space to `~`) is one column, so text made only of them
/// is as wide as it is long.
#[verifier::external_body]
pub fn display_width(text: &str) -> (w: usize)
    ensures
        w as nat == str_width(text@),
        (forall|i: int| 0 <= i < text@.len() ==> ' ' <= #[trigger] text@[i] <= '~') ==> w == text@.len(),
{
    UnicodeWidthStr::width(text)
}

/// Appends one character with `String::push`.
#[verifier::external_body]
pub fn push_char(s: &mut String, c: char)
    ensures
        final(s)@ == old(s)@.push(c),
{
    s.push(c)
}

/// The characters of `s`, in order.
pub fn chars_of(s: &str) -> (v: Vec<char>)
    ensures
        v@ == s@,
{
    let mut v: Vec<char> = Vec::new();
    for c in it: s.chars()
        invariant
            v@ == it.seq().take(it.index() as int),
            it.seq() == s@,
    {
        v.push(c);
    }
    assert(v@ =~= s@);
    v
}

/// The character of a decimal digit.
pub open spec fn digit_char(d: nat) -> char {
    if d == 0 { '0' }
    else if d == 1 { '1' }
    else if d == 2 { '2' }
    else if d == 3 { '3' }
    else if d == 4 { '4' }
    else if d == 5 { '5' }
    else if d == 6 { '6' }
    else if d == 7 { '7' }
    else if d == 8 { '8' }
    else { '9' }
}

/// The decimal notation of `n`, without sign or leading zeros.
pub open spec fn decimal(n: nat) -> Seq<char>
    decreases n,
{
    if n < 10 {
        seq![digit_char(n)]
    } else {
        decimal(n / 10).push(digit_char(n % 10))
    }
}

fn digit(d: u64) -> (c: char)
    requires
        d < 10,
    ensures
        c == digit_char(d as nat),
{
    if d == 0 { '0' }
    else if d == 1 { '1' }
    else if d == 2 { '2' }
    else if d == 3 { '3' }
    else if d == 4 { '4' }
    else if d == 5 { '5' }
    else if d == 6 { '6' }
    else if d == 7 { '7' }
    else if d == 8 { '8' }
    else { '9' }
}

/// Appends the decimal notation of `n`.
pub fn push_decimal(out: &mut String, n: u64)
    ensures
        final(out)@ == old(out)@ + decimal(n as nat),
    decreases n,
{
    if n >= 10 {
        push_decimal(out, n / 10);
    }
    push_char(out, digit(n % 10));
    assert(final(out)@ =~= old(out)@ + decimal(n as nat));
}

/// The decimal notation of `n` as a new string.
pub fn decimal_string(n: u64) -> (s: String)
    ensures
        s@ == decimal(n as nat),
{
    let mut s = String::new();
    push_decimal(&mut s, n);
    assert(s@ =~= decimal(n as nat));
    s
}

/// `n` copies of `c`.
pub open spec fn repeat(c: char, n: nat) -> Seq<char> {
    Seq::new(n, |i: int| c)
}

/// Appends `n` copies of `c`.
pub fn push_repeat(out: &mut String, c: char, n: usize)
    ensures
        final(out)@ == old(out)@ + repeat(c, n as nat),
{
    let ghost start = out@;
    let mut i: usize = 0;
    while i < n
        invariant
            i <= n,
            out@ == start + repeat(c, i as nat),
        decreases n - i,
    {
        push_char(out, c);
        assert(start + repeat(c, (i + 1) as nat) =~= (start + repeat(c, i as nat)).push(c));
        i = i + 1;
    }
}

/// Appends `s`.
pub fn push_str(out: &mut String, s: &str)
    ensures
        final(out)@ == old(out)@ + s@,
{
    out.append(s);
}

/// A new string holding the characters of `s`.
pub fn owned(s: &str) -> (r: String)
    ensures
        r@ == s@,
{
    String::from_str(s)
}

/// Whether `s` starts with the characters of `prefix`.
pub open spec fn has_prefix(s: Seq<char>, prefix: Seq<char>) -> bool {
    prefix.len() <= s.len() && s.take(prefix.len() as int) == prefix
}

/// The number of characters of a string, as `str::chars().count()` gives it.
pub fn char_count(s: &str) -> (n: usize)
    ensures
        n as nat == s@.len(),
{
    let v = chars_of(s);
    v.len()
}

} // verus!

verus! {

/// Whether two character sequences are equal.
pub fn chars_eq(a: &Vec<char>, b: &Vec<char>) -> (r: bool)
    ensures
        r == (a@ == b@),
{
    if a.len() != b.len() {
        return false;
    }
    let mut i: usize = 0;
    while i < a.len()
        invariant
            a.len() == b.len(),
            i <= a.len(),
            forall|k: int| 0 <= k < i ==> a@[k] == b@[k],
        decreases a.len() - i,
    {
        if a[i] != b[i] {
            return false;
        }
        i = i + 1;
    }
    assert(a@ =~= b@);
    true
}

/// Whether two strings hold the same characters.
pub fn str_eq(a: &str, b: &str) -> (r: bool)
    ensures
        r == (a@ == b@),
{
    let va = chars_of(a);
    let vb = chars_of(b);
    chars_eq(&va, &vb)
}

/// The width of a single character, measured as a one-character string.
pub fn char_width(c: char) -> (w: usize)
    ensures
        w as nat == str_width(seq![c]),
{
    let mut s = String::new();
    push_char(&mut s, c);
    assert(s@ =~= seq![c]);
    display_width(s.as_str())
}

/// `x` clamped to the largest `usize`, which is where saturating
/// arithmetic stops.
pub open spec fn sat(x: int) -> int {
    if x > usize::MAX { usize::MAX as int } else if x < 0 { 0 } else { x }
}

} // verus!
