//! Fitting a menu to a terminal: shortening entries, choosing which tabs
//! to show, and breaking the footer into lines.

use vstd::prelude::*;
use crate::text::{chars_of, char_width, display_width, push_char, str_width, sat};
use super::{FOOTER_GAP, MARKER_WIDTH, TAB_DIVIDER, TAB_ELLIPSIS, TAB_GAP};

verus! {

/// The longest prefix of `s` whose characters, measured one at a time,
/// fit in `budget` columns.
pub open spec fn fit_prefix(s: Seq<char>, budget: nat) -> Seq<char>
    decreases s.len(),
{
    if s.len() == 0 {
        Seq::empty()
    } else {
        let w = str_width(seq![s[0]]);
        if w > budget {
            Seq::empty()
        } else {
            seq![s[0]] + fit_prefix(s.drop_first(), (budget - w) as nat)
        }
    }
}

/// `text` shortened to `max` columns: unchanged when it fits, empty when
/// there is no room for more than the mark, and otherwise the prefix that
/// fits in one column less, followed by an ellipsis.
pub open spec fn shortened(text: Seq<char>, max: nat) -> Seq<char> {
    if str_width(text) <= max {
        text
    } else if max <= 1 {
        Seq::empty()
    } else {
        fit_prefix(text, (max - 1) as nat).push('…')
    }
}

/// The columns of `s` measured one character at a time.
pub open spec fn char_columns(s: Seq<char>) -> nat
    decreases s.len(),
{
    if s.len() == 0 {
        0
    } else {
        str_width(seq![s[0]]) + char_columns(s.drop_first())
    }
}

/// Shortens `text` to `max` columns, marking the cut with an ellipsis.
///
/// Entries are shortened rather than wrapped: a wrapped line would change
/// the number of lines the frame occupies, which the redraw counts on.
pub fn shorten(text: &str, max: usize) -> (s: String)
    ensures
        s@ == shortened(text@, max as nat),
{
    if display_width(text) <= max {
        return crate::text::owned(text);
    }
    if max <= 1 {
        return String::new();
    }
    let v = chars_of(text);
    let budget = max - 1;
    let mut out = String::new();
    let mut used: usize = 0;
    let mut i: usize = 0;
    let mut done = false;
    assert(v@.skip(0) =~= v@);
    assert(out@ + fit_prefix(v@.skip(0), budget as nat) =~= fit_prefix(v@, budget as nat));
    while i < v.len() && !done
        invariant
            v@ == text@,
            budget == max - 1,
            i <= v@.len(),
            used <= budget,
            fit_prefix(v@, budget as nat) == out@ + (if done { Seq::empty() } else {
                fit_prefix(v@.skip(i as int), (budget - used) as nat)
            }),
        decreases v@.len() - i + (if done { 0int } else { 1int }),
    {
        let c = v[i];
        let next = char_width(c);
        let ghost rest = v@.skip(i as int);
        assert(rest[0] == c);
        assert(rest.drop_first() =~= v@.skip(i as int + 1));
        if next > budget - used {
            done = true;
        } else {
            push_char(&mut out, c);
            used = used + next;
            i = i + 1;
            assert(out@ + fit_prefix(v@.skip(i as int), (budget - used) as nat) =~= old_out_plus(out@, c, v@, i, budget, used));
        }
    }
    if !done {
        assert(v@.skip(i as int) =~= Seq::<char>::empty());
    }
    assert(fit_prefix(v@, budget as nat) == out@);
    push_char(&mut out, '…');
    out
}

spec fn old_out_plus(out: Seq<char>, c: char, v: Seq<char>, i: usize, budget: usize, used: usize) -> Seq<char> {
    out + fit_prefix(v.skip(i as int), (budget - used) as nat)
}

/// A cut prefix fits, measured one character at a time, in its budget:
/// with the ellipsis one column wide, a shortened entry fits its room.
pub proof fn law_fit_prefix_fits(s: Seq<char>, budget: nat)
    ensures
        char_columns(fit_prefix(s, budget)) <= budget,
    decreases s.len(),
{
    if s.len() > 0 {
        let w = str_width(seq![s[0]]);
        if w <= budget {
            law_fit_prefix_fits(s.drop_first(), (budget - w) as nat);
            let p = fit_prefix(s, budget);
            assert(p.drop_first() =~= fit_prefix(s.drop_first(), (budget - w) as nat));
        }
    }
}

// ---------------------------------------------------------------------------
// The tab row window
// ---------------------------------------------------------------------------

/// Columns the drawn tabs `s..e` occupy: each label, and between two drawn
/// tabs the gap plus any divider.
pub open spec fn drawn_cost(ws: Seq<usize>, ds: Seq<bool>, s: int, e: int) -> nat
    decreases e - s,
{
    if e <= s {
        0
    } else {
        drawn_cost(ws, ds, s, e - 1)
            + (if e - 1 > s { TAB_GAP + (if ds[e - 1] { TAB_DIVIDER } else { 0 }) } else { 0 }) as nat
            + ws[e - 1] as nat
    }
}

/// Columns the tab row occupies when it draws `s..e`, counting an ellipsis
/// for each end where tabs were dropped.
pub open spec fn window_cost(ws: Seq<usize>, ds: Seq<bool>, s: int, e: int) -> nat {
    drawn_cost(ws, ds, s, e) + (if s > 0 { TAB_ELLIPSIS } else { 0 }) as nat
        + (if e < ws.len() { TAB_ELLIPSIS } else { 0 }) as nat
}

/// Whether the window `s..e` fits in `room` columns.
pub open spec fn window_fits(ws: Seq<usize>, ds: Seq<bool>, s: int, e: int, room: nat) -> bool {
    sat(window_cost(ws, ds, s, e) as int) <= room
}

/// Grows the window `s..e` outwards, one tab at each end per round, while
/// it fits.
pub open spec fn grow_window(ws: Seq<usize>, ds: Seq<bool>, room: nat, s: nat, e: nat) -> (nat, nat)
    decreases ws.len() - e + s,
{
    if e > ws.len() {
        (s, e)
    } else {
        let grew_end = e < ws.len() && window_fits(ws, ds, s as int, (e + 1) as int, room);
        let e1: nat = if grew_end { e + 1 } else { e };
        let grew_start = s > 0 && window_fits(ws, ds, s - 1, e1 as int, room);
        let s1: nat = if grew_start { (s - 1) as nat } else { s };
        if !grew_end && !grew_start {
            (s, e)
        } else {
            grow_window(ws, ds, room, s1, e1)
        }
    }
}

/// The stretch of tabs drawn: all of them when they fit or no width is
/// known, otherwise the window grown around `active`.
pub open spec fn tab_window_spec(ws: Seq<usize>, ds: Seq<bool>, active: nat, columns: Option<usize>) -> (nat, nat) {
    match columns {
        None => (0, ws.len()),
        Some(c) => {
            let room: nat = if c >= MARKER_WIDTH { (c - MARKER_WIDTH) as nat } else { 0 };
            if window_fits(ws, ds, 0, ws.len() as int, room) {
                (0, ws.len())
            } else {
                grow_window(ws, ds, room, active, active + 1)
            }
        }
    }
}

/// `sat(window_cost(..))`, computed with saturating arithmetic.
fn window_width(ws: &Vec<usize>, ds: &Vec<bool>, start: usize, end: usize) -> (w: usize)
    requires
        ws@.len() == ds@.len(),
        start <= end <= ws@.len(),
    ensures
        w as int == sat(window_cost(ws@, ds@, start as int, end as int) as int),
{
    let mut width: usize = 0;
    let mut index = start;
    while index < end
        invariant
            ws@.len() == ds@.len(),
            start <= index <= end <= ws@.len(),
            width as int == sat(drawn_cost(ws@, ds@, start as int, index as int) as int),
        decreases end - index,
    {
        if index > start {
            width = width.saturating_add(TAB_GAP);
            if ds[index] {
                width = width.saturating_add(TAB_DIVIDER);
            }
        }
        width = width.saturating_add(ws[index]);
        index = index + 1;
    }
    if start > 0 {
        width = width.saturating_add(TAB_ELLIPSIS);
    }
    if end < ws.len() {
        width = width.saturating_add(TAB_ELLIPSIS);
    }
    width
}

/// The stretch of tabs to draw, always containing `active`.
///
/// Tabs are dropped from the ends rather than shortened: half a group name
/// is no longer the word its digit belongs to. `labels` holds each tab's
/// drawn width and whether a divider precedes it.
pub fn tab_window(ws: &Vec<usize>, ds: &Vec<bool>, active: usize, columns: Option<usize>) -> (r: (usize, usize))
    requires
        ws@.len() == ds@.len(),
        active < ws@.len(),
    ensures
        (r.0 as nat, r.1 as nat) == tab_window_spec(ws@, ds@, active as nat, columns),
{
    let c = match columns {
        None => return (0, ws.len()),
        Some(c) => c,
    };
    let room = c.saturating_sub(MARKER_WIDTH);
    if window_width(ws, ds, 0, ws.len()) <= room {
        return (0, ws.len());
    }
    let mut start = active;
    let mut end = active + 1;
    loop
        invariant
            ws@.len() == ds@.len(),
            start <= active < end <= ws@.len(),
            columns == Some(c),
            room as nat == (if c >= MARKER_WIDTH { (c - MARKER_WIDTH) as nat } else { 0 }),
            !window_fits(ws@, ds@, 0, ws@.len() as int, room as nat),
            grow_window(ws@, ds@, room as nat, start as nat, end as nat)
                == grow_window(ws@, ds@, room as nat, active as nat, active as nat + 1),
        decreases ws@.len() - end + start,
    {
        let ghost s0 = start;
        let ghost e0 = end;
        let mut grew = false;
        if end < ws.len() {
            if window_width(ws, ds, start, end + 1) <= room {
                end = end + 1;
                grew = true;
            }
        }
        let grew_end = grew;
        if start > 0 {
            if window_width(ws, ds, start - 1, end) <= room {
                start = start - 1;
                grew = true;
            }
        }
        assert(grow_window(ws@, ds@, room as nat, s0 as nat, e0 as nat)
            == (if !grew { (s0 as nat, e0 as nat) } else { grow_window(ws@, ds@, room as nat, start as nat, end as nat) }));
        if !grew {
            return (start, end);
        }
    }
}

/// The window always holds the active tab, and either fits the room or is
/// the active tab alone.
pub proof fn law_tab_window_keeps_active(ws: Seq<usize>, ds: Seq<bool>, active: nat, c: usize)
    requires
        active < ws.len(),
    ensures
        ({
            let r = tab_window_spec(ws, ds, active, Some(c));
            let room: nat = if c >= MARKER_WIDTH { (c - MARKER_WIDTH) as nat } else { 0 };
            &&& r.0 <= active < r.1 <= ws.len()
            &&& (window_fits(ws, ds, r.0 as int, r.1 as int, room) || (r.0 == active && r.1 == active + 1))
        }),
{
    let room: nat = if c >= MARKER_WIDTH { (c - MARKER_WIDTH) as nat } else { 0 };
    if !window_fits(ws, ds, 0, ws.len() as int, room) {
        lemma_grow_window(ws, ds, room, active, active, active + 1);
    }
}

proof fn lemma_grow_window(ws: Seq<usize>, ds: Seq<bool>, room: nat, active: nat, s: nat, e: nat)
    requires
        s <= active < e <= ws.len(),
        window_fits(ws, ds, s as int, e as int, room) || (s == active && e == active + 1),
    ensures
        ({
            let r = grow_window(ws, ds, room, s, e);
            &&& r.0 <= active < r.1 <= ws.len()
            &&& (window_fits(ws, ds, r.0 as int, r.1 as int, room) || (r.0 == active && r.1 == active + 1))
        }),
    decreases ws.len() - e + s,
{
    let grew_end = e < ws.len() && window_fits(ws, ds, s as int, (e + 1) as int, room);
    let e1: nat = if grew_end { e + 1 } else { e };
    let grew_start = s > 0 && window_fits(ws, ds, s - 1, e1 as int, room);
    let s1: nat = if grew_start { (s - 1) as nat } else { s };
    if grew_end || grew_start {
        lemma_grow_window(ws, ds, room, active, s1, e1);
    }
}

// ---------------------------------------------------------------------------
// The footer
// ---------------------------------------------------------------------------

/// How the footer breaks after its first `k` keys: the finished lines, where
/// the open line starts, and how wide it is so far.
pub open spec fn footer_state(ws: Seq<usize>, columns: usize, k: nat) -> (Seq<(usize, usize)>, nat, nat)
    decreases k,
{
    if k == 0 {
        (Seq::empty(), 0, 0)
    } else {
        let (lines, start, used) = footer_state(ws, columns, (k - 1) as nat);
        let at = (k - 1) as nat;
        let next: nat = if at == start { ws[at as int] as nat } else {
            sat(used + FOOTER_GAP + ws[at as int]) as nat
        };
        if at > start && next > columns {
            (lines.push((start as usize, at as usize)), at, ws[at as int] as nat)
        } else {
            (lines, start, next)
        }
    }
}

/// The footer's lines: every key on one line without a width, and otherwise
/// keys laid out greedily, a key that does not fit opening a new line.
pub open spec fn footer_lines_spec(ws: Seq<usize>, columns: Option<usize>) -> Seq<(usize, usize)> {
    match columns {
        None => seq![(0usize, ws.len() as usize)],
        Some(c) => {
            let (lines, start, _used) = footer_state(ws, c, ws.len());
            if start < ws.len() { lines.push((start as usize, ws.len() as usize)) } else { lines }
        }
    }
}

/// How the footer's keys break across lines at `columns`. `ws` holds each
/// key's width: the key, a space, and its label.
///
/// A line that wrapped would occupy more rows than the frame counted, and
/// the redraw moves the cursor up by that count. Keys are never dropped:
/// an unmentioned key is a key nobody presses.
pub fn footer_lines(ws: &Vec<usize>, columns: Option<usize>) -> (r: Vec<(usize, usize)>)
    ensures
        r@ == footer_lines_spec(ws@, columns),
{
    let columns = match columns {
        None => {
            let mut all = Vec::new();
            all.push((0, ws.len()));
            return all;
        },
        Some(c) => c,
    };
    let mut lines: Vec<(usize, usize)> = Vec::new();
    let mut start: usize = 0;
    let mut used: usize = 0;
    let mut at: usize = 0;
    while at < ws.len()
        invariant
            at <= ws@.len(),
            footer_state(ws@, columns, at as nat) == (lines@, start as nat, used as nat),
        decreases ws@.len() - at,
    {
        let next = if at == start { ws[at] } else { used.saturating_add(FOOTER_GAP).saturating_add(ws[at]) };
        if at > start && next > columns {
            lines.push((start, at));
            start = at;
            used = ws[at];
        } else {
            used = next;
        }
        at = at + 1;
    }
    if start < ws.len() {
        lines.push((start, ws.len()));
    }
    lines
}

} // verus!

verus! {

proof fn lemma_footer_state(ws: Seq<usize>, columns: usize, k: nat)
    requires
        k <= ws.len(),
        ws.len() <= usize::MAX,
    ensures
        ({
            let (lines, start, _used) = footer_state(ws, columns, k);
            &&& start <= k
            &&& (k > 0 ==> start < k)
            &&& forall|m: int| 0 <= m < lines.len() ==> (#[trigger] lines[m]).0 < lines[m].1 <= start
            &&& forall|m: int| 0 <= m < lines.len() ==> m + 1 < lines.len() ==> lines[m].1 == lines[m + 1].0
            &&& (lines.len() > 0 ==> lines[0].0 == 0 && lines.last().1 == start)
            &&& (lines.len() == 0 ==> start == 0)
        }),
    decreases k,
{
    if k > 0 {
        lemma_footer_state(ws, columns, (k - 1) as nat);
        let (lines0, start0, used0) = footer_state(ws, columns, (k - 1) as nat);
        let at = (k - 1) as nat;
        let next: nat = if at == start0 { ws[at as int] as nat } else {
            crate::text::sat(used0 + FOOTER_GAP + ws[at as int]) as nat
        };
        if at > start0 && next > columns {
            let lines = lines0.push((start0 as usize, at as usize));
            assert(footer_state(ws, columns, k) == (lines, at, ws[at as int] as nat));
            assert forall|m: int| 0 <= m < lines.len() implies (#[trigger] lines[m]).0 < lines[m].1 <= at by {
                if m < lines0.len() { assert(lines[m] == lines0[m]); }
            }
            assert forall|m: int| 0 <= m < lines.len() && m + 1 < lines.len() implies lines[m].1 == lines[m + 1].0 by {
                if m + 1 < lines0.len() { assert(lines[m] == lines0[m]); assert(lines[m + 1] == lines0[m + 1]); }
                else { assert(lines[m] == lines0.last()); }
            }
            if lines0.len() > 0 { assert(lines[0] == lines0[0]); }
        } else {
            assert(footer_state(ws, columns, k) == (lines0, start0, next));
        }
    }
}

/// The footer's lines cover every key once, in order: consecutive,
/// non-empty ranges from the first key to the last.
pub proof fn law_footer_lines_partition(ws: Seq<usize>, columns: Option<usize>)
    requires
        ws.len() > 0,
        ws.len() <= usize::MAX,
    ensures
        ({
            let lines = footer_lines_spec(ws, columns);
            &&& lines.len() > 0
            &&& lines[0].0 == 0
            &&& lines.last().1 == ws.len()
            &&& forall|m: int| 0 <= m < lines.len() ==> (#[trigger] lines[m]).0 < lines[m].1 <= ws.len()
            &&& forall|m: int| 0 <= m < lines.len() ==> m + 1 < lines.len() ==> lines[m].1 == lines[m + 1].0
        }),
{
    match columns {
        None => {},
        Some(c) => {
            lemma_footer_state(ws, c, ws.len());
        },
    }
}

/// The width of footer keys `a..b` on one line, gaps included.
pub open spec fn footer_line_cost(ws: Seq<usize>, a: int, b: int) -> nat
    decreases b - a,
{
    if b <= a { 0 } else if b - 1 == a { ws[a] as nat } else { footer_line_cost(ws, a, b - 1) + FOOTER_GAP as nat + ws[b - 1] as nat }
}

proof fn lemma_footer_fits(ws: Seq<usize>, columns: usize, k: nat)
    requires
        k <= ws.len(),
        ws.len() <= usize::MAX,
    ensures
        ({
            let (lines, start, used) = footer_state(ws, columns, k);
            &&& (k > start ==> used == crate::text::sat(footer_line_cost(ws, start as int, k as int) as int))
            &&& (k > start ==> (used <= columns || k - start == 1))
            &&& forall|m: int| 0 <= m < lines.len() ==>
                (#[trigger] lines[m]).1 - lines[m].0 == 1 || crate::text::sat(footer_line_cost(ws, lines[m].0 as int, lines[m].1 as int) as int) <= columns
        }),
    decreases k,
{
    if k > 0 {
        lemma_footer_fits(ws, columns, (k - 1) as nat);
        lemma_footer_state(ws, columns, (k - 1) as nat);
        let (lines0, start0, used0) = footer_state(ws, columns, (k - 1) as nat);
        let at = (k - 1) as nat;
        let next: nat = if at == start0 { ws[at as int] as nat } else {
            crate::text::sat(used0 + FOOTER_GAP + ws[at as int]) as nat
        };
        if at == start0 {
            assert(footer_line_cost(ws, start0 as int, k as int) == ws[at as int]);
        } else {
            assert(footer_line_cost(ws, start0 as int, k as int)
                == footer_line_cost(ws, start0 as int, at as int) + FOOTER_GAP + ws[at as int]);
        }
        if at > start0 && next > columns {
            let lines = lines0.push((start0 as usize, at as usize));
            assert(footer_state(ws, columns, k) == (lines, at, ws[at as int] as nat));
            assert(footer_line_cost(ws, at as int, k as int) == ws[at as int]);
            assert forall|m: int| 0 <= m < lines.len() implies
                (#[trigger] lines[m]).1 - lines[m].0 == 1 || crate::text::sat(footer_line_cost(ws, lines[m].0 as int, lines[m].1 as int) as int) <= columns by {
                if m < lines0.len() { assert(lines[m] == lines0[m]); }
            }
        } else {
            assert(footer_state(ws, columns, k) == (lines0, start0, next));
        }
    }
}

/// A footer line never exceeds the width, unless it holds a single key
/// that is wider on its own: keys are moved to the next line, never dropped.
pub proof fn law_footer_lines_fit(ws: Seq<usize>, columns: usize)
    requires
        ws.len() <= usize::MAX,
    ensures
        forall|m: int| 0 <= m < footer_state(ws, columns, ws.len()).0.len() ==>
            (#[trigger] footer_state(ws, columns, ws.len()).0[m]).1 - footer_state(ws, columns, ws.len()).0[m].0 == 1
            || crate::text::sat(footer_line_cost(ws, footer_state(ws, columns, ws.len()).0[m].0 as int,
                footer_state(ws, columns, ws.len()).0[m].1 as int) as int) <= columns,
{
    lemma_footer_fits(ws, columns, ws.len());
}

} // verus!
