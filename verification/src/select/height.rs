//! How tall a frame is: the redraw moves the cursor up by the height the
//! menu reports, so the lines a frame writes must be exactly the chrome
//! height plus the body's lines.

use vstd::prelude::*;
use crate::color::{Tone, painted, sanitize, sanitize_char, is_dangerous_control, style_reset, tone_style};
use crate::text::{decimal, digit_char, repeat};
use super::layout::{fit_prefix, law_tab_window_keeps_active, shortened, tab_window_spec};
use super::frame::{body_height_of, chrome_height_spec, frame_text, lemma_ranges_count, lemma_shown_rows, vp_columns, body_block, frame_window, more_line, row_line, row_lines, Viewport, law_window_nonempty,
    frame_tail, footer_keys_spec, footer_line_text, footer_text, footer_ws, heading_block, heading_line, summary_line, tab_row, tab_row_line, tab_rule, drawn_tabs, tab_piece,
    tab_label_text, tab_ws, tab_ds};
use super::layout::{footer_lines_spec, law_footer_lines_partition};
use super::{Group, Item, Menu, Row, ViewModel, lemma_tabs_valid, row_valid, tab_name};

verus! {

/// The lines `s` ends: one per newline it holds.
pub open spec fn line_breaks(s: Seq<char>) -> nat
    decreases s.len(),
{
    if s.len() == 0 {
        0
    } else {
        line_breaks(s.drop_last()) + (if s.last() == '\n' { 1nat } else { 0 })
    }
}

/// Whether `s` stays on one line.
pub open spec fn single_line(s: Seq<char>) -> bool {
    forall|i: int| 0 <= i < s.len() ==> s[i] != '\n'
}

/// Line breaks add up over concatenation.
pub broadcast proof fn lemma_breaks_concat(a: Seq<char>, b: Seq<char>)
    ensures
        #[trigger] line_breaks(a + b) == line_breaks(a) + line_breaks(b),
    decreases b.len(),
{
    if b.len() == 0 {
        assert(a + b =~= a);
    } else {
        assert((a + b).drop_last() =~= a + b.drop_last());
        assert((a + b).last() == b.last());
        lemma_breaks_concat(a, b.drop_last());
    }
}

/// Text on one line ends none.
pub proof fn lemma_single_line_breaks(s: Seq<char>)
    requires
        single_line(s),
    ensures
        line_breaks(s) == 0,
    decreases s.len(),
{
    if s.len() > 0 {
        assert(single_line(s.drop_last())) by {
            assert forall|i: int| 0 <= i < s.drop_last().len() implies s.drop_last()[i] != '\n' by {
                assert(s.drop_last()[i] == s[i]);
            }
        }
        lemma_single_line_breaks(s.drop_last());
    }
}

/// A newline ends one line.
pub proof fn lemma_newline_breaks()
    ensures
        line_breaks(seq!['\n']) == 1,
{
    let s = seq!['\n'];
    assert(s.drop_last() =~= Seq::<char>::empty());
    assert(line_breaks(s.drop_last()) == 0);
    assert(s.last() == '\n');
}

/// One-line parts make one line.
pub broadcast proof fn lemma_concat_single_line(a: Seq<char>, b: Seq<char>)
    ensures
        #[trigger] single_line(a + b) == (single_line(a) && single_line(b)),
{
    if single_line(a) && single_line(b) {
        assert forall|i: int| 0 <= i < (a + b).len() implies (a + b)[i] != '\n' by {
            if i < a.len() {
                assert((a + b)[i] == a[i]);
            } else {
                assert((a + b)[i] == b[i - a.len()]);
            }
        }
    }
    if single_line(a + b) {
        assert forall|i: int| 0 <= i < a.len() implies a[i] != '\n' by {
            assert((a + b)[i] == a[i]);
        }
        assert forall|i: int| 0 <= i < b.len() implies b[i] != '\n' by {
            assert((a + b)[i + a.len()] == b[i]);
        }
    }
}

/// Neutralising never introduces a newline.
pub proof fn lemma_sanitize_single_line(s: Seq<char>)
    requires
        single_line(s),
    ensures
        single_line(sanitize(s)),
    decreases s.len(),
{
    broadcast use lemma_concat_single_line;
    if s.len() > 0 {
        assert(single_line(s.drop_last())) by {
            assert forall|i: int| 0 <= i < s.drop_last().len() implies s.drop_last()[i] != '\n' by {
                assert(s.drop_last()[i] == s[i]);
            }
        }
        lemma_sanitize_single_line(s.drop_last());
        let c = s.last();
        let code = c as u32;
        assert(c != '\n');
        if is_dangerous_control(c) && code <= 0x1f && code != 0x7f {
            let shifted = ((code + 64) as u8) as char;
            assert(shifted as u32 == code + 64);
        }
        assert(single_line(sanitize_char(c)));
    }
}

/// Painting keeps text on one line: the styles hold no newline.
pub proof fn lemma_painted_single_line(color: bool, tone: Tone, s: Seq<char>)
    requires
        single_line(s),
    ensures
        single_line(painted(color, tone, s)),
{
    broadcast use lemma_concat_single_line;
    lemma_sanitize_single_line(s);
    assert(single_line(tone_style(tone)));
    assert(single_line(style_reset()));
}

/// A prefix of one line is on one line.
pub proof fn lemma_fit_prefix_single_line(s: Seq<char>, budget: nat)
    requires
        single_line(s),
    ensures
        single_line(fit_prefix(s, budget)),
    decreases s.len(),
{
    broadcast use lemma_concat_single_line;
    if s.len() > 0 {
        assert(single_line(s.drop_first())) by {
            assert forall|i: int| 0 <= i < s.drop_first().len() implies s.drop_first()[i] != '\n' by {
                assert(s.drop_first()[i] == s[i + 1]);
            }
        }
        let w = crate::text::str_width(seq![s[0]]);
        if w <= budget {
            lemma_fit_prefix_single_line(s.drop_first(), (budget - w) as nat);
        }
    }
}

/// Shortening keeps text on one line.
pub proof fn lemma_shortened_single_line(s: Seq<char>, max: nat)
    requires
        single_line(s),
    ensures
        single_line(shortened(s, max)),
{
    broadcast use lemma_concat_single_line;
    lemma_fit_prefix_single_line(s, (max - 1) as nat);
    assert(fit_prefix(s, (max - 1) as nat).push('…') =~= fit_prefix(s, (max - 1) as nat) + seq!['…']);
}

/// Decimal digits stay on one line.
pub proof fn lemma_decimal_single_line(n: nat)
    ensures
        single_line(decimal(n)),
    decreases n,
{
    broadcast use lemma_concat_single_line;
    if n >= 10 {
        lemma_decimal_single_line(n / 10);
        assert(decimal(n / 10).push(digit_char(n % 10)) =~= decimal(n / 10) + seq![digit_char(n % 10)]);
    }
}

pub proof fn lemma_one_line(s: Seq<char>)
    requires
        single_line(s),
    ensures
        line_breaks(s + seq!['\n']) == 1,
{
    broadcast use lemma_breaks_concat;
    lemma_single_line_breaks(s);
    lemma_newline_breaks();
}

/// An entry stays on one line: its label, and its description if any.
pub open spec fn item_single_line(item: Item) -> bool {
    &&& single_line(item.label@)
    &&& (item.description matches Some(d) ==> single_line(d@))
}

/// A group stays on one line: its label, its tab name if any, and each of
/// its entries.
pub open spec fn group_single_line(group: Group) -> bool {
    &&& single_line(group.label@)
    &&& (group.tab matches Some(t) ==> single_line(t@))
    &&& forall|i: int| 0 <= i < group.items@.len() ==> item_single_line(#[trigger] group.items@[i])
}

/// Every text a menu draws stays on one line: heading, note, summary,
/// groups and entries, and the hints with their keys.
pub open spec fn menu_single_line(menu: Menu) -> bool {
    &&& (menu.spec_heading() matches Some(h) ==> single_line(h@))
    &&& (menu.spec_note() matches Some(n) ==> single_line(n@))
    &&& (menu.spec_summary() matches Some(s) ==> single_line(s@))
    &&& forall|g: int| 0 <= g < menu.spec_groups().len() ==> group_single_line(#[trigger] menu.spec_groups()[g])
    &&& forall|k: int| 0 <= k < menu.spec_hints().len() ==>
        (#[trigger] menu.spec_hints()[k]).key != '\n' && single_line(menu.spec_hints()[k].label@)
}

/// The heading block spends a line on the heading and on the summary, and
/// a blank line after them when either is there.
proof fn lemma_heading_breaks(menu: Menu, color: bool, columns: Option<usize>)
    requires
        menu_single_line(menu),
    ensures
        ({
            let lines: nat = (if menu.spec_heading() is Some { 1nat } else { 0 })
                + (if menu.spec_summary() is Some { 1nat } else { 0 });
            line_breaks(heading_block(menu, color, columns)) == if lines > 0 { lines + 1 } else { 0 }
        }),
{
    broadcast use lemma_breaks_concat, lemma_concat_single_line;
    reveal(heading_block);
    match menu.spec_heading() {
        None => {},
        Some(h) => {
            let note_room: nat = match menu.spec_note() {
                None => 0,
                Some(n) => crate::text::sat(crate::text::str_width(n@) + super::GAP_WIDTH) as nat,
            };
            let head = painted(color, Tone::Title, shortened(h@, super::frame::room_of(columns, note_room)));
            lemma_shortened_single_line(h@, super::frame::room_of(columns, note_room));
            lemma_painted_single_line(color, Tone::Title, shortened(h@, super::frame::room_of(columns, note_room)));
            let tail = match menu.spec_note() {
                None => Seq::<char>::empty(),
                Some(n) => repeat(' ', 2) + painted(color, Tone::Muted, n@),
            };
            match menu.spec_note() {
                None => {},
                Some(n) => { lemma_painted_single_line(color, Tone::Muted, n@); },
            }
            assert(heading_line(menu, color, columns) == (head + tail) + seq!['\n']);
            lemma_one_line(head + tail);
        },
    }
    match menu.spec_summary() {
        None => {},
        Some(s) => {
            let r = super::frame::room_of(columns, super::MARKER_WIDTH as nat);
            lemma_shortened_single_line(s@, r);
            lemma_painted_single_line(color, Tone::Muted, shortened(s@, r));
            let body = repeat(' ', super::MARKER_WIDTH as nat) + painted(color, Tone::Muted, shortened(s@, r));
            assert(summary_line(menu, color, columns) == body + seq!['\n']);
            lemma_one_line(body);
        },
    }
    lemma_newline_breaks();
}

/// A drawn tab label stays on one line.
proof fn lemma_tab_label_single_line(menu: Menu, k: int)
    requires
        menu_single_line(menu),
        menu.spec_groups().len() <= usize::MAX,
        0 <= k < menu.spec_tabs().len(),
    ensures
        single_line(tab_label_text(menu, k)),
{
    broadcast use lemma_concat_single_line;
    lemma_tabs_valid(menu.spec_groups());
    let g = menu.spec_groups()[menu.spec_tabs()[k].start as int];
    assert(group_single_line(g));
    assert(single_line(tab_name(g)));
    lemma_decimal_single_line((k + 1) as nat);
}

/// The drawn tabs `s..e` stay on one line.
proof fn lemma_drawn_tabs_single_line(menu: Menu, color: bool, active: int, s: int, e: int)
    requires
        menu_single_line(menu),
        menu.spec_groups().len() <= usize::MAX,
        0 <= s,
        e <= menu.spec_tabs().len(),
    ensures
        single_line(drawn_tabs(menu, color, active, s, e)),
    decreases e - s,
{
    broadcast use lemma_concat_single_line;
    if e > s {
        lemma_drawn_tabs_single_line(menu, color, active, s, e - 1);
        let k = e - 1;
        lemma_tab_label_single_line(menu, k);
        lemma_painted_single_line(color, if k == active { Tone::Title } else { Tone::Muted }, tab_label_text(menu, k));
        lemma_painted_single_line(color, Tone::Muted, seq!['│']);
        assert(single_line(tab_piece(menu, color, active, s, k)));
    }
}

/// The tab row spends two lines: the tabs and the rule under the active one.
proof fn lemma_tab_row_breaks(menu: Menu, color: bool, active: nat, columns: Option<usize>)
    requires
        menu_single_line(menu),
        menu.spec_groups().len() <= usize::MAX,
        active < menu.spec_tabs().len(),
    ensures
        line_breaks(tab_row(menu, color, active, columns)) == 2,
{
    broadcast use lemma_breaks_concat, lemma_concat_single_line;
    reveal(tab_row);
    let ws = tab_ws(menu);
    let ds = tab_ds(menu);
    let (s, e) = tab_window_spec(ws, ds, active, columns);
    match columns {
        None => {},
        Some(c) => { law_tab_window_keeps_active(ws, ds, active, c); },
    }
    assert(e <= menu.spec_tabs().len());
    lemma_drawn_tabs_single_line(menu, color, active as int, s as int, e as int);
    lemma_painted_single_line(color, Tone::Muted, seq!['…']);
    let line = repeat(' ', super::MARKER_WIDTH as nat)
        + (if s > 0 { painted(color, Tone::Muted, seq!['…']) + repeat(' ', super::TAB_GAP as nat) } else { Seq::empty() })
        + drawn_tabs(menu, color, active as int, s as int, e as int)
        + (if e < menu.spec_tabs().len() { repeat(' ', super::TAB_GAP as nat) + painted(color, Tone::Muted, seq!['…']) } else { Seq::empty() });
    assert(tab_row_line(menu, color, active as int, s as int, e as int) == line + seq!['\n']);
    lemma_one_line(line);
    let rule = if s <= active < e {
        repeat(' ', super::frame::active_column(menu, active as int, s as int))
            + painted(color, Tone::Success, repeat('─', ws[active as int] as nat))
    } else { Seq::empty() };
    lemma_painted_single_line(color, Tone::Success, repeat('─', ws[active as int] as nat));
    assert(tab_rule(menu, color, active as int, s as int, e as int) == rule + seq!['\n']);
    lemma_one_line(rule);
}

/// Lines the body spends on `rows` rows: the rows in the window, a line
/// for each scroll indicator, and the `no matches` line of a search that
/// found nothing.
pub open spec fn frame_body_lines(viewport: Option<Viewport>, rows: nat, view: ViewModel) -> nat {
    let (s, e) = frame_window(viewport, rows);
    (if s > 0 { 1nat } else { 0 }) + (e - s) as nat
        + (if rows == 0 && view.query is Some { 1nat } else { 0 })
        + (if rows > e { 1nat } else { 0 })
}

/// A body row stays on one line.
proof fn lemma_row_line_single_line(menu: Menu, color: bool, row: Row, cursor: Option<usize>, width: nat,
    columns: Option<usize>)
    requires
        menu_single_line(menu),
        row_valid(menu.spec_groups(), row),
    ensures
        single_line(row_line(menu, color, row, cursor, width, columns)),
{
    broadcast use lemma_concat_single_line;
    let groups = menu.spec_groups();
    match row {
        Row::Group(g) => {
            assert(group_single_line(groups[g as int]));
            let r = super::frame::room_of(columns, 0);
            lemma_shortened_single_line(groups[g as int].label@, r);
            lemma_painted_single_line(color, Tone::Info, shortened(groups[g as int].label@, r));
        },
        Row::Item(g, i, idx) => {
            assert(group_single_line(groups[g as int]));
            let item = groups[g as int].items@[i as int];
            assert(item_single_line(item));
            let selected = cursor == Some(idx);
            lemma_shortened_single_line(item.label@, width);
            lemma_painted_single_line(color, if selected { Tone::Success } else { Tone::Info }, shortened(item.label@, width));
            match item.description {
                None => {},
                Some(d) => {
                    let room = super::frame::room_of(columns,
                        crate::text::sat(super::MARKER_WIDTH + width + super::GAP_WIDTH) as nat);
                    lemma_shortened_single_line(d@, room);
                    lemma_painted_single_line(color, Tone::Muted, shortened(d@, room));
                },
            }
        },
    }
}

/// The rows `s..e` spend a line each.
proof fn lemma_row_lines_breaks(menu: Menu, color: bool, rows: Seq<Row>, cursor: Option<usize>, width: nat,
    columns: Option<usize>, s: int, e: int)
    requires
        menu_single_line(menu),
        forall|k: int| 0 <= k < rows.len() ==> row_valid(menu.spec_groups(), #[trigger] rows[k]),
        0 <= s <= e <= rows.len(),
    ensures
        line_breaks(row_lines(menu, color, rows, cursor, width, columns, s, e)) == e - s,
    decreases e - s,
{
    broadcast use lemma_breaks_concat;
    if e > s {
        lemma_row_lines_breaks(menu, color, rows, cursor, width, columns, s, e - 1);
        lemma_row_line_single_line(menu, color, rows[e - 1], cursor, width, columns);
        lemma_one_line(row_line(menu, color, rows[e - 1], cursor, width, columns));
        assert(row_lines(menu, color, rows, cursor, width, columns, s, e)
            == row_lines(menu, color, rows, cursor, width, columns, s, e - 1)
                + (row_line(menu, color, rows[e - 1], cursor, width, columns) + seq!['\n']));
    }
}

/// A scroll indicator spends one line.
proof fn lemma_more_line_breaks(color: bool, up: bool, n: nat)
    ensures
        line_breaks(more_line(color, up, n)) == 1,
{
    broadcast use lemma_concat_single_line;
    reveal_strlit("  ↑ ");
    reveal_strlit("  ↓ ");
    reveal_strlit(" more");
    lemma_decimal_single_line(n);
    let text = (if up { "  ↑ "@ } else { "  ↓ "@ }) + decimal(n) + " more"@;
    assert(single_line(text));
    lemma_painted_single_line(color, Tone::Muted, text);
    lemma_one_line(painted(color, Tone::Muted, text));
}

/// The body spends the lines `frame_body_lines` counts.
proof fn lemma_body_breaks(menu: Menu, color: bool, rows: Seq<Row>, cursor: Option<usize>,
    viewport: Option<Viewport>, view: ViewModel)
    requires
        menu_single_line(menu),
        forall|k: int| 0 <= k < rows.len() ==> row_valid(menu.spec_groups(), #[trigger] rows[k]),
    ensures
        line_breaks(body_block(menu, color, rows, cursor, viewport, view)) == frame_body_lines(viewport, rows.len(), view),
{
    broadcast use lemma_breaks_concat;
    reveal(body_block);
    let columns = super::frame::vp_columns(viewport);
    let width = super::frame::column_width(menu, columns);
    let (s, e) = frame_window(viewport, rows.len());
    match viewport {
        None => {},
        Some(vp) => { law_window_nonempty(vp, rows.len()); },
    }
    assert(s <= e <= rows.len());
    lemma_row_lines_breaks(menu, color, rows, cursor, width, columns, s as int, e as int);
    if s > 0 { lemma_more_line_breaks(color, true, s); }
    if rows.len() > e { lemma_more_line_breaks(color, false, (rows.len() - e) as nat); }
    if rows.len() == 0 && view.query is Some {
        reveal_strlit("  no matches");
        assert(single_line("  no matches"@));
        lemma_painted_single_line(color, Tone::Muted, "  no matches"@);
        lemma_one_line(painted(color, Tone::Muted, "  no matches"@));
    }
}

/// Footer keys and labels stay on one line.
pub open spec fn keys_single_line(keys: Seq<(Seq<char>, Seq<char>)>) -> bool {
    forall|k: int| 0 <= k < keys.len() ==> single_line((#[trigger] keys[k]).0) && single_line(keys[k].1)
}

/// The keys `a..b` on one footer line stay on one line.
proof fn lemma_footer_line_single_line(color: bool, keys: Seq<(Seq<char>, Seq<char>)>, a: int, b: int)
    requires
        keys_single_line(keys),
        0 <= a,
        b <= keys.len(),
    ensures
        single_line(footer_line_text(color, keys, a, b)),
    decreases b - a,
{
    broadcast use lemma_concat_single_line;
    if b > a {
        let j = b - 1;
        lemma_footer_line_single_line(color, keys, a, j);
        lemma_painted_single_line(color, Tone::Success, keys[j].0);
        lemma_painted_single_line(color, Tone::Muted, keys[j].1);
    }
}

/// The footer spends one line per line of keys.
proof fn lemma_footer_text_breaks(color: bool, keys: Seq<(Seq<char>, Seq<char>)>, lines: Seq<(usize, usize)>)
    requires
        keys_single_line(keys),
        forall|m: int| 0 <= m < lines.len() ==> (#[trigger] lines[m]).1 <= keys.len(),
    ensures
        line_breaks(footer_text(color, keys, lines)) == lines.len(),
    decreases lines.len(),
{
    broadcast use lemma_breaks_concat;
    if lines.len() > 0 {
        let rest = lines.drop_last();
        assert forall|m: int| 0 <= m < rest.len() implies (#[trigger] rest[m]).1 <= keys.len() by {
            assert(rest[m] == lines[m]);
        }
        lemma_footer_text_breaks(color, keys, rest);
        let (a, b) = lines.last();
        lemma_footer_line_single_line(color, keys, a as int, b as int);
        lemma_one_line(footer_line_text(color, keys, a as int, b as int));
        assert(footer_text(color, keys, lines)
            == footer_text(color, keys, rest) + (footer_line_text(color, keys, a as int, b as int) + seq!['\n']));
    }
}

/// The keys the footer offers stay on one line.
proof fn lemma_footer_keys_single_line(menu: Menu, view: ViewModel, cursor: Option<usize>)
    requires
        menu_single_line(menu),
    ensures
        keys_single_line(footer_keys_spec(menu, view, cursor)),
{
    reveal_strlit("group");
    reveal_strlit("search");
    let keys = footer_keys_spec(menu, view, cursor);
    let first = if menu.spec_active_tab(view) is Some { seq![(seq!['←', '→'], "group"@)] } else { Seq::empty() };
    let second = if super::frame::offers_search(menu, cursor) { seq![(seq!['/'], "search"@)] } else { Seq::empty() };
    let hints = Seq::new(menu.spec_hints().len(), |k: int| (seq![menu.spec_hints()[k].key], menu.spec_hints()[k].label@));
    assert(keys == first + second + hints);
    assert forall|k: int| 0 <= k < keys.len() implies single_line((#[trigger] keys[k]).0) && single_line(keys[k].1) by {
        if k < first.len() {
            assert(keys[k] == first[k]);
        } else if k < first.len() + second.len() {
            assert(keys[k] == second[k - first.len()]);
        } else {
            let h = k - first.len() - second.len();
            assert(keys[k] == hints[h]);
            assert(menu.spec_hints()[h].key != '\n');
        }
    }
}

/// What ends the frame spends two lines while searching (a blank line and
/// the query), and otherwise a blank line and the footer's lines, if it
/// offers any key.
proof fn lemma_tail_breaks(menu: Menu, color: bool, view: ViewModel, cursor: usize, columns: Option<usize>)
    requires
        menu_single_line(menu),
        menu.spec_hints().len() + 2 <= usize::MAX,
        view.query matches Some(q) ==> single_line(q),
    ensures
        line_breaks(frame_tail(menu, color, view, Some(cursor), columns)) == (if view.query is Some {
            2nat
        } else {
            let keys = footer_keys_spec(menu, view, Some(0));
            if keys.len() == 0 { 0 } else { 1 + footer_lines_spec(footer_ws(keys), columns).len() }
        }),
{
    broadcast use lemma_breaks_concat, lemma_concat_single_line;
    reveal(frame_tail);
    lemma_newline_breaks();
    match view.query {
        Some(q) => {
            reveal_strlit("type to filter");
            assert(single_line("type to filter"@));
            let r = super::frame::room_of(columns, 2);
            lemma_shortened_single_line("type to filter"@, r);
            lemma_shortened_single_line(q, r);
            lemma_painted_single_line(color, Tone::Muted, shortened("type to filter"@, r));
            lemma_painted_single_line(color, Tone::Title, shortened(q, r));
            lemma_painted_single_line(color, Tone::Success, seq!['/']);
            let line = painted(color, Tone::Success, seq!['/']) + seq![' ']
                + (if q.len() == 0 {
                    painted(color, Tone::Muted, shortened("type to filter"@, r))
                } else {
                    painted(color, Tone::Title, shortened(q, r))
                });
            assert(frame_tail(menu, color, view, Some(cursor), columns) == seq!['\n'] + (line + seq!['\n']));
            lemma_one_line(line);
        },
        None => {
            let keys = footer_keys_spec(menu, view, Some(cursor));
            assert(keys == footer_keys_spec(menu, view, Some(0)));
            assert(keys.len() <= menu.spec_hints().len() + 2);
            if keys.len() > 0 {
                lemma_footer_keys_single_line(menu, view, Some(cursor));
                let ws = footer_ws(keys);
                law_footer_lines_partition(ws, columns);
                lemma_footer_text_breaks(color, keys, footer_lines_spec(ws, columns));
            }
        },
    }
}

/// The frame is exactly as tall as the menu says: the lines it writes are
/// the chrome height plus the body's lines, whatever the colour, the width,
/// the viewport and the view. The redraw moves the cursor up by that
/// height, so any disagreement would leave a stale line or eat one.
///
/// Every text the menu draws, and the query, must stay on one line: a
/// newline inside a label is a line the menu does not count.
pub proof fn law_frame_height(menu: Menu, color: bool, cursor: usize, viewport: Option<Viewport>,
    view: ViewModel, rows: Seq<Row>)
    requires
        menu.spec_groups().len() <= usize::MAX,
        menu.spec_hints().len() + 8 <= usize::MAX,
        menu_single_line(menu),
        view.query matches Some(q) ==> single_line(q),
        forall|k: int| 0 <= k < rows.len() ==> row_valid(menu.spec_groups(), #[trigger] rows[k]),
    ensures
        line_breaks(frame_text(menu, color, Some(cursor), viewport, view, rows))
            == chrome_height_spec(menu, view, vp_columns(viewport)) + frame_body_lines(viewport, rows.len(), view),
{
    broadcast use lemma_breaks_concat;
    let columns = vp_columns(viewport);
    lemma_heading_breaks(menu, color, columns);
    match menu.spec_active_tab(view) {
        Some(a) => { lemma_tab_row_breaks(menu, color, a as nat, columns); },
        None => {},
    }
    lemma_body_breaks(menu, color, rows, Some(cursor), viewport, view);
    lemma_tail_breaks(menu, color, view, cursor, columns);
    if view.query is None {
        let keys = footer_keys_spec(menu, view, Some(0));
        assert(keys.len() <= menu.spec_hints().len() + 2);
        if keys.len() > 0 {
            let ws = footer_ws(keys);
            law_footer_lines_partition(ws, columns);
            let lines = footer_lines_spec(ws, columns);
            lemma_ranges_count(lines, 0, ws.len());
        }
    }
}

/// With room for every row (no viewport, or one at least as tall as the
/// body), the frame a view shows is as tall as its chrome height plus its
/// body height.
pub proof fn law_frame_height_unwindowed(menu: Menu, color: bool, cursor: usize, viewport: Option<Viewport>,
    view: ViewModel, rows: Seq<Row>)
    requires
        menu.spec_groups().len() <= usize::MAX,
        menu.spec_hints().len() + 8 <= usize::MAX,
        menu_single_line(menu),
        view.query matches Some(q) ==> single_line(q),
        menu.spec_body_rows(view, rows),
        forall|k: int| 0 <= k < rows.len() ==> row_valid(menu.spec_groups(), #[trigger] rows[k]),
        viewport matches Some(vp) ==> rows.len() <= vp.height,
    ensures
        line_breaks(frame_text(menu, color, Some(cursor), viewport, view, rows))
            == chrome_height_spec(menu, view, vp_columns(viewport)) + body_height_of(menu.spec_shown_rows(view), view),
{
    law_frame_height(menu, color, cursor, viewport, view, rows);
    lemma_shown_rows(menu, view, rows);
}

} // verus!
