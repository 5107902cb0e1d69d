//! The frame a menu draws: heading, tab row, the windowed body, and the
//! footer or the query line.

use vstd::prelude::*;
use crate::color::{Console, Tone, painted};
use crate::text::{decimal, display_width, owned, push_char, push_decimal, push_repeat, push_str, repeat, str_width};
use super::layout::{drawn_cost, footer_lines, footer_lines_spec, shorten, shortened, tab_window, tab_window_spec};
use super::{FOOTER_GAP, SEARCH_WORTH_MENTIONING};
use super::{TAB_DIVIDER, TAB_ELLIPSIS, TAB_GAP, TAB_KEYS, tab_label, tab_name};
use super::{GAP_WIDTH, MARKER_WIDTH, MIN_DESCRIPTION, Item, Menu, MenuView, Row, ViewModel, row_valid};
use super::{item_count, numbered_from, law_entries_numbered_in_order, lemma_item_count_concat, lemma_item_count_single, lemma_numbered_covers};

verus! {

/// The visible area, for a terminal that cannot show the whole menu.
#[derive(Debug, Clone, Copy, PartialEq, Eq)]
pub struct Viewport {
    /// First body row to draw.
    pub start: usize,
    /// Body rows available, before any scroll indicator is subtracted.
    pub height: usize,
    /// Columns available. Entries are shortened to fit rather than wrapped:
    /// a wrapped line would change the frame height and break the redraw.
    pub width: Option<usize>,
}

/// The rows of `rows` a viewport draws, leaving room for whichever scroll
/// indicators are needed: a line above when rows are hidden above, a line
/// below when rows are hidden below.
pub open spec fn window_spec(vp: Viewport, rows: nat) -> (nat, nat) {
    if rows <= vp.height {
        (0, rows)
    } else {
        let start: nat = if vp.start < rows - 1 { vp.start as nat } else { (rows - 1) as nat };
        let above: nat = if start > 0 { 1 } else { 0 };
        let visible: nat = if vp.height > above + 1 { (vp.height - above - 1) as nat } else { 1 };
        let end: nat = if start + visible < rows { start + visible } else { rows };
        if end == rows {
            let visible2: nat = if vp.height > above { (vp.height - above) as nat } else { 1 };
            let from_end: nat = if rows > visible2 { (rows - visible2) as nat } else { 0 };
            (if from_end > start { from_end } else { start }, rows)
        } else {
            (start, end)
        }
    }
}

impl Viewport {
    pub fn new(start: usize, height: usize) -> (v: Self)
        ensures
            v.start == start,
            v.height == height,
            v.width is None,
    {
        Viewport { start, height, width: None }
    }

    pub fn with_width(self, width: Option<usize>) -> (v: Self)
        ensures
            v.start == self.start,
            v.height == self.height,
            v.width == width,
    {
        Viewport { width, ..self }
    }

    /// The rows to draw, leaving room for whichever indicators are needed.
    ///
    /// An indicator costs a body line, and showing one can be what pushes
    /// the other into existence, so the two are resolved together.
    pub fn window(self, rows: usize) -> (r: (usize, usize))
        ensures
            (r.0 as nat, r.1 as nat) == window_spec(self, rows as nat),
    {
        if rows <= self.height {
            return (0, rows);
        }
        let start = if self.start < rows - 1 { self.start } else { rows - 1 };
        let above: usize = if start > 0 { 1 } else { 0 };
        // Assume a trailing indicator, then confirm: with one line spent
        // above and one below, anything that still does not fit needs both.
        let visible = if self.height > above + 1 { self.height - above - 1 } else { 1 };
        let end = if visible < rows - start { start + visible } else { rows };
        if end == rows {
            // Nothing below after all; that line goes back to the body.
            let visible2 = if self.height > above { self.height - above } else { 1 };
            let from_end = if rows > visible2 { rows - visible2 } else { 0 };
            return (if from_end > start { from_end } else { start }, rows);
        }
        (start, end)
    }

    /// Whether `row` lands inside what this viewport draws of `rows` rows.
    pub fn shows(self, rows: usize, row: usize) -> (r: bool)
        ensures
            r == (window_spec(self, rows as nat).0 <= row && (row as nat) < window_spec(self, rows as nat).1),
    {
        let (start, end) = self.window(rows);
        start <= row && row < end
    }
}

/// Lines the body spends on `rows` rows seen through a viewport: the rows
/// drawn plus one line per scroll indicator.
pub open spec fn body_lines_used(vp: Viewport, rows: nat) -> nat {
    let (s, e) = window_spec(vp, rows);
    (e - s) as nat + (if s > 0 { 1nat } else { 0 }) + (if e < rows { 1nat } else { 0 })
}

/// A window never draws more body lines than it was given, once it was
/// given room for a row and both indicators; and it always draws a row.
pub proof fn law_window_fits_height(vp: Viewport, rows: nat)
    requires
        vp.height >= 3,
    ensures
        body_lines_used(vp, rows) <= vp.height,
        rows > 0 ==> window_spec(vp, rows).0 < window_spec(vp, rows).1,
        window_spec(vp, rows).1 <= rows,
{
}

/// A window is never empty while there are rows, and stays within them.
pub proof fn law_window_nonempty(vp: Viewport, rows: nat)
    ensures
        rows > 0 ==> window_spec(vp, rows).0 < window_spec(vp, rows).1,
        window_spec(vp, rows).1 <= rows,
{
}

/// The room left of `columns` once `reserved` columns are spoken for, or
/// unlimited without a width.
pub open spec fn room_of(columns: Option<usize>, reserved: nat) -> nat {
    match columns {
        None => usize::MAX as nat,
        Some(c) => if c >= reserved { (c - reserved) as nat } else { 0 },
    }
}

fn room(columns: Option<usize>, reserved: usize) -> (r: usize)
    ensures
        r as nat == room_of(columns, reserved as nat),
{
    match columns {
        None => usize::MAX,
        Some(c) => c.saturating_sub(reserved),
    }
}

/// The heading line, with the note after it.
pub open spec fn heading_line(menu: Menu, color: bool, columns: Option<usize>) -> Seq<char> {
    match menu.spec_heading() {
        None => Seq::empty(),
        Some(h) => {
            let note_room: nat = match menu.spec_note() {
                None => 0,
                Some(n) => crate::text::sat(str_width(n@) + GAP_WIDTH) as nat,
            };
            painted(color, Tone::Title, shortened(h@, room_of(columns, note_room)))
                + (match menu.spec_note() {
                    None => Seq::empty(),
                    Some(n) => repeat(' ', 2) + painted(color, Tone::Muted, n@),
                })
                + seq!['\n']
        },
    }
}

/// The summary line under the heading.
pub open spec fn summary_line(menu: Menu, color: bool, columns: Option<usize>) -> Seq<char> {
    match menu.spec_summary() {
        None => Seq::empty(),
        Some(s) => repeat(' ', MARKER_WIDTH as nat) + painted(color, Tone::Muted, shortened(s@, room_of(columns, MARKER_WIDTH as nat)))
            + seq!['\n'],
    }
}

/// The heading line, the summary line, and the blank line after them.
#[verifier::opaque]
pub open spec fn heading_block(menu: Menu, color: bool, columns: Option<usize>) -> Seq<char> {
    heading_line(menu, color, columns) + summary_line(menu, color, columns)
        + (if menu.spec_heading() is Some || menu.spec_summary() is Some { seq!['\n'] } else { Seq::empty() })
}

impl Menu {
    fn write_heading_line(&self, out: &mut String, console: Console, columns: Option<usize>)
        ensures
            final(out)@ == old(out)@ + heading_line(*self, console.spec_color(), columns),
    {
        match self.heading() {
            Some(heading) => {
                let ghost start = out@;
                let note_room = match self.note() {
                    None => 0,
                    Some(note) => display_width(note.as_str()).saturating_add(GAP_WIDTH),
                };
                let r = room(columns, note_room);
                let short = shorten(heading.as_str(), r);
                console.write_paint(Tone::Title, short.as_str(), out);
                let ghost after_heading = out@;
                match self.note() {
                    Some(note) => {
                        push_repeat(out, ' ', 2);
                        console.write_paint(Tone::Muted, note.as_str(), out);
                    },
                    None => {},
                }
                let ghost after_note = out@;
                push_char(out, '\n');
                proof {
                    let tail = match self.spec_note() {
                        None => Seq::<char>::empty(),
                        Some(n) => repeat(' ', 2) + painted(console.spec_color(), Tone::Muted, n@),
                    };
                    assert(after_note =~= after_heading + tail);
                    assert(final(out)@ =~= start + heading_line(*self, console.spec_color(), columns));
                }
            },
            None => {
                assert(final(out)@ =~= old(out)@ + heading_line(*self, console.spec_color(), columns));
            },
        }
    }

    fn write_summary_line(&self, out: &mut String, console: Console, columns: Option<usize>)
        ensures
            final(out)@ == old(out)@ + summary_line(*self, console.spec_color(), columns),
    {
        match self.summary() {
            Some(summary) => {
                let ghost start = out@;
                let r = room(columns, MARKER_WIDTH);
                push_repeat(out, ' ', MARKER_WIDTH);
                let short = shorten(summary.as_str(), r);
                console.write_paint(Tone::Muted, short.as_str(), out);
                push_char(out, '\n');
                proof { assert(final(out)@ =~= start + summary_line(*self, console.spec_color(), columns)); }
            },
            None => {
                assert(final(out)@ =~= old(out)@ + summary_line(*self, console.spec_color(), columns));
            },
        }
    }

    /// Appends the heading block.
    pub(crate) fn write_heading(&self, out: &mut String, console: Console, columns: Option<usize>)
        ensures
            final(out)@ == old(out)@ + heading_block(*self, console.spec_color(), columns),
    {
        let ghost start = out@;
        proof { reveal(heading_block); }
        self.write_heading_line(out, console, columns);
        self.write_summary_line(out, console, columns);
        let ghost mid = out@;
        if self.heading().is_some() || self.summary().is_some() {
            push_char(out, '\n');
        }
        proof {
            assert(final(out)@ =~= start + heading_block(*self, console.spec_color(), columns));
        }
    }
}


/// Each tab as drawn: the digit that selects it, while digits last, and its
/// name.
pub open spec fn tab_label_text(menu: Menu, k: int) -> Seq<char> {
    let name = tab_name(menu.spec_groups()[menu.spec_tabs()[k].start as int]);
    if k < TAB_KEYS { decimal((k + 1) as nat) + seq![' '] + name } else { name }
}

/// The drawn width of each tab label.
pub open spec fn tab_ws(menu: Menu) -> Seq<usize> {
    Seq::new(menu.spec_tabs().len(), |k: int| str_width(tab_label_text(menu, k)) as usize)
}

/// Whether a divider precedes each tab.
pub open spec fn tab_ds(menu: Menu) -> Seq<bool> {
    Seq::new(menu.spec_tabs().len(), |k: int| menu.spec_tabs()[k].divider)
}

/// One drawn tab: between two drawn tabs the gap and any divider, then the
/// label in its tone.
pub open spec fn tab_piece(menu: Menu, color: bool, active: int, s: int, k: int) -> Seq<char> {
    (if k > s {
        repeat(' ', TAB_GAP as nat) + (if tab_ds(menu)[k] {
            painted(color, Tone::Muted, seq!['│']) + repeat(' ', TAB_GAP as nat)
        } else { Seq::empty() })
    } else { Seq::empty() })
        + painted(color, if k == active { Tone::Title } else { Tone::Muted }, tab_label_text(menu, k))
}

/// The drawn tabs `s..e`.
pub open spec fn drawn_tabs(menu: Menu, color: bool, active: int, s: int, e: int) -> Seq<char>
    decreases e - s,
{
    if e <= s {
        Seq::empty()
    } else {
        drawn_tabs(menu, color, active, s, e - 1) + tab_piece(menu, color, active, s, e - 1)
    }
}

/// The column where the active tab's label starts.
pub open spec fn active_column(menu: Menu, active: int, s: int) -> nat {
    let ws = tab_ws(menu);
    let ds = tab_ds(menu);
    crate::text::sat(MARKER_WIDTH + (if s > 0 { TAB_ELLIPSIS } else { 0 }) + drawn_cost(ws, ds, s, active)
        + (if active > s { TAB_GAP + (if ds[active] { TAB_DIVIDER } else { 0 }) } else { 0 })) as nat
}

/// The line of tabs `s..e`, an ellipsis marking each end where tabs were
/// dropped.
pub open spec fn tab_row_line(menu: Menu, color: bool, active: int, s: int, e: int) -> Seq<char> {
    repeat(' ', MARKER_WIDTH as nat)
        + (if s > 0 { painted(color, Tone::Muted, seq!['…']) + repeat(' ', TAB_GAP as nat) } else { Seq::empty() })
        + drawn_tabs(menu, color, active, s, e)
        + (if e < menu.spec_tabs().len() { repeat(' ', TAB_GAP as nat) + painted(color, Tone::Muted, seq!['…']) } else { Seq::empty() })
        + seq!['\n']
}

/// The rule under the active tab.
pub open spec fn tab_rule(menu: Menu, color: bool, active: int, s: int, e: int) -> Seq<char> {
    (if s <= active < e {
        repeat(' ', active_column(menu, active, s))
            + painted(color, Tone::Success, repeat('─', tab_ws(menu)[active] as nat))
    } else { Seq::empty() })
        + seq!['\n']
}

/// The tab row and the rule marking the active tab.
///
/// The rule is not decoration: with colour off it is the only thing saying
/// which group the entries below belong to.
#[verifier::opaque]
pub open spec fn tab_row(menu: Menu, color: bool, active: nat, columns: Option<usize>) -> Seq<char> {
    let (s, e) = tab_window_spec(tab_ws(menu), tab_ds(menu), active, columns);
    tab_row_line(menu, color, active as int, s as int, e as int) + tab_rule(menu, color, active as int, s as int, e as int)
}

impl Menu {
    /// Each tab as drawn, with the digit that selects it, and their widths
    /// and dividers.
    fn tab_labels(&self) -> (r: (Vec<String>, Vec<usize>, Vec<bool>))
        ensures
            r.0@.len() == self.spec_tabs().len(),
            forall|k: int| 0 <= k < r.0@.len() ==> (#[trigger] r.0@[k])@ == tab_label_text(*self, k),
            r.1@ == tab_ws(*self),
            r.2@ == tab_ds(*self),
    {
        let tabs = self.tabs();
        let groups = self.groups();
        let _n = groups.len();
        proof { super::lemma_tabs_valid(groups@); }
        let mut labels: Vec<String> = Vec::new();
        let mut ws: Vec<usize> = Vec::new();
        let mut ds: Vec<bool> = Vec::new();
        let mut k: usize = 0;
        while k < tabs.len()
            invariant
                tabs@ == self.spec_tabs(),
                groups@ == self.spec_groups(),
                forall|m: int| 0 <= m < tabs@.len() ==>
                    (#[trigger] tabs@[m]).start < tabs@[m].end <= groups@.len(),
                k <= tabs@.len(),
                labels@.len() == k,
                forall|m: int| 0 <= m < k ==> (#[trigger] labels@[m])@ == tab_label_text(*self, m),
                ws@ =~= tab_ws(*self).take(k as int),
                ds@ =~= tab_ds(*self).take(k as int),
            decreases tabs@.len() - k,
        {
            let name = tab_label(&groups[tabs[k].start]);
            let mut label = String::new();
            if k < TAB_KEYS {
                push_decimal(&mut label, (k + 1) as u64);
                push_char(&mut label, ' ');
            }
            push_str(&mut label, name);
            proof {
                assert(label@ =~= tab_label_text(*self, k as int));
            }
            let w = display_width(label.as_str());
            labels.push(label);
            ws.push(w);
            ds.push(tabs[k].divider);
            k = k + 1;
        }
        (labels, ws, ds)
    }
}


/// Appends one drawn tab.
fn write_tab_piece(out: &mut String, console: Console, menu: &Menu, labels: &Vec<String>, ds: &Vec<bool>,
    active: usize, s: usize, k: usize)
    requires
        s <= k < labels@.len(),
        labels@.len() == menu.spec_tabs().len(),
        ds@ == tab_ds(*menu),
        (labels@[k as int])@ == tab_label_text(*menu, k as int),
    ensures
        final(out)@ == old(out)@ + tab_piece(*menu, console.spec_color(), active as int, s as int, k as int),
{
    let ghost start = out@;
    proof { reveal_strlit("│"); assert("│"@ =~= seq!['│']); }
    if k > s {
        push_repeat(out, ' ', TAB_GAP);
        if ds[k] {
            console.write_paint(Tone::Muted, "│", out);
            push_repeat(out, ' ', TAB_GAP);
        }
    }
    let ghost mid = out@;
    if k == active {
        console.write_paint(Tone::Title, labels[k].as_str(), out);
    } else {
        console.write_paint(Tone::Muted, labels[k].as_str(), out);
    }
    proof {
        assert(mid =~= start + (if k > s {
            repeat(' ', TAB_GAP as nat) + (if tab_ds(*menu)[k as int] {
                painted(console.spec_color(), Tone::Muted, seq!['│']) + repeat(' ', TAB_GAP as nat)
            } else { Seq::empty() })
        } else { Seq::empty() }));
        assert(final(out)@ =~= start + tab_piece(*menu, console.spec_color(), active as int, s as int, k as int));
    }
}

/// Appends the drawn tabs `s..e`, returning the column and width of the
/// active tab's label when it is drawn.
fn write_drawn_tabs(out: &mut String, console: Console, menu: &Menu, labels: &Vec<String>, ws: &Vec<usize>,
    ds: &Vec<bool>, active: usize, s: usize, e: usize) -> (underline: Option<(usize, usize)>)
    requires
        s <= e <= labels@.len(),
        labels@.len() == menu.spec_tabs().len(),
        ws@ == tab_ws(*menu),
        ds@ == tab_ds(*menu),
        forall|k: int| 0 <= k < labels@.len() ==> (#[trigger] labels@[k])@ == tab_label_text(*menu, k),
    ensures
        final(out)@ == old(out)@ + drawn_tabs(*menu, console.spec_color(), active as int, s as int, e as int),
        underline == (if s <= active < e {
            Some((active_column(*menu, active as int, s as int) as usize, ws@[active as int]))
        } else {
            None::<(usize, usize)>
        }),
{
    let ghost lead = out@;
    let mut column: usize = MARKER_WIDTH;
    if s > 0 {
        column = column + TAB_ELLIPSIS;
    }
    let mut underline: Option<(usize, usize)> = None;
    let mut index = s;
    while index < e
        invariant
            s <= index <= e <= labels@.len(),
            labels@.len() == menu.spec_tabs().len(),
            ws@ == tab_ws(*menu),
            ds@ == tab_ds(*menu),
            forall|k: int| 0 <= k < labels@.len() ==> (#[trigger] labels@[k])@ == tab_label_text(*menu, k),
            out@ == lead + drawn_tabs(*menu, console.spec_color(), active as int, s as int, index as int),
            column as int == crate::text::sat(MARKER_WIDTH + (if s > 0 { TAB_ELLIPSIS } else { 0 })
                + drawn_cost(ws@, ds@, s as int, index as int)),
            underline == (if s <= active < index {
                Some((active_column(*menu, active as int, s as int) as usize, ws@[active as int]))
            } else {
                None::<(usize, usize)>
            }),
        decreases e - index,
    {
        if index > s {
            column = column.saturating_add(TAB_GAP);
            if ds[index] {
                column = column.saturating_add(TAB_DIVIDER);
            }
        }
        write_tab_piece(out, console, menu, labels, ds, active, s, index);
        if index == active {
            underline = Some((column, ws[index]));
        }
        column = column.saturating_add(ws[index]);
        index = index + 1;
    }
    underline
}

/// Appends the line of tabs `s..e`, returning where the active tab's rule
/// goes.
fn write_tab_row_line(out: &mut String, console: Console, menu: &Menu, labels: &Vec<String>, ws: &Vec<usize>,
    ds: &Vec<bool>, active: usize, s: usize, e: usize) -> (underline: Option<(usize, usize)>)
    requires
        s <= e <= labels@.len(),
        labels@.len() == menu.spec_tabs().len(),
        ws@ == tab_ws(*menu),
        ds@ == tab_ds(*menu),
        forall|k: int| 0 <= k < labels@.len() ==> (#[trigger] labels@[k])@ == tab_label_text(*menu, k),
    ensures
        final(out)@ == old(out)@ + tab_row_line(*menu, console.spec_color(), active as int, s as int, e as int),
        underline == (if s <= active < e {
            Some((active_column(*menu, active as int, s as int) as usize, ws@[active as int]))
        } else {
            None::<(usize, usize)>
        }),
{
    let ghost start_out = out@;
    let n = labels.len();
    proof { reveal_strlit("…"); assert("…"@ =~= seq!['…']); }
    push_repeat(out, ' ', MARKER_WIDTH);
    if s > 0 {
        console.write_paint(Tone::Muted, "…", out);
        push_repeat(out, ' ', TAB_GAP);
    }
    let ghost lead = out@;
    let underline = write_drawn_tabs(out, console, menu, labels, ws, ds, active, s, e);
    let ghost after_drawn = out@;
    if e < n {
        push_repeat(out, ' ', TAB_GAP);
        console.write_paint(Tone::Muted, "…", out);
    }
    let ghost after_right = out@;
    push_char(out, '\n');
    proof {
        assert(lead =~= start_out + repeat(' ', MARKER_WIDTH as nat)
            + (if s > 0 { painted(console.spec_color(), Tone::Muted, seq!['…']) + repeat(' ', TAB_GAP as nat) } else { Seq::empty() }));
        assert(after_right =~= after_drawn
            + (if e < n { repeat(' ', TAB_GAP as nat) + painted(console.spec_color(), Tone::Muted, seq!['…']) } else { Seq::empty() }));
        assert(final(out)@ =~= start_out + tab_row_line(*menu, console.spec_color(), active as int, s as int, e as int));
    }
    underline
}

impl Menu {
    /// Appends the tab row and the rule marking the active tab.
    pub(crate) fn write_tabs(&self, out: &mut String, console: Console, active: usize, columns: Option<usize>)
        requires
            active < self.spec_tabs().len(),
        ensures
            final(out)@ == old(out)@ + tab_row(*self, console.spec_color(), active as nat, columns),
    {
        let ghost start_out = out@;
        proof { reveal(tab_row); }
        let (labels, ws, ds) = self.tab_labels();
        let (s, e) = tab_window(&ws, &ds, active, columns);
        assert(s <= e <= labels.len()) by {
            match columns {
                None => {},
                Some(c) => { super::layout::law_tab_window_keeps_active(ws@, ds@, active as nat, c); },
            }
        };
        let underline = write_tab_row_line(out, console, self, &labels, &ws, &ds, active, s, e);
        let ghost after_row = out@;
        match underline {
            Some((at, width)) => {
                push_repeat(out, ' ', at);
                let mut rule = String::new();
                push_repeat(&mut rule, '─', width);
                console.write_paint(Tone::Success, rule.as_str(), out);
            },
            None => {},
        }
        push_char(out, '\n');
        proof {
            assert(final(out)@ =~= after_row + tab_rule(*self, console.spec_color(), active as int, s as int, e as int));
            assert(final(out)@ =~= start_out + tab_row(*self, console.spec_color(), active as nat, columns));
        }
    }
}


/// The widest label of `items`.
pub open spec fn max_label_width(items: Seq<Item>) -> nat
    decreases items.len(),
{
    if items.len() == 0 {
        0
    } else {
        let m = max_label_width(items.drop_last());
        let w = str_width(items.last().label@);
        if w > m { w } else { m }
    }
}

/// The width a frame sees through a viewport, if any.
pub open spec fn vp_columns(viewport: Option<Viewport>) -> Option<usize> {
    match viewport {
        Some(vp) => vp.width,
        None => None,
    }
}

/// The label column width, so descriptions line up across all groups; a
/// column wider than the terminal would leave nothing for descriptions.
pub open spec fn column_width(menu: Menu, columns: Option<usize>) -> nat {
    let w = max_label_width(menu.spec_items());
    let r = room_of(columns, MARKER_WIDTH as nat);
    if w < r { w } else { r }
}

/// One body row as drawn: a heading, or an entry with its marker, its
/// label padded to the column, and its description where it has room.
pub open spec fn row_line(menu: Menu, color: bool, row: Row, cursor: Option<usize>, width: nat,
    columns: Option<usize>) -> Seq<char>
{
    let groups = menu.spec_groups();
    match row {
        Row::Group(g) => painted(color, Tone::Info, shortened(groups[g as int].label@, room_of(columns, 0))),
        Row::Item(g, i, idx) => {
            let item = groups[g as int].items@[i as int];
            let selected = cursor == Some(idx);
            let label = shortened(item.label@, width);
            let padding: nat = if width >= str_width(label) { (width - str_width(label)) as nat } else { 0 };
            (if selected { seq!['›'] } else { seq![' '] }) + seq![' ']
                + painted(color, if selected { Tone::Success } else { Tone::Info }, label)
                + match item.description {
                    None => Seq::empty(),
                    Some(d) => {
                        let room = room_of(columns, crate::text::sat(MARKER_WIDTH + width + GAP_WIDTH) as nat);
                        if room >= MIN_DESCRIPTION {
                            repeat(' ', padding) + repeat(' ', 2) + painted(color, Tone::Muted, shortened(d@, room))
                        } else {
                            Seq::empty()
                        }
                    },
                }
        },
    }
}

/// An entry row starts with the cursor marker `›` exactly when the cursor
/// is on its entry, counted among the entries shown, and with a space
/// otherwise.
pub proof fn law_marker_follows_cursor(menu: Menu, color: bool, g: usize, i: usize, idx: usize,
    cursor: Option<usize>, width: nat, columns: Option<usize>)
    ensures
        row_line(menu, color, Row::Item(g, i, idx), cursor, width, columns)[0]
            == (if cursor == Some(idx) { '›' } else { ' ' }),
{
}

/// Whether a body row is an entry drawn with the cursor marker.
pub open spec fn marked(menu: Menu, color: bool, row: Row, cursor: Option<usize>, width: nat, columns: Option<usize>) -> bool {
    row is Item && row_line(menu, color, row, cursor, width, columns)[0] == '›'
}

/// Entries before a later entry row are fewer than those before it and
/// itself.
proof fn lemma_item_count_take(rows: Seq<Row>, a: int, b: int)
    requires
        0 <= a < b <= rows.len(),
        rows[a] is Item,
    ensures
        item_count(rows.take(a)) < item_count(rows.take(b)),
{
    assert(rows.take(a + 1) =~= rows.take(a) + seq![rows[a]]);
    lemma_item_count_concat(rows.take(a), seq![rows[a]]);
    lemma_item_count_single(rows[a]);
    assert(rows.take(b) =~= rows.take(a + 1) + rows.subrange(a + 1, b));
    lemma_item_count_concat(rows.take(a + 1), rows.subrange(a + 1, b));
}

/// In the body a view shows, the cursor marker stands on one entry row at
/// most: on the row of the entry at the cursor's position when the cursor
/// is below the number of entries shown, and on none otherwise.
pub proof fn law_one_row_marked(menu: Menu, view: ViewModel, rows: Seq<Row>, color: bool, cursor: usize,
    width: nat, columns: Option<usize>)
    requires
        menu.spec_body_rows(view, rows),
        menu.spec_groups().len() <= usize::MAX,
        menu.spec_items().len() <= usize::MAX,
        rows.len() <= usize::MAX,
    ensures
        forall|a: int, b: int| 0 <= a < b < rows.len()
            && #[trigger] marked(menu, color, rows[a], Some(cursor), width, columns)
            ==> !#[trigger] marked(menu, color, rows[b], Some(cursor), width, columns),
        cursor < item_count(rows) ==> exists|k: int| 0 <= k < rows.len()
            && #[trigger] marked(menu, color, rows[k], Some(cursor), width, columns),
        cursor >= item_count(rows) ==> forall|k: int| 0 <= k < rows.len()
            ==> !#[trigger] marked(menu, color, rows[k], Some(cursor), width, columns),
{
    law_entries_numbered_in_order(menu, view, rows);
    assert forall|a: int, b: int| 0 <= a < b < rows.len()
        && #[trigger] marked(menu, color, rows[a], Some(cursor), width, columns)
        implies !#[trigger] marked(menu, color, rows[b], Some(cursor), width, columns) by {
        if rows[b] is Item {
            lemma_item_count_take(rows, a, b);
            let (g1, i1, x1) = (rows[a]->Item_0, rows[a]->Item_1, rows[a]->Item_2);
            let (g2, i2, x2) = (rows[b]->Item_0, rows[b]->Item_1, rows[b]->Item_2);
            law_marker_follows_cursor(menu, color, g1, i1, x1, Some(cursor), width, columns);
            law_marker_follows_cursor(menu, color, g2, i2, x2, Some(cursor), width, columns);
            assert(rows[a] == Row::Item(g1, i1, x1));
            assert(rows[b] == Row::Item(g2, i2, x2));
        }
    }
    if cursor < item_count(rows) {
        lemma_numbered_covers(rows, cursor as nat);
        let k = choose|k: int| 0 <= k < rows.len() && (#[trigger] rows[k] matches Row::Item(_, _, idx) && idx == cursor);
        law_marker_follows_cursor(menu, color, rows[k]->Item_0, rows[k]->Item_1, rows[k]->Item_2, Some(cursor), width, columns);
        assert(rows[k] == Row::Item(rows[k]->Item_0, rows[k]->Item_1, rows[k]->Item_2));
        assert(marked(menu, color, rows[k], Some(cursor), width, columns));
    } else {
        assert forall|k: int| 0 <= k < rows.len()
            implies !#[trigger] marked(menu, color, rows[k], Some(cursor), width, columns) by {
            if rows[k] is Item {
                lemma_item_count_take(rows, k, rows.len() as int);
                assert(rows.take(rows.len() as int) =~= rows);
                law_marker_follows_cursor(menu, color, rows[k]->Item_0, rows[k]->Item_1, rows[k]->Item_2, Some(cursor), width, columns);
                assert(rows[k] == Row::Item(rows[k]->Item_0, rows[k]->Item_1, rows[k]->Item_2));
            }
        }
    }
}

/// The rows `s..e`, one line each.
pub open spec fn row_lines(menu: Menu, color: bool, rows: Seq<Row>, cursor: Option<usize>, width: nat,
    columns: Option<usize>, s: int, e: int) -> Seq<char>
    decreases e - s,
{
    if e <= s {
        Seq::empty()
    } else {
        row_lines(menu, color, rows, cursor, width, columns, s, e - 1)
            + row_line(menu, color, rows[e - 1], cursor, width, columns) + seq!['\n']
    }
}

/// The rows a frame draws: all of them without a viewport.
pub open spec fn frame_window(viewport: Option<Viewport>, rows: nat) -> (nat, nat) {
    match viewport {
        None => (0, rows),
        Some(vp) => window_spec(vp, rows),
    }
}

/// A scroll indicator: how many rows are hidden above or below.
pub open spec fn more_line(color: bool, up: bool, n: nat) -> Seq<char> {
    painted(color, Tone::Muted, (if up { "  ↑ "@ } else { "  ↓ "@ }) + decimal(n) + " more"@) + seq!['\n']
}

/// Appends a scroll indicator.
fn write_more(out: &mut String, console: Console, up: bool, n: usize)
    ensures
        final(out)@ == old(out)@ + more_line(console.spec_color(), up, n as nat),
{
    let mut msg = String::new();
    if up { push_str(&mut msg, "  ↑ "); } else { push_str(&mut msg, "  ↓ "); }
    push_decimal(&mut msg, n as u64);
    push_str(&mut msg, " more");
    console.write_paint(Tone::Muted, msg.as_str(), out);
    push_char(out, '\n');
    assert(final(out)@ =~= old(out)@ + more_line(console.spec_color(), up, n as nat));
}

/// Appends the rows `s..e`, one line each.
fn write_row_lines(out: &mut String, console: Console, menu: &Menu, rows: &Vec<Row>, cursor: Option<usize>,
    width: usize, columns: Option<usize>, s: usize, e: usize)
    requires
        s <= e <= rows@.len(),
        forall|k: int| 0 <= k < rows@.len() ==> row_valid(menu.spec_groups(), #[trigger] rows@[k]),
    ensures
        final(out)@ == old(out)@ + row_lines(*menu, console.spec_color(), rows@, cursor, width as nat, columns, s as int, e as int),
{
    let ghost lead = out@;
    let mut k = s;
    while k < e
        invariant
            s <= k <= e <= rows@.len(),
            forall|m: int| 0 <= m < rows@.len() ==> row_valid(menu.spec_groups(), #[trigger] rows@[m]),
            out@ == lead + row_lines(*menu, console.spec_color(), rows@, cursor, width as nat, columns, s as int, k as int),
        decreases e - k,
    {
        write_row(out, console, menu, rows[k], cursor, width, columns);
        push_char(out, '\n');
        k = k + 1;
        proof {
            assert(out@ =~= lead + row_lines(*menu, console.spec_color(), rows@, cursor, width as nat, columns, s as int, k as int));
        }
    }
}

/// The body: a `↑ N more` line when rows are hidden above, the rows in the
/// window, a `no matches` line for a search that found nothing, and a
/// `↓ N more` line when rows are hidden below.
#[verifier::opaque]
pub open spec fn body_block(menu: Menu, color: bool, rows: Seq<Row>, cursor: Option<usize>,
    viewport: Option<Viewport>, view: ViewModel) -> Seq<char>
{
    let columns = vp_columns(viewport);
    let width = column_width(menu, columns);
    let (s, e) = frame_window(viewport, rows.len());
    (if s > 0 { more_line(color, true, s) } else { Seq::empty() })
        + row_lines(menu, color, rows, cursor, width, columns, s as int, e as int)
        + (if rows.len() == 0 && view.query is Some { painted(color, Tone::Muted, "  no matches"@) + seq!['\n'] } else { Seq::empty() })
        + (if rows.len() > e { more_line(color, false, (rows.len() - e) as nat) } else { Seq::empty() })
}

impl Menu {
    /// The widest label of the menu.
    pub(crate) fn label_width(&self) -> (w: usize)
        ensures
            w as nat == max_label_width(self.spec_items()),
    {
        let items = self.items();
        let mut w: usize = 0;
        let mut k: usize = 0;
        while k < items.len()
            invariant
                k <= items@.len(),
                items@.len() == self.spec_items().len(),
                forall|m: int| 0 <= m < items@.len() ==> *items@[m] == self.spec_items()[m],
                w as nat == max_label_width(self.spec_items().take(k as int)),
            decreases items@.len() - k,
        {
            let lw = display_width(items[k].label.as_str());
            proof {
                assert(self.spec_items().take(k as int + 1).drop_last() =~= self.spec_items().take(k as int));
            }
            if lw > w {
                w = lw;
            }
            k = k + 1;
        }
        proof { assert(self.spec_items().take(k as int) =~= self.spec_items()); }
        w
    }
}

/// Appends one body row.
fn write_row(out: &mut String, console: Console, menu: &Menu, row: Row, cursor: Option<usize>, width: usize,
    columns: Option<usize>)
    requires
        row_valid(menu.spec_groups(), row),
    ensures
        final(out)@ == old(out)@ + row_line(*menu, console.spec_color(), row, cursor, width as nat, columns),
{
    let ghost start = out@;
    let groups = menu.groups();
    match row {
        Row::Group(g) => {
            let r = match columns { Some(c) => c, None => usize::MAX };
            let short = shorten(groups[g].label.as_str(), r);
            console.write_paint(Tone::Info, short.as_str(), out);
        },
        Row::Item(g, i, idx) => {
            let item = &groups[g].items[i];
            let selected = match cursor { Some(c) => c == idx, None => false };
            let label = shorten(item.label.as_str(), width);
            let padding = width.saturating_sub(display_width(label.as_str()));
            if selected { push_char(out, '›'); } else { push_char(out, ' '); }
            push_char(out, ' ');
            console.write_paint(if selected { Tone::Success } else { Tone::Info }, label.as_str(), out);
            let ghost before_desc = out@;
            match &item.description {
                None => {},
                Some(d) => {
                    let reserved = MARKER_WIDTH.saturating_add(width).saturating_add(GAP_WIDTH);
                    let r = room(columns, reserved);
                    if r >= MIN_DESCRIPTION {
                        push_repeat(out, ' ', padding);
                        push_repeat(out, ' ', 2);
                        let short = shorten(d.as_str(), r);
                        console.write_paint(Tone::Muted, short.as_str(), out);
                    }
                },
            }
            proof {
                assert(final(out)@ =~= start + row_line(*menu, console.spec_color(), row, cursor, width as nat, columns));
            }
        },
    }
}

impl Menu {
    /// Appends the body: the rows in the window and the scroll indicators.
    #[verifier::rlimit(80)]
    pub(crate) fn write_body(&self, out: &mut String, console: Console, rows: &Vec<Row>, cursor: Option<usize>,
        viewport: Option<Viewport>, view: MenuView)
        requires
            forall|k: int| 0 <= k < rows@.len() ==> row_valid(self.spec_groups(), #[trigger] rows@[k]),
        ensures
            final(out)@ == old(out)@ + body_block(*self, console.spec_color(), rows@, cursor, viewport, view.model()),
    {
        let ghost start = out@;
        let ghost color = console.spec_color();
        proof { reveal(body_block); }
        let ghost vm = view.model();
        assert(vm.query is Some <==> view.query is Some);
        let columns = match viewport { Some(vp) => vp.width, None => None };
        let width = {
            let lw = self.label_width();
            let r = room(columns, MARKER_WIDTH);
            if lw < r { lw } else { r }
        };
        let (s, e) = match viewport {
            Some(vp) => vp.window(rows.len()),
            None => (0, rows.len()),
        };
        proof {
            match viewport { Some(vp) => { law_window_nonempty(vp, rows@.len()); }, None => {} }
            assert(width as nat == column_width(*self, columns));
            assert((s as nat, e as nat) == frame_window(viewport, rows@.len()));
        }
        if s > 0 {
            write_more(out, console, true, s);
        }
        let ghost lead = out@;
        write_row_lines(out, console, self, rows, cursor, width, columns, s, e);
        let ghost after_rows = out@;
        if rows.len() == 0 && view.query.is_some() {
            console.write_paint(Tone::Muted, "  no matches", out);
            push_char(out, '\n');
        }
        let ghost after_none = out@;
        if rows.len() > e {
            write_more(out, console, false, rows.len() - e);
        }
        proof {
            assert(lead =~= start + (if s > 0 { more_line(color, true, s as nat) } else { Seq::empty() }));
            assert(after_none =~= after_rows + (if rows@.len() == 0 && view.query is Some { painted(color, Tone::Muted, "  no matches"@) + seq!['\n'] } else { Seq::empty() }));
            let a = if s > 0 { more_line(color, true, s as nat) } else { Seq::empty() };
            let b = row_lines(*self, color, rows@, cursor, width as nat, columns, s as int, e as int);
            let c = if rows@.len() == 0 && vm.query is Some { painted(color, Tone::Muted, "  no matches"@) + seq!['\n'] } else { Seq::empty() };
            let d = if rows@.len() > e { more_line(color, false, (rows@.len() - e) as nat) } else { Seq::empty() };
            assert(body_block(*self, color, rows@, cursor, viewport, vm) == a + b + c + d);
            assert(final(out)@ =~= start + (a + b + c + d));
        }
    }
}


/// Whether a frame advertises the filter: only one driven by a keyboard
/// (it has a cursor), and only for a menu long enough to need it.
pub open spec fn offers_search(menu: Menu, cursor: Option<usize>) -> bool {
    cursor is Some && menu.spec_items().len() > SEARCH_WORTH_MENTIONING
}

/// The keys the footer offers, in the order they are shown: the group keys
/// while tabs show, the filter where advertised, then the menu's hints.
pub open spec fn footer_keys_spec(menu: Menu, view: ViewModel, cursor: Option<usize>) -> Seq<(Seq<char>, Seq<char>)> {
    (if menu.spec_active_tab(view) is Some { seq![(seq!['←', '→'], "group"@)] } else { Seq::empty() })
        + (if offers_search(menu, cursor) { seq![(seq!['/'], "search"@)] } else { Seq::empty() })
        + Seq::new(menu.spec_hints().len(), |k: int| (seq![menu.spec_hints()[k].key], menu.spec_hints()[k].label@))
}

/// Each footer key's width: the key, a space, and its label.
pub open spec fn footer_ws(keys: Seq<(Seq<char>, Seq<char>)>) -> Seq<usize> {
    Seq::new(keys.len(), |k: int| crate::text::sat((str_width(keys[k].0) + 1 + str_width(keys[k].1)) as int) as usize)
}

/// The footer keys `a..b` on one line.
pub open spec fn footer_line_text(color: bool, keys: Seq<(Seq<char>, Seq<char>)>, a: int, b: int) -> Seq<char>
    decreases b - a,
{
    if b <= a {
        Seq::empty()
    } else {
        let j = b - 1;
        footer_line_text(color, keys, a, j)
            + (if j > a { repeat(' ', FOOTER_GAP as nat) } else { Seq::empty() })
            + painted(color, Tone::Success, keys[j].0) + seq![' '] + painted(color, Tone::Muted, keys[j].1)
    }
}

/// The footer's lines, each ended by a newline.
pub open spec fn footer_text(color: bool, keys: Seq<(Seq<char>, Seq<char>)>, lines: Seq<(usize, usize)>) -> Seq<char>
    decreases lines.len(),
{
    if lines.len() == 0 {
        Seq::empty()
    } else {
        footer_text(color, keys, lines.drop_last())
            + footer_line_text(color, keys, lines.last().0 as int, lines.last().1 as int) + seq!['\n']
    }
}

/// What ends the frame: while searching, the query line; otherwise the
/// footer's keys, broken into lines that fit.
#[verifier::opaque]
pub open spec fn frame_tail(menu: Menu, color: bool, view: ViewModel, cursor: Option<usize>, columns: Option<usize>) -> Seq<char> {
    match view.query {
        Some(q) => seq!['\n'] + painted(color, Tone::Success, seq!['/']) + seq![' ']
            + (if q.len() == 0 {
                painted(color, Tone::Muted, shortened("type to filter"@, room_of(columns, 2)))
            } else {
                painted(color, Tone::Title, shortened(q, room_of(columns, 2)))
            })
            + seq!['\n'],
        None => {
            let keys = footer_keys_spec(menu, view, cursor);
            if keys.len() == 0 {
                Seq::empty()
            } else {
                seq!['\n'] + footer_text(color, keys, footer_lines_spec(footer_ws(keys), columns))
            }
        },
    }
}

impl Menu {
    /// The keys the footer offers, in the order they are shown.
    ///
    /// `/` is reserved for the filter and cannot be bound as a hint, so
    /// nothing else can advertise it. A key the menu answers to but never
    /// mentions is a key nobody presses.
    pub(crate) fn footer_keys(&self, view: MenuView, cursor: Option<usize>) -> (keys: Vec<(String, String)>)
        ensures
            keys@.len() == footer_keys_spec(*self, view.model(), cursor).len(),
            forall|k: int| 0 <= k < keys@.len() ==>
                ((#[trigger] keys@[k]).0@, keys@[k].1@) == footer_keys_spec(*self, view.model(), cursor)[k],
    {
        let ghost spec = footer_keys_spec(*self, view.model(), cursor);
        let mut keys: Vec<(String, String)> = Vec::new();
        proof { reveal_strlit("←→"); assert("←→"@ =~= seq!['←', '→']); reveal_strlit("/"); assert("/"@ =~= seq!['/']); }
        if self.active_tab(view).is_some() {
            keys.push((owned("←→"), owned("group")));
        }
        if self.offers_search(cursor) {
            keys.push((owned("/"), owned("search")));
        }
        let ghost lead = keys@.len();
        let hints = self.hints();
        let mut k: usize = 0;
        while k < hints.len()
            invariant
                hints@ == self.spec_hints(),
                spec == footer_keys_spec(*self, view.model(), cursor),
                k <= hints@.len(),
                lead + hints@.len() == spec.len(),
                keys@.len() == lead + k,
                forall|m: int| 0 <= m < keys@.len() ==> ((#[trigger] keys@[m]).0@, keys@[m].1@) == spec[m],
            decreases hints@.len() - k,
        {
            let mut key = String::new();
            push_char(&mut key, hints[k].key);
            keys.push((key, hints[k].label.clone()));
            k = k + 1;
        }
        keys
    }

    /// Whether this frame should advertise the filter.
    ///
    /// A cursor means the menu is being driven from a keyboard; `render`
    /// passes none, and offering a key to a pipe would be a lie. Short menus
    /// do not advertise it, though filtering still works.
    pub(crate) fn offers_search(&self, cursor: Option<usize>) -> (r: bool)
        ensures
            r == offers_search(*self, cursor),
    {
        cursor.is_some() && self.len() > SEARCH_WORTH_MENTIONING
    }
}

/// Appends footer keys `a..b` on one line.
fn write_footer_line(out: &mut String, console: Console, keys: &Vec<(String, String)>, a: usize, b: usize)
    requires
        a <= b <= keys@.len(),
    ensures
        final(out)@ == old(out)@ + footer_line_text(console.spec_color(),
            Seq::new(keys@.len(), |k: int| (keys@[k].0@, keys@[k].1@)), a as int, b as int),
{
    let ghost ks = Seq::new(keys@.len(), |k: int| (keys@[k].0@, keys@[k].1@));
    let ghost lead = out@;
    let mut j = a;
    while j < b
        invariant
            a <= j <= b <= keys@.len(),
            ks == Seq::new(keys@.len(), |k: int| (keys@[k].0@, keys@[k].1@)),
            out@ == lead + footer_line_text(console.spec_color(), ks, a as int, j as int),
        decreases b - j,
    {
        let ghost before = out@;
        if j > a {
            push_repeat(out, ' ', FOOTER_GAP);
        }
        console.write_paint(Tone::Success, keys[j].0.as_str(), out);
        push_char(out, ' ');
        console.write_paint(Tone::Muted, keys[j].1.as_str(), out);
        proof {
            assert(out@ =~= before + (if j > a { repeat(' ', FOOTER_GAP as nat) } else { Seq::empty() })
                + painted(console.spec_color(), Tone::Success, ks[j as int].0) + seq![' ']
                + painted(console.spec_color(), Tone::Muted, ks[j as int].1));
        }
        j = j + 1;
    }
}

/// Each footer key's width: the key, a space, and its label.
fn footer_widths(keys: &Vec<(String, String)>) -> (ws: Vec<usize>)
    ensures
        ws@ == footer_ws(Seq::new(keys@.len(), |k: int| (keys@[k].0@, keys@[k].1@))),
{
    let ghost ks = Seq::new(keys@.len(), |k: int| (keys@[k].0@, keys@[k].1@));
    let mut ws: Vec<usize> = Vec::new();
    let mut k: usize = 0;
    while k < keys.len()
        invariant
            k <= keys@.len(),
            ks == Seq::new(keys@.len(), |k: int| (keys@[k].0@, keys@[k].1@)),
            ws@ =~= footer_ws(ks).take(k as int),
        decreases keys@.len() - k,
    {
        let w = display_width(keys[k].0.as_str()).saturating_add(1).saturating_add(display_width(keys[k].1.as_str()));
        ws.push(w);
        k = k + 1;
    }
    proof { assert(ws@ =~= footer_ws(ks)); }
    ws
}

impl Menu {
    /// Appends the query line or the footer.
    #[verifier::rlimit(40)]
    pub(crate) fn write_tail(&self, out: &mut String, console: Console, view: MenuView, cursor: Option<usize>,
        columns: Option<usize>)
        ensures
            final(out)@ == old(out)@ + frame_tail(*self, console.spec_color(), view.model(), cursor, columns),
    {
        let ghost start = out@;
        let ghost color = console.spec_color();
        proof { reveal(frame_tail); }
        match view.query {
            Some(q) => {
                proof { reveal_strlit("/"); assert("/"@ =~= seq!['/']); }
                push_char(out, '\n');
                console.write_paint(Tone::Success, "/", out);
                push_char(out, ' ');
                let r = room(columns, 2);
                let ghost mid = out@;
                if q.is_empty() {
                    let short = shorten("type to filter", r);
                    console.write_paint(Tone::Muted, short.as_str(), out);
                } else {
                    let short = shorten(q, r);
                    console.write_paint(Tone::Title, short.as_str(), out);
                }
                push_char(out, '\n');
                proof { assert(final(out)@ =~= start + frame_tail(*self, color, view.model(), cursor, columns)); }
            },
            None => {
                let keys = self.footer_keys(view, cursor);
                let ghost ks = Seq::new(keys@.len(), |k: int| (keys@[k].0@, keys@[k].1@));
                proof { assert(ks =~= footer_keys_spec(*self, view.model(), cursor)); }
                if keys.len() > 0 {
                    let ws = footer_widths(&keys);
                    let lines = footer_lines(&ws, columns);
                    proof { super::layout::law_footer_lines_partition(ws@, columns); }
                    push_char(out, '\n');
                    let ghost lead = out@;
                    let mut i: usize = 0;
                    while i < lines.len()
                        invariant
                            i <= lines@.len(),
                            lines@ == footer_lines_spec(ws@, columns),
                            forall|m: int| 0 <= m < lines@.len() ==> (#[trigger] lines@[m]).0 < lines@[m].1 <= ws@.len(),
                            ws@.len() == keys@.len(),
                            ks == Seq::new(keys@.len(), |k: int| (keys@[k].0@, keys@[k].1@)),
                            out@ == lead + footer_text(color, ks, lines@.take(i as int)),
                            color == console.spec_color(),
                        decreases lines@.len() - i,
                    {
                        let (a, b) = lines[i];
                        write_footer_line(out, console, &keys, a, b);
                        push_char(out, '\n');
                        proof {
                            assert(lines@.take(i as int + 1).drop_last() =~= lines@.take(i as int));
                        }
                        i = i + 1;
                    }
                    proof {
                        assert(lines@.take(i as int) =~= lines@);
                        assert(final(out)@ =~= start + frame_tail(*self, color, view.model(), cursor, columns));
                    }
                } else {
                    proof { assert(final(out)@ =~= start + frame_tail(*self, color, view.model(), cursor, columns)); }
                }
            },
        }
    }
}


/// The whole frame: heading block, tab row while a tab shows, the body, and
/// the query line or the footer.
pub open spec fn frame_text(menu: Menu, color: bool, cursor: Option<usize>, viewport: Option<Viewport>,
    view: ViewModel, rows: Seq<Row>) -> Seq<char>
{
    let columns = vp_columns(viewport);
    heading_block(menu, color, columns)
        + (match menu.spec_active_tab(view) {
            Some(a) => tab_row(menu, color, a as nat, columns),
            None => Seq::empty(),
        })
        + body_block(menu, color, rows, cursor, viewport, view)
        + frame_tail(menu, color, view, cursor, columns)
}

/// Lines the menu spends on anything but the body: the heading block, the
/// tab row and its rule, and the query line or the footer.
pub open spec fn chrome_height_spec(menu: Menu, view: ViewModel, columns: Option<usize>) -> nat {
    let lines: nat = (if menu.spec_heading() is Some { 1nat } else { 0 }) + (if menu.spec_summary() is Some { 1nat } else { 0 });
    let heading: nat = if lines > 0 { lines + 1 } else { 0 };
    let tabs: nat = if menu.spec_active_tab(view) is Some { 2 } else { 0 };
    let footer: nat = if view.query is Some {
        2
    } else {
        let keys = footer_keys_spec(menu, view, Some(0));
        if keys.len() == 0 { 0 } else { crate::text::sat((1 + footer_lines_spec(footer_ws(keys), columns).len()) as int) as nat }
    };
    crate::text::sat((heading + tabs + footer) as int) as nat
}

impl Menu {
    /// Writes the menu, marking `cursor` when one is given.
    ///
    /// `viewport` limits the body to a window, for a terminal that cannot
    /// show every entry. Without it the whole menu is written — which is what
    /// a pipe or a file wants, neither having a height to run out of.
    pub fn write_frame(&self, out: &mut String, console: Console, cursor: Option<usize>,
        viewport: Option<Viewport>, view: MenuView)
        ensures
            exists|rows: Seq<Row>| self.spec_body_rows(view.model(), rows)
                && (forall|k: int| 0 <= k < rows.len() ==> row_valid(self.spec_groups(), #[trigger] rows[k]))
                && final(out)@ == old(out)@ + #[trigger] frame_text(*self, console.spec_color(), cursor, viewport, view.model(), rows),
    {
        let rows = self.body_rows(view);
        self.write_frame_rows(out, console, cursor, viewport, view, &rows);
        assert(self.spec_body_rows(view.model(), rows@)
            && (forall|k: int| 0 <= k < rows@.len() ==> row_valid(self.spec_groups(), #[trigger] rows@[k]))
            && final(out)@ == old(out)@ + frame_text(*self, console.spec_color(), cursor, viewport, view.model(), rows@));
    }

    /// Writes the frame over body rows already computed.
    fn write_frame_rows(&self, out: &mut String, console: Console, cursor: Option<usize>,
        viewport: Option<Viewport>, view: MenuView, rows: &Vec<Row>)
        requires
            forall|k: int| 0 <= k < rows@.len() ==> row_valid(self.spec_groups(), #[trigger] rows@[k]),
        ensures
            final(out)@ == old(out)@ + frame_text(*self, console.spec_color(), cursor, viewport, view.model(), rows@),
    {
        let ghost start = out@;
        let columns = match viewport { Some(vp) => vp.width, None => None };
        self.write_heading(out, console, columns);
        let ghost after_heading = out@;
        match self.active_tab(view) {
            Some(active) => { self.write_tabs(out, console, active, columns); },
            None => {},
        }
        let ghost after_tabs = out@;
        self.write_body(out, console, rows, cursor, viewport, view);
        let ghost after_body = out@;
        self.write_tail(out, console, view, cursor, columns);
        proof {
            let c = console.spec_color();
            let a = heading_block(*self, c, columns);
            let b = match self.spec_active_tab(view.model()) {
                Some(t) => tab_row(*self, c, t as nat, columns),
                None => Seq::empty(),
            };
            let d = body_block(*self, c, rows@, cursor, viewport, view.model());
            let e = frame_tail(*self, c, view.model(), cursor, columns);
            assert(after_tabs =~= after_heading + b);
            assert(frame_text(*self, c, cursor, viewport, view.model(), rows@) == a + b + d + e);
            assert(final(out)@ =~= start + (a + b + d + e));
        }
    }

    /// Renders the menu as plain text, with no cursor and no terminal
    /// control: every group listed, no window, no keys offered.
    ///
    /// This is what a non-interactive caller shows.
    pub fn render(&self, console: Console) -> (s: String)
        ensures
            s@ == frame_text(*self, console.spec_color(), None, None, MenuView::flat_spec().model(),
                self.spec_listed_rows(MenuView::flat_spec().model())),
    {
        let mut s = String::new();
        self.write_frame(&mut s, console, None, None, MenuView::flat());
        assert(s@ =~= frame_text(*self, console.spec_color(), None, None, MenuView::flat_spec().model(),
            self.spec_listed_rows(MenuView::flat_spec().model())));
        s
    }

    /// Plain, uncoloured rendering: what the menu displays as.
    pub fn to_display_string(&self) -> (s: String)
        ensures
            s@ == frame_text(*self, false, None, None, MenuView::flat_spec().model(),
                self.spec_listed_rows(MenuView::flat_spec().model())),
    {
        self.render(Console::new(crate::color::ColorMode::Never, false, true))
    }

    /// The items a view shows, in the order they are drawn.
    pub fn matching_items(&self, view: MenuView) -> (items: Vec<&Item>)
        ensures
            self.spec_shown_items(view.model()) == items@.map_values(|i: &Item| *i),
    {
        let rows = self.body_rows(view);
        let groups = self.groups();
        let mut items: Vec<&Item> = Vec::new();
        let mut k: usize = 0;
        while k < rows.len()
            invariant
                k <= rows@.len(),
                self.spec_body_rows(view.model(), rows@),
                groups@ == self.spec_groups(),
                forall|m: int| 0 <= m < rows@.len() ==> row_valid(self.spec_groups(), #[trigger] rows@[m]),
                row_items(self.spec_groups(), rows@.take(k as int)) =~= items@.map_values(|i: &Item| *i),
            decreases rows@.len() - k,
        {
            proof { assert(rows@.take(k as int + 1).drop_last() =~= rows@.take(k as int)); }
            match rows[k] {
                Row::Item(g, i, _) => { items.push(&groups[g].items[i]); },
                Row::Group(_) => {},
            }
            k = k + 1;
        }
        proof { assert(rows@.take(k as int) =~= rows@); }
        proof { lemma_shown_rows(*self, view.model(), rows@); }
        items
    }

    /// The body row showing item `index`, for keeping the cursor in view.
    pub fn row_of_item(&self, index: usize, view: MenuView) -> (r: usize)
        ensures
            r == row_of_index(self.spec_shown_rows(view.model()), index),
    {
        let rows = self.body_rows(view);
        let mut k: usize = 0;
        while k < rows.len()
            invariant
                k <= rows@.len(),
                self.spec_body_rows(view.model(), rows@),
                row_of_index(rows@, index) == row_of_index_from(rows@, index, k as nat),
            decreases rows@.len() - k,
        {
            match rows[k] {
                Row::Item(_, _, x) => {
                    if x == index {
                        proof { lemma_shown_rows(*self, view.model(), rows@); }
                        return k;
                    }
                },
                Row::Group(_) => {},
            }
            k = k + 1;
        }
        proof { lemma_shown_rows(*self, view.model(), rows@); }
        0
    }

    /// Body rows in total, for sizing a viewport: the `no matches` line
    /// occupies the body when a search leaves nothing.
    pub fn body_height(&self, view: MenuView) -> (h: usize)
        ensures
            h as nat == body_height_of(self.spec_shown_rows(view.model()), view.model()),
    {
        let rows = self.body_rows(view);
        let searching: usize = if view.query.is_some() { 1 } else { 0 };
        let h = if rows.len() > searching { rows.len() } else { searching };
        proof { lemma_shown_rows(*self, view.model(), rows@); }
        h
    }

    /// Lines the menu spends on anything but the body.
    pub fn chrome_height(&self, view: MenuView, columns: Option<usize>) -> (h: usize)
        ensures
            h as nat == chrome_height_spec(*self, view.model(), columns),
    {
        let lines: usize = (if self.heading().is_some() { 1 } else { 0 }) + (if self.summary().is_some() { 1 } else { 0 });
        let heading = if lines > 0 { lines + 1 } else { 0 };
        let tabs: usize = if self.active_tab(view).is_some() { 2 } else { 0 };
        let footer: usize = if view.query.is_some() {
            2
        } else {
            let keys = self.footer_keys(view, Some(0));
            let ghost ks = Seq::new(keys@.len(), |k: int| (keys@[k].0@, keys@[k].1@));
            proof { assert(ks =~= footer_keys_spec(*self, view.model(), Some(0))); }
            if keys.len() == 0 {
                0
            } else {
                let ws = footer_widths(&keys);
                let lines = footer_lines(&ws, columns);
                proof { super::layout::law_footer_lines_partition(ws@, columns); }
                assert(lines@.len() <= ws@.len()) by {
                    lemma_ranges_count(lines@, 0, ws@.len());
                };
                lines.len().saturating_add(1)
            }
        };
        heading.saturating_add(tabs).saturating_add(footer)
    }
}

impl Menu {
    /// The body a view shows.
    pub open spec fn spec_shown_rows(self, view: ViewModel) -> Seq<Row> {
        choose|rows: Seq<Row>| self.spec_body_rows(view, rows)
    }

    /// The entries a view shows, in the order they are drawn.
    pub open spec fn spec_shown_items(self, view: ViewModel) -> Seq<Item> {
        row_items(self.spec_groups(), self.spec_shown_rows(view))
    }
}

/// Any body a view shows is the one it shows.
pub proof fn lemma_shown_rows(menu: Menu, view: ViewModel, rows: Seq<Row>)
    requires
        menu.spec_body_rows(view, rows),
    ensures
        menu.spec_shown_rows(view) == rows,
{
    let r = menu.spec_shown_rows(view);
    assert(menu.spec_body_rows(view, r));
    super::law_body_rows_unique(menu, view, r, rows);
}

/// The entries a list of rows shows, in order.
pub open spec fn row_items(groups: Seq<super::Group>, rows: Seq<Row>) -> Seq<Item>
    decreases rows.len(),
{
    if rows.len() == 0 {
        Seq::empty()
    } else {
        row_items(groups, rows.drop_last()) + match rows.last() {
            Row::Item(g, i, _) => seq![groups[g as int].items@[i as int]],
            Row::Group(_) => Seq::empty(),
        }
    }
}

/// The first row at or after `k` showing entry `index`, or zero.
pub open spec fn row_of_index_from(rows: Seq<Row>, index: usize, k: nat) -> nat
    decreases rows.len() - k,
{
    if k >= rows.len() {
        0
    } else if rows[k as int] matches Row::Item(_, _, x) && x == index {
        k
    } else {
        row_of_index_from(rows, index, k + 1)
    }
}

/// The row showing entry `index`, or zero when no row does.
pub open spec fn row_of_index(rows: Seq<Row>, index: usize) -> nat {
    row_of_index_from(rows, index, 0)
}

/// Body rows in total, counting the `no matches` line of an empty search.
pub open spec fn body_height_of(rows: Seq<Row>, view: ViewModel) -> nat {
    let searching: nat = if view.query is Some { 1 } else { 0 };
    if rows.len() > searching { rows.len() } else { searching }
}

/// Consecutive non-empty ranges from `lo` ending at most at `n` number at
/// most `n - lo`.
pub(crate) proof fn lemma_ranges_count(lines: Seq<(usize, usize)>, lo: nat, n: nat)
    requires
        lines.len() > 0,
        lines[0].0 == lo,
        forall|m: int| 0 <= m < lines.len() ==> (#[trigger] lines[m]).0 < lines[m].1 <= n,
        forall|m: int| 0 <= m < lines.len() ==> m + 1 < lines.len() ==> lines[m].1 == lines[m + 1].0,
    ensures
        lines.len() <= n - lo,
    decreases lines.len(),
{
    if lines.len() > 1 {
        let rest = lines.drop_first();
        assert(rest[0] == lines[1]);
        assert forall|m: int| 0 <= m < rest.len() implies (#[trigger] rest[m]).0 < rest[m].1 <= n by {
            assert(rest[m] == lines[m + 1]);
        }
        assert forall|m: int| 0 <= m < rest.len() && m + 1 < rest.len() implies rest[m].1 == rest[m + 1].0 by {
            assert(rest[m] == lines[m + 1]);
            assert(rest[m + 1] == lines[m + 2]);
        }
        lemma_ranges_count(rest, rest[0].0 as nat, n);
    }
}

} // verus!
