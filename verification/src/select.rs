//! Interactive selection from a grouped list.
//!
//! A [`Menu`] carries labels, descriptions and hints, and nothing about what
//! the entries mean. Grouping, ordering and wording stay with the
//! application. This module holds everything a menu decides: the tab row,
//! the search ranking, the scroll window, and the frame that is drawn. The
//! key handling lives in `interactive`; reading keys and drawing to a
//! terminal is the application's part.

use vstd::prelude::*;
use crate::text::{chars_of, owned, str_eq};
use crate::select::search::{Ranked, candidates, ranked_ok, ref_valid};

pub mod interactive;
pub mod frame;
pub mod height;
pub mod layout;
pub mod search;
pub mod terminal;

verus! {

/// Controls whether a menu takes over the terminal.
#[derive(Debug, Clone, Copy, PartialEq, Eq, Structural)]
#[non_exhaustive]
pub enum SelectMode {
    /// Interactive for a terminal, plain listing otherwise.
    Auto,
    /// Interactive even when the stream is not detected as a terminal.
    Always,
    /// Never interactive.
    Never,
}

impl Default for SelectMode {
    fn default() -> (m: Self)
        ensures
            m == SelectMode::Auto,
    {
        SelectMode::Auto
    }
}

/// Whether a selection mode takes over a stream.
pub open spec fn select_interactive(mode: SelectMode, is_terminal: bool) -> bool {
    match mode {
        SelectMode::Auto => is_terminal,
        SelectMode::Always => true,
        SelectMode::Never => false,
    }
}

impl SelectMode {
    /// Whether this mode should take over the terminal.
    pub fn is_interactive(self, is_terminal: bool) -> (r: bool)
        ensures
            r == select_interactive(self, is_terminal),
    {
        match self {
            SelectMode::Auto => is_terminal,
            SelectMode::Always => true,
            SelectMode::Never => false,
        }
    }
}

/// How a menu arranges its groups.
#[derive(Debug, Clone, Copy, PartialEq, Eq, Structural)]
#[non_exhaustive]
pub enum Layout {
    /// Every group under its own heading, one list.
    Flat,
    /// Groups as a row of tabs, with only the active one's entries below.
    ///
    /// Only the interactive path arranges itself this way. [`Menu::render`]
    /// lists every group, because nothing on the other end of a pipe can
    /// press a key to reach the second tab.
    Tabs,
}

impl Default for Layout {
    fn default() -> (l: Self)
        ensures
            l == Layout::Flat,
    {
        Layout::Flat
    }
}

/// One selectable entry.
#[derive(Debug, Clone)]
pub struct Item {
    /// Returned on selection. The application's own identifier.
    pub id: String,
    /// The text shown in the list.
    pub label: String,
    /// Optional second column.
    pub description: Option<String>,
}

impl Item {
    pub fn new(id: &str, label: &str) -> (item: Self)
        ensures
            item.id@ == id@,
            item.label@ == label@,
            item.description is None,
    {
        Item { id: owned(id), label: owned(label), description: None }
    }

    pub fn with_description(self, description: &str) -> (item: Self)
        ensures
            item.id == self.id,
            item.label == self.label,
            item.description matches Some(d) && d@ == description@,
    {
        Item { description: Some(owned(description)), ..self }
    }
}

/// A titled section of entries.
#[derive(Debug, Clone)]
pub struct Group {
    pub label: String,
    pub items: Vec<Item>,
    /// The tab this group shares with its neighbours, under [`Layout::Tabs`].
    ///
    /// Without one a group is its own tab. Consecutive groups naming the same
    /// tab collapse into it and keep their labels as headings inside it.
    pub tab: Option<String>,
    /// Whether the tab row draws a divider in front of this group's tab.
    pub divider: bool,
}

impl Group {
    pub fn new(label: &str) -> (g: Self)
        ensures
            g.label@ == label@,
            g.items@.len() == 0,
            g.tab is None,
            !g.divider,
    {
        Group { label: owned(label), items: Vec::new(), tab: None, divider: false }
    }

    pub fn add_item(self, item: Item) -> (g: Self)
        ensures
            g.label == self.label,
            g.items@ == self.items@.push(item),
            g.tab == self.tab,
            g.divider == self.divider,
    {
        let mut g = self;
        g.items.push(item);
        g
    }

    /// Puts this group in a shared tab rather than one of its own.
    pub fn in_tab(self, tab: &str) -> (g: Self)
        ensures
            g.label == self.label,
            g.items == self.items,
            g.tab matches Some(t) && t@ == tab@,
            g.divider == self.divider,
    {
        Group { tab: Some(owned(tab)), ..self }
    }

    /// Marks this group's tab as the start of a different kind of thing.
    pub fn with_divider(self) -> (g: Self)
        ensures
            g.label == self.label,
            g.items == self.items,
            g.tab == self.tab,
            g.divider,
    {
        Group { divider: true, ..self }
    }
}

/// A key shown in the footer, reported back when pressed.
#[derive(Debug, Clone)]
pub struct Hint {
    pub key: char,
    pub label: String,
}

impl Hint {
    pub fn new(key: char, label: &str) -> (h: Self)
        ensures
            h.key == key,
            h.label@ == label@,
    {
        Hint { key, label: owned(label) }
    }
}

/// What the user did.
#[derive(Debug, Clone, PartialEq, Eq)]
pub enum Outcome {
    /// An entry was chosen, carrying its [`Item::id`].
    Selected(String),
    /// A footer key was pressed.
    Hotkey(char),
    /// Escape, `q`, or `Ctrl-C`.
    Cancelled,
    /// The menu did not run, because the mode or the stream ruled it out.
    /// The caller decides what to show instead — often [`Menu::render`].
    Unavailable,
}

/// What a multi-pick run produced.
#[derive(Debug, Clone, PartialEq, Eq)]
pub enum Picked {
    /// The ids of the ticked entries, in display order.
    Chosen(Vec<String>),
    /// Escape, `q`, or `Ctrl-C`.
    Cancelled,
    /// The menu did not run.
    Unavailable,
}

/// Above this many entries, the filter is worth a line in the footer.
pub const SEARCH_WORTH_MENTIONING: usize = 5;
/// Columns the cursor marker and its trailing space occupy.
pub const MARKER_WIDTH: usize = 2;
/// Columns between the label column and the description.
pub const GAP_WIDTH: usize = 2;
/// Below this, a description says nothing and is left out instead.
pub const MIN_DESCRIPTION: usize = 12;
/// Columns between two tabs.
pub const TAB_GAP: usize = 3;
/// Columns between two keys in the footer.
pub const FOOTER_GAP: usize = 3;
/// What a dropped run of tabs costs to mark: the ellipsis and its gap.
pub const TAB_ELLIPSIS: usize = 1 + TAB_GAP;
/// What a divider between two tabs costs beyond the gap already there.
pub const TAB_DIVIDER: usize = 1 + TAB_GAP;
/// Tabs beyond this many have no digit left to select them.
pub const TAB_KEYS: usize = 9;

/// One tab: a run of groups `start..end` drawn as one entry of the tab row.
#[derive(Debug, Clone, Copy, PartialEq, Eq, Structural)]
pub struct Tab {
    pub start: usize,
    pub end: usize,
    pub divider: bool,
}

/// The name a group contributes to the tab row.
pub open spec fn tab_name(g: Group) -> Seq<char> {
    match g.tab {
        Some(t) => t@,
        None => g.label@,
    }
}

/// The tab row derived from `groups`: a group without a shared tab is its
/// own tab; consecutive groups naming the same tab collapse into it, and the
/// first of the run decides the divider.
pub open spec fn tabs_of(groups: Seq<Group>) -> Seq<Tab>
    decreases groups.len(),
{
    if groups.len() == 0 {
        Seq::empty()
    } else {
        let prev = tabs_of(groups.drop_last());
        let g = groups.last();
        let idx = (groups.len() - 1) as usize;
        if prev.len() > 0 && g.tab is Some && tab_name(groups[prev.last().start as int]) == tab_name(g) {
            prev.update(prev.len() - 1, Tab { end: (idx + 1) as usize, ..prev.last() })
        } else {
            prev.push(Tab { start: idx, end: (idx + 1) as usize, divider: g.divider })
        }
    }
}

/// Every item of `groups`, in display order.
pub open spec fn all_items(groups: Seq<Group>) -> Seq<Item>
    decreases groups.len(),
{
    if groups.len() == 0 {
        Seq::empty()
    } else {
        all_items(groups.drop_last()) + groups.last().items@
    }
}

/// What the body is showing: a search, a tab, or everything.
#[derive(Debug, Clone, Copy)]
pub struct MenuView<'a> {
    pub query: Option<&'a str>,
    /// The active tab, or `None` for the flat listing. A non-interactive
    /// caller always passes `None`: it cannot switch tabs, so it is shown
    /// every group.
    pub tab: Option<usize>,
}

/// What a view shows, as the contracts speak of it.
pub struct ViewModel {
    pub query: Option<Seq<char>>,
    pub tab: Option<usize>,
}

impl<'a> MenuView<'a> {
    /// The view as the contracts speak of it.
    pub open spec fn model(self) -> ViewModel {
        ViewModel {
            query: match self.query { Some(q) => Some(q@), None => None },
            tab: self.tab,
        }
    }

    /// The flat listing: every group, no search.
    pub open spec fn flat_spec() -> Self {
        MenuView { query: None, tab: None }
    }

    /// The flat listing: every group, no search.
    pub fn flat() -> (v: Self)
        ensures
            v == Self::flat_spec(),
    {
        MenuView { query: None, tab: None }
    }
}

/// A grouped list the user picks from.
#[derive(Debug, Clone)]
pub struct Menu {
    heading: Option<String>,
    /// Shown at the end of the heading line, for context such as a detected tool.
    note: Option<String>,
    /// A second heading line, for what the menu counted up.
    summary: Option<String>,
    groups: Vec<Group>,
    hints: Vec<Hint>,
    layout: Layout,
    /// Ids that start ticked when picking several entries.
    ticked: Vec<String>,
}

impl Menu {
    pub closed spec fn spec_heading(self) -> Option<String> { self.heading }
    pub closed spec fn spec_note(self) -> Option<String> { self.note }
    pub closed spec fn spec_summary(self) -> Option<String> { self.summary }
    pub closed spec fn spec_groups(self) -> Seq<Group> { self.groups@ }
    pub closed spec fn spec_hints(self) -> Seq<Hint> { self.hints@ }
    pub closed spec fn spec_layout(self) -> Layout { self.layout }
    pub closed spec fn spec_ticked(self) -> Seq<String> { self.ticked@ }

    /// Every item, in display order.
    pub open spec fn spec_items(self) -> Seq<Item> {
        all_items(self.spec_groups())
    }

    /// The tab row of this menu.
    pub open spec fn spec_tabs(self) -> Seq<Tab> {
        tabs_of(self.spec_groups())
    }

    pub fn new() -> (m: Self)
        ensures
            m.spec_heading() is None,
            m.spec_note() is None,
            m.spec_summary() is None,
            m.spec_groups().len() == 0,
            m.spec_hints().len() == 0,
            m.spec_layout() == Layout::Flat,
            m.spec_ticked().len() == 0,
    {
        Menu {
            heading: None,
            note: None,
            summary: None,
            groups: Vec::new(),
            hints: Vec::new(),
            layout: Layout::Flat,
            ticked: Vec::new(),
        }
    }

    pub fn with_heading(self, heading: &str) -> (m: Self)
        ensures
            m.spec_heading() matches Some(h) && h@ == heading@,
            m.spec_note() == self.spec_note(),
            m.spec_summary() == self.spec_summary(),
            m.spec_groups() == self.spec_groups(),
            m.spec_hints() == self.spec_hints(),
            m.spec_layout() == self.spec_layout(),
            m.spec_ticked() == self.spec_ticked(),
    {
        Menu { heading: Some(owned(heading)), ..self }
    }

    pub fn with_note(self, note: &str) -> (m: Self)
        ensures
            m.spec_heading() == self.spec_heading(),
            m.spec_note() matches Some(n) && n@ == note@,
            m.spec_summary() == self.spec_summary(),
            m.spec_groups() == self.spec_groups(),
            m.spec_hints() == self.spec_hints(),
            m.spec_layout() == self.spec_layout(),
            m.spec_ticked() == self.spec_ticked(),
    {
        Menu { note: Some(owned(note)), ..self }
    }

    /// A second heading line, under the first.
    pub fn with_summary(self, summary: &str) -> (m: Self)
        ensures
            m.spec_heading() == self.spec_heading(),
            m.spec_note() == self.spec_note(),
            m.spec_summary() matches Some(s) && s@ == summary@,
            m.spec_groups() == self.spec_groups(),
            m.spec_hints() == self.spec_hints(),
            m.spec_layout() == self.spec_layout(),
            m.spec_ticked() == self.spec_ticked(),
    {
        Menu { summary: Some(owned(summary)), ..self }
    }

    /// How the groups are arranged. See [`Layout`].
    pub fn with_layout(self, layout: Layout) -> (m: Self)
        ensures
            m.spec_heading() == self.spec_heading(),
            m.spec_note() == self.spec_note(),
            m.spec_summary() == self.spec_summary(),
            m.spec_groups() == self.spec_groups(),
            m.spec_hints() == self.spec_hints(),
            m.spec_layout() == layout,
            m.spec_ticked() == self.spec_ticked(),
    {
        Menu { layout, ..self }
    }

    /// Names entries, by id, that start ticked when picking several.
    pub fn with_ticked(self, ids: Vec<String>) -> (m: Self)
        ensures
            m.spec_heading() == self.spec_heading(),
            m.spec_note() == self.spec_note(),
            m.spec_summary() == self.spec_summary(),
            m.spec_groups() == self.spec_groups(),
            m.spec_hints() == self.spec_hints(),
            m.spec_layout() == self.spec_layout(),
            m.spec_ticked() == ids@,
    {
        Menu { ticked: ids, ..self }
    }

    pub fn add_group(self, group: Group) -> (m: Self)
        ensures
            m.spec_heading() == self.spec_heading(),
            m.spec_note() == self.spec_note(),
            m.spec_summary() == self.spec_summary(),
            m.spec_groups() == self.spec_groups().push(group),
            m.spec_hints() == self.spec_hints(),
            m.spec_layout() == self.spec_layout(),
            m.spec_ticked() == self.spec_ticked(),
    {
        let mut m = self;
        m.groups.push(group);
        m
    }

    pub fn add_hint(self, hint: Hint) -> (m: Self)
        ensures
            m.spec_heading() == self.spec_heading(),
            m.spec_note() == self.spec_note(),
            m.spec_summary() == self.spec_summary(),
            m.spec_groups() == self.spec_groups(),
            m.spec_hints() == self.spec_hints().push(hint),
            m.spec_layout() == self.spec_layout(),
            m.spec_ticked() == self.spec_ticked(),
    {
        let mut m = self;
        m.hints.push(hint);
        m
    }

    /// The groups, in order.
    pub fn groups(&self) -> (g: &Vec<Group>)
        ensures
            g@ == self.spec_groups(),
    {
        &self.groups
    }

    /// The footer hints, in order.
    pub fn hints(&self) -> (h: &Vec<Hint>)
        ensures
            h@ == self.spec_hints(),
    {
        &self.hints
    }

    /// The heading, for the frame.
    pub(crate) fn heading(&self) -> (h: &Option<String>)
        ensures
            *h == self.spec_heading(),
    {
        &self.heading
    }

    /// The note, for the frame.
    pub(crate) fn note(&self) -> (n: &Option<String>)
        ensures
            *n == self.spec_note(),
    {
        &self.note
    }

    /// The summary, for the frame.
    pub(crate) fn summary(&self) -> (s: &Option<String>)
        ensures
            *s == self.spec_summary(),
    {
        &self.summary
    }

    /// The entries named to start ticked.
    pub fn ticked(&self) -> (t: &Vec<String>)
        ensures
            t@ == self.spec_ticked(),
    {
        &self.ticked
    }

    /// Every item, in display order.
    pub fn items(&self) -> (v: Vec<&Item>)
        ensures
            v@.len() == self.spec_items().len(),
            forall|k: int| 0 <= k < v@.len() ==> *v@[k] == self.spec_items()[k],
    {
        flat_items(&self.groups)
    }

    /// The number of selectable entries.
    pub fn len(&self) -> (n: usize)
        ensures
            n as nat == self.spec_items().len(),
    {
        self.items().len()
    }

    pub fn is_empty(&self) -> (r: bool)
        ensures
            r == (self.spec_items().len() == 0),
    {
        self.len() == 0
    }

    /// The tab row, derived from the groups.
    pub fn tabs(&self) -> (t: Vec<Tab>)
        ensures
            t@ == self.spec_tabs(),
    {
        let mut tabs: Vec<Tab> = Vec::new();
        let mut g: usize = 0;
        while g < self.groups.len()
            invariant
                g <= self.groups@.len(),
                tabs@ == tabs_of(self.groups@.take(g as int)),
                forall|k: int| 0 <= k < tabs@.len() ==> (#[trigger] tabs@[k]).start < g,
            decreases self.groups@.len() - g,
        {
            let ghost prefix = self.groups@.take(g as int + 1);
            assert(prefix.drop_last() =~= self.groups@.take(g as int));
            assert(prefix.last() == self.groups@[g as int]);
            let group = &self.groups[g];
            let n = tabs.len();
            let joins = if n > 0 && group.tab.is_some() {
                let first = &self.groups[tabs[n - 1].start];
                assert(prefix[tabs@[n - 1].start as int] == first);
                str_eq(tab_label(first), tab_label(group))
            } else {
                false
            };
            if joins {
                let last = tabs[n - 1];
                tabs.set(n - 1, Tab { end: g + 1, ..last });
            } else {
                tabs.push(Tab { start: g, end: g + 1, divider: group.divider });
            }
            g = g + 1;
        }
        assert(self.groups@.take(g as int) =~= self.groups@);
        tabs
    }
}


/// One drawn line of the menu body: a group heading, or an entry with its
/// position among the selectable entries shown.
#[derive(Debug, Clone, Copy, PartialEq, Eq, Structural)]
pub enum Row {
    /// The heading of group `.0`.
    Group(usize),
    /// Entry `.1` of group `.0`, the `.2`-th selectable entry.
    Item(usize, usize, usize),
}

/// A row refers to a group, and an entry of it, that exist.
pub open spec fn row_valid(groups: Seq<Group>, row: Row) -> bool {
    match row {
        Row::Group(g) => g < groups.len(),
        Row::Item(g, i, _) => g < groups.len() && i < groups[g as int].items@.len(),
    }
}

/// The entries of groups `lo..hi`.
pub open spec fn items_between(groups: Seq<Group>, lo: int, hi: int) -> nat
    decreases hi - lo,
{
    if hi <= lo { 0 } else { items_between(groups, lo, hi - 1) + groups[hi - 1].items@.len() }
}

/// The rows of groups `lo..hi` listed in order, each under its heading,
/// except a heading equal to `omit` (the name of the tab showing them).
/// Entries are numbered from zero.
pub open spec fn listed_rows(groups: Seq<Group>, lo: int, hi: int, omit: Option<Seq<char>>) -> Seq<Row>
    decreases hi - lo,
{
    if hi <= lo {
        Seq::empty()
    } else {
        let g = hi - 1;
        let base = items_between(groups, lo, g);
        let heading = if omit == Some(groups[g].label@) { Seq::empty() } else { seq![Row::Group(g as usize)] };
        listed_rows(groups, lo, g, omit) + heading
            + Seq::new(groups[g].items@.len(), |i: int| Row::Item(g as usize, i as usize, (base + i) as usize))
    }
}

/// The rows of a search: matches in ranking order, each run of matches from
/// groups with the same label under one heading.
pub open spec fn searched_rows(groups: Seq<Group>, r: Seq<Ranked>) -> Seq<Row>
    decreases r.len(),
{
    if r.len() == 0 {
        Seq::empty()
    } else {
        let k = r.len() - 1;
        let heading = if k == 0 || groups[r[k - 1].group as int].label@ != groups[r[k].group as int].label@ {
            seq![Row::Group(r[k].group)]
        } else {
            Seq::empty()
        };
        searched_rows(groups, r.drop_last()) + heading + seq![Row::Item(r[k].group, r[k].item, k as usize)]
    }
}

/// The query a view searches for: none, or a non-empty one.
pub open spec fn effective_query(view: ViewModel) -> Option<Seq<char>> {
    match view.query {
        Some(q) => if q.len() > 0 { Some(q) } else { None },
        None => None,
    }
}

impl Menu {
    /// Which tab `view` is showing, or `None` for the flat listing: only a
    /// tabbed menu with two tabs or more, outside a search, shows one, and a
    /// tab index past the end is clamped to the last tab.
    pub open spec fn spec_active_tab(self, view: ViewModel) -> Option<usize> {
        let n = self.spec_tabs().len();
        if self.spec_layout() != Layout::Tabs || view.query is Some || n < 2 {
            None
        } else {
            match view.tab {
                None => None,
                Some(t) => Some(if t < n { t } else { (n - 1) as usize }),
            }
        }
    }

    /// The rows `view` shows when it is not searching.
    pub open spec fn spec_listed_rows(self, view: ViewModel) -> Seq<Row> {
        let groups = self.spec_groups();
        match self.spec_active_tab(view) {
            Some(a) => {
                let t = self.spec_tabs()[a as int];
                listed_rows(groups, t.start as int, t.end as int, Some(tab_name(groups[t.start as int])))
            },
            None => listed_rows(groups, 0, groups.len() as int, None),
        }
    }

    /// `rows` is the body `view` shows: with a non-empty query, the matches
    /// in ranking order; otherwise the active tab's groups, or every group.
    pub open spec fn spec_body_rows(self, view: ViewModel, rows: Seq<Row>) -> bool {
        let groups = self.spec_groups();
        match effective_query(view) {
            None => rows == self.spec_listed_rows(view),
            Some(q) => exists|r: Seq<Ranked>| ranked_ok(groups, candidates(groups, q), r) && rows == #[trigger] searched_rows(groups, r),
        }
    }

    /// Which tab `view` is showing, or `None` for the flat listing.
    ///
    /// A single group is no reason for a tab row: there is nothing to switch
    /// to, and the row would cost two lines to say what the heading says.
    pub fn active_tab(&self, view: MenuView) -> (r: Option<usize>)
        ensures
            r == self.spec_active_tab(view.model()),
    {
        if self.layout != Layout::Tabs || view.query.is_some() {
            return None;
        }
        let tabs = self.tabs().len();
        if tabs < 2 {
            return None;
        }
        match view.tab {
            None => None,
            Some(t) => Some(if t < tabs { t } else { tabs - 1 }),
        }
    }

    /// The body as a flat list of rows, so a viewport can window over it.
    ///
    /// With a query, only matching items appear, best first, and a group with
    /// nothing left disappears with them. Item indices are positions in that
    /// filtered order, which is what the cursor counts.
    pub fn body_rows(&self, view: MenuView) -> (rows: Vec<Row>)
        ensures
            self.spec_body_rows(view.model(), rows@),
            forall|k: int| 0 <= k < rows@.len() ==> row_valid(self.spec_groups(), #[trigger] rows@[k]),
    {
        // An empty query is not a search result: ranking it would sort the
        // menu alphabetically, which the grouping exists to avoid.
        let query = match view.query {
            Some(q) => if q.is_empty() { None } else { Some(q) },
            None => None,
        };
        match query {
            None => {
                assert(effective_query(view.model()) is None);
                match self.active_tab(view) {
                    Some(active) => {
                        let tabs = self.tabs();
                        let tab = tabs[active];
                        let _n = self.groups.len();
                        proof { lemma_tabs_valid(self.groups@); }
                        let name = tab_label(&self.groups[tab.start]);
                        let rows = listed(&self.groups, tab.start, tab.end, Some(name));
                        assert(rows@ == self.spec_listed_rows(view.model()));
                        assert(self.spec_body_rows(view.model(), rows@));
                        rows
                    },
                    None => {
                        let rows = listed(&self.groups, 0, self.groups.len(), None);
                        assert(rows@ == listed_rows(self.groups@, 0, self.groups@.len() as int, None));
                        assert(rows@ == self.spec_listed_rows(view.model()));
                        assert(self.spec_body_rows(view.model(), rows@));
                        rows
                    },
                }
            },
            Some(q) => {
                let qv = chars_of(q);
                let cands = search::collect_candidates(&self.groups, &qv);
                let ranked = search::rank(&self.groups, &cands);
                let rows = searched(&self.groups, &ranked);
                assert(effective_query(view.model()) == Some(qv@));
                assert(ranked_ok(self.spec_groups(), candidates(self.spec_groups(), qv@), ranked@)
                    && rows@ == searched_rows(self.spec_groups(), ranked@));
                rows
            },
        }
    }
}

/// The rows of groups `lo..hi`, as `listed_rows` describes them.
fn listed(groups: &Vec<Group>, lo: usize, hi: usize, omit: Option<&str>) -> (rows: Vec<Row>)
    requires
        lo <= hi <= groups@.len(),
    ensures
        rows@ == listed_rows(groups@, lo as int, hi as int, match omit { Some(o) => Some(o@), None => None }),
        forall|k: int| 0 <= k < rows@.len() ==> row_valid(groups@, #[trigger] rows@[k]),
{
    let ghost om = match omit { Some(o) => Some(o@), None => None };
    let total = flat_items(groups).len();
    let mut rows: Vec<Row> = Vec::new();
    let mut g = lo;
    let mut index: usize = 0;
    while g < hi
        invariant
            lo <= g <= hi <= groups@.len(),
            all_items(groups@).len() <= usize::MAX,
            om == (match omit { Some(o) => Some(o@), None => None }),
            index as nat == items_between(groups@, lo as int, g as int),
            rows@ == listed_rows(groups@, lo as int, g as int, om),
            forall|k: int| 0 <= k < rows@.len() ==> row_valid(groups@, #[trigger] rows@[k]),
        decreases hi - g,
    {
        let group = &groups[g];
        let heading = match omit {
            Some(o) => !str_eq(group.label.as_str(), o),
            None => true,
        };
        if heading {
            rows.push(Row::Group(g));
        }
        let ghost mid = rows@;
        let mut i: usize = 0;
        while i < group.items.len()
            invariant
                lo <= g < hi <= groups@.len(),
                group == groups@[g as int],
                all_items(groups@).len() <= usize::MAX,
                i <= group.items@.len(),
                index as nat == items_between(groups@, lo as int, g as int) + i,
                rows@ == mid + Seq::new(i as nat, |m: int| Row::Item(g, m as usize, (items_between(groups@, lo as int, g as int) + m) as usize)),
                forall|k: int| 0 <= k < rows@.len() ==> row_valid(groups@, #[trigger] rows@[k]),
            decreases group.items@.len() - i,
        {
            proof { lemma_items_between_bound(groups@, lo as int, g as int, i as int); }
            rows.push(Row::Item(g, i, index));
            index = index + 1;
            i = i + 1;
            proof {
                assert(rows@ =~= mid + Seq::new(i as nat, |m: int| Row::Item(g, m as usize, (items_between(groups@, lo as int, g as int) + m) as usize)));
            }
        }
        proof {
            let gi = g as int;
            let base = items_between(groups@, lo as int, gi);
            let hd = if om == Some(groups@[gi].label@) { Seq::<Row>::empty() } else { seq![Row::Group(g)] };
            assert(mid =~= listed_rows(groups@, lo as int, gi, om) + hd);
            assert(listed_rows(groups@, lo as int, gi + 1, om) == listed_rows(groups@, lo as int, gi, om) + hd
                + Seq::new(groups@[gi].items@.len(), |m: int| Row::Item(gi as usize, m as usize, (base + m) as usize)));
            assert(rows@ =~= listed_rows(groups@, lo as int, gi + 1, om));
        }
        g = g + 1;
    }
    rows
}

/// Entries of groups `lo..g` and the first `i` of group `g` fit a `usize`.
proof fn lemma_items_between_bound(groups: Seq<Group>, lo: int, g: int, i: int)
    requires
        0 <= lo <= g < groups.len(),
        0 <= i < groups[g].items@.len(),
        all_items(groups).len() <= usize::MAX,
    ensures
        items_between(groups, lo, g) + i < usize::MAX,
{
    lemma_items_between_le(groups, lo, g + 1);
    assert(items_between(groups, lo, g + 1) == items_between(groups, lo, g) + groups[g].items@.len());
}

/// Entries of groups `lo..hi` are among the entries of the menu.
proof fn lemma_items_between_le(groups: Seq<Group>, lo: int, hi: int)
    requires
        0 <= lo <= hi <= groups.len(),
    ensures
        items_between(groups, lo, hi) <= all_items(groups.take(hi)).len(),
        all_items(groups.take(hi)).len() <= all_items(groups).len(),
    decreases hi - lo,
{
    lemma_all_items_prefix(groups, hi);
    if lo < hi {
        lemma_items_between_le(groups, lo, hi - 1);
        assert(groups.take(hi).drop_last() =~= groups.take(hi - 1));
        assert(groups.take(hi).last() == groups[hi - 1]);
    }
}

/// The rows of a search, as `searched_rows` describes them.
fn searched(groups: &Vec<Group>, ranked: &Vec<Ranked>) -> (rows: Vec<Row>)
    requires
        forall|k: int| 0 <= k < ranked@.len() ==> ref_valid(groups@, #[trigger] ranked@[k]),
    ensures
        rows@ == searched_rows(groups@, ranked@),
        forall|k: int| 0 <= k < rows@.len() ==> row_valid(groups@, #[trigger] rows@[k]),
{
    let mut rows: Vec<Row> = Vec::new();
    let mut k: usize = 0;
    while k < ranked.len()
        invariant
            k <= ranked@.len(),
            forall|m: int| 0 <= m < ranked@.len() ==> ref_valid(groups@, #[trigger] ranked@[m]),
            rows@ == searched_rows(groups@, ranked@.take(k as int)),
            forall|m: int| 0 <= m < rows@.len() ==> row_valid(groups@, #[trigger] rows@[m]),
        decreases ranked@.len() - k,
    {
        let r = ranked[k];
        let ghost t = ranked@.take(k as int + 1);
        proof {
            assert(t.drop_last() =~= ranked@.take(k as int));
            assert(t[k as int] == r);
            if k > 0 {
                assert(t[k - 1] == ranked@[k - 1]);
            }
        }
        let heading = if k == 0 {
            true
        } else {
            let prev = ranked[k - 1];
            !str_eq(groups[prev.group].label.as_str(), groups[r.group].label.as_str())
        };
        if heading {
            rows.push(Row::Group(r.group));
        }
        rows.push(Row::Item(r.group, r.item, k));
        k = k + 1;
    }
    proof { assert(ranked@.take(ranked@.len() as int) =~= ranked@); }
    rows
}

/// What a view shows is determined by the menu and the view: the body is
/// the same whenever it is computed.
pub proof fn law_body_rows_unique(menu: Menu, view: ViewModel, a: Seq<Row>, b: Seq<Row>)
    requires
        menu.spec_body_rows(view, a),
        menu.spec_body_rows(view, b),
    ensures
        a == b,
{
    let groups = menu.spec_groups();
    match effective_query(view) {
        None => {},
        Some(q) => {
            let r1 = choose|r: Seq<Ranked>| ranked_ok(groups, candidates(groups, q), r) && a == #[trigger] searched_rows(groups, r);
            let r2 = choose|r: Seq<Ranked>| ranked_ok(groups, candidates(groups, q), r) && b == #[trigger] searched_rows(groups, r);
            search::law_ranking_unique(groups, candidates(groups, q), r1, r2);
        },
    }
}

/// The entry rows among `rows`.
pub open spec fn item_count(rows: Seq<Row>) -> nat
    decreases rows.len(),
{
    if rows.len() == 0 {
        0
    } else {
        item_count(rows.drop_last()) + (if rows.last() is Item { 1nat } else { 0 })
    }
}

/// Each entry row of `rows` carries its position among the entry rows,
/// counted from `base`.
pub open spec fn numbered_from(rows: Seq<Row>, base: int) -> bool {
    forall|k: int| 0 <= k < rows.len() ==> match #[trigger] rows[k] {
        Row::Item(_, _, idx) => idx == base + item_count(rows.take(k)),
        Row::Group(_) => true,
    }
}

pub(crate) proof fn lemma_item_count_concat(a: Seq<Row>, b: Seq<Row>)
    ensures
        item_count(a + b) == item_count(a) + item_count(b),
    decreases b.len(),
{
    if b.len() == 0 {
        assert(a + b =~= a);
    } else {
        lemma_item_count_concat(a, b.drop_last());
        assert((a + b).drop_last() =~= a + b.drop_last());
    }
}

pub(crate) proof fn lemma_item_count_single(r: Row)
    ensures
        item_count(seq![r]) == (if r is Item { 1nat } else { 0 }),
{
    let s = seq![r];
    assert(s.drop_last() =~= Seq::<Row>::empty());
    assert(item_count(s.drop_last()) == 0);
    assert(s.last() == r);
}

pub(crate) proof fn lemma_item_count_le(rows: Seq<Row>)
    ensures
        item_count(rows) <= rows.len(),
    decreases rows.len(),
{
    if rows.len() > 0 {
        lemma_item_count_le(rows.drop_last());
    }
}

proof fn lemma_numbered_concat(a: Seq<Row>, b: Seq<Row>, base: int)
    requires
        numbered_from(a, base),
        numbered_from(b, base + item_count(a)),
    ensures
        numbered_from(a + b, base),
{
    let c = a + b;
    assert forall|k: int| 0 <= k < c.len() implies match #[trigger] c[k] {
        Row::Item(_, _, idx) => idx == base + item_count(c.take(k)),
        Row::Group(_) => true,
    } by {
        if k < a.len() {
            assert(c[k] == a[k]);
            assert(c.take(k) =~= a.take(k));
        } else {
            let j = k - a.len();
            assert(c[k] == b[j]);
            assert(c.take(k) =~= a + b.take(j));
            lemma_item_count_concat(a, b.take(j));
        }
    }
}

/// The entries `base..base + n` of group `g`, numbered from `base`.
proof fn lemma_entry_run_numbered(g: usize, n: nat, base: int)
    requires
        0 <= base,
        base + n <= usize::MAX + 1,
    ensures
        numbered_from(Seq::new(n, |i: int| Row::Item(g, i as usize, (base + i) as usize)), base),
        item_count(Seq::new(n, |i: int| Row::Item(g, i as usize, (base + i) as usize))) == n,
    decreases n,
{
    let run = Seq::new(n, |i: int| Row::Item(g, i as usize, (base + i) as usize));
    if n > 0 {
        lemma_entry_run_numbered(g, (n - 1) as nat, base);
        let shorter = Seq::new((n - 1) as nat, |i: int| Row::Item(g, i as usize, (base + i) as usize));
        assert(run.drop_last() =~= shorter);
        assert forall|k: int| 0 <= k < run.len() implies match #[trigger] run[k] {
            Row::Item(_, _, idx) => idx == base + item_count(run.take(k)),
            Row::Group(_) => true,
        } by {
            if k < n - 1 {
                assert(run.take(k) =~= shorter.take(k));
                assert(run[k] == shorter[k]);
            } else {
                assert(run.take(k) =~= shorter);
            }
        }
    }
}

/// The rows of groups `lo..hi` number their entries in order, as many as
/// those groups hold.
proof fn lemma_listed_numbered(groups: Seq<Group>, lo: int, hi: int, omit: Option<Seq<char>>)
    requires
        0 <= lo <= hi <= groups.len(),
        all_items(groups).len() <= usize::MAX,
    ensures
        item_count(listed_rows(groups, lo, hi, omit)) == items_between(groups, lo, hi),
        numbered_from(listed_rows(groups, lo, hi, omit), 0),
    decreases hi - lo,
{
    if hi > lo {
        let g = hi - 1;
        lemma_listed_numbered(groups, lo, g, omit);
        let prev = listed_rows(groups, lo, g, omit);
        let base = items_between(groups, lo, g);
        let heading = if omit == Some(groups[g].label@) { Seq::<Row>::empty() } else { seq![Row::Group(g as usize)] };
        let n = groups[g].items@.len();
        let run = Seq::new(n, |i: int| Row::Item(g as usize, i as usize, (base as int + i) as usize));
        lemma_items_between_le(groups, lo, hi);
        assert(items_between(groups, lo, hi) == base + n);
        lemma_entry_run_numbered(g as usize, n, base as int);
        assert(item_count(heading) == 0) by {
            if heading.len() > 0 {
                lemma_item_count_single(heading[0]);
                assert(heading =~= seq![heading[0]]);
            } else {
                assert(heading =~= Seq::<Row>::empty());
            }
        }
        assert(numbered_from(heading, base as int));
        lemma_item_count_concat(prev, heading);
        lemma_numbered_concat(prev, heading, 0);
        lemma_item_count_concat(prev + heading, run);
        lemma_numbered_concat(prev + heading, run, 0);
        assert(listed_rows(groups, lo, hi, omit) =~= prev + heading + run);
    }
}

/// The rows of a search number their entries in ranking order.
proof fn lemma_searched_numbered(groups: Seq<Group>, r: Seq<Ranked>)
    ensures
        item_count(searched_rows(groups, r)) == r.len(),
        r.len() <= usize::MAX + 1 ==> numbered_from(searched_rows(groups, r), 0),
    decreases r.len(),
{
    if r.len() > 0 {
        let k = r.len() - 1;
        lemma_searched_numbered(groups, r.drop_last());
        let prev = searched_rows(groups, r.drop_last());
        let heading = if k == 0 || groups[r[k - 1].group as int].label@ != groups[r[k].group as int].label@ {
            seq![Row::Group(r[k].group)]
        } else {
            Seq::empty()
        };
        let last = seq![Row::Item(r[k].group, r[k].item, k as usize)];
        assert(searched_rows(groups, r) == prev + heading + last);
        assert(item_count(heading) == 0) by {
            if heading.len() > 0 {
                lemma_item_count_single(heading[0]);
                assert(heading =~= seq![heading[0]]);
            } else {
                assert(heading =~= Seq::<Row>::empty());
            }
        }
        lemma_item_count_single(Row::Item(r[k].group, r[k].item, k as usize));
        lemma_item_count_concat(prev, heading);
        lemma_item_count_concat(prev + heading, last);
        if r.len() <= usize::MAX + 1 {
            assert(numbered_from(heading, k));
            assert(last.take(0) =~= Seq::<Row>::empty());
            assert(numbered_from(last, k));
            lemma_numbered_concat(prev, heading, 0);
            lemma_numbered_concat(prev + heading, last, 0);
        }
    }
}

/// Every entry row a view shows carries its position among the entries
/// shown: the first entry is 0, the next 1, and so on, whatever headings
/// stand between them. That position is what the cursor counts.
pub proof fn law_entries_numbered_in_order(menu: Menu, view: ViewModel, rows: Seq<Row>)
    requires
        menu.spec_body_rows(view, rows),
        menu.spec_groups().len() <= usize::MAX,
        menu.spec_items().len() <= usize::MAX,
        rows.len() <= usize::MAX,
    ensures
        numbered_from(rows, 0),
{
    let groups = menu.spec_groups();
    match effective_query(view) {
        None => {
            match menu.spec_active_tab(view) {
                Some(a) => {
                    lemma_tabs_valid(groups);
                    let t = menu.spec_tabs()[a as int];
                    lemma_listed_numbered(groups, t.start as int, t.end as int, Some(tab_name(groups[t.start as int])));
                },
                None => {
                    lemma_listed_numbered(groups, 0, groups.len() as int, None);
                },
            }
        },
        Some(q) => {
            let r = choose|r: Seq<Ranked>| ranked_ok(groups, candidates(groups, q), r) && rows == #[trigger] searched_rows(groups, r);
            lemma_searched_numbered(groups, r);
            lemma_item_count_le(rows);
        },
    }
}

/// Numbered rows show every position below their entry count: for each
/// such position some entry row carries it.
pub proof fn lemma_numbered_covers(rows: Seq<Row>, c: nat)
    requires
        numbered_from(rows, 0),
        c < item_count(rows),
    ensures
        exists|k: int| 0 <= k < rows.len() && (#[trigger] rows[k] matches Row::Item(_, _, idx) && idx == c),
    decreases rows.len(),
{
    let init = rows.drop_last();
    assert(numbered_from(init, 0)) by {
        assert forall|k: int| 0 <= k < init.len() implies match #[trigger] init[k] {
            Row::Item(_, _, idx) => idx == 0 + item_count(init.take(k)),
            Row::Group(_) => true,
        } by {
            assert(init[k] == rows[k]);
            assert(init.take(k) =~= rows.take(k));
        }
    }
    if c < item_count(init) {
        lemma_numbered_covers(init, c);
        let k = choose|k: int| 0 <= k < init.len() && (#[trigger] init[k] matches Row::Item(_, _, idx) && idx == c);
        assert(rows[k] == init[k]);
    } else {
        let k = rows.len() - 1;
        assert(rows.take(k) =~= init);
        assert(rows[k] matches Row::Item(_, _, idx) && idx == c);
    }
}

/// Every tab spans a non-empty run of existing groups.
pub proof fn lemma_tabs_valid(groups: Seq<Group>)
    requires
        groups.len() <= usize::MAX,
    ensures
        forall|k: int| 0 <= k < tabs_of(groups).len() ==>
            (#[trigger] tabs_of(groups)[k]).start < tabs_of(groups)[k].end <= groups.len(),
    decreases groups.len(),
{
    if groups.len() > 0 {
        lemma_tabs_valid(groups.drop_last());
        let prev = tabs_of(groups.drop_last());
        let t = tabs_of(groups);
        let g = groups.last();
        let idx = (groups.len() - 1) as usize;
        if prev.len() > 0 && g.tab is Some && tab_name(groups[prev.last().start as int]) == tab_name(g) {
            let nt = Tab { end: (idx + 1) as usize, ..prev.last() };
            assert(t == prev.update(prev.len() - 1, nt));
            assert forall|k: int| 0 <= k < t.len() implies (#[trigger] t[k]).start < t[k].end <= groups.len() by {
                if k < prev.len() - 1 {
                    assert(t[k] == prev[k]);
                } else {
                    assert(t[k] == nt);
                    assert(prev[k].start < prev[k].end);
                }
            }
        } else {
            let nt = Tab { start: idx, end: (idx + 1) as usize, divider: g.divider };
            assert(t == prev.push(nt));
            assert forall|k: int| 0 <= k < t.len() implies (#[trigger] t[k]).start < t[k].end <= groups.len() by {
                if k < prev.len() {
                    assert(t[k] == prev[k]);
                } else {
                    assert(t[k] == nt);
                }
            }
        }
    }
}

/// Every item of `groups`, in display order.
pub fn flat_items(groups: &Vec<Group>) -> (v: Vec<&Item>)
    ensures
        v@.len() == all_items(groups@).len(),
        forall|k: int| 0 <= k < v@.len() ==> *v@[k] == all_items(groups@)[k],
{
    let mut v: Vec<&Item> = Vec::new();
    let mut g: usize = 0;
    while g < groups.len()
        invariant
            g <= groups@.len(),
            v@.len() == all_items(groups@.take(g as int)).len(),
            forall|k: int| 0 <= k < v@.len() ==> *v@[k] == all_items(groups@.take(g as int))[k],
        decreases groups@.len() - g,
    {
        let group = &groups[g];
        let ghost before = all_items(groups@.take(g as int));
        let mut i: usize = 0;
        while i < group.items.len()
            invariant
                i <= group.items@.len(),
                group == groups@[g as int],
                v@.len() == before.len() + i,
                forall|k: int| 0 <= k < v@.len() ==> *v@[k] == (before + group.items@.take(i as int))[k],
            decreases group.items@.len() - i,
        {
            v.push(&group.items[i]);
            i = i + 1;
        }
        assert(groups@.take(g as int + 1).drop_last() =~= groups@.take(g as int));
        assert(group.items@.take(i as int) =~= group.items@);
        g = g + 1;
    }
    assert(groups@.take(g as int) =~= groups@);
    v
}

/// A prefix of the groups holds no more entries than all of them.
pub proof fn lemma_all_items_prefix(groups: Seq<Group>, g: int)
    requires
        0 <= g <= groups.len(),
    ensures
        all_items(groups.take(g)).len() <= all_items(groups).len(),
    decreases groups.len() - g,
{
    if g < groups.len() {
        lemma_all_items_prefix(groups, g + 1);
        assert(groups.take(g + 1).drop_last() =~= groups.take(g));
    } else {
        assert(groups.take(g) =~= groups);
    }
}

/// The name a group contributes to the tab row.
pub fn tab_label(g: &Group) -> (s: &str)
    ensures
        s@ == tab_name(*g),
{
    match &g.tab {
        Some(t) => t.as_str(),
        None => g.label.as_str(),
    }
}

} // verus!
