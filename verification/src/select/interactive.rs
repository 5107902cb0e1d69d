//! Key handling: what a key does to the menu's state. Drawing the frame
//! and reading the key are the application's part of the loop; everything
//! it decides is here.

use vstd::prelude::*;
use crate::text::{chars_of, owned, push_char, str_eq};
use super::terminal::Key;
use super::frame::{Viewport, body_height_of, chrome_height_spec, row_of_index, row_of_index_from, window_spec};
use super::{Item, Menu, MenuView, Outcome, Picked, Row, SelectMode, ViewModel, select_interactive};

verus! {

/// Where the cursor is, what is being searched for, which tab shows, and
/// what is ticked.
#[derive(Debug, Clone)]
pub struct State {
    pub index: usize,
    /// `None` outside search mode; `Some("")` once `/` has been pressed.
    pub query: Option<String>,
    /// The tab being shown. Kept even while searching and while the menu has
    /// no tabs at all, so leaving the search returns to the group it left.
    pub tab: usize,
    /// The ticked entries by id, `None` when picking one. Ids rather than
    /// positions: a search reorders the list, and a tick has to survive it.
    pub checked: Option<Vec<String>>,
}

/// The ids held by a list of strings, as a set.
pub open spec fn id_set(v: Seq<String>) -> Set<Seq<char>> {
    Set::new(|x: Seq<char>| exists|k: int| 0 <= k < v.len() && (#[trigger] v[k])@ == x)
}

/// A state as the contracts speak of it.
pub struct StateModel {
    pub index: usize,
    pub query: Option<Seq<char>>,
    pub tab: usize,
    pub checked: Option<Set<Seq<char>>>,
}

impl StateModel {
    pub open spec fn at(self, index: usize) -> Self {
        StateModel { index, ..self }
    }

    /// Ticks `id` when it is not ticked, unticks it when it is.
    pub open spec fn toggled(self, id: Seq<char>) -> Self {
        match self.checked {
            None => self,
            Some(set) => StateModel {
                checked: Some(if set.contains(id) { set.remove(id) } else { set.insert(id) }),
                ..self
            },
        }
    }

    /// Changing the query resets the cursor: the best match is now first.
    pub open spec fn searching(self, query: Seq<char>) -> Self {
        StateModel { index: 0, query: Some(query), ..self }
    }

    /// Back to the list, on the tab the search was started from.
    pub open spec fn browsing(self) -> Self {
        StateModel { index: 0, query: None, ..self }
    }

    pub open spec fn on_tab(self, tab: usize) -> Self {
        StateModel { index: 0, tab, ..self }
    }

    /// What this state shows.
    pub open spec fn view(self) -> ViewModel {
        ViewModel { query: self.query, tab: Some(self.tab) }
    }
}

impl State {
    pub open spec fn model(self) -> StateModel {
        StateModel {
            index: self.index,
            query: match self.query { Some(q) => Some(q@), None => None },
            tab: self.tab,
            checked: match self.checked { Some(v) => Some(id_set(v@)), None => None },
        }
    }

    /// A state picking one entry, or ticking several starting from `ticked`.
    pub fn start(ticked: Option<Vec<String>>) -> (s: Self)
        ensures
            s.model() == (StateModel {
                index: 0,
                query: None,
                tab: 0,
                checked: match ticked { Some(v) => Some(id_set(v@)), None => None },
            }),
    {
        State { index: 0, query: None, tab: 0, checked: ticked }
    }

    /// What this state shows.
    pub fn view(&self) -> (v: MenuView<'_>)
        ensures
            v.model() == self.model().view(),
    {
        match &self.query {
            Some(q) => MenuView { query: Some(q.as_str()), tab: Some(self.tab) },
            None => MenuView { query: None, tab: Some(self.tab) },
        }
    }

    fn with(&self, index: usize, query: Option<String>, tab: usize) -> (s: Self)
        ensures
            s.index == index,
            s.query == query,
            s.tab == tab,
            s.model().checked == self.model().checked,
    {
        State { index, query, tab, checked: clone_ids(&self.checked) }
    }

    pub fn at(&self, index: usize) -> (s: Self)
        ensures
            s.model() == self.model().at(index),
    {
        self.with(index, clone_query(&self.query), self.tab)
    }

    pub fn searching(&self, query: String) -> (s: Self)
        ensures
            s.model() == self.model().searching(query@),
    {
        self.with(0, Some(query), self.tab)
    }

    pub fn browsing(&self) -> (s: Self)
        ensures
            s.model() == self.model().browsing(),
    {
        self.with(0, None, self.tab)
    }

    pub fn on_tab(&self, tab: usize) -> (s: Self)
        ensures
            s.model() == self.model().on_tab(tab),
    {
        self.with(0, clone_query(&self.query), tab)
    }

    pub fn toggled(&self, id: &str) -> (s: Self)
        ensures
            s.model() == self.model().toggled(id@),
    {
        let checked = match &self.checked {
            None => None,
            Some(v) => Some(toggle(v, id)),
        };
        State { index: self.index, query: clone_query(&self.query), tab: self.tab, checked }
    }
}

fn clone_query(q: &Option<String>) -> (r: Option<String>)
    ensures
        r == *q,
{
    match q {
        Some(s) => Some(s.clone()),
        None => None,
    }
}

fn clone_ids(c: &Option<Vec<String>>) -> (r: Option<Vec<String>>)
    ensures
        match *c { Some(v) => r matches Some(w) && id_set(w@) == id_set(v@), None => r is None },
{
    match c {
        None => None,
        Some(v) => {
            let mut w: Vec<String> = Vec::new();
            let mut k: usize = 0;
            while k < v.len()
                invariant
                    k <= v@.len(),
                    w@.len() == k,
                    forall|m: int| 0 <= m < k ==> (#[trigger] w@[m])@ == v@[m]@,
                decreases v@.len() - k,
            {
                w.push(v[k].clone());
                k = k + 1;
            }
            proof {
                assert(id_set(w@) =~= id_set(v@)) by {
                    assert forall|x: Seq<char>| id_set(w@).contains(x) implies id_set(v@).contains(x) by {
                        let m = choose|m: int| 0 <= m < w@.len() && (#[trigger] w@[m])@ == x;
                        assert(v@[m]@ == x);
                    }
                    assert forall|x: Seq<char>| id_set(v@).contains(x) implies id_set(w@).contains(x) by {
                        let m = choose|m: int| 0 <= m < v@.len() && (#[trigger] v@[m])@ == x;
                        assert(w@[m]@ == x);
                    }
                }
            }
            Some(w)
        },
    }
}

/// `v` without `id` when it holds it, with it added when it does not.
fn toggle(v: &Vec<String>, id: &str) -> (w: Vec<String>)
    ensures
        id_set(w@) == (if id_set(v@).contains(id@) { id_set(v@).remove(id@) } else { id_set(v@).insert(id@) }),
{
    let mut w: Vec<String> = Vec::new();
    let mut found = false;
    let mut k: usize = 0;
    while k < v.len()
        invariant
            k <= v@.len(),
            found == (exists|m: int| 0 <= m < k && (#[trigger] v@[m])@ == id@),
            forall|m: int| 0 <= m < w@.len() ==> (#[trigger] w@[m])@ != id@,
            forall|x: Seq<char>| x != id@ ==> (id_set(w@).contains(x) <==> id_set(v@.take(k as int)).contains(x)),
        decreases v@.len() - k,
    {
        let ghost before = w@;
        if str_eq(v[k].as_str(), id) {
            found = true;
        } else {
            w.push(v[k].clone());
        }
        proof {
            let t = v@.take(k as int + 1);
            assert forall|x: Seq<char>| x != id@ implies (id_set(w@).contains(x) <==> id_set(t).contains(x)) by {
                if id_set(t).contains(x) {
                    let m = choose|m: int| 0 <= m < t.len() && (#[trigger] t[m])@ == x;
                    if m < k {
                        assert(v@.take(k as int)[m] == t[m]);
                        assert(id_set(v@.take(k as int)).contains(x));
                        assert(id_set(before).contains(x));
                        let j = choose|j: int| 0 <= j < before.len() && (#[trigger] before[j])@ == x;
                        assert(w@[j] == before[j]);
                    } else {
                        assert(w@[w@.len() - 1]@ == x);
                    }
                }
                if id_set(w@).contains(x) {
                    let j = choose|j: int| 0 <= j < w@.len() && (#[trigger] w@[j])@ == x;
                    if j < before.len() {
                        assert(before[j] == w@[j]);
                        assert(id_set(before).contains(x));
                        let m = choose|m: int| 0 <= m < k && (#[trigger] v@.take(k as int)[m])@ == x;
                        assert(t[m] == v@.take(k as int)[m]);
                    } else {
                        assert(t[k as int]@ == x);
                    }
                }
            }
            if found {
                if !(exists|m: int| 0 <= m < k && (#[trigger] v@[m])@ == id@) {
                    assert(v@[k as int]@ == id@);
                }
            }
        }
        k = k + 1;
    }
    proof { assert(v@.take(v@.len() as int) =~= v@); }
    if found {
        proof {
            assert(id_set(w@) =~= id_set(v@).remove(id@)) by {
                assert forall|x: Seq<char>| id_set(w@).contains(x) implies x != id@ by {
                    let j = choose|j: int| 0 <= j < w@.len() && (#[trigger] w@[j])@ == x;
                }
            }
            let m = choose|m: int| 0 <= m < v@.len() && (#[trigger] v@[m])@ == id@;
            assert(id_set(v@).contains(id@));
        }
        w
    } else {
        let ghost before = w@;
        w.push(owned(id));
        proof {
            assert(!id_set(v@).contains(id@)) by {
                if id_set(v@).contains(id@) {
                    let m = choose|m: int| 0 <= m < v@.len() && (#[trigger] v@[m])@ == id@;
                }
            }
            assert(id_set(w@) =~= id_set(v@).insert(id@)) by {
                assert(w@[w@.len() - 1]@ == id@);
                assert(id_set(w@).contains(id@));
                assert forall|x: Seq<char>| x != id@ implies (id_set(w@).contains(x) <==> id_set(before).contains(x)) by {
                    if id_set(w@).contains(x) {
                        let j = choose|j: int| 0 <= j < w@.len() && (#[trigger] w@[j])@ == x;
                        if j < before.len() { assert(before[j] == w@[j]); }
                    }
                    if id_set(before).contains(x) {
                        let j = choose|j: int| 0 <= j < before.len() && (#[trigger] before[j])@ == x;
                        assert(w@[j] == before[j]);
                    }
                }
                assert forall|x: Seq<char>| #![auto] id_set(w@).contains(x) <==> id_set(v@).insert(id@).contains(x) by {
                    if x != id@ {
                        assert(id_set(before).contains(x) <==> id_set(v@.take(v@.len() as int)).contains(x));
                    }
                }
            }
        }
        w
    }
}


/// An outcome as the contracts speak of it.
pub enum OutcomeModel {
    Selected(Seq<char>),
    Hotkey(char),
    Cancelled,
    Unavailable,
}

impl Outcome {
    pub open spec fn model(self) -> OutcomeModel {
        match self {
            Outcome::Selected(s) => OutcomeModel::Selected(s@),
            Outcome::Hotkey(c) => OutcomeModel::Hotkey(c),
            Outcome::Cancelled => OutcomeModel::Cancelled,
            Outcome::Unavailable => OutcomeModel::Unavailable,
        }
    }
}

/// What a key does.
#[derive(Debug)]
pub enum Action {
    /// The menu stays up, in a new state.
    Update(State),
    /// The menu ends with an outcome.
    Finish(Outcome),
    /// Enter while ticking: the ticks are the answer.
    Confirm,
    /// Nothing happens.
    Ignore,
}

/// An action as the contracts speak of it.
pub enum ActionModel {
    Update(StateModel),
    Finish(OutcomeModel),
    Confirm,
    Ignore,
}

impl Action {
    pub open spec fn model(self) -> ActionModel {
        match self {
            Action::Update(s) => ActionModel::Update(s.model()),
            Action::Finish(o) => ActionModel::Finish(o.model()),
            Action::Confirm => ActionModel::Confirm,
            Action::Ignore => ActionModel::Ignore,
        }
    }
}

/// `c` with ASCII upper case mapped to lower case.
pub open spec fn ascii_lower(c: char) -> char {
    if 'A' <= c && c <= 'Z' { ((c as u32) + 32) as char } else { c }
}

/// Lowers ASCII upper case, as `char::to_ascii_lowercase`.
pub fn to_ascii_lower(c: char) -> (r: char)
    ensures
        r == ascii_lower(c),
{
    if 'A' <= c && c <= 'Z' {
        let code = (c as u32) + 32;
        proof { assert(code <= 0x7f); }
        (code as u8) as char
    } else {
        c
    }
}

/// The key of the first hint that answers `c`, ignoring ASCII case.
pub open spec fn find_hint(hints: Seq<super::Hint>, c: char) -> Option<char>
    decreases hints.len(),
{
    if hints.len() == 0 {
        None
    } else if ascii_lower(hints[0].key) == ascii_lower(c) {
        Some(hints[0].key)
    } else {
        find_hint(hints.drop_first(), c)
    }
}

/// The digit `c` names, if it is one.
pub open spec fn digit_of(c: char) -> Option<nat> {
    if '0' <= c && c <= '9' { Some(((c as u32) - 48) as nat) } else { None }
}

/// Moves one tab along, wrapping, and puts the cursor on its first entry;
/// nothing where no tab shows.
pub open spec fn step_tab_spec(menu: Menu, s: StateModel, forward: bool) -> ActionModel {
    match menu.spec_active_tab(s.view()) {
        None => ActionModel::Ignore,
        Some(active) => {
            let last = (menu.spec_tabs().len() - 1) as usize;
            let next: usize = if forward {
                if active == last { 0 } else { (active + 1) as usize }
            } else if active == 0 {
                last
            } else {
                (active - 1) as usize
            };
            ActionModel::Update(s.on_tab(next))
        },
    }
}

/// What a digit does where tabs show: the tab it names, or nothing for a
/// digit naming no tab. `None` where no tab shows or `c` is no digit.
pub open spec fn digit_spec(menu: Menu, c: char, s: StateModel) -> Option<ActionModel> {
    match menu.spec_active_tab(s.view()) {
        None => None,
        Some(_) => match digit_of(c) {
            None => None,
            Some(d) => Some(if d >= 1 && d - 1 < menu.spec_tabs().len() {
                ActionModel::Update(s.on_tab((d - 1) as usize))
            } else {
                ActionModel::Ignore
            }),
        },
    }
}

/// What a typed character does: space ticks while ticking; inside a search
/// every character is typed into the query; `/` opens the search; digits
/// switch tabs; a hint's key ends the menu with it (not while ticking); `q`
/// cancels.
pub open spec fn char_spec(menu: Menu, c: char, s: StateModel, matches: Seq<Item>) -> ActionModel {
    if c == ' ' && s.checked is Some {
        if s.index < matches.len() {
            ActionModel::Update(s.toggled(matches[s.index as int].id@))
        } else {
            ActionModel::Ignore
        }
    } else if s.query is Some {
        ActionModel::Update(s.searching(s.query->0.push(ascii_lower(c))))
    } else if c == '/' {
        ActionModel::Update(s.searching(Seq::empty()))
    } else {
        match digit_spec(menu, c, s) {
            Some(a) => a,
            None => {
                let hint = if s.checked is None { find_hint(menu.spec_hints(), c) } else { None };
                match hint {
                    Some(k) => ActionModel::Finish(OutcomeModel::Hotkey(k)),
                    None => if c == 'q' { ActionModel::Finish(OutcomeModel::Cancelled) } else { ActionModel::Ignore },
                }
            },
        }
    }
}

/// What a key does to the menu in state `s`, whose view shows `matches`.
pub open spec fn act_on_spec(menu: Menu, key: Key, s: StateModel, matches: Seq<Item>) -> ActionModel {
    let last: usize = if matches.len() > 0 { (matches.len() - 1) as usize } else { 0 };
    match key {
        Key::Left | Key::BackTab => step_tab_spec(menu, s, false),
        Key::Right | Key::Tab => step_tab_spec(menu, s, true),
        Key::Up => ActionModel::Update(s.at(if s.index == 0 { last } else { (s.index - 1) as usize })),
        Key::Down => ActionModel::Update(s.at(if s.index >= last { 0 } else { (s.index + 1) as usize })),
        Key::Enter => if s.checked is Some {
            ActionModel::Confirm
        } else if s.index < matches.len() {
            ActionModel::Finish(OutcomeModel::Selected(matches[s.index as int].id@))
        } else {
            ActionModel::Ignore
        },
        Key::Escape => match s.query {
            Some(_) => ActionModel::Update(s.browsing()),
            None => ActionModel::Finish(OutcomeModel::Cancelled),
        },
        Key::Interrupt => ActionModel::Finish(OutcomeModel::Cancelled),
        Key::Backspace => match s.query {
            Some(q) => if q.len() > 0 {
                ActionModel::Update(s.searching(q.drop_last()))
            } else {
                ActionModel::Update(s.browsing())
            },
            None => ActionModel::Ignore,
        },
        Key::Char(c) => char_spec(menu, c, s, matches),
        Key::Other => ActionModel::Ignore,
    }
}

/// Backspace edits a search from its end: with a query, it removes the
/// query's last character (what is left, followed by that character, is the
/// old query), puts the cursor on the first match and keeps the tab and the
/// ticks; an empty query leaves the search instead. Outside a search it does
/// nothing.
pub proof fn law_backspace_drops_the_last_character(menu: Menu, s: StateModel, matches: Seq<Item>)
    ensures
        match act_on_spec(menu, Key::Backspace, s, matches) {
            ActionModel::Update(t) => {
                &&& s.query is Some
                &&& t.index == 0
                &&& t.tab == s.tab
                &&& t.checked == s.checked
                &&& match (s.query, t.query) {
                    (Some(q), Some(p)) => q.len() > 0 && p.len() + 1 == q.len() && p.push(q.last()) == q,
                    (Some(q), None) => q.len() == 0,
                    _ => false,
                }
            },
            ActionModel::Ignore => s.query is None,
            _ => false,
        },
{
    match s.query {
        Some(q) => {
            if q.len() > 0 {
                assert(q.drop_last().push(q.last()) =~= q);
            }
        },
        None => {},
    }
}

impl Menu {
    /// What `key` does in `state`.
    pub fn act_on(&self, key: Key, state: &State) -> (a: Action)
        ensures
            a.model() == act_on_spec(*self, key, state.model(), self.spec_shown_items(state.model().view())),
    {
        let matches = self.matching_items(state.view());
        let ghost shown = self.spec_shown_items(state.model().view());
        assert(shown.len() == matches@.len());
        // An empty result set still draws; it just has nothing to act on.
        let last = if matches.len() > 0 { matches.len() - 1 } else { 0 };
        match key {
            Key::Left | Key::BackTab => self.step_tab(state, false),
            Key::Right | Key::Tab => self.step_tab(state, true),
            // Wrapping beats stopping at the ends: the list is short and a
            // dead key at the bottom is the more annoying failure.
            Key::Up => Action::Update(state.at(if state.index == 0 { last } else { state.index - 1 })),
            Key::Down => Action::Update(state.at(if state.index >= last { 0 } else { state.index + 1 })),
            Key::Enter => {
                if state.checked.is_some() {
                    Action::Confirm
                } else if state.index < matches.len() {
                    assert(shown[state.index as int] == *matches@[state.index as int]);
                    Action::Finish(Outcome::Selected(matches[state.index].id.clone()))
                } else {
                    Action::Ignore
                }
            },
            // Escape leaves the search before it leaves the menu, so a
            // mistyped query costs one key rather than the whole selection.
            Key::Escape => match &state.query {
                Some(_) => Action::Update(state.browsing()),
                None => Action::Finish(Outcome::Cancelled),
            },
            Key::Interrupt => Action::Finish(Outcome::Cancelled),
            Key::Backspace => match &state.query {
                Some(query) => {
                    if query.as_str().is_empty() {
                        // Backspacing out of an empty query leaves the search.
                        Action::Update(state.browsing())
                    } else {
                        let cs = chars_of(query.as_str());
                        let mut shorter = String::new();
                        let mut k: usize = 0;
                        while k < cs.len() - 1
                            invariant
                                cs@ == query@,
                                cs@.len() > 0,
                                k + 1 <= cs@.len(),
                                shorter@ == cs@.take(k as int),
                            decreases cs@.len() - k,
                        {
                            push_char(&mut shorter, cs[k]);
                            proof { assert(cs@.take(k as int + 1) =~= cs@.take(k as int).push(cs@[k as int])); }
                            k = k + 1;
                        }
                        proof { assert(cs@.take(k as int) =~= query@.drop_last()); }
                        Action::Update(state.searching(shorter))
                    }
                },
                None => Action::Ignore,
            },
            Key::Char(pressed) => self.act_on_char(pressed, state, &matches),
            Key::Other => Action::Ignore,
        }
    }

    fn act_on_char(&self, pressed: char, state: &State, matches: &Vec<&Item>) -> (a: Action)
        requires
            self.spec_shown_items(state.model().view()) == matches@.map_values(|i: &Item| *i),
        ensures
            a.model() == char_spec(*self, pressed, state.model(), self.spec_shown_items(state.model().view())),
    {
        let ghost shown = self.spec_shown_items(state.model().view());
        assert(shown.len() == matches@.len());
        // Space ticks even inside a search, so a filtered list can be ticked
        // without leaving it.
        if pressed == ' ' && state.checked.is_some() {
            if state.index < matches.len() {
                assert(shown[state.index as int] == *matches@[state.index as int]);
                return Action::Update(state.toggled(matches[state.index].id.as_str()));
            }
            return Action::Ignore;
        }
        // Inside a search every printable key is part of the query, so a
        // script named "quality" can be typed without 'q' cancelling.
        match &state.query {
            Some(query) => {
                let mut q = query.clone();
                push_char(&mut q, to_ascii_lower(pressed));
                return Action::Update(state.searching(q));
            },
            None => {},
        }
        if pressed == '/' {
            return Action::Update(state.searching(String::new()));
        }
        // Digits before hints: a menu with tabs has given its digits away.
        match self.act_on_digit(pressed, state) {
            Some(action) => return action,
            None => {},
        }
        // Hint keys win over the built-in 'q', so a menu may bind 'q'. Not
        // while ticking: a key ending the menu would drop what was ticked.
        if state.checked.is_none() {
            match hint_for(self.hints(), pressed) {
                Some(key) => return Action::Finish(Outcome::Hotkey(key)),
                None => {},
            }
        }
        if pressed == 'q' {
            return Action::Finish(Outcome::Cancelled);
        }
        Action::Ignore
    }

    /// What a digit does, or `None` where the menu has no tabs to reach.
    ///
    /// A tabbed menu has given its digits away, so one that names no tab
    /// does nothing rather than falling through to a hint bound to it.
    fn act_on_digit(&self, pressed: char, state: &State) -> (a: Option<Action>)
        ensures
            match a {
                None => digit_spec(*self, pressed, state.model()) is None,
                Some(act) => digit_spec(*self, pressed, state.model()) == Some(act.model()),
            },
    {
        if self.active_tab(state.view()).is_none() {
            return None;
        }
        if !('0' <= pressed && pressed <= '9') {
            return None;
        }
        let digit = ((pressed as u32) - 48) as usize;
        let count = self.tabs().len();
        if digit >= 1 && digit - 1 < count {
            Some(Action::Update(state.on_tab(digit - 1)))
        } else {
            Some(Action::Ignore)
        }
    }

    /// Moves one tab along, wrapping, and puts the cursor on its first entry.
    ///
    /// Leaving the cursor where it was would land it on an unrelated entry
    /// of the new group, or past its end.
    fn step_tab(&self, state: &State, forward: bool) -> (a: Action)
        ensures
            a.model() == step_tab_spec(*self, state.model(), forward),
    {
        let active = match self.active_tab(state.view()) {
            None => return Action::Ignore,
            Some(active) => active,
        };
        let last = self.tabs().len() - 1;
        let next = if forward {
            if active == last { 0 } else { active + 1 }
        } else if active == 0 {
            last
        } else {
            active - 1
        };
        Action::Update(state.on_tab(next))
    }
}

/// The key of the first hint that answers `pressed`, ignoring ASCII case.
fn hint_for(hints: &Vec<super::Hint>, pressed: char) -> (r: Option<char>)
    ensures
        r == find_hint(hints@, pressed),
{
    let lowered = to_ascii_lower(pressed);
    let mut k: usize = 0;
    proof { assert(hints@.skip(0) =~= hints@); }
    while k < hints.len()
        invariant
            k <= hints@.len(),
            lowered == ascii_lower(pressed),
            find_hint(hints@, pressed) == find_hint(hints@.skip(k as int), pressed),
        decreases hints@.len() - k,
    {
        proof { assert(hints@.skip(k as int).drop_first() =~= hints@.skip(k as int + 1)); }
        if to_ascii_lower(hints[k].key) == lowered {
            return Some(hints[k].key);
        }
        k = k + 1;
    }
    None
}


/// Where the body is scrolled to, and how tall the last frame was.
#[derive(Debug, Default)]
pub struct Scroll {
    pub start: usize,
    pub drawn: Option<u16>,
}

/// Scrolls down from `start`, one row at a time, until the window shows
/// `cursor` or reaches the last row.
pub open spec fn scroll_from(start: nat, body: usize, rows: nat, cursor: nat) -> nat
    decreases rows - start,
{
    let vp = Viewport { start: start as usize, height: body, width: None };
    let (s, e) = window_spec(vp, rows);
    if start + 1 < rows && !(s <= cursor && cursor < e) {
        scroll_from(start + 1, body, rows, cursor)
    } else {
        start
    }
}

/// A window started at the cursor's row shows it.
pub proof fn lemma_window_shows_its_start(vp: Viewport, rows: nat)
    requires
        (vp.start as nat) < rows,
    ensures
        window_spec(vp, rows).0 <= vp.start && (vp.start as nat) < window_spec(vp, rows).1,
{
}

proof fn lemma_scroll_from(start: nat, body: usize, rows: nat, cursor: nat)
    requires
        start <= cursor < rows,
        start < usize::MAX,
        cursor < usize::MAX,
    ensures
        ({
            let r = scroll_from(start, body, rows, cursor);
            let (s, e) = window_spec(Viewport { start: r as usize, height: body, width: None }, rows);
            &&& s <= cursor < e
            &&& r <= cursor
        }),
    decreases rows - start,
{
    let vp = Viewport { start: start as usize, height: body, width: None };
    let (s, e) = window_spec(vp, rows);
    if start + 1 < rows && !(s <= cursor && cursor < e) {
        if start == cursor {
            lemma_window_shows_its_start(vp, rows);
        }
        lemma_scroll_from(start + 1, body, rows, cursor);
    } else if !(s <= cursor && cursor < e) {
        assert(start == cursor) by {
            if start < cursor {}
        }
        lemma_window_shows_its_start(vp, rows);
    }
}

/// The viewport for the next frame, and where the body is scrolled to
/// after it: the least scroll that brings the cursor's row into view. A
/// terminal that reports no size gets the whole menu.
pub open spec fn advance_spec(menu: Menu, size: Option<(usize, usize)>, s: StateModel, old_start: usize)
    -> (usize, Option<Viewport>)
{
    match size {
        None => (old_start, None),
        Some((height, cols)) => {
            let columns: Option<usize> = if cols > 0 { Some(cols) } else { None };
            let view = s.view();
            let shown = menu.spec_shown_rows(view);
            let rows = body_height_of(shown, view);
            let reserved = crate::text::sat((chrome_height_spec(menu, view, columns) + 1) as int);
            let body: usize = if height >= reserved { (height - reserved) as usize } else { 0 };
            if body == 0 || rows == 0 || rows <= body {
                (0, Some(Viewport { start: 0, height: (if rows > 1 { rows } else { 1 }) as usize, width: columns }))
            } else {
                let cursor = row_of_index(shown, s.index);
                let clamped: nat = if old_start < rows - 1 { old_start as nat } else { (rows - 1) as nat };
                let from: nat = if cursor < clamped { cursor } else { clamped };
                let start = scroll_from(from, body, rows, cursor) as usize;
                (start, Some(Viewport { start, height: body, width: columns }))
            }
        },
    }
}

proof fn lemma_row_of_index_bound(rows: Seq<Row>, index: usize, k: nat)
    ensures
        row_of_index_from(rows, index, k) == 0 || row_of_index_from(rows, index, k) < rows.len(),
    decreases rows.len() - k,
{
    if k < rows.len() {
        lemma_row_of_index_bound(rows, index, k + 1);
    }
}

impl Scroll {
    /// Scrolls the window the least amount that brings the cursor into view.
    ///
    /// Only moving when the cursor would leave the window keeps the list
    /// still under the cursor. `size` is the terminal's lines and columns,
    /// when it reports them.
    pub fn advance(&mut self, menu: &Menu, size: Option<(usize, usize)>, state: &State) -> (vp: Option<Viewport>)
        ensures
            (final(self).start, vp) == advance_spec(*menu, size, state.model(), old(self).start),
            final(self).drawn == old(self).drawn,
            // The cursor's row is inside what the viewport draws.
            match vp {
                None => true,
                Some(v) => {
                    let shown = menu.spec_shown_rows(state.model().view());
                    let rows = body_height_of(shown, state.model().view());
                    rows > 0 ==> window_spec(v, rows).0 <= row_of_index(shown, state.index) < window_spec(v, rows).1
                },
            },
    {
        let (height, cols) = match size {
            None => return None,
            Some(hc) => hc,
        };
        let columns = if cols > 0 { Some(cols) } else { None };
        let view = state.view();
        let rows = menu.body_height(view);
        let reserved = menu.chrome_height(view, columns).saturating_add(1);
        // One line stays free so the frame does not push its own top off screen.
        let body = height.saturating_sub(reserved);
        if body == 0 || rows == 0 || rows <= body {
            proof {
                let shown = menu.spec_shown_rows(state.model().view());
                lemma_row_of_index_bound(shown, state.index, 0);
            }
            self.start = 0;
            // Still bound the width: a short list can carry long descriptions.
            return Some(Viewport::new(0, if rows > 1 { rows } else { 1 }).with_width(columns));
        }
        let cursor = menu.row_of_item(state.index, view);
        proof {
            let shown = menu.spec_shown_rows(state.model().view());
            lemma_row_of_index_bound(shown, state.index, 0);
        }
        let mut start = if self.start < rows - 1 { self.start } else { rows - 1 };
        if cursor < start {
            start = cursor;
        }
        let ghost from = start as nat;
        // Ask the viewport what it will actually draw rather than predicting
        // it: how many rows fit depends on which scroll indicators appear.
        while start < rows - 1 && !Viewport::new(start, body).shows(rows, cursor)
            invariant
                from <= start < rows,
                scroll_from(from, body, rows as nat, cursor as nat) == scroll_from(start as nat, body, rows as nat, cursor as nat),
            decreases rows - start,
        {
            start = start + 1;
        }
        proof {
            if start < rows - 1 {
                assert(scroll_from(start as nat, body, rows as nat, cursor as nat) == start);
            }
            if cursor < rows {
                if from <= cursor {
                    lemma_scroll_from(from, body, rows as nat, cursor as nat);
                }
            }
        }
        self.start = start;
        Some(Viewport::new(start, body).with_width(columns))
    }
}


/// How a run ended.
#[derive(Debug)]
pub enum Ending {
    /// A key ended the menu with an outcome.
    Finished(Outcome),
    /// Enter while ticking, with the ids ticked.
    Confirmed(Vec<String>),
}

/// The ids of the menu's entries in `ids`, in display order.
pub open spec fn chosen_spec(items: Seq<Item>, ids: Set<Seq<char>>) -> Seq<Seq<char>>
    decreases items.len(),
{
    if items.len() == 0 {
        Seq::empty()
    } else {
        chosen_spec(items.drop_last(), ids) + (if ids.contains(items.last().id@) { seq![items.last().id@] } else { Seq::empty() })
    }
}

impl Menu {
    /// Whether a run takes over the terminal: the mode and the stream allow
    /// it, and there is something to pick. Otherwise the menu reports
    /// `Unavailable` without reading anything, so a menu in a pipeline or
    /// in CI never waits for a keypress that cannot come.
    pub fn takes_over(&self, mode: SelectMode, is_terminal: bool) -> (r: bool)
        ensures
            r == (select_interactive(mode, is_terminal) && self.spec_items().len() > 0),
    {
        mode.is_interactive(is_terminal) && !self.is_empty()
    }

    /// What a single-pick run reports for how it ended.
    pub fn outcome_of(&self, ending: Option<Ending>) -> (o: Outcome)
        ensures
            o.model() == match ending {
                None => OutcomeModel::Unavailable,
                Some(Ending::Finished(out)) => out.model(),
                // Only a state that ticks can confirm.
                Some(Ending::Confirmed(_)) => OutcomeModel::Cancelled,
            },
    {
        match ending {
            None => Outcome::Unavailable,
            Some(Ending::Finished(outcome)) => outcome,
            Some(Ending::Confirmed(_)) => Outcome::Cancelled,
        }
    }

    /// What a multi-pick run reports for how it ended: confirming with
    /// nothing ticked is an answer too, not a cancel.
    pub fn picked_of(&self, ending: Option<Ending>) -> (p: Picked)
        ensures
            match ending {
                None => p == Picked::Unavailable,
                Some(Ending::Finished(_)) => p == Picked::Cancelled,
                Some(Ending::Confirmed(ids)) => p matches Picked::Chosen(v)
                    && v@.map_values(|s: String| s@) == chosen_spec(self.spec_items(), id_set(ids@)),
            },
    {
        match ending {
            None => Picked::Unavailable,
            Some(Ending::Finished(_)) => Picked::Cancelled,
            Some(Ending::Confirmed(ids)) => Picked::Chosen(self.chosen(&ids)),
        }
    }

    /// The ids of the entries ticked in `ids`, in display order.
    pub fn chosen(&self, ids: &Vec<String>) -> (v: Vec<String>)
        ensures
            v@.map_values(|s: String| s@) == chosen_spec(self.spec_items(), id_set(ids@)),
    {
        let items = self.items();
        let mut v: Vec<String> = Vec::new();
        let mut k: usize = 0;
        while k < items.len()
            invariant
                k <= items@.len(),
                items@.len() == self.spec_items().len(),
                forall|m: int| 0 <= m < items@.len() ==> *items@[m] == self.spec_items()[m],
                v@.map_values(|s: String| s@) == chosen_spec(self.spec_items().take(k as int), id_set(ids@)),
            decreases items@.len() - k,
        {
            let id = items[k].id.as_str();
            let mut found = false;
            let mut j: usize = 0;
            while j < ids.len() && !found
                invariant
                    j <= ids@.len(),
                    found ==> id_set(ids@).contains(id@),
                    !found ==> forall|m: int| 0 <= m < j ==> (#[trigger] ids@[m])@ != id@,
                decreases ids@.len() - j + (if found { 0int } else { 1int }),
            {
                if str_eq(ids[j].as_str(), id) {
                    found = true;
                } else {
                    j = j + 1;
                }
            }
            let ghost before = v@;
            if found {
                v.push(owned(id));
            }
            proof {
                let t = self.spec_items().take(k as int + 1);
                assert(t.drop_last() =~= self.spec_items().take(k as int));
                assert(t.last() == self.spec_items()[k as int]);
                if !found {
                    assert(!id_set(ids@).contains(id@));
                }
                assert(v@.map_values(|s: String| s@) =~= chosen_spec(t, id_set(ids@)));
            }
            k = k + 1;
        }
        proof { assert(self.spec_items().take(k as int) =~= self.spec_items()); }
        v
    }
}

} // verus!
