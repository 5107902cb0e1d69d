use runemark::select::interactive::{Action, Ending, Scroll, State};
use runemark::select::terminal::{escape_key, first_byte, move_up, text_key, FirstByte, Key};
use runemark::select::{Group, Hint, Item, Layout, Menu, Outcome, Picked};

fn tabbed() -> Menu {
    let mut menu = Menu::new().with_layout(Layout::Tabs);
    for n in 0..3 {
        menu = menu.add_group(
            Group::new(&format!("Group{n}"))
                .add_item(Item::new(&format!("a{n}"), &format!("a{n}")))
                .add_item(Item::new(&format!("b{n}"), &format!("b{n}"))),
        );
    }
    menu
}

fn fresh() -> State {
    State::start(None)
}

fn after(menu: &Menu, state: &State, key: Key) -> State {
    match menu.act_on(key, state) {
        Action::Update(next) => next,
        Action::Ignore => state.clone(),
        Action::Finish(outcome) => panic!("expected no outcome, got {outcome:?}"),
        Action::Confirm => panic!("expected no outcome, got a confirmation"),
    }
}

fn ticking() -> State {
    State::start(Some(Vec::new()))
}

fn ticked(state: &State) -> Vec<&str> {
    state.checked.iter().flatten().map(String::as_str).collect()
}

#[test]
fn the_arrows_step_along_the_tabs_and_wrap() {
    let menu = tabbed();
    let state = after(&menu, &fresh(), Key::Right);
    assert_eq!(state.tab, 1);
    let state = after(&menu, &state, Key::Left);
    assert_eq!(state.tab, 0);
    let state = after(&menu, &state, Key::Left);
    assert_eq!(state.tab, 2, "wrapping beats a dead key at the end");
    assert_eq!(after(&menu, &state, Key::Right).tab, 0);
}

#[test]
fn tab_and_shift_tab_do_the_same() {
    let menu = tabbed();
    assert_eq!(after(&menu, &fresh(), Key::Tab).tab, 1);
    assert_eq!(after(&menu, &fresh(), Key::BackTab).tab, 2);
}

#[test]
fn a_digit_jumps_straight_to_its_tab() {
    let menu = tabbed();
    assert_eq!(after(&menu, &fresh(), Key::Char('3')).tab, 2);
}

#[test]
fn a_digit_past_the_last_tab_does_nothing() {
    let menu = tabbed();
    let state = after(&menu, &fresh(), Key::Char('2'));
    assert_eq!(after(&menu, &state, Key::Char('7')).tab, 1, "unchanged");
}

#[test]
fn a_digit_no_tab_carries_is_swallowed_rather_than_passed_on() {
    let menu = tabbed().add_hint(Hint::new('0', "Zero"));
    assert!(matches!(menu.act_on(Key::Char('0'), &fresh()), Action::Ignore));
    assert!(matches!(menu.act_on(Key::Char('8'), &fresh()), Action::Ignore));
}

#[test]
fn a_flat_menu_still_lets_a_digit_reach_its_hint() {
    let menu = tabbed().with_layout(Layout::Flat).add_hint(Hint::new('2', "Two"));
    assert!(matches!(
        menu.act_on(Key::Char('2'), &fresh()),
        Action::Finish(Outcome::Hotkey('2'))
    ));
}

#[test]
fn switching_tabs_puts_the_cursor_on_the_first_entry() {
    let menu = tabbed();
    let state = after(&menu, &fresh(), Key::Down);
    assert_eq!(state.index, 1);
    assert_eq!(after(&menu, &state, Key::Right).index, 0);
}

#[test]
fn a_flat_menu_ignores_the_tab_keys() {
    let menu = tabbed().with_layout(Layout::Flat);
    let state = after(&menu, &fresh(), Key::Right);
    assert_eq!(state.tab, 0);
    assert_eq!(state.index, 0);
}

#[test]
fn a_digit_inside_a_search_is_typed_rather_than_pressed() {
    let menu = tabbed();
    let state = after(&menu, &fresh(), Key::Char('/'));
    let state = after(&menu, &state, Key::Char('2'));
    assert_eq!(state.query.as_deref(), Some("2"));
    assert_eq!(state.tab, 0, "and the tab is untouched");
}

#[test]
fn leaving_a_search_returns_to_the_tab_it_started_from() {
    let menu = tabbed();
    let state = after(&menu, &fresh(), Key::Char('3'));
    let state = after(&menu, &state, Key::Char('/'));
    let state = after(&menu, &state, Key::Escape);
    assert_eq!(state.query, None);
    assert_eq!(state.tab, 2);
}

#[test]
fn enter_selects_from_the_active_tab() {
    let menu = tabbed();
    let state = after(&menu, &fresh(), Key::Char('2'));
    let state = after(&menu, &state, Key::Down);
    match menu.act_on(Key::Enter, &state) {
        Action::Finish(outcome) => assert_eq!(outcome, Outcome::Selected("b1".into())),
        other => panic!("expected a selection, got {other:?}"),
    }
}

#[test]
fn space_ticks_and_unticks_the_entry_under_the_cursor() {
    let menu = tabbed().with_layout(Layout::Flat);
    let state = after(&menu, &ticking(), Key::Down);
    let state = after(&menu, &state, Key::Char(' '));
    assert_eq!(ticked(&state), ["b0"]);
    let state = after(&menu, &state, Key::Char(' '));
    assert!(ticked(&state).is_empty());
}

#[test]
fn enter_confirms_rather_than_selects_while_ticking() {
    let menu = tabbed();
    assert!(matches!(menu.act_on(Key::Enter, &ticking()), Action::Confirm));
}

#[test]
fn a_tick_survives_a_search() {
    let menu = tabbed().with_layout(Layout::Flat);
    let state = after(&menu, &ticking(), Key::Char('/'));
    let state = after(&menu, &state, Key::Char('b'));
    let state = after(&menu, &state, Key::Char('2'));
    let state = after(&menu, &state, Key::Char(' '));
    assert_eq!(ticked(&state), ["b2"], "space ticks, not types");
    let state = after(&menu, &state, Key::Escape);
    assert_eq!(ticked(&state), ["b2"]);
}

#[test]
fn a_hint_is_not_answered_while_ticking() {
    let menu = tabbed().with_layout(Layout::Flat).add_hint(Hint::new('H', "Health"));
    assert!(matches!(menu.act_on(Key::Char('h'), &ticking()), Action::Ignore));
}

#[test]
fn the_arrows_wrap_at_both_ends_of_the_list() {
    let menu = tabbed().with_layout(Layout::Flat);
    let state = after(&menu, &fresh(), Key::Up);
    assert_eq!(state.index, 5);
    assert_eq!(after(&menu, &state, Key::Down).index, 0);
}

#[test]
fn escape_and_q_cancel_and_hints_answer_in_any_case() {
    let menu = tabbed().with_layout(Layout::Flat).add_hint(Hint::new('H', "Health"));
    assert!(matches!(menu.act_on(Key::Escape, &fresh()), Action::Finish(Outcome::Cancelled)));
    assert!(matches!(menu.act_on(Key::Char('q'), &fresh()), Action::Finish(Outcome::Cancelled)));
    assert!(matches!(menu.act_on(Key::Char('h'), &fresh()), Action::Finish(Outcome::Hotkey('H'))));
}

#[test]
fn a_confirmed_pick_lists_the_ticked_entries_in_display_order() {
    let menu = tabbed().with_ticked(vec!["b2".into(), "a0".into()]);
    let ids = vec!["b2".to_string(), "a0".to_string()];
    assert_eq!(menu.picked_of(Some(Ending::Confirmed(ids))), Picked::Chosen(vec!["a0".into(), "b2".into()]));
    assert_eq!(menu.picked_of(None), Picked::Unavailable);
    assert_eq!(menu.outcome_of(Some(Ending::Confirmed(vec![]))), Outcome::Cancelled);
    assert_eq!(menu.outcome_of(Some(Ending::Finished(Outcome::Hotkey('x')))), Outcome::Hotkey('x'));
}

#[test]
fn the_scroll_keeps_the_cursor_row_on_screen() {
    let mut group = Group::new("Scripts");
    for n in 0..40 {
        group = group.add_item(Item::new(&format!("t{n}"), &format!("t{n}")));
    }
    let menu = Menu::new().add_group(group);
    let mut scroll = Scroll::default();
    let state = fresh().at(30);
    let viewport = scroll.advance(&menu, Some((80, 10)), &state).expect("a sized terminal");
    let rows = menu.body_height(state.view());
    assert!(viewport.shows(rows, menu.row_of_item(30, state.view())));
    assert!(scroll.advance(&menu, None, &state).is_none());
}

#[test]
fn terminal_bytes_decode_into_keys() {
    assert_eq!(first_byte(Some(b'\r')), FirstByte::Done(Key::Enter));
    assert_eq!(first_byte(Some(3)), FirstByte::Done(Key::Interrupt));
    assert_eq!(first_byte(None), FirstByte::Done(Key::Interrupt));
    assert_eq!(first_byte(Some(0x1b)), FirstByte::Escape);
    assert_eq!(escape_key(Some(b'['), Some(b'A')).0, Key::Up);
    assert_eq!(escape_key(Some(b'['), Some(b'Z')).0, Key::BackTab);
    assert_eq!(text_key("ä".as_bytes()), Key::Char('ä'));
    assert_eq!(move_up(3), "\x1b[3F");
}
