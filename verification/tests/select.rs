use runemark::select::frame::Viewport;
use runemark::select::layout::{shorten, tab_window};
use runemark::select::search::subsequence_span;
use runemark::select::{tab_label, Group, Hint, Item, Layout, Menu, MenuView, Outcome, Row, SelectMode};
use runemark::{ColorMode, Console};
use unicode_width::UnicodeWidthStr;

fn plain() -> Console {
    Console::new(ColorMode::Never, false, true)
}

fn flat() -> MenuView<'static> {
    MenuView { query: None, tab: None }
}

fn searching(query: &str) -> MenuView<'_> {
    MenuView { query: Some(query), tab: None }
}

fn on_tab(tab: usize) -> MenuView<'static> {
    MenuView { query: None, tab: Some(tab) }
}

fn frame(menu: &Menu, viewport: Option<Viewport>, view: MenuView) -> String {
    let mut out = String::new();
    menu.write_frame(&mut out, plain(), Some(0), viewport, view);
    out
}

fn menu() -> Menu {
    Menu::new()
        .with_heading("casoon.dev")
        .with_note("pnpm")
        .add_group(
            Group::new("Development")
                .add_item(Item::new("dev", "dev").with_description("Start the site"))
                .add_item(Item::new("dev:landings", "dev:landings")),
        )
        .add_group(Group::new("Build").add_item(Item::new("build", "build")))
        .add_hint(Hint::new('U', "Updates"))
}

fn long_menu(items: usize) -> Menu {
    let mut group = Group::new("Scripts");
    for n in 0..items {
        group = group.add_item(Item::new(&format!("t{n}"), &format!("t{n}")));
    }
    Menu::new().with_heading("many").add_group(group)
}

fn windowed(menu: &Menu, start: usize, height: usize) -> String {
    frame(menu, Some(Viewport::new(start, height)), flat())
}

fn at_width(menu: &Menu, columns: usize) -> String {
    frame(menu, Some(Viewport::new(0, 999).with_width(Some(columns))), flat())
}

fn searched(menu: &Menu, query: &str) -> Vec<String> {
    menu.matching_items(searching(query))
        .into_iter()
        .map(|item| item.label.clone())
        .collect()
}

fn script_menu() -> Menu {
    Menu::new()
        .add_group(
            Group::new("Development")
                .add_item(Item::new("dev", "dev").with_description("Start the site"))
                .add_item(Item::new("dev:landings", "dev:landings")),
        )
        .add_group(
            Group::new("Deploy")
                .add_item(Item::new("deploy", "deploy").with_description("Ship everything"))
                .add_item(Item::new("deploy:landings", "deploy:landings")),
        )
        .add_group(
            Group::new("Quality")
                .add_item(Item::new("check", "check").with_description("Lint and format")),
        )
}

fn tabbed(groups: usize) -> Menu {
    let mut menu = Menu::new().with_heading("web-casoon").with_layout(Layout::Tabs);
    for n in 0..groups {
        menu = menu.add_group(
            Group::new(&format!("Group{n}"))
                .add_item(Item::new(&format!("a{n}"), &format!("a{n}")))
                .add_item(Item::new(&format!("b{n}"), &format!("b{n}"))),
        );
    }
    menu
}

fn framed(menu: &Menu, view: MenuView) -> String {
    frame(menu, None, view)
}

fn mixed(packages: usize) -> Menu {
    let mut menu = tabbed(3).with_layout(Layout::Tabs);
    for n in 0..packages {
        let mut group = Group::new(&format!("@scope/pkg{n}"))
            .in_tab("Packages")
            .add_item(Item::new(&format!("p{n}"), &format!("p{n}")));
        if n == 0 {
            group = group.with_divider();
        }
        menu = menu.add_group(group);
    }
    menu
}

fn group_labels(menu: &Menu, rows: &[Row]) -> Vec<String> {
    rows.iter()
        .filter_map(|row| match row {
            Row::Group(g) => Some(menu.groups()[*g].label.clone()),
            Row::Item(..) => None,
        })
        .collect()
}

fn item_indices(rows: &[Row]) -> Vec<usize> {
    rows.iter()
        .filter_map(|row| match row {
            Row::Item(_, _, index) => Some(*index),
            Row::Group(_) => None,
        })
        .collect()
}

#[test]
fn renders_groups_headings_and_hints() {
    let output = menu().render(plain());
    assert!(output.starts_with("casoon.dev  pnpm\n\n"));
    assert!(output.contains("Development\n"));
    assert!(output.contains("  dev "));
    assert!(output.contains("Build\n"));
    assert!(output.trim_end().ends_with("U Updates"));
}

#[test]
fn a_keyboard_frame_advertises_the_filter() {
    let menu = long_menu(20).add_hint(Hint::new('U', "Updates"));
    let interactive = frame(&menu, None, flat());
    assert!(interactive.contains("/ search"));
    assert!(interactive.contains("U Updates"), "and the menu's own hints");
}

#[test]
fn a_rendered_frame_offers_no_keys() {
    assert!(!menu().render(plain()).contains("/ search"));
}

#[test]
fn an_empty_menu_advertises_nothing() {
    let empty = Menu::new().with_heading("nothing");
    let shown = frame(&empty, None, flat());
    assert!(!shown.contains("search"));
}

#[test]
fn a_short_menu_does_not_offer_to_search_itself() {
    let confirm = Menu::new().with_heading("Run deploy?").add_group(
        Group::new("Confirm")
            .add_item(Item::new("no", "Cancel"))
            .add_item(Item::new("yes", "Run deploy")),
    );
    let shown = frame(&confirm, None, flat());
    assert!(!shown.contains("search"));
}

#[test]
fn filtering_a_short_menu_still_works() {
    let short = long_menu(3);
    assert_eq!(searched(&short, "t2"), ["t2"]);
    let shown = frame(&short, None, searching("t2"));
    assert!(shown.contains("/ t2"));
}

#[test]
fn a_long_menu_still_advertises_it() {
    let long = long_menu(20);
    let shown = frame(&long, None, flat());
    assert!(shown.contains("/ search"));
}

#[test]
fn plain_rendering_has_no_cursor_marker() {
    assert!(!menu().render(plain()).contains('›'));
}

#[test]
fn descriptions_line_up_across_groups() {
    let output = menu().render(plain());
    let line = output
        .lines()
        .find(|line| line.contains("Start the site"))
        .expect("description line");
    assert_eq!(
        line.find("Start the site"),
        Some(2 + "dev:landings".width() + 2)
    );
}

#[test]
fn an_item_without_a_description_ends_at_its_label() {
    let output = menu().render(plain());
    let line = output
        .lines()
        .find(|line| line.trim_start().starts_with("build"))
        .expect("build line");
    assert_eq!(line, "  build");
}

#[test]
fn items_are_yielded_in_display_order() {
    let menu = menu();
    let ids: Vec<&str> = menu.items().iter().map(|item| item.id.as_str()).collect();
    assert_eq!(ids, ["dev", "dev:landings", "build"]);
}

#[test]
fn length_counts_items_not_groups() {
    assert_eq!(menu().len(), 3);
    assert!(!menu().is_empty());
    assert!(Menu::new().is_empty());
}

#[test]
fn a_body_that_fits_is_shown_whole() {
    let menu = long_menu(3);
    let output = windowed(&menu, 0, 50);
    assert!(!output.contains("more"));
    assert!(output.contains("t2"));
}

#[test]
fn a_body_that_does_not_fit_says_how_much_is_below() {
    let menu = long_menu(40);
    let output = windowed(&menu, 0, 10);
    assert!(output.contains("↓ "));
    assert!(!output.contains("↑ "), "nothing is above the top");
}

#[test]
fn scrolling_into_the_middle_shows_both_directions() {
    let menu = long_menu(40);
    let output = windowed(&menu, 15, 10);
    assert!(output.contains("↑ 15 more"));
    assert!(output.contains("↓ "));
}

#[test]
fn the_end_of_the_list_drops_the_trailing_indicator() {
    let menu = long_menu(40);
    let output = windowed(&menu, 60, 10);
    assert!(output.contains("↑ "));
    assert!(!output.contains("↓ "), "there is nothing below the last row");
    assert!(output.contains("t39"), "the last entry is visible");
}

#[test]
fn a_window_never_draws_more_body_lines_than_it_was_given() {
    let menu = long_menu(40);
    let chrome = menu.chrome_height(flat(), None);
    for start in [0, 1, 7, 20, 39] {
        for height in [3, 5, 10, 25] {
            let body = windowed(&menu, start, height).lines().count() - chrome;
            assert!(body <= height, "start {start}, height {height}: drew {body} body lines");
        }
    }
}

#[test]
fn a_window_always_draws_something() {
    let menu = long_menu(40);
    let chrome = menu.chrome_height(flat(), None);
    for height in [1, 2, 3] {
        let body = windowed(&menu, 0, height).lines().count() - chrome;
        assert!(body >= 1, "height {height} drew nothing");
    }
}

#[test]
fn row_lookup_accounts_for_group_labels() {
    let menu = menu();
    assert_eq!(menu.row_of_item(0, flat()), 1);
    assert_eq!(menu.row_of_item(2, flat()), 4);
    assert_eq!(menu.body_height(flat()), 5);
}

#[test]
fn chrome_height_counts_heading_and_hints() {
    assert_eq!(menu().chrome_height(flat(), None), 4);
    assert_eq!(Menu::new().chrome_height(flat(), None), 0);
    assert_eq!(
        Menu::new().with_heading("h").chrome_height(flat(), None),
        2,
        "heading plus its blank line"
    );
    assert_eq!(
        Menu::new().chrome_height(searching(""), None),
        2,
        "the query line needs room even without hints"
    );
}

#[test]
fn scrolling_keeps_every_cursor_position_in_view() {
    let menu = long_menu(40);
    let rows = menu.body_height(flat());

    for height in [4, 6, 11, 21, 30] {
        let mut start = 0usize;
        for index in 0..menu.len() {
            let cursor = menu.row_of_item(index, flat());
            if cursor < start {
                start = cursor;
            }
            while start < rows - 1 && !Viewport::new(start, height).shows(rows, cursor) {
                start += 1;
            }
            assert!(
                Viewport::new(start, height).shows(rows, cursor),
                "height {height}, item {index} (row {cursor}) not visible from {start}"
            );
        }
    }
}

#[test]
fn nothing_exceeds_the_given_width() {
    let menu = Menu::new()
        .with_heading("a-rather-long-project-name")
        .with_note("pnpm")
        .add_group(Group::new("Quality").add_item(
            Item::new("type-check", "type-check").with_description(
                "Führt den TypeScript-Check in allen Packages des Workspace aus",
            ),
        ));

    for columns in [20, 40, 60, 80, 100] {
        for line in at_width(&menu, columns).lines() {
            assert!(
                line.width() <= columns,
                "width {columns}: line of {} columns: {line:?}",
                line.width()
            );
        }
    }
}

#[test]
fn a_shortened_entry_is_marked_as_cut() {
    let menu = Menu::new().add_group(Group::new("G").add_item(
        Item::new("x", "x").with_description("eine sehr lange Beschreibung, die nicht passt"),
    ));
    assert!(at_width(&menu, 30).contains('…'));
}

#[test]
fn a_description_with_no_room_is_dropped_rather_than_stubbed() {
    let menu = Menu::new().add_group(Group::new("G").add_item(
        Item::new("a-long-script-name", "a-long-script-name").with_description("beschreibung"),
    ));
    let narrow = at_width(&menu, 24);
    assert!(!narrow.contains("besch"), "no room left, so no description");
    assert!(narrow.contains("a-long-script-name"), "the name still shows");
}

#[test]
fn shortening_counts_display_columns_not_bytes() {
    assert_eq!(shorten("äöüß", 10), "äöüß");
    assert_eq!(shorten("äöüß", 3).width(), 3);
    assert!(shorten("äöüß", 3).ends_with('…'));
    assert_eq!(shorten("abc", 1), "");
}

#[test]
fn an_empty_query_keeps_the_menu_as_it_was() {
    let menu = script_menu();
    let unsearched: Vec<String> = menu.items().iter().map(|item| item.label.clone()).collect();
    assert_eq!(searched(&menu, ""), unsearched);
}

#[test]
fn a_substring_in_the_name_wins_over_one_in_a_description() {
    let hits = searched(&script_menu(), "landings");
    assert_eq!(hits, ["dev:landings", "deploy:landings"]);
}

#[test]
fn scattered_letters_still_find_a_name() {
    assert!(searched(&script_menu(), "dpl").contains(&"deploy".to_owned()));
}

#[test]
fn a_tight_match_ranks_before_a_scattered_one() {
    let hits = searched(&script_menu(), "dep");
    assert_eq!(hits.first().map(String::as_str), Some("deploy"));
}

#[test]
fn a_description_match_is_found_when_no_name_matches() {
    let hits = searched(&script_menu(), "lint");
    assert_eq!(hits, ["check"]);
}

#[test]
fn a_query_that_matches_nothing_yields_nothing() {
    assert!(searched(&script_menu(), "qqqq").is_empty());
}

#[test]
fn a_query_that_matches_nothing_says_so() {
    let menu = script_menu();
    let shown = frame(&menu, None, searching("qqqq"));
    assert!(shown.contains("no matches"));
    assert_eq!(menu.body_height(searching("qqqq")), 1, "the notice needs a line");
}

#[test]
fn searching_is_case_insensitive() {
    assert_eq!(searched(&script_menu(), "dev"), searched(&script_menu(), "dev"));
    assert!(
        !searched(&script_menu(), "start").is_empty(),
        "matches a capitalised description"
    );
}

#[test]
fn a_group_with_no_matches_is_not_drawn() {
    let menu = script_menu();
    let rows = menu.body_rows(searching("check"));
    assert_eq!(group_labels(&menu, &rows), ["Quality"]);
}

#[test]
fn filtered_item_indices_are_positions_in_the_result() {
    let menu = script_menu();
    let rows = menu.body_rows(searching("landings"));
    assert_eq!(item_indices(&rows), [0, 1], "the cursor counts matches, not all items");
}

#[test]
fn a_tab_shows_only_its_own_group() {
    let menu = tabbed(3);
    let shown = framed(&menu, on_tab(1));
    assert!(shown.contains("a1") && shown.contains("b1"));
    assert!(!shown.contains("a0"), "the other tabs' entries stay hidden");
    assert!(!shown.contains("a2"));
}

#[test]
fn a_tab_repeats_no_group_heading() {
    let menu = tabbed(3);
    let rows = menu.body_rows(on_tab(0));
    assert!(rows.iter().all(|row| matches!(row, Row::Item(..))));
}

#[test]
fn a_tab_counts_its_own_entries_from_zero() {
    let rows = tabbed(3).body_rows(on_tab(2));
    assert_eq!(item_indices(&rows), [0, 1], "the cursor counts what is on screen");
}

#[test]
fn a_pipe_is_shown_every_group_despite_the_tab_layout() {
    let shown = tabbed(3).render(plain());
    for n in 0..3 {
        assert!(shown.contains(&format!("a{n}")), "group {n} is listed");
    }
    assert!(!shown.contains("───"), "and no tab row is drawn");
}

#[test]
fn the_active_tab_is_marked_without_colour() {
    let lines: Vec<String> = framed(&tabbed(3), on_tab(1))
        .lines()
        .map(str::to_owned)
        .collect();
    let row = lines.iter().position(|l| l.contains("2 Group1")).unwrap();
    let rule = &lines[row + 1];
    let at = lines[row].find("2 Group1").unwrap();
    assert_eq!(rule.find('─'), Some(at), "the rule starts under the active tab");
    assert_eq!(rule.trim().chars().count(), "2 Group1".width());
}

#[test]
fn tabs_are_numbered_up_to_nine() {
    let shown = framed(&tabbed(11), on_tab(0));
    let row = shown.lines().find(|l| l.contains("1 Group0")).unwrap();
    assert!(row.contains("9 Group8"));
    assert!(!row.contains("10 Group9"), "past nine there is no digit left to offer");
}

#[test]
fn one_group_gets_no_tab_row() {
    let menu = Menu::new()
        .with_heading("one")
        .with_layout(Layout::Tabs)
        .add_group(Group::new("Scripts").add_item(Item::new("dev", "dev")));
    assert!(menu.active_tab(on_tab(0)).is_none());
    assert!(framed(&menu, on_tab(0)).contains("Scripts"), "as a heading");
}

#[test]
fn a_tab_index_past_the_end_is_clamped() {
    assert_eq!(tabbed(3).active_tab(on_tab(9)), Some(2));
}

#[test]
fn searching_leaves_the_tabs_and_spans_all_of_them() {
    let menu = tabbed(3);
    assert!(menu.active_tab(searching("a")).is_none());
    let shown = framed(&menu, searching("a"));
    for n in 0..3 {
        assert!(shown.contains(&format!("a{n}")), "group {n} is searched too");
    }
}

#[test]
fn groups_sharing_a_tab_collapse_into_one() {
    let menu = mixed(52);
    assert_eq!(menu.groups().len(), 55);
    assert_eq!(menu.tabs().len(), 4, "three actions and one Packages");
    assert_eq!(tab_label(&menu.groups()[menu.tabs()[3].start]), "Packages");
}

#[test]
fn a_shared_tab_keeps_each_group_heading() {
    let menu = mixed(3);
    let rows = menu.body_rows(on_tab(3));
    assert_eq!(group_labels(&menu, &rows), ["@scope/pkg0", "@scope/pkg1", "@scope/pkg2"]);
}

#[test]
fn a_shared_tab_counts_its_entries_across_the_groups() {
    let rows = mixed(3).body_rows(on_tab(3));
    assert_eq!(item_indices(&rows), [0, 1, 2], "the cursor counts the whole tab");
}

#[test]
fn a_group_that_names_its_own_tab_still_carries_no_heading() {
    let menu = mixed(3);
    let rows = menu.body_rows(on_tab(0));
    assert!(rows.iter().all(|row| matches!(row, Row::Item(..))));
}

#[test]
fn the_divider_marks_where_the_kind_changes() {
    let shown = framed(&mixed(3), on_tab(0));
    let row = shown.lines().find(|l| l.contains("1 Group0")).unwrap();
    assert!(row.contains("│"), "{row:?}");
    let (before, after) = row.split_once('│').unwrap();
    assert!(before.contains("3 Group2"), "actions on one side");
    assert!(after.contains("4 Packages"), "packages on the other");
}

#[test]
fn a_divider_never_leads_the_row() {
    let shown = frame(
        &mixed(3),
        Some(Viewport::new(0, 999).with_width(Some(24))),
        on_tab(3),
    );
    let row = shown.lines().find(|l| l.contains("Packages")).unwrap();
    assert!(!row.trim_start().starts_with('│'), "{row:?}");
}

#[test]
fn a_divider_is_counted_in_the_row_width() {
    let menu = mixed(3);
    for columns in [20, 28, 36, 50, 80] {
        let shown = frame(&menu, Some(Viewport::new(0, 999).with_width(Some(columns))), on_tab(0));
        for line in shown.lines() {
            assert!(
                line.width() <= columns,
                "width {columns}: line of {} columns: {line:?}",
                line.width()
            );
        }
    }
}

#[test]
fn a_menu_whose_groups_all_share_one_tab_gets_no_tab_row() {
    let menu = Menu::new()
        .with_layout(Layout::Tabs)
        .add_group(Group::new("a").in_tab("All").add_item(Item::new("1", "1")))
        .add_group(Group::new("b").in_tab("All").add_item(Item::new("2", "2")));
    assert!(menu.active_tab(on_tab(0)).is_none());
}

#[test]
fn a_narrow_tab_row_keeps_the_active_tab_visible() {
    let labels: Vec<String> = (0..9).map(|n| format!("{} Group{n}", n + 1)).collect();
    let widths: Vec<usize> = labels.iter().map(|l| l.width()).collect();
    let dividers: Vec<bool> = vec![false; labels.len()];
    for active in 0..labels.len() {
        for columns in [20, 30, 45, 80] {
            let window = tab_window(&widths, &dividers, active, Some(columns));
            assert!(
                window.0 <= active && active < window.1,
                "width {columns}, tab {active}: {window:?}"
            );
        }
    }
}

#[test]
fn a_tab_row_never_exceeds_the_given_width() {
    let menu = tabbed(9);
    for columns in [20, 30, 45, 80, 120] {
        let shown = frame(&menu, Some(Viewport::new(0, 999).with_width(Some(columns))), on_tab(4));
        for line in shown.lines() {
            assert!(
                line.width() <= columns,
                "width {columns}: line of {} columns: {line:?}",
                line.width()
            );
        }
    }
}

#[test]
fn a_summary_gets_its_own_line_under_the_heading() {
    let menu = Menu::new()
        .with_heading("web-casoon")
        .with_note("pnpm")
        .with_summary("27 scripts · 7 groups")
        .add_group(Group::new("G").add_item(Item::new("dev", "dev")));
    let rendered = menu.render(plain());
    let lines: Vec<&str> = rendered.lines().collect();
    assert_eq!(lines[0], "web-casoon  pnpm");
    assert_eq!(lines[1].trim(), "27 scripts · 7 groups");
    assert_eq!(lines[2], "", "the blank line stays under the block");
}

#[test]
fn chrome_height_counts_the_summary_and_the_tab_row() {
    let menu = tabbed(3).with_summary("6 scripts · 3 groups");
    assert_eq!(menu.chrome_height(on_tab(0), None), 7);
    assert_eq!(
        menu.chrome_height(searching("a"), None),
        5,
        "the tab row goes away while searching"
    );
}

#[test]
fn a_tabbed_window_never_draws_more_body_lines_than_it_was_given() {
    let menu = tabbed(9).with_summary("18 scripts · 9 groups");
    let chrome = menu.chrome_height(on_tab(4), None);
    for height in [3, 5, 10, 25] {
        let shown = frame(&menu, Some(Viewport::new(0, height)), on_tab(4));
        let body = shown.lines().count() - chrome;
        assert!(body <= height, "height {height}: drew {body} body lines");
    }
}

#[test]
fn a_footer_too_wide_breaks_rather_than_wrapping() {
    let menu = tabbed(3)
        .add_hint(Hint::new('H', "Health"))
        .add_hint(Hint::new('C', "Clean"))
        .add_hint(Hint::new('S', "Security"))
        .add_hint(Hint::new('U', "Updates"));

    for columns in [30, 40, 60, 80, 120] {
        let shown = frame(&menu, Some(Viewport::new(0, 999).with_width(Some(columns))), on_tab(0));
        for line in shown.lines() {
            assert!(
                line.width() <= columns,
                "width {columns}: line of {} columns: {line:?}",
                line.width()
            );
        }
        for key in ["←→ group", "H Health", "C Clean", "S Security", "U Updates"] {
            assert!(shown.contains(key), "width {columns} dropped {key}");
        }
    }
}

#[test]
fn the_frame_is_exactly_as_tall_as_it_says() {
    let menu = tabbed(3)
        .with_summary("6 entries · 3 groups")
        .add_hint(Hint::new('H', "Health"))
        .add_hint(Hint::new('C', "Clean"))
        .add_hint(Hint::new('S', "Security"))
        .add_hint(Hint::new('U', "Updates"));

    for columns in [30, 60, 120] {
        for view in [on_tab(0), on_tab(2), searching("a"), searching("")] {
            let shown = frame(&menu, Some(Viewport::new(0, 999).with_width(Some(columns))), view);
            let body = menu.body_height(view).min(999);
            assert_eq!(
                shown.lines().count(),
                menu.chrome_height(view, Some(columns)) + body,
                "width {columns}, view {view:?}"
            );
        }
    }
}

#[test]
fn a_long_query_cannot_wrap_the_frame() {
    let menu = tabbed(3);
    let query = "a".repeat(200);
    let shown = frame(&menu, Some(Viewport::new(0, 999).with_width(Some(40))), searching(&query));
    for line in shown.lines() {
        assert!(line.width() <= 40, "line of {} columns", line.width());
    }
}

#[test]
fn a_tabbed_frame_advertises_the_group_keys() {
    assert!(framed(&tabbed(3), on_tab(0)).contains("←→ group"));
    assert!(
        !framed(&tabbed(3), flat()).contains("←→ group"),
        "and not where they do nothing"
    );
}

#[test]
fn a_subsequence_span_measures_tightness() {
    let deploy: Vec<char> = "deploy".chars().collect();
    let q = |s: &str| -> Vec<char> { s.chars().collect() };
    assert_eq!(subsequence_span(&deploy, &q("dep")), Some(3));
    assert_eq!(subsequence_span(&deploy, &q("dy")), Some(6));
    assert_eq!(subsequence_span(&deploy, &q("dz")), None);
}

#[test]
fn the_query_line_is_drawn_while_searching() {
    let menu = script_menu();
    let shown = frame(&menu, None, searching("dep"));
    assert!(shown.contains("/ dep"));
}

#[test]
fn an_opened_search_prompts_before_anything_is_typed() {
    let menu = script_menu();
    let shown = frame(&menu, None, searching(""));
    assert!(shown.contains("type to filter"));
}

#[test]
fn rendering_is_never_windowed() {
    let output = long_menu(40).render(plain());
    assert!(output.contains("t0") && output.contains("t39"));
    assert!(!output.contains("more"));
}

#[test]
fn select_auto_mode_is_interactive_only_for_terminals() {
    assert!(SelectMode::Auto.is_interactive(true));
    assert!(!SelectMode::Auto.is_interactive(false));
    assert!(SelectMode::Always.is_interactive(false));
    assert!(!SelectMode::Never.is_interactive(true));
}

#[test]
fn display_renders_without_colour() {
    let shown = menu().to_display_string();
    assert!(!shown.contains('\u{1b}'));
    assert_eq!(shown, menu().render(plain()));
}

#[test]
fn a_non_interactive_stream_returns_without_reading() {
    assert!(!menu().takes_over(SelectMode::Auto, false));
    assert!(!menu().takes_over(SelectMode::Never, true));
    assert_eq!(menu().outcome_of(None), Outcome::Unavailable);
}

#[test]
fn an_empty_menu_never_takes_over_the_terminal() {
    assert!(!Menu::new().takes_over(SelectMode::Always, true));
    assert_eq!(Menu::new().outcome_of(None), Outcome::Unavailable);
}
