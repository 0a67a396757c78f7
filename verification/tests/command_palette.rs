use mod_workbench::json::Json;
use mod_workbench::state::{ActiveTable, AppState, LoadState, MainView};
use mod_workbench::ui::command_palette::{
    build_candidates, filter_and_score, handle_keys, visible_count, CommandPalette, PaletteAction,
    PaletteCategory, PaletteItem, PaletteKeys, MAX_ENTRY_CANDIDATES, MAX_VISIBLE_ITEMS,
};
use mod_workbench::ui::settings_panel::RecentMod;

fn item(label: &str, cat: PaletteCategory) -> PaletteItem {
    PaletteItem {
        label: label.to_string(),
        category: cat,
        action: PaletteAction::Deploy,
    }
}

fn keys(up: bool, down: bool, enter: bool, escape: bool) -> PaletteKeys {
    PaletteKeys { up, down, enter, escape }
}

#[test]
fn empty_query_keeps_everything() {
    let items = vec![
        item("Deploy", PaletteCategory::Action),
        item("Tab Foo", PaletteCategory::LoadedTable),
    ];
    let (scored, _) = filter_and_score(&items, "");
    assert_eq!(scored.len(), 2);
}

#[test]
fn substring_filter_drops_misses() {
    let items = vec![
        item("Deploy to Game", PaletteCategory::Action),
        item("Lint check", PaletteCategory::Action),
    ];
    let (scored, _) = filter_and_score(&items, "deploy");
    assert_eq!(scored.len(), 1);
    assert_eq!(scored[0].item.label, "Deploy to Game");
}

#[test]
fn prefix_match_beats_anywhere_match() {
    let items = vec![
        item("undeploy", PaletteCategory::Action),
        item("deploy now", PaletteCategory::Action),
    ];
    let (scored, _) = filter_and_score(&items, "deploy");
    assert_eq!(scored[0].item.label, "deploy now");
    assert_eq!(scored[1].item.label, "undeploy");
}

#[test]
fn category_rank_breaks_ties() {
    // Same score (anywhere match at position 0 -> 200), so category
    // rank takes over. Action (0) should beat LoadedTable (1).
    let items = vec![
        item("foo", PaletteCategory::LoadedTable),
        item("foo", PaletteCategory::Action),
    ];
    let (scored, _) = filter_and_score(&items, "foo");
    assert_eq!(scored[0].item.category, PaletteCategory::Action);
}

#[test]
fn category_short_label_does_not_panic() {
    for cat in [
        PaletteCategory::Action,
        PaletteCategory::RecentEntry,
        PaletteCategory::LoadedTable,
        PaletteCategory::LibraryMod,
    ] {
        let _ = cat.short_label();
        let _ = cat.rank();
    }
}

#[test]
fn toggle_clears_state_when_closing() {
    let mut p = CommandPalette::default();
    p.toggle();
    assert!(p.open);
    p.query = "search".into();
    p.selected_idx = 5;
    p.toggle();
    assert!(!p.open);
    assert!(p.query.is_empty());
    assert_eq!(p.selected_idx, 0);
}

#[test]
fn scores_fall_from_exact_over_prefix_to_place() {
    let items = vec![
        item("lint", PaletteCategory::Action),
        item("lint check", PaletteCategory::Action),
        item("run lint", PaletteCategory::Action),
        item("é lint", PaletteCategory::Action),
    ];
    let (scored, truncated) = filter_and_score(&items, "  LINT ");
    assert!(!truncated);
    let got: Vec<(&str, u128)> = scored.iter().map(|s| (s.item.label.as_str(), s.score)).collect();
    // "é " is three bytes long, "run " four.
    assert_eq!(got, vec![("lint", 0), ("lint check", 100), ("é lint", 203), ("run lint", 204)]);
}

#[test]
fn a_late_match_scores_by_its_place() {
    let late = format!("{}q", "x".repeat(150));
    let later = format!("{}q", "x".repeat(300));
    let items = vec![item(&later, PaletteCategory::Action), item(&late, PaletteCategory::LibraryMod)];
    let (scored, truncated) = filter_and_score(&items, "q");
    assert_eq!((scored[0].score, scored[1].score), (350, 500));
    assert_eq!(scored[0].item.label, late);
    assert!(!truncated);
}

#[test]
fn labels_break_ties_within_a_category_only_under_a_query() {
    let items = vec![
        item("zeta tab", PaletteCategory::Action),
        item("beta tab", PaletteCategory::Action),
    ];
    let (found, _) = filter_and_score(&items, "tab");
    assert_eq!(found[0].item.label, "beta tab");
    let (all, _) = filter_and_score(&items, "");
    assert_eq!(all[0].item.label, "zeta tab");
    assert_eq!(all[0].score, 500);
}

#[test]
fn more_rows_than_are_shown_is_reported() {
    let items: Vec<PaletteItem> =
        (0..21).map(|i| item(&format!("row {:02}", i), PaletteCategory::Action)).collect();
    let (scored, truncated) = filter_and_score(&items, "row");
    assert_eq!(scored.len(), 21);
    assert!(truncated);
    assert_eq!(visible_count(21), MAX_VISIBLE_ITEMS);
    assert_eq!(visible_count(3), 3);
    let (_, cut) = filter_and_score(&items[..20], "row");
    assert!(!cut);
}

#[test]
fn keys_move_the_highlight_around() {
    let mut p = CommandPalette::default();
    p.toggle();
    p.selected_idx = 9;
    assert_eq!(handle_keys(&mut p, 3, keys(false, false, false, false)), None);
    assert_eq!(p.selected_idx, 2);
    handle_keys(&mut p, 3, keys(false, true, false, false));
    assert_eq!(p.selected_idx, 0);
    handle_keys(&mut p, 3, keys(true, false, false, false));
    assert_eq!(p.selected_idx, 2);
    assert_eq!(handle_keys(&mut p, 3, keys(false, false, true, false)), Some(2));
    assert_eq!(handle_keys(&mut p, 0, keys(false, false, true, false)), None);
    assert_eq!(p.selected_idx, 0);
    assert_eq!(handle_keys(&mut p, 3, keys(false, false, true, true)), None);
    assert!(!p.open);
}

#[test]
fn candidates_list_commands_tabs_entries_and_mods() {
    let mut state = AppState::new();
    let mut t = ActiveTable::placeholder_loading("item_info".to_string());
    t.load_state = LoadState::Loaded;
    for key in 0..250u64 {
        let mut fields = vec![("key".to_string(), Json::Uint(key))];
        if key == 1 {
            fields.push(("string_key".to_string(), Json::Str("Arrow".to_string())));
        }
        t.entries.push(Json::Obj(fields));
        t.entry_keys.push(key);
    }
    state.open_tabs.push(t);
    state.active_tab_idx = Some(0);
    state.config.recent_mods.push(RecentMod {
        path: "C:/mods/a.json".to_string(),
        file_name: Some("a.json".to_string()),
    });
    state.config.recent_mods.push(RecentMod { path: "/".to_string(), file_name: None });
    let rows = build_candidates(&state);
    assert_eq!(rows.len(), 13 + 1 + MAX_ENTRY_CANDIDATES + 2);
    assert_eq!(rows[0].label, "Deploy to Game");
    assert!(matches!(rows[5].action, PaletteAction::OpenView(MainView::PabgbTables)));
    assert_eq!(rows[13].label, "Jump to Table: item_info (250 entries)");
    assert_eq!(rows[14].label, "Entry: key=0 in item_info");
    assert_eq!(rows[15].label, "Entry: Arrow (key=1) in item_info");
    assert!(matches!(&rows[15].action, PaletteAction::JumpToEntry { table, entry_idx: 1 } if table == "item_info"));
    assert_eq!(rows[214].label, "Open Library Mod: a.json");
    assert_eq!(rows[215].label, "Open Library Mod: (unnamed)");
}

#[test]
fn tags_are_two_characters_and_differ() {
    let tags: Vec<&str> = [
        PaletteCategory::Action,
        PaletteCategory::RecentEntry,
        PaletteCategory::LoadedTable,
        PaletteCategory::LibraryMod,
    ]
    .iter()
    .map(|c| c.short_label())
    .collect();
    assert_eq!(tags, vec!["Ac", "En", "Ta", "Mo"]);
}

#[test]
fn the_order_of_the_candidates_does_not_count_under_a_query() {
    let make = |order: &[usize]| -> Vec<PaletteItem> {
        let all = [
            ("run lint", PaletteCategory::Action),
            ("lint", PaletteCategory::LibraryMod),
            ("lint check", PaletteCategory::LoadedTable),
            ("lint check", PaletteCategory::Action),
            ("other", PaletteCategory::Action),
            ("a lint", PaletteCategory::Action),
        ];
        order.iter().map(|&i| item(all[i].0, all[i].1)).collect()
    };
    let shown = |items: Vec<PaletteItem>| -> Vec<(String, PaletteCategory, u128)> {
        let (scored, _) = filter_and_score(&items, "Lint");
        scored.into_iter().map(|s| (s.item.label, s.item.category, s.score)).collect()
    };
    let first = shown(make(&[0, 1, 2, 3, 4, 5]));
    assert_eq!(first.len(), 5);
    assert_eq!(first, shown(make(&[5, 4, 3, 2, 1, 0])));
    assert_eq!(first, shown(make(&[2, 5, 0, 4, 1, 3])));
}
