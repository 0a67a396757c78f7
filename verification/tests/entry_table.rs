use mod_workbench::hexdump::{format_hex_dump, format_hex_line};
use mod_workbench::json::Json;
use mod_workbench::navigation::Opened;
use mod_workbench::state::{
    ActiveTable, AppState, Catalog, GlobalSearchHit, Job, LoadState, Section, TableMeta,
};
use mod_workbench::ui::entry_table::{
    advance_match, build_bug_report, cell_can_show, cell_text, classify_error, copy_report,
    entry_matches, extract_paz_filename, filter_due, filter_tick, format_cell_value,
    header_label, hex_toggle, hit_label, jump_to_global_hit, kick_global_search,
    parse_user_number, prefix_title, raw_prefix, recompute_filter, scan_progress,
    search_summary_text, select_entry, set_global_enabled, toggle_hex, walk_localized_match,
    walk_strings_match, ErrorCategory, FilterDue, MAX_RECURSION_DEPTH,
};
use std::collections::HashMap;

fn text(s: &str) -> Json {
    Json::Str(s.to_string())
}

fn object(fields: Vec<(&str, Json)>) -> Json {
    Json::Obj(fields.into_iter().map(|(k, v)| (k.to_string(), v)).collect())
}

fn entry() -> Json {
    object(vec![
        ("key", Json::Uint(2200)),
        ("string_key", text("Pyeonjeon_Arrow")),
        ("category", text("consumable")),
        (
            "nested",
            object(vec![
                ("label", text("Sharp Pointy Stick")),
                ("deeper", object(vec![("more", text("even deeper goodness"))])),
            ]),
        ),
        ("tags", Json::Arr(vec![text("arrow"), text("ranged")])),
        ("rate", Json::Float("0.5".to_string())),
    ])
}

#[test]
fn entry_table_parse_user_number_basic() {
    assert_eq!(parse_user_number("42"), Some(42));
    assert_eq!(parse_user_number("0x2A"), Some(42));
    assert_eq!(parse_user_number("0X2a"), Some(42));
    assert_eq!(parse_user_number("0x"), None);
    assert_eq!(parse_user_number(""), None);
    assert_eq!(parse_user_number("not_a_number"), None);
}

#[test]
fn matches_numeric_key() {
    let e = entry();
    assert!(entry_matches(&e, "2200", Some(2200), None, None));
    assert!(!entry_matches(&e, "2201", Some(2201), None, None));
}

#[test]
fn matches_string_key_case_insensitive() {
    let e = entry();
    assert!(entry_matches(&e, "pyeonjeon", None, None, None));
    assert!(entry_matches(&e, "arrow", None, None, None));
    assert!(!entry_matches(&e, "longbow", None, None, None));
}

#[test]
fn matches_nested_string_value() {
    let e = entry();
    assert!(entry_matches(&e, "pointy", None, None, None));
    assert!(entry_matches(&e, "even deeper", None, None, None));
    assert!(!entry_matches(&e, "absent", None, None, None));
}

#[test]
fn no_match_on_unrelated_filter() {
    let e = entry();
    assert!(!entry_matches(&e, "totally_unrelated_string", None, None, None));
}

#[test]
fn recursion_depth_caps_out() {
    let mut deep = object(vec![("hit", text("needle"))]);
    for _ in 0..(MAX_RECURSION_DEPTH + 2) {
        deep = object(vec![("down", deep)]);
    }
    assert!(!walk_strings_match(&deep, "needle", 0));
    assert!(walk_strings_match(&text("needle"), "needle", 0));
}

#[test]
fn classify_error_buckets() {
    assert_eq!(
        classify_error("File 'foo.pabgb' not found in gamedata/binary__/client/bin"),
        ErrorCategory::PazLookup,
    );
    assert_eq!(
        classify_error("Cannot read PAMT at C:/games/CD/0008/0.pamt: not found"),
        ErrorCategory::GameDataLookup,
    );
    assert_eq!(
        classify_error("Directory 'gamedata/...' not found in 0008/0.pamt"),
        ErrorCategory::GameDataLookup,
    );
    assert_eq!(
        classify_error("panic while parsing game_play_variable_info: index out of bounds"),
        ErrorCategory::Panic,
    );
    assert_eq!(
        classify_error("game_play_variable_info: panic — slice index OOB"),
        ErrorCategory::Panic,
    );
    assert_eq!(
        classify_error("unexpected EOF while reading u32 at offset 0x1234"),
        ErrorCategory::Parser,
    );
}

#[test]
fn extract_paz_filename_basic() {
    assert_eq!(
        extract_paz_filename("File 'iteminfo.pabgb' not found in gamedata/binary__/client/bin"),
        Some("iteminfo.pabgb"),
    );
    assert_eq!(
        extract_paz_filename("Cannot read PAMT at C:/games/CD/0008/0.pamt: not found"),
        None,
    );
    assert_eq!(extract_paz_filename(""), None);
}

#[test]
fn a_message_on_something_else_names_no_file() {
    assert_eq!(extract_paz_filename("panic while parsing: File 'a.pabgb' is short"), None);
    assert_eq!(extract_paz_filename("File 'a.pabgb cut, not found in gamedata"), None);
    assert_eq!(
        extract_paz_filename("File 'a.pabgb' or 'b' not found in gamedata"),
        Some("a.pabgb")
    );
}

#[test]
fn format_hex_line_aligned_for_short_chunk() {
    let line = format_hex_line(0x10, &[0x41, 0x42, 0x43]);
    assert!(line.starts_with("00000010  41 42 43"));
    // Three bytes fill three slots; the other slots are blank, and the
    // characters stand at the end.
    assert!(line.ends_with("ABC"));
}

#[test]
fn format_hex_line_full_chunk_contains_mid_spacer() {
    let bytes: Vec<u8> = (0..16).collect();
    let line = format_hex_line(0, &bytes);
    assert!(line.contains("07  08 "), "missing mid-row spacer: {}", line);
}

#[test]
fn format_hex_dump_multi_row() {
    let bytes: Vec<u8> = (0..18).collect();
    let dump = format_hex_dump(&bytes, 0);
    let rows: Vec<&str> = dump.split('\n').collect();
    assert_eq!(rows.len(), 2);
    assert!(rows[0].starts_with("00000000  "));
    assert!(rows[1].starts_with("00000010  10 11"));
}

#[test]
fn build_bug_report_paz_lookup_includes_path() {
    let report = build_bug_report(
        "iteminfo",
        ErrorCategory::PazLookup,
        "File 'iteminfo.pabgb' not found in gamedata/binary__/client/bin",
        None,
        0,
    );
    assert!(report.contains("## Mod Workbench bug report"));
    assert!(report.contains("Workbench version: "));
    assert!(report.contains("`iteminfo`"));
    assert!(report.contains("PAZ lookup"));
    assert!(report.contains("`gamedata/binary__/client/bin/iteminfo.pabgb`"));
    assert!(report.contains("```"));
    assert!(report.contains("(no raw bytes captured"));
}

#[test]
fn build_bug_report_panic_with_bytes() {
    let prefix: Vec<u8> = (0..32).collect();
    let report = build_bug_report(
        "game_play_variable_info",
        ErrorCategory::Panic,
        "panic while parsing game_play_variable_info: slice OOB",
        Some(&prefix),
        5_242_880,
    );
    assert!(!report.contains("## PAZ path"));
    assert!(report.contains("Total raw_pabgb size: 5242880"));
    assert!(report.contains("First 32 shown"));
    assert!(report.contains("00000000  "));
    assert!(report.contains("Panic"));
}

#[test]
fn build_bug_report_parser_no_bytes() {
    let report = build_bug_report(
        "skill_info",
        ErrorCategory::Parser,
        "unexpected EOF",
        None,
        0,
    );
    assert!(report.contains("Parser error"));
    assert!(!report.contains("## PAZ path"));
    assert!(report.contains("(no raw bytes captured"));
}

fn table_with(values: &[&str]) -> ActiveTable {
    let mut t = ActiveTable::placeholder_loading("item_info".to_string());
    t.load_state = LoadState::Loaded;
    for (i, v) in values.iter().enumerate() {
        t.entries.push(object(vec![("key", Json::Uint(i as u64)), ("name", text(v))]));
        t.entry_keys.push(i as u64);
        t.filtered_indices.push(i);
    }
    t
}

fn state_with(values: &[&str]) -> AppState {
    let mut s = AppState::new();
    s.open_tabs.push(table_with(values));
    s.active_tab_idx = Some(0);
    s
}

#[test]
fn cells_show_scalars_and_count_the_rest() {
    let long = "x".repeat(41);
    let e = object(vec![
        ("n", Json::Int(-5)),
        ("f", Json::Float("0.25".to_string())),
        ("b", Json::Bool(true)),
        ("z", Json::Null),
        ("a", Json::Arr(vec![Json::Null, Json::Null])),
        ("o", object(vec![("k", Json::Null)])),
        ("s", text(&long)),
        ("k", text(&"é".repeat(30))),
    ]);
    assert_eq!(format_cell_value(&e, "n"), "-5");
    assert_eq!(format_cell_value(&e, "f"), "0.25");
    assert_eq!(format_cell_value(&e, "b"), "true");
    assert_eq!(format_cell_value(&e, "z"), "null");
    assert_eq!(format_cell_value(&e, "a"), "[2 items]");
    assert_eq!(format_cell_value(&e, "o"), "{1 fields}");
    assert_eq!(format_cell_value(&e, "s"), format!("{}...", "x".repeat(37)));
    assert_eq!(format_cell_value(&e, "missing"), "-");
    assert!(cell_can_show(&e, "s") && !cell_can_show(&e, "k"));
    assert_eq!(cell_text(&e, "n", 1, true), "-5");
    assert_ne!(cell_text(&e, "n", 0, true), cell_text(&e, "n", 0, false));
}

#[test]
fn a_filter_keeps_the_matching_rows() {
    let mut s = state_with(&["Arrow", "Bow", "Arrowhead"]);
    s.entry_filter = "ARROW".to_string();
    recompute_filter(&mut s);
    assert_eq!(s.open_tabs[0].filtered_indices, vec![0, 2]);
    s.entry_filter = "1".to_string();
    recompute_filter(&mut s);
    assert!(s.open_tabs[0].filtered_indices.contains(&1));
    s.entry_filter = String::new();
    recompute_filter(&mut s);
    assert_eq!(s.open_tabs[0].filtered_indices, vec![0, 1, 2]);
}

#[test]
fn a_shorter_filter_keeps_what_a_longer_one_kept() {
    let mut s = state_with(&["Arrow", "Barrow", "Row", "Oar"]);
    s.entry_filter = "arrow".to_string();
    recompute_filter(&mut s);
    let longer = s.open_tabs[0].filtered_indices.clone();
    s.entry_filter = "row".to_string();
    recompute_filter(&mut s);
    assert!(longer.iter().all(|i| s.open_tabs[0].filtered_indices.contains(i)));
}

#[test]
fn catalog_names_and_texts_match_too() {
    let mut names = HashMap::new();
    names.insert(2200u64, "Flechette".to_string());
    let catalog = Catalog {
        dispatch_to_section: vec![("item_info".to_string(), "items".to_string())],
        sections: vec![("items".to_string(), Section { names, entries: Vec::new() })],
        strings: HashMap::new(),
    };
    assert!(entry_matches(&entry(), "flech", None, Some("items"), Some(&catalog)));
    assert!(!entry_matches(&entry(), "flech", None, Some("others"), Some(&catalog)));
    let mut eng = HashMap::new();
    eng.insert(77u64, "Silver Key".to_string());
    let e = object(vec![("name_id", Json::Uint(77))]);
    assert!(walk_localized_match(&e, "silver", Some(&eng), None, 0));
    assert!(!walk_localized_match(&e, "gold", Some(&eng), None, 0));
    assert!(!walk_localized_match(&e, "silver", None, None, 0));
}

#[test]
fn a_filter_waits_for_the_typing_to_end() {
    let mut s = state_with(&["Arrow", "Bow"]);
    s.entry_filter = "bow".to_string();
    let (due, job) = filter_tick(&mut s, 1000);
    assert!(matches!(due, FilterDue::In(_)) && job.is_none());
    assert_eq!(s.open_tabs[0].filtered_indices, vec![0, 1]);
    let (due, _) = filter_tick(&mut s, 1500);
    assert!(matches!(due, FilterDue::Now));
    assert_eq!(s.open_tabs[0].filtered_indices, vec![1]);
    assert!(matches!(filter_due(&s, 1600), FilterDue::Nothing));
}

#[test]
fn the_next_match_comes_round() {
    let mut s = state_with(&["a", "b", "c"]);
    s.open_tabs[0].filtered_indices = vec![0, 2];
    let mut seen = Vec::new();
    for _ in 0..3 {
        s.entry_search_advance_pending = true;
        advance_match(&mut s);
        seen.push(s.open_tabs[0].selected_entry_idx);
    }
    assert_eq!(seen, vec![Some(0), Some(2), Some(0)]);
    assert!(!s.entry_search_advance_pending);
    select_entry(&mut s, 1);
    assert_eq!(s.open_tabs[0].selected_entry_idx, Some(1));
}

#[test]
fn a_search_over_all_tables_is_started_and_left() {
    let mut s = state_with(&["a"]);
    s.tables.push(TableMeta {
        dispatch_name: "item_info".to_string(),
        pabgb_filename: "iteminfo.pabgb".to_string(),
        pabgh_filename: "iteminfo.pabgh".to_string(),
    });
    assert!(kick_global_search(&mut s, "arrow".to_string()).is_none());
    s.game_dir = Some("C:/game".to_string());
    set_global_enabled(&mut s, true);
    let job = kick_global_search(&mut s, "0x10".to_string()).unwrap();
    match job {
        Job::SearchAllPabgb { request_id, filter_as_number, .. } => {
            assert_eq!(request_id, s.global_search.request_id);
            assert_eq!(filter_as_number, Some(16));
        }
        _ => panic!("another job"),
    }
    assert!(s.global_search.in_progress);
    let id = s.global_search.request_id;
    set_global_enabled(&mut s, false);
    assert!(!s.global_search.in_progress);
    assert_ne!(s.global_search.request_id, id);
}

#[test]
fn a_hit_in_an_open_table_is_selected() {
    let mut s = state_with(&["a", "b"]);
    let hit = GlobalSearchHit {
        dispatch_name: "item_info".to_string(),
        entry_idx: 1,
        entry_key: 1,
        string_key: String::new(),
        matched: "b".to_string(),
    };
    assert!(matches!(jump_to_global_hit(&mut s, &hit), Opened::Focused));
    assert_eq!(s.open_tabs[0].selected_entry_idx, Some(1));
    assert!(hit_label(&hit).contains("1"));
}

#[test]
fn search_lines_count_and_report() {
    let mut s = state_with(&["a", "b"]);
    s.global_search.scanned = 3;
    s.global_search.total = 9;
    s.global_search.current_table = "skill_info".to_string();
    assert_eq!(scan_progress(&s.global_search), "Scanning 3 / 9: skill_info");
    assert!(!search_summary_text(&s, &s.open_tabs[0]).is_empty());
    assert_eq!(prefix_title(256, 1000), "First 256 bytes (of 1000)");
}

#[test]
fn raw_bytes_can_be_shown_where_there_are_some() {
    let mut s = state_with(&["a"]);
    assert!(!hex_toggle(&s.open_tabs[0]).enabled);
    assert!(raw_prefix(&s.open_tabs[0]).is_none());
    s.open_tabs[0].raw_pabgb = Some(vec![7; 300]);
    assert!(hex_toggle(&s.open_tabs[0]).enabled);
    assert_eq!(hex_toggle(&s.open_tabs[0]).label, "Hex");
    assert_eq!(raw_prefix(&s.open_tabs[0]).unwrap().len(), 256);
    toggle_hex(&mut s);
    assert_eq!(hex_toggle(&s.open_tabs[0]).label, "Table");
}

#[test]
fn a_failed_table_gives_a_report() {
    let mut s = state_with(&[]);
    assert!(copy_report(&mut s).is_none());
    s.open_tabs[0].load_state = LoadState::Error("panic while parsing".to_string());
    let report = copy_report(&mut s).unwrap();
    assert!(report.contains("panic while parsing") && report.contains("item_info"));
    assert_eq!(s.toasts.items[0].message, "Bug report copied to clipboard.");
    assert_eq!(header_label(ErrorCategory::Panic), "Parser panic:");
    assert_eq!(ErrorCategory::PazLookup.tag(), "PAZ lookup");
}

#[test]
fn a_sign_makes_no_number_of_a_search_text() {
    assert_eq!(parse_user_number("+42"), None);
    assert_eq!(parse_user_number("0x+2A"), None);
    assert_eq!(parse_user_number("-1"), None);
    assert_eq!(parse_user_number("18446744073709551615"), Some(u64::MAX));
    assert_eq!(parse_user_number("18446744073709551616"), None);
}
