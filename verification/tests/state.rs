use mod_workbench::json::Json;
use mod_workbench::navigation::{open_at, push_placeholder, Opened};
use mod_workbench::state::{
    find_tab, ActiveTable, AppState, ChangeTracker, EditHistory, EditOp, FormatSet, Job, Level,
    LoadState, NoteStore, SearchFormat, TableMeta, Toasts,
};
use mod_workbench::ui::tab_bar::{
    apply_action, build_tab_label, can_close_others, can_close_to_right, tab_label, Action,
};
use mod_workbench::ui::table_list::{
    detect_columns, in_focus, retry_load, row_label_text, submit_load, visible_tables,
};

fn tab(name: &str) -> ActiveTable {
    let mut t = ActiveTable::placeholder_loading(name.to_string());
    t.load_state = LoadState::Loaded;
    t
}

fn meta(name: &str) -> TableMeta {
    TableMeta {
        dispatch_name: name.to_string(),
        pabgb_filename: format!("{}.pabgb", name),
        pabgh_filename: format!("{}.pabgh", name),
    }
}

fn with_tabs(names: &[&str], active: Option<usize>) -> AppState {
    let mut state = AppState::new();
    for n in names {
        state.open_tabs.push(tab(n));
    }
    state.active_tab_idx = active;
    state
}

fn names(state: &AppState) -> Vec<String> {
    state.open_tabs.iter().map(|t| t.dispatch_name.clone()).collect()
}

#[test]
fn messages_are_kept_in_order() {
    let mut t = Toasts::new();
    t.info("a");
    t.warn("b");
    t.error("c");
    t.error_with_details("d", "why");
    let levels: Vec<Level> = t.items.iter().map(|x| x.level).collect();
    assert_eq!(levels, vec![Level::Info, Level::Warn, Level::Error, Level::Error]);
    assert_eq!(t.items[3].details.as_deref(), Some("why"));
}

#[test]
fn the_focus_stays_on_its_tab_when_another_is_closed() {
    let mut s = with_tabs(&["a", "b", "c"], Some(2));
    s.close_tab(0);
    assert_eq!(s.active_table().unwrap().dispatch_name, "c");
    s.close_tab(1);
    assert_eq!(s.active_table().unwrap().dispatch_name, "b");
    s.close_tab(0);
    assert!(s.active_table().is_none());
    s.close_tab(5);
    assert!(s.open_tabs.is_empty());
}

#[test]
fn tabs_are_closed_by_the_bar() {
    let mut s = with_tabs(&["a", "b", "c"], Some(0));
    assert!(can_close_others(&s));
    assert!(can_close_to_right(&s, 1) && !can_close_to_right(&s, 2));
    apply_action(&mut s, Action::Focus(1));
    assert_eq!(s.active_tab_idx, Some(1));
    apply_action(&mut s, Action::Focus(9));
    assert_eq!(s.active_tab_idx, Some(1));
    apply_action(&mut s, Action::CloseToRight(1));
    assert_eq!(names(&s), vec!["a", "b"]);
    apply_action(&mut s, Action::CloseOthers(1));
    assert_eq!(names(&s), vec!["b"]);
    assert_eq!(s.active_tab_idx, Some(0));
    assert!(!can_close_others(&s));
    apply_action(&mut s, Action::Close(0));
    assert!(names(&s).is_empty());
}

#[test]
fn tab_labels_show_count_and_state() {
    assert_eq!(build_tab_label("item_info", 3, false), "item_info (3)");
    assert_eq!(build_tab_label("item_info", 3, true), "item_info (3) \u{25CF}");
    let mut t = ActiveTable::placeholder_loading("x".to_string());
    assert_eq!(tab_label(&t), "x ⏳");
    t.load_state = LoadState::Error("bad".to_string());
    assert_eq!(tab_label(&t), "x ❌");
    t.load_state = LoadState::Loaded;
    t.changes.record_change(1, "hp".to_string());
    assert_eq!(tab_label(&t), "x (0) \u{25CF}");
}

#[test]
fn a_table_is_focused_or_loaded() {
    let mut s = with_tabs(&["a"], None);
    s.tables = vec![meta("a"), meta("b")];
    assert!(submit_load(&mut s, 0).is_none());
    assert_eq!(s.status, "Focused a");
    assert_eq!(s.active_tab_idx, Some(0));
    assert!(submit_load(&mut s, 1).is_none());
    assert_eq!(s.toasts.items[0].message, "Set game dir first");
    s.game_dir = Some("C:/game".to_string());
    let job = submit_load(&mut s, 1).unwrap();
    assert!(matches!(job, Job::LoadTable { dispatch_name, pabgb_filename, .. }
        if dispatch_name == "b" && pabgb_filename == "b.pabgb"));
    assert_eq!(s.status, "Loading b in background...");
    assert_eq!(find_tab(&s.open_tabs, "b"), Some(1));
    assert!(in_focus(&s, "b"));
}

#[test]
fn a_failed_table_can_be_loaded_again() {
    let mut s = with_tabs(&["b"], Some(0));
    s.tables = vec![meta("b")];
    s.game_dir = Some("C:/game".to_string());
    s.open_tabs[0].load_state = LoadState::Error("panic".to_string());
    assert!(matches!(retry_load(&mut s), Some(Job::LoadTable { .. })));
    assert!(matches!(s.open_tabs[0].load_state, LoadState::Loading));
}

#[test]
fn tables_are_listed_by_filter_and_state() {
    let mut s = with_tabs(&["item_info"], Some(0));
    s.tables = vec![meta("item_info"), meta("skill_info"), meta("drop_sets")];
    s.loaded_tables = vec!["skill_info".to_string()];
    s.table_filter = "INFO".to_string();
    assert_eq!(visible_tables(&s), vec![0, 1]);
    assert_eq!(row_label_text(&s, "item_info"), "item_info (0)");
    assert_eq!(row_label_text(&s, "skill_info"), "skill_info ✓");
    assert_eq!(row_label_text(&s, "drop_sets"), "drop_sets");
}

#[test]
fn columns_are_few_and_start_with_the_keys() {
    let e = Json::Obj(vec![
        ("z".to_string(), Json::Uint(1)),
        ("string_key".to_string(), Json::Str("s".to_string())),
        ("list".to_string(), Json::Arr(Vec::new())),
        ("key".to_string(), Json::Uint(1)),
        ("a".to_string(), Json::Bool(true)),
        ("b".to_string(), Json::Null),
        ("c".to_string(), Json::Uint(2)),
        ("d".to_string(), Json::Uint(2)),
        ("e".to_string(), Json::Uint(2)),
    ]);
    let cols = detect_columns(&[e]);
    assert_eq!(&cols[..2], &["key".to_string(), "string_key".to_string()]);
    assert!(cols.len() <= 6);
    assert!(!cols.contains(&"list".to_string()));
    assert_eq!(detect_columns(&[]), vec!["key"]);
    assert_eq!(detect_columns(&[Json::Null]), vec!["key"]);
}

#[test]
fn a_hit_opens_its_table() {
    let mut s = with_tabs(&["a"], None);
    s.tables = vec![meta("a"), meta("b")];
    assert!(matches!(open_at(&mut s, &"a".to_string(), 0, 7), Opened::Focused));
    assert!(matches!(open_at(&mut s, &"b".to_string(), 0, 7), Opened::Refused));
    s.game_dir = Some("C:/game".to_string());
    assert!(matches!(open_at(&mut s, &"b".to_string(), 0, 7), Opened::Loading(_)));
    assert!(matches!(open_at(&mut s, &"nowhere".to_string(), 0, 7), Opened::Refused));
    let n = s.open_tabs.len();
    push_placeholder(&mut s, &"c".to_string());
    assert_eq!(s.open_tabs.len(), n + 1);
}

#[test]
fn changes_are_recorded_once_and_forgotten() {
    let mut c = ChangeTracker::new();
    c.record_change(1, "hp".to_string());
    c.record_change(1, "hp".to_string());
    c.record_change(1, "mp".to_string());
    c.record_change(2, "hp".to_string());
    assert_eq!(c.modified.len(), 3);
    assert!(c.is_entry_modified(1));
    c.unrecord_field(1, "hp");
    assert!(c.is_entry_modified(1));
    c.unrecord_entry(1);
    assert!(!c.is_entry_modified(1));
    assert!(c.is_entry_modified(2));
    assert!(c.change_count() > 0);
}

#[test]
fn a_new_edit_drops_what_was_undone() {
    let mut h = EditHistory::new();
    let op = |n: u64| EditOp {
        table: "t".to_string(),
        entry_key: n,
        field_path: "f".to_string(),
        old_value: Json::Null,
        new_value: Json::Uint(n),
        timestamp: n,
    };
    h.record(op(1));
    h.record(op(2));
    assert_eq!((h.ops.len(), h.position), (2, 2));
    h.position = 1;
    h.record(op(3));
    assert_eq!((h.ops.len(), h.position), (2, 2));
    assert_eq!(h.ops[1].entry_key, 3);
}

#[test]
fn notes_are_kept_by_table_and_key() {
    let mut n = NoteStore::new();
    assert!(n.get("t", 1).is_none());
    n.set("t", 1, "a".to_string());
    n.set("t", 2, "b".to_string());
    n.set("t", 1, "c".to_string());
    assert_eq!(n.get("t", 1).as_deref(), Some("c"));
    assert_eq!(n.get("t", 2).as_deref(), Some("b"));
    assert!(n.get("u", 1).is_none());
}

#[test]
fn format_switches_turn_alone() {
    let mut f = FormatSet::none();
    assert!(f.is_empty());
    f.set(SearchFormat::Xml, true);
    assert!(f.contains(SearchFormat::Xml) && !f.contains(SearchFormat::Paac));
    assert!(!f.is_empty());
    f.set(SearchFormat::Xml, false);
    assert!(f.is_empty());
}

#[test]
fn a_table_never_gets_a_second_tab() {
    let mut s = with_tabs(&[], None);
    s.tables = vec![meta("a"), meta("b")];
    s.game_dir = Some("C:/game".to_string());
    submit_load(&mut s, 0);
    submit_load(&mut s, 1);
    submit_load(&mut s, 0);
    assert!(matches!(open_at(&mut s, &"b".to_string(), 0, 0), Opened::Focused));
    assert_eq!(names(&s), vec!["a", "b"]);
    s.close_tab(0);
    submit_load(&mut s, 0);
    assert_eq!(names(&s), vec!["b", "a"]);
    assert!(s.tabs_in_order());
    s.open_tabs[0].entry_keys.push(1);
    assert!(!s.tabs_in_order());
}

#[test]
fn only_three_columns_come_first() {
    let e = Json::Obj(vec![
        ("a".to_string(), Json::Uint(1)),
        ("unk_key".to_string(), Json::Uint(2)),
        ("_key".to_string(), Json::Uint(3)),
        ("key".to_string(), Json::Uint(4)),
    ]);
    assert_eq!(detect_columns(&[e]), vec!["key", "a", "unk_key", "_key"]);
}
