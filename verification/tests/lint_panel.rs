use mod_workbench::edit_path::set_at_path;
use mod_workbench::json::Json;
use mod_workbench::json_text::to_compact;
use mod_workbench::state::{ActiveTable, AppState, LoadState, MainView};
use mod_workbench::ui::lint_panel::{
    active_line, apply_fix, buttons, close_panel, count_by_severity, count_line, finding_place, fix_line,
    group_header, lint_groups, target_line, worst_severity, AutoFix, LintFinding,
};
use mod_workbench::ui::lint_panel::{
    severity_color, severity_glyph, severity_label, short_value, Severity,
};

#[test]
fn severity_glyph_and_color_round_trip() {
    for s in [Severity::Error, Severity::Warn, Severity::Info] {
        assert!(!severity_glyph(s).is_empty());
        assert_eq!(severity_glyph(s).chars().count(), 1);
        assert!(!severity_label(s).is_empty());
        let _ = severity_color(s);
    }
}

#[test]
fn short_value_handles_null_and_string() {
    assert_eq!(short_value(&Json::Null), "null");
    assert_eq!(short_value(&Json::Str("hi".into())), "\"hi\"");
    assert_eq!(short_value(&Json::Uint(42)), "42");
}

fn finding(rule: &str, severity: Severity, fix: Option<AutoFix>) -> LintFinding {
    LintFinding {
        severity,
        rule_name: rule.to_string(),
        table: "item_info".to_string(),
        entry_key: 7,
        entry_name: None,
        message: "m".to_string(),
        fix_suggestion: fix,
    }
}

fn set(path: &str) -> Option<AutoFix> {
    Some(AutoFix::SetField { field_path: path.to_string(), new_value: Json::Uint(3) })
}

fn remove(path: &str) -> Option<AutoFix> {
    Some(AutoFix::RemoveField { field_path: path.to_string() })
}

fn open_table() -> AppState {
    let mut t = ActiveTable::placeholder_loading("item_info".to_string());
    t.load_state = LoadState::Loaded;
    t.entries.push(Json::Obj(vec![
        ("key".to_string(), Json::Uint(7)),
        ("hp".to_string(), Json::Uint(1)),
    ]));
    t.entry_keys.push(7);
    let mut s = AppState::new();
    s.open_tabs.push(t);
    s.active_tab_idx = Some(0);
    s
}

#[test]
fn findings_are_counted_and_grouped_by_rule() {
    let f = vec![
        finding("a", Severity::Warn, None),
        finding("a", Severity::Error, None),
        finding("b", Severity::Info, None),
    ];
    assert_eq!(count_by_severity(&f), (1, 1, 1));
    assert_eq!(count_line(&f), "Errors: 1  Warnings: 1  Info: 1");
    assert_eq!(lint_groups(&f), vec![(0, 2), (2, 3)]);
    assert_eq!(worst_severity(&f, 0, 2), Severity::Error);
    assert_eq!(group_header(&f, 0, 2), "E a (2 findings)");
    assert_eq!(group_header(&f, 2, 3), "i b (1 finding)");
    assert!(Severity::Error.rank() != Severity::Info.rank());
}

#[test]
fn findings_say_their_target_and_fix() {
    let mut f = finding("a", Severity::Warn, set("hp"));
    assert_eq!(target_line(&f), "item_info : key=7");
    f.entry_name = Some("Arrow".to_string());
    assert_eq!(target_line(&f), "item_info : Arrow (key=7)");
    assert_eq!(fix_line(&f), ("Set 'hp' = 3".to_string(), true));
    assert_eq!(
        fix_line(&finding("a", Severity::Warn, remove("hp"))),
        ("Remove 'hp'".to_string(), true)
    );
    assert_eq!(
        fix_line(&finding("a", Severity::Warn, Some(AutoFix::Custom("by hand".to_string())))),
        ("Manual fix: by hand".to_string(), false)
    );
    assert_eq!(
        fix_line(&finding("a", Severity::Warn, None)),
        ("No automatic fix available.".to_string(), false)
    );
}

#[test]
fn a_fix_sets_or_removes_a_field() {
    let mut s = open_table();
    assert_eq!(apply_fix(&mut s, &finding("a", Severity::Warn, set("hp")), 1), Ok(()));
    assert_eq!(to_compact(&s.open_tabs[0].entries[0]), "{\"hp\":3,\"key\":7}");
    assert!(s.open_tabs[0].changes.is_entry_modified(7));
    assert_eq!(apply_fix(&mut s, &finding("a", Severity::Warn, remove("hp")), 2), Ok(()));
    assert_eq!(to_compact(&s.open_tabs[0].entries[0]), "{\"key\":7}");
    assert_eq!(s.open_tabs[0].history.ops.len(), 2);
}

#[test]
fn a_fix_that_cannot_be_made_says_why() {
    let mut s = open_table();
    let mut fails = |f: LintFinding| apply_fix(&mut s, &f, 1).unwrap_err();
    assert_eq!(fails(finding("a", Severity::Warn, None)), "Finding has no automatic fix.");
    let mut elsewhere = finding("a", Severity::Warn, set("hp"));
    elsewhere.table = "skill_info".to_string();
    assert_eq!(
        fails(elsewhere),
        "Tab 'skill_info' is not open. Open it first, then re-run lint."
    );
    let mut gone = finding("a", Severity::Warn, set("hp"));
    gone.entry_key = 8;
    assert_eq!(fails(gone), "Entry with key=8 no longer exists in 'item_info'.");
    assert_eq!(
        fails(finding("a", Severity::Warn, set("hp[3]"))),
        "Failed to set field 'hp[3]' on entry 7."
    );
    assert_eq!(
        fails(finding("a", Severity::Warn, remove("a.b"))),
        "Removing nested field 'a.b' is not supported yet."
    );
    assert_eq!(
        fails(finding("a", Severity::Warn, Some(AutoFix::Custom("look".to_string())))),
        "Manual fix required: look"
    );
    let mut list = open_table();
    list.open_tabs[0].entries[0] = Json::Arr(Vec::new());
    assert_eq!(
        apply_fix(&mut list, &finding("a", Severity::Warn, remove("hp")), 1).unwrap_err(),
        "Entry 7 is not an object — can't remove a field."
    );
}

#[test]
fn the_panel_tells_what_a_run_checks() {
    let mut s = open_table();
    assert_eq!(active_line(&s), "Active tab: item_info (1 entries)");
    assert_eq!(buttons(&s), (true, false));
    s.active_tab_idx = None;
    s.lint_findings.push(finding("a", Severity::Info, None));
    assert_eq!(buttons(&s), (false, true));
    assert!(active_line(&s).starts_with("No active tab"));
    s.main_view = MainView::Lint;
    close_panel(&mut s);
    assert_eq!(s.main_view, MainView::PabgbTables);
}

#[test]
fn a_removed_field_can_be_set_back() {
    let mut s = open_table();
    let before = s.open_tabs[0].entries[0].copy();
    apply_fix(&mut s, &finding("a", Severity::Warn, remove("key")), 1).unwrap();
    assert!(!s.open_tabs[0].entries[0].equals(&before));
    let op = &s.open_tabs[0].history.ops[0];
    let (path, old) = (op.field_path.clone(), op.old_value.copy());
    assert!(set_at_path(&mut s.open_tabs[0].entries[0], &path, &old));
    assert!(s.open_tabs[0].entries[0].equals(&before));
}

#[test]
fn a_finding_is_placed_by_the_key_that_its_entry_has_now() {
    let mut s = open_table();
    let mut f = finding("a", Severity::Warn, set("hp"));
    assert_eq!(finding_place(&s, &f), Some((0, 0)));
    s.renew_entry_key(0, 0, 8);
    assert_eq!(finding_place(&s, &f), None);
    assert!(apply_fix(&mut s, &f, 1).is_err());
    f.entry_key = 8;
    assert_eq!(finding_place(&s, &f), Some((0, 0)));
    assert!(apply_fix(&mut s, &f, 1).is_ok());
    assert_eq!(s.open_tabs[0].history.ops[0].entry_key, 8);
    f.table = "other".to_string();
    assert_eq!(finding_place(&s, &f), None);
}
