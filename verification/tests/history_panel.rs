use mod_workbench::json::Json;
use mod_workbench::state::{EditHistory, EditOp};
use mod_workbench::ui::history_panel::{
    buttons, edit_age, first_visible, format_relative, hidden_line, jump_target, marker, row_state,
    row_summary, transition, truncate_value, try_truncate_value, HistoryAction,
};

#[test]
fn truncate_value_short_passes_through() {
    let v = Json::Str("hi".to_string());
    assert_eq!(truncate_value(&v, 20), "\"hi\"");
}

#[test]
fn truncate_value_long_gets_ellipsis() {
    let v = Json::Str("a".repeat(50));
    let out = truncate_value(&v, 10);
    assert_eq!(out.len(), 10);
    assert!(out.ends_with("..."));
}

#[test]
fn truncate_value_handles_null() {
    assert_eq!(truncate_value(&Json::Null, 10), "null");
}

#[test]
fn format_relative_seconds_minutes_hours() {
    assert_eq!(format_relative(0), "0s ago");
    assert_eq!(format_relative(45), "45s ago");
    assert_eq!(format_relative(60), "1m ago");
    assert_eq!(format_relative(125), "2m ago");
    assert_eq!(format_relative(3600), "1h ago");
}

fn op(path: &str, old: Json, new: Json) -> EditOp {
    EditOp {
        table: "item_info".to_string(),
        entry_key: 7,
        field_path: path.to_string(),
        old_value: old,
        new_value: new,
        timestamp: 1_000,
    }
}

#[test]
fn buttons_follow_the_cursor() {
    let mut h = EditHistory::new();
    let b = buttons(&h);
    assert!(!b.can_undo && !b.can_redo && !b.can_clear);
    h.record(op("hp", Json::Uint(1), Json::Uint(2)));
    let b = buttons(&h);
    assert!(b.can_undo && !b.can_redo && b.can_clear);
    h.position = 0;
    let b = buttons(&h);
    assert!(!b.can_undo && b.can_redo);
    assert!(row_state(0, 1).is_applied && row_state(0, 1).is_cursor);
    assert!(!row_state(0, 0).is_applied);
    assert_eq!((marker(true), marker(false)), ("\u{25B8} here", "  "));
}

#[test]
fn old_edits_are_hidden() {
    assert_eq!(first_visible(50), 0);
    assert_eq!(first_visible(53), 3);
    assert_eq!(hidden_line(3), "... 3 older entries hidden");
    assert!(matches!(jump_target(4), HistoryAction::JumpTo(5)));
}

#[test]
fn rows_name_the_field_and_the_change() {
    let o = op("hp", Json::Uint(1), Json::Str("a".repeat(40)));
    assert_eq!(row_summary(0, &o), "[1] item_info.hp key=7");
    assert_eq!(
        row_summary(1, &op("", Json::Null, Json::Null)),
        "[2] item_info.<entire entry> key=7"
    );
    let t = transition(&o).unwrap();
    assert!(t.starts_with("1 \u{2192} \"aaa") && t.ends_with("..."), "{}", t);
    assert_eq!(edit_age(&o, 1_000), "0s ago");
}

#[test]
fn a_text_that_cannot_be_cut_there_is_refused() {
    let v = Json::Str("é".repeat(30));
    assert_eq!(try_truncate_value(&v, 100), Some(format!("\"{}\"", "é".repeat(30))));
    assert!(try_truncate_value(&v, 11).is_none() != try_truncate_value(&v, 12).is_none());
}
