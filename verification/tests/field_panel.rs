use mod_workbench::edit_path::get_at_path;
use mod_workbench::json::Json;
use mod_workbench::json_text::to_compact;
use mod_workbench::state::{
    ActiveTable, AppState, Catalog, CatalogEntry, LoadState, Localization, Section,
};
use mod_workbench::ui::field_panel::{
    apply_edits, bit_is_on, bit_label, bits_header, blob_line, can_reset_entry, cap_rows,
    child_element, child_member, dropdown_label, dropdown_rows, dropdown_section, entry_note,
    field_kind, field_label, group_header, has_cjk, hex_input, integer_edit, interesting_runs,
    is_changed, list_header, note_length_line, notes_header, percent_start, picked_number,
    reset_entry, resolve_reference, run_line, selected_entry, set_entry_note, toggle_bit,
    typed_key, vanilla_hint, FieldKind, PendingEdit, TextRun,
};
use mod_workbench::ui::field_panel::{
    bitmask_kind_for, field_looks_like_color, is_color_array, is_color_object, looks_like_hash,
    normalize_field_name, parse_hex_or_dec, percent_kind_for, pretty_vanilla_summary,
    target_for_field, truncate_lines, values_differ_recursive, PercentKind,
};

fn float(s: &str) -> Json {
    Json::Float(s.to_string())
}

fn object(fields: Vec<(&str, Json)>) -> Json {
    Json::Obj(fields.into_iter().map(|(k, v)| (k.to_string(), v)).collect())
}

#[test]
fn normalize_strips_underscores_and_index() {
    assert_eq!(normalize_field_name("_skill"), "skill");
    assert_eq!(normalize_field_name("foo.gimmick_info"), "gimmick_info");
    assert_eq!(normalize_field_name("_buff_list[3]"), "buff");
    assert_eq!(normalize_field_name("skills"), "skill");
}

#[test]
fn target_for_known_fields() {
    assert_eq!(target_for_field("gimmick_info"), Some("gimmick_info"));
    assert_eq!(target_for_field("_skill_key"), Some("skill_info"));
    assert_eq!(target_for_field("name_id"), Some("STRING"));
    assert_eq!(target_for_field("equip_passive_skill_list[2]"), Some("skill_info"));
    assert_eq!(target_for_field("hp"), None);
}

#[test]
fn truncate_lines_keeps_first_n() {
    let s = "a\nb\nc\nd\ne\nf\n";
    let t = truncate_lines(s, 3);
    assert!(t.starts_with("a\nb\nc\n"));
    assert!(t.contains("..."));
}

#[test]
fn values_differ_recursive_is_a_real_function() {
    assert!(values_differ_recursive(&Json::Uint(1), &Json::Uint(2)));
    assert!(values_differ_recursive(
        &object(vec![("a", Json::Arr(vec![Json::Uint(1), Json::Uint(2)]))]),
        &object(vec![("a", Json::Arr(vec![Json::Uint(1), Json::Uint(3)]))])
    ));
    assert!(!values_differ_recursive(
        &object(vec![("a", Json::Uint(1))]),
        &object(vec![("a", Json::Uint(1))])
    ));
}

#[test]
fn pretty_vanilla_summary_includes_marker_and_truncates() {
    let names = ["a", "b", "c", "d", "e", "f", "g", "h", "i", "j", "k", "l", "m", "n", "o"];
    let mut fields: Vec<(&str, Json)> = Vec::new();
    for (i, name) in names.iter().enumerate() {
        fields.push((name, Json::Uint(i as u64 + 1)));
    }
    let v = object(fields);
    let s = pretty_vanilla_summary(&v);
    assert!(s.starts_with("Vanilla:\n"));
    assert!(s.contains("..."));
}

#[test]
fn percent_kind_detects_common_names() {
    assert_eq!(percent_kind_for("drop_rate"), Some(PercentKind::Unit));
    assert_eq!(percent_kind_for("loot_percent"), Some(PercentKind::Hundred));
    assert_eq!(percent_kind_for("percentage"), Some(PercentKind::Hundred));
    assert!(percent_kind_for("hp").is_none());
    assert!(percent_kind_for("price").is_none());
}

#[test]
fn bitmask_kind_detects_flags_mask_bits() {
    assert_eq!(bitmask_kind_for("flags"), Some(32));
    assert_eq!(bitmask_kind_for("equip_mask"), Some(32));
    assert_eq!(bitmask_kind_for("status_bits"), Some(32));
    assert_eq!(bitmask_kind_for("bitmask_extra"), Some(32));
    assert!(bitmask_kind_for("hp").is_none());
    assert!(bitmask_kind_for("name").is_none());
}

#[test]
fn looks_like_hash_triggers_on_suffixes() {
    assert!(looks_like_hash("name_hash", 0, true));
    assert!(looks_like_hash("string_key", 0, true));
    assert!(looks_like_hash("buff_key", 100, true));
    assert!(!looks_like_hash("hp", 100, true));
    assert!(!looks_like_hash("level", -1, false));
}

#[test]
fn looks_like_hash_triggers_on_large_unsigned() {
    assert!(looks_like_hash("foo", 0xC000_0000, true));
    assert!(looks_like_hash("foo", 0x1_0000_0000, true));
    // Negative i64 should not trigger when the source wasn't unsigned.
    assert!(!looks_like_hash("foo", -1, false));
}

#[test]
fn a_number_with_a_high_bit_looks_like_a_hash_however_it_is_stored() {
    assert!(looks_like_hash("foo", 0x8000_0000, false));
    assert!(looks_like_hash("foo", 0x1_0000_0000, false));
    assert!(!looks_like_hash("foo", 0x7FFF_FFFF, false));
    assert!(looks_like_hash("foo", -1, true));
}

#[test]
fn field_looks_like_color_matches() {
    assert!(field_looks_like_color("base_color"));
    assert!(field_looks_like_color("tintColor"));
    assert!(field_looks_like_color("rgba"));
    assert!(!field_looks_like_color("hp"));
    assert!(!field_looks_like_color("price"));
}

#[test]
fn is_color_array_requires_name_and_shape() {
    let three = vec![Json::Uint(255), Json::Uint(128), Json::Uint(0)];
    let four = vec![float("0.5"), float("0.25"), float("0.0"), float("1.0")];
    let two = vec![Json::Uint(1), Json::Uint(2)];
    // Field name matches color, shape matches.
    assert!(is_color_array("tint_color", &three));
    assert!(is_color_array("tint_color", &four));
    // Shape matches but name doesn't — pure position vectors etc.
    assert!(!is_color_array("position", &three));
    // Name matches but shape doesn't.
    assert!(!is_color_array("color", &two));
}

#[test]
fn is_color_object_recognizes_rgb_and_rgba() {
    let rgb = vec![
        ("r".to_string(), Json::Uint(0)),
        ("g".to_string(), Json::Uint(0)),
        ("b".to_string(), Json::Uint(0)),
    ];
    assert!(is_color_object("base_color", &rgb));

    let weird = vec![
        ("x".to_string(), Json::Uint(1)),
        ("y".to_string(), Json::Uint(2)),
        ("z".to_string(), Json::Uint(3)),
    ];
    assert!(!is_color_object("tint", &weird));
}

#[test]
fn parse_hex_or_dec_basics() {
    assert_eq!(parse_hex_or_dec("0xFF"), Some(0xFF));
    assert_eq!(parse_hex_or_dec("0X10"), Some(16));
    assert_eq!(parse_hex_or_dec("100"), Some(100));
    assert_eq!(parse_hex_or_dec("0xffff_zz"), None);
    assert_eq!(parse_hex_or_dec(""), None);
}

fn text(s: &str) -> Json {
    Json::Str(s.to_string())
}

fn edited_state() -> AppState {
    let mut t = ActiveTable::placeholder_loading("item_info".to_string());
    t.load_state = LoadState::Loaded;
    let e = object(vec![
        ("key", Json::Uint(7)),
        ("hp", Json::Uint(10)),
        ("list", Json::Arr(vec![Json::Uint(1), Json::Uint(2)])),
    ]);
    t.vanilla.push(e.copy());
    t.entries.push(e);
    t.entry_keys.push(7);
    let mut s = AppState::new();
    s.open_tabs.push(t);
    s.active_tab_idx = Some(0);
    s
}

fn edit(path: &str, value: Option<Json>) -> PendingEdit {
    PendingEdit { path: path.to_string(), value }
}

#[test]
fn edits_are_applied_recorded_and_reset() {
    let mut s = edited_state();
    assert!(selected_entry(&s).is_err());
    s.open_tabs[0].selected_entry_idx = Some(0);
    assert_eq!(selected_entry(&s), Ok((0, 0)));
    apply_edits(&mut s, 0, &vec![edit("hp", Some(Json::Uint(99))), edit("list[1]", Some(Json::Null))], 5);
    let t = &s.open_tabs[0];
    assert_eq!(to_compact(get_at_path(&t.entries[0], "hp").unwrap()), "99");
    assert_eq!(to_compact(get_at_path(&t.entries[0], "list").unwrap()), "[1,null]");
    assert_eq!(t.history.ops.len(), 2);
    assert_eq!(to_compact(&t.history.ops[0].old_value), "10");
    assert!(t.changes.is_entry_modified(7) && can_reset_entry(t, 0));
    apply_edits(&mut s, 0, &vec![edit("hp", None)], 6);
    assert_eq!(to_compact(get_at_path(&s.open_tabs[0].entries[0], "hp").unwrap()), "10");
    assert_eq!(s.open_tabs[0].history.ops.len(), 3);
    reset_entry(&mut s, 0, 7);
    let t = &s.open_tabs[0];
    assert_eq!(to_compact(&t.entries[0]), to_compact(&t.vanilla[0]));
    assert!(!t.changes.is_entry_modified(7));
    assert_eq!(t.history.ops[3].field_path, "");
}

#[test]
fn an_edit_that_leads_nowhere_changes_nothing() {
    let mut s = edited_state();
    apply_edits(&mut s, 0, &vec![edit("list[9]", Some(Json::Null))], 5);
    assert!(s.open_tabs[0].history.ops.is_empty());
    assert!(!s.open_tabs[0].changes.is_entry_modified(7));
}

#[test]
fn the_old_value_of_an_edit_undoes_it() {
    let mut s = edited_state();
    let before = to_compact(&s.open_tabs[0].entries[0]);
    apply_edits(&mut s, 0, &vec![edit("list[0]", Some(text("x")))], 5);
    let old = s.open_tabs[0].history.ops[0].old_value.copy();
    apply_edits(&mut s, 0, &vec![edit("list[0]", Some(old))], 6);
    assert_eq!(to_compact(&s.open_tabs[0].entries[0]), before);
}

#[test]
fn paths_of_children_lead_to_them() {
    assert_eq!(child_member("a", "b"), "a.b");
    assert_eq!(child_element("a.b", 3), "a.b[3]");
    let doc = object(vec![("a", object(vec![("b", Json::Arr(vec![Json::Uint(5)]))]))]);
    let path = child_element(&child_member("a", "b"), 0);
    assert_eq!(to_compact(get_at_path(&doc, &path).unwrap()), "5");
}

#[test]
fn widgets_are_chosen_by_name_and_value() {
    assert!(matches!(
        field_kind("hp", "hp", &Json::Uint(5), false),
        FieldKind::Integer { value: 5, unsigned_origin: false }
    ));
    assert!(matches!(field_kind("hp", "hp", &Json::Int(-5), false), FieldKind::Integer { value: -5, .. }));
    assert!(matches!(field_kind("r", "r", &float("0.5"), false), FieldKind::Float));
    assert!(matches!(field_kind("s", "x.blob_b64", &text("a"), false), FieldKind::Blob));
    assert!(matches!(field_kind("s", "blob", &text("a"), true), FieldKind::Blob));
    assert!(matches!(field_kind("s", "s", &text("a"), true), FieldKind::Text { .. }));
    assert!(matches!(field_kind("s", "s", &text("a"), false), FieldKind::Text { multiline: false }));
    assert!(matches!(field_kind("b", "b", &Json::Bool(true), false), FieldKind::Flag(true)));
    assert!(matches!(field_kind("n", "n", &Json::Null, false), FieldKind::Nothing));
    let rgb = Json::Arr(vec![Json::Uint(1), Json::Uint(2), Json::Uint(3)]);
    assert!(matches!(field_kind("tint_color", "tint_color", &rgb, false), FieldKind::ColorList));
    assert!(matches!(field_kind("pos", "pos", &rgb, false), FieldKind::List(3)));
    assert!(matches!(field_kind("o", "o", &object(Vec::new()), false), FieldKind::Group(0)));
}

#[test]
fn large_hashes_keep_their_value() {
    let hash = 0xFFFF_FFFF_0000_0001u64;
    let value = match field_kind("foo", "foo", &Json::Uint(hash), false) {
        FieldKind::Integer { value, unsigned_origin: true } => value,
        other => panic!("{:?}", other),
    };
    assert_eq!(to_compact(&integer_edit(value, true)), hash.to_string());
    assert_eq!(to_compact(&integer_edit(-3, false)), "-3");
    assert_eq!(hex_input(value), format!("0x{:X}", hash));
    assert_eq!(typed_key(&hex_input(value)), Some(value));
    assert_eq!(typed_key("nonsense"), None);
}

#[test]
fn bits_are_turned_one_by_one() {
    let v = toggle_bit(0b100, 0, true);
    assert_eq!(v, 0b101);
    assert!(bit_is_on(v, 2) && !bit_is_on(v, 1));
    assert_eq!(toggle_bit(v, 2, false), 1);
    assert_eq!(toggle_bit(0, 63, true), i64::MIN);
    assert_eq!(bits_header(0b101, 32), "Bits (2 of 32)");
    assert_eq!(bit_label(3), "B03");
    assert_eq!(bit_label(31), "B31");
    assert_eq!((percent_start(-4), percent_start(50), percent_start(400)), (0, 50, 100));
}

#[test]
fn labels_mark_what_changed() {
    assert!(is_changed(&Json::Uint(1), Some(&Json::Uint(2))));
    assert!(!is_changed(&Json::Uint(1), None));
    assert_ne!(field_label("hp", true), field_label("hp", false));
    assert_eq!(field_label("hp", false).trim(), "hp");
    assert!(list_header("list", false, 4).ends_with("list [4 items]"));
    assert!(group_header("pos", true, 2).ends_with("pos {2 fields}"));
    assert_eq!(vanilla_hint(&Json::Arr(vec![Json::Uint(1)])), "Vanilla: [1]");
    assert_eq!(blob_line(64, 2), "[blob, 64 bytes b64, 2 text runs]");
    assert_eq!(truncate_lines("a\nb\n", 5), "a\nb\n");
}

#[test]
fn runs_worth_showing_hold_something() {
    assert!(has_cjk("검 of fire") && !has_cjk("sword"));
    let runs = vec![
        TextRun { text: "불의 검".to_string(), has_cjk: true },
        TextRun { text: "ab".to_string(), has_cjk: false },
        TextRun { text: "character_name".to_string(), has_cjk: false },
    ];
    assert_eq!(interesting_runs(&runs), vec![0, 2]);
    assert_eq!(run_line(&runs[0]), "📝 불의 검");
    assert_eq!(run_line(&runs[2]), "character_name");
}

fn row(key: &str, name: &str) -> CatalogEntry {
    CatalogEntry {
        key_text: key.to_string(),
        value: object(vec![("key", Json::Uint(key.parse().unwrap())), ("name", text(name))]),
    }
}

fn catalog() -> Catalog {
    let mut names = std::collections::HashMap::new();
    names.insert(5u64, "Fireball".to_string());
    let mut strings = std::collections::HashMap::new();
    strings.insert(9u64, "Hello".to_string());
    Catalog {
        dispatch_to_section: vec![
            ("skill_info".to_string(), "skills".to_string()),
            ("gimmick_info".to_string(), "gimmicks".to_string()),
        ],
        sections: vec![(
            "skills".to_string(),
            Section { names, entries: vec![row("5", "Fireball"), row("4", "Blink")] },
        )],
        strings,
    }
}

#[test]
fn catalog_rows_are_offered_by_name_or_key() {
    let c = catalog();
    let section = dropdown_section(&c, "skill_info").unwrap();
    let all = dropdown_rows(&section.entries, "");
    assert_eq!(all.len(), 2);
    assert_eq!(dropdown_rows(&section.entries, "fire"), vec![0]);
    assert!(dropdown_rows(&section.entries, "zzz").is_empty());
    assert_eq!(picked_number(&section.entries[0]), Some(5));
    assert!(dropdown_label(&section.entries[0]).ends_with("[5]"));
    assert_eq!(cap_rows(501), (500, 1));
    assert_eq!(cap_rows(3), (3, 0));
    assert_eq!(
        dropdown_section(&c, "nothing").map(|_| ()).unwrap_err(),
        "No section mapped for this dispatch."
    );
    assert_eq!(
        dropdown_section(&c, "gimmick_info").map(|_| ()).unwrap_err(),
        "Section 'gimmicks' not loaded."
    );
}

#[test]
fn references_are_resolved_through_catalog_and_texts() {
    let c = Some(catalog());
    let hit = resolve_reference("_skill_key", 5, &c, &None).unwrap();
    assert!(hit.0.contains("Fireball"));
    assert!(resolve_reference("hp", 5, &c, &None).is_none());
    assert!(resolve_reference("_skill_key", 5, &None, &None).is_none());
    let mut eng = std::collections::HashMap::new();
    eng.insert(9u64, "Silver Key".to_string());
    let mut kor = std::collections::HashMap::new();
    kor.insert(9u64, "은 열쇠".to_string());
    let loc = Some(Localization { eng, kor });
    let both = resolve_reference("name_id", 9, &c, &loc).unwrap();
    assert!(both.0.contains("Silver Key"));
    assert!(both.1.unwrap().contains("은 열쇠"));
}

#[test]
fn notes_are_put_on_an_entry() {
    let mut s = edited_state();
    assert_eq!(entry_note(&s, "item_info", 7), "");
    assert_eq!(notes_header(""), "Notes");
    set_entry_note(&mut s, "item_info", 7, "why 검".to_string());
    let note = entry_note(&s, "item_info", 7);
    assert_eq!(notes_header(&note), "Notes \u{1F4DD}");
    assert_eq!(note_length_line(&note), "5 chars");
}

#[test]
fn only_whole_endings_make_a_hash_of_a_name() {
    assert!(!looks_like_hash("monkey", 0, true));
    assert!(!looks_like_hash("key", 0, true));
    assert!(looks_like_hash("_key", 0, true));
    assert!(looks_like_hash("a.b_KEY[2]", 0, false));
    assert!(looks_like_hash("string_key_hash", 0, false));
}

#[test]
fn place_index_and_case_do_not_count_for_a_name() {
    for x in ["skill", "Buff_List", "a.b_c", "_x", "a[b", "", "s", "__Hits"] {
        let plain = normalize_field_name(x);
        assert_eq!(normalize_field_name(&format!("_{}", x)), plain);
        assert_eq!(normalize_field_name(&format!("parent.{}", x)), plain);
        assert_eq!(normalize_field_name(&format!("{}[7]", x)), plain);
        assert_eq!(normalize_field_name(&x.to_ascii_uppercase()), plain);
        assert!(!plain.contains('.') && !plain.starts_with('_'));
    }
    assert_eq!(normalize_field_name("a[1][7]"), "a[1]");
}

#[test]
fn edits_go_by_the_key_that_the_entry_has_now() {
    let mut s = edited_state();
    s.open_tabs[0].selected_entry_idx = Some(0);
    apply_edits(&mut s, 0, &vec![edit("key", Some(Json::Uint(8)))], 1);
    assert_eq!(s.open_tabs[0].history.ops[0].entry_key, 7);
    s.renew_entry_key(0, 0, 8);
    apply_edits(&mut s, 0, &vec![edit("hp", Some(Json::Uint(3)))], 2);
    let t = &s.open_tabs[0];
    assert_eq!(t.entry_keys, vec![8]);
    assert_eq!(t.history.ops[1].entry_key, 8);
    assert!(t.changes.is_entry_modified(7) && t.changes.is_entry_modified(8));
    s.renew_entry_key(0, 1, 9);
    s.renew_entry_key(1, 0, 9);
    assert_eq!(s.open_tabs[0].entry_keys, vec![8]);
    assert!(s.tabs_in_order());
}
