use mod_workbench::json::Json;
use mod_workbench::state::{ActiveTable, AppState, Level, LoadState, MainView};
use mod_workbench::ui::backup_panel;
use mod_workbench::ui::backup_panel::{
    clear_all_done, format_sizes, handle_delete, handle_restore, Snapshot,
};
use mod_workbench::ui::bottom_bar::{
    action_enabled, changes_text, dir_text, table_text, BottomBarAction,
};
use mod_workbench::ui::conflict_panel;
use mod_workbench::ui::conflict_panel::{
    analyze_button, conflict_details, conflict_summary, mod_name, results_header, Action,
    Conflict, ConflictKind, ConflictReport, LoadedMod,
};
use mod_workbench::ui::library_panel::{
    add_button, add_to_active, apply_active, apply_button, apply_request, delete_library_entry,
    delete_profile, import_paths, inline_line, library_match, meta_line, move_buttons,
    move_in_active, new_profile, refresh_library, remove_from_active, rename_active, store_saved,
    switch_active, tables_line, ApplyReport, LibraryMod, ScanReport, StoreChange,
};
use mod_workbench::ui::settings_panel::{
    choose_theme, current_theme, path_text, pick_catalog, pick_game_dir, reset_to_defaults,
    retention, set_retention, settings_saved, take_theme_change, theme_label, Config, Theme,
};
use mod_workbench::ui::templates_panel::{
    active_name, apply_enabled, apply_to_active_entry, default_name, draft_template, finish_draft,
    format_value, is_mismatch, list_label, listed_templates, mode_text, template_deleted,
    template_saved, templates_reloaded, Template, TemplateField,
};
use mod_workbench::ui::wizards_panel::{
    open_wizard, wizard_by_name, wizard_frame_done, WizardInfo, WizardResult,
};

fn snapshot(id: &str) -> Snapshot {
    Snapshot {
        id: id.to_string(),
        label: "l".to_string(),
        created_at: "t".to_string(),
        overlay_group: "0058".to_string(),
        papgt_size: 0,
        paz_size: 2048,
    }
}

fn library_mod(path: &str) -> LibraryMod {
    LibraryMod {
        path: path.to_string(),
        name: format!("mod {}", path),
        author: Some("A".to_string()),
        version: None,
        change_count: 3,
        tables_touched: vec!["item_info".to_string(), "skill_info".to_string()],
    }
}

fn loaded_mod(name: &str) -> LoadedMod {
    LoadedMod {
        path: format!("{}.json", name),
        name: name.to_string(),
        author: None,
        version: None,
        change_count: 1,
        entry_count: 1,
    }
}

fn direct() -> ConflictKind {
    ConflictKind::DirectConflict {
        table: "item_info".to_string(),
        entry_key: 7,
        field_path: "hp".to_string(),
        mod_a_value: Json::Uint(1),
        mod_b_value: Json::Uint(2),
    }
}

fn overlap() -> ConflictKind {
    ConflictKind::PartialOverlap {
        table: "item_info".to_string(),
        entry_key: 7,
        a_fields: vec!["hp".to_string(), "mp".to_string()],
        b_fields: Vec::new(),
    }
}

fn template(table: &str) -> Template {
    Template {
        name: "Boost".to_string(),
        description: String::new(),
        table: table.to_string(),
        field_changes: vec![TemplateField {
            path: "hp".to_string(),
            value: Json::Uint(5),
            multiplicative: false,
        }],
        user_defined: true,
    }
}

fn open_table() -> AppState {
    let e = Json::Obj(vec![
        ("key".to_string(), Json::Uint(7)),
        ("hp".to_string(), Json::Uint(1)),
    ]);
    let mut t = ActiveTable::placeholder_loading("item_info".to_string());
    t.load_state = LoadState::Loaded;
    t.vanilla.push(e.copy());
    t.entries.push(e);
    t.entry_keys.push(7);
    t.selected_entry_idx = Some(0);
    let mut s = AppState::new();
    s.open_tabs.push(t);
    s.active_tab_idx = Some(0);
    s
}

#[test]
fn snapshots_are_restored_deleted_and_cleared() {
    let mut s = AppState::new();
    assert_eq!(format_sizes(&snapshot("a")), "papgt: — | overlay: 2.0 KB");
    assert_eq!(backup_panel::format_bytes(0), "—");
    assert!(backup_panel::restore_dir(&mut s).is_none());
    handle_restore(&mut s, "a", &Ok(()), Ok(vec![snapshot("a")]));
    assert_eq!(s.status, "Restored snapshot a");
    assert_eq!(s.backup_snapshots.len(), 1);
    handle_delete(&mut s, "a", &Err("busy".to_string()), Ok(Vec::new()));
    assert!(s.toasts.items.iter().any(|t| t.message == "Delete failed: a"));
    backup_panel::arm_clear_all(&mut s, true);
    assert!(s.backup_confirm_clear_all);
    s.backup_snapshots = vec![snapshot("a"), snapshot("b")];
    clear_all_done(&mut s, &vec![Ok(()), Err("busy".to_string())], Ok(Vec::new()));
    assert!(!s.backup_confirm_clear_all && s.backup_snapshots.is_empty());
    assert!(s.toasts.items.iter().any(|t| t.message == "Deleted 1 of 2 snapshots"));
    backup_panel::refresh(&mut s, Err("gone".to_string()));
    assert_eq!(s.toasts.items.last().unwrap().message, "Failed to list snapshots");
}

#[test]
fn the_bar_tells_what_is_open() {
    let mut s = AppState::new();
    assert_eq!(dir_text(&s), "No game dir set");
    assert_eq!(table_text(&s), "No table loaded");
    assert_eq!(changes_text(&s), "No changes");
    assert!(!action_enabled(&s, BottomBarAction::Apply));
    let mut s = open_table();
    s.game_dir = Some("C:/game".to_string());
    s.open_tabs[0].changes.record_change(7, "hp".to_string());
    assert_eq!(table_text(&s), "item_info (1 entries)");
    assert_eq!(changes_text(&s), "1 entries modified");
    assert!(action_enabled(&s, BottomBarAction::Apply));
}

#[test]
fn conflicts_are_summed_up() {
    let r = ConflictReport {
        mod_names: vec!["A".to_string(), "B".to_string()],
        conflicts: vec![
            Conflict { a: 0, b: 1, kind: direct() },
            Conflict { a: 0, b: 1, kind: overlap() },
        ],
    };
    assert_eq!((r.direct_count(), r.partial_count()), (1, 1));
    assert_eq!(mod_name(&r, 1), "B");
    assert_eq!(mod_name(&r, 5), "?");
    assert_eq!(conflict_summary(&direct(), "A", "B"), "[Direct] item_info 7: hp (A ↔ B)");
    assert_eq!(
        conflict_summary(&overlap(), "A", "B"),
        "[Overlap] item_info 7: A & B touch the same entry"
    );
    let rows = conflict_details(&direct(), "A", "B");
    assert!(rows.contains(&("A value".to_string(), "1".to_string())));
    let rows = conflict_details(&overlap(), "A", "B");
    assert!(rows.contains(&("A fields".to_string(), "hp, mp".to_string())));
    assert!(rows.contains(&("B fields".to_string(), "(none)".to_string())));
    assert_eq!(results_header(&None), "Results: (run Analyze)");
    assert_eq!(
        results_header(&Some(r)),
        "Results: 2 conflicts (1 direct, 1 partial) across 2 mods"
    );
    assert_ne!(
        conflict_panel::conflict_color(&direct()),
        conflict_panel::conflict_color(&overlap())
    );
}

#[test]
fn a_changed_list_of_mods_drops_the_report() {
    let mut s = AppState::new();
    assert!(!analyze_button(&s).0);
    conflict_panel::apply_action(
        &mut s,
        Action::LoadMods(vec![
            ("a.json".to_string(), Ok(loaded_mod("a"))),
            ("x.json".to_string(), Err("not json".to_string())),
            ("b.json".to_string(), Ok(loaded_mod("b"))),
        ]),
    );
    assert_eq!(s.loaded_mods.len(), 2);
    assert!(s.toasts.items.iter().any(|t| t.message == "Failed to load mod x.json"));
    assert!(s.toasts.items.iter().any(|t| t.message == "Loaded 2 mod(s)"));
    assert!(analyze_button(&s).0);
    let report = ConflictReport {
        mod_names: vec!["a".to_string(), "b".to_string()],
        conflicts: Vec::new(),
    };
    conflict_panel::apply_action(&mut s, Action::Analyze(report));
    assert!(s.conflict_report.is_some());
    conflict_panel::apply_action(&mut s, Action::RemoveMod(0));
    assert!(s.conflict_report.is_none());
    assert_eq!(s.loaded_mods.len(), 1);
    conflict_panel::apply_action(&mut s, Action::PickPlaceholder);
    assert_eq!(s.toasts.items.last().unwrap().level, Level::Warn);
}

#[test]
fn profiles_are_made_named_and_deleted() {
    let mut s = AppState::new();
    let c = new_profile(&mut s);
    assert!(matches!(&c, StoreChange::Created(n) if n == "New Profile"));
    store_saved(&mut s, &c, &Ok(()));
    assert_eq!(s.toasts.items[0].message, "Created profile 'New Profile'");
    let second = new_profile(&mut s);
    assert!(matches!(&second, StoreChange::Created(n) if n != "New Profile"));
    assert_eq!(s.profile_store.profiles.len(), 2);
    assert!(rename_active(&mut s, "New Profile", "  ").is_none());
    assert!(switch_active(&mut s, "New Profile").is_some());
    assert!(matches!(rename_active(&mut s, "New Profile", "Main"), Some(StoreChange::Renamed)));
    assert!(s.profile_store.has("Main") && !s.profile_store.has("New Profile"));
    assert!(delete_profile(&mut s, "Main").is_some());
    assert!(!s.profile_store.has("Main"));
    assert!(delete_profile(&mut s, "Main").is_none());
}

#[test]
fn mods_of_a_profile_are_moved_and_moved_back() {
    let mut s = AppState::new();
    s.library = vec![library_mod("a"), library_mod("b"), library_mod("c")];
    assert!(add_to_active(&mut s, 0).is_none());
    new_profile(&mut s);
    for i in 0..3 {
        assert!(add_to_active(&mut s, i).is_some());
    }
    assert!(add_to_active(&mut s, 0).is_none());
    let list = |s: &AppState| s.profile_store.profiles[0].active_mods.clone();
    assert_eq!(list(&s), vec!["a", "b", "c"]);
    move_in_active(&mut s, 2, -1);
    assert_eq!(list(&s), vec!["a", "c", "b"]);
    move_in_active(&mut s, 1, 1);
    assert_eq!(list(&s), vec!["a", "b", "c"]);
    assert!(move_in_active(&mut s, 0, -1).is_none());
    assert_eq!(move_buttons(0, 3), (false, true));
    remove_from_active(&mut s, 1);
    assert_eq!(list(&s), vec!["a", "c"]);
    assert!(!add_button(&s, "a").enabled && add_button(&s, "b").enabled);
}

#[test]
fn a_deleted_mod_leaves_every_profile() {
    let mut s = AppState::new();
    s.library = vec![library_mod("a"), library_mod("b")];
    new_profile(&mut s);
    add_to_active(&mut s, 0);
    new_profile(&mut s);
    add_to_active(&mut s, 0);
    assert!(delete_library_entry(&mut s, 0, &Err("busy".to_string())).is_none());
    assert_eq!(s.library.len(), 2);
    assert!(delete_library_entry(&mut s, 0, &Ok(())).is_some());
    assert!(s.profile_store.profiles.iter().all(|p| p.active_mods.is_empty()));
    assert!(s.toasts.items.iter().any(|t| t.message == "Removed mod a from library"));
    assert_eq!(library_match(&s.library, "b"), Some(1));
    assert_eq!(library_match(&s.library, "c"), None);
}

#[test]
fn the_library_is_read_and_added_to() {
    let mut s = AppState::new();
    refresh_library(&mut s, Err("denied".to_string()));
    assert_eq!(s.toasts.items[0].message, "Library scan failed");
    refresh_library(
        &mut s,
        Ok(ScanReport {
            mods: vec![library_mod("a")],
            errors: vec![("x.json".to_string(), "not json".to_string())],
        }),
    );
    assert!(s.library_loaded);
    assert!(s.toasts.items.iter().any(|t| t.message == "Skipped x.json: not json"));
    assert!(import_paths(&mut s, &vec![("b.json".to_string(), Ok(()))]));
    assert!(!import_paths(&mut s, &vec![("c.json".to_string(), Err("bad".to_string()))]));
    assert_eq!(meta_line(&s.library[0]), "by A");
    assert_eq!(tables_line(&s.library[0]), "Tables: item_info, skill_info");
    assert_eq!(inline_line(&s.library[0]), "3 change(s)  ·  item_info, skill_info");
}

#[test]
fn a_profile_is_applied() {
    let mut s = AppState::new();
    assert!(!apply_button(&s).0);
    assert!(apply_request(&mut s).is_none());
    s.game_dir = Some("C:/game".to_string());
    assert!(apply_request(&mut s).is_none());
    assert_eq!(s.toasts.items[1].message, "No active profile.");
    new_profile(&mut s);
    assert!(apply_request(&mut s).is_some());
    let report = |deployed, skipped: Vec<(String, String)>| ApplyReport {
        deployed,
        skipped,
        restore_failed: None,
    };
    apply_active(&mut s, "P", &Ok(report(2, Vec::new())));
    assert_eq!(
        s.toasts.items.last().unwrap().message,
        "Profile 'P' applied — 2 mod(s) deployed."
    );
    apply_active(&mut s, "P", &Ok(report(0, Vec::new())));
    assert_eq!(
        s.toasts.items.last().unwrap().message,
        "Profile 'P' applied — vanilla baseline (no mods)."
    );
    apply_active(&mut s, "P", &Ok(report(1, vec![("a".to_string(), "clash".to_string())])));
    assert_eq!(
        s.toasts.items.last().unwrap().details.as_deref(),
        Some("• a: clash")
    );
    apply_active(&mut s, "P", &Err("io".to_string()));
    assert_eq!(s.toasts.items.last().unwrap().message, "Apply 'P' failed");
}

#[test]
fn settings_are_set_and_reset() {
    let mut s = AppState::new();
    assert_eq!(current_theme(&Config::default()), Theme::Dark);
    assert_eq!(retention(&s.config), 20);
    assert!(!choose_theme(&mut s, Theme::Dark));
    assert!(take_theme_change(&mut s).is_none());
    assert!(choose_theme(&mut s, Theme::Crimson));
    assert_eq!(take_theme_change(&mut s), Some(Theme::Crimson));
    assert!(take_theme_change(&mut s).is_none());
    assert_eq!(theme_label(current_theme(&s.config)), "Crimson");
    set_retention(&mut s, 3);
    assert_eq!(retention(&s.config), 3);
    assert!(!pick_game_dir(&mut s, &"C:/x".to_string(), false));
    assert_eq!(s.toasts.items[0].level, Level::Error);
    assert!(pick_game_dir(&mut s, &"C:/game".to_string(), true));
    assert_eq!(path_text(&s.config.game_dir), "C:/game");
    assert_eq!(path_text(&None), "<not set>");
    pick_catalog(&mut s, &"c.json".to_string());
    reset_to_defaults(&mut s);
    assert_eq!(current_theme(&s.config), Theme::Dark);
    assert_eq!(s.config.catalog_path.as_deref(), Some("c.json"));
    settings_saved(&mut s, &Err("ro".to_string()));
    assert_eq!(s.toasts.items.last().unwrap().message, "Failed to save settings");
}

#[test]
fn templates_are_listed_and_applied() {
    let mut s = open_table();
    assert_eq!(active_name(&s), "item_info");
    let all = vec![template("item_info"), template("skill_info")];
    assert_eq!(listed_templates(&all, true, "item_info"), vec![0]);
    assert_eq!(listed_templates(&all, false, "item_info"), vec![0, 1]);
    assert_eq!(list_label(&all[0]), "Boost  [item_info]");
    assert_eq!(mode_text(&all[0].field_changes[0]), "= replace");
    assert_eq!(format_value(&Json::Str("a".to_string())), "\"a\"");
    assert!(is_mismatch(&all[1], "item_info") && !is_mismatch(&all[0], "item_info"));
    assert!(apply_enabled(&s));
    let applied = Json::Obj(vec![
        ("key".to_string(), Json::Uint(7)),
        ("hp".to_string(), Json::Uint(5)),
    ]);
    apply_to_active_entry(&mut s, &all[0], Ok(applied), 1);
    assert_eq!(s.open_tabs[0].entries[0].get("hp").unwrap().as_u64(), Some(5));
    assert!(s.open_tabs[0].changes.is_entry_modified(7));
    assert!(s.toasts.items.last().unwrap().message.contains("Boost"));
    apply_to_active_entry(&mut s, &all[0], Err("no field".to_string()), 2);
    assert_eq!(s.toasts.items.last().unwrap().message, "Apply Template failed");
}

#[test]
fn a_template_is_made_of_the_changes_of_an_entry() {
    let mut s = open_table();
    assert!(draft_template(&mut s).is_none());
    assert_eq!(
        s.toasts.items[0].message,
        "Selected entry has no recorded changes — edit it first."
    );
    s.open_tabs[0].changes.record_change(7, "hp".to_string());
    let d = draft_template(&mut s).unwrap();
    assert_eq!(default_name(&d), "item_info_7.json");
    let t = finish_draft(d, "Mine".to_string());
    assert_eq!((t.name.as_str(), t.table.as_str()), ("Mine", "item_info"));
    assert_eq!(t.field_changes.len(), 1);
    assert_eq!(t.description, "Saved from item_info entry 7 via mod-workbench");
    template_saved(&mut s, "Mine", &Ok(()), Ok(vec![t]));
    assert_eq!(s.user_templates.len(), 1);
    template_deleted(&mut s, 0, &Ok(()));
    assert!(s.user_templates.is_empty());
    templates_reloaded(&mut s, Ok(vec![template("x")]));
    assert_eq!(s.toasts.items.last().unwrap().message, "Reloaded 1 user template");
}

#[test]
fn wizards_open_and_end() {
    let v = vec![WizardInfo { name: "Stat Boost".to_string(), description: "d".to_string() }];
    let mut s = AppState::new();
    assert_eq!(wizard_by_name(&v, "Stat Boost"), Some(0));
    assert_eq!(wizard_by_name(&v, "Other"), None);
    assert!(open_wizard(&mut s, &v, &"Stat Boost".to_string()));
    wizard_frame_done(&mut s, &WizardResult::InProgress);
    assert!(s.active_wizard.is_some());
    wizard_frame_done(
        &mut s,
        &WizardResult::Completed { changes_applied: 2, summary: "Done".to_string() },
    );
    assert!(s.active_wizard.is_none());
    assert!(s.toasts.items[0].message.contains("Done (2 changes)"));
    open_wizard(&mut s, &v, &"Stat Boost".to_string());
    wizard_frame_done(&mut s, &WizardResult::Cancelled);
    assert_eq!(s.toasts.items[1].message, "Wizard cancelled");
    assert_eq!(s.main_view, MainView::PabgbTables);
}

#[test]
fn profile_names_never_meet() {
    let mut s = AppState::new();
    for _ in 0..4 {
        new_profile(&mut s);
    }
    let first = s.profile_store.profiles[0].name.clone();
    let second = s.profile_store.profiles[1].name.clone();
    assert!(rename_active(&mut s, &first, &second).is_none());
    assert!(s.toasts.items.last().unwrap().message.contains("name taken or invalid"));
    assert!(rename_active(&mut s, &first, &first).is_some());
    delete_profile(&mut s, &second);
    new_profile(&mut s);
    let mut names: Vec<String> =
        s.profile_store.profiles.iter().map(|p| p.name.clone()).collect();
    names.sort();
    names.dedup();
    assert_eq!(names.len(), 4);
}

#[test]
fn a_template_holds_top_level_fields_once_each() {
    let mut s = open_table();
    let e = Json::Obj(vec![
        ("key".to_string(), Json::Uint(7)),
        ("hp".to_string(), Json::Uint(1)),
        (
            "drops".to_string(),
            Json::Arr(vec![Json::Obj(vec![("id".to_string(), Json::Uint(5))])]),
        ),
    ]);
    s.open_tabs[0].entries[0] = e;
    for path in ["drops[0].id", "hp", "drops", "gone.x"] {
        s.open_tabs[0].changes.record_change(7, path.to_string());
    }
    s.open_tabs[0].changes.record_change(8, "key".to_string());
    let d = draft_template(&mut s).unwrap();
    let paths: Vec<&str> = d.fields.iter().map(|f| f.path.as_str()).collect();
    assert_eq!(paths, vec!["drops", "hp"]);
    assert!(matches!(&d.fields[0].value, Json::Arr(v) if v.len() == 1));
    assert!(matches!(d.fields[1].value, Json::Uint(1)));
}
