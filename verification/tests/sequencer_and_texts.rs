use mod_workbench::paz_file::PazEntry;
use mod_workbench::state::{AppState, Level, PendingNav};
use mod_workbench::ui::binary_inspector_panel;
use mod_workbench::ui::binary_inspector_panel::{
    allowed_extensions, extension_enabled, position_hex, set_extension, BinaryFileEntry,
    BinaryInspectorSession,
};
use mod_workbench::ui::paloc_panel;
use mod_workbench::ui::paloc_panel::{changes_line, PalocEntry, PalocSession};
use mod_workbench::ui::paseq_panel;
use mod_workbench::ui::paseq_panel::{
    can_swap, chosen_label, mode_text, swap_line, swap_request, NpcEntry, PaseqMode, PaseqSession,
};

fn text_entry(id: u64, key: &str, value: &str) -> PalocEntry {
    PalocEntry { unk_id: id, string_key: key.to_string(), string_value: value.to_string() }
}

fn texts(language: &str) -> PalocSession {
    PalocSession {
        language: language.to_string(),
        entries: vec![text_entry(10, "Item_A", "Arrow"), text_entry(20, "Item_B", "Bow")],
        vanilla: vec![text_entry(10, "Item_A", "Arrow"), text_entry(20, "Item_B", "Bow")],
        filter: String::new(),
        pending_scroll_row: None,
    }
}

fn npc(stem: &str, name: &str) -> NpcEntry {
    NpcEntry {
        stem: stem.to_string(),
        dir_path: "sequencer".to_string(),
        display_name: name.to_string(),
    }
}

fn binary(ext: &str, file: &str) -> BinaryFileEntry {
    BinaryFileEntry {
        group: "0014".to_string(),
        dir_path: "stage".to_string(),
        filename: file.to_string(),
        extension: ext.to_string(),
    }
}

#[test]
fn texts_are_filtered_by_key_or_value() {
    let mut s = texts("eng");
    assert_eq!(s.visible_rows(), vec![0, 1]);
    assert_eq!(s.count_line(2), "2 entries");
    s.filter = "BOW".to_string();
    assert_eq!(s.visible_rows(), vec![1]);
    assert_eq!(s.count_line(1), "1 of 2 entries");
    s.filter = "item_a".to_string();
    assert!(s.matches_filter(&s.entries[0]) && !s.matches_filter(&s.entries[1]));
}

#[test]
fn changed_texts_are_counted() {
    let mut s = texts("eng");
    assert_eq!(s.change_count(), 0);
    assert_eq!(changes_line(0), "no changes");
    s.entries[1].string_value = "Longbow".to_string();
    s.entries.push(text_entry(30, "new", "new"));
    assert_eq!(s.change_count(), 1);
    assert!(s.is_changed(1) && !s.is_changed(2));
    assert_eq!(changes_line(1), "1 changes");
}

#[test]
fn a_hit_in_the_texts_scrolls_to_its_row() {
    let mut s = AppState::new();
    s.paloc_session = Some(texts("eng"));
    s.paloc_session.as_mut().unwrap().filter = "arrow".to_string();
    s.pending_global_nav = Some(PendingNav::Paloc { lang: "eng".to_string(), hash_id: 20 });
    let nav = paloc_panel::consume_pending_nav(&mut s).unwrap();
    assert!(!nav.needs_load);
    assert!(s.pending_global_nav.is_none());
    paloc_panel::finish_nav(&mut s, &nav.lang, nav.hash_id);
    let session = s.paloc_session.as_mut().unwrap();
    assert!(session.filter.is_empty());
    let rows = session.visible_rows();
    assert_eq!(session.take_scroll_row(&rows), Some(1));
    assert_eq!(session.take_scroll_row(&rows), None);
    paloc_panel::finish_nav(&mut s, "eng", 99);
    assert_eq!(s.toasts.items[0].message, "PALOC[eng]: id 99 not found after load.");
}

#[test]
fn a_hit_in_another_language_asks_for_a_load() {
    let mut s = AppState::new();
    s.paloc_session = Some(texts("eng"));
    s.pending_global_nav = Some(PendingNav::Paloc { lang: "kor".to_string(), hash_id: 1 });
    let nav = paloc_panel::consume_pending_nav(&mut s).unwrap();
    assert!(nav.needs_load);
    assert_eq!(s.paloc_language, "kor");
    assert!(paloc_panel::consume_pending_nav(&mut s).is_none());
}

#[test]
fn texts_are_loaded_and_saved() {
    let mut s = AppState::new();
    assert!(paloc_panel::load_request(&mut s).is_none());
    assert_eq!(s.status, "Set game dir first (File -> Set Game Dir)");
    assert!(paloc_panel::save_request(&mut s).is_none());
    assert_eq!(s.status, "Set game dir first");
    s.game_dir = Some("C:/game".to_string());
    assert!(paloc_panel::save_request(&mut s).is_none());
    assert_eq!(s.status, "No paloc loaded");
    let (dir, lang) = paloc_panel::load_request(&mut s).unwrap();
    paloc_panel::load_paloc(&mut s, &lang, Err("no file".to_string()));
    assert_eq!(s.status, "Paloc load error: no file");
    paloc_panel::load_paloc(&mut s, &lang, Ok(texts("eng")));
    assert_eq!(s.status, "Loaded paloc eng: 2 entries");
    assert!(paloc_panel::save_request(&mut s).is_some());
    paloc_panel::save_paloc(&mut s, &dir, &Ok(()));
    assert_eq!(s.status, "Saved paloc eng overlay to C:/game/0064");
    paloc_panel::save_paloc(&mut s, &dir, &Err("full".to_string()));
    assert_eq!(s.toasts.items.last().unwrap().message, "Paloc save failed");
}

#[test]
fn the_sequencer_editor_starts_in_its_first_mode() {
    let p = PaseqSession::default();
    assert_eq!(p.mode, PaseqMode::Editor);
    assert_eq!(p.overlay_group, "0068");
    assert!(mode_text(PaseqMode::SleepMod).contains("sleep cooldown"));
    assert!(mode_text(PaseqMode::Editor).starts_with("Byte-level editor"));
}

#[test]
fn a_loaded_sequencer_file_starts_a_list_of_patches() {
    let mut s = AppState::new();
    let e = PazEntry {
        group: "0014".to_string(),
        dir_path: "seq".to_string(),
        filename: "bed.paseqc".to_string(),
    };
    assert_eq!(paseq_panel::loaded_line(&e), "Loaded: bed.paseqc (seq)  [.paseqc]");
    paseq_panel::load_paseq_from_paz(&mut s, &e, Err("gone".to_string()));
    assert_eq!(s.toasts.items[0].details.as_deref(), Some("gone\nFile: bed.paseqc"));
    paseq_panel::load_paseq_from_paz(&mut s, &e, Ok(b"False".to_vec()));
    assert_eq!(s.toasts.items[1].message, "Loaded bed.paseqc (5 bytes)");
    assert_eq!(s.paseq.patch_doc.as_ref().unwrap().filename, "bed.paseqc");
    assert!(!paseq_panel::can_deploy(&s));
    s.paseq.draft.name = "wake".to_string();
    s.paseq.draft.find = "False".to_string();
    s.paseq.draft.replace = "True ".to_string();
    paseq_panel::add_patch_from_draft(&mut s);
    s.game_dir = Some("C:/game".to_string());
    assert!(paseq_panel::can_deploy(&s));
    let (_, group) = paseq_panel::deploy_request(&s).unwrap();
    paseq_panel::apply_editor_patches(&mut s, &group, &Ok(()));
    assert_eq!(
        s.toasts.items[2].message,
        "Deployed PASEQ overlay to group 0068. Restart the game."
    );
    paseq_panel::preview_patches(&mut s, &Ok(b"True ".to_vec()));
    assert_eq!(s.toasts.items[3].message, "1 patches dry-applied — 5 byte(s) changed.");
}

#[test]
fn ready_made_changes_are_reported() {
    let mut s = AppState::new();
    assert!(paseq_panel::preset_dir(&mut s).is_none());
    paseq_panel::apply_sleep(&mut s, &Ok(()));
    assert_eq!(s.status, "Sleep mod deployed to 0068/. Restart the game.");
    paseq_panel::apply_sleep(&mut s, &Err("x".to_string()));
    assert_eq!(s.status, "Sleep mod failed: x");
    paseq_panel::browse_done(&mut s, Some(Ok(Vec::new())));
    assert_eq!(s.toasts.items.last().unwrap().message, "Found 0 sequencer file(s).");
}

#[test]
fn a_swap_needs_two_characters_that_are_there() {
    let mut s = AppState::new();
    assert!(swap_request(&mut s).is_none());
    assert_eq!(s.toasts.items[0].message, "Set the game directory first.");
    s.game_dir = Some("C:/game".to_string());
    assert!(swap_request(&mut s).is_none());
    assert_eq!(s.toasts.items[1].message, "Pick distinct source and target NPCs.");
    paseq_panel::scan_npcs(&mut s, Ok(vec![npc("smith", "Smith"), npc("guard", "Guard")]));
    assert_eq!(s.toasts.items[2].message, "Found 2 NPCs");
    assert_eq!(chosen_label(&s.paseq.npc_list, None), "<choose>");
    assert_eq!(chosen_label(&s.paseq.npc_list, Some(1)), "Guard  [guard]");
    assert_eq!(chosen_label(&s.paseq.npc_list, Some(7)), "<missing>");
    s.paseq.selected_source = Some(0);
    s.paseq.selected_target = Some(0);
    assert!(!can_swap(&s));
    s.paseq.selected_target = Some(7);
    assert!(can_swap(&s) && swap_line(&s.paseq).is_none());
    assert!(swap_request(&mut s).is_none());
    assert_eq!(
        s.toasts.items[3].message,
        "Selected NPCs are no longer available — re-scan."
    );
    s.paseq.selected_target = Some(1);
    assert_eq!(
        swap_line(&s.paseq).as_deref(),
        Some("Will copy `smith` files into `guard`.")
    );
    let r = swap_request(&mut s).unwrap();
    assert_eq!((r.source.stem.as_str(), r.target.stem.as_str()), ("smith", "guard"));
    paseq_panel::apply_swap(&mut s, &r, &Ok(()));
    assert_eq!(
        s.toasts.items[4].message,
        "Swap deployed: Smith -> Guard (0068/). Restart the game."
    );
    paseq_panel::scan_npcs(&mut s, Err("no paz".to_string()));
    assert_eq!(s.toasts.items[5].level, Level::Error);
}

#[test]
fn extensions_are_switched_one_by_one() {
    let mut b = BinaryInspectorSession::default();
    assert_eq!(allowed_extensions().len(), 20);
    assert!(extension_enabled(&b, "paseqh"));
    set_extension(&mut b, "paseqh", false);
    assert!(!extension_enabled(&b, "paseqh") && extension_enabled(&b, "pab"));
    let files = vec![binary("paseqh", "a.paseqh"), binary("pab", "B.pab")];
    assert_eq!(binary_inspector_panel::visible_files(&b, &files), vec![1]);
    b.paz_filter = "zzz".to_string();
    assert!(binary_inspector_panel::visible_files(&b, &files).is_empty());
    b.paz_filter = "0014".to_string();
    assert_eq!(binary_inspector_panel::visible_files(&b, &files), vec![1]);
}

#[test]
fn a_hit_in_a_binary_file_goes_to_its_byte() {
    let mut s = AppState::new();
    set_extension(&mut s.binary_inspector, "pab", false);
    s.pending_global_nav = Some(PendingNav::BinaryInspector {
        ext: "pab".to_string(),
        paz_group: "0014".to_string(),
        dir_path: "stage".to_string(),
        filename: "B.pab".to_string(),
        byte_offset: Some(1500),
    });
    let plan = binary_inspector_panel::consume_pending_nav(&mut s).unwrap();
    assert!(extension_enabled(&s.binary_inspector, "pab"));
    let e = plan.load.unwrap();
    assert_eq!(
        binary_inspector_panel::loaded_line(&e),
        "Loaded: [0014] B.pab (stage)  [.pab]"
    );
    binary_inspector_panel::load_file_from_paz(&mut s, &e, Ok(vec![0; 2000]));
    position_hex(&mut s, plan.byte_offset.unwrap());
    assert_eq!(s.binary_inspector.hex_state.page, 1);
    assert_eq!(s.binary_inspector.hex_state.selected_offset, Some(1500));
    position_hex(&mut s, 9999);
    assert_eq!(s.binary_inspector.hex_state.selected_offset, Some(1999));
}

#[test]
fn sessions_start_with_a_blank_draft() {
    let (p, b) = (PaseqSession::default(), BinaryInspectorSession::default());
    for d in [&p.draft, &b.draft] {
        assert!(d.name.is_empty() && d.find.is_empty() && d.replace.is_empty());
        assert!(d.comment.is_empty() && !d.hex_mode && !d.allow_resize);
    }
    assert_eq!(b.extension_filters.len(), b.allowed_extensions.len());
    assert!(b.extension_filters.iter().all(|f| f.1));
}
