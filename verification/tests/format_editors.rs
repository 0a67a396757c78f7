use mod_workbench::paz_file::{
    files_line, loaded_line, more_line, place_text, visible_files, LoadError, PazEntry,
};
use mod_workbench::state::{AppState, Level, PendingNav};
use mod_workbench::ui::paac_panel;
use mod_workbench::ui::paac_panel::{
    change_transition, counts_line, float_bits_at, format_label, hunt_again, hunt_done, hunt_line,
    hunt_request, opt_u32, state_size, visible_strings, FloatHit, InlineTransition, PaacFile,
    PaacFormat, PaacSession, PaacState, PaacString, PaacView, TransitionChange,
};
use mod_workbench::ui::paatt_panel;
use mod_workbench::ui::paatt_panel::{
    entry_detail, entry_label, entry_title, field_offset_text, is_key_field, rescan, EntryDetail,
    PaattFile, PaattMode, PaattSession,
};
use mod_workbench::ui::pamhc_panel;
use mod_workbench::ui::pamhc_panel::{
    append_entry, hex_cell_text, opaque_section, remove_entry, section_a_line, section_hint,
    section_line, set_hex_cell, PamhcFile, PamhcSession, PamhcTab,
};
use mod_workbench::ui::pappt_panel;
use mod_workbench::ui::pappt_panel::{
    add_child, cap_pstr, delete_primary, flag_text, new_primary, new_secondary, primary_detail,
    primary_line, remove_child, remove_secondary, secondary_line, visible_primary,
    visible_secondary, PapptFile, PapptSession, PapptTab, PrimaryDetail,
};

fn entry(group: &str, dir: &str, file: &str) -> PazEntry {
    PazEntry {
        group: group.to_string(),
        dir_path: dir.to_string(),
        filename: file.to_string(),
    }
}

fn paac_file() -> PaacFile {
    PaacFile {
        format: PaacFormat::ActionChartV1,
        header: None,
        size: 8,
        states: Vec::new(),
        transitions: vec![InlineTransition {
            file_offset: 4,
            threshold: 1,
            target_state: 2,
            sequence: 3,
        }],
        condition_records: Vec::new(),
        strings: vec![
            PaacString { file_offset: 0, text: "Charge_Attack".to_string() },
            PaacString { file_offset: 16, text: "Idle".to_string() },
        ],
        raw: vec![0, 0, 0x80, 0x3F, 1, 2, 3, 4],
    }
}

fn pamhc_file() -> PamhcFile {
    PamhcFile {
        header: vec![9],
        section_a_u32: vec![1, 0xDEAD_BEEF],
        section_b: vec![2],
        section_c: vec![3, 3],
        section_d: Vec::new(),
        section_e: vec![5],
    }
}

#[test]
fn files_are_picked_by_name_or_directory() {
    let files = vec![
        entry("0010", "actionchart/bow", "Arrow.paac"),
        entry("0010", "actionchart/sword", "slash.paac"),
    ];
    assert_eq!(visible_files(&files, ""), vec![0, 1]);
    assert_eq!(visible_files(&files, "ARROW"), vec![0]);
    assert_eq!(visible_files(&files, "sword"), vec![1]);
    assert!(visible_files(&files, "0010").is_empty());
    assert_eq!(files_line(2), "(2 files)");
    assert_eq!(more_line(500), None);
    assert_eq!(more_line(502).as_deref(), Some("... 2 more (use the filter)"));
    assert_eq!(place_text(&files[0]), "[0010] actionchart/bow/Arrow.paac");
    assert_eq!(loaded_line(&files[1]), "Loaded: [0010] actionchart/sword/slash.paac");
}

#[test]
fn sessions_start_empty_with_groups_of_their_own() {
    let (a, b) = (PaacSession::default(), PaattSession::default());
    let (c, d) = (PamhcSession::default(), PapptSession::default());
    assert_eq!(a.view, PaacView::States);
    assert!(a.float_hunt_dirty && a.file.is_none());
    assert_eq!(b.mode, PaattMode::Editor);
    assert_eq!(c.tab, PamhcTab::SectionA);
    assert!(c.section_a_hex);
    assert_eq!(d.tab, PapptTab::Primary);
    let groups = vec![a.overlay_group, b.overlay_group, c.overlay_group, d.overlay_group];
    assert_eq!(groups, vec!["0067", "0066", "0072", "0071"]);
}

#[test]
fn a_scan_fills_the_picker_or_says_why_not() {
    let mut s = AppState::new();
    paac_panel::browse_done(&mut s, None);
    assert_eq!(s.toasts.items[0].message, "Set the Game Directory first (Settings).");
    paac_panel::browse_done(&mut s, Some(Err("denied".to_string())));
    assert_eq!(s.toasts.items[1].message, "PAZ scan failed");
    assert!(s.paac.paz_files.is_none());
    paac_panel::browse_done(&mut s, Some(Ok(vec![entry("1", "d", "f")])));
    assert_eq!(s.toasts.items[2].message, "Found 1 .paac file(s) in PAZ.");
    assert_eq!(s.paac.paz_files.as_ref().unwrap().len(), 1);
    pappt_panel::browse_done(&mut s, Some(Ok(Vec::new())));
    assert_eq!(s.toasts.items[3].message, "Found 0 .pappt file(s) in PAZ.");
}

#[test]
fn a_loaded_chart_resets_what_was_shown() {
    let mut s = AppState::new();
    s.paac.selected_state_idx = Some(3);
    s.paac.float_hunt_dirty = false;
    s.paac.float_hunt_hits.push(FloatHit { offset: 0, bits: 0, context: String::new() });
    let e = entry("0010", "d", "f.paac");
    paac_panel::load_paac_from_paz(&mut s, &e, Ok((paac_file(), vec![7])));
    assert!(s.paac.file.is_some() && s.paac.selected_state_idx.is_none());
    assert!(s.paac.float_hunt_dirty && s.paac.float_hunt_hits.is_empty());
    assert_eq!(s.paac.vanilla_bytes.as_deref(), Some(&[7u8][..]));
    assert_eq!(s.paac.current_entry.as_ref().unwrap().filename, "f.paac");
    assert_eq!(s.toasts.items[0].message, "Loaded f.paac from PAZ");
    paac_panel::load_paac_from_path(&mut s, &"x.paac".to_string(), Ok((paac_file(), vec![8])));
    assert!(s.paac.current_entry.is_none());
    assert_eq!(s.toasts.items[1].message, "Loaded x.paac");
}

#[test]
fn a_failed_load_keeps_what_was_loaded() {
    let mut s = AppState::new();
    let e = entry("0010", "d", "f.pamhc");
    pamhc_panel::load_pamhc_from_paz(&mut s, &e, Ok((pamhc_file(), vec![1])));
    pamhc_panel::load_pamhc_from_paz(&mut s, &e, Err(LoadError::Read("gone".to_string())));
    assert!(s.pamhc.file.is_some());
    assert_eq!(s.toasts.items[1].message, "PAMHC read failed");
    assert_eq!(s.toasts.items[1].details.as_deref(), Some("gone\nFile: d/f.pamhc"));
    pamhc_panel::load_pamhc_from_path(
        &mut s,
        &"y.pamhc".to_string(),
        Err(LoadError::Parse("short".to_string())),
    );
    assert_eq!(s.toasts.items[2].message, "PAMHC parse failed");
    assert_eq!(s.toasts.items[2].details.as_deref(), Some("short\nFile: y.pamhc"));
}

#[test]
fn a_search_hit_is_opened_once() {
    let mut s = AppState::new();
    let nav = || PendingNav::Paac {
        paz_group: "0010".to_string(),
        dir_path: "d".to_string(),
        filename: "f.paac".to_string(),
    };
    s.pending_global_nav = Some(nav());
    assert!(paatt_panel::consume_pending_nav(&mut s).is_none());
    assert!(s.pending_global_nav.is_some());
    let e = paac_panel::consume_pending_nav(&mut s).unwrap();
    assert_eq!(e.filename, "f.paac");
    assert!(s.pending_global_nav.is_none());
    assert!(paac_panel::consume_pending_nav(&mut s).is_none());
    s.paac.current_entry = Some(e);
    s.pending_global_nav = Some(nav());
    assert!(paac_panel::consume_pending_nav(&mut s).is_none());
    assert!(s.pending_global_nav.is_none());
}

#[test]
fn a_deploy_needs_a_file_its_entry_and_a_directory() {
    let mut s = AppState::new();
    assert!(!paac_panel::can_apply(&s) && paac_panel::apply_request(&s).is_none());
    s.game_dir = Some("C:/game".to_string());
    s.paac.file = Some(paac_file());
    assert!(!paac_panel::can_apply(&s));
    s.paac.current_entry = Some(entry("0010", "d", "f.paac"));
    assert!(paac_panel::can_apply(&s));
    let r = paac_panel::apply_request(&s).unwrap();
    assert_eq!((r.game_dir.as_str(), r.group.as_str()), ("C:/game", "0067"));
    paac_panel::apply_to_game(&mut s, &r, &Ok(()));
    assert_eq!(s.toasts.items[0].message, "Deployed f.paac as overlay group 0067");
    paac_panel::apply_to_game(&mut s, &r, &Err("locked".to_string()));
    assert_eq!(s.toasts.items[1].message, "PAAC deploy failed");
    assert_eq!(
        s.toasts.items[1].details.as_deref(),
        Some("locked\nGroup: 0067\nFile: f.paac")
    );
}

#[test]
fn overlays_and_files_on_disk_are_reported() {
    let mut s = AppState::new();
    assert!(pappt_panel::restore_request(&s).is_none());
    s.game_dir = Some("C:/game".to_string());
    let (_, group) = pappt_panel::restore_request(&s).unwrap();
    pappt_panel::restore_overlay(&mut s, &group, &Ok(()));
    assert_eq!(s.toasts.items[0].message, "Removed PAPPT overlay group 0071");
    pappt_panel::restore_overlay(&mut s, &group, &Err("in use".to_string()));
    assert_eq!(s.toasts.items[1].details.as_deref(), Some("in use\nGroup: 0071"));
    pappt_panel::save_pappt_to_disk(&mut s, "o.pappt", &Ok(()));
    assert_eq!(s.toasts.items[2].message, "Wrote o.pappt");
    pappt_panel::save_pappt_to_disk(&mut s, "o.pappt", &Err("full".to_string()));
    assert_eq!(s.toasts.items[3].details.as_deref(), Some("full\nPath: o.pappt"));
    assert!(paatt_panel::load_dir(&mut s).is_some());
    s.game_dir = None;
    assert!(paatt_panel::load_dir(&mut s).is_none());
    assert_eq!(s.toasts.items[4].message, "Set the Game Directory first.");
}

#[test]
fn chart_lines_and_labels() {
    let f = paac_file();
    assert_eq!(counts_line(&f), "states 0  |  transitions 1  |  conditions 0  |  strings 2");
    assert_eq!(format_label(PaacFormat::InfoTable), "info_table");
    assert_eq!(format_label(PaacFormat::Unknown), "unknown");
    assert_eq!(opt_u32(Some(7)), "7");
    assert_eq!(opt_u32(None), "-");
    assert_eq!(visible_strings(&f.strings, "CHARGE"), vec![0]);
    assert_eq!(visible_strings(&f.strings, ""), vec![0, 1]);
    let s = PaacState {
        fmt: "A".to_string(),
        file_offset: 0,
        record_start: 16,
        end: 80,
        transition_count: 0,
        float_count: 0,
    };
    assert_eq!(state_size(&s), 64);
}

#[test]
fn each_change_of_a_transition_is_written() {
    let mut f = paac_file();
    let none = TransitionChange { threshold: None, target_state: None, sequence: None };
    assert!(change_transition(&mut f, 0, none).is_empty());
    let change = TransitionChange { threshold: Some(9), target_state: None, sequence: Some(8) };
    let writes = change_transition(&mut f, 0, change);
    assert_eq!(writes.len(), 2);
    assert_eq!((writes[0].threshold, writes[0].sequence), (9, 3));
    assert_eq!(writes[1], f.transitions[0]);
    assert_eq!((f.transitions[0].threshold, f.transitions[0].target_state), (9, 2));
}

#[test]
fn writes_replace_the_bytes_or_are_reported() {
    let mut s = AppState::new();
    s.paac.file = Some(paac_file());
    paac_panel::transition_written(&mut s, Ok(vec![1, 2]));
    assert_eq!(s.paac.file.as_ref().unwrap().raw, vec![1, 2]);
    paac_panel::float_written(&mut s, Err("out of range".to_string()));
    assert_eq!(s.toasts.items[0].message, "patch_float failed");
    paac_panel::transition_written(&mut s, Err("out of range".to_string()));
    assert_eq!(s.toasts.items[1].message, "patch_transition failed");
    assert_eq!(s.paac.file.as_ref().unwrap().raw, vec![1, 2]);
}

#[test]
fn numbers_are_looked_for_when_due() {
    let mut p = PaacSession::default();
    assert!(hunt_request(&p).is_none());
    p.file = Some(paac_file());
    let h = hunt_request(&p).unwrap();
    assert!(h.keyword.is_none());
    assert_eq!(h.radius, 128);
    p.float_hunt_keyword = "  charge ".to_string();
    assert_eq!(hunt_request(&p).unwrap().keyword.as_deref(), Some("charge"));
    hunt_done(&mut p, vec![FloatHit { offset: 0, bits: 1, context: "c".to_string() }]);
    assert!(hunt_request(&p).is_none());
    assert!(hunt_line(p.float_hunt_hits.len()).starts_with("1 candidate floats near"));
    hunt_again(&mut p);
    assert!(hunt_request(&p).is_some());
    let bits = float_bits_at(&p.file.as_ref().unwrap().raw, 0);
    assert_eq!(f32::from_bits(bits), 1.0);
    assert_eq!(float_bits_at(&vec![1, 2, 3, 4], 0), 0x0403_0201);
}

#[test]
fn projectiles_are_labelled_by_number_and_offset() {
    assert_eq!(entry_label(7, 0x10), format!("Entry #{:<4} @ +0x{:06X}", 7, 0x18));
    assert_eq!(entry_label(12345, 0x0ABC_DEF0), "Entry #12345 @ +0xABCDEF8");
    assert_eq!(
        entry_title(3, 0x20),
        "Entry #3 — body offset 0x20 (file offset 0x28)"
    );
    assert_eq!(field_offset_text(0x20, -0x8), "+0x18");
    assert_eq!(field_offset_text(4, -8), format!("+0x{:X}", -4i64));
    assert!(is_key_field("spawnItemKey2") && !is_key_field("projectileRadius"));
}

#[test]
fn the_selected_projectile_can_go_stale() {
    let mut p = PaattSession::default();
    assert_eq!(entry_detail(&p), EntryDetail::NothingSelected);
    p.selected_entry_idx = Some(1);
    assert_eq!(entry_detail(&p), EntryDetail::NoFile);
    rescan(&mut p, vec![1]);
    assert!(p.entry_offsets.is_empty());
    p.file = Some(PaattFile { bytes: Vec::new() });
    assert_eq!(entry_detail(&p), EntryDetail::Stale);
    rescan(&mut p, vec![16, 64]);
    assert!(p.selected_entry_idx.is_none());
    p.selected_entry_idx = Some(1);
    assert_eq!(entry_detail(&p), EntryDetail::At(64));
    let mut s = AppState::new();
    let e = entry("0010", "d", "f.paatt");
    paatt_panel::load_paatt_from_paz(
        &mut s,
        &e,
        Ok((PaattFile { bytes: vec![1] }, vec![1])),
        vec![3, 4],
    );
    assert_eq!(s.paatt.entry_offsets, vec![3, 4]);
    assert_eq!(s.toasts.items[0].level, Level::Info);
}

#[test]
fn numbers_of_a_section_are_edited() {
    let mut p = PamhcSession::default();
    append_entry(&mut p);
    assert!(p.file.is_none());
    p.file = Some(pamhc_file());
    append_entry(&mut p);
    let mut f = p.file.unwrap();
    assert_eq!(f.section_a_u32, vec![1, 0xDEAD_BEEF, 0]);
    assert_eq!(section_a_line(&f), "A: 12 (3 entries)");
    set_hex_cell(&mut f, 0, " 0XfF ");
    assert_eq!(f.section_a_u32[0], 255);
    set_hex_cell(&mut f, 0, "nonsense");
    set_hex_cell(&mut f, 0, "0x1FFFFFFFF");
    assert_eq!(f.section_a_u32[0], 255);
    remove_entry(&mut f, 1);
    assert_eq!(f.section_a_u32, vec![255, 0]);
}

#[test]
fn a_shown_number_reads_back() {
    let mut f = pamhc_file();
    for v in [0u32, 0xAB, u32::MAX] {
        assert_eq!(hex_cell_text(v), format!("{:#010x}", v));
        set_hex_cell(&mut f, 0, &hex_cell_text(v));
        assert_eq!(f.section_a_u32[0], v);
    }
}

#[test]
fn opaque_sections_are_shown_as_they_are() {
    let f = pamhc_file();
    assert!(opaque_section(&f, PamhcTab::SectionA).is_none());
    assert_eq!(opaque_section(&f, PamhcTab::SectionC), Some(&vec![3, 3]));
    assert_eq!(section_line(2), "2 bytes — element schema not decoded; shown read-only.");
    assert!(section_hint(PamhcTab::SectionD).contains("section D, switch to the Binary"));
}

#[test]
fn entries_of_the_table_are_added_found_and_deleted() {
    let mut p = PapptSession::default();
    assert_eq!(primary_detail(&p), PrimaryDetail::NothingSelected);
    p.file = Some(PapptFile { primary: Vec::new(), secondary: Vec::new() });
    new_primary(&mut p);
    new_primary(&mut p);
    assert_eq!(p.selected_primary_idx, Some(1));
    assert_eq!(primary_detail(&p), PrimaryDetail::At(1));
    {
        let f = p.file.as_mut().unwrap();
        f.primary[0].key_a = "Helm".to_string();
        f.primary[1].asset_id = "boots_01".to_string();
        assert_eq!(visible_primary(&f.primary, "HELM"), vec![0]);
        assert_eq!(visible_primary(&f.primary, "boots"), vec![1]);
        assert_eq!(primary_line(f), "Primary: 2");
        f.primary[1].key_c = "only_c".to_string();
        assert!(visible_primary(&f.primary, "only_c").is_empty());
    }
    delete_primary(&mut p, 0);
    assert!(p.selected_primary_idx.is_none());
    p.selected_primary_idx = Some(5);
    assert_eq!(primary_detail(&p), PrimaryDetail::Stale);
    p.file = None;
    assert_eq!(primary_detail(&p), PrimaryDetail::NoFile);
}

#[test]
fn pairs_of_aliases_are_added_and_removed() {
    let mut p = PapptSession::default();
    p.file = Some(PapptFile { primary: Vec::new(), secondary: Vec::new() });
    new_secondary(&mut p);
    let mut f = p.file.unwrap();
    f.secondary[0].alias_b = "Cloak".to_string();
    assert_eq!(visible_secondary(&f.secondary, "cloak"), vec![0]);
    assert_eq!(secondary_line(&f), "Secondary: 1");
    remove_secondary(&mut f, 0);
    assert!(f.secondary.is_empty());
    assert_eq!(flag_text(7), format!("{:#04x}", 7));
}

#[test]
fn children_stop_at_the_cap() {
    let mut c = Vec::new();
    for _ in 0..300 {
        add_child(&mut c);
    }
    assert_eq!(c.len(), 255);
    remove_child(&mut c, 0);
    assert_eq!(c.len(), 254);
}

#[test]
fn texts_are_cut_at_a_whole_character() {
    let mut short = "é".to_string();
    cap_pstr(&mut short);
    assert_eq!(short, "é");
    let mut long = "é".repeat(200);
    cap_pstr(&mut long);
    assert_eq!(long.len(), 254);
    let mut full = "a".repeat(255);
    cap_pstr(&mut full);
    assert_eq!(full.len(), 255);
}
