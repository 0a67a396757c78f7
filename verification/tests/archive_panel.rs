use mod_workbench::state::{AppState, Level};
use mod_workbench::ui::archive_panel::{
    arm_removal, changed_lines, checksum_text, detail_loaded, detail_summary, diff_loaded,
    diff_view, dir_header, enter_detail, entry_line, format_bytes, handle_remove_overlay,
    leave_detail, leave_hex, needs_detail, needs_scan, open_file_in_hex, refresh_groups,
    row_actions, visible_groups, ArchiveDir, ArchiveFile, ArchiveGroup, ArchiveGroupDetail,
    ArchiveMode, ArchiveSession, DiffView, PapgtDiff, PapgtEntry, RowActions,
};

fn group(name: &str) -> ArchiveGroup {
    ArchiveGroup {
        name: name.to_string(),
        registered_in_papgt: true,
        papgt_checksum: Some(0xAB),
        pamt_checksum: Some(0xAB),
        file_count: 2,
        total_uncompressed_size: 2048,
        has_workbench_backup: false,
        error: None,
    }
}

fn papgt(name: &str, checksum: u32) -> PapgtEntry {
    PapgtEntry {
        group_name: name.to_string(),
        pack_meta_checksum: checksum,
        is_optional: 1,
        language: 0x3FFF,
    }
}

fn detail(name: &str) -> ArchiveGroupDetail {
    ArchiveGroupDetail {
        name: name.to_string(),
        directories: vec![ArchiveDir {
            path: "character/bin".to_string(),
            files: vec![
                ArchiveFile {
                    name: "a.paac".to_string(),
                    uncompressed_size: 1024,
                    compression_label: "none".to_string(),
                    crypto_label: "none".to_string(),
                    chunk_id: 0,
                },
                ArchiveFile {
                    name: "b.paac".to_string(),
                    uncompressed_size: 1024,
                    compression_label: "none".to_string(),
                    crypto_label: "none".to_string(),
                    chunk_id: 1,
                },
            ],
        }],
    }
}

#[test]
fn format_bytes_breakpoints() {
    assert_eq!(format_bytes(0), "0 B");
    assert_eq!(format_bytes(512), "512 B");
    assert_eq!(format_bytes(2048), "2.0 KB");
    assert_eq!(format_bytes(2 * 1024 * 1024), "2.00 MB");
    assert_eq!(format_bytes(3 * 1024 * 1024 * 1024), "3.00 GB");
}

#[test]
fn default_session_starts_in_groups_mode() {
    let s = ArchiveSession::default();
    assert_eq!(s.mode, ArchiveMode::Groups);
    assert!(s.groups.is_none());
    assert!(s.detail.is_none());
    assert!(s.diff.is_none());
    assert!(s.remove_confirm_pending.is_none());
}

#[test]
fn groups_are_scanned_once_and_after_a_failure_the_error_is_kept() {
    let mut state = AppState::new();
    state.game_dir = Some("C:/game".to_string());
    assert!(needs_scan(&state.archive));
    refresh_groups(&mut state, Ok(vec![group("0008")]));
    assert!(!needs_scan(&state.archive));
    assert_eq!(state.archive.groups.as_ref().unwrap().len(), 1);
    assert!(state.archive.error.is_none());
    refresh_groups(&mut state, Err("no papgt".to_string()));
    assert_eq!(state.archive.error.as_deref(), Some("Scan failed: no papgt"));
}

#[test]
fn filter_keeps_groups_by_name() {
    let groups = vec![group("0008"), group("0014"), group("0058")];
    assert_eq!(visible_groups(&groups, ""), vec![0, 1, 2]);
    assert_eq!(visible_groups(&groups, "00"), vec![0, 1, 2]);
    assert_eq!(visible_groups(&groups, "58"), vec![2]);
    assert!(visible_groups(&groups, "x").is_empty());
}

#[test]
fn checksum_mismatch_needs_two_checksums() {
    let mut g = group("0008");
    assert!(!g.checksum_mismatch());
    g.pamt_checksum = Some(0xAC);
    assert!(g.checksum_mismatch());
    g.papgt_checksum = None;
    assert!(!g.checksum_mismatch());
    assert_eq!(checksum_text(Some(0xAB)), "0x000000ab");
}

#[test]
fn a_detail_is_loaded_for_its_group_only() {
    let mut state = AppState::new();
    enter_detail(&mut state, "0008");
    assert_eq!(state.archive.mode, ArchiveMode::Detail("0008".to_string()));
    assert!(needs_detail(&state.archive, "0008"));
    assert!(detail_loaded(&mut state.archive, "0008", Ok(detail("0008"))).is_none());
    assert!(!needs_detail(&state.archive, "0008"));
    assert!(needs_detail(&state.archive, "0009"));
    assert!(detail_loaded(&mut state.archive, "0009", Err("bad pamt".to_string())).is_some());
    leave_detail(&mut state.archive);
    assert_eq!(state.archive.mode, ArchiveMode::Groups);
}

#[test]
fn detail_lines_add_up_the_files() {
    let d = detail("0008");
    let line = detail_summary(&d);
    assert!(line.contains("2"), "{}", line);
    assert!(line.contains("2.0 KB"), "{}", line);
    let head = dir_header(&d.directories[0]);
    assert!(head.contains("character/bin"), "{}", head);
}

#[test]
fn a_file_opens_in_the_byte_view_and_leads_back() {
    let mut state = AppState::new();
    let (g, d, f) = ("0008".to_string(), "dir".to_string(), "x.bin".to_string());
    open_file_in_hex(&mut state, &g, &d, &f, Ok(vec![1, 2, 3]));
    assert_eq!(state.archive.hex_bytes, vec![1, 2, 3]);
    assert!(matches!(state.archive.mode, ArchiveMode::Hex { .. }));
    leave_hex(&mut state.archive, &g);
    assert_eq!(state.archive.mode, ArchiveMode::Detail(g.clone()));
    open_file_in_hex(&mut state, &g, &d, &f, Err("chunk missing".to_string()));
    assert_eq!(state.toasts.items.last().unwrap().level, Level::Error);
    assert_eq!(state.archive.mode, ArchiveMode::Detail(g));
}

#[test]
fn removal_waits_for_a_confirmation() {
    let mut s = ArchiveSession::default();
    let g = group("0058");
    assert!(matches!(row_actions(&s, &g), RowActions::Normal));
    arm_removal(&mut s, Some("0058".to_string()));
    assert!(matches!(row_actions(&s, &g), RowActions::Confirm));
    assert!(matches!(row_actions(&s, &group("0059")), RowActions::Normal));
    let mut broken = group("0058");
    broken.error = Some("unreadable".to_string());
    assert!(matches!(row_actions(&s, &broken), RowActions::Error(_)));
}

#[test]
fn a_removed_overlay_is_reported_and_the_groups_are_read_again() {
    let mut state = AppState::new();
    state.game_dir = Some("C:/game".to_string());
    handle_remove_overlay(&mut state, "0058", &Ok(()), Ok(vec![group("0008")]));
    assert_eq!(state.archive.groups.as_ref().unwrap().len(), 1);
    assert!(state.toasts.items.iter().any(|t| t.message.contains("0058")));
    let mut failed = AppState::new();
    handle_remove_overlay(&mut failed, "0058", &Err("in use".to_string()), Ok(Vec::new()));
    assert_eq!(failed.toasts.items[0].level, Level::Error);
    assert!(failed.toasts.items[0].details.as_ref().unwrap().contains("in use"));
}

#[test]
fn differences_are_looked_for_once() {
    let mut s = ArchiveSession::default();
    assert!(matches!(diff_view(&s), DiffView::Needed));
    assert!(diff_loaded(&mut s, Ok(None)).is_none());
    assert!(matches!(diff_view(&s), DiffView::NoBackup));
    let same = PapgtDiff { added: Vec::new(), removed: Vec::new(), changed: Vec::new() };
    diff_loaded(&mut s, Ok(Some(same)));
    assert!(matches!(diff_view(&s), DiffView::Same));
    let some = PapgtDiff { added: vec![papgt("0070", 1)], removed: Vec::new(), changed: Vec::new() };
    diff_loaded(&mut s, Ok(Some(some)));
    assert!(matches!(diff_view(&s), DiffView::Differs));
}

#[test]
fn difference_lines_name_the_group_and_its_checksums() {
    let added = entry_line(&papgt("0070", 0x1234), true);
    let removed = entry_line(&papgt("0070", 0x1234), false);
    assert!(added.contains("0070") && added.contains("00001234"), "{}", added);
    assert_ne!(added, removed);
    let (name, old, new) = changed_lines(&papgt("0070", 1), &papgt("0070", 2));
    assert!(name.contains("0070"));
    assert!(old.contains("00000001") && new.contains("00000002"));
}
