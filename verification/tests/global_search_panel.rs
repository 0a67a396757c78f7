use std::sync::atomic::Ordering;
use std::sync::Arc;

use mod_workbench::navigation::Opened;
use mod_workbench::state::{
    AppState, ByteHitKind, HitSource, Job, KoreanEncoding, MainView, MultiFormatHit,
    MultiFormatSearchSession, PendingNav, SearchFormat, SearchMode, SearchQueryKind,
};
use mod_workbench::ui::global_search_panel::{
    byte_kind_label, cancel_scan, change_mode, enable_all, enable_fast, enable_none, group_hits,
    group_title, is_browsing, is_locked, is_text_only_format, jump_to_hit, kick_scan,
    korean_run_line, pattern_feedback, press_run, query_edited, reset_session, run_enabled,
    run_label, scan_not_queued, source_row_prefix, stuck_hint, toggle_expanded, toggle_format,
    Jump,
};
use mod_workbench::ui::global_search_panel::{
    is_korean_format, paloc_editor_lang_for_hit, parse_user_number, rotate_cancel_flag,
};

#[test]
fn global_search_panel_parse_user_number_basic() {
    assert_eq!(parse_user_number(""), None);
    assert_eq!(parse_user_number(" 42 "), Some(42));
    assert_eq!(parse_user_number("0x10"), Some(16));
    assert_eq!(parse_user_number("0X10"), Some(16));
    assert_eq!(parse_user_number("0x"), None);
    assert_eq!(parse_user_number("notanumber"), None);
}

#[test]
fn paloc_editor_lang_for_hit_translates_short_codes() {
    // The worker emits 2-letter codes; the editor expects 3-letter.
    assert_eq!(paloc_editor_lang_for_hit("en"), "eng");
    assert_eq!(paloc_editor_lang_for_hit("kr"), "kor");
    // Unknown codes pass through verbatim so a future expansion
    // doesn't silently swallow the request.
    assert_eq!(paloc_editor_lang_for_hit("jp"), "jp");
    assert_eq!(paloc_editor_lang_for_hit(""), "");
}

#[test]
fn is_korean_format_only_binary_byte() {
    assert!(is_korean_format(SearchFormat::BinaryByte));
    assert!(!is_korean_format(SearchFormat::Pabgb));
    assert!(!is_korean_format(SearchFormat::Paloc));
    assert!(!is_korean_format(SearchFormat::Xml));
    assert!(!is_korean_format(SearchFormat::Paatt));
    assert!(!is_korean_format(SearchFormat::Paac));
    assert!(!is_korean_format(SearchFormat::Pappt));
    assert!(!is_korean_format(SearchFormat::Pamhc));
}

#[test]
fn kick_scan_replaces_cancel_flag() {
    let mut session = MultiFormatSearchSession::default();
    // A second hold on the flag stands for a worker that is still running.
    let original = Arc::clone(&session.cancel_flag);
    // The user calls the scan off between runs.
    original.store(true, Ordering::Relaxed);
    assert!(
        session.cancel_flag.load(Ordering::Relaxed),
        "precondition: the cancel flag is observable via the session before rotation"
    );

    let new_clone = rotate_cancel_flag(&mut session);

    assert!(
        !Arc::ptr_eq(&session.cancel_flag, &original),
        "rotation must install a fresh Arc — same allocation would let stale cancel leak forward"
    );
    assert!(
        !session.cancel_flag.load(Ordering::Relaxed),
        "rotated cancel flag must be false so the next scan can run"
    );
    assert!(
        Arc::ptr_eq(&session.cancel_flag, &new_clone),
        "the clone returned to the caller must be the same Arc the session holds"
    );
    assert!(
        original.load(Ordering::Relaxed),
        "previous cancel flag must remain flipped — the running worker depends on it"
    );
}

fn hit(group: &str, source: HitSource) -> MultiFormatHit {
    MultiFormatHit {
        source,
        group: group.to_string(),
        snippet: "...".to_string(),
        expand_data: None,
    }
}

fn paac_source() -> HitSource {
    HitSource::Paac {
        paz_group: "0010".to_string(),
        dir_path: "d".to_string(),
        filename: "f.paac".to_string(),
    }
}

fn ready(query: &str) -> AppState {
    let mut s = AppState::new();
    s.game_dir = Some("C:/game".to_string());
    s.multi_search.query = query.to_string();
    s
}

#[test]
fn a_text_scan_is_started_with_a_number_of_its_own() {
    let mut s = ready("  0x2A ");
    let old = Arc::clone(&s.multi_search.cancel_flag);
    let job = kick_scan(&mut s, &Ok(Vec::new()), 77).unwrap();
    match job {
        Job::MultiFormatSearch { request_id, query, filter_as_number, query_kind, cancel_flag, .. } => {
            assert_eq!(request_id, 1);
            assert_eq!(query, "0x2A");
            assert_eq!(filter_as_number, Some(42));
            assert!(matches!(query_kind, SearchQueryKind::Text(t) if t == "0x2A"));
            assert!(Arc::ptr_eq(&cancel_flag, &s.multi_search.cancel_flag));
        }
        _ => panic!("another job"),
    }
    assert!(!Arc::ptr_eq(&old, &s.multi_search.cancel_flag));
    assert!(s.multi_search.in_progress);
    assert_eq!(s.multi_search.progress_message, "Starting scan...");
    assert_eq!(s.multi_search.progress_updated_at, Some(77));
}

#[test]
fn a_scan_says_what_is_missing() {
    let mut s = AppState::new();
    assert!(kick_scan(&mut s, &Ok(vec![1]), 0).is_none());
    assert_eq!(s.toasts.items[0].message, "Set the Game Directory first (Settings panel).");
    let mut s = ready("arrow");
    enable_none(&mut s.multi_search);
    assert!(kick_scan(&mut s, &Ok(vec![1]), 0).is_none());
    assert_eq!(s.toasts.items[0].message, "Pick at least one format to scan.");
    let mut s = ready("   ");
    assert!(kick_scan(&mut s, &Ok(vec![1]), 0).is_none());
    assert!(s.toasts.items.is_empty());
    let mut s = ready("");
    change_mode(&mut s, SearchMode::Hex);
    enable_all(&mut s.multi_search);
    assert!(kick_scan(&mut s, &Err("odd".to_string()), 0).is_none());
    assert!(kick_scan(&mut s, &Ok(Vec::new()), 0).is_none());
    assert_eq!(s.toasts.items.len(), 2);
    let job = kick_scan(&mut s, &Ok(vec![0xDE, 0xAD]), 0).unwrap();
    assert!(matches!(job, Job::MultiFormatSearch { query_kind: SearchQueryKind::HexBytes(b), .. } if b == vec![0xDE, 0xAD]));
}

#[test]
fn an_unfiltered_scan_is_confirmed_first() {
    let mut s = ready("");
    change_mode(&mut s, SearchMode::KoreanStrings);
    assert!(is_browsing(&s.multi_search));
    assert_eq!(run_label(&s.multi_search), "Run");
    assert!(press_run(&mut s, &Ok(Vec::new()), 0).is_none());
    assert_eq!(run_label(&s.multi_search), "Run anyway");
    let job = press_run(&mut s, &Ok(Vec::new()), 0).unwrap();
    assert!(matches!(job, Job::MultiFormatSearch { query_kind: SearchQueryKind::KoreanScan { filter: None }, .. }));
    s.multi_search.confirm_no_filter = true;
    query_edited(&mut s.multi_search, "검".to_string());
    assert!(!s.multi_search.confirm_no_filter);
}

#[test]
fn a_mode_locks_the_formats_that_it_cannot_search() {
    let mut s = ready("x");
    assert!(is_text_only_format(SearchFormat::Pabgb));
    assert!(is_locked(SearchMode::KoreanStrings, SearchFormat::Xml));
    assert!(!is_locked(SearchMode::Text, SearchFormat::Xml));
    change_mode(&mut s, SearchMode::KoreanStrings);
    assert!(s.multi_search.formats_enabled.contains(SearchFormat::BinaryByte));
    assert!(!s.multi_search.formats_enabled.contains(SearchFormat::Pabgb));
    assert!(run_enabled(&s.multi_search, &Ok(Vec::new())));
    change_mode(&mut s, SearchMode::Text);
    enable_fast(&mut s.multi_search);
    assert!(s.multi_search.formats_enabled.contains(SearchFormat::Pabgb));
    assert!(!s.multi_search.formats_enabled.contains(SearchFormat::BinaryByte));
    toggle_format(&mut s.multi_search, SearchFormat::Pabgb, false);
    assert!(!s.multi_search.formats_enabled.contains(SearchFormat::Pabgb));
}

#[test]
fn a_scan_is_called_off_and_its_answers_ignored() {
    let mut s = ready("arrow");
    kick_scan(&mut s, &Ok(Vec::new()), 0);
    let (id, flag) = (s.multi_search.request_id, Arc::clone(&s.multi_search.cancel_flag));
    cancel_scan(&mut s);
    assert!(flag.load(Ordering::Relaxed));
    assert!(!s.multi_search.in_progress);
    assert_ne!(s.multi_search.request_id, id);
    reset_session(&mut s);
    assert_eq!(s.toasts.items[0].message, "Search session reset.");
    kick_scan(&mut s, &Ok(Vec::new()), 0);
    scan_not_queued(&mut s);
    assert!(!s.multi_search.in_progress);
}

#[test]
fn hits_are_grouped_in_the_order_they_came() {
    let hits = vec![hit("b", paac_source()), hit("a", paac_source()), hit("b", paac_source())];
    let groups = group_hits(&hits);
    assert_eq!(groups.len(), 2);
    assert_eq!(groups[0], ("b".to_string(), vec![0, 2]));
    assert_eq!(groups[1], ("a".to_string(), vec![1]));
    assert_eq!(group_title("b", 2), "b (2)");
    let mut s = MultiFormatSearchSession::default();
    toggle_expanded(&mut s, 4);
    assert_eq!(s.expanded_hit, Some(4));
    toggle_expanded(&mut s, 4);
    assert_eq!(s.expanded_hit, None);
}

#[test]
fn a_hit_is_handed_to_its_editor() {
    let mut s = ready("x");
    assert!(matches!(jump_to_hit(&mut s, &hit("g", paac_source())), Jump::Editor));
    assert_eq!(s.main_view, MainView::Paac);
    assert!(matches!(&s.pending_global_nav, Some(PendingNav::Paac { filename, .. }) if filename == "f.paac"));
    let text = HitSource::Paloc { lang: "en".to_string(), hash_id: 5, value: "v".to_string() };
    jump_to_hit(&mut s, &hit("g", text));
    assert_eq!(s.main_view, MainView::Paloc);
    assert!(matches!(&s.pending_global_nav, Some(PendingNav::Paloc { lang, hash_id: 5 }) if lang == "eng"));
    let row = HitSource::Pabgb {
        dispatch_name: "nowhere".to_string(),
        entry_idx: 0,
        entry_key: 1,
        string_key: String::new(),
    };
    assert!(matches!(jump_to_hit(&mut s, &hit("g", row)), Jump::Table(Opened::Refused)));
}

#[test]
fn hit_lines_say_where() {
    let row = HitSource::Pabgb {
        dispatch_name: "item_info".to_string(),
        entry_idx: 0,
        entry_key: 7,
        string_key: "Arrow".to_string(),
    };
    assert_eq!(source_row_prefix(&row).as_deref(), Some("item_info → Arrow (key=7): "));
    let text = HitSource::Paloc { lang: "en".to_string(), hash_id: 5, value: "v".to_string() };
    assert_eq!(source_row_prefix(&text).as_deref(), Some("en[5]: "));
    assert_eq!(byte_kind_label(ByteHitKind::Utf16Le), "UTF-16 LE wide-string match");
    assert!(korean_run_line(KoreanEncoding::Utf8, 0x1F, "검 불")
        .ends_with("offset 0x1F | run length: 3 chars"));
}

#[test]
fn patterns_and_silence_are_told() {
    let mut s = MultiFormatSearchSession::default();
    assert!(pattern_feedback(&s, &Ok(vec![1])).is_none());
    s.search_mode = SearchMode::Hex;
    s.hex_query = "zz".to_string();
    assert_eq!(
        pattern_feedback(&s, &Err("bad".to_string())).as_deref(),
        Some("error: bad")
    );
    assert!(pattern_feedback(&s, &Ok(vec![0xAB])).is_some());
    assert!(stuck_hint(&s, 10_000).is_none());
    s.in_progress = true;
    s.progress_updated_at = Some(0);
    assert!(stuck_hint(&s, 1_000).is_none());
    assert!(stuck_hint(&s, 60_000).is_some());
}

#[test]
fn a_sign_makes_no_number_of_a_query() {
    assert_eq!(parse_user_number(" +42 "), None);
    assert_eq!(parse_user_number("0x+2A"), None);
    assert_eq!(parse_user_number("0X2a "), Some(42));
}
