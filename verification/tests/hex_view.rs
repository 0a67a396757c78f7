use mod_workbench::hexdump::printable;
use mod_workbench::ui::hex_view::{
    clamp_page, offset_input, page_label, page_range, page_text, printable_label, range_label,
    selection_label, total_pages, turn_enabled, turn_page, type_offset, HexViewState, PageTurn,
};

#[test]
fn total_pages_basic() {
    assert_eq!(total_pages(0, 1024), 0);
    assert_eq!(total_pages(1, 1024), 1);
    assert_eq!(total_pages(1024, 1024), 1);
    assert_eq!(total_pages(1025, 1024), 2);
    assert_eq!(total_pages(2048, 1024), 2);
    assert_eq!(total_pages(2049, 1024), 3);
}

#[test]
fn printable_filters_control_bytes() {
    assert_eq!(printable(0x00), '.');
    assert_eq!(printable(0x1F), '.');
    assert_eq!(printable(0x20), ' ');
    assert_eq!(printable(b'A'), 'A');
    assert_eq!(printable(0x7E), '~');
    assert_eq!(printable(0x7F), '.');
}

#[test]
fn default_state_is_safe_at_zero_bytes() {
    let state = HexViewState::default();
    assert_eq!(state.page, 0);
    assert_eq!(state.bytes_per_page, 1024);
    assert_eq!(state.selected_offset, None);
    let bytes: &[u8] = &[];
    assert_eq!(total_pages(bytes.len(), state.bytes_per_page), 0);
}

#[test]
fn pages_turn_within_the_content() {
    let mut s = HexViewState::default();
    assert!(!turn_enabled(&s, 3, PageTurn::Prev) && turn_enabled(&s, 3, PageTurn::Next));
    turn_page(&mut s, 3, PageTurn::Next);
    turn_page(&mut s, 3, PageTurn::Prev);
    assert_eq!(s.page, 0);
    turn_page(&mut s, 3, PageTurn::Last);
    assert_eq!(s.page, 2);
    turn_page(&mut s, 3, PageTurn::Next);
    assert_eq!(s.page, 2);
    turn_page(&mut s, 3, PageTurn::First);
    assert_eq!(s.page, 0);
}

#[test]
fn a_page_beyond_the_content_is_brought_back() {
    let mut s = HexViewState::default();
    s.page = 9;
    clamp_page(&mut s, 2049);
    assert_eq!(s.page, 2);
    clamp_page(&mut s, 0);
    assert_eq!(s.page, 0);
}

#[test]
fn the_last_page_ends_with_the_content() {
    let mut s = HexViewState::default();
    s.page = 1;
    assert_eq!(page_range(&s, 1030), (1024, 1030));
    let bytes = vec![0x41u8; 1030];
    assert!(page_text(&bytes, &s).starts_with("00000400  41 41 41 41 41 41"));
    assert!(page_label(&s, 1030).contains("2"));
    assert!(range_label(&s, 1030).contains("400"));
}

#[test]
fn a_typed_offset_selects_its_byte() {
    let mut s = HexViewState::default();
    type_offset(&mut s, "0x401", 2048);
    assert_eq!((s.selected_offset, s.page), (Some(0x401), 1));
    assert_eq!(offset_input(&s), "401");
    type_offset(&mut s, "zz", 2048);
    type_offset(&mut s, "FFFF", 2048);
    assert_eq!(s.selected_offset, Some(0x401));
    type_offset(&mut s, "  ", 2048);
    assert_eq!(s.selected_offset, None);
}

#[test]
fn the_selected_byte_is_described() {
    let mut s = HexViewState::default();
    let bytes = [0x41u8, 0x00];
    assert!(selection_label(&bytes, &s).is_none());
    s.selected_offset = Some(0);
    let line = selection_label(&bytes, &s).unwrap();
    assert_eq!(line, "Selected offset 0x00000000 (0): byte = 0x41 ('A') (0b01000001)");
    s.selected_offset = Some(5);
    assert!(selection_label(&bytes, &s).is_none());
    assert!(printable_label(0x41).contains('A'));
    assert_ne!(printable_label(0x00), printable_label(0x41));
}
