use mod_workbench::byte_patch::{
    add_draft, changed_byte_count, draft_patch, format_patch_summary, has_patches,
    parse_byte_input, preview_bytes, remove_patch, report_loaded, report_preview, report_saved,
    BytePatch, BytePatchDoc, Drafted, PatchDraft,
};
use mod_workbench::state::{Level, Toasts};

fn draft(name: &str, find: &str, replace: &str) -> PatchDraft {
    let mut d = PatchDraft::default();
    d.name = name.to_string();
    d.find = find.to_string();
    d.replace = replace.to_string();
    d
}

#[test]
fn hex_pairs_are_read_with_gaps() {
    assert_eq!(parse_byte_input("46 61,6c\t73 65", true), Ok(b"False".to_vec()));
    assert_eq!(parse_byte_input("4 6", true), Ok(vec![0x46]));
    assert_eq!(parse_byte_input("", true), Ok(Vec::new()));
    assert_eq!(
        parse_byte_input("4g", true),
        Err("invalid hex character 'g'".to_string())
    );
    assert_eq!(
        parse_byte_input("461", true),
        Err("hex string has odd nibble count".to_string())
    );
}

#[test]
fn plain_text_is_taken_as_its_bytes() {
    assert_eq!(parse_byte_input("Té", false), Ok(vec![0x54, 0xC3, 0xA9]));
}

#[test]
fn printed_pairs_read_back() {
    let bytes: Vec<u8> = (0..=255).collect();
    let mut printed = String::new();
    for b in &bytes {
        printed.push_str(&format!("{:02x} ", b));
    }
    assert_eq!(parse_byte_input(&printed, true), Ok(bytes));
}

#[test]
fn previews_escape_and_cut() {
    assert_eq!(preview_bytes(b"False", 24), "\"False\"");
    assert_eq!(preview_bytes(b"a\"\\\x00\x7f", 24), "\"a\\x22\\x5c\\x00\\x7f\"");
    assert_eq!(preview_bytes(b"abcdef", 3), "\"abc\"...");
    let p = BytePatch {
        name: "skip".to_string(),
        find: b"False".to_vec(),
        replace: b"True".to_vec(),
        comment: String::new(),
        allow_resize: true,
    };
    assert_eq!(
        format_patch_summary(&p),
        "'skip' :: 5B \"False\" -> 4B \"True\" (resize)"
    );
}

#[test]
fn changed_bytes_count_what_one_is_longer() {
    assert_eq!(changed_byte_count(b"abc", b"abc"), 0);
    assert_eq!(changed_byte_count(b"abc", b"axc"), 1);
    assert_eq!(changed_byte_count(b"abc", b"axcde"), 3);
    assert_eq!(changed_byte_count(b"axcde", b"abc"), 3);
}

#[test]
fn a_draft_says_what_is_missing() {
    assert!(matches!(draft_patch(&draft(" ", "a", "b")), Drafted::Warned("Patch name is required.")));
    assert!(matches!(
        draft_patch(&draft("n", "", "")),
        Drafted::Warned("Find pattern can't be empty.")
    ));
    assert!(matches!(
        draft_patch(&draft("n", "ab", "a")),
        Drafted::Warned("Find and replace differ in length — tick 'Allow length change' if intentional.")
    ));
    let mut hex = draft("n", "zz", "00");
    hex.hex_mode = true;
    assert!(matches!(draft_patch(&hex), Drafted::Failed("Find parse failed", _)));
    let mut hex = draft("n", "00", "0");
    hex.hex_mode = true;
    assert!(matches!(draft_patch(&hex), Drafted::Failed("Replace parse failed", _)));
    let mut longer = draft(" n ", "ab", "a");
    longer.allow_resize = true;
    match draft_patch(&longer) {
        Drafted::Ready(p) => {
            assert_eq!(p.name, "n");
            assert_eq!((p.find, p.replace, p.allow_resize), (b"ab".to_vec(), b"a".to_vec(), true));
        }
        other => panic!("{:?}", other),
    }
}

#[test]
fn a_drafted_patch_is_added_and_the_form_blanked() {
    let mut d = draft("n", "ab", "cd");
    d.comment = "why".to_string();
    let mut doc = Some(BytePatchDoc::new("dir".to_string(), "f.paseq".to_string()));
    let mut toasts = Toasts::new();
    assert!(!has_patches(&doc));
    add_draft(&mut d, &mut doc, &mut toasts);
    assert!(has_patches(&doc));
    assert_eq!(doc.as_ref().unwrap().patches[0].comment, "why");
    assert!(d.name.is_empty() && d.find.is_empty() && d.replace.is_empty() && d.comment.is_empty());
    assert!(toasts.items.is_empty());
    add_draft(&mut d, &mut doc, &mut toasts);
    assert_eq!(toasts.items[0].level, Level::Warn);
    remove_patch(&mut doc, 0);
    assert!(!has_patches(&doc));
}

#[test]
fn the_form_hints_at_its_mode() {
    let mut d = PatchDraft::default();
    assert_eq!(d.hint(), "ASCII: False");
    d.hex_mode = true;
    assert_eq!(d.hint(), "hex bytes: 46 61 6c 73 65");
    d.name = "x".to_string();
    d.clear();
    assert!(d.name.is_empty() && d.hex_mode);
}

#[test]
fn previews_and_files_are_reported() {
    let mut t = Toasts::new();
    let bytes = Some(b"abc".to_vec());
    let doc = Some(BytePatchDoc::new("dir".to_string(), "f".to_string()));
    report_preview(&bytes, &doc, &Ok(b"abd".to_vec()), &mut t);
    assert_eq!(t.items[0].message, "0 patches dry-applied — 1 byte(s) changed.");
    report_preview(&bytes, &doc, &Err("no match".to_string()), &mut t);
    assert_eq!(t.items[1].message, "Preview failed");
    report_preview(&None, &doc, &Ok(Vec::new()), &mut t);
    assert_eq!(t.items.len(), 2);
    let mut last = None;
    let path = "p.json".to_string();
    report_saved(&mut last, &mut t, &path, &Err((true, "full".to_string())));
    assert_eq!(t.items[2].details.as_deref(), Some("full\nPath: p.json"));
    report_saved(&mut last, &mut t, &path, &Err((false, "bad".to_string())));
    assert_eq!(t.items[3].message, "Serialize failed");
    assert!(last.is_none());
    report_saved(&mut last, &mut t, &path, &Ok(()));
    assert_eq!(last.as_deref(), Some("p.json"));
    let mut held = None;
    report_loaded(&mut held, &mut last, &mut t, &path, Err((true, "eof".to_string())));
    assert_eq!(t.items[5].message, "Patch JSON parse failed");
    report_loaded(&mut held, &mut last, &mut t, &path, Err((false, "gone".to_string())));
    assert_eq!(t.items[6].message, "Read failed");
    report_loaded(&mut held, &mut last, &mut t, &path, Ok(doc.unwrap()));
    assert_eq!(t.items[7].message, "Loaded patch JSON: p.json");
    assert!(held.is_some());
}
