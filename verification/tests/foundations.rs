use mod_workbench::digits::{dec_i64, dec_text, parse_unsigned, push_hex};
use mod_workbench::edit_path::{get_at_path, parse_path, set_at_path, Step};
use mod_workbench::hexdump::{format_hex_dump, format_hex_line};
use mod_workbench::json::Json;
use mod_workbench::json_text::{to_compact, to_pretty};
use mod_workbench::rows::find_position;
use mod_workbench::sizes::format_size;
use mod_workbench::sorting::{sorted_rows, SortKey};
use mod_workbench::text::{
    behind_last, byte_offset, byte_prefix, contains, lines, longer_than,
    lower_contains, split, starts_with, trim, trim_start_matches,
};

fn hex_text(n: u64, width: usize, upper: bool) -> String {
    let mut s = String::new();
    push_hex(&mut s, n, width, upper);
    s
}

fn text(s: &str) -> Json {
    Json::Str(s.to_string())
}

fn object(fields: Vec<(&str, Json)>) -> Json {
    Json::Obj(fields.into_iter().map(|(k, v)| (k.to_string(), v)).collect())
}

fn key(rank: u128, label: &str, number: u64) -> SortKey {
    SortKey { rank, text: label.to_string(), number }
}

#[test]
fn numbers_print_as_std_prints_them() {
    for n in [0u64, 9, 10, 4096, u64::MAX] {
        assert_eq!(dec_text(n), format!("{}", n));
        assert_eq!(hex_text(n, 0, false), format!("{:x}", n));
        assert_eq!(hex_text(n, 8, true), format!("{:08X}", n));
    }
    for i in [0i64, -1, 7, i64::MIN, i64::MAX] {
        assert_eq!(dec_i64(i), format!("{}", i));
    }
}

#[test]
fn printed_numbers_read_back() {
    for n in [0u64, 15, 16, 0xC000_0000, u64::MAX] {
        assert_eq!(parse_unsigned(&dec_text(n), 10, u64::MAX), Some(n));
        assert_eq!(parse_unsigned(&hex_text(n, 12, true), 16, u64::MAX), Some(n));
    }
    assert_eq!(parse_unsigned("+42", 10, 100), Some(42));
    assert_eq!(parse_unsigned("-1", 10, 100), None);
    assert_eq!(parse_unsigned("101", 10, 100), None);
    assert_eq!(parse_unsigned("", 10, 100), None);
    assert_eq!(parse_unsigned("+", 10, 100), None);
    assert_eq!(parse_unsigned("18446744073709551616", 10, u64::MAX), None);
}

#[test]
fn sizes_print_as_floats_do() {
    let kb = 1024u64;
    for b in [
        0,
        1,
        1023,
        kb,
        kb + 51,
        kb + 52,
        1536,
        1587,
        1588,
        kb * kb - 1,
        kb * kb,
        5 * kb * kb / 2 + 7,
        kb * kb * kb - 1,
        kb * kb * kb,
        7 * kb * kb * kb / 3,
    ] {
        let want = if b >= kb * kb * kb {
            format!("{:.2} GB", b as f64 / (kb * kb * kb) as f64)
        } else if b >= kb * kb {
            format!("{:.2} MB", b as f64 / (kb * kb) as f64)
        } else if b >= kb {
            format!("{:.1} KB", b as f64 / kb as f64)
        } else {
            format!("{} B", b)
        };
        assert_eq!(format_size(b), want, "{}", b);
    }
}

#[test]
fn rows_sort_by_rank_text_and_number_and_keep_their_order() {
    let keys = vec![key(1, "b", 0), key(0, "z", 0), key(1, "a", 5), key(1, "a", 2), key(1, "b", 0)];
    assert_eq!(sorted_rows(&keys), vec![1, 3, 2, 0, 4]);
    assert!(sorted_rows(&Vec::new()).is_empty());
}

#[test]
fn the_first_position_of_a_row_is_found() {
    let rows = vec![4usize, 7, 7, 9];
    assert_eq!(find_position(&rows, 7), Some(1));
    assert_eq!(find_position(&rows, 5), None);
}

#[test]
fn documents_print_as_serde_prints_them() {
    let doc = object(vec![
        ("b", Json::Arr(vec![Json::Null, Json::Bool(true), Json::Int(-3), Json::Uint(7)])),
        ("a", text("line\nbreak \"quoted\"")),
        ("f", Json::Float("0.5".to_string())),
        ("empty", object(Vec::new())),
    ]);
    let mut map = serde_json::Map::new();
    map.insert(
        "b".to_string(),
        serde_json::Value::Array(vec![
            serde_json::Value::Null,
            serde_json::Value::Bool(true),
            serde_json::Value::from(-3i64),
            serde_json::Value::from(7u64),
        ]),
    );
    map.insert("a".to_string(), serde_json::Value::from("line\nbreak \"quoted\""));
    map.insert("f".to_string(), serde_json::Value::from(0.5));
    map.insert("empty".to_string(), serde_json::Value::Object(serde_json::Map::new()));
    let value = serde_json::Value::Object(map);
    assert_eq!(to_compact(&doc), value.to_string());
    assert_eq!(to_pretty(&doc), serde_json::to_string_pretty(&value).unwrap());
}

#[test]
fn single_documents_print() {
    assert_eq!(to_compact(&Json::Null), "null");
    assert_eq!(to_compact(&Json::Bool(false)), "false");
    assert_eq!(to_compact(&Json::Uint(u64::MAX)), "18446744073709551615");
    assert_eq!(to_compact(&Json::Int(i64::MIN)), "-9223372036854775808");
    assert_eq!(to_compact(&Json::Float("1e3".to_string())), "1000.0");
    assert_eq!(to_compact(&text("a\tb")), "\"a\\tb\"");
    assert_eq!(to_compact(&Json::Arr(vec![Json::Uint(1), Json::Uint(2)])), "[1,2]");
    assert_eq!(to_compact(&object(vec![("k", Json::Uint(1))])), "{\"k\":1}");
}

#[test]
fn equal_documents_are_equal_whatever_their_order() {
    let a = object(vec![("x", Json::Uint(1)), ("y", text("t"))]);
    let b = object(vec![("y", text("t")), ("x", Json::Uint(1))]);
    assert!(a.equals(&a.copy()));
    assert!(a.equals(&b));
    assert!(!a.equals(&object(vec![("x", Json::Uint(1))])));
    assert!(!Json::Uint(1).equals(&text("1")));
    assert_eq!(a.get("y").map(to_compact), Some("\"t\"".to_string()));
    assert!(a.get("z").is_none());
    assert_eq!(Json::Uint(3).as_i64(), Some(3));
    assert_eq!(Json::Uint(u64::MAX).as_i64(), None);
    assert_eq!(Json::Int(-1).as_u64(), None);
}

#[test]
fn paths_step_into_members_and_elements() {
    let steps = parse_path("a.b[2].c").unwrap();
    assert_eq!(steps.len(), 4);
    assert!(matches!(&steps[1], Step::Member(n) if n == "b"));
    assert!(matches!(&steps[2], Step::Element(2)));
    assert!(parse_path("a[x]").is_none());
}

#[test]
fn what_is_set_at_a_path_is_got_there_and_can_be_set_back() {
    let mut doc = object(vec![(
        "a",
        Json::Arr(vec![object(vec![("n", Json::Uint(1))]), object(vec![("n", Json::Uint(2))])]),
    )]);
    let before = to_compact(&doc);
    let old = get_at_path(&doc, "a[1].n").unwrap().copy();
    assert!(set_at_path(&mut doc, "a[1].n", &text("new")));
    assert_eq!(to_compact(get_at_path(&doc, "a[1].n").unwrap()), "\"new\"");
    assert_eq!(to_compact(get_at_path(&doc, "a[0].n").unwrap()), "1");
    assert!(set_at_path(&mut doc, "a[1].n", &old));
    assert_eq!(to_compact(&doc), before);
    assert!(!set_at_path(&mut doc, "a[9].n", &Json::Null));
    assert!(!set_at_path(&mut doc, "b.c", &Json::Null));
    assert_eq!(to_compact(&doc), before);
    assert!(set_at_path(&mut doc, "b", &Json::Null));
    assert_eq!(to_compact(get_at_path(&doc, "b").unwrap()), "null");
}

#[test]
fn hex_lines_hold_offset_bytes_and_characters() {
    let bytes: Vec<u8> = (0x40..0x50).collect();
    assert_eq!(
        format_hex_line(0x1F0, &bytes),
        "000001F0  40 41 42 43 44 45 46 47  48 49 4A 4B 4C 4D 4E 4F  @ABCDEFGHIJKLMNO"
    );
    assert_eq!(format_hex_dump(&[], 0), "");
}

#[test]
fn texts_are_cut_and_searched_by_characters_and_bytes() {
    assert_eq!(trim("\u{3000} a b \n"), "a b");
    assert_eq!(trim_start_matches("0x0x1F", "0x"), "1F");
    assert_eq!(behind_last("a.b.paseqc", '.'), "paseqc");
    assert_eq!(behind_last("plain", '.'), "plain");
    assert_eq!(split("a,,b", ','), vec!["a", "", "b"]);
    assert_eq!(lines("a\r\nb\n"), vec!["a", "b"]);
    assert_eq!(byte_prefix("é1", 1), None);
    assert_eq!(byte_prefix("é1", 2), Some("é".to_string()));
    assert!(longer_than("éé", 3) && !longer_than("éé", 4));
    assert_eq!(byte_offset("éab", 0), 0);
    assert_eq!(byte_offset("éab", 2), 3);
    assert!(contains("abc", "bc") && !contains("abc", "cb"));
    assert!(starts_with("abc", "ab") && !starts_with("abc", "b"));
    assert!(lower_contains("ÀRROW", "àrr"));
}
