//! The entry table of a loaded game table: searching, load errors, hit lists.

use std::collections::HashMap;
use vstd::prelude::*;
use vstd::string::StrSliceExecFns;
use crate::digits::{bare_parsed, dec, dec_text, dec_usize, parse_bare, push_digits};
use crate::hexdump::{format_hex_dump, hex_dump};
use crate::json::{
    lemma_arr_view, lemma_obj_view, members, number_text, tree_get, tree_u64, trees, Json, Tree,
};
use crate::navigation::{open_at, opened_at, Opened};
use crate::rows::{find_position, picked, position_of};
use crate::state::{
    copy_tables, info_note, next_id, section_of, warn_note, ActiveTable, AppState,
    Catalog, GlobalSearchHit, GlobalSearchSession, Job, LoadState, Localization,
};
use crate::text::{
    byte_len, byte_prefix, byte_take, chars_of, concat2, concat3, contains, ends_with, find,
    first_at, has_cut, has_prefix, has_sub, has_suffix, longer_than, lower_contains, lowercase,
    same, strip_prefix, trim, trimmed,
};

verus! {

broadcast use {vstd::seq_lib::group_seq_properties, vstd::std_specs::hash::group_hash_axioms};

/// How long the search text must rest before the rows are searched again, in milliseconds.
pub const FILTER_DEBOUNCE: u64 = 200;

/// How deep a search goes into nested values.
pub const MAX_RECURSION_DEPTH: u32 = 5;

/// The version that a bug report names.
pub const WORKBENCH_VERSION: &'static str = "0.1.0";

/// What kind of failure a load error is.
#[derive(Debug, Clone, Copy, PartialEq, Eq, Structural)]
pub enum ErrorCategory {
    PazLookup,
    GameDataLookup,
    Panic,
    Parser,
}

/// The name of a category in a bug report.
pub open spec fn category_tag(c: ErrorCategory) -> Seq<char> {
    match c {
        ErrorCategory::PazLookup => "PAZ lookup"@,
        ErrorCategory::GameDataLookup => "Game data"@,
        ErrorCategory::Panic => "Panic"@,
        ErrorCategory::Parser => "Parser error"@,
    }
}

impl ErrorCategory {
    /// The name of the category in a bug report.
    pub fn tag(self) -> (r: &'static str)
        ensures
            r@ == category_tag(self),
    {
        match self {
            ErrorCategory::PazLookup => "PAZ lookup",
            ErrorCategory::GameDataLookup => "Game data",
            ErrorCategory::Panic => "Panic",
            ErrorCategory::Parser => "Parser error",
        }
    }
}

/// The category of an error message: a caught panic, else a file that the
/// archive lacks, else an archive index that cannot be read, else the parser.
pub open spec fn category_of(msg: Seq<char>) -> ErrorCategory {
    if has_sub(msg, "panic while parsing"@) || has_sub(msg, "panic — "@) {
        ErrorCategory::Panic
    } else if has_sub(msg, "not found in gamedata"@) {
        ErrorCategory::PazLookup
    } else if has_sub(msg, "Cannot read PAMT"@) || has_sub(msg, "not found in 0008"@) {
        ErrorCategory::GameDataLookup
    } else {
        ErrorCategory::Parser
    }
}

/// The category of an error message.
pub fn classify_error(msg: &str) -> (r: ErrorCategory)
    ensures
        r == category_of(msg@),
{
    if contains(msg, "panic while parsing") || contains(msg, "panic — ") {
        ErrorCategory::Panic
    } else if contains(msg, "not found in gamedata") {
        ErrorCategory::PazLookup
    } else if contains(msg, "Cannot read PAMT") || contains(msg, "not found in 0008") {
        ErrorCategory::GameDataLookup
    } else {
        ErrorCategory::Parser
    }
}

/// The line above the error message.
pub open spec fn error_header(c: ErrorCategory) -> Seq<char> {
    match c {
        ErrorCategory::PazLookup => "PAZ lookup failed:"@,
        ErrorCategory::GameDataLookup => "Game data lookup failed:"@,
        ErrorCategory::Panic => "Parser panic:"@,
        ErrorCategory::Parser => "Parser error:"@,
    }
}

/// The line above the error message.
pub fn header_label(c: ErrorCategory) -> (r: &'static str)
    ensures
        r@ == error_header(c),
{
    match c {
        ErrorCategory::PazLookup => "PAZ lookup failed:",
        ErrorCategory::GameDataLookup => "Game data lookup failed:",
        ErrorCategory::Panic => "Parser panic:",
        ErrorCategory::Parser => "Parser error:",
    }
}

/// What the user is told of an error.
pub open spec fn error_hint(c: ErrorCategory) -> Seq<char> {
    match c {
        ErrorCategory::PazLookup => "This table isn't present in your game's 0008 PAZ at the standard internal path. Common causes: it's a dev-only table (lives in `bin_dev/`, gated off in retail), or it was renamed in a patch and the registry is out of date. Other tables are unaffected — close this tab and try another one."@,
        ErrorCategory::GameDataLookup => "Couldn't read the PAMT for the 0008 PAZ group. Verify that the configured Game Directory points at a real Crimson Desert install (Settings → Game Dir). The PAMT file is at `<game-dir>/0008/0.pamt`."@,
        ErrorCategory::Panic => "The parser hit an unrecoverable error (likely an out-of-bounds slice or unwrap on a schema mismatch) and was caught by the worker's panic guard. The workbench is still alive; only this tab is broken. Use \"Copy bug report\" to capture everything a maintainer needs and paste into a GitHub issue."@,
        ErrorCategory::Parser => "The parser couldn't decode this table's bytes. Most likely cause: the table's binary layout changed in a recent game patch. Try Show Hex to inspect the raw pabgb. Other tables that didn't change are unaffected."@,
    }
}

/// What the user is told of an error.
pub fn hint_label(c: ErrorCategory) -> (r: &'static str)
    ensures
        r@ == error_hint(c),
{
    match c {
        ErrorCategory::PazLookup => "This table isn't present in your game's 0008 PAZ at the standard internal path. Common causes: it's a dev-only table (lives in `bin_dev/`, gated off in retail), or it was renamed in a patch and the registry is out of date. Other tables are unaffected — close this tab and try another one.",
        ErrorCategory::GameDataLookup => "Couldn't read the PAMT for the 0008 PAZ group. Verify that the configured Game Directory points at a real Crimson Desert install (Settings → Game Dir). The PAMT file is at `<game-dir>/0008/0.pamt`.",
        ErrorCategory::Panic => "The parser hit an unrecoverable error (likely an out-of-bounds slice or unwrap on a schema mismatch) and was caught by the worker's panic guard. The workbench is still alive; only this tab is broken. Use \"Copy bug report\" to capture everything a maintainer needs and paste into a GitHub issue.",
        ErrorCategory::Parser => "The parser couldn't decode this table's bytes. Most likely cause: the table's binary layout changed in a recent game patch. Try Show Hex to inspect the raw pabgb. Other tables that didn't change are unaffected.",
    }
}

/// The message is on a file that the archive lacks, and `name` stands in it
/// between `File '` and the next quote.
pub open spec fn names_file(msg: Seq<char>, name: Seq<char>) -> bool {
    &&& category_of(msg) == ErrorCategory::PazLookup
    &&& exists|i: int, j: int| #[trigger]
        file_between(msg, i, j) && name == msg.subrange(i + 6, j)
}

/// The message names no file, or is on something else.
pub open spec fn names_none(msg: Seq<char>) -> bool {
    category_of(msg) != ErrorCategory::PazLookup || forall|i: int, j: int|
        !file_between(msg, i, j)
}

/// `File '` stands in the message first at `i`, and the next quote behind it at `j`.
pub open spec fn file_between(msg: Seq<char>, i: int, j: int) -> bool {
    &&& first_at(msg, "File '"@, i)
    &&& i + 6 <= j < msg.len()
    &&& msg[j] == '\''
    &&& forall|k: int| i + 6 <= k < j ==> msg[k] != '\''
}

/// The file that a message of the form `File 'name' ...` names. A message on
/// anything but a file that the archive lacks names none.
pub fn extract_paz_filename(msg: &str) -> (r: Option<&str>)
    ensures
        match r {
            Some(n) => names_file(msg@, n@),
            None => names_none(msg@),
        },
{
    proof {
        reveal_strlit("File '");
    }
    if classify_error(msg) != ErrorCategory::PazLookup {
        return None;
    }
    let v = chars_of(msg);
    match find(&v, &chars_of("File '")) {
        None => {
            assert forall|i: int, j: int| !file_between(msg@, i, j) by {
                if file_between(msg@, i, j) {
                    assert(crate::text::occurs_at(msg@, "File '"@, i));
                }
            }
            None
        },
        Some(i) => {
            assert(crate::text::occurs_at(msg@, "File '"@, i as int));
            assert("File '"@.len() == 6 && v.len() == msg@.len());
            let mut j: usize = i + 6;
            while j < v.len()
                invariant
                    i + 6 <= j <= v.len(),
                    v@ == msg@,
                    category_of(msg@) == ErrorCategory::PazLookup,
                    first_at(msg@, "File '"@, i as int),
                    "File '"@.len() == 6,
                    forall|k: int| i + 6 <= k < j ==> msg@[k] != '\'',
                decreases v.len() - j,
            {
                if v[j] == '\'' {
                    assert(file_between(msg@, i as int, j as int));
                    return Some(msg.substring_char(i + 6, j));
                }
                j = j + 1;
            }
            assert forall|a: int, b: int| !file_between(msg@, a, b) by {
                if file_between(msg@, a, b) {
                    assert(crate::text::occurs_at(msg@, "File '"@, a));
                    assert(crate::text::occurs_at(msg@, "File '"@, i as int));
                    assert(a == i);
                }
            }
            None
        },
    }
}

/// One message names one file.
pub proof fn law_one_file_name(msg: Seq<char>, a: Seq<char>, b: Seq<char>)
    requires
        names_file(msg, a),
        names_file(msg, b),
    ensures
        a == b,
{
    let (i, j) = choose|i: int, j: int| #[trigger] file_between(msg, i, j) && a == msg.subrange(i + 6, j);
    let (k, l) = choose|k: int, l: int| #[trigger] file_between(msg, k, l) && b == msg.subrange(k + 6, l);
    assert(crate::text::occurs_at(msg, "File '"@, i));
    assert(crate::text::occurs_at(msg, "File '"@, k));
    assert(i == k);
    if j < l {
        assert(msg[j] != '\'');
    } else if l < j {
        assert(msg[l] != '\'');
    }
}

/// The part of a bug report on the file in the archive.
pub open spec fn report_path(name: Option<Seq<char>>) -> Seq<char> {
    match name {
        Some(n) => "## PAZ path\n\n"@ + "`gamedata/binary__/client/bin/"@ + n + "`\n\n"@,
        None => Seq::empty(),
    }
}

/// The part of a bug report on the bytes of the table.
pub open spec fn report_bytes(prefix: Option<Seq<u8>>, total: nat) -> Seq<char> {
    match prefix {
        Some(b) if b.len() > 0 => "Total raw_pabgb size: "@ + dec(total) + " bytes. First "@ + dec(
            b.len(),
        ) + " shown.\n\n"@ + "```\n"@ + hex_dump(b, 0) + "\n"@ + "```\n"@,
        _ => "(no raw bytes captured — PAZ extraction also failed for this table)\n"@,
    }
}

/// A bug report on a table that failed to load.
pub open spec fn bug_report(
    table: Seq<char>,
    category: ErrorCategory,
    msg: Seq<char>,
    file: Option<Seq<char>>,
    prefix: Option<Seq<u8>>,
    total: nat,
) -> Seq<char> {
    "## Mod Workbench bug report\n\n"@ + "Workbench version: "@ + WORKBENCH_VERSION@ + "\n\n"@
        + "## Table\n\n"@ + "`"@ + table + "`\n\n"@ + "## Category\n\n"@ + category_tag(category)
        + "\n\n"@ + report_path(file) + "## Error\n\n"@ + "```\n"@ + msg + (if has_suffix(
        msg,
        "\n"@,
    ) {
        Seq::empty()
    } else {
        "\n"@
    }) + "```\n\n"@ + "## Raw bytes\n\n"@ + report_bytes(prefix, total)
}

/// `r` is the bug report on a table that failed to load. The archive path is in
/// it where the error is a file that the archive lacks and the message names the file.
pub open spec fn is_report(
    table: Seq<char>,
    category: ErrorCategory,
    msg: Seq<char>,
    prefix: Option<Seq<u8>>,
    total: nat,
    r: Seq<char>,
) -> bool {
    &&& category != ErrorCategory::PazLookup || names_none(msg) ==> r == bug_report(
        table,
        category,
        msg,
        None,
        prefix,
        total,
    )
    &&& forall|n: Seq<char>|
        category == ErrorCategory::PazLookup && #[trigger] names_file(msg, n) ==> r == bug_report(
            table,
            category,
            msg,
            Some(n),
            prefix,
            total,
        )
}

/// The bytes behind a reference, where there is one.
pub open spec fn opt_bytes(b: Option<&[u8]>) -> Option<Seq<u8>> {
    match b {
        Some(x) => Some(x@),
        None => None,
    }
}

fn raw_bytes_section(raw_prefix: Option<&[u8]>, raw_byte_count: usize) -> (s: String)
    ensures
        s@ == report_bytes(opt_bytes(raw_prefix), raw_byte_count as nat),
{
    match raw_prefix {
        Some(bytes) => {
            if bytes.len() > 0 {
                let mut s = "Total raw_pabgb size: ".to_owned();
                push_digits(&mut s, raw_byte_count as u64, 10, false);
                s.push_str(" bytes. First ");
                push_digits(&mut s, bytes.len() as u64, 10, false);
                s.push_str(" shown.\n\n");
                s.push_str("```\n");
                s.push_str(format_hex_dump(bytes, 0).as_str());
                s.push_str("\n");
                s.push_str("```\n");
                s
            } else {
                "(no raw bytes captured — PAZ extraction also failed for this table)\n".to_owned()
            }
        },
        None => {
            "(no raw bytes captured — PAZ extraction also failed for this table)\n".to_owned()
        },
    }
}

/// The bug report on a table that failed to load.
pub fn build_bug_report(
    dispatch_name: &str,
    category: ErrorCategory,
    error_msg: &str,
    raw_prefix: Option<&[u8]>,
    raw_byte_count: usize,
) -> (r: String)
    ensures
        is_report(
            dispatch_name@,
            category,
            error_msg@,
            opt_bytes(raw_prefix),
            raw_byte_count as nat,
            r@,
        ),
{
    let mut s = "## Mod Workbench bug report\n\n".to_owned();
    s.push_str("Workbench version: ");
    s.push_str(WORKBENCH_VERSION);
    s.push_str("\n\n");
    s.push_str("## Table\n\n");
    s.push_str("`");
    s.push_str(dispatch_name);
    s.push_str("`\n\n");
    s.push_str("## Category\n\n");
    s.push_str(category.tag());
    s.push_str("\n\n");
    let ghost head = s@;
    let ghost mut file: Option<Seq<char>> = None;
    if category == ErrorCategory::PazLookup {
        match extract_paz_filename(error_msg) {
            Some(filename) => {
                s.push_str("## PAZ path\n\n");
                s.push_str("`gamedata/binary__/client/bin/");
                s.push_str(filename);
                s.push_str("`\n\n");
                proof {
                    file = Some(filename@);
                    assert(names_file(error_msg@, filename@));
                    assert forall|n: Seq<char>| #[trigger] names_file(error_msg@, n) implies n
                        == filename@ by {
                        law_one_file_name(error_msg@, n, filename@);
                    }
                }
            },
            None => {},
        }
    }
    assert(s@ =~= head + report_path(file));
    s.push_str("## Error\n\n");
    s.push_str("```\n");
    s.push_str(error_msg);
    let ghost upto = s@;
    if !ends_with(error_msg, "\n") {
        s.push_str("\n");
    }
    assert(s@ =~= upto + (if has_suffix(error_msg@, "\n"@) {
        Seq::empty()
    } else {
        "\n"@
    }));
    s.push_str("```\n\n");
    s.push_str("## Raw bytes\n\n");
    s.push_str(raw_bytes_section(raw_prefix, raw_byte_count).as_str());
    s
}

/// Whether the text of a value can stand in a cell: a text of more than forty
/// bytes is cut behind its first 37, so a character must end there.
pub open spec fn cell_fits(t: Option<Tree>) -> bool {
    match t {
        Some(Tree::Str(s)) => byte_len(s) > 40 ==> has_cut(s, 37),
        _ => true,
    }
}

/// What a cell shows of a value.
pub open spec fn cell_value(t: Option<Tree>) -> Seq<char> {
    match t {
        Some(Tree::Int(n)) => number_text(Tree::Int(n)),
        Some(Tree::Float(s)) => s,
        Some(Tree::Str(s)) => if byte_len(s) > 40 {
            byte_take(s, 37) + "..."@
        } else {
            s
        },
        Some(Tree::Bool(b)) => if b {
            "true"@
        } else {
            "false"@
        },
        Some(Tree::Null) => "null"@,
        Some(Tree::Arr(v)) => "["@ + dec(v.len()) + " items]"@,
        Some(Tree::Obj(v)) => "{"@ + dec(v.len()) + " fields}"@,
        None => "-"@,
    }
}

/// What the cell of a column shows of an entry.
pub fn format_cell_value(entry: &Json, field_name: &str) -> (r: String)
    requires
        cell_fits(tree_get(entry@, field_name@)),
    ensures
        r@ == cell_value(tree_get(entry@, field_name@)),
{
    match entry.get(field_name) {
        None => "-".to_owned(),
        Some(v) => match v {
            Json::Uint(_) | Json::Int(_) | Json::Float(_) => v.number(),
            Json::Str(s) => {
                if longer_than(s.as_str(), 40) {
                    match byte_prefix(s.as_str(), 37) {
                        Some(p) => concat2(p.as_str(), "..."),
                        None => s.clone(),
                    }
                } else {
                    s.clone()
                }
            },
            Json::Bool(b) => if *b {
                "true".to_owned()
            } else {
                "false".to_owned()
            },
            Json::Null => "null".to_owned(),
            Json::Arr(a) => {
                proof {
                    lemma_arr_view(*a);
                }
                concat3("[", dec_usize(a.len()).as_str(), " items]")
            },
            Json::Obj(o) => {
                proof {
                    lemma_obj_view(*o);
                }
                concat3("{", dec_usize(o.len()).as_str(), " fields}")
            },
        },
    }
}

/// The number that a search text writes: decimal digits, or hexadecimal digits
/// behind `0x`, and nothing else.
pub open spec fn user_number(s: Seq<char>) -> Option<nat> {
    if has_prefix(s, "0x"@) || has_prefix(s, "0X"@) {
        bare_parsed(s.skip(2), 16, u64::MAX as nat)
    } else {
        bare_parsed(s, 10, u64::MAX as nat)
    }
}

/// The number that a search text writes.
pub fn parse_user_number(s: &str) -> (r: Option<u64>)
    ensures
        match r {
            Some(n) => user_number(s@) == Some(n as nat),
            None => user_number(s@) is None,
        },
{
    proof {
        reveal_strlit("0x");
        reveal_strlit("0X");
    }
    match strip_prefix(s, "0x") {
        Some(rest) => parse_bare(rest.as_str(), 16, u64::MAX),
        None => match strip_prefix(s, "0X") {
            Some(rest) => parse_bare(rest.as_str(), 16, u64::MAX),
            None => parse_bare(s, 10, u64::MAX),
        },
    }
}

/// Some text within the value holds the search text, no deeper than allowed.
pub open spec fn strings_match(t: Tree, f: Seq<char>, depth: nat) -> bool
    decreases t,
{
    if depth >= MAX_RECURSION_DEPTH {
        false
    } else {
        match t {
            Tree::Str(s) => has_sub(lowercase(s), f),
            Tree::Arr(v) => exists|i: int|
                0 <= i < v.len() && strings_match(#[trigger] v[i], f, depth + 1),
            Tree::Obj(v) => exists|i: int|
                0 <= i < v.len() && strings_match((#[trigger] v[i]).1, f, depth + 1),
            _ => false,
        }
    }
}

/// Whether some text within the value holds the search text.
pub fn walk_strings_match(value: &Json, filter_lower: &str, depth: u32) -> (r: bool)
    ensures
        r == strings_match(value@, filter_lower@, depth as nat),
    decreases value,
{
    if depth >= MAX_RECURSION_DEPTH {
        return false;
    }
    match value {
        Json::Str(s) => lower_contains(s.as_str(), filter_lower),
        Json::Arr(v) => {
            proof {
                lemma_arr_view(*v);
            }
            let mut i: usize = 0;
            while i < v.len()
                invariant
                    0 <= i <= v.len(),
                    depth < MAX_RECURSION_DEPTH,
                    *value == Json::Arr(*v),
                    value@ == Tree::Arr(trees(v@)),
                    forall|j: int|
                        0 <= j < i ==> !strings_match(
                            #[trigger] trees(v@)[j],
                            filter_lower@,
                            (depth + 1) as nat,
                        ),
                decreases v.len() - i,
            {
                assert(value->Arr_0 == *v);
                assert(decreases_to!(*v => v[i as int]));
                if walk_strings_match(&v[i], filter_lower, depth + 1) {
                    assert(strings_match(value@->Arr_0[i as int], filter_lower@, depth as nat + 1));
                    return true;
                }
                i = i + 1;
            }
            false
        },
        Json::Obj(v) => {
            proof {
                lemma_obj_view(*v);
            }
            let mut i: usize = 0;
            while i < v.len()
                invariant
                    0 <= i <= v.len(),
                    depth < MAX_RECURSION_DEPTH,
                    *value == Json::Obj(*v),
                    value@ == Tree::Obj(members(v@)),
                    forall|j: int|
                        0 <= j < i ==> !strings_match(
                            (#[trigger] members(v@)[j]).1,
                            filter_lower@,
                            (depth + 1) as nat,
                        ),
                decreases v.len() - i,
            {
                assert(value->Obj_0 == *v);
                assert(decreases_to!(*v => v[i as int]));
                if walk_strings_match(&v[i].1, filter_lower, depth + 1) {
                    assert(strings_match(
                        value@->Obj_0[i as int].1,
                        filter_lower@,
                        depth as nat + 1,
                    ));
                    return true;
                }
                i = i + 1;
            }
            false
        },
        _ => false,
    }
}

/// Texts by number, where there are any.
pub open spec fn opt_map(m: Option<&HashMap<u64, String>>) -> Option<Map<u64, String>> {
    match m {
        Some(h) => Some(h@),
        None => None,
    }
}

/// The localized text of a number is there and holds the search text.
pub open spec fn text_hit(m: Option<Map<u64, String>>, n: int, f: Seq<char>) -> bool {
    match m {
        Some(h) => h.contains_key(n as u64) && h[n as u64]@.len() > 0 && has_sub(
            lowercase(h[n as u64]@),
            f,
        ),
        None => false,
    }
}

/// Some number within the value stands for a localized text that holds the
/// search text, no deeper than allowed.
pub open spec fn localized_match(
    t: Tree,
    f: Seq<char>,
    eng: Option<Map<u64, String>>,
    kor: Option<Map<u64, String>>,
    depth: nat,
) -> bool
    decreases t,
{
    if depth >= MAX_RECURSION_DEPTH {
        false
    } else {
        match t {
            Tree::Int(n) => 0 <= n <= u64::MAX && (text_hit(eng, n, f) || text_hit(kor, n, f)),
            Tree::Arr(v) => exists|i: int|
                0 <= i < v.len() && localized_match(#[trigger] v[i], f, eng, kor, depth + 1),
            Tree::Obj(v) => exists|i: int|
                0 <= i < v.len() && localized_match((#[trigger] v[i]).1, f, eng, kor, depth + 1),
            _ => false,
        }
    }
}

fn text_holds(m: Option<&HashMap<u64, String>>, n: u64, filter_lower: &str) -> (r: bool)
    ensures
        r == text_hit(opt_map(m), n as int, filter_lower@),
{
    match m {
        Some(h) => match h.get(&n) {
            Some(t) => !t.as_str().is_empty() && lower_contains(t.as_str(), filter_lower),
            None => false,
        },
        None => false,
    }
}

/// Whether some number within the value stands for a localized text that holds the search text.
pub fn walk_localized_match(
    value: &Json,
    filter_lower: &str,
    loc_eng: Option<&HashMap<u64, String>>,
    loc_kor: Option<&HashMap<u64, String>>,
    depth: u32,
) -> (r: bool)
    ensures
        r == localized_match(
            value@,
            filter_lower@,
            opt_map(loc_eng),
            opt_map(loc_kor),
            depth as nat,
        ),
    decreases value,
{
    if depth >= MAX_RECURSION_DEPTH {
        return false;
    }
    match value {
        Json::Uint(_) | Json::Int(_) => match value.as_u64() {
            Some(n) => text_holds(loc_eng, n, filter_lower) || text_holds(loc_kor, n, filter_lower),
            None => false,
        },
        Json::Arr(v) => {
            proof {
                lemma_arr_view(*v);
            }
            let mut i: usize = 0;
            while i < v.len()
                invariant
                    0 <= i <= v.len(),
                    depth < MAX_RECURSION_DEPTH,
                    *value == Json::Arr(*v),
                    value@ == Tree::Arr(trees(v@)),
                    forall|j: int|
                        0 <= j < i ==> !localized_match(
                            #[trigger] trees(v@)[j],
                            filter_lower@,
                            opt_map(loc_eng),
                            opt_map(loc_kor),
                            (depth + 1) as nat,
                        ),
                decreases v.len() - i,
            {
                assert(value->Arr_0 == *v);
                assert(decreases_to!(*v => v[i as int]));
                if walk_localized_match(&v[i], filter_lower, loc_eng, loc_kor, depth + 1) {
                    assert(localized_match(
                        value@->Arr_0[i as int],
                        filter_lower@,
                        opt_map(loc_eng),
                        opt_map(loc_kor),
                        depth as nat + 1,
                    ));
                    return true;
                }
                i = i + 1;
            }
            false
        },
        Json::Obj(v) => {
            proof {
                lemma_obj_view(*v);
            }
            let mut i: usize = 0;
            while i < v.len()
                invariant
                    0 <= i <= v.len(),
                    depth < MAX_RECURSION_DEPTH,
                    *value == Json::Obj(*v),
                    value@ == Tree::Obj(members(v@)),
                    forall|j: int|
                        0 <= j < i ==> !localized_match(
                            (#[trigger] members(v@)[j]).1,
                            filter_lower@,
                            opt_map(loc_eng),
                            opt_map(loc_kor),
                            (depth + 1) as nat,
                        ),
                decreases v.len() - i,
            {
                assert(value->Obj_0 == *v);
                assert(decreases_to!(*v => v[i as int]));
                if walk_localized_match(&v[i].1, filter_lower, loc_eng, loc_kor, depth + 1) {
                    assert(localized_match(
                        value@->Obj_0[i as int].1,
                        filter_lower@,
                        opt_map(loc_eng),
                        opt_map(loc_kor),
                        depth as nat + 1,
                    ));
                    return true;
                }
                i = i + 1;
            }
            false
        },
        _ => false,
    }
}

/// The number under `key`.
pub open spec fn entry_number(t: Tree) -> Option<int> {
    match tree_get(t, "key"@) {
        Some(v) => tree_u64(v),
        None => None,
    }
}

/// The text under `string_key`.
pub open spec fn entry_string_key(t: Tree) -> Option<Seq<char>> {
    match tree_get(t, "string_key"@) {
        Some(Tree::Str(s)) => Some(s),
        _ => None,
    }
}

/// An entry matches: its number is the one searched for, or the search text
/// stands in its string key, in its catalog name or in some text within it.
pub open spec fn row_matches(
    t: Tree,
    f: Seq<char>,
    number: Option<u64>,
    name: Option<Seq<char>>,
) -> bool {
    ||| (number matches Some(n) && entry_number(t) == Some(n as int))
    ||| (entry_string_key(t) matches Some(s) && has_sub(lowercase(s), f))
    ||| (name matches Some(n) && has_sub(lowercase(n), f))
    ||| strings_match(t, f, 0)
}

/// The name that a list of names has for an entry.
pub open spec fn listed_name(t: Tree, m: Map<u64, String>) -> Option<Seq<char>> {
    match entry_number(t) {
        Some(k) => if m.contains_key(k as u64) {
            Some(m[k as u64]@)
        } else {
            None
        },
        None => None,
    }
}

/// The name that a catalog section has for an entry.
pub open spec fn catalog_name(
    t: Tree,
    section: Option<Seq<char>>,
    catalog: Option<Catalog>,
) -> Option<Seq<char>> {
    match (section, catalog, entry_number(t)) {
        (Some(s), Some(c), Some(k)) => c.name_of(s, k as u64),
        _ => None,
    }
}

fn key_of(entry: &Json) -> (r: Option<u64>)
    ensures
        match r {
            Some(k) => entry_number(entry@) == Some(k as int),
            None => entry_number(entry@) is None,
        },
{
    match entry.get("key") {
        Some(v) => v.as_u64(),
        None => None,
    }
}

fn matches_key_or_string(entry: &Json, filter_lower: &str, number: Option<u64>) -> (r: bool)
    ensures
        r == ((number matches Some(n) && entry_number(entry@) == Some(n as int)) || (
        entry_string_key(entry@) matches Some(s) && has_sub(lowercase(s), filter_lower@))),
{
    match (number, key_of(entry)) {
        (Some(target), Some(k)) => {
            if k == target {
                return true;
            }
        },
        _ => {},
    }
    match entry.get("string_key") {
        Some(v) => match v {
            Json::Str(s) => lower_contains(s.as_str(), filter_lower),
            _ => false,
        },
        None => false,
    }
}

/// Whether an entry matches the search, with its name out of a list of names
/// and localized texts looked up for every number within it.
pub fn entry_matches_with_lookup(
    entry: &Json,
    filter_lower: &str,
    filter_as_number: Option<u64>,
    name_lookup: &HashMap<u64, String>,
    loc_eng: Option<&HashMap<u64, String>>,
    loc_kor: Option<&HashMap<u64, String>>,
) -> (r: bool)
    ensures
        r == (row_matches(
            entry@,
            filter_lower@,
            filter_as_number,
            listed_name(entry@, name_lookup@),
        ) || localized_match(entry@, filter_lower@, opt_map(loc_eng), opt_map(loc_kor), 0)),
{
    if matches_key_or_string(entry, filter_lower, filter_as_number) {
        return true;
    }
    match key_of(entry) {
        Some(k) => match name_lookup.get(&k) {
            Some(name) => {
                if lower_contains(name.as_str(), filter_lower) {
                    return true;
                }
            },
            None => {},
        },
        None => {},
    }
    walk_localized_match(entry, filter_lower, loc_eng, loc_kor, 0) || walk_strings_match(
        entry,
        filter_lower,
        0,
    )
}

/// The text behind a reference, where there is one.
pub open spec fn opt_text(s: Option<&str>) -> Option<Seq<char>> {
    match s {
        Some(x) => Some(x@),
        None => None,
    }
}

/// The value behind a reference, where there is one.
pub open spec fn opt_catalog(c: Option<&Catalog>) -> Option<Catalog> {
    match c {
        Some(x) => Some(*x),
        None => None,
    }
}

/// Whether an entry matches the search.
pub fn entry_matches(
    entry: &Json,
    filter_lower: &str,
    filter_as_number: Option<u64>,
    catalog_section: Option<&str>,
    catalog: Option<&Catalog>,
) -> (r: bool)
    ensures
        r == row_matches(
            entry@,
            filter_lower@,
            filter_as_number,
            catalog_name(entry@, opt_text(catalog_section), opt_catalog(catalog)),
        ),
{
    if matches_key_or_string(entry, filter_lower, filter_as_number) {
        return true;
    }
    match (catalog_section, catalog, key_of(entry)) {
        (Some(section), Some(cat), Some(k)) => match cat.lookup_name(section, k) {
            Some(name) => {
                if lower_contains(name.as_str(), filter_lower) {
                    return true;
                }
            },
            None => {},
        },
        _ => {},
    }
    walk_strings_match(entry, filter_lower, 0)
}

/// Every text within a value that a search text occurs in makes a longer search text's
/// occurrence there an occurrence of the shorter one: narrowing a search loses rows, it wins none.
pub proof fn law_shorter_search_keeps_rows(t: Tree, f: Seq<char>, g: Seq<char>, depth: nat)
    requires
        has_sub(g, f),
        strings_match(t, g, depth),
    ensures
        strings_match(t, f, depth),
    decreases t,
{
    match t {
        Tree::Str(s) => {
            let h = lowercase(s);
            let i = choose|i: int| crate::text::occurs_at(h, g, i);
            let j = choose|j: int| crate::text::occurs_at(g, f, j);
            assert(h.subrange(i + j, i + j + f.len()) =~= g.subrange(j, j + f.len()));
            assert(crate::text::occurs_at(h, f, i + j));
        },
        Tree::Arr(v) => {
            let i = choose|i: int|
                0 <= i < v.len() && strings_match(#[trigger] v[i], g, depth + 1);
            law_shorter_search_keeps_rows(v[i], f, g, depth + 1);
        },
        Tree::Obj(v) => {
            let i = choose|i: int|
                0 <= i < v.len() && strings_match((#[trigger] v[i]).1, g, depth + 1);
            law_shorter_search_keeps_rows(v[i].1, f, g, depth + 1);
        },
        _ => {},
    }
}

/// The section of a table in the catalog.
pub open spec fn section_text(catalog: Option<Catalog>, table: Seq<char>) -> Option<Seq<char>> {
    match catalog {
        Some(c) => match section_of(c.dispatch_to_section@, table) {
            Some(s) => Some(s@),
            None => None,
        },
        None => None,
    }
}

/// The English texts.
pub open spec fn english(l: Option<Localization>) -> Option<Map<u64, String>> {
    match l {
        Some(x) => Some(x.eng@),
        None => None,
    }
}

/// The Korean texts.
pub open spec fn korean(l: Option<Localization>) -> Option<Map<u64, String>> {
    match l {
        Some(x) => Some(x.kor@),
        None => None,
    }
}

/// The number that a search text is taken for: lowercase, without blanks around it.
pub open spec fn filter_number(filter: Seq<char>) -> Option<u64> {
    match user_number(trimmed(lowercase(filter))) {
        Some(n) => Some(n as u64),
        None => None,
    }
}

/// A row stays visible under a search: every row under an empty one, else those that match.
pub open spec fn row_visible(
    table: ActiveTable,
    filter: Seq<char>,
    catalog: Option<Catalog>,
    loc: Option<Localization>,
) -> spec_fn(int) -> bool {
    |i: int|
        {
            let t = table.entries@[i]@;
            let f = lowercase(filter);
            ||| f.len() == 0
            ||| row_matches(
                t,
                f,
                filter_number(filter),
                catalog_name(t, section_text(catalog, table.dispatch_name@), catalog),
            )
            ||| localized_match(t, f, english(loc), korean(loc), 0)
        }
}

/// The rows of the table in focus were searched again.
pub open spec fn refiltered(before: AppState, after: AppState) -> bool {
    match before.focus() {
        None => after == before,
        Some(i) => {
            let tab = before.open_tabs@[i];
            &&& after.open_tabs@ == before.open_tabs@.update(
                i,
                ActiveTable {
                    filtered_indices: after.open_tabs@[i].filtered_indices,
                    last_filter: before.entry_filter,
                    ..tab
                },
            )
            &&& after.open_tabs@[i].filtered_indices@ == picked(
                tab.entries@.len(),
                row_visible(tab, before.entry_filter@, before.catalog, before.localization),
            )
            &&& after == (AppState { open_tabs: after.open_tabs, ..before })
        },
    }
}

/// The names that the catalog has for the entries of a table.
fn collect_names(cat: &Catalog, section: &str, entries: &Vec<Json>) -> (m: HashMap<u64, String>)
    ensures
        forall|i: int|
            0 <= i < entries@.len() ==> listed_name(#[trigger] entries@[i]@, m@) == catalog_name(
                entries@[i]@,
                Some(section@),
                Some(*cat),
            ),
{
    let mut m: HashMap<u64, String> = HashMap::new();
    let mut i: usize = 0;
    while i < entries.len()
        invariant
            0 <= i <= entries.len(),
            forall|k: u64| #[trigger]
                m@.contains_key(k) ==> cat.name_of(section@, k) == Some(m@[k]@),
            forall|j: int, k: u64|
                0 <= j < i && entry_number(#[trigger] entries@[j]@) == Some(k as int)
                    && #[trigger] cat.name_of(section@, k) is Some ==> m@.contains_key(k),
        decreases entries.len() - i,
    {
        match key_of(&entries[i]) {
            Some(k) => match cat.lookup_name(section, k) {
                Some(n) => {
                    m.insert(k, n);
                },
                None => {},
            },
            None => {},
        }
        i = i + 1;
    }
    assert forall|i: int| 0 <= i < entries@.len() implies listed_name(
        #[trigger] entries@[i]@,
        m@,
    ) == catalog_name(entries@[i]@, Some(section@), Some(*cat)) by {
        match entry_number(entries@[i]@) {
            Some(k) => {
                let u = k as u64;
                assert(entry_number(entries@[i]@) == Some(u as int));
                if cat.name_of(section@, u) is Some {
                    assert(m@.contains_key(u));
                }
            },
            None => {},
        }
    }
    m
}

/// The rows of a table that match a search text.
fn matching_rows(
    table: &ActiveTable,
    filter: &str,
    catalog: &Option<Catalog>,
    loc: &Option<Localization>,
) -> (out: Vec<usize>)
    ensures
        out@ == picked(
            table.entries@.len(),
            row_visible(*table, filter@, *catalog, *loc),
        ),
{
    let lower = filter.to_lowercase();
    let number = parse_user_number(trim(lower.as_str()).as_str());
    let empty = lower.as_str().is_empty();
    let section: Option<String> = match catalog {
        Some(c) => c.section_for(table.dispatch_name.as_str()),
        None => None,
    };
    let names: HashMap<u64, String> = match (catalog, &section) {
        (Some(c), Some(s)) => collect_names(c, s.as_str(), &table.entries),
        _ => HashMap::new(),
    };
    let (eng, kor): (Option<&HashMap<u64, String>>, Option<&HashMap<u64, String>>) = match loc {
        Some(l) => (Some(&l.eng), Some(&l.kor)),
        None => (None, None),
    };
    let ghost keep = row_visible(*table, filter@, *catalog, *loc);
    assert(number == filter_number(filter@));
    assert forall|i: int| 0 <= i < table.entries@.len() implies listed_name(
        #[trigger] table.entries@[i]@,
        names@,
    ) == catalog_name(
        table.entries@[i]@,
        section_text(*catalog, table.dispatch_name@),
        *catalog,
    ) by {}
    let mut out: Vec<usize> = Vec::new();
    let mut i: usize = 0;
    while i < table.entries.len()
        invariant
            0 <= i <= table.entries.len(),
            keep == row_visible(*table, filter@, *catalog, *loc),
            lower@ == lowercase(filter@),
            empty == (lower@.len() == 0),
            number == filter_number(filter@),
            opt_map(eng) == english(*loc),
            opt_map(kor) == korean(*loc),
            forall|j: int|
                0 <= j < table.entries@.len() ==> listed_name(
                    #[trigger] table.entries@[j]@,
                    names@,
                ) == catalog_name(
                    table.entries@[j]@,
                    section_text(*catalog, table.dispatch_name@),
                    *catalog,
                ),
            out@ == picked(i as nat, keep),
        decreases table.entries.len() - i,
    {
        let shown = empty || entry_matches_with_lookup(
            &table.entries[i],
            lower.as_str(),
            number,
            &names,
            eng,
            kor,
        );
        assert(shown == keep(i as int));
        if shown {
            out.push(i);
        }
        i = i + 1;
    }
    out
}

/// Searches the rows of the table in focus again.
pub fn recompute_filter(state: &mut AppState)
    ensures
        old(state).tabs_wf() ==> final(state).tabs_wf(),
        refiltered(*old(state), *final(state)),
{
    match state.active_index() {
        None => {},
        Some(i) => {
            let rows = matching_rows(
                &state.open_tabs[i],
                state.entry_filter.as_str(),
                &state.catalog,
                &state.localization,
            );
            let filter = state.entry_filter.clone();
            state.open_tabs[i].filtered_indices = rows;
            state.open_tabs[i].last_filter = filter;
            assert(state.open_tabs@ =~= old(state).open_tabs@.update(
                i as int,
                ActiveTable {
                    filtered_indices: state.open_tabs@[i as int].filtered_indices,
                    last_filter: old(state).entry_filter,
                    ..old(state).open_tabs@[i as int]
                },
            ));
        },
    }
}

/// A search over all tables was started, or refused for want of a game directory.
pub open spec fn global_search_kicked(
    before: AppState,
    after: AppState,
    filter: String,
    job: Option<Job>,
) -> bool {
    match before.game_dir {
        None => {
            &&& job is None
            &&& after.toasts@ == before.toasts@.push(
                warn_note("Set the Game Directory first (Settings panel)."@),
            )
            &&& after == (AppState {
                toasts: after.toasts,
                global_search: GlobalSearchSession { enabled: false, ..before.global_search },
                ..before
            })
        },
        Some(dir) => {
            let id = next_id(before.global_search.request_id);
            &&& after.global_search.filter_at_kick == filter
            &&& after.global_search.request_id == id
            &&& after.global_search.in_progress
            &&& after.global_search.enabled == before.global_search.enabled
            &&& after.global_search.scanned == 0
            &&& after.global_search.total == before.tables@.len()
            &&& after.global_search.current_table@.len() == 0
            &&& after.global_search.hits@.len() == 0
            &&& after.global_search.error is None
            &&& after == (AppState { global_search: after.global_search, ..before })
            &&& match job {
                Some(Job::SearchAllPabgb { request_id, game_dir, filter: f, filter_as_number, tables }) => {
                    &&& request_id == id
                    &&& game_dir == dir
                    &&& f@ == lowercase(filter@)
                    &&& filter_as_number == filter_number(filter@)
                    &&& tables@ == before.tables@
                },
                _ => false,
            }
        },
    }
}

/// Starts a search over all tables.
pub fn kick_global_search(state: &mut AppState, filter: String) -> (job: Option<Job>)
    ensures
        global_search_kicked(*old(state), *final(state), filter, job),
{
    let dir = match &state.game_dir {
        None => {
            state.toasts.warn("Set the Game Directory first (Settings panel).");
            state.global_search.enabled = false;
            return None;
        },
        Some(d) => d.clone(),
    };
    let lower = filter.as_str().to_lowercase();
    let number = parse_user_number(trim(lower.as_str()).as_str());
    state.global_search.filter_at_kick = filter;
    state.global_search.request_id = state.global_search.request_id.wrapping_add(1);
    state.global_search.in_progress = true;
    state.global_search.scanned = 0;
    state.global_search.total = state.tables.len();
    state.global_search.current_table = String::new();
    state.global_search.hits = Vec::new();
    state.global_search.error = None;
    Some(
        Job::SearchAllPabgb {
            request_id: state.global_search.request_id,
            game_dir: dir,
            filter: lower,
            filter_as_number: number,
            tables: copy_tables(&state.tables),
        },
    )
}

/// Opens the table of a hit at the entry that was found, and leaves the hit
/// list, unless the table cannot be opened.
pub fn jump_to_global_hit(state: &mut AppState, hit: &GlobalSearchHit) -> (how: Opened)
    ensures
        old(state).tabs_wf() ==> final(state).tabs_wf(),
        opened_at(
            *old(state),
            AppState { global_search: old(state).global_search, ..*final(state) },
            hit.dispatch_name,
            hit.entry_idx,
            hit.entry_key,
            how,
        ),
        how is Refused ==> final(state).global_search == old(state).global_search,
        !(how is Refused) ==> final(state).global_search == (GlobalSearchSession {
            enabled: false,
            ..old(state).global_search
        }),
{
    let how = open_at(state, &hit.dispatch_name, hit.entry_idx, hit.entry_key);
    match &how {
        Opened::Refused => {},
        _ => {
            state.global_search.enabled = false;
        },
    }
    assert(opened_at(
        *old(state),
        AppState { global_search: old(state).global_search, ..*state },
        hit.dispatch_name,
        hit.entry_idx,
        hit.entry_key,
        how,
    ));
    how
}

/// Where the next match stands in the list of visible rows: behind the selected
/// one, at the first after the last, and at the first where none is selected.
pub open spec fn next_match(visible: Seq<usize>, selected: Option<usize>) -> int {
    match selected {
        Some(s) => match position_of(visible, s) {
            Some(p) => if p + 1 == visible.len() {
                0
            } else {
                p + 1
            },
            None => 0,
        },
        None => 0,
    }
}

/// Moves the selection to the next match, where that was asked for.
pub fn advance_match(state: &mut AppState)
    ensures
        old(state).tabs_wf() ==> final(state).tabs_wf(),
        !old(state).entry_search_advance_pending ==> *final(state) == *old(state),
        old(state).entry_search_advance_pending ==> match old(state).focus() {
            Some(i) if old(state).open_tabs@[i].filtered_indices@.len() > 0 => {
                let tab = old(state).open_tabs@[i];
                &&& final(state).open_tabs@ == old(state).open_tabs@.update(
                    i,
                    ActiveTable {
                        selected_entry_idx: Some(
                            tab.filtered_indices@[next_match(
                                tab.filtered_indices@,
                                tab.selected_entry_idx,
                            )],
                        ),
                        ..tab
                    },
                )
                &&& *final(state) == (AppState {
                    entry_search_advance_pending: false,
                    open_tabs: final(state).open_tabs,
                    ..*old(state)
                })
            },
            _ => *final(state) == (AppState {
                entry_search_advance_pending: false,
                ..*old(state)
            }),
        },
{
    if !state.entry_search_advance_pending {
        return;
    }
    state.entry_search_advance_pending = false;
    match state.active_index() {
        None => {},
        Some(i) => {
            let n = state.open_tabs[i].filtered_indices.len();
            if n > 0 {
                let next: usize = match state.open_tabs[i].selected_entry_idx {
                    Some(sel) => match find_position(&state.open_tabs[i].filtered_indices, sel) {
                        Some(p) => if p + 1 == n {
                            0
                        } else {
                            p + 1
                        },
                        None => 0,
                    },
                    None => 0,
                };
                let row = state.open_tabs[i].filtered_indices[next];
                state.open_tabs[i].selected_entry_idx = Some(row);
            }
        },
    }
}

proof fn lemma_position_of_own(v: Seq<usize>, p: int)
    requires
        0 <= p < v.len(),
        forall|k: int, l: int| 0 <= k < l < v.len() ==> v[k] != v[l],
    ensures
        position_of(v, v[p]) == Some(p),
    decreases v.len(),
{
    if p > 0 {
        assert(v[0] != v[p]);
        let w = v.drop_first();
        assert forall|k: int, l: int| 0 <= k < l < w.len() implies w[k] != w[l] by {
            assert(v[k + 1] != v[l + 1]);
        }
        lemma_position_of_own(w, p - 1);
    }
}

/// From each match the next one follows, and the first follows the last, so
/// that going on visits every match in turn.
pub proof fn law_next_match_cycles(visible: Seq<usize>, p: int)
    requires
        0 <= p < visible.len(),
        forall|k: int, l: int| 0 <= k < l < visible.len() ==> visible[k] != visible[l],
    ensures
        next_match(visible, Some(visible[p])) == (p + 1) % visible.len() as int,
{
    lemma_position_of_own(visible, p);
    if p + 1 < visible.len() {
        vstd::arithmetic::div_mod::lemma_small_mod((p + 1) as nat, visible.len());
    } else {
        vstd::arithmetic::div_mod::lemma_mod_self_0(visible.len() as int);
    }
}

/// What a frame makes of the search text before the rows are searched: a text
/// that differs from that of the last frame starts the clock again.
pub open spec fn typing_noted(before: AppState, after: AppState, now: u64) -> bool {
    match before.focus() {
        None => after == before,
        Some(i) => {
            let tab = before.open_tabs@[i];
            if tab.prev_frame_filter@ != before.entry_filter@ {
                &&& after.open_tabs@ == before.open_tabs@.update(
                    i,
                    ActiveTable {
                        last_filter_change: now,
                        prev_frame_filter: before.entry_filter,
                        ..tab
                    },
                )
                &&& after == (AppState { open_tabs: after.open_tabs, ..before })
            } else {
                after == before
            }
        },
    }
}

/// How long the search text has rested.
pub open spec fn rested(tab: ActiveTable, now: u64) -> int {
    if now >= tab.last_filter_change {
        now - tab.last_filter_change
    } else {
        0
    }
}

/// The rows do not stand for the search text.
pub open spec fn filter_dirty(tab: ActiveTable, filter: Seq<char>) -> bool {
    tab.last_filter@ != filter
}

/// Notes the search text of this frame.
pub fn note_typing(state: &mut AppState, now: u64)
    ensures
        old(state).tabs_wf() ==> final(state).tabs_wf(),
        typing_noted(*old(state), *final(state), now),
{
    match state.active_index() {
        None => {},
        Some(i) => {
            if !same(state.open_tabs[i].prev_frame_filter.as_str(), state.entry_filter.as_str()) {
                let filter = state.entry_filter.clone();
                state.open_tabs[i].last_filter_change = now;
                state.open_tabs[i].prev_frame_filter = filter;
                assert(state.open_tabs@ =~= old(state).open_tabs@.update(
                    i as int,
                    ActiveTable {
                        last_filter_change: now,
                        prev_frame_filter: old(state).entry_filter,
                        ..old(state).open_tabs@[i as int]
                    },
                ));
            }
        },
    }
}

/// What is to be done about the search text in a frame.
#[derive(Clone, Copy, Debug, PartialEq, Eq, Structural)]
pub enum FilterDue {
    /// The rows stand for it.
    Nothing,
    /// The rows are to be searched now.
    Now,
    /// The rows are to be searched in so many milliseconds.
    In(u64),
}

/// What is to be done about the search text in a frame.
pub open spec fn filter_due_of(tab: ActiveTable, filter: Seq<char>, now: u64) -> FilterDue {
    if !filter_dirty(tab, filter) {
        FilterDue::Nothing
    } else if rested(tab, now) >= FILTER_DEBOUNCE {
        FilterDue::Now
    } else {
        FilterDue::In((FILTER_DEBOUNCE - rested(tab, now)) as u64)
    }
}

/// What is to be done about the search text in a frame.
pub fn filter_due(state: &AppState, now: u64) -> (r: FilterDue)
    ensures
        r == match state.focus() {
            Some(i) => filter_due_of(state.open_tabs@[i], state.entry_filter@, now),
            None => FilterDue::Nothing,
        },
{
    match state.active_table() {
        None => FilterDue::Nothing,
        Some(tab) => {
            if same(tab.last_filter.as_str(), state.entry_filter.as_str()) {
                FilterDue::Nothing
            } else {
                let rest: u64 = if now >= tab.last_filter_change {
                    now - tab.last_filter_change
                } else {
                    0
                };
                if rest >= FILTER_DEBOUNCE {
                    FilterDue::Now
                } else {
                    FilterDue::In(FILTER_DEBOUNCE - rest)
                }
            }
        },
    }
}

/// A search over all tables is to be started: it is on, the search text is not
/// empty, is not the one of the last start, and has rested.
pub open spec fn kick_due(s: AppState, now: u64) -> bool {
    &&& s.global_search.enabled
    &&& s.entry_filter@.len() > 0
    &&& s.global_search.filter_at_kick@ != s.entry_filter@
    &&& s.focus() matches Some(i) && rested(s.open_tabs@[i], now) >= FILTER_DEBOUNCE
}

fn is_kick_due(state: &AppState, now: u64) -> (r: bool)
    ensures
        r == kick_due(*state, now),
{
    if !state.global_search.enabled || state.entry_filter.as_str().is_empty() || same(
        state.global_search.filter_at_kick.as_str(),
        state.entry_filter.as_str(),
    ) {
        return false;
    }
    match state.active_table() {
        None => false,
        Some(tab) => now >= tab.last_filter_change && now - tab.last_filter_change
            >= FILTER_DEBOUNCE,
    }
}

/// One frame of the search: the text is noted, the rows are searched where that
/// is due, and a search over all tables is started where that is due.
pub open spec fn ticked(
    before: AppState,
    noted: AppState,
    searched: AppState,
    after: AppState,
    now: u64,
    due: FilterDue,
    job: Option<Job>,
) -> bool {
    &&& typing_noted(before, noted, now)
    &&& due == match noted.focus() {
        Some(i) => filter_due_of(noted.open_tabs@[i], noted.entry_filter@, now),
        None => FilterDue::Nothing,
    }
    &&& if due == FilterDue::Now {
        refiltered(noted, searched)
    } else {
        searched == noted
    }
    &&& if kick_due(searched, now) {
        global_search_kicked(searched, after, searched.entry_filter, job)
    } else {
        after == searched && job is None
    }
}

/// Runs one frame of the search. Says what was due, and which search over all
/// tables to start.
pub fn filter_tick(state: &mut AppState, now: u64) -> (r: (FilterDue, Option<Job>))
    ensures
        old(state).tabs_wf() ==> final(state).tabs_wf(),
        exists|noted: AppState, searched: AppState| #[trigger]
            ticked(*old(state), noted, searched, *final(state), now, r.0, r.1),
{
    note_typing(state, now);
    let ghost noted = *state;
    let due = filter_due(state, now);
    if due == FilterDue::Now {
        recompute_filter(state);
    }
    let ghost searched = *state;
    let job = if is_kick_due(state, now) {
        let filter = state.entry_filter.clone();
        kick_global_search(state, filter)
    } else {
        None
    };
    let r = (due, job);
    assert(ticked(*old(state), noted, searched, *state, now, r.0, r.1));
    r
}

/// Turns the search over all tables on or off. Turning it off drops its hits
/// and disowns the running scan.
pub fn set_global_enabled(state: &mut AppState, on: bool)
    ensures
        old(state).global_search.enabled && !on ==> {
            &&& final(state).global_search.hits@.len() == 0
            &&& final(state).global_search == (GlobalSearchSession {
                enabled: false,
                hits: final(state).global_search.hits,
                in_progress: false,
                request_id: next_id(old(state).global_search.request_id),
                ..old(state).global_search
            })
        },
        !(old(state).global_search.enabled && !on) ==> final(state).global_search == (
        GlobalSearchSession { enabled: on, ..old(state).global_search }),
        *final(state) == (AppState {
            global_search: final(state).global_search,
            ..*old(state)
        }),
{
    let was = state.global_search.enabled;
    state.global_search.enabled = on;
    if was && !on {
        state.global_search.hits = Vec::new();
        state.global_search.in_progress = false;
        state.global_search.request_id = state.global_search.request_id.wrapping_add(1);
    }
}

/// What stands beside the search field.
pub open spec fn search_summary(s: AppState, tab: ActiveTable) -> Seq<char> {
    if s.global_search.enabled {
        if s.global_search.in_progress {
            "scanning "@ + dec(s.global_search.scanned as nat) + " / "@ + dec(
                s.global_search.total as nat,
            ) + ": "@ + dec(s.global_search.hits@.len()) + " hits"@
        } else if s.entry_filter@.len() > 0 {
            dec(s.global_search.hits@.len()) + " hit(s) across all PABGBs"@
        } else {
            "type a search to scan all PABGBs"@
        }
    } else if s.entry_filter@.len() == 0 {
        dec(tab.entries@.len()) + " entries"@
    } else {
        dec(tab.filtered_indices@.len()) + " of "@ + dec(tab.entries@.len()) + " entries"@
    }
}

/// What stands beside the search field.
pub fn search_summary_text(state: &AppState, tab: &ActiveTable) -> (r: String)
    ensures
        r@ == search_summary(*state, *tab),
{
    if state.global_search.enabled {
        let hits = dec_usize(state.global_search.hits.len());
        if state.global_search.in_progress {
            let mut s = "scanning ".to_owned();
            s.push_str(dec_usize(state.global_search.scanned).as_str());
            s.push_str(" / ");
            s.push_str(dec_usize(state.global_search.total).as_str());
            s.push_str(": ");
            s.push_str(hits.as_str());
            s.push_str(" hits");
            s
        } else if !state.entry_filter.as_str().is_empty() {
            concat2(hits.as_str(), " hit(s) across all PABGBs")
        } else {
            "type a search to scan all PABGBs".to_owned()
        }
    } else if state.entry_filter.as_str().is_empty() {
        concat2(dec_usize(tab.entries.len()).as_str(), " entries")
    } else {
        let mut s = dec_usize(tab.filtered_indices.len());
        s.push_str(" of ");
        s.push_str(dec_usize(tab.entries.len()).as_str());
        s.push_str(" entries");
        s
    }
}

/// The button between the rows and the bytes of a table.
#[derive(Clone, Copy, Debug)]
pub struct HexToggle {
    pub enabled: bool,
    pub label: &'static str,
    pub tooltip: &'static str,
}

/// The button between the rows and the bytes of a table.
pub fn hex_toggle(tab: &ActiveTable) -> (r: HexToggle)
    ensures
        r.enabled == (tab.raw_pabgb is Some || tab.show_hex_view),
        r.label@ == if tab.show_hex_view {
            "Table"@
        } else {
            "Hex"@
        },
        r.tooltip@ == if tab.show_hex_view {
            "Switch back to the entry table view"@
        } else if tab.raw_pabgb is Some {
            "Show raw pabgb bytes in a paged hex view"@
        } else {
            "No raw bytes captured for this table — hex view unavailable"@
        },
{
    let has_bytes = tab.raw_pabgb.is_some();
    HexToggle {
        enabled: has_bytes || tab.show_hex_view,
        label: if tab.show_hex_view {
            "Table"
        } else {
            "Hex"
        },
        tooltip: if tab.show_hex_view {
            "Switch back to the entry table view"
        } else if has_bytes {
            "Show raw pabgb bytes in a paged hex view"
        } else {
            "No raw bytes captured for this table — hex view unavailable"
        },
    }
}

/// Switches the table in focus between its rows and its bytes.
pub fn toggle_hex(state: &mut AppState)
    ensures
        old(state).tabs_wf() ==> final(state).tabs_wf(),
        match old(state).focus() {
            None => *final(state) == *old(state),
            Some(i) => {
                &&& final(state).open_tabs@ == old(state).open_tabs@.update(
                    i,
                    ActiveTable {
                        show_hex_view: !old(state).open_tabs@[i].show_hex_view,
                        ..old(state).open_tabs@[i]
                    },
                )
                &&& *final(state) == (AppState {
                    open_tabs: final(state).open_tabs,
                    ..*old(state)
                })
            },
        },
{
    match state.active_index() {
        None => {},
        Some(i) => {
            let on = state.open_tabs[i].show_hex_view;
            state.open_tabs[i].show_hex_view = !on;
        },
    }
}

/// Selects an entry of the table in focus.
pub fn select_entry(state: &mut AppState, entry: usize)
    ensures
        old(state).tabs_wf() ==> final(state).tabs_wf(),
        match old(state).focus() {
            None => *final(state) == *old(state),
            Some(i) => {
                &&& final(state).open_tabs@ == old(state).open_tabs@.update(
                    i,
                    ActiveTable {
                        selected_entry_idx: Some(entry),
                        ..old(state).open_tabs@[i]
                    },
                )
                &&& *final(state) == (AppState {
                    open_tabs: final(state).open_tabs,
                    ..*old(state)
                })
            },
        },
{
    match state.active_index() {
        None => {},
        Some(i) => {
            state.open_tabs[i].selected_entry_idx = Some(entry);
        },
    }
}

/// The bytes are on display in place of the rows.
pub open spec fn hex_shown(tab: ActiveTable) -> bool {
    tab.show_hex_view && tab.raw_pabgb is Some
}

/// Whether the bytes are on display in place of the rows.
pub fn shows_hex(tab: &ActiveTable) -> (r: bool)
    ensures
        r == hex_shown(*tab),
{
    tab.show_hex_view && tab.raw_pabgb.is_some()
}

/// The first bytes of a table, at most 256.
pub fn raw_prefix(tab: &ActiveTable) -> (r: Option<Vec<u8>>)
    ensures
        match (r, tab.raw_pabgb) {
            (Some(p), Some(b)) => p@ == b@.take(
                if b@.len() < 256 {
                    b@.len() as int
                } else {
                    256
                },
            ),
            (None, None) => true,
            _ => false,
        },
{
    match &tab.raw_pabgb {
        None => None,
        Some(b) => {
            let n: usize = if b.len() < 256 {
                b.len()
            } else {
                256
            };
            let mut out: Vec<u8> = Vec::new();
            let mut i: usize = 0;
            while i < n
                invariant
                    0 <= i <= n <= b.len(),
                    out@ == b@.take(i as int),
                decreases n - i,
            {
                out.push(b[i]);
                i = i + 1;
                assert(out@ =~= b@.take(i as int));
            }
            Some(out)
        },
    }
}

/// The heading above the first bytes of a table.
pub fn prefix_title(shown: usize, total: usize) -> (r: String)
    ensures
        r@ == "First "@ + dec(shown as nat) + " bytes (of "@ + dec(total as nat) + ")"@,
{
    let mut s = "First ".to_owned();
    s.push_str(dec_usize(shown).as_str());
    s.push_str(" bytes (of ");
    s.push_str(dec_usize(total).as_str());
    s.push_str(")");
    s
}

/// The text of a cell, with a mark before the first of a row that has a note.
pub open spec fn marked_cell(value: Seq<char>, column: int, has_note: bool) -> Seq<char> {
    if column == 0 && has_note {
        "\u{1F4DD} "@ + value
    } else {
        value
    }
}

/// The text of a cell, with a mark before the first of a row that has a note.
pub fn cell_text(entry: &Json, field_name: &str, column: usize, has_note: bool) -> (r: String)
    requires
        cell_fits(tree_get(entry@, field_name@)),
    ensures
        r@ == marked_cell(cell_value(tree_get(entry@, field_name@)), column as int, has_note),
{
    let value = format_cell_value(entry, field_name);
    if column == 0 && has_note {
        concat2("\u{1F4DD} ", value.as_str())
    } else {
        value
    }
}

/// Whether the text of a value can stand in a cell.
pub fn cell_can_show(entry: &Json, field_name: &str) -> (r: bool)
    ensures
        r == cell_fits(tree_get(entry@, field_name@)),
{
    match entry.get(field_name) {
        Some(v) => match v {
            Json::Str(s) => !longer_than(s.as_str(), 40) || byte_prefix(
                s.as_str(),
                37,
            ).is_some(),
            _ => true,
        },
        None => true,
    }
}

/// The line on a running search over all tables.
pub fn scan_progress(session: &GlobalSearchSession) -> (r: String)
    ensures
        r@ == "Scanning "@ + dec(session.scanned as nat) + " / "@ + dec(session.total as nat)
            + ": "@ + session.current_table@,
{
    let mut s = "Scanning ".to_owned();
    s.push_str(dec_usize(session.scanned).as_str());
    s.push_str(" / ");
    s.push_str(dec_usize(session.total).as_str());
    s.push_str(": ");
    s.push_str(session.current_table.as_str());
    s
}

/// What a hit is called: its string key with its number, or its number alone.
pub open spec fn hit_name(string_key: Seq<char>, key: u64) -> Seq<char> {
    if string_key.len() == 0 {
        "key="@ + dec(key as nat)
    } else {
        string_key + " ("@ + dec(key as nat) + ")"@
    }
}

/// What a hit is called.
pub fn hit_label(hit: &GlobalSearchHit) -> (r: String)
    ensures
        r@ == hit_name(hit.string_key@, hit.entry_key),
{
    if hit.string_key.as_str().is_empty() {
        concat2("key=", dec_text(hit.entry_key).as_str())
    } else {
        let mut s = hit.string_key.clone();
        s.push_str(" (");
        s.push_str(dec_text(hit.entry_key).as_str());
        s.push_str(")");
        s
    }
}

/// At most the first 256 bytes.
pub open spec fn first_bytes(b: Option<Vec<u8>>) -> Option<Seq<u8>> {
    match b {
        Some(v) => Some(
            v@.take(
                if v@.len() < 256 {
                    v@.len() as int
                } else {
                    256
                },
            ),
        ),
        None => None,
    }
}

/// The number of bytes.
pub open spec fn byte_count(b: Option<Vec<u8>>) -> nat {
    match b {
        Some(v) => v@.len(),
        None => 0,
    }
}

/// Puts together the bug report on the table in focus, where it failed to load,
/// and says that it is on the clipboard.
pub fn copy_report(state: &mut AppState) -> (r: Option<String>)
    ensures
        match old(state).focus() {
            Some(i) if old(state).open_tabs@[i].load_state is Error => {
                let tab = old(state).open_tabs@[i];
                let msg = tab.load_state->Error_0@;
                &&& r is Some
                &&& is_report(
                    tab.dispatch_name@,
                    category_of(msg),
                    msg,
                    first_bytes(tab.raw_pabgb),
                    byte_count(tab.raw_pabgb),
                    r->Some_0@,
                )
                &&& final(state).toasts@ == old(state).toasts@.push(
                    info_note("Bug report copied to clipboard."@),
                )
                &&& *final(state) == (AppState { toasts: final(state).toasts, ..*old(state) })
            },
            _ => r is None && *final(state) == *old(state),
        },
{
    let report = match state.active_table() {
        None => {
            return None;
        },
        Some(tab) => match &tab.load_state {
            LoadState::Error(msg) => {
                let total = match &tab.raw_pabgb {
                    Some(b) => b.len(),
                    None => 0,
                };
                let category = classify_error(msg.as_str());
                match raw_prefix(tab) {
                    Some(p) => build_bug_report(
                        tab.dispatch_name.as_str(),
                        category,
                        msg.as_str(),
                        Some(p.as_slice()),
                        total,
                    ),
                    None => build_bug_report(
                        tab.dispatch_name.as_str(),
                        category,
                        msg.as_str(),
                        None,
                        total,
                    ),
                }
            },
            _ => {
                return None;
            },
        },
    };
    state.toasts.info("Bug report copied to clipboard.");
    Some(report)
}

} // verus!
