//! The field editor: what a field refers to, how it is edited, and what an edit does.

use vstd::prelude::*;
use vstd::utf8::is_ascii_chars;
use crate::digits::{dec, dec_text, dec_usize, digits, parse_unsigned, parsed, push_digits};
use crate::edit_path::{
    element_hops, element_of, get_at_path, part_hops, parts_hops, path_hops, set_at_path, value_at,
    value_with, Hop,
};
use crate::json::{
    equal_trees, lemma_arr_view, lemma_obj_view, members, tree_get, tree_i64, trees, Json, Tree,
};
use crate::json_text::{compact_text, form, pretty_text, to_compact, to_pretty};
use crate::rows::picked;
use crate::sorting::{lemma_one_listing, orders, row_before, sorted_rows, SortKey};
use crate::state::{
    key_renewed, lookup_text, note_text, section_named, section_of, text_for, with_change, without_change,
    without_entry, ActiveTable, AppState, Catalog, CatalogEntry, Edit, EditOp, Localization, Section,
};
use crate::text::{
    after_last, ascii_lower, ascii_lowered, ascii_upper, ascii_uppered, behind_last, chars_of, concat2,
    concat3, contains, ends_with, has_prefix, has_sub, has_suffix, law_text_order, leaf_name,
    lemma_after_last_concat, lemma_after_last_ending, lemma_after_last_whole, lemma_lowered_segments,
    lemma_upper_lower, lemma_without_leading_concat, lemma_without_leading_ending, lines, lower_contains, lowercase,
    lowered, remove_char, same, split_on, starts_with, strip_prefix, text_before, text_between,
    text_lines, to_ascii_lower, to_lower, trim, trimmed, views, without, without_leading,
};

verus! {

broadcast use {vstd::seq_lib::group_seq_properties, vstd::std_specs::hash::group_hash_axioms};

/// What the names of fields end with, and the table that such a field refers
/// to. `STRING` stands for the localized texts.
pub open spec fn field_targets() -> Seq<(Seq<char>, Seq<char>)> {
    seq![
        ("equip_type_info"@, "equip_type_info"@),
        ("equip_slot_info"@, "equip_slot_info"@),
        ("item_use_info"@, "item_use_info"@),
        ("breakable_object_info"@, "breakable_object_info"@),
        ("category_info"@, "category_info"@),
        ("drop_set_info"@, "drop_set_info"@),
        ("gimmick_info_key"@, "gimmick_info"@),
        ("gimmick_info"@, "gimmick_info"@),
        ("region_info"@, "region_info"@),
        ("local_string_info"@, "STRING"@),
        ("string_key_hash"@, "STRING"@),
        ("string_key"@, "STRING"@),
        ("name_id"@, "STRING"@),
        ("skill_key"@, "skill_info"@),
        ("skill"@, "skill_info"@),
        ("buff_key"@, "buff_info"@),
        ("buff"@, "buff_info"@),
        ("character_info_key"@, "character_info"@),
        ("character_info"@, "character_info"@),
        ("npc_info"@, "npc_info"@),
        ("knowledge_info"@, "knowledge_info"@),
        ("quest_info"@, "quest_info"@),
        ("mission_info"@, "mission_info"@),
        ("faction_info"@, "faction_info"@),
        ("condition_info"@, "condition_info"@),
        ("ai_action_attribute_info"@, "aiaction_attribute_info"@),
        ("effect_info"@, "effect_info"@),
        ("status_info"@, "status_info"@),
    ]
}

fn target_table() -> (r: Vec<(&'static str, &'static str)>)
    ensures
        r@.len() == field_targets().len(),
        forall|i: int|
            0 <= i < r@.len() ==> ((#[trigger] r@[i]).0@, r@[i].1@) == field_targets()[i],
{
    vec![
        ("equip_type_info", "equip_type_info"),
        ("equip_slot_info", "equip_slot_info"),
        ("item_use_info", "item_use_info"),
        ("breakable_object_info", "breakable_object_info"),
        ("category_info", "category_info"),
        ("drop_set_info", "drop_set_info"),
        ("gimmick_info_key", "gimmick_info"),
        ("gimmick_info", "gimmick_info"),
        ("region_info", "region_info"),
        ("local_string_info", "STRING"),
        ("string_key_hash", "STRING"),
        ("string_key", "STRING"),
        ("name_id", "STRING"),
        ("skill_key", "skill_info"),
        ("skill", "skill_info"),
        ("buff_key", "buff_info"),
        ("buff", "buff_info"),
        ("character_info_key", "character_info"),
        ("character_info", "character_info"),
        ("npc_info", "npc_info"),
        ("knowledge_info", "knowledge_info"),
        ("quest_info", "quest_info"),
        ("mission_info", "mission_info"),
        ("faction_info", "faction_info"),
        ("condition_info", "condition_info"),
        ("ai_action_attribute_info", "aiaction_attribute_info"),
        ("effect_info", "effect_info"),
        ("status_info", "status_info"),
    ]
}

/// The text before its last `[`, where it ends with `]`.
pub open spec fn without_index(s: Seq<char>) -> Seq<char> {
    if s.contains('[') && has_suffix(s, "]"@) {
        s.take(s.len() - after_last(s, '[').len() - 1)
    } else {
        s
    }
}

/// The text without an ending.
pub open spec fn without_ending(s: Seq<char>, end: Seq<char>) -> Seq<char> {
    if has_suffix(s, end) {
        s.take(s.len() - end.len())
    } else {
        s
    }
}

/// A name without an index, `_list` and a plural `s`.
pub open spec fn stem(name: Seq<char>) -> Seq<char> {
    let b = without_ending(without_index(name), "_list"@);
    if b.len() > 1 && b.last() == 's' {
        b.drop_last()
    } else {
        b
    }
}

/// The name of a field that others are compared with: its last segment in
/// lowercase, without leading underscores, an index, `_list` and a plural `s`.
pub open spec fn plain_name(field: Seq<char>) -> Seq<char> {
    stem(lowered(without_leading(after_last(field, '.'), '_')))
}

proof fn lemma_after_last_len(s: Seq<char>, c: char, k: int)
    requires
        0 <= k < s.len(),
        s[k] == c,
        forall|j: int| k < j < s.len() ==> s[j] != c,
    ensures
        after_last(s, c).len() == s.len() - k - 1,
    decreases s.len() - k,
{
    if k < s.len() - 1 {
        lemma_after_last_len(s.drop_last(), c, k);
    }
}

fn cut_index(s: &str) -> (r: String)
    ensures
        r@ == without_index(s@),
{
    if !ends_with(s, "]") {
        return s.to_owned();
    }
    let v = chars_of(s);
    let mut k: usize = v.len();
    while k > 0
        invariant
            0 <= k <= v.len(),
            v@ == s@,
            has_suffix(s@, "]"@),
            forall|j: int| k <= j < v@.len() ==> v@[j] != '[',
        decreases k,
    {
        k = k - 1;
        if v[k] == '[' {
            proof {
                lemma_after_last_len(s@, '[', k as int);
                assert(s@.contains('['));
            }
            let r = text_between(&v, 0, k);
            assert(r@ =~= s@.take(k as int));
            return r;
        }
    }
    s.to_owned()
}

fn cut_ending(s: &str, end: &str) -> (r: String)
    ensures
        r@ == without_ending(s@, end@),
{
    if ends_with(s, end) {
        let v = chars_of(s);
        let n = v.len() - chars_of(end).len();
        let r = text_between(&v, 0, n);
        assert(r@ =~= s@.take(n as int));
        r
    } else {
        s.to_owned()
    }
}

/// The name of a field that others are compared with.
pub fn normalize_field_name(field_name: &str) -> (r: String)
    ensures
        r@ == plain_name(field_name@),
{
    let a = to_lower(leaf_name(field_name).as_str());
    let b = cut_index(a.as_str());
    let mut c = cut_ending(b.as_str(), "_list");
    let v = chars_of(c.as_str());
    if v.len() > 1 && v[v.len() - 1] == 's' {
        let _plural = c.pop();
    }
    c
}

proof fn lemma_leaf_ending(field: Seq<char>)
    ensures
        has_suffix(field, without_leading(after_last(field, '.'), '_')),
        !without_leading(after_last(field, '.'), '_').contains('.'),
{
    let seg = after_last(field, '.');
    let leaf = without_leading(seg, '_');
    lemma_after_last_ending(field, '.');
    lemma_without_leading_ending(seg, '_');
    assert(field.skip(field.len() - leaf.len()) =~= seg.skip(seg.len() - leaf.len()));
    if leaf.contains('.') {
        let j = choose|j: int| 0 <= j < leaf.len() && leaf[j] == '.';
        assert(leaf[j] == seg.skip(seg.len() - leaf.len())[j]);
        assert(seg[seg.len() - leaf.len() + j] == '.');
    }
}

proof fn lemma_ascii_ending(s: Seq<char>, t: Seq<char>)
    requires
        is_ascii_chars(s),
        has_suffix(s, t),
    ensures
        is_ascii_chars(t),
{
    assert forall|i: int| 0 <= i < t.len() implies '\0' <= #[trigger] t[i] <= '\u{7f}' by {
        assert(t[i] == s.skip(s.len() - t.len())[i]);
        assert(t[i] == s[s.len() - t.len() + i]);
    }
}

/// The segments before a field and underscores in front of it do not count for
/// its plain name.
pub proof fn law_plain_name_of_member(field: Seq<char>, parent: Seq<char>)
    ensures
        plain_name("_"@ + field) == plain_name(field),
        plain_name(parent + "."@ + field) == plain_name(field),
{
    reveal_strlit("_");
    reveal_strlit(".");
    let one = "_"@ + field;
    lemma_after_last_concat("_"@, field, '.');
    if !field.contains('.') {
        lemma_after_last_whole(field, '.');
        lemma_after_last_whole("_"@, '.');
        assert(one.drop_first() =~= field);
        assert(one[0] == '_');
    }
    let front = parent + "."@;
    assert(front.last() == '.');
    lemma_after_last_concat(front, field, '.');
    if !field.contains('.') {
        assert(after_last(front, '.') + field =~= field);
    }
}

/// Letter case does not count for the plain name of a field in ASCII.
pub proof fn law_plain_name_ignores_case(a: Seq<char>, b: Seq<char>)
    requires
        is_ascii_chars(a),
    ensures
        is_ascii_chars(b) && ascii_lowered(a) == ascii_lowered(b) ==> plain_name(a) == plain_name(
            b,
        ),
        plain_name(ascii_uppered(a)) == plain_name(a),
{
    let up = ascii_uppered(a);
    assert forall|i: int| 0 <= i < up.len() implies '\0' <= #[trigger] up[i] <= '\u{7f}' by {
        assert(up[i] == ascii_upper(a[i]));
    }
    lemma_upper_lower(a);
    lemma_ascii_plain_name(a);
    lemma_ascii_plain_name(up);
    if is_ascii_chars(b) {
        lemma_ascii_plain_name(b);
    }
}

proof fn lemma_ascii_plain_name(field: Seq<char>)
    requires
        is_ascii_chars(field),
    ensures
        is_ascii_chars(without_leading(after_last(field, '.'), '_')),
        plain_name(field) == stem(without_leading(after_last(ascii_lowered(field), '.'), '_')),
{
    let seg = after_last(field, '.');
    lemma_leaf_ending(field);
    lemma_ascii_ending(field, without_leading(seg, '_'));
    lemma_lowered_segments(field, '.');
    lemma_lowered_segments(seg, '_');
}

/// An index behind a field in ASCII does not count for its plain name, where it
/// is the only one.
pub proof fn law_plain_name_ignores_index(field: Seq<char>, index: Seq<char>)
    requires
        is_ascii_chars(field),
        is_ascii_chars(index),
        !has_suffix(field, "]"@),
        !index.contains('['),
        !index.contains('.'),
    ensures
        plain_name(field + "["@ + index + "]"@) == plain_name(field),
{
    let tail = "["@ + index + "]"@;
    let whole = field + "["@ + index + "]"@;
    let leaf = without_leading(after_last(field, '.'), '_');
    let (low, low_index) = (ascii_lowered(leaf), ascii_lowered(index));
    assert(whole =~= field + tail);
    assert(is_ascii_chars(whole)) by {
        reveal_strlit("[");
        reveal_strlit("]");
    }
    lemma_leaf_with_index(field, index);
    lemma_leaf_end(field);
    lemma_ascii_plain_name(field);
    lemma_ascii_plain_name(whole);
    assert(ascii_lowered(leaf + tail) =~= low + "["@ + low_index + "]"@) by {
        lemma_lowered_index(index);
        assert(ascii_lowered(leaf + tail) =~= low + ascii_lowered(tail));
    }
    lemma_lowered_index(index);
    lemma_index_cut(low, low_index);
}

proof fn lemma_leaf_with_index(field: Seq<char>, index: Seq<char>)
    requires
        !index.contains('.'),
    ensures
        without_leading(after_last(field + ("["@ + index + "]"@), '.'), '_') == without_leading(
            after_last(field, '.'),
            '_',
        ) + ("["@ + index + "]"@),
{
    reveal_strlit("[");
    reveal_strlit("]");
    let tail = "["@ + index + "]"@;
    if tail.contains('.') {
        let j = choose|j: int| 0 <= j < tail.len() && tail[j] == '.';
        assert(index[j - 1] == '.');
    }
    lemma_after_last_concat(field, tail, '.');
    assert(tail[0] == '[');
    lemma_without_leading_concat(after_last(field, '.'), tail, '_');
}

proof fn lemma_leaf_end(field: Seq<char>)
    requires
        !has_suffix(field, "]"@),
    ensures
        ({
            let low = ascii_lowered(without_leading(after_last(field, '.'), '_'));
            low.len() > 0 ==> low.last() != ']'
        }),
{
    reveal_strlit("]");
    let leaf = without_leading(after_last(field, '.'), '_');
    if leaf.len() > 0 {
        lemma_leaf_ending(field);
        assert(leaf.last() == field.skip(field.len() - leaf.len())[leaf.len() - 1]);
        assert(leaf.last() == field.last());
        assert(ascii_lowered(leaf).last() == ascii_lower(leaf.last()));
        if field.last() == ']' {
            assert(field.skip(field.len() - 1) =~= "]"@);
        }
    }
}

proof fn lemma_lowered_index(index: Seq<char>)
    requires
        !index.contains('['),
    ensures
        ascii_lowered("["@ + index + "]"@) == "["@ + ascii_lowered(index) + "]"@,
        !ascii_lowered(index).contains('['),
{
    reveal_strlit("[");
    reveal_strlit("]");
    let low = ascii_lowered(index);
    assert(ascii_lower('[') == '[' && ascii_lower(']') == ']');
    assert(ascii_lowered("["@ + index + "]"@) =~= "["@ + low + "]"@);
    if low.contains('[') {
        let j = choose|j: int| 0 <= j < low.len() && low[j] == '[';
        assert(low[j] == ascii_lower(index[j]));
        assert(index[j] == '[');
    }
}

proof fn lemma_index_cut(name: Seq<char>, index: Seq<char>)
    requires
        name.len() > 0 ==> name.last() != ']',
        !index.contains('['),
    ensures
        without_index(name) == name,
        without_index(name + "["@ + index + "]"@) == name,
{
    reveal_strlit("[");
    reveal_strlit("]");
    let whole = name + "["@ + index + "]"@;
    let k = name.len() as int;
    if has_suffix(name, "]"@) {
        assert(name.skip(name.len() - 1)[0] == name.last());
    }
    assert(whole.skip(whole.len() - 1) =~= "]"@);
    assert(whole[k] == '[');
    assert forall|j: int| k < j < whole.len() implies whole[j] != '[' by {
        if j < whole.len() - 1 {
            assert(whole[j] == index[j - k - 1]);
        }
    }
    lemma_after_last_len(whole, '[', k);
    assert(whole.contains('['));
    assert(without_index(whole) =~= name);
}

/// The plain name of a field in ASCII is one segment, in lowercase, and begins
/// with no underscore.
pub proof fn law_plain_name_form(field: Seq<char>)
    requires
        is_ascii_chars(field),
    ensures
        !plain_name(field).contains('.'),
        forall|i: int|
            0 <= i < plain_name(field).len() ==> !('A' <= #[trigger] plain_name(field)[i] <= 'Z'),
        plain_name(field).len() > 0 ==> plain_name(field)[0] != '_',
{
    let leaf = without_leading(after_last(field, '.'), '_');
    let name = plain_name(field);
    lemma_ascii_plain_name(field);
    lemma_leaf_ending(field);
    lemma_without_leading_ending(after_last(field, '.'), '_');
    let low = ascii_lowered(leaf);
    lemma_stem_prefix(low);
    assert forall|i: int| 0 <= i < name.len() implies !('A' <= #[trigger] name[i] <= 'Z') && name[i]
        != '.' by {
        assert(name[i] == low[i]);
        assert(low[i] == ascii_lower(leaf[i]));
        assert(leaf[i] != '.') by {
            if leaf[i] == '.' {
                assert(leaf.contains('.'));
            }
        }
    }
    if name.len() > 0 {
        assert(name[0] == low[0]);
        assert(low[0] == ascii_lower(leaf[0]));
    }
}

proof fn lemma_stem_prefix(name: Seq<char>)
    ensures
        has_prefix(name, stem(name)),
{
    reveal_strlit("]");
    reveal_strlit("_list");
    lemma_after_last_ending(name, '[');
    if name.contains('[') && after_last(name, '[').len() == name.len() {
        assert(name.skip(0) =~= name);
    }
    let a = without_index(name);
    assert(a =~= name.take(a.len() as int));
    let b = without_ending(a, "_list"@);
    assert(b =~= name.take(b.len() as int));
    assert(stem(name) =~= name.take(stem(name).len() as int));
}

/// The target of the first ending that the name has, from ending `i` on.
pub open spec fn target_from(name: Seq<char>, i: int) -> Option<Seq<char>>
    decreases field_targets().len() - i,
{
    if 0 <= i < field_targets().len() {
        if has_suffix(name, field_targets()[i].0) {
            Some(field_targets()[i].1)
        } else {
            target_from(name, i + 1)
        }
    } else {
        None
    }
}

/// The table that a field refers to.
pub open spec fn field_target(field: Seq<char>) -> Option<Seq<char>> {
    target_from(plain_name(field), 0)
}

/// The table that a field refers to.
pub fn target_for_field(field_name: &str) -> (r: Option<&'static str>)
    ensures
        match r {
            Some(t) => field_target(field_name@) == Some(t@),
            None => field_target(field_name@) is None,
        },
{
    let name = normalize_field_name(field_name);
    let table = target_table();
    let mut i: usize = 0;
    while i < table.len()
        invariant
            0 <= i <= table.len(),
            table@.len() == field_targets().len(),
            forall|j: int|
                0 <= j < table@.len() ==> ((#[trigger] table@[j]).0@, table@[j].1@)
                    == field_targets()[j],
            name@ == plain_name(field_name@),
            target_from(name@, 0) == target_from(name@, i as int),
        decreases table.len() - i,
    {
        assert((table@[i as int].0@, table@[i as int].1@) == field_targets()[i as int]);
        if ends_with(name.as_str(), table[i].0) {
            return Some(table[i].1);
        }
        i = i + 1;
    }
    None
}

/// How a percentage is stored.
#[derive(Copy, Clone, Debug, PartialEq, Eq, Structural)]
pub enum PercentKind {
    /// As 0 to 100.
    Hundred,
    /// As 0 to 1.
    Unit,
}

/// The plain name without underscores.
pub open spec fn bare_name(field: Seq<char>) -> Seq<char> {
    without(plain_name(field), '_')
}

fn bare(field_name: &str) -> (r: String)
    ensures
        r@ == bare_name(field_name@),
{
    remove_char(normalize_field_name(field_name).as_str(), '_')
}

/// How a field stores a percentage, by its name.
pub open spec fn percent_kind(field: Seq<char>) -> Option<PercentKind> {
    if has_sub(bare_name(field), "percentage"@) || has_sub(bare_name(field), "percent"@) {
        Some(PercentKind::Hundred)
    } else if has_sub(bare_name(field), "rate"@) {
        Some(PercentKind::Unit)
    } else {
        None
    }
}

/// How a field stores a percentage, by its name.
pub fn percent_kind_for(field_name: &str) -> (r: Option<PercentKind>)
    ensures
        r == percent_kind(field_name@),
{
    let plain = bare(field_name);
    if contains(plain.as_str(), "percentage") || contains(plain.as_str(), "percent") {
        Some(PercentKind::Hundred)
    } else if contains(plain.as_str(), "rate") {
        Some(PercentKind::Unit)
    } else {
        None
    }
}

/// The unsigned number with the same bits.
pub open spec fn word(v: int) -> int {
    if v < 0 {
        v + 0x1_0000_0000_0000_0000
    } else {
        v
    }
}

/// The unsigned number with the same bits.
pub fn to_word(v: i64) -> (u: u64)
    ensures
        u == word(v as int),
{
    if v >= 0 {
        v as u64
    } else {
        ((v + i64::MAX) + 1) as u64 + 0x8000_0000_0000_0000
    }
}

/// The signed number with the same bits.
pub fn from_word(u: u64) -> (v: i64)
    ensures
        word(v as int) == u,
{
    if u <= 0x7FFF_FFFF_FFFF_FFFF {
        u as i64
    } else {
        (u - 0x8000_0000_0000_0000) as i64 - 0x7FFF_FFFF_FFFF_FFFF - 1
    }
}

/// The plain name of a field, with an underscore in front where the field has one.
pub open spec fn marked_name(field: Seq<char>) -> Seq<char> {
    if has_prefix(after_last(field, '.'), "_"@) {
        "_"@ + plain_name(field)
    } else {
        plain_name(field)
    }
}

/// A field looks like a hash or a key: by a name that ends in `_hash` or `_key`,
/// or as a number with its 32nd bit or a higher one set. A number below zero has
/// its bits only where it was unsigned.
pub open spec fn hash_like(field: Seq<char>, value: int, unsigned_origin: bool) -> bool {
    ||| has_suffix(marked_name(field), "_hash"@)
    ||| has_suffix(marked_name(field), "_key"@)
    ||| (if unsigned_origin {
        word(value)
    } else {
        value
    }) > 0x7FFF_FFFF
}

/// Whether a field looks like a hash or a key.
pub fn looks_like_hash(field_name: &str, value: i64, unsigned_origin: bool) -> (r: bool)
    ensures
        r == hash_like(field_name@, value as int, unsigned_origin),
{
    let plain = normalize_field_name(field_name);
    let name = if starts_with(behind_last(field_name, '.').as_str(), "_") {
        concat2("_", plain.as_str())
    } else {
        plain
    };
    if ends_with(name.as_str(), "_hash") || ends_with(name.as_str(), "_key") {
        return true;
    }
    if unsigned_origin {
        to_word(value) > 0x7FFF_FFFF
    } else {
        value > 0x7FFF_FFFF
    }
}

/// The number that a text writes in hexadecimal behind `0x`, else in decimal.
pub open spec fn typed_number(s: Seq<char>) -> Option<nat> {
    let t = ascii_lowered(trimmed(s));
    if has_prefix(t, "0x"@) {
        parsed(t.skip(2), 16, u64::MAX as nat)
    } else {
        parsed(t, 10, u64::MAX as nat)
    }
}

/// The number that a text writes in hexadecimal behind `0x`, else in decimal.
pub fn parse_hex_or_dec(s: &str) -> (r: Option<u64>)
    ensures
        match r {
            Some(n) => typed_number(s@) == Some(n as nat),
            None => typed_number(s@) is None,
        },
{
    proof {
        reveal_strlit("0x");
    }
    let lower = to_ascii_lower(trim(s).as_str());
    match strip_prefix(lower.as_str(), "0x") {
        Some(rest) => parse_unsigned(rest.as_str(), 16, u64::MAX),
        None => parse_unsigned(lower.as_str(), 10, u64::MAX),
    }
}

/// The name of a field by which flags are told: its last segment in lowercase
/// without underscores.
pub open spec fn flag_name(field: Seq<char>) -> Seq<char> {
    without(ascii_lowered(without_leading(after_last(field, '.'), '_')), '_')
}

/// A field holds flags, by its name.
pub open spec fn holds_flags(field: Seq<char>) -> bool {
    let n = flag_name(field);
    ||| has_sub(n, "flag"@)
    ||| has_sub(n, "bitmask"@)
    ||| has_sub(n, "bitfield"@)
    ||| has_suffix(n, "mask"@)
    ||| has_sub(n, "bits"@)
}

/// The number of flags to offer for a field that holds flags.
pub fn bitmask_kind_for(field_name: &str) -> (r: Option<u32>)
    ensures
        r == if holds_flags(field_name@) {
            Some(32u32)
        } else {
            None
        },
{
    let n = remove_char(to_ascii_lower(leaf_name(field_name).as_str()).as_str(), '_');
    if contains(n.as_str(), "flag") || contains(n.as_str(), "bitmask") || contains(
        n.as_str(),
        "bitfield",
    ) || ends_with(n.as_str(), "mask") || contains(n.as_str(), "bits") {
        Some(32)
    } else {
        None
    }
}

/// Bit `b` of a number is set.
pub open spec fn bit_on(u: u64, b: u64) -> bool {
    (u >> b) & 1 == 1
}

/// Whether bit `b` of a number is set.
pub fn bit_is_on(v: i64, b: u64) -> (r: bool)
    requires
        b < 64,
    ensures
        r == bit_on(word(v as int) as u64, b),
{
    let u = to_word(v);
    (u >> b) & 1 == 1
}

/// Sets or clears one bit of a number.
pub fn toggle_bit(v: i64, b: u64, on: bool) -> (r: i64)
    requires
        b < 64,
    ensures
        forall|k: u64|
            k < 64 ==> #[trigger] bit_on(word(r as int) as u64, k) == if k == b {
                on
            } else {
                bit_on(word(v as int) as u64, k)
            },
{
    let u = to_word(v);
    let mask: u64 = 1u64 << b;
    let n: u64 = if on {
        u | mask
    } else {
        u & !mask
    };
    assert forall|k: u64| k < 64 implies #[trigger] bit_on(n, k) == if k == b {
        on
    } else {
        bit_on(u, k)
    } by {
        if on {
            assert(k < 64 && b < 64 ==> (((u | (1u64 << b)) >> k) & 1 == 1) == (k == b || (u >> k)
                & 1 == 1)) by (bit_vector);
        } else {
            assert(k < 64 && b < 64 ==> (((u & !(1u64 << b)) >> k) & 1 == 1) == (k != b && (u >> k)
                & 1 == 1)) by (bit_vector);
        }
    }
    from_word(n)
}

/// The number of bits below `n` that are set.
pub open spec fn ones(u: u64, n: nat) -> nat
    decreases n,
{
    if n == 0 {
        0
    } else {
        ones(u, (n - 1) as nat) + (if bit_on(u, (n - 1) as u64) {
            1nat
        } else {
            0
        })
    }
}

/// The heading above the flags of a field.
pub fn bits_header(v: i64, width: u32) -> (r: String)
    ensures
        r@ == "Bits ("@ + dec(ones(word(v as int) as u64, 64)) + " of "@ + dec(width as nat) + ")"@,
{
    let u = to_word(v);
    let mut count: u64 = 0;
    let mut b: u64 = 0;
    while b < 64
        invariant
            0 <= b <= 64,
            count <= b,
            count == ones(u, b as nat),
        decreases 64 - b,
    {
        if (u >> b) & 1 == 1 {
            count = count + 1;
        }
        b = b + 1;
    }
    let mut s = "Bits (".to_owned();
    push_digits(&mut s, count, 10, false);
    s.push_str(" of ");
    push_digits(&mut s, width as u64, 10, false);
    s.push_str(")");
    s
}

/// The label of a flag: `B` and two digits.
pub fn bit_label(b: u32) -> (r: String)
    ensures
        r@ == (if b < 10 {
            "B0"@
        } else {
            "B"@
        }) + dec(b as nat),
{
    concat2(
        if b < 10 {
            "B0"
        } else {
            "B"
        },
        dec_text(b as u64).as_str(),
    )
}

/// Where the percentage slider of an integer field stands at first.
pub fn percent_start(v: i64) -> (r: i64)
    ensures
        r == if v < 0 {
            0
        } else if v > 100 {
            100
        } else {
            v as int
        },
{
    if v < 0 {
        0
    } else if v > 100 {
        100
    } else {
        v
    }
}

/// A field is named like a colour.
pub open spec fn color_name(field: Seq<char>) -> bool {
    let n = bare_name(field);
    ||| has_sub(n, "color"@)
    ||| has_sub(n, "colour"@)
    ||| has_sub(n, "tint"@)
    ||| has_sub(n, "rgba"@)
    ||| has_sub(n, "rgb"@)
}

/// Whether a field is named like a colour.
pub fn field_looks_like_color(field_name: &str) -> (r: bool)
    ensures
        r == color_name(field_name@),
{
    let n = bare(field_name);
    contains(n.as_str(), "color") || contains(n.as_str(), "colour") || contains(
        n.as_str(),
        "tint",
    ) || contains(n.as_str(), "rgba") || contains(n.as_str(), "rgb")
}

/// A number.
pub open spec fn is_number(t: Tree) -> bool {
    t is Int || t is Float
}

fn number_kind(v: &Json) -> (r: bool)
    ensures
        r == is_number(v@),
{
    match v {
        Json::Uint(_) | Json::Int(_) | Json::Float(_) => true,
        _ => false,
    }
}

/// An array is a colour: it is named like one and has three or four numbers.
pub open spec fn color_array(field: Seq<char>, a: Seq<Tree>) -> bool {
    &&& color_name(field)
    &&& a.len() == 3 || a.len() == 4
    &&& forall|i: int| 0 <= i < a.len() ==> is_number(#[trigger] a[i])
}

/// Whether an array is a colour.
pub fn is_color_array(field_name: &str, arr: &[Json]) -> (r: bool)
    ensures
        r == color_array(field_name@, trees(arr@)),
{
    if !field_looks_like_color(field_name) || (arr.len() != 3 && arr.len() != 4) {
        return false;
    }
    let mut i: usize = 0;
    while i < arr.len()
        invariant
            0 <= i <= arr.len(),
            forall|j: int| 0 <= j < i ==> is_number(#[trigger] trees(arr@)[j]),
        decreases arr.len() - i,
    {
        if !number_kind(&arr[i]) {
            assert(!is_number(trees(arr@)[i as int]));
            return false;
        }
        i = i + 1;
    }
    true
}

/// The names of the red, green and blue channels.
pub open spec fn is_channel(name: Seq<char>) -> bool {
    name == "r"@ || name == "g"@ || name == "b"@ || name == "R"@ || name == "G"@ || name == "B"@
        || name == "red"@ || name == "green"@ || name == "blue"@
}

/// How many of the first `n` members are channels.
pub open spec fn channel_count(e: Seq<(Seq<char>, Tree)>, n: nat) -> nat
    decreases n,
{
    if n == 0 {
        0
    } else {
        channel_count(e, (n - 1) as nat) + (if is_channel(e[n - 1].0) {
            1nat
        } else {
            0
        })
    }
}

/// An object is a colour: it is named like one, three of its members at least
/// are channels, and all are numbers.
pub open spec fn color_object(field: Seq<char>, e: Seq<(Seq<char>, Tree)>) -> bool {
    &&& color_name(field)
    &&& channel_count(e, e.len()) >= 3
    &&& forall|i: int| 0 <= i < e.len() ==> is_number((#[trigger] e[i]).1)
}

fn channel_name(n: &str) -> (r: bool)
    ensures
        r == is_channel(n@),
{
    same(n, "r") || same(n, "g") || same(n, "b") || same(n, "R") || same(n, "G") || same(n, "B")
        || same(n, "red") || same(n, "green") || same(n, "blue")
}

/// Whether an object is a colour.
pub fn is_color_object(field_name: &str, obj: &Vec<(String, Json)>) -> (r: bool)
    ensures
        r == color_object(field_name@, members(obj@)),
{
    if !field_looks_like_color(field_name) {
        return false;
    }
    let ghost e = members(obj@);
    let mut count: usize = 0;
    let mut i: usize = 0;
    while i < obj.len()
        invariant
            0 <= i <= obj.len(),
            e == members(obj@),
            count <= i,
            count == channel_count(e, i as nat),
            forall|j: int| 0 <= j < i ==> is_number((#[trigger] e[j]).1),
        decreases obj.len() - i,
    {
        if channel_name(obj[i].0.as_str()) {
            count = count + 1;
        }
        if !number_kind(&obj[i].1) {
            assert(!is_number(e[i as int].1));
            return false;
        }
        i = i + 1;
    }
    count >= 3
}

/// Whether two documents differ anywhere.
pub fn values_differ_recursive(a: &Json, b: &Json) -> (r: bool)
    ensures
        r == !equal_trees(a@, b@),
{
    !a.equals(b)
}

/// A value differs from the shipped one. Where none was shipped, nothing differs.
pub open spec fn differs(t: Tree, vanilla: Option<Tree>) -> bool {
    vanilla matches Some(v) && !equal_trees(t, v)
}

/// What a reference holds, where there is one.
pub open spec fn opt_tree(j: Option<&Json>) -> Option<Tree> {
    match j {
        Some(x) => Some(x@),
        None => None,
    }
}

/// Whether a value differs from the shipped one.
pub fn is_changed(value: &Json, vanilla: Option<&Json>) -> (r: bool)
    ensures
        r == differs(value@, opt_tree(vanilla)),
{
    match vanilla {
        Some(v) => values_differ_recursive(value, v),
        None => false,
    }
}

/// The first lines of a text, each with a line break, and a mark where lines are left out.
pub open spec fn first_lines(l: Seq<Seq<char>>, max: nat, mark: Seq<char>) -> Seq<char> {
    if l.len() <= max {
        broken(l, l.len())
    } else {
        broken(l, max) + mark
    }
}

/// The first `n` lines, each with a line break.
pub open spec fn broken(l: Seq<Seq<char>>, n: nat) -> Seq<char>
    decreases n,
{
    if n == 0 {
        Seq::empty()
    } else {
        broken(l, (n - 1) as nat) + l[n - 1] + "\n"@
    }
}

fn push_first_lines(out: &mut String, s: &str, max: usize, mark: &str)
    ensures
        final(out)@ == old(out)@ + first_lines(text_lines(s@), max as nat, mark@),
{
    let l = lines(s);
    let ghost t = text_lines(s@);
    let ghost o0 = out@;
    let n: usize = if l.len() <= max {
        l.len()
    } else {
        max
    };
    let mut i: usize = 0;
    assert(out@ =~= o0 + broken(t, 0));
    assert(t.len() == l.len());
    while i < n
        invariant
            0 <= i <= n <= l.len(),
            t == views(l@),
            out@ == o0 + broken(t, i as nat),
        decreases n - i,
    {
        assert(l@[i as int]@ == t[i as int]);
        out.push_str(l[i].as_str());
        out.push_str("\n");
        i = i + 1;
        assert(out@ =~= o0 + broken(t, i as nat));
    }
    if l.len() > max {
        out.push_str(mark);
    }
    assert(out@ =~= o0 + first_lines(t, max as nat, mark@));
}

/// The first lines of a text.
pub fn truncate_lines(s: &str, max_lines: usize) -> (r: String)
    ensures
        r@ == first_lines(text_lines(s@), max_lines as nat, "...\n"@),
{
    let mut out = String::new();
    push_first_lines(&mut out, s, max_lines, "...\n");
    assert(out@ =~= first_lines(text_lines(s@), max_lines as nat, "...\n"@));
    out
}

/// The shipped value as its text is shown: at most twelve lines.
pub open spec fn summary_of(raw: Seq<char>) -> Seq<char> {
    "Vanilla:\n"@ + first_lines(text_lines(raw), 12, "..."@)
}

/// The shipped value as its text is shown.
pub fn summary_text(raw: &str) -> (r: String)
    ensures
        r@ == summary_of(raw@),
{
    let mut out = "Vanilla:\n".to_owned();
    push_first_lines(&mut out, raw, 12, "...");
    out
}

/// The shipped value of a list or group as it is shown.
pub fn pretty_vanilla_summary(v: &Json) -> (r: String)
    ensures
        r@ == summary_of(pretty_text(form(v@))),
{
    summary_text(to_pretty(v).as_str())
}

/// The shipped value of any other field as it is shown.
pub fn vanilla_hint(v: &Json) -> (r: String)
    ensures
        r@ == "Vanilla: "@ + compact_text(form(v@)),
{
    concat2("Vanilla: ", to_compact(v).as_str())
}

/// How a field is edited.
#[derive(Copy, Clone, Debug, PartialEq, Eq, Structural)]
pub enum FieldKind {
    /// An integer. One that only `u64` holds is carried as the signed number with its bits.
    Integer { value: i64, unsigned_origin: bool },
    Float,
    /// A text that holds encoded bytes.
    Blob,
    Text { multiline: bool },
    Flag(bool),
    ColorList,
    ColorGroup,
    List(usize),
    Group(usize),
    Nothing,
}

/// A Hangul syllable, a Han character, or a kana.
pub open spec fn is_cjk(c: char) -> bool {
    let u = c as u32;
    ||| 0xAC00 <= u <= 0xD7A3
    ||| 0x4E00 <= u <= 0x9FFF
    ||| 0x3040 <= u <= 0x309F
    ||| 0x30A0 <= u <= 0x30FF
}

/// Some character of the text is CJK.
pub open spec fn holds_cjk(s: Seq<char>) -> bool {
    exists|i: int| 0 <= i < s.len() && is_cjk(#[trigger] s[i])
}

/// Whether some character of the text is CJK.
pub fn has_cjk(s: &str) -> (r: bool)
    ensures
        r == holds_cjk(s@),
{
    let v = chars_of(s);
    let mut i: usize = 0;
    while i < v.len()
        invariant
            0 <= i <= v.len(),
            v@ == s@,
            forall|j: int| 0 <= j < i ==> !is_cjk(#[trigger] s@[j]),
        decreases v.len() - i,
    {
        let u: u32 = v[i] as u32;
        if (0xAC00 <= u && u <= 0xD7A3) || (0x4E00 <= u && u <= 0x9FFF) || (0x3040 <= u && u
            <= 0x309F) || (0x30A0 <= u && u <= 0x30FF) {
            assert(is_cjk(s@[i as int]));
            return true;
        }
        i = i + 1;
    }
    false
}

/// A text field holds encoded bytes: by its path, or by its path and its text.
/// `reads_as_blob` says that the text reads as encoded bytes.
pub open spec fn is_blob(path: Seq<char>, reads_as_blob: bool) -> bool {
    has_suffix(path, "blob_b64"@) || (has_sub(path, "blob"@) && reads_as_blob)
}

/// How a field is edited, by its name and its value.
pub open spec fn kind_of(
    display_name: Seq<char>,
    path: Seq<char>,
    t: Tree,
    reads_as_blob: bool,
) -> FieldKind {
    match t {
        Tree::Int(n) => match tree_i64(t) {
            Some(_) => FieldKind::Integer { value: n as i64, unsigned_origin: false },
            None => FieldKind::Integer {
                value: (n - 0x1_0000_0000_0000_0000) as i64,
                unsigned_origin: true,
            },
        },
        Tree::Float(_) => FieldKind::Float,
        Tree::Str(s) => if is_blob(path, reads_as_blob) {
            FieldKind::Blob
        } else {
            FieldKind::Text { multiline: holds_cjk(s) }
        },
        Tree::Bool(b) => FieldKind::Flag(b),
        Tree::Arr(a) => if color_array(display_name, a) {
            FieldKind::ColorList
        } else {
            FieldKind::List(a.len() as usize)
        },
        Tree::Obj(e) => if color_object(display_name, e) {
            FieldKind::ColorGroup
        } else {
            FieldKind::Group(e.len() as usize)
        },
        Tree::Null => FieldKind::Nothing,
    }
}

/// How a field is edited.
pub fn field_kind(display_name: &str, path: &str, value: &Json, reads_as_blob: bool) -> (r:
    FieldKind)
    ensures
        r == kind_of(display_name@, path@, value@, reads_as_blob),
{
    match value {
        Json::Uint(_) | Json::Int(_) => match value.as_i64() {
            Some(i) => FieldKind::Integer { value: i, unsigned_origin: false },
            None => match value.as_u64() {
                Some(u) => FieldKind::Integer { value: from_word(u), unsigned_origin: true },
                None => FieldKind::Nothing,
            },
        },
        Json::Float(_) => FieldKind::Float,
        Json::Str(s) => {
            if ends_with(path, "blob_b64") || (contains(path, "blob") && reads_as_blob) {
                FieldKind::Blob
            } else {
                FieldKind::Text { multiline: has_cjk(s.as_str()) }
            }
        },
        Json::Bool(b) => FieldKind::Flag(*b),
        Json::Arr(a) => {
            proof {
                lemma_arr_view(*a);
            }
            if is_color_array(display_name, a.as_slice()) {
                FieldKind::ColorList
            } else {
                FieldKind::List(a.len())
            }
        },
        Json::Obj(o) => {
            proof {
                lemma_obj_view(*o);
            }
            if is_color_object(display_name, o) {
                FieldKind::ColorGroup
            } else {
                FieldKind::Group(o.len())
            }
        },
        Json::Null => FieldKind::Nothing,
    }
}

/// The value that an edited integer is stored as. A number that was unsigned
/// stays unsigned: its bits are kept, and a large one does not turn negative.
pub fn integer_edit(value: i64, unsigned_origin: bool) -> (r: Json)
    ensures
        r@ == Tree::Int(
            if unsigned_origin {
                word(value as int)
            } else {
                value as int
            },
        ),
{
    if unsigned_origin {
        Json::Uint(to_word(value))
    } else {
        Json::Int(value)
    }
}

/// An integer that is taken into the editor and stored again is the same number.
pub proof fn law_integer_edit_round_trip(display_name: Seq<char>, path: Seq<char>, n: int)
    requires
        i64::MIN <= n <= u64::MAX,
    ensures
        kind_of(display_name, path, Tree::Int(n), false) matches FieldKind::Integer {
            value,
            unsigned_origin,
        } && (if unsigned_origin {
            word(value as int)
        } else {
            value as int
        }) == n,
{
}

/// The number of an integer field in hexadecimal.
pub fn hex_input(value: i64) -> (r: String)
    ensures
        r@ == "0x"@ + digits(word(value as int) as nat, 16, true),
{
    let mut s = "0x".to_owned();
    push_digits(&mut s, to_word(value), 16, true);
    s
}

/// The number that was typed into the hexadecimal field, by its bits.
pub fn typed_key(input: &str) -> (r: Option<i64>)
    ensures
        match r {
            Some(v) => typed_number(input@) == Some(word(v as int) as nat),
            None => typed_number(input@) is None,
        },
{
    match parse_hex_or_dec(input) {
        Some(u) => Some(from_word(u)),
        None => None,
    }
}

/// What stands before the name of a field.
pub open spec fn changed_mark(changed: bool) -> Seq<char> {
    if changed {
        "\u{25CF} "@
    } else {
        ""@
    }
}

/// The name of a field, marked where it is changed.
pub fn field_label(display_name: &str, changed: bool) -> (r: String)
    ensures
        r@ == changed_mark(changed) + display_name@,
{
    concat2(
        if changed {
            "\u{25CF} "
        } else {
            ""
        },
        display_name,
    )
}

/// The heading of a list.
pub fn list_header(display_name: &str, changed: bool, count: usize) -> (r: String)
    ensures
        r@ == changed_mark(changed) + display_name@ + " ["@ + dec(count as nat) + " items]"@,
{
    let mut s = field_label(display_name, changed);
    s.push_str(" [");
    push_digits(&mut s, count as u64, 10, false);
    s.push_str(" items]");
    s
}

/// The heading of a group.
pub fn group_header(display_name: &str, changed: bool, count: usize) -> (r: String)
    ensures
        r@ == changed_mark(changed) + display_name@ + " {"@ + dec(count as nat) + " fields}"@,
{
    let mut s = field_label(display_name, changed);
    s.push_str(" {");
    push_digits(&mut s, count as u64, 10, false);
    s.push_str(" fields}");
    s
}

/// The path to an element.
pub open spec fn element_path(path: Seq<char>, i: nat) -> Seq<char> {
    path + "["@ + dec(i) + "]"@
}

/// The path to an element, and also its name.
pub fn child_element(path: &str, i: usize) -> (r: String)
    ensures
        r@ == element_path(path@, i as nat),
{
    let mut s = path.to_owned();
    s.push_str("[");
    push_digits(&mut s, i as u64, 10, false);
    s.push_str("]");
    s
}

/// The path to a member.
pub open spec fn member_path(path: Seq<char>, name: Seq<char>) -> Seq<char> {
    path + "."@ + name
}

/// The path to a member.
pub fn child_member(path: &str, name: &str) -> (r: String)
    ensures
        r@ == member_path(path@, name@),
{
    concat3(path, ".", name)
}

/// The line on a text that holds encoded bytes.
pub fn blob_line(byte_count: usize, runs: usize) -> (r: String)
    ensures
        r@ == "[blob, "@ + dec(byte_count as nat) + " bytes b64, "@ + dec(runs as nat)
            + " text runs]"@,
{
    let mut s = "[blob, ".to_owned();
    push_digits(&mut s, byte_count as u64, 10, false);
    s.push_str(" bytes b64, ");
    push_digits(&mut s, runs as u64, 10, false);
    s.push_str(" text runs]");
    s
}

/// A text that was found among encoded bytes.
#[derive(Debug)]
pub struct TextRun {
    pub text: String,
    pub has_cjk: bool,
}

/// A run is worth showing: it has three characters at least.
pub open spec fn run_kept(runs: Seq<TextRun>) -> spec_fn(int) -> bool {
    |i: int| runs[i].text@.len() >= 3
}

/// The runs that are worth showing.
pub fn interesting_runs(runs: &Vec<TextRun>) -> (r: Vec<usize>)
    ensures
        r@ == picked(runs@.len(), run_kept(runs@)),
{
    let mut out: Vec<usize> = Vec::new();
    let mut i: usize = 0;
    while i < runs.len()
        invariant
            0 <= i <= runs.len(),
            out@ == picked(i as nat, run_kept(runs@)),
        decreases runs.len() - i,
    {
        if chars_of(runs[i].text.as_str()).len() >= 3 {
            out.push(i);
        }
        i = i + 1;
    }
    out
}

/// A run as it is shown.
pub fn run_line(run: &TextRun) -> (r: String)
    ensures
        r@ == (if run.has_cjk {
            "📝 "@
        } else {
            ""@
        }) + run.text@,
{
    concat2(
        if run.has_cjk {
            "📝 "
        } else {
            ""
        },
        run.text.as_str(),
    )
}

/// The name of a row of the catalog; empty where it has none.
pub open spec fn row_name(e: CatalogEntry) -> Seq<char> {
    match tree_get(e.value@, "name"@) {
        Some(Tree::Str(s)) => s,
        _ => Seq::empty(),
    }
}

/// The number of a row of the catalog.
pub open spec fn row_number(e: CatalogEntry) -> Option<nat> {
    parsed(e.key_text@, 10, u64::MAX as nat)
}

/// A row of the catalog is offered: it has a number, and the search text stands
/// in its name or in its key.
pub open spec fn row_offered(e: CatalogEntry, query: Seq<char>) -> bool {
    let q = lowercase(trimmed(query));
    &&& row_number(e) is Some
    &&& q.len() == 0 || has_sub(lowercase(row_name(e)), q) || has_sub(e.key_text@, q)
}

/// Row `i` is offered before row `j`: by name, of like names by number, and of
/// like numbers as they stand.
pub open spec fn offered_before(e: Seq<CatalogEntry>, i: usize, j: usize) -> bool {
    let (a, b) = (e[i as int], e[j as int]);
    let (m, n) = (row_number(a)->Some_0, row_number(b)->Some_0);
    ||| text_before(row_name(a), row_name(b))
    ||| row_name(a) == row_name(b) && (m < n || (m == n && i < j))
}

fn name_of_row(e: &CatalogEntry) -> (r: String)
    ensures
        r@ == row_name(*e),
{
    match e.value.get("name") {
        Some(v) => match v {
            Json::Str(s) => s.clone(),
            _ => String::new(),
        },
        None => String::new(),
    }
}

/// `rows` are the rows of the catalog that are offered for a search text, in order.
pub open spec fn offers(e: Seq<CatalogEntry>, query: Seq<char>, rows: Seq<usize>) -> bool {
    &&& forall|k: int|
        0 <= k < rows.len() ==> #[trigger] rows[k] < e.len() && row_offered(
            e[rows[k] as int],
            query,
        )
    &&& forall|i: int|
        0 <= i < e.len() && #[trigger] row_offered(e[i], query) ==> rows.contains(i as usize)
    &&& forall|p: int, q: int|
        0 <= p < q < rows.len() ==> offered_before(e, #[trigger] rows[p], #[trigger] rows[q])
}

/// There is one list of offered rows only.
pub proof fn law_one_offer(
    e: Seq<CatalogEntry>,
    query: Seq<char>,
    a: Seq<usize>,
    b: Seq<usize>,
)
    requires
        offers(e, query, a),
        offers(e, query, b),
    ensures
        a == b,
{
    let before = |i: usize, j: usize| offered_before(e, i, j);
    assert forall|i: usize, j: usize| !(#[trigger] before(i, j) && before(j, i)) by {
        let (x, y) = (row_name(e[i as int]), row_name(e[j as int]));
        law_text_order(x, y, x);
    }
    assert forall|x: usize| #[trigger] a.contains(x) <==> b.contains(x) by {
        if a.contains(x) {
            let k = choose|k: int| 0 <= k < a.len() && a[k] == x;
            assert(row_offered(e[a[k] as int], query));
        }
        if b.contains(x) {
            let k = choose|k: int| 0 <= k < b.len() && b[k] == x;
            assert(row_offered(e[b[k] as int], query));
        }
    }
    lemma_one_listing(before, a, b);
}

/// The rows of the catalog that are offered for a search text, in order.
pub fn dropdown_rows(entries: &Vec<CatalogEntry>, query: &str) -> (r: Vec<usize>)
    ensures
        offers(entries@, query@, r@),
{
    let q = trim(query).as_str().to_lowercase();
    let mut rows: Vec<usize> = Vec::new();
    let mut keys: Vec<SortKey> = Vec::new();
    let mut i: usize = 0;
    while i < entries.len()
        invariant
            0 <= i <= entries.len(),
            q@ == lowercase(trimmed(query@)),
            rows.len() == keys.len(),
            forall|k: int|
                0 <= k < rows@.len() ==> #[trigger] rows@[k] < i && row_offered(
                    entries@[rows@[k] as int],
                    query@,
                ),
            forall|k: int, l: int| 0 <= k < l < rows@.len() ==> rows@[k] < rows@[l],
            forall|k: int|
                0 <= k < rows@.len() ==> (#[trigger] keys@[k]).rank == 0 && keys@[k].text@
                    == row_name(entries@[rows@[k] as int]) && row_number(
                    entries@[rows@[k] as int],
                ) == Some(keys@[k].number as nat),
            forall|j: int|
                0 <= j < i && #[trigger] row_offered(entries@[j], query@) ==> rows@.contains(
                    j as usize,
                ),
        decreases entries.len() - i,
    {
        let ghost r0 = rows@;
        let e = &entries[i];
        match parse_unsigned(e.key_text.as_str(), 10, u64::MAX) {
            Some(n) => {
                let name = name_of_row(e);
                if q.as_str().is_empty() || lower_contains(name.as_str(), q.as_str()) || contains(
                    e.key_text.as_str(),
                    q.as_str(),
                ) {
                    rows.push(i);
                    keys.push(SortKey { rank: 0, text: name, number: n });
                    assert(rows@[rows@.len() - 1] == i);
                }
            },
            None => {},
        }
        proof {
            assert forall|j: int| 0 <= j < i + 1 && #[trigger] row_offered(
                entries@[j],
                query@,
            ) implies rows@.contains(j as usize) by {
                if j < i {
                    assert(r0.contains(j as usize));
                    let k = choose|k: int| 0 <= k < r0.len() && r0[k] == j as usize;
                    assert(rows@[k] == j as usize);
                }
            }
        }
        i = i + 1;
    }
    let order = sorted_rows(&keys);
    let mut out: Vec<usize> = Vec::new();
    let mut k: usize = 0;
    while k < order.len()
        invariant
            0 <= k <= order.len(),
            orders(keys@, order@, 0, keys@.len() as int),
            rows.len() == keys.len(),
            out@ == Seq::new(k as nat, |j: int| rows@[order@[j] as int]),
        decreases order.len() - k,
    {
        assert(order@.contains(order@[k as int]));
        let x = rows[order[k]];
        out.push(x);
        k = k + 1;
        assert(out@ =~= Seq::new(k as nat, |j: int| rows@[order@[j] as int]));
    }
    proof {
        assert forall|p: int| 0 <= p < order@.len() implies #[trigger] order@[p] < rows@.len() by {
            assert(order@.contains(order@[p]));
        }
    }
    proof {
        assert forall|p: int| 0 <= p < out@.len() implies #[trigger] out@[p] < entries@.len()
            && row_offered(entries@[out@[p] as int], query@) by {
            assert(out@[p] == rows@[order@[p] as int]);
        }
        assert forall|j: int| 0 <= j < entries@.len() && #[trigger] row_offered(
            entries@[j],
            query@,
        ) implies out@.contains(j as usize) by {
            assert(rows@.contains(j as usize));
            let m = choose|m: int| 0 <= m < rows@.len() && rows@[m] == j as usize;
            assert(order@.contains(m as usize));
            let p = choose|p: int| 0 <= p < order@.len() && order@[p] == m as usize;
            assert(out@[p] == j as usize);
        }
        assert forall|p: int, q: int| 0 <= p < q < out@.len() implies offered_before(
            entries@,
            #[trigger] out@[p],
            #[trigger] out@[q],
        ) by {
            let (x, y) = (order@[p], order@[q]);
            assert(row_before(keys@, x, y));
            assert(out@[p] == rows@[x as int]);
            assert(out@[q] == rows@[y as int]);
            crate::text::law_text_order(
                keys@[x as int].text@,
                keys@[y as int].text@,
                keys@[x as int].text@,
            );
            if x < y {
                assert(rows@[x as int] < rows@[y as int]);
            } else if y < x {
                assert(rows@[y as int] < rows@[x as int]);
            }
        }
    }
    out
}

/// The greatest number of rows that is offered at once.
pub const ROW_CAP: usize = 500;

/// How many rows are shown, and how many are left out.
pub fn cap_rows(total: usize) -> (r: (usize, usize))
    ensures
        r.0 == if total > ROW_CAP {
            ROW_CAP as int
        } else {
            total as int
        },
        r.1 == total - r.0,
{
    if total > ROW_CAP {
        (ROW_CAP, total - ROW_CAP)
    } else {
        (total, 0)
    }
}

/// A row of the catalog as it is offered.
pub fn dropdown_label(e: &CatalogEntry) -> (r: String)
    ensures
        r@ == (if row_name(*e).len() == 0 {
            "(unnamed)"@
        } else {
            row_name(*e)
        }) + " ["@ + e.key_text@ + "]"@,
{
    let name = name_of_row(e);
    let mut s = if name.as_str().is_empty() {
        "(unnamed)".to_owned()
    } else {
        name
    };
    s.push_str(" [");
    s.push_str(e.key_text.as_str());
    s.push_str("]");
    s
}

/// The number of an offered row, by its bits.
pub fn picked_number(e: &CatalogEntry) -> (r: Option<i64>)
    ensures
        match r {
            Some(v) => row_number(*e) == Some(word(v as int) as nat),
            None => row_number(*e) is None,
        },
{
    match parse_unsigned(e.key_text.as_str(), 10, u64::MAX) {
        Some(n) => Some(from_word(n)),
        None => None,
    }
}

/// The rows that the catalog has for the table that a field refers to, or why
/// there are none.
pub fn dropdown_section<'a>(catalog: &'a Catalog, dispatch: &str) -> (r: Result<&'a Section, String>)
    ensures
        match (section_of(catalog.dispatch_to_section@, dispatch@), r) {
            (None, Err(m)) => m@ == "No section mapped for this dispatch."@,
            (Some(name), Ok(s)) => section_named(catalog.sections@, name@) == Some(*s),
            (Some(name), Err(m)) => section_named(catalog.sections@, name@) is None && m@
                == "Section '"@ + name@ + "' not loaded."@,
            (None, Ok(_)) => false,
        },
{
    match catalog.section_for(dispatch) {
        None => Err("No section mapped for this dispatch.".to_owned()),
        Some(name) => match catalog.find_section(name.as_str()) {
            Some(s) => Ok(s),
            None => Err(concat3("Section '", name.as_str(), "' not loaded.")),
        },
    }
}

/// The first row of the catalog with a number.
pub open spec fn row_with_key(e: Seq<CatalogEntry>, key: Seq<char>) -> Option<Tree>
    decreases e.len(),
{
    if e.len() == 0 {
        None
    } else if e[0].key_text@ == key {
        Some(e[0].value@)
    } else {
        row_with_key(e.drop_first(), key)
    }
}

fn find_row<'a>(e: &'a Vec<CatalogEntry>, key: &str) -> (r: Option<&'a Json>)
    ensures
        opt_tree(r) == row_with_key(e@, key@),
{
    let mut i: usize = 0;
    assert(e@.skip(0) =~= e@);
    while i < e.len()
        invariant
            0 <= i <= e.len(),
            row_with_key(e@.skip(i as int), key@) == row_with_key(e@, key@),
        decreases e.len() - i,
    {
        assert(e@.skip(i as int).drop_first() =~= e@.skip(i + 1));
        assert(e@.skip(i as int)[0] == e@[i as int]);
        if same(e[i].key_text.as_str(), key) {
            return Some(&e[i].value);
        }
        i = i + 1;
    }
    None
}

/// A text that a number refers to: the text, and more to unfold where there is more.
pub struct Reference {
    pub text: Seq<char>,
    pub preview: Option<Seq<char>>,
}

/// The localized text of a number: English first, with the Korean one beside it
/// where there is one, else Korean, else the text that the catalog has.
pub open spec fn string_reference(
    value: int,
    catalog: Option<Catalog>,
    loc: Option<Localization>,
) -> Option<Reference> {
    if value < 0 {
        None
    } else {
        let key = value as u64;
        let eng = match loc {
            Some(l) => text_for(l.eng@, key),
            None => None,
        };
        let kor = match loc {
            Some(l) => text_for(l.kor@, key),
            None => None,
        };
        match (eng, kor) {
            (Some(e), Some(k)) => Some(
                Reference { text: e, preview: Some("EN: "@ + e + "\nKR: "@ + k) },
            ),
            (Some(e), None) => Some(Reference { text: e, preview: None }),
            (None, Some(k)) => Some(Reference { text: k, preview: Some("KR: "@ + k) }),
            (None, None) => match catalog {
                Some(c) => match text_for(c.strings@, key) {
                    Some(t) => if value <= u32::MAX && t.len() > 0 {
                        Some(Reference { text: t, preview: None })
                    } else {
                        None
                    },
                    None => None,
                },
                None => None,
            },
        }
    }
}

/// The catalog name of a number in the section of a table, with the first lines
/// of its row.
pub open spec fn table_reference(
    dispatch: Seq<char>,
    value: int,
    catalog: Option<Catalog>,
) -> Option<Reference> {
    match catalog {
        None => None,
        Some(c) => match section_of(c.dispatch_to_section@, dispatch) {
            None => None,
            Some(name) => match section_named(c.sections@, name@) {
                None => None,
                Some(s) => if value < 0 {
                    None
                } else {
                    match text_for(s.names@, value as u64) {
                        None => None,
                        Some(t) => Some(
                            Reference {
                                text: t,
                                preview: match row_with_key(s.entries@, dec(value as nat)) {
                                    Some(row) => Some(
                                        first_lines(
                                            text_lines(pretty_text(form(row))),
                                            10,
                                            "...\n"@,
                                        ),
                                    ),
                                    None => None,
                                },
                            },
                        ),
                    }
                },
            },
        },
    }
}

/// What the number in a field refers to, by the name of the field.
pub open spec fn reference_of(
    field: Seq<char>,
    value: int,
    catalog: Option<Catalog>,
    loc: Option<Localization>,
) -> Option<Reference> {
    match field_target(field) {
        None => None,
        Some(t) => if t == "STRING"@ {
            string_reference(value, catalog, loc)
        } else {
            table_reference(t, value, catalog)
        },
    }
}

/// A resolved reference says what the model says.
pub open spec fn refers(r: Option<(String, Option<String>)>, m: Option<Reference>) -> bool {
    match (r, m) {
        (None, None) => true,
        (Some(p), Some(x)) => p.0@ == x.text && match (p.1, x.preview) {
            (None, None) => true,
            (Some(a), Some(b)) => a@ == b,
            _ => false,
        },
        _ => false,
    }
}

fn resolve_string(value: i64, catalog: &Option<Catalog>, loc: &Option<Localization>) -> (r: Option<
    (String, Option<String>),
>)
    ensures
        refers(r, string_reference(value as int, *catalog, *loc)),
{
    if value < 0 {
        return None;
    }
    let key: u64 = value as u64;
    let (eng, kor): (Option<String>, Option<String>) = match loc {
        Some(l) => (lookup_text(&l.eng, key), lookup_text(&l.kor, key)),
        None => (None, None),
    };
    match (eng, kor) {
        (Some(e), Some(k)) => {
            let mut p = "EN: ".to_owned();
            p.push_str(e.as_str());
            p.push_str("\nKR: ");
            p.push_str(k.as_str());
            Some((e, Some(p)))
        },
        (Some(e), None) => Some((e, None)),
        (None, Some(k)) => {
            let p = concat2("KR: ", k.as_str());
            Some((k, Some(p)))
        },
        (None, None) => match catalog {
            Some(c) => match lookup_text(&c.strings, key) {
                Some(t) => if value <= 0xFFFF_FFFF && !t.as_str().is_empty() {
                    Some((t, None))
                } else {
                    None
                },
                None => None,
            },
            None => None,
        },
    }
}

fn resolve_table(dispatch: &str, value: i64, catalog: &Option<Catalog>) -> (r: Option<
    (String, Option<String>),
>)
    ensures
        refers(r, table_reference(dispatch@, value as int, *catalog)),
{
    let c = match catalog {
        None => {
            return None;
        },
        Some(c) => c,
    };
    let section = match c.section_for(dispatch) {
        None => {
            return None;
        },
        Some(name) => match c.find_section(name.as_str()) {
            None => {
                return None;
            },
            Some(s) => s,
        },
    };
    if value < 0 {
        return None;
    }
    match lookup_text(&section.names, value as u64) {
        None => None,
        Some(t) => {
            let preview = match find_row(&section.entries, dec_text(value as u64).as_str()) {
                Some(row) => Some(truncate_lines(to_pretty(row).as_str(), 10)),
                None => None,
            };
            Some((t, preview))
        },
    }
}

/// What the number in a field refers to.
pub fn resolve_reference(
    field_name: &str,
    value: i64,
    catalog: &Option<Catalog>,
    loc: &Option<Localization>,
) -> (r: Option<(String, Option<String>)>)
    ensures
        refers(r, reference_of(field_name@, value as int, *catalog, *loc)),
{
    match target_for_field(field_name) {
        None => None,
        Some(t) => {
            if same(t, "STRING") {
                resolve_string(value, catalog, loc)
            } else {
                resolve_table(t, value, catalog)
            }
        },
    }
}

/// An edit that waits to be made: a new value for a path, or none to bring the
/// shipped value back.
#[derive(Debug)]
pub struct PendingEdit {
    pub path: String,
    pub value: Option<Json>,
}

/// The entry that the fields are shown of, or why there is none.
pub fn selected_entry(state: &AppState) -> (r: Result<(usize, usize), &'static str>)
    ensures
        match (state.focus(), r) {
            (None, Err(m)) => m@ == "No table loaded"@,
            (Some(i), Err(m)) => match state.open_tabs@[i].selected_entry_idx {
                None => m@ == "Select an entry from the table"@,
                Some(e) => e >= state.open_tabs@[i].entries@.len() && m@
                    == "Entry index out of range"@,
            },
            (Some(i), Ok(p)) => p.0 == i && state.open_tabs@[i].selected_entry_idx == Some(p.1)
                && p.1 < state.open_tabs@[i].entries@.len(),
            (None, Ok(_)) => false,
        },
{
    match state.active_index() {
        None => Err("No table loaded"),
        Some(i) => match state.open_tabs[i].selected_entry_idx {
            None => Err("Select an entry from the table"),
            Some(e) => if e < state.open_tabs[i].entries.len() {
                Ok((i, e))
            } else {
                Err("Entry index out of range")
            },
        },
    }
}

/// An entry of a table got a new value, and the edit is in the history.
pub open spec fn entry_edited(
    before: ActiveTable,
    after: ActiveTable,
    entry: int,
    value: Tree,
    changes: Seq<(u64, Seq<char>)>,
    edit: Edit,
) -> bool {
    &&& trees(after.entries@) == trees(before.entries@).update(entry, value)
    &&& after.changes@ == changes
    &&& after.history.edits() == before.history.edits().take(before.history.position as int).push(
        edit,
    )
    &&& after.history.position == before.history.position + 1
    &&& after.wf()
    &&& after == (ActiveTable {
        entries: after.entries,
        changes: after.changes,
        history: after.history,
        ..before
    })
}

/// The value, or null where there is none.
pub open spec fn or_null(t: Option<Tree>) -> Tree {
    match t {
        Some(x) => x,
        None => Tree::Null,
    }
}

/// The edit of a field of an entry.
pub open spec fn field_edit(
    tab: ActiveTable,
    entry: int,
    path: Seq<char>,
    new_value: Tree,
    now: u64,
) -> Edit {
    Edit {
        table: tab.dispatch_name@,
        entry_key: tab.entry_keys@[entry],
        field_path: path,
        old_value: or_null(value_at(tab.entries@[entry]@, path)),
        new_value,
        timestamp: now,
    }
}

/// What stood at a path of an entry as shipped.
pub open spec fn shipped_at(tab: ActiveTable, entry: int, path: Seq<char>) -> Option<Tree> {
    if entry < tab.vanilla@.len() {
        value_at(tab.vanilla@[entry]@, path)
    } else {
        None
    }
}

/// An edit was made: the new value stands at the path and is noted as a change,
/// or the shipped value stands there and is noted no longer. A path that cannot
/// be set changes nothing.
pub open spec fn edit_made(
    before: ActiveTable,
    after: ActiveTable,
    entry: int,
    edit: PendingEdit,
    now: u64,
) -> bool {
    let t = before.entries@[entry]@;
    let key = before.entry_keys@[entry];
    let p = edit.path@;
    match edit.value {
        Some(v) => match value_with(t, p, v@) {
            Some(n) => entry_edited(
                before,
                after,
                entry,
                n,
                with_change(before.changes@, key, p),
                field_edit(before, entry, p, v@, now),
            ),
            None => after == before,
        },
        None => match shipped_at(before, entry, p) {
            Some(v) => match value_with(t, p, v) {
                Some(n) => entry_edited(
                    before,
                    after,
                    entry,
                    n,
                    without_change(before.changes@, key, p),
                    field_edit(before, entry, p, v, now),
                ),
                None => after == before,
            },
            None => after == before,
        },
    }
}

fn copy_or_null(j: Option<&Json>) -> (r: Json)
    ensures
        r@ == or_null(opt_tree(j)),
{
    match j {
        Some(x) => x.copy(),
        None => Json::Null,
    }
}

/// Sets a path of an entry and puts the edit into the history.
pub fn set_field(
    tab: &mut ActiveTable,
    entry: usize,
    path: &String,
    value: &Json,
    note_change: bool,
    now: u64,
) -> (r: bool)
    requires
        old(tab).wf(),
        entry < old(tab).entries@.len(),
    ensures
        r == (value_with(old(tab).entries@[entry as int]@, path@, value@) is Some),
        !r ==> *final(tab) == *old(tab),
        r ==> entry_edited(
            *old(tab),
            *final(tab),
            entry as int,
            value_with(old(tab).entries@[entry as int]@, path@, value@)->Some_0,
            if note_change {
                with_change(old(tab).changes@, old(tab).entry_keys@[entry as int], path@)
            } else {
                without_change(old(tab).changes@, old(tab).entry_keys@[entry as int], path@)
            },
            field_edit(*old(tab), entry as int, path@, value@, now),
        ),
{
    let old_value = copy_or_null(get_at_path(&tab.entries[entry], path.as_str()));
    let mut edited = tab.entries[entry].copy();
    if !set_at_path(&mut edited, path.as_str(), value) {
        return false;
    }
    let ghost e0 = tab.entries@;
    let ghost et = edited@;
    tab.entries[entry] = edited;
    assert(trees(tab.entries@) =~= trees(e0).update(entry as int, et));
    let key = tab.entry_keys[entry];
    if note_change {
        tab.changes.record_change(key, path.clone());
    } else {
        tab.changes.unrecord_field(key, path.as_str());
    }
    let op = EditOp {
        table: tab.dispatch_name.clone(),
        entry_key: key,
        field_path: path.clone(),
        old_value,
        new_value: value.copy(),
        timestamp: now,
    };
    assert(op@ == field_edit(*old(tab), entry as int, path@, value@, now));
    tab.history.record(op);
    true
}

/// Makes one edit to an entry.
pub fn apply_edit(tab: &mut ActiveTable, entry: usize, edit: &PendingEdit, now: u64)
    requires
        old(tab).wf(),
        entry < old(tab).entries@.len(),
    ensures
        edit_made(*old(tab), *final(tab), entry as int, *edit, now),
        final(tab).wf(),
        final(tab).entries@.len() == old(tab).entries@.len(),
{
    let ghost n = trees(tab.entries@).len();
    match &edit.value {
        Some(v) => {
            let _done = set_field(tab, entry, &edit.path, v, true, now);
        },
        None => {
            let shipped = if entry < tab.vanilla.len() {
                match get_at_path(&tab.vanilla[entry], edit.path.as_str()) {
                    Some(v) => Some(v.copy()),
                    None => None,
                }
            } else {
                None
            };
            match shipped {
                Some(v) => {
                    let _done = set_field(tab, entry, &edit.path, &v, false, now);
                },
                None => {},
            }
        },
    }
    assert(trees(tab.entries@).len() == n);
}

/// The edits were made one after the other, with `steps` the table between them.
pub open spec fn edits_made(
    steps: Seq<ActiveTable>,
    entry: int,
    edits: Seq<PendingEdit>,
    now: u64,
) -> bool {
    &&& steps.len() == edits.len() + 1
    &&& forall|k: int|
        0 <= k < edits.len() ==> edit_made(#[trigger] steps[k], steps[k + 1], entry, edits[k], now)
}

/// Makes the edits to an entry of the table in focus, one after the other.
pub fn apply_edits(state: &mut AppState, entry: usize, edits: &Vec<PendingEdit>, now: u64)
    requires
        old(state).focus() matches Some(i) && old(state).open_tabs@[i].wf() && entry < old(
            state,
        ).open_tabs@[i].entries@.len(),
    ensures
        old(state).tabs_wf() ==> final(state).tabs_wf(),
        exists|steps: Seq<ActiveTable>|
            {
                &&& #[trigger] edits_made(steps, entry as int, edits@, now)
                &&& steps[0] == old(state).open_tabs@[old(state).focus()->Some_0]
                &&& final(state).open_tabs@ == old(state).open_tabs@.update(
                    old(state).focus()->Some_0,
                    steps.last(),
                )
            },
        *final(state) == (AppState { open_tabs: final(state).open_tabs, ..*old(state) }),
{
    let i = match state.active_index() {
        Some(i) => i,
        None => {
            return;
        },
    };
    let ghost tabs = state.open_tabs@;
    let ghost mut steps: Seq<ActiveTable> = seq![tabs[i as int]];
    let mut k: usize = 0;
    assert(tabs.update(i as int, tabs[i as int]) =~= tabs);
    while k < edits.len()
        invariant
            0 <= k <= edits.len(),
            i < tabs.len(),
            tabs == old(state).open_tabs@,
            old(state).focus() == Some(i as int),
            edits_made(steps, entry as int, edits@.take(k as int), now),
            steps[0] == tabs[i as int],
            state.open_tabs@ == tabs.update(i as int, steps.last()),
            steps.last().wf(),
            entry < steps.last().entries@.len(),
            *state == (AppState { open_tabs: state.open_tabs, ..*old(state) }),
        decreases edits.len() - k,
    {
        let ghost before = steps;
        assert(state.open_tabs@[i as int] == steps.last());
        apply_edit(&mut state.open_tabs[i], entry, &edits[k], now);
        proof {
            let after = state.open_tabs@[i as int];
            steps = steps.push(after);
            assert(edits@.take(k + 1).len() == k + 1);
            assert forall|m: int| 0 <= m < k + 1 implies edit_made(
                #[trigger] steps[m],
                steps[m + 1],
                entry as int,
                edits@.take(k + 1)[m],
                now,
            ) by {
                if m < k {
                    assert(steps[m] == before[m] && steps[m + 1] == before[m + 1]);
                    assert(edits@.take(k as int)[m] == edits@.take(k + 1)[m]);
                }
            }
            assert(state.open_tabs@ =~= tabs.update(i as int, after));
        }
        k = k + 1;
    }
    assert(edits@.take(edits.len() as int) =~= edits@);
    assert(edits_made(steps, entry as int, edits@, now));
}

/// Brings an entry of the table in focus back to what was shipped, as one edit
/// with an empty path. Without a shipped entry nothing changes.
pub fn reset_entry(state: &mut AppState, entry: usize, now: u64)
    requires
        old(state).focus() matches Some(i) && old(state).open_tabs@[i].wf() && entry < old(
            state,
        ).open_tabs@[i].entries@.len(),
    ensures
        old(state).tabs_wf() ==> final(state).tabs_wf(),
        ({
            let i = old(state).focus()->Some_0;
            let before = old(state).open_tabs@[i];
            let after = final(state).open_tabs@[i];
            if entry < before.vanilla@.len() {
                &&& entry_edited(
                    before,
                    after,
                    entry as int,
                    before.vanilla@[entry as int]@,
                    without_entry(before.changes@, before.entry_keys@[entry as int]),
                    Edit {
                        table: before.dispatch_name@,
                        entry_key: before.entry_keys@[entry as int],
                        field_path: Seq::empty(),
                        old_value: before.entries@[entry as int]@,
                        new_value: before.vanilla@[entry as int]@,
                        timestamp: now,
                    },
                )
                &&& final(state).open_tabs@ == old(state).open_tabs@.update(i, after)
                &&& *final(state) == (AppState {
                    open_tabs: final(state).open_tabs,
                    ..*old(state)
                })
            } else {
                *final(state) == *old(state)
            }
        }),
{
    let i = match state.active_index() {
        Some(i) => i,
        None => {
            return;
        },
    };
    if entry < state.open_tabs[i].vanilla.len() {
        restore_entry(&mut state.open_tabs[i], entry, now);
    }
}

fn restore_entry(tab: &mut ActiveTable, entry: usize, now: u64)
    requires
        old(tab).wf(),
        entry < old(tab).entries@.len(),
        entry < old(tab).vanilla@.len(),
    ensures
        entry_edited(
            *old(tab),
            *final(tab),
            entry as int,
            old(tab).vanilla@[entry as int]@,
            without_entry(old(tab).changes@, old(tab).entry_keys@[entry as int]),
            Edit {
                table: old(tab).dispatch_name@,
                entry_key: old(tab).entry_keys@[entry as int],
                field_path: Seq::empty(),
                old_value: old(tab).entries@[entry as int]@,
                new_value: old(tab).vanilla@[entry as int]@,
                timestamp: now,
            },
        ),
{
    let old_entry = tab.entries[entry].copy();
    let shipped = tab.vanilla[entry].copy();
    let new_entry = shipped.copy();
    let key = tab.entry_keys[entry];
    let ghost e0 = tab.entries@;
    let ghost vt = shipped@;
    tab.entries[entry] = shipped;
    assert(trees(tab.entries@) =~= trees(e0).update(entry as int, vt));
    tab.changes.unrecord_entry(key);
    let op = EditOp {
        table: tab.dispatch_name.clone(),
        entry_key: key,
        field_path: String::new(),
        old_value: old_entry,
        new_value: new_entry,
        timestamp: now,
    };
    tab.history.record(op);
}

/// Whether an entry can be brought back as a whole: something in it is changed,
/// and what was shipped is known.
pub fn can_reset_entry(tab: &ActiveTable, entry: usize) -> (r: bool)
    requires
        tab.wf(),
        entry < tab.entries@.len(),
    ensures
        r == (crate::state::entry_changed(tab.changes@, tab.entry_keys@[entry as int]) && entry
            < tab.vanilla@.len()),
{
    tab.changes.is_entry_modified(tab.entry_keys[entry]) && entry < tab.vanilla.len()
}

/// What is edited after the key of an entry was renewed is recorded under the
/// renewed key: as an edit in the history, and as a change where it sets a value.
pub proof fn law_edits_go_by_the_renewed_key(
    before: AppState,
    renewed: AppState,
    tab: int,
    entry: int,
    key: u64,
    after: ActiveTable,
    edit: PendingEdit,
    now: u64,
)
    requires
        0 <= tab < before.open_tabs@.len(),
        before.open_tabs@[tab].wf(),
        0 <= entry < before.open_tabs@[tab].entries@.len(),
        key_renewed(before, renewed, tab, entry, key),
        edit_made(renewed.open_tabs@[tab], after, entry, edit, now),
        after != renewed.open_tabs@[tab],
    ensures
        after.entry_keys@[entry] == key,
        after.history.edits().len() > 0,
        after.history.edits().last().entry_key == key,
        edit.value is Some ==> after.changes@.contains((key, edit.path@)),
{
    let c = renewed.open_tabs@[tab].changes@;
    let w = with_change(c, key, edit.path@);
    if !c.contains((key, edit.path@)) {
        assert(w[w.len() - 1] == (key, edit.path@));
    }
}

/// An edit that was made can be undone: setting its path to the old value of
/// its history entry gives the entry as it was, where the path led to a value.
pub proof fn law_edit_can_be_undone(t: Tree, path: Seq<char>, v: Tree)
    requires
        value_with(t, path, v) is Some,
        value_at(t, path) is Some,
    ensures
        value_at(value_with(t, path, v)->Some_0, path) == Some(v),
        value_with(value_with(t, path, v)->Some_0, path, value_at(t, path)->Some_0) == Some(t),
{
    let h = crate::edit_path::path_hops(path)->Some_0;
    crate::edit_path::law_set_get(t, h, v);
    crate::edit_path::law_set_back(t, h, v);
}

/// A change that is noted and then forgotten leaves no trace, where it was not noted before.
pub proof fn law_reset_forgets_change(c: Seq<(u64, Seq<char>)>, key: u64, path: Seq<char>)
    ensures
        !without_change(with_change(c, key, path), key, path).contains((key, path)),
        !c.contains((key, path)) ==> without_change(with_change(c, key, path), key, path) == c,
{
    reveal(Seq::filter);
    let keep = crate::state::other_pair(key, path);
    let n = with_change(c, key, path);
    if n.filter(keep).contains((key, path)) {
        let i = choose|i: int| 0 <= i < n.filter(keep).len() && n.filter(keep)[i] == (key, path);
        n.lemma_filter_pred(keep, i);
    }
    if !c.contains((key, path)) {
        assert(n.drop_last() =~= c);
        lemma_keep_all(c, key, path);
    }
}

proof fn lemma_keep_all(c: Seq<(u64, Seq<char>)>, key: u64, path: Seq<char>)
    requires
        !c.contains((key, path)),
    ensures
        c.filter(crate::state::other_pair(key, path)) == c,
    decreases c.len(),
{
    reveal(Seq::filter);
    if c.len() > 0 {
        let d = c.drop_last();
        assert(!d.contains((key, path))) by {
            if d.contains((key, path)) {
                let i = choose|i: int| 0 <= i < d.len() && d[i] == (key, path);
                assert(c[i] == (key, path));
            }
        }
        assert(c.contains(c.last()));
        lemma_keep_all(d, key, path);
        assert(d.push(c.last()) =~= c);
    } else {
        assert(c.filter(crate::state::other_pair(key, path)) =~= c);
    }
}

proof fn lemma_split_plain(s: Seq<char>, t: Seq<char>, sep: char)
    requires
        !t.contains(sep),
    ensures
        split_on(s + t, sep) == split_on(s, sep).drop_last().push(split_on(s, sep).last() + t),
    decreases t.len(),
{
    crate::text::lemma_split_nonempty(s, sep);
    if t.len() == 0 {
        assert(s + t =~= s);
        assert(split_on(s, sep).last() + t =~= split_on(s, sep).last());
        assert(split_on(s, sep).drop_last().push(split_on(s, sep).last()) =~= split_on(s, sep));
    } else {
        let u = t.drop_last();
        assert(t.contains(t.last()));
        assert(!u.contains(sep)) by {
            if u.contains(sep) {
                let i = choose|i: int| 0 <= i < u.len() && u[i] == sep;
                assert(t[i] == sep);
            }
        }
        lemma_split_plain(s, u, sep);
        assert((s + t).drop_last() =~= s + u);
        let before = split_on(s + u, sep);
        assert(before.drop_last() =~= split_on(s, sep).drop_last());
        assert((split_on(s, sep).last() + u).push(t.last()) =~= split_on(s, sep).last() + t);
    }
}

/// The path that is built for a member leads on from the path of its group to
/// that member, where the name has no dot and no bracket in it.
pub proof fn law_member_path(path: Seq<char>, name: Seq<char>)
    requires
        path_hops(path) is Some,
        !name.contains('.'),
        !name.contains('['),
    ensures
        path_hops(member_path(path, name)) == Some(
            path_hops(path)->Some_0.push(Hop::Member(name)),
        ),
{
    reveal_strlit(".");
    let dot = "."@;
    assert(dot =~= seq!['.']);
    let p = split_on(path, '.');
    crate::text::lemma_split_nonempty(path, '.');
    assert((path + dot).drop_last() =~= path);
    assert(split_on(path + dot, '.') == p.push(Seq::empty()));
    lemma_split_plain(path + dot, name, '.');
    let q = split_on(member_path(path, name), '.');
    assert(Seq::<char>::empty() + name =~= name);
    assert(q =~= p.push(name));
    lemma_parts_prefix(p, q, p.len());
    lemma_plain_part(name);
    assert(q[q.len() - 1] == name);
    assert(path_hops(path)->Some_0 + seq![Hop::Member(name)] =~= path_hops(path)->Some_0.push(
        Hop::Member(name),
    ));
}

proof fn lemma_parts_prefix(p: Seq<Seq<char>>, q: Seq<Seq<char>>, n: nat)
    requires
        n <= p.len(),
        n <= q.len(),
        forall|i: int| 0 <= i < n ==> p[i] == q[i],
    ensures
        parts_hops(p, n) == parts_hops(q, n),
    decreases n,
{
    if n > 0 {
        lemma_parts_prefix(p, q, (n - 1) as nat);
    }
}

proof fn lemma_plain_part(name: Seq<char>)
    requires
        !name.contains('['),
    ensures
        part_hops(name) == Some(seq![Hop::Member(name)]),
{
    let e = Seq::<char>::empty();
    lemma_split_plain(e, name, '[');
    assert(e + name =~= name);
    assert(split_on(e, '[') =~= seq![e]);
    assert(split_on(name, '[') =~= seq![name]);
    assert(element_hops(split_on(name, '['), 0) == Some(Seq::<Hop>::empty()));
    assert(seq![Hop::Member(name)] + Seq::<Hop>::empty() =~= seq![Hop::Member(name)]);
}

/// A name without a dot and a bracket is a path of one step.
pub proof fn lemma_plain_path(name: Seq<char>)
    requires
        !name.contains('.'),
        !name.contains('['),
    ensures
        path_hops(name) == Some(seq![Hop::Member(name)]),
{
    let e = Seq::<char>::empty();
    lemma_split_plain(e, name, '.');
    assert(e + name =~= name);
    assert(split_on(e, '.') =~= seq![e]);
    let p = split_on(name, '.');
    assert(p =~= seq![name]);
    lemma_plain_part(name);
    assert(parts_hops(p, 0) == Some(Seq::<Hop>::empty()));
    assert(p[0] == name);
    assert(parts_hops(p, 1) == Some(Seq::<Hop>::empty() + seq![Hop::Member(name)]));
    assert(Seq::<Hop>::empty() + seq![Hop::Member(name)] =~= seq![Hop::Member(name)]);
}

proof fn lemma_digits_plain(n: nat)
    ensures
        forall|i: int| 0 <= i < dec(n).len() ==> 48 <= (#[trigger] dec(n)[i]) as u32 <= 57,
        dec(n).len() >= 1,
    decreases n,
{
    if n >= 10 {
        lemma_digits_plain(n / 10);
        let d = digits(n / 10, 10, false);
        assert forall|i: int| 0 <= i < dec(n).len() implies 48 <= (#[trigger] dec(n)[i]) as u32
            <= 57 by {
            if i < d.len() {
                assert(dec(n)[i] == dec(n / 10)[i]);
            }
        }
    }
}

/// What an element adds to the path of its list.
spec fn element_tail(i: nat) -> Seq<char> {
    "["@ + dec(i) + "]"@
}

proof fn lemma_tail(i: nat)
    ensures
        !element_tail(i).contains('.'),
        !(dec(i) + "]"@).contains('['),
        (dec(i) + "]"@).len() > 0,
        (dec(i) + "]"@).last() == ']',
        (dec(i) + "]"@).drop_last() == dec(i),
{
    reveal_strlit("[");
    reveal_strlit("]");
    let d = dec(i);
    let tail = element_tail(i);
    let close = d + "]"@;
    lemma_digits_plain(i);
    if tail.contains('.') {
        let k = choose|k: int| 0 <= k < tail.len() && tail[k] == '.';
        if 1 <= k < 1 + d.len() {
            assert(tail[k] == d[k - 1]);
        }
    }
    if close.contains('[') {
        let k = choose|k: int| 0 <= k < close.len() && close[k] == '[';
        if k < d.len() {
            assert(close[k] == d[k]);
        }
    }
    assert(close.drop_last() =~= d);
}

proof fn lemma_pieces_of_element(last: Seq<char>, i: nat)
    ensures
        split_on(last + element_tail(i), '[') == split_on(last, '[').push(dec(i) + "]"@),
{
    reveal_strlit("[");
    lemma_tail(i);
    crate::text::lemma_split_nonempty(last, '[');
    let close = dec(i) + "]"@;
    let opened = last + "["@;
    assert(opened.drop_last() =~= last);
    assert(split_on(opened, '[') == split_on(last, '[').push(Seq::empty()));
    lemma_split_plain(opened, close, '[');
    assert(last + element_tail(i) =~= opened + close);
    assert(Seq::<char>::empty() + close =~= close);
    assert(split_on(last + element_tail(i), '[') =~= split_on(last, '[').push(close));
}

proof fn lemma_part_of_element(last: Seq<char>, i: nat)
    requires
        part_hops(last) is Some,
        i <= usize::MAX,
        last.len() > 0,
    ensures
        part_hops(last + element_tail(i)) == Some(
            part_hops(last)->Some_0.push(Hop::Element(i as int)),
        ),
{
    let pieces = split_on(last, '[');
    let close = dec(i) + "]"@;
    let more = pieces.push(close);
    crate::text::lemma_split_nonempty(last, '[');
    lemma_pieces_of_element(last, i);
    lemma_tail(i);
    let n = (pieces.len() - 1) as nat;
    assert forall|k: int| 0 <= k <= n implies pieces[k] == more[k] by {}
    lemma_elements_prefix(pieces, more, n);
    crate::digits::law_print_parse(i, 10, false, usize::MAX as nat);
    assert(element_of(close) == Some(i));
    assert(more[pieces.len() as int] == close);
    if pieces[0].len() == 0 && pieces.len() == 1 {
        assert(split_on(last, '[') =~= seq![Seq::<char>::empty()]);
        lemma_one_piece(last);
    }
    let h = element_hops(pieces, n)->Some_0;
    assert(element_hops(more, pieces.len()) == Some(h.push(Hop::Element(i as int))));
    let lead = seq![Hop::Member(pieces[0])];
    assert(lead + h.push(Hop::Element(i as int)) =~= (lead + h).push(Hop::Element(i as int)));
}

/// The path that is built for an element leads on from the path of its list to
/// that element.
pub proof fn law_element_path(path: Seq<char>, i: nat)
    requires
        path_hops(path) is Some,
        i <= usize::MAX,
        split_on(path, '.').last().len() > 0,
    ensures
        path_hops(element_path(path, i)) == Some(
            path_hops(path)->Some_0.push(Hop::Element(i as int)),
        ),
{
    let tail = element_tail(i);
    let full = element_path(path, i);
    assert(full =~= path + tail);
    lemma_tail(i);
    crate::text::lemma_split_nonempty(path, '.');
    lemma_split_plain(path, tail, '.');
    let p = split_on(path, '.');
    let q = split_on(full, '.');
    let m = (p.len() - 1) as nat;
    assert(q == p.drop_last().push(p.last() + tail));
    assert forall|k: int| 0 <= k < m implies p[k] == q[k] by {}
    lemma_parts_prefix(p, q, m);
    lemma_part_of_element(p.last(), i);
    assert(q[m as int] == p.last() + tail);
    let front = parts_hops(p, m)->Some_0;
    let lp = part_hops(p.last())->Some_0;
    assert(front + lp.push(Hop::Element(i as int)) =~= (front + lp).push(Hop::Element(i as int)));
}

proof fn lemma_one_piece(s: Seq<char>)
    requires
        split_on(s, '[') == seq![Seq::<char>::empty()],
    ensures
        s.len() == 0,
{
    if s.len() > 0 {
        crate::text::lemma_split_nonempty(s.drop_last(), '[');
        let init = split_on(s.drop_last(), '[');
        if s.last() == '[' {
            assert(split_on(s, '[').len() == init.len() + 1);
        } else {
            assert(split_on(s, '[').last().len() > 0);
        }
    }
}

proof fn lemma_elements_prefix(p: Seq<Seq<char>>, q: Seq<Seq<char>>, n: nat)
    requires
        n < p.len(),
        n < q.len(),
        forall|i: int| 0 <= i <= n ==> p[i] == q[i],
    ensures
        element_hops(p, n) == element_hops(q, n),
    decreases n,
{
    if n > 0 {
        lemma_elements_prefix(p, q, (n - 1) as nat);
    }
}

/// The heading of the note on an entry, with a mark where there is one.
pub fn notes_header(note: &str) -> (r: &'static str)
    ensures
        r@ == if note@.len() == 0 {
            "Notes"@
        } else {
            "Notes \u{1F4DD}"@
        },
{
    if note.is_empty() {
        "Notes"
    } else {
        "Notes \u{1F4DD}"
    }
}

/// The line on the length of a note.
pub fn note_length_line(note: &str) -> (r: String)
    ensures
        r@ == dec(note@.len()) + " chars"@,
{
    let mut s = dec_usize(chars_of(note).len());
    s.push_str(" chars");
    s
}

/// The note on an entry; empty where there is none.
pub fn entry_note(state: &AppState, table: &str, entry_key: u64) -> (r: String)
    ensures
        match note_text(state.notes.notes@, table@, entry_key) {
            Some(t) => r@ == t,
            None => r@.len() == 0,
        },
{
    match state.notes.get(table, entry_key) {
        Some(t) => t,
        None => String::new(),
    }
}

/// Puts a note on an entry. The notes on others stay.
pub fn set_entry_note(state: &mut AppState, table: &str, entry_key: u64, text: String)
    ensures
        note_text(final(state).notes.notes@, table@, entry_key) == Some(text@),
        forall|t: Seq<char>, k: u64|
            (t, k) != (table@, entry_key) ==> #[trigger] note_text(final(state).notes.notes@, t, k)
                == note_text(old(state).notes.notes@, t, k),
        *final(state) == (AppState { notes: final(state).notes, ..*old(state) }),
{
    state.notes.set(table, entry_key, text);
}

} // verus!
