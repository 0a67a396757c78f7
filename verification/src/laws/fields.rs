//! Laws of the field editor: what a field refers to, how it is told and edited,
//! and what an edit leaves.

use vstd::prelude::*;
use crate::edit_path::{law_set_get, path_hops, value_at, value_with};
use crate::json::{tree_get, trees, Json, Tree};
use crate::laws::lookup::{lemma_section_named, lemma_section_of};
use crate::state::{ActiveTable, AppState, Catalog, CatalogEntry, ChangeTracker, Localization};
use crate::text::{has_sub, has_suffix, lowercase, text_before, trimmed};
use crate::ui::field_panel::{
    apply_edit, dropdown_rows, entry_note, field_kind, field_targets, is_color_array,
    looks_like_hash, plain_name, reset_entry, resolve_reference, set_entry_note, target_for_field,
    target_from, FieldKind, PendingEdit,
};

verus! {

broadcast use {vstd::seq_lib::group_seq_properties, vstd::std_specs::hash::group_hash_axioms};

/// A table is that which a plain name refers to: the name ends in the name of the
/// table, or in the kind of thing that the table lists, with `_key` behind it or
/// not. The endings of localized texts refer to the texts.
pub open spec fn names_table(name: Seq<char>, table: Seq<char>) -> bool {
    ||| table == "STRING"@ && (has_suffix(name, "local_string_info"@) || has_suffix(
        name,
        "string_key_hash"@,
    ) || has_suffix(name, "string_key"@) || has_suffix(name, "name_id"@))
    ||| table == "skill_info"@ && (has_suffix(name, "skill"@) || has_suffix(name, "skill_key"@))
    ||| table == "buff_info"@ && (has_suffix(name, "buff"@) || has_suffix(name, "buff_key"@))
    ||| table == "gimmick_info"@ && (has_suffix(name, "gimmick_info"@) || has_suffix(
        name,
        "gimmick_info_key"@,
    ))
    ||| table == "character_info"@ && (has_suffix(name, "character_info"@) || has_suffix(
        name,
        "character_info_key"@,
    ))
    ||| table == "aiaction_attribute_info"@ && has_suffix(name, "ai_action_attribute_info"@)
    ||| is_named_table(table) && has_suffix(name, table)
}

/// A table that fields name by its own name.
pub open spec fn is_named_table(table: Seq<char>) -> bool {
    ||| table == "equip_type_info"@
    ||| table == "equip_slot_info"@
    ||| table == "item_use_info"@
    ||| table == "breakable_object_info"@
    ||| table == "category_info"@
    ||| table == "drop_set_info"@
    ||| table == "region_info"@
    ||| table == "npc_info"@
    ||| table == "knowledge_info"@
    ||| table == "quest_info"@
    ||| table == "mission_info"@
    ||| table == "faction_info"@
    ||| table == "condition_info"@
    ||| table == "effect_info"@
    ||| table == "status_info"@
}

proof fn lemma_target_named(name: Seq<char>, i: int)
    requires
        0 <= i <= 28,
    ensures
        target_from(name, i) matches Some(t) ==> names_table(name, t),
    decreases 28 - i,
{
    if i < 28 {
        let (e, t) = field_targets()[i];
        if has_suffix(name, e) {
            assert(i == 0 || i == 1 || i == 2 || i == 3 || i == 4 || i == 5 || i == 6 || i == 7 || i == 8 || i == 9 || i == 10 || i == 11 || i == 12 || i == 13 || i == 14 || i == 15 || i == 16 || i == 17 || i == 18 || i == 19 || i == 20 || i == 21 || i == 22 || i == 23 || i == 24 || i == 25 || i == 26 || i == 27);
        } else {
            lemma_target_named(name, i + 1);
        }
    }
}

proof fn lemma_target_found(name: Seq<char>, i: int, j: int)
    requires
        0 <= i <= j < 28,
        has_suffix(name, field_targets()[j].0),
    ensures
        target_from(name, i) is Some,
    decreases j - i,
{
    if !has_suffix(name, field_targets()[i].0) {
        lemma_target_found(name, i + 1, j);
    }
}

/// A field refers to the table that its plain name names, and refers to one
/// exactly where its plain name has such an ending.
pub proof fn law_field_refers_to_the_table_it_names(field: &str, r: Option<&'static str>)
    requires
        call_ensures(target_for_field, (field,), r),
    ensures
        r is Some ==> names_table(plain_name(field@), r->Some_0@),
        r is Some <==> ends_like_a_reference(plain_name(field@)),
{
    let name = plain_name(field@);
    lemma_target_named(name, 0);
    if has_suffix(name, "equip_type_info"@) {
        lemma_target_found(name, 0, 0);
    }
    if has_suffix(name, "equip_slot_info"@) {
        lemma_target_found(name, 0, 1);
    }
    if has_suffix(name, "item_use_info"@) {
        lemma_target_found(name, 0, 2);
    }
    if has_suffix(name, "breakable_object_info"@) {
        lemma_target_found(name, 0, 3);
    }
    if has_suffix(name, "category_info"@) {
        lemma_target_found(name, 0, 4);
    }
    if has_suffix(name, "drop_set_info"@) {
        lemma_target_found(name, 0, 5);
    }
    if has_suffix(name, "gimmick_info_key"@) {
        lemma_target_found(name, 0, 6);
    }
    if has_suffix(name, "gimmick_info"@) {
        lemma_target_found(name, 0, 7);
    }
    if has_suffix(name, "region_info"@) {
        lemma_target_found(name, 0, 8);
    }
    if has_suffix(name, "local_string_info"@) {
        lemma_target_found(name, 0, 9);
    }
    if has_suffix(name, "string_key_hash"@) {
        lemma_target_found(name, 0, 10);
    }
    if has_suffix(name, "string_key"@) {
        lemma_target_found(name, 0, 11);
    }
    if has_suffix(name, "name_id"@) {
        lemma_target_found(name, 0, 12);
    }
    if has_suffix(name, "skill_key"@) {
        lemma_target_found(name, 0, 13);
    }
    if has_suffix(name, "skill"@) {
        lemma_target_found(name, 0, 14);
    }
    if has_suffix(name, "buff_key"@) {
        lemma_target_found(name, 0, 15);
    }
    if has_suffix(name, "buff"@) {
        lemma_target_found(name, 0, 16);
    }
    if has_suffix(name, "character_info_key"@) {
        lemma_target_found(name, 0, 17);
    }
    if has_suffix(name, "character_info"@) {
        lemma_target_found(name, 0, 18);
    }
    if has_suffix(name, "npc_info"@) {
        lemma_target_found(name, 0, 19);
    }
    if has_suffix(name, "knowledge_info"@) {
        lemma_target_found(name, 0, 20);
    }
    if has_suffix(name, "quest_info"@) {
        lemma_target_found(name, 0, 21);
    }
    if has_suffix(name, "mission_info"@) {
        lemma_target_found(name, 0, 22);
    }
    if has_suffix(name, "faction_info"@) {
        lemma_target_found(name, 0, 23);
    }
    if has_suffix(name, "condition_info"@) {
        lemma_target_found(name, 0, 24);
    }
    if has_suffix(name, "ai_action_attribute_info"@) {
        lemma_target_found(name, 0, 25);
    }
    if has_suffix(name, "effect_info"@) {
        lemma_target_found(name, 0, 26);
    }
    if has_suffix(name, "status_info"@) {
        lemma_target_found(name, 0, 27);
    }
}

/// A plain name has an ending by which fields refer to things.
pub open spec fn ends_like_a_reference(name: Seq<char>) -> bool {
    ||| has_suffix(name, "equip_type_info"@)
    ||| has_suffix(name, "equip_slot_info"@)
    ||| has_suffix(name, "item_use_info"@)
    ||| has_suffix(name, "breakable_object_info"@)
    ||| has_suffix(name, "category_info"@)
    ||| has_suffix(name, "drop_set_info"@)
    ||| has_suffix(name, "gimmick_info_key"@)
    ||| has_suffix(name, "gimmick_info"@)
    ||| has_suffix(name, "region_info"@)
    ||| has_suffix(name, "local_string_info"@)
    ||| has_suffix(name, "string_key_hash"@)
    ||| has_suffix(name, "string_key"@)
    ||| has_suffix(name, "name_id"@)
    ||| has_suffix(name, "skill_key"@)
    ||| has_suffix(name, "skill"@)
    ||| has_suffix(name, "buff_key"@)
    ||| has_suffix(name, "buff"@)
    ||| has_suffix(name, "character_info_key"@)
    ||| has_suffix(name, "character_info"@)
    ||| has_suffix(name, "npc_info"@)
    ||| has_suffix(name, "knowledge_info"@)
    ||| has_suffix(name, "quest_info"@)
    ||| has_suffix(name, "mission_info"@)
    ||| has_suffix(name, "faction_info"@)
    ||| has_suffix(name, "condition_info"@)
    ||| has_suffix(name, "ai_action_attribute_info"@)
    ||| has_suffix(name, "effect_info"@)
    ||| has_suffix(name, "status_info"@)
}

/// The number in a field of localized texts stands for the English text, with the
/// Korean one to unfold; for the Korean one where there is no English one; and
/// for the text of the catalog where there is neither.
pub proof fn law_number_stands_for_its_text(
    field: &str,
    value: i64,
    catalog: &Option<Catalog>,
    loc: &Option<Localization>,
    l: Localization,
    target: &'static str,
    r: Option<(String, Option<String>)>,
)
    requires
        call_ensures(target_for_field, (field,), Some(target)),
        target@ == "STRING"@,
        call_ensures(resolve_reference, (field, value, catalog, loc), r),
        *loc == Some(l),
    ensures
        value < 0 ==> r is None,
        value >= 0 && l.eng@.contains_key(value as u64) ==> r is Some && r->Some_0.0@
            == l.eng@[value as u64]@,
        value >= 0 && l.eng@.contains_key(value as u64) && l.kor@.contains_key(value as u64)
            ==> r->Some_0.1 is Some && r->Some_0.1->Some_0@ == "EN: "@ + l.eng@[value as u64]@
            + "\nKR: "@ + l.kor@[value as u64]@,
        value >= 0 && l.eng@.contains_key(value as u64) && !l.kor@.contains_key(value as u64)
            ==> r->Some_0.1 is None,
        value >= 0 && !l.eng@.contains_key(value as u64) && l.kor@.contains_key(value as u64)
            ==> r is Some && r->Some_0.0@ == l.kor@[value as u64]@,
        value >= 0 && !l.eng@.contains_key(value as u64) && !l.kor@.contains_key(value as u64)
            && r is Some ==> catalog is Some && value <= u32::MAX
            && catalog->Some_0.strings@.contains_key(value as u64) && r->Some_0.0@
            == catalog->Some_0.strings@[value as u64]@,
        0 <= value <= u32::MAX && !l.eng@.contains_key(value as u64) && !l.kor@.contains_key(
            value as u64,
        ) && catalog is Some && catalog->Some_0.strings@.contains_key(value as u64)
            && catalog->Some_0.strings@[value as u64]@.len() > 0 ==> r is Some,
{
}

/// The number in any other field that refers to something stands for the name
/// that the catalog has for it in the section of the table, and for nothing where
/// the catalog has none.
pub proof fn law_number_stands_for_its_name(
    field: &str,
    value: i64,
    catalog: &Option<Catalog>,
    loc: &Option<Localization>,
    c: Catalog,
    target: &'static str,
    r: Option<(String, Option<String>)>,
    a: int,
    b: int,
)
    requires
        call_ensures(target_for_field, (field,), Some(target)),
        target@ != "STRING"@,
        call_ensures(resolve_reference, (field, value, catalog, loc), r),
        *catalog == Some(c),
        0 <= a < c.dispatch_to_section@.len(),
        c.dispatch_to_section@[a].0@ == target@,
        forall|j: int| 0 <= j < a ==> (#[trigger] c.dispatch_to_section@[j]).0@ != target@,
        0 <= b < c.sections@.len(),
        c.sections@[b].0@ == c.dispatch_to_section@[a].1@,
        forall|j: int|
            0 <= j < b ==> (#[trigger] c.sections@[j]).0@ != c.dispatch_to_section@[a].1@,
    ensures
        r is Some <==> value >= 0 && c.sections@[b].1.names@.contains_key(value as u64),
        r is Some ==> r->Some_0.0@ == c.sections@[b].1.names@[value as u64]@,
{
    lemma_section_of(c.dispatch_to_section@, target@, a);
    lemma_section_named(c.sections@, c.dispatch_to_section@[a].1@, b);
}

/// A number in a field that refers to nothing stands for nothing; nor does one
/// without a catalog and texts.
pub proof fn law_other_numbers_stand_for_nothing(
    field: &str,
    value: i64,
    catalog: &Option<Catalog>,
    loc: &Option<Localization>,
    target: Option<&'static str>,
    r: Option<(String, Option<String>)>,
)
    requires
        call_ensures(target_for_field, (field,), target),
        call_ensures(resolve_reference, (field, value, catalog, loc), r),
    ensures
        target is None ==> r is None,
        catalog is None && loc is None ==> r is None,
        value < 0 ==> r is None,
{
}

/// A large number looks like a hash whatever its field is called; a small one
/// only where the name ends so.
pub proof fn law_large_numbers_look_like_hashes(field: &str, value: i64, unsigned: bool, r: bool)
    requires
        call_ensures(looks_like_hash, (field, value, unsigned), r),
    ensures
        value > 0x7FFF_FFFF ==> r,
        value < 0 && unsigned ==> r,
        has_suffix(plain_name(field@), "_hash"@) || has_suffix(plain_name(field@), "_key"@) ==> r,
        r && 0 <= value <= 0x7FFF_FFFF ==> has_suffix(plain_name(field@), "hash"@) || has_suffix(
            plain_name(field@),
            "key"@,
        ),
{
    reveal_strlit("_hash");
    reveal_strlit("_key");
    reveal_strlit("hash");
    reveal_strlit("key");
    reveal_strlit("_");
    let n = plain_name(field@);
    let m = "_"@ + n;
    if has_suffix(n, "_hash"@) {
        assert(m.skip(m.len() - 5) =~= n.skip(n.len() - 5));
        lemma_shorter_ending(n, "_hash"@, "hash"@);
    }
    if has_suffix(n, "_key"@) {
        assert(m.skip(m.len() - 4) =~= n.skip(n.len() - 4));
        lemma_shorter_ending(n, "_key"@, "key"@);
    }
    if has_suffix(m, "_hash"@) {
        lemma_shorter_ending(m, "_hash"@, "hash"@);
        assert(n.skip(n.len() - 4) =~= m.skip(m.len() - 4));
    }
    if has_suffix(m, "_key"@) {
        lemma_shorter_ending(m, "_key"@, "key"@);
        assert(n.skip(n.len() - 3) =~= m.skip(m.len() - 3));
    }
}

proof fn lemma_shorter_ending(s: Seq<char>, long: Seq<char>, short: Seq<char>)
    requires
        has_suffix(s, long),
        long.len() == short.len() + 1,
        long.skip(1) =~= short,
    ensures
        has_suffix(s, short),
{
    assert(s.skip(s.len() - short.len()) =~= s.skip(s.len() - long.len()).skip(1));
}

/// A value is edited by what it is: an integer as that integer, a truth value as
/// a switch, a text as text, a list and a group by how much they hold.
pub proof fn law_kind_of_a_field(name: &str, path: &str, v: &Json, blob: bool, k: FieldKind)
    requires
        call_ensures(field_kind, (name, path, v, blob), k),
    ensures
        match v@ {
            Tree::Null => k == FieldKind::Nothing,
            Tree::Bool(b) => k == FieldKind::Flag(b),
            Tree::Float(_) => k == FieldKind::Float,
            Tree::Int(n) => k is Integer && (n <= i64::MAX ==> k->Integer_value == n
                && !k->Integer_unsigned_origin) && (n > i64::MAX ==> k->Integer_value == n
                - 0x1_0000_0000_0000_0000 && k->Integer_unsigned_origin),
            Tree::Str(s) => (k is Blob || k is Text) && (has_suffix(path@, "blob_b64"@) ==> k is Blob)
                && (!has_sub(path@, "blob"@) && !has_suffix(path@, "blob_b64"@) ==> k is Text),
            Tree::Arr(a) => k is ColorList || k is List,
            Tree::Obj(e) => k is ColorGroup || k is Group,
        },
        v@ is Arr && v@->Arr_0.len() != 3 && v@->Arr_0.len() != 4 ==> k is List,
        k is List ==> v@ is Arr && k->List_0 == v@->Arr_0.len() as usize,
        k is Group ==> v@ is Obj && k->Group_0 == v@->Obj_0.len() as usize,
{
}

/// A list is a colour only where it has three or four numbers and nothing else.
pub proof fn law_colour_lists(name: &str, a: &[Json], r: bool, i: int)
    requires
        call_ensures(is_color_array, (name, a), r),
        r,
        0 <= i < a@.len(),
    ensures
        a@.len() == 3 || a@.len() == 4,
        a@[i]@ is Int || a@[i]@ is Float,
{
    assert(trees(a@)[i] == a@[i]@);
}

/// An edit that sets a value leaves that value at its path, notes the change under
/// the key of the entry, and puts into the history what stood there before and
/// what stands there now. Other entries stay.
pub proof fn law_edit_sets_its_value(
    tab: &mut ActiveTable,
    entry: usize,
    edit: &PendingEdit,
    now: u64,
    v: Json,
    other: int,
)
    requires
        call_ensures(apply_edit, (tab, entry, edit, now), ()),
        old(tab).wf(),
        entry < old(tab).entries@.len(),
        edit.value == Some(v),
        value_with(old(tab).entries@[entry as int]@, edit.path@, v@) is Some,
        0 <= other < old(tab).entries@.len(),
    ensures
        final(tab).entries@.len() == old(tab).entries@.len(),
        value_at(final(tab).entries@[entry as int]@, edit.path@) == Some(v@),
        other != entry ==> final(tab).entries@[other]@ == old(tab).entries@[other]@,
        final(tab).changes@.contains((old(tab).entry_keys@[entry as int], edit.path@)),
        final(tab).history.position == old(tab).history.position + 1,
        final(tab).history.edits().len() == final(tab).history.position,
        ({
            let e = final(tab).history.edits().last();
            &&& e.table == old(tab).dispatch_name@
            &&& e.entry_key == old(tab).entry_keys@[entry as int]
            &&& e.field_path == edit.path@
            &&& e.new_value == v@
            &&& e.old_value == match value_at(old(tab).entries@[entry as int]@, edit.path@) {
                Some(x) => x,
                None => Tree::Null,
            }
            &&& e.timestamp == now
        }),
        final(tab).vanilla == old(tab).vanilla,
        final(tab).entry_keys == old(tab).entry_keys,
{
    let t = old(tab).entries@[entry as int]@;
    let p = edit.path@;
    law_set_get(t, path_hops(p)->Some_0, v@);
    let (b, a) = (trees(old(tab).entries@), trees(final(tab).entries@));
    assert(a.len() == b.len());
    assert(a[entry as int] == final(tab).entries@[entry as int]@);
    assert(a[other] == final(tab).entries@[other]@);
    assert(b[other] == old(tab).entries@[other]@);
    let (c, key) = (old(tab).changes@, old(tab).entry_keys@[entry as int]);
    if !c.contains((key, p)) {
        assert(c.push((key, p))[c.len() as int] == (key, p));
    }
}

/// An edit that brings the shipped value back leaves that value at its path and
/// no change noted there.
pub proof fn law_edit_brings_the_shipped_value_back(
    tab: &mut ActiveTable,
    entry: usize,
    edit: &PendingEdit,
    now: u64,
    shipped: Tree,
)
    requires
        call_ensures(apply_edit, (tab, entry, edit, now), ()),
        old(tab).wf(),
        entry < old(tab).entries@.len(),
        edit.value is None,
        entry < old(tab).vanilla@.len(),
        value_at(old(tab).vanilla@[entry as int]@, edit.path@) == Some(shipped),
        value_with(old(tab).entries@[entry as int]@, edit.path@, shipped) is Some,
    ensures
        value_at(final(tab).entries@[entry as int]@, edit.path@) == Some(shipped),
        !final(tab).changes@.contains((old(tab).entry_keys@[entry as int], edit.path@)),
        final(tab).history.edits().last().new_value == shipped,
        final(tab).history.edits().last().field_path == edit.path@,
{
    let t = old(tab).entries@[entry as int]@;
    let p = edit.path@;
    law_set_get(t, path_hops(p)->Some_0, shipped);
    let (b, a) = (trees(old(tab).entries@), trees(final(tab).entries@));
    assert(a[entry as int] == final(tab).entries@[entry as int]@);
    let (c, key) = (old(tab).changes@, old(tab).entry_keys@[entry as int]);
    let keep = crate::state::other_pair(key, p);
    if c.filter(keep).contains((key, p)) {
        let i = choose|i: int| 0 <= i < c.filter(keep).len() && c.filter(keep)[i] == (key, p);
        c.lemma_filter_pred(keep, i);
    }
}

/// An entry that is brought back as a whole is as it was shipped, and none of its
/// fields is noted as changed; the changes of others stay.
pub proof fn law_reset_entry(
    state: &mut AppState,
    entry: usize,
    now: u64,
    tab: usize,
    path: Seq<char>,
    other: u64,
)
    requires
        call_ensures(reset_entry, (state, entry, now), ()),
        old(state).active_tab_idx == Some(tab),
        tab < old(state).open_tabs@.len(),
        old(state).open_tabs@[tab as int].wf(),
        entry < old(state).open_tabs@[tab as int].entries@.len(),
        entry < old(state).open_tabs@[tab as int].vanilla@.len(),
    ensures
        ({
            let b = old(state).open_tabs@[tab as int];
            let a = final(state).open_tabs@[tab as int];
            let key = b.entry_keys@[entry as int];
            &&& a.entries@[entry as int]@ == b.vanilla@[entry as int]@
            &&& !a.changes@.contains((key, path))
            &&& other != key && b.changes@.contains((other, path)) ==> a.changes@.contains(
                (other, path),
            )
            &&& a.history.edits().last().old_value == b.entries@[entry as int]@
            &&& a.history.edits().last().new_value == b.vanilla@[entry as int]@
        }),
{
    let b = old(state).open_tabs@[tab as int];
    let a = final(state).open_tabs@[tab as int];
    let key = b.entry_keys@[entry as int];
    assert(trees(a.entries@)[entry as int] == a.entries@[entry as int]@);
    let keep = crate::state::other_entry(key);
    let c = b.changes@;
    if c.filter(keep).contains((key, path)) {
        let i = choose|i: int| 0 <= i < c.filter(keep).len() && c.filter(keep)[i] == (key, path);
        c.lemma_filter_pred(keep, i);
    }
    if other != key && c.contains((other, path)) {
        let i = choose|i: int| 0 <= i < c.len() && c[i] == (other, path);
        c.lemma_filter_contains(keep, i);
    }
}

/// A change that is noted is there, one that is forgotten is not, and others stay.
pub proof fn law_changes_noted_and_forgotten(
    noted: &mut ChangeTracker,
    forgotten: &mut ChangeTracker,
    key: u64,
    path: String,
    text: &str,
    other: (u64, Seq<char>),
)
    requires
        call_ensures(ChangeTracker::record_change, (noted, key, path), ()),
        call_ensures(ChangeTracker::unrecord_field, (forgotten, key, text), ()),
        text@ == path@,
        other != (key, path@),
    ensures
        final(noted)@.contains((key, path@)),
        final(noted)@.contains(other) == old(noted)@.contains(other),
        !final(forgotten)@.contains((key, path@)),
        final(forgotten)@.contains(other) == old(forgotten)@.contains(other),
{
    let c = old(noted)@;
    let n = final(noted)@;
    if !c.contains((key, path@)) {
        assert(n[n.len() - 1] == (key, path@));
        if c.contains(other) {
            let i = choose|i: int| 0 <= i < c.len() && c[i] == other;
            assert(n[i] == other);
        }
        if n.contains(other) {
            let i = choose|i: int| 0 <= i < n.len() && n[i] == other;
            assert(c[i] == other);
        }
    }
    let keep = crate::state::other_pair(key, path@);
    let d = old(forgotten)@;
    let f = d.filter(keep);
    if f.contains((key, path@)) {
        let i = choose|i: int| 0 <= i < f.len() && f[i] == (key, path@);
        d.lemma_filter_pred(keep, i);
    }
    if d.contains(other) {
        let i = choose|i: int| 0 <= i < d.len() && d[i] == other;
        d.lemma_filter_contains(keep, i);
    }
    if f.contains(other) {
        d.lemma_filter_contains_rev(keep, other);
    }
}

/// The text under `name` of a row of the catalog.
pub open spec fn row_has_name(e: CatalogEntry, name: Seq<char>) -> bool {
    tree_get(e.value@, "name"@) == Some(Tree::Str(name))
}

/// The rows that are offered for a search text have it in their name or their
/// key; a row with a number whose name has it is offered; and of two that are
/// offered the one whose name comes first is offered first.
pub proof fn law_offered_rows(
    entries: &Vec<CatalogEntry>,
    query: &str,
    rows: Vec<usize>,
    p: int,
    q: int,
    i: int,
    name: Seq<char>,
    other: Seq<char>,
)
    requires
        call_ensures(dropdown_rows, (entries, query), rows),
        0 <= p < q < rows@.len(),
    ensures
        rows@[p] < entries@.len(),
        row_has_name(entries@[rows@[p] as int], name) ==> has_sub(
            lowercase(name),
            lowercase(trimmed(query@)),
        ) || has_sub(entries@[rows@[p] as int].key_text@, lowercase(trimmed(query@))) || lowercase(
            trimmed(query@),
        ).len() == 0,
        row_has_name(entries@[rows@[p] as int], name) && row_has_name(
            entries@[rows@[q] as int],
            other,
        ) ==> !text_before(other, name),
        0 <= i < entries@.len() && row_has_name(entries@[i], name) && has_sub(
            lowercase(name),
            lowercase(trimmed(query@)),
        ) && crate::digits::parsed(entries@[i].key_text@, 10, u64::MAX as nat) is Some
            ==> rows@.contains(i as usize),
        rows@[p] != rows@[q],
{
    assert(crate::ui::field_panel::offered_before(entries@, rows@[p], rows@[q]));
    crate::text::law_text_order(name, other, name);
    assert(rows@[q] < entries@.len());
    let x = crate::ui::field_panel::row_name(entries@[rows@[p] as int]);
    crate::text::law_text_order(x, x, x);
    if 0 <= i < entries@.len() && row_has_name(entries@[i], name) && has_sub(
        lowercase(name),
        lowercase(trimmed(query@)),
    ) && crate::digits::parsed(entries@[i].key_text@, 10, u64::MAX as nat) is Some {
        assert(crate::ui::field_panel::row_offered(entries@[i], query@));
    }
}

/// A note that is put on an entry is read back from it; the notes of others stay.
pub proof fn law_note_is_read_back(
    state: &mut AppState,
    table: &str,
    key: u64,
    text: String,
    after: &AppState,
    r: String,
)
    requires
        call_ensures(set_entry_note, (state, table, key, text), ()),
        *after == *final(state),
        call_ensures(entry_note, (after, table, key), r),
    ensures
        r@ == text@,
        final(state).open_tabs == old(state).open_tabs,
{
}

} // verus!
