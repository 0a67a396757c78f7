//! Laws of single steps: finding an entry by the names it is known by, reading
//! numbers out of fields, pages of bytes, and what is reported of files.

use std::collections::HashMap;
use vstd::prelude::*;
use crate::ui::hex_view::{
    offset_input, on_a_page, page_count, page_label, page_text, printable_label, range_label,
    selection_label, type_offset, HexViewState,
};
use crate::ui::history_panel::{edit_age, format_relative};
use crate::state::{
    lemma_tab_named, ActiveTable, AppState, Catalog, CatalogEntry, ChangeTracker, EditOp, Level,
    Section, Toasts,
};
use crate::ui::field_panel::{
    bit_label, bits_header, dropdown_label, dropdown_section, hex_input, ones, parse_hex_or_dec,
    picked_number, set_field, typed_key,
};
use crate::byte_patch::{parse_byte_input, preview_bytes};
use crate::hexdump::format_hex_rows;
use crate::digits::{dec, digits, hex_pad, parse_bare};
use crate::json::{tree_get, Json, Tree};
use crate::laws::mods::lemma_profile;
use crate::laws::lookup::{lemma_section_named, lemma_section_of};
use crate::paz_file::{
    dir_or_warn, loaded_line, more_line, place_text, report_deploy, report_load_failed,
    report_loaded, report_restore, report_scan, FileSource, LoadError, PazEntry,
};
use crate::text::{find, has_sub, lower_contains, lowercase, occurs_at, trimmed, views};
use crate::ui::archive_panel::{checksum_text, leave_hex, ArchiveMode, ArchiveSession};
use crate::ui::entry_table::{entry_matches_with_lookup, walk_localized_match};
use crate::ui::library_panel::{profile_named, ProfileStore};
use crate::ui::metadata_dialog::{law_joined_names_are_listed, listable, MetadataDialog};
use crate::ui::wizards_panel::{wizard_by_name, wizard_named, WizardInfo};

verus! {

broadcast use {vstd::seq_lib::group_seq_properties, vstd::std_specs::hash::group_hash_axioms};

/// An entry is found by its key, by the name that the key is listed under, and by
/// the English or the Korean text of a number in it.
pub proof fn law_entry_is_found_by_its_names(
    entry: &Json,
    f: &str,
    number: Option<u64>,
    names: &HashMap<u64, String>,
    eng: &HashMap<u64, String>,
    kor: &HashMap<u64, String>,
    r: bool,
    key: u64,
    i: int,
)
    requires
        call_ensures(
            entry_matches_with_lookup,
            (entry, f, number, names, Some(eng), Some(kor)),
            r,
        ),
    ensures
        tree_get(entry@, "key"@) == Some(Tree::Int(key as int)) && number == Some(key) ==> r,
        tree_get(entry@, "key"@) == Some(Tree::Int(key as int)) && names@.contains_key(key)
            && has_sub(lowercase(names@[key]@), f@) ==> r,
        entry@ is Obj && 0 <= i < entry@->Obj_0.len() && entry@->Obj_0[i].1 == Tree::Int(key as int)
            && eng@.contains_key(key) && eng@[key]@.len() > 0 && has_sub(lowercase(eng@[key]@), f@)
            ==> r,
        entry@ is Obj && 0 <= i < entry@->Obj_0.len() && entry@->Obj_0[i].1 == Tree::Int(key as int)
            && kor@.contains_key(key) && kor@[key]@.len() > 0 && has_sub(lowercase(kor@[key]@), f@)
            ==> r,
        entry@ is Null || entry@ is Bool ==> !r,
{
    reveal_with_fuel(crate::ui::entry_table::localized_match, 2);
    reveal_with_fuel(crate::ui::entry_table::strings_match, 2);
    if entry@ is Obj && 0 <= i < entry@->Obj_0.len() && entry@->Obj_0[i].1 == Tree::Int(key as int)
    {
        let hit = crate::ui::entry_table::localized_match(
            entry@->Obj_0[i].1,
            f@,
            Some(eng@),
            Some(kor@),
            1,
        );
        if hit {
            assert(crate::ui::entry_table::localized_match(
                entry@->Obj_0[i].1,
                f@,
                Some(eng@),
                Some(kor@),
                0 + 1,
            ));
        }
    }
}

/// A number is found by its English text and by its Korean text, each where it is
/// there and not empty; without texts nothing is.
pub proof fn law_number_is_found_by_its_texts(
    v: &Json,
    f: &str,
    eng: Option<&HashMap<u64, String>>,
    kor: Option<&HashMap<u64, String>>,
    r: bool,
    n: u64,
)
    requires
        call_ensures(walk_localized_match, (v, f, eng, kor, 0), r),
    ensures
        v@ == Tree::Int(n as int) ==> (r <==> (eng is Some && eng->Some_0@.contains_key(n)
            && eng->Some_0@[n]@.len() > 0 && has_sub(lowercase(eng->Some_0@[n]@), f@)) || (
        kor is Some && kor->Some_0@.contains_key(n) && kor->Some_0@[n]@.len() > 0 && has_sub(
            lowercase(kor->Some_0@[n]@),
            f@,
        ))),
        v@ is Str || v@ is Float || v@ is Bool || v@ is Null ==> !r,
        v@ is Int && !(0 <= v@->Int_0 <= u64::MAX) ==> !r,
{
}

/// A number that is typed is read in either notation; what the field shows reads
/// back as the number that it shows.
pub proof fn law_typed_number(input: &str, r: Option<i64>, v: i64, shown: String)
    requires
        call_ensures(typed_key, (input,), r),
        call_ensures(hex_input, (v,), shown),
        input@ == dec(v as nat),
        v >= 0,
    ensures
        r == Some(v),
        shown@ == "0x"@ + digits(v as nat, 16, true),
{
    lemma_typed_decimal(v as nat);
}

proof fn lemma_typed_decimal(n: nat)
    requires
        n <= u64::MAX,
    ensures
        crate::ui::field_panel::typed_number(dec(n)) == Some(n),
{
    let d = dec(n);
    crate::digits::law_print_parse(n, 10, false, u64::MAX as nat);
    lemma_decimal_digits(n);
    reveal_strlit("0x");
    assert(trimmed(d) == d) by {
        assert(!crate::text::is_white(d[0]));
        assert(!crate::text::is_white(d.last()));
        assert(crate::text::trimmed_start(d) == d);
        assert(crate::text::trimmed_end(d) == d);
    }
    assert(crate::text::ascii_lowered(d) =~= d);
    if crate::text::has_prefix(d, "0x"@) {
        assert(d.take(2)[1] == 'x');
        assert(d[1] == 'x');
    }
}

proof fn lemma_decimal_digits(n: nat)
    ensures
        digits(n, 10, false).len() > 0,
        forall|i: int|
            0 <= i < digits(n, 10, false).len() ==> '0' <= #[trigger] digits(n, 10, false)[i]
                <= '9',
    decreases n,
{
    if n >= 10 {
        lemma_decimal_digits(n / 10);
    }
}

/// The bits that are on are counted, out of so many; each bit has its number.
pub proof fn law_bits_are_counted(v: i64, width: u32, r: String, b: u32, l: String)
    requires
        call_ensures(bits_header, (v, width), r),
        call_ensures(bit_label, (b,), l),
    ensures
        v == 0 ==> r@ == "Bits ("@ + dec(0) + " of "@ + dec(width as nat) + ")"@,
        b < 10 ==> l@ == "B0"@ + dec(b as nat),
        b >= 10 ==> l@ == "B"@ + dec(b as nat),
{
    if v == 0 {
        lemma_no_bits(64);
    }
}

proof fn lemma_no_bits(n: nat)
    requires
        n <= 64,
    ensures
        ones(0, n) == 0,
    decreases n,
{
    if n > 0 {
        lemma_no_bits((n - 1) as nat);
        let b = (n - 1) as u64;
        assert((0u64 >> b) & 1 == 0) by (bit_vector);
    }
}

/// A row of the catalog is offered by its name and its key, and stands for the number
/// of the key.
pub proof fn law_row_of_the_catalog(e: &CatalogEntry, l: String, r: Option<i64>, n: nat)
    requires
        call_ensures(dropdown_label, (e,), l),
        call_ensures(picked_number, (e,), r),
    ensures
        tree_get(e.value@, "name"@) matches Some(Tree::Str(s)) && s.len() > 0 ==> l@
            == tree_get(e.value@, "name"@)->Some_0->Str_0 + " ["@ + e.key_text@ + "]"@,
        tree_get(e.value@, "name"@) is None ==> l@ == "(unnamed)"@ + " ["@ + e.key_text@ + "]"@,
        n <= i64::MAX && e.key_text@ == dec(n) ==> r == Some(n as i64),
{
    if n <= i64::MAX && e.key_text@ == dec(n) {
        crate::digits::law_print_parse(n, 10, false, u64::MAX as nat);
    }
}

/// The rows that are offered are those of the section of the table; a table without
/// one, or whose section is not there, offers none and says so.
pub proof fn law_section_of_the_rows(
    catalog: &Catalog,
    table: &str,
    r: Result<&Section, String>,
    i: int,
    j: int,
)
    requires
        call_ensures(dropdown_section, (catalog, table), r),
        0 <= i < catalog.dispatch_to_section@.len(),
        catalog.dispatch_to_section@[i].0@ == table@,
        forall|k: int|
            0 <= k < i ==> (#[trigger] catalog.dispatch_to_section@[k]).0@ != table@,
        0 <= j < catalog.sections@.len(),
        catalog.sections@[j].0@ == catalog.dispatch_to_section@[i].1@,
        forall|k: int|
            0 <= k < j ==> (#[trigger] catalog.sections@[k]).0@
                != catalog.dispatch_to_section@[i].1@,
    ensures
        r is Ok,
        *r->Ok_0 == catalog.sections@[j].1,
{
    lemma_section_of(catalog.dispatch_to_section@, table@, i);
    lemma_section_named(catalog.sections@, catalog.dispatch_to_section@[i].1@, j);
}

/// A field that is set has its value then; the change is noted or forgotten as was
/// asked for.
pub proof fn law_field_is_set(
    tab: &mut ActiveTable,
    entry: usize,
    path: &String,
    value: &Json,
    note: bool,
    now: u64,
    r: bool,
)
    requires
        old(tab).wf(),
        entry < old(tab).entries@.len(),
        call_ensures(set_field, (tab, entry, path, value, note, now), r),
    ensures
        r ==> crate::edit_path::value_at(final(tab).entries@[entry as int]@, path@) == Some(value@),
        r && note ==> final(tab).changes@.contains((old(tab).entry_keys@[entry as int], path@)),
        r && !note ==> !final(tab).changes@.contains(
            (old(tab).entry_keys@[entry as int], path@),
        ),
        !r ==> *final(tab) == *old(tab),
{
    let t = old(tab).entries@[entry as int]@;
    let (c, key, p) = (old(tab).changes@, old(tab).entry_keys@[entry as int], path@);
    if r {
        crate::edit_path::law_set_get(t, crate::edit_path::path_hops(p)->Some_0, value@);
        assert(crate::json::trees(final(tab).entries@)[entry as int] == final(
            tab).entries@[entry as int]@);
        if note {
            if !c.contains((key, p)) {
                assert(c.push((key, p))[c.len() as int] == (key, p));
            }
        } else {
            let keep = crate::state::other_pair(key, p);
            if c.filter(keep).contains((key, p)) {
                let k = choose|k: int| 0 <= k < c.filter(keep).len() && c.filter(keep)[k] == (key, p);
                c.lemma_filter_pred(keep, k);
            }
        }
    }
}

/// An entry is changed exactly where a change of it is noted, and after it is
/// forgotten it is not; other entries stay as they were.
pub proof fn law_entry_is_forgotten(
    c: &mut ChangeTracker,
    key: u64,
    other: u64,
    path: Seq<char>,
    now: bool,
    was: bool,
)
    requires
        call_ensures(ChangeTracker::unrecord_entry, (c, key), ()),
        call_ensures(ChangeTracker::is_entry_modified, (final(c), key), now),
        call_ensures(ChangeTracker::is_entry_modified, (old(c), key), was),
        other != key,
    ensures
        !now,
        old(c)@.contains((key, path)) ==> was,
        final(c)@.contains((other, path)) == old(c)@.contains((other, path)),
{
    let keep = crate::state::other_entry(key);
    let (b, a) = (old(c)@, final(c)@);
    if now {
        let i = choose|i: int| 0 <= i < a.len() && (#[trigger] a[i]).0 == key;
        b.lemma_filter_pred(keep, i);
    }
    if b.contains((key, path)) {
        let i = choose|i: int| 0 <= i < b.len() && b[i] == (key, path);
        assert(b[i].0 == key);
    }
    if b.contains((other, path)) {
        let i = choose|i: int| 0 <= i < b.len() && b[i] == (other, path);
        b.lemma_filter_contains(keep, i);
    }
    if a.contains((other, path)) {
        b.lemma_filter_contains_rev(keep, (other, path));
    }
}

/// A table that is open comes into focus by its name: its first tab.
pub proof fn law_tab_comes_into_focus(state: &mut AppState, name: &str, r: Option<usize>, i: int)
    requires
        call_ensures(AppState::open_or_focus_tab, (state, name), r),
    ensures
        r is Some ==> final(state).active_tab_idx == r && r->Some_0 < old(state).open_tabs@.len()
            && old(state).open_tabs@[r->Some_0 as int].dispatch_name@ == name@,
        r is None ==> *final(state) == *old(state),
        0 <= i < old(state).open_tabs@.len() && old(state).open_tabs@[i].dispatch_name@ == name@
            ==> r is Some && r->Some_0 <= i,
        final(state).open_tabs == old(state).open_tabs,
{
    lemma_tab_named(old(state).open_tabs@, name@);
}

/// The flow with a name is the first that has it.
pub proof fn law_flow_by_name(v: &Vec<WizardInfo>, name: &str, r: Option<usize>, i: int)
    requires
        call_ensures(wizard_by_name, (v, name), r),
    ensures
        r is Some ==> v@[r->Some_0 as int].name@ == name@,
        0 <= i < v@.len() && v@[i].name@ == name@ ==> r is Some && r->Some_0 <= i,
{
    lemma_flow(v@, name@, i);
}

proof fn lemma_flow(v: Seq<WizardInfo>, name: Seq<char>, i: int)
    ensures
        wizard_named(v, name) is Some ==> 0 <= wizard_named(v, name)->Some_0 < v.len() && v[wizard_named(
            v,
            name,
        )->Some_0].name@ == name,
        0 <= i < v.len() && v[i].name@ == name ==> wizard_named(v, name) is Some && wizard_named(
            v,
            name,
        )->Some_0 <= i,
    decreases v.len(),
{
    if v.len() > 0 && v[0].name@ != name {
        lemma_flow(v.drop_first(), name, i - 1);
    }
}

/// A profile is renamed where it is there and its new name is free or its own.
pub proof fn law_store_renames(store: &mut ProfileStore, from: &str, to: &str, r: bool, i: int, j: int)
    requires
        call_ensures(ProfileStore::rename, (store, from, to), r),
        0 <= i < old(store)@.profiles.len(),
        old(store)@.profiles[i].name == from@,
        forall|k: int| 0 <= k < i ==> (#[trigger] old(store)@.profiles[k]).name != from@,
        0 <= j < old(store)@.profiles.len(),
    ensures
        old(store)@.profiles[j].name == to@ && from@ != to@ ==> !r,
        (forall|k: int|
            0 <= k < old(store)@.profiles.len() ==> (#[trigger] old(store)@.profiles[k]).name
                != to@) ==> r,
        r ==> final(store)@.profiles[i].name == to@ && final(store)@.profiles[i].mods == old(
            store)@.profiles[i].mods,
        r && j != i ==> final(store)@.profiles[j] == old(store)@.profiles[j],
        !r ==> *final(store) == *old(store),
{
    lemma_profile(old(store)@.profiles, from@);
    lemma_profile(old(store)@.profiles, to@);
    let k = profile_named(old(store)@.profiles, from@)->Some_0;
    if k < i {
        assert(old(store)@.profiles[k].name != from@);
    } else if i < k {
        assert(old(store)@.profiles[i].name != from@);
    }
}

/// A page is named by its number from one on, and by the offsets of its first and
/// its last byte.
pub proof fn law_names_of_a_page(s: &HexViewState, n: usize, l: String, r: String)
    requires
        on_a_page(*s, n as nat),
        s.bytes_per_page > 0,
        call_ensures(page_label, (s, n), l),
        call_ensures(range_label, (s, n), r),
    ensures
        l@ == "Page "@ + dec((s.page + 1) as nat) + "/"@ + dec(
            page_count(n as nat, s.bytes_per_page as nat),
        ) + " — "@ + dec(n as nat) + " bytes total"@,
        s.page == 0 && n <= s.bytes_per_page ==> r@ == "Range 0x"@ + hex_pad(0, 8, true)
            + " – 0x"@ + hex_pad((n - 1) as nat, 8, true),
{
    if s.page == 0 {
        assert(s.page * s.bytes_per_page == 0) by (nonlinear_arith)
            requires
                s.page == 0,
        ;
        if n == 0 {
            vstd::arithmetic::div_mod::lemma_fundamental_div_mod(0, s.bytes_per_page as int);
            assert(0int / (s.bytes_per_page as int) == 0) by (nonlinear_arith)
                requires
                    s.bytes_per_page > 0,
            ;
            assert(0int % (s.bytes_per_page as int) == 0) by (nonlinear_arith)
                requires
                    s.bytes_per_page > 0,
            ;
        }
    }
}

/// The selected byte is told by its offset and its value in hexadecimal and in
/// decimal; nothing is told where none is selected or it is past the end.
pub proof fn law_selected_byte(bytes: &[u8], s: &HexViewState, r: Option<String>, o: usize, i: String)
    requires
        call_ensures(selection_label, (bytes, s), r),
        call_ensures(offset_input, (s,), i),
    ensures
        s.selected_offset is None ==> r is None && i@.len() == 0,
        s.selected_offset == Some(o) ==> (r is Some <==> o < bytes@.len()) && i@ == digits(
            o as nat,
            16,
            true,
        ),
        s.selected_offset == Some(o) && o < bytes@.len() ==> crate::text::has_prefix(
            r->Some_0@,
            "Selected offset 0x"@ + hex_pad(o as nat, 8, true) + " ("@ + dec(o as nat)
                + "): byte = 0x"@ + hex_pad(bytes@[o as int] as nat, 2, true) + " ("@,
        ),
{
    if s.selected_offset == Some(o) && o < bytes@.len() {
        let p = "Selected offset 0x"@ + hex_pad(o as nat, 8, true) + " ("@ + dec(o as nat)
            + "): byte = 0x"@ + hex_pad(bytes@[o as int] as nat, 2, true) + " ("@;
        assert(r->Some_0@.take(p.len() as int) =~= p);
    }
}

/// A printable byte is shown between quotes, any other as a dot.
pub proof fn law_quoted_byte(b: u8, r: String)
    requires
        call_ensures(printable_label, (b,), r),
    ensures
        0x20 <= b <= 0x7E ==> r@.len() == 3 && r@[0] == '\'' && r@[1] as u32 == b && r@[2] == '\'',
        !(0x20 <= b <= 0x7E) ==> r@.len() == 1 && r@[0] == '.',
{
}

/// Some bytes are previewed between quotes: printable ones as themselves.
pub proof fn law_previewed_bytes(b: &[u8], max: usize, r: String)
    requires
        call_ensures(preview_bytes, (b, max), r),
    ensures
        b@.len() == 0 ==> r@.len() == 2,
        b@.len() == 1 && max >= 1 && 0x23 <= b@[0] <= 0x5B ==> r@.len() == 3 && r@[1] as u32
            == b@[0],
        b@.len() > max ==> crate::text::has_suffix(r@, "..."@),
        r@.len() > 0 && r@[0] == '"',
{
    reveal_strlit("\"");
    reveal_strlit("...");
    reveal_strlit("");
    reveal_with_fuel(crate::byte_patch::preview_upto, 2);
    if b@.len() > max {
        assert(r@.skip(r@.len() - 3) =~= "..."@);
    }
}

/// A checksum is shown in eight hexadecimal digits.
pub proof fn law_shown_checksum(c: Option<u32>, r: String)
    requires
        call_ensures(checksum_text, (c,), r),
    ensures
        c is Some ==> r@ == "0x"@ + hex_pad(c->Some_0 as nat, 8, false),
        c is None ==> r@ == "—"@,
{
}

/// The bytes of a file are left for the group that it is in.
pub proof fn law_bytes_are_left(s: &mut ArchiveSession, group: &String)
    requires
        call_ensures(leave_hex, (s, group), ()),
    ensures
        final(s).mode == ArchiveMode::Detail(*group),
        final(s).hex_bytes@.len() == 0,
        final(s).hex_label@.len() == 0,
        final(s).detail == old(s).detail,
{
}

/// The names that were typed with commas between are the dependencies.
pub proof fn law_dependencies(d: &mut MetadataDialog, names: Seq<Seq<char>>)
    requires
        call_ensures(MetadataDialog::commit_dependencies, (d,), ()),
        forall|i: int| 0 <= i < names.len() ==> listable(#[trigger] names[i]),
        old(d).dependencies_input@ == crate::text::joined(names, ","@) || old(
            d).dependencies_input@ == crate::text::joined(names, " , "@),
    ensures
        views(final(d).metadata.dependencies@) == names,
        final(d).metadata.name == old(d).metadata.name,
        final(d).open == old(d).open,
{
    law_joined_names_are_listed(names);
}

/// A place in a text is the first at which what is looked for stands.
pub proof fn law_first_place(h: &Vec<char>, n: &Vec<char>, r: Option<usize>, i: int)
    requires
        call_ensures(find, (h, n), r),
    ensures
        r is Some ==> r->Some_0 + n@.len() <= h@.len() && h@.subrange(
            r->Some_0 as int,
            r->Some_0 + n@.len(),
        ) == n@,
        0 <= i && i + n@.len() <= h@.len() && h@.subrange(i, i + n@.len()) == n@ ==> r is Some
            && r->Some_0 <= i,
{
    if 0 <= i && i + n@.len() <= h@.len() && h@.subrange(i, i + n@.len()) == n@ {
        assert(occurs_at(h@, n@, i));
    }
}

/// A text is searched in lowercase.
pub proof fn law_search_in_lowercase(h: &str, n: &str, r: bool, i: int)
    requires
        call_ensures(lower_contains, (h, n), r),
    ensures
        0 <= i && i + n@.len() <= lowercase(h@).len() && lowercase(h@).subrange(i, i + n@.len())
            == n@ ==> r,
        r ==> exists|k: int|
            0 <= k && k + n@.len() <= lowercase(h@).len() && #[trigger] lowercase(h@).subrange(
                k,
                k + n@.len(),
            ) == n@,
{
    if 0 <= i && i + n@.len() <= lowercase(h@).len() && lowercase(h@).subrange(i, i + n@.len())
        == n@ {
        assert(occurs_at(lowercase(h@), n@, i));
    }
    if r {
        let k = choose|k: int| occurs_at(lowercase(h@), n@, k);
        assert(lowercase(h@).subrange(k, k + n@.len()) == n@);
    }
}

/// A number without a sign is read; one with a plus is not.
pub proof fn law_bare_numbers(s: &str, r: Option<u64>, n: nat)
    requires
        call_ensures(parse_bare, (s, 10, u64::MAX), r),
    ensures
        s@.len() > 0 && s@[0] == '+' ==> r is None,
        s@.len() == 0 ==> r is None,
        n <= u64::MAX && s@ == dec(n) ==> r == Some(n as u64),
{
    if n <= u64::MAX && s@ == dec(n) {
        crate::digits::law_print_parse(n, 10, false, u64::MAX as nat);
        lemma_decimal_digits(n);
        assert('0' <= s@[0] <= '9');
    }
}

/// A member of a document is read by its name, and a number as far as it fits.
pub proof fn law_members_and_numbers(
    j: &Json,
    name: &str,
    m: Option<&Json>,
    u: Option<u64>,
    i: Option<i64>,
)
    requires
        call_ensures(Json::get, (j, name), m),
        call_ensures(Json::as_u64, (j,), u),
        call_ensures(Json::as_i64, (j,), i),
    ensures
        m is Some <==> tree_get(j@, name@) is Some,
        m is Some ==> tree_get(j@, name@) == Some(m->Some_0@),
        u is Some <==> j@ is Int && 0 <= j@->Int_0 <= u64::MAX,
        u is Some ==> j@->Int_0 == u->Some_0,
        i is Some <==> j@ is Int && i64::MIN <= j@->Int_0 <= i64::MAX,
        i is Some ==> j@->Int_0 == i->Some_0,
{
}

/// A file of the archives is shown by its group, its directory and its name.
pub proof fn law_place_of_a_file(e: &PazEntry, p: String, l: String)
    requires
        call_ensures(place_text, (e,), p),
        call_ensures(loaded_line, (e,), l),
    ensures
        p@ == "["@ + e.group@ + "] "@ + e.dir_path@ + "/"@ + e.filename@,
        l@ == "Loaded: "@ + p@,
{
}

/// Of many files so many are listed, and the rest is counted.
pub proof fn law_files_that_are_not_listed(n: usize, r: Option<String>)
    requires
        call_ensures(more_line, (n,), r),
    ensures
        n <= 500 ==> r is None,
        n > 500 ==> r is Some && r->Some_0@ == "... "@ + dec((n - 500) as nat)
            + " more (use the filter)"@,
{
}

/// The files that were found are kept, and their number is said; where the search
/// failed, those before are.
pub proof fn law_found_files(
    toasts: &mut Toasts,
    files: &mut Option<Vec<PazEntry>>,
    ext: &str,
    found: Option<Result<Vec<PazEntry>, String>>,
)
    requires
        call_ensures(report_scan, (toasts, files, ext, found), ()),
    ensures
        found matches Some(Ok(v)) ==> *final(files) == Some(v) && final(toasts)@.last().level
            == Level::Info && final(toasts)@.last().message == "Found "@ + dec(v@.len()) + " "@
            + ext@ + " file(s) in PAZ."@,
        found matches Some(Err(e)) ==> *final(files) == *old(files) && final(
            toasts)@.last().details == Some(e@),
        found is None ==> *final(files) == *old(files) && final(toasts)@.last().level == Level::Warn,
{
}

/// What came of loading a file is said: its name, or which step failed and why.
pub proof fn law_loading_is_reported(
    toasts: &mut Toasts,
    kind: &str,
    src: &FileSource,
    e: &LoadError,
    ok: bool,
)
    requires
        ok ==> call_ensures(report_loaded, (toasts, src), ()),
        !ok ==> call_ensures(report_load_failed, (toasts, kind, src, e), ()),
    ensures
        ok ==> final(toasts)@.last().level == Level::Info,
        ok && src is Archive ==> final(toasts)@.last().message == "Loaded "@
            + src->Archive_0.filename@ + " from PAZ"@,
        ok && src is Disk ==> final(toasts)@.last().message == "Loaded "@ + src->Disk_0@,
        !ok ==> final(toasts)@.last().level == Level::Error,
        !ok && e is Read ==> final(toasts)@.last().message == kind@ + " read failed"@,
        !ok && e is Parse ==> final(toasts)@.last().message == kind@ + " parse failed"@,
        !ok && e is Read && src is Disk ==> final(toasts)@.last().details == Some(
            e->Read_0@ + ("\nFile: "@ + src->Disk_0@),
        ),
        final(toasts)@.len() == old(toasts)@.len() + 1,
{
}

/// What came of a deploy and of a removal is said, with the group.
pub proof fn law_deploys_and_removals_are_reported(
    toasts: &mut Toasts,
    kind: &str,
    file: &str,
    group: &str,
    result: &Result<(), String>,
    deploy: bool,
)
    requires
        deploy ==> call_ensures(report_deploy, (toasts, kind, file, group, result), ()),
        !deploy ==> call_ensures(report_restore, (toasts, kind, group, result), ()),
    ensures
        deploy && result is Ok ==> final(toasts)@.last().message == "Deployed "@ + file@
            + " as overlay group "@ + group@,
        !deploy && result is Ok ==> final(toasts)@.last().message == "Removed "@ + kind@
            + " overlay group "@ + group@,
        result is Ok ==> final(toasts)@.last().level == Level::Info,
        result is Err ==> final(toasts)@.last().level == Level::Error,
        deploy && result is Err ==> final(toasts)@.last().details == Some(
            result->Err_0@ + "\nGroup: "@ + group@ + "\nFile: "@ + file@,
        ),
{
}

/// The game directory is handed out, or a word is said in its place.
pub proof fn law_directory_or_word(state: &mut AppState, message: &str, r: Option<String>)
    requires
        call_ensures(dir_or_warn, (state, message), r),
    ensures
        r == old(state).game_dir,
        r is None ==> final(state).toasts@.last().message == message@ && final(
            state).toasts@.last().level == Level::Warn,
        r is Some ==> final(state).toasts == old(state).toasts,
{
}

/// An offset at or past the end is not gone to.
pub proof fn law_offset_past_the_end(s: &mut HexViewState, input: &str, n: usize)
    requires
        old(s).bytes_per_page > 0,
        call_ensures(type_offset, (s, input, n), ()),
    ensures
        final(s).selected_offset is Some ==> final(s).selected_offset->Some_0 < n || *final(s)
            == *old(s),
        final(s).bytes_per_page == old(s).bytes_per_page,
        trimmed(input@).len() == 0 ==> final(s).selected_offset is None && final(s).page == old(
            s).page,
{
    reveal_strlit("0x");
    if trimmed(input@).len() == 0 {
        assert(trimmed(input@) =~= Seq::<char>::empty());
        assert(crate::text::stripped(trimmed(input@), "0x"@) =~= Seq::<char>::empty());
    }
}

/// The bytes of a page are shown in their rows, each on a line of its own.
pub proof fn law_lines_of_a_page(
    bytes: &[u8],
    s: &HexViewState,
    r: String,
    page: &[u8],
    start: usize,
    rows: Vec<String>,
)
    requires
        on_a_page(*s, bytes@.len()),
        call_ensures(page_text, (bytes, s), r),
        start == s.page * s.bytes_per_page,
        page@ == bytes@.subrange(
            start as int,
            if start + s.bytes_per_page <= bytes@.len() {
                start + s.bytes_per_page
            } else {
                bytes@.len() as int
            },
        ),
        start + page@.len() <= usize::MAX,
        call_ensures(format_hex_rows, (page, start), rows),
    ensures
        rows@.len() == 0 ==> r@.len() == 0,
        rows@.len() == 1 ==> r@ == rows@[0]@ + "\n"@,
        rows@.len() == 2 ==> r@ == rows@[0]@ + "\n"@ + rows@[1]@ + "\n"@,
{
    reveal_with_fuel(crate::ui::hex_view::lines_of, 3);
    let v = views(rows@);
    assert(v.len() == rows@.len());
    if rows@.len() >= 1 {
        assert(v[0] == rows@[0]@);
        assert(Seq::<char>::empty() + v[0] =~= v[0]);
    }
    if rows@.len() >= 2 {
        assert(v[1] == rows@[1]@);
        assert(v.drop_last().last() == v[rows@.len() - 2]);
    }
}

/// An edit is as old as the whole seconds since it was made; one in the future is
/// new.
pub proof fn law_age_of_an_edit(op: &EditOp, now: u64, r: String, secs: u64, s: String)
    requires
        call_ensures(edit_age, (op, now), r),
        call_ensures(format_relative, (secs,), s),
    ensures
        now >= op.timestamp && 1000 * secs <= now - op.timestamp < 1000 * (secs + 1) ==> r@ == s@,
        now < op.timestamp && secs == 0 ==> r@ == s@,
{
}

/// A number is read in decimal notation and behind `0x` in hexadecimal notation.
pub proof fn law_both_notations(s: &str, r: Option<u64>, n: nat)
    requires
        call_ensures(parse_hex_or_dec, (s,), r),
        n <= u64::MAX,
    ensures
        s@ == dec(n) ==> r == Some(n as u64),
        s@ == "0x"@ + digits(n, 16, false) ==> r == Some(n as u64),
        s@.len() == 0 ==> r is None,
{
    if s@ == dec(n) {
        lemma_typed_decimal(n);
    }
    if s@.len() == 0 {
        assert(trimmed(s@) =~= Seq::<char>::empty());
        reveal_strlit("0x");
        assert(crate::text::ascii_lowered(trimmed(s@)).len() == 0);
    }
    if s@ == "0x"@ + digits(n, 16, false) {
        reveal_strlit("0x");
        let h = digits(n, 16, false);
        lemma_small_hex(n);
        crate::digits::law_print_parse(n, 16, false, u64::MAX as nat);
        assert(s@[0] == '0' && s@[1] == 'x');
        assert(s@.last() == h.last());
        assert(crate::text::trimmed_start(s@) == s@);
        assert(crate::text::trimmed_end(s@) == s@);
        assert forall|i: int| 0 <= i < s@.len() implies crate::text::ascii_lower(#[trigger] s@[i])
            == s@[i] by {
            if i >= 2 {
                assert(s@[i] == h[i - 2]);
            }
        }
        assert(crate::text::ascii_lowered(s@) =~= s@);
        assert(s@.take(2) =~= "0x"@);
        assert(s@.skip(2) =~= h);
    }
}

proof fn lemma_small_hex(n: nat)
    ensures
        digits(n, 16, false).len() > 0,
        forall|i: int|
            0 <= i < digits(n, 16, false).len() ==> {
                let c = #[trigger] digits(n, 16, false)[i];
                '0' <= c <= '9' || 'a' <= c <= 'f'
            },
    decreases n,
{
    if n >= 16 {
        lemma_small_hex(n / 16);
    }
}

/// A hexadecimal digit.
pub open spec fn is_hex(c: char) -> bool {
    '0' <= c <= '9' || 'a' <= c <= 'f' || 'A' <= c <= 'F'
}

/// Bytes that are typed as digits: any other character than a digit, a blank or a
/// comma is refused, and so is a half byte; digits alone make half as many bytes.
pub proof fn law_typed_bytes(input: &str, r: Result<Vec<u8>, String>, i: int)
    requires
        call_ensures(parse_byte_input, (input, true), r),
    ensures
        0 <= i < input@.len() && !is_hex(input@[i]) && input@[i] != ' ' && input@[i] != '\t'
            && input@[i] != '\n' && input@[i] != '\x0C' && input@[i] != '\r' && input@[i] != ','
            ==> r is Err,
        (forall|k: int| 0 <= k < input@.len() ==> is_hex(#[trigger] input@[k])) ==> (r is Ok
            <==> input@.len() % 2 == 0),
        (forall|k: int| 0 <= k < input@.len() ==> is_hex(#[trigger] input@[k])) && r is Ok
            ==> r->Ok_0@.len() * 2 == input@.len(),
{
    let s = input@;
    if 0 <= i < s.len() && !is_hex(s[i]) {
        lemma_no_digit(s[i]);
        if r is Ok {
            assert(!crate::byte_patch::is_stray(s[i]));
        }
    }
    if forall|k: int| 0 <= k < s.len() ==> is_hex(#[trigger] s[k]) {
        lemma_digits_alone(s, s.len());
        assert forall|k: int| 0 <= k < s.len() implies !crate::byte_patch::is_stray(
            #[trigger] s[k],
        ) by {
            assert(is_hex(s[k]));
        }
    }
}

proof fn lemma_no_digit(c: char)
    requires
        !is_hex(c),
    ensures
        crate::digits::digit_value(c, 16) is None,
{
}

proof fn lemma_digits_alone(s: Seq<char>, n: nat)
    requires
        n <= s.len(),
        forall|k: int| 0 <= k < s.len() ==> is_hex(#[trigger] s[k]),
    ensures
        crate::byte_patch::nibbles(s, n) == s.take(n as int),
    decreases n,
{
    if n > 0 {
        lemma_digits_alone(s, (n - 1) as nat);
        assert(is_hex(s[n - 1]));
        assert(s.take(n as int) =~= s.take(n - 1).push(s[n - 1]));
    } else {
        assert(s.take(0) =~= Seq::<char>::empty());
    }
}

/// Bytes that are typed as text are those of the text.
pub proof fn law_bytes_of_a_text(input: &str, r: Result<Vec<u8>, String>)
    requires
        call_ensures(parse_byte_input, (input, false), r),
    ensures
        r is Ok,
        r->Ok_0@ == vstd::utf8::encode_utf8(input@),
{
}

} // verus!
