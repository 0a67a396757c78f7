//! Laws of looking things up by their names: the first that has the name is
//! found, and nothing is found exactly where none has it.

use std::collections::HashMap;
use vstd::prelude::*;
use crate::state::{
    find_tab, find_table, lemma_tab_named, lookup_text, note_text, section_named, section_of,
    table_named, ActiveTable, Catalog, NoteStore, Section, TableMeta,
};

verus! {

broadcast use {vstd::seq_lib::group_seq_properties, vstd::std_specs::hash::group_hash_axioms};

pub proof fn lemma_table_named(tables: Seq<TableMeta>, name: Seq<char>)
    ensures
        match table_named(tables, name) {
            Some(i) => 0 <= i < tables.len() && tables[i].dispatch_name@ == name && forall|j: int|
                0 <= j < i ==> (#[trigger] tables[j]).dispatch_name@ != name,
            None => forall|j: int|
                0 <= j < tables.len() ==> (#[trigger] tables[j]).dispatch_name@ != name,
        },
    decreases tables.len(),
{
    if tables.len() > 0 && tables[0].dispatch_name@ != name {
        let d = tables.drop_first();
        lemma_table_named(d, name);
        match table_named(tables, name) {
            Some(i) => {
                assert forall|j: int| 0 <= j < i implies (#[trigger] tables[j]).dispatch_name@
                    != name by {
                    if j > 0 {
                        assert(d[j - 1] == tables[j]);
                    }
                }
            },
            None => {
                assert forall|j: int| 0 <= j < tables.len() implies (
                #[trigger] tables[j]).dispatch_name@ != name by {
                    if j > 0 {
                        assert(d[j - 1] == tables[j]);
                    }
                }
            },
        }
    }
}

pub proof fn lemma_section_of(v: Seq<(String, String)>, table: Seq<char>, i: int)
    requires
        0 <= i < v.len(),
        v[i].0@ == table,
        forall|j: int| 0 <= j < i ==> (#[trigger] v[j]).0@ != table,
    ensures
        section_of(v, table) == Some(v[i].1),
    decreases i,
{
    if i > 0 {
        let d = v.drop_first();
        assert(v[0].0@ != table);
        assert forall|j: int| 0 <= j < i - 1 implies (#[trigger] d[j]).0@ != table by {
            assert(d[j] == v[j + 1]);
        }
        lemma_section_of(d, table, i - 1);
    }
}

pub proof fn lemma_no_section_of(v: Seq<(String, String)>, table: Seq<char>)
    requires
        forall|j: int| 0 <= j < v.len() ==> (#[trigger] v[j]).0@ != table,
    ensures
        section_of(v, table) is None,
    decreases v.len(),
{
    if v.len() > 0 {
        let d = v.drop_first();
        assert(v[0].0@ != table);
        assert forall|j: int| 0 <= j < d.len() implies (#[trigger] d[j]).0@ != table by {
            assert(d[j] == v[j + 1]);
        }
        lemma_no_section_of(d, table);
    }
}

pub proof fn lemma_section_named(v: Seq<(String, Section)>, name: Seq<char>, i: int)
    requires
        0 <= i < v.len(),
        v[i].0@ == name,
        forall|j: int| 0 <= j < i ==> (#[trigger] v[j]).0@ != name,
    ensures
        section_named(v, name) == Some(v[i].1),
    decreases i,
{
    if i > 0 {
        let d = v.drop_first();
        assert(v[0].0@ != name);
        assert forall|j: int| 0 <= j < i - 1 implies (#[trigger] d[j]).0@ != name by {
            assert(d[j] == v[j + 1]);
        }
        lemma_section_named(d, name, i - 1);
    }
}

/// The tab of a table is the first with its name.
pub proof fn law_tab_by_name(tabs: &Vec<ActiveTable>, name: &str, r: Option<usize>)
    requires
        call_ensures(find_tab, (tabs, name), r),
    ensures
        r is Some ==> r->Some_0 < tabs@.len() && tabs@[r->Some_0 as int].dispatch_name@ == name@
            && forall|j: int|
            0 <= j < r->Some_0 ==> (#[trigger] tabs@[j]).dispatch_name@ != name@,
        r is None ==> forall|j: int|
            0 <= j < tabs@.len() ==> (#[trigger] tabs@[j]).dispatch_name@ != name@,
{
    lemma_tab_named(tabs@, name@);
}

/// A table of the registry is the first with its name.
pub proof fn law_table_by_name(tables: &Vec<TableMeta>, name: &str, r: Option<usize>)
    requires
        call_ensures(find_table, (tables, name), r),
    ensures
        r is Some ==> r->Some_0 < tables@.len() && tables@[r->Some_0 as int].dispatch_name@ == name@
            && forall|j: int|
            0 <= j < r->Some_0 ==> (#[trigger] tables@[j]).dispatch_name@ != name@,
        r is None ==> forall|j: int|
            0 <= j < tables@.len() ==> (#[trigger] tables@[j]).dispatch_name@ != name@,
{
    lemma_table_named(tables@, name@);
}

/// The name that a catalog has for a key is that which the first section of that
/// name has under the key.
pub proof fn law_name_in_a_section(
    catalog: &Catalog,
    section: &str,
    key: u64,
    r: Option<String>,
    i: int,
)
    requires
        call_ensures(Catalog::lookup_name, (catalog, section, key), r),
        0 <= i < catalog.sections@.len(),
        catalog.sections@[i].0@ == section@,
        forall|j: int| 0 <= j < i ==> (#[trigger] catalog.sections@[j]).0@ != section@,
    ensures
        r is Some <==> catalog.sections@[i].1.names@.contains_key(key),
        r is Some ==> r->Some_0@ == catalog.sections@[i].1.names@[key]@,
{
    lemma_section_named(catalog.sections@, section@, i);
}

/// The section of a table is that of the first pair with its name, and there is
/// none where no pair has it.
pub proof fn law_section_of_a_table(catalog: &Catalog, table: &str, r: Option<String>, i: int)
    requires
        call_ensures(Catalog::section_for, (catalog, table), r),
    ensures
        0 <= i < catalog.dispatch_to_section@.len() && catalog.dispatch_to_section@[i].0@ == table@
            && (forall|j: int|
            0 <= j < i ==> (#[trigger] catalog.dispatch_to_section@[j]).0@ != table@) ==> r == Some(
            catalog.dispatch_to_section@[i].1,
        ),
        (forall|j: int|
            0 <= j < catalog.dispatch_to_section@.len() ==> (
            #[trigger] catalog.dispatch_to_section@[j]).0@ != table@) ==> r is None,
{
    let v = catalog.dispatch_to_section@;
    if 0 <= i < v.len() && v[i].0@ == table@ && (forall|j: int|
        0 <= j < i ==> (#[trigger] v[j]).0@ != table@) {
        lemma_section_of(v, table@, i);
    }
    if forall|j: int| 0 <= j < v.len() ==> (#[trigger] v[j]).0@ != table@ {
        lemma_no_section_of(v, table@);
    }
}

/// The text of a number is that which stands under it.
pub proof fn law_text_of_a_number(m: &HashMap<u64, String>, key: u64, r: Option<String>)
    requires
        call_ensures(lookup_text, (m, key), r),
    ensures
        r is Some <==> m@.contains_key(key),
        r is Some ==> r->Some_0@ == m@[key]@,
{
}

/// A note that is set is the note of its entry; every other entry keeps its own.
pub proof fn law_note_is_kept(
    notes: &mut NoteStore,
    table: &str,
    key: u64,
    text: String,
    other_table: Seq<char>,
    other_key: u64,
)
    requires
        call_ensures(NoteStore::set, (notes, table, key, text), ()),
    ensures
        note_text(final(notes).notes@, table@, key) == Some(text@),
        other_table != table@ || other_key != key ==> note_text(
            final(notes).notes@,
            other_table,
            other_key,
        ) == note_text(old(notes).notes@, other_table, other_key),
{
}

} // verus!
