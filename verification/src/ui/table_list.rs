//! The list of game tables: which rows are visible, how they are labelled, and
//! what a click on one does.

use vstd::prelude::*;
use crate::digits::{dec, dec_usize};
use crate::json::{lemma_obj_view, members, member_of, Json, Tree};
use crate::navigation::{load_job, placeholder_added, push_placeholder};
use crate::rows::picked;
use crate::state::{
    find_tab, find_table, lemma_tab_named, one_tab_each, tab_named, table_named, warn_note, AppState,
    Job, TableMeta,
};
use crate::text::{concat2, has_sub, lower_contains, lowercase, same, views};

verus! {

broadcast use vstd::seq_lib::group_seq_properties;

/// The rows whose table name holds the filter text.
pub open spec fn table_kept(tables: Seq<TableMeta>, filter: Seq<char>) -> spec_fn(int) -> bool {
    |i: int|
        lowercase(filter).len() == 0 || has_sub(
            lowercase(tables[i].dispatch_name@),
            lowercase(filter),
        )
}

/// The rows of the registry that the filter leaves visible.
pub fn visible_tables(state: &AppState) -> (r: Vec<usize>)
    ensures
        r@ == picked(state.tables@.len(), table_kept(state.tables@, state.table_filter@)),
{
    let lower = state.table_filter.as_str().to_lowercase();
    let ghost keep = table_kept(state.tables@, state.table_filter@);
    let mut out: Vec<usize> = Vec::new();
    let mut i: usize = 0;
    while i < state.tables.len()
        invariant
            0 <= i <= state.tables.len(),
            keep == table_kept(state.tables@, state.table_filter@),
            lower@ == lowercase(state.table_filter@),
            out@ == picked(i as nat, keep),
        decreases state.tables.len() - i,
    {
        if lower.as_str().is_empty() || lower_contains(
            state.tables[i].dispatch_name.as_str(),
            lower.as_str(),
        ) {
            out.push(i);
        }
        i = i + 1;
    }
    out
}

/// A table is the one in focus.
pub open spec fn is_in_focus(s: AppState, name: Seq<char>) -> bool {
    s.focus() matches Some(i) && s.open_tabs@[i].dispatch_name@ == name
}

/// How a row is labelled: the table in focus with its number of entries, an
/// open one with a star, one that was loaded before with a tick.
pub open spec fn row_label(s: AppState, name: Seq<char>) -> Seq<char> {
    if is_in_focus(s, name) {
        name + " ("@ + dec(s.open_tabs@[s.focus()->Some_0].entries@.len()) + ")"@
    } else if tab_named(s.open_tabs@, name) is Some {
        name + " *"@
    } else if views(s.loaded_tables@).contains(name) {
        name + " ✓"@
    } else {
        name
    }
}

fn was_loaded(loaded: &Vec<String>, name: &str) -> (r: bool)
    ensures
        r == views(loaded@).contains(name@),
{
    let mut i: usize = 0;
    while i < loaded.len()
        invariant
            0 <= i <= loaded.len(),
            forall|j: int| 0 <= j < i ==> views(loaded@)[j] != name@,
        decreases loaded.len() - i,
    {
        if same(loaded[i].as_str(), name) {
            assert(views(loaded@)[i as int] == name@);
            return true;
        }
        i = i + 1;
    }
    false
}

/// Whether a table is the one in focus.
pub fn in_focus(state: &AppState, name: &str) -> (r: bool)
    ensures
        r == is_in_focus(*state, name@),
{
    match state.active_table() {
        Some(t) => same(t.dispatch_name.as_str(), name),
        None => false,
    }
}

/// How a row is labelled.
pub fn row_label_text(state: &AppState, name: &str) -> (r: String)
    ensures
        r@ == row_label(*state, name@),
{
    match state.active_table() {
        Some(t) => {
            if same(t.dispatch_name.as_str(), name) {
                let mut s = name.to_owned();
                s.push_str(" (");
                s.push_str(dec_usize(t.entries.len()).as_str());
                s.push_str(")");
                return s;
            }
        },
        None => {},
    }
    if find_tab(&state.open_tabs, name).is_some() {
        concat2(name, " *")
    } else if was_loaded(&state.loaded_tables, name) {
        concat2(name, " ✓")
    } else {
        name.to_owned()
    }
}

/// A load of a table was asked for: an open one is brought to the front; for
/// another one a tab is made and an order to load it is given, unless no game
/// directory is set.
pub open spec fn load_submitted(
    before: AppState,
    after: AppState,
    table_idx: int,
    job: Option<Job>,
) -> bool {
    let meta = before.tables@[table_idx];
    match tab_named(before.open_tabs@, meta.dispatch_name@) {
        Some(i) => {
            &&& job is None
            &&& after.status@ == "Focused "@ + meta.dispatch_name@
            &&& after == (AppState {
                status: after.status,
                active_tab_idx: Some(i as usize),
                ..before
            })
        },
        None => match before.game_dir {
            None => {
                &&& job is None
                &&& after.status@ == "Set game dir first (File -> Set Game Dir)"@
                &&& after.toasts@ == before.toasts@.push(warn_note("Set game dir first"@))
                &&& after == (AppState { status: after.status, toasts: after.toasts, ..before })
            },
            Some(dir) => {
                &&& job == Some(load_job(meta, dir))
                &&& placeholder_added(before, after, meta.dispatch_name@)
                &&& after.status@ == "Loading "@ + meta.dispatch_name@ + " in background..."@
                &&& after == (AppState {
                    status: after.status,
                    open_tabs: after.open_tabs,
                    active_tab_idx: after.active_tab_idx,
                    ..before
                })
            },
        },
    }
}

/// Asks for a table to be loaded, or brings it to the front where it is open.
pub fn submit_load(state: &mut AppState, table_idx: usize) -> (job: Option<Job>)
    requires
        table_idx < old(state).tables@.len(),
    ensures
        old(state).tabs_wf() ==> final(state).tabs_wf(),
        load_submitted(*old(state), *final(state), table_idx as int, job),
{
    let name = state.tables[table_idx].dispatch_name.clone();
    if state.open_or_focus_tab(name.as_str()).is_some() {
        state.status = concat2("Focused ", name.as_str());
        return None;
    }
    let dir = match &state.game_dir {
        None => {
            state.status = "Set game dir first (File -> Set Game Dir)".to_owned();
            state.toasts.warn("Set game dir first");
            return None;
        },
        Some(d) => d.clone(),
    };
    let job = Job::LoadTable {
        dispatch_name: name.clone(),
        game_dir: dir,
        pabgb_filename: state.tables[table_idx].pabgb_filename.clone(),
        pabgh_filename: state.tables[table_idx].pabgh_filename.clone(),
    };
    push_placeholder(state, &name);
    let mut s = "Loading ".to_owned();
    s.push_str(name.as_str());
    s.push_str(" in background...");
    state.status = s;
    Some(job)
}

/// A tab was closed, and its table asked for anew.
pub open spec fn retried(
    before: AppState,
    closed: AppState,
    after: AppState,
    i: int,
    job: Option<Job>,
) -> bool {
    &&& tab_closed(before, closed, i)
    &&& match table_named(closed.tables@, before.open_tabs@[i].dispatch_name@) {
        Some(t) => load_submitted(closed, after, t, job),
        None => job is None && after == closed,
    }
}

/// Tries a failed table again: its tab is closed and the table is asked for anew.
pub fn retry_load(state: &mut AppState) -> (job: Option<Job>)
    ensures
        old(state).tabs_wf() ==> final(state).tabs_wf(),
        match old(state).focus() {
            None => job is None && *final(state) == *old(state),
            Some(i) => exists|closed: AppState| #[trigger]
                retried(*old(state), closed, *final(state), i, job),
        },
{
    let i = match state.active_index() {
        None => {
            return None;
        },
        Some(i) => i,
    };
    let name = state.open_tabs[i].dispatch_name.clone();
    state.close_tab(i);
    let ghost closed = *state;
    let job = match find_table(&state.tables, name.as_str()) {
        Some(t) => submit_load(state, t),
        None => None,
    };
    assert(retried(*old(state), closed, *state, old(state).focus()->Some_0, job));
    job
}

/// A tab was closed.
pub open spec fn tab_closed(before: AppState, after: AppState, i: int) -> bool {
    &&& after.open_tabs@ == before.open_tabs@.remove(i)
    &&& after.active_tab_idx == crate::state::focus_after_close(
        before.active_tab_idx,
        i as usize,
        (before.open_tabs@.len() - 1) as nat,
    )
    &&& after == (AppState {
        open_tabs: after.open_tabs,
        active_tab_idx: after.active_tab_idx,
        ..before
    })
}

/// A table that is asked for gets no second tab, and closing one leaves no table
/// with two.
pub proof fn law_one_tab_each(before: AppState, after: AppState, k: int, job: Option<Job>)
    requires
        one_tab_each(before.open_tabs@),
    ensures
        0 <= k < before.tables@.len() && load_submitted(before, after, k, job) ==> one_tab_each(
            after.open_tabs@,
        ),
        0 <= k < before.open_tabs@.len() && tab_closed(before, after, k) ==> one_tab_each(
            after.open_tabs@,
        ),
{
    let tabs = after.open_tabs@;
    if 0 <= k < before.tables@.len() && load_submitted(before, after, k, job) {
        lemma_tab_named(before.open_tabs@, before.tables@[k].dispatch_name@);
        if job is Some {
            assert forall|i: int, j: int| 0 <= i < j < tabs.len() implies (
            #[trigger] tabs[i]).dispatch_name@ != (#[trigger] tabs[j]).dispatch_name@ by {
                assert(tabs.drop_last()[i] == tabs[i]);
                if j < tabs.len() - 1 {
                    assert(tabs.drop_last()[j] == tabs[j]);
                }
            }
        }
    }
}

/// The columns that come first, where an entry has them.
pub open spec fn priority_columns() -> Seq<Seq<char>> {
    seq!["key"@, "string_key"@, "is_blocked"@]
}

/// The first `n` of the leading columns that the entry has.
pub open spec fn leading_columns(e: Seq<(Seq<char>, Tree)>, n: nat) -> Seq<Seq<char>>
    decreases n,
{
    if n == 0 {
        Seq::empty()
    } else {
        let before = leading_columns(e, (n - 1) as nat);
        let name = priority_columns()[n - 1];
        if member_of(e, name) is Some {
            before.push(name)
        } else {
            before
        }
    }
}

/// A number, a text or a truth value.
pub open spec fn is_scalar(t: Tree) -> bool {
    t is Int || t is Float || t is Str || t is Bool
}

/// The columns after the first `n` members of the entry were looked at: a
/// scalar member that is no column yet becomes one, until there are six.
pub open spec fn filled_columns(
    cols: Seq<Seq<char>>,
    e: Seq<(Seq<char>, Tree)>,
    n: nat,
) -> Seq<Seq<char>>
    decreases n,
{
    if n == 0 {
        cols
    } else {
        let before = filled_columns(cols, e, (n - 1) as nat);
        let m = e[n - 1];
        if before.len() < 6 && !before.contains(m.0) && is_scalar(m.1) {
            before.push(m.0)
        } else {
            before
        }
    }
}

/// The columns of a table, found by its first entry.
pub open spec fn columns_of(first: Option<Tree>) -> Seq<Seq<char>> {
    match first {
        Some(Tree::Obj(e)) => {
            let cols = filled_columns(leading_columns(e, 3), e, e.len());
            if cols.len() == 0 {
                seq!["key"@]
            } else {
                cols
            }
        },
        _ => seq!["key"@],
    }
}

fn has_column(cols: &Vec<String>, name: &str) -> (r: bool)
    ensures
        r == views(cols@).contains(name@),
{
    was_loaded(cols, name)
}

fn push_column(cols: &mut Vec<String>, name: String)
    ensures
        views(final(cols)@) == views(old(cols)@).push(name@),
{
    let ghost before = cols@;
    let ghost n = name@;
    cols.push(name);
    assert(views(cols@) =~= views(before).push(n));
}

fn push_if_present(cols: &mut Vec<String>, entry: &Json, name: &str)
    requires
        entry is Obj,
    ensures
        views(final(cols)@) == if member_of(members(entry->Obj_0@), name@) is Some && !views(
            old(cols)@,
        ).contains(name@) {
            views(old(cols)@).push(name@)
        } else {
            views(old(cols)@)
        },
{
    proof {
        lemma_obj_view(entry->Obj_0);
    }
    if entry.get(name).is_some() && !has_column(cols, name) {
        push_column(cols, name.to_owned());
    }
}

proof fn lemma_leading_distinct(e: Seq<(Seq<char>, Tree)>, n: nat, k: int)
    requires
        n <= k < 3,
    ensures
        !leading_columns(e, n).contains(priority_columns()[k]),
    decreases n,
{
    reveal_strlit("key");
    reveal_strlit("string_key");
    reveal_strlit("is_blocked");
    if n > 0 {
        lemma_leading_distinct(e, (n - 1) as nat, k);
        let p = priority_columns();
        assert(p[n - 1] != p[k]) by {
            assert("key"@.len() == 3 && "string_key"@.len() == 10 && "is_blocked"@.len() == 10);
            assert("string_key"@[0] == 's' && "is_blocked"@[0] == 'i');
        }
    }
}

/// The columns to show of a table: the leading ones that its first entry has,
/// and of its other scalar members as many as make six.
pub fn detect_columns(entries: &[Json]) -> (r: Vec<String>)
    ensures
        views(r@) == columns_of(
            if entries@.len() > 0 {
                Some(entries@[0]@)
            } else {
                None
            },
        ),
{
    let mut cols: Vec<String> = Vec::new();
    if entries.len() > 0 {
        match &entries[0] {
            Json::Obj(v) => {
                let ghost e = members(v@);
                proof {
                    lemma_obj_view(*v);
                    lemma_leading_distinct(e, 0, 0);
                    lemma_leading_distinct(e, 1, 1);
                    lemma_leading_distinct(e, 2, 2);
                    reveal_with_fuel(leading_columns, 4);
                }
                assert(views(cols@) =~= leading_columns(e, 0));
                push_if_present(&mut cols, &entries[0], "key");
                assert(views(cols@) =~= leading_columns(e, 1));
                push_if_present(&mut cols, &entries[0], "string_key");
                assert(views(cols@) =~= leading_columns(e, 2));
                push_if_present(&mut cols, &entries[0], "is_blocked");
                assert(views(cols@) =~= leading_columns(e, 3));
                let ghost lead = leading_columns(e, 3);
                let mut i: usize = 0;
                while i < v.len()
                    invariant
                        0 <= i <= v.len(),
                        e == members(v@),
                        views(cols@) == filled_columns(lead, e, i as nat),
                    decreases v.len() - i,
                {
                    let scalar = match &v[i].1 {
                        Json::Uint(_) | Json::Int(_) | Json::Float(_) | Json::Str(_)
                        | Json::Bool(_) => true,
                        _ => false,
                    };
                    assert(scalar == is_scalar(e[i as int].1));
                    if cols.len() < 6 && !has_column(&cols, v[i].0.as_str()) && scalar {
                        push_column(&mut cols, v[i].0.clone());
                    }
                    i = i + 1;
                }
                if cols.len() == 0 {
                    push_column(&mut cols, "key".to_owned());
                    assert(views(cols@) =~= seq!["key"@]);
                }
                return cols;
            },
            _ => {},
        }
    }
    push_column(&mut cols, "key".to_owned());
    assert(views(cols@) =~= seq!["key"@]);
    cols
}

/// A table has between one and six columns and no column twice.
pub proof fn law_columns_few_and_distinct(first: Option<Tree>)
    ensures
        1 <= columns_of(first).len() <= 6,
        columns_of(first).no_duplicates(),
{
    match first {
        Some(Tree::Obj(e)) => {
            lemma_leading_no_duplicates(e, 3);
            lemma_filled_no_duplicates(leading_columns(e, 3), e, e.len());
        },
        _ => {},
    }
}

proof fn lemma_leading_no_duplicates(e: Seq<(Seq<char>, Tree)>, n: nat)
    requires
        n <= 3,
    ensures
        leading_columns(e, n).no_duplicates(),
        leading_columns(e, n).len() <= n,
    decreases n,
{
    if n > 0 {
        lemma_leading_no_duplicates(e, (n - 1) as nat);
        lemma_leading_distinct(e, (n - 1) as nat, n - 1);
    }
}

proof fn lemma_filled_no_duplicates(cols: Seq<Seq<char>>, e: Seq<(Seq<char>, Tree)>, n: nat)
    requires
        cols.no_duplicates(),
        cols.len() <= 6,
        n <= e.len(),
    ensures
        filled_columns(cols, e, n).no_duplicates(),
        cols.len() <= filled_columns(cols, e, n).len() <= 6,
    decreases n,
{
    if n > 0 {
        lemma_filled_no_duplicates(cols, e, (n - 1) as nat);
    }
}

} // verus!
