//! Opening tables: bringing an open one to the front, or asking for it to be loaded.

use vstd::prelude::*;
use crate::state::{
    find_tab, find_table, lemma_tab_named, one_tab_each, tab_named, table_named, warn_note,
    ActiveTable, AppState, Job, TableMeta,
};
use crate::text::concat3;

verus! {

/// How an attempt to open a table went.
#[derive(Debug)]
pub enum Opened {
    /// The table was open and is now in front.
    Focused,
    /// The table has a tab of its own now, and is to be loaded.
    Loading(Job),
    /// The table cannot be opened.
    Refused,
}

/// The order to load a table.
pub open spec fn load_job(meta: TableMeta, dir: String) -> Job {
    Job::LoadTable {
        dispatch_name: meta.dispatch_name,
        game_dir: dir,
        pabgb_filename: meta.pabgb_filename,
        pabgh_filename: meta.pabgh_filename,
    }
}

/// The tabs with an entry of one of them selected, where there is such an entry.
pub open spec fn with_selected(
    tabs: Seq<ActiveTable>,
    i: int,
    entry: usize,
) -> Seq<ActiveTable> {
    if entry < tabs[i].entries@.len() {
        tabs.update(i, ActiveTable { selected_entry_idx: Some(entry), ..tabs[i] })
    } else {
        tabs
    }
}

/// A tab that waits for a table stands behind the others and has the focus.
pub open spec fn placeholder_added(before: AppState, after: AppState, name: Seq<char>) -> bool {
    &&& after.open_tabs@.len() == before.open_tabs@.len() + 1
    &&& after.open_tabs@.drop_last() == before.open_tabs@
    &&& after.open_tabs@.last().is_placeholder(name)
    &&& after.open_tabs@.last().wf()
    &&& after.active_tab_idx == Some(before.open_tabs@.len() as usize)
}

/// What is said of a table that the registry lacks.
pub open spec fn unknown_table(name: Seq<char>) -> Seq<char> {
    "Table '"@ + name + "' isn't in the registry — can't open."@
}

/// A table was opened at an entry: brought to the front with the entry
/// selected, or given a tab of its own and the entry noted for when it is loaded.
pub open spec fn opened_at(
    before: AppState,
    after: AppState,
    name: String,
    entry_idx: usize,
    entry_key: u64,
    how: Opened,
) -> bool {
    match tab_named(before.open_tabs@, name@) {
        Some(i) => {
            &&& how is Focused
            &&& after.open_tabs@ == with_selected(before.open_tabs@, i, entry_idx)
            &&& after == (AppState {
                open_tabs: after.open_tabs,
                active_tab_idx: Some(i as usize),
                ..before
            })
        },
        None => match (table_named(before.tables@, name@), before.game_dir) {
            (None, _) => {
                &&& how is Refused
                &&& after.toasts@ == before.toasts@.push(warn_note(unknown_table(name@)))
                &&& after == (AppState { toasts: after.toasts, ..before })
            },
            (Some(_), None) => {
                &&& how is Refused
                &&& after.toasts@ == before.toasts@.push(warn_note("Set the Game Directory first."@))
                &&& after == (AppState { toasts: after.toasts, ..before })
            },
            (Some(t), Some(dir)) => {
                &&& how == Opened::Loading(load_job(before.tables@[t], dir))
                &&& placeholder_added(before, after, name@)
                &&& after == (AppState {
                    open_tabs: after.open_tabs,
                    active_tab_idx: after.active_tab_idx,
                    pending_xref_nav: Some((name, entry_key)),
                    ..before
                })
            },
        },
    }
}

/// Opens a table at an entry.
pub fn open_at(state: &mut AppState, name: &String, entry_idx: usize, entry_key: u64) -> (r: Opened)
    ensures
        old(state).tabs_wf() ==> final(state).tabs_wf(),
        opened_at(*old(state), *final(state), *name, entry_idx, entry_key, r),
{
    match find_tab(&state.open_tabs, name.as_str()) {
        Some(idx) => {
            state.active_tab_idx = Some(idx);
            if entry_idx < state.open_tabs[idx].entries.len() {
                state.open_tabs[idx].selected_entry_idx = Some(entry_idx);
            }
            Opened::Focused
        },
        None => match find_table(&state.tables, name.as_str()) {
            None => {
                let m = concat3("Table '", name.as_str(), "' isn't in the registry — can't open.");
                state.toasts.warn(m.as_str());
                Opened::Refused
            },
            Some(t) => match &state.game_dir {
                None => {
                    state.toasts.warn("Set the Game Directory first.");
                    Opened::Refused
                },
                Some(dir) => {
                    let job = Job::LoadTable {
                        dispatch_name: state.tables[t].dispatch_name.clone(),
                        game_dir: dir.clone(),
                        pabgb_filename: state.tables[t].pabgb_filename.clone(),
                        pabgh_filename: state.tables[t].pabgh_filename.clone(),
                    };
                    push_placeholder(state, name);
                    state.pending_xref_nav = Some((name.clone(), entry_key));
                    Opened::Loading(job)
                },
            },
        },
    }
}

/// Puts a tab that waits for a table behind the others and gives it the focus.
pub fn push_placeholder(state: &mut AppState, name: &String)
    ensures
        old(state).tabs_wf() ==> final(state).tabs_wf(),
        placeholder_added(*old(state), *final(state), name@),
        *final(state) == (AppState {
            open_tabs: final(state).open_tabs,
            active_tab_idx: final(state).active_tab_idx,
            ..*old(state)
        }),
{
    let ghost tabs = state.open_tabs@;
    state.open_tabs.push(ActiveTable::placeholder_loading(name.clone()));
    assert(state.open_tabs@.drop_last() =~= tabs);
    state.active_tab_idx = Some(state.open_tabs.len() - 1);
}

/// A table that is opened at an entry gets no second tab.
pub proof fn law_opening_keeps_one_tab(
    before: AppState,
    after: AppState,
    name: String,
    entry_idx: usize,
    entry_key: u64,
    how: Opened,
)
    requires
        opened_at(before, after, name, entry_idx, entry_key, how),
        one_tab_each(before.open_tabs@),
    ensures
        one_tab_each(after.open_tabs@),
{
    lemma_tab_named(before.open_tabs@, name@);
    let tabs = after.open_tabs@;
    if how is Loading {
        assert forall|i: int, j: int| 0 <= i < j < tabs.len() implies (
        #[trigger] tabs[i]).dispatch_name@ != (#[trigger] tabs[j]).dispatch_name@ by {
            assert(tabs.drop_last()[i] == tabs[i]);
            if j < tabs.len() - 1 {
                assert(tabs.drop_last()[j] == tabs[j]);
            }
        }
    }
}

} // verus!
