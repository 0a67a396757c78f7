//! Laws of the tabs, the list of tables, the views, the settings and the bar at the
//! bottom.

use vstd::prelude::*;
use crate::digits::dec;
use crate::json::{Json, Tree};
use crate::laws::lookup::lemma_table_named;
use crate::navigation::{open_at, Opened};
use crate::rows::law_picked;
use crate::state::{lemma_tab_named, tab_named, ActiveTable, AppState, Job, Level, MainView, Toasts};
use crate::text::{has_sub, lowercase, views};
use crate::ui::bottom_bar::{action_enabled, changes_text, dir_text, table_text, BottomBarAction};
use crate::ui::settings_panel::{
    choose_theme, current_theme, pick_catalog, pick_game_dir, reset_to_defaults, retention,
    set_retention, take_theme_change, Theme,
};
use crate::ui::tab_bar::{apply_action, tab_label, Action};
use crate::ui::table_list::{
    detect_columns, filled_columns, leading_columns, retry_load, row_label_text, submit_load,
    table_kept, visible_tables,
};
use crate::ui::templates_panel::Template;
use crate::ui::view_tab_bar::{click_view, law_every_view_once, place, view_groups};
use crate::ui::wizards_panel::{
    open_wizard, wizard_frame_done, wizard_named, WizardInfo, WizardResult,
};

verus! {

broadcast use vstd::seq_lib::group_seq_properties;

/// A tab that is closed is gone, and the others keep their order.
pub proof fn law_tab_is_closed(state: &mut AppState, idx: usize, j: int)
    requires
        call_ensures(apply_action, (state, Action::Close(idx)), ()),
        idx < old(state).open_tabs@.len(),
    ensures
        final(state).open_tabs@.len() == old(state).open_tabs@.len() - 1,
        0 <= j < idx ==> final(state).open_tabs@[j] == old(state).open_tabs@[j],
        idx <= j < final(state).open_tabs@.len() ==> final(state).open_tabs@[j] == old(
            state).open_tabs@[j + 1],
{
}

/// Where another tab than that in focus is closed, the focus stays on its table.
/// Where that in focus is closed, the one behind it comes into focus, or the last
/// where none is behind; with the last tab no focus is left.
pub proof fn law_focus_when_a_tab_closes(state: &mut AppState, idx: usize, active: usize)
    requires
        call_ensures(apply_action, (state, Action::Close(idx)), ()),
        old(state).active_tab_idx == Some(active),
        active < old(state).open_tabs@.len(),
        idx < old(state).open_tabs@.len(),
    ensures
        ({
            let (b, a) = (old(state).open_tabs@, final(state).open_tabs@);
            let f = final(state).active_tab_idx;
            &&& b.len() == 1 ==> f is None
            &&& b.len() > 1 ==> f is Some && f->Some_0 < a.len()
            &&& b.len() > 1 && idx != active ==> a[f->Some_0 as int] == b[active as int]
            &&& idx == active && active + 1 < b.len() ==> a[f->Some_0 as int] == b[active + 1]
            &&& idx == active && active + 1 == b.len() && b.len() > 1 ==> a[f->Some_0 as int]
                == b[active - 1]
        }),
{
    assert(old(state).open_tabs@.len() == old(state).open_tabs.len());
}

/// Closing a tab by itself does what the action of the bar does.
pub proof fn law_close_tab(state: &mut AppState, idx: usize, active: usize)
    requires
        call_ensures(AppState::close_tab, (state, idx), ()),
        old(state).active_tab_idx == Some(active),
        active < old(state).open_tabs@.len(),
        idx < old(state).open_tabs@.len(),
    ensures
        final(state).open_tabs@ == old(state).open_tabs@.remove(idx as int),
        idx != active ==> final(state).active_tab_idx is Some && final(state).open_tabs@[final(
            state).active_tab_idx->Some_0 as int] == old(state).open_tabs@[active as int],
        old(state).open_tabs@.len() == 1 ==> final(state).active_tab_idx is None,
        old(state).open_tabs@.len() > 1 ==> final(state).active_tab_idx is Some && final(
            state).active_tab_idx->Some_0 < final(state).open_tabs@.len(),
{
    assert(old(state).open_tabs@.len() == old(state).open_tabs.len());
}

/// Closing the others leaves one tab, and it is in focus. Closing those to the
/// right leaves those up to one; the focus stays, or moves to that one.
pub proof fn law_tabs_are_closed(state: &mut AppState, action: Action, idx: usize, active: usize, j: int)
    requires
        call_ensures(apply_action, (state, action), ()),
        old(state).active_tab_idx == Some(active),
        active < old(state).open_tabs@.len(),
        idx < old(state).open_tabs@.len(),
        0 <= j <= idx,
    ensures
        ({
            let (b, a) = (old(state).open_tabs@, final(state).open_tabs@);
            &&& action == Action::CloseOthers(idx) ==> a.len() == 1 && a[0] == b[idx as int]
                && final(state).active_tab_idx == Some(0usize)
            &&& action == Action::CloseToRight(idx) ==> a.len() == idx + 1 && a[j] == b[j]
            &&& action == Action::CloseToRight(idx) && active <= idx ==> final(state).active_tab_idx
                == Some(active)
            &&& action == Action::CloseToRight(idx) && active > idx ==> final(state).active_tab_idx
                == Some(idx)
            &&& action == Action::Focus(idx) ==> a == b && final(state).active_tab_idx == Some(idx)
        }),
        final(state).config == old(state).config,
{
}

/// A tab is labelled with its table; once it is loaded also with the number of its
/// entries, and a mark exactly where it has changes.
pub proof fn law_label_of_a_tab(tab: &ActiveTable, r: String)
    requires
        call_ensures(tab_label, (tab,), r),
    ensures
        tab.load_state is Loading ==> r@ == tab.dispatch_name@ + " ⏳"@,
        tab.load_state is Error ==> r@ == tab.dispatch_name@ + " ❌"@,
        tab.load_state is Loaded && tab.changes@.len() == 0 ==> r@ == tab.dispatch_name@ + " ("@
            + dec(tab.entries@.len()) + ")"@,
        tab.load_state is Loaded && tab.changes@.len() > 0 ==> r@ == tab.dispatch_name@ + " ("@
            + dec(tab.entries@.len()) + ") \u{25CF}"@,
{
}

/// A table is listed exactly where its name holds the filter, whatever the case.
pub proof fn law_listed_tables(state: &AppState, r: Vec<usize>, i: usize)
    requires
        call_ensures(visible_tables, (state,), r),
        i < state.tables@.len(),
    ensures
        r@.contains(i) <==> lowercase(state.table_filter@).len() == 0 || has_sub(
            lowercase(state.tables@[i as int].dispatch_name@),
            lowercase(state.table_filter@),
        ),
{
    let keep = table_kept(state.tables@, state.table_filter@);
    assert(state.tables@.len() == state.tables.len());
    law_picked(state.tables@.len(), keep);
    assert(keep(i as int) == (lowercase(state.table_filter@).len() == 0 || has_sub(
        lowercase(state.tables@[i as int].dispatch_name@),
        lowercase(state.table_filter@),
    )));
}

/// A listed table shows the number of its entries where it is in focus, a star
/// where it is open, a tick where it was loaded before, and its name in any case.
pub proof fn law_row_of_a_table(state: &AppState, name: &str, r: String, active: usize, i: int)
    requires
        call_ensures(row_label_text, (state, name), r),
        0 <= i < state.open_tabs@.len(),
    ensures
        state.active_tab_idx == Some(active) && active < state.open_tabs@.len()
            && state.open_tabs@[active as int].dispatch_name@ == name@ ==> r@ == name@ + " ("@ + dec(
            state.open_tabs@[active as int].entries@.len(),
        ) + ")"@,
        state.active_tab_idx is None && state.open_tabs@[i].dispatch_name@ == name@ ==> r@ == name@
            + " *"@,
        (forall|j: int|
            0 <= j < state.open_tabs@.len() ==> (#[trigger] state.open_tabs@[j]).dispatch_name@
                != name@) ==> r@ == if views(state.loaded_tables@).contains(name@) {
            name@ + " ✓"@
        } else {
            name@
        },
{
    lemma_tab_named(state.open_tabs@, name@);
}

/// A table whose tab is open comes into focus, and nothing is loaded.
pub proof fn law_open_table_is_focused(
    state: &mut AppState,
    table: usize,
    job: Option<Job>,
    i: int,
)
    requires
        table < old(state).tables@.len(),
        call_ensures(submit_load, (state, table), job),
        0 <= i < old(state).open_tabs@.len(),
        old(state).open_tabs@[i].dispatch_name@ == old(state).tables@[table as int].dispatch_name@,
    ensures
        job is None,
        final(state).open_tabs@ == old(state).open_tabs@,
        final(state).active_tab_idx is Some,
        final(state).open_tabs@[final(state).active_tab_idx->Some_0 as int].dispatch_name@ == old(
            state).tables@[table as int].dispatch_name@,
{
    lemma_tab_named(old(state).open_tabs@, old(state).tables@[table as int].dispatch_name@);
    assert(old(state).open_tabs@.len() == old(state).open_tabs.len());
}

/// A table that is not open is loaded from the game directory, with the two files
/// that the registry names for it, and has an empty tab in focus meanwhile.
/// Without a game directory that is said instead.
pub proof fn law_closed_table_is_loaded(state: &mut AppState, table: usize, job: Option<Job>)
    requires
        table < old(state).tables@.len(),
        call_ensures(submit_load, (state, table), job),
        forall|j: int|
            0 <= j < old(state).open_tabs@.len() ==> (#[trigger] old(
                state).open_tabs@[j]).dispatch_name@ != old(
                state).tables@[table as int].dispatch_name@,
    ensures
        ({
            let meta = old(state).tables@[table as int];
            &&& old(state).game_dir is None ==> job is None && final(state).open_tabs == old(
                state).open_tabs && final(state).toasts@.last().level == Level::Warn
            &&& old(state).game_dir is Some ==> {
                &&& job == Some(
                    Job::LoadTable {
                        dispatch_name: meta.dispatch_name,
                        game_dir: old(state).game_dir->Some_0,
                        pabgb_filename: meta.pabgb_filename,
                        pabgh_filename: meta.pabgh_filename,
                    },
                )
                &&& final(state).open_tabs@.len() == old(state).open_tabs@.len() + 1
                &&& final(state).open_tabs@.last().dispatch_name@ == meta.dispatch_name@
                &&& final(state).open_tabs@.last().load_state is Loading
                &&& final(state).open_tabs@.last().entries@.len() == 0
                &&& final(state).open_tabs@.last().changes@.len() == 0
                &&& final(state).active_tab_idx == Some(old(state).open_tabs@.len() as usize)
            }
        }),
{
    lemma_tab_named(old(state).open_tabs@, old(state).tables@[table as int].dispatch_name@);
}

/// A table whose load is tried again is closed and loaded anew, from the files that
/// the registry names for it.
pub proof fn law_load_is_tried_again(
    state: &mut AppState,
    job: Option<Job>,
    active: usize,
    t: int,
)
    requires
        call_ensures(retry_load, (state,), job),
        old(state).active_tab_idx == Some(active),
        active < old(state).open_tabs@.len(),
        old(state).game_dir is Some,
        forall|j: int|
            0 <= j < old(state).open_tabs@.len() && j != active ==> (#[trigger] old(
                state).open_tabs@[j]).dispatch_name@ != old(
                state).open_tabs@[active as int].dispatch_name@,
        0 <= t < old(state).tables@.len(),
        old(state).tables@[t].dispatch_name@ == old(
            state).open_tabs@[active as int].dispatch_name@,
        forall|j: int|
            0 <= j < t ==> (#[trigger] old(state).tables@[j]).dispatch_name@ != old(
                state).tables@[t].dispatch_name@,
    ensures
        ({
            let meta = old(state).tables@[t];
            &&& job == Some(
                Job::LoadTable {
                    dispatch_name: meta.dispatch_name,
                    game_dir: old(state).game_dir->Some_0,
                    pabgb_filename: meta.pabgb_filename,
                    pabgh_filename: meta.pabgh_filename,
                },
            )
            &&& final(state).open_tabs@.len() == old(state).open_tabs@.len()
            &&& final(state).open_tabs@.last().dispatch_name@ == meta.dispatch_name@
            &&& final(state).open_tabs@.last().load_state is Loading
            &&& final(state).active_tab_idx == Some((old(state).open_tabs@.len() - 1) as usize)
        }),
{
    let name = old(state).open_tabs@[active as int].dispatch_name@;
    let closed = choose|closed: AppState| #[trigger]
        crate::ui::table_list::retried(*old(state), closed, *final(state), active as int, job);
    lemma_table_named(old(state).tables@, name);
    let k = crate::state::table_named(old(state).tables@, name)->Some_0;
    if k < t {
        assert(old(state).tables@[k].dispatch_name@ != old(state).tables@[t].dispatch_name@);
    } else if t < k {
        assert(old(state).tables@[t].dispatch_name@ != name);
    }
    lemma_tab_named(closed.open_tabs@, name);
    match tab_named(closed.open_tabs@, name) {
        Some(j) => {
            let q = if j < active {
                j
            } else {
                j + 1
            };
            assert(closed.open_tabs@[j] == old(state).open_tabs@[q]);
        },
        None => {},
    }
}

/// A table is opened at an entry: the entry is selected where the table is open;
/// else its key is kept until the table is loaded.
pub proof fn law_opened_at_an_entry(
    state: &mut AppState,
    name: &String,
    entry: usize,
    key: u64,
    r: Opened,
    i: int,
)
    requires
        call_ensures(open_at, (state, name, entry, key), r),
    ensures
        0 <= i < old(state).open_tabs@.len() && old(state).open_tabs@[i].dispatch_name@ == name@
            && (forall|j: int|
            0 <= j < i ==> (#[trigger] old(state).open_tabs@[j]).dispatch_name@ != name@) ==> {
            &&& r is Focused
            &&& final(state).active_tab_idx == Some(i as usize)
            &&& entry < old(state).open_tabs@[i].entries@.len() ==> final(
                state).open_tabs@[i].selected_entry_idx == Some(entry)
            &&& entry >= old(state).open_tabs@[i].entries@.len() ==> final(state).open_tabs@[i]
                == old(state).open_tabs@[i]
            &&& final(state).open_tabs@[i].entries == old(state).open_tabs@[i].entries
        },
        r is Loading ==> final(state).pending_xref_nav == Some((*name, key)) && final(
            state).open_tabs@.last().dispatch_name@ == name@,
        r is Refused ==> final(state).open_tabs == old(state).open_tabs && final(
            state).toasts@.last().level == Level::Warn,
        r is Refused ==> old(state).game_dir is None || forall|j: int|
            0 <= j < old(state).tables@.len() ==> (#[trigger] old(state).tables@[j]).dispatch_name@
                != name@,
{
    lemma_tab_named(old(state).open_tabs@, name@);
    lemma_table_named(old(state).tables@, name@);
    assert(old(state).open_tabs@.len() == old(state).open_tabs.len());
    if 0 <= i < old(state).open_tabs@.len() && old(state).open_tabs@[i].dispatch_name@ == name@ && (
    forall|j: int| 0 <= j < i ==> (#[trigger] old(state).open_tabs@[j]).dispatch_name@ != name@) {
        let k = tab_named(old(state).open_tabs@, name@)->Some_0;
        if k < i {
            assert(old(state).open_tabs@[k].dispatch_name@ != name@);
        } else if i < k {
            assert(old(state).open_tabs@[i].dispatch_name@ != name@);
        }
    }
}

/// The members that come first in a table are its columns where the first entry has
/// them; any other column is a member of the first entry that holds a plain value.
pub proof fn law_columns(entries: &[Json], r: Vec<String>, e: Seq<(Seq<char>, Tree)>, c: Seq<char>)
    requires
        call_ensures(detect_columns, (entries,), r),
        entries@.len() > 0,
        entries@[0]@ == Tree::Obj(e),
    ensures
        crate::json::member_of(e, "key"@) is Some ==> views(r@)[0] == "key"@,
        crate::json::member_of(e, "key"@) is None && crate::json::member_of(e, "string_key"@) is Some
            ==> views(r@)[0] == "string_key"@,
        crate::json::member_of(e, "string_key"@) is Some ==> views(r@).contains("string_key"@),
        crate::json::member_of(e, "is_blocked"@) is Some ==> views(r@).contains("is_blocked"@),
        views(r@).contains(c) && c != "key"@ && c != "string_key"@ && c != "is_blocked"@
            ==> exists|i: int|
            0 <= i < e.len() && (#[trigger] e[i]).0 == c && (e[i].1 is Int || e[i].1 is Float
                || e[i].1 is Str || e[i].1 is Bool),
        views(r@).len() < 6 ==> forall|i: int|
            0 <= i < e.len() && ((#[trigger] e[i]).1 is Int || e[i].1 is Float || e[i].1 is Str
                || e[i].1 is Bool) ==> views(r@).contains(e[i].0),
{
    reveal_strlit("key");
    reveal_strlit("string_key");
    reveal_strlit("is_blocked");
    reveal_with_fuel(leading_columns, 4);
    let l = leading_columns(e, 3);
    let (k, s, b) = ("key"@, "string_key"@, "is_blocked"@);
    if crate::json::member_of(e, k) is Some {
        assert(l[0] == k);
    } else if crate::json::member_of(e, s) is Some {
        assert(l[0] == s);
    }
    if crate::json::member_of(e, s) is Some {
        if crate::json::member_of(e, k) is Some {
            assert(l[1] == s);
        } else {
            assert(l[0] == s);
        }
    }
    if crate::json::member_of(e, b) is Some {
        assert(l[l.len() - 1] == b);
    }
    lemma_filled(l, e, e.len());
    let f = filled_columns(l, e, e.len());
    if f.contains(c) && l.contains(c) {
        let i = choose|i: int| 0 <= i < l.len() && l[i] == c;
    }
}

proof fn lemma_filled(cols: Seq<Seq<char>>, e: Seq<(Seq<char>, Tree)>, n: nat)
    requires
        n <= e.len(),
    ensures
        ({
            let f = filled_columns(cols, e, n);
            &&& f.len() >= cols.len()
            &&& forall|i: int| 0 <= i < cols.len() ==> #[trigger] f[i] == cols[i]
            &&& forall|c: Seq<char>|
                f.contains(c) && !cols.contains(c) ==> exists|i: int|
                    0 <= i < n && (#[trigger] e[i]).0 == c && (e[i].1 is Int || e[i].1 is Float
                        || e[i].1 is Str || e[i].1 is Bool)
            &&& forall|c: Seq<char>| cols.contains(c) ==> f.contains(c)
            &&& f.len() < 6 ==> forall|i: int|
                0 <= i < n && ((#[trigger] e[i]).1 is Int || e[i].1 is Float || e[i].1 is Str
                    || e[i].1 is Bool) ==> f.contains(e[i].0)
        }),
    decreases n,
{
    let f = filled_columns(cols, e, n);
    if n > 0 {
        lemma_filled(cols, e, (n - 1) as nat);
        let g = filled_columns(cols, e, (n - 1) as nat);
        let m = e[n - 1].0;
        if f.len() > g.len() {
            assert(f == g.push(m));
            assert(f[g.len() as int] == m);
            assert forall|c: Seq<char>| g.contains(c) implies f.contains(c) by {
                let i = choose|i: int| 0 <= i < g.len() && g[i] == c;
                assert(f[i] == c);
            }
            assert forall|c: Seq<char>| f.contains(c) && !cols.contains(c) implies exists|i: int|
                0 <= i < n && (#[trigger] e[i]).0 == c && (e[i].1 is Int || e[i].1 is Float
                    || e[i].1 is Str || e[i].1 is Bool) by {
                if c != m {
                    let i = choose|i: int| 0 <= i < f.len() && f[i] == c;
                    assert(g[i] == c);
                    assert(g.contains(c));
                } else {
                    assert(e[n - 1].0 == c);
                }
            }
        }
    }
}

/// The view that is clicked is shown, whatever it was; what is edited stays. A view
/// that lists what is on disk reads it anew.
pub proof fn law_clicked_view(
    state: &mut AppState,
    view: MainView,
    templates: Result<Vec<Template>, String>,
)
    requires
        call_ensures(click_view, (state, view, templates), ()),
    ensures
        final(state).main_view == view,
        final(state).open_tabs == old(state).open_tabs,
        final(state).active_tab_idx == old(state).active_tab_idx,
        final(state).profile_store == old(state).profile_store,
        old(state).main_view == view ==> *final(state) == *old(state),
        old(state).main_view != view ==> {
            &&& view is Backups ==> !final(state).backup_loaded_once
            &&& view is Library ==> !final(state).library_loaded
            &&& view is Archive ==> final(state).archive.groups is None
            &&& view is Templates && old(state).user_templates@.len() == 0 && templates is Ok
                ==> final(state).user_templates == templates->Ok_0
            &&& view is Templates && old(state).user_templates@.len() == 0 && templates is Err
                ==> final(state).toasts@.last().details == Some(templates->Err_0@)
            &&& !(view is Backups) ==> final(state).backup_loaded_once == old(
                state).backup_loaded_once
            &&& !(view is Library) ==> final(state).library_loaded == old(state).library_loaded
            &&& !(view is Archive) ==> final(state).archive == old(state).archive
            &&& !(view is Templates) ==> final(state).toasts == old(state).toasts
        },
{
}

/// Every view has one place in the bar, and no two share one.
pub proof fn law_views_in_the_bar(r: Vec<Vec<MainView>>, view: MainView, g: int, i: int, h: int, k: int)
    requires
        call_ensures(view_groups, (), r),
        0 <= g < r@.len(),
        0 <= i < r@[g]@.len(),
        0 <= h < r@.len(),
        0 <= k < r@[h]@.len(),
    ensures
        exists|x: int, y: int|
            0 <= x < r@.len() && 0 <= y < r@[x]@.len() && #[trigger] r@[x]@[y] == view,
        r@[g]@[i] == r@[h]@[k] ==> g == h && i == k,
{
    let bar = crate::ui::view_tab_bar::bar();
    let m = r@.map_values(|g: Vec<MainView>| g@);
    assert(m[g] == r@[g]@);
    assert(m[h] == r@[h]@);
    law_every_view_once(view, g, i);
    law_every_view_once(r@[g]@[i], g, i);
    law_every_view_once(r@[g]@[i], h, k);
    let p = place(view);
    assert(m[p.0] == r@[p.0]@);
    assert(r@[p.0]@[p.1] == view);
}

/// The game directory that is picked is used and kept where it holds an index; any
/// other is refused, and the old one stays.
pub proof fn law_picked_game_directory(state: &mut AppState, path: &String, has_index: bool, dirty: bool)
    requires
        call_ensures(pick_game_dir, (state, path, has_index), dirty),
    ensures
        has_index ==> final(state).game_dir == Some(*path) && final(state).config.game_dir == Some(
            *path,
        ) && dirty,
        !has_index ==> final(state).game_dir == old(state).game_dir && final(state).config == old(
            state).config && final(state).toasts@.last().level == Level::Error && !dirty,
        final(state).config.theme == old(state).config.theme,
        final(state).config.recent_mods == old(state).config.recent_mods,
{
}

/// Each setting is kept where it belongs, and the others stay.
pub proof fn law_settings_are_kept(
    state: &mut AppState,
    path: &String,
    count: usize,
    catalog: bool,
    r: usize,
)
    requires
        catalog ==> call_ensures(pick_catalog, (state, path), ()),
        !catalog ==> call_ensures(set_retention, (state, count), ()),
        call_ensures(retention, (&final(state).config,), r),
    ensures
        catalog ==> final(state).config.catalog_path == Some(*path) && final(
            state).config.snapshot_retention == old(state).config.snapshot_retention,
        !catalog ==> r == count && final(state).config.catalog_path == old(
            state).config.catalog_path,
        final(state).config.game_dir == old(state).config.game_dir,
        final(state).config.theme == old(state).config.theme,
        final(state).game_dir == old(state).game_dir,
{
}

/// A chosen theme is in use from then on, and is shown once: where it is another
/// than before.
pub proof fn law_chosen_theme(state: &mut AppState, theme: Theme, changed: bool, now: Theme)
    requires
        call_ensures(choose_theme, (state, theme), changed),
        call_ensures(current_theme, (&final(state).config,), now),
    ensures
        now == theme,
        changed ==> final(state).theme_change_pending && final(state).config.theme == Some(theme),
        old(state).config.theme is Some ==> changed == (old(state).config.theme != Some(theme)),
        old(state).config.theme is None ==> changed == (theme != Theme::Dark),
        final(state).config.game_dir == old(state).config.game_dir,
        final(state).config.snapshot_retention == old(state).config.snapshot_retention,
{
}

/// A theme that waits to be shown is handed out once.
pub proof fn law_theme_is_shown_once(state: &mut AppState, r: Option<Theme>)
    requires
        call_ensures(take_theme_change, (state,), r),
    ensures
        !final(state).theme_change_pending,
        r is Some <==> old(state).theme_change_pending,
        r is Some && old(state).config.theme is Some ==> r == old(state).config.theme,
        r is Some && old(state).config.theme is None ==> r == Some(Theme::Dark),
        final(state).config == old(state).config,
{
}

/// A reset brings the dark theme and the number of snapshots that is kept by
/// default; the directories stay.
pub proof fn law_reset_settings(state: &mut AppState, theme: Theme, kept: usize)
    requires
        call_ensures(reset_to_defaults, (state,), ()),
        call_ensures(current_theme, (&final(state).config,), theme),
        call_ensures(retention, (&final(state).config,), kept),
    ensures
        theme == Theme::Dark,
        kept == 20,
        final(state).theme_change_pending,
        final(state).config.game_dir == old(state).config.game_dir,
        final(state).config.catalog_path == old(state).config.catalog_path,
        final(state).config.recent_mods == old(state).config.recent_mods,
        final(state).game_dir == old(state).game_dir,
{
}

proof fn lemma_wizard(v: Seq<WizardInfo>, name: Seq<char>)
    ensures
        wizard_named(v, name) is Some <==> exists|i: int|
            0 <= i < v.len() && (#[trigger] v[i]).name@ == name,
    decreases v.len(),
{
    if v.len() > 0 {
        let d = v.drop_first();
        lemma_wizard(d, name);
        if v[0].name@ == name {
        } else if wizard_named(v, name) is Some {
            let i = choose|i: int| 0 <= i < d.len() && (#[trigger] d[i]).name@ == name;
            assert(v[i + 1] == d[i]);
        } else if exists|i: int| 0 <= i < v.len() && (#[trigger] v[i]).name@ == name {
            let i = choose|i: int| 0 <= i < v.len() && (#[trigger] v[i]).name@ == name;
            assert(d[i - 1] == v[i]);
        }
    }
}

/// A guided flow opens where none is open and there is one of its name.
pub proof fn law_wizard_opens(
    state: &mut AppState,
    v: &Vec<WizardInfo>,
    name: &String,
    opened: bool,
)
    requires
        call_ensures(open_wizard, (state, v, name), opened),
    ensures
        opened <==> old(state).active_wizard is None && exists|i: int|
            0 <= i < v@.len() && (#[trigger] v@[i]).name@ == name@,
        opened ==> final(state).active_wizard == Some(*name),
        !opened ==> *final(state) == *old(state),
{
    lemma_wizard(v@, name@);
}

/// A guided flow stays open while it goes on and is closed when it ends; a complete
/// one says what it did and how many changes it made.
pub proof fn law_wizard_ends(state: &mut AppState, result: &WizardResult)
    requires
        call_ensures(wizard_frame_done, (state, result), ()),
    ensures
        result is InProgress ==> *final(state) == *old(state),
        !(result is InProgress) ==> final(state).active_wizard is None && final(
            state).toasts@.last().level == Level::Info,
        result matches WizardResult::Completed { changes_applied: n, summary: s } ==> final(
            state).toasts@.last().message == s@ + " ("@ + dec(n as nat) + (if n == 1 {
            " change)"@
        } else {
            " changes)"@
        }),
        final(state).open_tabs == old(state).open_tabs,
{
    reveal_strlit(" change");
    reveal_strlit("");
    reveal_strlit("s");
    reveal_strlit(")");
    reveal_strlit(" change)");
    reveal_strlit(" changes)");
    match *result {
        WizardResult::Completed { changes_applied: n, summary: s } => {
            let m = final(state).toasts@.last().message;
            let x = s@ + " ("@ + dec(n as nat);
            if n == 1 {
                assert(m =~= x + " change)"@);
            } else {
                assert(m =~= x + " changes)"@);
            }
        },
        _ => {},
    }
}

/// Changes are applied from a table in focus to a game directory; taking them out
/// and starting the game need the directory alone.
pub proof fn law_bottom_buttons(state: &AppState, action: BottomBarAction, r: bool)
    requires
        call_ensures(action_enabled, (state, action), r),
    ensures
        state.game_dir is None ==> !r,
        action != BottomBarAction::Apply ==> r == (state.game_dir is Some),
        action == BottomBarAction::Apply && state.active_tab_idx is None ==> !r,
        action == BottomBarAction::Apply && state.active_tab_idx is Some
            && state.active_tab_idx->Some_0 < state.open_tabs@.len() ==> r == (state.game_dir is Some),
{
}

/// The bar at the bottom tells the game directory, the table in focus with the
/// number of its entries, and the number of its changes.
pub proof fn law_bottom_texts(state: &AppState, dir: String, table: String, changes: String, i: usize)
    requires
        call_ensures(dir_text, (state,), dir),
        call_ensures(table_text, (state,), table),
        call_ensures(changes_text, (state,), changes),
    ensures
        state.game_dir is Some ==> dir@ == state.game_dir->Some_0@,
        state.active_tab_idx == Some(i) && i < state.open_tabs@.len() ==> {
            let t = state.open_tabs@[i as int];
            &&& table@ == t.dispatch_name@ + " ("@ + dec(t.entries@.len()) + " entries)"@
            &&& t.changes@.len() > 0 ==> changes@ == dec(t.changes@.len()) + " entries modified"@
            &&& t.changes@.len() == 0 ==> changes@ == "No changes"@
        },
        state.active_tab_idx is None ==> table@ == "No table loaded"@ && changes@ == "No changes"@,
{
}

/// A note is put last, with its words and its level; those before it stay.
pub proof fn law_notes_are_put_last(notes: &mut Toasts, message: &str, level: Level, i: int)
    requires
        level is Info ==> call_ensures(Toasts::info, (notes, message), ()),
        level is Warn ==> call_ensures(Toasts::warn, (notes, message), ()),
        level is Error ==> call_ensures(Toasts::error, (notes, message), ()),
    ensures
        final(notes)@.len() == old(notes)@.len() + 1,
        final(notes)@.last().level == level,
        final(notes)@.last().message == message@,
        0 <= i < old(notes)@.len() ==> final(notes)@[i] == old(notes)@[i],
{
}

/// The table in focus is that of the tab in front.
pub proof fn law_table_in_focus(state: &AppState, r: Option<&ActiveTable>, i: usize)
    requires
        call_ensures(AppState::active_table, (state,), r),
    ensures
        state.active_tab_idx == Some(i) && i < state.open_tabs@.len() ==> r is Some && *r->Some_0
            == state.open_tabs@[i as int],
        state.active_tab_idx is None ==> r is None,
{
}

/// A key that is renewed names its entry, and every other entry keeps its own.
pub proof fn law_key_is_renewed(
    state: &mut AppState,
    tab: usize,
    entry: usize,
    key: u64,
    i: int,
    j: int,
)
    requires
        call_ensures(AppState::renew_entry_key, (state, tab, entry, key), ()),
        tab < old(state).open_tabs@.len(),
        entry < old(state).open_tabs@[tab as int].entry_keys@.len(),
        0 <= i < old(state).open_tabs@.len(),
        0 <= j < old(state).open_tabs@[i].entry_keys@.len(),
    ensures
        final(state).open_tabs@[tab as int].entry_keys@[entry as int] == key,
        (i, j) != (tab as int, entry as int) ==> final(state).open_tabs@[i].entry_keys@[j] == old(
            state).open_tabs@[i].entry_keys@[j],
        final(state).open_tabs@[i].entries == old(state).open_tabs@[i].entries,
{
}

} // verus!
