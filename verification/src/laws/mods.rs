//! Laws of the library and its profiles, the lint findings and the templates.

use vstd::prelude::*;
use crate::digits::dec;
use crate::edit_path::{
    law_set_get, lemma_member_index, member_index, path_hops, value_at, value_with,
};
use crate::json::{equal_trees, tree_get, trees, Json, Tree};
use crate::rows::law_picked;
use crate::state::{lemma_tab_named, ActiveTable, AppState, Level};
use crate::text::trimmed;
use crate::ui::library_panel::{
    add_to_active, apply_active, apply_request, delete_library_entry, dropped, import_paths,
    imported, library_match, mod_at, move_in_active, new_profile, profile_named, refresh_library,
    remove_from_active, rename_active, skip_notes, switch_active, ApplyReport, LibraryMod,
    ScanReport, Selection, StoreChange,
};
use crate::ui::lint_panel::{
    apply_fix, count_by_severity, entry_with_key, severity_count, target_line, worst_severity,
    AutoFix, LintFinding, Severity,
};
use crate::ui::templates_panel::{
    apply_to_active_entry, chosen, draft_template, finish_draft, law_draft_of_top_level_fields,
    listed_templates, progress, template_deleted, template_listed, Template, TemplateDraft,
    TemplateField, TemplateIdx,
};

verus! {

broadcast use vstd::seq_lib::group_seq_properties;

/// The profile with a name is the first that has it.
pub proof fn lemma_profile(v: Seq<Selection>, name: Seq<char>)
    ensures
        match profile_named(v, name) {
            Some(i) => 0 <= i < v.len() && v[i].name == name && forall|j: int|
                0 <= j < i ==> (#[trigger] v[j]).name != name,
            None => forall|j: int| 0 <= j < v.len() ==> (#[trigger] v[j]).name != name,
        },
    decreases v.len(),
{
    if v.len() > 0 && v[0].name != name {
        let d = v.drop_first();
        lemma_profile(d, name);
        match profile_named(v, name) {
            Some(i) => {
                assert forall|j: int| 0 <= j < i implies (#[trigger] v[j]).name != name by {
                    if j > 0 {
                        assert(d[j - 1] == v[j]);
                    }
                }
            },
            None => {
                assert forall|j: int| 0 <= j < v.len() implies (#[trigger] v[j]).name != name by {
                    if j > 0 {
                        assert(d[j - 1] == v[j]);
                    }
                }
            },
        }
    }
}

/// A new profile is empty, comes behind the others under a name that none of them
/// has, and is in use.
pub proof fn law_new_profile(state: &mut AppState, r: StoreChange, j: int)
    requires
        old(state).profile_store.profiles@.len() < usize::MAX - 1,
        call_ensures(new_profile, (state,), r),
    ensures
        ({
            let (b, a) = (old(state).profile_store@, final(state).profile_store@);
            &&& r is Created
            &&& a.profiles.len() == b.profiles.len() + 1
            &&& 0 <= j < b.profiles.len() ==> a.profiles[j] == b.profiles[j]
                && a.profiles[j].name != r->Created_0@
            &&& a.profiles.last().name == r->Created_0@
            &&& a.profiles.last().mods.len() == 0
            &&& a.active == Some(r->Created_0@)
        }),
        final(state).library == old(state).library,
{
    lemma_profile(old(state).profile_store@.profiles, r->Created_0@);
}

/// The profile that is chosen is in use, where it is there.
pub proof fn law_profile_is_switched(state: &mut AppState, name: &str, r: Option<StoreChange>)
    requires
        call_ensures(switch_active, (state, name), r),
    ensures
        final(state).profile_store@.profiles == old(state).profile_store@.profiles,
        r is Some ==> final(state).profile_store@.active == Some(name@),
        r is None ==> *final(state) == *old(state),
{
}

/// The profile in use stands at a position.
pub open spec fn uses(s: AppState, i: int) -> bool {
    &&& s.profile_store@.active is Some
    &&& 0 <= i < s.profile_store@.profiles.len()
    &&& s.profile_store@.profiles[i].name == s.profile_store@.active->Some_0
    &&& forall|j: int|
        0 <= j < i ==> (#[trigger] s.profile_store@.profiles[j]).name
            != s.profile_store@.active->Some_0
}

/// The profile in use is the first with its name.
pub proof fn lemma_uses(s: AppState, i: int)
    requires
        uses(s, i),
    ensures
        s.profile_store@.in_use() == Some(i),
{
    let (v, n) = (s.profile_store@.profiles, s.profile_store@.active->Some_0);
    lemma_profile(v, n);
    let k = profile_named(v, n)->Some_0;
    if k < i {
        assert(v[k].name != n);
    } else if i < k {
        assert(v[i].name != n);
    }
}

/// A mod that is added stands last in the profile in use, by its path, and
/// nowhere else; one that is there already stays where it is.
pub proof fn law_mod_is_added(state: &mut AppState, idx: usize, r: Option<StoreChange>, i: int, j: int)
    requires
        call_ensures(add_to_active, (state, idx), r),
        idx < old(state).library@.len(),
        uses(*old(state), i),
        0 <= j < old(state).profile_store@.profiles.len(),
    ensures
        ({
            let path = old(state).library@[idx as int].path@;
            let (b, a) = (old(state).profile_store@.profiles, final(state).profile_store@.profiles);
            &&& a.len() == b.len()
            &&& b[i].mods.contains(path) ==> a == b && r is None
            &&& !b[i].mods.contains(path) ==> a[i].mods == b[i].mods.push(path) && r is Some
            &&& a[i].name == b[i].name
            &&& j != i ==> a[j] == b[j]
        }),
        final(state).profile_store@.active == old(state).profile_store@.active,
{
    lemma_uses(*old(state), i);
}

/// A mod that is taken out of the profile in use is gone from its place; those
/// before and behind stay in order.
pub proof fn law_mod_is_taken_out(state: &mut AppState, idx: usize, r: Option<StoreChange>, i: int, j: int)
    requires
        call_ensures(remove_from_active, (state, idx), r),
        uses(*old(state), i),
        idx < old(state).profile_store@.profiles[i].mods.len(),
    ensures
        ({
            let (b, a) = (
                old(state).profile_store@.profiles[i].mods,
                final(state).profile_store@.profiles[i].mods,
            );
            &&& r is Some
            &&& a.len() == b.len() - 1
            &&& 0 <= j < idx ==> a[j] == b[j]
            &&& idx <= j < a.len() ==> a[j] == b[j + 1]
        }),
{
    lemma_uses(*old(state), i);
}

/// A mod that is moved stands so many places further on, or at the end; the others
/// keep their order, and none is lost.
pub proof fn law_mod_is_moved(
    state: &mut AppState,
    idx: usize,
    delta: i32,
    r: Option<StoreChange>,
    i: int,
)
    requires
        call_ensures(move_in_active, (state, idx, delta), r),
        uses(*old(state), i),
        idx < old(state).profile_store@.profiles[i].mods.len(),
    ensures
        ({
            let (b, a) = (
                old(state).profile_store@.profiles[i].mods,
                final(state).profile_store@.profiles[i].mods,
            );
            &&& a.len() == b.len()
            &&& 0 <= idx + delta < b.len() ==> a[idx + delta] == b[idx as int]
            &&& idx + delta < 0 ==> a[0] == b[idx as int]
            &&& idx + delta >= b.len() ==> a[a.len() - 1] == b[idx as int]
            &&& delta == -1 && idx > 0 ==> a[idx as int] == b[idx - 1]
            &&& delta == 1 && idx + 1 < b.len() ==> a[idx as int] == b[idx + 1]
        }),
{
    lemma_uses(*old(state), i);
}

/// A profile that is renamed has its new name without blanks around it, with the
/// mods that it had, and stays in use where it was. A blank name, or one that
/// another profile has, is refused.
pub proof fn law_profile_is_renamed(
    state: &mut AppState,
    from: &str,
    to: &str,
    r: Option<StoreChange>,
    i: int,
)
    requires
        call_ensures(rename_active, (state, from, to), r),
    ensures
        trimmed(to@).len() == 0 ==> r is None,
        r is None ==> final(state).profile_store == old(state).profile_store && final(
            state).toasts@.last().level == Level::Warn,
        r is Some && 0 <= i < old(state).profile_store@.profiles.len() && old(
            state).profile_store@.profiles[i].name == from@ && (forall|j: int|
            0 <= j < i ==> (#[trigger] old(state).profile_store@.profiles[j]).name != from@) ==> {
            let (b, a) = (old(state).profile_store@, final(state).profile_store@);
            &&& a.profiles[i].name == trimmed(to@)
            &&& a.profiles[i].mods == b.profiles[i].mods
            &&& a.profiles.len() == b.profiles.len()
            &&& b.active == Some(from@) ==> a.active == Some(trimmed(to@))
            &&& b.active != Some(from@) ==> a.active == b.active
        },
        0 <= i < old(state).profile_store@.profiles.len() && old(
            state).profile_store@.profiles[i].name == trimmed(to@) && from@ != trimmed(to@)
            ==> r is None,
{
    let v = old(state).profile_store@.profiles;
    lemma_profile(v, from@);
    lemma_profile(v, trimmed(to@));
    if r is Some && 0 <= i < v.len() && v[i].name == from@ && (forall|j: int|
        0 <= j < i ==> (#[trigger] v[j]).name != from@) {
        let k = profile_named(v, from@)->Some_0;
        if k < i {
            assert(v[k].name != from@);
        } else if i < k {
            assert(v[i].name != from@);
        }
    }
}

/// A mod that was deleted from the library is in no profile any more; every other
/// mod stays in the profiles that it was in.
pub proof fn law_deleted_mod_leaves_the_profiles(
    state: &mut AppState,
    idx: usize,
    result: &Result<(), String>,
    r: Option<StoreChange>,
    i: int,
    other: Seq<char>,
)
    requires
        call_ensures(delete_library_entry, (state, idx, result), r),
        idx < old(state).library@.len(),
        0 <= i < old(state).profile_store@.profiles.len(),
        other != old(state).library@[idx as int].path@,
    ensures
        final(state).profile_store@.profiles.len() == old(state).profile_store@.profiles.len(),
        result is Ok ==> !final(state).profile_store@.profiles[i].mods.contains(
            old(state).library@[idx as int].path@,
        ) && final(state).profile_store@.profiles[i].mods.contains(other) == old(
            state).profile_store@.profiles[i].mods.contains(other) && final(
            state).profile_store@.profiles[i].name == old(state).profile_store@.profiles[i].name,
        result is Err ==> final(state).profile_store == old(state).profile_store && r is None
            && final(state).toasts@.last().level == Level::Error,
{
    let path = old(state).library@[idx as int].path@;
    let v = old(state).profile_store@.profiles;
    let keep = crate::ui::library_panel::other_path(path);
    let m = v[i].mods;
    if result is Ok {
        assert(dropped(v, path)[i].mods == m.filter(keep));
        if m.filter(keep).contains(path) {
            let k = choose|k: int| 0 <= k < m.filter(keep).len() && m.filter(keep)[k] == path;
            m.lemma_filter_pred(keep, k);
        }
        if m.contains(other) {
            let k = choose|k: int| 0 <= k < m.len() && m[k] == other;
            m.lemma_filter_contains(keep, k);
        }
        if m.filter(keep).contains(other) {
            m.lemma_filter_contains_rev(keep, other);
        }
    }
}

/// The mods that were scanned are the library; each file that was skipped is said
/// with the reason.
pub proof fn law_library_is_scanned(state: &mut AppState, scanned: Result<ScanReport, String>)
    requires
        call_ensures(refresh_library, (state, scanned), ()),
    ensures
        scanned is Ok ==> final(state).library == scanned->Ok_0.mods && final(state).library_loaded
            && final(state).toasts@.len() == old(state).toasts@.len()
            + scanned->Ok_0.errors@.len(),
        scanned is Err ==> final(state).library == old(state).library && final(
            state).toasts@.last().level == Level::Error,
        final(state).profile_store == old(state).profile_store,
{
    if scanned is Ok {
        lemma_skips(scanned->Ok_0.errors@, scanned->Ok_0.errors@.len());
    }
}

proof fn lemma_skips(v: Seq<(String, String)>, n: nat)
    requires
        n <= v.len(),
    ensures
        skip_notes(v, n).len() == n,
        forall|i: int|
            0 <= i < n ==> (#[trigger] skip_notes(v, n)[i]).level == Level::Warn && skip_notes(
                v,
                n,
            )[i].message == "Skipped "@ + v[i].0@ + ": "@ + v[i].1@,
    decreases n,
{
    if n > 0 {
        lemma_skips(v, (n - 1) as nat);
    }
}

/// The library is scanned again exactly where some mod was imported; each that
/// could not be is said with the reason.
pub proof fn law_imports(
    state: &mut AppState,
    results: &Vec<(String, Result<(), String>)>,
    again: bool,
    i: int,
)
    requires
        call_ensures(import_paths, (state, results), again),
    ensures
        0 <= i < results@.len() && results@[i].1 is Ok ==> again,
        again ==> exists|k: int| 0 <= k < results@.len() && (#[trigger] results@[k]).1 is Ok,
        again ==> final(state).toasts@.last().level == Level::Info && final(
            state).toasts@.last().message == "Imported "@ + dec(
            imported(results@, results@.len()),
        ) + " mod(s) into the library"@,
        final(state).library == old(state).library,
{
    lemma_imported(results@, results@.len());
}

proof fn lemma_imported(v: Seq<(String, Result<(), String>)>, n: nat)
    requires
        n <= v.len(),
    ensures
        imported(v, n) > 0 <==> exists|k: int| 0 <= k < n && (#[trigger] v[k]).1 is Ok,
        imported(v, n) <= n,
    decreases n,
{
    if n > 0 {
        lemma_imported(v, (n - 1) as nat);
        if v[n - 1].1 is Ok {
            assert(v[n - 1].1 is Ok);
        }
    }
}

/// A profile is applied to the game directory that is set, and it is the one in
/// use; without a directory or a profile in use none is, and that is said.
pub proof fn law_profile_to_apply(state: &mut AppState, r: Option<(String, usize)>, i: int)
    requires
        call_ensures(apply_request, (state,), r),
    ensures
        r is Some ==> Some(r->Some_0.0) == old(state).game_dir,
        old(state).game_dir is Some && uses(*old(state), i) ==> r is Some && r->Some_0.1 == i,
        old(state).game_dir is None || old(state).profile_store@.active is None ==> r is None,
        r is None ==> final(state).toasts@.last().level == Level::Warn,
{
    if uses(*old(state), i) {
        lemma_uses(*old(state), i);
    }
}

/// An applied profile is said with the number of mods that were deployed; where
/// some were skipped, that is an error that names each.
pub proof fn law_applied_profile_is_reported(
    state: &mut AppState,
    name: &str,
    result: &Result<ApplyReport, String>,
)
    requires
        call_ensures(apply_active, (state, name, result), ()),
    ensures
        result is Err ==> final(state).toasts@.last().level == Level::Error && final(
            state).toasts@.last().details == Some(result->Err_0@),
        result is Ok && result->Ok_0.skipped@.len() == 0 && result->Ok_0.deployed > 0 ==> final(
            state).toasts@.last().level == Level::Info && final(state).toasts@.last().message
            == "Profile '"@ + name@ + "' applied — "@ + dec(result->Ok_0.deployed as nat)
            + " mod(s) deployed."@,
        result is Ok && result->Ok_0.skipped@.len() > 0 ==> final(state).toasts@.last().level
            == Level::Error && final(state).toasts@.last().message == "Profile '"@ + name@
            + "': deployed "@ + dec(result->Ok_0.deployed as nat) + " / skipped "@ + dec(
            result->Ok_0.skipped@.len(),
        ),
        final(state).profile_store == old(state).profile_store,
{
}

/// A mod is found by its path: the first with it.
pub proof fn law_mod_by_path(v: &Vec<LibraryMod>, path: &str, r: Option<usize>)
    requires
        call_ensures(library_match, (v, path), r),
    ensures
        r is Some ==> r->Some_0 < v@.len() && v@[r->Some_0 as int].path@ == path@ && forall|j: int|
            0 <= j < r->Some_0 ==> (#[trigger] v@[j]).path@ != path@,
        r is None ==> forall|j: int| 0 <= j < v@.len() ==> (#[trigger] v@[j]).path@ != path@,
{
    lemma_mod_at(v@, path@);
}

proof fn lemma_mod_at(v: Seq<LibraryMod>, path: Seq<char>)
    ensures
        match mod_at(v, path) {
            Some(i) => 0 <= i < v.len() && v[i].path@ == path && forall|j: int|
                0 <= j < i ==> (#[trigger] v[j]).path@ != path,
            None => forall|j: int| 0 <= j < v.len() ==> (#[trigger] v[j]).path@ != path,
        },
    decreases v.len(),
{
    if v.len() > 0 && v[0].path@ != path {
        let d = v.drop_first();
        lemma_mod_at(d, path);
        match mod_at(v, path) {
            Some(i) => {
                assert forall|j: int| 0 <= j < i implies (#[trigger] v[j]).path@ != path by {
                    if j > 0 {
                        assert(d[j - 1] == v[j]);
                    }
                }
            },
            None => {
                assert forall|j: int| 0 <= j < v.len() implies (#[trigger] v[j]).path@ != path by {
                    if j > 0 {
                        assert(d[j - 1] == v[j]);
                    }
                }
            },
        }
    }
}

/// The entry that a finding is about stands at a position: it is the first with
/// its key in the first tab of its table.
pub open spec fn about(s: AppState, f: LintFinding, t: int, e: int) -> bool {
    &&& 0 <= t < s.open_tabs@.len()
    &&& s.open_tabs@[t].dispatch_name@ == f.table@
    &&& forall|j: int| 0 <= j < t ==> (#[trigger] s.open_tabs@[j]).dispatch_name@ != f.table@
    &&& 0 <= e < s.open_tabs@[t].entry_keys@.len()
    &&& s.open_tabs@[t].entry_keys@[e] == f.entry_key
    &&& forall|j: int| 0 <= j < e ==> #[trigger] s.open_tabs@[t].entry_keys@[j] != f.entry_key
}

proof fn lemma_key_place(keys: Seq<u64>, key: u64, e: int)
    requires
        0 <= e < keys.len(),
        keys[e] == key,
        forall|j: int| 0 <= j < e ==> #[trigger] keys[j] != key,
    ensures
        entry_with_key(keys, key) == Some(e),
    decreases e,
{
    if e > 0 {
        let d = keys.drop_first();
        assert(keys[0] != key);
        assert forall|j: int| 0 <= j < e - 1 implies #[trigger] d[j] != key by {
            assert(d[j] == keys[j + 1]);
        }
        lemma_key_place(d, key, e - 1);
    }
}

/// The entry that a finding is about is found by its table and its key.
pub proof fn lemma_about(s: AppState, f: LintFinding, t: int, e: int)
    requires
        about(s, f, t, e),
    ensures
        crate::state::tab_named(s.open_tabs@, f.table@) == Some(t),
        entry_with_key(s.open_tabs@[t].entry_keys@, f.entry_key) == Some(e),
{
    lemma_tab_named(s.open_tabs@, f.table@);
    let k = crate::state::tab_named(s.open_tabs@, f.table@)->Some_0;
    if k < t {
        assert(s.open_tabs@[k].dispatch_name@ != f.table@);
    } else if t < k {
        assert(s.open_tabs@[t].dispatch_name@ != f.table@);
    }
    lemma_key_place(s.open_tabs@[t].entry_keys@, f.entry_key, e);
}

/// A fix that sets a field leaves the suggested value there, notes the change and
/// keeps the old value in the history; no other tab changes.
pub proof fn law_fix_sets_the_field(
    state: &mut AppState,
    f: &LintFinding,
    now: u64,
    r: Result<(), String>,
    t: int,
    e: int,
    path: String,
    v: Json,
    other: int,
)
    requires
        old(state).tabs_wf(),
        call_ensures(apply_fix, (state, f, now), r),
        about(*old(state), *f, t, e),
        f.fix_suggestion == Some(AutoFix::SetField { field_path: path, new_value: v }),
        0 <= other < old(state).open_tabs@.len(),
    ensures
        r is Ok <==> value_with(old(state).open_tabs@[t].entries@[e]@, path@, v@) is Some,
        r is Ok ==> {
            let (b, a) = (old(state).open_tabs@[t], final(state).open_tabs@[t]);
            &&& value_at(a.entries@[e]@, path@) == Some(v@)
            &&& a.changes@.contains((f.entry_key, path@))
            &&& a.history.edits().last().new_value == v@
            &&& a.history.edits().last().entry_key == f.entry_key
            &&& a.history.edits().last().old_value == match value_at(b.entries@[e]@, path@) {
                Some(x) => x,
                None => Tree::Null,
            }
        },
        other != t ==> final(state).open_tabs@[other] == old(state).open_tabs@[other],
{
    lemma_about(*old(state), *f, t, e);
    let (b, a) = (old(state).open_tabs@[t], final(state).open_tabs@[t]);
    assert(b.wf());
    if value_with(b.entries@[e]@, path@, v@) is Some {
        law_set_get(b.entries@[e]@, path_hops(path@)->Some_0, v@);
        assert(trees(a.entries@)[e] == a.entries@[e]@);
        let c = b.changes@;
        if !c.contains((f.entry_key, path@)) {
            assert(c.push((f.entry_key, path@))[c.len() as int] == (f.entry_key, path@));
        }
    }
}

/// A fix that removes a field leaves the entry without the first member of that
/// name, and the other members as they were.
pub proof fn law_fix_removes_the_field(
    state: &mut AppState,
    f: &LintFinding,
    now: u64,
    r: Result<(), String>,
    t: int,
    e: int,
    path: String,
    other: Seq<char>,
)
    requires
        old(state).tabs_wf(),
        call_ensures(apply_fix, (state, f, now), r),
        about(*old(state), *f, t, e),
        f.fix_suggestion == Some(AutoFix::RemoveField { field_path: path }),
        r is Ok,
        other != path@,
    ensures
        ({
            let (b, a) = (
                old(state).open_tabs@[t].entries@[e]@,
                final(state).open_tabs@[t].entries@[e]@,
            );
            &&& b is Obj
            &&& a is Obj
            &&& tree_get(b, path@) is None ==> a == b
            &&& tree_get(b, path@) is Some ==> a->Obj_0.len() == b->Obj_0.len() - 1
            &&& tree_get(a, other) == tree_get(b, other)
            &&& !path@.contains('.')
            &&& !path@.contains('[')
        }),
        final(state).open_tabs@[t].changes@.contains((f.entry_key, path@)),
{
    lemma_about(*old(state), *f, t, e);
    let (b, a) = (old(state).open_tabs@[t], final(state).open_tabs@[t]);
    assert(b.wf());
    let x = b.entries@[e]@->Obj_0;
    assert(trees(a.entries@)[e] == a.entries@[e]@);
    lemma_member_index(x, path@);
    match member_index(x, path@) {
        Some(i) => {
            lemma_member_kept(x, i, other);
        },
        None => {},
    }
    let c = b.changes@;
    if !c.contains((f.entry_key, path@)) {
        assert(c.push((f.entry_key, path@))[c.len() as int] == (f.entry_key, path@));
    }
}

proof fn lemma_member_kept(x: Seq<(Seq<char>, Tree)>, i: int, other: Seq<char>)
    requires
        0 <= i < x.len(),
        x[i].0 != other,
    ensures
        tree_get(Tree::Obj(x.remove(i)), other) == tree_get(Tree::Obj(x), other),
    decreases i,
{
    let y = x.remove(i);
    if i == 0 {
        assert(y =~= x.drop_first());
    } else {
        let d = x.drop_first();
        assert(y[0] == x[0]);
        assert(y.drop_first() =~= d.remove(i - 1));
        lemma_member_kept(d, i - 1, other);
    }
}

/// A fix is refused where there is none, where its table is not open, or where it
/// is to be made by hand; then no table changes.
pub proof fn law_fix_is_refused(
    state: &mut AppState,
    f: &LintFinding,
    now: u64,
    r: Result<(), String>,
)
    requires
        old(state).tabs_wf(),
        call_ensures(apply_fix, (state, f, now), r),
    ensures
        f.fix_suggestion is None ==> r is Err,
        f.fix_suggestion matches Some(AutoFix::Custom(_)) ==> r is Err,
        (forall|j: int|
            0 <= j < old(state).open_tabs@.len() ==> (#[trigger] old(
                state).open_tabs@[j]).dispatch_name@ != f.table@) ==> r is Err,
        r is Err ==> final(state).open_tabs@ == old(state).open_tabs@,
{
    lemma_tab_named(old(state).open_tabs@, f.table@);
}

/// The findings of each severity are counted.
pub proof fn law_findings_are_counted(f: Seq<LintFinding>, x: LintFinding, s: Severity)
    ensures
        severity_count(f.push(x), s, f.len() + 1) == severity_count(f, s, f.len()) + (
        if x.severity == s {
            1int
        } else {
            0
        }),
        severity_count(f, s, 0) == 0,
{
    lemma_severities_alike(f, f.push(x), s, f.len());
}

proof fn lemma_severities_alike(a: Seq<LintFinding>, b: Seq<LintFinding>, s: Severity, n: nat)
    requires
        n <= a.len(),
        n <= b.len(),
        forall|i: int| 0 <= i < n ==> a[i] == b[i],
    ensures
        severity_count(a, s, n) == severity_count(b, s, n),
    decreases n,
{
    if n > 0 {
        lemma_severities_alike(a, b, s, (n - 1) as nat);
    }
}

/// The severities of findings are counted in the order error, warning, information.
pub proof fn law_counts_by_severity(f: &Vec<LintFinding>, r: (usize, usize, usize))
    requires
        call_ensures(count_by_severity, (f,), r),
    ensures
        f@.len() == 1 && f@[0].severity == Severity::Error ==> r == (1usize, 0usize, 0usize),
        f@.len() == 1 && f@[0].severity == Severity::Warn ==> r == (0usize, 1usize, 0usize),
        f@.len() == 1 && f@[0].severity == Severity::Info ==> r == (0usize, 0usize, 1usize),
        r.0 + r.1 + r.2 == f@.len(),
{
    reveal_with_fuel(severity_count, 2);
    crate::ui::lint_panel::law_counts_add_up(f@, f@.len());
}

/// The worst of some findings is an error where one is, else a warning where one
/// is.
pub proof fn law_worst_of_findings(f: &Vec<LintFinding>, lo: usize, hi: usize, r: Severity, i: int)
    requires
        lo <= i < hi <= f@.len(),
        call_ensures(worst_severity, (f, lo, hi), r),
    ensures
        f@[i].severity == Severity::Error ==> r == Severity::Error,
        f@[i].severity == Severity::Warn ==> r != Severity::Info,
        exists|k: int| lo <= k < hi && (#[trigger] f@[k]).severity == r,
{
    crate::ui::lint_panel::law_worst(f@, lo as int, hi as int, i);
    lemma_worst_is_there(f@, lo as int, hi as int);
}

proof fn lemma_worst_is_there(f: Seq<LintFinding>, lo: int, hi: int)
    requires
        0 <= lo < hi <= f.len(),
    ensures
        exists|k: int|
            lo <= k < hi && (#[trigger] f[k]).severity == crate::ui::lint_panel::worst(f, lo, hi),
    decreases hi - lo,
{
    let w = crate::ui::lint_panel::worst(f, lo, hi);
    if lo < hi - 1 {
        lemma_worst_is_there(f, lo, hi - 1);
        let k = choose|k: int|
            lo <= k < hi - 1 && (#[trigger] f[k]).severity == crate::ui::lint_panel::worst(
                f,
                lo,
                hi - 1,
            );
        assert(f[k].severity == w || f[hi - 1].severity == w);
    } else {
        assert(crate::ui::lint_panel::worst(f, lo, hi - 1) == Severity::Info);
        assert(f[lo].severity == w);
    }
}

/// Where a finding is is told by its table and its entry: the name where it has
/// one, and the key.
pub proof fn law_where_a_finding_is(f: &LintFinding, r: String)
    requires
        call_ensures(target_line, (f,), r),
    ensures
        f.entry_name is Some ==> r@ == f.table@ + " : "@ + f.entry_name->Some_0@ + " (key="@ + dec(
            f.entry_key as nat,
        ) + ")"@,
        f.entry_name is None ==> r@ == f.table@ + " : key="@ + dec(f.entry_key as nat),
{
}

/// A filter lists the templates for the table in focus; without it all are.
pub proof fn law_listed_templates(
    v: &Vec<Template>,
    filter: bool,
    table: &str,
    r: Vec<usize>,
    i: usize,
)
    requires
        call_ensures(listed_templates, (v, filter, table), r),
        i < v@.len(),
    ensures
        r@.contains(i) <==> !filter || table@.len() == 0 || v@[i as int].table@ == table@,
{
    let keep = template_listed(v@, filter, table@);
    assert(v@.len() == v.len());
    law_picked(v@.len(), keep);
    assert(keep(i as int) == (!filter || table@.len() == 0 || v@[i as int].table@ == table@));
}

/// The chosen template is that of its list at its position.
pub proof fn law_chosen_template(
    selected: Option<TemplateIdx>,
    builtins: &Vec<Template>,
    users: &Vec<Template>,
    r: Option<&Template>,
)
    requires
        call_ensures(chosen, (selected, builtins, users), r),
    ensures
        selected matches Some(TemplateIdx::Builtin(i)) ==> (r is Some <==> i < builtins@.len()) && (
        r is Some ==> *r->Some_0 == builtins@[i as int]),
        selected matches Some(TemplateIdx::User(i)) ==> (r is Some <==> i < users@.len()) && (
        r is Some ==> *r->Some_0 == users@[i as int]),
        selected is None ==> r is None,
{
}

/// A template that is applied leaves the entry as it came out, and every other
/// entry as it was. For each field that it changed the history has an edit, and a
/// field that it changed from what was shipped is noted as changed.
pub proof fn law_template_is_applied(
    state: &mut AppState,
    tpl: &Template,
    applied: Result<Json, String>,
    now: u64,
    tab: usize,
    entry: usize,
    other: int,
)
    requires
        old(state).tabs_wf(),
        call_ensures(apply_to_active_entry, (state, tpl, applied, now), ()),
        old(state).active_tab_idx == Some(tab),
        tab < old(state).open_tabs@.len(),
        old(state).open_tabs@[tab as int].selected_entry_idx == Some(entry),
        entry < old(state).open_tabs@[tab as int].entries@.len(),
        0 <= other < old(state).open_tabs@[tab as int].entries@.len(),
    ensures
        ({
            let (b, a) = (old(state).open_tabs@[tab as int], final(state).open_tabs@[tab as int]);
            &&& applied is Ok ==> a.entries@[entry as int]@ == applied->Ok_0@
            &&& applied is Ok && other != entry ==> a.entries@[other]@ == b.entries@[other]@
            &&& applied is Ok ==> a.history.position >= b.history.position && a.history.position
                - b.history.position <= tpl.field_changes@.len()
            &&& applied is Err ==> a == b && final(state).toasts@.last().level == Level::Error
                && final(state).toasts@.last().details == Some(applied->Err_0@)
        }),
{
    let (b, a) = (old(state).open_tabs@[tab as int], final(state).open_tabs@[tab as int]);
    if applied is Ok {
        let x = trees(a.entries@);
        assert(x[entry as int] == a.entries@[entry as int]@);
        assert(x[other] == a.entries@[other]@);
        assert(trees(b.entries@)[other] == b.entries@[other]@);
        lemma_progress(
            b,
            entry as int,
            applied->Ok_0@,
            tpl.field_changes@,
            now,
            tpl.field_changes@.len(),
        );
    }
}

proof fn lemma_progress(
    tab: ActiveTable,
    entry: int,
    after: Tree,
    fields: Seq<TemplateField>,
    now: u64,
    n: nat,
)
    ensures
        progress(tab, entry, after, fields, now, n).edits.len() <= n,
    decreases n,
{
    if n > 0 {
        lemma_progress(tab, entry, after, fields, now, (n - 1) as nat);
    }
}

/// Each field of a template that the entry has another value at now than before
/// gets an edit with both values; it is noted as changed unless the value is the
/// shipped one. Any other field gets neither.
pub proof fn law_template_field_is_recorded(
    tab: ActiveTable,
    entry: int,
    after: Tree,
    fields: Seq<TemplateField>,
    now: u64,
    n: nat,
)
    requires
        n < fields.len(),
    ensures
        ({
            let before = tab.entries@[entry]@;
            let path = fields[n as int].path@;
            let (p, q) = (
                progress(tab, entry, after, fields, now, n),
                progress(tab, entry, after, fields, now, n + 1),
            );
            let old_value = match value_at(before, path) {
                Some(x) => x,
                None => Tree::Null,
            };
            &&& value_at(after, path) is None ==> q == p
            &&& value_at(after, path) is Some && equal_trees(old_value, value_at(after, path)->Some_0)
                ==> q == p
            &&& value_at(after, path) is Some && !equal_trees(
                old_value,
                value_at(after, path)->Some_0,
            ) ==> {
                &&& q.edits.len() == p.edits.len() + 1
                &&& q.edits.drop_last() == p.edits
                &&& q.edits.last().field_path == path
                &&& q.edits.last().old_value == old_value
                &&& q.edits.last().new_value == value_at(after, path)->Some_0
                &&& q.edits.last().entry_key == tab.entry_keys@[entry]
                &&& q.edits.last().table == tab.dispatch_name@
                &&& entry >= tab.vanilla@.len() ==> q.changes.contains(
                    (tab.entry_keys@[entry], path),
                )
            }
        }),
{
    let (p, q) = (
        progress(tab, entry, after, fields, now, n),
        progress(tab, entry, after, fields, now, n + 1),
    );
    let (path, key) = (fields[n as int].path@, tab.entry_keys@[entry]);
    if q.edits.len() > p.edits.len() {
        assert(q.edits.drop_last() =~= p.edits);
    }
    if !p.changes.contains((key, path)) {
        assert(p.changes.push((key, path))[p.changes.len() as int] == (key, path));
    }
}

/// A draft is of the selected entry of the table in focus and holds its changed
/// top-level fields with the values that they have; it becomes a template of that
/// table under the name that is given.
pub proof fn law_draft_becomes_a_template(
    state: &mut AppState,
    r: Option<TemplateDraft>,
    name: String,
    t: Template,
    tab: usize,
    entry: usize,
    i: int,
)
    requires
        old(state).tabs_wf(),
        call_ensures(draft_template, (state,), r),
        old(state).active_tab_idx == Some(tab),
        tab < old(state).open_tabs@.len(),
        old(state).open_tabs@[tab as int].selected_entry_idx == Some(entry),
        entry < old(state).open_tabs@[tab as int].entries@.len(),
        r is Some,
        call_ensures(finish_draft, (r->Some_0, name), t),
        0 <= i < t.field_changes@.len(),
    ensures
        ({
            let b = old(state).open_tabs@[tab as int];
            &&& r->Some_0.table@ == b.dispatch_name@
            &&& r->Some_0.entry_key == b.entry_keys@[entry as int]
            &&& t.table@ == b.dispatch_name@
            &&& t.name == name
            &&& t.user_defined
            &&& value_at(b.entries@[entry as int]@, t.field_changes@[i].path@) == Some(
                t.field_changes@[i].value@,
            )
            &&& !t.field_changes@[i].multiplicative
        }),
{
    let b = old(state).open_tabs@[tab as int];
    assert(b.wf());
    let key = b.entry_keys@[entry as int];
    let e = b.entries@[entry as int]@;
    law_draft_of_top_level_fields(b.changes@, key, e, b.changes@.len());
    lemma_not_multiplied(b.changes@, key, e, b.changes@.len());
    let v = crate::ui::templates_panel::field_values(t.field_changes@);
    assert(v[i].path == t.field_changes@[i].path@ && v[i].value == t.field_changes@[i].value@
        && v[i].multiplicative == t.field_changes@[i].multiplicative);
}

proof fn lemma_not_multiplied(c: Seq<(u64, Seq<char>)>, key: u64, entry: Tree, n: nat)
    ensures
        forall|i: int|
            0 <= i < crate::ui::templates_panel::snapshot(c, key, entry, n).len() ==> !(
            #[trigger] crate::ui::templates_panel::snapshot(c, key, entry, n)[i]).multiplicative,
    decreases n,
{
    if n > 0 {
        lemma_not_multiplied(c, key, entry, (n - 1) as nat);
    }
}

/// A deleted template is gone from the list, and the others stay in order.
pub proof fn law_template_is_deleted(
    state: &mut AppState,
    idx: usize,
    result: &Result<(), String>,
    j: int,
)
    requires
        call_ensures(template_deleted, (state, idx, result), ()),
        idx < old(state).user_templates@.len(),
    ensures
        result is Ok ==> final(state).user_templates@.len() == old(state).user_templates@.len() - 1
            && final(state).templates_panel.selected is None,
        result is Ok && 0 <= j < idx ==> final(state).user_templates@[j] == old(
            state).user_templates@[j],
        result is Ok && idx <= j < final(state).user_templates@.len() ==> final(
            state).user_templates@[j] == old(state).user_templates@[j + 1],
        result is Err ==> final(state).user_templates == old(state).user_templates,
{
}

} // verus!
