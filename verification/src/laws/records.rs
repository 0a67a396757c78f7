//! Laws of the profiles by their names, the groups of findings, the archive view and
//! the lists in the files of the game.

use vstd::prelude::*;
use crate::digits::dec;
use crate::state::{AppState, Level};
use crate::text::{joined, views};
use crate::laws::mods::{about, lemma_about, lemma_profile, lemma_uses, uses};
use crate::sizes::format_size;
use crate::ui::archive_panel::{
    arm_removal, detail_loaded, diff_loaded, dir_header, enter_detail, file_total, files_size,
    game_dir_or_warn, leave_detail, needs_detail, needs_scan, refresh_all, show_diff, show_groups,
    size_total, ArchiveDir, ArchiveGroup, ArchiveGroupDetail, ArchiveSession, PapgtDiff,
};
use crate::ui::backup_panel::{
    clear_all_done, cleared, deleted_count, format_bytes, refreshed, restore_dir, Snapshot,
};
use crate::ui::library_panel::{
    add_button, apply_button, delete_path, delete_profile, inline_line, is_in_active, meta_line,
    move_buttons, numbered, profile_named, store_saved, tables_line, AddButton, LibraryMod,
    ProfileStore, StoreChange,
};
use crate::ui::lint_panel::{finding_place, fix_line, lint_groups, AutoFix, LintFinding};
use crate::ui::pamhc_panel::{append_entry, remove_entry, PamhcFile, PamhcSession};
use crate::ui::pappt_panel::{
    add_child, delete_primary, new_secondary, remove_child, remove_secondary, PapptFile,
    PapptSession, PrimaryChild,
};
use crate::ui::paseq_panel::{
    apply_sleep, apply_swap, can_swap, chosen_label, npc_label, scan_npcs, NpcEntry, SwapRequest,
};

verus! {

broadcast use vstd::seq_lib::group_seq_properties;

/// A store has a profile exactly where one of its profiles has the name.
pub proof fn law_profile_is_there(store: &ProfileStore, name: &str, r: bool, i: int)
    requires
        call_ensures(ProfileStore::has, (store, name), r),
    ensures
        0 <= i < store@.profiles.len() && store@.profiles[i].name == name@ ==> r,
        r ==> exists|j: int| 0 <= j < store@.profiles.len() && (#[trigger] store@.profiles[j]).name
            == name@,
{
    lemma_profile(store@.profiles, name@);
}

/// A profile that is added has the name that was asked for where no other has it;
/// else a number from two on is put behind it.
pub proof fn law_name_of_an_added_profile(store: &mut ProfileStore, base: &str, r: String)
    requires
        old(store).profiles@.len() < usize::MAX - 1,
        call_ensures(ProfileStore::add_unique, (store, base), r),
    ensures
        (forall|i: int| 0 <= i < old(store)@.profiles.len() ==> (#[trigger] old(
            store)@.profiles[i]).name != base@) ==> r@ == base@,
        r@ == base@ || exists|k: nat| k >= 2 && r@ == base@ + " "@ + #[trigger] dec(k),
        final(store)@.profiles.len() == old(store)@.profiles.len() + 1,
        final(store)@.profiles.last().name == r@,
        final(store)@.profiles.last().mods.len() == 0,
        final(store)@.active == old(store)@.active,
{
    let v = old(store)@.profiles;
    let k = choose|k: nat| #[trigger]
        crate::ui::library_panel::is_free_name(v, base@, k) && r@ == numbered(base@, k);
    lemma_profile(v, base@);
    if k >= 2 {
        assert(crate::ui::library_panel::name_taken(v, numbered(base@, 1)));
        assert(r@ == base@ + " "@ + dec(k));
    }
}

/// A profile that is removed is gone, and no longer in use; the others keep their
/// order and their mods.
pub proof fn law_profile_is_removed(store: &mut ProfileStore, name: &str, r: bool, i: int, j: int)
    requires
        call_ensures(ProfileStore::remove, (store, name), r),
        0 <= i < old(store)@.profiles.len(),
        old(store)@.profiles[i].name == name@,
        forall|k: int| 0 <= k < i ==> (#[trigger] old(store)@.profiles[k]).name != name@,
    ensures
        r,
        final(store)@.profiles.len() == old(store)@.profiles.len() - 1,
        0 <= j < i ==> final(store)@.profiles[j] == old(store)@.profiles[j],
        i <= j < final(store)@.profiles.len() ==> final(store)@.profiles[j] == old(
            store)@.profiles[j + 1],
        final(store)@.active != Some(name@),
        old(store)@.active != Some(name@) ==> final(store)@.active == old(store)@.active,
{
    lemma_profile(old(store)@.profiles, name@);
    let k = profile_named(old(store)@.profiles, name@)->Some_0;
    if k < i {
        assert(old(store)@.profiles[k].name != name@);
    } else if i < k {
        assert(old(store)@.profiles[i].name != name@);
    }
}

/// Where the profile in use is deleted, the first of those left is in use; where
/// another is, nothing changes in that.
pub proof fn law_profile_in_use_is_deleted(
    state: &mut AppState,
    name: &str,
    r: Option<StoreChange>,
    i: int,
)
    requires
        call_ensures(delete_profile, (state, name), r),
        0 <= i < old(state).profile_store@.profiles.len(),
        old(state).profile_store@.profiles[i].name == name@,
        forall|k: int|
            0 <= k < i ==> (#[trigger] old(state).profile_store@.profiles[k]).name != name@,
    ensures
        ({
            let (b, a) = (old(state).profile_store@, final(state).profile_store@);
            &&& r is Some
            &&& r->Some_0 is Deleted
            &&& r->Some_0->Deleted_0@ == name@
            &&& a.profiles == b.profiles.remove(i)
            &&& b.active == Some(name@) && a.profiles.len() > 0 ==> a.active == Some(
                a.profiles[0].name,
            )
            &&& b.active == Some(name@) && a.profiles.len() == 0 ==> a.active is None
            &&& b.active is Some && b.active != Some(name@) ==> a.active == b.active
        }),
        final(state).library == old(state).library,
{
    lemma_profile(old(state).profile_store@.profiles, name@);
    let k = profile_named(old(state).profile_store@.profiles, name@)->Some_0;
    if k < i {
        assert(old(state).profile_store@.profiles[k].name != name@);
    } else if i < k {
        assert(old(state).profile_store@.profiles[i].name != name@);
    }
}

/// A change of the profiles that could not be saved is said with the reason; of one
/// that was saved only a new and a deleted profile are spoken of.
pub proof fn law_saved_profiles(state: &mut AppState, change: &StoreChange, result: &Result<(), String>)
    requires
        call_ensures(store_saved, (state, change, result), ()),
    ensures
        result is Err ==> final(state).toasts@.len() == old(state).toasts@.len() + 1 && final(
            state).toasts@.last().level != Level::Info,
        result is Ok && !(change is Created) && !(change is Deleted) ==> final(state).toasts@ == old(
            state).toasts@,
        result is Ok && change is Created ==> final(state).toasts@.last().message
            == "Created profile '"@ + change->Created_0@ + "'"@,
        result is Ok && change is Deleted ==> final(state).toasts@.last().message
            == "Deleted profile '"@ + change->Deleted_0@ + "'"@,
        final(state).profile_store == old(state).profile_store,
{
}

/// A mod is in the profile in use exactly where its path is listed there, and can be
/// added exactly where it is not and a profile is in use.
pub proof fn law_mod_in_the_profile(state: &AppState, path: &str, r: bool, b: AddButton, i: int)
    requires
        call_ensures(is_in_active, (state, path), r),
        call_ensures(add_button, (state, path), b),
        uses(*state, i),
    ensures
        r <==> state.profile_store@.profiles[i].mods.contains(path@),
        b.enabled <==> !r,
{
    lemma_uses(*state, i);
}

/// The profile in use can be applied where the game directory is set and it has
/// mods.
pub proof fn law_profile_can_be_applied(state: &AppState, r: (bool, &'static str), i: int)
    requires
        call_ensures(apply_button, (state,), r),
    ensures
        state.game_dir is None ==> !r.0,
        state.profile_store@.active is None ==> !r.0,
        state.game_dir is Some && uses(*state, i) ==> (r.0 <==> state.profile_store@.profiles[i].mods.len()
            > 0),
{
    if uses(*state, i) {
        lemma_uses(*state, i);
    }
}

/// A mod in the library is described by its author, its version, the tables that it
/// touches and the number of its changes.
pub proof fn law_mod_is_described(m: &LibraryMod, meta: String, tables: String, line: String)
    requires
        call_ensures(meta_line, (m,), meta),
        call_ensures(tables_line, (m,), tables),
        call_ensures(inline_line, (m,), line),
    ensures
        m.author is Some && m.version is Some ==> meta@ == "by "@ + m.author->Some_0@ + "  ·  v"@
            + m.version->Some_0@,
        m.author is Some && m.version is None ==> meta@ == "by "@ + m.author->Some_0@,
        m.author is None && m.version is Some ==> meta@ == "v"@ + m.version->Some_0@,
        m.tables_touched@.len() > 0 ==> tables@ == "Tables: "@ + joined(
            views(m.tables_touched@),
            ", "@,
        ),
        m.tables_touched@.len() > 0 ==> line@ == dec(m.change_count as nat) + " change(s)  ·  "@
            + joined(views(m.tables_touched@), ", "@),
{
}

/// The mod to delete is that at the position.
pub proof fn law_mod_to_delete(state: &AppState, idx: usize, r: Option<String>)
    requires
        call_ensures(delete_path, (state, idx), r),
    ensures
        idx < state.library@.len() ==> r == Some(state.library@[idx as int].path),
        idx >= state.library@.len() ==> r is None,
{
}

/// A mod can be moved up unless it is first, and down unless it is last.
pub proof fn law_moves(idx: usize, total: usize, r: (bool, bool))
    requires
        call_ensures(move_buttons, (idx, total), r),
        idx < total,
    ensures
        r.0 <==> idx != 0,
        r.1 <==> idx != total - 1,
{
}

/// Every finding is in a group, and two findings next to each other are in one group
/// exactly where they are of the same rule.
pub proof fn law_groups_of_findings(f: &Vec<LintFinding>, g: Vec<(usize, usize)>, i: int, k: int)
    requires
        call_ensures(lint_groups, (f,), g),
        0 <= i < f@.len(),
    ensures
        exists|x: int| 0 <= x < g@.len() && (#[trigger] g@[x]).0 <= i < g@[x].1,
        0 <= k < g@.len() && g@[k].0 <= i < g@[k].1 && i + 1 < f@.len() ==> (i + 1 < g@[k].1
            <==> f@[i].rule_name@ == f@[i + 1].rule_name@),
{
    lemma_some_group(f@, g@, i, (g@.len() - 1) as int);
    if 0 <= k < g@.len() && g@[k].0 <= i < g@[k].1 && i + 1 < f@.len() {
        assert(crate::ui::lint_panel::one_rule(f@, g@[k].0 as int, g@[k].1 as int));
        assert(f@[i].rule_name@ == f@[g@[k].0 as int].rule_name@);
        if i + 1 < g@[k].1 {
            assert(f@[i + 1].rule_name@ == f@[g@[k].0 as int].rule_name@);
        } else if k + 1 < g@.len() {
            assert(g@[k].1 == g@[k + 1].0);
            assert(f@[g@[k].0 as int].rule_name@ != f@[g@[k + 1].0 as int].rule_name@);
        }
    }
}

proof fn lemma_some_group(f: Seq<LintFinding>, g: Seq<(usize, usize)>, i: int, k: int)
    requires
        crate::ui::lint_panel::groups_cover(f, g, f.len() as int),
        0 <= k < g.len(),
        0 <= i < g[k].1,
    ensures
        exists|x: int| 0 <= x < g.len() && (#[trigger] g[x]).0 <= i < g[x].1,
    decreases k,
{
    if g[k].0 > i {
        assert(k > 0);
        assert(g[k - 1].1 == g[k].0);
        lemma_some_group(f, g, i, k - 1);
    }
}

/// The place of a finding is the tab of its table and the entry with its key.
pub proof fn law_place_of_a_finding(
    state: &AppState,
    f: &LintFinding,
    r: Option<(usize, usize)>,
    t: int,
    e: int,
)
    requires
        call_ensures(finding_place, (state, f), r),
    ensures
        about(*state, *f, t, e) ==> r is Some && r->Some_0.0 == t && r->Some_0.1 == e,
        (forall|j: int|
            0 <= j < state.open_tabs@.len() ==> (#[trigger] state.open_tabs@[j]).dispatch_name@
                != f.table@) ==> r is None,
{
    if about(*state, *f, t, e) {
        lemma_about(*state, *f, t, e);
    }
    crate::state::lemma_tab_named(state.open_tabs@, f.table@);
}

/// What a fix does is said, with the field; one that is made by hand cannot be
/// applied, nor can none.
pub proof fn law_fix_is_described(f: &LintFinding, r: (String, bool))
    requires
        call_ensures(fix_line, (f,), r),
    ensures
        f.fix_suggestion is None ==> !r.1,
        f.fix_suggestion matches Some(AutoFix::Custom(d)) ==> !r.1 && r.0@ == "Manual fix: "@ + d@,
        f.fix_suggestion matches Some(AutoFix::RemoveField { field_path: p }) ==> r.1 && r.0@
            == "Remove '"@ + p@ + "'"@,
        f.fix_suggestion matches Some(AutoFix::SetField { field_path: p, new_value: v }) ==> r.1 && (
        v@ matches crate::json::Tree::Str(s) ==> r.0@ == "Set '"@ + p@ + "' = "@ + ("\""@ + s
            + "\""@)),
{
}

/// The archives are scanned anew into the list of groups; what was shown of one
/// group or of the index is dropped.
pub proof fn law_archives_are_scanned_anew(
    state: &mut AppState,
    scanned: Result<Vec<ArchiveGroup>, String>,
    again: bool,
)
    requires
        call_ensures(refresh_all, (state, scanned), ()),
        call_ensures(needs_scan, (&final(state).archive,), again),
    ensures
        final(state).archive.detail is None,
        final(state).archive.diff is None,
        !again,
        old(state).game_dir is Some && scanned is Ok ==> final(state).archive.groups == Some(
            scanned->Ok_0,
        ) && final(state).archive.error is None,
        old(state).game_dir is Some && scanned is Err ==> final(state).archive.error is Some
            && final(state).archive.error->Some_0@ == "Scan failed: "@ + scanned->Err_0@,
        old(state).game_dir is None ==> final(state).archive.error is Some,
{
}

/// A group that is entered is shown once its contents were read, and left again to
/// the list.
pub proof fn law_group_is_shown(
    session: &mut ArchiveSession,
    name: &str,
    result: Result<ArchiveGroupDetail, String>,
    error: Option<String>,
    needs: bool,
)
    requires
        call_ensures(detail_loaded, (session, name, result), error),
        call_ensures(needs_detail, (final(session), name), needs),
    ensures
        result is Ok ==> final(session).detail == Some(result->Ok_0) && error is None,
        result is Ok && result->Ok_0.name@ == name@ ==> !needs,
        result is Err ==> final(session).detail == old(session).detail && error is Some
            && error->Some_0@ == "Failed to load detail for "@ + name@ + ": "@ + result->Err_0@,
        final(session).mode == old(session).mode,
        final(session).groups == old(session).groups,
{
}

/// Each part of the archive view is turned to.
pub proof fn law_parts_of_the_archive_view(session: &mut ArchiveSession, part: int)
    requires
        part == 0 ==> call_ensures(show_groups, (session,), ()),
        part == 1 ==> call_ensures(show_diff, (session,), ()),
        part == 2 ==> call_ensures(leave_detail, (session,), ()),
        0 <= part <= 2,
    ensures
        part == 0 ==> final(session).mode is Groups && final(session).detail == old(session).detail,
        part == 1 ==> final(session).mode is Diff && final(session).diff is None,
        part == 2 ==> final(session).mode is Groups && final(session).detail is None,
        final(session).groups == old(session).groups,
{
}

/// A group is entered by its name, and its contents are to be read.
pub proof fn law_group_is_entered(state: &mut AppState, name: &str, needs: bool)
    requires
        call_ensures(enter_detail, (state, name), ()),
        call_ensures(needs_detail, (&final(state).archive, name), needs),
    ensures
        final(state).archive.mode is Detail,
        final(state).archive.mode->Detail_0@ == name@,
        needs,
        final(state).archive.groups == old(state).archive.groups,
{
}

/// The comparison of the index with its backup is kept as it was read, and a failure
/// is said.
pub proof fn law_comparison_is_kept(
    session: &mut ArchiveSession,
    result: Result<Option<PapgtDiff>, String>,
    error: Option<String>,
)
    requires
        call_ensures(diff_loaded, (session, result), error),
    ensures
        result is Ok ==> final(session).diff == Some(result->Ok_0) && error is None,
        result is Err ==> final(session).diff == old(session).diff && error is Some
            && error->Some_0@ == "Failed to read PAPGT: "@ + result->Err_0@,
{
}

/// The removal of an overlay waits to be confirmed for the group that was named.
pub proof fn law_removal_waits(session: &mut ArchiveSession, group: Option<String>)
    requires
        call_ensures(arm_removal, (session, group), ()),
    ensures
        final(session).remove_confirm_pending == group,
        final(session).groups == old(session).groups,
        final(session).mode == old(session).mode,
{
}

/// The files of a group, and their sizes, add up over its directories.
pub proof fn law_totals_of_a_group(d: Seq<ArchiveDir>, x: ArchiveDir)
    ensures
        file_total(d.push(x), d.len() + 1) == file_total(d, d.len()) + x.files@.len(),
        size_total(d.push(x), d.len() + 1) == size_total(d, d.len()) + files_size(
            x.files@,
            x.files@.len(),
        ),
        file_total(d, 0) == 0,
        size_total(d, 0) == 0,
        x.files@.len() == 1 ==> files_size(x.files@, 1) == x.files@[0].uncompressed_size,
{
    lemma_totals_alike(d, d.push(x), d.len());
    reveal_with_fuel(files_size, 2);
}

proof fn lemma_totals_alike(a: Seq<ArchiveDir>, b: Seq<ArchiveDir>, n: nat)
    requires
        n <= a.len(),
        n <= b.len(),
        forall|i: int| 0 <= i < n ==> a[i] == b[i],
    ensures
        file_total(a, n) == file_total(b, n),
        size_total(a, n) == size_total(b, n),
    decreases n,
{
    if n > 0 {
        lemma_totals_alike(a, b, (n - 1) as nat);
    }
}

/// A directory is headed by its path and the number of its files.
pub proof fn law_header_of_a_directory(d: &ArchiveDir, r: String)
    requires
        call_ensures(dir_header, (d,), r),
    ensures
        d.path@.len() > 0 ==> r@ == d.path@ + "  ("@ + dec(d.files@.len()) + " files)"@,
        d.path@.len() == 0 ==> r@ == "<root>"@ + "  ("@ + dec(d.files@.len()) + " files)"@,
{
}

/// The directory of the game is handed out where it is set; where not, that is said.
pub proof fn law_game_directory_is_needed(state: &mut AppState, r: Option<String>, backup: bool)
    requires
        backup ==> call_ensures(restore_dir, (state,), r),
        !backup ==> call_ensures(game_dir_or_warn, (state,), r),
    ensures
        r == old(state).game_dir,
        r is Some ==> *final(state) == *old(state),
        r is None ==> final(state).toasts@.len() == old(state).toasts@.len() + 1 && final(
            state).toasts@.last().level == Level::Warn,
{
}

/// When all snapshots are deleted, it is said how many of them were; the list is
/// then what is left on disk, and the next time must be confirmed again.
pub proof fn law_all_snapshots_are_deleted(
    state: &mut AppState,
    results: &Vec<Result<(), String>>,
    listed: Result<Vec<Snapshot>, String>,
)
    requires
        call_ensures(clear_all_done, (state, results, listed), ()),
    ensures
        !final(state).backup_confirm_clear_all,
        listed is Ok ==> final(state).backup_snapshots == listed->Ok_0 && final(
            state).toasts@.last().message == "Deleted "@ + dec(
            deleted_count(results@, results@.len()),
        ) + " of "@ + dec(old(state).backup_snapshots@.len()) + " snapshots"@,
        listed is Err ==> final(state).backup_snapshots == old(state).backup_snapshots && final(
            state).toasts@.last().details == Some(listed->Err_0@),
{
    let mid = choose|mid: AppState|
        cleared(
            *old(state),
            mid,
            deleted_count(results@, results@.len()),
            old(state).backup_snapshots@.len(),
        ) && #[trigger] refreshed(mid, *final(state), listed);
}

/// A snapshot without a file shows a dash, and another the size of the file.
pub proof fn law_size_of_a_snapshot(b: u64, r: String, s: String)
    requires
        call_ensures(format_bytes, (b,), r),
        call_ensures(format_size, (b,), s),
    ensures
        b == 0 ==> r@ == "—"@,
        b != 0 ==> r@ == s@,
{
}

/// A number is put last into a list of the file, and one is taken out of its place;
/// the others keep their order.
pub proof fn law_numbers_of_the_file(
    session: &mut PamhcSession,
    file: &mut PamhcFile,
    i: usize,
    j: int,
)
    requires
        call_ensures(append_entry, (session,), ()),
        i < old(file).section_a_u32@.len(),
        call_ensures(remove_entry, (file, i), ()),
    ensures
        old(session).file is Some ==> final(session).file is Some && final(
            session).file->Some_0.section_a_u32@ == old(
            session).file->Some_0.section_a_u32@.push(0),
        final(file).section_a_u32@.len() == old(file).section_a_u32@.len() - 1,
        0 <= j < i ==> final(file).section_a_u32@[j] == old(file).section_a_u32@[j],
        i <= j < final(file).section_a_u32@.len() ==> final(file).section_a_u32@[j] == old(
            file).section_a_u32@[j + 1],
{
}

/// An entry of the prefab table that is deleted is gone, and none is selected then;
/// the others keep their order.
pub proof fn law_prefab_entry_is_deleted(session: &mut PapptSession, idx: usize, f: PapptFile, j: int)
    requires
        old(session).file == Some(f),
        idx < f.primary@.len(),
        call_ensures(delete_primary, (session, idx), ()),
    ensures
        final(session).file is Some,
        final(session).file->Some_0.primary@.len() == f.primary@.len() - 1,
        0 <= j < idx ==> final(session).file->Some_0.primary@[j] == f.primary@[j],
        idx <= j < f.primary@.len() - 1 ==> final(session).file->Some_0.primary@[j]
            == f.primary@[j + 1],
        final(session).file->Some_0.secondary == f.secondary,
        final(session).selected_primary_idx is None,
{
}

/// A child is added empty behind the others, up to as many as an entry can hold; one
/// that is removed leaves the others in order.
pub proof fn law_children(
    added: &mut Vec<PrimaryChild>,
    removed: &mut Vec<PrimaryChild>,
    i: usize,
    j: int,
)
    requires
        call_ensures(add_child, (added,), ()),
        i < old(removed)@.len(),
        call_ensures(remove_child, (removed, i), ()),
    ensures
        final(added)@.len() == old(added)@.len() || final(added)@.len() == old(added)@.len() + 1,
        final(added)@.len() > old(added)@.len() ==> final(added)@.last().sub_key@.len() == 0
            && final(added)@.last().sub_flag == 0,
        old(added)@.len() < 255 ==> final(added)@.len() == old(
            added)@.len() + 1,
        old(added)@.len() >= 255 ==> *final(added) == *old(added),
        0 <= j < old(added)@.len() ==> final(added)@[j] == old(added)@[j],
        final(removed)@.len() == old(removed)@.len() - 1,
        0 <= j < i ==> final(removed)@[j] == old(removed)@[j],
        i <= j < final(removed)@.len() ==> final(removed)@[j] == old(removed)@[j + 1],
{
    if 0 <= j < old(added)@.len() && final(added)@.len() > old(added)@.len() {
        assert(final(added)@.drop_last()[j] == final(added)@[j]);
    }
}

/// A pair of names is added empty behind the others; one that is removed leaves the
/// others in order.
pub proof fn law_pairs(
    session: &mut PapptSession,
    file: &mut PapptFile,
    i: usize,
    j: int,
)
    requires
        call_ensures(new_secondary, (session,), ()),
        i < old(file).secondary@.len(),
        call_ensures(remove_secondary, (file, i), ()),
    ensures
        old(session).file is Some ==> {
            let (b, a) = (old(session).file->Some_0.secondary@, final(session).file->Some_0.secondary@);
            &&& final(session).file is Some
            &&& a.len() == b.len() + 1
            &&& a.last().alias_a@.len() == 0
            &&& a.last().alias_b@.len() == 0
            &&& 0 <= j < b.len() ==> a[j] == b[j]
        },
        final(file).secondary@.len() == old(file).secondary@.len() - 1,
        0 <= j < i ==> final(file).secondary@[j] == old(file).secondary@[j],
        i <= j < final(file).secondary@.len() ==> final(file).secondary@[j] == old(
            file).secondary@[j + 1],
        final(file).primary == old(file).primary,
{
    if old(session).file is Some {
        let (b, a) = (old(session).file->Some_0.secondary@, final(session).file->Some_0.secondary@);
        if 0 <= j < b.len() {
            assert(a.drop_last()[j] == a[j]);
        }
    }
}

/// The characters that were found are listed, and none is chosen; where the search
/// failed, the list stays.
pub proof fn law_characters_are_listed(state: &mut AppState, result: Result<Vec<NpcEntry>, String>)
    requires
        call_ensures(scan_npcs, (state, result), ()),
    ensures
        result is Ok ==> final(state).paseq.npc_list == result->Ok_0 && final(
            state).paseq.selected_source is None && final(state).paseq.selected_target is None
            && final(state).toasts@.last().message == "Found "@ + dec(result->Ok_0@.len())
            + " NPCs"@,
        result is Err ==> final(state).paseq == old(state).paseq && final(
            state).toasts@.last().details == Some(result->Err_0@),
{
}

/// Two characters can be swapped where two different ones are chosen and the game
/// directory is set.
pub proof fn law_swap_is_offered(state: &AppState, r: bool)
    requires
        call_ensures(can_swap, (state,), r),
    ensures
        r <==> state.game_dir is Some && state.paseq.selected_source is Some
            && state.paseq.selected_target is Some && state.paseq.selected_source->Some_0
            != state.paseq.selected_target->Some_0,
{
}

/// A character is shown by its name and the stem of its files, and the chosen one is
/// that at the position.
pub proof fn law_character_is_shown(npcs: &Vec<NpcEntry>, i: usize, e: &NpcEntry, one: String, r: String)
    requires
        i < npcs@.len(),
        npcs@[i as int] == *e,
        call_ensures(npc_label, (e,), one),
        call_ensures(chosen_label, (npcs, Some(i)), r),
    ensures
        r@ == one@,
        one@ == e.display_name@ + "  ["@ + e.stem@ + "]"@,
{
}

/// What came of a swap and of the preset is said: both characters by name, or the
/// reason.
pub proof fn law_swap_is_reported(
    state: &mut AppState,
    request: &SwapRequest,
    result: &Result<(), String>,
    swap: bool,
)
    requires
        swap ==> call_ensures(apply_swap, (state, request, result), ()),
        !swap ==> call_ensures(apply_sleep, (state, result), ()),
    ensures
        swap && result is Ok ==> final(state).toasts@.last().level == Level::Info && final(
            state).toasts@.last().message == "Swap deployed: "@ + request.source.display_name@
            + " -> "@ + request.target.display_name@ + " ("@ + "0068"@
            + "/). Restart the game."@,
        !swap && result is Ok ==> final(state).toasts@.last().level == Level::Info,
        result is Err ==> final(state).toasts@.last().level == Level::Error && final(
            state).toasts@.last().details == Some(result->Err_0@),
        final(state).paseq == old(state).paseq,
{
}

} // verus!
