//! Laws of the command palette, the binary inspector, the export dialog, the paths
//! into entries and the sizes of files.

use vstd::prelude::*;
use crate::text::{byte_len, has_prefix, has_sub, joined, lowercase, text_before, trimmed, views};
use crate::ui::binary_inspector_panel::{
    browse_done, can_deploy, consume_pending_nav, deploy_request, ext_on, extension_enabled,
    file_kept, load_file_from_paz, load_patch_doc, position_hex, save_patch_doc, set_extension,
    visible_files, BinaryFileEntry, BinaryInspectorSession, NavPlan,
};
use crate::ui::command_palette::{
    build_candidates, candidates, commands, filter_and_score, handle_keys, item_before,
    law_matched_iff_holds, lists, needle, row_matched, row_score, rows_of, score_label, scores, Act,
    CommandPalette, PaletteCategory, PaletteItem, PaletteKeys, ScoredItem,
};
use crate::digits::dec;
use crate::edit_path::{
    get_at_path, law_existing_path_can_be_set, law_set_back, law_set_get, path_hops, set_at_path,
    tree_at, tree_with, value_with, Hop,
};
use crate::json::{tree_get, Json, Tree};
use crate::rows::law_picked;
use crate::sizes::{format_size, law_small_sizes_exact, rounded};
use crate::state::{AppState, Level, MainView, PendingNav};
use crate::byte_patch::BytePatchDoc;
use crate::ui::metadata_dialog::{
    finish_frame, law_joined_names_are_listed, listable, DialogClick, ExportAction, MetadataDialog,
    MetadataDialogOutcome,
};

verus! {

broadcast use vstd::seq_lib::group_seq_properties;

/// Some row of the palette does something.
pub open spec fn offers(v: Seq<PaletteItem>, action: Act) -> bool {
    exists|k: int| 0 <= k < v.len() && (#[trigger] v[k]).action@ == action
}

proof fn lemma_offers(v: Seq<PaletteItem>, k: int, action: Act)
    requires
        0 <= k < rows_of(v).len(),
        rows_of(v)[k].action == action,
    ensures
        offers(v, action),
{
    assert(rows_of(v)[k] == v[k]@);
    assert(v[k].action@ == action);
}

/// The palette offers to deploy, to restore, to check, to import and to export, and
/// to open the views that it names.
pub proof fn law_palette_offers_commands(state: &AppState, out: Vec<PaletteItem>)
    requires
        state.tabs_wf(),
        call_ensures(build_candidates, (state,), out),
    ensures
        offers(out@, Act::Deploy),
        offers(out@, Act::Restore),
        offers(out@, Act::RunLint),
        offers(out@, Act::ImportMod),
        offers(out@, Act::ExportMod),
        offers(out@, Act::OpenView(MainView::PabgbTables)),
        offers(out@, Act::OpenView(MainView::Paloc)),
        offers(out@, Act::OpenView(MainView::Paseq)),
        offers(out@, Act::OpenView(MainView::Backups)),
        offers(out@, Act::OpenView(MainView::Conflicts)),
        offers(out@, Act::OpenView(MainView::Lint)),
        offers(out@, Act::OpenView(MainView::Settings)),
        offers(out@, Act::OpenView(MainView::Library)),
{
    let c = candidates(*state);
    assert forall|k: int| 0 <= k < 13 implies #[trigger] c[k] == commands()[k] by {}
    lemma_offers(out@, 0, Act::Deploy);
    lemma_offers(out@, 1, Act::Restore);
    lemma_offers(out@, 2, Act::RunLint);
    lemma_offers(out@, 3, Act::ImportMod);
    lemma_offers(out@, 4, Act::ExportMod);
    lemma_offers(out@, 5, Act::OpenView(MainView::PabgbTables));
    lemma_offers(out@, 6, Act::OpenView(MainView::Paloc));
    lemma_offers(out@, 7, Act::OpenView(MainView::Paseq));
    lemma_offers(out@, 8, Act::OpenView(MainView::Backups));
    lemma_offers(out@, 9, Act::OpenView(MainView::Conflicts));
    lemma_offers(out@, 10, Act::OpenView(MainView::Lint));
    lemma_offers(out@, 11, Act::OpenView(MainView::Settings));
    lemma_offers(out@, 12, Act::OpenView(MainView::Library));
}

/// The palette offers every open table, the first entries of the table in focus and
/// every mod that was used before, each by what it is.
pub proof fn law_palette_offers_what_is_there(
    state: &AppState,
    out: Vec<PaletteItem>,
    tab: int,
    active: usize,
    entry: int,
    m: int,
)
    requires
        state.tabs_wf(),
        call_ensures(build_candidates, (state,), out),
    ensures
        0 <= tab < state.open_tabs@.len() ==> offers(
            out@,
            Act::JumpToTable(state.open_tabs@[tab].dispatch_name@),
        ),
        state.active_tab_idx == Some(active) && active < state.open_tabs@.len() && 0 <= entry < 200
            && entry < state.open_tabs@[active as int].entries@.len() ==> offers(
            out@,
            Act::JumpToEntry(state.open_tabs@[active as int].dispatch_name@, entry),
        ),
        0 <= m < state.config.recent_mods@.len() ==> offers(
            out@,
            Act::OpenLibraryMod(state.config.recent_mods@[m].path@),
        ),
{
    let c = candidates(*state);
    let n = state.open_tabs@.len();
    let rows = crate::ui::command_palette::entry_rows(*state);
    let e = rows.len();
    if 0 <= tab < n {
        assert(c[13 + tab] == crate::ui::command_palette::tab_row(state.open_tabs@[tab]));
        lemma_offers(out@, 13 + tab, Act::JumpToTable(state.open_tabs@[tab].dispatch_name@));
    }
    if state.active_tab_idx == Some(active) && active < n && 0 <= entry < 200 && entry
        < state.open_tabs@[active as int].entries@.len() {
        let t = state.open_tabs@[active as int];
        assert(rows[entry] == crate::ui::command_palette::entry_row(t, entry));
        assert(c[13 + n + entry] == rows[entry]);
        lemma_offers(out@, 13 + n + entry, Act::JumpToEntry(t.dispatch_name@, entry));
    }
    if 0 <= m < state.config.recent_mods@.len() {
        assert(c[13 + n + e + m] == crate::ui::command_palette::mod_row(
            state.config.recent_mods@[m],
        ));
        lemma_offers(
            out@,
            13 + n + e + m,
            Act::OpenLibraryMod(state.config.recent_mods@[m].path@),
        );
    }
}

/// A label that is the query comes before one that starts with it, and that before
/// one that holds it further on; a label that does not hold it does not come.
pub proof fn law_score_of_a_label(label: &str, q: &str, r: Option<u128>, i: int)
    requires
        call_ensures(score_label, (label, q), r),
        q@.len() > 0,
    ensures
        r is Some <==> has_sub(label@, q@),
        label@ == q@ ==> r == Some(0u128),
        label@ != q@ && has_prefix(label@, q@) ==> r == Some(100u128),
        r is Some && label@ != q@ && !has_prefix(label@, q@) ==> r->Some_0 >= 200,
        r is Some && label@ != q@ && !has_prefix(label@, q@) && crate::text::first_at(
            label@,
            q@,
            i,
        ) ==> r->Some_0 == 200 + byte_len(label@.take(i)),
{
    law_matched_iff_holds(label@, q@);
    if label@ == q@ {
        assert(scores(label@, q@, 0));
    } else if has_prefix(label@, q@) {
        assert(scores(label@, q@, 100));
    }
    if r is Some {
        assert(scores(label@, q@, r->Some_0 as int));
        if crate::text::first_at(label@, q@, i) && label@ != q@ && !has_prefix(label@, q@) {
            let j = choose|j: int| #[trigger]
                crate::text::first_at(label@, q@, j) && r->Some_0 == 200 + byte_len(label@.take(j));
            if i < j {
                assert(!crate::text::occurs_at(label@, q@, i));
            } else if j < i {
                assert(!crate::text::occurs_at(label@, q@, j));
            }
        }
    }
}

/// Every row whose label holds the words that were typed is listed, and no other;
/// what fits better comes first.
pub proof fn law_listed_rows(
    items: &[PaletteItem],
    query: &str,
    r: (Vec<ScoredItem>, bool),
    i: int,
    k: int,
    l: int,
)
    requires
        call_ensures(filter_and_score, (items, query), r),
    ensures
        0 <= i < items@.len() && has_sub(
            lowercase(items@[i].label@),
            lowercase(trimmed(query@)),
        ) ==> exists|p: int| 0 <= p < r.0@.len() && (#[trigger] r.0@[p]).item == items@[i],
        0 <= k < r.0@.len() ==> has_sub(
            lowercase(r.0@[k].item.label@),
            lowercase(trimmed(query@)),
        ),
        0 <= k < l < r.0@.len() ==> r.0@[k].score <= r.0@[l].score,
        r.1 <==> r.0@.len() > 20,
{
    let order = choose|order: Seq<usize>|
        {
            &&& #[trigger] lists(items@, query@, order)
            &&& r.0@.len() == order.len()
            &&& forall|k: int|
                0 <= k < order.len() ==> (#[trigger] r.0@[k]).item == items@[order[k] as int]
                    && r.0@[k].score == row_score(items@, query@, order[k] as int)
        };
    let q = needle(query@);
    if 0 <= i < items@.len() {
        law_matched_iff_holds(lowercase(items@[i].label@), q);
        if has_sub(lowercase(items@[i].label@), q) {
            assert(row_matched(items@, query@, i));
            assert(items@.len() == items.len());
            let p = choose|p: int| 0 <= p < order.len() && order[p] == i as usize;
            assert(r.0@[p].item == items@[i]);
        }
    }
    if 0 <= k < r.0@.len() {
        assert(row_matched(items@, query@, order[k] as int));
        law_matched_iff_holds(lowercase(r.0@[k].item.label@), q);
    }
    if 0 <= k < l < r.0@.len() {
        assert(item_before(items@, query@, order[k], order[l]));
        assert(r.0@[k].score == row_score(items@, query@, order[k] as int));
        assert(r.0@[l].score == row_score(items@, query@, order[l] as int));
    }
}

/// The keys of the palette: down and up move one row and go round at the ends,
/// enter takes the row that is highlighted then, escape closes and takes none.
pub proof fn law_keys_of_the_palette(
    palette: &mut CommandPalette,
    visible: usize,
    keys: PaletteKeys,
    r: Option<usize>,
)
    requires
        call_ensures(handle_keys, (palette, visible, keys), r),
        old(palette).selected_idx < visible,
    ensures
        keys.escape ==> r is None && !final(palette).open,
        !keys.escape ==> final(palette).open == old(palette).open && final(palette).query == old(
            palette).query,
        !keys.escape && !keys.enter ==> r is None,
        !keys.escape && keys.enter ==> r == Some(final(palette).selected_idx),
        !keys.escape && !keys.up && !keys.down ==> final(palette).selected_idx == old(
            palette).selected_idx,
        !keys.escape && keys.up && keys.down ==> final(palette).selected_idx == old(
            palette).selected_idx,
        !keys.escape && keys.down && !keys.up && old(palette).selected_idx + 1 < visible ==> final(
            palette).selected_idx == old(palette).selected_idx + 1,
        !keys.escape && keys.down && !keys.up && old(palette).selected_idx + 1 == visible ==> final(
            palette).selected_idx == 0,
        !keys.escape && keys.up && !keys.down && old(palette).selected_idx > 0 ==> final(
            palette).selected_idx == old(palette).selected_idx - 1,
        !keys.escape && keys.up && !keys.down && old(palette).selected_idx == 0 ==> final(
            palette).selected_idx == visible - 1,
{
}

/// The palette opens empty, and opens and closes in turn.
pub proof fn law_palette_is_toggled(palette: &mut CommandPalette)
    requires
        call_ensures(CommandPalette::toggle, (palette,), ()),
    ensures
        final(palette).open == !old(palette).open,
        final(palette).focus_input == final(palette).open,
        final(palette).query@.len() == 0,
        final(palette).selected_idx == 0,
{
}

/// A switch of an extension holds for that extension alone.
pub proof fn law_switch_of_an_extension(
    session: &mut BinaryInspectorSession,
    ext: &str,
    on: bool,
    other: &str,
    r: bool,
    was: bool,
)
    requires
        call_ensures(set_extension, (session, ext, on), ()),
        call_ensures(extension_enabled, (final(session), other), r),
        call_ensures(extension_enabled, (old(session), other), was),
    ensures
        other@ == ext@ ==> r == on,
        other@ != ext@ ==> r == was,
        final(session).file_bytes == old(session).file_bytes,
{
}

/// A file of the archives is listed exactly where its extension is on and its name,
/// its directory or its group holds the filter, whatever the case.
pub proof fn law_listed_binary_files(
    session: &BinaryInspectorSession,
    files: &Vec<BinaryFileEntry>,
    r: Vec<usize>,
    i: usize,
    on: bool,
)
    requires
        call_ensures(visible_files, (session, files), r),
        i < files@.len(),
        ext_on(session.extension_filters@, files@[i as int].extension@) == on,
    ensures
        ({
            let f = lowercase(session.paz_filter@);
            let e = files@[i as int];
            r@.contains(i) <==> on && (f.len() == 0 || has_sub(lowercase(e.filename@), f) || has_sub(
                lowercase(e.dir_path@),
                f,
            ) || has_sub(lowercase(e.group@), f))
        }),
{
    let keep = file_kept(files@, session.extension_filters@, session.paz_filter@);
    assert(files@.len() == files.len());
    law_picked(files@.len(), keep);
    let f = lowercase(session.paz_filter@);
    let e = files@[i as int];
    assert(keep(i as int) == (on && (f.len() == 0 || has_sub(lowercase(e.filename@), f) || has_sub(
        lowercase(e.dir_path@),
        f,
    ) || has_sub(lowercase(e.group@), f))));
}

/// A file that was read is shown from its start, with an empty list of patches for
/// it; where it could not be, what was shown stays.
pub proof fn law_binary_file_is_loaded(
    state: &mut AppState,
    entry: &BinaryFileEntry,
    result: Result<Vec<u8>, String>,
)
    requires
        call_ensures(load_file_from_paz, (state, entry, result), ()),
    ensures
        ({
            let a = final(state).binary_inspector;
            &&& result is Ok ==> {
                &&& a.file_bytes == Some(result->Ok_0)
                &&& a.current_entry == Some(*entry)
                &&& a.hex_state.page == 0
                &&& a.hex_state.selected_offset is None
                &&& a.patch_doc is Some
                &&& a.patch_doc->Some_0.dir_path == entry.dir_path
                &&& a.patch_doc->Some_0.filename == entry.filename
                &&& a.patch_doc->Some_0.patches@.len() == 0
            }
            &&& result is Err ==> a == old(state).binary_inspector && final(
                state).toasts@.last().level == Level::Error
        }),
{
}

/// A hit in a binary file leads to that file and that byte: the file is loaded
/// where it is not shown already, and its extension is on.
pub proof fn law_binary_hit_is_gone_to(
    state: &mut AppState,
    r: Option<NavPlan>,
    ext: String,
    paz_group: String,
    dir_path: String,
    filename: String,
    byte_offset: Option<usize>,
)
    requires
        call_ensures(consume_pending_nav, (state,), r),
        old(state).pending_global_nav == Some(
            PendingNav::BinaryInspector { ext, paz_group, dir_path, filename, byte_offset },
        ),
    ensures
        r is Some,
        r->Some_0.byte_offset == byte_offset,
        r->Some_0.load is Some ==> r->Some_0.load->Some_0.group == paz_group
            && r->Some_0.load->Some_0.dir_path == dir_path && r->Some_0.load->Some_0.filename
            == filename && r->Some_0.load->Some_0.extension == ext,
        r->Some_0.load is None <==> (old(state).binary_inspector.current_entry is Some && old(
            state).binary_inspector.current_entry->Some_0.group@ == paz_group@ && old(
            state).binary_inspector.current_entry->Some_0.dir_path@ == dir_path@ && old(
            state).binary_inspector.current_entry->Some_0.filename@ == filename@),
        final(state).pending_global_nav is None,
        ext_on(final(state).binary_inspector.extension_filters@, ext@),
{
}

/// The view of the bytes shows the page with the byte that is gone to, and it is
/// selected; past the end the last byte is.
pub proof fn law_byte_is_gone_to(state: &mut AppState, offset: usize, bytes: Vec<u8>)
    requires
        call_ensures(position_hex, (state, offset), ()),
        old(state).binary_inspector.file_bytes == Some(bytes),
        bytes@.len() > 0,
        old(state).binary_inspector.hex_state.bytes_per_page > 0,
    ensures
        ({
            let h = final(state).binary_inspector.hex_state;
            let at = h.selected_offset->Some_0;
            &&& h.selected_offset is Some
            &&& offset < bytes@.len() ==> at == offset
            &&& offset >= bytes@.len() ==> at == bytes@.len() - 1
            &&& h.bytes_per_page == old(state).binary_inspector.hex_state.bytes_per_page
            &&& h.page * h.bytes_per_page <= at < (h.page + 1) * h.bytes_per_page
        }),
{
    assert(bytes@.len() == bytes.len());
    let h = final(state).binary_inspector.hex_state;
    let (at, n) = (h.selected_offset->Some_0 as int, h.bytes_per_page as int);
    vstd::arithmetic::div_mod::lemma_fundamental_div_mod(at, n);
    vstd::arithmetic::div_mod::lemma_mod_bound(at, n);
    assert(h.page == at / n);
    let p = h.page as int;
    assert(n * p == p * n && (p + 1) * n == p * n + n) by (nonlinear_arith);
}

/// Patches are deployed to the game directory under the group that is set, where
/// there are some.
pub proof fn law_binary_deploy(
    state: &AppState,
    can: bool,
    r: Option<(String, String)>,
)
    requires
        call_ensures(can_deploy, (state,), can),
        call_ensures(deploy_request, (state,), r),
    ensures
        can ==> r is Some && state.binary_inspector.patch_doc is Some
            && state.binary_inspector.patch_doc->Some_0.patches@.len() > 0,
        r is Some ==> Some(r->Some_0.0) == state.game_dir && r->Some_0.1
            == state.binary_inspector.overlay_group,
        state.game_dir is Some && state.binary_inspector.patch_doc is Some
            && state.binary_inspector.patch_doc->Some_0.patches@.len() > 0 ==> can,
        state.game_dir is None ==> r is None,
{
}

/// A patch list that was read takes the place of the one before, and one that was
/// written keeps its path; where it failed nothing is taken over.
pub proof fn law_patch_list_is_read_and_written(
    state: &mut AppState,
    path: &String,
    read: Result<BytePatchDoc, (bool, String)>,
    written: &Result<(), (bool, String)>,
    reading: bool,
)
    requires
        reading ==> call_ensures(load_patch_doc, (state, path, read), ()),
        !reading ==> call_ensures(save_patch_doc, (state, path, written), ()),
    ensures
        reading && read is Ok ==> final(state).binary_inspector.patch_doc == Some(read->Ok_0)
            && final(state).binary_inspector.last_patch_path == Some(*path),
        reading && read is Err ==> final(state).binary_inspector == old(state).binary_inspector
            && final(state).toasts@.last().level == Level::Error,
        !reading ==> final(state).binary_inspector.patch_doc == old(
            state).binary_inspector.patch_doc,
        !reading && written is Ok ==> final(state).binary_inspector.last_patch_path == Some(*path),
        !reading && written is Err ==> final(state).binary_inspector.last_patch_path == old(
            state).binary_inspector.last_patch_path && final(state).toasts@.last().level
            == Level::Error,
        final(state).binary_inspector.file_bytes == old(state).binary_inspector.file_bytes,
{
}

/// The names that are typed with commas between become the dependencies when the
/// export is confirmed, and the export is the one that was chosen.
pub proof fn law_export_is_confirmed(
    dialog: &mut MetadataDialog,
    click: DialogClick,
    window_open: bool,
    r: Option<MetadataDialogOutcome>,
    names: Seq<Seq<char>>,
)
    requires
        call_ensures(finish_frame, (dialog, click, window_open), r),
        old(dialog).open,
        forall|i: int| 0 <= i < names.len() ==> listable(#[trigger] names[i]),
        old(dialog).dependencies_input@ == joined(names, ","@),
    ensures
        click is Export ==> r == Some(MetadataDialogOutcome::Confirm(old(dialog).action_after))
            && views(final(dialog).metadata.dependencies@) == names && !final(dialog).open,
        click is Cancel ==> r is Some && r->Some_0 is Cancel && !final(dialog).open,
        click is Nothing && window_open ==> r is None && final(dialog).open,
        click is Nothing && !window_open ==> r is Some && r->Some_0 is Cancel && !final(
            dialog).open,
        !(click is Export) ==> final(dialog).metadata.dependencies == old(
            dialog).metadata.dependencies,
        final(dialog).metadata.name == old(dialog).metadata.name,
        final(dialog).metadata.author == old(dialog).metadata.author,
        final(dialog).metadata.version == old(dialog).metadata.version,
{
    law_joined_names_are_listed(names);
}

/// A dialog that is opened for an export runs that one.
pub proof fn law_export_is_asked_for(dialog: &mut MetadataDialog, action: ExportAction)
    requires
        call_ensures(MetadataDialog::open_for, (dialog, action), ()),
    ensures
        final(dialog).open,
        final(dialog).action_after == action,
        final(dialog).metadata == old(dialog).metadata,
        final(dialog).dependencies_input == old(dialog).dependencies_input,
{
}

/// A value that was set at a path is read there; where there was a value it can be
/// set, and setting the old one again brings the old document back.
pub proof fn law_path_is_set_and_read(
    t: &mut Json,
    path: &str,
    v: &Json,
    ok: bool,
    now: Option<&Json>,
    was: Option<&Json>,
)
    requires
        call_ensures(set_at_path, (t, path, v), ok),
        call_ensures(get_at_path, (final(t), path), now),
        call_ensures(get_at_path, (old(t), path), was),
    ensures
        ok ==> now is Some && now->Some_0@ == v@,
        !ok ==> *final(t) == *old(t),
        was is Some ==> ok,
        was is Some ==> value_with(final(t)@, path@, was->Some_0@) == Some(old(t)@),
{
    match path_hops(path@) {
        Some(h) => {
            if ok {
                law_set_get(old(t)@, h, v@);
            }
            if was is Some {
                law_existing_path_can_be_set(old(t)@, h, v@);
                law_set_back(old(t)@, h, v@);
            }
        },
        None => {},
    }
}

/// Setting a value under one name of an object leaves what stands under another.
pub proof fn law_setting_keeps_other_members(
    t: Tree,
    h: Seq<Hop>,
    v: Tree,
    name: Seq<char>,
)
    requires
        tree_with(t, h, v) is Some,
        h.len() > 0,
        h[0] is Member,
        h[0] != Hop::Member(name),
    ensures
        tree_get(tree_with(t, h, v)->Some_0, name) == tree_get(t, name),
{
    let e = t->Obj_0;
    let n = h[0]->Member_0;
    crate::edit_path::lemma_member_index(e, n);
    match crate::edit_path::member_index(e, n) {
        Some(i) => {
            let c = tree_with(e[i].1, h.drop_first(), v)->Some_0;
            lemma_other_member(e, i, (n, c), name);
        },
        None => {
            lemma_added_member(e, (n, v), name);
        },
    }
}

proof fn lemma_other_member(e: Seq<(Seq<char>, Tree)>, i: int, m: (Seq<char>, Tree), name: Seq<char>)
    requires
        0 <= i < e.len(),
        e[i].0 != name,
        m.0 != name,
    ensures
        crate::json::member_of(e.update(i, m), name) == crate::json::member_of(e, name),
    decreases e.len(),
{
    let u = e.update(i, m);
    if i == 0 {
        assert(u.drop_first() =~= e.drop_first());
    } else {
        assert(u.drop_first() =~= e.drop_first().update(i - 1, m));
        lemma_other_member(e.drop_first(), i - 1, m, name);
    }
}

proof fn lemma_added_member(e: Seq<(Seq<char>, Tree)>, m: (Seq<char>, Tree), name: Seq<char>)
    requires
        m.0 != name,
    ensures
        crate::json::member_of(e.push(m), name) == crate::json::member_of(e, name),
    decreases e.len(),
{
    let u = e.push(m);
    if e.len() == 0 {
        assert(u.drop_first() =~= e);
    } else {
        assert(u.drop_first() =~= e.drop_first().push(m));
        lemma_added_member(e.drop_first(), m, name);
    }
}

/// Setting an element of a list leaves the other elements and the length.
pub proof fn law_setting_keeps_other_elements(t: Tree, h: Seq<Hop>, v: Tree, i: int, j: int)
    requires
        tree_with(t, h, v) is Some,
        h.len() > 0,
        h[0] == Hop::Element(i),
    ensures
        t is Arr,
        tree_with(t, h, v)->Some_0 is Arr,
        tree_with(t, h, v)->Some_0->Arr_0.len() == t->Arr_0.len(),
        0 <= j < t->Arr_0.len() && j != i ==> tree_with(t, h, v)->Some_0->Arr_0[j] == t->Arr_0[j],
{
}

/// What stands at a path of one name is the member of that name; behind an index it
/// is the element there.
pub proof fn law_value_at_a_hop(t: Tree, name: Seq<char>, i: int)
    ensures
        tree_at(t, seq![Hop::Member(name)]) == tree_get(t, name),
        t is Arr && 0 <= i < t->Arr_0.len() ==> tree_at(t, seq![Hop::Element(i)]) == Some(
            t->Arr_0[i],
        ),
        t is Arr && !(0 <= i < t->Arr_0.len()) ==> tree_at(t, seq![Hop::Element(i)]) is None,
        tree_at(t, Seq::empty()) == Some(t),
{
    reveal_with_fuel(tree_at, 3);
    assert(seq![Hop::Member(name)].drop_first() =~= Seq::<Hop>::empty());
    assert(seq![Hop::Element(i)].drop_first() =~= Seq::<Hop>::empty());
}

/// The number of hundredths of a mebibyte and the like is the nearest: no further
/// off than half of one.
pub proof fn law_sizes_are_rounded(n: nat, d: nat)
    requires
        d > 0,
    ensures
        2 * (rounded(n, d) * d) <= 2 * n + d,
        2 * n <= 2 * (rounded(n, d) * d) + d,
{
    vstd::arithmetic::div_mod::lemma_fundamental_div_mod(n as int, d as int);
    vstd::arithmetic::div_mod::lemma_mod_bound(n as int, d as int);
    let q = (n / d) as int;
    let m = d as int;
    assert((q + 1) * m == q * m + m && m * q == q * m) by (nonlinear_arith);
}

/// A file size is given in bytes below a kibibyte, and from there on in the largest
/// unit that it reaches.
pub proof fn law_unit_of_a_size(b: u64, r: String, n: nat)
    requires
        call_ensures(format_size, (b,), r),
    ensures
        b < 1024 ==> r@ == dec(b as nat) + " B"@,
        1024 <= b < 1048576 && n == rounded((b * 10) as nat, 1024) ==> r@ == dec(n / 10) + "."@
            + dec(n % 10) + " KB"@,
        1048576 <= b < 1073741824 && n == rounded((b * 100) as nat, 1048576) ==> r@ == dec(n / 100)
            + "."@ + dec((n / 10) % 10) + dec(n % 10) + " MB"@,
        1073741824 <= b < 0x20_0000_0000_0000 && n == rounded((b * 100) as nat, 1073741824) ==> r@
            == dec(n / 100) + "."@ + dec((n / 10) % 10) + dec(n % 10) + " GB"@,
{
    if b < 0x20_0000_0000_0000 {
        law_small_sizes_exact(b as nat);
    }
}

/// Where the rows of a kind stand among those that fit alike.
pub open spec fn place_of_kind(c: PaletteCategory) -> int {
    match c {
        PaletteCategory::Action => 0,
        PaletteCategory::LoadedTable => 1,
        PaletteCategory::RecentEntry => 2,
        PaletteCategory::LibraryMod => 3,
    }
}

/// Of rows that fit alike commands come first, then tables, entries and mods; rows of
/// one kind come in the order of their labels once something is typed.
pub proof fn law_rows_that_fit_alike(
    items: &[PaletteItem],
    query: &str,
    r: (Vec<ScoredItem>, bool),
    k: int,
    l: int,
)
    requires
        call_ensures(filter_and_score, (items, query), r),
        0 <= k < l < r.0@.len(),
        r.0@[k].score == r.0@[l].score,
    ensures
        ({
            let (a, b) = (r.0@[k].item, r.0@[l].item);
            &&& place_of_kind(a.category) <= place_of_kind(b.category)
            &&& a.category == b.category && trimmed(query@).len() > 0 ==> !text_before(
                b.label@,
                a.label@,
            )
        }),
{
    let order = choose|order: Seq<usize>|
        {
            &&& #[trigger] lists(items@, query@, order)
            &&& r.0@.len() == order.len()
            &&& forall|k: int|
                0 <= k < order.len() ==> (#[trigger] r.0@[k]).item == items@[order[k] as int]
                    && r.0@[k].score == row_score(items@, query@, order[k] as int)
        };
    assert(item_before(items@, query@, order[k], order[l]));
    assert(r.0@[k].score == row_score(items@, query@, order[k] as int));
    assert(r.0@[l].score == row_score(items@, query@, order[l] as int));
    let (a, b) = (r.0@[k].item, r.0@[l].item);
    crate::text::law_text_order(a.label@, b.label@, a.label@);
}

/// A row of the palette names what it leads to: the table and how many entries it
/// has, the entry by its name and its key, the mod by its file.
pub proof fn law_labels_of_the_palette(
    state: &AppState,
    out: Vec<PaletteItem>,
    tab: int,
    active: usize,
    entry: int,
    m: int,
)
    requires
        state.tabs_wf(),
        call_ensures(build_candidates, (state,), out),
        0 <= tab < state.open_tabs@.len(),
        state.active_tab_idx == Some(active),
        active < state.open_tabs@.len(),
        0 <= entry < 200,
        entry < state.open_tabs@[active as int].entries@.len(),
        0 <= m < state.config.recent_mods@.len(),
    ensures
        exists|k: int|
            0 <= k < out@.len() && (#[trigger] out@[k]).label@ == "Jump to Table: "@
                + state.open_tabs@[tab].dispatch_name@ + " ("@ + dec(
                state.open_tabs@[tab].entries@.len(),
            ) + " entries)"@ && out@[k].category == PaletteCategory::LoadedTable,
        ({
            let t = state.open_tabs@[active as int];
            let key = t.entry_keys@[entry];
            &&& (tree_get(t.entries@[entry]@, "string_key"@) is None ==> exists|k: int|
                0 <= k < out@.len() && (#[trigger] out@[k]).label@ == "Entry: key="@ + dec(
                    key as nat,
                ) + " in "@ + t.dispatch_name@)
            &&& (tree_get(t.entries@[entry]@, "string_key"@) matches Some(Tree::Str(s))
                && s.len() > 0 ==> exists|k: int|
                0 <= k < out@.len() && (#[trigger] out@[k]).label@ == "Entry: "@ + tree_get(
                    t.entries@[entry]@,
                    "string_key"@,
                )->Some_0->Str_0 + " (key="@ + dec(key as nat) + ") in "@ + t.dispatch_name@)
        }),
        state.config.recent_mods@[m].file_name is Some ==> exists|k: int|
            0 <= k < out@.len() && (#[trigger] out@[k]).label@ == "Open Library Mod: "@
                + state.config.recent_mods@[m].file_name->Some_0@,
{
    let c = candidates(*state);
    let n = state.open_tabs@.len();
    let rows = crate::ui::command_palette::entry_rows(*state);
    let e = rows.len();
    let t = state.open_tabs@[active as int];
    assert(rows_of(out@).len() == out@.len());
    assert(c[13 + tab] == crate::ui::command_palette::tab_row(state.open_tabs@[tab]));
    assert(rows_of(out@)[13 + tab] == out@[13 + tab]@);
    assert(rows[entry] == crate::ui::command_palette::entry_row(t, entry));
    assert(c[13 + n + entry] == rows[entry]);
    assert(rows_of(out@)[13 + n + entry] == out@[13 + n + entry]@);
    assert(c[13 + n + e + m] == crate::ui::command_palette::mod_row(state.config.recent_mods@[m]));
    assert(rows_of(out@)[13 + n + e + m] == out@[13 + n + e + m]@);
}

/// The binary files that were found are listed; where the search failed or could not
/// start, the list stays and that is said.
pub proof fn law_binary_files_are_found(
    state: &mut AppState,
    found: Option<Result<Vec<BinaryFileEntry>, String>>,
)
    requires
        call_ensures(browse_done, (state, found), ()),
    ensures
        found matches Some(Ok(v)) ==> final(state).binary_inspector.paz_files == Some(v) && final(
            state).toasts@.last().level == Level::Info,
        found matches Some(Err(e)) ==> final(state).binary_inspector == old(state).binary_inspector
            && final(state).toasts@.last().details == Some(e@),
        found is None ==> final(state).binary_inspector == old(state).binary_inspector && final(
            state).toasts@.last().level == Level::Warn,
{
}

} // verus!
