//! Laws of the archive browser, the snapshots, the conflicts, the history and the
//! view on bytes.

use vstd::prelude::*;
use crate::digits::{dec, digits, hex_pad};
use crate::hexdump::{format_hex_line, printable};
use crate::rows::law_picked;
use crate::state::{AppState, EditHistory, EditOp, Level};
use crate::text::{ascii_lowered, has_sub, joined, trimmed, views};
use crate::ui::archive_panel::{
    diff_view, file_total, files_size, group_kept, handle_remove_overlay, open_file_in_hex,
    refresh_groups, row_actions, size_total, visible_groups, ArchiveDir, ArchiveFile, ArchiveGroup,
    ArchiveMode, ArchiveSession, DiffView, RowActions,
};
use crate::ui::backup_panel::{deleted_count, handle_delete, handle_restore, refresh, Snapshot};
use crate::ui::conflict_panel::{
    apply_action, conflict_details, conflict_summary, direct_upto, load_notes, loaded_of, Action,
    Conflict, ConflictKind, ConflictReport, LoadedMod,
};
use crate::ui::hex_view::{page_range, total_pages, turn_page, type_offset, HexViewState, PageTurn};
use crate::ui::history_panel::{first_visible, format_relative, row_summary};

verus! {

broadcast use vstd::seq_lib::group_seq_properties;

/// The groups that were read are those that are shown. Without a game directory,
/// or where they could not be read, none are, and it is said why.
pub proof fn law_groups_are_read(state: &mut AppState, scanned: Result<Vec<ArchiveGroup>, String>)
    requires
        call_ensures(refresh_groups, (state, scanned), ()),
    ensures
        old(state).game_dir is Some && scanned is Ok ==> final(state).archive.groups == Some(
            scanned->Ok_0,
        ) && final(state).archive.error is None,
        old(state).game_dir is None || scanned is Err ==> final(state).archive.error is Some
            && final(state).archive.groups is Some && final(
            state).archive.groups->Some_0@.len() == 0,
        old(state).game_dir is Some && scanned is Err ==> final(state).archive.error->Some_0@
            == "Scan failed: "@ + scanned->Err_0@,
        final(state).archive.mode == old(state).archive.mode,
{
}

/// A filter keeps the groups whose names hold it, in either letter case and
/// without the blanks around it.
pub proof fn law_kept_groups(g: &Vec<ArchiveGroup>, filter: &str, r: Vec<usize>, i: usize)
    requires
        call_ensures(visible_groups, (g, filter), r),
        i < g@.len(),
    ensures
        r@.contains(i) <==> trimmed(filter@).len() == 0 || has_sub(
            ascii_lowered(g@[i as int].name@),
            ascii_lowered(trimmed(filter@)),
        ),
{
    let keep = group_kept(g@, filter@);
    assert(g@.len() == g.len());
    law_picked(g@.len(), keep);
    assert(ascii_lowered(trimmed(filter@)).len() == trimmed(filter@).len());
    assert(keep(i as int) == (trimmed(filter@).len() == 0 || has_sub(
        ascii_lowered(g@[i as int].name@),
        ascii_lowered(trimmed(filter@)),
    )));
}

/// The checksums of a group mismatch exactly where both are known and differ.
pub proof fn law_checksum_mismatch(g: &ArchiveGroup, r: bool, a: u32, b: u32)
    requires
        call_ensures(ArchiveGroup::checksum_mismatch, (g,), r),
    ensures
        g.papgt_checksum == Some(a) && g.pamt_checksum == Some(b) ==> r == (a != b),
        g.papgt_checksum is None || g.pamt_checksum is None ==> !r,
{
}

/// The bytes of a file that were read are shown from the first page on, under the
/// names of the group, the directory and the file.
pub proof fn law_file_is_opened(
    state: &mut AppState,
    group: &String,
    dir: &String,
    file: &String,
    result: Result<Vec<u8>, String>,
)
    requires
        call_ensures(open_file_in_hex, (state, group, dir, file, result), ()),
    ensures
        result is Ok ==> {
            &&& final(state).archive.hex_bytes == result->Ok_0
            &&& final(state).archive.hex_state.page == 0
            &&& final(state).archive.mode == (ArchiveMode::Hex {
                group: *group,
                dir_path: *dir,
                file_name: *file,
            })
            &&& final(state).archive.hex_label@ == group@ + " / "@ + dir@ + " / "@ + file@ + "  —  "@
                + dec(result->Ok_0@.len()) + " bytes uncompressed"@
        },
        result is Err ==> final(state).archive == old(state).archive && final(
            state).toasts@.last().level == Level::Error,
{
}

/// A group that could not be read can neither be opened nor removed; one whose
/// removal was asked for waits to be confirmed, and no other does.
pub proof fn law_row_of_a_group(s: &ArchiveSession, g: &ArchiveGroup, r: RowActions)
    requires
        call_ensures(row_actions, (s, g), r),
    ensures
        r is Error <==> g.error is Some,
        r is Confirm ==> s.remove_confirm_pending is Some && s.remove_confirm_pending->Some_0@
            == g.name@,
        g.error is None && s.remove_confirm_pending is Some && s.remove_confirm_pending->Some_0@
            == g.name@ ==> r is Confirm,
{
}

/// A removed overlay is said, and everything is read anew; one that could not be
/// removed leaves the groups. Either way nothing waits to be confirmed.
pub proof fn law_overlay_is_removed(
    state: &mut AppState,
    group: &str,
    result: &Result<(), String>,
    scanned: Result<Vec<ArchiveGroup>, String>,
)
    requires
        call_ensures(handle_remove_overlay, (state, group, result, scanned), ()),
    ensures
        final(state).archive.remove_confirm_pending is None,
        result is Ok && old(state).game_dir is Some && scanned is Ok ==> final(
            state).archive.groups == Some(scanned->Ok_0),
        result is Ok ==> final(state).archive.detail is None && final(state).archive.diff is None
            && final(state).toasts@.last().level == Level::Info && final(
            state).toasts@.last().message == "Removed overlay "@ + group@,
        result is Err ==> final(state).archive.groups == old(state).archive.groups && final(
            state).toasts@.last().level == Level::Error && final(state).toasts@.last().details
            == Some(result->Err_0@),
{
}

/// The number and the bytes of files of a group are the sums over its directories
/// and their files.
pub proof fn law_group_totals(d: Seq<ArchiveDir>, f: Seq<ArchiveFile>, dir: ArchiveDir, file: ArchiveFile)
    ensures
        file_total(Seq::<ArchiveDir>::empty(), 0) == 0,
        size_total(Seq::<ArchiveDir>::empty(), 0) == 0,
        files_size(f.push(file), f.len() + 1) == files_size(f, f.len()) + file.uncompressed_size,
        file_total(d.push(dir), d.len() + 1) == file_total(d, d.len()) + dir.files@.len(),
        size_total(d.push(dir), d.len() + 1) == size_total(d, d.len()) + files_size(
            dir.files@,
            dir.files@.len(),
        ),
{
    lemma_sizes_alike(f, f.push(file), f.len());
    lemma_totals_alike(d, d.push(dir), d.len());
}

proof fn lemma_sizes_alike(a: Seq<ArchiveFile>, b: Seq<ArchiveFile>, n: nat)
    requires
        n <= a.len(),
        n <= b.len(),
        forall|i: int| 0 <= i < n ==> a[i] == b[i],
    ensures
        files_size(a, n) == files_size(b, n),
    decreases n,
{
    if n > 0 {
        lemma_sizes_alike(a, b, (n - 1) as nat);
    }
}

proof fn lemma_totals_alike(a: Seq<ArchiveDir>, b: Seq<ArchiveDir>, n: nat)
    requires
        n <= a.len(),
        n <= b.len(),
        forall|i: int| 0 <= i < n ==> a[i] == b[i],
    ensures
        file_total(a, n) == file_total(b, n),
        size_total(a, n) == size_total(b, n),
    decreases n,
{
    if n > 0 {
        lemma_totals_alike(a, b, (n - 1) as nat);
    }
}

/// The index is the same as its backup exactly where nothing was added, removed
/// or changed.
pub proof fn law_index_and_backup(s: &ArchiveSession, r: DiffView)
    requires
        call_ensures(diff_view, (s,), r),
        s.diff is Some,
        s.diff->Some_0 is Some,
    ensures
        r == DiffView::Same <==> s.diff->Some_0->Some_0.added@.len() == 0
            && s.diff->Some_0->Some_0.removed@.len() == 0 && s.diff->Some_0->Some_0.changed@.len()
            == 0,
        r == DiffView::Same || r == DiffView::Differs,
{
}

/// The snapshots that were listed are those that are shown; where they could not
/// be listed, those before stay.
pub proof fn law_snapshots_are_listed(state: &mut AppState, listed: Result<Vec<Snapshot>, String>)
    requires
        call_ensures(refresh, (state, listed), ()),
    ensures
        listed is Ok ==> final(state).backup_snapshots == listed->Ok_0
            && final(state).backup_loaded_once && final(state).toasts == old(state).toasts,
        listed is Err ==> final(state).backup_snapshots == old(state).backup_snapshots
            && final(state).toasts@.last().level == Level::Error,
{
}

/// A restored snapshot is named in what is said; one that was not restored is an
/// error with the reason. Then the list is taken over.
pub proof fn law_restore_is_reported(
    state: &mut AppState,
    id: &str,
    result: &Result<(), String>,
    listed: Result<Vec<Snapshot>, String>,
)
    requires
        call_ensures(handle_restore, (state, id, result, listed), ()),
        listed is Ok,
    ensures
        final(state).backup_snapshots == listed->Ok_0,
        final(state).toasts@.len() == old(state).toasts@.len() + 1,
        result is Ok ==> final(state).toasts@.last().level == Level::Info && final(
            state).toasts@.last().message == "Restored snapshot "@ + id@ && final(state).status@
            == "Restored snapshot "@ + id@,
        result is Err ==> final(state).toasts@.last().level == Level::Error && final(
            state).toasts@.last().details == Some(result->Err_0@) && final(state).status == old(
            state).status,
{
}

/// A deleted snapshot is named in what is said; one that was not deleted is an
/// error with the reason. Then the list is taken over.
pub proof fn law_delete_is_reported(
    state: &mut AppState,
    id: &str,
    result: &Result<(), String>,
    listed: Result<Vec<Snapshot>, String>,
)
    requires
        call_ensures(handle_delete, (state, id, result, listed), ()),
        listed is Ok,
    ensures
        final(state).backup_snapshots == listed->Ok_0,
        final(state).toasts@.len() == old(state).toasts@.len() + 1,
        result is Ok ==> final(state).toasts@.last().level == Level::Info && final(
            state).toasts@.last().message == "Deleted snapshot "@ + id@,
        result is Err ==> final(state).toasts@.last().level == Level::Error && final(
            state).toasts@.last().details == Some(result->Err_0@),
{
}

/// Of the deletes those count that went well.
pub proof fn law_deletes_are_counted(v: Seq<Result<(), String>>, x: Result<(), String>)
    ensures
        deleted_count(v.push(x), v.len() + 1) == deleted_count(v, v.len()) + (if x is Ok {
            1int
        } else {
            0
        }),
        deleted_count(v, 0) == 0,
{
    lemma_counts_alike(v, v.push(x), v.len());
}

proof fn lemma_counts_alike(a: Seq<Result<(), String>>, b: Seq<Result<(), String>>, n: nat)
    requires
        n <= a.len(),
        n <= b.len(),
        forall|i: int| 0 <= i < n ==> a[i] == b[i],
    ensures
        deleted_count(a, n) == deleted_count(b, n),
    decreases n,
{
    if n > 0 {
        lemma_counts_alike(a, b, (n - 1) as nat);
    }
}

/// What unfolds under a direct conflict gives the value of each mod beside its
/// name; under an overlap, the fields of each.
pub proof fn law_conflict_details(kind: &ConflictKind, a: &str, b: &str, r: Vec<(String, String)>)
    requires
        call_ensures(conflict_details, (kind, a, b), r),
    ensures
        match *kind {
            ConflictKind::DirectConflict {
                table,
                entry_key,
                field_path,
                mod_a_value,
                mod_b_value,
            } => {
                &&& r@.len() == 5
                &&& r@[0].1@ == table@
                &&& r@[1].1@ == dec(entry_key as nat)
                &&& r@[2].1@ == field_path@
                &&& r@[3].0@ == a@ + " value"@
                &&& r@[3].1@ == crate::ui::templates_panel::value_text(mod_a_value@)
                &&& r@[4].0@ == b@ + " value"@
                &&& r@[4].1@ == crate::ui::templates_panel::value_text(mod_b_value@)
            },
            ConflictKind::PartialOverlap { table, entry_key, a_fields, b_fields } => {
                &&& r@.len() == 2
                &&& r@[0].0@ == a@ + " fields"@
                &&& a_fields@.len() > 0 ==> r@[0].1@ == joined(views(a_fields@), ", "@)
                &&& r@[1].0@ == b@ + " fields"@
                &&& b_fields@.len() > 0 ==> r@[1].1@ == joined(views(b_fields@), ", "@)
            },
        },
{
    let t = crate::ui::conflict_panel::row_texts(r@);
    assert(t.len() == r@.len());
    assert forall|i: int| 0 <= i < r@.len() implies #[trigger] t[i] == (r@[i].0@, r@[i].1@) by {}
    if r@.len() == 5 {
        assert(t[0] == (r@[0].0@, r@[0].1@) && t[1] == (r@[1].0@, r@[1].1@) && t[2] == (
            r@[2].0@,
            r@[2].1@,
        ) && t[3] == (r@[3].0@, r@[3].1@) && t[4] == (r@[4].0@, r@[4].1@));
    } else if r@.len() == 2 {
        assert(t[0] == (r@[0].0@, r@[0].1@) && t[1] == (r@[1].0@, r@[1].1@));
    }
}

/// The line on a conflict names the table, the entry and both mods, and for a
/// direct one the field.
pub proof fn law_conflict_line(kind: &ConflictKind, a: &str, b: &str, r: String)
    requires
        call_ensures(conflict_summary, (kind, a, b), r),
    ensures
        match *kind {
            ConflictKind::DirectConflict { table, entry_key, field_path, .. } => r@ == "[Direct] "@
                + table@ + " "@ + dec(entry_key as nat) + ": "@ + field_path@ + " ("@ + a@ + " ↔ "@
                + b@ + ")"@,
            ConflictKind::PartialOverlap { table, entry_key, .. } => r@ == "[Overlap] "@ + table@
                + " "@ + dec(entry_key as nat) + ": "@ + a@ + " & "@ + b@
                + " touch the same entry"@,
        },
{
}

/// Direct conflicts and overlaps are counted apart, and together they are all.
pub proof fn law_conflicts_are_counted(c: Seq<Conflict>, x: Conflict, r: &ConflictReport, d: usize, p: usize)
    requires
        call_ensures(ConflictReport::direct_count, (r,), d),
        call_ensures(ConflictReport::partial_count, (r,), p),
    ensures
        d + p == r.conflicts@.len(),
        direct_upto(c.push(x), c.len() + 1) == direct_upto(c, c.len()) + (
        if x.kind is DirectConflict {
            1int
        } else {
            0
        }),
        direct_upto(c, 0) == 0,
{
    lemma_direct_alike(c, c.push(x), c.len());
}

proof fn lemma_direct_alike(a: Seq<Conflict>, b: Seq<Conflict>, n: nat)
    requires
        n <= a.len(),
        n <= b.len(),
        forall|i: int| 0 <= i < n ==> a[i] == b[i],
    ensures
        direct_upto(a, n) == direct_upto(b, n),
    decreases n,
{
    if n > 0 {
        lemma_direct_alike(a, b, (n - 1) as nat);
    }
}

/// A mod that is removed is gone and the others stay in order; a comparison that
/// was made is the one that is shown; and picked mods that load come behind those
/// that are there.
pub proof fn law_conflict_actions(state: &mut AppState, action: Action, j: int)
    requires
        call_ensures(apply_action, (state, action), ()),
    ensures
        action matches Action::RemoveMod(i) ==> i < old(state).loaded_mods@.len() ==> {
            &&& final(state).loaded_mods@.len() == old(state).loaded_mods@.len() - 1
            &&& 0 <= j < i ==> final(state).loaded_mods@[j] == old(state).loaded_mods@[j]
            &&& i <= j < final(state).loaded_mods@.len() ==> final(state).loaded_mods@[j] == old(
                state).loaded_mods@[j + 1]
            &&& final(state).conflict_report is None
        },
        action matches Action::Analyze(report) ==> final(state).conflict_report == Some(report)
            && final(state).loaded_mods == old(state).loaded_mods,
        action is LoadMods && 0 <= j < old(state).loaded_mods@.len() ==> final(
            state).loaded_mods@.len() >= old(state).loaded_mods@.len() && final(
            state).loaded_mods@[j] == old(state).loaded_mods@[j],
        action is PickPlaceholder ==> final(state).loaded_mods == old(state).loaded_mods
            && final(state).conflict_report == old(state).conflict_report,
{
}

/// Of the picked files those are loaded that could be, in order, and of each of
/// the others it is said why it could not.
pub proof fn law_picked_mods(v: Seq<(String, Result<LoadedMod, String>)>, n: nat)
    requires
        n < v.len(),
    ensures
        v[n as int].1 is Ok ==> loaded_of(v, n + 1) == loaded_of(v, n).push(v[n as int].1->Ok_0)
            && load_notes(v, n + 1) == load_notes(v, n),
        v[n as int].1 is Err ==> loaded_of(v, n + 1) == loaded_of(v, n) && load_notes(v, n + 1).len()
            == load_notes(v, n).len() + 1 && load_notes(v, n + 1).last().level == Level::Error
            && load_notes(v, n + 1).last().details == Some(v[n as int].1->Err_0@),
{
}

/// The line on an edit names its place, its table, its path and its key.
pub proof fn law_line_on_an_edit(i: usize, op: &EditOp, r: String)
    requires
        i < usize::MAX,
        call_ensures(row_summary, (i, op), r),
    ensures
        op.field_path@.len() > 0 ==> r@ == "["@ + dec((i + 1) as nat) + "] "@ + op.table@ + "."@
            + op.field_path@ + " key="@ + dec(op.entry_key as nat),
        op.field_path@.len() == 0 ==> r@ == "["@ + dec((i + 1) as nat) + "] "@ + op.table@ + "."@
            + "<entire entry>"@ + " key="@ + dec(op.entry_key as nat),
{
}

/// How long ago is told in seconds below a minute, in minutes below an hour, and
/// in hours from then on, each rounded down.
pub proof fn law_how_long_ago(secs: u64, r: String)
    requires
        call_ensures(format_relative, (secs,), r),
    ensures
        secs < 60 ==> r@ == dec(secs as nat) + "s ago"@,
        60 <= secs < 3600 ==> r@ == dec((secs / 60) as nat) + "m ago"@,
        secs >= 3600 ==> r@ == dec((secs / 3600) as nat) + "h ago"@,
{
}

/// The last fifty edits are listed.
pub proof fn law_listed_edits(n: usize, r: usize)
    requires
        call_ensures(first_visible, (n,), r),
    ensures
        n <= 50 ==> r == 0,
        n > 50 ==> n - r == 50,
{
}

/// An edit is put behind the applied ones, and those that could have been redone
/// are gone.
pub proof fn law_edit_is_recorded(h: &mut EditHistory, op: EditOp, i: int)
    requires
        old(h).wf(),
        call_ensures(EditHistory::record, (h, op), ()),
        0 <= i < old(h).position,
    ensures
        final(h).position == old(h).position + 1,
        final(h).edits().len() == final(h).position,
        final(h).edits()[i] == old(h).edits()[i],
        final(h).edits().last().field_path == op.field_path@,
        final(h).edits().last().old_value == op.old_value@,
        final(h).edits().last().new_value == op.new_value@,
        final(h).edits().last().entry_key == op.entry_key,
        final(h).edits().last().table == op.table@,
{
}

/// There are as many pages as the bytes need: all but the last are full, and the
/// last is not empty.
pub proof fn law_number_of_pages(n: usize, size: usize, r: usize)
    requires
        size > 0,
        call_ensures(total_pages, (n, size), r),
    ensures
        r * size >= n,
        n > 0 ==> r > 0 && (r - 1) * size < n,
        n == 0 ==> r == 0,
{
    vstd::arithmetic::div_mod::lemma_fundamental_div_mod(n as int, size as int);
    let (q, m) = (n as int / size as int, n as int % size as int);
    vstd::arithmetic::div_mod::lemma_mod_bound(n as int, size as int);
    let s = size as int;
    assert((q + 1) * s == s * q + s) by (nonlinear_arith);
    assert(q * s == s * q) by (nonlinear_arith);
    assert((q - 1) * s == s * q - s) by (nonlinear_arith);
    if r == q + 1 {
        assert(r * size == (q + 1) * s);
        assert((r - 1) * size == q * s);
    } else {
        assert(r == q);
        assert(r * size == q * s);
        assert((r - 1) * size == (q - 1) * s);
    }
    if n > 0 && q == 0 {
        assert(s * q == 0) by (nonlinear_arith)
            requires
                q == 0,
        ;
    }
    if n == 0 {
        assert(q == 0 && m == 0) by (nonlinear_arith)
            requires
                n == 0,
                size > 0,
                q == n as int / size as int,
                m == n as int % size as int,
        ;
    }
}

/// The bytes of a page follow those of the page before, and there are as many as
/// a page holds, but on the last page.
pub proof fn law_bytes_of_a_page(s: &HexViewState, n: usize, r: (usize, usize))
    requires
        crate::ui::hex_view::on_a_page(*s, n as nat),
        call_ensures(page_range, (s, n), r),
    ensures
        r.0 == s.page * s.bytes_per_page,
        r.1 <= n,
        r.1 - r.0 <= s.bytes_per_page,
        r.1 < n ==> r.1 - r.0 == s.bytes_per_page,
{
}

/// A page is turned one by one, or to either end; a button at the end does
/// nothing, and the selection stays.
pub proof fn law_page_is_turned(s: &mut HexViewState, total: usize, turn: PageTurn)
    requires
        call_ensures(turn_page, (s, total, turn), ()),
        old(s).page < total,
    ensures
        turn is First ==> final(s).page == 0,
        turn is Last ==> final(s).page == total - 1,
        turn is Next ==> final(s).page == if old(s).page + 1 < total {
            old(s).page + 1
        } else {
            old(s).page as int
        },
        turn is Prev ==> final(s).page == if old(s).page > 0 {
            old(s).page - 1
        } else {
            0
        },
        final(s).selected_offset == old(s).selected_offset,
        final(s).bytes_per_page == old(s).bytes_per_page,
{
}

/// An offset that is typed in hexadecimal selects its byte and turns to the page
/// that it is on.
pub proof fn law_typed_offset(s: &mut HexViewState, input: &str, n: usize, o: usize)
    requires
        old(s).bytes_per_page > 0,
        call_ensures(type_offset, (s, input, n), ()),
        o < n,
        input@ == digits(o as nat, 16, true),
    ensures
        final(s).selected_offset == Some(o),
        final(s).page == o as int / old(s).bytes_per_page as int,
{
    reveal_strlit("0x");
    let d = digits(o as nat, 16, true);
    lemma_hex_chars(o as nat);
    crate::digits::law_print_parse(o as nat, 16, true, usize::MAX as nat);
    assert(crate::text::trimmed_start(d) == d);
    assert(trimmed(d) == d);
    if d.len() >= 2 {
        assert(d.take(2)[1] == d[1]);
        assert("0x"@[1] == 'x');
    }
    assert(!crate::text::has_prefix(d, "0x"@));
    assert(crate::text::stripped(d, "0x"@) == d);
    let b = old(s).bytes_per_page;
    assert(o as int / b as int <= o) by (nonlinear_arith)
        requires
            b >= 1,
            o >= 0,
    ;
    assert(o as int / b as int >= 0) by (nonlinear_arith)
        requires
            b >= 1,
            o >= 0,
    ;
}

proof fn lemma_hex_chars(n: nat)
    ensures
        digits(n, 16, true).len() >= 1,
        forall|i: int|
            0 <= i < digits(n, 16, true).len() ==> {
                let c = #[trigger] digits(n, 16, true)[i];
                c != 'x' && !crate::text::is_white(c)
            },
    decreases n,
{
    if n >= 16 {
        lemma_hex_chars(n / 16);
    }
}

/// A byte is shown as itself where it is printable ASCII, else as a dot.
pub proof fn law_shown_bytes(b: u8, c: char)
    requires
        call_ensures(printable, (b,), c),
    ensures
        0x20 <= b <= 0x7E ==> c as u32 == b,
        !(0x20 <= b <= 0x7E) ==> c == '.',
{
}

/// A row of bytes begins with its offset in eight digits and ends with one
/// character for each byte.
pub proof fn law_row_of_bytes(offset: usize, chunk: &[u8], r: String, i: int)
    requires
        call_ensures(format_hex_line, (offset, chunk), r),
    ensures
        r@.take(hex_pad(offset as nat, 8, true).len() as int) == hex_pad(offset as nat, 8, true),
        r@.len() >= chunk@.len(),
        0 <= i < chunk@.len() && 0x20 <= chunk@[i] <= 0x7E ==> r@[r@.len() - chunk@.len() + i] as u32
            == chunk@[i],
{
    let h = hex_pad(offset as nat, 8, true);
    assert(r@.take(h.len() as int) =~= h);
    let g = chunk@.map_values(|b: u8| crate::hexdump::shown(b));
    if 0 <= i < chunk@.len() {
        assert(r@[r@.len() - chunk@.len() + i] == g[i]);
    }
}

} // verus!
