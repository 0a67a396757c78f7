//! Laws of what is shown of bytes, documents and the history, of rows in order, and
//! of the search fields.

use vstd::prelude::*;
use crate::hexdump::{cell, cells, format_hex_dump, format_hex_line, format_hex_rows, row_bytes};
use crate::text::{
    byte_len, has_prefix, has_sub, joined, longer_than, lowercase, occurs_at, text_before, trimmed,
    views,
};
use crate::edit_path::{get_at_path, parse_path};
use crate::digits::{dec, digits, hex_pad};
use crate::byte_patch::{
    format_patch_summary, has_patches, report_preview, BytePatch, BytePatchDoc, PatchDraft,
};
use crate::json::{Json, Tree};
use crate::json_text::{form, member_forms, to_compact, to_pretty, Form};
use crate::rows::{find_position, position_of};
use crate::sorting::{row_before, sorted_rows, SortKey};
use crate::state::{
    ActiveTable, AppState, EditOp, GlobalSearchHit, Level, MultiFormatSearchSession, SearchFormat,
    SearchMode, Toasts,
};
use crate::ui::entry_table::{
    cell_text, extract_paz_filename, format_cell_value, hex_toggle, hit_label, raw_prefix,
    select_entry, shows_hex, toggle_hex, walk_strings_match, HexToggle,
};
use crate::ui::global_search_panel::{
    is_browsing, is_korean_format, is_text_only_format, paloc_editor_lang_for_hit, query_edited,
    run_label, scan_not_queued, toggle_expanded,
};
use crate::ui::hex_view::{clamp_page, on_a_page, page_count, turn_enabled, HexViewState, PageTurn};
use crate::ui::history_panel::{
    buttons, jump_target, row_state, transition, truncate_text, HistoryAction, HistoryButtons,
    RowState,
};
use crate::ui::lint_panel::short_text;

verus! {

broadcast use vstd::seq_lib::group_seq_properties;

/// Rows in order: each row once, first by the rank, then by the text, then by the
/// number; rows that are alike in all stay as they stood.
pub proof fn law_rows_in_order(keys: &Vec<SortKey>, r: Vec<usize>, p: int, q: int, x: usize)
    requires
        call_ensures(sorted_rows, (keys,), r),
        0 <= p < q < r@.len(),
        r@[p] < keys@.len(),
        r@[q] < keys@.len(),
    ensures
        r@.len() == keys@.len(),
        r@.contains(x) <==> x < keys@.len(),
        ({
            let (a, b) = (keys@[r@[p] as int], keys@[r@[q] as int]);
            &&& a.rank <= b.rank
            &&& a.rank == b.rank ==> !text_before(b.text@, a.text@)
            &&& a.rank == b.rank && a.text@ == b.text@ ==> a.number <= b.number
            &&& a.rank == b.rank && a.text@ == b.text@ && a.number == b.number ==> r@[p] < r@[q]
        }),
{
    assert(row_before(keys@, r@[p], r@[q]));
    let (a, b) = (keys@[r@[p] as int], keys@[r@[q] as int]);
    crate::text::law_text_order(a.text@, b.text@, a.text@);
    crate::text::law_text_order(b.text@, a.text@, b.text@);
}

/// A row is found at the first position that lists it.
pub proof fn law_position_of_a_row(v: &Vec<usize>, x: usize, r: Option<usize>)
    requires
        call_ensures(find_position, (v, x), r),
    ensures
        r is Some <==> v@.contains(x),
        r is Some ==> v@[r->Some_0 as int] == x && forall|j: int|
            0 <= j < r->Some_0 ==> #[trigger] v@[j] != x,
{
    if r is Some {
        lemma_first_position(v@, x);
        assert(v@[r->Some_0 as int] == x);
    }
}

proof fn lemma_first_position(v: Seq<usize>, x: usize)
    ensures
        position_of(v, x) is Some ==> 0 <= position_of(v, x)->Some_0 < v.len() && forall|j: int|
            0 <= j < position_of(v, x)->Some_0 ==> #[trigger] v[j] != x,
    decreases v.len(),
{
    if v.len() > 0 && v[0] != x {
        let d = v.drop_first();
        lemma_first_position(d, x);
        if position_of(v, x) is Some {
            assert forall|j: int| 0 <= j < position_of(v, x)->Some_0 implies #[trigger] v[j] != x by {
                if j > 0 {
                    assert(d[j - 1] == v[j]);
                }
            }
        }
    }
}

/// Bytes are shown in rows of sixteen, the last one perhaps shorter, and every byte
/// is in the row of its offset. A dump has the rows under each other.
pub proof fn law_rows_of_bytes(bytes: &[u8], start: usize, r: Vec<String>, d: String, i: int)
    requires
        start + bytes@.len() <= usize::MAX,
        call_ensures(format_hex_rows, (bytes, start), r),
        call_ensures(format_hex_dump, (bytes, start), d),
        0 <= i < bytes@.len(),
    ensures
        16 * (r@.len() - 1) < bytes@.len() <= 16 * r@.len(),
        row_bytes(bytes@, i / 16)[i % 16] == bytes@[i],
        row_bytes(bytes@, i / 16).len() <= 16,
        d@ == joined(views(r@), "\n"@),
        i % 16 == 0 ==> has_prefix(
            r@[i / 16]@,
            crate::digits::hex_pad((start + i) as nat, 8, true),
        ),
{
    let v = views(r@);
    assert(v.len() == r@.len());
    let k = i / 16;
    assert(v[k] == r@[k]@);
    assert(16 * k <= i < 16 * k + 16 && i % 16 == i - 16 * k);
    if i % 16 == 0 {
        let h = crate::digits::hex_pad((start + i) as nat, 8, true);
        assert(start + 16 * k == start + i);
        assert(v[k] == crate::hexdump::hex_line((start + 16 * k) as nat, row_bytes(bytes@, k)));
        assert(v[k].take(h.len() as int) =~= h);
    }
}

/// What a document holds is printed as that: truth values, numbers and texts as
/// themselves, a list by its elements in order.
pub proof fn law_printed_scalars_and_lists(t: Tree, u: Tree, i: int)
    ensures
        (t is Bool || t is Int || t is Str || t is Null) && (u is Bool || u is Int || u is Str
            || u is Null) ==> (form(t) == form(u) <==> t == u),
        t is Arr ==> form(t) is Arr && form(t)->Arr_0.len() == t->Arr_0.len(),
        t is Arr && 0 <= i < t->Arr_0.len() ==> form(t)->Arr_0[i] == form(t->Arr_0[i]),
        t is Obj ==> form(t) is Obj,
        t is Bool ==> form(t) == Form::Bool(t->Bool_0),
        t is Int ==> form(t) == Form::Int(t->Int_0),
        t is Str ==> form(t) == Form::Str(t->Str_0),
{
}

/// A group is printed by its members: each name with the value of the last member
/// that has it, and no other name.
pub proof fn law_printed_groups(e: Seq<(Seq<char>, Tree)>, name: Seq<char>, i: int)
    ensures
        0 <= i < e.len() && e[i].0 == name && (forall|j: int|
            i < j < e.len() ==> (#[trigger] e[j]).0 != name) ==> form(Tree::Obj(e))->Obj_0.contains_key(
            name,
        ) && form(Tree::Obj(e))->Obj_0[name] == form(e[i].1),
        (forall|j: int| 0 <= j < e.len() ==> (#[trigger] e[j]).0 != name) ==> !form(
            Tree::Obj(e),
        )->Obj_0.contains_key(name),
{
    assert(form(Tree::Obj(e)) == Form::Obj(member_forms(e)));
    lemma_member_forms(e, name, i);
}

proof fn lemma_member_forms(e: Seq<(Seq<char>, Tree)>, name: Seq<char>, i: int)
    ensures
        0 <= i < e.len() && e[i].0 == name && (forall|j: int|
            i < j < e.len() ==> (#[trigger] e[j]).0 != name) ==> member_forms(e).contains_key(name)
            && member_forms(e)[name] == form(e[i].1),
        (forall|j: int| 0 <= j < e.len() ==> (#[trigger] e[j]).0 != name) ==> !member_forms(
            e,
        ).contains_key(name),
    decreases e.len(),
{
    if e.len() > 0 {
        let d = e.drop_last();
        lemma_member_forms(d, name, i);
        if 0 <= i < e.len() && e[i].0 == name && (forall|j: int|
            i < j < e.len() ==> (#[trigger] e[j]).0 != name) {
            if i < e.len() - 1 {
                assert(e[e.len() - 1].0 != name);
                assert(d[i] == e[i]);
                assert forall|j: int| i < j < d.len() implies (#[trigger] d[j]).0 != name by {
                    assert(e[j].0 != name);
                }
            }
        }
        if forall|j: int| 0 <= j < e.len() ==> (#[trigger] e[j]).0 != name {
            assert(e[e.len() - 1].0 != name);
            assert forall|j: int| 0 <= j < d.len() implies (#[trigger] d[j]).0 != name by {
                assert(e[j].0 != name);
            }
        }
    }
}

/// Two documents that hold the same are printed the same, in one line and in many.
pub proof fn law_printed_alike(a: &Json, b: &Json, x: String, y: String, p: String, q: String)
    requires
        call_ensures(to_compact, (a,), x),
        call_ensures(to_compact, (b,), y),
        call_ensures(to_pretty, (a,), p),
        call_ensures(to_pretty, (b,), q),
        form(a@) == form(b@),
    ensures
        x@ == y@,
        p@ == q@,
{
}

/// A text of an entry is found at any depth that is searched: in the entry itself,
/// in its lists and in its groups. Where the value is a text it is found exactly
/// where it holds what is looked for, whatever the case.
pub proof fn law_texts_are_searched(v: &Json, f: &str, r: bool, i: int)
    requires
        call_ensures(walk_strings_match, (v, f, 0), r),
    ensures
        v@ is Str ==> r == has_sub(lowercase(v@->Str_0), f@),
        v@ is Int || v@ is Float || v@ is Bool || v@ is Null ==> !r,
        v@ is Arr && 0 <= i < v@->Arr_0.len() && v@->Arr_0[i] is Str && has_sub(
            lowercase(v@->Arr_0[i]->Str_0),
            f@,
        ) ==> r,
        v@ is Obj && 0 <= i < v@->Obj_0.len() && v@->Obj_0[i].1 is Str && has_sub(
            lowercase(v@->Obj_0[i].1->Str_0),
            f@,
        ) ==> r,
{
    reveal_with_fuel(crate::ui::entry_table::strings_match, 2);
    if v@ is Arr && 0 <= i < v@->Arr_0.len() && v@->Arr_0[i] is Str && has_sub(
        lowercase(v@->Arr_0[i]->Str_0),
        f@,
    ) {
        assert(crate::ui::entry_table::strings_match(v@->Arr_0[i], f@, 1));
    }
    if v@ is Obj && 0 <= i < v@->Obj_0.len() && v@->Obj_0[i].1 is Str && has_sub(
        lowercase(v@->Obj_0[i].1->Str_0),
        f@,
    ) {
        assert(crate::ui::entry_table::strings_match(v@->Obj_0[i].1, f@, 1));
    }
}

/// The file that a message names stands between the quotes behind `File`.
pub proof fn law_file_in_a_message(msg: &str, r: Option<&str>)
    requires
        call_ensures(extract_paz_filename, (msg,), r),
    ensures
        r is Some ==> has_sub(msg@, "File '"@ + r->Some_0@ + "'"@) && !r->Some_0@.contains('\'')
            && has_sub(msg@, "not found in gamedata"@),
{
    if r is Some {
        let n = r->Some_0@;
        reveal_strlit("File '");
        reveal_strlit("'");
        let (i, j) = choose|i: int, j: int| #[trigger]
            crate::ui::entry_table::file_between(msg@, i, j) && n == msg@.subrange(i + 6, j);
        let w = "File '"@ + n + "'"@;
        assert(occurs_at(msg@, "File '"@, i));
        assert(msg@.subrange(i, i + w.len()) =~= w) by {
            assert forall|k: int| 0 <= k < w.len() implies msg@.subrange(i, i + w.len())[k] == w[k] by {
                if k < 6 {
                    assert(msg@.subrange(i, i + 6)[k] == "File '"@[k]);
                } else if k < 6 + n.len() {
                    assert(n[k - 6] == msg@[i + k]);
                }
            }
        }
        assert(occurs_at(msg@, w, i));
        if n.contains('\'') {
            let k = choose|k: int| 0 <= k < n.len() && n[k] == '\'';
            assert(msg@[i + 6 + k] == '\'');
        }
    }
}

/// The entry that is clicked is selected in the table in focus, and nothing else
/// changes.
pub proof fn law_clicked_entry(state: &mut AppState, entry: usize, active: usize, other: int)
    requires
        call_ensures(select_entry, (state, entry), ()),
        old(state).active_tab_idx == Some(active),
        active < old(state).open_tabs@.len(),
        0 <= other < old(state).open_tabs@.len(),
    ensures
        final(state).open_tabs@[active as int].selected_entry_idx == Some(entry),
        final(state).open_tabs@[active as int].entries == old(
            state).open_tabs@[active as int].entries,
        other != active ==> final(state).open_tabs@[other] == old(state).open_tabs@[other],
{
}

/// The bytes of the table in focus and its entries are shown in turn; bytes only
/// where there are some.
pub proof fn law_bytes_in_turn(state: &mut AppState, active: usize, shows: bool, t: HexToggle)
    requires
        call_ensures(toggle_hex, (state,), ()),
        old(state).active_tab_idx == Some(active),
        active < old(state).open_tabs@.len(),
        call_ensures(shows_hex, (&final(state).open_tabs@[active as int],), shows),
        call_ensures(hex_toggle, (&final(state).open_tabs@[active as int],), t),
    ensures
        ({
            let (b, a) = (
                old(state).open_tabs@[active as int],
                final(state).open_tabs@[active as int],
            );
            &&& a.show_hex_view == !b.show_hex_view
            &&& shows == (!b.show_hex_view && b.raw_pabgb is Some)
            &&& b.raw_pabgb is Some ==> t.enabled
            &&& b.raw_pabgb is None && b.show_hex_view ==> !t.enabled
            &&& t.label@ == if b.show_hex_view {
                "Hex"@
            } else {
                "Table"@
            }
        }),
{
}

/// The first bytes of a table are kept for a report: all where there are few.
pub proof fn law_first_bytes(tab: &ActiveTable, r: Option<Vec<u8>>, i: int)
    requires
        call_ensures(raw_prefix, (tab,), r),
    ensures
        r is Some <==> tab.raw_pabgb is Some,
        r is Some ==> r->Some_0@.len() <= 256 && r->Some_0@.len() <= tab.raw_pabgb->Some_0@.len() && (
        r->Some_0@.len() == 256 || r->Some_0@.len() == tab.raw_pabgb->Some_0@.len()),
        r is Some && 0 <= i < r->Some_0@.len() ==> r->Some_0@[i] == tab.raw_pabgb->Some_0@[i],
{
}

/// A cell with a note is marked in the first column, and nowhere else.
pub proof fn law_marked_cells(entry: &Json, name: &str, column: usize, note: bool, r: String, s: String)
    requires
        call_ensures(cell_text, (entry, name, column, note), r),
        call_ensures(format_cell_value, (entry, name), s),
    ensures
        column == 0 && note ==> r@ == "\u{1F4DD} "@ + s@,
        column != 0 || !note ==> r@ == s@,
{
}

/// A hit is shown by its name and its key, or by its key alone where it has no name.
pub proof fn law_label_of_a_hit(hit: &GlobalSearchHit, r: String)
    requires
        call_ensures(hit_label, (hit,), r),
    ensures
        hit.string_key@.len() > 0 ==> r@ == hit.string_key@ + " ("@ + dec(hit.entry_key as nat)
            + ")"@,
        hit.string_key@.len() == 0 ==> r@ == "key="@ + dec(hit.entry_key as nat),
{
}

/// Formats that hold text alone are not searched for bytes; Korean texts are looked
/// for in binary files.
pub proof fn law_formats_of_a_mode(f: SearchFormat, text: bool, korean: bool)
    requires
        call_ensures(is_text_only_format, (f,), text),
        call_ensures(is_korean_format, (f,), korean),
    ensures
        text <==> f == SearchFormat::Pabgb || f == SearchFormat::Paloc || f == SearchFormat::Xml,
        korean <==> f == SearchFormat::BinaryByte,
        !(text && korean),
{
}

/// Korean texts without a filter are browsed, which is confirmed first.
pub proof fn law_browsing(s: &MultiFormatSearchSession, r: bool, label: &'static str)
    requires
        call_ensures(is_browsing, (s,), r),
        call_ensures(run_label, (s,), label),
    ensures
        r <==> s.search_mode == SearchMode::KoreanStrings && trimmed(s.query@).len() == 0,
        r && s.confirm_no_filter ==> label@ == "Run anyway"@,
        !r || !s.confirm_no_filter ==> label@ == "Run"@,
{
}

/// What is typed is the query; where Korean texts are looked for, other words call
/// off the confirmation.
pub proof fn law_typed_query(s: &mut MultiFormatSearchSession, typed: String)
    requires
        call_ensures(query_edited, (s, typed), ()),
    ensures
        final(s).query == typed,
        old(s).search_mode == SearchMode::KoreanStrings && typed@ != old(s).query@ ==> !final(
            s).confirm_no_filter,
        typed@ == old(s).query@ || old(s).search_mode != SearchMode::KoreanStrings ==> final(
            s).confirm_no_filter == old(s).confirm_no_filter,
        final(s).hex_query == old(s).hex_query,
        final(s).hits == old(s).hits,
{
}

/// A scan that could not be handed on is over, and that is said.
pub proof fn law_scan_is_not_handed_on(state: &mut AppState)
    requires
        call_ensures(scan_not_queued, (state,), ()),
    ensures
        !final(state).multi_search.in_progress,
        final(state).multi_search.progress_updated_at is None,
        final(state).toasts@.last().level == Level::Error,
        final(state).multi_search.query == old(state).multi_search.query,
{
}

/// A hit is opened, and closed again where it is open.
pub proof fn law_hit_is_opened_and_closed(s: &mut MultiFormatSearchSession, i: usize)
    requires
        call_ensures(toggle_expanded, (s, i), ()),
    ensures
        old(s).expanded_hit == Some(i) ==> final(s).expanded_hit is None,
        old(s).expanded_hit != Some(i) ==> final(s).expanded_hit == Some(i),
        final(s).hits == old(s).hits,
{
}

/// The language of a hit is that of the editor: English, Korean, or by its own name.
pub proof fn law_language_of_a_hit(short: &str, r: &str)
    requires
        call_ensures(paloc_editor_lang_for_hit, (short,), r),
    ensures
        short@ == "en"@ ==> r@ == "eng"@,
        short@ == "kr"@ ==> r@ == "kor"@,
        short@ != "en"@ && short@ != "kr"@ ==> r@ == short@,
{
    reveal_strlit("en");
    reveal_strlit("kr");
    assert("en"@[0] == 'e' && "kr"@[0] == 'k');
}

/// An edit can be undone where one is made, and made again where one was undone.
pub proof fn law_buttons_of_the_history(h: &crate::state::EditHistory, r: HistoryButtons)
    requires
        call_ensures(buttons, (h,), r),
    ensures
        r.can_undo <==> h.position != 0,
        r.can_redo <==> h.position < h.ops@.len(),
        r.can_clear <==> h.ops@.len() != 0,
{
}

/// A click on an edit leads to the state right after it: there it is the last one
/// that is made.
pub proof fn law_click_on_an_edit(i: usize, a: HistoryAction, cursor: usize, s: RowState, next: RowState)
    requires
        i < usize::MAX - 1,
        call_ensures(jump_target, (i,), a),
        a == HistoryAction::JumpTo(cursor),
        call_ensures(row_state, (i, cursor), s),
        call_ensures(row_state, ((i + 1) as usize, cursor), next),
    ensures
        cursor == i + 1,
        s.is_applied,
        s.is_cursor,
        !next.is_applied,
        !next.is_cursor,
{
}

/// A short text is shown whole; a long one is cut and ends with dots.
pub proof fn law_cut_texts(raw: String, max: usize, r: String)
    requires
        call_ensures(truncate_text, (raw, max), r),
    ensures
        byte_len(raw@) <= max ==> r@ == raw@,
        byte_len(raw@) > max ==> crate::text::has_suffix(r@, "..."@),
{
    if byte_len(raw@) > max {
        let dots = "..."@;
        assert(r@.skip(r@.len() - dots.len()) =~= dots);
    }
}

/// A change is shown by the old value and the new one, an arrow between; short ones
/// are shown whole.
pub proof fn law_shown_change(op: &EditOp, r: Option<String>)
    requires
        call_ensures(transition, (op,), r),
    ensures
        byte_len(short_text(op.old_value@)) <= 20 && byte_len(short_text(op.new_value@)) <= 20 ==> r
            is Some && r->Some_0@ == short_text(op.old_value@) + " \u{2192} "@ + short_text(
            op.new_value@,
        ),
{
}

/// A page is turned where there is one to turn to.
pub proof fn law_turns(state: &HexViewState, total: usize, turn: PageTurn, r: bool)
    requires
        call_ensures(turn_enabled, (state, total, turn), r),
        state.page < total,
    ensures
        turn is First || turn is Prev ==> (r <==> state.page > 0),
        turn is Next || turn is Last ==> (r <==> state.page + 1 < total),
{
}

/// A page past the end becomes the last one; one that is there stays.
pub proof fn law_page_is_kept_within(state: &mut HexViewState, n: usize)
    requires
        call_ensures(clamp_page, (state, n), ()),
    ensures
        on_a_page(*old(state), n as nat) ==> *final(state) == *old(state),
        final(state).bytes_per_page == old(state).bytes_per_page,
        final(state).selected_offset == old(state).selected_offset,
        !on_a_page(*old(state), n as nat) && page_count(n as nat, old(state).bytes_per_page as nat)
            > 0 ==> final(state).page == page_count(n as nat, old(state).bytes_per_page as nat) - 1,
        page_count(n as nat, old(state).bytes_per_page as nat) == 0 && !on_a_page(
            *old(state),
            n as nat,
        ) ==> final(state).page == 0,
{
}

/// A patch is described by its name, how many bytes it looks for and how many it
/// puts there, and whether it may change the length.
pub proof fn law_patch_is_described(p: &BytePatch, r: String)
    requires
        call_ensures(format_patch_summary, (p,), r),
    ensures
        has_prefix(r@, "'"@ + p@.name + "' :: "@ + dec(p@.find.len()) + "B "@),
        has_sub(r@, " -> "@ + dec(p@.replace.len()) + "B "@),
        p@.allow_resize ==> crate::text::has_suffix(r@, " (resize)"@),
{
    let a = "'"@ + p@.name + "' :: "@ + dec(p@.find.len()) + "B "@;
    assert(r@.take(a.len() as int) =~= a);
    let b = a + crate::byte_patch::preview_text(p@.find, 24);
    let c = " -> "@ + dec(p@.replace.len()) + "B "@;
    let i = b.len() as int;
    assert(r@.subrange(i, i + c.len()) =~= c);
    assert(occurs_at(r@, c, i));
    if p@.allow_resize {
        let e = " (resize)"@;
        assert(r@.skip(r@.len() - e.len()) =~= e);
    }
}

/// A draft that is cleared holds no words any more and keeps its switches.
pub proof fn law_draft_is_cleared(d: &mut PatchDraft)
    requires
        call_ensures(PatchDraft::clear, (d,), ()),
    ensures
        final(d).name@.len() == 0,
        final(d).find@.len() == 0,
        final(d).replace@.len() == 0,
        final(d).comment@.len() == 0,
        final(d).hex_mode == old(d).hex_mode,
        final(d).allow_resize == old(d).allow_resize,
{
}

/// There are patches exactly where a list of them is there and holds one.
pub proof fn law_there_are_patches(doc: &Option<BytePatchDoc>, r: bool)
    requires
        call_ensures(has_patches, (doc,), r),
    ensures
        doc is None ==> !r,
        doc is Some ==> (r <==> doc->Some_0.patches@.len() != 0),
{
}

/// A trial of the patches says what came of it, where a file and patches are there.
pub proof fn law_trial_is_reported(
    bytes: &Option<Vec<u8>>,
    doc: &Option<BytePatchDoc>,
    out: &Result<Vec<u8>, String>,
    toasts: &mut Toasts,
)
    requires
        call_ensures(report_preview, (bytes, doc, out, toasts), ()),
    ensures
        bytes is None || doc is None ==> final(toasts)@ == old(toasts)@,
        bytes is Some && doc is Some && out is Err ==> final(toasts)@.last().level == Level::Error
            && final(toasts)@.last().details == Some(out->Err_0@),
        bytes is Some && doc is Some && out is Ok ==> final(toasts)@.last().level == Level::Info,
        bytes is Some && doc is Some && out is Ok && out->Ok_0@ == bytes->Some_0@ ==> final(
            toasts)@.last().message == dec(doc->Some_0.patches@.len()) + " patches dry-applied — "@
            + dec(0) + " byte(s) changed."@,
{
    if bytes is Some && doc is Some && out is Ok && out->Ok_0@ == bytes->Some_0@ {
        crate::byte_patch::law_changed_bytes(bytes->Some_0@, out->Ok_0@);
    }
}

proof fn lemma_two_digits(b: u8)
    ensures
        hex_pad(b as nat, 2, true).len() == 2,
{
    reveal_with_fuel(digits, 3);
}

proof fn lemma_columns(chunk: Seq<u8>, n: nat, i: int)
    requires
        n <= 16,
        0 <= i < n,
        i < chunk.len(),
    ensures
        cells(chunk, n).len() == 3 * n + (if n > 8 {
            1int
        } else {
            0
        }),
        ({
            let at = 3 * i + (if i >= 8 {
                1int
            } else {
                0
            });
            cells(chunk, n).subrange(at, at + 2) == hex_pad(chunk[i] as nat, 2, true)
        }),
    decreases n,
{
    let at = 3 * i + (if i >= 8 {
        1int
    } else {
        0
    });
    let last = cell(chunk, n - 1);
    lemma_columns_len(chunk, n);
    lemma_columns_len(chunk, (n - 1) as nat);
    if i < n - 1 {
        lemma_columns(chunk, (n - 1) as nat, i);
        assert(cells(chunk, n).subrange(at, at + 2) =~= cells(chunk, (n - 1) as nat).subrange(
            at,
            at + 2,
        ));
    } else {
        lemma_two_digits(chunk[i]);
        reveal_strlit(" ");
        assert(cells(chunk, n).subrange(at, at + 2) =~= hex_pad(chunk[i] as nat, 2, true));
    }
}

proof fn lemma_columns_len(chunk: Seq<u8>, n: nat)
    requires
        n <= 16,
    ensures
        cells(chunk, n).len() == 3 * n + (if n > 8 {
            1int
        } else {
            0
        }),
    decreases n,
{
    if n > 0 {
        lemma_columns_len(chunk, (n - 1) as nat);
        reveal_strlit(" ");
        reveal_strlit("   ");
        if n - 1 < chunk.len() {
            lemma_two_digits(chunk[n - 1]);
        }
    }
}

/// In a row each byte stands in its column in two digits, with a wider gap in the
/// middle; a missing byte leaves its column blank, so that the gutter lines up.
pub proof fn law_columns_of_a_row(offset: usize, chunk: &[u8], r: String, i: int)
    requires
        chunk@.len() <= 16,
        call_ensures(format_hex_line, (offset, chunk), r),
    ensures
        ({
            let start = hex_pad(offset as nat, 8, true).len() + 2;
            let at = start + 3 * i + (if i >= 8 {
                1int
            } else {
                0
            });
            &&& r@.len() == start + 50 + chunk@.len()
            &&& 0 <= i < chunk@.len() ==> r@.subrange(at, at + 2) == hex_pad(
                chunk@[i] as nat,
                2,
                true,
            )
        }),
{
    reveal_strlit("  ");
    reveal_strlit(" ");
    let h = hex_pad(offset as nat, 8, true);
    lemma_columns_len(chunk@, 16);
    if 0 <= i < chunk@.len() {
        lemma_columns(chunk@, 16, i);
        let at = 3 * i + (if i >= 8 {
            1int
        } else {
            0
        });
        let start = h.len() + 2;
        assert(r@.subrange(start + at, start + at + 2) =~= cells(chunk@, 16).subrange(at, at + 2));
    }
}

/// A text is longer than so many bytes where its UTF-8 has more of them.
pub proof fn law_longer_texts(s: &str, n: usize, r: bool)
    requires
        call_ensures(longer_than, (s, n), r),
    ensures
        r <==> vstd::utf8::encode_utf8(s@).len() > n,
{
}

/// What is no path leads nowhere.
pub proof fn law_what_is_no_path(
    t: &Json,
    path: &str,
    steps: Option<Vec<crate::edit_path::Step>>,
    v: Option<&Json>,
)
    requires
        call_ensures(parse_path, (path,), steps),
        call_ensures(get_at_path, (t, path), v),
    ensures
        steps is None ==> v is None,
        steps is Some && steps->Some_0@.len() == 0 ==> v is Some && v->Some_0@ == t@,
{
}

} // verus!
