//! Laws of what the file editors show and change: prefab tables, caches, charts,
//! localized texts, sequencer files and byte patches.

use vstd::prelude::*;
use crate::byte_patch::{
    add_draft, changed_byte_count, differing, draft_patch, nibbles, parse_byte_input, patch_texts,
    remove_patch, BytePatchDoc, Drafted, PatchDraft,
};
use crate::digits::digit_value;
use crate::paz_file::PazEntry;
use crate::rows::law_picked;
use crate::state::{AppState, Level, PendingNav, Toasts};
use crate::text::{byte_len, has_sub, lowercase, trimmed};
use crate::ui::paac_panel::{
    float_bits_at, hunt_request, string_kept, transition_written, visible_strings, FloatHunt,
    PaacSession, PaacString,
};
use crate::ui::paatt_panel::{entry_detail, EntryDetail, PaattSession};
use crate::ui::paloc_panel::{
    changes_upto, consume_pending_nav, finish_nav, kept, load_paloc, PalocNav, PalocSession,
};
use crate::ui::pamhc_panel::{
    hex_cell_text, law_hex_cell_reads_back, opaque_section, set_hex_cell, PamhcFile, PamhcTab,
};
use crate::ui::pappt_panel::{
    cap_pstr, new_primary, primary_detail, primary_kept, secondary_kept, visible_primary,
    visible_secondary, PapptSession, PrimaryDetail, PrimaryEntry, SecondaryEntry,
};
use crate::ui::paseq_panel::{
    load_paseq_from_paz, swap_line, swap_request, PaseqSession, SwapRequest,
};

verus! {

broadcast use vstd::seq_lib::group_seq_properties;

/// A filter keeps the prefab entries that have it in their first two keys or
/// their asset, and no others.
pub proof fn law_kept_prefab_entries(
    entries: &Vec<PrimaryEntry>,
    filter: &str,
    r: Vec<usize>,
    i: usize,
)
    requires
        call_ensures(visible_primary, (entries, filter), r),
        i < entries@.len(),
    ensures
        r@.contains(i) <==> lowercase(filter@).len() == 0 || has_sub(
            lowercase(entries@[i as int].key_a@),
            lowercase(filter@),
        ) || has_sub(lowercase(entries@[i as int].key_b@), lowercase(filter@)) || has_sub(
            lowercase(entries@[i as int].asset_id@),
            lowercase(filter@),
        ),
{
    let keep = primary_kept(entries@, filter@);
    assert(entries@.len() == entries.len());
    law_picked(entries@.len(), keep);
    assert(keep(i as int) == (lowercase(filter@).len() == 0 || has_sub(
        lowercase(entries@[i as int].key_a@),
        lowercase(filter@),
    ) || has_sub(lowercase(entries@[i as int].key_b@), lowercase(filter@)) || has_sub(
        lowercase(entries@[i as int].asset_id@),
        lowercase(filter@),
    )));
}

/// A filter keeps the pairs of aliases that have it in one of the two, and no
/// others.
pub proof fn law_kept_aliases(
    entries: &Vec<SecondaryEntry>,
    filter: &str,
    r: Vec<usize>,
    i: usize,
)
    requires
        call_ensures(visible_secondary, (entries, filter), r),
        i < entries@.len(),
    ensures
        r@.contains(i) <==> lowercase(filter@).len() == 0 || has_sub(
            lowercase(entries@[i as int].alias_a@),
            lowercase(filter@),
        ) || has_sub(lowercase(entries@[i as int].alias_b@), lowercase(filter@)),
{
    let keep = secondary_kept(entries@, filter@);
    assert(entries@.len() == entries.len());
    law_picked(entries@.len(), keep);
    assert(keep(i as int) == (lowercase(filter@).len() == 0 || has_sub(
        lowercase(entries@[i as int].alias_a@),
        lowercase(filter@),
    ) || has_sub(lowercase(entries@[i as int].alias_b@), lowercase(filter@))));
}

/// A filter keeps the strings of a chart that have it, and no others.
pub proof fn law_kept_strings(strings: &Vec<PaacString>, filter: &str, r: Vec<usize>, i: usize)
    requires
        call_ensures(visible_strings, (strings, filter), r),
        i < strings@.len(),
    ensures
        r@.contains(i) <==> lowercase(filter@).len() == 0 || has_sub(
            lowercase(strings@[i as int].text@),
            lowercase(filter@),
        ),
{
    let keep = string_kept(strings@, filter@);
    assert(strings@.len() == strings.len());
    law_picked(strings@.len(), keep);
    assert(keep(i as int) == (lowercase(filter@).len() == 0 || has_sub(
        lowercase(strings@[i as int].text@),
        lowercase(filter@),
    )));
}

/// A new prefab entry is blank, comes behind the others and is selected; the
/// others stay.
pub proof fn law_new_prefab_entry(session: &mut PapptSession, j: int)
    requires
        call_ensures(new_primary, (session,), ()),
        old(session).file is Some,
        0 <= j < old(session).file->Some_0.primary@.len(),
    ensures
        final(session).file is Some,
        ({
            let (b, a) = (old(session).file->Some_0, final(session).file->Some_0);
            &&& a.primary@.len() == b.primary@.len() + 1
            &&& a.primary@[j] == b.primary@[j]
            &&& a.primary@.last().key_a@.len() == 0
            &&& a.primary@.last().key_b@.len() == 0
            &&& a.primary@.last().key_c@.len() == 0
            &&& a.primary@.last().asset_id@.len() == 0
            &&& a.primary@.last().flag == 0
            &&& a.primary@.last().children@.len() == 0
            &&& a.secondary == b.secondary
            &&& final(session).selected_primary_idx == Some(b.primary@.len() as usize)
        }),
{
    let a = final(session).file->Some_0;
    assert(a.primary@.drop_last()[j] == a.primary@[j]);
}

/// A typed prefab text is kept as long as the file can hold: whole where it takes
/// at most 255 bytes, else its longest beginning that does.
pub proof fn law_capped_text(value: &mut String)
    requires
        call_ensures(cap_pstr, (value,), ()),
    ensures
        byte_len(old(value)@) <= 255 ==> final(value)@ == old(value)@,
        byte_len(final(value)@) <= 255,
        final(value)@.len() <= old(value)@.len(),
        final(value)@ == old(value)@.take(final(value)@.len() as int),
        final(value)@.len() < old(value)@.len() ==> byte_len(
            old(value)@.take((final(value)@.len() + 1) as int),
        ) > 255,
{
    let s = old(value)@;
    let k = choose|k: int| #[trigger]
        crate::ui::pappt_panel::as_many_as_fit(s, 255, k) && final(value)@ == s.take(k);
    assert(final(value)@.len() == k);
    assert(s.take(s.len() as int) =~= s);
    if byte_len(s) <= 255 && k < s.len() {
        crate::text::lemma_byte_len_take(s, k + 1, s.len() as int);
    }
}

/// A number of a cache that is set from what is shown of another number becomes
/// that number; the others and the opaque sections stay.
pub proof fn law_number_is_set(
    file: &mut PamhcFile,
    i: usize,
    text: &str,
    n: u32,
    shown: String,
    j: int,
)
    requires
        i < old(file).section_a_u32@.len(),
        call_ensures(hex_cell_text, (n,), shown),
        text@ == shown@,
        call_ensures(set_hex_cell, (file, i, text), ()),
        0 <= j < old(file).section_a_u32@.len(),
    ensures
        final(file).section_a_u32@.len() == old(file).section_a_u32@.len(),
        final(file).section_a_u32@[i as int] == n,
        j != i ==> final(file).section_a_u32@[j] == old(file).section_a_u32@[j],
        final(file).section_b == old(file).section_b,
        final(file).section_c == old(file).section_c,
        final(file).section_d == old(file).section_d,
        final(file).section_e == old(file).section_e,
{
    law_hex_cell_reads_back(n);
}

/// Each opaque section is shown from its own bytes.
pub proof fn law_opaque_sections(file: &PamhcFile, tab: PamhcTab, r: Option<&Vec<u8>>)
    requires
        call_ensures(opaque_section, (file, tab), r),
    ensures
        tab is SectionA ==> r is None,
        tab is SectionB ==> r is Some && *r->Some_0 == file.section_b,
        tab is SectionC ==> r is Some && *r->Some_0 == file.section_c,
        tab is SectionD ==> r is Some && *r->Some_0 == file.section_d,
        tab is SectionE ==> r is Some && *r->Some_0 == file.section_e,
{
}

/// The number at an offset of a chart is read from four bytes, the lowest first.
pub proof fn law_bits_of_a_float(raw: &Vec<u8>, off: usize, r: u32)
    requires
        off + 4 <= raw@.len(),
        call_ensures(float_bits_at, (raw, off), r),
    ensures
        r % 256 == raw@[off as int],
        (r / 256) % 256 == raw@[off + 1],
        (r / 65536) % 256 == raw@[off + 2],
        r / 16777216 == raw@[off + 3],
{
    let (a, b, c, d) = (raw@[off as int], raw@[off + 1], raw@[off + 2], raw@[off + 3]);
    assert(r == a + 0x100 * b + 0x10000 * c + 0x1000000 * d);
}

/// Numbers are looked for near the keyword without its blanks, and near all
/// strings where there is none; a search is due exactly where a chart is loaded
/// and the hits are stale.
pub proof fn law_float_hunt(s: &PaacSession, r: Option<FloatHunt>)
    requires
        call_ensures(hunt_request, (s,), r),
    ensures
        r is Some <==> s.float_hunt_dirty && s.file is Some,
        r is Some && trimmed(s.float_hunt_keyword@).len() > 0 ==> r->Some_0.keyword is Some
            && r->Some_0.keyword->Some_0@ == trimmed(s.float_hunt_keyword@),
        r is Some && trimmed(s.float_hunt_keyword@).len() == 0 ==> r->Some_0.keyword is None,
        r is Some ==> r->Some_0.radius == 128,
{
}

/// The bytes that a write gives back are those of the chart from then on; where
/// it failed they stay, and that is said.
pub proof fn law_chart_takes_written_bytes(state: &mut AppState, result: Result<Vec<u8>, String>)
    requires
        call_ensures(transition_written, (state, result), ()),
        old(state).paac.file is Some,
    ensures
        final(state).paac.file is Some,
        result is Ok ==> final(state).paac.file->Some_0.raw == result->Ok_0,
        result is Err ==> final(state).paac == old(state).paac && final(state).toasts@.last().level
            == Level::Error,
        final(state).paac.file->Some_0.transitions == old(state).paac.file->Some_0.transitions,
{
}

/// The detail shows the selected projectile by its offset, where a file is loaded
/// and it is there.
pub proof fn law_projectile_detail(s: &PaattSession, r: EntryDetail)
    requires
        call_ensures(entry_detail, (s,), r),
    ensures
        r is At <==> s.selected_entry_idx is Some && s.file is Some && s.selected_entry_idx->Some_0
            < s.entry_offsets@.len(),
        r is At ==> r->At_0 == s.entry_offsets@[s.selected_entry_idx->Some_0 as int],
        r is NothingSelected <==> s.selected_entry_idx is None,
{
}

/// The detail shows the selected prefab entry, where a file is loaded and it is
/// there.
pub proof fn law_prefab_detail(s: &PapptSession, r: PrimaryDetail)
    requires
        call_ensures(primary_detail, (s,), r),
    ensures
        r is At <==> s.selected_primary_idx is Some && s.file is Some && s.selected_primary_idx->Some_0
            < s.file->Some_0.primary@.len(),
        r is At ==> Some(r->At_0) == s.selected_primary_idx,
        r is NothingSelected <==> s.selected_primary_idx is None,
{
}

/// A localized text counts as changed exactly where it is another than the one
/// that was loaded.
pub proof fn law_changed_text(s: &PalocSession, i: usize, r: bool)
    requires
        i < s.entries@.len(),
        call_ensures(PalocSession::is_changed, (s, i), r),
    ensures
        i < s.vanilla@.len() ==> r == (s.entries@[i as int].string_value@
            != s.vanilla@[i as int].string_value@),
        i >= s.vanilla@.len() ==> !r,
{
}

/// The number of changed texts is that of the positions at which the text is
/// another; one more changed text counts one more.
pub proof fn law_changed_texts_are_counted(s: PalocSession, n: nat)
    requires
        n < s.entries@.len(),
        n < s.vanilla@.len(),
    ensures
        changes_upto(s, n + 1) == changes_upto(s, n) + (if s.entries@[n as int].string_value@
            != s.vanilla@[n as int].string_value@ {
            1int
        } else {
            0
        }),
        changes_upto(s, 0) == 0,
{
}

/// The texts that are shown are those whose key or value holds the filter.
pub proof fn law_shown_texts(s: &PalocSession, r: Vec<usize>, i: usize)
    requires
        call_ensures(PalocSession::visible_rows, (s,), r),
        i < s.entries@.len(),
    ensures
        r@.contains(i) <==> s.filter@.len() == 0 || has_sub(
            lowercase(s.entries@[i as int].string_key@),
            lowercase(s.filter@),
        ) || has_sub(lowercase(s.entries@[i as int].string_value@), lowercase(s.filter@)),
{
    let keep = |i: int| kept(s.entries@[i], s.filter@);
    assert(s.entries@.len() == s.entries.len());
    law_picked(s.entries@.len(), keep);
    assert(keep(i as int) == kept(s.entries@[i as int], s.filter@));
}

/// A waiting hit in a localized text turns the editor to its language, which is
/// loaded where it is not; a hit for another editor waits on.
pub proof fn law_text_hit_turns_to_its_language(state: &mut AppState, r: Option<PalocNav>)
    requires
        call_ensures(consume_pending_nav, (state,), r),
    ensures
        match old(state).pending_global_nav {
            Some(PendingNav::Paloc { lang, hash_id }) => {
                &&& final(state).pending_global_nav is None
                &&& final(state).paloc_language@ == lang@
                &&& r is Some
                &&& r->Some_0.lang@ == lang@
                &&& r->Some_0.hash_id == hash_id
                &&& r->Some_0.needs_load <==> (old(state).paloc_session is None || old(
                    state).paloc_session->Some_0.language@ != lang@)
            },
            _ => r is None && *final(state) == *old(state),
        },
{
}

/// The editor goes to the first text with the id of the hit and shows all texts;
/// where no text has it, that is said.
pub proof fn law_text_hit_is_gone_to(state: &mut AppState, lang: &str, id: u64, i: usize)
    requires
        call_ensures(finish_nav, (state, lang, id), ()),
        old(state).paloc_session is Some,
        final(state).paloc_session is Some,
    ensures
        final(state).paloc_session->Some_0.filter@.len() == 0,
        final(state).paloc_session->Some_0.entries == old(state).paloc_session->Some_0.entries,
        i < old(state).paloc_session->Some_0.entries@.len() && old(
            state).paloc_session->Some_0.entries@[i as int].unk_id == id && (forall|j: int|
            0 <= j < i ==> (#[trigger] old(state).paloc_session->Some_0.entries@[j]).unk_id != id)
            ==> final(state).paloc_session->Some_0.pending_scroll_row == Some(i),
        (forall|j: int|
            0 <= j < old(state).paloc_session->Some_0.entries@.len() ==> (#[trigger] old(
                state).paloc_session->Some_0.entries@[j]).unk_id != id) ==> final(
            state).toasts@.last().level == Level::Warn,
{
    let v = old(state).paloc_session->Some_0.entries@;
    if i < v.len() && v[i as int].unk_id == id && (forall|j: int|
        0 <= j < i ==> (#[trigger] v[j]).unk_id != id) {
        let k = final(state).paloc_session->Some_0.pending_scroll_row->Some_0;
        if k < i {
            assert(v[k as int].unk_id != id);
        } else if i < k {
            assert(v[i as int].unk_id != id);
        }
    }
}

/// The texts that were loaded are those of the editor; where they could not be,
/// the ones before stay, and that is said.
pub proof fn law_loaded_texts(state: &mut AppState, lang: &str, result: Result<PalocSession, String>)
    requires
        call_ensures(load_paloc, (state, lang, result), ()),
    ensures
        result is Ok ==> final(state).paloc_session == Some(result->Ok_0) && final(
            state).toasts@.last().level == Level::Info,
        result is Err ==> final(state).paloc_session == old(state).paloc_session && final(
            state).toasts@.last().level == Level::Error,
{
}

/// A sequencer file that was read is the one that is edited, from its first page
/// on and without patches; one that could not be read changes nothing but what is
/// said.
pub proof fn law_sequencer_file_is_loaded(
    state: &mut AppState,
    entry: &PazEntry,
    result: Result<Vec<u8>, String>,
)
    requires
        call_ensures(load_paseq_from_paz, (state, entry, result), ()),
    ensures
        result is Ok ==> {
            &&& final(state).paseq.file_bytes == Some(result->Ok_0)
            &&& final(state).paseq.current_entry == Some(*entry)
            &&& final(state).paseq.hex_state.page == 0
            &&& final(state).paseq.patch_doc is Some
            &&& final(state).paseq.patch_doc->Some_0.filename@ == entry.filename@
            &&& final(state).paseq.patch_doc->Some_0.dir_path@ == entry.dir_path@
            &&& final(state).paseq.patch_doc->Some_0.patches@.len() == 0
        },
        result is Err ==> final(state).paseq == old(state).paseq && final(state).toasts@.last().level
            == Level::Error,
{
}

/// A swap takes the files of the chosen source into those of the chosen target,
/// and is refused without a directory, without two different characters, or where
/// one of them is no longer there.
pub proof fn law_swap(state: &mut AppState, r: Option<SwapRequest>)
    requires
        call_ensures(swap_request, (state,), r),
    ensures
        r is Some <==> {
            let s = old(state).paseq;
            &&& old(state).game_dir is Some
            &&& s.selected_source is Some
            &&& s.selected_target is Some
            &&& s.selected_source != s.selected_target
            &&& s.selected_source->Some_0 < s.npc_list@.len()
            &&& s.selected_target->Some_0 < s.npc_list@.len()
        },
        r is Some ==> r->Some_0.source == old(state).paseq.npc_list@[old(
            state).paseq.selected_source->Some_0 as int] && r->Some_0.target == old(
            state).paseq.npc_list@[old(state).paseq.selected_target->Some_0 as int] && Some(
            r->Some_0.game_dir,
        ) == old(state).game_dir,
        r is None ==> final(state).toasts@.last().level == Level::Warn,
        final(state).paseq == old(state).paseq,
{
}

/// What a swap would do is told from the source to the target.
pub proof fn law_swap_line(s: &PaseqSession, r: Option<String>)
    requires
        call_ensures(swap_line, (s,), r),
        s.selected_source is Some,
        s.selected_target is Some,
        s.selected_source->Some_0 < s.npc_list@.len(),
        s.selected_target->Some_0 < s.npc_list@.len(),
    ensures
        r is Some,
        r->Some_0@ == "Will copy `"@ + s.npc_list@[s.selected_source->Some_0 as int].stem@
            + "` files into `"@ + s.npc_list@[s.selected_target->Some_0 as int].stem@ + "`."@,
{
}

/// A drafted patch has what the form says: the name without its blanks, and the
/// bytes to find and to replace as they are read; none comes of a form without a
/// name, with nothing to find, or with lengths that differ where they may not.
pub proof fn law_drafted_patch(
    d: &PatchDraft,
    r: Drafted,
    find: &str,
    replace: &str,
    f: Result<Vec<u8>, String>,
    g: Result<Vec<u8>, String>,
)
    requires
        call_ensures(draft_patch, (d,), r),
        find@ == d.find@,
        replace@ == d.replace@,
        call_ensures(parse_byte_input, (find, d.hex_mode), f),
        call_ensures(parse_byte_input, (replace, d.hex_mode), g),
    ensures
        r is Ready <==> trimmed(d.name@).len() > 0 && f is Ok && g is Ok && f->Ok_0@.len() > 0 && (
        f->Ok_0@.len() == g->Ok_0@.len() || d.allow_resize),
        r is Ready ==> {
            let p = r->Ready_0;
            &&& p.name@ == trimmed(d.name@)
            &&& p.find@ == f->Ok_0@
            &&& p.replace@ == g->Ok_0@
            &&& p.comment@ == d.comment@
            &&& p.allow_resize == d.allow_resize
        },
{
    if f is Err && d.hex_mode {
        lemma_unreadable(d.find@, f->Err_0);
    }
    if g is Err && d.hex_mode {
        lemma_unreadable(d.replace@, g->Err_0);
    }
    match r {
        Drafted::Failed(what, why) => {
            if d.hex_mode {
                if crate::byte_patch::read_as(d.find@, true, Err(why)) {
                    lemma_unreadable(d.find@, why);
                } else {
                    lemma_unreadable(d.replace@, why);
                }
            }
        },
        _ => {},
    }
}

proof fn lemma_unreadable(s: Seq<char>, why: String)
    requires
        crate::byte_patch::read_as(s, true, Err(why)),
    ensures
        !crate::byte_patch::readable(s, true),
{
    if exists|i: int| #[trigger] crate::byte_patch::first_stray(s, i) {
        let i = choose|i: int| #[trigger] crate::byte_patch::first_stray(s, i);
        assert(crate::byte_patch::is_stray(s[i]));
    }
}

/// Text is read as its own bytes; pairs of hexadecimal digits as the bytes that
/// they write, whatever gaps stand between them.
pub proof fn law_bytes_are_read(input: &str, r: Result<Vec<u8>, String>, k: int)
    requires
        call_ensures(parse_byte_input, (input, true), r),
        r is Ok,
        0 <= k < r->Ok_0@.len(),
    ensures
        ({
            let d = nibbles(input@, input@.len());
            &&& d.len() == 2 * r->Ok_0@.len()
            &&& digit_value(d[2 * k], 16) is Some ==> digit_value(d[2 * k + 1], 16) is Some
                ==> r->Ok_0@[k] == (digit_value(d[2 * k], 16)->Some_0 * 16 + digit_value(
                d[2 * k + 1],
                16,
            )->Some_0) as u8
        }),
{
}

/// The number of changed bytes is the number of positions at which two contents
/// differ, and the bytes that one is longer by.
pub proof fn law_changed_bytes_are_counted(a: &[u8], b: &[u8], r: usize, x: u8, y: u8)
    requires
        call_ensures(changed_byte_count, (a, b), r),
    ensures
        a@.len() == 0 ==> r == b@.len(),
        b@.len() == 0 ==> r == a@.len(),
        a@ == b@ ==> r == 0,
        crate::byte_patch::changed_bytes(seq![x], seq![y]) == (if x == y {
            0int
        } else {
            1
        }),
        a@.len() == b@.len() ==> crate::byte_patch::changed_bytes(a@.push(x), b@.push(y)) == r + (
        if x == y {
            0int
        } else {
            1
        }),
{
    crate::byte_patch::law_changed_bytes(a@, b@);
    reveal_with_fuel(differing, 2);
    if a@.len() == b@.len() {
        lemma_same_count(a@, b@, a@.push(x), b@.push(y), a@.len());
    }
}

proof fn lemma_same_count(a: Seq<u8>, b: Seq<u8>, c: Seq<u8>, d: Seq<u8>, n: nat)
    requires
        n <= a.len(),
        n <= b.len(),
        n <= c.len(),
        n <= d.len(),
        forall|i: int| 0 <= i < n ==> a[i] == c[i] && b[i] == d[i],
    ensures
        differing(a, b, n) == differing(c, d, n),
    decreases n,
{
    if n > 0 {
        lemma_same_count(a, b, c, d, (n - 1) as nat);
    }
}

/// A patch that is taken out is gone, and those before and behind it stay in
/// order.
pub proof fn law_patch_is_taken_out(doc: &mut Option<BytePatchDoc>, idx: usize, j: int)
    requires
        call_ensures(remove_patch, (doc, idx), ()),
        *old(doc) is Some,
        idx < (*old(doc))->Some_0.patches@.len(),
        *final(doc) is Some,
    ensures
        (*final(doc))->Some_0.patches@.len() == (*old(doc))->Some_0.patches@.len() - 1,
        0 <= j < idx ==> (*final(doc))->Some_0.patches@[j] == (*old(doc))->Some_0.patches@[j],
        idx <= j < (*final(doc))->Some_0.patches@.len() ==> (*final(doc))->Some_0.patches@[j] == (
        *old(doc))->Some_0.patches@[j + 1],
        (*final(doc))->Some_0.filename == (*old(doc))->Some_0.filename,
{
}

/// A form that gives a patch adds it behind the others and is blank then but for
/// its switches; a form that gives none stays, and what is missing is said.
pub proof fn law_patch_is_added(
    draft: &mut PatchDraft,
    doc: &mut Option<BytePatchDoc>,
    toasts: &mut Toasts,
)
    requires
        call_ensures(add_draft, (draft, doc, toasts), ()),
        *old(doc) is Some,
        *final(doc) is Some,
    ensures
        ({
            let (b, a) = (
                patch_texts((*old(doc))->Some_0.patches@),
                patch_texts((*final(doc))->Some_0.patches@),
            );
            ||| {
                &&& a.len() == b.len() + 1
                &&& a.drop_last() == b
                &&& a.last().name == trimmed(old(draft).name@)
                &&& a.last().comment == old(draft).comment@
                &&& a.last().allow_resize == old(draft).allow_resize
                &&& a.last().find.len() > 0
                &&& final(draft).name@.len() == 0
                &&& final(draft).find@.len() == 0
                &&& final(draft).replace@.len() == 0
                &&& final(draft).comment@.len() == 0
                &&& final(draft).hex_mode == old(draft).hex_mode
                &&& final(draft).allow_resize == old(draft).allow_resize
                &&& final(toasts)@ == old(toasts)@
            }
            ||| {
                &&& a == b
                &&& *final(draft) == *old(draft)
                &&& final(toasts)@.len() == old(toasts)@.len() + 1
                &&& final(toasts)@.last().level != Level::Info
            }
        }),
{
    let r = choose|r: Drafted| #[trigger]
        crate::byte_patch::patch_added(
            (*old(draft), *final(draft)),
            (*old(doc), *final(doc)),
            (old(toasts)@, final(toasts)@),
            r,
        );
    match r {
        Drafted::Ready(p) => {
            let (b, a) = (
                patch_texts((*old(doc))->Some_0.patches@),
                patch_texts((*final(doc))->Some_0.patches@),
            );
            assert(a.drop_last() =~= b);
        },
        _ => {},
    }
}

} // verus!
