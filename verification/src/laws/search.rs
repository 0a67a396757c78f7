//! Laws of the search over all formats.

use vstd::prelude::*;
use crate::digits::{dec, digits, hex_pad};
use crate::rows::{law_picked, picked};
use crate::state::{
    AppState, FormatSet, HitSource, Job, KoreanEncoding, MainView, MultiFormatHit,
    MultiFormatSearchSession, PendingNav, SearchFormat, SearchMode, SearchQueryKind,
};
use crate::text::{lowercase, trimmed};
use crate::ui::global_search_panel::{
    cancel_scan, change_mode, enable_all, enable_fast, enable_none, first_seen, group_hits,
    hit_labels, is_locked, jump_to_hit, kick_scan, law_hits_grouped, parse_user_number, press_run,
    reset_session, run_enabled, source_row_prefix, stuck_hint, toggle_format, under, Jump,
};

verus! {

broadcast use vstd::seq_lib::group_seq_properties;

/// What a scan looks for is what was typed: the text of a text scan, the bytes
/// of a byte scan, and the filter of a scan for CJK runs, which is left out
/// exactly where nothing but blanks was typed.
pub open spec fn looks_for(
    mode: SearchMode,
    typed: Seq<char>,
    hex: Result<Vec<u8>, String>,
    kind: SearchQueryKind,
) -> bool {
    match (mode, kind) {
        (SearchMode::Text, SearchQueryKind::Text(t)) => t@ == trimmed(typed) && t@.len() > 0,
        (SearchMode::Hex, SearchQueryKind::HexBytes(b)) => hex is Ok && b@ == hex->Ok_0@ && b@.len()
            > 0,
        (SearchMode::KoreanStrings, SearchQueryKind::KoreanScan { filter: Some(t) }) => t@
            == trimmed(typed) && t@.len() > 0,
        (SearchMode::KoreanStrings, SearchQueryKind::KoreanScan { filter: None }) => trimmed(
            typed,
        ).len() == 0,
        _ => false,
    }
}

/// A scan that is started looks for what was typed, in the formats that are
/// switched on, with a number of its own.
pub proof fn law_scan_looks_for_what_was_typed(
    state: &mut AppState,
    hex: &Result<Vec<u8>, String>,
    now: u64,
    job: Option<Job>,
)
    requires
        call_ensures(kick_scan, (state, hex, now), job),
        job is Some,
    ensures
        job->Some_0 is MultiFormatSearch,
        looks_for(
            old(state).multi_search.search_mode,
            old(state).multi_search.query@,
            *hex,
            job->Some_0->MultiFormatSearch_query_kind,
        ),
        job->Some_0->MultiFormatSearch_formats == old(state).multi_search.formats_enabled,
        Some(job->Some_0->MultiFormatSearch_game_dir) == old(state).game_dir,
        job->Some_0->MultiFormatSearch_tables@ == old(state).tables@,
        job->Some_0->MultiFormatSearch_request_id == final(state).multi_search.request_id,
        job->Some_0->MultiFormatSearch_request_id != old(state).multi_search.request_id,
        final(state).multi_search.in_progress,
        final(state).multi_search.hits@.len() == 0,
        final(state).multi_search.query == old(state).multi_search.query,
        final(state).multi_search.formats_enabled == old(state).multi_search.formats_enabled,
        old(state).multi_search.search_mode != SearchMode::Text
            ==> !job->Some_0->MultiFormatSearch_match_jenkins_hash,
        old(state).multi_search.search_mode == SearchMode::Text
            ==> job->Some_0->MultiFormatSearch_match_jenkins_hash
            == old(state).multi_search.match_jenkins_hash,
{
}

/// A scan is started exactly where there is a game directory, a format to look
/// through and something to look for; else nothing is asked of the worker and the
/// session stays as it is.
pub proof fn law_scan_starts_where_it_can(
    state: &mut AppState,
    hex: &Result<Vec<u8>, String>,
    now: u64,
    job: Option<Job>,
)
    requires
        call_ensures(kick_scan, (state, hex, now), job),
    ensures
        job is Some <==> {
            &&& old(state).game_dir is Some
            &&& exists|f: SearchFormat| #[trigger] old(state).multi_search.formats_enabled.has(f)
            &&& old(state).multi_search.search_mode == SearchMode::Text ==> trimmed(
                old(state).multi_search.query@,
            ).len() > 0
            &&& old(state).multi_search.search_mode == SearchMode::Hex ==> hex is Ok && hex->Ok_0@.len()
                > 0
        },
        job is None ==> final(state).multi_search == old(state).multi_search,
        final(state).open_tabs == old(state).open_tabs,
{
}

/// Scans that are started in one mode for different texts look for different
/// things.
pub proof fn law_different_texts_are_different_scans(
    a: &mut AppState,
    b: &mut AppState,
    hex: &Result<Vec<u8>, String>,
    now: u64,
    x: Option<Job>,
    y: Option<Job>,
)
    requires
        call_ensures(kick_scan, (a, hex, now), x),
        call_ensures(kick_scan, (b, hex, now), y),
        x is Some,
        y is Some,
        old(a).multi_search.search_mode == old(b).multi_search.search_mode,
        old(a).multi_search.search_mode != SearchMode::Hex,
        trimmed(old(a).multi_search.query@) != trimmed(old(b).multi_search.query@),
    ensures
        x->Some_0->MultiFormatSearch_query_kind != y->Some_0->MultiFormatSearch_query_kind,
{
    law_scan_looks_for_what_was_typed(a, hex, now, x);
    law_scan_looks_for_what_was_typed(b, hex, now, y);
}

/// The button starts a scan for what was typed. Only where CJK runs are browsed
/// without a filter does the first press start none: the second does.
pub proof fn law_button_starts_the_scan(
    state: &mut AppState,
    hex: &Result<Vec<u8>, String>,
    now: u64,
    job: Option<Job>,
)
    requires
        call_ensures(press_run, (state, hex, now), job),
    ensures
        job is Some ==> job->Some_0 is MultiFormatSearch && looks_for(
            old(state).multi_search.search_mode,
            old(state).multi_search.query@,
            *hex,
            job->Some_0->MultiFormatSearch_query_kind,
        ) && job->Some_0->MultiFormatSearch_formats == old(state).multi_search.formats_enabled,
        job is Some && old(state).multi_search.search_mode == SearchMode::KoreanStrings && trimmed(
            old(state).multi_search.query@,
        ).len() == 0 ==> old(state).multi_search.confirm_no_filter,
        old(state).multi_search.search_mode == SearchMode::KoreanStrings && trimmed(
            old(state).multi_search.query@,
        ).len() == 0 && !old(state).multi_search.confirm_no_filter
            ==> final(state).multi_search.confirm_no_filter,
        old(state).multi_search.search_mode == SearchMode::KoreanStrings && trimmed(
            old(state).multi_search.query@,
        ).len() > 0 && old(state).game_dir is Some
            && old(state).multi_search.formats_enabled.binary_byte ==> job is Some,
{
    if old(state).multi_search.formats_enabled.binary_byte {
        assert(old(state).multi_search.formats_enabled.has(SearchFormat::BinaryByte));
    }
}

/// Only a text scan looks for a number, and it is that which the text writes.
pub proof fn law_scan_looks_for_the_number(
    state: &mut AppState,
    hex: &Result<Vec<u8>, String>,
    now: u64,
    job: Option<Job>,
    text: &str,
    number: Option<u64>,
)
    requires
        call_ensures(kick_scan, (state, hex, now), job),
        job is Some,
        text@ == lowercase(trimmed(old(state).multi_search.query@)),
        call_ensures(parse_user_number, (text,), number),
    ensures
        old(state).multi_search.search_mode == SearchMode::Text
            ==> job->Some_0->MultiFormatSearch_filter_as_number == number,
        old(state).multi_search.search_mode != SearchMode::Text
            ==> job->Some_0->MultiFormatSearch_filter_as_number is None,
{
}

/// A mode leaves those switches locked whose formats it cannot look through: a
/// byte pattern stands in no text, and CJK runs are read from binary files alone.
pub proof fn law_locked_switches(mode: SearchMode, f: SearchFormat, locked: bool)
    requires
        call_ensures(is_locked, (mode, f), locked),
    ensures
        mode == SearchMode::Text ==> !locked,
        mode == SearchMode::Hex ==> locked == (f == SearchFormat::Pabgb || f == SearchFormat::Paloc
            || f == SearchFormat::Xml),
        mode == SearchMode::KoreanStrings ==> locked == (f != SearchFormat::BinaryByte),
{
}

/// A switch that is turned shows how it was turned, and no other moves.
pub proof fn law_switch_of_a_format(
    session: &mut MultiFormatSearchSession,
    f: SearchFormat,
    on: bool,
    g: SearchFormat,
)
    requires
        call_ensures(toggle_format, (session, f, on), ()),
    ensures
        final(session).formats_enabled.has(f) == on,
        g != f ==> final(session).formats_enabled.has(g) == old(session).formats_enabled.has(g),
        final(session).query == old(session).query,
        final(session).search_mode == old(session).search_mode,
{
}

/// All switches that a mode does not lock can be turned on at once, and all can be
/// turned off; the fast ones are all but that of the byte scan.
pub proof fn law_switches_at_once(
    all: &mut MultiFormatSearchSession,
    none: &mut MultiFormatSearchSession,
    fast: &mut MultiFormatSearchSession,
    f: SearchFormat,
)
    requires
        call_ensures(enable_all, (all,), ()),
        call_ensures(enable_none, (none,), ()),
        call_ensures(enable_fast, (fast,), ()),
    ensures
        old(all).search_mode == SearchMode::Text ==> final(all).formats_enabled.has(f),
        old(all).search_mode == SearchMode::KoreanStrings && f != SearchFormat::BinaryByte ==> final(all).formats_enabled.has(f) == old(all).formats_enabled.has(f),
        old(all).search_mode != SearchMode::Text && f == SearchFormat::BinaryByte ==> final(all).formats_enabled.has(f),
        !final(none).formats_enabled.has(f),
        old(fast).search_mode == SearchMode::Text ==> final(fast).formats_enabled.has(f) == (f
            != SearchFormat::BinaryByte),
        !final(fast).formats_enabled.has(SearchFormat::BinaryByte),
{
}

/// Every format has a switch of its own.
pub proof fn law_switches_are_apart(s: FormatSet)
    ensures
        s.has(SearchFormat::Pabgb) == s.pabgb,
        s.has(SearchFormat::Paloc) == s.paloc,
        s.has(SearchFormat::Xml) == s.xml,
        s.has(SearchFormat::Paatt) == s.paatt,
        s.has(SearchFormat::Paac) == s.paac,
        s.has(SearchFormat::Pappt) == s.pappt,
        s.has(SearchFormat::Pamhc) == s.pamhc,
        s.has(SearchFormat::BinaryByte) == s.binary_byte,
{
}

/// A scan that is called off runs no longer, and what its worker still sends is
/// told apart; what was typed and what was found stay.
pub proof fn law_scan_called_off(state: &mut AppState)
    requires
        call_ensures(cancel_scan, (state,), ()),
    ensures
        !final(state).multi_search.in_progress,
        final(state).multi_search.request_id != old(state).multi_search.request_id,
        final(state).multi_search.hits == old(state).multi_search.hits,
        final(state).multi_search.query == old(state).multi_search.query,
        final(state).multi_search.formats_enabled == old(state).multi_search.formats_enabled,
{
}

/// A search that is reset runs no longer and has no hits; what was typed and what
/// is switched on stay.
pub proof fn law_reset_search(state: &mut AppState)
    requires
        call_ensures(reset_session, (state,), ()),
    ensures
        !final(state).multi_search.in_progress,
        final(state).multi_search.request_id != old(state).multi_search.request_id,
        final(state).multi_search.hits@.len() == 0,
        final(state).multi_search.error is None,
        final(state).multi_search.expanded_hit is None,
        !final(state).multi_search.confirm_no_filter,
        final(state).multi_search.query == old(state).multi_search.query,
        final(state).multi_search.search_mode == old(state).multi_search.search_mode,
        final(state).multi_search.formats_enabled == old(state).multi_search.formats_enabled,
{
}

/// A mode that is chosen is the mode. One that was not chosen before calls the
/// scan off and leaves on no format that it cannot look through, but for the
/// byte scan of CJK runs, which it turns on.
pub proof fn law_chosen_mode(state: &mut AppState, mode: SearchMode, f: SearchFormat)
    requires
        call_ensures(change_mode, (state, mode), ()),
    ensures
        final(state).multi_search.search_mode == mode,
        final(state).multi_search.query == old(state).multi_search.query,
        final(state).multi_search.hex_query == old(state).multi_search.hex_query,
        mode != old(state).multi_search.search_mode ==> {
            &&& !final(state).multi_search.in_progress
            &&& final(state).multi_search.hits@.len() == 0
            &&& final(state).multi_search.request_id != old(state).multi_search.request_id
            &&& mode == SearchMode::Text ==> final(state).multi_search.formats_enabled.has(f)
                == old(state).multi_search.formats_enabled.has(f)
            &&& mode == SearchMode::KoreanStrings ==> final(state).multi_search.formats_enabled.binary_byte
            &&& mode != SearchMode::Text && (f == SearchFormat::Pabgb || f == SearchFormat::Paloc
                || f == SearchFormat::Xml) ==> !final(state).multi_search.formats_enabled.has(f)
            &&& final(state).multi_search.formats_enabled.has(f)
                && !old(state).multi_search.formats_enabled.has(f) ==> mode
                == SearchMode::KoreanStrings && f == SearchFormat::BinaryByte
            &&& old(state).multi_search.formats_enabled.has(f)
                && !final(state).multi_search.formats_enabled.has(f) ==> f == SearchFormat::Pabgb
                || f == SearchFormat::Paloc || f == SearchFormat::Xml
        },
        mode == old(state).multi_search.search_mode ==> *final(state) == *old(state),
{
    assert(final(state).multi_search.formats_enabled.has(SearchFormat::BinaryByte)
        == final(state).multi_search.formats_enabled.binary_byte);
}

/// A hit in a file leads to the editor of its format with that file: its group,
/// its directory and its name, and in a binary file its offset.
pub proof fn law_hit_leads_to_its_file(state: &mut AppState, hit: &MultiFormatHit, how: Jump)
    requires
        call_ensures(jump_to_hit, (state, hit), how),
    ensures
        match (hit.source, final(state).pending_global_nav) {
            (
                HitSource::Xml { paz_group, dir_path, filename },
                Some(PendingNav::Xml { paz_group: g, dir_path: d, filename: f }),
            ) => g@ == paz_group@ && d@ == dir_path@ && f@ == filename@ && final(state).main_view
                == MainView::Xml,
            (
                HitSource::Paatt { paz_group, dir_path, filename },
                Some(PendingNav::Paatt { paz_group: g, dir_path: d, filename: f }),
            ) => g@ == paz_group@ && d@ == dir_path@ && f@ == filename@ && final(state).main_view
                == MainView::Paatt,
            (
                HitSource::Paac { paz_group, dir_path, filename },
                Some(PendingNav::Paac { paz_group: g, dir_path: d, filename: f }),
            ) => g@ == paz_group@ && d@ == dir_path@ && f@ == filename@ && final(state).main_view
                == MainView::Paac,
            (
                HitSource::Pappt { paz_group, dir_path, filename },
                Some(PendingNav::Pappt { paz_group: g, dir_path: d, filename: f }),
            ) => g@ == paz_group@ && d@ == dir_path@ && f@ == filename@ && final(state).main_view
                == MainView::Pappt,
            (
                HitSource::Pamhc { paz_group, dir_path, filename },
                Some(PendingNav::Pamhc { paz_group: g, dir_path: d, filename: f }),
            ) => g@ == paz_group@ && d@ == dir_path@ && f@ == filename@ && final(state).main_view
                == MainView::Pamhc,
            (
                HitSource::Binary { ext, paz_group, dir_path, filename, byte_offset, kind },
                Some(
                    PendingNav::BinaryInspector {
                        ext: e,
                        paz_group: g,
                        dir_path: d,
                        filename: f,
                        byte_offset: o,
                    },
                ),
            ) => e@ == ext@ && g@ == paz_group@ && d@ == dir_path@ && f@ == filename@ && o == Some(
                byte_offset,
            ) && final(state).main_view == MainView::BinaryInspector,
            (
                HitSource::JenkinsHash { ext, paz_group, dir_path, filename, byte_offset, hash, case_label },
                Some(
                    PendingNav::BinaryInspector {
                        ext: e,
                        paz_group: g,
                        dir_path: d,
                        filename: f,
                        byte_offset: o,
                    },
                ),
            ) => e@ == ext@ && g@ == paz_group@ && d@ == dir_path@ && f@ == filename@ && o == Some(
                byte_offset,
            ) && final(state).main_view == MainView::BinaryInspector,
            (
                HitSource::HexPattern { ext, paz_group, dir_path, filename, byte_offset, pattern_len },
                Some(
                    PendingNav::BinaryInspector {
                        ext: e,
                        paz_group: g,
                        dir_path: d,
                        filename: f,
                        byte_offset: o,
                    },
                ),
            ) => e@ == ext@ && g@ == paz_group@ && d@ == dir_path@ && f@ == filename@ && o == Some(
                byte_offset,
            ) && final(state).main_view == MainView::BinaryInspector,
            (
                HitSource::KoreanString { ext, paz_group, dir_path, filename, byte_offset, encoding, text },
                Some(
                    PendingNav::BinaryInspector {
                        ext: e,
                        paz_group: g,
                        dir_path: d,
                        filename: f,
                        byte_offset: o,
                    },
                ),
            ) => e@ == ext@ && g@ == paz_group@ && d@ == dir_path@ && f@ == filename@ && o == Some(
                byte_offset,
            ) && final(state).main_view == MainView::BinaryInspector,
            (
                HitSource::Paloc { lang, hash_id, value },
                Some(PendingNav::Paloc { lang: l, hash_id: h }),
            ) => h == hash_id && final(state).main_view == MainView::Paloc && (lang@ == "en"@ ==> l@
                == "eng"@) && (lang@ == "kr"@ ==> l@ == "kor"@) && (lang@ != "en"@ && lang@
                != "kr"@ ==> l@ == lang@),
            (HitSource::Pabgb { .. }, _) => final(state).main_view == MainView::PabgbTables,
            _ => false,
        },
        how is Editor <==> !(hit.source is Pabgb),
        !final(state).multi_search.in_progress,
        final(state).multi_search.hits == old(state).multi_search.hits,
{
    reveal_strlit("en");
    reveal_strlit("kr");
    assert("en"@[0] == 'e' && "kr"@[0] == 'k');
}

/// A hit in a table leads to that table: to its tab with the entry selected, or
/// to a new tab that loads it and has the key of the entry noted.
pub proof fn law_hit_leads_to_its_entry(state: &mut AppState, hit: &MultiFormatHit, how: Jump)
    requires
        call_ensures(jump_to_hit, (state, hit), how),
        hit.source is Pabgb,
        how is Table,
    ensures
        how->Table_0 is Focused ==> {
            &&& final(state).active_tab_idx is Some
            &&& final(state).active_tab_idx->Some_0 < final(state).open_tabs@.len()
            &&& ({
                let t = final(state).open_tabs@[final(state).active_tab_idx->Some_0 as int];
                &&& t.dispatch_name@ == hit.source->Pabgb_dispatch_name@
                &&& hit.source->Pabgb_entry_idx < t.entries@.len() ==> t.selected_entry_idx == Some(
                    hit.source->Pabgb_entry_idx,
                )
            })
        },
        how->Table_0 is Loading ==> {
            &&& how->Table_0->Loading_0 is LoadTable
            &&& how->Table_0->Loading_0->LoadTable_dispatch_name@ == hit.source->Pabgb_dispatch_name@
            &&& final(state).pending_xref_nav is Some
            &&& final(state).pending_xref_nav->Some_0.0@ == hit.source->Pabgb_dispatch_name@
            &&& final(state).pending_xref_nav->Some_0.1 == hit.source->Pabgb_entry_key
            &&& final(state).open_tabs@.len() == old(state).open_tabs@.len() + 1
            &&& final(state).open_tabs@.last().dispatch_name@ == hit.source->Pabgb_dispatch_name@
        },
{
    assert(old(state).open_tabs@.len() == old(state).open_tabs.len());
    crate::state::lemma_tab_named(old(state).open_tabs@, hit.source->Pabgb_dispatch_name@);
    crate::laws::lookup::lemma_table_named(old(state).tables@, hit.source->Pabgb_dispatch_name@);
}

/// The line of a hit names its file: the group, the directory and the name.
pub proof fn law_hit_line_names_its_file(source: &HitSource, line: Option<String>)
    requires
        call_ensures(source_row_prefix, (source,), line),
    ensures
        line is Some,
        match *source {
            HitSource::Xml { paz_group, dir_path, filename } => line->Some_0@ == "["@ + paz_group@ + "/"@
                + dir_path@ + "/"@ + filename@ + "] "@,
            HitSource::Paatt { paz_group, dir_path, filename } => line->Some_0@ == "["@ + paz_group@ + "/"@
                + dir_path@ + "/"@ + filename@ + "] "@,
            HitSource::Paac { paz_group, dir_path, filename } => line->Some_0@ == "["@ + paz_group@ + "/"@
                + dir_path@ + "/"@ + filename@ + "] "@,
            HitSource::Pappt { paz_group, dir_path, filename } => line->Some_0@ == "["@ + paz_group@ + "/"@
                + dir_path@ + "/"@ + filename@ + "] "@,
            HitSource::Pamhc { paz_group, dir_path, filename } => line->Some_0@ == "["@ + paz_group@ + "/"@
                + dir_path@ + "/"@ + filename@ + "] "@,
            HitSource::Binary { ext, paz_group, dir_path, filename, byte_offset, kind } => line->Some_0@
                == "["@ + paz_group@ + "/"@ + dir_path@ + "/"@ + filename@ + "] ."@ + ext@ + " @0x"@
                + digits(byte_offset as nat, 16, true) + ": "@,
            HitSource::JenkinsHash { ext, paz_group, dir_path, filename, byte_offset, hash, case_label } => line->Some_0@
                == "["@ + paz_group@ + "/"@ + dir_path@ + "/"@ + filename@ + "] ."@ + ext@ + " @0x"@
                + digits(byte_offset as nat, 16, true) + " hash=0x"@ + hex_pad(hash as nat, 8, true) + " ("@ + case_label@ + "): "@,
            HitSource::HexPattern { ext, paz_group, dir_path, filename, byte_offset, pattern_len } => line->Some_0@
                == "["@ + paz_group@ + "/"@ + dir_path@ + "/"@ + filename@ + "] ."@ + ext@ + " @0x"@
                + digits(byte_offset as nat, 16, true) + " ("@ + dec(pattern_len as nat) + "B pattern): "@,
            HitSource::KoreanString { ext, paz_group, dir_path, filename, byte_offset, encoding, text } => line->Some_0@
                == "["@ + paz_group@ + "/"@ + dir_path@ + "/"@ + filename@ + "] ."@ + ext@ + " @0x"@
                + digits(byte_offset as nat, 16, true) + (match encoding {
                KoreanEncoding::Utf8 => " UTF-8: "@,
                KoreanEncoding::Utf16Le => " UTF-16 LE: "@,
            }),
            HitSource::Pabgb { dispatch_name, entry_idx, entry_key, string_key } => line->Some_0@
                == dispatch_name@ + " → "@ + (if string_key@.len() > 0 {
                string_key@ + " (key="@ + dec(entry_key as nat) + "): "@
            } else {
                "key="@ + dec(entry_key as nat) + ": "@
            }),
            HitSource::Paloc { lang, hash_id, value } => line->Some_0@ == lang@ + "["@ + dec(
                hash_id as nat,
            ) + "]: "@,
        },
{
    reveal_strlit("] ");
    reveal_strlit(".");
    reveal_strlit("] .");
    reveal_strlit(" ");
    reveal_strlit(": ");
    reveal_strlit(")");
    reveal_strlit("): ");
    reveal_strlit("UTF-8");
    reveal_strlit(" UTF-8: ");
    reveal_strlit("UTF-16 LE");
    reveal_strlit(" UTF-16 LE: ");
    assert("] "@ + "."@ =~= "] ."@);
    assert(")"@ + ": "@ =~= "): "@);
    assert(" "@ + "UTF-8"@ + ": "@ =~= " UTF-8: "@);
    assert(" "@ + "UTF-16 LE"@ + ": "@ =~= " UTF-16 LE: "@);
}

/// The rows under a heading are all the hits with that heading and no others, in
/// the order in which they came; and every heading is there once.
pub proof fn law_hits_under_their_headings(
    hits: &Vec<MultiFormatHit>,
    groups: Vec<(String, Vec<usize>)>,
    i: int,
)
    requires
        call_ensures(group_hits, (hits,), groups),
        0 <= i < hits@.len(),
    ensures
        exists|k: int|
            0 <= k < groups@.len() && (#[trigger] groups@[k]).0@ == hits@[i].group@
                && groups@[k].1@.contains(i as usize),
        forall|k: int, m: int|
            0 <= k < groups@.len() && 0 <= m < groups@[k].1@.len() ==> {
                &&& (#[trigger] groups@[k].1@[m]) < hits@.len()
                &&& hits@[groups@[k].1@[m] as int].group@ == groups@[k].0@
            },
        forall|k: int, l: int|
            0 <= k < l < groups@.len() ==> (#[trigger] groups@[k]).0@ != (#[trigger] groups@[l]).0@,
        forall|k: int, m: int, n: int|
            0 <= k < groups@.len() && 0 <= m < n < groups@[k].1@.len() ==> (
            #[trigger] groups@[k].1@[m]) < (#[trigger] groups@[k].1@[n]),
{
    let labels = hit_labels(hits@);
    assert(hits@.len() == hits.len());
    law_hits_grouped(labels);
    let seen = first_seen(labels);
    assert(labels[i] == hits@[i].group@);
    assert(seen.contains(labels[i]));
    let k = choose|k: int| 0 <= k < seen.len() && seen[k] == labels[i];
    law_picked(hits@.len(), under(labels, seen[k]));
    assert(under(labels, seen[k])(i));
    assert(groups@[k].0@ == hits@[i].group@);
    assert forall|k: int, m: int| 0 <= k < groups@.len() && 0 <= m < groups@[k].1@.len() implies (
    #[trigger] groups@[k].1@[m]) < hits@.len() && hits@[groups@[k].1@[m] as int].group@
        == groups@[k].0@ by {
        law_picked(hits@.len(), under(labels, seen[k]));
        assert(groups@[k].1@ == picked(hits@.len(), under(labels, seen[k])));
    }
    assert forall|k: int, l: int| 0 <= k < l < groups@.len() implies (#[trigger] groups@[k]).0@ != (
    #[trigger] groups@[l]).0@ by {
        assert(seen[k] != seen[l]);
    }
    assert forall|k: int, m: int, n: int|
        0 <= k < groups@.len() && 0 <= m < n < groups@[k].1@.len() implies (
    #[trigger] groups@[k].1@[m]) < (#[trigger] groups@[k].1@[n]) by {
        law_picked(hits@.len(), under(labels, seen[k]));
        assert(groups@[k].1@ == picked(hits@.len(), under(labels, seen[k])));
    }
}

/// A running scan is called stuck exactly where nothing came for five seconds.
pub proof fn law_stuck_scan(s: &MultiFormatSearchSession, now: u64, hint: Option<String>)
    requires
        call_ensures(stuck_hint, (s, now), hint),
    ensures
        hint is Some <==> s.in_progress && s.progress_updated_at is Some && now
            - s.progress_updated_at->Some_0 >= 5000,
{
}

/// The button can be pressed exactly where a press would start or arm a scan and
/// none is running.
pub proof fn law_button_is_on(
    s: &MultiFormatSearchSession,
    hex: &Result<Vec<u8>, String>,
    on: bool,
)
    requires
        call_ensures(run_enabled, (s, hex), on),
    ensures
        on ==> !s.in_progress,
        on ==> s.formats_enabled.pabgb || s.formats_enabled.paloc || s.formats_enabled.xml
            || s.formats_enabled.paatt || s.formats_enabled.paac || s.formats_enabled.pappt
            || s.formats_enabled.pamhc || s.formats_enabled.binary_byte,
        on && s.search_mode == SearchMode::Text ==> trimmed(s.query@).len() > 0,
        on && s.search_mode == SearchMode::Hex ==> hex is Ok && hex->Ok_0@.len() > 0,
        !s.in_progress && s.formats_enabled.binary_byte && s.search_mode
            == SearchMode::KoreanStrings ==> on,
        !s.in_progress && s.formats_enabled.pabgb && s.search_mode == SearchMode::Text && trimmed(
            s.query@,
        ).len() > 0 ==> on,
        !s.in_progress && s.formats_enabled.binary_byte && s.search_mode == SearchMode::Hex
            && hex is Ok && hex->Ok_0@.len() > 0 ==> on,
{
    assert(s.formats_enabled.has(SearchFormat::BinaryByte) == s.formats_enabled.binary_byte);
    assert(s.formats_enabled.has(SearchFormat::Pabgb) == s.formats_enabled.pabgb);
}

} // verus!
