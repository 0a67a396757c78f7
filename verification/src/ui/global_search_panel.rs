//! The search over all formats: what to look for and where, the running scan,
//! and the way from a hit to its editor.

use std::sync::atomic::{AtomicBool, Ordering};
use std::sync::Arc;
use vstd::prelude::*;
use crate::digits::{dec, dec_text, dec_usize, digits, hex_pad, push_digits, push_hex};
use crate::navigation::{open_at, opened_at, Opened};
use crate::rows::{lemma_picked_none, picked};
use crate::state::{
    copy_tables, error_note, info_note, next_id, warn_note, AppState, ByteHitKind, FormatSet,
    HitSource, Job, KoreanEncoding, MainView, MultiFormatHit, MultiFormatSearchSession, PendingNav,
    SearchFormat, SearchMode, SearchQueryKind,
};
use crate::text::{concat2, concat3, lowercase, same, trim, trimmed};
use crate::ui::entry_table::user_number;

verus! {

broadcast use vstd::seq_lib::group_seq_properties;

/// How long a scan may stay silent before it is taken for stuck, in seconds.
pub const STUCK_THRESHOLD_SECS: u64 = 5;

/// A format that holds text alone, so that no byte pattern stands in it.
pub open spec fn text_only(f: SearchFormat) -> bool {
    f == SearchFormat::Pabgb || f == SearchFormat::Paloc || f == SearchFormat::Xml
}

/// Whether a format holds text alone.
pub fn is_text_only_format(f: SearchFormat) -> (r: bool)
    ensures
        r == text_only(f),
{
    match f {
        SearchFormat::Pabgb | SearchFormat::Paloc | SearchFormat::Xml => true,
        _ => false,
    }
}

/// Whether the scan for CJK runs looks through a format: through binary files alone.
pub fn is_korean_format(f: SearchFormat) -> (r: bool)
    ensures
        r == (f == SearchFormat::BinaryByte),
{
    match f {
        SearchFormat::BinaryByte => true,
        _ => false,
    }
}

/// The switch of a format is locked in a mode.
pub open spec fn locked(mode: SearchMode, f: SearchFormat) -> bool {
    ||| mode == SearchMode::Hex && text_only(f)
    ||| mode == SearchMode::KoreanStrings && f != SearchFormat::BinaryByte
}

/// Whether the switch of a format is locked in a mode.
pub fn is_locked(mode: SearchMode, f: SearchFormat) -> (r: bool)
    ensures
        r == locked(mode, f),
{
    (mode == SearchMode::Hex && is_text_only_format(f)) || (mode == SearchMode::KoreanStrings
        && !is_korean_format(f))
}

/// Turns the switch of a format.
pub fn toggle_format(session: &mut MultiFormatSearchSession, f: SearchFormat, on: bool)
    ensures
        forall|g: SearchFormat|
            #[trigger] final(session).formats_enabled.has(g) == if g == f {
                on
            } else {
                old(session).formats_enabled.has(g)
            },
        *final(session) == (MultiFormatSearchSession {
            formats_enabled: final(session).formats_enabled,
            ..*old(session)
        }),
{
    session.formats_enabled.set(f, on);
}

fn switch_on_unlocked(set: &mut FormatSet, mode: SearchMode, f: SearchFormat)
    ensures
        forall|g: SearchFormat|
            #[trigger] final(set).has(g) == if g == f && !locked(mode, f) {
                true
            } else {
                old(set).has(g)
            },
{
    if !is_locked(mode, f) {
        set.set(f, true);
    }
}

/// Turns on every switch that the mode does not lock.
pub fn enable_all(session: &mut MultiFormatSearchSession)
    ensures
        forall|g: SearchFormat|
            #[trigger] final(session).formats_enabled.has(g) == (old(session).formats_enabled.has(
                g,
            ) || !locked(old(session).search_mode, g)),
        *final(session) == (MultiFormatSearchSession {
            formats_enabled: final(session).formats_enabled,
            ..*old(session)
        }),
{
    let mode = session.search_mode;
    let mut set = session.formats_enabled;
    switch_on_unlocked(&mut set, mode, SearchFormat::Pabgb);
    switch_on_unlocked(&mut set, mode, SearchFormat::Paloc);
    switch_on_unlocked(&mut set, mode, SearchFormat::Xml);
    switch_on_unlocked(&mut set, mode, SearchFormat::Paatt);
    switch_on_unlocked(&mut set, mode, SearchFormat::Paac);
    switch_on_unlocked(&mut set, mode, SearchFormat::Pappt);
    switch_on_unlocked(&mut set, mode, SearchFormat::Pamhc);
    switch_on_unlocked(&mut set, mode, SearchFormat::BinaryByte);
    session.formats_enabled = set;
}

/// Turns off every switch.
pub fn enable_none(session: &mut MultiFormatSearchSession)
    ensures
        forall|g: SearchFormat| !#[trigger] final(session).formats_enabled.has(g),
        *final(session) == (MultiFormatSearchSession {
            formats_enabled: final(session).formats_enabled,
            ..*old(session)
        }),
{
    session.formats_enabled = FormatSet::none();
}

/// Turns on every switch that the mode does not lock but that of the slow byte
/// scan, and turns off all others.
pub fn enable_fast(session: &mut MultiFormatSearchSession)
    ensures
        forall|g: SearchFormat|
            #[trigger] final(session).formats_enabled.has(g) == (g != SearchFormat::BinaryByte
                && !locked(old(session).search_mode, g)),
        *final(session) == (MultiFormatSearchSession {
            formats_enabled: final(session).formats_enabled,
            ..*old(session)
        }),
{
    let mode = session.search_mode;
    let mut set = FormatSet::none();
    switch_on_unlocked(&mut set, mode, SearchFormat::Pabgb);
    switch_on_unlocked(&mut set, mode, SearchFormat::Paloc);
    switch_on_unlocked(&mut set, mode, SearchFormat::Xml);
    switch_on_unlocked(&mut set, mode, SearchFormat::Paatt);
    switch_on_unlocked(&mut set, mode, SearchFormat::Paac);
    switch_on_unlocked(&mut set, mode, SearchFormat::Pappt);
    switch_on_unlocked(&mut set, mode, SearchFormat::Pamhc);
    session.formats_enabled = set;
}

/// Tells whoever holds the flag to stop. The flag is shared with the worker's
/// thread: no contract speaks of its value.
fn raise(flag: &Arc<AtomicBool>) {
    flag.store(true, Ordering::Relaxed);
}

/// A scan was called off. What its worker still sends no longer counts.
pub open spec fn called_off(
    before: MultiFormatSearchSession,
    after: MultiFormatSearchSession,
) -> bool {
    &&& after.progress_message@ == "Cancelled."@
    &&& after == (MultiFormatSearchSession {
        request_id: next_id(before.request_id),
        in_progress: false,
        progress_message: after.progress_message,
        progress_updated_at: None,
        ..before
    })
}

/// Calls the running scan off. The flag that the worker holds is raised.
pub fn cancel_scan(state: &mut AppState)
    ensures
        called_off(old(state).multi_search, final(state).multi_search),
        *final(state) == (AppState {
            multi_search: final(state).multi_search,
            ..*old(state)
        }),
{
    raise(&state.multi_search.cancel_flag);
    state.multi_search.request_id = state.multi_search.request_id.wrapping_add(1);
    state.multi_search.in_progress = false;
    state.multi_search.progress_message = "Cancelled.".to_owned();
    state.multi_search.progress_updated_at = None;
}

/// Puts the search back to rest. What was typed and switched stays. The flag
/// that the worker holds is raised.
pub fn reset_session(state: &mut AppState)
    ensures
        ({
            let before = old(state).multi_search;
            let after = final(state).multi_search;
            &&& after.hits@.len() == 0
            &&& after.progress_message@.len() == 0
            &&& after == (MultiFormatSearchSession {
                request_id: next_id(before.request_id),
                in_progress: false,
                hits: after.hits,
                error: None,
                progress_message: after.progress_message,
                progress_updated_at: None,
                expanded_hit: None,
                confirm_no_filter: false,
                ..before
            })
        }),
        final(state).toasts@ == old(state).toasts@.push(info_note("Search session reset."@)),
        *final(state) == (AppState {
            multi_search: final(state).multi_search,
            toasts: final(state).toasts,
            ..*old(state)
        }),
{
    raise(&state.multi_search.cancel_flag);
    state.multi_search.request_id = state.multi_search.request_id.wrapping_add(1);
    state.multi_search.in_progress = false;
    state.multi_search.hits = Vec::new();
    state.multi_search.error = None;
    state.multi_search.progress_message = String::new();
    state.multi_search.progress_updated_at = None;
    state.multi_search.expanded_hit = None;
    state.multi_search.confirm_no_filter = false;
    state.toasts.info("Search session reset.");
}

/// Gives the session a flag of its own for the next scan, and hands out a second
/// hold on it. The flag is new and not raised; the contract leaves this unsaid,
/// since the value of a flag is shared between threads.
pub fn rotate_cancel_flag(session: &mut MultiFormatSearchSession) -> (r: Arc<AtomicBool>)
    ensures
        r == final(session).cancel_flag,
        *final(session) == (MultiFormatSearchSession {
            cancel_flag: final(session).cancel_flag,
            ..*old(session)
        }),
{
    session.cancel_flag = Arc::new(AtomicBool::new(false));
    session.cancel_flag.clone()
}

/// Another mode was chosen: the running scan is called off, its hits are gone,
/// and the formats that the mode cannot look through are switched off.
pub open spec fn mode_changed(
    before: MultiFormatSearchSession,
    after: MultiFormatSearchSession,
    mode: SearchMode,
) -> bool {
    &&& forall|g: SearchFormat|
        #[trigger] after.formats_enabled.has(g) == if mode == SearchMode::KoreanStrings && g
            == SearchFormat::BinaryByte {
            true
        } else {
            before.formats_enabled.has(g) && !(mode != SearchMode::Text && text_only(g))
        }
    &&& after.hits@.len() == 0
    &&& after.progress_message@.len() == 0
    &&& after == (MultiFormatSearchSession {
        search_mode: mode,
        request_id: next_id(before.request_id),
        in_progress: false,
        hits: after.hits,
        error: None,
        expanded_hit: None,
        progress_message: after.progress_message,
        progress_updated_at: None,
        confirm_no_filter: false,
        formats_enabled: after.formats_enabled,
        ..before
    })
}

/// Chooses a mode. The mode that is chosen already changes nothing.
pub fn change_mode(state: &mut AppState, mode: SearchMode)
    ensures
        if mode == old(state).multi_search.search_mode {
            *final(state) == *old(state)
        } else {
            &&& mode_changed(old(state).multi_search, final(state).multi_search, mode)
            &&& *final(state) == (AppState {
                multi_search: final(state).multi_search,
                ..*old(state)
            })
        },
{
    if mode == state.multi_search.search_mode {
        return;
    }
    state.multi_search.search_mode = mode;
    cancel_scan(state);
    state.multi_search.hits = Vec::new();
    state.multi_search.error = None;
    state.multi_search.expanded_hit = None;
    state.multi_search.progress_message = String::new();
    state.multi_search.confirm_no_filter = false;
    let mut set = state.multi_search.formats_enabled;
    if mode == SearchMode::Hex || mode == SearchMode::KoreanStrings {
        set.set(SearchFormat::Pabgb, false);
        set.set(SearchFormat::Paloc, false);
        set.set(SearchFormat::Xml, false);
    }
    if mode == SearchMode::KoreanStrings {
        set.set(SearchFormat::BinaryByte, true);
    }
    state.multi_search.formats_enabled = set;
}

/// The search text is blank in the mode that browses without one.
pub open spec fn browses(s: MultiFormatSearchSession) -> bool {
    s.search_mode == SearchMode::KoreanStrings && trimmed(s.query@).len() == 0
}

/// Whether the search text is blank in the mode that browses without one.
pub fn is_browsing(s: &MultiFormatSearchSession) -> (r: bool)
    ensures
        r == browses(*s),
{
    s.search_mode == SearchMode::KoreanStrings && trim(s.query.as_str()).as_str().is_empty()
}

/// A byte pattern was read and is not empty.
pub open spec fn pattern_ok(hex: Result<Vec<u8>, String>) -> bool {
    hex matches Ok(b) && b@.len() > 0
}

/// A scan can be started: none is running, some format is switched on, and there
/// is something to look for. `hex` is what the byte pattern was read as.
pub open spec fn can_run(s: MultiFormatSearchSession, hex: Result<Vec<u8>, String>) -> bool {
    &&& !s.in_progress
    &&& exists|f: SearchFormat| #[trigger] s.formats_enabled.has(f)
    &&& match s.search_mode {
        SearchMode::Text => trimmed(s.query@).len() > 0,
        SearchMode::Hex => pattern_ok(hex),
        SearchMode::KoreanStrings => true,
    }
}

/// Whether a scan can be started.
pub fn run_enabled(s: &MultiFormatSearchSession, hex: &Result<Vec<u8>, String>) -> (r: bool)
    ensures
        r == can_run(*s, *hex),
{
    if s.in_progress || s.formats_enabled.is_empty() {
        return false;
    }
    match s.search_mode {
        SearchMode::Text => !trim(s.query.as_str()).as_str().is_empty(),
        SearchMode::Hex => match hex {
            Ok(b) => b.len() > 0,
            Err(_) => false,
        },
        SearchMode::KoreanStrings => true,
    }
}

/// The label of the button that starts a scan.
pub fn run_label(s: &MultiFormatSearchSession) -> (r: &'static str)
    ensures
        r@ == if browses(*s) && s.confirm_no_filter {
            "Run anyway"@
        } else {
            "Run"@
        },
{
    if is_browsing(s) && s.confirm_no_filter {
        "Run anyway"
    } else {
        "Run"
    }
}

/// Takes in the search text of this frame. A changed text takes back the
/// confirmation of an unfiltered scan.
pub fn query_edited(s: &mut MultiFormatSearchSession, typed: String)
    ensures
        *final(s) == (MultiFormatSearchSession {
            query: typed,
            confirm_no_filter: old(s).confirm_no_filter && !(old(s).search_mode
                == SearchMode::KoreanStrings && typed@ != old(s).query@),
            ..*old(s)
        }),
{
    if s.search_mode == SearchMode::KoreanStrings && !same(typed.as_str(), s.query.as_str()) {
        s.confirm_no_filter = false;
    }
    s.query = typed;
}

/// Why no scan was started, or that one was.
pub enum ScanStart {
    NoGameDir,
    NoFormat,
    NoQuery,
    BadPattern,
    Started,
}

/// Whether a scan starts, and if not, why.
pub open spec fn scan_start(s: AppState, hex: Result<Vec<u8>, String>) -> ScanStart {
    if s.game_dir is None {
        ScanStart::NoGameDir
    } else if forall|f: SearchFormat| !#[trigger] s.multi_search.formats_enabled.has(f) {
        ScanStart::NoFormat
    } else {
        match s.multi_search.search_mode {
            SearchMode::Text => if trimmed(s.multi_search.query@).len() == 0 {
                ScanStart::NoQuery
            } else {
                ScanStart::Started
            },
            SearchMode::Hex => if pattern_ok(hex) {
                ScanStart::Started
            } else {
                ScanStart::BadPattern
            },
            SearchMode::KoreanStrings => ScanStart::Started,
        }
    }
}

/// What a scan is called.
pub open spec fn scan_label(s: MultiFormatSearchSession) -> Seq<char> {
    match s.search_mode {
        SearchMode::Text => trimmed(s.query@),
        SearchMode::Hex => s.hex_query@,
        SearchMode::KoreanStrings => if trimmed(s.query@).len() == 0 {
            "(no filter — all CJK runs)"@
        } else {
            trimmed(s.query@)
        },
    }
}

/// A scan looks for what the session asks for.
pub open spec fn query_is(
    s: MultiFormatSearchSession,
    hex: Result<Vec<u8>, String>,
    kind: SearchQueryKind,
) -> bool {
    match s.search_mode {
        SearchMode::Text => kind matches SearchQueryKind::Text(t) && t@ == trimmed(s.query@),
        SearchMode::Hex => hex matches Ok(b) && kind matches SearchQueryKind::HexBytes(c) && c@
            == b@,
        SearchMode::KoreanStrings => match kind {
            SearchQueryKind::KoreanScan { filter } => match filter {
                Some(t) => t@ == trimmed(s.query@) && t@.len() > 0,
                None => trimmed(s.query@).len() == 0,
            },
            _ => false,
        },
    }
}

/// The session of a scan that was just started.
pub open spec fn scan_running(
    before: MultiFormatSearchSession,
    after: MultiFormatSearchSession,
    now: u64,
) -> bool {
    &&& after.hits@.len() == 0
    &&& after.progress_message@ == "Starting scan..."@
    &&& after == (MultiFormatSearchSession {
        request_id: next_id(before.request_id),
        in_progress: true,
        hits: after.hits,
        error: None,
        progress_message: after.progress_message,
        progress_updated_at: Some(now),
        expanded_hit: None,
        cancel_flag: after.cancel_flag,
        ..before
    })
}

/// The number that the search text of a text scan writes.
pub open spec fn scan_number(s: MultiFormatSearchSession) -> Option<u64> {
    if s.search_mode == SearchMode::Text {
        match user_number(trimmed(lowercase(trimmed(s.query@)))) {
            Some(n) => Some(n as u64),
            None => None,
        }
    } else {
        None
    }
}

/// The order for a scan.
pub open spec fn scan_job_is(
    before: AppState,
    after: AppState,
    hex: Result<Vec<u8>, String>,
    job: Option<Job>,
) -> bool {
    match job {
        Some(
            Job::MultiFormatSearch {
                request_id,
                game_dir,
                query,
                filter_as_number,
                formats,
                tables,
                query_kind,
                match_jenkins_hash,
                cancel_flag,
            },
        ) => {
            &&& request_id == after.multi_search.request_id
            &&& Some(game_dir) == before.game_dir
            &&& query@ == scan_label(before.multi_search)
            &&& filter_as_number == scan_number(before.multi_search)
            &&& formats == before.multi_search.formats_enabled
            &&& tables@ == before.tables@
            &&& query_is(before.multi_search, hex, query_kind)
            &&& match_jenkins_hash == (before.multi_search.search_mode == SearchMode::Text
                && before.multi_search.match_jenkins_hash)
            &&& cancel_flag == after.multi_search.cancel_flag
        },
        _ => false,
    }
}

/// A scan was asked for: it is started, or what is missing is said.
pub open spec fn scan_kicked(
    before: AppState,
    after: AppState,
    hex: Result<Vec<u8>, String>,
    now: u64,
    job: Option<Job>,
) -> bool {
    match scan_start(before, hex) {
        ScanStart::NoGameDir => {
            &&& job is None
            &&& after.toasts@ == before.toasts@.push(
                warn_note("Set the Game Directory first (Settings panel)."@),
            )
            &&& after == (AppState { toasts: after.toasts, ..before })
        },
        ScanStart::NoFormat => {
            &&& job is None
            &&& after.toasts@ == before.toasts@.push(warn_note("Pick at least one format to scan."@))
            &&& after == (AppState { toasts: after.toasts, ..before })
        },
        ScanStart::NoQuery => job is None && after == before,
        ScanStart::BadPattern => {
            &&& job is None
            &&& after.toasts@ == before.toasts@.push(
                warn_note("Hex pattern is invalid or empty — fix it before running."@),
            )
            &&& after == (AppState { toasts: after.toasts, ..before })
        },
        ScanStart::Started => {
            &&& scan_running(before.multi_search, after.multi_search, now)
            &&& scan_job_is(before, after, hex, job)
            &&& after == (AppState { multi_search: after.multi_search, ..before })
        },
    }
}

fn copy_bytes(b: &Vec<u8>) -> (r: Vec<u8>)
    ensures
        r@ == b@,
{
    let mut out: Vec<u8> = Vec::new();
    let mut i: usize = 0;
    while i < b.len()
        invariant
            0 <= i <= b.len(),
            out@ == b@.take(i as int),
        decreases b.len() - i,
    {
        out.push(b[i]);
        i = i + 1;
        assert(out@ =~= b@.take(i as int));
    }
    assert(b@.take(b.len() as int) =~= b@);
    out
}

/// The name of a scan and what it looks for; none where the search text or the
/// byte pattern is missing.
fn scan_query(s: &MultiFormatSearchSession, hex: &Result<Vec<u8>, String>) -> (r: Option<
    (String, SearchQueryKind),
>)
    ensures
        match r {
            Some((label, kind)) => label@ == scan_label(*s) && query_is(*s, *hex, kind) && !(
            s.search_mode == SearchMode::Text && trimmed(s.query@).len() == 0) && !(s.search_mode
                == SearchMode::Hex && !pattern_ok(*hex)),
            None => s.search_mode == SearchMode::Text && trimmed(s.query@).len() == 0
                || s.search_mode == SearchMode::Hex && !pattern_ok(*hex),
        },
{
    let query = trim(s.query.as_str());
    match s.search_mode {
        SearchMode::Text => {
            if query.as_str().is_empty() {
                None
            } else {
                Some((query.clone(), SearchQueryKind::Text(query)))
            }
        },
        SearchMode::Hex => match hex {
            Ok(b) => {
                if b.len() == 0 {
                    None
                } else {
                    Some((s.hex_query.clone(), SearchQueryKind::HexBytes(copy_bytes(b))))
                }
            },
            Err(_) => None,
        },
        SearchMode::KoreanStrings => {
            if query.as_str().is_empty() {
                Some(
                    (
                        "(no filter — all CJK runs)".to_owned(),
                        SearchQueryKind::KoreanScan { filter: None },
                    ),
                )
            } else {
                Some((query.clone(), SearchQueryKind::KoreanScan { filter: Some(query) }))
            }
        },
    }
}

fn start_scan(s: &mut MultiFormatSearchSession, now: u64) -> (flag: Arc<AtomicBool>)
    ensures
        scan_running(*old(s), *final(s), now),
        flag == final(s).cancel_flag,
{
    s.request_id = s.request_id.wrapping_add(1);
    s.in_progress = true;
    s.hits = Vec::new();
    s.error = None;
    s.progress_message = "Starting scan...".to_owned();
    s.progress_updated_at = Some(now);
    s.expanded_hit = None;
    rotate_cancel_flag(s)
}

/// Starts a scan for what the session asks for. `hex` is what the byte pattern
/// was read as, `now` the time.
pub fn kick_scan(state: &mut AppState, hex: &Result<Vec<u8>, String>, now: u64) -> (job: Option<Job>)
    ensures
        scan_kicked(*old(state), *final(state), *hex, now, job),
{
    let dir = match &state.game_dir {
        None => {
            state.toasts.warn("Set the Game Directory first (Settings panel).");
            return None;
        },
        Some(d) => d.clone(),
    };
    if state.multi_search.formats_enabled.is_empty() {
        state.toasts.warn("Pick at least one format to scan.");
        return None;
    }
    let mode = state.multi_search.search_mode;
    let (label, kind): (String, SearchQueryKind) = match scan_query(&state.multi_search, hex) {
        Some(p) => p,
        None => {
            if mode == SearchMode::Hex {
                state.toasts.warn("Hex pattern is invalid or empty — fix it before running.");
            }
            return None;
        },
    };
    let number = if mode == SearchMode::Text {
        parse_user_number(label.as_str().to_lowercase().as_str())
    } else {
        None
    };
    let flag = start_scan(&mut state.multi_search, now);
    Some(
        Job::MultiFormatSearch {
            request_id: state.multi_search.request_id,
            game_dir: dir,
            query: label,
            filter_as_number: number,
            formats: state.multi_search.formats_enabled,
            tables: copy_tables(&state.tables),
            query_kind: kind,
            match_jenkins_hash: mode == SearchMode::Text && state.multi_search.match_jenkins_hash,
            cancel_flag: flag,
        },
    )
}

/// Takes back a started scan that the worker did not take.
pub fn scan_not_queued(state: &mut AppState)
    ensures
        final(state).multi_search.progress_message@
            == "Worker channel closed — restart the workbench."@,
        final(state).multi_search == (MultiFormatSearchSession {
            in_progress: false,
            progress_message: final(state).multi_search.progress_message,
            progress_updated_at: None,
            ..old(state).multi_search
        }),
        final(state).toasts@ == old(state).toasts@.push(
            error_note("Worker channel closed — restart the workbench to recover."@),
        ),
        *final(state) == (AppState {
            multi_search: final(state).multi_search,
            toasts: final(state).toasts,
            ..*old(state)
        }),
{
    state.multi_search.in_progress = false;
    state.multi_search.progress_message =
    "Worker channel closed — restart the workbench.".to_owned();
    state.multi_search.progress_updated_at = None;
    state.toasts.error("Worker channel closed — restart the workbench to recover.");
}

/// Does what the button that starts a scan is pressed for. An unfiltered scan
/// for CJK runs is started at the second press; the first arms it.
pub fn press_run(state: &mut AppState, hex: &Result<Vec<u8>, String>, now: u64) -> (job: Option<Job>)
    ensures
        if browses(old(state).multi_search) && !old(state).multi_search.confirm_no_filter {
            &&& job is None
            &&& *final(state) == (AppState {
                multi_search: MultiFormatSearchSession {
                    confirm_no_filter: true,
                    ..old(state).multi_search
                },
                ..*old(state)
            })
        } else {
            scan_kicked(
                AppState {
                    multi_search: MultiFormatSearchSession {
                        confirm_no_filter: old(state).multi_search.confirm_no_filter && !browses(
                            old(state).multi_search,
                        ),
                        ..old(state).multi_search
                    },
                    ..*old(state)
                },
                *final(state),
                *hex,
                now,
                job,
            )
        },
{
    if is_browsing(&state.multi_search) {
        if state.multi_search.confirm_no_filter {
            state.multi_search.confirm_no_filter = false;
            kick_scan(state, hex, now)
        } else {
            state.multi_search.confirm_no_filter = true;
            None
        }
    } else {
        kick_scan(state, hex, now)
    }
}

/// The number that a search text writes, blanks around it ignored.
pub fn parse_user_number(s: &str) -> (r: Option<u64>)
    ensures
        match r {
            Some(n) => user_number(trimmed(s@)) == Some(n as nat),
            None => user_number(trimmed(s@)) is None,
        },
{
    crate::ui::entry_table::parse_user_number(trim(s).as_str())
}

/// The language code of the localization editor for that of a hit; a code that
/// it has no other for is kept.
pub open spec fn editor_lang(short: Seq<char>) -> Seq<char> {
    if short == "en"@ {
        "eng"@
    } else if short == "kr"@ {
        "kor"@
    } else {
        short
    }
}

/// The language code of the localization editor for that of a hit.
pub fn paloc_editor_lang_for_hit(short: &str) -> (r: &str)
    ensures
        r@ == editor_lang(short@),
{
    if same(short, "en") {
        "eng"
    } else if same(short, "kr") {
        "kor"
    } else {
        short
    }
}

/// The name of an encoding.
pub open spec fn encoding_text(e: KoreanEncoding) -> Seq<char> {
    match e {
        KoreanEncoding::Utf8 => "UTF-8"@,
        KoreanEncoding::Utf16Le => "UTF-16 LE"@,
    }
}

/// The name of an encoding.
pub fn encoding_label(e: KoreanEncoding) -> (r: &'static str)
    ensures
        r@ == encoding_text(e),
{
    match e {
        KoreanEncoding::Utf8 => "UTF-8",
        KoreanEncoding::Utf16Le => "UTF-16 LE",
    }
}

/// How a text stands in a binary file.
pub fn byte_kind_label(k: ByteHitKind) -> (r: &'static str)
    ensures
        r@ == match k {
            ByteHitKind::Utf8 => "UTF-8 / ASCII match"@,
            ByteHitKind::Utf16Le => "UTF-16 LE wide-string match"@,
        },
{
    match k {
        ByteHitKind::Utf8 => "UTF-8 / ASCII match",
        ByteHitKind::Utf16Le => "UTF-16 LE wide-string match",
    }
}

/// A file within the archives.
pub open spec fn file_text(group: Seq<char>, dir: Seq<char>, file: Seq<char>) -> Seq<char> {
    "["@ + group + "/"@ + dir + "/"@ + file + "] "@
}

fn push_file(s: &mut String, group: &str, dir: &str, file: &str)
    ensures
        final(s)@ == old(s)@ + file_text(group@, dir@, file@),
{
    s.push_str("[");
    s.push_str(group);
    s.push_str("/");
    s.push_str(dir);
    s.push_str("/");
    s.push_str(file);
    s.push_str("] ");
    assert(s@ =~= old(s)@ + file_text(group@, dir@, file@));
}

/// A place in a binary file.
pub open spec fn place_text(
    group: Seq<char>,
    dir: Seq<char>,
    file: Seq<char>,
    ext: Seq<char>,
    offset: nat,
) -> Seq<char> {
    file_text(group, dir, file) + "."@ + ext + " @0x"@ + digits(offset, 16, true)
}

fn place(group: &str, dir: &str, file: &str, ext: &str, offset: usize) -> (r: String)
    ensures
        r@ == place_text(group@, dir@, file@, ext@, offset as nat),
{
    let mut s = String::new();
    push_file(&mut s, group, dir, file);
    assert(s@ =~= file_text(group@, dir@, file@));
    s.push_str(".");
    s.push_str(ext);
    s.push_str(" @0x");
    push_digits(&mut s, offset as u64, 16, true);
    s
}

/// What stands before the text of a hit: where it is.
pub open spec fn row_prefix(source: HitSource) -> Seq<char> {
    match source {
        HitSource::Pabgb { dispatch_name, entry_idx, entry_key, string_key } => dispatch_name@
            + " → "@ + (if string_key@.len() == 0 {
            "key="@ + dec(entry_key as nat)
        } else {
            string_key@ + " (key="@ + dec(entry_key as nat) + ")"@
        }) + ": "@,
        HitSource::Paloc { lang, hash_id, value } => lang@ + "["@ + dec(hash_id as nat) + "]: "@,
        HitSource::Xml { paz_group, dir_path, filename } => file_text(
            paz_group@,
            dir_path@,
            filename@,
        ),
        HitSource::Paatt { paz_group, dir_path, filename } => file_text(
            paz_group@,
            dir_path@,
            filename@,
        ),
        HitSource::Paac { paz_group, dir_path, filename } => file_text(
            paz_group@,
            dir_path@,
            filename@,
        ),
        HitSource::Pappt { paz_group, dir_path, filename } => file_text(
            paz_group@,
            dir_path@,
            filename@,
        ),
        HitSource::Pamhc { paz_group, dir_path, filename } => file_text(
            paz_group@,
            dir_path@,
            filename@,
        ),
        HitSource::Binary { ext, paz_group, dir_path, filename, byte_offset, kind } => place_text(
            paz_group@,
            dir_path@,
            filename@,
            ext@,
            byte_offset as nat,
        ) + ": "@,
        HitSource::JenkinsHash {
            ext,
            paz_group,
            dir_path,
            filename,
            byte_offset,
            hash,
            case_label,
        } => place_text(paz_group@, dir_path@, filename@, ext@, byte_offset as nat) + " hash=0x"@
            + hex_pad(hash as nat, 8, true) + " ("@ + case_label@ + "): "@,
        HitSource::HexPattern { ext, paz_group, dir_path, filename, byte_offset, pattern_len } =>
        place_text(paz_group@, dir_path@, filename@, ext@, byte_offset as nat) + " ("@ + dec(
            pattern_len as nat,
        ) + "B pattern): "@,
        HitSource::KoreanString {
            ext,
            paz_group,
            dir_path,
            filename,
            byte_offset,
            encoding,
            text,
        } => place_text(paz_group@, dir_path@, filename@, ext@, byte_offset as nat) + " "@
            + encoding_text(encoding) + ": "@,
    }
}

fn file_prefix(group: &str, dir: &str, file: &str) -> (r: String)
    ensures
        r@ == file_text(group@, dir@, file@),
{
    let mut s = String::new();
    push_file(&mut s, group, dir, file);
    assert(s@ =~= file_text(group@, dir@, file@));
    s
}

/// What stands before the text of a hit: where it is.
pub fn source_row_prefix(source: &HitSource) -> (r: Option<String>)
    ensures
        r matches Some(t) && t@ == row_prefix(*source),
{
    let text = match source {
        HitSource::Pabgb { dispatch_name, entry_idx: _, entry_key, string_key } => {
            let key = if string_key.as_str().is_empty() {
                concat2("key=", dec_text(*entry_key).as_str())
            } else {
                let mut k = string_key.clone();
                k.push_str(" (key=");
                k.push_str(dec_text(*entry_key).as_str());
                k.push_str(")");
                k
            };
            let mut s = dispatch_name.clone();
            s.push_str(" → ");
            s.push_str(key.as_str());
            s.push_str(": ");
            s
        },
        HitSource::Paloc { lang, hash_id, value: _ } => {
            let mut s = lang.clone();
            s.push_str("[");
            s.push_str(dec_text(*hash_id).as_str());
            s.push_str("]: ");
            s
        },
        HitSource::Xml { paz_group, dir_path, filename } => file_prefix(
            paz_group.as_str(),
            dir_path.as_str(),
            filename.as_str(),
        ),
        HitSource::Paatt { paz_group, dir_path, filename } => file_prefix(
            paz_group.as_str(),
            dir_path.as_str(),
            filename.as_str(),
        ),
        HitSource::Paac { paz_group, dir_path, filename } => file_prefix(
            paz_group.as_str(),
            dir_path.as_str(),
            filename.as_str(),
        ),
        HitSource::Pappt { paz_group, dir_path, filename } => file_prefix(
            paz_group.as_str(),
            dir_path.as_str(),
            filename.as_str(),
        ),
        HitSource::Pamhc { paz_group, dir_path, filename } => file_prefix(
            paz_group.as_str(),
            dir_path.as_str(),
            filename.as_str(),
        ),
        HitSource::Binary { ext, paz_group, dir_path, filename, byte_offset, kind: _ } => {
            let mut s = place(
                paz_group.as_str(),
                dir_path.as_str(),
                filename.as_str(),
                ext.as_str(),
                *byte_offset,
            );
            s.push_str(": ");
            s
        },
        HitSource::JenkinsHash {
            ext,
            paz_group,
            dir_path,
            filename,
            byte_offset,
            hash,
            case_label,
        } => {
            let mut s = place(
                paz_group.as_str(),
                dir_path.as_str(),
                filename.as_str(),
                ext.as_str(),
                *byte_offset,
            );
            s.push_str(" hash=0x");
            push_hex(&mut s, *hash as u64, 8, true);
            s.push_str(" (");
            s.push_str(case_label.as_str());
            s.push_str("): ");
            s
        },
        HitSource::HexPattern { ext, paz_group, dir_path, filename, byte_offset, pattern_len } => {
            let mut s = place(
                paz_group.as_str(),
                dir_path.as_str(),
                filename.as_str(),
                ext.as_str(),
                *byte_offset,
            );
            s.push_str(" (");
            s.push_str(dec_usize(*pattern_len).as_str());
            s.push_str("B pattern): ");
            s
        },
        HitSource::KoreanString {
            ext,
            paz_group,
            dir_path,
            filename,
            byte_offset,
            encoding,
            text: _,
        } => {
            let mut s = place(
                paz_group.as_str(),
                dir_path.as_str(),
                filename.as_str(),
                ext.as_str(),
                *byte_offset,
            );
            s.push_str(" ");
            s.push_str(encoding_label(*encoding));
            s.push_str(": ");
            s
        },
    };
    Some(text)
}

/// How an editor was opened for a hit.
#[derive(Debug)]
pub enum Jump {
    /// The hit is an entry of a table.
    Table(Opened),
    /// The hit waits for its editor.
    Editor,
}

/// A running scan was called off.
pub open spec fn scan_left(before: MultiFormatSearchSession, after: MultiFormatSearchSession) -> bool {
    if before.in_progress {
        called_off(before, after)
    } else {
        after == before
    }
}

/// The view that edits the file of a hit.
pub open spec fn view_of(source: HitSource) -> MainView {
    match source {
        HitSource::Pabgb { .. } => MainView::PabgbTables,
        HitSource::Paloc { .. } => MainView::Paloc,
        HitSource::Xml { .. } => MainView::Xml,
        HitSource::Paatt { .. } => MainView::Paatt,
        HitSource::Paac { .. } => MainView::Paac,
        HitSource::Pappt { .. } => MainView::Pappt,
        HitSource::Pamhc { .. } => MainView::Pamhc,
        _ => MainView::BinaryInspector,
    }
}

/// What is left for the editor of a hit: the file, and the place in it.
pub open spec fn nav_is(source: HitSource, nav: Option<PendingNav>) -> bool {
    match source {
        HitSource::Pabgb { .. } => true,
        HitSource::Paloc { lang, hash_id, value } => match nav {
            Some(PendingNav::Paloc { lang: l, hash_id: h }) => l@ == editor_lang(lang@) && h
                == hash_id,
            _ => false,
        },
        HitSource::Xml { paz_group, dir_path, filename } => nav == Some(
            PendingNav::Xml { paz_group, dir_path, filename },
        ),
        HitSource::Paatt { paz_group, dir_path, filename } => nav == Some(
            PendingNav::Paatt { paz_group, dir_path, filename },
        ),
        HitSource::Paac { paz_group, dir_path, filename } => nav == Some(
            PendingNav::Paac { paz_group, dir_path, filename },
        ),
        HitSource::Pappt { paz_group, dir_path, filename } => nav == Some(
            PendingNav::Pappt { paz_group, dir_path, filename },
        ),
        HitSource::Pamhc { paz_group, dir_path, filename } => nav == Some(
            PendingNav::Pamhc { paz_group, dir_path, filename },
        ),
        HitSource::Binary { ext, paz_group, dir_path, filename, byte_offset, kind } => nav == Some(
            PendingNav::BinaryInspector {
                ext,
                paz_group,
                dir_path,
                filename,
                byte_offset: Some(byte_offset),
            },
        ),
        HitSource::JenkinsHash { ext, paz_group, dir_path, filename, byte_offset, hash, case_label } => nav == Some(
            PendingNav::BinaryInspector {
                ext,
                paz_group,
                dir_path,
                filename,
                byte_offset: Some(byte_offset),
            },
        ),
        HitSource::HexPattern { ext, paz_group, dir_path, filename, byte_offset, pattern_len } => nav == Some(
            PendingNav::BinaryInspector {
                ext,
                paz_group,
                dir_path,
                filename,
                byte_offset: Some(byte_offset),
            },
        ),
        HitSource::KoreanString { ext, paz_group, dir_path, filename, byte_offset, encoding, text } => nav == Some(
            PendingNav::BinaryInspector {
                ext,
                paz_group,
                dir_path,
                filename,
                byte_offset: Some(byte_offset),
            },
        ),
    }
}

/// What is said when a hit is opened.
pub open spec fn jump_message(source: HitSource) -> Seq<char> {
    match source {
        HitSource::Pabgb { .. } => Seq::empty(),
        HitSource::Paloc { lang, hash_id, value } => "Opening PALOC editor at "@ + editor_lang(
            lang@,
        ) + "["@ + dec(hash_id as nat) + "]."@,
        HitSource::Xml { paz_group, dir_path, filename } => "Opening XML editor on ["@ + paz_group@
            + "] "@ + filename@ + "."@,
        HitSource::Paatt { paz_group, dir_path, filename } => "Opening PAATT editor on ["@ + paz_group@
            + "] "@ + filename@ + "."@,
        HitSource::Paac { paz_group, dir_path, filename } => "Opening PAAC editor on ["@ + paz_group@
            + "] "@ + filename@ + "."@,
        HitSource::Pappt { paz_group, dir_path, filename } => "Opening PAPPT editor on ["@ + paz_group@
            + "] "@ + filename@ + "."@,
        HitSource::Pamhc { paz_group, dir_path, filename } => "Opening PAMHC editor on ["@ + paz_group@
            + "] "@ + filename@ + "."@,
        HitSource::Binary { ext, paz_group, dir_path, filename, byte_offset, kind } =>
        "Opening Binary Inspector on ["@ + spot_text(paz_group@, filename@, byte_offset as nat)
            + "."@,
        HitSource::JenkinsHash {
            ext,
            paz_group,
            dir_path,
            filename,
            byte_offset,
            hash,
            case_label,
        } => "Opening Binary Inspector — ["@ + spot_text(
            paz_group@,
            filename@,
            byte_offset as nat,
        ) + ", hash=0x"@ + hex_pad(hash as nat, 8, true) + " ("@ + case_label@ + ")."@,
        HitSource::HexPattern { ext, paz_group, dir_path, filename, byte_offset, pattern_len } =>
        "Opening Binary Inspector — ["@ + spot_text(paz_group@, filename@, byte_offset as nat)
            + " ("@ + dec(pattern_len as nat) + "B pattern)."@,
        HitSource::KoreanString {
            ext,
            paz_group,
            dir_path,
            filename,
            byte_offset,
            encoding,
            text,
        } => "Opening Binary Inspector — ["@ + spot_text(
            paz_group@,
            filename@,
            byte_offset as nat,
        ) + " ("@ + encoding_text(encoding) + " CJK run)."@,
    }
}

/// A place in a file of an archive group.
pub open spec fn spot_text(group: Seq<char>, file: Seq<char>, offset: nat) -> Seq<char> {
    group + "] "@ + file + " @0x"@ + digits(offset, 16, true)
}

fn spot(group: &str, file: &str, offset: usize) -> (r: String)
    ensures
        r@ == spot_text(group@, file@, offset as nat),
{
    let mut s = group.to_owned();
    s.push_str("] ");
    s.push_str(file);
    s.push_str(" @0x");
    push_digits(&mut s, offset as u64, 16, true);
    s
}

/// The hit was handed to its editor.
pub open spec fn handed_over(before: AppState, after: AppState, source: HitSource) -> bool {
    &&& nav_is(source, after.pending_global_nav)
    &&& after.toasts@ == before.toasts@.push(info_note(jump_message(source)))
    &&& after == (AppState {
        pending_global_nav: after.pending_global_nav,
        main_view: view_of(source),
        toasts: after.toasts,
        ..before
    })
}

fn editor_message(head: &str, group: &str, file: &str) -> (r: String)
    ensures
        r@ == head@ + group@ + "] "@ + file@ + "."@,
{
    let mut s = head.to_owned();
    s.push_str(group);
    s.push_str("] ");
    s.push_str(file);
    s.push_str(".");
    s
}

/// What is left for the editor of a hit, the view of the editor, and what is
/// said; a hit in a table has none of these.
fn editor_plan(source: &HitSource) -> (r: Option<(PendingNav, MainView, String)>)
    ensures
        match r {
            Some((nav, view, m)) => nav_is(*source, Some(nav)) && view == view_of(*source) && m@
                == jump_message(*source) && !(source is Pabgb),
            None => source is Pabgb,
        },
{
    match source {
        HitSource::Pabgb { .. } => None,
        HitSource::Paloc { lang, hash_id, value: _ } => {
            let l = paloc_editor_lang_for_hit(lang.as_str()).to_owned();
            let mut m = "Opening PALOC editor at ".to_owned();
            m.push_str(l.as_str());
            m.push_str("[");
            m.push_str(dec_text(*hash_id).as_str());
            m.push_str("].");
            Some((PendingNav::Paloc { lang: l, hash_id: *hash_id }, MainView::Paloc, m))
        },
        HitSource::Xml { paz_group, dir_path, filename } => {
            let m = editor_message(
                "Opening XML editor on [",
                paz_group.as_str(),
                filename.as_str(),
            );
            Some(
                (
                    PendingNav::Xml {
                        paz_group: paz_group.clone(),
                        dir_path: dir_path.clone(),
                        filename: filename.clone(),
                    },
                    MainView::Xml,
                    m,
                ),
            )
        },
        HitSource::Paatt { paz_group, dir_path, filename } => {
            let m = editor_message(
                "Opening PAATT editor on [",
                paz_group.as_str(),
                filename.as_str(),
            );
            Some(
                (
                    PendingNav::Paatt {
                        paz_group: paz_group.clone(),
                        dir_path: dir_path.clone(),
                        filename: filename.clone(),
                    },
                    MainView::Paatt,
                    m,
                ),
            )
        },
        HitSource::Paac { paz_group, dir_path, filename } => {
            let m = editor_message(
                "Opening PAAC editor on [",
                paz_group.as_str(),
                filename.as_str(),
            );
            Some(
                (
                    PendingNav::Paac {
                        paz_group: paz_group.clone(),
                        dir_path: dir_path.clone(),
                        filename: filename.clone(),
                    },
                    MainView::Paac,
                    m,
                ),
            )
        },
        HitSource::Pappt { paz_group, dir_path, filename } => {
            let m = editor_message(
                "Opening PAPPT editor on [",
                paz_group.as_str(),
                filename.as_str(),
            );
            Some(
                (
                    PendingNav::Pappt {
                        paz_group: paz_group.clone(),
                        dir_path: dir_path.clone(),
                        filename: filename.clone(),
                    },
                    MainView::Pappt,
                    m,
                ),
            )
        },
        HitSource::Pamhc { paz_group, dir_path, filename } => {
            let m = editor_message(
                "Opening PAMHC editor on [",
                paz_group.as_str(),
                filename.as_str(),
            );
            Some(
                (
                    PendingNav::Pamhc {
                        paz_group: paz_group.clone(),
                        dir_path: dir_path.clone(),
                        filename: filename.clone(),
                    },
                    MainView::Pamhc,
                    m,
                ),
            )
        },
        HitSource::Binary { ext, paz_group, dir_path, filename, byte_offset, kind: _ } => {
            let mut m = "Opening Binary Inspector on [".to_owned();
            m.push_str(spot(paz_group.as_str(), filename.as_str(), *byte_offset).as_str());
            m.push_str(".");
            Some(
                (
                    PendingNav::BinaryInspector {
                        ext: ext.clone(),
                        paz_group: paz_group.clone(),
                        dir_path: dir_path.clone(),
                        filename: filename.clone(),
                        byte_offset: Some(*byte_offset),
                    },
                    MainView::BinaryInspector,
                    m,
                ),
            )
        },
        HitSource::JenkinsHash { ext, paz_group, dir_path, filename, byte_offset, hash, case_label } => {
            let mut m = "Opening Binary Inspector — [".to_owned();
            m.push_str(spot(paz_group.as_str(), filename.as_str(), *byte_offset).as_str());
            m.push_str(", hash=0x");
            push_hex(&mut m, *hash as u64, 8, true);
            m.push_str(" (");
            m.push_str(case_label.as_str());
            m.push_str(").");
            Some(
                (
                    PendingNav::BinaryInspector {
                        ext: ext.clone(),
                        paz_group: paz_group.clone(),
                        dir_path: dir_path.clone(),
                        filename: filename.clone(),
                        byte_offset: Some(*byte_offset),
                    },
                    MainView::BinaryInspector,
                    m,
                ),
            )
        },
        HitSource::HexPattern { ext, paz_group, dir_path, filename, byte_offset, pattern_len } => {
            let mut m = "Opening Binary Inspector — [".to_owned();
            m.push_str(spot(paz_group.as_str(), filename.as_str(), *byte_offset).as_str());
            m.push_str(" (");
            m.push_str(dec_usize(*pattern_len).as_str());
            m.push_str("B pattern).");
            Some(
                (
                    PendingNav::BinaryInspector {
                        ext: ext.clone(),
                        paz_group: paz_group.clone(),
                        dir_path: dir_path.clone(),
                        filename: filename.clone(),
                        byte_offset: Some(*byte_offset),
                    },
                    MainView::BinaryInspector,
                    m,
                ),
            )
        },
        HitSource::KoreanString { ext, paz_group, dir_path, filename, byte_offset, encoding, text: _ } => {
            let mut m = "Opening Binary Inspector — [".to_owned();
            m.push_str(spot(paz_group.as_str(), filename.as_str(), *byte_offset).as_str());
            m.push_str(" (");
            m.push_str(encoding_label(*encoding));
            m.push_str(" CJK run).");
            Some(
                (
                    PendingNav::BinaryInspector {
                        ext: ext.clone(),
                        paz_group: paz_group.clone(),
                        dir_path: dir_path.clone(),
                        filename: filename.clone(),
                        byte_offset: Some(*byte_offset),
                    },
                    MainView::BinaryInspector,
                    m,
                ),
            )
        },
    }
}

/// Opens the editor of a hit. A running scan is called off first, so that the
/// load does not have to wait for it.
#[verifier::rlimit(40)]
pub fn jump_to_hit(state: &mut AppState, hit: &MultiFormatHit) -> (r: Jump)
    ensures
        old(state).tabs_wf() ==> final(state).tabs_wf(),
        scan_left(old(state).multi_search, final(state).multi_search),
        match hit.source {
            HitSource::Pabgb { dispatch_name, entry_idx, entry_key, string_key } => {
                &&& r matches Jump::Table(how)
                &&& opened_at(
                    AppState {
                        main_view: MainView::PabgbTables,
                        multi_search: final(state).multi_search,
                        ..*old(state)
                    },
                    *final(state),
                    dispatch_name,
                    entry_idx,
                    entry_key,
                    r->Table_0,
                )
            },
            _ => {
                &&& r is Editor
                &&& handed_over(
                    AppState { multi_search: final(state).multi_search, ..*old(state) },
                    *final(state),
                    hit.source,
                )
            },
        },
{
    if state.multi_search.in_progress {
        cancel_scan(state);
    }
    match &hit.source {
        HitSource::Pabgb { dispatch_name, entry_idx, entry_key, string_key: _ } => {
            state.main_view = MainView::PabgbTables;
            let how = open_at(state, dispatch_name, *entry_idx, *entry_key);
            return Jump::Table(how);
        },
        _ => {},
    }
    match editor_plan(&hit.source) {
        Some((nav, view, message)) => {
            state.pending_global_nav = Some(nav);
            state.main_view = view;
            state.toasts.info(message.as_str());
        },
        None => {},
    }
    Jump::Editor
}

/// The headings in the order in which they come up first.
pub open spec fn first_seen(labels: Seq<Seq<char>>) -> Seq<Seq<char>>
    decreases labels.len(),
{
    if labels.len() == 0 {
        Seq::empty()
    } else {
        let before = first_seen(labels.drop_last());
        if before.contains(labels.last()) {
            before
        } else {
            before.push(labels.last())
        }
    }
}

/// The rows under a heading.
pub open spec fn under(labels: Seq<Seq<char>>, label: Seq<char>) -> spec_fn(int) -> bool {
    |i: int| labels[i] == label
}

/// The headings of the hits.
pub open spec fn hit_labels(hits: Seq<MultiFormatHit>) -> Seq<Seq<char>> {
    hits.map_values(|h: MultiFormatHit| h.group@)
}

proof fn lemma_first_seen(labels: Seq<Seq<char>>)
    ensures
        forall|i: int| 0 <= i < labels.len() ==> first_seen(labels).contains(#[trigger] labels[i]),
        forall|k: int|
            0 <= k < first_seen(labels).len() ==> labels.contains(#[trigger] first_seen(labels)[k]),
        first_seen(labels).no_duplicates(),
    decreases labels.len(),
{
    if labels.len() > 0 {
        let init = labels.drop_last();
        lemma_first_seen(init);
        assert forall|i: int| 0 <= i < labels.len() implies first_seen(labels).contains(
            #[trigger] labels[i],
        ) by {
            if i < labels.len() - 1 {
                assert(init[i] == labels[i]);
                let k = choose|k: int|
                    0 <= k < first_seen(init).len() && first_seen(init)[k] == labels[i];
                assert(first_seen(labels)[k] == labels[i]);
            } else if !first_seen(init).contains(labels.last()) {
                assert(first_seen(labels)[first_seen(labels).len() - 1] == labels[i]);
            }
        }
        assert forall|k: int| 0 <= k < first_seen(labels).len() implies labels.contains(
            #[trigger] first_seen(labels)[k],
        ) by {
            if k < first_seen(init).len() {
                let x = first_seen(init)[k];
                let i = choose|i: int| 0 <= i < init.len() && init[i] == x;
                assert(labels[i] == x);
            } else {
                assert(labels[labels.len() - 1] == first_seen(labels)[k]);
            }
        }
    }
}

/// Every hit stands under one heading, its own, and every heading has a hit.
pub proof fn law_hits_grouped(labels: Seq<Seq<char>>)
    ensures
        forall|i: int| 0 <= i < labels.len() ==> first_seen(labels).contains(#[trigger] labels[i]),
        forall|k: int|
            0 <= k < first_seen(labels).len() ==> labels.contains(#[trigger] first_seen(labels)[k]),
        first_seen(labels).no_duplicates(),
{
    lemma_first_seen(labels);
}

/// The hits under their headings, each by its position.
pub fn group_hits(hits: &Vec<MultiFormatHit>) -> (r: Vec<(String, Vec<usize>)>)
    ensures
        r@.len() == first_seen(hit_labels(hits@)).len(),
        forall|k: int|
            0 <= k < r@.len() ==> (#[trigger] r@[k]).0@ == first_seen(hit_labels(hits@))[k]
                && r@[k].1@ == picked(
                hits@.len(),
                under(hit_labels(hits@), first_seen(hit_labels(hits@))[k]),
            ),
{
    let ghost labels = hit_labels(hits@);
    let mut groups: Vec<(String, Vec<usize>)> = Vec::new();
    let mut i: usize = 0;
    assert(labels.take(0) =~= Seq::empty());
    while i < hits.len()
        invariant
            0 <= i <= hits.len(),
            labels == hit_labels(hits@),
            groups@.len() == first_seen(labels.take(i as int)).len(),
            forall|k: int|
                0 <= k < groups@.len() ==> (#[trigger] groups@[k]).0@ == first_seen(
                    labels.take(i as int),
                )[k] && groups@[k].1@ == picked(i as nat, under(labels, groups@[k].0@)),
        decreases hits.len() - i,
    {
        let ghost seen = first_seen(labels.take(i as int));
        let ghost g0 = groups@;
        proof {
            assert(labels.take(i + 1).drop_last() =~= labels.take(i as int));
            lemma_first_seen(labels.take(i as int));
        }
        let mut slot: usize = 0;
        while slot < groups.len() && !same(groups[slot].0.as_str(), hits[i].group.as_str())
            invariant
                0 <= slot <= groups.len(),
                0 <= i < hits.len(),
                groups@ == g0,
                labels == hit_labels(hits@),
                forall|k: int| 0 <= k < slot ==> (#[trigger] groups@[k]).0@ != labels[i as int],
            decreases groups.len() - slot,
        {
            slot = slot + 1;
        }
        if slot < groups.len() {
            assert(seen[slot as int] == labels[i as int]);
            assert(seen.contains(labels[i as int]));
            groups[slot].1.push(i);
            assert forall|k: int| 0 <= k < groups@.len() implies (#[trigger] groups@[k]).0@
                == first_seen(labels.take(i + 1))[k] && groups@[k].1@ == picked(
                (i + 1) as nat,
                under(labels, groups@[k].0@),
            ) by {
                assert(g0[k].0@ == seen[k]);
                if k == slot {
                    assert(groups@[k].1@ =~= g0[k].1@.push(i));
                } else {
                    assert(seen[k] != seen[slot as int]);
                }
            }
        } else {
            assert(!seen.contains(labels[i as int])) by {
                if seen.contains(labels[i as int]) {
                    let k = choose|k: int| 0 <= k < seen.len() && seen[k] == labels[i as int];
                    assert(g0[k].0@ == seen[k]);
                }
            }
            let mut rows: Vec<usize> = Vec::new();
            rows.push(i);
            let name = hits[i].group.clone();
            proof {
                let keep = under(labels, labels[i as int]);
                assert forall|j: int| 0 <= j < i implies !#[trigger] keep(j) by {
                    if labels[j] == labels[i as int] {
                        assert(labels.take(i as int)[j] == labels[j]);
                    }
                }
                lemma_picked_none(i as nat, keep);
                assert(rows@ =~= picked((i + 1) as nat, keep));
            }
            groups.push((name, rows));
            assert forall|k: int| 0 <= k < groups@.len() implies (#[trigger] groups@[k]).0@
                == first_seen(labels.take(i + 1))[k] && groups@[k].1@ == picked(
                (i + 1) as nat,
                under(labels, groups@[k].0@),
            ) by {
                if k < g0.len() {
                    assert(groups@[k] == g0[k]);
                    assert(g0[k].0@ == seen[k]);
                }
            }
        }
        i = i + 1;
    }
    assert(labels.take(hits.len() as int) =~= labels);
    groups
}

/// The heading of a group with its number of hits.
pub fn group_title(name: &str, count: usize) -> (r: String)
    ensures
        r@ == name@ + " ("@ + dec(count as nat) + ")"@,
{
    let mut s = name.to_owned();
    s.push_str(" (");
    s.push_str(dec_usize(count).as_str());
    s.push_str(")");
    s
}

/// Unfolds a hit and folds the one that was unfolded; an unfolded hit is folded.
pub fn toggle_expanded(session: &mut MultiFormatSearchSession, i: usize)
    ensures
        *final(session) == (MultiFormatSearchSession {
            expanded_hit: if old(session).expanded_hit == Some(i) {
                None
            } else {
                Some(i)
            },
            ..*old(session)
        }),
{
    session.expanded_hit = match session.expanded_hit {
        Some(j) => if j == i {
            None
        } else {
            Some(i)
        },
        None => Some(i),
    };
}

/// What is said of a running scan that has been silent for a number of seconds.
pub open spec fn stuck_text(secs: u64) -> Option<Seq<char>> {
    if secs >= STUCK_THRESHOLD_SECS {
        Some(
            "\u{26A0} No progress for "@ + dec(secs as nat)
                + "s — looks stuck. Click Reset above to recover."@,
        )
    } else {
        None
    }
}

/// How long the scan has been silent, in seconds.
pub open spec fn silent_secs(s: MultiFormatSearchSession, now: u64) -> Option<u64> {
    match s.progress_updated_at {
        Some(t) => if s.in_progress {
            Some(
                ((if now >= t {
                    now - t
                } else {
                    0
                }) / 1000) as u64,
            )
        } else {
            None
        },
        None => None,
    }
}

/// What is said of a running scan that seems stuck.
pub fn stuck_hint(s: &MultiFormatSearchSession, now: u64) -> (r: Option<String>)
    ensures
        match (r, silent_secs(*s, now)) {
            (Some(t), Some(secs)) => stuck_text(secs) == Some(t@),
            (None, Some(secs)) => stuck_text(secs) is None,
            (None, None) => true,
            (Some(_), None) => false,
        },
{
    if !s.in_progress {
        return None;
    }
    match s.progress_updated_at {
        None => None,
        Some(t) => {
            let ms: u64 = if now >= t {
                now - t
            } else {
                0
            };
            let secs: u64 = ms / 1000;
            if secs >= STUCK_THRESHOLD_SECS {
                Some(
                    concat3(
                        "\u{26A0} No progress for ",
                        dec_text(secs).as_str(),
                        "s — looks stuck. Click Reset above to recover.",
                    ),
                )
            } else {
                None
            }
        },
    }
}

/// The first `n` bytes in hexadecimal with blanks between.
pub open spec fn spaced_hex(b: Seq<u8>, n: nat) -> Seq<char>
    decreases n,
{
    if n == 0 {
        Seq::empty()
    } else {
        spaced_hex(b, (n - 1) as nat) + (if n > 1 {
            " "@
        } else {
            Seq::empty()
        }) + hex_pad(b[n - 1] as nat, 2, true)
    }
}

/// What a byte pattern was read as: its length and its first sixteen bytes.
pub open spec fn pattern_text(b: Seq<u8>) -> Seq<char> {
    "parsed: "@ + dec(b.len()) + " byte(s) — "@ + spaced_hex(
        b,
        if b.len() > 16 {
            16
        } else {
            b.len()
        },
    ) + (if b.len() > 16 {
        " ..."@
    } else {
        ""@
    })
}

/// What a byte pattern was read as, or why it could not be read. Nothing is
/// said of a blank pattern, nor in another mode.
pub fn pattern_feedback(s: &MultiFormatSearchSession, hex: &Result<Vec<u8>, String>) -> (r: Option<
    String,
>)
    ensures
        s.search_mode != SearchMode::Hex || trimmed(s.hex_query@).len() == 0 ==> r is None,
        s.search_mode == SearchMode::Hex && trimmed(s.hex_query@).len() > 0 ==> match (r, *hex) {
            (Some(t), Ok(b)) => t@ == pattern_text(b@),
            (Some(t), Err(e)) => t@ == "error: "@ + e@,
            _ => false,
        },
{
    if s.search_mode != SearchMode::Hex || trim(s.hex_query.as_str()).as_str().is_empty() {
        return None;
    }
    match hex {
        Err(e) => Some(concat2("error: ", e.as_str())),
        Ok(b) => {
            let mut t = "parsed: ".to_owned();
            push_digits(&mut t, b.len() as u64, 10, false);
            t.push_str(" byte(s) — ");
            let ghost head = t@;
            let n: usize = if b.len() > 16 {
                16
            } else {
                b.len()
            };
            let mut i: usize = 0;
            assert(t@ =~= head + spaced_hex(b@, 0));
            while i < n
                invariant
                    0 <= i <= n <= b.len(),
                    t@ == head + spaced_hex(b@, i as nat),
                decreases n - i,
            {
                if i > 0 {
                    t.push_str(" ");
                }
                push_hex(&mut t, b[i] as u64, 2, true);
                i = i + 1;
                assert(t@ =~= head + spaced_hex(b@, i as nat));
            }
            t.push_str(
                if b.len() > 16 {
                    " ..."
                } else {
                    ""
                },
            );
            Some(t)
        },
    }
}

/// The line on a CJK run: its encoding, its place and its number of characters.
pub fn korean_run_line(encoding: KoreanEncoding, offset: usize, text: &str) -> (r: String)
    ensures
        r@ == "Encoding: "@ + encoding_text(encoding) + " | offset 0x"@ + digits(
            offset as nat,
            16,
            true,
        ) + " | run length: "@ + dec(text@.len()) + " chars"@,
{
    let mut s = "Encoding: ".to_owned();
    s.push_str(encoding_label(encoding));
    s.push_str(" | offset 0x");
    push_digits(&mut s, offset as u64, 16, true);
    s.push_str(" | run length: ");
    let n = crate::text::chars_of(text).len();
    push_digits(&mut s, n as u64, 10, false);
    s.push_str(" chars");
    s
}

/// Another mode leaves what was typed as it is. A mode other than that for text
/// leaves no text format on, and that for CJK runs turns the byte scan on.
pub proof fn law_mode_change(
    before: MultiFormatSearchSession,
    after: MultiFormatSearchSession,
    mode: SearchMode,
    f: SearchFormat,
)
    requires
        mode_changed(before, after, mode),
    ensures
        after.query == before.query,
        after.hex_query == before.hex_query,
        mode != SearchMode::Text && text_only(f) ==> !after.formats_enabled.has(f),
        mode == SearchMode::KoreanStrings ==> after.formats_enabled.has(SearchFormat::BinaryByte),
{
}

/// A new scan, a cancelled one and a reset one each get a number other than that
/// of the scan before, so that late hits of that scan are told apart.
pub proof fn law_next_id_differs(id: u64)
    ensures
        next_id(id) != id,
{
}

} // verus!
