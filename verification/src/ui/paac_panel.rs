//! The editor of action charts: states, transitions, conditions, strings, and
//! the numbers near them.

use vstd::prelude::*;
use crate::digits::{dec, dec_text, dec_usize};
use crate::paz_file::{
    deploy_note, deploy_request, deployable, dir_or_warn, entry_of, load_failed_note, loaded_note,
    nav_file, nav_load, report_deploy, report_load_failed, report_loaded, report_restore,
    report_save, report_scan, restore_note, save_note, scan_note, take_nav, DeployRequest,
    FileEditor, FileSource, LoadError, PazEntry,
};
use crate::rows::picked;
use crate::state::{failure_note, warn_note, AppState};
use crate::text::{has_sub, lower_contains, lowercase, trim, trimmed};

verus! {

broadcast use vstd::seq_lib::group_seq_properties;

/// The views of the editor.
#[derive(Clone, Copy, Debug, PartialEq, Eq, Structural)]
pub enum PaacView {
    States,
    Transitions,
    Conditions,
    Strings,
    FloatHunt,
}

impl Default for PaacView {
    fn default() -> (r: Self)
        ensures
            r is States,
    {
        PaacView::States
    }
}

/// The layouts of a chart.
#[derive(Clone, Copy, Debug, PartialEq, Eq, Structural)]
pub enum PaacFormat {
    InfoTable,
    ActionChartV0,
    ActionChartV1,
    Unknown,
}

/// The head of a chart.
#[derive(Clone, Copy, Debug, PartialEq, Eq, Structural)]
pub struct PaacHeader {
    pub node_count: u32,
    /// The bits of the speed, a number of single precision.
    pub speed: u32,
}

/// A state of the machine.
#[derive(Debug)]
pub struct PaacState {
    /// The layout of the record.
    pub fmt: String,
    pub file_offset: usize,
    pub record_start: usize,
    pub end: usize,
    pub transition_count: usize,
    pub float_count: usize,
}

/// A transition between states.
#[derive(Clone, Copy, Debug, PartialEq, Eq, Structural)]
pub struct InlineTransition {
    pub file_offset: usize,
    /// The bits of the threshold, a number of single precision.
    pub threshold: u32,
    pub target_state: u32,
    pub sequence: u32,
}

/// A condition, whose code is opaque.
#[derive(Clone, Copy, Debug, PartialEq, Eq, Structural)]
pub struct ConditionRecord {
    pub file_offset: usize,
    pub target: Option<u32>,
    pub source_state: Option<u32>,
    pub label_index: Option<u32>,
    pub opcode: Option<u32>,
}

/// A string in the file.
#[derive(Debug)]
pub struct PaacString {
    pub file_offset: usize,
    pub text: String,
}

/// A chart, as it was parsed, with the bytes that are deployed.
#[derive(Debug)]
pub struct PaacFile {
    pub format: PaacFormat,
    pub header: Option<PaacHeader>,
    pub size: usize,
    pub states: Vec<PaacState>,
    pub transitions: Vec<InlineTransition>,
    pub condition_records: Vec<ConditionRecord>,
    pub strings: Vec<PaacString>,
    pub raw: Vec<u8>,
}

/// A number near a string: its offset, its bits when it was found, and the string.
#[derive(Debug)]
pub struct FloatHit {
    pub offset: usize,
    pub bits: u32,
    pub context: String,
}

/// What the editor keeps.
#[derive(Debug)]
pub struct PaacSession {
    pub view: PaacView,
    /// The files in the archives, once they were looked for.
    pub paz_files: Option<Vec<PazEntry>>,
    pub paz_filter: String,
    /// The entry of the file; none for one from disk.
    pub current_entry: Option<PazEntry>,
    pub file: Option<PaacFile>,
    /// The bytes of the file as it was loaded.
    pub vanilla_bytes: Option<Vec<u8>>,
    pub selected_state_idx: Option<usize>,
    pub strings_filter: String,
    pub float_hunt_keyword: String,
    pub float_hunt_hits: Vec<FloatHit>,
    /// The hits are to be looked for again.
    pub float_hunt_dirty: bool,
    pub overlay_group: String,
}

impl PaacSession {
    /// As it is when the workbench starts.
    pub open spec fn is_fresh(&self) -> bool {
        &&& self.view is States
        &&& self.paz_files is None
        &&& self.paz_filter@.len() == 0
        &&& self.current_entry is None
        &&& self.file is None
        &&& self.vanilla_bytes is None
        &&& self.selected_state_idx is None
        &&& self.strings_filter@.len() == 0
        &&& self.float_hunt_keyword@.len() == 0
        &&& self.float_hunt_hits@.len() == 0
        &&& self.float_hunt_dirty
        &&& self.overlay_group@ == "0067"@
    }
}

impl Default for PaacSession {
    fn default() -> (r: Self)
        ensures
            r.is_fresh(),
    {
        PaacSession {
            view: PaacView::default(),
            paz_files: None,
            paz_filter: String::new(),
            current_entry: None,
            file: None,
            vanilla_bytes: None,
            selected_state_idx: None,
            strings_filter: String::new(),
            float_hunt_keyword: String::new(),
            float_hunt_hits: Vec::new(),
            float_hunt_dirty: true,
            overlay_group: "0067".to_owned(),
        }
    }
}

/// The name of a layout.
pub fn format_label(f: PaacFormat) -> (r: &'static str)
    ensures
        r@ == match f {
            PaacFormat::InfoTable => "info_table"@,
            PaacFormat::ActionChartV0 => "action_chart_v0"@,
            PaacFormat::ActionChartV1 => "action_chart_v1"@,
            PaacFormat::Unknown => "unknown"@,
        },
{
    match f {
        PaacFormat::InfoTable => "info_table",
        PaacFormat::ActionChartV0 => "action_chart_v0",
        PaacFormat::ActionChartV1 => "action_chart_v1",
        PaacFormat::Unknown => "unknown",
    }
}

/// The line on how much the chart holds.
pub fn counts_line(file: &PaacFile) -> (r: String)
    ensures
        r@ == "states "@ + dec(file.states@.len()) + "  |  transitions "@ + dec(
            file.transitions@.len(),
        ) + "  |  conditions "@ + dec(file.condition_records@.len()) + "  |  strings "@ + dec(
            file.strings@.len(),
        ),
{
    let mut s = "states ".to_owned();
    s.push_str(dec_usize(file.states.len()).as_str());
    s.push_str("  |  transitions ");
    s.push_str(dec_usize(file.transitions.len()).as_str());
    s.push_str("  |  conditions ");
    s.push_str(dec_usize(file.condition_records.len()).as_str());
    s.push_str("  |  strings ");
    s.push_str(dec_usize(file.strings.len()).as_str());
    s
}

/// The number of bytes of a state's record.
pub fn state_size(s: &PaacState) -> (r: usize)
    requires
        s.record_start <= s.end,
    ensures
        r == s.end - s.record_start,
{
    s.end - s.record_start
}

/// A number, or a dash for none.
pub fn opt_u32(v: Option<u32>) -> (r: String)
    ensures
        r@ == match v {
            Some(x) => dec(x as nat),
            None => "-"@,
        },
{
    match v {
        Some(x) => dec_text(x as u64),
        None => "-".to_owned(),
    }
}

/// The changes that were made to a transition in a frame.
#[derive(Clone, Copy, Debug, PartialEq, Eq, Structural)]
pub struct TransitionChange {
    pub threshold: Option<u32>,
    pub target_state: Option<u32>,
    pub sequence: Option<u32>,
}

/// A transition with its changes.
pub open spec fn transition_changed(t: InlineTransition, c: TransitionChange) -> InlineTransition {
    InlineTransition {
        file_offset: t.file_offset,
        threshold: match c.threshold {
            Some(v) => v,
            None => t.threshold,
        },
        target_state: match c.target_state {
            Some(v) => v,
            None => t.target_state,
        },
        sequence: match c.sequence {
            Some(v) => v,
            None => t.sequence,
        },
    }
}

/// The writes to the bytes that the changes call for: one for each, as the
/// transition stands after it.
pub open spec fn transition_writes(
    t: InlineTransition,
    c: TransitionChange,
) -> Seq<InlineTransition> {
    let a = transition_changed(
        t,
        TransitionChange { threshold: c.threshold, target_state: None, sequence: None },
    );
    let b = transition_changed(
        a,
        TransitionChange { threshold: None, target_state: c.target_state, sequence: None },
    );
    let d = transition_changed(t, c);
    (if c.threshold is Some {
        seq![a]
    } else {
        Seq::empty()
    }) + (if c.target_state is Some {
        seq![b]
    } else {
        Seq::empty()
    }) + (if c.sequence is Some {
        seq![d]
    } else {
        Seq::empty()
    })
}

/// Changes a transition, and gives the writes to the bytes that this calls for.
pub fn change_transition(
    file: &mut PaacFile,
    i: usize,
    change: TransitionChange,
) -> (r: Vec<InlineTransition>)
    requires
        i < old(file).transitions@.len(),
    ensures
        r@ == transition_writes(old(file).transitions@[i as int], change),
        final(file).transitions@ == old(file).transitions@.update(
            i as int,
            transition_changed(old(file).transitions@[i as int], change),
        ),
        *final(file) == (PaacFile { transitions: final(file).transitions, ..*old(file) }),
{
    let mut t = file.transitions[i];
    let ghost t0 = t;
    let mut out: Vec<InlineTransition> = Vec::new();
    match change.threshold {
        Some(v) => {
            t.threshold = v;
            out.push(t);
        },
        None => {},
    }
    match change.target_state {
        Some(v) => {
            t.target_state = v;
            out.push(t);
        },
        None => {},
    }
    match change.sequence {
        Some(v) => {
            t.sequence = v;
            out.push(t);
        },
        None => {},
    }
    assert(out@ =~= transition_writes(t0, change));
    file.transitions[i] = t;
    out
}

/// The last write is the transition as it is shown; there is none only where
/// nothing changed.
pub proof fn law_last_write_is_shown(t: InlineTransition, c: TransitionChange)
    ensures
        transition_writes(t, c).len() > 0 ==> transition_writes(t, c).last()
            == transition_changed(t, c),
        transition_writes(t, c).len() == 0 ==> transition_changed(t, c) == t,
        forall|k: int|
            0 <= k < transition_writes(t, c).len() ==> (#[trigger] transition_writes(t, c)[k]).file_offset
                == t.file_offset,
{
}

/// The bytes after a write to them, or why it failed.
pub open spec fn written(
    before: AppState,
    after: AppState,
    message: Seq<char>,
    result: Result<Vec<u8>, String>,
) -> bool {
    match result {
        Ok(raw) => after == (AppState {
            paac: PaacSession {
                file: match before.paac.file {
                    Some(f) => Some(PaacFile { raw, ..f }),
                    None => None,
                },
                ..before.paac
            },
            ..before
        }),
        Err(e) => {
            &&& after.toasts@ == before.toasts@.push(failure_note(message, e@))
            &&& after == (AppState { toasts: after.toasts, ..before })
        },
    }
}

fn take_bytes(state: &mut AppState, message: &str, result: Result<Vec<u8>, String>)
    ensures
        written(*old(state), *final(state), message@, result),
{
    match result {
        Ok(raw) => {
            match &mut state.paac.file {
                Some(f) => {
                    f.raw = raw;
                },
                None => {},
            }
        },
        Err(e) => {
            state.toasts.error_with_details(message, e.as_str());
        },
    }
}

/// Takes over the bytes after a transition was written to them, or says why it
/// could not be.
pub fn transition_written(state: &mut AppState, result: Result<Vec<u8>, String>)
    ensures
        written(*old(state), *final(state), "patch_transition failed"@, result),
{
    take_bytes(state, "patch_transition failed", result);
}

/// Takes over the bytes after a number was written to them, or says why it could
/// not be.
pub fn float_written(state: &mut AppState, result: Result<Vec<u8>, String>)
    ensures
        written(*old(state), *final(state), "patch_float failed"@, result),
{
    take_bytes(state, "patch_float failed", result);
}

/// The filter text stands in a string.
pub open spec fn string_kept(strings: Seq<PaacString>, filter: Seq<char>) -> spec_fn(int) -> bool {
    |i: int|
        lowercase(filter).len() == 0 || has_sub(lowercase(strings[i].text@), lowercase(filter))
}

/// The strings that the filter text keeps.
pub fn visible_strings(strings: &Vec<PaacString>, filter: &str) -> (r: Vec<usize>)
    ensures
        r@ == picked(strings@.len(), string_kept(strings@, filter@)),
{
    let f = filter.to_lowercase();
    let ghost keep = string_kept(strings@, filter@);
    let mut out: Vec<usize> = Vec::new();
    let mut i: usize = 0;
    while i < strings.len()
        invariant
            0 <= i <= strings.len(),
            f@ == lowercase(filter@),
            keep == string_kept(strings@, filter@),
            out@ == picked(i as nat, keep),
        decreases strings.len() - i,
    {
        if f.as_str().is_empty() || lower_contains(strings[i].text.as_str(), f.as_str()) {
            out.push(i);
        }
        i = i + 1;
    }
    out
}

/// What numbers are looked for near.
#[derive(Debug)]
pub struct FloatHunt {
    /// A part of the strings; none for all strings.
    pub keyword: Option<String>,
    /// The distance to a string, in bytes.
    pub radius: usize,
}

/// The search for numbers that is due: one is, where a file is loaded and the
/// hits are not those of the keyword.
pub fn hunt_request(session: &PaacSession) -> (r: Option<FloatHunt>)
    ensures
        match r {
            Some(h) => {
                let k = trimmed(session.float_hunt_keyword@);
                &&& session.float_hunt_dirty && session.file is Some
                &&& h.radius == 128
                &&& match h.keyword {
                    Some(w) => k.len() > 0 && w@ == k,
                    None => k.len() == 0,
                }
            },
            None => !(session.float_hunt_dirty && session.file is Some),
        },
{
    if session.float_hunt_dirty && session.file.is_some() {
        let k = trim(session.float_hunt_keyword.as_str());
        if k.as_str().is_empty() {
            Some(FloatHunt { keyword: None, radius: 128 })
        } else {
            Some(FloatHunt { keyword: Some(k), radius: 128 })
        }
    } else {
        None
    }
}

/// Takes over the hits of a search.
pub fn hunt_done(session: &mut PaacSession, hits: Vec<FloatHit>)
    ensures
        *final(session) == (PaacSession {
            float_hunt_hits: hits,
            float_hunt_dirty: false,
            ..*old(session)
        }),
{
    session.float_hunt_hits = hits;
    session.float_hunt_dirty = false;
}

/// Asks for a new search: the keyword changed, or one was asked for.
pub fn hunt_again(session: &mut PaacSession)
    ensures
        *final(session) == (PaacSession { float_hunt_dirty: true, ..*old(session) }),
{
    session.float_hunt_dirty = true;
}

/// The line on the hits.
pub fn hunt_line(n: usize) -> (r: String)
    ensures
        r@ == dec(n as nat)
            + " candidate floats near identifier strings (radius 128 bytes, |v| in [0.001, 10000])"@,
{
    let mut s = dec_usize(n);
    s.push_str(
        " candidate floats near identifier strings (radius 128 bytes, |v| in [0.001, 10000])",
    );
    s
}

/// The value of four bytes at an offset, the lowest first.
pub open spec fn bits_at(raw: Seq<u8>, off: int) -> int {
    raw[off] + 0x100 * raw[off + 1] + 0x10000 * raw[off + 2] + 0x1000000 * raw[off + 3]
}

/// The bits of the number at an offset, from the bytes as they are now.
pub fn float_bits_at(raw: &Vec<u8>, off: usize) -> (r: u32)
    requires
        off + 4 <= raw.len(),
    ensures
        r == bits_at(raw@, off as int),
{
    raw[off] as u32 + 0x100 * (raw[off + 1] as u32) + 0x10000 * (raw[off + 2] as u32) + 0x1000000
        * (raw[off + 3] as u32)
}

/// A file was read and parsed, or could not be.
pub open spec fn load_done(
    before: AppState,
    after: AppState,
    src: FileSource,
    result: Result<(PaacFile, Vec<u8>), LoadError>,
) -> bool {
    match result {
        Ok((file, bytes)) => {
            &&& after.toasts@ == before.toasts@.push(loaded_note(src))
            &&& after.paac.float_hunt_hits@.len() == 0
            &&& after == (AppState {
                toasts: after.toasts,
                paac: PaacSession {
                    file: Some(file),
                    current_entry: entry_of(src),
                    vanilla_bytes: Some(bytes),
                    selected_state_idx: None,
                    float_hunt_dirty: true,
                    float_hunt_hits: after.paac.float_hunt_hits,
                    ..before.paac
                },
                ..before
            })
        },
        Err(e) => {
            &&& after.toasts@ == before.toasts@.push(load_failed_note("PAAC"@, src, e))
            &&& after == (AppState { toasts: after.toasts, ..before })
        },
    }
}

/// Takes over a file that was read and parsed, from the archives or from disk,
/// or says why it could not be. What was loaded stays where it fails.
fn load_file(
    state: &mut AppState,
    src: FileSource,
    result: Result<(PaacFile, Vec<u8>), LoadError>,
)
    ensures
        load_done(*old(state), *final(state), src, result),
{
    match result {
        Ok(p) => {
            let (file, bytes) = p;
            report_loaded(&mut state.toasts, &src);
            state.paac.file = Some(file);
            state.paac.current_entry = src.into_entry();
            state.paac.vanilla_bytes = Some(bytes);
            state.paac.selected_state_idx = None;
            state.paac.float_hunt_dirty = true;
            state.paac.float_hunt_hits.clear();
        },
        Err(e) => {
            report_load_failed(&mut state.toasts, "PAAC", &src, &e);
        },
    }
}

/// Takes over a file of the archives that was read and parsed, or says why it
/// could not be.
pub fn load_paac_from_paz(
    state: &mut AppState,
    entry: &PazEntry,
    result: Result<(PaacFile, Vec<u8>), LoadError>,
)
    ensures
        load_done(*old(state), *final(state), FileSource::Archive(*entry), result),
{
    load_file(state, FileSource::Archive(entry.copy()), result);
}

/// Takes over a file on disk that was read and parsed, or says why it could not
/// be. It has no entry in the archives.
pub fn load_paac_from_path(
    state: &mut AppState,
    path: &String,
    result: Result<(PaacFile, Vec<u8>), LoadError>,
)
    ensures
        load_done(*old(state), *final(state), FileSource::Disk(*path), result),
{
    load_file(state, FileSource::Disk(path.clone()), result);
}

/// The game directory to load a file from. Where none is set, that is said.
pub fn load_dir(state: &mut AppState) -> (r: Option<String>)
    ensures
        r == old(state).game_dir,
        r is Some ==> *final(state) == *old(state),
        r is None ==> final(state).toasts@ == old(state).toasts@.push(
            warn_note("Set the Game Directory first."@),
        ) && *final(state) == (AppState { toasts: final(state).toasts, ..*old(state) }),
{
    dir_or_warn(state, "Set the Game Directory first.")
}

/// Takes over the files that were found in the archives, or says why there are
/// none. Nothing was looked for without a game directory.
pub fn browse_done(state: &mut AppState, found: Option<Result<Vec<PazEntry>, String>>)
    ensures
        final(state).toasts@ == old(state).toasts@.push(scan_note(".paac"@, found)),
        *final(state) == (AppState {
            toasts: final(state).toasts,
            paac: PaacSession {
                paz_files: match found {
                    Some(Ok(files)) => Some(files),
                    _ => old(state).paac.paz_files,
                },
                ..old(state).paac
            },
            ..*old(state)
        }),
{
    report_scan(&mut state.toasts, &mut state.paac.paz_files, ".paac", found);
}

/// Takes a waiting search hit for this editor out of the queue, and gives the
/// file to load for it, unless that is loaded.
pub fn consume_pending_nav(state: &mut AppState) -> (r: Option<PazEntry>)
    ensures
        r == nav_load(
            old(state).pending_global_nav,
            FileEditor::Paac,
            old(state).paac.current_entry,
        ),
        *final(state) == (AppState {
            pending_global_nav: if nav_file(
                old(state).pending_global_nav,
                FileEditor::Paac,
            ) is Some {
                None
            } else {
                old(state).pending_global_nav
            },
            ..*old(state)
        }),
{
    take_nav(
        &mut state.pending_global_nav,
        FileEditor::Paac,
        &state.paac.current_entry,
    )
}

/// A deploy can be asked for.
pub open spec fn ready(s: AppState) -> bool {
    deployable(s.paac.file is Some, s.paac.current_entry, s.game_dir)
}

/// Whether a deploy can be asked for: a file is loaded, it came from the
/// archives, and a game directory is set.
pub fn can_apply(state: &AppState) -> (r: bool)
    ensures
        r == ready(*state),
{
    state.paac.file.is_some() && state.paac.current_entry.is_some() && state.game_dir.is_some()
}

/// What a deploy needs, where it can be asked for.
pub fn apply_request(state: &AppState) -> (r: Option<DeployRequest>)
    ensures
        r == if ready(*state) {
            Some(
                DeployRequest {
                    game_dir: state.game_dir->Some_0,
                    entry: state.paac.current_entry->Some_0,
                    group: state.paac.overlay_group,
                },
            )
        } else {
            None
        },
{
    deploy_request(
        state.paac.file.is_some(),
        &state.paac.current_entry,
        &state.game_dir,
        &state.paac.overlay_group,
    )
}

/// Reports a deploy.
pub fn apply_to_game(state: &mut AppState, request: &DeployRequest, result: &Result<(), String>)
    ensures
        final(state).toasts@ == old(state).toasts@.push(
            deploy_note("PAAC"@, request.entry.filename@, request.group@, *result),
        ),
        *final(state) == (AppState { toasts: final(state).toasts, ..*old(state) }),
{
    report_deploy(
        &mut state.toasts,
        "PAAC",
        request.entry.filename.as_str(),
        request.group.as_str(),
        result,
    );
}

/// The game directory and the overlay group to remove, where a game directory is set.
pub fn restore_request(state: &AppState) -> (r: Option<(String, String)>)
    ensures
        r == match state.game_dir {
            Some(d) => Some((d, state.paac.overlay_group)),
            None => None,
        },
{
    match &state.game_dir {
        Some(d) => Some((d.clone(), state.paac.overlay_group.clone())),
        None => None,
    }
}

/// Reports that the overlay group was removed, or why it was not.
pub fn restore_overlay(state: &mut AppState, group: &str, result: &Result<(), String>)
    ensures
        final(state).toasts@ == old(state).toasts@.push(restore_note("PAAC"@, group@, *result)),
        *final(state) == (AppState { toasts: final(state).toasts, ..*old(state) }),
{
    report_restore(&mut state.toasts, "PAAC", group, result);
}

/// Reports that the file was written to disk, or why it was not.
pub fn save_paac_to_disk(state: &mut AppState, path: &str, result: &Result<(), String>)
    ensures
        final(state).toasts@ == old(state).toasts@.push(save_note(path@, *result)),
        *final(state) == (AppState { toasts: final(state).toasts, ..*old(state) }),
{
    report_save(&mut state.toasts, path, result);
}

} // verus!
