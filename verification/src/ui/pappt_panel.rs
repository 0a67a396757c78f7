//! The editor of the part-prefab table: primary entries with their children, and
//! pairs of aliases.

use vstd::prelude::*;
use crate::digits::{dec, dec_usize, hex_pad, push_hex};
use crate::paz_file::{
    deploy_note, deploy_request, deployable, dir_or_warn, entry_of, load_failed_note, loaded_note,
    nav_file, nav_load, report_deploy, report_load_failed, report_loaded, report_restore,
    report_save, report_scan, restore_note, save_note, scan_note, take_nav, DeployRequest,
    FileEditor, FileSource, LoadError, PazEntry,
};
use crate::rows::picked;
use crate::state::{warn_note, AppState};
use crate::text::{byte_len, has_sub, longer_than, lower_contains, lowercase};

verus! {

broadcast use vstd::seq_lib::group_seq_properties;

/// The greatest number of children of an entry.
pub const MAX_CHILDREN: usize = 255;

/// The greatest number of bytes of a text.
pub const MAX_PSTR_BYTES: usize = 255;

/// The lists, one to a tab.
#[derive(Clone, Copy, Debug, PartialEq, Eq, Structural)]
pub enum PapptTab {
    Primary,
    Secondary,
}

impl Default for PapptTab {
    fn default() -> (r: Self)
        ensures
            r is Primary,
    {
        PapptTab::Primary
    }
}

/// A variant of an entry.
#[derive(Debug)]
pub struct PrimaryChild {
    pub sub_key: String,
    pub sub_flag: u8,
}

impl Default for PrimaryChild {
    fn default() -> (r: Self)
        ensures
            r.sub_key@.len() == 0,
            r.sub_flag == 0,
    {
        PrimaryChild { sub_key: String::new(), sub_flag: 0 }
    }
}

/// An entry of the table.
#[derive(Debug)]
pub struct PrimaryEntry {
    pub key_a: String,
    pub key_b: String,
    pub key_c: String,
    pub asset_id: String,
    pub flag: u8,
    pub children: Vec<PrimaryChild>,
}

/// An entry that holds nothing yet.
pub open spec fn blank_primary(e: PrimaryEntry) -> bool {
    &&& e.key_a@.len() == 0
    &&& e.key_b@.len() == 0
    &&& e.key_c@.len() == 0
    &&& e.asset_id@.len() == 0
    &&& e.flag == 0
    &&& e.children@.len() == 0
}

impl Default for PrimaryEntry {
    fn default() -> (r: Self)
        ensures
            blank_primary(r),
    {
        PrimaryEntry {
            key_a: String::new(),
            key_b: String::new(),
            key_c: String::new(),
            asset_id: String::new(),
            flag: 0,
            children: Vec::new(),
        }
    }
}

/// A pair of aliases.
#[derive(Debug)]
pub struct SecondaryEntry {
    pub alias_a: String,
    pub alias_b: String,
}

/// A pair that holds nothing yet.
pub open spec fn blank_secondary(e: SecondaryEntry) -> bool {
    e.alias_a@.len() == 0 && e.alias_b@.len() == 0
}

impl Default for SecondaryEntry {
    fn default() -> (r: Self)
        ensures
            blank_secondary(r),
    {
        SecondaryEntry { alias_a: String::new(), alias_b: String::new() }
    }
}

/// A file, as it was parsed, with its edits.
#[derive(Debug)]
pub struct PapptFile {
    pub primary: Vec<PrimaryEntry>,
    pub secondary: Vec<SecondaryEntry>,
}

/// What the editor keeps.
#[derive(Debug)]
pub struct PapptSession {
    pub tab: PapptTab,
    /// The files in the archives, once they were looked for.
    pub paz_files: Option<Vec<PazEntry>>,
    pub paz_filter: String,
    /// The entry of the file; none for one from disk.
    pub current_entry: Option<PazEntry>,
    pub file: Option<PapptFile>,
    /// The bytes of the file as it was loaded.
    pub vanilla_bytes: Option<Vec<u8>>,
    pub primary_filter: String,
    pub secondary_filter: String,
    pub selected_primary_idx: Option<usize>,
    pub overlay_group: String,
}

impl PapptSession {
    /// As it is when the workbench starts.
    pub open spec fn is_fresh(&self) -> bool {
        &&& self.tab is Primary
        &&& self.paz_files is None
        &&& self.paz_filter@.len() == 0
        &&& self.current_entry is None
        &&& self.file is None
        &&& self.vanilla_bytes is None
        &&& self.primary_filter@.len() == 0
        &&& self.secondary_filter@.len() == 0
        &&& self.selected_primary_idx is None
        &&& self.overlay_group@ == "0071"@
    }
}

impl Default for PapptSession {
    fn default() -> (r: Self)
        ensures
            r.is_fresh(),
    {
        PapptSession {
            tab: PapptTab::default(),
            paz_files: None,
            paz_filter: String::new(),
            current_entry: None,
            file: None,
            vanilla_bytes: None,
            primary_filter: String::new(),
            secondary_filter: String::new(),
            selected_primary_idx: None,
            overlay_group: "0071".to_owned(),
        }
    }
}

/// The filter text stands in one of the first two keys or the asset of an entry.
pub open spec fn primary_kept(entries: Seq<PrimaryEntry>, filter: Seq<char>) -> spec_fn(int) -> bool {
    |i: int|
        {
            let f = lowercase(filter);
            ||| f.len() == 0
            ||| has_sub(lowercase(entries[i].key_a@), f)
            ||| has_sub(lowercase(entries[i].key_b@), f)
            ||| has_sub(lowercase(entries[i].asset_id@), f)
        }
}

/// The rows that the filter text keeps.
pub fn visible_primary(entries: &Vec<PrimaryEntry>, filter: &str) -> (r: Vec<usize>)
    ensures
        r@ == picked(entries@.len(), primary_kept(entries@, filter@)),
{
    let f = filter.to_lowercase();
    let ghost keep = primary_kept(entries@, filter@);
    let mut out: Vec<usize> = Vec::new();
    let mut i: usize = 0;
    while i < entries.len()
        invariant
            0 <= i <= entries.len(),
            f@ == lowercase(filter@),
            keep == primary_kept(entries@, filter@),
            out@ == picked(i as nat, keep),
        decreases entries.len() - i,
    {
        if f.as_str().is_empty() || lower_contains(entries[i].key_a.as_str(), f.as_str())
            || lower_contains(entries[i].key_b.as_str(), f.as_str())
            || lower_contains(entries[i].asset_id.as_str(), f.as_str()) {
            out.push(i);
        }
        i = i + 1;
    }
    out
}

/// The filter text stands in one of the aliases of a pair.
pub open spec fn secondary_kept(
    entries: Seq<SecondaryEntry>,
    filter: Seq<char>,
) -> spec_fn(int) -> bool {
    |i: int|
        {
            let f = lowercase(filter);
            ||| f.len() == 0
            ||| has_sub(lowercase(entries[i].alias_a@), f)
            ||| has_sub(lowercase(entries[i].alias_b@), f)
        }
}

/// The rows that the filter text keeps.
pub fn visible_secondary(entries: &Vec<SecondaryEntry>, filter: &str) -> (r: Vec<usize>)
    ensures
        r@ == picked(entries@.len(), secondary_kept(entries@, filter@)),
{
    let f = filter.to_lowercase();
    let ghost keep = secondary_kept(entries@, filter@);
    let mut out: Vec<usize> = Vec::new();
    let mut i: usize = 0;
    while i < entries.len()
        invariant
            0 <= i <= entries.len(),
            f@ == lowercase(filter@),
            keep == secondary_kept(entries@, filter@),
            out@ == picked(i as nat, keep),
        decreases entries.len() - i,
    {
        if f.as_str().is_empty() || lower_contains(entries[i].alias_a.as_str(), f.as_str())
            || lower_contains(entries[i].alias_b.as_str(), f.as_str()) {
            out.push(i);
        }
        i = i + 1;
    }
    out
}

/// Adds a blank entry, which is selected then.
pub fn new_primary(session: &mut PapptSession)
    ensures
        match old(session).file {
            Some(f) => {
                &&& final(session).file matches Some(g) && {
                    &&& g.primary@.len() == f.primary@.len() + 1
                    &&& g.primary@.drop_last() == f.primary@
                    &&& blank_primary(g.primary@.last())
                    &&& g == (PapptFile { primary: g.primary, ..f })
                    &&& final(session).selected_primary_idx == Some(
                        (g.primary@.len() - 1) as usize,
                    )
                }
                &&& *final(session) == (PapptSession {
                    file: final(session).file,
                    selected_primary_idx: final(session).selected_primary_idx,
                    ..*old(session)
                })
            },
            None => *final(session) == *old(session),
        },
{
    match &mut session.file {
        Some(f) => {
            let ghost p0 = f.primary@;
            let n: usize = f.primary.len();
            f.primary.push(PrimaryEntry::default());
            assert(f.primary@.drop_last() =~= p0);
            session.selected_primary_idx = Some(n);
        },
        None => {},
    }
}

/// What the detail of the selected entry shows.
#[derive(Clone, Copy, Debug, PartialEq, Eq, Structural)]
pub enum PrimaryDetail {
    NothingSelected,
    NoFile,
    /// The selection points at an entry that is no longer there.
    Stale,
    At(usize),
}

/// What the detail of the selected entry shows.
pub fn primary_detail(session: &PapptSession) -> (r: PrimaryDetail)
    ensures
        r == match (session.selected_primary_idx, session.file) {
            (None, _) => PrimaryDetail::NothingSelected,
            (Some(_), None) => PrimaryDetail::NoFile,
            (Some(i), Some(f)) => if i >= f.primary@.len() {
                PrimaryDetail::Stale
            } else {
                PrimaryDetail::At(i)
            },
        },
{
    match session.selected_primary_idx {
        None => PrimaryDetail::NothingSelected,
        Some(i) => match &session.file {
            None => PrimaryDetail::NoFile,
            Some(f) => if i >= f.primary.len() {
                PrimaryDetail::Stale
            } else {
                PrimaryDetail::At(i)
            },
        },
    }
}

/// Deletes the entry at `idx`. None is selected then.
pub fn delete_primary(session: &mut PapptSession, idx: usize)
    requires
        old(session).file matches Some(f) ==> idx < f.primary@.len(),
    ensures
        match old(session).file {
            Some(f) => {
                &&& final(session).file matches Some(g) && g.primary@ == f.primary@.remove(
                    idx as int,
                ) && g == (PapptFile { primary: g.primary, ..f })
                &&& *final(session) == (PapptSession {
                    file: final(session).file,
                    selected_primary_idx: None,
                    ..*old(session)
                })
            },
            None => *final(session) == *old(session),
        },
{
    match &mut session.file {
        Some(f) => {
            let _gone = f.primary.remove(idx);
            session.selected_primary_idx = None;
        },
        None => {},
    }
}

/// Adds a blank child, unless there are as many as there can be.
pub fn add_child(children: &mut Vec<PrimaryChild>)
    ensures
        if old(children)@.len() < MAX_CHILDREN {
            &&& final(children)@.len() == old(children)@.len() + 1
            &&& final(children)@.drop_last() == old(children)@
            &&& final(children)@.last().sub_key@.len() == 0
            &&& final(children)@.last().sub_flag == 0
        } else {
            *final(children) == *old(children)
        },
        old(children)@.len() <= MAX_CHILDREN ==> final(children)@.len() <= MAX_CHILDREN,
{
    if children.len() < MAX_CHILDREN {
        let ghost c0 = children@;
        children.push(PrimaryChild::default());
        assert(children@.drop_last() =~= c0);
    }
}

/// Removes a child.
pub fn remove_child(children: &mut Vec<PrimaryChild>, i: usize)
    requires
        i < old(children)@.len(),
    ensures
        final(children)@ == old(children)@.remove(i as int),
{
    let _gone = children.remove(i);
}

/// Adds a blank pair of aliases.
pub fn new_secondary(session: &mut PapptSession)
    ensures
        match old(session).file {
            Some(f) => {
                &&& final(session).file matches Some(g) && {
                    &&& g.secondary@.len() == f.secondary@.len() + 1
                    &&& g.secondary@.drop_last() == f.secondary@
                    &&& blank_secondary(g.secondary@.last())
                    &&& g == (PapptFile { secondary: g.secondary, ..f })
                }
                &&& *final(session) == (PapptSession { file: final(session).file, ..*old(session) })
            },
            None => *final(session) == *old(session),
        },
{
    match &mut session.file {
        Some(f) => {
            let ghost s0 = f.secondary@;
            f.secondary.push(SecondaryEntry::default());
            assert(f.secondary@.drop_last() =~= s0);
        },
        None => {},
    }
}

/// Removes a pair of aliases.
pub fn remove_secondary(file: &mut PapptFile, i: usize)
    requires
        i < old(file).secondary@.len(),
    ensures
        final(file).secondary@ == old(file).secondary@.remove(i as int),
        *final(file) == (PapptFile { secondary: final(file).secondary, ..*old(file) }),
{
    let _gone = file.secondary.remove(i);
}

/// A flag as it is shown.
pub fn flag_text(flag: u8) -> (r: String)
    ensures
        r@ == "0x"@ + hex_pad(flag as nat, 2, false),
{
    let mut s = "0x".to_owned();
    push_hex(&mut s, flag as u64, 2, false);
    s
}

/// The first `k` characters are as many as fit into `n` bytes.
pub open spec fn as_many_as_fit(s: Seq<char>, n: nat, k: int) -> bool {
    &&& 0 <= k <= s.len()
    &&& byte_len(s.take(k)) <= n
    &&& k < s.len() ==> byte_len(s.take(k + 1)) > n
}

/// Cuts an edited text to the bytes that the file can hold, at a whole character.
pub fn cap_pstr(value: &mut String)
    ensures
        exists|k: int| #[trigger]
            as_many_as_fit(old(value)@, MAX_PSTR_BYTES as nat, k) && final(value)@ == old(
                value,
            )@.take(k),
        byte_len(final(value)@) <= MAX_PSTR_BYTES,
{
    let ghost v0 = value@;
    let ghost mut k: int = v0.len() as int;
    assert(v0.take(k) =~= v0);
    while longer_than(value.as_str(), MAX_PSTR_BYTES)
        invariant
            0 <= k <= v0.len(),
            value@ == v0.take(k),
            k < v0.len() ==> byte_len(v0.take(k + 1)) > MAX_PSTR_BYTES,
        ensures
            byte_len(value@) <= MAX_PSTR_BYTES,
            0 <= k <= v0.len(),
            value@ == v0.take(k),
            k < v0.len() ==> byte_len(v0.take(k + 1)) > MAX_PSTR_BYTES,
        decreases k,
    {
        proof {
            if value@.len() == 0 {
                assert(value@ =~= Seq::<char>::empty());
            }
        }
        let _last = value.pop();
        proof {
            k = k - 1;
            assert(value@ =~= v0.take(k));
        }
    }
    assert(as_many_as_fit(v0, MAX_PSTR_BYTES as nat, k));
}

/// A text that fits stays as it was typed.
pub proof fn law_fitting_text_is_kept(s: Seq<char>, k: int)
    requires
        byte_len(s) <= MAX_PSTR_BYTES,
        as_many_as_fit(s, MAX_PSTR_BYTES as nat, k),
    ensures
        s.take(k) == s,
{
    crate::text::lemma_byte_len_take(s, k, s.len() as int);
    assert(s.take(s.len() as int) =~= s);
    if k < s.len() {
        crate::text::lemma_byte_len_take(s, k + 1, s.len() as int);
    }
}

/// The line on the number of entries.
pub fn primary_line(file: &PapptFile) -> (r: String)
    ensures
        r@ == "Primary: "@ + dec(file.primary@.len()),
{
    let mut s = "Primary: ".to_owned();
    s.push_str(dec_usize(file.primary.len()).as_str());
    s
}

/// The line on the number of pairs of aliases.
pub fn secondary_line(file: &PapptFile) -> (r: String)
    ensures
        r@ == "Secondary: "@ + dec(file.secondary@.len()),
{
    let mut s = "Secondary: ".to_owned();
    s.push_str(dec_usize(file.secondary.len()).as_str());
    s
}

/// A file was read and parsed, or could not be.
pub open spec fn load_done(
    before: AppState,
    after: AppState,
    src: FileSource,
    result: Result<(PapptFile, Vec<u8>), LoadError>,
) -> bool {
    match result {
        Ok((file, bytes)) => {
            &&& after.toasts@ == before.toasts@.push(loaded_note(src))
            &&& after == (AppState {
                toasts: after.toasts,
                pappt: PapptSession {
                    file: Some(file),
                    current_entry: entry_of(src),
                    vanilla_bytes: Some(bytes),
                    selected_primary_idx: None,
                    ..before.pappt
                },
                ..before
            })
        },
        Err(e) => {
            &&& after.toasts@ == before.toasts@.push(load_failed_note("PAPPT"@, src, e))
            &&& after == (AppState { toasts: after.toasts, ..before })
        },
    }
}

/// Takes over a file that was read and parsed, from the archives or from disk,
/// or says why it could not be. What was loaded stays where it fails.
fn load_file(
    state: &mut AppState,
    src: FileSource,
    result: Result<(PapptFile, Vec<u8>), LoadError>,
)
    ensures
        load_done(*old(state), *final(state), src, result),
{
    match result {
        Ok(p) => {
            let (file, bytes) = p;
            report_loaded(&mut state.toasts, &src);
            state.pappt.file = Some(file);
            state.pappt.current_entry = src.into_entry();
            state.pappt.vanilla_bytes = Some(bytes);
            state.pappt.selected_primary_idx = None;
        },
        Err(e) => {
            report_load_failed(&mut state.toasts, "PAPPT", &src, &e);
        },
    }
}

/// Takes over a file of the archives that was read and parsed, or says why it
/// could not be.
pub fn load_pappt_from_paz(
    state: &mut AppState,
    entry: &PazEntry,
    result: Result<(PapptFile, Vec<u8>), LoadError>,
)
    ensures
        load_done(*old(state), *final(state), FileSource::Archive(*entry), result),
{
    load_file(state, FileSource::Archive(entry.copy()), result);
}

/// Takes over a file on disk that was read and parsed, or says why it could not
/// be. It has no entry in the archives.
pub fn load_pappt_from_path(
    state: &mut AppState,
    path: &String,
    result: Result<(PapptFile, Vec<u8>), LoadError>,
)
    ensures
        load_done(*old(state), *final(state), FileSource::Disk(*path), result),
{
    load_file(state, FileSource::Disk(path.clone()), result);
}

/// The game directory to load a file from. Where none is set, that is said.
pub fn load_dir(state: &mut AppState) -> (r: Option<String>)
    ensures
        r == old(state).game_dir,
        r is Some ==> *final(state) == *old(state),
        r is None ==> final(state).toasts@ == old(state).toasts@.push(
            warn_note("Set the Game Directory first."@),
        ) && *final(state) == (AppState { toasts: final(state).toasts, ..*old(state) }),
{
    dir_or_warn(state, "Set the Game Directory first.")
}

/// Takes over the files that were found in the archives, or says why there are
/// none. Nothing was looked for without a game directory.
pub fn browse_done(state: &mut AppState, found: Option<Result<Vec<PazEntry>, String>>)
    ensures
        final(state).toasts@ == old(state).toasts@.push(scan_note(".pappt"@, found)),
        *final(state) == (AppState {
            toasts: final(state).toasts,
            pappt: PapptSession {
                paz_files: match found {
                    Some(Ok(files)) => Some(files),
                    _ => old(state).pappt.paz_files,
                },
                ..old(state).pappt
            },
            ..*old(state)
        }),
{
    report_scan(&mut state.toasts, &mut state.pappt.paz_files, ".pappt", found);
}

/// Takes a waiting search hit for this editor out of the queue, and gives the
/// file to load for it, unless that is loaded.
pub fn consume_pending_nav(state: &mut AppState) -> (r: Option<PazEntry>)
    ensures
        r == nav_load(
            old(state).pending_global_nav,
            FileEditor::Pappt,
            old(state).pappt.current_entry,
        ),
        *final(state) == (AppState {
            pending_global_nav: if nav_file(
                old(state).pending_global_nav,
                FileEditor::Pappt,
            ) is Some {
                None
            } else {
                old(state).pending_global_nav
            },
            ..*old(state)
        }),
{
    take_nav(
        &mut state.pending_global_nav,
        FileEditor::Pappt,
        &state.pappt.current_entry,
    )
}

/// A deploy can be asked for.
pub open spec fn ready(s: AppState) -> bool {
    deployable(s.pappt.file is Some, s.pappt.current_entry, s.game_dir)
}

/// Whether a deploy can be asked for: a file is loaded, it came from the
/// archives, and a game directory is set.
pub fn can_apply(state: &AppState) -> (r: bool)
    ensures
        r == ready(*state),
{
    state.pappt.file.is_some() && state.pappt.current_entry.is_some() && state.game_dir.is_some()
}

/// What a deploy needs, where it can be asked for.
pub fn apply_request(state: &AppState) -> (r: Option<DeployRequest>)
    ensures
        r == if ready(*state) {
            Some(
                DeployRequest {
                    game_dir: state.game_dir->Some_0,
                    entry: state.pappt.current_entry->Some_0,
                    group: state.pappt.overlay_group,
                },
            )
        } else {
            None
        },
{
    deploy_request(
        state.pappt.file.is_some(),
        &state.pappt.current_entry,
        &state.game_dir,
        &state.pappt.overlay_group,
    )
}

/// Reports a deploy.
pub fn apply_to_game(state: &mut AppState, request: &DeployRequest, result: &Result<(), String>)
    ensures
        final(state).toasts@ == old(state).toasts@.push(
            deploy_note("PAPPT"@, request.entry.filename@, request.group@, *result),
        ),
        *final(state) == (AppState { toasts: final(state).toasts, ..*old(state) }),
{
    report_deploy(
        &mut state.toasts,
        "PAPPT",
        request.entry.filename.as_str(),
        request.group.as_str(),
        result,
    );
}

/// The game directory and the overlay group to remove, where a game directory is set.
pub fn restore_request(state: &AppState) -> (r: Option<(String, String)>)
    ensures
        r == match state.game_dir {
            Some(d) => Some((d, state.pappt.overlay_group)),
            None => None,
        },
{
    match &state.game_dir {
        Some(d) => Some((d.clone(), state.pappt.overlay_group.clone())),
        None => None,
    }
}

/// Reports that the overlay group was removed, or why it was not.
pub fn restore_overlay(state: &mut AppState, group: &str, result: &Result<(), String>)
    ensures
        final(state).toasts@ == old(state).toasts@.push(restore_note("PAPPT"@, group@, *result)),
        *final(state) == (AppState { toasts: final(state).toasts, ..*old(state) }),
{
    report_restore(&mut state.toasts, "PAPPT", group, result);
}

/// Reports that the file was written to disk, or why it was not.
pub fn save_pappt_to_disk(state: &mut AppState, path: &str, result: &Result<(), String>)
    ensures
        final(state).toasts@ == old(state).toasts@.push(save_note(path@, *result)),
        *final(state) == (AppState { toasts: final(state).toasts, ..*old(state) }),
{
    report_save(&mut state.toasts, path, result);
}

} // verus!
