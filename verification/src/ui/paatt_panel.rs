//! The editor of projectile attributes.

use vstd::prelude::*;
use crate::digits::{dec, dec_usize, digits, hex_pad, push_digits, push_hex};
use crate::paz_file::{
    deploy_note, deploy_request, deployable, dir_or_warn, entry_of, load_failed_note, loaded_note,
    nav_file, nav_load, report_deploy, report_load_failed, report_loaded, report_restore,
    report_save, report_scan, restore_note, save_note, scan_note, take_nav, DeployRequest,
    FileEditor, FileSource, LoadError, PazEntry,
};
use crate::state::{warn_note, AppState};
use crate::text::{has_prefix, starts_with};

verus! {

broadcast use vstd::seq_lib::group_seq_properties;

/// The modes of the editor.
#[derive(Clone, Copy, Debug, PartialEq, Eq, Structural)]
pub enum PaattMode {
    Editor,
}

impl Default for PaattMode {
    fn default() -> (r: Self)
        ensures
            r is Editor,
    {
        PaattMode::Editor
    }
}

/// The number of bytes before the body of a file.
pub const HEADER_LEN: usize = 8;

/// A file, with its edits.
#[derive(Debug)]
pub struct PaattFile {
    pub bytes: Vec<u8>,
}

/// What the editor keeps.
#[derive(Debug)]
pub struct PaattSession {
    pub mode: PaattMode,
    /// The files in the archives, once they were looked for.
    pub paz_files: Option<Vec<PazEntry>>,
    pub paz_filter: String,
    /// The entry of the file; none for one from disk.
    pub current_entry: Option<PazEntry>,
    pub file: Option<PaattFile>,
    /// The bytes of the file as it was loaded.
    pub vanilla_bytes: Option<Vec<u8>>,
    /// The offsets of the projectiles in the body of the file.
    pub entry_offsets: Vec<usize>,
    /// The projectile that is shown, by its place in `entry_offsets`.
    pub selected_entry_idx: Option<usize>,
    pub overlay_group: String,
}

impl PaattSession {
    /// As it is when the workbench starts.
    pub open spec fn is_fresh(&self) -> bool {
        &&& self.mode is Editor
        &&& self.paz_files is None
        &&& self.paz_filter@.len() == 0
        &&& self.current_entry is None
        &&& self.file is None
        &&& self.vanilla_bytes is None
        &&& self.entry_offsets@.len() == 0
        &&& self.selected_entry_idx is None
        &&& self.overlay_group@ == "0066"@
    }
}

impl Default for PaattSession {
    fn default() -> (r: Self)
        ensures
            r.is_fresh(),
    {
        PaattSession {
            mode: PaattMode::default(),
            paz_files: None,
            paz_filter: String::new(),
            current_entry: None,
            file: None,
            vanilla_bytes: None,
            entry_offsets: Vec::new(),
            selected_entry_idx: None,
            overlay_group: "0066".to_owned(),
        }
    }
}

/// Takes over the projectiles as they were found again. None is selected then.
pub fn rescan(session: &mut PaattSession, offsets: Vec<usize>)
    ensures
        *final(session) == if old(session).file is Some {
            PaattSession { entry_offsets: offsets, selected_entry_idx: None, ..*old(session) }
        } else {
            *old(session)
        },
{
    if session.file.is_some() {
        session.entry_offsets = offsets;
        session.selected_entry_idx = None;
    }
}

/// The line on the number of projectiles.
pub fn count_line(n: usize) -> (r: String)
    ensures
        r@ == dec(n as nat) + " physics entries detected"@,
{
    let mut s = dec_usize(n);
    s.push_str(" physics entries detected");
    s
}

/// `n` spaces.
pub open spec fn spaces(n: nat) -> Seq<char> {
    Seq::new(n, |i: int| ' ')
}

/// A text with spaces behind it, up to a width.
pub open spec fn padded(s: Seq<char>, width: nat) -> Seq<char> {
    s + spaces((if s.len() < width { width - s.len() } else { 0 }) as nat)
}

/// The label of a projectile: its number, and its offset in the file.
pub fn entry_label(i: usize, body_off: usize) -> (r: String)
    requires
        body_off <= usize::MAX - HEADER_LEN,
    ensures
        r@ == "Entry #"@ + padded(dec(i as nat), 4) + " @ +0x"@ + hex_pad(
            (body_off + HEADER_LEN) as nat,
            6,
            true,
        ),
{
    let number = dec_usize(i);
    let mut k: usize = crate::text::chars_of(number.as_str()).len();
    let mut s = "Entry #".to_owned();
    s.push_str(number.as_str());
    let ghost base = s@;
    let ghost k0 = k;
    assert(s@ =~= base + spaces(0));
    while k < 4
        invariant
            k0 <= k,
            k0 < 4 ==> k <= 4,
            k0 >= 4 ==> k == k0,
            s@ == base + spaces((k - k0) as nat),
        decreases 4 - k,
    {
        s.push(' ');
        k = k + 1;
        assert(s@ =~= base + spaces((k - k0) as nat));
    }
    assert(s@ =~= "Entry #"@ + padded(dec(i as nat), 4));
    s.push_str(" @ +0x");
    push_hex(&mut s, (body_off + HEADER_LEN) as u64, 6, true);
    s
}

/// What the detail of the selected projectile shows.
#[derive(Clone, Copy, Debug, PartialEq, Eq, Structural)]
pub enum EntryDetail {
    /// No projectile is selected.
    NothingSelected,
    /// No file is loaded.
    NoFile,
    /// The selection points at a projectile that is no longer there.
    Stale,
    /// A projectile, by its offset in the body.
    At(usize),
}

/// What the detail of the selected projectile shows.
pub fn entry_detail(session: &PaattSession) -> (r: EntryDetail)
    ensures
        r == match session.selected_entry_idx {
            None => EntryDetail::NothingSelected,
            Some(i) => if session.file is None {
                EntryDetail::NoFile
            } else if i >= session.entry_offsets@.len() {
                EntryDetail::Stale
            } else {
                EntryDetail::At(session.entry_offsets@[i as int])
            },
        },
{
    match session.selected_entry_idx {
        None => EntryDetail::NothingSelected,
        Some(i) => if session.file.is_none() {
            EntryDetail::NoFile
        } else if i >= session.entry_offsets.len() {
            EntryDetail::Stale
        } else {
            EntryDetail::At(session.entry_offsets[i])
        },
    }
}

/// The title of a projectile.
pub fn entry_title(i: usize, body_off: usize) -> (r: String)
    requires
        body_off <= usize::MAX - HEADER_LEN,
    ensures
        r@ == "Entry #"@ + dec(i as nat) + " — body offset 0x"@ + digits(
            body_off as nat,
            16,
            true,
        ) + " (file offset 0x"@ + digits((body_off + HEADER_LEN) as nat, 16, true) + ")"@,
{
    let mut s = "Entry #".to_owned();
    s.push_str(dec_usize(i).as_str());
    s.push_str(" — body offset 0x");
    push_digits(&mut s, body_off as u64, 16, true);
    s.push_str(" (file offset 0x");
    push_digits(&mut s, (body_off + HEADER_LEN) as u64, 16, true);
    s.push_str(")");
    s
}

/// Whether a field is the key of an item; the others are numbers of single precision.
pub fn is_key_field(name: &str) -> (r: bool)
    ensures
        r == has_prefix(name@, "spawnItemKey"@),
{
    starts_with(name, "spawnItemKey")
}

/// The offset of a field, which stands `rel` bytes from the offset of its
/// projectile. One below zero is shown as its two's complement.
pub fn field_offset_text(body_off: usize, rel: i64) -> (r: String)
    requires
        body_off <= i64::MAX,
        body_off + rel <= i64::MAX,
    ensures
        r@ == "+0x"@ + digits(
            (if body_off + rel < 0 {
                body_off + rel + 0x1_0000_0000_0000_0000
            } else {
                body_off + rel
            }) as nat,
            16,
            true,
        ),
{
    let mut s = "+0x".to_owned();
    let sum: i64 = body_off as i64 + rel;
    let n: u64 = if sum >= 0 {
        sum as u64
    } else {
        u64::MAX - (-(sum + 1)) as u64
    };
    push_digits(&mut s, n, 16, true);
    s
}

/// A file was read and parsed, or could not be.
pub open spec fn load_done(
    before: AppState,
    after: AppState,
    src: FileSource,
    result: Result<(PaattFile, Vec<u8>), LoadError>,
    offsets: Vec<usize>,
) -> bool {
    match result {
        Ok((file, bytes)) => {
            &&& after.toasts@ == before.toasts@.push(loaded_note(src))
            &&& after == (AppState {
                toasts: after.toasts,
                paatt: PaattSession {
                    file: Some(file),
                    current_entry: entry_of(src),
                    vanilla_bytes: Some(bytes),
                    entry_offsets: offsets,
                    selected_entry_idx: None,
                    ..before.paatt
                },
                ..before
            })
        },
        Err(e) => {
            &&& after.toasts@ == before.toasts@.push(load_failed_note("PAATT"@, src, e))
            &&& after == (AppState { toasts: after.toasts, ..before })
        },
    }
}

/// Takes over a file that was read and parsed, from the archives or from disk,
/// or says why it could not be. The offsets are those of its projectiles. What was
/// loaded stays where it fails.
fn load_file(
    state: &mut AppState,
    src: FileSource,
    result: Result<(PaattFile, Vec<u8>), LoadError>,
    offsets: Vec<usize>,
)
    ensures
        load_done(*old(state), *final(state), src, result, offsets),
{
    match result {
        Ok(p) => {
            let (file, bytes) = p;
            report_loaded(&mut state.toasts, &src);
            state.paatt.file = Some(file);
            state.paatt.current_entry = src.into_entry();
            state.paatt.vanilla_bytes = Some(bytes);
            state.paatt.entry_offsets = offsets;
            state.paatt.selected_entry_idx = None;
        },
        Err(e) => {
            report_load_failed(&mut state.toasts, "PAATT", &src, &e);
        },
    }
}

/// Takes over a file of the archives that was read and parsed, or says why it
/// could not be.
pub fn load_paatt_from_paz(
    state: &mut AppState,
    entry: &PazEntry,
    result: Result<(PaattFile, Vec<u8>), LoadError>,
    offsets: Vec<usize>,
)
    ensures
        load_done(*old(state), *final(state), FileSource::Archive(*entry), result, offsets),
{
    load_file(state, FileSource::Archive(entry.copy()), result, offsets);
}

/// Takes over a file on disk that was read and parsed, or says why it could not
/// be. It has no entry in the archives.
pub fn load_paatt_from_path(
    state: &mut AppState,
    path: &String,
    result: Result<(PaattFile, Vec<u8>), LoadError>,
    offsets: Vec<usize>,
)
    ensures
        load_done(*old(state), *final(state), FileSource::Disk(*path), result, offsets),
{
    load_file(state, FileSource::Disk(path.clone()), result, offsets);
}

/// The game directory to load a file from. Where none is set, that is said.
pub fn load_dir(state: &mut AppState) -> (r: Option<String>)
    ensures
        r == old(state).game_dir,
        r is Some ==> *final(state) == *old(state),
        r is None ==> final(state).toasts@ == old(state).toasts@.push(
            warn_note("Set the Game Directory first."@),
        ) && *final(state) == (AppState { toasts: final(state).toasts, ..*old(state) }),
{
    dir_or_warn(state, "Set the Game Directory first.")
}

/// Takes over the files that were found in the archives, or says why there are
/// none. Nothing was looked for without a game directory.
pub fn browse_done(state: &mut AppState, found: Option<Result<Vec<PazEntry>, String>>)
    ensures
        final(state).toasts@ == old(state).toasts@.push(scan_note(".paatt"@, found)),
        *final(state) == (AppState {
            toasts: final(state).toasts,
            paatt: PaattSession {
                paz_files: match found {
                    Some(Ok(files)) => Some(files),
                    _ => old(state).paatt.paz_files,
                },
                ..old(state).paatt
            },
            ..*old(state)
        }),
{
    report_scan(&mut state.toasts, &mut state.paatt.paz_files, ".paatt", found);
}

/// Takes a waiting search hit for this editor out of the queue, and gives the
/// file to load for it, unless that is loaded.
pub fn consume_pending_nav(state: &mut AppState) -> (r: Option<PazEntry>)
    ensures
        r == nav_load(
            old(state).pending_global_nav,
            FileEditor::Paatt,
            old(state).paatt.current_entry,
        ),
        *final(state) == (AppState {
            pending_global_nav: if nav_file(
                old(state).pending_global_nav,
                FileEditor::Paatt,
            ) is Some {
                None
            } else {
                old(state).pending_global_nav
            },
            ..*old(state)
        }),
{
    take_nav(
        &mut state.pending_global_nav,
        FileEditor::Paatt,
        &state.paatt.current_entry,
    )
}

/// A deploy can be asked for.
pub open spec fn ready(s: AppState) -> bool {
    deployable(s.paatt.file is Some, s.paatt.current_entry, s.game_dir)
}

/// Whether a deploy can be asked for: a file is loaded, it came from the
/// archives, and a game directory is set.
pub fn can_apply(state: &AppState) -> (r: bool)
    ensures
        r == ready(*state),
{
    state.paatt.file.is_some() && state.paatt.current_entry.is_some() && state.game_dir.is_some()
}

/// What a deploy needs, where it can be asked for.
pub fn apply_request(state: &AppState) -> (r: Option<DeployRequest>)
    ensures
        r == if ready(*state) {
            Some(
                DeployRequest {
                    game_dir: state.game_dir->Some_0,
                    entry: state.paatt.current_entry->Some_0,
                    group: state.paatt.overlay_group,
                },
            )
        } else {
            None
        },
{
    deploy_request(
        state.paatt.file.is_some(),
        &state.paatt.current_entry,
        &state.game_dir,
        &state.paatt.overlay_group,
    )
}

/// Reports a deploy.
pub fn apply_to_game(state: &mut AppState, request: &DeployRequest, result: &Result<(), String>)
    ensures
        final(state).toasts@ == old(state).toasts@.push(
            deploy_note("PAATT"@, request.entry.filename@, request.group@, *result),
        ),
        *final(state) == (AppState { toasts: final(state).toasts, ..*old(state) }),
{
    report_deploy(
        &mut state.toasts,
        "PAATT",
        request.entry.filename.as_str(),
        request.group.as_str(),
        result,
    );
}

/// The game directory and the overlay group to remove, where a game directory is set.
pub fn restore_request(state: &AppState) -> (r: Option<(String, String)>)
    ensures
        r == match state.game_dir {
            Some(d) => Some((d, state.paatt.overlay_group)),
            None => None,
        },
{
    match &state.game_dir {
        Some(d) => Some((d.clone(), state.paatt.overlay_group.clone())),
        None => None,
    }
}

/// Reports that the overlay group was removed, or why it was not.
pub fn restore_overlay(state: &mut AppState, group: &str, result: &Result<(), String>)
    ensures
        final(state).toasts@ == old(state).toasts@.push(restore_note("PAATT"@, group@, *result)),
        *final(state) == (AppState { toasts: final(state).toasts, ..*old(state) }),
{
    report_restore(&mut state.toasts, "PAATT", group, result);
}

/// Reports that the file was written to disk, or why it was not.
pub fn save_paatt_to_disk(state: &mut AppState, path: &str, result: &Result<(), String>)
    ensures
        final(state).toasts@ == old(state).toasts@.push(save_note(path@, *result)),
        *final(state) == (AppState { toasts: final(state).toasts, ..*old(state) }),
{
    report_save(&mut state.toasts, path, result);
}

} // verus!
