//! The editor of sequencer and stage files: byte patches, and two ready-made
//! changes.

use vstd::prelude::*;
use crate::byte_patch::{
    add_draft, has_patches, patch_added, preview_note, report_loaded, report_preview, report_saved,
    BytePatchDoc, Drafted, PatchDraft,
};
use crate::digits::{dec, dec_usize};
use crate::paz_file::{dir_or_warn, PazEntry};
use crate::state::{failure_note, info_note, warn_note, AppState, Note};
use crate::text::{after_last, behind_last, concat2, concat3};
use crate::ui::hex_view::HexViewState;

verus! {

broadcast use vstd::seq_lib::group_seq_properties;

/// The overlay group that changes are deployed to at first.
pub const DEFAULT_OVERLAY_GROUP: &'static str = "0068";

/// The modes of the editor.
#[derive(Clone, Copy, Debug, PartialEq, Eq, Structural)]
pub enum PaseqMode {
    Editor,
    SleepMod,
    NpcSwap,
}

impl Default for PaseqMode {
    fn default() -> (r: Self)
        ensures
            r is Editor,
    {
        PaseqMode::Editor
    }
}

/// What a mode is for.
pub fn mode_text(mode: PaseqMode) -> (r: &'static str)
    ensures
        r@ == match mode {
            PaseqMode::Editor => "Byte-level editor for sequencer files. Browse PAZ, build find/replace patches, deploy as overlay. Load/save patch JSON for sharing."@,
            PaseqMode::SleepMod => "Apply the well-known sleep cooldown removal preset (False → True )."@,
            PaseqMode::NpcSwap => "Swap one NPC's sequencer files into another NPC's filenames."@,
        },
{
    match mode {
        PaseqMode::Editor => "Byte-level editor for sequencer files. Browse PAZ, build find/replace patches, deploy as overlay. Load/save patch JSON for sharing.",
        PaseqMode::SleepMod => "Apply the well-known sleep cooldown removal preset (False → True ).",
        PaseqMode::NpcSwap => "Swap one NPC's sequencer files into another NPC's filenames.",
    }
}

/// A character with sequencer files.
#[derive(Debug)]
pub struct NpcEntry {
    pub stem: String,
    pub dir_path: String,
    pub display_name: String,
}

impl NpcEntry {
    fn copy(&self) -> (r: NpcEntry)
        ensures
            r == *self,
    {
        NpcEntry {
            stem: self.stem.clone(),
            dir_path: self.dir_path.clone(),
            display_name: self.display_name.clone(),
        }
    }
}

/// What the editor keeps.
#[derive(Debug)]
pub struct PaseqSession {
    pub mode: PaseqMode,
    /// The files in the archives, once they were looked for.
    pub paz_files: Option<Vec<PazEntry>>,
    pub paz_filter: String,
    pub file_bytes: Option<Vec<u8>>,
    pub current_entry: Option<PazEntry>,
    pub patch_doc: Option<BytePatchDoc>,
    pub hex_state: HexViewState,
    pub draft: PatchDraft,
    pub last_patch_path: Option<String>,
    pub overlay_group: String,
    pub npc_list: Vec<NpcEntry>,
    pub selected_source: Option<usize>,
    pub selected_target: Option<usize>,
}

impl PaseqSession {
    /// As it is when the workbench starts.
    pub open spec fn is_fresh(&self) -> bool {
        &&& self.mode is Editor
        &&& self.paz_files is None
        &&& self.paz_filter@.len() == 0
        &&& self.file_bytes is None
        &&& self.current_entry is None
        &&& self.patch_doc is None
        &&& self.hex_state == (HexViewState {
            page: 0,
            bytes_per_page: 1024,
            selected_offset: None,
        })
        &&& self.draft.is_blank()
        &&& self.last_patch_path is None
        &&& self.overlay_group@ == DEFAULT_OVERLAY_GROUP@
        &&& self.npc_list@.len() == 0
        &&& self.selected_source is None
        &&& self.selected_target is None
    }
}

impl Default for PaseqSession {
    fn default() -> (r: Self)
        ensures
            r.is_fresh(),
    {
        PaseqSession {
            mode: PaseqMode::default(),
            paz_files: None,
            paz_filter: String::new(),
            file_bytes: None,
            current_entry: None,
            patch_doc: None,
            hex_state: HexViewState::default(),
            draft: PatchDraft::default(),
            last_patch_path: None,
            overlay_group: DEFAULT_OVERLAY_GROUP.to_owned(),
            npc_list: Vec::new(),
            selected_source: None,
            selected_target: None,
        }
    }
}

/// Takes over the files that were found in the archives, or says why they could
/// not be looked for. Nothing was looked for without a game directory.
pub fn browse_done(state: &mut AppState, found: Option<Result<Vec<PazEntry>, String>>)
    ensures
        final(state).toasts@ == old(state).toasts@.push(
            match found {
                None => warn_note("Set the Game Directory first."@),
                Some(Ok(files)) => info_note(
                    "Found "@ + dec(files@.len()) + " sequencer file(s)."@,
                ),
                Some(Err(e)) => failure_note("PAZ scan failed"@, e@),
            },
        ),
        *final(state) == (AppState {
            toasts: final(state).toasts,
            paseq: PaseqSession {
                paz_files: match found {
                    Some(Ok(files)) => Some(files),
                    _ => old(state).paseq.paz_files,
                },
                ..old(state).paseq
            },
            ..*old(state)
        }),
{
    match found {
        None => {
            state.toasts.warn("Set the Game Directory first.");
        },
        Some(r) => match r {
            Ok(files) => {
                let m = concat3("Found ", dec_usize(files.len()).as_str(), " sequencer file(s).");
                state.paseq.paz_files = Some(files);
                state.toasts.info(m.as_str());
            },
            Err(e) => {
                state.toasts.error_with_details("PAZ scan failed", e.as_str());
            },
        },
    }
}

/// The line on the file that is loaded.
pub fn loaded_line(e: &PazEntry) -> (r: String)
    ensures
        r@ == "Loaded: "@ + e.filename@ + " ("@ + e.dir_path@ + ")  [."@ + after_last(
            e.filename@,
            '.',
        ) + "]"@,
{
    let mut s = "Loaded: ".to_owned();
    s.push_str(e.filename.as_str());
    s.push_str(" (");
    s.push_str(e.dir_path.as_str());
    s.push_str(")  [.");
    s.push_str(behind_last(e.filename.as_str(), '.').as_str());
    s.push_str("]");
    s
}

/// The game directory to load a file from. Where none is set, that is said.
pub fn load_dir(state: &mut AppState) -> (r: Option<String>)
    ensures
        r == old(state).game_dir,
        r is Some ==> *final(state) == *old(state),
        r is None ==> final(state).toasts@ == old(state).toasts@.push(
            warn_note("Set the Game Directory first."@),
        ) && *final(state) == (AppState { toasts: final(state).toasts, ..*old(state) }),
{
    dir_or_warn(state, "Set the Game Directory first.")
}

/// A file was read, or could not be.
pub open spec fn file_loaded(
    before: AppState,
    after: AppState,
    entry: PazEntry,
    result: Result<Vec<u8>, String>,
) -> bool {
    match result {
        Ok(bytes) => {
            &&& after.paseq.patch_doc matches Some(d) && d.dir_path == entry.dir_path && d.filename
                == entry.filename && d.description@.len() == 0 && d.patches@.len() == 0
            &&& after.toasts@ == before.toasts@.push(
                info_note("Loaded "@ + entry.filename@ + " ("@ + dec(bytes@.len()) + " bytes)"@),
            )
            &&& after == (AppState {
                toasts: after.toasts,
                paseq: PaseqSession {
                    file_bytes: Some(bytes),
                    current_entry: Some(entry),
                    hex_state: HexViewState {
                        page: 0,
                        bytes_per_page: 1024,
                        selected_offset: None,
                    },
                    patch_doc: after.paseq.patch_doc,
                    ..before.paseq
                },
                ..before
            })
        },
        Err(e) => {
            &&& after.toasts@ == before.toasts@.push(
                failure_note("PASEQ read failed"@, e@ + "\nFile: "@ + entry.filename@),
            )
            &&& after == (AppState { toasts: after.toasts, ..before })
        },
    }
}

/// Takes over a file that was read, or says why it could not be.
pub fn load_paseq_from_paz(
    state: &mut AppState,
    entry: &PazEntry,
    result: Result<Vec<u8>, String>,
)
    ensures
        file_loaded(*old(state), *final(state), *entry, result),
{
    match result {
        Ok(bytes) => {
            let mut m = "Loaded ".to_owned();
            m.push_str(entry.filename.as_str());
            m.push_str(" (");
            m.push_str(dec_usize(bytes.len()).as_str());
            m.push_str(" bytes)");
            state.paseq.file_bytes = Some(bytes);
            state.paseq.current_entry = Some(entry.copy());
            state.paseq.hex_state = HexViewState::default();
            state.paseq.patch_doc = Some(
                BytePatchDoc::new(entry.dir_path.clone(), entry.filename.clone()),
            );
            state.toasts.info(m.as_str());
        },
        Err(e) => {
            let d = concat3(e.as_str(), "\nFile: ", entry.filename.as_str());
            state.toasts.error_with_details("PASEQ read failed", d.as_str());
        },
    }
}

/// Adds the drafted patch to the list, or says what is missing.
pub fn add_patch_from_draft(state: &mut AppState)
    ensures
        ({
            let before = old(state).paseq;
            let after = final(state).paseq;
            &&& exists|r: Drafted| #[trigger]
                patch_added(
                    (before.draft, after.draft),
                    (before.patch_doc, after.patch_doc),
                    (old(state).toasts@, final(state).toasts@),
                    r,
                )
            &&& *final(state) == (AppState {
                toasts: final(state).toasts,
                paseq: PaseqSession {
                    draft: after.draft,
                    patch_doc: after.patch_doc,
                    ..before
                },
                ..*old(state)
            })
        }),
{
    add_draft(
        &mut state.paseq.draft,
        &mut state.paseq.patch_doc,
        &mut state.toasts,
    );
}

/// Whether the patches can be deployed.
pub fn can_deploy(state: &AppState) -> (r: bool)
    ensures
        r == (state.game_dir is Some && (state.paseq.patch_doc matches Some(d)
            && d.patches@.len() > 0)),
{
    state.game_dir.is_some() && has_patches(&state.paseq.patch_doc)
}

/// The game directory and the overlay group to deploy the patches to, where
/// there are a directory and a list of patches.
pub fn deploy_request(state: &AppState) -> (r: Option<(String, String)>)
    ensures
        match (state.game_dir, state.paseq.patch_doc) {
            (Some(d), Some(_)) => r == Some((d, state.paseq.overlay_group)),
            _ => r is None,
        },
{
    match (&state.game_dir, &state.paseq.patch_doc) {
        (Some(d), Some(_)) => Some((d.clone(), state.paseq.overlay_group.clone())),
        _ => None,
    }
}

/// What is said when the patches were deployed to a group, or could not be.
pub open spec fn deploy_note(group: Seq<char>, result: Result<(), String>) -> Note {
    match result {
        Ok(_) => info_note(
            "Deployed PASEQ overlay to group "@ + group + ". Restart the game."@,
        ),
        Err(e) => failure_note(
            "PASEQ deploy failed"@,
            e@ + "\nGroup: "@ + group,
        ),
    }
}

/// Says how the deploy of the patches went.
pub fn apply_editor_patches(state: &mut AppState, group: &str, result: &Result<(), String>)
    ensures
        final(state).toasts@ == old(state).toasts@.push(deploy_note(group@, *result)),
        *final(state) == (AppState { toasts: final(state).toasts, ..*old(state) }),
{
    match result {
        Ok(_) => {
            let m = concat3(
                "Deployed PASEQ overlay to group ",
                group,
                ". Restart the game.",
            );
            state.toasts.info(m.as_str());
        },
        Err(e) => {
            let d = concat3(e.as_str(), "\nGroup: ", group);
            state.toasts.error_with_details("PASEQ deploy failed", d.as_str());
        },
    }
}

/// Says how many bytes the patches change. `out` is the content with the
/// patches applied, or why they cannot be.
pub fn preview_patches(state: &mut AppState, out: &Result<Vec<u8>, String>)
    ensures
        final(state).toasts@ == match (
            old(state).paseq.file_bytes,
            old(state).paseq.patch_doc,
        ) {
            (Some(b), Some(d)) => old(state).toasts@.push(
                preview_note(b@, d.patches@.len(), *out),
            ),
            _ => old(state).toasts@,
        },
        *final(state) == (AppState { toasts: final(state).toasts, ..*old(state) }),
{
    report_preview(
        &state.paseq.file_bytes,
        &state.paseq.patch_doc,
        out,
        &mut state.toasts,
    );
}

/// Says how the saving of the patches to a file went. An error says whether the
/// file was being written.
pub fn save_patch_doc(state: &mut AppState, path: &String, result: &Result<(), (bool, String)>)
    ensures
        final(state).paseq.last_patch_path == match *result {
            Ok(_) => Some(*path),
            Err(_) => old(state).paseq.last_patch_path,
        },
        final(state).toasts@ == old(state).toasts@.push(
            match *result {
                Ok(_) => info_note("Saved patch to "@ + path@),
                Err((written, e)) => if written {
                    failure_note("Write failed"@, e@ + "\nPath: "@ + path@)
                } else {
                    failure_note("Serialize failed"@, e@)
                },
            },
        ),
        *final(state) == (AppState {
            toasts: final(state).toasts,
            paseq: PaseqSession {
                last_patch_path: final(state).paseq.last_patch_path,
                ..old(state).paseq
            },
            ..*old(state)
        }),
{
    report_saved(
        &mut state.paseq.last_patch_path,
        &mut state.toasts,
        path,
        result,
    );
}

/// Takes over patches that were read from a file, or says why they could not be.
/// An error says whether the file itself was read.
pub fn load_patch_doc(
    state: &mut AppState,
    path: &String,
    result: Result<BytePatchDoc, (bool, String)>,
)
    ensures
        match result {
            Ok(d) => {
                &&& final(state).toasts@ == old(state).toasts@.push(
                    info_note("Loaded patch JSON: "@ + path@),
                )
                &&& *final(state) == (AppState {
                    toasts: final(state).toasts,
                    paseq: PaseqSession {
                        patch_doc: Some(d),
                        last_patch_path: Some(*path),
                        ..old(state).paseq
                    },
                    ..*old(state)
                })
            },
            Err((was_read, e)) => {
                &&& final(state).toasts@ == old(state).toasts@.push(
                    failure_note(
                        if was_read {
                            "Patch JSON parse failed"@
                        } else {
                            "Read failed"@
                        },
                        e@ + "\nPath: "@ + path@,
                    ),
                )
                &&& *final(state) == (AppState { toasts: final(state).toasts, ..*old(state) })
            },
        },
{
    report_loaded(
        &mut state.paseq.patch_doc,
        &mut state.paseq.last_patch_path,
        &mut state.toasts,
        path,
        result,
    );
}

/// The game directory for a ready-made change. Where none is set, that is said.
pub fn preset_dir(state: &mut AppState) -> (r: Option<String>)
    ensures
        r == old(state).game_dir,
        r is Some ==> *final(state) == *old(state),
        r is None ==> final(state).toasts@ == old(state).toasts@.push(
            warn_note("Set the game directory first."@),
        ) && *final(state) == (AppState { toasts: final(state).toasts, ..*old(state) }),
{
    dir_or_warn(state, "Set the game directory first.")
}

/// What is said when the cooldown of sleep was removed, or could not be.
pub open spec fn sleep_note(result: Result<(), String>) -> (Seq<char>, Note) {
    match result {
        Ok(_) => {
            let m = "Sleep mod deployed to "@ + DEFAULT_OVERLAY_GROUP@ + "/. Restart the game."@;
            (m, info_note(m))
        },
        Err(e) => ("Sleep mod failed: "@ + e@, failure_note("Sleep mod failed"@, e@)),
    }
}

/// Says how the removal of the cooldown of sleep went.
pub fn apply_sleep(state: &mut AppState, result: &Result<(), String>)
    ensures
        final(state).status@ == sleep_note(*result).0,
        final(state).toasts@ == old(state).toasts@.push(sleep_note(*result).1),
        *final(state) == (AppState {
            status: final(state).status,
            toasts: final(state).toasts,
            ..*old(state)
        }),
{
    match result {
        Ok(_) => {
            let m = concat3(
                "Sleep mod deployed to ",
                DEFAULT_OVERLAY_GROUP,
                "/. Restart the game.",
            );
            state.toasts.info(m.as_str());
            state.status = m;
        },
        Err(e) => {
            state.status = concat2("Sleep mod failed: ", e.as_str());
            state.toasts.error_with_details("Sleep mod failed", e.as_str());
        },
    }
}

/// Takes over the characters that were found, or says why they could not be
/// looked for. None is chosen then.
pub fn scan_npcs(state: &mut AppState, result: Result<Vec<NpcEntry>, String>)
    ensures
        match result {
            Ok(list) => {
                &&& final(state).toasts@ == old(state).toasts@.push(
                    info_note("Found "@ + dec(list@.len()) + " NPCs"@),
                )
                &&& *final(state) == (AppState {
                    toasts: final(state).toasts,
                    paseq: PaseqSession {
                        npc_list: list,
                        selected_source: None,
                        selected_target: None,
                        ..old(state).paseq
                    },
                    ..*old(state)
                })
            },
            Err(e) => {
                &&& final(state).toasts@ == old(state).toasts@.push(
                    failure_note("NPC scan failed"@, e@),
                )
                &&& *final(state) == (AppState { toasts: final(state).toasts, ..*old(state) })
            },
        },
{
    match result {
        Ok(list) => {
            let m = concat3("Found ", dec_usize(list.len()).as_str(), " NPCs");
            state.paseq.npc_list = list;
            state.paseq.selected_source = None;
            state.paseq.selected_target = None;
            state.toasts.info(m.as_str());
        },
        Err(e) => {
            state.toasts.error_with_details("NPC scan failed", e.as_str());
        },
    }
}

/// The label of a character.
pub open spec fn npc_text(e: NpcEntry) -> Seq<char> {
    e.display_name@ + "  ["@ + e.stem@ + "]"@
}

/// The label of a character.
pub fn npc_label(e: &NpcEntry) -> (r: String)
    ensures
        r@ == npc_text(*e),
{
    let mut s = e.display_name.clone();
    s.push_str("  [");
    s.push_str(e.stem.as_str());
    s.push_str("]");
    s
}

/// The label of the character that is chosen.
pub fn chosen_label(npcs: &Vec<NpcEntry>, selected: Option<usize>) -> (r: String)
    ensures
        r@ == match selected {
            Some(i) => if i < npcs@.len() {
                npc_text(npcs@[i as int])
            } else {
                "<missing>"@
            },
            None => "<choose>"@,
        },
{
    match selected {
        Some(i) => if i < npcs.len() {
            npc_label(&npcs[i])
        } else {
            "<missing>".to_owned()
        },
        None => "<choose>".to_owned(),
    }
}

/// A character that is chosen and there.
pub open spec fn chosen(npcs: Seq<NpcEntry>, selected: Option<usize>) -> Option<NpcEntry> {
    match selected {
        Some(i) => if i < npcs.len() {
            Some(npcs[i as int])
        } else {
            None
        },
        None => None,
    }
}

/// The line on what a swap would do, where both characters are there.
pub fn swap_line(s: &PaseqSession) -> (r: Option<String>)
    ensures
        match (chosen(s.npc_list@, s.selected_source), chosen(s.npc_list@, s.selected_target)) {
            (Some(a), Some(b)) => r matches Some(t) && t@ == "Will copy `"@ + a.stem@
                + "` files into `"@ + b.stem@ + "`."@,
            _ => r is None,
        },
{
    match (s.selected_source, s.selected_target) {
        (Some(i), Some(j)) => if i < s.npc_list.len() && j < s.npc_list.len() {
            let mut t = "Will copy `".to_owned();
            t.push_str(s.npc_list[i].stem.as_str());
            t.push_str("` files into `");
            t.push_str(s.npc_list[j].stem.as_str());
            t.push_str("`.");
            Some(t)
        } else {
            None
        },
        _ => None,
    }
}

/// Whether a swap can be asked for.
pub fn can_swap(state: &AppState) -> (r: bool)
    ensures
        r == (state.game_dir is Some && state.paseq.selected_source is Some
            && state.paseq.selected_target is Some && state.paseq.selected_source
            != state.paseq.selected_target),
{
    match (state.paseq.selected_source, state.paseq.selected_target) {
        (Some(a), Some(b)) => state.game_dir.is_some() && a != b,
        _ => false,
    }
}

/// What a swap needs. It is deployed to the overlay group of this editor.
#[derive(Debug)]
pub struct SwapRequest {
    pub game_dir: String,
    pub source: NpcEntry,
    pub target: NpcEntry,
}

/// Why there is no swap.
pub open spec fn swap_refusal(s: AppState) -> Option<Seq<char>> {
    if s.game_dir is None {
        Some("Set the game directory first."@)
    } else if s.paseq.selected_source is None || s.paseq.selected_target is None
        || s.paseq.selected_source == s.paseq.selected_target {
        Some("Pick distinct source and target NPCs."@)
    } else if chosen(s.paseq.npc_list@, s.paseq.selected_source) is None || chosen(
        s.paseq.npc_list@,
        s.paseq.selected_target,
    ) is None {
        Some("Selected NPCs are no longer available — re-scan."@)
    } else {
        None
    }
}

/// What a swap of the two chosen characters needs, or why there is none.
pub fn swap_request(state: &mut AppState) -> (r: Option<SwapRequest>)
    ensures
        match swap_refusal(*old(state)) {
            None => {
                let s = old(state).paseq;
                &&& r == Some(
                    SwapRequest {
                        game_dir: old(state).game_dir->Some_0,
                        source: s.npc_list@[s.selected_source->Some_0 as int],
                        target: s.npc_list@[s.selected_target->Some_0 as int],
                    },
                )
                &&& *final(state) == *old(state)
            },
            Some(m) => {
                &&& r is None
                &&& final(state).toasts@ == old(state).toasts@.push(warn_note(m))
                &&& *final(state) == (AppState { toasts: final(state).toasts, ..*old(state) })
            },
        },
{
    let game_dir = match &state.game_dir {
        Some(d) => d.clone(),
        None => {
            state.toasts.warn("Set the game directory first.");
            return None;
        },
    };
    match (state.paseq.selected_source, state.paseq.selected_target) {
        (Some(a), Some(b)) => {
            if a == b {
                state.toasts.warn("Pick distinct source and target NPCs.");
                None
            } else if a < state.paseq.npc_list.len() && b < state.paseq.npc_list.len() {
                Some(
                    SwapRequest {
                        game_dir,
                        source: state.paseq.npc_list[a].copy(),
                        target: state.paseq.npc_list[b].copy(),
                    },
                )
            } else {
                state.toasts.warn("Selected NPCs are no longer available — re-scan.");
                None
            }
        },
        _ => {
            state.toasts.warn("Pick distinct source and target NPCs.");
            None
        },
    }
}

/// Says how a swap went.
pub fn apply_swap(state: &mut AppState, request: &SwapRequest, result: &Result<(), String>)
    ensures
        final(state).toasts@ == old(state).toasts@.push(
            match *result {
                Ok(_) => info_note(
                    "Swap deployed: "@ + request.source.display_name@ + " -> "@
                        + request.target.display_name@ + " ("@ + DEFAULT_OVERLAY_GROUP@
                        + "/). Restart the game."@,
                ),
                Err(e) => failure_note("Swap failed"@, e@),
            },
        ),
        *final(state) == (AppState { toasts: final(state).toasts, ..*old(state) }),
{
    match result {
        Ok(_) => {
            let mut m = "Swap deployed: ".to_owned();
            m.push_str(request.source.display_name.as_str());
            m.push_str(" -> ");
            m.push_str(request.target.display_name.as_str());
            m.push_str(" (");
            m.push_str(DEFAULT_OVERLAY_GROUP);
            m.push_str("/). Restart the game.");
            state.toasts.info(m.as_str());
        },
        Err(e) => {
            state.toasts.error_with_details("Swap failed", e.as_str());
        },
    }
}

} // verus!
