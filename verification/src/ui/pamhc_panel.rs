//! The editor of the collection of model-property headers: a list of numbers,
//! and four opaque sections.

use vstd::prelude::*;
use crate::digits::{
    dec, dec_usize, digit_value, hex_pad, law_padded_hex_reads_back, parse_unsigned, parsed, push_hex,
};
use crate::paz_file::{
    deploy_note, deploy_request, deployable, dir_or_warn, entry_of, load_failed_note, loaded_note,
    nav_file, nav_load, report_deploy, report_load_failed, report_loaded, report_restore,
    report_save, report_scan, restore_note, save_note, scan_note, take_nav, DeployRequest,
    FileEditor, FileSource, LoadError, PazEntry,
};
use crate::state::{warn_note, AppState};
use crate::text::{concat3, has_prefix, stripped, trim, trim_start_matches, trimmed};
use crate::ui::hex_view::HexViewState;

verus! {

broadcast use vstd::seq_lib::group_seq_properties;

/// The sections, one to a tab.
#[derive(Clone, Copy, Debug, PartialEq, Eq, Structural)]
pub enum PamhcTab {
    SectionA,
    SectionB,
    SectionC,
    SectionD,
    SectionE,
}

impl Default for PamhcTab {
    fn default() -> (r: Self)
        ensures
            r is SectionA,
    {
        PamhcTab::SectionA
    }
}

/// A file, as it was parsed, with its edits.
#[derive(Debug)]
pub struct PamhcFile {
    pub header: Vec<u8>,
    pub section_a_u32: Vec<u32>,
    pub section_b: Vec<u8>,
    pub section_c: Vec<u8>,
    pub section_d: Vec<u8>,
    pub section_e: Vec<u8>,
}

/// What the editor keeps.
#[derive(Debug)]
pub struct PamhcSession {
    pub tab: PamhcTab,
    /// The files in the archives, once they were looked for.
    pub paz_files: Option<Vec<PazEntry>>,
    pub paz_filter: String,
    /// The entry of the file; none for one from disk.
    pub current_entry: Option<PazEntry>,
    pub file: Option<PamhcFile>,
    /// The bytes of the file as it was loaded.
    pub vanilla_bytes: Option<Vec<u8>>,
    /// The numbers are shown in hexadecimal.
    pub section_a_hex: bool,
    pub hex_b: HexViewState,
    pub hex_c: HexViewState,
    pub hex_d: HexViewState,
    pub hex_e: HexViewState,
    pub overlay_group: String,
}

/// A view of bytes at its first page, with nothing selected.
pub open spec fn first_page() -> HexViewState {
    HexViewState { page: 0, bytes_per_page: 1024, selected_offset: None }
}

impl PamhcSession {
    /// As it is when the workbench starts.
    pub open spec fn is_fresh(&self) -> bool {
        &&& self.tab is SectionA
        &&& self.paz_files is None
        &&& self.paz_filter@.len() == 0
        &&& self.current_entry is None
        &&& self.file is None
        &&& self.vanilla_bytes is None
        &&& self.section_a_hex
        &&& self.hex_b == first_page()
        &&& self.hex_c == first_page()
        &&& self.hex_d == first_page()
        &&& self.hex_e == first_page()
        &&& self.overlay_group@ == "0072"@
    }
}

impl Default for PamhcSession {
    fn default() -> (r: Self)
        ensures
            r.is_fresh(),
    {
        PamhcSession {
            tab: PamhcTab::default(),
            paz_files: None,
            paz_filter: String::new(),
            current_entry: None,
            file: None,
            vanilla_bytes: None,
            section_a_hex: true,
            hex_b: HexViewState::default(),
            hex_c: HexViewState::default(),
            hex_d: HexViewState::default(),
            hex_e: HexViewState::default(),
            overlay_group: "0072".to_owned(),
        }
    }
}

/// The line on the section of numbers.
pub fn section_a_line(file: &PamhcFile) -> (r: String)
    requires
        file.section_a_u32@.len() * 4 <= usize::MAX,
    ensures
        r@ == "A: "@ + dec(file.section_a_u32@.len() * 4) + " ("@ + dec(file.section_a_u32@.len())
            + " entries)"@,
{
    let mut s = "A: ".to_owned();
    s.push_str(dec_usize(file.section_a_u32.len() * 4).as_str());
    s.push_str(" (");
    s.push_str(dec_usize(file.section_a_u32.len()).as_str());
    s.push_str(" entries)");
    s
}

/// The bytes of an opaque section; the section of numbers has none here.
pub open spec fn section_bytes(file: PamhcFile, tab: PamhcTab) -> Option<Vec<u8>> {
    match tab {
        PamhcTab::SectionA => None,
        PamhcTab::SectionB => Some(file.section_b),
        PamhcTab::SectionC => Some(file.section_c),
        PamhcTab::SectionD => Some(file.section_d),
        PamhcTab::SectionE => Some(file.section_e),
    }
}

/// The bytes of an opaque section.
pub fn opaque_section<'a>(file: &'a PamhcFile, tab: PamhcTab) -> (r: Option<&'a Vec<u8>>)
    ensures
        match r {
            Some(v) => section_bytes(*file, tab) == Some(*v),
            None => section_bytes(*file, tab) is None,
        },
{
    match tab {
        PamhcTab::SectionA => None,
        PamhcTab::SectionB => Some(&file.section_b),
        PamhcTab::SectionC => Some(&file.section_c),
        PamhcTab::SectionD => Some(&file.section_d),
        PamhcTab::SectionE => Some(&file.section_e),
    }
}

/// The letter of a section.
pub open spec fn letter(tab: PamhcTab) -> Seq<char> {
    match tab {
        PamhcTab::SectionA => "A"@,
        PamhcTab::SectionB => "B"@,
        PamhcTab::SectionC => "C"@,
        PamhcTab::SectionD => "D"@,
        PamhcTab::SectionE => "E"@,
    }
}

/// The letter of a section.
pub fn section_letter(tab: PamhcTab) -> (r: &'static str)
    ensures
        r@ == letter(tab),
{
    match tab {
        PamhcTab::SectionA => "A",
        PamhcTab::SectionB => "B",
        PamhcTab::SectionC => "C",
        PamhcTab::SectionD => "D",
        PamhcTab::SectionE => "E",
    }
}

/// The line on the size of an opaque section.
pub fn section_line(n: usize) -> (r: String)
    ensures
        r@ == dec(n as nat) + " bytes — element schema not decoded; shown read-only."@,
{
    let mut s = dec_usize(n);
    s.push_str(" bytes — element schema not decoded; shown read-only.");
    s
}

/// Where the bytes of an opaque section can be edited.
pub fn section_hint(tab: PamhcTab) -> (r: String)
    ensures
        r@ == "For byte-level edits to section "@ + letter(tab)
            + ", switch to the Binary Inspector view (find/replace patches against the whole .pamhc file). The pamhc panel preserves these bytes verbatim on Apply."@,
{
    concat3(
        "For byte-level edits to section ",
        section_letter(tab),
        ", switch to the Binary Inspector view (find/replace patches against the whole .pamhc file). The pamhc panel preserves these bytes verbatim on Apply.",
    )
}

/// Adds a zero at the end of the section of numbers.
pub fn append_entry(session: &mut PamhcSession)
    ensures
        match old(session).file {
            Some(f) => {
                &&& final(session).file matches Some(g) && g.section_a_u32@
                    == f.section_a_u32@.push(0) && g == (PamhcFile {
                    section_a_u32: g.section_a_u32,
                    ..f
                })
                &&& *final(session) == (PamhcSession { file: final(session).file, ..*old(session) })
            },
            None => *final(session) == *old(session),
        },
{
    match &mut session.file {
        Some(f) => {
            f.section_a_u32.push(0);
        },
        None => {},
    }
}

/// Removes a number from the section of numbers.
pub fn remove_entry(file: &mut PamhcFile, i: usize)
    requires
        i < old(file).section_a_u32@.len(),
    ensures
        final(file).section_a_u32@ == old(file).section_a_u32@.remove(i as int),
        *final(file) == (PamhcFile { section_a_u32: final(file).section_a_u32, ..*old(file) }),
{
    let _ = file.section_a_u32.remove(i);
}

/// A number as it is shown in hexadecimal.
pub open spec fn hex_cell(v: u32) -> Seq<char> {
    "0x"@ + hex_pad(v as nat, 8, false)
}

/// A number as it is shown in hexadecimal.
pub fn hex_cell_text(v: u32) -> (r: String)
    ensures
        r@ == hex_cell(v),
{
    let mut s = "0x".to_owned();
    push_hex(&mut s, v as u64, 8, false);
    s
}

/// The number that a typed text gives, in hexadecimal with or without a prefix.
pub open spec fn typed_hex(text: Seq<char>) -> Option<nat> {
    parsed(
        stripped(stripped(trimmed(text), "0x"@), "0X"@),
        16,
        u32::MAX as nat,
    )
}

/// A number reads back from what is shown of it.
pub proof fn law_hex_cell_reads_back(v: u32)
    ensures
        typed_hex(hex_cell(v)) == Some(v as nat),
{
    reveal_strlit("0x");
    reveal_strlit("0X");
    let p = hex_pad(v as nat, 8, false);
    let s = hex_cell(v);
    law_padded_hex_reads_back(v as nat, 8, false, u32::MAX as nat);
    assert(s[0] == '0');
    assert(s.last() == p.last());
    assert(digit_value(p.last(), 16) is Some);
    assert(digit_value(p[1], 16) is Some);
    assert(trimmed(s) =~= s);
    assert(has_prefix(s, "0x"@)) by {
        assert(s.take(2) =~= "0x"@);
    }
    assert(s.skip(2) =~= p);
    assert(!has_prefix(p, "0x"@)) by {
        assert(p.take(2)[1] == p[1]);
    }
    assert(stripped(p, "0x"@) == p);
    assert(stripped(s, "0x"@) == p);
    assert(!has_prefix(p, "0X"@)) by {
        assert(p.take(2)[1] == p[1]);
    }
}

/// Sets a number of the section from what was typed. What is no number changes
/// nothing.
pub fn set_hex_cell(file: &mut PamhcFile, i: usize, text: &str)
    requires
        i < old(file).section_a_u32@.len(),
    ensures
        final(file).section_a_u32@ == match typed_hex(text@) {
            Some(n) => old(file).section_a_u32@.update(i as int, n as u32),
            None => old(file).section_a_u32@,
        },
        *final(file) == (PamhcFile { section_a_u32: final(file).section_a_u32, ..*old(file) }),
{
    let a = trim_start_matches(trim(text).as_str(), "0x");
    let b = trim_start_matches(a.as_str(), "0X");
    match parse_unsigned(b.as_str(), 16, 0xFFFF_FFFF) {
        Some(n) => {
            file.section_a_u32[i] = n as u32;
        },
        None => {},
    }
}

/// A file was read and parsed, or could not be.
pub open spec fn load_done(
    before: AppState,
    after: AppState,
    src: FileSource,
    result: Result<(PamhcFile, Vec<u8>), LoadError>,
) -> bool {
    match result {
        Ok((file, bytes)) => {
            &&& after.toasts@ == before.toasts@.push(loaded_note(src))
            &&& after == (AppState {
                toasts: after.toasts,
                pamhc: PamhcSession {
                    file: Some(file),
                    current_entry: entry_of(src),
                    vanilla_bytes: Some(bytes),
                    hex_b: first_page(),
                    hex_c: first_page(),
                    hex_d: first_page(),
                    hex_e: first_page(),
                    ..before.pamhc
                },
                ..before
            })
        },
        Err(e) => {
            &&& after.toasts@ == before.toasts@.push(load_failed_note("PAMHC"@, src, e))
            &&& after == (AppState { toasts: after.toasts, ..before })
        },
    }
}

/// Takes over a file that was read and parsed, from the archives or from disk,
/// or says why it could not be. What was loaded stays where it fails.
fn load_file(
    state: &mut AppState,
    src: FileSource,
    result: Result<(PamhcFile, Vec<u8>), LoadError>,
)
    ensures
        load_done(*old(state), *final(state), src, result),
{
    match result {
        Ok(p) => {
            let (file, bytes) = p;
            report_loaded(&mut state.toasts, &src);
            state.pamhc.file = Some(file);
            state.pamhc.current_entry = src.into_entry();
            state.pamhc.vanilla_bytes = Some(bytes);
            state.pamhc.hex_b = HexViewState::default();
            state.pamhc.hex_c = HexViewState::default();
            state.pamhc.hex_d = HexViewState::default();
            state.pamhc.hex_e = HexViewState::default();
        },
        Err(e) => {
            report_load_failed(&mut state.toasts, "PAMHC", &src, &e);
        },
    }
}

/// Takes over a file of the archives that was read and parsed, or says why it
/// could not be.
pub fn load_pamhc_from_paz(
    state: &mut AppState,
    entry: &PazEntry,
    result: Result<(PamhcFile, Vec<u8>), LoadError>,
)
    ensures
        load_done(*old(state), *final(state), FileSource::Archive(*entry), result),
{
    load_file(state, FileSource::Archive(entry.copy()), result);
}

/// Takes over a file on disk that was read and parsed, or says why it could not
/// be. It has no entry in the archives.
pub fn load_pamhc_from_path(
    state: &mut AppState,
    path: &String,
    result: Result<(PamhcFile, Vec<u8>), LoadError>,
)
    ensures
        load_done(*old(state), *final(state), FileSource::Disk(*path), result),
{
    load_file(state, FileSource::Disk(path.clone()), result);
}

/// The game directory to load a file from. Where none is set, that is said.
pub fn load_dir(state: &mut AppState) -> (r: Option<String>)
    ensures
        r == old(state).game_dir,
        r is Some ==> *final(state) == *old(state),
        r is None ==> final(state).toasts@ == old(state).toasts@.push(
            warn_note("Set the Game Directory first."@),
        ) && *final(state) == (AppState { toasts: final(state).toasts, ..*old(state) }),
{
    dir_or_warn(state, "Set the Game Directory first.")
}

/// Takes over the files that were found in the archives, or says why there are
/// none. Nothing was looked for without a game directory.
pub fn browse_done(state: &mut AppState, found: Option<Result<Vec<PazEntry>, String>>)
    ensures
        final(state).toasts@ == old(state).toasts@.push(scan_note(".pamhc"@, found)),
        *final(state) == (AppState {
            toasts: final(state).toasts,
            pamhc: PamhcSession {
                paz_files: match found {
                    Some(Ok(files)) => Some(files),
                    _ => old(state).pamhc.paz_files,
                },
                ..old(state).pamhc
            },
            ..*old(state)
        }),
{
    report_scan(&mut state.toasts, &mut state.pamhc.paz_files, ".pamhc", found);
}

/// Takes a waiting search hit for this editor out of the queue, and gives the
/// file to load for it, unless that is loaded.
pub fn consume_pending_nav(state: &mut AppState) -> (r: Option<PazEntry>)
    ensures
        r == nav_load(
            old(state).pending_global_nav,
            FileEditor::Pamhc,
            old(state).pamhc.current_entry,
        ),
        *final(state) == (AppState {
            pending_global_nav: if nav_file(
                old(state).pending_global_nav,
                FileEditor::Pamhc,
            ) is Some {
                None
            } else {
                old(state).pending_global_nav
            },
            ..*old(state)
        }),
{
    take_nav(
        &mut state.pending_global_nav,
        FileEditor::Pamhc,
        &state.pamhc.current_entry,
    )
}

/// A deploy can be asked for.
pub open spec fn ready(s: AppState) -> bool {
    deployable(s.pamhc.file is Some, s.pamhc.current_entry, s.game_dir)
}

/// Whether a deploy can be asked for: a file is loaded, it came from the
/// archives, and a game directory is set.
pub fn can_apply(state: &AppState) -> (r: bool)
    ensures
        r == ready(*state),
{
    state.pamhc.file.is_some() && state.pamhc.current_entry.is_some() && state.game_dir.is_some()
}

/// What a deploy needs, where it can be asked for.
pub fn apply_request(state: &AppState) -> (r: Option<DeployRequest>)
    ensures
        r == if ready(*state) {
            Some(
                DeployRequest {
                    game_dir: state.game_dir->Some_0,
                    entry: state.pamhc.current_entry->Some_0,
                    group: state.pamhc.overlay_group,
                },
            )
        } else {
            None
        },
{
    deploy_request(
        state.pamhc.file.is_some(),
        &state.pamhc.current_entry,
        &state.game_dir,
        &state.pamhc.overlay_group,
    )
}

/// Reports a deploy.
pub fn apply_to_game(state: &mut AppState, request: &DeployRequest, result: &Result<(), String>)
    ensures
        final(state).toasts@ == old(state).toasts@.push(
            deploy_note("PAMHC"@, request.entry.filename@, request.group@, *result),
        ),
        *final(state) == (AppState { toasts: final(state).toasts, ..*old(state) }),
{
    report_deploy(
        &mut state.toasts,
        "PAMHC",
        request.entry.filename.as_str(),
        request.group.as_str(),
        result,
    );
}

/// The game directory and the overlay group to remove, where a game directory is set.
pub fn restore_request(state: &AppState) -> (r: Option<(String, String)>)
    ensures
        r == match state.game_dir {
            Some(d) => Some((d, state.pamhc.overlay_group)),
            None => None,
        },
{
    match &state.game_dir {
        Some(d) => Some((d.clone(), state.pamhc.overlay_group.clone())),
        None => None,
    }
}

/// Reports that the overlay group was removed, or why it was not.
pub fn restore_overlay(state: &mut AppState, group: &str, result: &Result<(), String>)
    ensures
        final(state).toasts@ == old(state).toasts@.push(restore_note("PAMHC"@, group@, *result)),
        *final(state) == (AppState { toasts: final(state).toasts, ..*old(state) }),
{
    report_restore(&mut state.toasts, "PAMHC", group, result);
}

/// Reports that the file was written to disk, or why it was not.
pub fn save_pamhc_to_disk(state: &mut AppState, path: &str, result: &Result<(), String>)
    ensures
        final(state).toasts@ == old(state).toasts@.push(save_note(path@, *result)),
        *final(state) == (AppState { toasts: final(state).toasts, ..*old(state) }),
{
    report_save(&mut state.toasts, path, result);
}

} // verus!
