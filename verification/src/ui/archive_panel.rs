//! The archive inspector: groups, the files of a group, their bytes, and what
//! changed since the first deploy.

use vstd::prelude::*;
use crate::digits::{dec, dec_usize, hex_pad, push_hex};
use crate::rows::picked;
use crate::sizes::{format_size, size_text};
use crate::state::{failure_note, info_note, warn_note, AppState, MainView};
use crate::text::{ascii_lowered, concat2, contains, has_sub, same, to_ascii_lower, trim, trimmed};
use crate::ui::hex_view::HexViewState;

verus! {

broadcast use vstd::seq_lib::group_seq_properties;

/// A group of archives.
#[derive(Debug)]
pub struct ArchiveGroup {
    pub name: String,
    pub registered_in_papgt: bool,
    pub papgt_checksum: Option<u32>,
    pub pamt_checksum: Option<u32>,
    pub file_count: usize,
    pub total_uncompressed_size: u64,
    pub has_workbench_backup: bool,
    pub error: Option<String>,
}

/// A file in an archive.
#[derive(Debug)]
pub struct ArchiveFile {
    pub name: String,
    pub uncompressed_size: u32,
    pub compression_label: String,
    pub crypto_label: String,
    pub chunk_id: u32,
}

/// A directory in an archive.
#[derive(Debug)]
pub struct ArchiveDir {
    pub path: String,
    pub files: Vec<ArchiveFile>,
}

/// What a group holds.
#[derive(Debug)]
pub struct ArchiveGroupDetail {
    pub name: String,
    pub directories: Vec<ArchiveDir>,
}

/// An entry of the archive index.
#[derive(Debug)]
pub struct PapgtEntry {
    pub group_name: String,
    pub pack_meta_checksum: u32,
    pub is_optional: u8,
    pub language: u16,
}

/// How the archive index differs from its backup.
#[derive(Debug)]
pub struct PapgtDiff {
    pub added: Vec<PapgtEntry>,
    pub removed: Vec<PapgtEntry>,
    /// Pairs of the entry in the backup and the one in use.
    pub changed: Vec<(PapgtEntry, PapgtEntry)>,
}

/// What the inspector shows.
#[derive(Clone, Debug, PartialEq, Eq)]
pub enum ArchiveMode {
    Groups,
    Detail(String),
    Hex { group: String, dir_path: String, file_name: String },
    Diff,
}

/// What the inspector keeps.
#[derive(Debug)]
pub struct ArchiveSession {
    pub mode: ArchiveMode,
    /// The groups, once they were read.
    pub groups: Option<Vec<ArchiveGroup>>,
    pub error: Option<String>,
    pub detail: Option<ArchiveGroupDetail>,
    pub filter: String,
    pub hex_bytes: Vec<u8>,
    pub hex_state: HexViewState,
    pub hex_label: String,
    /// The difference to the backup, once it was looked for; none where there
    /// is no backup.
    pub diff: Option<Option<PapgtDiff>>,
    /// The group whose removal waits to be confirmed.
    pub remove_confirm_pending: Option<String>,
}

impl ArchiveSession {
    /// As it is when the workbench starts.
    pub open spec fn is_fresh(&self) -> bool {
        &&& self.mode is Groups
        &&& self.groups is None
        &&& self.error is None
        &&& self.detail is None
        &&& self.filter@.len() == 0
        &&& self.hex_bytes@.len() == 0
        &&& self.hex_state == (HexViewState {
            page: 0,
            bytes_per_page: 1024,
            selected_offset: None,
        })
        &&& self.hex_label@.len() == 0
        &&& self.diff is None
        &&& self.remove_confirm_pending is None
    }
}

impl Default for ArchiveSession {
    fn default() -> (r: Self)
        ensures
            r.is_fresh(),
    {
        ArchiveSession {
            mode: ArchiveMode::Groups,
            groups: None,
            error: None,
            detail: None,
            filter: String::new(),
            hex_bytes: Vec::new(),
            hex_state: HexViewState::default(),
            hex_label: String::new(),
            diff: None,
            remove_confirm_pending: None,
        }
    }
}

/// A size in the largest unit that it reaches.
pub fn format_bytes(b: u64) -> (r: String)
    ensures
        r@ == size_text(b as nat),
{
    format_size(b)
}

/// Whether the groups are to be read: they were not yet, and nothing went wrong.
pub fn needs_scan(s: &ArchiveSession) -> (r: bool)
    ensures
        r == (s.groups is None && s.error is None),
{
    s.groups.is_none() && s.error.is_none()
}

/// The groups were read, or could not be. `scanned` counts only where a game
/// directory is set.
pub open spec fn groups_refreshed(
    before: AppState,
    after: AppState,
    scanned: Result<Vec<ArchiveGroup>, String>,
) -> bool {
    let s = after.archive;
    &&& after == (AppState { archive: s, ..before })
    &&& s == (ArchiveSession { groups: s.groups, error: s.error, ..before.archive })
    &&& match (before.game_dir, scanned) {
        (None, _) => {
            &&& s.groups matches Some(g) && g@.len() == 0
            &&& s.error matches Some(m) && m@
                == "Game directory is not set. Set it in Settings first."@
        },
        (Some(_), Ok(list)) => s.groups == Some(list) && s.error is None,
        (Some(_), Err(e)) => {
            &&& s.groups matches Some(g) && g@.len() == 0
            &&& s.error matches Some(m) && m@ == "Scan failed: "@ + e@
        },
    }
}

/// Takes over the groups as they were read.
pub fn refresh_groups(state: &mut AppState, scanned: Result<Vec<ArchiveGroup>, String>)
    ensures
        groups_refreshed(*old(state), *final(state), scanned),
{
    if state.game_dir.is_none() {
        state.archive.groups = Some(Vec::new());
        state.archive.error = Some(
            "Game directory is not set. Set it in Settings first.".to_owned(),
        );
        return;
    }
    state.archive.error = None;
    match scanned {
        Ok(list) => {
            state.archive.groups = Some(list);
        },
        Err(e) => {
            state.archive.groups = Some(Vec::new());
            state.archive.error = Some(concat2("Scan failed: ", e.as_str()));
        },
    }
}

/// Reads everything anew: the groups are taken over, and what was known of one
/// group and of the backup is forgotten.
pub fn refresh_all(state: &mut AppState, scanned: Result<Vec<ArchiveGroup>, String>)
    ensures
        groups_refreshed(
            AppState {
                archive: ArchiveSession { detail: None, diff: None, ..old(state).archive },
                ..*old(state)
            },
            *final(state),
            scanned,
        ),
{
    state.archive.detail = None;
    state.archive.diff = None;
    refresh_groups(state, scanned);
}

/// Shows the groups.
pub fn show_groups(session: &mut ArchiveSession)
    ensures
        *final(session) == (ArchiveSession { mode: ArchiveMode::Groups, ..*old(session) }),
{
    session.mode = ArchiveMode::Groups;
}

/// Shows the difference to the backup, looked for anew.
pub fn show_diff(session: &mut ArchiveSession)
    ensures
        *final(session) == (ArchiveSession {
            mode: ArchiveMode::Diff,
            diff: None,
            ..*old(session)
        }),
{
    session.mode = ArchiveMode::Diff;
    session.diff = None;
}

/// Shows what a group holds, read anew.
pub fn enter_detail(state: &mut AppState, name: &str)
    ensures
        final(state).archive.mode matches ArchiveMode::Detail(n) && n@ == name@,
        final(state).archive == (ArchiveSession {
            mode: final(state).archive.mode,
            detail: None,
            ..old(state).archive
        }),
        *final(state) == (AppState { archive: final(state).archive, ..*old(state) }),
{
    state.archive.mode = ArchiveMode::Detail(name.to_owned());
    state.archive.detail = None;
}

/// Goes back from a group to the groups.
pub fn leave_detail(session: &mut ArchiveSession)
    ensures
        *final(session) == (ArchiveSession {
            mode: ArchiveMode::Groups,
            detail: None,
            ..*old(session)
        }),
{
    session.mode = ArchiveMode::Groups;
    session.detail = None;
}

/// Goes back from the bytes of a file to its group.
pub fn leave_hex(session: &mut ArchiveSession, group: &String)
    ensures
        final(session).hex_bytes@.len() == 0,
        final(session).hex_label@.len() == 0,
        *final(session) == (ArchiveSession {
            mode: ArchiveMode::Detail(*group),
            hex_bytes: final(session).hex_bytes,
            hex_label: final(session).hex_label,
            ..*old(session)
        }),
{
    session.mode = ArchiveMode::Detail(group.clone());
    session.hex_bytes = Vec::new();
    session.hex_label = String::new();
}

/// Whether a group is to be read: what is known is of another group, or nothing.
pub fn needs_detail(session: &ArchiveSession, name: &str) -> (r: bool)
    ensures
        r == !(session.detail matches Some(d) && d.name@ == name@),
{
    match &session.detail {
        Some(d) => !same(d.name.as_str(), name),
        None => true,
    }
}

/// Takes over what a group holds, or says why it could not be read.
pub fn detail_loaded(
    session: &mut ArchiveSession,
    name: &str,
    result: Result<ArchiveGroupDetail, String>,
) -> (error: Option<String>)
    ensures
        match result {
            Ok(d) => error is None && *final(session) == (ArchiveSession {
                detail: Some(d),
                ..*old(session)
            }),
            Err(e) => {
                &&& *final(session) == *old(session)
                &&& error matches Some(m) && m@ == "Failed to load detail for "@ + name@ + ": "@
                    + e@
            },
        },
{
    match result {
        Ok(d) => {
            session.detail = Some(d);
            None
        },
        Err(e) => {
            let mut m = "Failed to load detail for ".to_owned();
            m.push_str(name);
            m.push_str(": ");
            m.push_str(e.as_str());
            Some(m)
        },
    }
}

/// A group is listed: the filter is blank or stands in its name, in either letter case.
pub open spec fn group_kept(g: Seq<ArchiveGroup>, filter: Seq<char>) -> spec_fn(int) -> bool {
    |i: int|
        ascii_lowered(trimmed(filter)).len() == 0 || has_sub(
            ascii_lowered(g[i].name@),
            ascii_lowered(trimmed(filter)),
        )
}

/// The groups that are listed.
pub fn visible_groups(g: &Vec<ArchiveGroup>, filter: &str) -> (r: Vec<usize>)
    ensures
        r@ == picked(g@.len(), group_kept(g@, filter@)),
{
    let needle = to_ascii_lower(trim(filter).as_str());
    let mut out: Vec<usize> = Vec::new();
    let mut i: usize = 0;
    while i < g.len()
        invariant
            0 <= i <= g.len(),
            needle@ == ascii_lowered(trimmed(filter@)),
            out@ == picked(i as nat, group_kept(g@, filter@)),
        decreases g.len() - i,
    {
        if needle.as_str().is_empty() || contains(
            to_ascii_lower(g[i].name.as_str()).as_str(),
            needle.as_str(),
        ) {
            out.push(i);
        }
        i = i + 1;
    }
    out
}

/// The two checksums of a group are known and differ.
pub open spec fn checksums_differ(g: ArchiveGroup) -> bool {
    g.papgt_checksum matches Some(a) && g.pamt_checksum matches Some(b) && a != b
}

impl ArchiveGroup {
    /// Whether the two checksums of the group are known and differ.
    pub fn checksum_mismatch(&self) -> (r: bool)
        ensures
            r == checksums_differ(*self),
    {
        match (self.papgt_checksum, self.pamt_checksum) {
            (Some(a), Some(b)) => a != b,
            _ => false,
        }
    }
}

/// A checksum as it is shown.
pub open spec fn checksum_line(c: Option<u32>) -> Seq<char> {
    match c {
        Some(x) => "0x"@ + hex_pad(x as nat, 8, false),
        None => "—"@,
    }
}

/// A checksum as it is shown.
pub fn checksum_text(c: Option<u32>) -> (r: String)
    ensures
        r@ == checksum_line(c),
{
    match c {
        Some(x) => {
            let mut s = "0x".to_owned();
            push_hex(&mut s, x as u64, 8, false);
            s
        },
        None => "—".to_owned(),
    }
}

/// What the last column of a group offers.
#[derive(Debug)]
pub enum RowActions {
    /// The group could not be read.
    Error(String),
    /// The removal waits to be confirmed.
    Confirm,
    /// The group can be opened and removed.
    Normal,
}

/// What the last column of a group offers.
pub fn row_actions(session: &ArchiveSession, g: &ArchiveGroup) -> (r: RowActions)
    ensures
        match g.error {
            Some(e) => r matches RowActions::Error(m) && m@ == "error: "@ + e@,
            None => if session.remove_confirm_pending matches Some(n) && n@ == g.name@ {
                r is Confirm
            } else {
                r is Normal
            },
        },
{
    match &g.error {
        Some(e) => {
            return RowActions::Error(concat2("error: ", e.as_str()));
        },
        None => {},
    }
    let pending = match &session.remove_confirm_pending {
        Some(n) => same(n.as_str(), g.name.as_str()),
        None => false,
    };
    if pending {
        RowActions::Confirm
    } else {
        RowActions::Normal
    }
}

/// Asks for a group to be removed, or takes that back. Nothing is removed before
/// it is confirmed.
pub fn arm_removal(session: &mut ArchiveSession, group: Option<String>)
    ensures
        *final(session) == (ArchiveSession { remove_confirm_pending: group, ..*old(session) }),
{
    session.remove_confirm_pending = group;
}

/// The game directory. Where none is set, that is said.
pub fn game_dir_or_warn(state: &mut AppState) -> (r: Option<String>)
    ensures
        r == old(state).game_dir,
        r is Some ==> *final(state) == *old(state),
        r is None ==> final(state).toasts@ == old(state).toasts@.push(
            warn_note("Set game dir first"@),
        ) && *final(state) == (AppState { toasts: final(state).toasts, ..*old(state) }),
{
    match &state.game_dir {
        Some(d) => Some(d.clone()),
        None => {
            state.toasts.warn("Set game dir first");
            None
        },
    }
}

/// What is said of a file whose bytes are shown.
pub open spec fn hex_title(group: Seq<char>, dir: Seq<char>, file: Seq<char>, n: nat) -> Seq<
    char,
> {
    group + " / "@ + dir + " / "@ + file + "  —  "@ + dec(n) + " bytes uncompressed"@
}

/// Shows the bytes of a file, or says why they could not be had.
pub fn open_file_in_hex(
    state: &mut AppState,
    group: &String,
    dir_path: &String,
    file_name: &String,
    result: Result<Vec<u8>, String>,
)
    ensures
        match result {
            Ok(bytes) => {
                &&& final(state).archive.hex_label@ == hex_title(
                    group@,
                    dir_path@,
                    file_name@,
                    bytes@.len(),
                )
                &&& final(state).archive == (ArchiveSession {
                    mode: ArchiveMode::Hex {
                        group: *group,
                        dir_path: *dir_path,
                        file_name: *file_name,
                    },
                    hex_bytes: bytes,
                    hex_state: HexViewState {
                        page: 0,
                        bytes_per_page: 1024,
                        selected_offset: None,
                    },
                    hex_label: final(state).archive.hex_label,
                    ..old(state).archive
                })
                &&& *final(state) == (AppState { archive: final(state).archive, ..*old(state) })
            },
            Err(e) => {
                &&& final(state).toasts@ == old(state).toasts@.push(
                    failure_note("Failed to extract "@ + dir_path@ + "/"@ + file_name@, e@),
                )
                &&& *final(state) == (AppState { toasts: final(state).toasts, ..*old(state) })
            },
        },
{
    match result {
        Ok(bytes) => {
            let mut s = group.clone();
            s.push_str(" / ");
            s.push_str(dir_path.as_str());
            s.push_str(" / ");
            s.push_str(file_name.as_str());
            s.push_str("  —  ");
            s.push_str(dec_usize(bytes.len()).as_str());
            s.push_str(" bytes uncompressed");
            state.archive.hex_bytes = bytes;
            state.archive.hex_state = HexViewState::default();
            state.archive.hex_label = s;
            state.archive.mode = ArchiveMode::Hex {
                group: group.clone(),
                dir_path: dir_path.clone(),
                file_name: file_name.clone(),
            };
        },
        Err(e) => {
            let mut m = "Failed to extract ".to_owned();
            m.push_str(dir_path.as_str());
            m.push_str("/");
            m.push_str(file_name.as_str());
            state.toasts.error_with_details(m.as_str(), e.as_str());
        },
    }
}

/// A removal went well: it is said, and everything is read anew.
pub open spec fn overlay_removed(
    before: AppState,
    said: AppState,
    after: AppState,
    group: Seq<char>,
    scanned: Result<Vec<ArchiveGroup>, String>,
) -> bool {
    &&& said.toasts@ == before.toasts@.push(info_note("Removed overlay "@ + group))
    &&& said == (AppState {
        toasts: said.toasts,
        archive: ArchiveSession {
            detail: None,
            diff: None,
            remove_confirm_pending: None,
            ..before.archive
        },
        ..before
    })
    &&& groups_refreshed(said, after, scanned)
}

/// Reports the removal of a group. Where it went well, the groups are taken over
/// as they were read after it. Either way no removal waits to be confirmed.
pub fn handle_remove_overlay(
    state: &mut AppState,
    group: &str,
    result: &Result<(), String>,
    scanned: Result<Vec<ArchiveGroup>, String>,
)
    ensures
        match *result {
            Ok(_) => exists|said: AppState| #[trigger]
                overlay_removed(*old(state), said, *final(state), group@, scanned),
            Err(e) => {
                &&& final(state).toasts@ == old(state).toasts@.push(
                    failure_note("Failed to remove overlay "@ + group@, e@),
                )
                &&& *final(state) == (AppState {
                    toasts: final(state).toasts,
                    archive: ArchiveSession {
                        remove_confirm_pending: None,
                        ..old(state).archive
                    },
                    ..*old(state)
                })
            },
        },
{
    state.archive.remove_confirm_pending = None;
    match result {
        Ok(_) => {
            let m = concat2("Removed overlay ", group);
            state.toasts.info(m.as_str());
            state.archive.detail = None;
            state.archive.diff = None;
            let ghost said = *state;
            refresh_groups(state, scanned);
            assert(overlay_removed(*old(state), said, *state, group@, scanned));
        },
        Err(e) => {
            let m = concat2("Failed to remove overlay ", group);
            state.toasts.error_with_details(m.as_str(), e.as_str());
        },
    }
}

/// The number of files in the first `n` directories.
pub open spec fn file_total(d: Seq<ArchiveDir>, n: nat) -> nat
    decreases n,
{
    if n == 0 {
        0
    } else {
        file_total(d, (n - 1) as nat) + d[n - 1].files@.len()
    }
}

/// The bytes of the first `n` files.
pub open spec fn files_size(f: Seq<ArchiveFile>, n: nat) -> nat
    decreases n,
{
    if n == 0 {
        0
    } else {
        files_size(f, (n - 1) as nat) + f[n - 1].uncompressed_size as nat
    }
}

/// The bytes of the files in the first `n` directories.
pub open spec fn size_total(d: Seq<ArchiveDir>, n: nat) -> nat
    decreases n,
{
    if n == 0 {
        0
    } else {
        size_total(d, (n - 1) as nat) + files_size(d[n - 1].files@, d[n - 1].files@.len())
    }
}

proof fn lemma_file_total_grows(d: Seq<ArchiveDir>, i: nat, n: nat)
    requires
        i <= n,
    ensures
        file_total(d, i) <= file_total(d, n),
        size_total(d, i) <= size_total(d, n),
    decreases n - i,
{
    if i < n {
        lemma_file_total_grows(d, i, (n - 1) as nat);
    }
}

proof fn lemma_files_size_grows(f: Seq<ArchiveFile>, i: nat, n: nat)
    requires
        i <= n,
    ensures
        files_size(f, i) <= files_size(f, n),
    decreases n - i,
{
    if i < n {
        lemma_files_size_grows(f, i, (n - 1) as nat);
    }
}

/// The line on what a group holds. The numbers must fit their types.
pub fn detail_summary(d: &ArchiveGroupDetail) -> (r: String)
    requires
        file_total(d.directories@, d.directories@.len()) <= usize::MAX,
        size_total(d.directories@, d.directories@.len()) <= u64::MAX,
    ensures
        r@ == dec(d.directories@.len()) + " directories, "@ + dec(
            file_total(d.directories@, d.directories@.len()),
        ) + " files, "@ + size_text(size_total(d.directories@, d.directories@.len()))
            + " uncompressed"@,
{
    let v = &d.directories;
    let mut files: usize = 0;
    let mut bytes: u64 = 0;
    let mut i: usize = 0;
    while i < v.len()
        invariant
            0 <= i <= v.len(),
            file_total(v@, v@.len()) <= usize::MAX,
            size_total(v@, v@.len()) <= u64::MAX,
            files == file_total(v@, i as nat),
            bytes == size_total(v@, i as nat),
        decreases v.len() - i,
    {
        proof {
            lemma_file_total_grows(v@, (i + 1) as nat, v@.len());
        }
        files = files + v[i].files.len();
        let f = &v[i].files;
        let ghost b0 = bytes as nat;
        let mut j: usize = 0;
        while j < f.len()
            invariant
                0 <= j <= f.len(),
                f@ == v@[i as int].files@,
                0 <= i < v.len(),
                b0 + files_size(f@, f@.len()) <= u64::MAX,
                bytes == b0 + files_size(f@, j as nat),
            decreases f.len() - j,
        {
            proof {
                lemma_files_size_grows(f@, (j + 1) as nat, f@.len());
            }
            bytes = bytes + f[j].uncompressed_size as u64;
            j = j + 1;
        }
        i = i + 1;
    }
    let mut s = dec_usize(v.len());
    s.push_str(" directories, ");
    s.push_str(dec_usize(files).as_str());
    s.push_str(" files, ");
    s.push_str(format_bytes(bytes).as_str());
    s.push_str(" uncompressed");
    s
}

/// The heading of a directory.
pub fn dir_header(d: &ArchiveDir) -> (r: String)
    ensures
        r@ == (if d.path@.len() == 0 {
            "<root>"@
        } else {
            d.path@
        }) + "  ("@ + dec(d.files@.len()) + " files)"@,
{
    let mut s = if d.path.as_str().is_empty() {
        "<root>".to_owned()
    } else {
        d.path.clone()
    };
    s.push_str("  (");
    s.push_str(dec_usize(d.files.len()).as_str());
    s.push_str(" files)");
    s
}

/// What the comparison with the backup shows.
#[derive(Clone, Copy, Debug, PartialEq, Eq, Structural)]
pub enum DiffView {
    /// It is to be made.
    Needed,
    NoBackup,
    Same,
    Differs,
}

/// The index does not differ from its backup.
pub open spec fn diff_empty(d: PapgtDiff) -> bool {
    d.added@.len() == 0 && d.removed@.len() == 0 && d.changed@.len() == 0
}

/// What the comparison with the backup shows.
pub fn diff_view(session: &ArchiveSession) -> (r: DiffView)
    ensures
        r == match session.diff {
            None => DiffView::Needed,
            Some(None) => DiffView::NoBackup,
            Some(Some(d)) => if diff_empty(d) {
                DiffView::Same
            } else {
                DiffView::Differs
            },
        },
{
    match &session.diff {
        None => DiffView::Needed,
        Some(m) => match m {
            None => DiffView::NoBackup,
            Some(d) => if d.added.len() == 0 && d.removed.len() == 0 && d.changed.len() == 0 {
                DiffView::Same
            } else {
                DiffView::Differs
            },
        },
    }
}

/// Takes over the comparison with the backup, or says why it could not be made.
pub fn diff_loaded(session: &mut ArchiveSession, result: Result<Option<PapgtDiff>, String>) -> (error:
    Option<String>)
    ensures
        match result {
            Ok(d) => error is None && *final(session) == (ArchiveSession {
                diff: Some(d),
                ..*old(session)
            }),
            Err(e) => {
                &&& *final(session) == *old(session)
                &&& error matches Some(m) && m@ == "Failed to read PAPGT: "@ + e@
            },
        },
{
    match result {
        Ok(d) => {
            session.diff = Some(d);
            None
        },
        Err(e) => Some(concat2("Failed to read PAPGT: ", e.as_str())),
    }
}

/// The values of an index entry.
pub open spec fn entry_values(e: PapgtEntry) -> Seq<char> {
    "chk=0x"@ + hex_pad(e.pack_meta_checksum as nat, 8, false) + "  optional="@ + dec(
        e.is_optional as nat,
    ) + "  lang=0x"@ + hex_pad(e.language as nat, 4, false)
}

fn values_text(e: &PapgtEntry) -> (r: String)
    ensures
        r@ == entry_values(*e),
{
    let mut s = "chk=0x".to_owned();
    push_hex(&mut s, e.pack_meta_checksum as u64, 8, false);
    s.push_str("  optional=");
    s.push_str(dec_usize(e.is_optional as usize).as_str());
    s.push_str("  lang=0x");
    push_hex(&mut s, e.language as u64, 4, false);
    s
}

/// The line on an entry that was added or removed.
pub fn entry_line(e: &PapgtEntry, added: bool) -> (r: String)
    ensures
        r@ == (if added {
            "  + "@
        } else {
            "  - "@
        }) + e.group_name@ + "  "@ + entry_values(*e),
{
    let mut s = (if added {
        "  + "
    } else {
        "  - "
    }).to_owned();
    s.push_str(e.group_name.as_str());
    s.push_str("  ");
    s.push_str(values_text(e).as_str());
    s
}

/// The three lines on an entry that changed.
pub fn changed_lines(backup: &PapgtEntry, live: &PapgtEntry) -> (r: (String, String, String))
    ensures
        r.0@ == "  ~ "@ + backup.group_name@,
        r.1@ == "      backup: "@ + entry_values(*backup),
        r.2@ == "      live  : "@ + entry_values(*live),
{
    (
        concat2("  ~ ", backup.group_name.as_str()),
        concat2("      backup: ", values_text(backup).as_str()),
        concat2("      live  : ", values_text(live).as_str()),
    )
}

/// Leaves the inspector for the tables.
pub fn close_panel(state: &mut AppState)
    ensures
        *final(state) == (AppState { main_view: MainView::PabgbTables, ..*old(state) }),
{
    state.main_view = MainView::PabgbTables;
}

} // verus!
