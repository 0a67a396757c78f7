//! Files in the game's archives: picking one, loading it into an editor, and
//! shipping it as an overlay.

use vstd::prelude::*;
use crate::digits::{dec, dec_usize};
use crate::rows::picked;
use crate::state::{
    failure_note, info_note, warn_note, AppState, Note, PendingNav, Toasts,
};
use crate::text::{concat2, concat3, has_sub, lower_contains, lowercase, same};

verus! {

broadcast use vstd::seq_lib::group_seq_properties;

/// The greatest number of files that a picker shows.
pub const MAX_SHOWN_FILES: usize = 500;

/// A file in the archives.
#[derive(Debug)]
pub struct PazEntry {
    pub group: String,
    pub dir_path: String,
    pub filename: String,
}

impl PazEntry {
    /// A copy of the entry.
    pub fn copy(&self) -> (r: PazEntry)
        ensures
            r == *self,
    {
        PazEntry {
            group: self.group.clone(),
            dir_path: self.dir_path.clone(),
            filename: self.filename.clone(),
        }
    }
}

/// The filter text stands in the name or the directory of a file.
pub open spec fn file_kept(files: Seq<PazEntry>, filter: Seq<char>) -> spec_fn(int) -> bool {
    |i: int|
        {
            let f = lowercase(filter);
            f.len() == 0 || has_sub(lowercase(files[i].filename@), f) || has_sub(
                lowercase(files[i].dir_path@),
                f,
            )
        }
}

/// The files that the filter text keeps.
pub fn visible_files(files: &Vec<PazEntry>, filter: &str) -> (r: Vec<usize>)
    ensures
        r@ == picked(files@.len(), file_kept(files@, filter@)),
{
    let f = filter.to_lowercase();
    let ghost keep = file_kept(files@, filter@);
    let mut out: Vec<usize> = Vec::new();
    let mut i: usize = 0;
    while i < files.len()
        invariant
            0 <= i <= files.len(),
            f@ == lowercase(filter@),
            keep == file_kept(files@, filter@),
            out@ == picked(i as nat, keep),
        decreases files.len() - i,
    {
        if f.as_str().is_empty() || lower_contains(files[i].filename.as_str(), f.as_str())
            || lower_contains(files[i].dir_path.as_str(), f.as_str()) {
            out.push(i);
        }
        i = i + 1;
    }
    out
}

/// The number of files, beside the filter.
pub fn files_line(n: usize) -> (r: String)
    ensures
        r@ == "("@ + dec(n as nat) + " files)"@,
{
    concat3("(", dec_usize(n).as_str(), " files)")
}

/// The line below the files where there are more than are shown.
pub fn more_line(n: usize) -> (r: Option<String>)
    ensures
        match r {
            Some(s) => n > MAX_SHOWN_FILES && s@ == "... "@ + dec((n - MAX_SHOWN_FILES) as nat)
                + " more (use the filter)"@,
            None => n <= MAX_SHOWN_FILES,
        },
{
    if n > MAX_SHOWN_FILES {
        Some(concat3("... ", dec_usize(n - MAX_SHOWN_FILES).as_str(), " more (use the filter)"))
    } else {
        None
    }
}

/// Where a file is.
pub open spec fn place(e: PazEntry) -> Seq<char> {
    "["@ + e.group@ + "] "@ + e.dir_path@ + "/"@ + e.filename@
}

/// Where a file is.
pub fn place_text(e: &PazEntry) -> (r: String)
    ensures
        r@ == place(*e),
{
    let mut s = "[".to_owned();
    s.push_str(e.group.as_str());
    s.push_str("] ");
    s.push_str(e.dir_path.as_str());
    s.push_str("/");
    s.push_str(e.filename.as_str());
    s
}

/// The line on the file that is loaded.
pub fn loaded_line(e: &PazEntry) -> (r: String)
    ensures
        r@ == "Loaded: "@ + place(*e),
{
    concat2("Loaded: ", place_text(e).as_str())
}

/// The game directory. Where none is set, a warning is given.
pub fn dir_or_warn(state: &mut AppState, message: &str) -> (r: Option<String>)
    ensures
        r == old(state).game_dir,
        r is Some ==> *final(state) == *old(state),
        r is None ==> final(state).toasts@ == old(state).toasts@.push(warn_note(message@))
            && *final(state) == (AppState { toasts: final(state).toasts, ..*old(state) }),
{
    match &state.game_dir {
        Some(d) => Some(d.clone()),
        None => {
            state.toasts.warn(message);
            None
        },
    }
}

/// What is said of a search for files with an extension.
pub open spec fn scan_note(ext: Seq<char>, found: Option<Result<Vec<PazEntry>, String>>) -> Note {
    match found {
        None => warn_note("Set the Game Directory first (Settings)."@),
        Some(Ok(files)) => info_note(
            "Found "@ + dec(files@.len()) + " "@ + ext + " file(s) in PAZ."@,
        ),
        Some(Err(e)) => failure_note("PAZ scan failed"@, e@),
    }
}

/// Takes over the files that were found, or says why there are none. Nothing
/// was looked for without a game directory.
pub fn report_scan(
    toasts: &mut Toasts,
    paz_files: &mut Option<Vec<PazEntry>>,
    ext: &str,
    found: Option<Result<Vec<PazEntry>, String>>,
)
    ensures
        final(toasts)@ == old(toasts)@.push(scan_note(ext@, found)),
        *final(paz_files) == match found {
            Some(Ok(files)) => Some(files),
            _ => *old(paz_files),
        },
{
    match found {
        None => {
            toasts.warn("Set the Game Directory first (Settings).");
        },
        Some(r) => match r {
            Ok(files) => {
                let mut m = "Found ".to_owned();
                m.push_str(dec_usize(files.len()).as_str());
                m.push_str(" ");
                m.push_str(ext);
                m.push_str(" file(s) in PAZ.");
                *paz_files = Some(files);
                toasts.info(m.as_str());
            },
            Err(e) => {
                toasts.error_with_details("PAZ scan failed", e.as_str());
            },
        },
    }
}

/// Why a file could not be loaded.
#[derive(Debug)]
pub enum LoadError {
    /// Its bytes could not be read.
    Read(String),
    /// Its bytes are not of the format.
    Parse(String),
}

/// What a file is loaded from.
#[derive(Debug)]
pub enum FileSource {
    Archive(PazEntry),
    /// A file on disk, by its path.
    Disk(String),
}

/// The end of a failure's details: which file it was.
pub open spec fn source_details(src: FileSource) -> Seq<char> {
    match src {
        FileSource::Archive(e) => "\nFile: "@ + e.dir_path@ + "/"@ + e.filename@,
        FileSource::Disk(p) => "\nFile: "@ + p@,
    }
}

/// What is said of a file that was loaded.
pub open spec fn loaded_note(src: FileSource) -> Note {
    match src {
        FileSource::Archive(e) => info_note("Loaded "@ + e.filename@ + " from PAZ"@),
        FileSource::Disk(p) => info_note("Loaded "@ + p@),
    }
}

/// What is said of a file that was not loaded.
pub open spec fn load_failed_note(kind: Seq<char>, src: FileSource, e: LoadError) -> Note {
    match e {
        LoadError::Read(m) => failure_note(kind + " read failed"@, m@ + source_details(src)),
        LoadError::Parse(m) => failure_note(kind + " parse failed"@, m@ + source_details(src)),
    }
}

/// The entry of a file in the archives; none for one on disk.
pub open spec fn entry_of(src: FileSource) -> Option<PazEntry> {
    match src {
        FileSource::Archive(e) => Some(e),
        FileSource::Disk(p) => None,
    }
}

impl FileSource {
    /// The entry of a file in the archives; none for one on disk.
    pub fn into_entry(self) -> (r: Option<PazEntry>)
        ensures
            r == entry_of(self),
    {
        match self {
            FileSource::Archive(e) => Some(e),
            FileSource::Disk(p) => None,
        }
    }
}

/// Says that a file was loaded.
pub fn report_loaded(toasts: &mut Toasts, src: &FileSource)
    ensures
        final(toasts)@ == old(toasts)@.push(loaded_note(*src)),
{
    match src {
        FileSource::Archive(e) => {
            toasts.info(concat3("Loaded ", e.filename.as_str(), " from PAZ").as_str());
        },
        FileSource::Disk(p) => {
            toasts.info(concat2("Loaded ", p.as_str()).as_str());
        },
    }
}

/// Says why a file was not loaded.
pub fn report_load_failed(toasts: &mut Toasts, kind: &str, src: &FileSource, e: &LoadError)
    ensures
        final(toasts)@ == old(toasts)@.push(load_failed_note(kind@, *src, *e)),
{
    let mut tail = "\nFile: ".to_owned();
    match src {
        FileSource::Archive(f) => {
            tail.push_str(f.dir_path.as_str());
            tail.push_str("/");
            tail.push_str(f.filename.as_str());
        },
        FileSource::Disk(p) => {
            tail.push_str(p.as_str());
        },
    }
    match e {
        LoadError::Read(m) => {
            toasts.error_with_details(
                concat2(kind, " read failed").as_str(),
                concat2(m.as_str(), tail.as_str()).as_str(),
            );
        },
        LoadError::Parse(m) => {
            toasts.error_with_details(
                concat2(kind, " parse failed").as_str(),
                concat2(m.as_str(), tail.as_str()).as_str(),
            );
        },
    }
}

/// The editors that a search hit in the archives can lead to.
#[derive(Clone, Copy, Debug, PartialEq, Eq, Structural)]
pub enum FileEditor {
    Paatt,
    Paac,
    Pappt,
    Pamhc,
}

/// The file that a waiting search hit asks an editor to open.
pub open spec fn nav_file(nav: Option<PendingNav>, editor: FileEditor) -> Option<PazEntry> {
    match (nav, editor) {
        (Some(PendingNav::Paatt { paz_group, dir_path, filename }), FileEditor::Paatt) => Some(
            PazEntry { group: paz_group, dir_path, filename },
        ),
        (Some(PendingNav::Paac { paz_group, dir_path, filename }), FileEditor::Paac) => Some(
            PazEntry { group: paz_group, dir_path, filename },
        ),
        (Some(PendingNav::Pappt { paz_group, dir_path, filename }), FileEditor::Pappt) => Some(
            PazEntry { group: paz_group, dir_path, filename },
        ),
        (Some(PendingNav::Pamhc { paz_group, dir_path, filename }), FileEditor::Pamhc) => Some(
            PazEntry { group: paz_group, dir_path, filename },
        ),
        _ => None,
    }
}

/// A file is the one that is loaded.
pub open spec fn is_current(cur: Option<PazEntry>, e: PazEntry) -> bool {
    cur matches Some(c) && c.group@ == e.group@ && c.dir_path@ == e.dir_path@ && c.filename@
        == e.filename@
}

/// The file that an editor is to load for a waiting search hit: the one that the
/// hit is in, unless it is loaded.
pub open spec fn nav_load(
    nav: Option<PendingNav>,
    editor: FileEditor,
    cur: Option<PazEntry>,
) -> Option<PazEntry> {
    match nav_file(nav, editor) {
        Some(e) => if is_current(cur, e) {
            None
        } else {
            Some(e)
        },
        None => None,
    }
}

fn nav_target(nav: &Option<PendingNav>, editor: FileEditor) -> (r: Option<PazEntry>)
    ensures
        r == nav_file(*nav, editor),
{
    match (nav, editor) {
        (Some(PendingNav::Paatt { paz_group, dir_path, filename }), FileEditor::Paatt) => Some(
            PazEntry {
                group: paz_group.clone(),
                dir_path: dir_path.clone(),
                filename: filename.clone(),
            },
        ),
        (Some(PendingNav::Paac { paz_group, dir_path, filename }), FileEditor::Paac) => Some(
            PazEntry {
                group: paz_group.clone(),
                dir_path: dir_path.clone(),
                filename: filename.clone(),
            },
        ),
        (Some(PendingNav::Pappt { paz_group, dir_path, filename }), FileEditor::Pappt) => Some(
            PazEntry {
                group: paz_group.clone(),
                dir_path: dir_path.clone(),
                filename: filename.clone(),
            },
        ),
        (Some(PendingNav::Pamhc { paz_group, dir_path, filename }), FileEditor::Pamhc) => Some(
            PazEntry {
                group: paz_group.clone(),
                dir_path: dir_path.clone(),
                filename: filename.clone(),
            },
        ),
        _ => None,
    }
}

/// Takes a waiting search hit for an editor out of the queue, and gives the file
/// to load for it. A hit for another editor is left.
pub fn take_nav(
    nav: &mut Option<PendingNav>,
    editor: FileEditor,
    cur: &Option<PazEntry>,
) -> (r: Option<PazEntry>)
    ensures
        r == nav_load(*old(nav), editor, *cur),
        *final(nav) == if nav_file(*old(nav), editor) is Some {
            None
        } else {
            *old(nav)
        },
{
    match nav_target(nav, editor) {
        Some(e) => {
            *nav = None;
            let current = match cur {
                Some(c) => same(c.group.as_str(), e.group.as_str()) && same(
                    c.dir_path.as_str(),
                    e.dir_path.as_str(),
                ) && same(c.filename.as_str(), e.filename.as_str()),
                None => false,
            };
            if current {
                None
            } else {
                Some(e)
            }
        },
        None => None,
    }
}

/// A search hit is handled once: after it was taken, nothing waits for the
/// editor, and nothing is to be loaded for it.
pub proof fn law_nav_taken_once(
    nav: Option<PendingNav>,
    editor: FileEditor,
    cur: Option<PazEntry>,
    after: Option<PendingNav>,
    later: Option<PazEntry>,
)
    requires
        after == if nav_file(nav, editor) is Some {
            None::<PendingNav>
        } else {
            nav
        },
    ensures
        nav_file(after, editor) is None,
        nav_load(after, editor, later) is None,
{
}

/// What a deploy needs: the game directory, the file's entry and the overlay group.
#[derive(Debug)]
pub struct DeployRequest {
    pub game_dir: String,
    pub entry: PazEntry,
    pub group: String,
}

/// A deploy can be asked for: a file is loaded, it came from the archives, and a
/// game directory is set.
pub open spec fn deployable(
    loaded: bool,
    entry: Option<PazEntry>,
    game_dir: Option<String>,
) -> bool {
    loaded && entry is Some && game_dir is Some
}

/// What a deploy needs, where it can be asked for.
pub fn deploy_request(
    loaded: bool,
    entry: &Option<PazEntry>,
    game_dir: &Option<String>,
    group: &String,
) -> (r: Option<DeployRequest>)
    ensures
        r == if deployable(loaded, *entry, *game_dir) {
            Some(
                DeployRequest {
                    game_dir: game_dir->Some_0,
                    entry: entry->Some_0,
                    group: *group,
                },
            )
        } else {
            None
        },
{
    match (game_dir, entry) {
        (Some(d), Some(e)) => if loaded {
            Some(DeployRequest { game_dir: d.clone(), entry: e.copy(), group: group.clone() })
        } else {
            None
        },
        _ => None,
    }
}

/// What is said of a deploy.
pub open spec fn deploy_note(
    kind: Seq<char>,
    filename: Seq<char>,
    group: Seq<char>,
    result: Result<(), String>,
) -> Note {
    match result {
        Ok(_) => info_note("Deployed "@ + filename + " as overlay group "@ + group),
        Err(e) => failure_note(
            kind + " deploy failed"@,
            e@ + "\nGroup: "@ + group + "\nFile: "@ + filename,
        ),
    }
}

/// Reports a deploy.
pub fn report_deploy(
    toasts: &mut Toasts,
    kind: &str,
    filename: &str,
    group: &str,
    result: &Result<(), String>,
)
    ensures
        final(toasts)@ == old(toasts)@.push(deploy_note(kind@, filename@, group@, *result)),
{
    match result {
        Ok(_) => {
            let mut m = "Deployed ".to_owned();
            m.push_str(filename);
            m.push_str(" as overlay group ");
            m.push_str(group);
            toasts.info(m.as_str());
        },
        Err(e) => {
            let mut d = e.clone();
            d.push_str("\nGroup: ");
            d.push_str(group);
            d.push_str("\nFile: ");
            d.push_str(filename);
            toasts.error_with_details(concat2(kind, " deploy failed").as_str(), d.as_str());
        },
    }
}

/// What is said of an overlay group that was to be removed.
pub open spec fn restore_note(
    kind: Seq<char>,
    group: Seq<char>,
    result: Result<(), String>,
) -> Note {
    match result {
        Ok(_) => info_note("Removed "@ + kind + " overlay group "@ + group),
        Err(e) => failure_note("Restore failed"@, e@ + "\nGroup: "@ + group),
    }
}

/// Reports that an overlay group was removed, or why it was not.
pub fn report_restore(
    toasts: &mut Toasts,
    kind: &str,
    group: &str,
    result: &Result<(), String>,
)
    ensures
        final(toasts)@ == old(toasts)@.push(restore_note(kind@, group@, *result)),
{
    match result {
        Ok(_) => {
            let mut m = "Removed ".to_owned();
            m.push_str(kind);
            m.push_str(" overlay group ");
            m.push_str(group);
            toasts.info(m.as_str());
        },
        Err(e) => {
            toasts.error_with_details(
                "Restore failed",
                concat3(e.as_str(), "\nGroup: ", group).as_str(),
            );
        },
    }
}

/// What is said of a file that was to be written to disk.
pub open spec fn save_note(path: Seq<char>, result: Result<(), String>) -> Note {
    match result {
        Ok(_) => info_note("Wrote "@ + path),
        Err(e) => failure_note("Write failed"@, e@ + "\nPath: "@ + path),
    }
}

/// Reports that a file was written to disk, or why it was not.
pub fn report_save(toasts: &mut Toasts, path: &str, result: &Result<(), String>)
    ensures
        final(toasts)@ == old(toasts)@.push(save_note(path@, *result)),
{
    match result {
        Ok(_) => {
            toasts.info(concat2("Wrote ", path).as_str());
        },
        Err(e) => {
            toasts.error_with_details(
                "Write failed",
                concat3(e.as_str(), "\nPath: ", path).as_str(),
            );
        },
    }
}

} // verus!
