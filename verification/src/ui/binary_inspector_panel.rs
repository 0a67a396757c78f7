//! The byte-level editor for files whose layout is not known: picking a file,
//! patches to its bytes, and the way to a byte that a search found.

use vstd::prelude::*;
use crate::byte_patch::{
    add_draft, has_patches, patch_added, preview_note, report_loaded, report_preview, report_saved,
    BytePatchDoc, Drafted, PatchDraft,
};
use crate::digits::{dec, dec_usize};
use crate::rows::picked;
use crate::state::{failure_note, info_note, warn_note, AppState, Note, PendingNav};
use crate::text::{concat3, has_sub, lower_contains, lowercase, same};
use crate::ui::hex_view::HexViewState;

verus! {

broadcast use vstd::seq_lib::group_seq_properties;

/// The overlay group that patches are deployed to at first.
pub const DEFAULT_OVERLAY_GROUP: &'static str = "0069";

/// The extensions of the files that the inspector handles.
pub open spec fn handled_extensions() -> Seq<Seq<char>> {
    seq![
        "paschedule"@,
        "paschedulepath"@,
        "paschedulectx"@,
        "paseqh"@,
        "uianiminit"@,
        "pai"@,
        "pappt"@,
        "patag"@,
        "padock"@,
        "pabc"@,
        "paccd"@,
        "pasg"@,
        "parg"@,
        "pati"@,
        "paem"@,
        "paver"@,
        "pacpph"@,
        "palevel"@,
        "pamhc"@,
        "pab"@,
    ]
}

/// The extensions of the files that the inspector handles.
pub fn allowed_extensions() -> (r: Vec<&'static str>)
    ensures
        r@.map_values(|s: &'static str| s@) == handled_extensions(),
{
    let r = vec![
        "paschedule",
        "paschedulepath",
        "paschedulectx",
        "paseqh",
        "uianiminit",
        "pai",
        "pappt",
        "patag",
        "padock",
        "pabc",
        "paccd",
        "pasg",
        "parg",
        "pati",
        "paem",
        "paver",
        "pacpph",
        "palevel",
        "pamhc",
        "pab",
    ];
    assert(r@.map_values(|s: &'static str| s@) =~= handled_extensions());
    r
}

/// A file in the archives.
#[derive(Debug)]
pub struct BinaryFileEntry {
    pub group: String,
    pub dir_path: String,
    pub filename: String,
    pub extension: String,
}

impl BinaryFileEntry {
    fn copy(&self) -> (r: BinaryFileEntry)
        ensures
            r == *self,
    {
        BinaryFileEntry {
            group: self.group.clone(),
            dir_path: self.dir_path.clone(),
            filename: self.filename.clone(),
            extension: self.extension.clone(),
        }
    }
}

/// What the inspector keeps.
#[derive(Debug)]
pub struct BinaryInspectorSession {
    pub allowed_extensions: Vec<&'static str>,
    /// The switches of extensions; one without a switch is on.
    pub extension_filters: Vec<(String, bool)>,
    /// The files in the archives, once they were looked for.
    pub paz_files: Option<Vec<BinaryFileEntry>>,
    pub paz_filter: String,
    pub file_bytes: Option<Vec<u8>>,
    pub current_entry: Option<BinaryFileEntry>,
    pub patch_doc: Option<BytePatchDoc>,
    pub hex_state: HexViewState,
    pub draft: PatchDraft,
    pub last_patch_path: Option<String>,
    pub overlay_group: String,
}

/// The switch of an extension is on.
pub open spec fn ext_on(v: Seq<(String, bool)>, ext: Seq<char>) -> bool
    decreases v.len(),
{
    if v.len() == 0 {
        true
    } else if v[0].0@ == ext {
        v[0].1
    } else {
        ext_on(v.drop_first(), ext)
    }
}

/// The extensions, each with whether its files are listed.
pub open spec fn filter_values(v: Seq<(String, bool)>) -> Seq<(Seq<char>, bool)> {
    v.map_values(|p: (String, bool)| (p.0@, p.1))
}

impl BinaryInspectorSession {
    /// As it is when the workbench starts.
    pub open spec fn is_fresh(&self) -> bool {
        &&& self.allowed_extensions@.map_values(|s: &'static str| s@) == handled_extensions()
        &&& filter_values(self.extension_filters@) == handled_extensions().map_values(
            |e: Seq<char>| (e, true),
        )
        &&& forall|e: Seq<char>| #[trigger] ext_on(self.extension_filters@, e)
        &&& self.paz_files is None
        &&& self.paz_filter@.len() == 0
        &&& self.file_bytes is None
        &&& self.current_entry is None
        &&& self.patch_doc is None
        &&& self.hex_state == (HexViewState {
            page: 0,
            bytes_per_page: 1024,
            selected_offset: None,
        })
        &&& self.draft.is_blank()
        &&& self.last_patch_path is None
        &&& self.overlay_group@ == DEFAULT_OVERLAY_GROUP@
    }
}

impl Default for BinaryInspectorSession {
    fn default() -> (r: Self)
        ensures
            r.is_fresh(),
    {
        let allowed = allowed_extensions();
        let mut filters: Vec<(String, bool)> = Vec::new();
        let mut i: usize = 0;
        while i < allowed.len()
            invariant
                0 <= i <= allowed.len(),
                filters@.len() == i,
                forall|k: int|
                    0 <= k < filters@.len() ==> (#[trigger] filters@[k]).1 && filters@[k].0@
                        == allowed@[k]@,
            decreases allowed.len() - i,
        {
            filters.push((allowed[i].to_owned(), true));
            i = i + 1;
        }
        proof {
            assert forall|e: Seq<char>| #[trigger] ext_on(filters@, e) by {
                lemma_all_on(filters@, e);
            }
            let names = allowed@.map_values(|s: &'static str| s@);
            assert(names == handled_extensions());
            assert forall|k: int| 0 <= k < filters@.len() implies filter_values(filters@)[k] == (
                handled_extensions()[k],
                true,
            ) by {
                assert(names[k] == allowed@[k]@);
            }
            assert(filter_values(filters@) =~= handled_extensions().map_values(
                |e: Seq<char>| (e, true),
            ));
        }
        BinaryInspectorSession {
            allowed_extensions: allowed,
            extension_filters: filters,
            paz_files: None,
            paz_filter: String::new(),
            file_bytes: None,
            current_entry: None,
            patch_doc: None,
            hex_state: HexViewState::default(),
            draft: PatchDraft::default(),
            last_patch_path: None,
            overlay_group: DEFAULT_OVERLAY_GROUP.to_owned(),
        }
    }
}

proof fn lemma_all_on(v: Seq<(String, bool)>, e: Seq<char>)
    requires
        forall|k: int| 0 <= k < v.len() ==> (#[trigger] v[k]).1,
    ensures
        ext_on(v, e),
    decreases v.len(),
{
    if v.len() > 0 {
        let w = v.drop_first();
        assert forall|k: int| 0 <= k < w.len() implies (#[trigger] w[k]).1 by {
            assert(w[k] == v[k + 1]);
        }
        assert(v[0].1);
        lemma_all_on(w, e);
    }
}

fn ext_position(v: &Vec<(String, bool)>, ext: &str) -> (r: usize)
    ensures
        r <= v@.len(),
        forall|j: int| 0 <= j < r ==> (#[trigger] v@[j]).0@ != ext@,
        r < v@.len() ==> v@[r as int].0@ == ext@,
{
    let mut i: usize = 0;
    while i < v.len()
        invariant
            0 <= i <= v.len(),
            forall|j: int| 0 <= j < i ==> (#[trigger] v@[j]).0@ != ext@,
        decreases v.len() - i,
    {
        if same(v[i].0.as_str(), ext) {
            return i;
        }
        i = i + 1;
    }
    i
}

proof fn lemma_ext_on(v: Seq<(String, bool)>, ext: Seq<char>, i: int)
    requires
        0 <= i <= v.len(),
        forall|j: int| 0 <= j < i ==> (#[trigger] v[j]).0@ != ext,
        i < v.len() ==> v[i].0@ == ext,
    ensures
        ext_on(v, ext) == (i < v.len() ==> v[i].1),
    decreases i,
{
    if i > 0 {
        assert(v[0].0@ != ext);
        let w = v.drop_first();
        assert forall|j: int| 0 <= j < i - 1 implies (#[trigger] w[j]).0@ != ext by {
            assert(w[j] == v[j + 1]);
        }
        lemma_ext_on(w, ext, i - 1);
    }
}

/// Whether the switch of an extension is on.
pub fn extension_enabled(session: &BinaryInspectorSession, ext: &str) -> (r: bool)
    ensures
        r == ext_on(session.extension_filters@, ext@),
{
    let v = &session.extension_filters;
    let i = ext_position(v, ext);
    proof {
        lemma_ext_on(v@, ext@, i as int);
    }
    if i < v.len() {
        v[i].1
    } else {
        true
    }
}

/// Turns the switch of an extension.
pub fn set_extension(session: &mut BinaryInspectorSession, ext: &str, on: bool)
    ensures
        forall|e: Seq<char>|
            #[trigger] ext_on(final(session).extension_filters@, e) == if e == ext@ {
                on
            } else {
                ext_on(old(session).extension_filters@, e)
            },
        *final(session) == (BinaryInspectorSession {
            extension_filters: final(session).extension_filters,
            ..*old(session)
        }),
{
    let i = ext_position(&session.extension_filters, ext);
    let ghost v0 = session.extension_filters@;
    if i < session.extension_filters.len() {
        session.extension_filters[i].1 = on;
    } else {
        session.extension_filters.push((ext.to_owned(), on));
    }
    proof {
        let v1 = session.extension_filters@;
        assert forall|e: Seq<char>| #[trigger] ext_on(v1, e) == if e == ext@ {
            on
        } else {
            ext_on(v0, e)
        } by {
            lemma_switch_set(v0, v1, i as int, ext@, on, e);
        }
    }
}

proof fn lemma_switch_set(
    v0: Seq<(String, bool)>,
    v1: Seq<(String, bool)>,
    i: int,
    ext: Seq<char>,
    on: bool,
    e: Seq<char>,
)
    requires
        0 <= i <= v0.len(),
        v1.len() == if i < v0.len() {
            v0.len()
        } else {
            v0.len() + 1
        },
        forall|j: int| 0 <= j < v0.len() && j != i ==> #[trigger] v1[j] == v0[j],
        v1[i].0@ == ext,
        v1[i].1 == on,
        i < v0.len() ==> v0[i].0@ == ext,
        forall|j: int| 0 <= j < i ==> (#[trigger] v0[j]).0@ != ext,
    ensures
        ext_on(v1, e) == if e == ext {
            on
        } else {
            ext_on(v0, e)
        },
    decreases v0.len(),
{
    if i == 0 {
        if v0.len() == 0 {
            assert(v1.drop_first() =~= v0);
        } else {
            assert(v1.drop_first() =~= v0.drop_first()) by {
                assert forall|j: int| 0 <= j < v0.len() - 1 implies v1.drop_first()[j]
                    == v0.drop_first()[j] by {
                    assert(v1[j + 1] == v0[j + 1]);
                }
            }
        }
    } else {
        assert(v1[0] == v0[0]);
        let (w0, w1) = (v0.drop_first(), v1.drop_first());
        assert forall|j: int| 0 <= j < w0.len() && j != i - 1 implies #[trigger] w1[j]
            == w0[j] by {
            assert(v1[j + 1] == v0[j + 1]);
        }
        assert forall|j: int| 0 <= j < i - 1 implies (#[trigger] w0[j]).0@ != ext by {
            assert(w0[j] == v0[j + 1]);
        }
        lemma_switch_set(w0, w1, i - 1, ext, on, e);
    }
}

/// A file is offered: the switch of its extension is on, and the filter text
/// stands in its name, its directory or its group.
pub open spec fn file_kept(
    files: Seq<BinaryFileEntry>,
    switches: Seq<(String, bool)>,
    filter: Seq<char>,
) -> spec_fn(int) -> bool {
    |i: int|
        {
            let e = files[i];
            let f = lowercase(filter);
            &&& ext_on(switches, e.extension@)
            &&& f.len() == 0 || has_sub(lowercase(e.filename@), f) || has_sub(
                lowercase(e.dir_path@),
                f,
            ) || has_sub(lowercase(e.group@), f)
        }
}

/// The files that are offered.
pub fn visible_files(session: &BinaryInspectorSession, files: &Vec<BinaryFileEntry>) -> (r: Vec<
    usize,
>)
    ensures
        r@ == picked(
            files@.len(),
            file_kept(files@, session.extension_filters@, session.paz_filter@),
        ),
{
    let f = session.paz_filter.as_str().to_lowercase();
    let ghost keep = file_kept(files@, session.extension_filters@, session.paz_filter@);
    let mut out: Vec<usize> = Vec::new();
    let mut i: usize = 0;
    while i < files.len()
        invariant
            0 <= i <= files.len(),
            f@ == lowercase(session.paz_filter@),
            keep == file_kept(files@, session.extension_filters@, session.paz_filter@),
            out@ == picked(i as nat, keep),
        decreases files.len() - i,
    {
        let e = &files[i];
        if extension_enabled(session, e.extension.as_str()) && (f.as_str().is_empty()
            || lower_contains(e.filename.as_str(), f.as_str()) || lower_contains(
            e.dir_path.as_str(),
            f.as_str(),
        ) || lower_contains(e.group.as_str(), f.as_str())) {
            out.push(i);
        }
        i = i + 1;
    }
    out
}

/// Takes over the files that were found in the archives, or says why they could
/// not be looked for. Nothing was looked for without a game directory.
pub fn browse_done(
    state: &mut AppState,
    found: Option<Result<Vec<BinaryFileEntry>, String>>,
)
    ensures
        match found {
            None => {
                &&& final(state).toasts@ == old(state).toasts@.push(
                    warn_note("Set the Game Directory first."@),
                )
                &&& *final(state) == (AppState { toasts: final(state).toasts, ..*old(state) })
            },
            Some(Ok(files)) => {
                &&& final(state).toasts@ == old(state).toasts@.push(
                    info_note("Found "@ + dec(files@.len()) + " binary file(s)."@),
                )
                &&& *final(state) == (AppState {
                    toasts: final(state).toasts,
                    binary_inspector: BinaryInspectorSession {
                        paz_files: Some(files),
                        ..old(state).binary_inspector
                    },
                    ..*old(state)
                })
            },
            Some(Err(e)) => {
                &&& final(state).toasts@ == old(state).toasts@.push(
                    failure_note("PAZ scan failed"@, e@),
                )
                &&& *final(state) == (AppState { toasts: final(state).toasts, ..*old(state) })
            },
        },
{
    match found {
        None => {
            state.toasts.warn("Set the Game Directory first.");
        },
        Some(r) => match r {
            Ok(files) => {
                let m = concat3("Found ", dec_usize(files.len()).as_str(), " binary file(s).");
                state.binary_inspector.paz_files = Some(files);
                state.toasts.info(m.as_str());
            },
            Err(e) => {
                state.toasts.error_with_details("PAZ scan failed", e.as_str());
            },
        },
    }
}

/// The line on the file that is loaded.
pub fn loaded_line(e: &BinaryFileEntry) -> (r: String)
    ensures
        r@ == "Loaded: ["@ + e.group@ + "] "@ + e.filename@ + " ("@ + e.dir_path@ + ")  [."@
            + e.extension@ + "]"@,
{
    let mut s = "Loaded: [".to_owned();
    s.push_str(e.group.as_str());
    s.push_str("] ");
    s.push_str(e.filename.as_str());
    s.push_str(" (");
    s.push_str(e.dir_path.as_str());
    s.push_str(")  [.");
    s.push_str(e.extension.as_str());
    s.push_str("]");
    s
}

/// The game directory to load a file from. Where none is set, that is said.
pub fn load_dir(state: &mut AppState) -> (r: Option<String>)
    ensures
        r == old(state).game_dir,
        r is Some ==> *final(state) == *old(state),
        r is None ==> final(state).toasts@ == old(state).toasts@.push(
            warn_note("Set the Game Directory first."@),
        ) && *final(state) == (AppState { toasts: final(state).toasts, ..*old(state) }),
{
    match &state.game_dir {
        Some(d) => Some(d.clone()),
        None => {
            state.toasts.warn("Set the Game Directory first.");
            None
        },
    }
}

/// A fresh list of patches for a file.
pub open spec fn fresh_doc(d: Option<BytePatchDoc>, dir: String, file: String) -> bool {
    d matches Some(x) && x.dir_path == dir && x.filename == file && x.description@.len() == 0
        && x.patches@.len() == 0
}

/// A file was read, or could not be.
pub open spec fn file_loaded(
    before: AppState,
    after: AppState,
    entry: BinaryFileEntry,
    result: Result<Vec<u8>, String>,
) -> bool {
    match result {
        Ok(bytes) => {
            &&& fresh_doc(after.binary_inspector.patch_doc, entry.dir_path, entry.filename)
            &&& after.toasts@ == before.toasts@.push(
                info_note("Loaded "@ + entry.filename@ + " ("@ + dec(bytes@.len()) + " bytes)"@),
            )
            &&& after == (AppState {
                toasts: after.toasts,
                binary_inspector: BinaryInspectorSession {
                    file_bytes: Some(bytes),
                    current_entry: Some(entry),
                    hex_state: HexViewState {
                        page: 0,
                        bytes_per_page: 1024,
                        selected_offset: None,
                    },
                    patch_doc: after.binary_inspector.patch_doc,
                    ..before.binary_inspector
                },
                ..before
            })
        },
        Err(e) => {
            &&& after.toasts@ == before.toasts@.push(
                failure_note("Binary file read failed"@, e@ + "\nFile: "@ + entry.filename@),
            )
            &&& after == (AppState { toasts: after.toasts, ..before })
        },
    }
}

/// Takes over a file that was read, or says why it could not be.
pub fn load_file_from_paz(
    state: &mut AppState,
    entry: &BinaryFileEntry,
    result: Result<Vec<u8>, String>,
)
    ensures
        file_loaded(*old(state), *final(state), *entry, result),
{
    match result {
        Ok(bytes) => {
            let mut m = "Loaded ".to_owned();
            m.push_str(entry.filename.as_str());
            m.push_str(" (");
            m.push_str(dec_usize(bytes.len()).as_str());
            m.push_str(" bytes)");
            state.binary_inspector.file_bytes = Some(bytes);
            state.binary_inspector.current_entry = Some(entry.copy());
            state.binary_inspector.hex_state = HexViewState::default();
            state.binary_inspector.patch_doc = Some(
                BytePatchDoc::new(entry.dir_path.clone(), entry.filename.clone()),
            );
            state.toasts.info(m.as_str());
        },
        Err(e) => {
            let d = concat3(e.as_str(), "\nFile: ", entry.filename.as_str());
            state.toasts.error_with_details("Binary file read failed", d.as_str());
        },
    }
}

/// A file is the one that is loaded.
pub open spec fn is_current(
    cur: Option<BinaryFileEntry>,
    group: Seq<char>,
    dir: Seq<char>,
    file: Seq<char>,
) -> bool {
    cur matches Some(c) && c.group@ == group && c.dir_path@ == dir && c.filename@ == file
}

/// What a waiting search hit asks of the inspector.
#[derive(Debug)]
pub struct NavPlan {
    /// The file to load first, where it is not the one that is loaded.
    pub load: Option<BinaryFileEntry>,
    pub byte_offset: Option<usize>,
}

/// Takes a waiting search hit for the inspector out of the queue. The switch of
/// its extension is turned on. A hit for another editor is left.
pub fn consume_pending_nav(state: &mut AppState) -> (r: Option<NavPlan>)
    ensures
        match old(state).pending_global_nav {
            Some(
                PendingNav::BinaryInspector { ext, paz_group, dir_path, filename, byte_offset },
            ) => {
                let before = old(state).binary_inspector;
                let after = final(state).binary_inspector;
                &&& r matches Some(p) && {
                    &&& p.byte_offset == byte_offset
                    &&& p.load == if is_current(
                        before.current_entry,
                        paz_group@,
                        dir_path@,
                        filename@,
                    ) {
                        None
                    } else {
                        Some(
                            BinaryFileEntry {
                                group: paz_group,
                                dir_path,
                                filename,
                                extension: ext,
                            },
                        )
                    }
                }
                &&& forall|e: Seq<char>|
                    #[trigger] ext_on(after.extension_filters@, e) == (e == ext@ || ext_on(
                        before.extension_filters@,
                        e,
                    ))
                &&& *final(state) == (AppState {
                    pending_global_nav: None,
                    binary_inspector: BinaryInspectorSession {
                        extension_filters: after.extension_filters,
                        ..before
                    },
                    ..*old(state)
                })
            },
            _ => r is None && *final(state) == *old(state),
        },
{
    let (entry, offset) = match &state.pending_global_nav {
        Some(
            PendingNav::BinaryInspector { ext, paz_group, dir_path, filename, byte_offset },
        ) => (
            BinaryFileEntry {
                group: paz_group.clone(),
                dir_path: dir_path.clone(),
                filename: filename.clone(),
                extension: ext.clone(),
            },
            *byte_offset,
        ),
        _ => {
            return None;
        },
    };
    state.pending_global_nav = None;
    set_extension(&mut state.binary_inspector, entry.extension.as_str(), true);
    let current = match &state.binary_inspector.current_entry {
        Some(c) => same(c.group.as_str(), entry.group.as_str()) && same(
            c.dir_path.as_str(),
            entry.dir_path.as_str(),
        ) && same(c.filename.as_str(), entry.filename.as_str()),
        None => false,
    };
    Some(
        NavPlan {
            load: if current {
                None
            } else {
                Some(entry)
            },
            byte_offset: offset,
        },
    )
}

/// Where a byte view goes for an offset: to that byte, or to the last one where
/// the content ends before it.
pub open spec fn positioned(h: HexViewState, offset: usize, len: nat) -> HexViewState {
    let at: usize = if len == 0 {
        0
    } else if offset < len {
        offset
    } else {
        (len - 1) as usize
    };
    HexViewState {
        selected_offset: Some(at),
        page: if h.bytes_per_page > 0 {
            (at / h.bytes_per_page) as usize
        } else {
            h.page
        },
        ..h
    }
}

/// Moves the byte view to an offset of the file, where one is loaded.
pub fn position_hex(state: &mut AppState, offset: usize)
    ensures
        match old(state).binary_inspector.file_bytes {
            Some(b) => *final(state) == (AppState {
                binary_inspector: BinaryInspectorSession {
                    hex_state: positioned(
                        old(state).binary_inspector.hex_state,
                        offset,
                        b@.len(),
                    ),
                    ..old(state).binary_inspector
                },
                ..*old(state)
            }),
            None => *final(state) == *old(state),
        },
{
    let len = match &state.binary_inspector.file_bytes {
        Some(b) => b.len(),
        None => {
            return;
        },
    };
    let at: usize = if len == 0 {
        0
    } else if offset < len {
        offset
    } else {
        len - 1
    };
    state.binary_inspector.hex_state.selected_offset = Some(at);
    let size = state.binary_inspector.hex_state.bytes_per_page;
    if size > 0 {
        state.binary_inspector.hex_state.page = at / size;
    }
}

/// A search hit leads to a page that there is, where the file has a byte at all.
pub proof fn law_positioned_on_a_page(h: HexViewState, offset: usize, len: nat)
    requires
        0 < len <= usize::MAX,
        h.bytes_per_page > 0,
    ensures
        crate::ui::hex_view::on_a_page(positioned(h, offset, len), len),
        positioned(h, offset, len).selected_offset matches Some(o) && o < len,
{
    let at: nat = if offset < len {
        offset as nat
    } else {
        (len - 1) as nat
    };
    crate::ui::hex_view::law_every_byte_on_its_page(len, at, h.bytes_per_page as nat);
}

/// Adds the drafted patch to the list, or says what is missing.
pub fn add_patch_from_draft(state: &mut AppState)
    ensures
        ({
            let before = old(state).binary_inspector;
            let after = final(state).binary_inspector;
            &&& exists|r: Drafted| #[trigger]
                patch_added(
                    (before.draft, after.draft),
                    (before.patch_doc, after.patch_doc),
                    (old(state).toasts@, final(state).toasts@),
                    r,
                )
            &&& *final(state) == (AppState {
                toasts: final(state).toasts,
                binary_inspector: BinaryInspectorSession {
                    draft: after.draft,
                    patch_doc: after.patch_doc,
                    ..before
                },
                ..*old(state)
            })
        }),
{
    add_draft(
        &mut state.binary_inspector.draft,
        &mut state.binary_inspector.patch_doc,
        &mut state.toasts,
    );
}

/// Whether the patches can be deployed.
pub fn can_deploy(state: &AppState) -> (r: bool)
    ensures
        r == (state.game_dir is Some && (state.binary_inspector.patch_doc matches Some(d)
            && d.patches@.len() > 0)),
{
    state.game_dir.is_some() && has_patches(&state.binary_inspector.patch_doc)
}

/// The game directory and the overlay group to deploy the patches to, where
/// there are a directory and a list of patches.
pub fn deploy_request(state: &AppState) -> (r: Option<(String, String)>)
    ensures
        match (state.game_dir, state.binary_inspector.patch_doc) {
            (Some(d), Some(_)) => r == Some((d, state.binary_inspector.overlay_group)),
            _ => r is None,
        },
{
    match (&state.game_dir, &state.binary_inspector.patch_doc) {
        (Some(d), Some(_)) => Some((d.clone(), state.binary_inspector.overlay_group.clone())),
        _ => None,
    }
}

/// What is said when the patches were deployed to a group, or could not be.
pub open spec fn deploy_note(group: Seq<char>, result: Result<(), String>) -> Note {
    match result {
        Ok(_) => info_note(
            "Deployed binary inspector overlay to group "@ + group + ". Restart the game."@,
        ),
        Err(e) => failure_note(
            "Binary inspector deploy failed"@,
            e@ + "\nGroup: "@ + group,
        ),
    }
}

/// Says how the deploy of the patches went.
pub fn apply_editor_patches(state: &mut AppState, group: &str, result: &Result<(), String>)
    ensures
        final(state).toasts@ == old(state).toasts@.push(deploy_note(group@, *result)),
        *final(state) == (AppState { toasts: final(state).toasts, ..*old(state) }),
{
    match result {
        Ok(_) => {
            let m = concat3(
                "Deployed binary inspector overlay to group ",
                group,
                ". Restart the game.",
            );
            state.toasts.info(m.as_str());
        },
        Err(e) => {
            let d = concat3(e.as_str(), "\nGroup: ", group);
            state.toasts.error_with_details("Binary inspector deploy failed", d.as_str());
        },
    }
}

/// Says how many bytes the patches change. `out` is the content with the
/// patches applied, or why they cannot be.
pub fn preview_patches(state: &mut AppState, out: &Result<Vec<u8>, String>)
    ensures
        final(state).toasts@ == match (
            old(state).binary_inspector.file_bytes,
            old(state).binary_inspector.patch_doc,
        ) {
            (Some(b), Some(d)) => old(state).toasts@.push(
                preview_note(b@, d.patches@.len(), *out),
            ),
            _ => old(state).toasts@,
        },
        *final(state) == (AppState { toasts: final(state).toasts, ..*old(state) }),
{
    report_preview(
        &state.binary_inspector.file_bytes,
        &state.binary_inspector.patch_doc,
        out,
        &mut state.toasts,
    );
}

/// Says how the saving of the patches to a file went. An error says whether the
/// file was being written.
pub fn save_patch_doc(state: &mut AppState, path: &String, result: &Result<(), (bool, String)>)
    ensures
        final(state).binary_inspector.last_patch_path == match *result {
            Ok(_) => Some(*path),
            Err(_) => old(state).binary_inspector.last_patch_path,
        },
        final(state).toasts@ == old(state).toasts@.push(
            match *result {
                Ok(_) => info_note("Saved patch to "@ + path@),
                Err((written, e)) => if written {
                    failure_note("Write failed"@, e@ + "\nPath: "@ + path@)
                } else {
                    failure_note("Serialize failed"@, e@)
                },
            },
        ),
        *final(state) == (AppState {
            toasts: final(state).toasts,
            binary_inspector: BinaryInspectorSession {
                last_patch_path: final(state).binary_inspector.last_patch_path,
                ..old(state).binary_inspector
            },
            ..*old(state)
        }),
{
    report_saved(
        &mut state.binary_inspector.last_patch_path,
        &mut state.toasts,
        path,
        result,
    );
}

/// Takes over patches that were read from a file, or says why they could not be.
/// An error says whether the file itself was read.
pub fn load_patch_doc(
    state: &mut AppState,
    path: &String,
    result: Result<BytePatchDoc, (bool, String)>,
)
    ensures
        match result {
            Ok(d) => {
                &&& final(state).toasts@ == old(state).toasts@.push(
                    info_note("Loaded patch JSON: "@ + path@),
                )
                &&& *final(state) == (AppState {
                    toasts: final(state).toasts,
                    binary_inspector: BinaryInspectorSession {
                        patch_doc: Some(d),
                        last_patch_path: Some(*path),
                        ..old(state).binary_inspector
                    },
                    ..*old(state)
                })
            },
            Err((was_read, e)) => {
                &&& final(state).toasts@ == old(state).toasts@.push(
                    failure_note(
                        if was_read {
                            "Patch JSON parse failed"@
                        } else {
                            "Read failed"@
                        },
                        e@ + "\nPath: "@ + path@,
                    ),
                )
                &&& *final(state) == (AppState { toasts: final(state).toasts, ..*old(state) })
            },
        },
{
    report_loaded(
        &mut state.binary_inspector.patch_doc,
        &mut state.binary_inspector.last_patch_path,
        &mut state.toasts,
        path,
        result,
    );
}

} // verus!
