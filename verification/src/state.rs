//! What the panels share: messages, open tables, edits, searches and settings.

use std::collections::HashMap;
use std::sync::atomic::AtomicBool;
use std::sync::Arc;
use vstd::prelude::*;
use crate::json::{Json, Tree};
use crate::text::same;
use crate::ui::archive_panel::ArchiveSession;
use crate::ui::backup_panel::Snapshot;
use crate::ui::binary_inspector_panel::BinaryInspectorSession;
use crate::ui::command_palette::CommandPalette;
use crate::ui::conflict_panel::{ConflictReport, LoadedMod};
use crate::ui::hex_view::HexViewState;
use crate::ui::library_panel::{LibraryMod, ProfileStore};
use crate::ui::lint_panel::LintFinding;
use crate::ui::paac_panel::PaacSession;
use crate::ui::paatt_panel::PaattSession;
use crate::ui::paloc_panel::PalocSession;
use crate::ui::pamhc_panel::PamhcSession;
use crate::ui::pappt_panel::PapptSession;
use crate::ui::paseq_panel::PaseqSession;
use crate::ui::settings_panel::Config;
use crate::ui::templates_panel::{Template, TemplatesPanelState};

verus! {

broadcast use {vstd::seq_lib::group_seq_properties, vstd::std_specs::hash::group_hash_axioms};

/// How serious a message is.
#[derive(Clone, Copy, Debug, PartialEq, Eq, Structural)]
pub enum Level {
    Info,
    Warn,
    Error,
}

/// A message for the user, with details to unfold where there are any.
#[derive(Debug)]
pub struct Toast {
    pub level: Level,
    pub message: String,
    pub details: Option<String>,
}

/// What a message says.
pub struct Note {
    pub level: Level,
    pub message: Seq<char>,
    pub details: Option<Seq<char>>,
}

impl View for Toast {
    type V = Note;

    open spec fn view(&self) -> Note {
        Note {
            level: self.level,
            message: self.message@,
            details: match self.details {
                Some(d) => Some(d@),
                None => None,
            },
        }
    }
}

/// The message list, oldest first.
#[derive(Debug)]
pub struct Toasts {
    pub items: Vec<Toast>,
}

impl View for Toasts {
    type V = Seq<Note>;

    open spec fn view(&self) -> Seq<Note> {
        self.items@.map_values(|t: Toast| t@)
    }
}

/// An information.
pub open spec fn info_note(message: Seq<char>) -> Note {
    Note { level: Level::Info, message, details: None }
}

/// A warning.
pub open spec fn warn_note(message: Seq<char>) -> Note {
    Note { level: Level::Warn, message, details: None }
}

/// An error.
pub open spec fn error_note(message: Seq<char>) -> Note {
    Note { level: Level::Error, message, details: None }
}

/// An error with details.
pub open spec fn failure_note(message: Seq<char>, details: Seq<char>) -> Note {
    Note { level: Level::Error, message, details: Some(details) }
}

impl Toasts {
    /// No messages.
    pub fn new() -> (r: Toasts)
        ensures
            r@ == Seq::<Note>::empty(),
    {
        let r = Toasts { items: Vec::new() };
        assert(r@ =~= Seq::<Note>::empty());
        r
    }

    fn push(&mut self, t: Toast)
        ensures
            final(self)@ == old(self)@.push(t@),
    {
        let ghost before = self@;
        let ghost n = t@;
        self.items.push(t);
        assert(self@ =~= before.push(n));
    }

    /// Adds an information.
    pub fn info(&mut self, message: &str)
        ensures
            final(self)@ == old(self)@.push(info_note(message@)),
    {
        self.push(Toast { level: Level::Info, message: message.to_owned(), details: None });
    }

    /// Adds a warning.
    pub fn warn(&mut self, message: &str)
        ensures
            final(self)@ == old(self)@.push(warn_note(message@)),
    {
        self.push(Toast { level: Level::Warn, message: message.to_owned(), details: None });
    }

    /// Adds an error.
    pub fn error(&mut self, message: &str)
        ensures
            final(self)@ == old(self)@.push(error_note(message@)),
    {
        self.push(Toast { level: Level::Error, message: message.to_owned(), details: None });
    }

    /// Adds an error with details.
    pub fn error_with_details(&mut self, message: &str, details: &str)
        ensures
            final(self)@ == old(self)@.push(failure_note(message@, details@)),
    {
        self.push(
            Toast {
                level: Level::Error,
                message: message.to_owned(),
                details: Some(details.to_owned()),
            },
        );
    }
}

/// The views of the central panel.
#[derive(Clone, Copy, Debug, PartialEq, Eq, Structural)]
pub enum MainView {
    PabgbTables,
    Paloc,
    Paseq,
    Backups,
    Conflicts,
    Lint,
    Settings,
    Library,
    Templates,
    Wizards,
    Xml,
    Archive,
    Paatt,
    Paac,
    Pappt,
    Pamhc,
    BinaryInspector,
    GlobalSearch,
}

/// A file that a search hit leads to, waiting for its editor.
#[derive(Debug)]
pub enum PendingNav {
    Paloc { lang: String, hash_id: u64 },
    Xml { paz_group: String, dir_path: String, filename: String },
    Paatt { paz_group: String, dir_path: String, filename: String },
    Paac { paz_group: String, dir_path: String, filename: String },
    Pappt { paz_group: String, dir_path: String, filename: String },
    Pamhc { paz_group: String, dir_path: String, filename: String },
    BinaryInspector {
        ext: String,
        paz_group: String,
        dir_path: String,
        filename: String,
        byte_offset: Option<usize>,
    },
}

/// How far a table has come.
#[derive(Debug)]
pub enum LoadState {
    Loading,
    Loaded,
    Error(String),
}

/// The fields of an entry that differ from the shipped data, by entry key.
#[derive(Debug)]
pub struct ChangeTracker {
    /// Pairs of an entry key and a field path, each pair once, oldest first.
    pub modified: Vec<(u64, String)>,
}

impl View for ChangeTracker {
    type V = Seq<(u64, Seq<char>)>;

    open spec fn view(&self) -> Seq<(u64, Seq<char>)> {
        self.modified@.map_values(|p: (u64, String)| (p.0, p.1@))
    }
}

/// The list with the pair at its end, unless it is there already.
pub open spec fn with_change(
    c: Seq<(u64, Seq<char>)>,
    key: u64,
    path: Seq<char>,
) -> Seq<(u64, Seq<char>)> {
    if c.contains((key, path)) {
        c
    } else {
        c.push((key, path))
    }
}

/// Any pair but this one.
pub open spec fn other_pair(key: u64, path: Seq<char>) -> spec_fn((u64, Seq<char>)) -> bool {
    |p: (u64, Seq<char>)| p != (key, path)
}

/// Any pair of another entry.
pub open spec fn other_entry(key: u64) -> spec_fn((u64, Seq<char>)) -> bool {
    |p: (u64, Seq<char>)| p.0 != key
}

/// The list without the pair.
pub open spec fn without_change(
    c: Seq<(u64, Seq<char>)>,
    key: u64,
    path: Seq<char>,
) -> Seq<(u64, Seq<char>)> {
    c.filter(other_pair(key, path))
}

/// The list without the pairs of one entry.
pub open spec fn without_entry(c: Seq<(u64, Seq<char>)>, key: u64) -> Seq<(u64, Seq<char>)> {
    c.filter(other_entry(key))
}

/// Some field of the entry is changed.
pub open spec fn entry_changed(c: Seq<(u64, Seq<char>)>, key: u64) -> bool {
    exists|i: int| 0 <= i < c.len() && (#[trigger] c[i]).0 == key
}

proof fn lemma_filter_once(c: Seq<(u64, Seq<char>)>, keep: spec_fn((u64, Seq<char>)) -> bool)
    requires
        c.no_duplicates(),
    ensures
        c.filter(keep).no_duplicates(),
        forall|p: (u64, Seq<char>)| #[trigger] c.filter(keep).contains(p) ==> c.contains(p),
    decreases c.len(),
{
    reveal(Seq::filter);
    if c.len() > 0 {
        let d = c.drop_last();
        lemma_filter_once(d, keep);
        assert forall|p: (u64, Seq<char>)| #[trigger] c.filter(keep).contains(p) implies c.contains(
            p,
        ) by {
            let k = choose|k: int| 0 <= k < c.filter(keep).len() && c.filter(keep)[k] == p;
            if k < d.filter(keep).len() {
                assert(d.filter(keep).contains(p));
                let j = choose|j: int| 0 <= j < d.len() && d[j] == p;
                assert(c[j] == p);
            } else {
                assert(c[c.len() - 1] == p);
            }
        }
        if d.filter(keep).contains(c.last()) {
            let j = choose|j: int| 0 <= j < d.len() && d[j] == c.last();
            assert(c[j] == c[c.len() - 1]);
        }
    }
}

/// Each change is noted once, whatever is noted and forgotten.
pub proof fn law_changes_once(c: Seq<(u64, Seq<char>)>, key: u64, path: Seq<char>)
    requires
        c.no_duplicates(),
    ensures
        with_change(c, key, path).no_duplicates(),
        without_change(c, key, path).no_duplicates(),
        without_entry(c, key).no_duplicates(),
{
    lemma_filter_once(c, other_pair(key, path));
    lemma_filter_once(c, other_entry(key));
}

impl ChangeTracker {
    /// No changes.
    pub fn new() -> (r: ChangeTracker)
        ensures
            r@ == Seq::<(u64, Seq<char>)>::empty(),
    {
        let r = ChangeTracker { modified: Vec::new() };
        assert(r@ =~= Seq::<(u64, Seq<char>)>::empty());
        r
    }

    fn holds(&self, key: u64, path: &str) -> (r: bool)
        ensures
            r == self@.contains((key, path@)),
    {
        let mut i: usize = 0;
        while i < self.modified.len()
            invariant
                0 <= i <= self.modified.len(),
                forall|j: int| 0 <= j < i ==> self@[j] != (key, path@),
            decreases self.modified.len() - i,
        {
            if self.modified[i].0 == key && same(self.modified[i].1.as_str(), path) {
                assert(self@[i as int] == (key, path@));
                return true;
            }
            i = i + 1;
        }
        false
    }

    /// Notes that a field of an entry is changed.
    pub fn record_change(&mut self, key: u64, path: String)
        ensures
            final(self)@ == with_change(old(self)@, key, path@),
    {
        if !self.holds(key, path.as_str()) {
            let ghost before = self@;
            let ghost p = path@;
            self.modified.push((key, path));
            assert(self@ =~= before.push((key, p)));
        }
    }

    /// Forgets the change of one field.
    pub fn unrecord_field(&mut self, key: u64, path: &str)
        ensures
            final(self)@ == without_change(old(self)@, key, path@),
    {
        let ghost all = self@;
        let ghost keep = other_pair(key, path@);
        let mut kept: Vec<(u64, String)> = Vec::new();
        let mut i: usize = 0;
        assert(all.take(0).filter(keep) =~= Seq::empty()) by {
            reveal(Seq::filter);
        }
        while i < self.modified.len()
            invariant
                0 <= i <= self.modified.len(),
                all == self@,
                keep == other_pair(key, path@),
                kept@.map_values(|p: (u64, String)| (p.0, p.1@)) == all.take(i as int).filter(keep),
            decreases self.modified.len() - i,
        {
            proof {
                assert(all.take(i + 1).drop_last() =~= all.take(i as int));
                reveal(Seq::filter);
            }
            if !(self.modified[i].0 == key && same(self.modified[i].1.as_str(), path)) {
                let ghost k0 = kept@;
                let pair = (self.modified[i].0, self.modified[i].1.clone());
                kept.push(pair);
                assert(kept@.map_values(|p: (u64, String)| (p.0, p.1@)) =~= k0.map_values(
                    |p: (u64, String)| (p.0, p.1@),
                ).push((pair.0, pair.1@)));
            }
            i = i + 1;
        }
        assert(all.take(all.len() as int) =~= all);
        self.modified = kept;
    }

    /// Forgets the changes of one entry.
    pub fn unrecord_entry(&mut self, key: u64)
        ensures
            final(self)@ == without_entry(old(self)@, key),
    {
        let ghost all = self@;
        let ghost keep = other_entry(key);
        let mut kept: Vec<(u64, String)> = Vec::new();
        let mut i: usize = 0;
        assert(all.take(0).filter(keep) =~= Seq::empty()) by {
            reveal(Seq::filter);
        }
        while i < self.modified.len()
            invariant
                0 <= i <= self.modified.len(),
                all == self@,
                keep == other_entry(key),
                kept@.map_values(|p: (u64, String)| (p.0, p.1@)) == all.take(i as int).filter(keep),
            decreases self.modified.len() - i,
        {
            proof {
                assert(all.take(i + 1).drop_last() =~= all.take(i as int));
                reveal(Seq::filter);
            }
            if self.modified[i].0 != key {
                let ghost k0 = kept@;
                let pair = (self.modified[i].0, self.modified[i].1.clone());
                kept.push(pair);
                assert(kept@.map_values(|p: (u64, String)| (p.0, p.1@)) =~= k0.map_values(
                    |p: (u64, String)| (p.0, p.1@),
                ).push((pair.0, pair.1@)));
            }
            i = i + 1;
        }
        assert(all.take(all.len() as int) =~= all);
        self.modified = kept;
    }

    /// Whether some field of the entry is changed.
    pub fn is_entry_modified(&self, key: u64) -> (r: bool)
        ensures
            r == entry_changed(self@, key),
    {
        let mut i: usize = 0;
        while i < self.modified.len()
            invariant
                0 <= i <= self.modified.len(),
                forall|j: int| 0 <= j < i ==> (#[trigger] self@[j]).0 != key,
            decreases self.modified.len() - i,
        {
            if self.modified[i].0 == key {
                assert(self@[i as int].0 == key);
                return true;
            }
            i = i + 1;
        }
        false
    }

    /// The number of changed fields.
    pub fn change_count(&self) -> (r: usize)
        ensures
            r == self@.len(),
    {
        self.modified.len()
    }
}

/// One edit: a field of an entry, with its value before and after. The path of
/// an edit to a whole entry is empty.
#[derive(Debug)]
pub struct EditOp {
    pub table: String,
    pub entry_key: u64,
    pub field_path: String,
    pub old_value: Json,
    pub new_value: Json,
    /// When it was made, in milliseconds of the session clock.
    pub timestamp: u64,
}

/// What an edit says.
pub struct Edit {
    pub table: Seq<char>,
    pub entry_key: u64,
    pub field_path: Seq<char>,
    pub old_value: Tree,
    pub new_value: Tree,
    pub timestamp: u64,
}

impl View for EditOp {
    type V = Edit;

    open spec fn view(&self) -> Edit {
        Edit {
            table: self.table@,
            entry_key: self.entry_key,
            field_path: self.field_path@,
            old_value: self.old_value@,
            new_value: self.new_value@,
            timestamp: self.timestamp,
        }
    }
}

/// The edits of a table. Those before the cursor are applied, those from it on
/// can be redone.
#[derive(Debug)]
pub struct EditHistory {
    pub ops: Vec<EditOp>,
    pub position: usize,
}

impl EditHistory {
    /// The cursor stands within the edits.
    pub open spec fn wf(&self) -> bool {
        self.position <= self.ops.len()
    }

    /// What the edits say.
    pub open spec fn edits(&self) -> Seq<Edit> {
        self.ops@.map_values(|o: EditOp| o@)
    }

    /// No edits.
    pub fn new() -> (r: EditHistory)
        ensures
            r.wf(),
            r.edits() == Seq::<Edit>::empty(),
            r.ops@.len() == 0,
            r.position == 0,
    {
        let r = EditHistory { ops: Vec::new(), position: 0 };
        assert(r.edits() =~= Seq::<Edit>::empty());
        r
    }

    /// Adds an edit behind the applied ones. What could have been redone is gone.
    pub fn record(&mut self, op: EditOp)
        requires
            old(self).wf(),
        ensures
            final(self).wf(),
            final(self).edits() == old(self).edits().take(old(self).position as int).push(op@),
            final(self).position == old(self).position + 1,
    {
        let ghost e0 = self.edits();
        let ghost o = op@;
        self.ops.truncate(self.position);
        self.ops.push(op);
        self.position = self.ops.len();
        assert(self.edits() =~= e0.take(old(self).position as int).push(o));
    }
}

/// An open table.
#[derive(Debug)]
pub struct ActiveTable {
    pub dispatch_name: String,
    pub load_state: LoadState,
    /// The entries as they stand, and the key that names each one. The key of an
    /// entry that was changed is taken over with `AppState::renew_entry_key`.
    pub entries: Vec<Json>,
    pub entry_keys: Vec<u64>,
    /// The entries as shipped.
    pub vanilla: Vec<Json>,
    pub column_names: Vec<String>,
    /// The positions of the entries that the search leaves visible.
    pub filtered_indices: Vec<usize>,
    pub selected_entry_idx: Option<usize>,
    pub changes: ChangeTracker,
    pub history: EditHistory,
    /// The bytes that the table was read from.
    pub raw_pabgb: Option<Vec<u8>>,
    pub show_hex_view: bool,
    pub hex_view_state: HexViewState,
    /// The search text that `filtered_indices` stands for.
    pub last_filter: String,
    /// The search text a frame ago, and when it last changed.
    pub prev_frame_filter: String,
    pub last_filter_change: u64,
}

impl ActiveTable {
    /// Every entry has its key, and the history cursor stands within the history.
    pub open spec fn wf(&self) -> bool {
        self.entry_keys.len() == self.entries.len() && self.history.wf()
    }

    /// An empty table that waits for its entries.
    pub open spec fn is_placeholder(&self, name: Seq<char>) -> bool {
        &&& self.dispatch_name@ == name
        &&& self.load_state is Loading
        &&& self.entries@.len() == 0
        &&& self.entry_keys@.len() == 0
        &&& self.vanilla@.len() == 0
        &&& self.column_names@.len() == 0
        &&& self.filtered_indices@.len() == 0
        &&& self.selected_entry_idx is None
        &&& self.changes@.len() == 0
        &&& self.history.ops@.len() == 0
        &&& self.history.position == 0
        &&& self.raw_pabgb is None
        &&& !self.show_hex_view
        &&& self.last_filter@.len() == 0
        &&& self.prev_frame_filter@.len() == 0
    }

    /// An empty table that waits for its entries.
    pub fn placeholder_loading(dispatch_name: String) -> (r: ActiveTable)
        ensures
            r.is_placeholder(dispatch_name@),
            r.wf(),
            r.hex_view_state == (HexViewState {
                page: 0,
                bytes_per_page: 1024,
                selected_offset: None,
            }),
            r.last_filter_change == 0,
    {
        ActiveTable {
            dispatch_name,
            load_state: LoadState::Loading,
            entries: Vec::new(),
            entry_keys: Vec::new(),
            vanilla: Vec::new(),
            column_names: Vec::new(),
            filtered_indices: Vec::new(),
            selected_entry_idx: None,
            changes: ChangeTracker::new(),
            history: EditHistory::new(),
            raw_pabgb: None,
            show_hex_view: false,
            hex_view_state: HexViewState::default(),
            last_filter: String::new(),
            prev_frame_filter: String::new(),
            last_filter_change: 0,
        }
    }
}

/// A table of the registry and the files that hold it.
#[derive(Debug)]
pub struct TableMeta {
    pub dispatch_name: String,
    pub pabgb_filename: String,
    pub pabgh_filename: String,
}

/// A work order for the background worker.
#[derive(Debug)]
pub enum Job {
    LoadTable {
        dispatch_name: String,
        game_dir: String,
        pabgb_filename: String,
        pabgh_filename: String,
    },
    SearchAllPabgb {
        request_id: u64,
        game_dir: String,
        filter: String,
        filter_as_number: Option<u64>,
        tables: Vec<TableMeta>,
    },
    MultiFormatSearch {
        request_id: u64,
        game_dir: String,
        query: String,
        filter_as_number: Option<u64>,
        formats: FormatSet,
        tables: Vec<TableMeta>,
        query_kind: SearchQueryKind,
        match_jenkins_hash: bool,
        cancel_flag: Arc<AtomicBool>,
    },
}

/// A copy of the registry.
pub fn copy_tables(v: &Vec<TableMeta>) -> (r: Vec<TableMeta>)
    ensures
        r@ == v@,
{
    let mut out: Vec<TableMeta> = Vec::new();
    let mut i: usize = 0;
    while i < v.len()
        invariant
            0 <= i <= v.len(),
            out@ == v@.take(i as int),
        decreases v.len() - i,
    {
        out.push(
            TableMeta {
                dispatch_name: v[i].dispatch_name.clone(),
                pabgb_filename: v[i].pabgb_filename.clone(),
                pabgh_filename: v[i].pabgh_filename.clone(),
            },
        );
        i = i + 1;
        assert(out@ =~= v@.take(i as int));
    }
    assert(v@.take(v.len() as int) =~= v@);
    out
}

/// What a search can look through.
#[derive(Clone, Copy, Debug, PartialEq, Eq, Structural)]
pub enum SearchFormat {
    Pabgb,
    Paloc,
    Xml,
    Paatt,
    Paac,
    Pappt,
    Pamhc,
    BinaryByte,
}

/// The formats that a search looks through, each with its switch.
#[derive(Clone, Copy, Debug, PartialEq, Eq, Structural)]
pub struct FormatSet {
    pub pabgb: bool,
    pub paloc: bool,
    pub xml: bool,
    pub paatt: bool,
    pub paac: bool,
    pub pappt: bool,
    pub pamhc: bool,
    pub binary_byte: bool,
}

impl FormatSet {
    /// The switch of a format is on.
    pub open spec fn has(self, f: SearchFormat) -> bool {
        match f {
            SearchFormat::Pabgb => self.pabgb,
            SearchFormat::Paloc => self.paloc,
            SearchFormat::Xml => self.xml,
            SearchFormat::Paatt => self.paatt,
            SearchFormat::Paac => self.paac,
            SearchFormat::Pappt => self.pappt,
            SearchFormat::Pamhc => self.pamhc,
            SearchFormat::BinaryByte => self.binary_byte,
        }
    }

    /// No format.
    pub fn none() -> (r: FormatSet)
        ensures
            forall|f: SearchFormat| !r.has(f),
    {
        FormatSet {
            pabgb: false,
            paloc: false,
            xml: false,
            paatt: false,
            paac: false,
            pappt: false,
            pamhc: false,
            binary_byte: false,
        }
    }

    /// Whether the switch of a format is on.
    pub fn contains(&self, f: SearchFormat) -> (r: bool)
        ensures
            r == self.has(f),
    {
        match f {
            SearchFormat::Pabgb => self.pabgb,
            SearchFormat::Paloc => self.paloc,
            SearchFormat::Xml => self.xml,
            SearchFormat::Paatt => self.paatt,
            SearchFormat::Paac => self.paac,
            SearchFormat::Pappt => self.pappt,
            SearchFormat::Pamhc => self.pamhc,
            SearchFormat::BinaryByte => self.binary_byte,
        }
    }

    /// Turns the switch of a format.
    pub fn set(&mut self, f: SearchFormat, on: bool)
        ensures
            forall|g: SearchFormat|
                #[trigger] final(self).has(g) == if g == f {
                    on
                } else {
                    old(self).has(g)
                },
    {
        match f {
            SearchFormat::Pabgb => {
                self.pabgb = on;
            },
            SearchFormat::Paloc => {
                self.paloc = on;
            },
            SearchFormat::Xml => {
                self.xml = on;
            },
            SearchFormat::Paatt => {
                self.paatt = on;
            },
            SearchFormat::Paac => {
                self.paac = on;
            },
            SearchFormat::Pappt => {
                self.pappt = on;
            },
            SearchFormat::Pamhc => {
                self.pamhc = on;
            },
            SearchFormat::BinaryByte => {
                self.binary_byte = on;
            },
        }
    }

    /// Whether every switch is off.
    pub fn is_empty(&self) -> (r: bool)
        ensures
            r == forall|f: SearchFormat| !self.has(f),
    {
        let r = !(self.pabgb || self.paloc || self.xml || self.paatt || self.paac || self.pappt
            || self.pamhc || self.binary_byte);
        proof {
            if !r {
                assert(self.has(SearchFormat::Pabgb) || self.has(SearchFormat::Paloc) || self.has(
                    SearchFormat::Xml,
                ) || self.has(SearchFormat::Paatt) || self.has(SearchFormat::Paac) || self.has(
                    SearchFormat::Pappt,
                ) || self.has(SearchFormat::Pamhc) || self.has(SearchFormat::BinaryByte));
            }
        }
        r
    }
}

/// How the search text is read.
#[derive(Clone, Copy, Debug, PartialEq, Eq, Structural)]
pub enum SearchMode {
    Text,
    Hex,
    KoreanStrings,
}

/// What a search looks for.
#[derive(Debug)]
pub enum SearchQueryKind {
    Text(String),
    HexBytes(Vec<u8>),
    KoreanScan { filter: Option<String> },
}

/// The number of the next search; after the last number comes zero.
pub open spec fn next_id(id: u64) -> u64 {
    if id == u64::MAX {
        0
    } else {
        (id + 1) as u64
    }
}

/// An entry that a search over all tables found.
#[derive(Debug)]
pub struct GlobalSearchHit {
    pub dispatch_name: String,
    pub entry_idx: usize,
    pub entry_key: u64,
    pub string_key: String,
    pub matched: String,
}

/// The search over all tables that the entry table offers.
#[derive(Debug)]
pub struct GlobalSearchSession {
    pub enabled: bool,
    pub in_progress: bool,
    pub request_id: u64,
    /// The search text that the last scan was started with.
    pub filter_at_kick: String,
    pub scanned: usize,
    pub total: usize,
    pub current_table: String,
    pub hits: Vec<GlobalSearchHit>,
    pub error: Option<String>,
}

impl GlobalSearchSession {
    /// As it is when the workbench starts.
    pub open spec fn is_fresh(&self) -> bool {
        &&& !self.enabled
        &&& !self.in_progress
        &&& self.request_id == 0
        &&& self.filter_at_kick@.len() == 0
        &&& self.scanned == 0
        &&& self.total == 0
        &&& self.current_table@.len() == 0
        &&& self.hits@.len() == 0
        &&& self.error is None
    }
}

impl Default for GlobalSearchSession {
    fn default() -> (r: Self)
        ensures
            r.is_fresh(),
    {
        GlobalSearchSession {
            enabled: false,
            in_progress: false,
            request_id: 0,
            filter_at_kick: String::new(),
            scanned: 0,
            total: 0,
            current_table: String::new(),
            hits: Vec::new(),
            error: None,
        }
    }
}

/// How a text stands in a binary file.
#[derive(Clone, Copy, Debug, PartialEq, Eq, Structural)]
pub enum ByteHitKind {
    Utf8,
    Utf16Le,
}

/// How a CJK run stands in a binary file.
#[derive(Clone, Copy, Debug, PartialEq, Eq, Structural)]
pub enum KoreanEncoding {
    Utf8,
    Utf16Le,
}

/// Where a search over all formats found something.
#[derive(Debug)]
pub enum HitSource {
    Pabgb { dispatch_name: String, entry_idx: usize, entry_key: u64, string_key: String },
    Paloc { lang: String, hash_id: u64, value: String },
    Xml { paz_group: String, dir_path: String, filename: String },
    Paatt { paz_group: String, dir_path: String, filename: String },
    Paac { paz_group: String, dir_path: String, filename: String },
    Pappt { paz_group: String, dir_path: String, filename: String },
    Pamhc { paz_group: String, dir_path: String, filename: String },
    Binary {
        ext: String,
        paz_group: String,
        dir_path: String,
        filename: String,
        byte_offset: usize,
        kind: ByteHitKind,
    },
    JenkinsHash {
        ext: String,
        paz_group: String,
        dir_path: String,
        filename: String,
        byte_offset: usize,
        hash: u32,
        case_label: String,
    },
    HexPattern {
        ext: String,
        paz_group: String,
        dir_path: String,
        filename: String,
        byte_offset: usize,
        pattern_len: usize,
    },
    KoreanString {
        ext: String,
        paz_group: String,
        dir_path: String,
        filename: String,
        byte_offset: usize,
        encoding: KoreanEncoding,
        text: String,
    },
}

/// A hit of a search over all formats.
#[derive(Debug)]
pub struct MultiFormatHit {
    pub source: HitSource,
    /// The heading that the hit is listed under.
    pub group: String,
    pub snippet: String,
    pub expand_data: Option<String>,
}

/// The search over all formats.
#[derive(Debug)]
pub struct MultiFormatSearchSession {
    pub search_mode: SearchMode,
    pub query: String,
    pub hex_query: String,
    pub match_jenkins_hash: bool,
    pub formats_enabled: FormatSet,
    pub request_id: u64,
    pub in_progress: bool,
    pub hits: Vec<MultiFormatHit>,
    pub error: Option<String>,
    pub progress_message: String,
    /// When the progress last moved, in milliseconds of the session clock.
    pub progress_updated_at: Option<u64>,
    pub expanded_hit: Option<usize>,
    /// An unfiltered scan was asked for once and waits to be confirmed.
    pub confirm_no_filter: bool,
    /// Tells the running scan to stop.
    pub cancel_flag: Arc<AtomicBool>,
}

impl MultiFormatSearchSession {
    /// As it is when the workbench starts.
    pub open spec fn is_fresh(&self) -> bool {
        &&& self.search_mode == SearchMode::Text
        &&& self.query@.len() == 0
        &&& self.hex_query@.len() == 0
        &&& !self.match_jenkins_hash
        &&& forall|f: SearchFormat| self.formats_enabled.has(f) == (f != SearchFormat::BinaryByte)
        &&& self.request_id == 0
        &&& !self.in_progress
        &&& self.hits@.len() == 0
        &&& self.error is None
        &&& self.progress_message@.len() == 0
        &&& self.progress_updated_at is None
        &&& self.expanded_hit is None
        &&& !self.confirm_no_filter
    }
}

impl Default for MultiFormatSearchSession {
    fn default() -> (r: Self)
        ensures
            r.is_fresh(),
    {
        MultiFormatSearchSession {
            search_mode: SearchMode::Text,
            query: String::new(),
            hex_query: String::new(),
            match_jenkins_hash: false,
            formats_enabled: FormatSet {
                pabgb: true,
                paloc: true,
                xml: true,
                paatt: true,
                paac: true,
                pappt: true,
                pamhc: true,
                binary_byte: false,
            },
            request_id: 0,
            in_progress: false,
            hits: Vec::new(),
            error: None,
            progress_message: String::new(),
            progress_updated_at: None,
            expanded_hit: None,
            confirm_no_filter: false,
            cancel_flag: Arc::new(AtomicBool::new(false)),
        }
    }
}

/// A row of a catalog section: the key as it is written, and what is known of it.
#[derive(Debug)]
pub struct CatalogEntry {
    pub key_text: String,
    pub value: Json,
}

/// A section of the catalog: its rows, and the names of those that have one by number.
#[derive(Debug)]
pub struct Section {
    pub names: HashMap<u64, String>,
    pub entries: Vec<CatalogEntry>,
}

/// Names for the keys of game tables.
#[derive(Debug)]
pub struct Catalog {
    /// The section that names the entries of a table.
    pub dispatch_to_section: Vec<(String, String)>,
    pub sections: Vec<(String, Section)>,
    /// Texts by their number.
    pub strings: HashMap<u64, String>,
}

/// The section of a table: that of the first pair with its name.
pub open spec fn section_of(v: Seq<(String, String)>, table: Seq<char>) -> Option<String>
    decreases v.len(),
{
    if v.len() == 0 {
        None
    } else if v[0].0@ == table {
        Some(v[0].1)
    } else {
        section_of(v.drop_first(), table)
    }
}

/// The first section with a name.
pub open spec fn section_named(v: Seq<(String, Section)>, section: Seq<char>) -> Option<Section>
    decreases v.len(),
{
    if v.len() == 0 {
        None
    } else if v[0].0@ == section {
        Some(v[0].1)
    } else {
        section_named(v.drop_first(), section)
    }
}

/// The text that a list has for a number.
pub open spec fn text_for(m: Map<u64, String>, key: u64) -> Option<Seq<char>> {
    if m.contains_key(key) {
        Some(m[key]@)
    } else {
        None
    }
}

/// The text that a list has for a number.
pub fn lookup_text(m: &HashMap<u64, String>, key: u64) -> (r: Option<String>)
    ensures
        match r {
            Some(t) => text_for(m@, key) == Some(t@),
            None => text_for(m@, key) is None,
        },
{
    match m.get(&key) {
        Some(t) => Some(t.clone()),
        None => None,
    }
}

impl Catalog {
    /// The name of a key in a section.
    pub open spec fn name_of(&self, section: Seq<char>, key: u64) -> Option<Seq<char>> {
        match section_named(self.sections@, section) {
            Some(s) => text_for(s.names@, key),
            None => None,
        }
    }

    /// The section that names the entries of a table.
    pub fn section_for(&self, table: &str) -> (r: Option<String>)
        ensures
            r == section_of(self.dispatch_to_section@, table@),
    {
        let v = &self.dispatch_to_section;
        let mut i: usize = 0;
        assert(v@.skip(0) =~= v@);
        while i < v.len()
            invariant
                0 <= i <= v.len(),
                v == &self.dispatch_to_section,
                section_of(v@.skip(i as int), table@) == section_of(v@, table@),
            decreases v.len() - i,
        {
            assert(v@.skip(i as int).drop_first() =~= v@.skip(i + 1));
            assert(v@.skip(i as int)[0] == v@[i as int]);
            if same(v[i].0.as_str(), table) {
                return Some(v[i].1.clone());
            }
            i = i + 1;
        }
        None
    }

    /// The first section with a name.
    pub fn find_section(&self, section: &str) -> (r: Option<&Section>)
        ensures
            match r {
                Some(s) => section_named(self.sections@, section@) == Some(*s),
                None => section_named(self.sections@, section@) is None,
            },
    {
        let v = &self.sections;
        let mut i: usize = 0;
        assert(v@.skip(0) =~= v@);
        while i < v.len()
            invariant
                0 <= i <= v.len(),
                v == &self.sections,
                section_named(v@.skip(i as int), section@) == section_named(v@, section@),
            decreases v.len() - i,
        {
            assert(v@.skip(i as int).drop_first() =~= v@.skip(i + 1));
            assert(v@.skip(i as int)[0] == v@[i as int]);
            if same(v[i].0.as_str(), section) {
                return Some(&v[i].1);
            }
            i = i + 1;
        }
        None
    }

    /// The name of a key in a section.
    pub fn lookup_name(&self, section: &str, key: u64) -> (r: Option<String>)
        ensures
            match r {
                Some(n) => self.name_of(section@, key) == Some(n@),
                None => self.name_of(section@, key) is None,
            },
    {
        match self.find_section(section) {
            Some(s) => lookup_text(&s.names, key),
            None => None,
        }
    }
}

/// Localized texts by their number.
#[derive(Debug)]
pub struct Localization {
    pub eng: HashMap<u64, String>,
    pub kor: HashMap<u64, String>,
}

/// A note on an entry of a table.
#[derive(Debug)]
pub struct EntryNote {
    pub table: String,
    pub entry_key: u64,
    pub text: String,
}

/// The notes on entries, at most one on each.
#[derive(Debug)]
pub struct NoteStore {
    pub notes: Vec<EntryNote>,
}

/// A note is on an entry.
pub open spec fn note_on(n: EntryNote, table: Seq<char>, key: u64) -> bool {
    n.table@ == table && n.entry_key == key
}

/// The text of the first note on an entry.
pub open spec fn note_text(v: Seq<EntryNote>, table: Seq<char>, key: u64) -> Option<Seq<char>>
    decreases v.len(),
{
    if v.len() == 0 {
        None
    } else if note_on(v[0], table, key) {
        Some(v[0].text@)
    } else {
        note_text(v.drop_first(), table, key)
    }
}

proof fn lemma_note_text(v: Seq<EntryNote>, table: Seq<char>, key: u64, i: int)
    requires
        0 <= i <= v.len(),
        forall|j: int| 0 <= j < i ==> !note_on(#[trigger] v[j], table, key),
        i < v.len() ==> note_on(v[i], table, key),
    ensures
        note_text(v, table, key) == if i < v.len() {
            Some(v[i].text@)
        } else {
            None
        },
    decreases i,
{
    if i > 0 {
        let w = v.drop_first();
        assert forall|j: int| 0 <= j < i - 1 implies !note_on(#[trigger] w[j], table, key) by {
            assert(w[j] == v[j + 1]);
        }
        assert(!note_on(v[0], table, key));
        lemma_note_text(w, table, key, i - 1);
    }
}

impl NoteStore {
    /// No entry has a note.
    pub open spec fn is_empty(&self) -> bool {
        forall|t: Seq<char>, k: u64| (#[trigger] note_text(self.notes@, t, k)) is None
    }

    /// No notes.
    pub fn new() -> (r: NoteStore)
        ensures
            r.is_empty(),
    {
        NoteStore { notes: Vec::new() }
    }

    fn position(&self, table: &str, key: u64) -> (r: usize)
        ensures
            r <= self.notes@.len(),
            forall|j: int| 0 <= j < r ==> !note_on(#[trigger] self.notes@[j], table@, key),
            r < self.notes@.len() ==> note_on(self.notes@[r as int], table@, key),
    {
        let mut i: usize = 0;
        while i < self.notes.len()
            invariant
                0 <= i <= self.notes.len(),
                forall|j: int| 0 <= j < i ==> !note_on(#[trigger] self.notes@[j], table@, key),
            decreases self.notes.len() - i,
        {
            if self.notes[i].entry_key == key && same(self.notes[i].table.as_str(), table) {
                return i;
            }
            i = i + 1;
        }
        i
    }

    /// The note on an entry.
    pub fn get(&self, table: &str, key: u64) -> (r: Option<String>)
        ensures
            match r {
                Some(t) => note_text(self.notes@, table@, key) == Some(t@),
                None => note_text(self.notes@, table@, key) is None,
            },
    {
        let i = self.position(table, key);
        proof {
            lemma_note_text(self.notes@, table@, key, i as int);
        }
        if i < self.notes.len() {
            Some(self.notes[i].text.clone())
        } else {
            None
        }
    }

    /// Puts a note on an entry in place of the one that it has.
    pub fn set(&mut self, table: &str, key: u64, text: String)
        ensures
            note_text(final(self).notes@, table@, key) == Some(text@),
            forall|t: Seq<char>, k: u64|
                (t, k) != (table@, key) ==> #[trigger] note_text(final(self).notes@, t, k)
                    == note_text(old(self).notes@, t, k),
    {
        let i = self.position(table, key);
        let ghost v0 = self.notes@;
        let ghost tx = text@;
        if i < self.notes.len() {
            self.notes[i].text = text;
        } else {
            self.notes.push(EntryNote { table: table.to_owned(), entry_key: key, text });
        }
        proof {
            let v1 = self.notes@;
            assert forall|j: int| 0 <= j < i implies !note_on(#[trigger] v1[j], table@, key) by {
                assert(v1[j] == v0[j]);
            }
            lemma_note_text(v1, table@, key, i as int);
            assert forall|t: Seq<char>, k: u64| (t, k) != (table@, key) implies #[trigger] note_text(
                v1,
                t,
                k,
            ) == note_text(v0, t, k) by {
                lemma_other_note(v0, v1, i as int, t, k);
            }
        }
    }
}

proof fn lemma_other_note(v0: Seq<EntryNote>, v1: Seq<EntryNote>, i: int, t: Seq<char>, k: u64)
    requires
        0 <= i <= v0.len(),
        v1.len() == if i < v0.len() {
            v0.len()
        } else {
            v0.len() + 1
        },
        forall|j: int| 0 <= j < v0.len() && j != i ==> #[trigger] v1[j] == v0[j],
        !note_on(v1[i], t, k),
        i < v0.len() ==> !note_on(v0[i], t, k),
    ensures
        note_text(v1, t, k) == note_text(v0, t, k),
    decreases v0.len(),
{
    if v0.len() > 0 {
        let (w0, w1) = (v0.drop_first(), v1.drop_first());
        if i > 0 {
            assert(v1[0] == v0[0]);
            assert(w1[i - 1] == v1[i]);
            if i < v0.len() {
                assert(w0[i - 1] == v0[i]);
            }
            assert forall|j: int| 0 <= j < w0.len() && j != i - 1 implies #[trigger] w1[j]
                == w0[j] by {
                assert(v1[j + 1] == v0[j + 1]);
            }
            lemma_other_note(w0, w1, i - 1, t, k);
        } else {
            assert(w1 =~= w0) by {
                assert forall|j: int| 0 <= j < w0.len() implies w1[j] == w0[j] by {
                    assert(v1[j + 1] == v0[j + 1]);
                }
            }
        }
    } else {
        assert(v1.drop_first() =~= v0);
    }
}

/// The position of the first table with a name.
pub open spec fn tab_named(tabs: Seq<ActiveTable>, name: Seq<char>) -> Option<int>
    decreases tabs.len(),
{
    if tabs.len() == 0 {
        None
    } else {
        match tab_named(tabs.drop_last(), name) {
            Some(i) => Some(i),
            None => if tabs.last().dispatch_name@ == name {
                Some(tabs.len() - 1)
            } else {
                None
            },
        }
    }
}

/// The first table with a name is one with that name, and none before it is.
pub proof fn lemma_tab_named(tabs: Seq<ActiveTable>, name: Seq<char>)
    ensures
        match tab_named(tabs, name) {
            Some(i) => 0 <= i < tabs.len() && tabs[i].dispatch_name@ == name && forall|j: int|
                0 <= j < i ==> (#[trigger] tabs[j]).dispatch_name@ != name,
            None => forall|j: int|
                0 <= j < tabs.len() ==> (#[trigger] tabs[j]).dispatch_name@ != name,
        },
    decreases tabs.len(),
{
    if tabs.len() > 0 {
        lemma_tab_named(tabs.drop_last(), name);
        match tab_named(tabs, name) {
            Some(i) => {
                assert forall|j: int| 0 <= j < i implies (#[trigger] tabs[j]).dispatch_name@
                    != name by {
                    assert(tabs.drop_last()[j] == tabs[j]);
                }
            },
            None => {
                assert forall|j: int| 0 <= j < tabs.len() implies (
                #[trigger] tabs[j]).dispatch_name@ != name by {
                    if j < tabs.len() - 1 {
                        assert(tabs.drop_last()[j] == tabs[j]);
                    }
                }
            },
        }
    }
}

/// The position of the first table with a name.
pub fn find_tab(tabs: &Vec<ActiveTable>, name: &str) -> (r: Option<usize>)
    ensures
        match r {
            Some(i) => tab_named(tabs@, name@) == Some(i as int),
            None => tab_named(tabs@, name@) is None,
        },
        r matches Some(i) ==> i < tabs.len() && tabs@[i as int].dispatch_name@ == name@,
{
    let mut i: usize = 0;
    assert(tabs@.take(0) =~= Seq::empty());
    while i < tabs.len()
        invariant
            0 <= i <= tabs.len(),
            tab_named(tabs@.take(i as int), name@) is None,
        decreases tabs.len() - i,
    {
        assert(tabs@.take(i + 1).drop_last() =~= tabs@.take(i as int));
        if same(tabs[i].dispatch_name.as_str(), name) {
            proof {
                lemma_tab_named_prefix(tabs@, name@, i + 1);
            }
            return Some(i);
        }
        i = i + 1;
    }
    assert(tabs@.take(tabs.len() as int) =~= tabs@);
    None
}

proof fn lemma_tab_named_prefix(tabs: Seq<ActiveTable>, name: Seq<char>, n: int)
    requires
        0 <= n <= tabs.len(),
        tab_named(tabs.take(n), name) is Some,
    ensures
        tab_named(tabs, name) == tab_named(tabs.take(n), name),
    decreases tabs.len(),
{
    if n < tabs.len() {
        assert(tabs.drop_last().take(n) =~= tabs.take(n));
        lemma_tab_named_prefix(tabs.drop_last(), name, n);
    } else {
        assert(tabs.take(n) =~= tabs);
    }
}

/// The position of the first registry row with a name.
pub open spec fn table_named(tables: Seq<TableMeta>, name: Seq<char>) -> Option<int>
    decreases tables.len(),
{
    if tables.len() == 0 {
        None
    } else if tables[0].dispatch_name@ == name {
        Some(0)
    } else {
        match table_named(tables.drop_first(), name) {
            Some(i) => Some(i + 1),
            None => None,
        }
    }
}

/// The position of the first registry row with a name.
pub fn find_table(tables: &Vec<TableMeta>, name: &str) -> (r: Option<usize>)
    ensures
        match r {
            Some(i) => table_named(tables@, name@) == Some(i as int),
            None => table_named(tables@, name@) is None,
        },
        r matches Some(i) ==> i < tables.len() && tables@[i as int].dispatch_name@ == name@,
{
    let mut i: usize = 0;
    assert(tables@.skip(0) =~= tables@);
    while i < tables.len()
        invariant
            0 <= i <= tables.len(),
            table_named(tables@, name@) == match table_named(tables@.skip(i as int), name@) {
                Some(k) => Some(k + i),
                None => None,
            },
        decreases tables.len() - i,
    {
        assert(tables@.skip(i as int).drop_first() =~= tables@.skip(i + 1));
        assert(tables@.skip(i as int)[0] == tables@[i as int]);
        if same(tables[i].dispatch_name.as_str(), name) {
            return Some(i);
        }
        i = i + 1;
    }
    None
}

/// Everything that the panels work on.
#[derive(Debug)]
pub struct AppState {
    pub toasts: Toasts,
    pub status: String,
    pub main_view: MainView,
    pub game_dir: Option<String>,
    pub open_tabs: Vec<ActiveTable>,
    pub active_tab_idx: Option<usize>,
    /// The registry of tables.
    pub tables: Vec<TableMeta>,
    /// The tables that were loaded at some time.
    pub loaded_tables: Vec<String>,
    pub table_filter: String,
    pub entry_filter: String,
    pub entry_search_focus_pending: bool,
    pub entry_search_advance_pending: bool,
    pub global_search: GlobalSearchSession,
    pub multi_search: MultiFormatSearchSession,
    pub pending_global_nav: Option<PendingNav>,
    /// The entry of a table to select once the table is loaded.
    pub pending_xref_nav: Option<(String, u64)>,
    pub catalog: Option<Catalog>,
    pub localization: Option<Localization>,
    pub notes: NoteStore,
    pub config: Config,
    /// Another theme was chosen and is not shown yet.
    pub theme_change_pending: bool,
    /// The guided flow that is open, by its name.
    pub active_wizard: Option<String>,
    pub user_templates: Vec<Template>,
    pub templates_panel: TemplatesPanelState,
    pub lint_findings: Vec<LintFinding>,
    pub backup_snapshots: Vec<Snapshot>,
    pub backup_loaded_once: bool,
    /// All snapshots were asked to be deleted once, and that waits to be confirmed.
    pub backup_confirm_clear_all: bool,
    pub loaded_mods: Vec<LoadedMod>,
    pub conflict_report: Option<ConflictReport>,
    pub library: Vec<LibraryMod>,
    pub library_loaded: bool,
    pub profile_store: ProfileStore,
    pub archive: ArchiveSession,
    pub binary_inspector: BinaryInspectorSession,
    pub command_palette: CommandPalette,
    pub paac: PaacSession,
    pub paatt: PaattSession,
    pub pamhc: PamhcSession,
    pub pappt: PapptSession,
    pub paloc_language: String,
    pub paloc_session: Option<PalocSession>,
    pub paseq: PaseqSession,
}

/// No table has two tabs.
pub open spec fn one_tab_each(tabs: Seq<ActiveTable>) -> bool {
    forall|i: int, j: int|
        0 <= i < j < tabs.len() ==> (#[trigger] tabs[i]).dispatch_name@ != (
        #[trigger] tabs[j]).dispatch_name@
}

/// Where the focus goes when tab `idx` is closed and `left` tabs remain: it
/// stays on its tab; when that tab is gone, it goes to the one in its place, or
/// to the last.
pub open spec fn focus_after_close(active: Option<usize>, idx: usize, left: nat) -> Option<usize> {
    match active {
        None => None,
        Some(a) => if left == 0 {
            None
        } else if a > idx {
            Some((a - 1) as usize)
        } else if a == idx && idx >= left {
            Some((left - 1) as usize)
        } else {
            Some(a)
        },
    }
}

/// An entry of an open table is named by a key from now on, and nothing else
/// changed. Without such an entry nothing changed at all.
pub open spec fn key_renewed(
    before: AppState,
    after: AppState,
    tab: int,
    entry: int,
    key: u64,
) -> bool {
    if 0 <= tab < before.open_tabs@.len() && 0 <= entry < before.open_tabs@[tab].entry_keys@.len() {
        let (b, a) = (before.open_tabs@[tab], after.open_tabs@[tab]);
        &&& a.entry_keys@ == b.entry_keys@.update(entry, key)
        &&& a == (ActiveTable { entry_keys: a.entry_keys, ..b })
        &&& after.open_tabs@ == before.open_tabs@.update(tab, a)
        &&& after == (AppState { open_tabs: after.open_tabs, ..before })
    } else {
        after == before
    }
}

impl AppState {
    /// The workbench as it starts: no table is open, and the tables are shown.
    pub fn new() -> (r: AppState)
        ensures
            r.tabs_wf(),
            r.focus() is None,
            r.toasts@ == Seq::<Note>::empty(),
            r.status@.len() == 0,
            r.main_view is PabgbTables,
            r.game_dir is None,
            r.open_tabs@.len() == 0,
            r.active_tab_idx is None,
            r.tables@.len() == 0,
            r.loaded_tables@.len() == 0,
            r.table_filter@.len() == 0,
            r.entry_filter@.len() == 0,
            !r.entry_search_focus_pending,
            !r.entry_search_advance_pending,
            r.global_search.is_fresh(),
            r.multi_search.is_fresh(),
            r.pending_global_nav is None,
            r.pending_xref_nav is None,
            r.catalog is None,
            r.localization is None,
            r.notes.is_empty(),
            r.config.is_fresh(),
            !r.theme_change_pending,
            r.active_wizard is None,
            r.user_templates@.len() == 0,
            r.templates_panel.is_fresh(),
            r.lint_findings@.len() == 0,
            r.backup_snapshots@.len() == 0,
            !r.backup_loaded_once,
            !r.backup_confirm_clear_all,
            r.loaded_mods@.len() == 0,
            r.conflict_report is None,
            r.library@.len() == 0,
            !r.library_loaded,
            r.profile_store.is_fresh(),
            r.archive.is_fresh(),
            r.binary_inspector.is_fresh(),
            r.command_palette.is_fresh(),
            r.paac.is_fresh(),
            r.paatt.is_fresh(),
            r.pamhc.is_fresh(),
            r.pappt.is_fresh(),
            r.paloc_language@ == "eng"@,
            r.paloc_session is None,
            r.paseq.is_fresh(),
    {
        AppState {
            toasts: Toasts::new(),
            status: String::new(),
            main_view: MainView::PabgbTables,
            game_dir: None,
            open_tabs: Vec::new(),
            active_tab_idx: None,
            tables: Vec::new(),
            loaded_tables: Vec::new(),
            table_filter: String::new(),
            entry_filter: String::new(),
            entry_search_focus_pending: false,
            entry_search_advance_pending: false,
            global_search: GlobalSearchSession::default(),
            multi_search: MultiFormatSearchSession::default(),
            pending_global_nav: None,
            pending_xref_nav: None,
            catalog: None,
            localization: None,
            notes: NoteStore::new(),
            config: Config::default(),
            theme_change_pending: false,
            active_wizard: None,
            user_templates: Vec::new(),
            templates_panel: TemplatesPanelState::default(),
            lint_findings: Vec::new(),
            backup_snapshots: Vec::new(),
            backup_loaded_once: false,
            backup_confirm_clear_all: false,
            loaded_mods: Vec::new(),
            conflict_report: None,
            library: Vec::new(),
            library_loaded: false,
            profile_store: ProfileStore::default(),
            archive: ArchiveSession::default(),
            binary_inspector: BinaryInspectorSession::default(),
            command_palette: CommandPalette::default(),
            paac: PaacSession::default(),
            paatt: PaattSession::default(),
            pamhc: PamhcSession::default(),
            pappt: PapptSession::default(),
            paloc_language: "eng".to_owned(),
            paloc_session: None,
            paseq: PaseqSession::default(),
        }
    }

    /// The position of the table in focus.
    pub open spec fn focus(&self) -> Option<int> {
        match self.active_tab_idx {
            Some(i) => if i < self.open_tabs@.len() {
                Some(i as int)
            } else {
                None
            },
            None => None,
        }
    }

    /// Every open table is in order.
    pub open spec fn tabs_wf(&self) -> bool {
        forall|i: int| 0 <= i < self.open_tabs@.len() ==> (#[trigger] self.open_tabs@[i]).wf()
    }

    /// Takes over the key that names an entry of an open table, as it is after the
    /// entry was changed. Where there is no such entry nothing changes.
    pub fn renew_entry_key(&mut self, tab: usize, entry: usize, key: u64)
        ensures
            key_renewed(*old(self), *final(self), tab as int, entry as int, key),
            old(self).tabs_wf() ==> final(self).tabs_wf(),
    {
        if tab < self.open_tabs.len() && entry < self.open_tabs[tab].entry_keys.len() {
            let ghost tabs = self.open_tabs@;
            self.open_tabs[tab].entry_keys[entry] = key;
            assert(self.open_tabs@ =~= tabs.update(tab as int, self.open_tabs@[tab as int]));
        }
    }

    /// Whether every open table is in order.
    pub fn tabs_in_order(&self) -> (r: bool)
        ensures
            r == self.tabs_wf(),
    {
        let mut i: usize = 0;
        while i < self.open_tabs.len()
            invariant
                0 <= i <= self.open_tabs.len(),
                forall|j: int| 0 <= j < i ==> (#[trigger] self.open_tabs@[j]).wf(),
            decreases self.open_tabs.len() - i,
        {
            let t = &self.open_tabs[i];
            if t.entry_keys.len() != t.entries.len() || t.history.position > t.history.ops.len() {
                assert(!self.open_tabs@[i as int].wf());
                return false;
            }
            i = i + 1;
        }
        true
    }

    /// The position of the table in focus.
    pub fn active_index(&self) -> (r: Option<usize>)
        ensures
            match r {
                Some(i) => self.focus() == Some(i as int) && i < self.open_tabs@.len(),
                None => self.focus() is None,
            },
    {
        match self.active_tab_idx {
            Some(i) => if i < self.open_tabs.len() {
                Some(i)
            } else {
                None
            },
            None => None,
        }
    }

    /// The table in focus.
    pub fn active_table(&self) -> (r: Option<&ActiveTable>)
        ensures
            match r {
                Some(t) => self.focus() matches Some(i) && *t == self.open_tabs@[i],
                None => self.focus() is None,
            },
    {
        match self.active_index() {
            Some(i) => Some(&self.open_tabs[i]),
            None => None,
        }
    }

    /// Closes a tab.
    pub fn close_tab(&mut self, idx: usize)
        ensures
            old(self).tabs_wf() ==> final(self).tabs_wf(),
            idx >= old(self).open_tabs@.len() ==> *final(self) == *old(self),
            idx < old(self).open_tabs@.len() ==> {
                &&& final(self).open_tabs@ == old(self).open_tabs@.remove(idx as int)
                &&& final(self).active_tab_idx == focus_after_close(
                    old(self).active_tab_idx,
                    idx,
                    (old(self).open_tabs@.len() - 1) as nat,
                )
                &&& *final(self) == (AppState {
                    open_tabs: final(self).open_tabs,
                    active_tab_idx: final(self).active_tab_idx,
                    ..*old(self)
                })
            },
    {
        if idx < self.open_tabs.len() {
            let _closed = self.open_tabs.remove(idx);
            let left = self.open_tabs.len();
            self.active_tab_idx = match self.active_tab_idx {
                None => None,
                Some(a) => if left == 0 {
                    None
                } else if a > idx {
                    Some(a - 1)
                } else if a == idx && idx >= left {
                    Some(left - 1)
                } else {
                    Some(a)
                },
            };
        }
    }

    /// Brings the tab of a table to the front, where it is open.
    pub fn open_or_focus_tab(&mut self, name: &str) -> (r: Option<usize>)
        ensures
            match r {
                Some(i) => tab_named(old(self).open_tabs@, name@) == Some(i as int)
                    && *final(self) == (AppState { active_tab_idx: Some(i), ..*old(self) }),
                None => tab_named(old(self).open_tabs@, name@) is None && *final(self)
                    == *old(self),
            },
    {
        match find_tab(&self.open_tabs, name) {
            Some(i) => {
                self.active_tab_idx = Some(i);
                Some(i)
            },
            None => None,
        }
    }
}

/// A tab that has the focus keeps it when another one is closed.
pub proof fn law_close_keeps_focused_tab(tabs: Seq<ActiveTable>, active: usize, idx: usize)
    requires
        active < tabs.len(),
        idx < tabs.len(),
        idx != active,
    ensures
        focus_after_close(Some(active), idx, (tabs.len() - 1) as nat) matches Some(a) && a
            < tabs.len() - 1 && tabs.remove(idx as int)[a as int] == tabs[active as int],
{
}

/// A focus on a tab is a focus on a tab after any tab is closed, as long as one is left.
pub proof fn law_close_keeps_focus_in_range(active: usize, idx: usize, count: nat)
    requires
        active < count,
        idx < count,
        count <= usize::MAX,
    ensures
        match focus_after_close(Some(active), idx, (count - 1) as nat) {
            Some(a) => a < count - 1,
            None => count == 1,
        },
{
}

} // verus!
