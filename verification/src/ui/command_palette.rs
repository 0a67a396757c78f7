//! The command palette: everything that can be done, in one list that is
//! searched as one types.

use vstd::prelude::*;
use crate::digits::{dec, dec_text, dec_usize};
use crate::json::{Json, Tree};
use crate::sorting::{
    at_positions, lemma_mapped_alike, lemma_one_listing, lemma_positions_of_all, orders, row_before,
    sorted_rows, SortKey,
};
use crate::state::{ActiveTable, AppState, MainView};
use crate::text::{
    byte_len, byte_offset, chars_of, concat2, find, first_at, has_prefix, has_sub,
    lowercase, same, starts_with, text_before, trim, trimmed,
};
use crate::ui::entry_table::entry_string_key;
use crate::ui::settings_panel::RecentMod;

verus! {

broadcast use vstd::seq_lib::group_seq_properties;

/// The greatest number of rows that is shown.
pub const MAX_VISIBLE_ITEMS: usize = 20;

/// The greatest number of entries of the table in focus that is offered.
pub const MAX_ENTRY_CANDIDATES: usize = 200;

/// The palette.
#[derive(Debug)]
pub struct CommandPalette {
    pub open: bool,
    pub query: String,
    /// The highlighted row among those that are shown.
    pub selected_idx: usize,
    /// The search field is to get the keyboard.
    pub focus_input: bool,
}

impl CommandPalette {
    /// As it is when the workbench starts.
    pub open spec fn is_fresh(&self) -> bool {
        &&& !self.open
        &&& self.query@.len() == 0
        &&& self.selected_idx == 0
        &&& !self.focus_input
    }
}

impl Default for CommandPalette {
    fn default() -> (r: Self)
        ensures
            r.is_fresh(),
    {
        CommandPalette { open: false, query: String::new(), selected_idx: 0, focus_input: false }
    }
}

impl CommandPalette {
    /// Opens the palette afresh, or closes it.
    pub fn toggle(&mut self)
        ensures
            final(self).open == !old(self).open,
            final(self).focus_input == !old(self).open,
            final(self).query@.len() == 0,
            final(self).selected_idx == 0,
    {
        if self.open {
            self.close();
        } else {
            self.open = true;
            self.query = String::new();
            self.selected_idx = 0;
            self.focus_input = true;
        }
    }

    /// Closes the palette. Nothing of the search is kept.
    pub fn close(&mut self)
        ensures
            !final(self).open,
            final(self).query@.len() == 0,
            final(self).selected_idx == 0,
            !final(self).focus_input,
    {
        self.open = false;
        self.query = String::new();
        self.selected_idx = 0;
        self.focus_input = false;
    }
}

/// What kind of thing a row stands for.
#[derive(Clone, Copy, Debug, PartialEq, Eq, Structural)]
pub enum PaletteCategory {
    Action,
    RecentEntry,
    LoadedTable,
    LibraryMod,
}

/// The place of a kind among rows that match alike.
pub open spec fn category_rank(c: PaletteCategory) -> int {
    match c {
        PaletteCategory::Action => 0,
        PaletteCategory::LoadedTable => 1,
        PaletteCategory::RecentEntry => 2,
        PaletteCategory::LibraryMod => 3,
    }
}

/// The tag of a kind: the first two letters of its name.
pub open spec fn category_tag(c: PaletteCategory) -> Seq<char> {
    match c {
        PaletteCategory::Action => "Ac"@,
        PaletteCategory::RecentEntry => "En"@,
        PaletteCategory::LoadedTable => "Ta"@,
        PaletteCategory::LibraryMod => "Mo"@,
    }
}

/// A tag is two characters long and tells the kinds apart.
pub proof fn law_category_tags(a: PaletteCategory, b: PaletteCategory)
    ensures
        category_tag(a).len() == 2,
        category_tag(a) == category_tag(b) ==> a == b,
{
    reveal_strlit("Ac");
    reveal_strlit("En");
    reveal_strlit("Ta");
    reveal_strlit("Mo");
    assert("Ac"@[0] == 'A' && "En"@[0] == 'E' && "Ta"@[0] == 'T' && "Mo"@[0] == 'M');
}

impl PaletteCategory {
    /// The tag of the kind beside a row, two characters long.
    pub fn short_label(self) -> (r: &'static str)
        ensures
            r@ == category_tag(self),
            r@.len() == 2,
    {
        proof {
            law_category_tags(self, self);
        }
        match self {
            PaletteCategory::Action => "Ac",
            PaletteCategory::RecentEntry => "En",
            PaletteCategory::LoadedTable => "Ta",
            PaletteCategory::LibraryMod => "Mo",
        }
    }

    /// The place of the kind among rows that match alike.
    pub fn rank(self) -> (r: u8)
        ensures
            r == category_rank(self),
    {
        match self {
            PaletteCategory::Action => 0,
            PaletteCategory::LoadedTable => 1,
            PaletteCategory::RecentEntry => 2,
            PaletteCategory::LibraryMod => 3,
        }
    }
}

/// What a row does.
#[derive(Debug)]
pub enum PaletteAction {
    Deploy,
    Restore,
    RunLint,
    ImportMod,
    ExportMod,
    OpenView(MainView),
    JumpToTable(String),
    JumpToEntry { table: String, entry_idx: usize },
    /// Opens a mod that was used before, by its path.
    OpenLibraryMod(String),
}

/// What a row does, as a value.
pub enum Act {
    Deploy,
    Restore,
    RunLint,
    ImportMod,
    ExportMod,
    OpenView(MainView),
    JumpToTable(Seq<char>),
    JumpToEntry(Seq<char>, int),
    OpenLibraryMod(Seq<char>),
}

impl View for PaletteAction {
    type V = Act;

    open spec fn view(&self) -> Act {
        match self {
            PaletteAction::Deploy => Act::Deploy,
            PaletteAction::Restore => Act::Restore,
            PaletteAction::RunLint => Act::RunLint,
            PaletteAction::ImportMod => Act::ImportMod,
            PaletteAction::ExportMod => Act::ExportMod,
            PaletteAction::OpenView(v) => Act::OpenView(*v),
            PaletteAction::JumpToTable(t) => Act::JumpToTable(t@),
            PaletteAction::JumpToEntry { table, entry_idx } => Act::JumpToEntry(
                table@,
                *entry_idx as int,
            ),
            PaletteAction::OpenLibraryMod(p) => Act::OpenLibraryMod(p@),
        }
    }
}

impl PaletteAction {
    /// A copy of the action.
    pub fn copy(&self) -> (r: PaletteAction)
        ensures
            r == *self,
    {
        match self {
            PaletteAction::Deploy => PaletteAction::Deploy,
            PaletteAction::Restore => PaletteAction::Restore,
            PaletteAction::RunLint => PaletteAction::RunLint,
            PaletteAction::ImportMod => PaletteAction::ImportMod,
            PaletteAction::ExportMod => PaletteAction::ExportMod,
            PaletteAction::OpenView(v) => PaletteAction::OpenView(*v),
            PaletteAction::JumpToTable(t) => PaletteAction::JumpToTable(t.clone()),
            PaletteAction::JumpToEntry { table, entry_idx } => PaletteAction::JumpToEntry {
                table: table.clone(),
                entry_idx: *entry_idx,
            },
            PaletteAction::OpenLibraryMod(p) => PaletteAction::OpenLibraryMod(p.clone()),
        }
    }
}

/// A row of the palette.
#[derive(Debug)]
pub struct PaletteItem {
    pub label: String,
    pub category: PaletteCategory,
    pub action: PaletteAction,
}

/// A row, as a value.
pub struct Row {
    pub label: Seq<char>,
    pub category: PaletteCategory,
    pub action: Act,
}

impl View for PaletteItem {
    type V = Row;

    open spec fn view(&self) -> Row {
        Row { label: self.label@, category: self.category, action: self.action@ }
    }
}

/// Rows, as values.
pub open spec fn rows_of(v: Seq<PaletteItem>) -> Seq<Row> {
    v.map_values(|i: PaletteItem| i@)
}

impl PaletteItem {
    fn copy(&self) -> (r: PaletteItem)
        ensures
            r == *self,
    {
        PaletteItem {
            label: self.label.clone(),
            category: self.category,
            action: self.action.copy(),
        }
    }
}

/// A row for a command.
pub open spec fn command(label: Seq<char>, action: Act) -> Row {
    Row { label, category: PaletteCategory::Action, action }
}

/// The commands, which are always there.
pub open spec fn commands() -> Seq<Row> {
    seq![
        command("Deploy to Game"@, Act::Deploy),
        command("Restore (remove deployed overlay)"@, Act::Restore),
        command("Run Lint Check"@, Act::RunLint),
        command("Import Mod..."@, Act::ImportMod),
        command("Export Mod..."@, Act::ExportMod),
        command("Open View: PABGB Tables"@, Act::OpenView(MainView::PabgbTables)),
        command("Open View: PALOC Editor"@, Act::OpenView(MainView::Paloc)),
        command("Open View: PASEQ Editor"@, Act::OpenView(MainView::Paseq)),
        command("Open View: Backups"@, Act::OpenView(MainView::Backups)),
        command("Open View: Mod Conflicts"@, Act::OpenView(MainView::Conflicts)),
        command("Open View: Lint Panel"@, Act::OpenView(MainView::Lint)),
        command("Open View: Settings"@, Act::OpenView(MainView::Settings)),
        command("Open View: Library"@, Act::OpenView(MainView::Library)),
    ]
}

/// A row for an open table.
pub open spec fn tab_row(t: ActiveTable) -> Row {
    Row {
        label: "Jump to Table: "@ + t.dispatch_name@ + " ("@ + dec(t.entries@.len())
            + " entries)"@,
        category: PaletteCategory::LoadedTable,
        action: Act::JumpToTable(t.dispatch_name@),
    }
}

/// The label of an entry: its string key with its key, or its key alone.
pub open spec fn entry_label(name: Seq<char>, key: u64, table: Seq<char>) -> Seq<char> {
    if name.len() == 0 {
        "Entry: key="@ + dec(key as nat) + " in "@ + table
    } else {
        "Entry: "@ + name + " (key="@ + dec(key as nat) + ") in "@ + table
    }
}

/// The string key of an entry; empty where it has none.
pub open spec fn name_or_empty(t: Tree) -> Seq<char> {
    match entry_string_key(t) {
        Some(s) => s,
        None => Seq::empty(),
    }
}

/// A row for an entry of a table.
pub open spec fn entry_row(t: ActiveTable, i: int) -> Row {
    Row {
        label: entry_label(name_or_empty(t.entries@[i]@), t.entry_keys@[i], t.dispatch_name@),
        category: PaletteCategory::RecentEntry,
        action: Act::JumpToEntry(t.dispatch_name@, i),
    }
}

/// A row for a mod that was used before.
pub open spec fn mod_row(m: RecentMod) -> Row {
    Row {
        label: "Open Library Mod: "@ + (match m.file_name {
            Some(n) => n@,
            None => "(unnamed)"@,
        }),
        category: PaletteCategory::LibraryMod,
        action: Act::OpenLibraryMod(m.path@),
    }
}

/// The rows for the entries of the table in focus, at most as many as are offered.
pub open spec fn entry_rows(s: AppState) -> Seq<Row> {
    match s.focus() {
        Some(i) => {
            let t = s.open_tabs@[i];
            Seq::new(
                if t.entries@.len() > MAX_ENTRY_CANDIDATES {
                    MAX_ENTRY_CANDIDATES as nat
                } else {
                    t.entries@.len()
                },
                |k: int| entry_row(t, k),
            )
        },
        None => Seq::empty(),
    }
}

/// Everything that can be done: the commands, the open tables, the entries of
/// the table in focus, and the mods that were used before.
pub open spec fn candidates(s: AppState) -> Seq<Row> {
    commands() + s.open_tabs@.map_values(|t: ActiveTable| tab_row(t)) + entry_rows(s)
        + s.config.recent_mods@.map_values(|m: RecentMod| mod_row(m))
}

fn push_item(out: &mut Vec<PaletteItem>, item: PaletteItem)
    ensures
        rows_of(final(out)@) == rows_of(old(out)@).push(item@),
{
    let ghost o0 = out@;
    let ghost r = item@;
    out.push(item);
    assert(rows_of(out@) =~= rows_of(o0).push(r));
}

fn push_command(out: &mut Vec<PaletteItem>, label: &str, action: PaletteAction)
    ensures
        rows_of(final(out)@) == rows_of(old(out)@).push(command(label@, action@)),
{
    push_item(
        out,
        PaletteItem { label: label.to_owned(), category: PaletteCategory::Action, action },
    );
}

fn push_entries(out: &mut Vec<PaletteItem>, t: &ActiveTable)
    requires
        t.wf(),
    ensures
        rows_of(final(out)@) == rows_of(old(out)@) + Seq::new(
            if t.entries@.len() > MAX_ENTRY_CANDIDATES {
                MAX_ENTRY_CANDIDATES as nat
            } else {
                t.entries@.len()
            },
            |k: int| entry_row(*t, k),
        ),
{
    let n: usize = if t.entries.len() > MAX_ENTRY_CANDIDATES {
        MAX_ENTRY_CANDIDATES
    } else {
        t.entries.len()
    };
    let ghost o0 = rows_of(out@);
    let mut i: usize = 0;
    assert(rows_of(out@) =~= o0 + Seq::new(0, |k: int| entry_row(*t, k)));
    while i < n
        invariant
            0 <= i <= n <= t.entries.len(),
            t.wf(),
            rows_of(out@) == o0 + Seq::new(i as nat, |k: int| entry_row(*t, k)),
        decreases n - i,
    {
        let name = match t.entries[i].get("string_key") {
            Some(v) => match v {
                Json::Str(s) => s.clone(),
                _ => String::new(),
            },
            None => String::new(),
        };
        let key = dec_text(t.entry_keys[i]);
        let mut label = "Entry: ".to_owned();
        if name.as_str().is_empty() {
            label = "Entry: key=".to_owned();
            label.push_str(key.as_str());
            label.push_str(" in ");
        } else {
            label.push_str(name.as_str());
            label.push_str(" (key=");
            label.push_str(key.as_str());
            label.push_str(") in ");
        }
        label.push_str(t.dispatch_name.as_str());
        assert(label@ == entry_label(
            name_or_empty(t.entries@[i as int]@),
            t.entry_keys@[i as int],
            t.dispatch_name@,
        ));
        push_item(
            out,
            PaletteItem {
                label,
                category: PaletteCategory::RecentEntry,
                action: PaletteAction::JumpToEntry {
                    table: t.dispatch_name.clone(),
                    entry_idx: i,
                },
            },
        );
        i = i + 1;
        assert(rows_of(out@) =~= o0 + Seq::new(i as nat, |k: int| entry_row(*t, k)));
    }
}

/// Everything that can be done.
pub fn build_candidates(state: &AppState) -> (out: Vec<PaletteItem>)
    requires
        state.tabs_wf(),
    ensures
        rows_of(out@) == candidates(*state),
{
    let mut out: Vec<PaletteItem> = Vec::new();
    assert(rows_of(out@) =~= Seq::empty());
    push_command(&mut out, "Deploy to Game", PaletteAction::Deploy);
    push_command(&mut out, "Restore (remove deployed overlay)", PaletteAction::Restore);
    push_command(&mut out, "Run Lint Check", PaletteAction::RunLint);
    push_command(&mut out, "Import Mod...", PaletteAction::ImportMod);
    push_command(&mut out, "Export Mod...", PaletteAction::ExportMod);
    push_command(&mut out, "Open View: PABGB Tables", PaletteAction::OpenView(MainView::PabgbTables));
    push_command(&mut out, "Open View: PALOC Editor", PaletteAction::OpenView(MainView::Paloc));
    push_command(&mut out, "Open View: PASEQ Editor", PaletteAction::OpenView(MainView::Paseq));
    push_command(&mut out, "Open View: Backups", PaletteAction::OpenView(MainView::Backups));
    push_command(&mut out, "Open View: Mod Conflicts", PaletteAction::OpenView(MainView::Conflicts));
    push_command(&mut out, "Open View: Lint Panel", PaletteAction::OpenView(MainView::Lint));
    push_command(&mut out, "Open View: Settings", PaletteAction::OpenView(MainView::Settings));
    push_command(&mut out, "Open View: Library", PaletteAction::OpenView(MainView::Library));
    assert(rows_of(out@) =~= commands());
    let ghost tabs = state.open_tabs@.map_values(|t: ActiveTable| tab_row(t));
    let mut i: usize = 0;
    assert(rows_of(out@) =~= commands() + tabs.take(0));
    while i < state.open_tabs.len()
        invariant
            0 <= i <= state.open_tabs.len(),
            tabs == state.open_tabs@.map_values(|t: ActiveTable| tab_row(t)),
            rows_of(out@) == commands() + tabs.take(i as int),
        decreases state.open_tabs.len() - i,
    {
        let t = &state.open_tabs[i];
        let mut label = "Jump to Table: ".to_owned();
        label.push_str(t.dispatch_name.as_str());
        label.push_str(" (");
        label.push_str(dec_usize(t.entries.len()).as_str());
        label.push_str(" entries)");
        push_item(
            &mut out,
            PaletteItem {
                label,
                category: PaletteCategory::LoadedTable,
                action: PaletteAction::JumpToTable(t.dispatch_name.clone()),
            },
        );
        i = i + 1;
        assert(tabs.take(i as int) =~= tabs.take(i - 1).push(tabs[i - 1]));
        assert(rows_of(out@) =~= commands() + tabs.take(i as int));
    }
    assert(tabs.take(state.open_tabs.len() as int) =~= tabs);
    match state.active_table() {
        Some(t) => {
            push_entries(&mut out, t);
        },
        None => {
            assert(rows_of(out@) =~= rows_of(out@) + entry_rows(*state));
        },
    }
    let ghost head = commands() + tabs + entry_rows(*state);
    let ghost mods = state.config.recent_mods@.map_values(|m: RecentMod| mod_row(m));
    let mut k: usize = 0;
    assert(rows_of(out@) =~= head + mods.take(0));
    while k < state.config.recent_mods.len()
        invariant
            0 <= k <= state.config.recent_mods.len(),
            mods == state.config.recent_mods@.map_values(|m: RecentMod| mod_row(m)),
            rows_of(out@) == head + mods.take(k as int),
        decreases state.config.recent_mods.len() - k,
    {
        let m = &state.config.recent_mods[k];
        let label = match &m.file_name {
            Some(n) => concat2("Open Library Mod: ", n.as_str()),
            None => concat2("Open Library Mod: ", "(unnamed)"),
        };
        push_item(
            &mut out,
            PaletteItem {
                label,
                category: PaletteCategory::LibraryMod,
                action: PaletteAction::OpenLibraryMod(m.path.clone()),
            },
        );
        k = k + 1;
        assert(mods.take(k as int) =~= mods.take(k - 1).push(mods[k - 1]));
        assert(rows_of(out@) =~= head + mods.take(k as int));
    }
    assert(mods.take(mods.len() as int) =~= mods);
    out
}

/// `score` is how well a label matches a search text, both in lowercase; less
/// is better. All match an empty search text alike. Else the label itself comes
/// first, then what begins with the search text, then what holds it, the
/// earlier the better.
pub open spec fn scores(label: Seq<char>, q: Seq<char>, score: int) -> bool {
    if q.len() == 0 {
        score == 500
    } else if label == q {
        score == 0
    } else if has_prefix(label, q) {
        score == 100
    } else {
        exists|i: int| #[trigger] first_at(label, q, i) && score == 200 + byte_len(label.take(i))
    }
}

/// A label matches a search text, both in lowercase.
pub open spec fn matched(label: Seq<char>, q: Seq<char>) -> bool {
    exists|s: int| #[trigger] scores(label, q, s)
}

/// How well a label matches a search text.
pub open spec fn score_of(label: Seq<char>, q: Seq<char>) -> int {
    choose|s: int| scores(label, q, s)
}

proof fn lemma_one_score(label: Seq<char>, q: Seq<char>, a: int)
    requires
        scores(label, q, a),
    ensures
        matched(label, q),
        score_of(label, q) == a,
{
    let b = score_of(label, q);
    assert(scores(label, q, b));
    if q.len() > 0 && label != q && !has_prefix(label, q) {
        let i = choose|i: int| #[trigger]
            first_at(label, q, i) && a == 200 + byte_len(label.take(i));
        let j = choose|j: int| #[trigger]
            first_at(label, q, j) && b == 200 + byte_len(label.take(j));
        assert(crate::text::occurs_at(label, q, i));
        assert(crate::text::occurs_at(label, q, j));
        assert(i == j);
    }
}

/// What the search text matches is what holds it.
pub proof fn law_matched_iff_holds(label: Seq<char>, q: Seq<char>)
    ensures
        matched(label, q) <==> has_sub(label, q),
{
    if matched(label, q) {
        let s = choose|s: int| #[trigger] scores(label, q, s);
        if q.len() == 0 {
            assert(label.subrange(0, 0) =~= q);
            assert(crate::text::occurs_at(label, q, 0));
        } else if label == q {
            assert(label.subrange(0, label.len() as int) =~= q);
            assert(crate::text::occurs_at(label, q, 0));
        } else if has_prefix(label, q) {
            assert(label.subrange(0, q.len() as int) =~= label.take(q.len() as int));
            assert(crate::text::occurs_at(label, q, 0));
        } else {
            let i = choose|i: int| #[trigger] first_at(label, q, i);
            assert(crate::text::occurs_at(label, q, i));
        }
    }
    if has_sub(label, q) {
        let i = choose|i: int| crate::text::occurs_at(label, q, i);
        lemma_has_first(label, q, i);
        let f = choose|f: int| first_at(label, q, f);
        let rest = (200 + byte_len(label.take(f))) as int;
        assert(scores(label, q, 500) || scores(label, q, 0) || scores(label, q, 100) || scores(
            label,
            q,
            rest,
        ));
    }
}

proof fn lemma_has_first(label: Seq<char>, q: Seq<char>, i: int)
    requires
        crate::text::occurs_at(label, q, i),
    ensures
        exists|f: int| first_at(label, q, f),
    decreases i,
{
    if exists|j: int| 0 <= j < i && crate::text::occurs_at(label, q, j) {
        let j = choose|j: int| 0 <= j < i && crate::text::occurs_at(label, q, j);
        lemma_has_first(label, q, j);
    } else {
        assert(first_at(label, q, i));
    }
}

/// How well a label matches a search text, both in lowercase.
pub fn score_label(label: &str, q: &str) -> (r: Option<u128>)
    ensures
        match r {
            Some(s) => scores(label@, q@, s as int) && s <= usize::MAX + 500,
            None => !matched(label@, q@),
        },
{
    if q.is_empty() {
        return Some(500);
    }
    if same(label, q) {
        return Some(0);
    }
    if starts_with(label, q) {
        return Some(100);
    }
    let v = chars_of(label);
    match find(&v, &chars_of(q)) {
        Some(i) => {
            assert(crate::text::occurs_at(label@, q@, i as int));
            let s: u128 = 200 + byte_offset(label, i) as u128;
            assert(first_at(label@, q@, i as int));
            assert(scores(label@, q@, s as int));
            Some(s)
        },
        None => {
            proof {
                law_matched_iff_holds(label@, q@);
            }
            None
        },
    }
}

/// A row with its score, which is wide enough for a match at any place.
#[derive(Debug)]
pub struct ScoredItem {
    pub item: PaletteItem,
    pub score: u128,
}

/// The search text that rows are matched with.
pub open spec fn needle(query: Seq<char>) -> Seq<char> {
    lowercase(trimmed(query))
}

/// A row is listed.
pub open spec fn row_matched(items: Seq<PaletteItem>, query: Seq<char>, i: int) -> bool {
    matched(lowercase(items[i].label@), needle(query))
}

/// How well a row matches.
pub open spec fn row_score(items: Seq<PaletteItem>, query: Seq<char>, i: int) -> int {
    score_of(lowercase(items[i].label@), needle(query))
}

/// Row `i` is listed before row `j`: it matches better, or as well and is of a
/// kind with a better place, or of the same kind and its label comes first.
/// Under an empty search text labels do not count. Rows that are alike in all
/// this keep their order.
pub open spec fn item_before(items: Seq<PaletteItem>, query: Seq<char>, i: usize, j: usize) -> bool {
    let (a, b) = (items[i as int], items[j as int]);
    let (s, t) = (row_score(items, query, i as int), row_score(items, query, j as int));
    let (m, n) = (category_rank(a.category), category_rank(b.category));
    let labels = trimmed(query).len() > 0;
    ||| s < t
    ||| s == t && m < n
    ||| s == t && m == n && labels && text_before(a.label@, b.label@)
    ||| s == t && m == n && (labels ==> a.label@ == b.label@) && i < j
}

/// `order` holds the positions of the rows that are listed, in order.
pub open spec fn lists(items: Seq<PaletteItem>, query: Seq<char>, order: Seq<usize>) -> bool {
    &&& forall|k: int|
        0 <= k < order.len() ==> #[trigger] order[k] < items.len() && row_matched(
            items,
            query,
            order[k] as int,
        )
    &&& forall|i: int|
        0 <= i < items.len() && #[trigger] row_matched(items, query, i) ==> order.contains(
            i as usize,
        )
    &&& forall|p: int, q: int|
        0 <= p < q < order.len() ==> item_before(
            items,
            query,
            #[trigger] order[p],
            #[trigger] order[q],
        )
}

/// The rows that match a search text, best first, and whether there are more
/// than are shown.
pub fn filter_and_score(items: &[PaletteItem], query: &str) -> (r: (Vec<ScoredItem>, bool))
    ensures
        exists|order: Seq<usize>|
            {
                &&& #[trigger] lists(items@, query@, order)
                &&& r.0@.len() == order.len()
                &&& forall|k: int|
                    0 <= k < order.len() ==> (#[trigger] r.0@[k]).item == items@[order[k] as int]
                        && r.0@[k].score == row_score(items@, query@, order[k] as int)
            },
        r.1 == (r.0@.len() > MAX_VISIBLE_ITEMS),
{
    let t = trim(query);
    let q = t.as_str().to_lowercase();
    let labels = !t.as_str().is_empty();
    let mut rows: Vec<usize> = Vec::new();
    let mut keys: Vec<SortKey> = Vec::new();
    let mut found: Vec<u128> = Vec::new();
    let mut i: usize = 0;
    while i < items.len()
        invariant
            0 <= i <= items.len(),
            q@ == needle(query@),
            labels == (trimmed(query@).len() > 0),
            rows.len() == keys.len(),
            rows.len() == found.len(),
            forall|k: int|
                0 <= k < rows@.len() ==> #[trigger] rows@[k] < i && row_matched(
                    items@,
                    query@,
                    rows@[k] as int,
                ),
            forall|k: int, l: int| 0 <= k < l < rows@.len() ==> rows@[k] < rows@[l],
            forall|k: int|
                0 <= k < rows@.len() ==> key_fits(
                    items@,
                    query@,
                    rows@[k],
                    #[trigger] keys@[k],
                    found@[k],
                ),
            forall|j: int|
                0 <= j < i && #[trigger] row_matched(items@, query@, j) ==> rows@.contains(
                    j as usize,
                ),
        decreases items.len() - i,
    {
        let ghost r0 = rows@;
        let ghost k0 = keys@;
        let lower = items[i].label.as_str().to_lowercase();
        match score_label(lower.as_str(), q.as_str()) {
            Some(s) => {
                proof {
                    lemma_one_score(lower@, q@, s as int);
                }
                let text = if labels {
                    items[i].label.clone()
                } else {
                    String::new()
                };
                rows.push(i);
                found.push(s);
                keys.push(
                    SortKey {
                        rank: s * 4 + items[i].category.rank() as u128,
                        text,
                        number: 0,
                    },
                );
                assert(rows@[rows@.len() - 1] == i);
                assert(key_fits(items@, query@, i, keys@.last(), s));
                assert forall|k: int| 0 <= k < rows@.len() implies key_fits(
                    items@,
                    query@,
                    rows@[k],
                    #[trigger] keys@[k],
                    found@[k],
                ) by {
                    if k < r0.len() {
                        assert(keys@[k] == k0[k]);
                    }
                }
            },
            None => {},
        }
        proof {
            assert forall|j: int| 0 <= j < i + 1 && #[trigger] row_matched(
                items@,
                query@,
                j,
            ) implies rows@.contains(j as usize) by {
                if j < i {
                    assert(r0.contains(j as usize));
                    let k = choose|k: int| 0 <= k < r0.len() && r0[k] == j as usize;
                    assert(rows@[k] == j as usize);
                }
            }
        }
        i = i + 1;
    }
    let order = sorted_rows(&keys);
    let ghost listed = Seq::new(order@.len(), |k: int| rows@[order@[k] as int]);
    let mut out: Vec<ScoredItem> = Vec::new();
    let mut k: usize = 0;
    while k < order.len()
        invariant
            0 <= k <= order.len(),
            orders(keys@, order@, 0, keys@.len() as int),
            rows.len() == keys.len(),
            rows.len() == found.len(),
            listed == Seq::new(order@.len(), |k: int| rows@[order@[k] as int]),
            forall|m: int|
                0 <= m < rows@.len() ==> #[trigger] rows@[m] < items.len() && key_fits(
                    items@,
                    query@,
                    rows@[m],
                    keys@[m],
                    found@[m],
                ),
            out@.len() == k,
            forall|j: int|
                0 <= j < k ==> (#[trigger] out@[j]).item == items@[listed[j] as int]
                    && out@[j].score == row_score(items@, query@, listed[j] as int),
        decreases order.len() - k,
    {
        let ghost o0 = out@;
        assert(order@.contains(order@[k as int]));
        let m = order[k];
        assert(rows@[m as int] < items.len());
        out.push(ScoredItem { item: items[rows[m]].copy(), score: found[m] });
        assert forall|j: int| 0 <= j < k + 1 implies (#[trigger] out@[j]).item
            == items@[listed[j] as int] && out@[j].score == row_score(
            items@,
            query@,
            listed[j] as int,
        ) by {
            if j < k {
                assert(out@[j] == o0[j]);
            }
        }
        k = k + 1;
    }
    proof {
        assert forall|p: int| 0 <= p < order@.len() implies #[trigger] order@[p] < rows@.len() by {
            assert(order@.contains(order@[p]));
        }
        assert forall|p: int| 0 <= p < listed.len() implies #[trigger] listed[p] < items.len()
            && row_matched(items@, query@, listed[p] as int) by {
            assert(listed[p] == rows@[order@[p] as int]);
        }
        assert forall|j: int| 0 <= j < items@.len() && #[trigger] row_matched(
            items@,
            query@,
            j,
        ) implies listed.contains(j as usize) by {
            assert(rows@.contains(j as usize));
            let m = choose|m: int| 0 <= m < rows@.len() && rows@[m] == j as usize;
            assert(order@.contains(m as usize));
            let p = choose|p: int| 0 <= p < order@.len() && order@[p] == m as usize;
            assert(listed[p] == j as usize);
        }
        assert forall|p: int, q: int| 0 <= p < q < listed.len() implies item_before(
            items@,
            query@,
            #[trigger] listed[p],
            #[trigger] listed[q],
        ) by {
            let (x, y) = (order@[p], order@[q]);
            assert(row_before(keys@, x, y));
            assert(key_fits(items@, query@, rows@[x as int], keys@[x as int], found@[x as int]));
            assert(key_fits(items@, query@, rows@[y as int], keys@[y as int], found@[y as int]));
            crate::text::law_text_order(
                keys@[x as int].text@,
                keys@[y as int].text@,
                keys@[x as int].text@,
            );
            if x < y {
                assert(rows@[x as int] < rows@[y as int]);
            } else if y < x {
                assert(rows@[y as int] < rows@[x as int]);
            }
        }
        assert(lists(items@, query@, listed));
    }
    let truncated = out.len() > MAX_VISIBLE_ITEMS;
    (out, truncated)
}

/// A sort key stands for a row.
spec fn key_fits(
    items: Seq<PaletteItem>,
    query: Seq<char>,
    row: usize,
    key: SortKey,
    score: u128,
) -> bool {
    &&& score == row_score(items, query, row as int)
    &&& key.rank == score * 4 + category_rank(items[row as int].category)
    &&& key.number == 0
    &&& if trimmed(query).len() > 0 {
        key.text@ == items[row as int].label@
    } else {
        key.text@.len() == 0 && key.text@ == Seq::<char>::empty()
    }
}

/// There is one list only for a search text.
pub proof fn law_one_list(
    items: Seq<PaletteItem>,
    query: Seq<char>,
    a: Seq<usize>,
    b: Seq<usize>,
)
    requires
        lists(items, query, a),
        lists(items, query, b),
    ensures
        a == b,
{
    let before = |i: usize, j: usize| item_before(items, query, i, j);
    assert forall|i: usize, j: usize| !(#[trigger] before(i, j) && before(j, i)) by {
        let (x, y) = (items[i as int].label@, items[j as int].label@);
        crate::text::law_text_order(x, y, x);
    }
    assert forall|x: usize| #[trigger] a.contains(x) <==> b.contains(x) by {
        if a.contains(x) {
            let k = choose|k: int| 0 <= k < a.len() && a[k] == x;
            assert(row_matched(items, query, a[k] as int));
        }
        if b.contains(x) {
            let k = choose|k: int| 0 <= k < b.len() && b[k] == x;
            assert(row_matched(items, query, b[k] as int));
        }
    }
    lemma_one_listing(before, a, b);
}

/// What a listed row is ordered by: its score, the place of its kind, its label.
pub open spec fn order_key(row: Row, query: Seq<char>) -> (int, int, Seq<char>) {
    (
        score_of(lowercase(row.label), needle(query)),
        category_rank(row.category),
        row.label,
    )
}

/// Such a key comes before another or is the same.
pub open spec fn key_leq(x: (int, int, Seq<char>), y: (int, int, Seq<char>)) -> bool {
    x.0 < y.0 || x.0 == y.0 && (x.1 < y.1 || x.1 == y.1 && (x.2 == y.2 || text_before(x.2, y.2)))
}

proof fn lemma_key_order()
    ensures
        vstd::relations::total_ordering(
            |x: (int, int, Seq<char>), y: (int, int, Seq<char>)| key_leq(x, y),
        ),
{
    let leq = |x: (int, int, Seq<char>), y: (int, int, Seq<char>)| key_leq(x, y);
    assert forall|x: (int, int, Seq<char>), y: (int, int, Seq<char>)| #[trigger]
        leq(x, y) && #[trigger] leq(y, x) implies x == y by {
        crate::text::law_text_order(x.2, y.2, x.2);
    }
    assert forall|
        x: (int, int, Seq<char>),
        y: (int, int, Seq<char>),
        z: (int, int, Seq<char>),
    | #[trigger] leq(x, y) && #[trigger] leq(y, z) implies leq(x, z) by {
        crate::text::law_text_order(x.2, y.2, z.2);
    }
    assert forall|x: (int, int, Seq<char>), y: (int, int, Seq<char>)| #[trigger]
        leq(x, y) || #[trigger] leq(y, x) by {
        crate::text::law_text_order(x.2, y.2, x.2);
    }
}

/// The keys of the rows in the order in which they are listed.
spec fn listed_keys(items: Seq<PaletteItem>, query: Seq<char>, order: Seq<usize>) -> Seq<
    (int, int, Seq<char>),
> {
    at_positions(rows_of(items), order).map_values(|r: Row| order_key(r, query))
}

proof fn lemma_listed_keys(items: Seq<PaletteItem>, query: Seq<char>, order: Seq<usize>)
    requires
        items.len() <= usize::MAX,
        trimmed(query).len() > 0,
        lists(items, query, order),
    ensures
        vstd::relations::sorted_by(
            listed_keys(items, query, order),
            |x: (int, int, Seq<char>), y: (int, int, Seq<char>)| key_leq(x, y),
        ),
        at_positions(rows_of(items), order).to_multiset() == rows_of(items).to_multiset().filter(
            |r: Row| matched(lowercase(r.label), needle(query)),
        ),
{
    let keep = |r: Row| matched(lowercase(r.label), needle(query));
    let rows = rows_of(items);
    assert forall|p: int, q: int| 0 <= p < q < order.len() implies order[p] != order[q] by {
        assert(item_before(items, query, order[p], order[q]));
        let x = items[order[p] as int].label@;
        crate::text::law_text_order(x, x, x);
    }
    assert forall|k: int| 0 <= k < order.len() implies #[trigger] order[k] < rows.len() && keep(
        rows[order[k] as int],
    ) by {
        assert(row_matched(items, query, order[k] as int));
    }
    assert forall|i: int| 0 <= i < rows.len() && keep(#[trigger] rows[i]) implies order.contains(
        i as usize,
    ) by {
        assert(row_matched(items, query, i));
    }
    lemma_positions_of_all(rows, keep, order);
    let keys = listed_keys(items, query, order);
    assert forall|p: int, q: int| 0 <= p < q < keys.len() implies key_leq(keys[p], keys[q]) by {
        assert(item_before(items, query, order[p], order[q]));
    }
}

/// Under a search text the order of the candidates does not count: the same rows
/// in another order give a list of the same labels, kinds and scores.
pub proof fn law_order_of_candidates(
    a: Seq<PaletteItem>,
    b: Seq<PaletteItem>,
    query: Seq<char>,
    x: Seq<usize>,
    y: Seq<usize>,
)
    requires
        a.len() <= usize::MAX,
        trimmed(query).len() > 0,
        a.to_multiset() == b.to_multiset() || rows_of(a).to_multiset() == rows_of(
            b,
        ).to_multiset(),
        lists(a, query, x),
        lists(b, query, y),
    ensures
        x.len() == y.len(),
        forall|k: int|
            0 <= k < x.len() ==> {
                let (i, j) = (#[trigger] x[k] as int, y[k] as int);
                &&& a[i].label@ == b[j].label@
                &&& a[i].category == b[j].category
                &&& row_score(a, query, i) == row_score(b, query, j)
            },
{
    broadcast use vstd::seq_lib::group_to_multiset_ensures;

    let leq = |x: (int, int, Seq<char>), y: (int, int, Seq<char>)| key_leq(x, y);
    if a.to_multiset() == b.to_multiset() {
        lemma_mapped_alike(a, b, |i: PaletteItem| i@);
        assert(rows_of(a).to_multiset() == rows_of(b).to_multiset());
    }
    assert(rows_of(a).len() == rows_of(a).to_multiset().len());
    assert(rows_of(b).len() == rows_of(b).to_multiset().len());
    lemma_listed_keys(a, query, x);
    lemma_listed_keys(b, query, y);
    let (p, q) = (at_positions(rows_of(a), x), at_positions(rows_of(b), y));
    lemma_mapped_alike(p, q, |r: Row| order_key(r, query));
    lemma_key_order();
    let (s, t) = (listed_keys(a, query, x), listed_keys(b, query, y));
    vstd::seq_lib::lemma_sorted_unique(s, t, leq);
    assert(s.len() == x.len() && t.len() == y.len());
    assert forall|k: int| 0 <= k < x.len() implies {
        let (i, j) = (#[trigger] x[k] as int, y[k] as int);
        &&& a[i].label@ == b[j].label@
        &&& a[i].category == b[j].category
        &&& row_score(a, query, i) == row_score(b, query, j)
    } by {
        assert(s[k] == t[k]);
        assert(s[k] == order_key(rows_of(a)[x[k] as int], query));
        assert(t[k] == order_key(rows_of(b)[y[k] as int], query));
    }
}

/// An empty search text lists every row.
pub proof fn law_empty_query_lists_all(items: Seq<PaletteItem>, query: Seq<char>, i: int)
    requires
        needle(query).len() == 0,
        0 <= i < items.len(),
    ensures
        row_matched(items, query, i),
        row_score(items, query, i) == 500,
{
    assert(scores(lowercase(items[i].label@), needle(query), 500));
    lemma_one_score(lowercase(items[i].label@), needle(query), 500);
}

/// The keys that were pressed in a frame.
#[derive(Clone, Copy, Debug, PartialEq, Eq, Structural)]
pub struct PaletteKeys {
    pub up: bool,
    pub down: bool,
    pub enter: bool,
    pub escape: bool,
}

/// The highlighted row among `visible` rows: within them, and moved by the keys,
/// from the last to the first and back.
pub open spec fn highlighted(selected: int, visible: int, keys: PaletteKeys) -> int {
    let a = if visible == 0 {
        0
    } else if selected >= visible {
        visible - 1
    } else {
        selected
    };
    let b = if keys.down && visible > 0 {
        if a + 1 >= visible {
            0
        } else {
            a + 1
        }
    } else {
        a
    };
    if keys.up && visible > 0 {
        if b == 0 {
            visible - 1
        } else {
            b - 1
        }
    } else {
        b
    }
}

/// The number of rows that are shown of `total`.
pub fn visible_count(total: usize) -> (r: usize)
    ensures
        r == if total > MAX_VISIBLE_ITEMS {
            MAX_VISIBLE_ITEMS as int
        } else {
            total as int
        },
{
    if total > MAX_VISIBLE_ITEMS {
        MAX_VISIBLE_ITEMS
    } else {
        total
    }
}

/// Takes in the keys of a frame. Escape closes the palette; else the highlight
/// moves. Gives the row that was confirmed, where one was.
pub fn handle_keys(palette: &mut CommandPalette, visible: usize, keys: PaletteKeys) -> (r: Option<
    usize,
>)
    ensures
        if keys.escape {
            &&& r is None
            &&& !final(palette).open
            &&& final(palette).query@.len() == 0
            &&& final(palette).selected_idx == 0
            &&& !final(palette).focus_input
        } else {
            &&& final(palette).selected_idx == highlighted(
                old(palette).selected_idx as int,
                visible as int,
                keys,
            )
            &&& r == if keys.enter && visible > 0 {
                Some(final(palette).selected_idx)
            } else {
                None
            }
            &&& *final(palette) == (CommandPalette {
                selected_idx: final(palette).selected_idx,
                ..*old(palette)
            })
        },
{
    if keys.escape {
        palette.close();
        return None;
    }
    if visible == 0 {
        palette.selected_idx = 0;
    } else if palette.selected_idx >= visible {
        palette.selected_idx = visible - 1;
    }
    if keys.down && visible > 0 {
        palette.selected_idx = if palette.selected_idx >= visible - 1 {
            0
        } else {
            palette.selected_idx + 1
        };
    }
    if keys.up && visible > 0 {
        palette.selected_idx = if palette.selected_idx == 0 {
            visible - 1
        } else {
            palette.selected_idx - 1
        };
    }
    if keys.enter && visible > 0 {
        Some(palette.selected_idx)
    } else {
        None
    }
}

/// The highlight is on a row that is shown, where one is; and up undoes down.
pub proof fn law_highlight(selected: int, visible: int, keys: PaletteKeys)
    requires
        0 <= selected,
        0 < visible,
    ensures
        0 <= highlighted(selected, visible, keys) < visible,
        selected < visible ==> highlighted(
            highlighted(
                selected,
                visible,
                PaletteKeys { up: false, down: true, enter: false, escape: false },
            ),
            visible,
            PaletteKeys { up: true, down: false, enter: false, escape: false },
        ) == selected,
{
}

} // verus!
