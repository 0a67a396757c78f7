//! The conflict viewer: loaded mods and where they collide.

use vstd::prelude::*;
use crate::digits::{dec, dec_text, dec_usize};
use crate::json::Json;
use crate::state::{failure_note, info_note, warn_note, AppState, Note};
use crate::text::{concat2, concat3, join, joined, views};
use crate::ui::templates_panel::value_text;

verus! {

broadcast use vstd::seq_lib::group_seq_properties;

/// A mod that was loaded to be compared.
#[derive(Debug)]
pub struct LoadedMod {
    pub path: String,
    pub name: String,
    pub author: Option<String>,
    pub version: Option<String>,
    pub change_count: usize,
    pub entry_count: usize,
}

/// How two mods collide.
#[derive(Debug)]
pub enum ConflictKind {
    /// Both change one field.
    DirectConflict {
        table: String,
        entry_key: u64,
        field_path: String,
        mod_a_value: Json,
        mod_b_value: Json,
    },
    /// Both change one entry, in different fields.
    PartialOverlap {
        table: String,
        entry_key: u64,
        a_fields: Vec<String>,
        b_fields: Vec<String>,
    },
}

/// Two mods, by their positions, and how they collide.
#[derive(Debug)]
pub struct Conflict {
    pub a: usize,
    pub b: usize,
    pub kind: ConflictKind,
}

/// What a comparison found.
#[derive(Debug)]
pub struct ConflictReport {
    /// The names of the mods that were compared.
    pub mod_names: Vec<String>,
    pub conflicts: Vec<Conflict>,
}

/// How many of the first `n` conflicts are direct.
pub open spec fn direct_upto(c: Seq<Conflict>, n: nat) -> nat
    decreases n,
{
    if n == 0 {
        0
    } else {
        direct_upto(c, (n - 1) as nat) + (if c[n - 1].kind is DirectConflict {
            1nat
        } else {
            0
        })
    }
}

impl ConflictReport {
    /// The number of direct conflicts.
    pub open spec fn direct(&self) -> nat {
        direct_upto(self.conflicts@, self.conflicts@.len())
    }

    /// The number of direct conflicts.
    pub fn direct_count(&self) -> (r: usize)
        ensures
            r == self.direct(),
            r <= self.conflicts@.len(),
    {
        let c = &self.conflicts;
        let mut n: usize = 0;
        let mut i: usize = 0;
        while i < c.len()
            invariant
                0 <= i <= c.len(),
                c == &self.conflicts,
                n <= i,
                n == direct_upto(c@, i as nat),
            decreases c.len() - i,
        {
            match &c[i].kind {
                ConflictKind::DirectConflict { .. } => {
                    n = n + 1;
                },
                _ => {},
            }
            i = i + 1;
        }
        n
    }

    /// The number of overlaps without a direct conflict.
    pub fn partial_count(&self) -> (r: usize)
        ensures
            r == self.conflicts@.len() - self.direct(),
    {
        self.conflicts.len() - self.direct_count()
    }
}

/// What the user asked of the panel.
#[derive(Debug)]
pub enum Action {
    /// Mods were picked; each is loaded or could not be.
    LoadMods(Vec<(String, Result<LoadedMod, String>)>),
    RemoveMod(usize),
    /// The loaded mods were compared.
    Analyze(ConflictReport),
    /// One side of a conflict was picked.
    PickPlaceholder,
}

/// Whether there are mods to compare, and what is said of that.
pub fn analyze_button(state: &AppState) -> (r: (bool, &'static str))
    ensures
        r.0 == (state.loaded_mods@.len() >= 2),
        r.1@ == if r.0 {
            "Compare every pair of loaded mods"@
        } else {
            "Load two or more mods first"@
        },
{
    if state.loaded_mods.len() >= 2 {
        (true, "Compare every pair of loaded mods")
    } else {
        (false, "Load two or more mods first")
    }
}

/// The heading of the results.
pub open spec fn results_text(r: Option<ConflictReport>) -> Seq<char> {
    match r {
        Some(x) => "Results: "@ + dec(x.conflicts@.len()) + " conflicts ("@ + dec(x.direct())
            + " direct, "@ + dec((x.conflicts@.len() - x.direct()) as nat) + " partial) across "@
            + dec(x.mod_names@.len()) + " mods"@,
        None => "Results: (run Analyze)"@,
    }
}

/// The heading of the results.
pub fn results_header(report: &Option<ConflictReport>) -> (r: String)
    ensures
        r@ == results_text(*report),
{
    match report {
        Some(x) => {
            let mut s = "Results: ".to_owned();
            s.push_str(dec_usize(x.conflicts.len()).as_str());
            s.push_str(" conflicts (");
            s.push_str(dec_usize(x.direct_count()).as_str());
            s.push_str(" direct, ");
            s.push_str(dec_usize(x.partial_count()).as_str());
            s.push_str(" partial) across ");
            s.push_str(dec_usize(x.mod_names.len()).as_str());
            s.push_str(" mods");
            s
        },
        None => "Results: (run Analyze)".to_owned(),
    }
}

/// The name of a compared mod, or a question mark for one that is not there.
pub open spec fn name_at(names: Seq<String>, i: usize) -> Seq<char> {
    if i < names.len() {
        names[i as int]@
    } else {
        "?"@
    }
}

/// The name of a compared mod, or a question mark for one that is not there.
pub fn mod_name(report: &ConflictReport, i: usize) -> (r: String)
    ensures
        r@ == name_at(report.mod_names@, i),
{
    if i < report.mod_names.len() {
        report.mod_names[i].clone()
    } else {
        "?".to_owned()
    }
}

/// The line on a conflict.
pub open spec fn conflict_line(k: ConflictKind, a: Seq<char>, b: Seq<char>) -> Seq<char> {
    match k {
        ConflictKind::DirectConflict {
            table,
            entry_key,
            field_path,
            mod_a_value,
            mod_b_value,
        } => "[Direct] "@ + table@ + " "@ + dec(entry_key as nat) + ": "@ + field_path@ + " ("@ + a
            + " ↔ "@ + b + ")"@,
        ConflictKind::PartialOverlap { table, entry_key, a_fields, b_fields } => "[Overlap] "@
            + table@ + " "@ + dec(entry_key as nat) + ": "@ + a + " & "@ + b
            + " touch the same entry"@,
    }
}

/// The line on a conflict.
pub fn conflict_summary(kind: &ConflictKind, a: &str, b: &str) -> (r: String)
    ensures
        r@ == conflict_line(*kind, a@, b@),
{
    match kind {
        ConflictKind::DirectConflict { table, entry_key, field_path, .. } => {
            let mut s = "[Direct] ".to_owned();
            s.push_str(table.as_str());
            s.push_str(" ");
            s.push_str(dec_text(*entry_key).as_str());
            s.push_str(": ");
            s.push_str(field_path.as_str());
            s.push_str(" (");
            s.push_str(a);
            s.push_str(" ↔ ");
            s.push_str(b);
            s.push_str(")");
            s
        },
        ConflictKind::PartialOverlap { table, entry_key, .. } => {
            let mut s = "[Overlap] ".to_owned();
            s.push_str(table.as_str());
            s.push_str(" ");
            s.push_str(dec_text(*entry_key).as_str());
            s.push_str(": ");
            s.push_str(a);
            s.push_str(" & ");
            s.push_str(b);
            s.push_str(" touch the same entry");
            s
        },
    }
}

/// The red, green and blue of a conflict: red for a direct one, yellow for an overlap.
pub fn conflict_color(kind: &ConflictKind) -> (r: (u8, u8, u8))
    ensures
        r == if *kind is DirectConflict {
            (230u8, 80u8, 80u8)
        } else {
            (240u8, 190u8, 60u8)
        },
{
    match kind {
        ConflictKind::DirectConflict { .. } => (230, 80, 80),
        ConflictKind::PartialOverlap { .. } => (240, 190, 60),
    }
}

/// The rows that unfold under a conflict: a name and a value each.
pub open spec fn detail_rows(k: ConflictKind, a: Seq<char>, b: Seq<char>) -> Seq<
    (Seq<char>, Seq<char>),
> {
    match k {
        ConflictKind::DirectConflict {
            table,
            entry_key,
            field_path,
            mod_a_value,
            mod_b_value,
        } => seq![
            ("Table"@, table@),
            ("Entry key"@, dec(entry_key as nat)),
            ("Field path"@, field_path@),
            (a + " value"@, value_text(mod_a_value@)),
            (b + " value"@, value_text(mod_b_value@)),
        ],
        ConflictKind::PartialOverlap { table, entry_key, a_fields, b_fields } => seq![
            (a + " fields"@, fields_text(a_fields@)),
            (b + " fields"@, fields_text(b_fields@)),
        ],
    }
}

/// The fields of one side of an overlap.
pub open spec fn fields_text(v: Seq<String>) -> Seq<char> {
    if v.len() == 0 {
        "(none)"@
    } else {
        joined(views(v), ", "@)
    }
}

fn fields_line(v: &Vec<String>) -> (r: String)
    ensures
        r@ == fields_text(v@),
{
    if v.len() == 0 {
        "(none)".to_owned()
    } else {
        join(v, ", ")
    }
}

/// What rows say.
pub open spec fn row_texts(v: Seq<(String, String)>) -> Seq<(Seq<char>, Seq<char>)> {
    v.map_values(|p: (String, String)| (p.0@, p.1@))
}

fn push_row(v: &mut Vec<(String, String)>, name: String, value: String)
    ensures
        row_texts(final(v)@) == row_texts(old(v)@).push((name@, value@)),
{
    let ghost v0 = v@;
    let ghost p = (name@, value@);
    v.push((name, value));
    assert(row_texts(v@) =~= row_texts(v0).push(p));
}

/// The rows that unfold under a conflict.
pub fn conflict_details(kind: &ConflictKind, a: &str, b: &str) -> (r: Vec<(String, String)>)
    ensures
        row_texts(r@) == detail_rows(*kind, a@, b@),
{
    let mut v: Vec<(String, String)> = Vec::new();
    assert(row_texts(v@) =~= Seq::empty());
    match kind {
        ConflictKind::DirectConflict {
            table,
            entry_key,
            field_path,
            mod_a_value,
            mod_b_value,
        } => {
            push_row(&mut v, "Table".to_owned(), table.clone());
            push_row(&mut v, "Entry key".to_owned(), dec_text(*entry_key));
            push_row(&mut v, "Field path".to_owned(), field_path.clone());
            push_row(&mut v, concat2(a, " value"), format_value(mod_a_value));
            push_row(&mut v, concat2(b, " value"), format_value(mod_b_value));
        },
        ConflictKind::PartialOverlap { table: _, entry_key: _, a_fields, b_fields } => {
            push_row(&mut v, concat2(a, " fields"), fields_line(a_fields));
            push_row(&mut v, concat2(b, " fields"), fields_line(b_fields));
        },
    }
    assert(row_texts(v@) =~= detail_rows(*kind, a@, b@));
    v
}

/// A value as it is listed.
pub fn format_value(v: &Json) -> (r: String)
    ensures
        r@ == value_text(v@),
{
    crate::ui::templates_panel::format_value(v)
}

/// The mods among the first `n` picked files that could be loaded.
pub open spec fn loaded_of(v: Seq<(String, Result<LoadedMod, String>)>, n: nat) -> Seq<LoadedMod>
    decreases n,
{
    if n == 0 {
        Seq::empty()
    } else {
        let before = loaded_of(v, (n - 1) as nat);
        match v[n - 1].1 {
            Ok(m) => before.push(m),
            Err(_) => before,
        }
    }
}

/// What is said of the first `n` picked files: each that could not be loaded.
pub open spec fn load_notes(v: Seq<(String, Result<LoadedMod, String>)>, n: nat) -> Seq<Note>
    decreases n,
{
    if n == 0 {
        Seq::empty()
    } else {
        let before = load_notes(v, (n - 1) as nat);
        match v[n - 1].1 {
            Ok(_) => before,
            Err(e) => before.push(failure_note("Failed to load mod "@ + v[n - 1].0@, e@)),
        }
    }
}

/// What is done when a button of the panel was pressed.
pub open spec fn action_applied(before: AppState, after: AppState, action: Action) -> bool {
    match action {
        Action::LoadMods(v) => {
            let got = loaded_of(v@, v@.len());
            let notes = before.toasts@ + load_notes(v@, v@.len());
            &&& after.loaded_mods@ == before.loaded_mods@ + got
            &&& after.toasts@ == if got.len() > 0 {
                notes.push(info_note("Loaded "@ + dec(got.len()) + " mod(s)"@))
            } else {
                notes
            }
            &&& after == (AppState {
                loaded_mods: after.loaded_mods,
                toasts: after.toasts,
                conflict_report: if got.len() > 0 {
                    None
                } else {
                    before.conflict_report
                },
                ..before
            })
        },
        Action::RemoveMod(idx) => if idx < before.loaded_mods@.len() {
            &&& after.loaded_mods@ == before.loaded_mods@.remove(idx as int)
            &&& after.toasts@ == before.toasts@.push(
                info_note("Removed "@ + before.loaded_mods@[idx as int].name@),
            )
            &&& after == (AppState {
                loaded_mods: after.loaded_mods,
                toasts: after.toasts,
                conflict_report: None,
                ..before
            })
        } else {
            after == before
        },
        Action::Analyze(report) => {
            &&& after.toasts@ == before.toasts@.push(info_note(analyzed_text(report)))
            &&& after == (AppState {
                conflict_report: Some(report),
                toasts: after.toasts,
                ..before
            })
        },
        Action::PickPlaceholder => {
            &&& after.toasts@ == before.toasts@.push(
                warn_note("Merging is not implemented yet (v1 is viewer-only)"@),
            )
            &&& after == (AppState { toasts: after.toasts, ..before })
        },
    }
}

/// What is said of a comparison.
pub open spec fn analyzed_text(r: ConflictReport) -> Seq<char> {
    "Analyzed "@ + dec(r.mod_names@.len()) + " mods: "@ + dec(r.conflicts@.len())
        + " conflicts ("@ + dec(r.direct()) + " direct, "@ + dec(
        (r.conflicts@.len() - r.direct()) as nat,
    ) + " partial)"@
}

fn load_mods(state: &mut AppState, v: Vec<(String, Result<LoadedMod, String>)>)
    ensures
        action_applied(*old(state), *final(state), Action::LoadMods(v)),
{
    let ghost all = v@;
    let count: usize = v.len();
    let ghost mods0 = state.loaded_mods@;
    let ghost notes0 = state.toasts@;
    let mut rest = v;
    let mut left: Vec<(String, Result<LoadedMod, String>)> = Vec::new();
    // Reversed, so that each can be taken off the end in its turn.
    while rest.len() > 0
        invariant
            rest@ + left@.reverse() == all,
        decreases rest.len(),
    {
        let ghost r0 = rest@;
        let ghost l0 = left@;
        match rest.pop() {
            Some(x) => {
                left.push(x);
                assert(r0 =~= rest@.push(x));
                assert(left@.reverse() =~= seq![x] + l0.reverse());
                assert(rest@ + left@.reverse() =~= r0 + l0.reverse());
            },
            None => {},
        }
    }
    assert(left@.reverse() =~= all);
    let mut loaded: usize = 0;
    let ghost mut n: nat = 0;
    assert(state.loaded_mods@ =~= mods0 + loaded_of(all, 0));
    assert(state.toasts@ =~= notes0 + load_notes(all, 0));
    while left.len() > 0
        invariant
            n <= all.len(),
            left@.len() == all.len() - n,
            left@.reverse() == all.skip(n as int),
            loaded == loaded_of(all, n).len(),
            loaded <= n,
            all.len() == count,
            state.loaded_mods@ == mods0 + loaded_of(all, n),
            state.toasts@ == notes0 + load_notes(all, n),
            *state == (AppState {
                loaded_mods: state.loaded_mods,
                toasts: state.toasts,
                ..*old(state)
            }),
        decreases left.len(),
    {
        let ghost l0 = left@;
        assert(l0.reverse()[0] == l0.last());
        assert(all.skip(n as int)[0] == all[n as int]);
        match left.pop() {
            Some(x) => {
                assert(left@.reverse() =~= l0.reverse().drop_first());
                assert(all.skip(n as int).drop_first() =~= all.skip(n as int + 1));
                match x.1 {
                    Ok(m) => {
                        state.loaded_mods.push(m);
                        loaded = loaded + 1;
                        assert(state.loaded_mods@ =~= mods0 + loaded_of(all, (n + 1) as nat));
                    },
                    Err(e) => {
                        let msg = concat2("Failed to load mod ", x.0.as_str());
                        state.toasts.error_with_details(msg.as_str(), e.as_str());
                        assert(state.toasts@ =~= notes0 + load_notes(all, (n + 1) as nat));
                    },
                }
                proof {
                    n = n + 1;
                }
            },
            None => {},
        }
    }
    assert(n == all.len());
    if loaded > 0 {
        state.conflict_report = None;
        let m = concat3("Loaded ", dec_usize(loaded).as_str(), " mod(s)");
        state.toasts.info(m.as_str());
    }
}

/// Does what the user asked of the panel.
pub fn apply_action(state: &mut AppState, action: Action)
    ensures
        action_applied(*old(state), *final(state), action),
{
    match action {
        Action::LoadMods(v) => {
            load_mods(state, v);
        },
        Action::RemoveMod(idx) => {
            if idx < state.loaded_mods.len() {
                let removed = state.loaded_mods.remove(idx);
                state.conflict_report = None;
                let m = concat2("Removed ", removed.name.as_str());
                state.toasts.info(m.as_str());
            }
        },
        Action::Analyze(report) => {
            let mut s = "Analyzed ".to_owned();
            s.push_str(dec_usize(report.mod_names.len()).as_str());
            s.push_str(" mods: ");
            s.push_str(dec_usize(report.conflicts.len()).as_str());
            s.push_str(" conflicts (");
            s.push_str(dec_usize(report.direct_count()).as_str());
            s.push_str(" direct, ");
            s.push_str(dec_usize(report.partial_count()).as_str());
            s.push_str(" partial)");
            state.conflict_report = Some(report);
            state.toasts.info(s.as_str());
        },
        Action::PickPlaceholder => {
            state.toasts.warn("Merging is not implemented yet (v1 is viewer-only)");
        },
    }
}

/// A list of mods that changes makes the comparison of it stale: it is gone.
pub proof fn law_changed_mods_drop_report(before: AppState, after: AppState, action: Action)
    requires
        action_applied(before, after, action),
        !(action is Analyze),
        after.loaded_mods@ != before.loaded_mods@,
    ensures
        after.conflict_report is None,
{
    match action {
        Action::LoadMods(v) => {
            if loaded_of(v@, v@.len()).len() == 0 {
                assert(before.loaded_mods@ + loaded_of(v@, v@.len()) =~= before.loaded_mods@);
            }
        },
        _ => {},
    }
}

} // verus!
