//! Templates: preset changes to the fields of an entry.

use vstd::prelude::*;
use crate::digits::{dec, dec_text, dec_usize};
use crate::edit_path::{get_at_path, value_at};
use crate::json::{equal_trees, number_text, trees, Json, Tree};
use crate::json_text::{compact_text, form, to_compact};
use crate::rows::picked;
use crate::state::{
    failure_note, info_note, warn_note, with_change, without_change, ActiveTable, AppState, Edit,
    EditOp,
};
use crate::text::{concat3, lemma_split_nonempty, same, split, split_on, views};
use crate::ui::field_panel::{or_null, shipped_at};

verus! {

broadcast use vstd::seq_lib::group_seq_properties;

/// A change to one field.
#[derive(Debug)]
pub struct TemplateField {
    pub path: String,
    pub value: Json,
    /// The value is a factor and not a replacement.
    pub multiplicative: bool,
}

/// A set of changes to the fields of an entry.
#[derive(Debug)]
pub struct Template {
    pub name: String,
    pub description: String,
    pub table: String,
    pub field_changes: Vec<TemplateField>,
    pub user_defined: bool,
}

/// Which template is selected: one that comes with the workbench or one of the user.
#[derive(Clone, Copy, Debug, PartialEq, Eq, Structural)]
pub enum TemplateIdx {
    Builtin(usize),
    User(usize),
}

/// What the panel keeps.
#[derive(Debug)]
pub struct TemplatesPanelState {
    pub selected: Option<TemplateIdx>,
    /// Only templates for the table in focus are listed.
    pub filter_by_active_table: bool,
    pub new_template_name: String,
}

impl TemplatesPanelState {
    /// As it is when the workbench starts.
    pub open spec fn is_fresh(&self) -> bool {
        &&& self.selected is None
        &&& !self.filter_by_active_table
        &&& self.new_template_name@.len() == 0
    }
}

impl Default for TemplatesPanelState {
    fn default() -> (r: Self)
        ensures
            r.is_fresh(),
    {
        TemplatesPanelState {
            selected: None,
            filter_by_active_table: false,
            new_template_name: String::new(),
        }
    }
}

/// The name of the table in focus; empty where none is.
pub open spec fn focus_name(s: AppState) -> Seq<char> {
    match s.focus() {
        Some(i) => s.open_tabs@[i].dispatch_name@,
        None => Seq::empty(),
    }
}

/// The name of the table in focus; empty where none is.
pub fn active_name(state: &AppState) -> (r: String)
    ensures
        r@ == focus_name(*state),
{
    match state.active_table() {
        Some(t) => t.dispatch_name.clone(),
        None => String::new(),
    }
}

/// A template is listed: the filter is off, or no table is in focus, or it is
/// for that table.
pub open spec fn template_listed(v: Seq<Template>, filter: bool, table: Seq<char>) -> spec_fn(
    int,
) -> bool {
    |i: int| !filter || table.len() == 0 || v[i].table@ == table
}

/// The templates that are listed.
pub fn listed_templates(v: &Vec<Template>, filter: bool, table: &str) -> (r: Vec<usize>)
    ensures
        r@ == picked(v@.len(), template_listed(v@, filter, table@)),
{
    let mut out: Vec<usize> = Vec::new();
    let mut i: usize = 0;
    while i < v.len()
        invariant
            0 <= i <= v.len(),
            out@ == picked(i as nat, template_listed(v@, filter, table@)),
        decreases v.len() - i,
    {
        if !filter || table.is_empty() || same(v[i].table.as_str(), table) {
            out.push(i);
        }
        i = i + 1;
    }
    out
}

/// How a template is listed.
pub fn list_label(t: &Template) -> (r: String)
    ensures
        r@ == t.name@ + "  ["@ + t.table@ + "]"@,
{
    let mut s = t.name.clone();
    s.push_str("  [");
    s.push_str(t.table.as_str());
    s.push_str("]");
    s
}

/// The selected template, where there is one.
pub fn chosen<'a>(
    selected: Option<TemplateIdx>,
    builtins: &'a Vec<Template>,
    users: &'a Vec<Template>,
) -> (r: Option<&'a Template>)
    ensures
        match (selected, r) {
            (Some(TemplateIdx::Builtin(i)), Some(t)) => i < builtins@.len() && *t
                == builtins@[i as int],
            (Some(TemplateIdx::Builtin(i)), None) => i >= builtins@.len(),
            (Some(TemplateIdx::User(i)), Some(t)) => i < users@.len() && *t == users@[i as int],
            (Some(TemplateIdx::User(i)), None) => i >= users@.len(),
            (None, r) => r is None,
        },
{
    match selected {
        Some(TemplateIdx::Builtin(i)) => if i < builtins.len() {
            Some(&builtins[i])
        } else {
            None
        },
        Some(TemplateIdx::User(i)) => if i < users.len() {
            Some(&users[i])
        } else {
            None
        },
        None => None,
    }
}

/// A value as it is listed.
pub open spec fn value_text(t: Tree) -> Seq<char> {
    match t {
        Tree::Null => "null"@,
        Tree::Bool(b) => if b {
            "true"@
        } else {
            "false"@
        },
        Tree::Int(_) => number_text(t),
        Tree::Float(s) => s,
        Tree::Str(s) => "\""@ + s + "\""@,
        _ => compact_text(form(t)),
    }
}

/// A value as it is listed.
pub fn format_value(v: &Json) -> (r: String)
    ensures
        r@ == value_text(v@),
{
    match v {
        Json::Null => "null".to_owned(),
        Json::Bool(b) => if *b {
            "true".to_owned()
        } else {
            "false".to_owned()
        },
        Json::Uint(_) | Json::Int(_) | Json::Float(_) => v.number(),
        Json::Str(s) => concat3("\"", s.as_str(), "\""),
        _ => to_compact(v),
    }
}

/// How a field is changed.
pub fn mode_text(f: &TemplateField) -> (r: &'static str)
    ensures
        r@ == if f.multiplicative {
            "× multiply"@
        } else {
            "= replace"@
        },
{
    if f.multiplicative {
        "× multiply"
    } else {
        "= replace"
    }
}

/// Whether a template can be applied: an entry of the table in focus is selected.
pub fn apply_enabled(state: &AppState) -> (r: bool)
    ensures
        r == (state.focus() matches Some(i) && state.open_tabs@[i].selected_entry_idx is Some),
{
    match state.active_table() {
        Some(t) => t.selected_entry_idx.is_some(),
        None => false,
    }
}

/// Whether a template is for another table than the one in focus.
pub fn is_mismatch(t: &Template, table: &str) -> (r: bool)
    ensures
        r == (table@.len() > 0 && t.table@ != table@),
{
    !table.is_empty() && !same(t.table.as_str(), table)
}

/// What changes when the templates of the user were read again.
pub fn templates_reloaded(state: &mut AppState, result: Result<Vec<Template>, String>)
    ensures
        match result {
            Ok(list) => {
                &&& final(state).toasts@ == old(state).toasts@.push(
                    info_note(
                        "Reloaded "@ + dec(list@.len()) + " user template"@ + (if list@.len() == 1 {
                            ""@
                        } else {
                            "s"@
                        }),
                    ),
                )
                &&& *final(state) == (AppState {
                    user_templates: list,
                    toasts: final(state).toasts,
                    ..*old(state)
                })
            },
            Err(e) => {
                &&& final(state).toasts@ == old(state).toasts@.push(
                    failure_note("Failed to reload user templates"@, e@),
                )
                &&& *final(state) == (AppState { toasts: final(state).toasts, ..*old(state) })
            },
        },
{
    match result {
        Ok(list) => {
            let n = list.len();
            let mut m = "Reloaded ".to_owned();
            m.push_str(dec_usize(n).as_str());
            m.push_str(" user template");
            m.push_str(
                if n == 1 {
                    ""
                } else {
                    "s"
                },
            );
            state.user_templates = list;
            state.toasts.info(m.as_str());
        },
        Err(e) => {
            state.toasts.error_with_details("Failed to reload user templates", e.as_str());
        },
    }
}

/// What changes when a template of the user was deleted, or could not be.
pub fn template_deleted(state: &mut AppState, idx: usize, result: &Result<(), String>)
    ensures
        if idx >= old(state).user_templates@.len() {
            *final(state) == *old(state)
        } else {
            match *result {
                Ok(_) => {
                    &&& final(state).user_templates@ == old(state).user_templates@.remove(
                        idx as int,
                    )
                    &&& final(state).templates_panel == (TemplatesPanelState {
                        selected: None,
                        ..old(state).templates_panel
                    })
                    &&& final(state).toasts@ == old(state).toasts@.push(
                        info_note(
                            "Deleted template '"@ + old(state).user_templates@[idx as int].name@
                                + "'"@,
                        ),
                    )
                    &&& *final(state) == (AppState {
                        user_templates: final(state).user_templates,
                        templates_panel: final(state).templates_panel,
                        toasts: final(state).toasts,
                        ..*old(state)
                    })
                },
                Err(e) => {
                    &&& final(state).toasts@ == old(state).toasts@.push(
                        failure_note("Failed to delete template"@, e@),
                    )
                    &&& *final(state) == (AppState {
                        toasts: final(state).toasts,
                        ..*old(state)
                    })
                },
            }
        },
{
    if idx >= state.user_templates.len() {
        return;
    }
    match result {
        Ok(_) => {
            let gone = state.user_templates.remove(idx);
            state.templates_panel.selected = None;
            let m = concat3("Deleted template '", gone.name.as_str(), "'");
            state.toasts.info(m.as_str());
        },
        Err(e) => {
            state.toasts.error_with_details("Failed to delete template", e.as_str());
        },
    }
}

/// What has come of the fields of a template so far: the changes that are
/// noted, and the edits that were made.
pub struct Progress {
    pub changes: Seq<(u64, Seq<char>)>,
    pub edits: Seq<Edit>,
}

/// A field of a template changes an entry: it is there afterwards, and differs
/// from what it was.
pub open spec fn field_changes(before: Tree, after: Tree, path: Seq<char>) -> bool {
    value_at(after, path) matches Some(n) && !equal_trees(or_null(value_at(before, path)), n)
}

/// What has come of the first `n` fields of a template. A field that is now as
/// shipped is noted no longer; any other that differs from before is noted; and
/// each is an edit of its own.
pub open spec fn progress(
    tab: ActiveTable,
    entry: int,
    after: Tree,
    fields: Seq<TemplateField>,
    now: u64,
    n: nat,
) -> Progress
    decreases n,
{
    if n == 0 {
        Progress { changes: tab.changes@, edits: Seq::empty() }
    } else {
        let p = progress(tab, entry, after, fields, now, (n - 1) as nat);
        let path = fields[n - 1].path@;
        let before = tab.entries@[entry]@;
        let key = tab.entry_keys@[entry];
        if field_changes(before, after, path) {
            let new_value = value_at(after, path)->Some_0;
            Progress {
                changes: if shipped_at(tab, entry, path) matches Some(v) && equal_trees(
                    v,
                    new_value,
                ) {
                    without_change(p.changes, key, path)
                } else {
                    with_change(p.changes, key, path)
                },
                edits: p.edits.push(
                    Edit {
                        table: tab.dispatch_name@,
                        entry_key: key,
                        field_path: path,
                        old_value: or_null(value_at(before, path)),
                        new_value,
                        timestamp: now,
                    },
                ),
            }
        } else {
            p
        }
    }
}

/// A template was applied to an entry of a table.
pub open spec fn template_applied(
    before: ActiveTable,
    after: ActiveTable,
    entry: int,
    working: Tree,
    fields: Seq<TemplateField>,
    now: u64,
) -> bool {
    let p = progress(before, entry, working, fields, now, fields.len());
    &&& trees(after.entries@) == trees(before.entries@).update(entry, working)
    &&& after.changes@ == p.changes
    &&& after.history.edits() == if p.edits.len() == 0 {
        before.history.edits()
    } else {
        before.history.edits().take(before.history.position as int) + p.edits
    }
    &&& after.history.position == before.history.position + p.edits.len()
    &&& after.wf()
    &&& after == (ActiveTable {
        entries: after.entries,
        changes: after.changes,
        history: after.history,
        ..before
    })
}

fn record_field(
    tab: &mut ActiveTable,
    entry: usize,
    before: &Json,
    after: &Json,
    path: &String,
    now: u64,
) -> (changed: bool)
    requires
        old(tab).wf(),
        entry < old(tab).entries@.len(),
    ensures
        changed == field_changes(before@, after@, path@),
        !changed ==> *final(tab) == *old(tab),
        changed ==> {
            let new_value = value_at(after@, path@)->Some_0;
            let key = old(tab).entry_keys@[entry as int];
            &&& final(tab).changes@ == if shipped_at(*old(tab), entry as int, path@) matches Some(v)
                && equal_trees(v, new_value) {
                without_change(old(tab).changes@, key, path@)
            } else {
                with_change(old(tab).changes@, key, path@)
            }
            &&& final(tab).history.edits() == old(tab).history.edits().take(
                old(tab).history.position as int,
            ).push(
                Edit {
                    table: old(tab).dispatch_name@,
                    entry_key: key,
                    field_path: path@,
                    old_value: or_null(value_at(before@, path@)),
                    new_value,
                    timestamp: now,
                },
            )
            &&& final(tab).history.position == old(tab).history.position + 1
            &&& final(tab).wf()
            &&& *final(tab) == (ActiveTable {
                changes: final(tab).changes,
                history: final(tab).history,
                ..*old(tab)
            })
        },
{
    let new_value = match get_at_path(after, path.as_str()) {
        Some(v) => v.copy(),
        None => {
            return false;
        },
    };
    let old_value = match get_at_path(before, path.as_str()) {
        Some(v) => v.copy(),
        None => Json::Null,
    };
    if old_value.equals(&new_value) {
        return false;
    }
    let as_shipped = if entry < tab.vanilla.len() {
        match get_at_path(&tab.vanilla[entry], path.as_str()) {
            Some(v) => v.equals(&new_value),
            None => false,
        }
    } else {
        false
    };
    let key = tab.entry_keys[entry];
    if as_shipped {
        tab.changes.unrecord_field(key, path.as_str());
    } else {
        tab.changes.record_change(key, path.clone());
    }
    let op = EditOp {
        table: tab.dispatch_name.clone(),
        entry_key: key,
        field_path: path.clone(),
        old_value,
        new_value,
        timestamp: now,
    };
    tab.history.record(op);
    true
}

fn apply_to_entry(
    tab: &mut ActiveTable,
    entry: usize,
    working: Json,
    fields: &Vec<TemplateField>,
    now: u64,
) -> (applied: usize)
    requires
        old(tab).wf(),
        entry < old(tab).entries@.len(),
    ensures
        template_applied(*old(tab), *final(tab), entry as int, working@, fields@, now),
        applied == progress(
            *old(tab),
            entry as int,
            working@,
            fields@,
            now,
            fields@.len(),
        ).edits.len(),
{
    let before = tab.entries[entry].copy();
    let after = working.copy();
    let ghost e0 = tab.entries@;
    let ghost wt = working@;
    tab.entries[entry] = working;
    assert(trees(tab.entries@) =~= trees(e0).update(entry as int, wt));
    let mut applied: usize = 0;
    let mut i: usize = 0;
    let ghost pos = old(tab).history.position as int;
    let ghost all = old(tab).history.edits();
    while i < fields.len()
        invariant
            0 <= i <= fields.len(),
            applied <= i,
            entry < old(tab).entries@.len(),
            before@ == old(tab).entries@[entry as int]@,
            after@ == wt,
            pos == old(tab).history.position,
            pos <= all.len(),
            all == old(tab).history.edits(),
            applied == progress(*old(tab), entry as int, wt, fields@, now, i as nat).edits.len(),
            trees(tab.entries@) == trees(old(tab).entries@).update(entry as int, wt),
            tab.changes@ == progress(
                *old(tab),
                entry as int,
                wt,
                fields@,
                now,
                i as nat,
            ).changes,
            tab.history.edits() == if applied == 0 {
                all
            } else {
                all.take(pos) + progress(
                    *old(tab),
                    entry as int,
                    wt,
                    fields@,
                    now,
                    i as nat,
                ).edits
            },
            tab.history.position == pos + applied,
            tab.wf(),
            *tab == (ActiveTable {
                entries: tab.entries,
                changes: tab.changes,
                history: tab.history,
                ..*old(tab)
            }),
            entry < tab.entries@.len(),
        decreases fields.len() - i,
    {
        let ghost p = progress(*old(tab), entry as int, wt, fields@, now, i as nat);
        let ghost h0 = tab.history.edits();
        if record_field(tab, entry, &before, &after, &fields[i].path, now) {
            applied = applied + 1;
            assert(tab.history.edits() =~= all.take(pos) + progress(
                *old(tab),
                entry as int,
                wt,
                fields@,
                now,
                (i + 1) as nat,
            ).edits);
        }
        i = i + 1;
    }
    applied
}

/// Why a template cannot be applied to the selected entry.
pub open spec fn apply_hindrance(s: AppState) -> Option<Seq<char>> {
    match s.focus() {
        None => Some("No table loaded"@),
        Some(i) => match s.open_tabs@[i].selected_entry_idx {
            None => Some("Select an entry first"@),
            Some(e) => if e >= s.open_tabs@[i].entries@.len() {
                Some("Selected entry no longer exists"@)
            } else {
                None
            },
        },
    }
}

/// What is said of an applied template.
pub open spec fn applied_text(name: Seq<char>, n: nat) -> Seq<char> {
    "Applied template '"@ + name + "' ("@ + dec(n) + " field change"@ + (if n == 1 {
        ""@
    } else {
        "s"@
    }) + ")"@
}

fn entry_in_reach(state: &mut AppState) -> (r: Option<(usize, usize)>)
    ensures
        match apply_hindrance(*old(state)) {
            Some(m) => {
                &&& r is None
                &&& final(state).toasts@ == old(state).toasts@.push(warn_note(m))
                &&& *final(state) == (AppState { toasts: final(state).toasts, ..*old(state) })
            },
            None => {
                &&& r matches Some(p) && old(state).focus() == Some(p.0 as int) && p.0 < old(
                    state,
                ).open_tabs@.len() && old(state).open_tabs@[p.0 as int].selected_entry_idx == Some(
                    p.1,
                ) && p.1 < old(state).open_tabs@[p.0 as int].entries@.len()
                &&& *final(state) == *old(state)
            },
        },
{
    match state.active_index() {
        None => {
            state.toasts.warn("No table loaded");
            None
        },
        Some(i) => match state.open_tabs[i].selected_entry_idx {
            None => {
                state.toasts.warn("Select an entry first");
                None
            },
            Some(e) => if e < state.open_tabs[i].entries.len() {
                Some((i, e))
            } else {
                state.toasts.warn("Selected entry no longer exists");
                None
            },
        },
    }
}

/// Applies a template to the selected entry of the table in focus. `applied` is
/// the entry with the changes of the template made to it, or why they cannot be
/// made. Each changed field is an edit that can be undone.
pub fn apply_to_active_entry(
    state: &mut AppState,
    tpl: &Template,
    applied: Result<Json, String>,
    now: u64,
)
    requires
        old(state).tabs_wf(),
    ensures
        old(state).tabs_wf() ==> final(state).tabs_wf(),
        match (apply_hindrance(*old(state)), applied) {
            (Some(m), _) => {
                &&& final(state).toasts@ == old(state).toasts@.push(warn_note(m))
                &&& *final(state) == (AppState { toasts: final(state).toasts, ..*old(state) })
            },
            (None, Err(e)) => {
                &&& final(state).toasts@ == old(state).toasts@.push(
                    failure_note("Apply Template failed"@, e@),
                )
                &&& *final(state) == (AppState { toasts: final(state).toasts, ..*old(state) })
            },
            (None, Ok(working)) => {
                let i = old(state).focus()->Some_0;
                let before = old(state).open_tabs@[i];
                let entry = before.selected_entry_idx->Some_0 as int;
                &&& template_applied(
                    before,
                    final(state).open_tabs@[i],
                    entry,
                    working@,
                    tpl.field_changes@,
                    now,
                )
                &&& final(state).open_tabs@ == old(state).open_tabs@.update(
                    i,
                    final(state).open_tabs@[i],
                )
                &&& final(state).toasts@ == old(state).toasts@.push(
                    info_note(
                        applied_text(
                            tpl.name@,
                            progress(
                                before,
                                entry,
                                working@,
                                tpl.field_changes@,
                                now,
                                tpl.field_changes@.len(),
                            ).edits.len(),
                        ),
                    ),
                )
                &&& *final(state) == (AppState {
                    open_tabs: final(state).open_tabs,
                    toasts: final(state).toasts,
                    ..*old(state)
                })
            },
        },
{
    let (i, entry) = match entry_in_reach(state) {
        None => {
            return;
        },
        Some(p) => p,
    };
    match applied {
        Err(e) => {
            state.toasts.error_with_details("Apply Template failed", e.as_str());
        },
        Ok(working) => {
            let ghost tabs = state.open_tabs@;
            assert(tabs[i as int].wf());
            let n = apply_to_entry(
                &mut state.open_tabs[i],
                entry,
                working,
                &tpl.field_changes,
                now,
            );
            assert(state.open_tabs@ =~= tabs.update(i as int, state.open_tabs@[i as int]));
            let mut m = "Applied template '".to_owned();
            m.push_str(tpl.name.as_str());
            m.push_str("' (");
            m.push_str(dec_usize(n).as_str());
            m.push_str(" field change");
            m.push_str(
                if n == 1 {
                    ""
                } else {
                    "s"
                },
            );
            m.push_str(")");
            state.toasts.info(m.as_str());
        },
    }
}

/// The changed fields of an entry, ready to become a template.
#[derive(Debug)]
pub struct TemplateDraft {
    pub table: String,
    pub entry_key: u64,
    pub fields: Vec<TemplateField>,
}

/// What a field of a template says.
pub struct FieldValue {
    pub path: Seq<char>,
    pub value: Tree,
    pub multiplicative: bool,
}

/// What the fields of a template say.
pub open spec fn field_values(v: Seq<TemplateField>) -> Seq<FieldValue> {
    v.map_values(
        |f: TemplateField|
            FieldValue { path: f.path@, value: f.value@, multiplicative: f.multiplicative },
    )
}

/// The field of an entry that a path leads into: its first part without the elements.
pub open spec fn top_field(path: Seq<char>) -> Seq<char> {
    split_on(split_on(path, '.')[0], '[')[0]
}

/// One of the fields has this path.
pub open spec fn has_field(v: Seq<FieldValue>, path: Seq<char>) -> bool {
    exists|i: int| 0 <= i < v.len() && (#[trigger] v[i]).path == path
}

/// The top-level fields of an entry that the first `n` changes are made in and
/// that it has, each once with its value, in the order of the changes.
pub open spec fn snapshot(c: Seq<(u64, Seq<char>)>, key: u64, entry: Tree, n: nat) -> Seq<
    FieldValue,
>
    decreases n,
{
    if n == 0 {
        Seq::empty()
    } else {
        let before = snapshot(c, key, entry, (n - 1) as nat);
        let (k, path) = c[n - 1];
        let top = top_field(path);
        match value_at(entry, top) {
            Some(v) => if k == key && !has_field(before, top) {
                before.push(FieldValue { path: top, value: v, multiplicative: false })
            } else {
                before
            },
            None => before,
        }
    }
}

proof fn lemma_first_piece(s: Seq<char>, sep: char)
    ensures
        split_on(s, sep).len() >= 1,
        !split_on(s, sep)[0].contains(sep),
        forall|x: char| #[trigger] split_on(s, sep)[0].contains(x) ==> s.contains(x),
    decreases s.len(),
{
    if s.len() > 0 {
        let d = s.drop_last();
        lemma_first_piece(d, sep);
        let (p, q) = (split_on(d, sep)[0], split_on(s, sep)[0]);
        assert forall|x: char| #[trigger] q.contains(x) implies s.contains(x) && x != sep by {
            let i = choose|i: int| 0 <= i < q.len() && q[i] == x;
            if i < p.len() {
                assert(p[i] == x);
                assert(p.contains(x));
                let j = choose|j: int| 0 <= j < d.len() && d[j] == x;
                assert(s[j] == x);
            } else {
                assert(s[s.len() - 1] == x);
            }
        }
    }
}

/// A draft holds top-level fields only, each once and with the value that the
/// entry has there; and each that the entry has and a change of it is made in.
pub proof fn law_draft_of_top_level_fields(
    c: Seq<(u64, Seq<char>)>,
    key: u64,
    entry: Tree,
    n: nat,
)
    requires
        n <= c.len(),
    ensures
        forall|i: int|
            0 <= i < snapshot(c, key, entry, n).len() ==> {
                let f = #[trigger] snapshot(c, key, entry, n)[i];
                &&& !f.path.contains('.')
                &&& !f.path.contains('[')
                &&& value_at(entry, f.path) == Some(f.value)
            },
        forall|i: int, j: int|
            0 <= i < j < snapshot(c, key, entry, n).len() ==> (#[trigger] snapshot(
                c,
                key,
                entry,
                n,
            )[i]).path != (#[trigger] snapshot(c, key, entry, n)[j]).path,
        forall|k: int|
            0 <= k < n && (#[trigger] c[k]).0 == key && value_at(entry, top_field(c[k].1)) is Some
                ==> has_field(snapshot(c, key, entry, n), top_field(c[k].1)),
    decreases n,
{
    if n > 0 {
        law_draft_of_top_level_fields(c, key, entry, (n - 1) as nat);
        let (before, after) = (
            snapshot(c, key, entry, (n - 1) as nat),
            snapshot(c, key, entry, n),
        );
        let path = c[n - 1].1;
        let first = split_on(path, '.')[0];
        lemma_first_piece(path, '.');
        lemma_first_piece(first, '[');
        assert(!top_field(path).contains('.'));
        assert forall|p: Seq<char>| has_field(before, p) implies #[trigger] has_field(after, p) by {
            let i = choose|i: int| 0 <= i < before.len() && (#[trigger] before[i]).path == p;
            assert(after[i].path == p);
        }
        if after.len() > before.len() {
            assert(after[before.len() as int].path == top_field(path));
        }
        assert forall|k: int|
            0 <= k < n && (#[trigger] c[k]).0 == key && value_at(
                entry,
                top_field(c[k].1),
            ) is Some implies has_field(after, top_field(c[k].1)) by {
            if k < n - 1 {
                assert(has_field(before, top_field(c[k].1)));
            }
        }
    }
}

fn top_of(path: &str) -> (r: String)
    ensures
        r@ == top_field(path@),
{
    proof {
        lemma_split_nonempty(path@, '.');
        lemma_split_nonempty(split_on(path@, '.')[0], '[');
    }
    let parts = split(path, '.');
    assert(views(parts@)[0] == parts@[0]@);
    let pieces = split(parts[0].as_str(), '[');
    assert(views(pieces@)[0] == pieces@[0]@);
    pieces[0].clone()
}

fn holds_field(v: &Vec<TemplateField>, path: &str) -> (r: bool)
    ensures
        r == has_field(field_values(v@), path@),
{
    let mut i: usize = 0;
    while i < v.len()
        invariant
            0 <= i <= v.len(),
            forall|j: int| 0 <= j < i ==> (#[trigger] field_values(v@)[j]).path != path@,
        decreases v.len() - i,
    {
        assert(field_values(v@)[i as int].path == v@[i as int].path@);
        if same(v[i].path.as_str(), path) {
            return true;
        }
        i = i + 1;
    }
    false
}

/// Takes the changed top-level fields of the selected entry as a draft of a template.
/// Where there are none, that is said.
pub fn draft_template(state: &mut AppState) -> (r: Option<TemplateDraft>)
    requires
        old(state).tabs_wf(),
    ensures
        match apply_hindrance(*old(state)) {
            Some(m) => {
                &&& r is None
                &&& final(state).toasts@ == old(state).toasts@.push(warn_note(m))
                &&& *final(state) == (AppState { toasts: final(state).toasts, ..*old(state) })
            },
            None => {
                let tab = old(state).open_tabs@[old(state).focus()->Some_0];
                let e = tab.selected_entry_idx->Some_0 as int;
                let key = tab.entry_keys@[e];
                let fields = snapshot(tab.changes@, key, tab.entries@[e]@, tab.changes@.len());
                if !crate::state::entry_changed(tab.changes@, key) {
                    &&& r is None
                    &&& final(state).toasts@ == old(state).toasts@.push(
                        warn_note("Selected entry has no recorded changes — edit it first."@),
                    )
                    &&& *final(state) == (AppState { toasts: final(state).toasts, ..*old(state) })
                } else if fields.len() == 0 {
                    &&& r is None
                    &&& final(state).toasts@ == old(state).toasts@.push(
                        warn_note("Couldn't snapshot any changed fields."@),
                    )
                    &&& *final(state) == (AppState { toasts: final(state).toasts, ..*old(state) })
                } else {
                    &&& r matches Some(d) && d.table@ == tab.dispatch_name@ && d.entry_key == key
                        && field_values(d.fields@) == fields
                    &&& *final(state) == *old(state)
                }
            },
        },
{
    let (i, entry) = match entry_in_reach(state) {
        None => {
            return None;
        },
        Some(p) => p,
    };
    assert(state.open_tabs@[i as int].wf());
    let key = state.open_tabs[i].entry_keys[entry];
    if !state.open_tabs[i].changes.is_entry_modified(key) {
        state.toasts.warn("Selected entry has no recorded changes — edit it first.");
        return None;
    }
    let fields = snapshot_fields(&state.open_tabs[i], entry);
    if fields.len() == 0 {
        assert(field_values(fields@).len() == 0);
        state.toasts.warn("Couldn't snapshot any changed fields.");
        return None;
    }
    assert(field_values(fields@).len() > 0);
    Some(
        TemplateDraft {
            table: state.open_tabs[i].dispatch_name.clone(),
            entry_key: key,
            fields,
        },
    )
}

fn snapshot_fields(tab: &ActiveTable, entry: usize) -> (out: Vec<TemplateField>)
    requires
        tab.wf(),
        entry < tab.entries@.len(),
    ensures
        field_values(out@) == snapshot(
            tab.changes@,
            tab.entry_keys@[entry as int],
            tab.entries@[entry as int]@,
            tab.changes@.len(),
        ),
{
    let key = tab.entry_keys[entry];
    let c = &tab.changes.modified;
    let mut out: Vec<TemplateField> = Vec::new();
    let mut i: usize = 0;
    assert(field_values(out@) =~= Seq::empty());
    while i < c.len()
        invariant
            0 <= i <= c.len(),
            c == &tab.changes.modified,
            tab.wf(),
            entry < tab.entries@.len(),
            key == tab.entry_keys@[entry as int],
            field_values(out@) == snapshot(
                tab.changes@,
                key,
                tab.entries@[entry as int]@,
                i as nat,
            ),
        decreases c.len() - i,
    {
        assert(tab.changes@[i as int] == (c@[i as int].0, c@[i as int].1@));
        let top = top_of(c[i].1.as_str());
        if c[i].0 == key && !holds_field(&out, top.as_str()) {
            match get_at_path(&tab.entries[entry], top.as_str()) {
                Some(v) => {
                    let f = TemplateField {
                        path: top,
                        value: v.copy(),
                        multiplicative: false,
                    };
                    let ghost o0 = out@;
                    let ghost fv = FieldValue {
                        path: f.path@,
                        value: f.value@,
                        multiplicative: f.multiplicative,
                    };
                    out.push(f);
                    assert(field_values(out@) =~= field_values(o0).push(fv));
                },
                None => {},
            }
        }
        i = i + 1;
    }
    out
}

/// The file name that a draft is offered under.
pub fn default_name(d: &TemplateDraft) -> (r: String)
    ensures
        r@ == d.table@ + "_"@ + dec(d.entry_key as nat) + ".json"@,
{
    let mut s = d.table.clone();
    s.push_str("_");
    s.push_str(dec_text(d.entry_key).as_str());
    s.push_str(".json");
    s
}

/// The template that a draft becomes under a name.
pub fn finish_draft(d: TemplateDraft, name: String) -> (t: Template)
    ensures
        t.name == name,
        t.description@ == "Saved from "@ + d.table@ + " entry "@ + dec(d.entry_key as nat)
            + " via mod-workbench"@,
        t.table == d.table,
        t.field_changes == d.fields,
        t.user_defined,
{
    let mut s = "Saved from ".to_owned();
    s.push_str(d.table.as_str());
    s.push_str(" entry ");
    s.push_str(dec_text(d.entry_key).as_str());
    s.push_str(" via mod-workbench");
    Template {
        name,
        description: s,
        table: d.table,
        field_changes: d.fields,
        user_defined: true,
    }
}

/// What changes when a template was saved, or could not be. `reloaded` is the
/// list of templates as it was read again after that; a list that could not be
/// read leaves the old one.
pub fn template_saved(
    state: &mut AppState,
    name: &str,
    result: &Result<(), String>,
    reloaded: Result<Vec<Template>, String>,
)
    ensures
        match *result {
            Ok(_) => {
                &&& final(state).toasts@ == old(state).toasts@.push(
                    info_note("Saved template '"@ + name@ + "'"@),
                )
                &&& *final(state) == (AppState {
                    user_templates: match reloaded {
                        Ok(list) => list,
                        Err(_) => old(state).user_templates,
                    },
                    toasts: final(state).toasts,
                    ..*old(state)
                })
            },
            Err(e) => {
                &&& final(state).toasts@ == old(state).toasts@.push(
                    failure_note("Failed to save template"@, e@),
                )
                &&& *final(state) == (AppState { toasts: final(state).toasts, ..*old(state) })
            },
        },
{
    match result {
        Ok(_) => {
            match reloaded {
                Ok(list) => {
                    state.user_templates = list;
                },
                Err(_) => {},
            }
            let m = concat3("Saved template '", name, "'");
            state.toasts.info(m.as_str());
        },
        Err(e) => {
            state.toasts.error_with_details("Failed to save template", e.as_str());
        },
    }
}

} // verus!
