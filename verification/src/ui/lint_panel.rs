//! The list of lint findings, and the fixes that findings suggest.

use vstd::prelude::*;
use crate::digits::{dec, dec_text, dec_usize};
use crate::edit_path::{
    copy_members, lemma_member_index, member_index, tree_with, value_with, Hop,
};
use crate::json::{
    equal_trees, law_equal_trees_reflexive, lemma_member_by_name, lemma_names_once, lemma_obj_view,
    member_of, members, names_once, trees, Json, Tree,
};
use crate::json_text::{compact_text, form, to_compact};
use crate::state::{
    find_tab, tab_named, with_change, ActiveTable, AppState, Edit, EditOp, MainView,
};
use crate::text::{concat2, concat3, has_char, same};
use crate::ui::field_panel::{entry_edited, field_edit, lemma_plain_path, set_field};

verus! {

broadcast use vstd::seq_lib::group_seq_properties;

/// How serious a finding is.
#[derive(Clone, Copy, Debug, PartialEq, Eq, Structural)]
pub enum Severity {
    Error,
    Warn,
    Info,
}

/// The place of a severity among all, the worst first.
pub open spec fn severity_rank(s: Severity) -> int {
    match s {
        Severity::Error => 0,
        Severity::Warn => 1,
        Severity::Info => 2,
    }
}

impl Severity {
    /// The place of the severity among all, the worst first.
    pub fn rank(self) -> (r: u8)
        ensures
            r == severity_rank(self),
    {
        match self {
            Severity::Error => 0,
            Severity::Warn => 1,
            Severity::Info => 2,
        }
    }
}

/// A fix that a finding suggests.
#[derive(Debug)]
pub enum AutoFix {
    SetField { field_path: String, new_value: Json },
    RemoveField { field_path: String },
    /// Something to be done by hand.
    Custom(String),
}

/// Something that a rule found in an entry of a table.
#[derive(Debug)]
pub struct LintFinding {
    pub severity: Severity,
    pub rule_name: String,
    pub table: String,
    pub entry_key: u64,
    pub entry_name: Option<String>,
    pub message: String,
    pub fix_suggestion: Option<AutoFix>,
}

/// What the user asked of the panel.
#[derive(Clone, Copy, Debug, PartialEq, Eq, Structural)]
pub enum LintAction {
    /// Check the table in focus.
    Run,
    /// Drop the findings.
    Clear,
    /// Apply the fix of the finding at this position.
    ApplyFix(usize),
}

/// The mark of a severity.
pub open spec fn glyph_of(s: Severity) -> Seq<char> {
    match s {
        Severity::Error => "E"@,
        Severity::Warn => "W"@,
        Severity::Info => "i"@,
    }
}

/// The mark of a severity, one character long.
pub fn severity_glyph(s: Severity) -> (r: &'static str)
    ensures
        r@ == glyph_of(s),
        r@.len() == 1,
{
    proof {
        reveal_strlit("E");
        reveal_strlit("W");
        reveal_strlit("i");
    }
    match s {
        Severity::Error => "E",
        Severity::Warn => "W",
        Severity::Info => "i",
    }
}

/// The name of a severity.
pub fn severity_label(s: Severity) -> (r: &'static str)
    ensures
        r@ == match s {
            Severity::Error => "ERROR"@,
            Severity::Warn => "WARN"@,
            Severity::Info => "INFO"@,
        },
{
    match s {
        Severity::Error => "ERROR",
        Severity::Warn => "WARN",
        Severity::Info => "INFO",
    }
}

/// The red, green and blue of a severity.
pub fn severity_color(s: Severity) -> (r: (u8, u8, u8))
    ensures
        r == match s {
            Severity::Error => (230u8, 80u8, 80u8),
            Severity::Warn => (240u8, 190u8, 60u8),
            Severity::Info => (100u8, 170u8, 255u8),
        },
{
    match s {
        Severity::Error => (230, 80, 80),
        Severity::Warn => (240, 190, 60),
        Severity::Info => (100, 170, 255),
    }
}

/// A value in one line.
pub open spec fn short_text(t: Tree) -> Seq<char> {
    match t {
        Tree::Str(s) => "\""@ + s + "\""@,
        Tree::Null => "null"@,
        _ => compact_text(form(t)),
    }
}

/// A value in one line.
pub fn short_value(v: &Json) -> (r: String)
    ensures
        r@ == short_text(v@),
{
    match v {
        Json::Str(s) => concat3("\"", s.as_str(), "\""),
        Json::Null => "null".to_owned(),
        _ => to_compact(v),
    }
}

/// How many of the first `n` findings have a severity.
pub open spec fn severity_count(f: Seq<LintFinding>, s: Severity, n: nat) -> nat
    decreases n,
{
    if n == 0 {
        0
    } else {
        severity_count(f, s, (n - 1) as nat) + (if f[n - 1].severity == s {
            1nat
        } else {
            0
        })
    }
}

/// How many findings are errors, warnings and informations.
pub fn count_by_severity(f: &Vec<LintFinding>) -> (r: (usize, usize, usize))
    ensures
        r.0 == severity_count(f@, Severity::Error, f@.len()),
        r.1 == severity_count(f@, Severity::Warn, f@.len()),
        r.2 == severity_count(f@, Severity::Info, f@.len()),
{
    let mut errors: usize = 0;
    let mut warns: usize = 0;
    let mut infos: usize = 0;
    let mut i: usize = 0;
    while i < f.len()
        invariant
            0 <= i <= f.len(),
            errors <= i,
            warns <= i,
            infos <= i,
            errors == severity_count(f@, Severity::Error, i as nat),
            warns == severity_count(f@, Severity::Warn, i as nat),
            infos == severity_count(f@, Severity::Info, i as nat),
        decreases f.len() - i,
    {
        match f[i].severity {
            Severity::Error => {
                errors = errors + 1;
            },
            Severity::Warn => {
                warns = warns + 1;
            },
            Severity::Info => {
                infos = infos + 1;
            },
        }
        i = i + 1;
    }
    (errors, warns, infos)
}

/// Every finding is counted once.
pub proof fn law_counts_add_up(f: Seq<LintFinding>, n: nat)
    requires
        n <= f.len(),
    ensures
        severity_count(f, Severity::Error, n) + severity_count(f, Severity::Warn, n)
            + severity_count(f, Severity::Info, n) == n,
    decreases n,
{
    if n > 0 {
        law_counts_add_up(f, (n - 1) as nat);
    }
}

/// The summary of the findings.
pub fn count_line(f: &Vec<LintFinding>) -> (r: String)
    ensures
        r@ == "Errors: "@ + dec(severity_count(f@, Severity::Error, f@.len())) + "  Warnings: "@
            + dec(severity_count(f@, Severity::Warn, f@.len())) + "  Info: "@ + dec(
            severity_count(f@, Severity::Info, f@.len()),
        ),
{
    let (errors, warns, infos) = count_by_severity(f);
    let mut s = "Errors: ".to_owned();
    s.push_str(dec_usize(errors).as_str());
    s.push_str("  Warnings: ");
    s.push_str(dec_usize(warns).as_str());
    s.push_str("  Info: ");
    s.push_str(dec_usize(infos).as_str());
    s
}

/// The findings from `lo` up to `hi` are all of one rule.
pub open spec fn one_rule(f: Seq<LintFinding>, lo: int, hi: int) -> bool {
    forall|i: int| lo <= i < hi ==> (#[trigger] f[i]).rule_name@ == f[lo].rule_name@
}

/// The groups cover the first `n` findings in order, each group is of one rule,
/// and no two neighbours are of the same.
pub open spec fn groups_cover(f: Seq<LintFinding>, g: Seq<(usize, usize)>, n: int) -> bool {
    &&& g.len() == 0 <==> n == 0
    &&& g.len() > 0 ==> g[0].0 == 0 && g.last().1 == n
    &&& forall|k: int|
        0 <= k < g.len() ==> (#[trigger] g[k]).0 < g[k].1 <= n && one_rule(
            f,
            g[k].0 as int,
            g[k].1 as int,
        )
    &&& forall|k: int, l: int|
        0 <= k && l == k + 1 && l < g.len() ==> (#[trigger] g[k]).1 == (#[trigger] g[l]).0
            && f[g[k].0 as int].rule_name@ != f[g[l].0 as int].rule_name@
}

/// The findings in groups of one rule, each from its first finding up to the
/// one behind its last.
pub fn lint_groups(f: &Vec<LintFinding>) -> (g: Vec<(usize, usize)>)
    ensures
        groups_cover(f@, g@, f@.len() as int),
{
    let mut g: Vec<(usize, usize)> = Vec::new();
    let mut i: usize = 0;
    while i < f.len()
        invariant
            0 <= i <= f.len(),
            groups_cover(f@, g@, i as int),
        decreases f.len() - i,
    {
        let ghost g0 = g@;
        let m = g.len();
        if m > 0 && same(f[g[m - 1].0].rule_name.as_str(), f[i].rule_name.as_str()) {
            let start = g[m - 1].0;
            g[m - 1] = (start, i + 1);
            proof {
                assert forall|k: int| 0 <= k < g@.len() implies (#[trigger] g@[k]).0 < g@[k].1
                    <= i + 1 && one_rule(f@, g@[k].0 as int, g@[k].1 as int) by {
                    if k < m - 1 {
                        assert(g@[k] == g0[k]);
                    } else {
                        assert(one_rule(f@, g0[k].0 as int, g0[k].1 as int));
                    }
                }
                assert forall|k: int, l: int| 0 <= k && l == k + 1 && l < g@.len() implies (
                #[trigger] g@[k]).1 == (#[trigger] g@[l]).0 && f@[g@[k].0 as int].rule_name@
                    != f@[g@[l].0 as int].rule_name@ by {
                    assert(g@[k] == g0[k]);
                    assert(g@[l].0 == g0[l].0);
                }
            }
        } else {
            g.push((i, i + 1));
            proof {
                assert forall|k: int| 0 <= k < g@.len() implies (#[trigger] g@[k]).0 < g@[k].1
                    <= i + 1 && one_rule(f@, g@[k].0 as int, g@[k].1 as int) by {
                    if k < m {
                        assert(g@[k] == g0[k]);
                    }
                }
                assert forall|k: int, l: int| 0 <= k && l == k + 1 && l < g@.len() implies (
                #[trigger] g@[k]).1 == (#[trigger] g@[l]).0 && f@[g@[k].0 as int].rule_name@
                    != f@[g@[l].0 as int].rule_name@ by {
                    assert(g@[k] == g0[k]);
                    if l < m {
                        assert(g@[l] == g0[l]);
                    }
                }
            }
        }
        i = i + 1;
    }
    g
}

/// The worst severity from `lo` up to `hi`.
pub open spec fn worst(f: Seq<LintFinding>, lo: int, hi: int) -> Severity
    decreases hi - lo,
{
    if lo >= hi {
        Severity::Info
    } else {
        let before = worst(f, lo, hi - 1);
        if severity_rank(f[hi - 1].severity) < severity_rank(before) {
            f[hi - 1].severity
        } else {
            before
        }
    }
}

/// The worst severity of a group.
pub fn worst_severity(f: &Vec<LintFinding>, lo: usize, hi: usize) -> (r: Severity)
    requires
        lo <= hi <= f@.len(),
    ensures
        r == worst(f@, lo as int, hi as int),
{
    let mut w = Severity::Info;
    let mut i: usize = lo;
    while i < hi
        invariant
            lo <= i <= hi <= f@.len(),
            w == worst(f@, lo as int, i as int),
        decreases hi - i,
    {
        if f[i].severity.rank() < w.rank() {
            w = f[i].severity;
        }
        i = i + 1;
    }
    w
}

/// A group is as bad as its worst finding.
pub proof fn law_worst(f: Seq<LintFinding>, lo: int, hi: int, i: int)
    requires
        lo <= i < hi,
    ensures
        severity_rank(worst(f, lo, hi)) <= severity_rank(f[i].severity),
    decreases hi - lo,
{
    if i < hi - 1 {
        law_worst(f, lo, hi - 1, i);
    }
}

/// The heading of a group.
pub fn group_header(f: &Vec<LintFinding>, lo: usize, hi: usize) -> (r: String)
    requires
        lo < hi <= f@.len(),
    ensures
        r@ == glyph_of(worst(f@, lo as int, hi as int)) + " "@ + f@[lo as int].rule_name@ + " ("@ + dec((hi - lo) as nat) + " finding"@ + (if hi
            - lo == 1 {
            ""@
        } else {
            "s"@
        }) + ")"@,
{
    let mut s = severity_glyph(worst_severity(f, lo, hi)).to_owned();
    s.push_str(" ");
    s.push_str(f[lo].rule_name.as_str());
    s.push_str(" (");
    s.push_str(dec_usize(hi - lo).as_str());
    s.push_str(" finding");
    s.push_str(
        if hi - lo == 1 {
            ""
        } else {
            "s"
        },
    );
    s.push_str(")");
    s
}

/// Where a finding is.
pub fn target_line(f: &LintFinding) -> (r: String)
    ensures
        r@ == match f.entry_name {
            Some(n) => f.table@ + " : "@ + n@ + " (key="@ + dec(f.entry_key as nat) + ")"@,
            None => f.table@ + " : key="@ + dec(f.entry_key as nat),
        },
{
    let mut s = f.table.clone();
    match &f.entry_name {
        Some(n) => {
            s.push_str(" : ");
            s.push_str(n.as_str());
            s.push_str(" (key=");
            s.push_str(dec_text(f.entry_key).as_str());
            s.push_str(")");
        },
        None => {
            s.push_str(" : key=");
            s.push_str(dec_text(f.entry_key).as_str());
        },
    }
    s
}

/// What a fix would do, and whether it can be applied at a click.
pub fn fix_line(f: &LintFinding) -> (r: (String, bool))
    ensures
        match f.fix_suggestion {
            Some(AutoFix::SetField { field_path, new_value }) => r.1 && r.0@ == "Set '"@
                + field_path@ + "' = "@ + short_text(new_value@),
            Some(AutoFix::RemoveField { field_path }) => r.1 && r.0@ == "Remove '"@ + field_path@
                + "'"@,
            Some(AutoFix::Custom(d)) => !r.1 && r.0@ == "Manual fix: "@ + d@,
            None => !r.1 && r.0@ == "No automatic fix available."@,
        },
{
    match &f.fix_suggestion {
        Some(AutoFix::SetField { field_path, new_value }) => {
            let mut s = "Set '".to_owned();
            s.push_str(field_path.as_str());
            s.push_str("' = ");
            s.push_str(short_value(new_value).as_str());
            (s, true)
        },
        Some(AutoFix::RemoveField { field_path }) => {
            (concat3("Remove '", field_path.as_str(), "'"), true)
        },
        Some(AutoFix::Custom(d)) => (concat2("Manual fix: ", d.as_str()), false),
        None => ("No automatic fix available.".to_owned(), false),
    }
}

/// The position of the first entry with a key.
pub open spec fn entry_with_key(keys: Seq<u64>, key: u64) -> Option<int>
    decreases keys.len(),
{
    if keys.len() == 0 {
        None
    } else if keys[0] == key {
        Some(0)
    } else {
        match entry_with_key(keys.drop_first(), key) {
            Some(i) => Some(i + 1),
            None => None,
        }
    }
}

fn find_entry(keys: &Vec<u64>, key: u64) -> (r: Option<usize>)
    ensures
        match r {
            Some(i) => entry_with_key(keys@, key) == Some(i as int) && i < keys.len()
                && keys@[i as int] == key,
            None => entry_with_key(keys@, key) is None,
        },
{
    let mut i: usize = 0;
    assert(keys@.skip(0) =~= keys@);
    while i < keys.len()
        invariant
            0 <= i <= keys.len(),
            entry_with_key(keys@, key) == match entry_with_key(keys@.skip(i as int), key) {
                Some(k) => Some(k + i),
                None => None,
            },
        decreases keys.len() - i,
    {
        assert(keys@.skip(i as int).drop_first() =~= keys@.skip(i + 1));
        assert(keys@.skip(i as int)[0] == keys@[i as int]);
        if keys[i] == key {
            return Some(i);
        }
        i = i + 1;
    }
    None
}

/// The members without the first one called `name`.
pub open spec fn members_without(e: Seq<(Seq<char>, Tree)>, name: Seq<char>) -> Seq<
    (Seq<char>, Tree),
> {
    match member_index(e, name) {
        Some(i) => e.remove(i),
        None => e,
    }
}

/// The value of the member called `name`; null where there is none.
pub open spec fn member_value(e: Seq<(Seq<char>, Tree)>, name: Seq<char>) -> Tree {
    match member_index(e, name) {
        Some(i) => e[i].1,
        None => Tree::Null,
    }
}

/// Why a fix cannot be applied.
pub enum FixFailure {
    NoFix,
    TabNotOpen,
    EntryGone,
    CannotSet,
    Nested,
    NotAnObject,
    ByHand,
}

/// What is said of a fix that cannot be applied.
pub open spec fn failure_text(f: LintFinding, why: FixFailure) -> Seq<char> {
    let path = match f.fix_suggestion {
        Some(AutoFix::SetField { field_path, new_value }) => field_path@,
        Some(AutoFix::RemoveField { field_path }) => field_path@,
        Some(AutoFix::Custom(d)) => d@,
        None => Seq::empty(),
    };
    match why {
        FixFailure::NoFix => "Finding has no automatic fix."@,
        FixFailure::TabNotOpen => "Tab '"@ + f.table@
            + "' is not open. Open it first, then re-run lint."@,
        FixFailure::EntryGone => "Entry with key="@ + dec(f.entry_key as nat)
            + " no longer exists in '"@ + f.table@ + "'."@,
        FixFailure::CannotSet => "Failed to set field '"@ + path + "' on entry "@ + dec(
            f.entry_key as nat,
        ) + "."@,
        FixFailure::Nested => "Removing nested field '"@ + path + "' is not supported yet."@,
        FixFailure::NotAnObject => "Entry "@ + dec(f.entry_key as nat)
            + " is not an object — can't remove a field."@,
        FixFailure::ByHand => "Manual fix required: "@ + path,
    }
}

/// Why the fix of a finding cannot be applied to an entry; `None` where it can.
pub open spec fn entry_failure(f: LintFinding, entry: Tree) -> Option<FixFailure> {
    match f.fix_suggestion {
        None => Some(FixFailure::NoFix),
        Some(AutoFix::SetField { field_path, new_value }) => if value_with(
            entry,
            field_path@,
            new_value@,
        ) is Some {
            None
        } else {
            Some(FixFailure::CannotSet)
        },
        Some(AutoFix::RemoveField { field_path }) => if field_path@.contains('.')
            || field_path@.contains('[') {
            Some(FixFailure::Nested)
        } else if entry is Obj {
            None
        } else {
            Some(FixFailure::NotAnObject)
        },
        Some(AutoFix::Custom(_)) => Some(FixFailure::ByHand),
    }
}

/// Why the fix of a finding cannot be applied; `None` where it can. What is
/// missing is looked for in this order: the fix, the tab, the entry, and then
/// what the fix needs of the entry.
pub open spec fn fix_failure(s: AppState, f: LintFinding) -> Option<FixFailure> {
    if f.fix_suggestion is None {
        Some(FixFailure::NoFix)
    } else {
        match tab_named(s.open_tabs@, f.table@) {
            None => Some(FixFailure::TabNotOpen),
            Some(t) => match entry_with_key(s.open_tabs@[t].entry_keys@, f.entry_key) {
                None => Some(FixFailure::EntryGone),
                Some(e) => entry_failure(f, s.open_tabs@[t].entries@[e]@),
            },
        }
    }
}

/// A fix was applied to an entry: the field is set or gone, the change is noted
/// and the edit is in the history.
pub open spec fn fix_applied(
    before: ActiveTable,
    after: ActiveTable,
    entry: int,
    f: LintFinding,
    now: u64,
) -> bool {
    let t = before.entries@[entry]@;
    match f.fix_suggestion {
        Some(AutoFix::SetField { field_path, new_value }) => entry_edited(
            before,
            after,
            entry,
            value_with(t, field_path@, new_value@)->Some_0,
            with_change(before.changes@, f.entry_key, field_path@),
            field_edit(before, entry, field_path@, new_value@, now),
        ),
        Some(AutoFix::RemoveField { field_path }) => entry_edited(
            before,
            after,
            entry,
            Tree::Obj(members_without(t->Obj_0, field_path@)),
            with_change(before.changes@, f.entry_key, field_path@),
            Edit {
                table: before.dispatch_name@,
                entry_key: f.entry_key,
                field_path: field_path@,
                old_value: member_value(t->Obj_0, field_path@),
                new_value: Tree::Null,
                timestamp: now,
            },
        ),
        _ => false,
    }
}

fn find_first(v: &Vec<(String, Json)>, name: &str) -> (r: Option<usize>)
    ensures
        match r {
            Some(i) => member_index(members(v@), name@) == Some(i as int) && i < v.len(),
            None => member_index(members(v@), name@) is None,
        },
{
    let ghost e = members(v@);
    let mut i: usize = 0;
    while i < v.len()
        invariant
            0 <= i <= v.len(),
            e == members(v@),
            forall|j: int| 0 <= j < i ==> (#[trigger] e[j]).0 != name@,
        decreases v.len() - i,
    {
        if same(v[i].0.as_str(), name) {
            proof {
                assert(e[i as int].0 == name@);
                lemma_member_index(e, name@);
            }
            return Some(i);
        }
        assert(e[i as int].0 != name@);
        i = i + 1;
    }
    proof {
        lemma_member_index(e, name@);
    }
    None
}

fn remove_field(tab: &mut ActiveTable, entry: usize, path: &String, now: u64)
    requires
        old(tab).wf(),
        entry < old(tab).entries@.len(),
        old(tab).entries@[entry as int]@ is Obj,
    ensures
        ({
            let e = old(tab).entries@[entry as int]@->Obj_0;
            entry_edited(
                *old(tab),
                *final(tab),
                entry as int,
                Tree::Obj(members_without(e, path@)),
                with_change(old(tab).changes@, old(tab).entry_keys@[entry as int], path@),
                Edit {
                    table: old(tab).dispatch_name@,
                    entry_key: old(tab).entry_keys@[entry as int],
                    field_path: path@,
                    old_value: member_value(e, path@),
                    new_value: Tree::Null,
                    timestamp: now,
                },
            )
        }),
{
    let ghost e = tab.entries@[entry as int]@->Obj_0;
    let (rest, old_value): (Json, Json) = match &tab.entries[entry] {
        Json::Obj(v) => {
            proof {
                lemma_obj_view(*v);
            }
            let mut left = copy_members(v);
            match find_first(v, path.as_str()) {
                Some(i) => {
                    let ghost l0 = left@;
                    assert(members(l0) == e);
                    assert(members(l0).len() == l0.len());
                    let removed = left.remove(i);
                    proof {
                        assert(members(left@) =~= e.remove(i as int));
                        assert(members(l0)[i as int] == e[i as int]);
                        lemma_obj_view(left);
                    }
                    (Json::Obj(left), removed.1)
                },
                None => {
                    proof {
                        lemma_obj_view(left);
                    }
                    (Json::Obj(left), Json::Null)
                },
            }
        },
        _ => (Json::Null, Json::Null),
    };
    assert(rest@ == Tree::Obj(members_without(e, path@)));
    assert(old_value@ == member_value(e, path@));
    let ghost e0 = tab.entries@;
    let ghost rt = rest@;
    tab.entries[entry] = rest;
    assert(trees(tab.entries@) =~= trees(e0).update(entry as int, rt));
    let key = tab.entry_keys[entry];
    tab.changes.record_change(key, path.clone());
    let op = EditOp {
        table: tab.dispatch_name.clone(),
        entry_key: key,
        field_path: path.clone(),
        old_value,
        new_value: Json::Null,
        timestamp: now,
    };
    tab.history.record(op);
}

fn fix_entry(tab: &mut ActiveTable, entry: usize, f: &LintFinding, now: u64) -> (r: Result<
    (),
    String,
>)
    requires
        old(tab).wf(),
        entry < old(tab).entries@.len(),
        old(tab).entry_keys@[entry as int] == f.entry_key,
    ensures
        match entry_failure(*f, old(tab).entries@[entry as int]@) {
            Some(why) => r matches Err(m) && m@ == failure_text(*f, why) && *final(tab) == *old(
                tab,
            ),
            None => r is Ok && fix_applied(*old(tab), *final(tab), entry as int, *f, now),
        },
{
    match &f.fix_suggestion {
        None => Err("Finding has no automatic fix.".to_owned()),
        Some(AutoFix::SetField { field_path, new_value }) => {
            if set_field(tab, entry, field_path, new_value, true, now) {
                Ok(())
            } else {
                let mut m = "Failed to set field '".to_owned();
                m.push_str(field_path.as_str());
                m.push_str("' on entry ");
                m.push_str(dec_text(f.entry_key).as_str());
                m.push_str(".");
                Err(m)
            }
        },
        Some(AutoFix::RemoveField { field_path }) => {
            if has_char(field_path.as_str(), '.') || has_char(field_path.as_str(), '[') {
                return Err(
                    concat3(
                        "Removing nested field '",
                        field_path.as_str(),
                        "' is not supported yet.",
                    ),
                );
            }
            let object = match &tab.entries[entry] {
                Json::Obj(_) => true,
                _ => false,
            };
            if !object {
                return Err(
                    concat3(
                        "Entry ",
                        dec_text(f.entry_key).as_str(),
                        " is not an object — can't remove a field.",
                    ),
                );
            }
            remove_field(tab, entry, field_path, now);
            Ok(())
        },
        Some(AutoFix::Custom(d)) => Err(concat2("Manual fix required: ", d.as_str())),
    }
}

/// Where the entry stands that a finding is about: the position of its tab, and
/// its own in the table.
pub open spec fn place_of(s: AppState, f: LintFinding) -> Option<(int, int)> {
    match tab_named(s.open_tabs@, f.table@) {
        None => None,
        Some(t) => match entry_with_key(s.open_tabs@[t].entry_keys@, f.entry_key) {
            None => None,
            Some(e) => Some((t, e)),
        },
    }
}

/// Where the entry stands that a finding is about.
pub fn finding_place(state: &AppState, finding: &LintFinding) -> (r: Option<(usize, usize)>)
    ensures
        match r {
            Some((t, e)) => place_of(*state, *finding) == Some((t as int, e as int)),
            None => place_of(*state, *finding) is None,
        },
{
    match find_tab(&state.open_tabs, finding.table.as_str()) {
        None => None,
        Some(t) => match find_entry(&state.open_tabs[t].entry_keys, finding.entry_key) {
            None => None,
            Some(e) => Some((t, e)),
        },
    }
}

/// Applies the fix of a finding to the entry that it is about, as an edit that
/// can be undone. Where that cannot be done nothing changes, and the error says why.
pub fn apply_fix(state: &mut AppState, finding: &LintFinding, now: u64) -> (r: Result<(), String>)
    requires
        old(state).tabs_wf(),
    ensures
        old(state).tabs_wf() ==> final(state).tabs_wf(),
        match fix_failure(*old(state), *finding) {
            Some(why) => {
                &&& r matches Err(m) && m@ == failure_text(*finding, why)
                &&& final(state).open_tabs@ == old(state).open_tabs@
                &&& *final(state) == (AppState {
                    open_tabs: final(state).open_tabs,
                    ..*old(state)
                })
            },
            None => {
                let t = tab_named(old(state).open_tabs@, finding.table@)->Some_0;
                let e = entry_with_key(
                    old(state).open_tabs@[t].entry_keys@,
                    finding.entry_key,
                )->Some_0;
                &&& r is Ok
                &&& fix_applied(
                    old(state).open_tabs@[t],
                    final(state).open_tabs@[t],
                    e,
                    *finding,
                    now,
                )
                &&& final(state).open_tabs@ == old(state).open_tabs@.update(
                    t,
                    final(state).open_tabs@[t],
                )
                &&& *final(state) == (AppState {
                    open_tabs: final(state).open_tabs,
                    ..*old(state)
                })
            },
        },
{
    if finding.fix_suggestion.is_none() {
        return Err("Finding has no automatic fix.".to_owned());
    }
    let t = match find_tab(&state.open_tabs, finding.table.as_str()) {
        None => {
            return Err(
                concat3(
                    "Tab '",
                    finding.table.as_str(),
                    "' is not open. Open it first, then re-run lint.",
                ),
            );
        },
        Some(t) => t,
    };
    let e = match find_entry(&state.open_tabs[t].entry_keys, finding.entry_key) {
        None => {
            let mut m = "Entry with key=".to_owned();
            m.push_str(dec_text(finding.entry_key).as_str());
            m.push_str(" no longer exists in '");
            m.push_str(finding.table.as_str());
            m.push_str("'.");
            return Err(m);
        },
        Some(e) => e,
    };
    let ghost tabs = state.open_tabs@;
    let r = fix_entry(&mut state.open_tabs[t], e, finding, now);
    assert(state.open_tabs@ =~= tabs.update(t as int, state.open_tabs@[t as int]));
    r
}

/// The line on the table that a run would look through.
pub fn active_line(state: &AppState) -> (r: String)
    ensures
        r@ == match state.focus() {
            Some(i) => "Active tab: "@ + state.open_tabs@[i].dispatch_name@ + " ("@ + dec(
                state.open_tabs@[i].entries@.len(),
            ) + " entries)"@,
            None => "No active tab — load a table to enable lint runs."@,
        },
{
    match state.active_table() {
        Some(t) => {
            let mut s = "Active tab: ".to_owned();
            s.push_str(t.dispatch_name.as_str());
            s.push_str(" (");
            s.push_str(dec_usize(t.entries.len()).as_str());
            s.push_str(" entries)");
            s
        },
        None => "No active tab — load a table to enable lint runs.".to_owned(),
    }
}

/// Whether a run, and a clearing, can be asked for.
pub fn buttons(state: &AppState) -> (r: (bool, bool))
    ensures
        r.0 == (state.focus() is Some),
        r.1 == (state.lint_findings@.len() > 0),
{
    (state.active_index().is_some(), state.lint_findings.len() > 0)
}

/// Leaves the panel for the tables.
pub fn close_panel(state: &mut AppState)
    ensures
        *final(state) == (AppState { main_view: MainView::PabgbTables, ..*old(state) }),
{
    state.main_view = MainView::PabgbTables;
}

/// A field that a fix removed can be set back from the history: the entry then
/// equals what it was, though the field may stand elsewhere in it.
pub proof fn law_removed_field_can_be_set_back(e: Seq<(Seq<char>, Tree)>, path: Seq<char>)
    requires
        names_once(Tree::Obj(e)),
        !path.contains('.'),
        !path.contains('['),
        member_index(e, path) is Some,
    ensures
        value_with(Tree::Obj(members_without(e, path)), path, member_value(e, path)) matches Some(t)
            && equal_trees(t, Tree::Obj(e)),
{
    let t = Tree::Obj(e);
    assert(names_once(t) && t->Obj_0 == e);
    lemma_names_once(t);
    lemma_member_index(e, path);
    let k = member_index(e, path)->Some_0;
    let rest = e.remove(k);
    lemma_member_index(rest, path);
    if member_index(rest, path) is Some {
        let j = member_index(rest, path)->Some_0;
        if j < k {
            assert(rest[j] == e[j]);
        } else {
            assert(rest[j] == e[j + 1]);
        }
    }
    lemma_plain_path(path);
    let h = seq![Hop::Member(path)];
    assert(h[0] == Hop::Member(path));
    assert(member_index(rest, path) is None);
    let back = rest.push((path, e[k].1));
    assert(tree_with(Tree::Obj(rest), h, e[k].1) == Some(Tree::Obj(back)));
    assert(forall|i: int, j: int|
        0 <= i < j < e.len() ==> (#[trigger] e[i]).0 != (#[trigger] e[j]).0);
    assert(forall|i: int| 0 <= i < e.len() ==> names_once((#[trigger] e[i]).1));
    assert forall|i: int| 0 <= i < back.len() implies (member_of(
        e,
        (#[trigger] back[i]).0,
    ) matches Some(v) && equal_trees(back[i].1, v)) by {
        let m = if i < k {
            i
        } else if i < rest.len() {
            i + 1
        } else {
            k
        };
        assert(back[i] == e[m]);
        lemma_member_by_name(e, m);
        law_equal_trees_reflexive(e[m].1);
    }
}

} // verus!
