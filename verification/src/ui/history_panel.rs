//! The list of edits of a table, newest first, with the way back to each.

use vstd::prelude::*;
use crate::digits::{dec, dec_text, dec_usize};
use crate::json::Json;
use crate::state::{EditHistory, EditOp};
use crate::text::{byte_len, byte_prefix, byte_take, concat2, concat3, has_cut, longer_than};
use crate::ui::lint_panel::{short_text, short_value};

verus! {

broadcast use vstd::seq_lib::group_seq_properties;

/// The greatest number of edits that is listed.
pub const MAX_VISIBLE_OPS: usize = 50;

/// What the user asked of the panel.
#[derive(Clone, Copy, Debug, PartialEq, Eq, Structural)]
pub enum HistoryAction {
    /// Go to the state in which so many edits are applied.
    JumpTo(usize),
    Undo,
    Redo,
    Clear,
}

/// What the buttons of the panel allow.
#[derive(Clone, Copy, Debug, PartialEq, Eq, Structural)]
pub struct HistoryButtons {
    pub can_undo: bool,
    pub can_redo: bool,
    pub can_clear: bool,
}

/// What the buttons of the panel allow: undo where an edit is applied, redo
/// where one is not, and clear where there is one.
pub fn buttons(h: &EditHistory) -> (r: HistoryButtons)
    ensures
        r.can_undo == (h.position > 0),
        r.can_redo == (h.position < h.ops@.len()),
        r.can_clear == (h.ops@.len() > 0),
{
    HistoryButtons {
        can_undo: h.position > 0,
        can_redo: h.position < h.ops.len(),
        can_clear: h.ops.len() > 0,
    }
}

/// The position of the first edit that is listed; those before it are left out.
pub fn first_visible(total: usize) -> (r: usize)
    ensures
        r == if total > MAX_VISIBLE_OPS {
            total - MAX_VISIBLE_OPS
        } else {
            0
        },
{
    if total > MAX_VISIBLE_OPS {
        total - MAX_VISIBLE_OPS
    } else {
        0
    }
}

/// The line on the edits that are left out.
pub fn hidden_line(hidden: usize) -> (r: String)
    ensures
        r@ == "... "@ + dec(hidden as nat) + " older entries hidden"@,
{
    concat3("... ", dec_usize(hidden).as_str(), " older entries hidden")
}

/// Where the cursor stands right after the edit at a position.
pub open spec fn cursor_after(i: int) -> int {
    i + 1
}

/// What a click on the edit at a position asks for: the state after it.
pub fn jump_target(i: usize) -> (r: HistoryAction)
    requires
        i < usize::MAX,
    ensures
        r == HistoryAction::JumpTo(cursor_after(i as int) as usize),
{
    HistoryAction::JumpTo(i + 1)
}

/// How an edit stands to the cursor.
#[derive(Clone, Copy, Debug, PartialEq, Eq, Structural)]
pub struct RowState {
    pub is_applied: bool,
    pub is_cursor: bool,
}

/// How the edit at a position stands to the cursor.
pub open spec fn standing(i: int, cursor: int) -> RowState {
    RowState { is_applied: i < cursor, is_cursor: cursor_after(i) == cursor }
}

/// How an edit stands to the cursor.
pub fn row_state(op_index: usize, cursor: usize) -> (r: RowState)
    ensures
        r == standing(op_index as int, cursor as int),
{
    RowState { is_applied: op_index < cursor, is_cursor: cursor > 0 && op_index == cursor - 1 }
}

/// A click on a listed edit leads to a state that there is, in which that edit
/// alone has the cursor and it and those before it, and no others, are applied.
pub proof fn law_jump_within_history(h: EditHistory, i: int, j: int)
    requires
        0 <= i < h.ops@.len(),
        0 <= j < h.ops@.len(),
    ensures
        (EditHistory { position: cursor_after(i) as usize, ..h }).wf(),
        standing(j, cursor_after(i)).is_applied == (j <= i),
        standing(j, cursor_after(i)).is_cursor == (j == i),
{
}

/// The mark of the edit at the cursor.
pub fn marker(is_cursor: bool) -> (r: &'static str)
    ensures
        r@ == if is_cursor {
            "\u{25B8} here"@
        } else {
            "  "@
        },
{
    if is_cursor {
        "\u{25B8} here"
    } else {
        "  "
    }
}

/// The line on an edit.
pub open spec fn summary_of(i: nat, op: EditOp) -> Seq<char> {
    "["@ + dec(i + 1) + "] "@ + op.table@ + "."@ + (if op.field_path@.len() == 0 {
        "<entire entry>"@
    } else {
        op.field_path@
    }) + " key="@ + dec(op.entry_key as nat)
}

/// The line on an edit.
pub fn row_summary(op_index: usize, op: &EditOp) -> (r: String)
    requires
        op_index < usize::MAX,
    ensures
        r@ == summary_of(op_index as nat, *op),
{
    let mut s = "[".to_owned();
    s.push_str(dec_usize(op_index + 1).as_str());
    s.push_str("] ");
    s.push_str(op.table.as_str());
    s.push_str(".");
    if op.field_path.as_str().is_empty() {
        s.push_str("<entire entry>");
    } else {
        s.push_str(op.field_path.as_str());
    }
    s.push_str(" key=");
    s.push_str(dec_text(op.entry_key).as_str());
    s
}

/// A text of more than `max` bytes can be cut: a character ends where the mark
/// for the rest is to begin.
pub open spec fn can_cut(raw: Seq<char>, max: nat) -> bool {
    byte_len(raw) > max ==> has_cut(
        raw,
        if max >= 3 {
            (max - 3) as nat
        } else {
            0
        },
    )
}

/// A text of at most `max` bytes: what is longer is cut and ends with a mark.
pub open spec fn cut_text(raw: Seq<char>, max: nat) -> Seq<char> {
    if byte_len(raw) <= max {
        raw
    } else {
        byte_take(
            raw,
            if max >= 3 {
                (max - 3) as nat
            } else {
                0
            },
        ) + "..."@
    }
}

/// Cuts a text that is too long.
pub fn truncate_text(raw: String, max_len: usize) -> (r: String)
    requires
        can_cut(raw@, max_len as nat),
    ensures
        r@ == cut_text(raw@, max_len as nat),
{
    if !longer_than(raw.as_str(), max_len) {
        return raw;
    }
    let n: usize = if max_len >= 3 {
        max_len - 3
    } else {
        0
    };
    match byte_prefix(raw.as_str(), n) {
        Some(p) => concat2(p.as_str(), "..."),
        None => raw,
    }
}

/// A value as a short text in one line.
pub fn truncate_value(v: &Json, max_len: usize) -> (r: String)
    requires
        can_cut(short_text(v@), max_len as nat),
    ensures
        r@ == cut_text(short_text(v@), max_len as nat),
{
    truncate_text(short_value(v), max_len)
}

/// A value as a short text in one line, where its text can be cut.
pub fn try_truncate_value(v: &Json, max_len: usize) -> (r: Option<String>)
    ensures
        match r {
            Some(t) => can_cut(short_text(v@), max_len as nat) && t@ == cut_text(
                short_text(v@),
                max_len as nat,
            ),
            None => !can_cut(short_text(v@), max_len as nat),
        },
{
    let raw = short_value(v);
    let n: usize = if max_len >= 3 {
        max_len - 3
    } else {
        0
    };
    if longer_than(raw.as_str(), max_len) && byte_prefix(raw.as_str(), n).is_none() {
        return None;
    }
    Some(truncate_value(v, max_len))
}

/// A cut text is no longer than asked for, where there is room for the mark.
pub proof fn law_cut_text_fits(raw: Seq<char>, max: nat)
    requires
        can_cut(raw, max),
        max >= 3,
    ensures
        byte_len(cut_text(raw, max)) <= max,
{
    if byte_len(raw) > max {
        let n = (max - 3) as nat;
        let k = choose|k: int| crate::text::cut_at(raw, n, k);
        crate::text::lemma_one_cut(raw, n, k);
        crate::text::lemma_byte_len_concat(byte_take(raw, n), "..."@);
        reveal_strlit("...");
        let e = Seq::<char>::empty();
        assert("..."@ =~= e.push('.').push('.').push('.'));
        crate::text::lemma_byte_len_push(e, '.');
        crate::text::lemma_byte_len_push(e.push('.'), '.');
        crate::text::lemma_byte_len_push(e.push('.').push('.'), '.');
    }
}

/// The change of an edit in one line: the old value and the new, each cut short.
pub fn transition(op: &EditOp) -> (r: Option<String>)
    ensures
        match r {
            Some(t) => can_cut(short_text(op.old_value@), 20) && can_cut(
                short_text(op.new_value@),
                20,
            ) && t@ == cut_text(short_text(op.old_value@), 20) + " \u{2192} "@ + cut_text(
                short_text(op.new_value@),
                20,
            ),
            None => !(can_cut(short_text(op.old_value@), 20) && can_cut(
                short_text(op.new_value@),
                20,
            )),
        },
{
    match (try_truncate_value(&op.old_value, 20), try_truncate_value(&op.new_value, 20)) {
        (Some(a), Some(b)) => Some(concat3(a.as_str(), " \u{2192} ", b.as_str())),
        _ => None,
    }
}

/// How long ago something was, in its largest whole unit.
pub open spec fn ago(secs: nat) -> Seq<char> {
    if secs < 60 {
        dec(secs) + "s ago"@
    } else if secs < 3600 {
        dec(secs / 60) + "m ago"@
    } else {
        dec(secs / 3600) + "h ago"@
    }
}

/// How long ago something was.
pub fn format_relative(secs: u64) -> (r: String)
    ensures
        r@ == ago(secs as nat),
{
    if secs < 60 {
        concat2(dec_text(secs).as_str(), "s ago")
    } else if secs < 3600 {
        concat2(dec_text(secs / 60).as_str(), "m ago")
    } else {
        concat2(dec_text(secs / 3600).as_str(), "h ago")
    }
}

/// How long ago an edit was made.
pub fn edit_age(op: &EditOp, now: u64) -> (r: String)
    ensures
        r@ == ago(
            ((if now >= op.timestamp {
                now - op.timestamp
            } else {
                0
            }) / 1000) as nat,
        ),
{
    let ms: u64 = if now >= op.timestamp {
        now - op.timestamp
    } else {
        0
    };
    format_relative(ms / 1000)
}

} // verus!
