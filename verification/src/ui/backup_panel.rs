//! The list of snapshots, and what becomes of one that is restored or deleted.

use vstd::prelude::*;
use crate::digits::{dec, dec_usize};
use crate::sizes::{format_size, size_text};
use crate::state::{failure_note, info_note, warn_note, AppState};
use crate::text::concat2;

verus! {

/// A snapshot of the state before a deploy.
#[derive(Debug)]
pub struct Snapshot {
    pub id: String,
    pub label: String,
    pub created_at: String,
    pub overlay_group: String,
    pub papgt_size: u64,
    pub paz_size: u64,
}

/// A size, or a dash for none.
pub open spec fn size_or_dash(b: u64) -> Seq<char> {
    if b == 0 {
        "—"@
    } else {
        size_text(b as nat)
    }
}

/// A size, or a dash for none.
pub fn format_bytes(b: u64) -> (r: String)
    ensures
        r@ == size_or_dash(b),
{
    if b == 0 {
        "—".to_owned()
    } else {
        format_size(b)
    }
}

/// The sizes of a snapshot.
pub fn format_sizes(snap: &Snapshot) -> (r: String)
    ensures
        r@ == "papgt: "@ + size_or_dash(snap.papgt_size) + " | overlay: "@ + size_or_dash(
            snap.paz_size,
        ),
{
    let mut s = "papgt: ".to_owned();
    s.push_str(format_bytes(snap.papgt_size).as_str());
    s.push_str(" | overlay: ");
    s.push_str(format_bytes(snap.paz_size).as_str());
    s
}

/// The list was read again, or could not be.
pub open spec fn refreshed(
    before: AppState,
    after: AppState,
    listed: Result<Vec<Snapshot>, String>,
) -> bool {
    match listed {
        Ok(list) => after == (AppState {
            backup_snapshots: list,
            backup_loaded_once: true,
            ..before
        }),
        Err(e) => {
            &&& after.toasts@ == before.toasts@.push(
                failure_note("Failed to list snapshots"@, e@),
            )
            &&& after == (AppState { toasts: after.toasts, ..before })
        },
    }
}

/// Takes over the list of snapshots as it was read.
pub fn refresh(state: &mut AppState, listed: Result<Vec<Snapshot>, String>)
    ensures
        refreshed(*old(state), *final(state), listed),
{
    match listed {
        Ok(list) => {
            state.backup_snapshots = list;
            state.backup_loaded_once = true;
        },
        Err(e) => {
            state.toasts.error_with_details("Failed to list snapshots", e.as_str());
        },
    }
}

/// The game directory to restore a snapshot to. Where none is set, that is said.
pub fn restore_dir(state: &mut AppState) -> (r: Option<String>)
    ensures
        r == old(state).game_dir,
        r is Some ==> *final(state) == *old(state),
        r is None ==> final(state).toasts@ == old(state).toasts@.push(
            warn_note("Set game dir first"@),
        ) && *final(state) == (AppState { toasts: final(state).toasts, ..*old(state) }),
{
    match &state.game_dir {
        Some(d) => Some(d.clone()),
        None => {
            state.toasts.warn("Set game dir first");
            None
        },
    }
}

/// A restore is reported.
pub open spec fn restore_reported(
    before: AppState,
    after: AppState,
    id: Seq<char>,
    result: Result<(), String>,
) -> bool {
    match result {
        Ok(_) => {
            &&& after.status@ == "Restored snapshot "@ + id
            &&& after.toasts@ == before.toasts@.push(info_note("Restored snapshot "@ + id))
            &&& after == (AppState { status: after.status, toasts: after.toasts, ..before })
        },
        Err(e) => {
            &&& after.toasts@ == before.toasts@.push(failure_note("Restore failed: "@ + id, e@))
            &&& after == (AppState { toasts: after.toasts, ..before })
        },
    }
}

/// Reports a restore and takes over the list as it was read after it.
pub fn handle_restore(
    state: &mut AppState,
    snapshot_id: &str,
    result: &Result<(), String>,
    listed: Result<Vec<Snapshot>, String>,
)
    ensures
        exists|mid: AppState|
            restore_reported(*old(state), mid, snapshot_id@, *result) && #[trigger] refreshed(
                mid,
                *final(state),
                listed,
            ),
{
    match result {
        Ok(_) => {
            let m = concat2("Restored snapshot ", snapshot_id);
            state.status = m.clone();
            state.toasts.info(m.as_str());
        },
        Err(e) => {
            let m = concat2("Restore failed: ", snapshot_id);
            state.toasts.error_with_details(m.as_str(), e.as_str());
        },
    }
    let ghost mid = *state;
    assert(restore_reported(*old(state), mid, snapshot_id@, *result));
    refresh(state, listed);
    assert(refreshed(mid, *state, listed));
}

/// A delete is reported.
pub open spec fn delete_reported(
    before: AppState,
    after: AppState,
    id: Seq<char>,
    result: Result<(), String>,
) -> bool {
    &&& after.toasts@ == before.toasts@.push(
        match result {
            Ok(_) => info_note("Deleted snapshot "@ + id),
            Err(e) => failure_note("Delete failed: "@ + id, e@),
        },
    )
    &&& after == (AppState { toasts: after.toasts, ..before })
}

/// Reports a delete and takes over the list as it was read after it.
pub fn handle_delete(
    state: &mut AppState,
    snapshot_id: &str,
    result: &Result<(), String>,
    listed: Result<Vec<Snapshot>, String>,
)
    ensures
        exists|mid: AppState|
            delete_reported(*old(state), mid, snapshot_id@, *result) && #[trigger] refreshed(
                mid,
                *final(state),
                listed,
            ),
{
    match result {
        Ok(_) => {
            let m = concat2("Deleted snapshot ", snapshot_id);
            state.toasts.info(m.as_str());
        },
        Err(e) => {
            let m = concat2("Delete failed: ", snapshot_id);
            state.toasts.error_with_details(m.as_str(), e.as_str());
        },
    }
    let ghost mid = *state;
    assert(delete_reported(*old(state), mid, snapshot_id@, *result));
    refresh(state, listed);
    assert(refreshed(mid, *state, listed));
}

/// How many of the first `n` deletes went well.
pub open spec fn deleted_count(results: Seq<Result<(), String>>, n: nat) -> nat
    decreases n,
{
    if n == 0 {
        0
    } else {
        deleted_count(results, (n - 1) as nat) + (if results[n - 1] is Ok {
            1nat
        } else {
            0
        })
    }
}

/// All snapshots were deleted, as far as that went well.
pub open spec fn cleared(before: AppState, after: AppState, deleted: nat, total: nat) -> bool {
    &&& after.toasts@ == before.toasts@.push(
        info_note("Deleted "@ + dec(deleted) + " of "@ + dec(total) + " snapshots"@),
    )
    &&& after == (AppState {
        backup_confirm_clear_all: false,
        toasts: after.toasts,
        ..before
    })
}

/// Reports that all snapshots were deleted, one result for each, and takes over
/// the list as it was read after it.
pub fn clear_all_done(
    state: &mut AppState,
    results: &Vec<Result<(), String>>,
    listed: Result<Vec<Snapshot>, String>,
)
    ensures
        exists|mid: AppState|
            cleared(
                *old(state),
                mid,
                deleted_count(results@, results@.len()),
                old(state).backup_snapshots@.len(),
            ) && #[trigger] refreshed(mid, *final(state), listed),
{
    let total = state.backup_snapshots.len();
    let mut deleted: usize = 0;
    let mut i: usize = 0;
    while i < results.len()
        invariant
            0 <= i <= results.len(),
            deleted <= i,
            deleted == deleted_count(results@, i as nat),
        decreases results.len() - i,
    {
        if results[i].is_ok() {
            deleted = deleted + 1;
        }
        i = i + 1;
    }
    state.backup_confirm_clear_all = false;
    let mut m = "Deleted ".to_owned();
    m.push_str(dec_usize(deleted).as_str());
    m.push_str(" of ");
    m.push_str(dec_usize(total).as_str());
    m.push_str(" snapshots");
    state.toasts.info(m.as_str());
    let ghost mid = *state;
    refresh(state, listed);
    assert(refreshed(mid, *state, listed));
}

/// Asks for all snapshots to be deleted, or takes that back. Nothing is deleted
/// before it is asked for a second time.
pub fn arm_clear_all(state: &mut AppState, armed: bool)
    ensures
        *final(state) == (AppState { backup_confirm_clear_all: armed, ..*old(state) }),
{
    state.backup_confirm_clear_all = armed;
}

} // verus!
