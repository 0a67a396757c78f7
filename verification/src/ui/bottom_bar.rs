//! The bar at the bottom: game directory, table in focus, changes, quick actions.

use vstd::prelude::*;
use crate::digits::{dec, dec_usize};
use crate::state::AppState;
use crate::text::concat2;

verus! {

/// The quick actions.
#[derive(Clone, Copy, Debug, PartialEq, Eq, Structural)]
pub enum BottomBarAction {
    Apply,
    Remove,
    StartGame,
}

/// Whether a quick action is offered: all need a game directory, and applying
/// needs a table in focus.
pub fn action_enabled(state: &AppState, action: BottomBarAction) -> (r: bool)
    ensures
        r == (state.game_dir is Some && (action == BottomBarAction::Apply ==> state.focus() is Some)),
{
    match action {
        BottomBarAction::Apply => state.game_dir.is_some() && state.active_index().is_some(),
        BottomBarAction::Remove | BottomBarAction::StartGame => state.game_dir.is_some(),
    }
}

/// The game directory as it is shown.
pub fn dir_text(state: &AppState) -> (r: String)
    ensures
        r@ == match state.game_dir {
            Some(d) => d@,
            None => "No game dir set"@,
        },
{
    match &state.game_dir {
        Some(d) => d.clone(),
        None => "No game dir set".to_owned(),
    }
}

/// The table in focus as it is shown.
pub fn table_text(state: &AppState) -> (r: String)
    ensures
        r@ == match state.focus() {
            Some(i) => state.open_tabs@[i].dispatch_name@ + " ("@ + dec(
                state.open_tabs@[i].entries@.len(),
            ) + " entries)"@,
            None => "No table loaded"@,
        },
{
    match state.active_table() {
        Some(t) => {
            let mut s = t.dispatch_name.clone();
            s.push_str(" (");
            s.push_str(dec_usize(t.entries.len()).as_str());
            s.push_str(" entries)");
            s
        },
        None => "No table loaded".to_owned(),
    }
}

/// The number of changes in the table in focus.
pub open spec fn change_total(s: AppState) -> nat {
    match s.focus() {
        Some(i) => s.open_tabs@[i].changes@.len(),
        None => 0,
    }
}

/// The changes in the table in focus as they are shown.
pub fn changes_text(state: &AppState) -> (r: String)
    ensures
        r@ == if change_total(*state) > 0 {
            dec(change_total(*state)) + " entries modified"@
        } else {
            "No changes"@
        },
{
    let count = match state.active_table() {
        Some(t) => t.changes.change_count(),
        None => 0,
    };
    if count > 0 {
        concat2(dec_usize(count).as_str(), " entries modified")
    } else {
        "No changes".to_owned()
    }
}

} // verus!
