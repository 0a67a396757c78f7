//! The guided flows: which one is open, and how one ends.

use vstd::prelude::*;
use crate::digits::{dec, dec_usize};
use crate::state::{info_note, AppState};
use crate::text::same;

verus! {

broadcast use vstd::seq_lib::group_seq_properties;

/// A guided flow that there is.
#[derive(Debug)]
pub struct WizardInfo {
    pub name: String,
    pub description: String,
}

/// How a frame of a guided flow ended.
#[derive(Debug)]
pub enum WizardResult {
    InProgress,
    Cancelled,
    Completed { changes_applied: usize, summary: String },
}

/// The position of the first flow with a name.
pub open spec fn wizard_named(v: Seq<WizardInfo>, name: Seq<char>) -> Option<int>
    decreases v.len(),
{
    if v.len() == 0 {
        None
    } else if v[0].name@ == name {
        Some(0)
    } else {
        match wizard_named(v.drop_first(), name) {
            Some(i) => Some(i + 1),
            None => None,
        }
    }
}

/// The position of the first flow with a name.
pub fn wizard_by_name(v: &Vec<WizardInfo>, name: &str) -> (r: Option<usize>)
    ensures
        match r {
            Some(i) => wizard_named(v@, name@) == Some(i as int) && i < v.len(),
            None => wizard_named(v@, name@) is None,
        },
{
    let mut i: usize = 0;
    assert(v@.skip(0) =~= v@);
    while i < v.len()
        invariant
            0 <= i <= v.len(),
            wizard_named(v@, name@) == match wizard_named(v@.skip(i as int), name@) {
                Some(k) => Some(k + i),
                None => None,
            },
        decreases v.len() - i,
    {
        assert(v@.skip(i as int).drop_first() =~= v@.skip(i + 1));
        assert(v@.skip(i as int)[0] == v@[i as int]);
        if same(v[i].name.as_str(), name) {
            return Some(i);
        }
        i = i + 1;
    }
    None
}

/// Opens a flow, where none is open and there is one of that name.
pub fn open_wizard(state: &mut AppState, v: &Vec<WizardInfo>, name: &String) -> (opened: bool)
    ensures
        opened == (old(state).active_wizard is None && wizard_named(v@, name@) is Some),
        *final(state) == if opened {
            AppState { active_wizard: Some(*name), ..*old(state) }
        } else {
            *old(state)
        },
{
    if state.active_wizard.is_none() && wizard_by_name(v, name.as_str()).is_some() {
        state.active_wizard = Some(name.clone());
        true
    } else {
        false
    }
}

/// What is said of a completed flow.
pub open spec fn completed_text(summary: Seq<char>, changes: nat) -> Seq<char> {
    summary + " ("@ + dec(changes) + " change"@ + (if changes == 1 {
        ""@
    } else {
        "s"@
    }) + ")"@
}

/// Ends a frame of the open flow. A flow that is in progress stays open; one
/// that was cancelled or completed is closed, and that is said.
pub fn wizard_frame_done(state: &mut AppState, result: &WizardResult)
    ensures
        match *result {
            WizardResult::InProgress => *final(state) == *old(state),
            WizardResult::Cancelled => {
                &&& final(state).toasts@ == old(state).toasts@.push(info_note("Wizard cancelled"@))
                &&& *final(state) == (AppState {
                    active_wizard: None,
                    toasts: final(state).toasts,
                    ..*old(state)
                })
            },
            WizardResult::Completed { changes_applied, summary } => {
                &&& final(state).toasts@ == old(state).toasts@.push(
                    info_note(completed_text(summary@, changes_applied as nat)),
                )
                &&& *final(state) == (AppState {
                    active_wizard: None,
                    toasts: final(state).toasts,
                    ..*old(state)
                })
            },
        },
{
    match result {
        WizardResult::InProgress => {},
        WizardResult::Cancelled => {
            state.toasts.info("Wizard cancelled");
            state.active_wizard = None;
        },
        WizardResult::Completed { changes_applied, summary } => {
            let mut m = summary.clone();
            m.push_str(" (");
            m.push_str(dec_usize(*changes_applied).as_str());
            m.push_str(" change");
            m.push_str(
                if *changes_applied == 1 {
                    ""
                } else {
                    "s"
                },
            );
            m.push_str(")");
            state.toasts.info(m.as_str());
            state.active_wizard = None;
        },
    }
}

} // verus!
