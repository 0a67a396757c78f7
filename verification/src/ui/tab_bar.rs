//! The bar of open tables.

use vstd::prelude::*;
use crate::digits::{dec, dec_usize};
use crate::state::{ActiveTable, AppState, LoadState};
use crate::text::concat2;

verus! {

broadcast use vstd::seq_lib::group_seq_properties;

/// What the bar was asked to do.
#[derive(Clone, Copy, Debug, PartialEq, Eq, Structural)]
pub enum Action {
    Focus(usize),
    Close(usize),
    CloseOthers(usize),
    CloseToRight(usize),
}

/// The label of a loaded table: its name, its number of entries, and a dot
/// where it has changes.
pub open spec fn loaded_label(name: Seq<char>, count: nat, modified: bool) -> Seq<char> {
    if modified {
        name + " ("@ + dec(count) + ") \u{25CF}"@
    } else {
        name + " ("@ + dec(count) + ")"@
    }
}

/// The label of a loaded table.
pub fn build_tab_label(name: &str, count: usize, is_modified: bool) -> (r: String)
    ensures
        r@ == loaded_label(name@, count as nat, is_modified),
{
    let mut s = name.to_owned();
    s.push_str(" (");
    s.push_str(dec_usize(count).as_str());
    if is_modified {
        s.push_str(") \u{25CF}");
    } else {
        s.push_str(")");
    }
    s
}

/// The label of a tab.
pub open spec fn label_of(tab: ActiveTable) -> Seq<char> {
    match tab.load_state {
        LoadState::Loading => tab.dispatch_name@ + " ⏳"@,
        LoadState::Error(_) => tab.dispatch_name@ + " ❌"@,
        LoadState::Loaded => loaded_label(
            tab.dispatch_name@,
            tab.entries@.len(),
            tab.changes@.len() > 0,
        ),
    }
}

/// The label of a tab.
pub fn tab_label(tab: &ActiveTable) -> (r: String)
    ensures
        r@ == label_of(*tab),
{
    match &tab.load_state {
        LoadState::Loading => concat2(tab.dispatch_name.as_str(), " ⏳"),
        LoadState::Error(_) => concat2(tab.dispatch_name.as_str(), " ❌"),
        LoadState::Loaded => build_tab_label(
            tab.dispatch_name.as_str(),
            tab.entries.len(),
            tab.changes.change_count() > 0,
        ),
    }
}

/// Whether there are other tabs to close.
pub fn can_close_others(state: &AppState) -> (r: bool)
    ensures
        r == (state.open_tabs@.len() > 1),
{
    state.open_tabs.len() > 1
}

/// Whether there are tabs to the right of tab `i` to close.
pub fn can_close_to_right(state: &AppState, i: usize) -> (r: bool)
    ensures
        r == (i + 1 < state.open_tabs@.len()),
{
    state.open_tabs.len() > 0 && i < state.open_tabs.len() - 1
}

/// Where the focus goes when every tab but one is closed, or every tab where
/// there is no such one.
pub open spec fn focus_after_others(active: Option<usize>, keep: usize, count: nat) -> Option<usize> {
    match active {
        None => None,
        Some(a) => if count == 0 {
            Some(a)
        } else if keep >= count {
            None
        } else if a < count {
            Some(0)
        } else {
            Some((a - (count - 1)) as usize)
        },
    }
}

/// Where the focus goes when every tab behind tab `idx` is closed.
pub open spec fn focus_after_right(active: Option<usize>, idx: usize, count: nat) -> Option<usize> {
    match active {
        None => None,
        Some(a) => if idx + 1 >= count || a <= idx {
            Some(a)
        } else if a < count {
            Some(idx)
        } else {
            Some((a - (count - 1 - idx)) as usize)
        },
    }
}

/// Does what the bar was asked to do.
pub fn apply_action(state: &mut AppState, action: Action)
    requires
        action matches Action::CloseToRight(idx) ==> idx < usize::MAX,
    ensures
        old(state).tabs_wf() ==> final(state).tabs_wf(),
        match action {
            Action::Focus(idx) => *final(state) == (AppState {
                active_tab_idx: if idx < old(state).open_tabs@.len() {
                    Some(idx)
                } else {
                    old(state).active_tab_idx
                },
                ..*old(state)
            }),
            Action::Close(idx) => if idx < old(state).open_tabs@.len() {
                crate::ui::table_list::tab_closed(*old(state), *final(state), idx as int)
            } else {
                *final(state) == *old(state)
            },
            Action::CloseOthers(keep) => {
                &&& final(state).open_tabs@ == if keep < old(state).open_tabs@.len() {
                    seq![old(state).open_tabs@[keep as int]]
                } else {
                    Seq::empty()
                }
                &&& final(state).active_tab_idx == focus_after_others(
                    old(state).active_tab_idx,
                    keep,
                    old(state).open_tabs@.len(),
                )
                &&& *final(state) == (AppState {
                    open_tabs: final(state).open_tabs,
                    active_tab_idx: final(state).active_tab_idx,
                    ..*old(state)
                })
            },
            Action::CloseToRight(idx) => {
                &&& final(state).open_tabs@ == if idx + 1 < old(state).open_tabs@.len() {
                    old(state).open_tabs@.take(idx + 1)
                } else {
                    old(state).open_tabs@
                }
                &&& final(state).active_tab_idx == focus_after_right(
                    old(state).active_tab_idx,
                    idx,
                    old(state).open_tabs@.len(),
                )
                &&& *final(state) == (AppState {
                    open_tabs: final(state).open_tabs,
                    active_tab_idx: final(state).active_tab_idx,
                    ..*old(state)
                })
            },
        },
{
    match action {
        Action::Focus(idx) => {
            if idx < state.open_tabs.len() {
                state.active_tab_idx = Some(idx);
            }
        },
        Action::Close(idx) => {
            state.close_tab(idx);
        },
        Action::CloseOthers(keep) => {
            close_others(state, keep);
        },
        Action::CloseToRight(idx) => {
            close_to_right(state, idx);
        },
    }
}

#[verifier::rlimit(40)]
fn close_others(state: &mut AppState, keep: usize)
    ensures
        final(state).open_tabs@ == if keep < old(state).open_tabs@.len() {
            seq![old(state).open_tabs@[keep as int]]
        } else {
            Seq::empty()
        },
        final(state).active_tab_idx == focus_after_others(
            old(state).active_tab_idx,
            keep,
            old(state).open_tabs@.len(),
        ),
        *final(state) == (AppState {
            open_tabs: final(state).open_tabs,
            active_tab_idx: final(state).active_tab_idx,
            ..*old(state)
        }),
{
    let ghost tabs = state.open_tabs@;
    let ghost active = state.active_tab_idx;
    let ghost n = tabs.len() as int;
    let mut i: usize = state.open_tabs.len();
    assert(tabs.take(n) =~= tabs);
    while i > 0
        invariant
            0 <= i <= n,
            n == tabs.len(),
            tabs == old(state).open_tabs@,
            active == old(state).active_tab_idx,
            state.open_tabs@ == if i <= keep && keep < n {
                tabs.take(i as int).push(tabs[keep as int])
            } else {
                tabs.take(i as int)
            },
            state.active_tab_idx == match active {
                None => None,
                Some(a) => if i == n {
                    Some(a)
                } else if keep >= n {
                    if i == 0 {
                        None
                    } else if a < n {
                        Some(
                            (if a < i {
                                a as int
                            } else {
                                i - 1
                            }) as usize,
                        )
                    } else {
                        Some((a - (n - i)) as usize)
                    }
                } else if i > keep {
                    if a < n {
                        Some(
                            (if a < i {
                                a as int
                            } else {
                                i - 1
                            }) as usize,
                        )
                    } else {
                        Some((a - (n - i)) as usize)
                    }
                } else {
                    let b: int = if a < n {
                        if a <= keep {
                            a as int
                        } else {
                            keep as int
                        }
                    } else {
                        a - (n - 1 - keep)
                    };
                    Some(
                        (if b < i {
                            b
                        } else if b < keep {
                            i as int
                        } else {
                            b - (keep - i)
                        }) as usize,
                    )
                },
            },
            *state == (AppState {
                open_tabs: state.open_tabs,
                active_tab_idx: state.active_tab_idx,
                ..*old(state)
            }),
        decreases i,
    {
        i = i - 1;
        if i != keep {
            let ghost before = state.open_tabs@;
            state.close_tab(i);
            assert(state.open_tabs@ =~= if i <= keep && keep < n {
                tabs.take(i as int).push(tabs[keep as int])
            } else {
                tabs.take(i as int)
            });
        } else {
            assert(state.open_tabs@ =~= tabs.take(i as int).push(tabs[keep as int]));
        }
    }
    assert(state.open_tabs@ =~= if keep < n {
        seq![tabs[keep as int]]
    } else {
        Seq::empty()
    });
}

fn close_to_right(state: &mut AppState, idx: usize)
    requires
        idx < usize::MAX,
    ensures
        final(state).open_tabs@ == if idx + 1 < old(state).open_tabs@.len() {
            old(state).open_tabs@.take(idx + 1)
        } else {
            old(state).open_tabs@
        },
        final(state).active_tab_idx == focus_after_right(
            old(state).active_tab_idx,
            idx,
            old(state).open_tabs@.len(),
        ),
        *final(state) == (AppState {
            open_tabs: final(state).open_tabs,
            active_tab_idx: final(state).active_tab_idx,
            ..*old(state)
        }),
{
    let ghost tabs = state.open_tabs@;
    let ghost active = state.active_tab_idx;
    let ghost n = tabs.len() as int;
    let mut i: usize = state.open_tabs.len();
    assert(tabs.take(n) =~= tabs);
    while i > idx + 1
        invariant
            idx < usize::MAX,
            0 <= i <= n,
            n == tabs.len(),
            n > idx + 1 ==> i >= idx + 1,
            n <= idx + 1 ==> i == n,
            tabs == old(state).open_tabs@,
            active == old(state).active_tab_idx,
            state.open_tabs@ == tabs.take(i as int),
            state.active_tab_idx == match active {
                None => None,
                Some(a) => if i == n {
                    Some(a)
                } else if a < n {
                    Some(
                        (if a < i {
                            a as int
                        } else {
                            i - 1
                        }) as usize,
                    )
                } else {
                    Some((a - (n - i)) as usize)
                },
            },
            *state == (AppState {
                open_tabs: state.open_tabs,
                active_tab_idx: state.active_tab_idx,
                ..*old(state)
            }),
        decreases i,
    {
        i = i - 1;
        state.close_tab(i);
        assert(state.open_tabs@ =~= tabs.take(i as int));
    }
}

/// Closing the others leaves the kept tab alone and in focus, where some tab had the focus.
pub proof fn law_close_others_keeps_one(active: usize, keep: usize, count: nat)
    requires
        active < count,
        keep < count,
    ensures
        focus_after_others(Some(active), keep, count) == Some(0usize),
{
}

} // verus!
