//! Laws of the action chart editor.

use vstd::prelude::*;
use crate::ui::paac_panel::{change_transition, InlineTransition, PaacFile, TransitionChange};

verus! {

broadcast use vstd::seq_lib::group_seq_properties;

/// A change that gives a field of a transition a value puts that value into the
/// chart and into the last write to the bytes; a field that it says nothing of
/// keeps its own in both, and the place in the bytes stays.
pub proof fn law_change_reaches_chart_and_bytes(
    file: &mut PaacFile,
    i: usize,
    c: TransitionChange,
    writes: Vec<InlineTransition>,
)
    requires
        i < old(file).transitions@.len(),
        call_ensures(change_transition, (file, i, c), writes),
    ensures
        final(file).transitions@.len() == old(file).transitions@.len(),
        ({
            let t = old(file).transitions@[i as int];
            let shown = final(file).transitions@[i as int];
            let w = writes@;
            &&& shown.file_offset == t.file_offset
            &&& c.threshold matches Some(v) ==> shown.threshold == v && w.len() > 0
                && w.last().threshold == v
            &&& c.threshold is None ==> shown.threshold == t.threshold
            &&& c.target_state matches Some(v) ==> shown.target_state == v && w.len() > 0
                && w.last().target_state == v
            &&& c.target_state is None ==> shown.target_state == t.target_state
            &&& c.sequence matches Some(v) ==> shown.sequence == v && w.len() > 0
                && w.last().sequence == v
            &&& c.sequence is None ==> shown.sequence == t.sequence
            &&& forall|k: int|
                0 <= k < w.len() ==> {
                    &&& (#[trigger] w[k]).file_offset == t.file_offset
                    &&& c.threshold is None ==> w[k].threshold == t.threshold
                    &&& c.target_state is None ==> w[k].target_state == t.target_state
                    &&& c.sequence is None ==> w[k].sequence == t.sequence
                }
            &&& w.len() > 0 ==> w.last() == shown
        }),
{
}

/// A change leaves every other transition, and all else that the chart holds, as
/// it was.
pub proof fn law_change_leaves_the_rest(
    file: &mut PaacFile,
    i: usize,
    c: TransitionChange,
    writes: Vec<InlineTransition>,
    j: int,
)
    requires
        i < old(file).transitions@.len(),
        call_ensures(change_transition, (file, i, c), writes),
        0 <= j < old(file).transitions@.len(),
        j != i,
    ensures
        final(file).transitions@[j] == old(file).transitions@[j],
        final(file).raw == old(file).raw,
        final(file).states == old(file).states,
        final(file).condition_records == old(file).condition_records,
        final(file).strings == old(file).strings,
{
}

/// There are as many writes to the bytes as fields that a change gives a value:
/// one for each, the values coming in one after the other.
pub proof fn law_one_write_for_each_field(
    file: &mut PaacFile,
    i: usize,
    c: TransitionChange,
    writes: Vec<InlineTransition>,
)
    requires
        i < old(file).transitions@.len(),
        call_ensures(change_transition, (file, i, c), writes),
    ensures
        writes@.len() == (if c.threshold is Some {
            1int
        } else {
            0
        }) + (if c.target_state is Some {
            1int
        } else {
            0
        }) + (if c.sequence is Some {
            1int
        } else {
            0
        }),
{
}

} // verus!
