//! The rows of a list that a filter leaves visible.

use vstd::prelude::*;

verus! {

broadcast use vstd::seq_lib::group_seq_properties;

/// The positions below `n` that satisfy `keep`, in order.
pub open spec fn picked(n: nat, keep: spec_fn(int) -> bool) -> Seq<usize>
    decreases n,
{
    if n == 0 {
        Seq::empty()
    } else {
        let before = picked((n - 1) as nat, keep);
        if keep(n - 1) {
            before.push((n - 1) as usize)
        } else {
            before
        }
    }
}

/// The visible rows are those that satisfy the filter, each once, in order.
pub proof fn law_picked(n: nat, keep: spec_fn(int) -> bool)
    requires
        n <= usize::MAX,
    ensures
        picked(n, keep).len() <= n,
        forall|k: int| 0 <= k < picked(n, keep).len() ==> 0 <= #[trigger] picked(n, keep)[k] < n
            && keep(picked(n, keep)[k] as int),
        forall|k: int, l: int|
            0 <= k < l < picked(n, keep).len() ==> picked(n, keep)[k] < picked(n, keep)[l],
        forall|i: int| 0 <= i < n && #[trigger] keep(i) ==> picked(n, keep).contains(i as usize),
    decreases n,
{
    if n > 0 {
        let m = (n - 1) as nat;
        law_picked(m, keep);
        let before = picked(m, keep);
        let now = picked(n, keep);
        assert forall|i: int| 0 <= i < n && #[trigger] keep(i) implies now.contains(i as usize) by {
            if i == n - 1 {
                assert(now[now.len() - 1] == i as usize);
            } else {
                assert(before.contains(i as usize));
                let k = choose|k: int| 0 <= k < before.len() && before[k] == i as usize;
                assert(now[k] == i as usize);
            }
        }
    }
}

/// Where every row satisfies the filter, all rows are visible.
pub proof fn law_picked_all(n: nat, keep: spec_fn(int) -> bool)
    requires
        n <= usize::MAX,
        forall|i: int| 0 <= i < n ==> #[trigger] keep(i),
    ensures
        picked(n, keep) == Seq::new(n, |i: int| i as usize),
    decreases n,
{
    if n > 0 {
        law_picked_all((n - 1) as nat, keep);
    }
    assert(picked(n, keep) =~= Seq::new(n, |i: int| i as usize));
}

/// The first position of a row in a list of rows.
pub open spec fn position_of(v: Seq<usize>, x: usize) -> Option<int>
    decreases v.len(),
{
    if v.len() == 0 {
        None
    } else if v[0] == x {
        Some(0)
    } else {
        match position_of(v.drop_first(), x) {
            Some(i) => Some(i + 1),
            None => None,
        }
    }
}

/// The first position of a row in a list of rows.
pub fn find_position(v: &Vec<usize>, x: usize) -> (r: Option<usize>)
    ensures
        match r {
            Some(i) => position_of(v@, x) == Some(i as int) && i < v.len() && v@[i as int] == x,
            None => position_of(v@, x) is None && !v@.contains(x),
        },
{
    let mut i: usize = 0;
    assert(v@.skip(0) =~= v@);
    while i < v.len()
        invariant
            0 <= i <= v.len(),
            position_of(v@, x) == match position_of(v@.skip(i as int), x) {
                Some(k) => Some(k + i),
                None => None,
            },
            forall|j: int| 0 <= j < i ==> v@[j] != x,
        decreases v.len() - i,
    {
        assert(v@.skip(i as int).drop_first() =~= v@.skip(i + 1));
        assert(v@.skip(i as int)[0] == v@[i as int]);
        if v[i] == x {
            return Some(i);
        }
        i = i + 1;
    }
    None
}

/// Where no row satisfies the filter, none is visible.
pub proof fn lemma_picked_none(n: nat, keep: spec_fn(int) -> bool)
    requires
        forall|i: int| 0 <= i < n ==> !#[trigger] keep(i),
    ensures
        picked(n, keep) == Seq::<usize>::empty(),
    decreases n,
{
    if n > 0 {
        lemma_picked_none((n - 1) as nat, keep);
    }
}

} // verus!
