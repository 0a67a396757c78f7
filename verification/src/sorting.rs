//! Ordering rows by a rank, a text and a number.

use vstd::prelude::*;
use crate::text::{comes_before, law_text_order, same, text_before};

verus! {

broadcast use vstd::seq_lib::group_seq_properties;

/// What a row is ordered by: first the rank, then the text, then the number.
#[derive(Debug)]
pub struct SortKey {
    pub rank: u128,
    pub text: String,
    pub number: u64,
}

/// `a` is ordered before `b`.
pub open spec fn key_before(a: SortKey, b: SortKey) -> bool {
    a.rank < b.rank || (a.rank == b.rank && (text_before(a.text@, b.text@) || (a.text@ == b.text@
        && a.number < b.number)))
}

/// Row `i` is listed before row `j`: its key is ordered before, or the keys are
/// alike and it stood before already.
pub open spec fn row_before(keys: Seq<SortKey>, i: usize, j: usize) -> bool {
    key_before(keys[i as int], keys[j as int]) || (!key_before(keys[j as int], keys[i as int]) && i
        < j)
}

/// Each listed row is listed before those behind it.
pub open spec fn in_order(keys: Seq<SortKey>, rows: Seq<usize>) -> bool {
    forall|p: int, q: int|
        0 <= p < q < rows.len() ==> row_before(keys, #[trigger] rows[p], #[trigger] rows[q])
}

/// The rows are those from `lo` up to `hi`, in order.
pub open spec fn orders(keys: Seq<SortKey>, rows: Seq<usize>, lo: int, hi: int) -> bool {
    &&& rows.len() == hi - lo
    &&& in_order(keys, rows)
    &&& forall|x: usize| #[trigger] rows.contains(x) <==> lo <= x < hi
}

proof fn lemma_key_order(a: SortKey, b: SortKey, c: SortKey)
    ensures
        !key_before(a, a),
        !(key_before(a, b) && key_before(b, a)),
        key_before(a, b) && key_before(b, c) ==> key_before(a, c),
        !key_before(b, a) && !key_before(c, b) ==> !key_before(c, a),
        key_before(a, b) && !key_before(c, b) ==> key_before(a, c),
        !key_before(b, a) && key_before(b, c) ==> key_before(a, c),
{
    law_text_order(a.text@, b.text@, c.text@);
    law_text_order(b.text@, c.text@, a.text@);
    law_text_order(c.text@, a.text@, b.text@);
    law_text_order(c.text@, b.text@, a.text@);
    law_text_order(b.text@, a.text@, c.text@);
    law_text_order(a.text@, c.text@, b.text@);
}

/// Listing rows is a strict order: no row comes before itself, and what comes
/// before comes before what follows.
pub proof fn law_row_order(keys: Seq<SortKey>, i: usize, j: usize, k: usize)
    ensures
        !row_before(keys, i, i),
        row_before(keys, i, j) && row_before(keys, j, k) ==> row_before(keys, i, k),
        i != j ==> row_before(keys, i, j) || row_before(keys, j, i),
{
    lemma_key_order(keys[i as int], keys[j as int], keys[k as int]);
}

fn is_before(a: &SortKey, b: &SortKey) -> (r: bool)
    ensures
        r == key_before(*a, *b),
{
    if a.rank != b.rank {
        a.rank < b.rank
    } else if comes_before(a.text.as_str(), b.text.as_str()) {
        true
    } else {
        same(a.text.as_str(), b.text.as_str()) && a.number < b.number
    }
}

fn merge(keys: &Vec<SortKey>, left: &Vec<usize>, right: &Vec<usize>, lo: usize, mid: usize, hi: usize) -> (out: Vec<
    usize,
>)
    requires
        lo <= mid <= hi <= keys.len(),
        orders(keys@, left@, lo as int, mid as int),
        orders(keys@, right@, mid as int, hi as int),
    ensures
        orders(keys@, out@, lo as int, hi as int),
{
    let mut out: Vec<usize> = Vec::new();
    let mut i: usize = 0;
    let mut j: usize = 0;
    while i < left.len() || j < right.len()
        invariant
            lo <= mid <= hi <= keys.len(),
            orders(keys@, left@, lo as int, mid as int),
            orders(keys@, right@, mid as int, hi as int),
            0 <= i <= left.len(),
            0 <= j <= right.len(),
            out.len() == i + j,
            in_order(keys@, out@),
            forall|p: int, q: int|
                0 <= p < out.len() && i <= q < left.len() ==> row_before(
                    keys@,
                    #[trigger] out@[p],
                    #[trigger] left@[q],
                ),
            forall|p: int, q: int|
                0 <= p < out.len() && j <= q < right.len() ==> row_before(
                    keys@,
                    #[trigger] out@[p],
                    #[trigger] right@[q],
                ),
            forall|p: int| 0 <= p < out.len() ==> lo <= #[trigger] out@[p] < hi,
            forall|q: int| 0 <= q < i ==> out@.contains(#[trigger] left@[q]),
            forall|q: int| 0 <= q < j ==> out@.contains(#[trigger] right@[q]),
        decreases left.len() - i + right.len() - j,
    {
        let ghost o0 = out@;
        proof {
            assert forall|q: int| 0 <= q < left.len() implies lo <= #[trigger] left@[q] < mid by {
                assert(left@.contains(left@[q]));
            }
            assert forall|q: int| 0 <= q < right.len() implies mid <= #[trigger] right@[q]
                < hi by {
                assert(right@.contains(right@[q]));
            }
        }
        let from_left = if i >= left.len() {
            false
        } else if j >= right.len() {
            true
        } else {
            !is_before(&keys[right[j]], &keys[left[i]])
        };
        if from_left {
            let x = left[i];
            out.push(x);
            i = i + 1;
            proof {
                assert forall|p: int, q: int| 0 <= p < out.len() && j <= q
                    < right.len() implies row_before(
                    keys@,
                    #[trigger] out@[p],
                    #[trigger] right@[q],
                ) by {
                    if p == o0.len() {
                        law_row_order(keys@, x, right@[j as int], right@[q]);
                        assert(row_before(keys@, x, right@[j as int]));
                    } else {
                        assert(out@[p] == o0[p]);
                    }
                }
                assert forall|p: int, q: int| 0 <= p < out.len() && i <= q
                    < left.len() implies row_before(
                    keys@,
                    #[trigger] out@[p],
                    #[trigger] left@[q],
                ) by {
                    if p < o0.len() {
                        assert(out@[p] == o0[p]);
                    } else {
                        assert(left@[i - 1] == x);
                    }
                }
                assert forall|p: int, q: int| 0 <= p < q < out.len() implies row_before(
                    keys@,
                    #[trigger] out@[p],
                    #[trigger] out@[q],
                ) by {
                    assert(out@[p] == o0[p]);
                    if q == o0.len() {
                        assert(left@[i - 1] == x);
                    } else {
                        assert(out@[q] == o0[q]);
                    }
                }
                lemma_contains_push(o0, x);
                assert forall|q: int| 0 <= q < i implies out@.contains(#[trigger] left@[q]) by {
                    if q < i - 1 {
                        assert(o0.contains(left@[q]));
                    }
                }
                assert forall|q: int| 0 <= q < j implies out@.contains(#[trigger] right@[q]) by {
                    assert(o0.contains(right@[q]));
                }
            }
        } else {
            let x = right[j];
            out.push(x);
            j = j + 1;
            proof {
                assert forall|p: int, q: int| 0 <= p < out.len() && i <= q
                    < left.len() implies row_before(
                    keys@,
                    #[trigger] out@[p],
                    #[trigger] left@[q],
                ) by {
                    if p == o0.len() {
                        law_row_order(keys@, x, left@[i as int], left@[q]);
                        assert(row_before(keys@, x, left@[i as int]));
                    } else {
                        assert(out@[p] == o0[p]);
                    }
                }
                assert forall|p: int, q: int| 0 <= p < out.len() && j <= q
                    < right.len() implies row_before(
                    keys@,
                    #[trigger] out@[p],
                    #[trigger] right@[q],
                ) by {
                    if p < o0.len() {
                        assert(out@[p] == o0[p]);
                    } else {
                        assert(right@[j - 1] == x);
                    }
                }
                assert forall|p: int, q: int| 0 <= p < q < out.len() implies row_before(
                    keys@,
                    #[trigger] out@[p],
                    #[trigger] out@[q],
                ) by {
                    assert(out@[p] == o0[p]);
                    if q == o0.len() {
                        assert(right@[j - 1] == x);
                    } else {
                        assert(out@[q] == o0[q]);
                    }
                }
                lemma_contains_push(o0, x);
                assert forall|q: int| 0 <= q < i implies out@.contains(#[trigger] left@[q]) by {
                    assert(o0.contains(left@[q]));
                }
                assert forall|q: int| 0 <= q < j implies out@.contains(#[trigger] right@[q]) by {
                    if q < j - 1 {
                        assert(o0.contains(right@[q]));
                    }
                }
            }
        }
    }
    assert forall|x: usize| #[trigger] out@.contains(x) <==> lo <= x < hi by {
        if lo <= x < mid {
            assert(left@.contains(x));
            let q = choose|q: int| 0 <= q < left.len() && left@[q] == x;
            assert(out@.contains(left@[q]));
        } else if mid <= x < hi {
            assert(right@.contains(x));
            let q = choose|q: int| 0 <= q < right.len() && right@[q] == x;
            assert(out@.contains(right@[q]));
        }
    }
    out
}

proof fn lemma_contains_push(s: Seq<usize>, x: usize)
    ensures
        s.push(x).contains(x),
        forall|y: usize| #[trigger] s.contains(y) ==> s.push(x).contains(y),
{
    assert(s.push(x)[s.len() as int] == x);
    assert forall|y: usize| #[trigger] s.contains(y) implies s.push(x).contains(y) by {
        let k = choose|k: int| 0 <= k < s.len() && s[k] == y;
        assert(s.push(x)[k] == y);
    }
}

fn sort_range(keys: &Vec<SortKey>, lo: usize, hi: usize) -> (r: Vec<usize>)
    requires
        lo <= hi <= keys.len(),
    ensures
        orders(keys@, r@, lo as int, hi as int),
    decreases hi - lo,
{
    if hi - lo <= 1 {
        let mut r: Vec<usize> = Vec::new();
        if hi > lo {
            r.push(lo);
            assert(r@[0] == lo);
        }
        r
    } else {
        let mid: usize = lo + (hi - lo) / 2;
        let left = sort_range(keys, lo, mid);
        let right = sort_range(keys, mid, hi);
        merge(keys, &left, &right, lo, mid, hi)
    }
}

/// The rows in order. Rows with like keys keep the order in which they stood.
pub fn sorted_rows(keys: &Vec<SortKey>) -> (r: Vec<usize>)
    ensures
        orders(keys@, r@, 0, keys@.len() as int),
{
    sort_range(keys, 0, keys.len())
}

/// There is one order only.
pub proof fn law_one_order(keys: Seq<SortKey>, a: Seq<usize>, b: Seq<usize>, n: int)
    requires
        orders(keys, a, 0, n),
        orders(keys, b, 0, n),
    ensures
        a == b,
{
    let before = |x: usize, y: usize| row_before(keys, x, y);
    assert forall|x: usize, y: usize| !(#[trigger] before(x, y) && before(y, x)) by {
        law_row_order(keys, x, y, x);
    }
    lemma_one_listing(before, a, b);
}

/// Two lists of the same rows, each in the order of one relation, are equal.
pub proof fn lemma_one_listing(
    before: spec_fn(usize, usize) -> bool,
    a: Seq<usize>,
    b: Seq<usize>,
)
    requires
        forall|x: usize, y: usize| !(#[trigger] before(x, y) && before(y, x)),
        forall|p: int, q: int| 0 <= p < q < a.len() ==> before(#[trigger] a[p], #[trigger] a[q]),
        forall|p: int, q: int| 0 <= p < q < b.len() ==> before(#[trigger] b[p], #[trigger] b[q]),
        forall|x: usize| #[trigger] a.contains(x) <==> b.contains(x),
    ensures
        a == b,
    decreases a.len(),
{
    if a.len() > 0 {
        let x = a[0];
        assert(a.contains(x));
        assert(b.contains(x));
        let y = b[0];
        assert(b.contains(y));
        assert(a.contains(y));
        if x != y {
            let p = choose|p: int| 0 <= p < b.len() && b[p] == x;
            let q = choose|q: int| 0 <= q < a.len() && a[q] == y;
            assert(before(b[0], b[p]));
            assert(before(a[0], a[q]));
        }
        let (at, bt) = (a.drop_first(), b.drop_first());
        assert forall|v: usize| #[trigger] at.contains(v) <==> bt.contains(v) by {
            if at.contains(v) {
                let k = choose|k: int| 0 <= k < at.len() && at[k] == v;
                assert(a[k + 1] == v);
                assert(a.contains(v));
                assert(b.contains(v));
                let m = choose|m: int| 0 <= m < b.len() && b[m] == v;
                assert(before(a[0], a[k + 1]));
                assert(m > 0);
                assert(bt[m - 1] == v);
            }
            if bt.contains(v) {
                let k = choose|k: int| 0 <= k < bt.len() && bt[k] == v;
                assert(b[k + 1] == v);
                assert(b.contains(v));
                assert(a.contains(v));
                let m = choose|m: int| 0 <= m < a.len() && a[m] == v;
                assert(before(b[0], b[k + 1]));
                assert(m > 0);
                assert(at[m - 1] == v);
            }
        }
        assert forall|p: int, q: int| 0 <= p < q < at.len() implies before(
            #[trigger] at[p],
            #[trigger] at[q],
        ) by {
            assert(at[p] == a[p + 1] && at[q] == a[q + 1]);
        }
        assert forall|p: int, q: int| 0 <= p < q < bt.len() implies before(
            #[trigger] bt[p],
            #[trigger] bt[q],
        ) by {
            assert(bt[p] == b[p + 1] && bt[q] == b[q + 1]);
        }
        lemma_one_listing(before, at, bt);
        assert(a =~= seq![x] + at);
        assert(b =~= seq![y] + bt);
    } else {
        if b.len() > 0 {
            assert(b.contains(b[0]));
            assert(a.contains(b[0]));
        }
        assert(a =~= b);
    }
}

/// What stands at positions, in their order.
pub open spec fn at_positions<T>(a: Seq<T>, positions: Seq<usize>) -> Seq<T> {
    Seq::new(positions.len(), |k: int| a[positions[k] as int])
}

/// What stands at the positions of all that meets a condition is, but for its
/// order, all that meets it.
pub proof fn lemma_positions_of_all<T>(
    a: Seq<T>,
    keep: spec_fn(T) -> bool,
    positions: Seq<usize>,
)
    requires
        a.len() <= usize::MAX,
        positions.no_duplicates(),
        forall|k: int|
            0 <= k < positions.len() ==> #[trigger] positions[k] < a.len() && keep(
                a[positions[k] as int],
            ),
        forall|i: int|
            0 <= i < a.len() && keep(#[trigger] a[i]) ==> positions.contains(i as usize),
    ensures
        at_positions(a, positions).to_multiset() == a.to_multiset().filter(keep),
    decreases a.len(),
{
    broadcast use vstd::multiset::group_multiset_axioms;
    broadcast use vstd::seq_lib::group_to_multiset_ensures;

    let all = at_positions(a, positions);
    if a.len() == 0 {
        if positions.len() > 0 {
            assert(positions[0] < a.len());
        }
        assert(all =~= Seq::empty());
        assert(all.to_multiset() =~= a.to_multiset().filter(keep));
    } else {
        let n = a.len() - 1;
        let d = a.drop_last();
        assert(a =~= d.push(a[n]));
        let (m, md) = (a.to_multiset(), d.to_multiset());
        assert(m =~= md.insert(a[n]));
        if keep(a[n]) {
            let p = choose|p: int| 0 <= p < positions.len() && positions[p] == n as usize;
            let rest = positions.remove(p);
            assert forall|k: int| 0 <= k < rest.len() implies #[trigger] rest[k] < d.len() && keep(
                d[rest[k] as int],
            ) by {
                let j = if k < p {
                    k
                } else {
                    k + 1
                };
                assert(rest[k] == positions[j]);
                assert(positions[j] != positions[p]);
            }
            assert forall|i: int| 0 <= i < d.len() && keep(#[trigger] d[i]) implies rest.contains(
                i as usize,
            ) by {
                assert(keep(a[i]));
                let j = choose|j: int| 0 <= j < positions.len() && positions[j] == i as usize;
                assert(j != p);
                if j < p {
                    assert(rest[j] == i as usize);
                } else {
                    assert(rest[j - 1] == i as usize);
                }
            }
            assert(rest.no_duplicates());
            lemma_positions_of_all(d, keep, rest);
            assert(all.remove(p) =~= at_positions(d, rest));
            assert(all[p] == a[n]);
            assert(all.contains(a[n]));
            assert(all.to_multiset() =~= all.remove(p).to_multiset().insert(a[n]));
            assert(m.filter(keep) =~= md.filter(keep).insert(a[n]));
        } else {
            assert forall|k: int| 0 <= k < positions.len() implies #[trigger] positions[k] < d.len()
                && keep(d[positions[k] as int]) by {
                assert(keep(a[positions[k] as int]));
            }
            assert forall|i: int| 0 <= i < d.len() && keep(
                #[trigger] d[i],
            ) implies positions.contains(i as usize) by {
                assert(keep(a[i]));
            }
            lemma_positions_of_all(d, keep, positions);
            assert(all =~= at_positions(d, positions));
            assert(m.filter(keep) =~= md.filter(keep));
        }
    }
}

/// Sequences that are the same but for their order stay so under a function.
pub proof fn lemma_mapped_alike<A, B>(x: Seq<A>, y: Seq<A>, f: spec_fn(A) -> B)
    requires
        x.to_multiset() == y.to_multiset(),
    ensures
        x.map_values(f).to_multiset() == y.map_values(f).to_multiset(),
    decreases x.len(),
{
    broadcast use vstd::multiset::group_multiset_axioms;
    broadcast use vstd::seq_lib::group_to_multiset_ensures;

    assert(x.len() == x.to_multiset().len());
    assert(y.len() == y.to_multiset().len());
    if x.len() == 0 {
        assert(x.map_values(f) =~= y.map_values(f));
    } else {
        let e = x.last();
        let n = x.len() - 1;
        assert(x[n] == e);
        assert(x.contains(e));
        assert(x.to_multiset().count(e) > 0);
        assert(y.contains(e));
        let j = choose|j: int| 0 <= j < y.len() && y[j] == e;
        let (x1, y1) = (x.remove(n), y.remove(j));
        lemma_mapped_alike(x1, y1, f);
        let (fx, fy) = (x.map_values(f), y.map_values(f));
        assert(fx.remove(n) =~= x1.map_values(f));
        assert(fy.remove(j) =~= y1.map_values(f));
        assert(fx[n] == f(e) && fy[j] == f(e));
        assert(fx.contains(f(e)) && fy.contains(f(e)));
        assert(fx.to_multiset() =~= fx.remove(n).to_multiset().insert(f(e)));
        assert(fy.to_multiset() =~= fy.remove(j).to_multiset().insert(f(e)));
    }
}

} // verus!
