//! Paths into a document: `name`, `name.member`, `name[3].member`.

use vstd::prelude::*;
use crate::digits::{parse_unsigned, parsed};
use crate::json::{
    lemma_arr_view, lemma_obj_view, member_of, members, tree_get, trees, Json, Tree,
};
use crate::text::{chars_of, lemma_split_nonempty, same, split, split_on, text_between, views};

verus! {

broadcast use vstd::seq_lib::group_seq_properties;

/// One step of a path.
#[derive(Debug)]
pub enum Step {
    /// To the member of an object.
    Member(String),
    /// To the element of an array.
    Element(usize),
}

/// What a step says.
pub enum Hop {
    Member(Seq<char>),
    Element(int),
}

impl View for Step {
    type V = Hop;

    open spec fn view(&self) -> Hop {
        match self {
            Step::Member(n) => Hop::Member(n@),
            Step::Element(i) => Hop::Element(*i as int),
        }
    }
}

/// What steps say.
pub open spec fn hops(v: Seq<Step>) -> Seq<Hop> {
    v.map_values(|s: Step| s@)
}

/// The position in `3]`.
pub open spec fn element_of(piece: Seq<char>) -> Option<nat> {
    if piece.len() > 0 && piece.last() == ']' {
        parsed(piece.drop_last(), 10, usize::MAX as nat)
    } else {
        None
    }
}

/// The steps to the elements that the first `n` pieces behind the name write.
pub open spec fn element_hops(pieces: Seq<Seq<char>>, n: nat) -> Option<Seq<Hop>>
    decreases n,
{
    if n == 0 {
        Some(Seq::empty())
    } else {
        match (element_hops(pieces, (n - 1) as nat), element_of(pieces[n as int])) {
            (Some(h), Some(i)) => Some(h.push(Hop::Element(i as int))),
            _ => None,
        }
    }
}

/// The steps of one part of a path between dots: a member, and elements of it.
pub open spec fn part_hops(part: Seq<char>) -> Option<Seq<Hop>> {
    let pieces = split_on(part, '[');
    match element_hops(pieces, (pieces.len() - 1) as nat) {
        Some(h) => if pieces[0].len() == 0 && pieces.len() > 1 {
            Some(h)
        } else {
            Some(seq![Hop::Member(pieces[0])] + h)
        },
        None => None,
    }
}

/// The steps of the first `n` parts of a path.
pub open spec fn parts_hops(parts: Seq<Seq<char>>, n: nat) -> Option<Seq<Hop>>
    decreases n,
{
    if n == 0 {
        Some(Seq::empty())
    } else {
        match (parts_hops(parts, (n - 1) as nat), part_hops(parts[n - 1])) {
            (Some(h), Some(p)) => Some(h + p),
            _ => None,
        }
    }
}

/// The steps of a path; `None` where it is written wrongly.
pub open spec fn path_hops(path: Seq<char>) -> Option<Seq<Hop>> {
    let parts = split_on(path, '.');
    parts_hops(parts, parts.len())
}

/// What stands at the end of the steps.
pub open spec fn tree_at(t: Tree, h: Seq<Hop>) -> Option<Tree>
    decreases h.len(),
{
    if h.len() == 0 {
        Some(t)
    } else {
        match h[0] {
            Hop::Member(n) => match tree_get(t, n) {
                Some(c) => tree_at(c, h.drop_first()),
                None => None,
            },
            Hop::Element(i) => match t {
                Tree::Arr(v) => if 0 <= i < v.len() {
                    tree_at(v[i], h.drop_first())
                } else {
                    None
                },
                _ => None,
            },
        }
    }
}

/// The position of the first member called `name`.
pub open spec fn member_index(e: Seq<(Seq<char>, Tree)>, name: Seq<char>) -> Option<int>
    decreases e.len(),
{
    if e.len() == 0 {
        None
    } else if e[0].0 == name {
        Some(0)
    } else {
        match member_index(e.drop_first(), name) {
            Some(i) => Some(i + 1),
            None => None,
        }
    }
}

/// The document with `v` at the end of the steps. A last step to a member that
/// the object lacks adds it; any other step that leads nowhere leaves no document.
pub open spec fn tree_with(t: Tree, h: Seq<Hop>, v: Tree) -> Option<Tree>
    decreases h.len(),
{
    if h.len() == 0 {
        Some(v)
    } else {
        match (h[0], t) {
            (Hop::Member(n), Tree::Obj(e)) => match member_index(e, n) {
                Some(i) => match tree_with(e[i].1, h.drop_first(), v) {
                    Some(c) => Some(Tree::Obj(e.update(i, (n, c)))),
                    None => None,
                },
                None => if h.len() == 1 {
                    Some(Tree::Obj(e.push((n, v))))
                } else {
                    None
                },
            },
            (Hop::Element(i), Tree::Arr(a)) => if 0 <= i < a.len() {
                match tree_with(a[i], h.drop_first(), v) {
                    Some(c) => Some(Tree::Arr(a.update(i, c))),
                    None => None,
                }
            } else {
                None
            },
            _ => None,
        }
    }
}

/// What stands at a path.
pub open spec fn value_at(t: Tree, path: Seq<char>) -> Option<Tree> {
    match path_hops(path) {
        Some(h) => tree_at(t, h),
        None => None,
    }
}

/// The document with `v` at a path.
pub open spec fn value_with(t: Tree, path: Seq<char>, v: Tree) -> Option<Tree> {
    match path_hops(path) {
        Some(h) => tree_with(t, h, v),
        None => None,
    }
}

pub proof fn lemma_member_index(e: Seq<(Seq<char>, Tree)>, name: Seq<char>)
    ensures
        match member_index(e, name) {
            Some(i) => 0 <= i < e.len() && e[i].0 == name && member_of(e, name) == Some(e[i].1)
                && forall|j: int| 0 <= j < i ==> (#[trigger] e[j]).0 != name,
            None => member_of(e, name) is None && forall|j: int|
                0 <= j < e.len() ==> (#[trigger] e[j]).0 != name,
        },
    decreases e.len(),
{
    if e.len() > 0 && e[0].0 != name {
        lemma_member_index(e.drop_first(), name);
        let w = e.drop_first();
        match member_index(w, name) {
            Some(i) => {
                assert forall|j: int| 0 <= j < i + 1 implies (#[trigger] e[j]).0 != name by {
                    if j > 0 {
                        assert(w[j - 1] == e[j]);
                    }
                }
            },
            None => {
                assert forall|j: int| 0 <= j < e.len() implies (#[trigger] e[j]).0 != name by {
                    if j > 0 {
                        assert(w[j - 1] == e[j]);
                    }
                }
            },
        }
    }
}

proof fn lemma_member_index_is(e: Seq<(Seq<char>, Tree)>, name: Seq<char>, i: int)
    requires
        0 <= i < e.len(),
        e[i].0 == name,
        forall|j: int| 0 <= j < i ==> (#[trigger] e[j]).0 != name,
    ensures
        member_index(e, name) == Some(i),
{
    lemma_member_index(e, name);
}

/// A value that is set at a path is what stands there.
pub proof fn law_set_get(t: Tree, h: Seq<Hop>, v: Tree)
    requires
        tree_with(t, h, v) is Some,
    ensures
        tree_at(tree_with(t, h, v)->Some_0, h) == Some(v),
    decreases h.len(),
{
    if h.len() > 0 {
        let r = tree_with(t, h, v)->Some_0;
        match (h[0], t) {
            (Hop::Member(n), Tree::Obj(e)) => {
                lemma_member_index(e, n);
                match member_index(e, n) {
                    Some(i) => {
                        law_set_get(e[i].1, h.drop_first(), v);
                        let e2 = r->Obj_0;
                        assert forall|j: int| 0 <= j < i implies (#[trigger] e2[j]).0 != n by {
                            assert(e2[j] == e[j]);
                        }
                        lemma_member_index_is(e2, n, i);
                        lemma_member_index(e2, n);
                        assert(tree_get(r, n) == tree_with(e[i].1, h.drop_first(), v));
                    },
                    None => {
                        let e2 = r->Obj_0;
                        assert forall|j: int| 0 <= j < e.len() implies (#[trigger] e2[j]).0
                            != n by {
                            assert(e2[j] == e[j]);
                        }
                        lemma_member_index_is(e2, n, e.len() as int);
                        lemma_member_index(e2, n);
                        assert(h.drop_first() =~= Seq::empty());
                        assert(tree_at(v, h.drop_first()) == Some(v));
                        assert(tree_get(r, n) == Some(v));
                    },
                }
            },
            (Hop::Element(i), Tree::Arr(a)) => {
                law_set_get(a[i], h.drop_first(), v);
                assert(r->Arr_0[i] == tree_with(a[i], h.drop_first(), v)->Some_0);
            },
            _ => {},
        }
    }
}

/// Setting a path to a new value and back to the old one leaves the document as it was.
pub proof fn law_set_back(t: Tree, h: Seq<Hop>, v: Tree)
    requires
        tree_at(t, h) is Some,
        tree_with(t, h, v) is Some,
    ensures
        tree_with(tree_with(t, h, v)->Some_0, h, tree_at(t, h)->Some_0) == Some(t),
    decreases h.len(),
{
    if h.len() > 0 {
        let r = tree_with(t, h, v)->Some_0;
        match (h[0], t) {
            (Hop::Member(n), Tree::Obj(e)) => {
                lemma_member_index(e, n);
                let i = member_index(e, n)->Some_0;
                law_set_back(e[i].1, h.drop_first(), v);
                let e2 = r->Obj_0;
                assert forall|j: int| 0 <= j < i implies (#[trigger] e2[j]).0 != n by {
                    assert(e2[j] == e[j]);
                }
                lemma_member_index_is(e2, n, i);
                assert(e2.update(i, (n, e[i].1)) =~= e);
            },
            (Hop::Element(i), Tree::Arr(a)) => {
                law_set_back(a[i], h.drop_first(), v);
                assert(a.update(i, r->Arr_0[i]).update(i, a[i]) =~= a);
            },
            _ => {},
        }
    }
}

/// A path that leads to a value can be set.
pub proof fn law_existing_path_can_be_set(t: Tree, h: Seq<Hop>, v: Tree)
    requires
        tree_at(t, h) is Some,
    ensures
        tree_with(t, h, v) is Some,
    decreases h.len(),
{
    if h.len() > 0 {
        match (h[0], t) {
            (Hop::Member(n), Tree::Obj(e)) => {
                lemma_member_index(e, n);
                let i = member_index(e, n)->Some_0;
                law_existing_path_can_be_set(e[i].1, h.drop_first(), v);
            },
            (Hop::Element(i), Tree::Arr(a)) => {
                law_existing_path_can_be_set(a[i], h.drop_first(), v);
            },
            _ => {},
        }
    }
}

fn element_in(piece: &str) -> (r: Option<usize>)
    ensures
        match r {
            Some(i) => element_of(piece@) == Some(i as nat),
            None => element_of(piece@) is None,
        },
{
    let v = chars_of(piece);
    if v.len() == 0 || v[v.len() - 1] != ']' {
        return None;
    }
    let inner = text_between(&v, 0, v.len() - 1);
    assert(inner@ =~= piece@.drop_last());
    match parse_unsigned(inner.as_str(), 10, usize::MAX as u64) {
        Some(n) => Some(n as usize),
        None => None,
    }
}

fn steps_of_part(part: &str) -> (r: Option<Vec<Step>>)
    ensures
        match r {
            Some(s) => part_hops(part@) == Some(hops(s@)),
            None => part_hops(part@) is None,
        },
{
    let pieces = split(part, '[');
    proof {
        lemma_split_nonempty(part@, '[');
    }
    let ghost p = split_on(part@, '[');
    assert(pieces.len() == p.len());
    let mut out: Vec<Step> = Vec::new();
    let ghost mut lead: Seq<Hop> = Seq::empty();
    assert(pieces@[0]@ == p[0]);
    if !(pieces[0].as_str().is_empty() && pieces.len() > 1) {
        out.push(Step::Member(pieces[0].clone()));
        proof {
            lead = seq![Hop::Member(p[0])];
        }
    }
    assert(hops(out@) =~= lead + Seq::<Hop>::empty());
    let mut i: usize = 1;
    while i < pieces.len()
        invariant
            1 <= i <= pieces.len(),
            pieces.len() == p.len(),
            p == views(pieces@),
            p == split_on(part@, '['),
            element_hops(p, (i - 1) as nat) is Some,
            hops(out@) == lead + element_hops(p, (i - 1) as nat)->Some_0,
        decreases pieces.len() - i,
    {
        assert(pieces@[i as int]@ == p[i as int]);
        match element_in(pieces[i].as_str()) {
            Some(k) => {
                let ghost o0 = out@;
                out.push(Step::Element(k));
                assert(hops(out@) =~= hops(o0).push(Hop::Element(k as int)));
                assert(hops(out@) =~= lead + element_hops(p, i as nat)->Some_0);
            },
            None => {
                proof {
                    lemma_element_hops_none(p, i as nat, (p.len() - 1) as nat);
                }
                return None;
            },
        }
        i = i + 1;
    }
    assert(lead + element_hops(p, (p.len() - 1) as nat)->Some_0 == hops(out@));
    assert(lead.len() == 0 ==> lead + element_hops(p, (p.len() - 1) as nat)->Some_0
        =~= element_hops(p, (p.len() - 1) as nat)->Some_0);
    Some(out)
}

proof fn lemma_element_hops_none(p: Seq<Seq<char>>, i: nat, n: nat)
    requires
        1 <= i <= n,
        element_of(p[i as int]) is None,
    ensures
        element_hops(p, n) is None,
    decreases n,
{
    if i < n {
        lemma_element_hops_none(p, i, (n - 1) as nat);
    }
}

proof fn lemma_parts_hops_none(p: Seq<Seq<char>>, i: nat, n: nat)
    requires
        1 <= i <= n,
        part_hops(p[i - 1]) is None,
    ensures
        parts_hops(p, n) is None,
    decreases n,
{
    if i < n {
        lemma_parts_hops_none(p, i, (n - 1) as nat);
    }
}

/// The steps of a path.
pub fn parse_path(path: &str) -> (r: Option<Vec<Step>>)
    ensures
        match r {
            Some(s) => path_hops(path@) == Some(hops(s@)),
            None => path_hops(path@) is None,
        },
{
    let parts = split(path, '.');
    let ghost p = split_on(path@, '.');
    let mut out: Vec<Step> = Vec::new();
    assert(hops(out@) =~= Seq::empty());
    let mut i: usize = 0;
    while i < parts.len()
        invariant
            0 <= i <= parts.len(),
            p == views(parts@),
            p == split_on(path@, '.'),
            parts_hops(p, i as nat) == Some(hops(out@)),
        decreases parts.len() - i,
    {
        assert(parts@[i as int]@ == p[i as int]);
        match steps_of_part(parts[i].as_str()) {
            Some(steps) => {
                let ghost o0 = out@;
                let ghost s0 = steps@;
                let mut more = steps;
                out.append(&mut more);
                assert(hops(out@) =~= hops(o0) + hops(s0));
            },
            None => {
                proof {
                    lemma_parts_hops_none(p, (i + 1) as nat, p.len());
                }
                return None;
            },
        }
        i = i + 1;
    }
    Some(out)
}

fn at_steps<'a>(t: &'a Json, steps: &Vec<Step>, from: usize) -> (r: Option<&'a Json>)
    requires
        from <= steps.len(),
    ensures
        match r {
            Some(j) => tree_at(t@, hops(steps@).skip(from as int)) == Some(j@),
            None => tree_at(t@, hops(steps@).skip(from as int)) is None,
        },
    decreases steps.len() - from,
{
    let ghost h = hops(steps@).skip(from as int);
    if from == steps.len() {
        return Some(t);
    }
    assert(h[0] == steps@[from as int]@);
    assert(h.drop_first() =~= hops(steps@).skip(from + 1));
    match &steps[from] {
        Step::Member(n) => match t.get(n.as_str()) {
            Some(c) => at_steps(c, steps, from + 1),
            None => None,
        },
        Step::Element(i) => match t {
            Json::Arr(v) => {
                proof {
                    lemma_arr_view(*v);
                }
                if *i < v.len() {
                    at_steps(&v[*i], steps, from + 1)
                } else {
                    None
                }
            },
            _ => None,
        },
    }
}

/// What stands at a path.
pub fn get_at_path<'a>(t: &'a Json, path: &str) -> (r: Option<&'a Json>)
    ensures
        match r {
            Some(j) => value_at(t@, path@) == Some(j@),
            None => value_at(t@, path@) is None,
        },
{
    match parse_path(path) {
        Some(steps) => {
            assert(hops(steps@).skip(0) =~= hops(steps@));
            at_steps(t, &steps, 0)
        },
        None => None,
    }
}

fn find_member(v: &Vec<(String, Json)>, name: &str) -> (r: Option<usize>)
    ensures
        match r {
            Some(i) => member_index(members(v@), name@) == Some(i as int) && i < v.len(),
            None => member_index(members(v@), name@) is None,
        },
{
    let ghost e = members(v@);
    let mut i: usize = 0;
    while i < v.len()
        invariant
            0 <= i <= v.len(),
            e == members(v@),
            forall|j: int| 0 <= j < i ==> (#[trigger] e[j]).0 != name@,
        decreases v.len() - i,
    {
        if same(v[i].0.as_str(), name) {
            proof {
                assert(e[i as int].0 == name@);
                lemma_member_index_is(e, name@, i as int);
            }
            return Some(i);
        }
        assert(e[i as int].0 != name@);
        i = i + 1;
    }
    proof {
        lemma_member_index(e, name@);
    }
    None
}

fn with_steps(t: &Json, steps: &Vec<Step>, from: usize, v: &Json) -> (r: Option<Json>)
    requires
        from <= steps.len(),
    ensures
        match r {
            Some(j) => tree_with(t@, hops(steps@).skip(from as int), v@) == Some(j@),
            None => tree_with(t@, hops(steps@).skip(from as int), v@) is None,
        },
    decreases steps.len() - from,
{
    let ghost h = hops(steps@).skip(from as int);
    if from == steps.len() {
        return Some(v.copy());
    }
    assert(h[0] == steps@[from as int]@);
    assert(h.drop_first() =~= hops(steps@).skip(from + 1));
    match (&steps[from], t) {
        (Step::Member(n), Json::Obj(e)) => {
            proof {
                lemma_obj_view(*e);
            }
            match find_member(e, n.as_str()) {
                Some(i) => match with_steps(&e[i].1, steps, from + 1, v) {
                    Some(c) => {
                        let ghost ct = c@;
                        let mut out = copy_members(e);
                        let ghost m0 = members(out@);
                        out[i] = (n.clone(), c);
                        proof {
                            lemma_obj_view(out);
                            assert(members(out@) =~= members(e@).update(i as int, (n@, ct)));
                        }
                        Some(Json::Obj(out))
                    },
                    None => None,
                },
                None => {
                    if from + 1 == steps.len() {
                        let mut out = copy_members(e);
                        let ghost o0 = out@;
                        let c = v.copy();
                        let ghost ct = c@;
                        out.push((n.clone(), c));
                        proof {
                            lemma_obj_view(out);
                            assert(members(out@) =~= members(e@).push((n@, ct)));
                        }
                        Some(Json::Obj(out))
                    } else {
                        None
                    }
                },
            }
        },
        (Step::Element(i), Json::Arr(a)) => {
            proof {
                lemma_arr_view(*a);
            }
            if *i < a.len() {
                match with_steps(&a[*i], steps, from + 1, v) {
                    Some(c) => {
                        let ghost ct = c@;
                        let mut out = copy_elements(a);
                        out[*i] = c;
                        proof {
                            lemma_arr_view(out);
                            assert(trees(out@) =~= trees(a@).update(*i as int, ct));
                        }
                        Some(Json::Arr(out))
                    },
                    None => None,
                }
            } else {
                None
            }
        },
        _ => None,
    }
}

/// A copy of the members of an object.
pub fn copy_members(v: &Vec<(String, Json)>) -> (out: Vec<(String, Json)>)
    ensures
        members(out@) == members(v@),
{
    let mut out: Vec<(String, Json)> = Vec::new();
    let mut i: usize = 0;
    while i < v.len()
        invariant
            0 <= i <= v.len(),
            members(out@) == members(v@).take(i as int),
        decreases v.len() - i,
    {
        let c = v[i].1.copy();
        let k = v[i].0.clone();
        let ghost o0 = out@;
        let ghost p = (k@, c@);
        out.push((k, c));
        i = i + 1;
        assert(members(out@) =~= members(o0).push(p));
        assert(members(out@) =~= members(v@).take(i as int));
    }
    assert(members(v@).take(v.len() as int) =~= members(v@));
    out
}

/// A copy of a list of documents.
pub fn copy_elements(v: &Vec<Json>) -> (out: Vec<Json>)
    ensures
        trees(out@) == trees(v@),
{
    let mut out: Vec<Json> = Vec::new();
    let mut i: usize = 0;
    while i < v.len()
        invariant
            0 <= i <= v.len(),
            trees(out@) == trees(v@).take(i as int),
        decreases v.len() - i,
    {
        let c = v[i].copy();
        let ghost o0 = out@;
        out.push(c);
        i = i + 1;
        assert(trees(out@) =~= trees(o0).push(c@));
        assert(trees(out@) =~= trees(v@).take(i as int));
    }
    assert(trees(v@).take(v.len() as int) =~= trees(v@));
    out
}

/// Sets a path of a document. Says whether that could be done; if not, the
/// document is as it was.
pub fn set_at_path(t: &mut Json, path: &str, v: &Json) -> (r: bool)
    ensures
        r == (value_with(old(t)@, path@, v@) is Some),
        r ==> value_with(old(t)@, path@, v@) == Some(final(t)@),
        !r ==> *final(t) == *old(t),
{
    match parse_path(path) {
        Some(steps) => {
            assert(hops(steps@).skip(0) =~= hops(steps@));
            match with_steps(t, &steps, 0, v) {
                Some(n) => {
                    *t = n;
                    true
                },
                None => false,
            }
        },
        None => false,
    }
}

} // verus!
