//! JSON documents: the values that game tables, edits and templates are made of.

use vstd::prelude::*;
use crate::digits::{dec_i64, dec_int, dec_text};
use crate::text::same;

verus! {

broadcast use vstd::seq_lib::group_seq_properties;

/// A JSON document. Integers are kept as they are; any other number is kept as
/// the text that prints it, `0.5` for one half. The members of an object stand
/// in the order in which they are walked.
#[derive(Debug)]
pub enum Json {
    Null,
    Bool(bool),
    Uint(u64),
    Int(i64),
    Float(String),
    Str(String),
    Arr(Vec<Json>),
    Obj(Vec<(String, Json)>),
}

/// What a document says.
pub enum Tree {
    Null,
    Bool(bool),
    Int(int),
    Float(Seq<char>),
    Str(Seq<char>),
    Arr(Seq<Tree>),
    Obj(Seq<(Seq<char>, Tree)>),
}

impl View for Json {
    type V = Tree;

    open spec fn view(&self) -> Tree {
        self.tree()
    }
}

impl Json {
    /// What the document says.
    pub open spec fn tree(&self) -> Tree
        decreases self,
    {
        match self {
            Json::Null => Tree::Null,
            Json::Bool(b) => Tree::Bool(*b),
            Json::Uint(n) => Tree::Int(*n as int),
            Json::Int(n) => Tree::Int(*n as int),
            Json::Float(t) => Tree::Float(t@),
            Json::Str(t) => Tree::Str(t@),
            Json::Arr(v) => Tree::Arr(
                Seq::new(
                    v.len() as nat,
                    |i: int|
                        if 0 <= i < v.len() {
                            v[i].tree()
                        } else {
                            Tree::Null
                        },
                ),
            ),
            Json::Obj(v) => Tree::Obj(
                Seq::new(
                    v.len() as nat,
                    |i: int|
                        if 0 <= i < v.len() {
                            (v[i].0@, v[i].1.tree())
                        } else {
                            (Seq::empty(), Tree::Null)
                        },
                ),
            ),
        }
    }
}

/// The documents that a list holds.
pub open spec fn trees(v: Seq<Json>) -> Seq<Tree> {
    v.map_values(|j: Json| j@)
}

/// The members of an object as they stand.
pub open spec fn members(v: Seq<(String, Json)>) -> Seq<(Seq<char>, Tree)> {
    v.map_values(|p: (String, Json)| (p.0@, p.1@))
}

/// A zero that is no integer.
pub open spec fn is_float_zero(t: Seq<char>) -> bool {
    t == seq!['0', '.', '0'] || t == seq!['-', '0', '.', '0']
}

/// Two documents are equal. The order of the members of an object does not
/// matter, and both float zeros are the same number.
pub open spec fn equal_trees(a: Tree, b: Tree) -> bool
    decreases a,
{
    match (a, b) {
        (Tree::Float(x), Tree::Float(y)) => x == y || (is_float_zero(x) && is_float_zero(y)),
        (Tree::Arr(x), Tree::Arr(y)) => x.len() == y.len() && forall|i: int|
            0 <= i < x.len() ==> equal_trees(#[trigger] x[i], y[i]),
        (Tree::Obj(x), Tree::Obj(y)) => x.len() == y.len() && forall|i: int|
            0 <= i < x.len() ==> (member_of(y, (#[trigger] x[i]).0) matches Some(v) && equal_trees(
                x[i].1,
                v,
            )),
        _ => a == b,
    }
}

/// The value of the first member called `name`.
pub open spec fn member_of(e: Seq<(Seq<char>, Tree)>, name: Seq<char>) -> Option<Tree>
    decreases e.len(),
{
    if e.len() == 0 {
        None
    } else if e[0].0 == name {
        Some(e[0].1)
    } else {
        member_of(e.drop_first(), name)
    }
}

/// The value of the member of an object called `name`; a document of another
/// kind has none.
pub open spec fn tree_get(t: Tree, name: Seq<char>) -> Option<Tree> {
    match t {
        Tree::Obj(e) => member_of(e, name),
        _ => None,
    }
}

/// The number, where the document is an integer that `u64` holds.
pub open spec fn tree_u64(t: Tree) -> Option<int> {
    match t {
        Tree::Int(n) => if 0 <= n <= u64::MAX {
            Some(n)
        } else {
            None
        },
        _ => None,
    }
}

/// The number, where the document is an integer that `i64` holds.
pub open spec fn tree_i64(t: Tree) -> Option<int> {
    match t {
        Tree::Int(n) => if i64::MIN <= n <= i64::MAX {
            Some(n)
        } else {
            None
        },
        _ => None,
    }
}

/// The text of a number.
pub open spec fn number_text(t: Tree) -> Seq<char> {
    match t {
        Tree::Int(n) => dec_int(n),
        Tree::Float(s) => s,
        _ => Seq::empty(),
    }
}

pub proof fn lemma_arr_view(v: Vec<Json>)
    ensures
        Json::Arr(v)@ == Tree::Arr(trees(v@)),
{
    assert(Json::Arr(v)@->Arr_0 =~= trees(v@));
}

pub proof fn lemma_obj_view(v: Vec<(String, Json)>)
    ensures
        Json::Obj(v)@ == Tree::Obj(members(v@)),
{
    assert(Json::Obj(v)@->Obj_0 =~= members(v@));
}

proof fn lemma_member_skip(e: Seq<(Seq<char>, Tree)>, i: int, name: Seq<char>)
    requires
        0 <= i < e.len(),
        forall|j: int| 0 <= j < i ==> (#[trigger] e[j]).0 != name,
        e[i].0 == name,
    ensures
        member_of(e, name) == Some(e[i].1),
    decreases i,
{
    if i > 0 {
        lemma_member_skip(e.drop_first(), i - 1, name);
    }
}

proof fn lemma_member_none(e: Seq<(Seq<char>, Tree)>, name: Seq<char>)
    requires
        forall|j: int| 0 <= j < e.len() ==> (#[trigger] e[j]).0 != name,
    ensures
        member_of(e, name) is None,
    decreases e.len(),
{
    if e.len() > 0 {
        assert forall|j: int| 0 <= j < e.drop_first().len() implies (
        #[trigger] e.drop_first()[j]).0 != name by {
            assert(e.drop_first()[j] == e[j + 1]);
        }
        lemma_member_none(e.drop_first(), name);
    }
}

impl Json {
    /// A copy of the document.
    pub fn copy(&self) -> (r: Json)
        ensures
            r@ == self@,
        decreases self,
    {
        match self {
            Json::Null => Json::Null,
            Json::Bool(b) => Json::Bool(*b),
            Json::Uint(n) => Json::Uint(*n),
            Json::Int(n) => Json::Int(*n),
            Json::Float(t) => Json::Float(t.clone()),
            Json::Str(t) => Json::Str(t.clone()),
            Json::Arr(v) => {
                let mut out: Vec<Json> = Vec::new();
                let mut i: usize = 0;
                while i < v.len()
                    invariant
                        0 <= i <= v.len(),
                        *self == Json::Arr(*v),
                        trees(out@) == trees(v@).take(i as int),
                    decreases v.len() - i,
                {
                    assert(self->Arr_0 == *v);
                    assert(decreases_to!(*v => v[i as int]));
                    let c = v[i].copy();
                    let ghost o0 = out@;
                    out.push(c);
                    i = i + 1;
                    assert(trees(out@) =~= trees(o0).push(c@));
                    assert(trees(out@) =~= trees(v@).take(i as int));
                }
                proof {
                    lemma_arr_view(*v);
                    lemma_arr_view(out);
                    assert(trees(out@) =~= trees(v@));
                }
                Json::Arr(out)
            },
            Json::Obj(v) => {
                let mut out: Vec<(String, Json)> = Vec::new();
                let mut i: usize = 0;
                while i < v.len()
                    invariant
                        0 <= i <= v.len(),
                        *self == Json::Obj(*v),
                        members(out@) == members(v@).take(i as int),
                    decreases v.len() - i,
                {
                    assert(self->Obj_0 == *v);
                    assert(decreases_to!(*v => v[i as int]));
                    let c = v[i].1.copy();
                    let k = v[i].0.clone();
                    let ghost o0 = out@;
                    let ghost p = (k@, c@);
                    out.push((k, c));
                    i = i + 1;
                    assert(members(out@) =~= members(o0).push(p));
                    assert(members(out@) =~= members(v@).take(i as int));
                }
                proof {
                    lemma_obj_view(*v);
                    lemma_obj_view(out);
                    assert(members(out@) =~= members(v@));
                }
                Json::Obj(out)
            },
        }
    }

    /// The member called `name`, where the document is an object that has one.
    pub fn get(&self, name: &str) -> (r: Option<&Json>)
        ensures
            match r {
                Some(j) => tree_get(self@, name@) == Some(j@),
                None => tree_get(self@, name@) is None,
            },
    {
        match self {
            Json::Obj(v) => {
                proof {
                    lemma_obj_view(*v);
                }
                let mut i: usize = 0;
                while i < v.len()
                    invariant
                        0 <= i <= v.len(),
                        self@ == Tree::Obj(members(v@)),
                        forall|j: int| 0 <= j < i ==> (#[trigger] members(v@)[j]).0 != name@,
                    decreases v.len() - i,
                {
                    if same(v[i].0.as_str(), name) {
                        proof {
                            lemma_member_skip(members(v@), i as int, name@);
                        }
                        return Some(&v[i].1);
                    }
                    i = i + 1;
                }
                proof {
                    lemma_member_none(members(v@), name@);
                }
                None
            },
            _ => None,
        }
    }

    /// The number, where the document is an integer that `u64` holds.
    pub fn as_u64(&self) -> (r: Option<u64>)
        ensures
            match r {
                Some(n) => tree_u64(self@) == Some(n as int),
                None => tree_u64(self@) is None,
            },
    {
        match self {
            Json::Uint(n) => Some(*n),
            Json::Int(n) => if *n >= 0 {
                Some(*n as u64)
            } else {
                None
            },
            _ => None,
        }
    }

    /// The number, where the document is an integer that `i64` holds.
    pub fn as_i64(&self) -> (r: Option<i64>)
        ensures
            match r {
                Some(n) => tree_i64(self@) == Some(n as int),
                None => tree_i64(self@) is None,
            },
    {
        match self {
            Json::Uint(n) => if *n <= i64::MAX as u64 {
                Some(*n as i64)
            } else {
                None
            },
            Json::Int(n) => Some(*n),
            _ => None,
        }
    }

    /// Whether two documents are equal.
    pub fn equals(&self, other: &Json) -> (r: bool)
        ensures
            r == equal_trees(self@, other@),
        decreases self,
    {
        match (self, other) {
            (Json::Null, Json::Null) => true,
            (Json::Bool(a), Json::Bool(b)) => *a == *b,
            (Json::Uint(a), Json::Uint(b)) => *a == *b,
            (Json::Int(a), Json::Int(b)) => *a == *b,
            (Json::Uint(a), Json::Int(b)) => *b >= 0 && *a == *b as u64,
            (Json::Int(a), Json::Uint(b)) => *a >= 0 && *a as u64 == *b,
            (Json::Float(a), Json::Float(b)) => same(a.as_str(), b.as_str()) || (float_zero(
                a.as_str(),
            ) && float_zero(b.as_str())),
            (Json::Str(a), Json::Str(b)) => same(a.as_str(), b.as_str()),
            (Json::Arr(a), Json::Arr(b)) => {
                proof {
                    lemma_arr_view(*a);
                    lemma_arr_view(*b);
                }
                if a.len() != b.len() {
                    return false;
                }
                let mut i: usize = 0;
                while i < a.len()
                    invariant
                        0 <= i <= a.len(),
                        a.len() == b.len(),
                        *self == Json::Arr(*a),
                        self@ == Tree::Arr(trees(a@)),
                        other@ == Tree::Arr(trees(b@)),
                        forall|j: int|
                            0 <= j < i ==> equal_trees(#[trigger] trees(a@)[j], trees(b@)[j]),
                    decreases a.len() - i,
                {
                    if !a[i].equals(&b[i]) {
                        assert(!equal_trees(trees(a@)[i as int], trees(b@)[i as int]));
                        return false;
                    }
                    i = i + 1;
                }
                true
            },
            (Json::Obj(a), Json::Obj(b)) => {
                proof {
                    lemma_obj_view(*a);
                    lemma_obj_view(*b);
                }
                if a.len() != b.len() {
                    return false;
                }
                let mut i: usize = 0;
                while i < a.len()
                    invariant
                        0 <= i <= a.len(),
                        a.len() == b.len(),
                        *self == Json::Obj(*a),
                        self@ == Tree::Obj(members(a@)),
                        other@ == Tree::Obj(members(b@)),
                        forall|j: int|
                            0 <= j < i ==> (member_of(
                                members(b@),
                                (#[trigger] members(a@)[j]).0,
                            ) matches Some(v) && equal_trees(members(a@)[j].1, v)),
                    decreases a.len() - i,
                {
                    let same_value = match other.get(a[i].0.as_str()) {
                        Some(v) => a[i].1.equals(v),
                        None => false,
                    };
                    if !same_value {
                        let ghost m = members(a@)[i as int];
                        assert(!(member_of(members(b@), m.0) matches Some(v) && equal_trees(
                            m.1,
                            v,
                        )));
                        return false;
                    }
                    i = i + 1;
                }
                true
            },
            _ => false,
        }
    }

    /// The text of a number; empty for a document that is none.
    pub fn number(&self) -> (r: String)
        ensures
            r@ == number_text(self@),
    {
        match self {
            Json::Uint(n) => dec_text(*n),
            Json::Int(n) => dec_i64(*n),
            Json::Float(t) => t.clone(),
            _ => String::new(),
        }
    }
}

fn float_zero(t: &str) -> (r: bool)
    ensures
        r == is_float_zero(t@),
{
    proof {
        reveal_strlit("0.0");
        reveal_strlit("-0.0");
        assert("0.0"@ =~= seq!['0', '.', '0']);
        assert("-0.0"@ =~= seq!['-', '0', '.', '0']);
    }
    same(t, "0.0") || same(t, "-0.0")
}

/// No object in the document has two members of one name.
pub open spec fn names_once(t: Tree) -> bool
    decreases t,
{
    match t {
        Tree::Arr(v) => forall|i: int| 0 <= i < v.len() ==> names_once(#[trigger] v[i]),
        Tree::Obj(e) => {
            &&& forall|i: int| 0 <= i < e.len() ==> names_once((#[trigger] e[i]).1)
            &&& forall|i: int, j: int|
                0 <= i < j < e.len() ==> (#[trigger] e[i]).0 != (#[trigger] e[j]).0
        },
        _ => true,
    }
}

/// What the members of an object are like whose names stand once.
pub proof fn lemma_names_once(t: Tree)
    requires
        names_once(t),
        t is Obj,
    ensures
        forall|i: int| 0 <= i < t->Obj_0.len() ==> names_once((#[trigger] t->Obj_0[i]).1),
        forall|i: int, j: int|
            0 <= i < j < t->Obj_0.len() ==> (#[trigger] t->Obj_0[i]).0 != (#[trigger] t->Obj_0[j]).0,
{
    match t {
        Tree::Obj(e) => {
            assert(e == t->Obj_0);
        },
        _ => {},
    }
}

/// The value of a member is found by its name, where no other has it.
pub proof fn lemma_member_by_name(e: Seq<(Seq<char>, Tree)>, i: int)
    requires
        0 <= i < e.len(),
        forall|i: int, j: int| 0 <= i < j < e.len() ==> (#[trigger] e[i]).0 != (#[trigger] e[j]).0,
    ensures
        member_of(e, e[i].0) == Some(e[i].1),
    decreases e.len(),
{
    if i > 0 {
        let d = e.drop_first();
        assert forall|k: int, j: int| 0 <= k < j < d.len() implies (#[trigger] d[k]).0 != (
        #[trigger] d[j]).0 by {
            assert(d[k] == e[k + 1]);
            assert(d[j] == e[j + 1]);
        }
        assert(e[0].0 != e[i].0);
        lemma_member_by_name(d, i - 1);
    }
}

/// Every document equals itself.
pub proof fn law_equal_trees_reflexive(a: Tree)
    requires
        names_once(a),
    ensures
        equal_trees(a, a),
    decreases a,
{
    match a {
        Tree::Arr(x) => {
            assert forall|i: int| 0 <= i < x.len() implies equal_trees(#[trigger] x[i], x[i]) by {
                law_equal_trees_reflexive(x[i]);
            }
        },
        Tree::Obj(x) => {
            assert forall|i: int| 0 <= i < x.len() implies (member_of(
                x,
                (#[trigger] x[i]).0,
            ) matches Some(v) && equal_trees(x[i].1, v)) by {
                lemma_member_by_name(x, i);
                law_equal_trees_reflexive(x[i].1);
            }
        },
        _ => {},
    }
}

} // verus!
