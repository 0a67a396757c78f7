//! Laws of documents: when two are equal, and what stands within one.

use vstd::prelude::*;
use crate::json::{
    equal_trees, member_of, names_once, number_text, tree_get, tree_i64, tree_u64, Json, Tree,
};
use crate::ui::field_panel::{is_changed, values_differ_recursive};

verus! {

broadcast use vstd::seq_lib::group_seq_properties;

/// A document with nothing within it that is no float: null, a truth value, an
/// integer or a text.
pub open spec fn is_plain(t: Tree) -> bool {
    t is Null || t is Bool || t is Int || t is Str
}

/// Plain documents are equal exactly where they are the same; a float equals
/// floats alone, those with its text and, where it is zero, the other zero.
pub proof fn law_equality_of_scalars(a: Tree, b: Tree)
    ensures
        is_plain(a) || is_plain(b) ==> equal_trees(a, b) == (a == b),
        a is Float && equal_trees(a, b) ==> b is Float && (a == b || ((a->Float_0
            == "0.0"@ || a->Float_0 == "-0.0"@) && (b->Float_0 == "0.0"@ || b->Float_0
            == "-0.0"@))),
        a is Float && a == b ==> equal_trees(a, b),
{
    reveal_strlit("0.0");
    reveal_strlit("-0.0");
    assert("0.0"@ =~= seq!['0', '.', '0']);
    assert("-0.0"@ =~= seq!['-', '0', '.', '0']);
}

/// Lists are equal exactly where they have as many elements, and the elements at
/// each position are equal.
pub proof fn law_equality_of_lists(x: Seq<Tree>, b: Tree)
    ensures
        equal_trees(Tree::Arr(x), b) ==> b is Arr && b->Arr_0.len() == x.len() && forall|i: int|
            0 <= i < x.len() ==> equal_trees(#[trigger] x[i], b->Arr_0[i]),
        b is Arr && b->Arr_0.len() == x.len() && (forall|i: int|
            0 <= i < x.len() ==> equal_trees(#[trigger] x[i], b->Arr_0[i])) ==> equal_trees(
            Tree::Arr(x),
            b,
        ),
{
}

/// Groups are equal exactly where they have as many members, and what the one has
/// under a name equals what the other has under it.
pub proof fn law_equality_of_groups(x: Seq<(Seq<char>, Tree)>, b: Tree)
    ensures
        equal_trees(Tree::Obj(x), b) ==> b is Obj && b->Obj_0.len() == x.len() && forall|i: int|
            0 <= i < x.len() ==> (tree_get(b, (#[trigger] x[i]).0) matches Some(v) && equal_trees(
                x[i].1,
                v,
            )),
        b is Obj && b->Obj_0.len() == x.len() && (forall|i: int|
            0 <= i < x.len() ==> (tree_get(b, (#[trigger] x[i]).0) matches Some(v) && equal_trees(
                x[i].1,
                v,
            ))) ==> equal_trees(Tree::Obj(x), b),
{
}

/// What the first member with a name holds is what the group has under it, and
/// nothing is under a name that no member has.
pub proof fn law_member_under_a_name(e: Seq<(Seq<char>, Tree)>, name: Seq<char>, i: int)
    ensures
        0 <= i < e.len() && e[i].0 == name && (forall|j: int|
            0 <= j < i ==> (#[trigger] e[j]).0 != name) ==> tree_get(Tree::Obj(e), name) == Some(
            e[i].1,
        ),
        (forall|j: int| 0 <= j < e.len() ==> (#[trigger] e[j]).0 != name) ==> tree_get(
            Tree::Obj(e),
            name,
        ) is None,
        tree_get(Tree::Obj(e), name) is Some ==> exists|j: int|
            0 <= j < e.len() && (#[trigger] e[j]).0 == name && tree_get(Tree::Obj(e), name) == Some(
                e[j].1,
            ),
    decreases e.len(),
{
    if e.len() > 0 {
        let d = e.drop_first();
        law_member_under_a_name(d, name, i - 1);
        if e[0].0 != name {
            if 0 <= i < e.len() && e[i].0 == name && (forall|j: int|
                0 <= j < i ==> (#[trigger] e[j]).0 != name) {
                assert(d[i - 1] == e[i]);
                assert forall|j: int| 0 <= j < i - 1 implies (#[trigger] d[j]).0 != name by {
                    assert(d[j] == e[j + 1]);
                }
            }
            if forall|j: int| 0 <= j < e.len() ==> (#[trigger] e[j]).0 != name {
                assert forall|j: int| 0 <= j < d.len() implies (#[trigger] d[j]).0 != name by {
                    assert(d[j] == e[j + 1]);
                }
            }
            if member_of(e, name) is Some {
                let j = choose|j: int|
                    0 <= j < d.len() && (#[trigger] d[j]).0 == name && tree_get(
                        Tree::Obj(d),
                        name,
                    ) == Some(d[j].1);
                assert(e[j + 1] == d[j]);
            }
        } else {
            assert(e[0].0 == name);
        }
    }
}

/// What stands within a document at the end of steps, each to an element or to
/// the value of a member by its position.
pub open spec fn part_at(t: Tree, steps: Seq<int>) -> Option<Tree>
    decreases steps.len(),
{
    if steps.len() == 0 {
        Some(t)
    } else {
        match t {
            Tree::Arr(v) => if 0 <= steps[0] < v.len() {
                part_at(v[steps[0]], steps.drop_first())
            } else {
                None
            },
            Tree::Obj(e) => if 0 <= steps[0] < e.len() {
                part_at(e[steps[0]].1, steps.drop_first())
            } else {
                None
            },
            _ => None,
        }
    }
}

/// What stands within a document at the end of names, each that of a member.
pub open spec fn value_under(t: Tree, names: Seq<Seq<char>>) -> Option<Tree>
    decreases names.len(),
{
    if names.len() == 0 {
        Some(t)
    } else {
        match tree_get(t, names[0]) {
            Some(v) => value_under(v, names.drop_first()),
            None => None,
        }
    }
}

/// Equal documents have the same plain values under the same names, however deep.
pub proof fn law_equal_documents_read_alike(a: Tree, b: Tree, names: Seq<Seq<char>>)
    requires
        equal_trees(a, b),
        value_under(a, names) matches Some(x) && is_plain(x),
    ensures
        value_under(b, names) == value_under(a, names),
    decreases names.len(),
{
    law_equality_of_scalars(a, b);
    if names.len() > 0 {
        let e = a->Obj_0;
        let name = names[0];
        law_member_under_a_name(e, name, 0);
        let j = choose|j: int|
            0 <= j < e.len() && (#[trigger] e[j]).0 == name && tree_get(Tree::Obj(e), name) == Some(
                e[j].1,
            );
        assert(equal_trees(Tree::Obj(e), b));
        law_equality_of_groups(e, b);
        let v = tree_get(b, e[j].0)->Some_0;
        law_equal_documents_read_alike(e[j].1, v, names.drop_first());
    }
}

/// A field that has another plain value than the shipped one, at its top or under
/// some names, is marked as changed.
pub proof fn law_other_value_is_marked(
    now: &Json,
    shipped: &Json,
    names: Seq<Seq<char>>,
    marked: bool,
    different: bool,
)
    requires
        value_under(now@, names) matches Some(x) && is_plain(x),
        value_under(now@, names) != value_under(shipped@, names),
        call_ensures(is_changed, (now, Some(shipped)), marked),
        call_ensures(values_differ_recursive, (now, shipped), different),
    ensures
        marked,
        different,
{
    if equal_trees(now@, shipped@) {
        law_equal_documents_read_alike(now@, shipped@, names);
    }
}

/// A text, an integer, a truth value or null is marked as changed exactly where
/// it is another one than the shipped one.
pub proof fn law_scalar_is_marked_where_it_is_another(
    now: &Json,
    shipped: &Json,
    marked: bool,
    equal: bool,
)
    requires
        is_plain(now@) || is_plain(shipped@),
        call_ensures(is_changed, (now, Some(shipped)), marked),
        call_ensures(Json::equals, (now, shipped), equal),
    ensures
        marked == (now@ != shipped@),
        equal == (now@ == shipped@),
{
    law_equality_of_scalars(now@, shipped@);
}

/// A field as it was shipped is not marked, nor is one that was not shipped.
pub proof fn law_shipped_value_is_not_marked(
    now: &Json,
    shipped: &Json,
    marked: bool,
    unknown: bool,
)
    requires
        names_once(now@),
        now@ == shipped@,
        call_ensures(is_changed, (now, Some(shipped)), marked),
        call_ensures(is_changed, (now, None), unknown),
    ensures
        !marked,
        !unknown,
{
    crate::json::law_equal_trees_reflexive(now@);
}

/// A list is marked as changed exactly where it has more or fewer elements than
/// the shipped one or some element is another; a value of another kind always.
pub proof fn law_list_is_marked_by_its_elements(now: &Json, shipped: &Json, marked: bool)
    requires
        now@ is Arr,
        call_ensures(is_changed, (now, Some(shipped)), marked),
    ensures
        !(shipped@ is Arr) ==> marked,
        shipped@ is Arr ==> marked == (now@->Arr_0.len() != shipped@->Arr_0.len() || exists|i: int|
            0 <= i < now@->Arr_0.len() && !equal_trees(
                #[trigger] now@->Arr_0[i],
                shipped@->Arr_0[i],
            )),
{
    law_equality_of_lists(now@->Arr_0, shipped@);
}

/// A group is marked as changed exactly where it has more or fewer members than
/// the shipped one or some member has no equal one of its name there.
pub proof fn law_group_is_marked_by_its_members(now: &Json, shipped: &Json, marked: bool)
    requires
        now@ is Obj,
        call_ensures(is_changed, (now, Some(shipped)), marked),
    ensures
        !(shipped@ is Obj) ==> marked,
        shipped@ is Obj ==> marked == (now@->Obj_0.len() != shipped@->Obj_0.len() || exists|i: int|
            0 <= i < now@->Obj_0.len() && match tree_get(shipped@, (#[trigger] now@->Obj_0[i]).0) {
                Some(v) => !equal_trees(now@->Obj_0[i].1, v),
                None => true,
            }),
{
    law_equality_of_groups(now@->Obj_0, shipped@);
}

/// The number of an integer is read exactly where the type holds it, and no other
/// document has one.
pub proof fn law_numbers_are_read(t: Tree, n: int)
    ensures
        t == Tree::Int(n) && 0 <= n <= u64::MAX ==> tree_u64(t) == Some(n),
        t == Tree::Int(n) && i64::MIN <= n <= i64::MAX ==> tree_i64(t) == Some(n),
        tree_u64(t) == Some(n) ==> t == Tree::Int(n) && 0 <= n <= u64::MAX,
        tree_i64(t) == Some(n) ==> t == Tree::Int(n) && i64::MIN <= n <= i64::MAX,
        t is Float ==> number_text(t) == t->Float_0,
{
}

} // verus!
