//! Documents as JSON text, printed by `serde_json`.

use vstd::prelude::*;
use crate::json::{lemma_arr_view, lemma_obj_view, members, trees, Json, Tree};

verus! {

broadcast use vstd::seq_lib::group_seq_properties;

/// What a `serde_json::Value` holds. An object is a map: its members have no
/// order of their own. A number that is no integer is the text that prints it.
pub enum Form {
    Null,
    Bool(bool),
    Int(int),
    Float(Seq<char>),
    Str(Seq<char>),
    Arr(Seq<Form>),
    Obj(Map<Seq<char>, Form>),
}

/// A JSON value of `serde_json`.
#[verifier::external_type_specification]
#[verifier::external_body]
pub struct ExValue(serde_json::Value);

/// What a `serde_json::Value` holds.
pub uninterp spec fn value_form(v: serde_json::Value) -> Form;

/// What `serde_json::from_str` reads out of a text; `None` where the text is no JSON.
pub uninterp spec fn read_form(text: Seq<char>) -> Option<Form>;

/// What `serde_json::to_string` prints for a value.
pub uninterp spec fn compact_text(f: Form) -> Seq<char>;

/// What `serde_json::to_string_pretty` prints for a value.
pub uninterp spec fn pretty_text(f: Form) -> Seq<char>;

/// What a list of values holds.
pub open spec fn forms(v: Seq<serde_json::Value>) -> Seq<Form> {
    v.map_values(|x: serde_json::Value| value_form(x))
}

/// What a list of named values holds once each is put into a map in turn.
pub open spec fn collected(v: Seq<(String, serde_json::Value)>) -> Map<Seq<char>, Form>
    decreases v.len(),
{
    if v.len() == 0 {
        Map::empty()
    } else {
        collected(v.drop_last()).insert(v.last().0@, value_form(v.last().1))
    }
}

/// `Value::Null` is the null value.
#[verifier::external_body]
fn value_null() -> (r: serde_json::Value)
    ensures
        value_form(r) == Form::Null,
{
    serde_json::Value::Null
}

/// `Value::Bool` holds its truth value.
#[verifier::external_body]
fn value_bool(b: bool) -> (r: serde_json::Value)
    ensures
        value_form(r) == Form::Bool(b),
{
    serde_json::Value::Bool(b)
}

/// `Value::from` on a `u64` holds that integer.
#[verifier::external_body]
fn value_u64(n: u64) -> (r: serde_json::Value)
    ensures
        value_form(r) == Form::Int(n as int),
{
    serde_json::Value::from(n)
}

/// `Value::from` on an `i64` holds that integer.
#[verifier::external_body]
fn value_i64(n: i64) -> (r: serde_json::Value)
    ensures
        value_form(r) == Form::Int(n as int),
{
    serde_json::Value::from(n)
}

/// `serde_json::from_str` reads a text as a function of the text alone; a text
/// that is no JSON is an error, here `None`.
#[verifier::external_body]
fn value_read(text: &str) -> (r: Option<serde_json::Value>)
    ensures
        match r {
            Some(v) => read_form(text@) == Some(value_form(v)),
            None => read_form(text@) is None,
        },
{
    serde_json::from_str(text).ok()
}

/// `Value::String` holds its text.
#[verifier::external_body]
fn value_string(s: String) -> (r: serde_json::Value)
    ensures
        value_form(r) == Form::Str(s@),
{
    serde_json::Value::String(s)
}

/// `Value::Array` holds its elements in order.
#[verifier::external_body]
fn value_array(v: Vec<serde_json::Value>) -> (r: serde_json::Value)
    ensures
        value_form(r) == Form::Arr(forms(v@)),
{
    serde_json::Value::Array(v)
}

/// `Map::from_iter` puts the members in one by one, so that of two members with
/// one name the later stays; `Value::Object` holds that map.
#[verifier::external_body]
fn value_object(v: Vec<(String, serde_json::Value)>) -> (r: serde_json::Value)
    ensures
        value_form(r) == Form::Obj(collected(v@)),
{
    serde_json::Value::Object(v.into_iter().collect())
}

/// `serde_json::to_string` prints a value as a function of what it holds. A
/// `Value` has text for every name and no number that JSON lacks, so printing
/// one does not fail.
#[verifier::external_body]
fn value_compact(v: &serde_json::Value) -> (r: Result<String, serde_json::Error>)
    ensures
        r is Ok,
        r->Ok_0@ == compact_text(value_form(*v)),
{
    serde_json::to_string(v)
}

/// `serde_json::to_string_pretty` prints a value over several lines as a function
/// of what it holds; printing a `Value` does not fail.
#[verifier::external_body]
fn value_pretty(v: &serde_json::Value) -> (r: Result<String, serde_json::Error>)
    ensures
        r is Ok,
        r->Ok_0@ == pretty_text(value_form(*v)),
{
    serde_json::to_string_pretty(v)
}

/// An error of `serde_json`.
#[verifier::external_type_specification]
#[verifier::external_body]
pub struct ExJsonError(serde_json::Error);

/// What a number's text is as a value: the number that the text writes, or the
/// text itself where it writes none.
pub open spec fn float_form(t: Seq<char>) -> Form {
    match read_form(t) {
        Some(f) => f,
        None => Form::Str(t),
    }
}

/// The members put into a map one by one.
pub open spec fn member_forms(e: Seq<(Seq<char>, Tree)>) -> Map<Seq<char>, Form>
    decreases e,
{
    if e.len() == 0 {
        Map::empty()
    } else {
        member_forms(e.drop_last()).insert(e.last().0, form(e.last().1))
    }
}

/// What a document holds once it is a `serde_json::Value`.
pub open spec fn form(t: Tree) -> Form
    decreases t,
{
    match t {
        Tree::Null => Form::Null,
        Tree::Bool(b) => Form::Bool(b),
        Tree::Int(n) => Form::Int(n),
        Tree::Float(s) => float_form(s),
        Tree::Str(s) => Form::Str(s),
        Tree::Arr(v) => Form::Arr(
            Seq::new(
                v.len(),
                |i: int|
                    if 0 <= i < v.len() {
                        form(v[i])
                    } else {
                        Form::Null
                    },
            ),
        ),
        Tree::Obj(e) => Form::Obj(member_forms(e)),
    }
}

fn to_value(j: &Json) -> (r: serde_json::Value)
    ensures
        value_form(r) == form(j@),
    decreases j,
{
    match j {
        Json::Null => value_null(),
        Json::Bool(b) => value_bool(*b),
        Json::Uint(n) => value_u64(*n),
        Json::Int(n) => value_i64(*n),
        Json::Float(t) => match value_read(t.as_str()) {
            Some(v) => v,
            None => value_string(t.clone()),
        },
        Json::Str(t) => value_string(t.clone()),
        Json::Arr(v) => {
            let mut out: Vec<serde_json::Value> = Vec::new();
            let mut i: usize = 0;
            while i < v.len()
                invariant
                    0 <= i <= v.len(),
                    *j == Json::Arr(*v),
                    forms(out@) == Seq::new(i as nat, |k: int| form(trees(v@)[k])),
                decreases v.len() - i,
            {
                assert(j->Arr_0 == *v);
                assert(decreases_to!(*v => v[i as int]));
                let x = to_value(&v[i]);
                let ghost o0 = out@;
                out.push(x);
                i = i + 1;
                assert(forms(out@) =~= forms(o0).push(value_form(x)));
                assert(forms(out@) =~= Seq::new(i as nat, |k: int| form(trees(v@)[k])));
            }
            proof {
                lemma_arr_view(*v);
                assert(form(j@)->Arr_0 =~= forms(out@));
            }
            value_array(out)
        },
        Json::Obj(v) => {
            let mut out: Vec<(String, serde_json::Value)> = Vec::new();
            let mut i: usize = 0;
            assert(members(v@).take(0) =~= Seq::empty());
            while i < v.len()
                invariant
                    0 <= i <= v.len(),
                    *j == Json::Obj(*v),
                    collected(out@) == member_forms(members(v@).take(i as int)),
                decreases v.len() - i,
            {
                assert(j->Obj_0 == *v);
                assert(decreases_to!(*v => v[i as int]));
                let x = to_value(&v[i].1);
                let k = v[i].0.clone();
                let ghost o0 = out@;
                out.push((k, x));
                assert(out@.drop_last() =~= o0);
                assert(members(v@).take(i + 1).drop_last() =~= members(v@).take(i as int));
                i = i + 1;
            }
            proof {
                lemma_obj_view(*v);
                assert(members(v@).take(v.len() as int) =~= members(v@));
            }
            value_object(out)
        },
    }
}

/// The document as JSON text on one line.
pub fn to_compact(j: &Json) -> (r: String)
    ensures
        r@ == compact_text(form(j@)),
{
    let v = to_value(j);
    match value_compact(&v) {
        Ok(s) => s,
        Err(_) => String::new(),
    }
}

/// The document as indented JSON text.
pub fn to_pretty(j: &Json) -> (r: String)
    ensures
        r@ == pretty_text(form(j@)),
{
    let v = to_value(j);
    match value_pretty(&v) {
        Ok(s) => s,
        Err(_) => String::new(),
    }
}

} // verus!
