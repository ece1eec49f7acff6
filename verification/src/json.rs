//! A JSON value as a tagged union, with its mathematical model.
//!
//! A number is kept as its literal text, so a stored value round-trips
//! exactly and the crate never computes on floating point.  Object entries
//! keep their order; nothing here assumes keys are unique.

use vstd::prelude::*;

verus! {

/// The mathematical model of a JSON value.
pub enum JsonV {
    Null,
    Bool(bool),
    Num(Seq<char>),
    Str(Seq<char>),
    Arr(Seq<JsonV>),
    Obj(Seq<(Seq<char>, JsonV)>),
}

/// A JSON value: null, a boolean, a number (as its literal text), a string,
/// an array, or an object given as an ordered list of key-value entries.
#[derive(Debug, PartialEq)]
pub enum Json {
    Null,
    Bool(bool),
    Num(String),
    Str(String),
    Arr(Vec<Json>),
    Obj(Vec<(String, Json)>),
}

/// The model of `j`.
pub open spec fn json_view(j: Json) -> JsonV
    decreases j,
{
    match j {
        Json::Null => JsonV::Null,
        Json::Bool(b) => JsonV::Bool(b),
        Json::Num(s) => JsonV::Num(s@),
        Json::Str(s) => JsonV::Str(s@),
        Json::Arr(items) => JsonV::Arr(arr_views(items, 0)),
        Json::Obj(entries) => JsonV::Obj(obj_views(entries, 0)),
    }
}

/// The models of the elements of `v` from index `i` on.
pub open spec fn arr_views(v: Vec<Json>, i: int) -> Seq<JsonV>
    decreases v, v@.len() - i,
{
    if i < 0 || i >= v@.len() {
        Seq::empty()
    } else {
        seq![json_view(v[i])] + arr_views(v, i + 1)
    }
}

/// The models of the entries of `v` from index `i` on.
pub open spec fn obj_views(v: Vec<(String, Json)>, i: int) -> Seq<(Seq<char>, JsonV)>
    decreases v, v@.len() - i,
{
    if i < 0 || i >= v@.len() {
        Seq::empty()
    } else {
        seq![(v[i].0@, json_view(v[i].1))] + obj_views(v, i + 1)
    }
}

impl View for Json {
    type V = JsonV;

    open spec fn view(&self) -> JsonV {
        json_view(*self)
    }
}

/// `arr_views(v, i)` is the element-wise model of the tail of `v`.
pub proof fn lemma_arr_views(v: Vec<Json>, i: int)
    requires
        0 <= i <= v@.len(),
    ensures
        arr_views(v, i).len() == v@.len() - i,
        forall|k: int| 0 <= k < v@.len() - i ==> arr_views(v, i)[k] == json_view(v@[k + i]),
    decreases v@.len() - i,
{
    if i < v@.len() {
        lemma_arr_views(v, i + 1);
        assert forall|k: int| 0 <= k < v@.len() - i implies arr_views(v, i)[k] == json_view(
            v@[k + i],
        ) by {
            if k > 0 {
                assert(arr_views(v, i)[k] == arr_views(v, i + 1)[k - 1]);
            }
        }
    }
}

/// `obj_views(v, i)` is the entry-wise model of the tail of `v`.
pub proof fn lemma_obj_views(v: Vec<(String, Json)>, i: int)
    requires
        0 <= i <= v@.len(),
    ensures
        obj_views(v, i).len() == v@.len() - i,
        forall|k: int| 0 <= k < v@.len() - i ==> obj_views(v, i)[k] == (
            v@[k + i].0@,
            json_view(v@[k + i].1),
        ),
    decreases v@.len() - i,
{
    if i < v@.len() {
        lemma_obj_views(v, i + 1);
        assert forall|k: int| 0 <= k < v@.len() - i implies obj_views(v, i)[k] == (
            v@[k + i].0@,
            json_view(v@[k + i].1),
        ) by {
            if k > 0 {
                assert(obj_views(v, i)[k] == obj_views(v, i + 1)[k - 1]);
            }
        }
    }
}

} // verus!
