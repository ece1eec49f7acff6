//! The value projector: narrowing a JSON value to a caller-chosen set of
//! top-level fields.
//!
//! An object keeps only the fields named by the mask, in the order the mask
//! names them; a field the object lacks is omitted, which is not an error.
//! An array is projected element-wise.  Any other value passes through
//! unchanged (the mask has nothing to narrow there).  A field that appears
//! twice in the mask yields one entry, at its first position: each entry of
//! the source is consumed at most once.

use vstd::prelude::*;

use crate::json::Json;
use crate::json::JsonV;
use crate::json::arr_views;
use crate::json::json_view;
use crate::json::lemma_arr_views;
use crate::json::lemma_obj_views;
use crate::json::obj_views;
use crate::text::opt_view;
use crate::text::split_char;
use crate::text::split_on;
use crate::text::views_of;

verus! {

/// The index of the first entry of `entries` whose key is `k`, or `-1` when
/// no entry has that key.
pub open spec fn find_key(entries: Seq<(Seq<char>, JsonV)>, k: Seq<char>) -> int
    decreases entries.len(),
{
    if entries.len() == 0 {
        -1
    } else if entries[0].0 == k {
        0
    } else {
        let r = find_key(entries.skip(1), k);
        if r == -1 {
            -1
        } else {
            r + 1
        }
    }
}

/// The first match decides: an index whose key matches, with no earlier
/// match, is what `find_key` returns.
proof fn lemma_find_key_at(entries: Seq<(Seq<char>, JsonV)>, k: Seq<char>, ix: int)
    requires
        0 <= ix < entries.len(),
        entries[ix].0 == k,
        forall|j: int| 0 <= j < ix ==> entries[j].0 != k,
    ensures
        find_key(entries, k) == ix,
    decreases ix,
{
    if ix > 0 {
        assert(forall|j: int|
            1 <= j < entries.len() ==> entries[j] == entries.skip(1)[j - 1]);
        lemma_find_key_at(entries.skip(1), k, ix - 1);
    }
}

proof fn lemma_find_key_none(entries: Seq<(Seq<char>, JsonV)>, k: Seq<char>)
    requires
        forall|j: int| 0 <= j < entries.len() ==> entries[j].0 != k,
    ensures
        find_key(entries, k) == -1,
    decreases entries.len(),
{
    if entries.len() > 0 {
        assert(forall|j: int|
            1 <= j < entries.len() ==> entries[j] == entries.skip(1)[j - 1]);
        lemma_find_key_none(entries.skip(1), k);
    }
}

/// The entries of the projected object: for each field, in mask order, the
/// first source entry with that key, each source entry consumed at most
/// once.
pub open spec fn project_entries(
    fields: Seq<Seq<char>>,
    entries: Seq<(Seq<char>, JsonV)>,
) -> Seq<(Seq<char>, JsonV)>
    decreases fields.len(),
{
    if fields.len() == 0 {
        Seq::empty()
    } else {
        let i = find_key(entries, fields[0]);
        if i >= 0 {
            seq![(fields[0], entries[i].1)] + project_entries(
                fields.skip(1),
                entries.remove(i),
            )
        } else {
            project_entries(fields.skip(1), entries)
        }
    }
}

/// The value of the first entry of `entries` whose key is `k`, when there
/// is one.
pub open spec fn value_of(entries: Seq<(Seq<char>, JsonV)>, k: Seq<char>) -> Option<JsonV> {
    let i = find_key(entries, k);
    if i >= 0 {
        Option::Some(entries[i].1)
    } else {
        Option::None
    }
}

/// The plain reading of the projection: each field looked up in the source
/// as it stands, in mask order, absent fields omitted.
pub open spec fn project_present(
    fields: Seq<Seq<char>>,
    entries: Seq<(Seq<char>, JsonV)>,
) -> Seq<(Seq<char>, JsonV)>
    decreases fields.len(),
{
    if fields.len() == 0 {
        Seq::empty()
    } else {
        let rest = project_present(fields.skip(1), entries);
        match value_of(entries, fields[0]) {
            Option::Some(v) => seq![(fields[0], v)] + rest,
            Option::None => rest,
        }
    }
}

proof fn lemma_find_key_bounds(entries: Seq<(Seq<char>, JsonV)>, k: Seq<char>)
    ensures
        -1 <= find_key(entries, k) < entries.len(),
        find_key(entries, k) >= 0 ==> entries[find_key(entries, k)].0 == k,
    decreases entries.len(),
{
    if entries.len() > 0 && entries[0].0 != k {
        lemma_find_key_bounds(entries.skip(1), k);
    }
}

/// Removing an entry whose key is not `g` changes neither whether `g` is
/// present nor the value of its first entry.
proof fn lemma_value_of_remove(entries: Seq<(Seq<char>, JsonV)>, g: Seq<char>, i: int)
    requires
        0 <= i < entries.len(),
        entries[i].0 != g,
    ensures
        value_of(entries.remove(i), g) == value_of(entries, g),
    decreases entries.len(),
{
    lemma_find_key_bounds(entries, g);
    lemma_find_key_bounds(entries.remove(i), g);
    if i == 0 {
        assert(entries.remove(0) =~= entries.skip(1));
    } else {
        if entries[0].0 == g {
            assert(entries.remove(i)[0] == entries[0]);
        } else {
            assert(entries.remove(i).skip(1) =~= entries.skip(1).remove(i - 1));
            lemma_value_of_remove(entries.skip(1), g, i - 1);
        }
    }
}

/// Removing an entry named by none of the fields leaves the plain reading
/// of the projection unchanged.
proof fn lemma_project_present_remove(
    fields: Seq<Seq<char>>,
    entries: Seq<(Seq<char>, JsonV)>,
    i: int,
)
    requires
        0 <= i < entries.len(),
        forall|j: int| 0 <= j < fields.len() ==> fields[j] != entries[i].0,
    ensures
        project_present(fields, entries.remove(i)) == project_present(fields, entries),
    decreases fields.len(),
{
    if fields.len() > 0 {
        assert(forall|j: int|
            0 <= j < fields.skip(1).len() ==> fields.skip(1)[j] == fields[j + 1]);
        lemma_project_present_remove(fields.skip(1), entries, i);
        lemma_value_of_remove(entries, fields[0], i);
    }
}

/// The mask law: with a duplicate-free mask, the projected object holds
/// exactly the mask's fields that occur in the source, in mask order, each
/// mapped to the value of its first source entry.
pub proof fn lemma_projection_exact(fields: Seq<Seq<char>>, entries: Seq<(Seq<char>, JsonV)>)
    requires
        fields.no_duplicates(),
    ensures
        project_entries(fields, entries) == project_present(fields, entries),
    decreases fields.len(),
{
    if fields.len() > 0 {
        let f = fields[0];
        let i = find_key(entries, f);
        lemma_find_key_bounds(entries, f);
        assert(forall|j: int|
            0 <= j < fields.skip(1).len() ==> fields.skip(1)[j] == fields[j + 1]);
        assert(fields.skip(1).no_duplicates());
        if i >= 0 {
            lemma_projection_exact(fields.skip(1), entries.remove(i));
            assert(forall|j: int| 0 <= j < fields.skip(1).len() ==> fields.skip(1)[j] != f);
            lemma_project_present_remove(fields.skip(1), entries, i);
        } else {
            lemma_projection_exact(fields.skip(1), entries);
        }
    }
}

/// Projection of a single value: an object is narrowed to the masked
/// fields; anything else passes through unchanged.
pub open spec fn project_obj(v: JsonV, fields: Seq<Seq<char>>) -> JsonV {
    match v {
        JsonV::Obj(entries) => JsonV::Obj(project_entries(fields, entries)),
        _ => v,
    }
}

/// Element-wise projection of an array's items.
pub open spec fn project_items(items: Seq<JsonV>, fields: Seq<Seq<char>>) -> Seq<JsonV> {
    items.map_values(|e: JsonV| project_obj(e, fields))
}

/// Projection of a value under a mask: arrays element-wise, objects
/// narrowed, scalars unchanged.
pub open spec fn project_value(v: JsonV, fields: Seq<Seq<char>>) -> JsonV {
    match v {
        JsonV::Arr(items) => JsonV::Arr(project_items(items, fields)),
        JsonV::Obj(_) => project_obj(v, fields),
        _ => v,
    }
}

/// Projection under an optional comma-separated mask: no mask leaves the
/// value untouched.
pub open spec fn mask_apply(v: JsonV, mask: Option<Seq<char>>) -> JsonV {
    match mask {
        Option::Some(m) => project_value(v, split_on(m, ',')),
        Option::None => v,
    }
}

/// Finds the first entry whose key equals `key`.
fn find_entry(entries: &Vec<(String, Json)>, key: &String) -> (r: Option<usize>)
    ensures
        match r {
            Option::Some(ix) => ix < entries@.len() && find_key(
                obj_views(*entries, 0),
                key@,
            ) == ix,
            Option::None => find_key(obj_views(*entries, 0), key@) == -1,
        },
{
    proof {
        lemma_obj_views(*entries, 0);
    }
    let n = entries.len();
    let mut j: usize = 0;
    while j < n
        invariant
            j <= n,
            n == entries@.len(),
            obj_views(*entries, 0).len() == n,
            forall|t: int| 0 <= t < n ==> obj_views(*entries, 0)[t] == (
                entries@[t].0@,
                json_view(entries@[t].1),
            ),
            forall|t: int| 0 <= t < j ==> obj_views(*entries, 0)[t].0 != key@,
        decreases n - j,
    {
        if entries[j].0 == *key {
            proof {
                lemma_find_key_at(obj_views(*entries, 0), key@, j as int);
            }
            return Some(j);
        }
        j += 1;
    }
    proof {
        lemma_find_key_none(obj_views(*entries, 0), key@);
    }
    None
}

/// Narrows an object to the named fields, in field order; any other value
/// is returned unchanged.
pub fn filter_object(val: Json, fields: &Vec<String>) -> (r: Json)
    ensures
        r@ == project_obj(val@, views_of(fields@)),
{
    match val {
        Json::Obj(mut entries) => {
            let ghost fv = views_of(fields@);
            let ghost ov0 = obj_views(entries, 0);
            let mut out: Vec<(String, Json)> = Vec::new();
            proof {
                lemma_obj_views(out, 0);
                assert(fv.skip(0) =~= fv);
                assert(obj_views(out, 0) + project_entries(fv, ov0) =~= project_entries(
                    fv,
                    ov0,
                ));
            }
            let n = fields.len();
            let mut i: usize = 0;
            while i < n
                invariant
                    i <= n,
                    n == fields@.len(),
                    fv == views_of(fields@),
                    fv.len() == n,
                    project_entries(fv, ov0) == obj_views(out, 0) + project_entries(
                        fv.skip(i as int),
                        obj_views(entries, 0),
                    ),
                decreases n - i,
            {
                let ghost cur = obj_views(entries, 0);
                let ghost out_v = obj_views(out, 0);
                proof {
                    assert(fv.skip(i as int)[0] == fv[i as int]);
                    assert(fv[i as int] == fields@[i as int]@);
                    assert(fv.skip(i as int).skip(1) =~= fv.skip(i + 1));
                }
                let field = &fields[i];
                match find_entry(&entries, field) {
                    Some(ix) => {
                        proof {
                            lemma_obj_views(entries, 0);
                            lemma_obj_views(out, 0);
                            assert(project_entries(fv.skip(i as int), cur) == seq![
                                (fv[i as int], cur[ix as int].1),
                            ] + project_entries(fv.skip(i + 1), cur.remove(ix as int)));
                        }
                        let ghost old_entries = entries@;
                        let pair = entries.remove(ix);
                        out.push((field.clone(), pair.1));
                        proof {
                            lemma_obj_views(entries, 0);
                            lemma_obj_views(out, 0);
                            assert(obj_views(entries, 0) =~~= cur.remove(ix as int));
                            assert(obj_views(out, 0) =~~= out_v.push(
                                (field@, json_view(pair.1)),
                            ));
                            assert(out_v + (seq![(fv[i as int], cur[ix as int].1)]
                                + project_entries(fv.skip(i + 1), cur.remove(ix as int)))
                                =~~= obj_views(out, 0) + project_entries(
                                fv.skip(i + 1),
                                obj_views(entries, 0),
                            ));
                        }
                    },
                    None => {
                        proof {
                            assert(project_entries(fv.skip(i as int), cur)
                                == project_entries(fv.skip(i + 1), cur));
                        }
                    },
                }
                i += 1;
            }
            proof {
                assert(fv.skip(n as int) =~= Seq::<Seq<char>>::empty());
                assert(obj_views(out, 0) + project_entries(
                    fv.skip(n as int),
                    obj_views(entries, 0),
                ) =~= obj_views(out, 0));
            }
            Json::Obj(out)
        },
        _ => val,
    }
}

/// Applies the mask to a parsed value: arrays element-wise, objects
/// narrowed, scalars passed through unchanged.
pub fn filter_value(val: Json, fields_string: &str) -> (r: Json)
    ensures
        r@ == project_value(val@, split_on(fields_string@, ',')),
{
    let fields = split_char(fields_string, ',');
    let ghost fvs = split_on(fields_string@, ',');
    match val {
        Json::Arr(mut items) => {
            let ghost av0 = arr_views(items, 0);
            proof {
                lemma_arr_views(items, 0);
            }
            let mut out: Vec<Json> = Vec::new();
            while items.len() > 0
                invariant
                    fvs == views_of(fields@),
                    out@.len() + items@.len() == av0.len(),
                    forall|k: int| 0 <= k < out@.len() ==> json_view(out@[k])
                        == project_obj(av0[k], fvs),
                    forall|k: int| 0 <= k < items@.len() ==> json_view(items@[k])
                        == av0[out@.len() + k],
                decreases items@.len(),
            {
                let ghost old_items = items@;
                let e = items.remove(0);
                let p = filter_object(e, &fields);
                out.push(p);
                proof {
                    assert(forall|k: int| 0 <= k < items@.len() ==> items@[k]
                        == old_items[k + 1]);
                }
            }
            proof {
                lemma_arr_views(out, 0);
                assert(arr_views(out, 0) =~~= project_items(av0, fvs));
            }
            Json::Arr(out)
        },
        Json::Obj(entries) => filter_object(Json::Obj(entries), &fields),
        _ => val,
    }
}

/// Applies an optional comma-separated mask to a value.
pub fn apply_mask(val: Json, mask: &Option<String>) -> (r: Json)
    ensures
        r@ == mask_apply(val@, opt_view(*mask)),
{
    match mask {
        Some(m) => filter_value(val, m.as_str()),
        None => val,
    }
}

} // verus!
