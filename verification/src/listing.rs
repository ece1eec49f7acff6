//! The listing pipeline: prefix scoping, ordering reversal, pagination via
//! skip and limit, namespace stripping, and the per-key entry of a
//! values-included listing.
//!
//! The store defines the base order of the keys; this module only reverses,
//! windows, and relabels.  A `limit` of 0 (or an absent one) means
//! unbounded, and `skip` is applied before `limit`.

use vstd::prelude::*;

use crate::json::Json;
use crate::json::JsonV;
use crate::json::lemma_obj_views;
use crate::json::obj_views;
use crate::project::apply_mask;
use crate::project::mask_apply;
use crate::text::opt_view;
use crate::text::strip_prefix;
use crate::text::strip_prefix_spec;
use crate::text::views_of;

verus! {

/// The options of a listing request, as they arrive on the wire; every
/// field is optional.
pub struct IndexQuery {
    pub prefix: Option<String>,
    pub limit: Option<usize>,
    pub skip: Option<usize>,
    pub reverse: Option<bool>,
    pub values: Option<bool>,
    pub mask: Option<String>,
}

impl IndexQuery {
    /// How many leading keys are skipped; absent means none.
    pub open spec fn skip_n(&self) -> nat {
        match self.skip {
            Option::Some(s) => s as nat,
            Option::None => 0,
        }
    }

    /// The page size; 0 or absent means unbounded.
    pub open spec fn limit_n(&self) -> nat {
        match self.limit {
            Option::Some(l) => l as nat,
            Option::None => 0,
        }
    }

    /// Whether the order is reversed; absent means no.
    pub open spec fn reverse_b(&self) -> bool {
        match self.reverse {
            Option::Some(b) => b,
            Option::None => false,
        }
    }

    /// Whether values are fetched along with the keys; absent means no.
    pub open spec fn values_b(&self) -> bool {
        match self.values {
            Option::Some(b) => b,
            Option::None => false,
        }
    }

    pub fn effective_skip(&self) -> (r: usize)
        ensures
            r as nat == self.skip_n(),
    {
        match self.skip {
            Some(s) => s,
            None => 0,
        }
    }

    pub fn effective_limit(&self) -> (r: usize)
        ensures
            r as nat == self.limit_n(),
    {
        match self.limit {
            Some(l) => l,
            None => 0,
        }
    }

    pub fn is_reverse(&self) -> (r: bool)
        ensures
            r == self.reverse_b(),
    {
        match self.reverse {
            Some(b) => b,
            None => false,
        }
    }

    pub fn wants_values(&self) -> (r: bool)
        ensures
            r == self.values_b(),
    {
        match self.values {
            Some(b) => b,
            None => false,
        }
    }
}

/// The prefix a listing scans: the caller's namespace key, extended by the
/// query's prefix when one is given.
pub open spec fn scan_prefix_spec(id_key: Seq<char>, prefix: Option<Seq<char>>) -> Seq<char> {
    match prefix {
        Option::Some(p) => id_key + p,
        Option::None => id_key,
    }
}

/// Computes the full scan prefix of a listing request.
pub fn scan_prefix(id_key: &str, prefix: &Option<String>) -> (r: String)
    ensures
        r@ == scan_prefix_spec(id_key@, opt_view(*prefix)),
{
    match prefix {
        Some(p) => {
            let mut s = id_key.to_owned();
            s.append(p.as_str());
            s
        },
        None => id_key.to_owned(),
    }
}

/// The window of `keys` a query sees: reversed when asked, then the first
/// `skip` entries dropped, then at most `limit` entries kept (0 meaning
/// unbounded) — skip before limit.
pub open spec fn select_spec<T>(keys: Seq<T>, rev: bool, skip: nat, limit: nat) -> Seq<T> {
    let ordered = if rev {
        keys.reverse()
    } else {
        keys
    };
    let skipped = if skip <= ordered.len() {
        ordered.skip(skip as int)
    } else {
        Seq::empty()
    };
    if limit == 0 || limit >= skipped.len() {
        skipped
    } else {
        skipped.take(limit as int)
    }
}

fn reverse_strings(keys: Vec<String>) -> (r: Vec<String>)
    ensures
        r@ == keys@.reverse(),
{
    let n = keys.len();
    let mut out: Vec<String> = Vec::new();
    let mut i: usize = 0;
    while i < n
        invariant
            i <= n,
            n == keys@.len(),
            out@.len() == i,
            forall|k: int| 0 <= k < i ==> out@[k] == keys@[n - 1 - k],
        decreases n - i,
    {
        out.push(keys[n - 1 - i].clone());
        i += 1;
    }
    proof {
        assert(out@ =~= keys@.reverse());
    }
    out
}

/// Applies ordering reversal, skip, and limit to the listed keys.
pub fn select_keys(keys: Vec<String>, reverse: bool, skip: usize, limit: usize) -> (r: Vec<
    String,
>)
    ensures
        r@ == select_spec(keys@, reverse, skip as nat, limit as nat),
{
    let ghost keys0 = keys@;
    let ordered = if reverse {
        reverse_strings(keys)
    } else {
        keys
    };
    let n = ordered.len();
    let start = if skip <= n {
        skip
    } else {
        n
    };
    let end = if limit == 0 || limit >= n - start {
        n
    } else {
        start + limit
    };
    let mut out: Vec<String> = Vec::new();
    let mut i: usize = start;
    while i < end
        invariant
            start <= i <= end <= n,
            n == ordered@.len(),
            out@ =~= ordered@.subrange(start as int, i as int),
        decreases end - i,
    {
        out.push(ordered[i].clone());
        proof {
            assert(out@ =~= ordered@.subrange(start as int, i + 1));
        }
        i += 1;
    }
    proof {
        assert(out@ =~= select_spec(keys0, reverse, skip as nat, limit as nat));
    }
    out
}

/// Each key with the leading namespace prefix removed.
pub open spec fn strip_all(keys: Seq<Seq<char>>, pre: Seq<char>) -> Seq<Seq<char>> {
    keys.map_values(|k: Seq<char>| strip_prefix_spec(k, pre))
}

/// Strips the leading namespace prefix from every key.
pub fn local_keys(keys: &Vec<String>, id_key: &str) -> (r: Vec<String>)
    ensures
        views_of(r@) == strip_all(views_of(keys@), id_key@),
{
    let n = keys.len();
    let mut out: Vec<String> = Vec::new();
    let mut i: usize = 0;
    while i < n
        invariant
            i <= n,
            n == keys@.len(),
            out@.len() == i,
            forall|k: int| 0 <= k < i ==> out@[k]@ == strip_prefix_spec(keys@[k]@, id_key@),
        decreases n - i,
    {
        let local = strip_prefix(keys[i].as_str(), id_key);
        out.push(local);
        i += 1;
    }
    proof {
        assert(views_of(out@) =~~= strip_all(views_of(keys@), id_key@));
    }
    out
}

/// The local keys a listing returns: the selected window of the listed
/// keys, each with the namespace prefix stripped.
pub open spec fn listing_spec(
    keys: Seq<Seq<char>>,
    id_key: Seq<char>,
    rev: bool,
    skip: nat,
    limit: nat,
) -> Seq<Seq<char>> {
    strip_all(select_spec(keys, rev, skip, limit), id_key)
}

/// Selection commutes with taking views: selecting strings and then viewing
/// them is viewing them and then selecting.
proof fn lemma_views_select(keys: Seq<String>, rev: bool, skip: nat, limit: nat)
    ensures
        views_of(select_spec(keys, rev, skip, limit)) == select_spec(
            views_of(keys),
            rev,
            skip,
            limit,
        ),
{
    assert(views_of(keys.reverse()) =~= views_of(keys).reverse());
    let o1 = if rev {
        keys.reverse()
    } else {
        keys
    };
    let o2 = if rev {
        views_of(keys).reverse()
    } else {
        views_of(keys)
    };
    assert(views_of(o1) =~= o2);
    let s1 = if skip <= o1.len() {
        o1.skip(skip as int)
    } else {
        Seq::empty()
    };
    let s2 = if skip <= o2.len() {
        o2.skip(skip as int)
    } else {
        Seq::empty()
    };
    assert(views_of(s1) =~= s2);
    if !(limit == 0 || limit >= s1.len()) {
        assert(views_of(s1.take(limit as int)) =~= s2.take(limit as int));
    }
}

/// Runs the key-only listing pipeline for a query.
pub fn list_local_keys(keys: Vec<String>, id_key: &str, query: &IndexQuery) -> (r: Vec<String>)
    ensures
        views_of(r@) == listing_spec(
            views_of(keys@),
            id_key@,
            query.reverse_b(),
            query.skip_n(),
            query.limit_n(),
        ),
{
    let ghost keys0 = keys@;
    let selected = select_keys(
        keys,
        query.is_reverse(),
        query.effective_skip(),
        query.effective_limit(),
    );
    let r = local_keys(&selected, id_key);
    proof {
        lemma_views_select(keys0, query.reverse_b(), query.skip_n(), query.limit_n());
    }
    r
}

/// The entry of a values-included listing for one key: a singleton object
/// mapping the local key to the (possibly masked) value.
pub fn make_entry(key: &str, id_key: &str, value: Json, mask: &Option<String>) -> (r: Json)
    ensures
        r@ == JsonV::Obj(
            seq![
                (
                    strip_prefix_spec(key@, id_key@),
                    mask_apply(value@, opt_view(*mask)),
                ),
            ],
        ),
{
    let local = strip_prefix(key, id_key);
    let masked = apply_mask(value, mask);
    let mut entries: Vec<(String, Json)> = Vec::new();
    entries.push((local, masked));
    proof {
        lemma_obj_views(entries, 0);
        assert(obj_views(entries, 0) =~~= seq![
            (
                strip_prefix_spec(key@, id_key@),
                mask_apply(value@, opt_view(*mask)),
            ),
        ]);
    }
    Json::Obj(entries)
}

/// Pagination window: with no reversal, `skip` then a positive `limit`
/// yield exactly the keys from position `skip` up to `skip + limit`.
pub proof fn lemma_pagination_window<T>(keys: Seq<T>, skip: nat, limit: nat)
    requires
        limit > 0,
        skip + limit <= keys.len(),
    ensures
        select_spec(keys, false, skip, limit) == keys.subrange(
            skip as int,
            (skip + limit) as int,
        ),
{
    assert(select_spec(keys, false, skip, limit) =~= keys.subrange(skip as int, (skip + limit) as int));
}

/// Reversal with a limit: the listing yields the last keys of the store
/// order, last first.
pub proof fn lemma_pagination_reverse<T>(keys: Seq<T>, limit: nat)
    requires
        0 < limit <= keys.len(),
    ensures
        select_spec(keys, true, 0, limit).len() == limit,
        forall|i: int| 0 <= i < limit ==> select_spec(keys, true, 0, limit)[i] == keys[keys.len()
            - 1 - i],
{
    assert(keys.reverse().skip(0) =~= keys.reverse());
}

} // verus!
