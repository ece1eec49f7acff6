//! The object-store adapter's decisions: mapping store outcomes to
//! HTTP-style status codes and bodies, and building the cache-control
//! directive attached to a write.
//!
//! The store calls themselves are I/O and live outside this crate; these
//! functions take the outcome of a call (`None` for a store-level error)
//! and decide what the adapter returns.  No retries: every store error is
//! terminal for its request.

use vstd::prelude::*;

verus! {

/// Maps a store outcome to the adapter's status: a store error is 500,
/// anything else is the store's own code.
pub fn resolve_status(outcome: Option<u16>) -> (r: u16)
    ensures
        match outcome {
            Option::Some(c) => r == c,
            Option::None => r == 500,
        },
{
    match outcome {
        Some(c) => c,
        None => 500,
    }
}

/// Maps a read outcome: a store error is 500 with an empty-object body,
/// anything else is the store's own code and the raw value, unchanged.
pub fn resolve_get(outcome: Option<(u16, String)>) -> (r: (u16, String))
    ensures
        match outcome {
            Option::Some(p) => r == p,
            Option::None => r.0 == 500 && r.1@ == "{}"@,
        },
{
    match outcome {
        Some(p) => p,
        None => (500, String::from_str("{}")),
    }
}

/// The decimal digit character of `d`.
pub open spec fn digit_char(d: nat) -> char {
    if d == 0 {
        '0'
    } else if d == 1 {
        '1'
    } else if d == 2 {
        '2'
    } else if d == 3 {
        '3'
    } else if d == 4 {
        '4'
    } else if d == 5 {
        '5'
    } else if d == 6 {
        '6'
    } else if d == 7 {
        '7'
    } else if d == 8 {
        '8'
    } else {
        '9'
    }
}

/// The decimal rendering of `n`, most significant digit first, no leading
/// zeros (a single `0` for zero).
pub open spec fn dec_str(n: nat) -> Seq<char>
    decreases n,
{
    if n < 10 {
        seq![digit_char(n)]
    } else {
        dec_str(n / 10).push(digit_char(n % 10))
    }
}

pub open spec fn digit_chars(ds: Seq<u64>) -> Seq<char> {
    ds.map_values(|d: u64| digit_char(d as nat))
}

fn digit_str(d: u64) -> (r: &'static str)
    requires
        d < 10,
    ensures
        r@ == seq![digit_char(d as nat)],
{
    proof {
        reveal_strlit("0");
        reveal_strlit("1");
        reveal_strlit("2");
        reveal_strlit("3");
        reveal_strlit("4");
        reveal_strlit("5");
        reveal_strlit("6");
        reveal_strlit("7");
        reveal_strlit("8");
        reveal_strlit("9");
    }
    let r = if d == 0 {
        "0"
    } else if d == 1 {
        "1"
    } else if d == 2 {
        "2"
    } else if d == 3 {
        "3"
    } else if d == 4 {
        "4"
    } else if d == 5 {
        "5"
    } else if d == 6 {
        "6"
    } else if d == 7 {
        "7"
    } else if d == 8 {
        "8"
    } else {
        "9"
    };
    proof {
        assert(r@ =~= seq![digit_char(d as nat)]);
    }
    r
}

/// Renders `n` in decimal.
pub fn u64_to_string(n: u64) -> (r: String)
    ensures
        r@ == dec_str(n as nat),
{
    let mut digits: Vec<u64> = Vec::new();
    let mut m: u64 = n;
    while m >= 10
        invariant
            dec_str(n as nat) == dec_str(m as nat) + digit_chars(digits@).reverse(),
            forall|k: int| 0 <= k < digits@.len() ==> digits@[k] < 10,
        decreases m,
    {
        let ghost old_digits = digits@;
        digits.push(m % 10);
        proof {
            assert(digit_chars(digits@).reverse() =~= seq![digit_char((m % 10) as nat)]
                + digit_chars(old_digits).reverse());
            assert(dec_str((m / 10) as nat) + digit_chars(digits@).reverse() =~= dec_str(
                m as nat,
            ) + digit_chars(old_digits).reverse());
        }
        m = m / 10;
    }
    let ghost old_digits = digits@;
    digits.push(m);
    proof {
        assert(digit_chars(digits@).reverse() =~= seq![digit_char(m as nat)] + digit_chars(
            old_digits,
        ).reverse());
        assert(digit_chars(digits@).reverse() =~= dec_str(n as nat));
    }
    let len = digits.len();
    let mut out = String::new();
    let mut i: usize = len;
    while i > 0
        invariant
            i <= len,
            len == digits@.len(),
            forall|k: int| 0 <= k < digits@.len() ==> digits@[k] < 10,
            out@ == digit_chars(digits@).reverse().take(len - i),
        decreases i,
    {
        i = i - 1;
        let piece = digit_str(digits[i]);
        out.append(piece);
        proof {
            assert(digit_chars(digits@).reverse()[len - 1 - i] == digit_char(
                digits@[i as int] as nat,
            ));
            assert(out@ =~= digit_chars(digits@).reverse().take(len - i));
        }
    }
    proof {
        assert(digit_chars(digits@).reverse().take(len as int) =~= digit_chars(
            digits@,
        ).reverse());
    }
    out
}

/// The cache-control directive for a positive max age, in seconds.
pub open spec fn cache_control_spec(secs: nat) -> Seq<char> {
    "max-age="@ + dec_str(secs)
}

/// Builds the cache-control directive value for a write.
pub fn cache_control_value(secs: u64) -> (r: String)
    ensures
        r@ == cache_control_spec(secs as nat),
{
    let mut s = String::from_str("max-age=");
    let num = u64_to_string(secs);
    s.append(num.as_str());
    s
}

/// The effective max age of a write request: the query's value, absent
/// meaning 0 (no caching directive).
pub fn effective_cache_age(cache_max_age: &Option<u64>) -> (r: u64)
    ensures
        match *cache_max_age {
            Option::Some(a) => r == a,
            Option::None => r == 0,
        },
{
    match cache_max_age {
        Some(a) => *a,
        None => 0,
    }
}

/// The cache-control header a write attaches: none unless the requested
/// max age is positive.
pub fn cache_header(cache_max_age: u64) -> (r: Option<String>)
    ensures
        cache_max_age == 0 ==> r is None,
        cache_max_age > 0 ==> r is Some && r.unwrap()@ == cache_control_spec(
            cache_max_age as nat,
        ),
{
    if cache_max_age > 0 {
        Some(cache_control_value(cache_max_age))
    } else {
        None
    }
}

} // verus!
