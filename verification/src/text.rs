//! Character-level string utilities: splitting on a separator, removing a
//! character, and stripping a leading prefix.  Everything is specified over
//! `Seq<char>` views.

use vstd::prelude::*;

verus! {

/// The view of an optional string.
pub open spec fn opt_view(o: Option<String>) -> Option<Seq<char>> {
    match o {
        Option::Some(s) => Option::Some(s@),
        Option::None => Option::None,
    }
}

/// The views of a sequence of strings.
pub open spec fn views_of(ss: Seq<String>) -> Seq<Seq<char>> {
    ss.map_values(|x: String| x@)
}

/// Splitting `s` on `sep`, as `str::split` does: the result always has at
/// least one part, and holds one part more than `s` has separators.  An empty
/// input gives one empty part.
pub open spec fn split_on(s: Seq<char>, sep: char) -> Seq<Seq<char>>
    decreases s.len(),
{
    if s.len() == 0 {
        seq![Seq::<char>::empty()]
    } else if s.last() == sep {
        split_on(s.drop_last(), sep).push(Seq::<char>::empty())
    } else {
        let r = split_on(s.drop_last(), sep);
        r.update(r.len() - 1, r.last().push(s.last()))
    }
}

/// Splits `s` at every occurrence of `sep`.
pub fn split_char(s: &str, sep: char) -> (r: Vec<String>)
    ensures
        views_of(r@) == split_on(s@, sep),
{
    let n = s.unicode_len();
    let mut parts: Vec<String> = Vec::new();
    let mut cur = String::new();
    let mut i: usize = 0;
    while i < n
        invariant
            i <= n,
            n == s@.len(),
            views_of(parts@).push(cur@) =~= split_on(s@.take(i as int), sep),
        decreases n - i,
    {
        let c = s.get_char(i);
        let ghost old_views = views_of(parts@);
        let ghost old_cur = cur@;
        proof {
            assert(s@.take(i + 1).drop_last() =~= s@.take(i as int));
            assert(s@.take(i + 1).last() == s@[i as int]);
        }
        if c == sep {
            parts.push(cur);
            cur = String::new();
            proof {
                assert(views_of(parts@) =~= old_views.push(old_cur));
            }
        } else {
            let piece = s.substring_char(i, i + 1);
            proof {
                assert(piece@ =~= seq![s@[i as int]]);
            }
            cur.append(piece);
            proof {
                assert(views_of(parts@) =~= old_views);
                assert(cur@ =~= old_cur.push(c));
            }
        }
        proof {
            assert(views_of(parts@).push(cur@) =~~= split_on(s@.take(i + 1), sep));
        }
        i += 1;
    }
    proof {
        assert(s@.take(n as int) =~= s@);
    }
    let ghost old_parts = parts@;
    parts.push(cur);
    proof {
        assert(views_of(parts@) =~= views_of(old_parts).push(cur@));
    }
    parts
}

/// `s` with every occurrence of `c` removed.
pub open spec fn remove_all(s: Seq<char>, c: char) -> Seq<char>
    decreases s.len(),
{
    if s.len() == 0 {
        Seq::<char>::empty()
    } else if s.last() == c {
        remove_all(s.drop_last(), c)
    } else {
        remove_all(s.drop_last(), c).push(s.last())
    }
}

/// Removes every occurrence of `c` from `s`.
pub fn remove_char(s: &str, c: char) -> (r: String)
    ensures
        r@ == remove_all(s@, c),
{
    let n = s.unicode_len();
    let mut out = String::new();
    let mut i: usize = 0;
    while i < n
        invariant
            i <= n,
            n == s@.len(),
            out@ =~= remove_all(s@.take(i as int), c),
        decreases n - i,
    {
        let ch = s.get_char(i);
        proof {
            assert(s@.take(i + 1).drop_last() =~= s@.take(i as int));
            assert(s@.take(i + 1).last() == s@[i as int]);
        }
        if ch != c {
            let piece = s.substring_char(i, i + 1);
            proof {
                assert(piece@ =~= seq![s@[i as int]]);
            }
            out.append(piece);
        }
        proof {
            assert(out@ =~= remove_all(s@.take(i + 1), c));
        }
        i += 1;
    }
    proof {
        assert(s@.take(n as int) =~= s@);
    }
    out
}

/// Whether `pre` is a prefix of `key`.
pub fn is_prefix(pre: &str, key: &str) -> (r: bool)
    ensures
        r == pre@.is_prefix_of(key@),
{
    let pn = pre.unicode_len();
    let kn = key.unicode_len();
    if pn > kn {
        return false;
    }
    let mut i: usize = 0;
    while i < pn
        invariant
            i <= pn <= kn,
            pn == pre@.len(),
            kn == key@.len(),
            forall|j: int| 0 <= j < i ==> key@[j] == pre@[j],
        decreases pn - i,
    {
        if key.get_char(i) != pre.get_char(i) {
            proof {
                assert(key@.subrange(0, pn as int)[i as int] != pre@[i as int]);
            }
            return false;
        }
        i += 1;
    }
    proof {
        assert(pre@ =~= key@.subrange(0, pn as int));
    }
    true
}

/// `key` with a leading `pre` removed; `key` unchanged when `pre` is not a
/// prefix of it.
pub open spec fn strip_prefix_spec(key: Seq<char>, pre: Seq<char>) -> Seq<char> {
    if pre.is_prefix_of(key) {
        key.skip(pre.len() as int)
    } else {
        key
    }
}

/// Strips a leading `pre` from `key`.
pub fn strip_prefix(key: &str, pre: &str) -> (r: String)
    ensures
        r@ == strip_prefix_spec(key@, pre@),
{
    if is_prefix(pre, key) {
        let pn = pre.unicode_len();
        let kn = key.unicode_len();
        let tail = key.substring_char(pn, kn);
        proof {
            assert(tail@ =~= key@.skip(pre@.len() as int));
        }
        tail.to_owned()
    } else {
        key.to_owned()
    }
}

} // verus!
