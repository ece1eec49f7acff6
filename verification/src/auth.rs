//! Tenant namespace derivation.
//!
//! A caller is identified by the bearer token of its `Authorization` header.
//! The token (with `=` padding removed) is hashed to a fixed-length hex
//! string, the tenant namespace; the full object key is that namespace, a
//! `/`, and the caller-chosen object id.  A header that does not split into
//! exactly two whitespace-separated parts degrades to the empty token, so a
//! missing or malformed credential is never rejected: it lands in the
//! isolated empty-token namespace.

use vstd::prelude::*;

use crate::text::remove_all;
use crate::text::remove_char;
use crate::text::split_char;
use crate::text::split_on;
use crate::text::strip_prefix_spec;
use crate::text::views_of;

verus! {

/// The hex encoding of the 256-bit digest of a string; 64 characters, a
/// function of the input alone, the same in every process.
pub uninterp spec fn blake3_hex(s: Seq<char>) -> Seq<char>;

/// Relies on `blake3::hash` and `blake3::Hash::to_hex`: the digest of the
/// input's bytes is 32 bytes, and `to_hex` renders it as 64 hex characters;
/// the result depends on the input alone.
#[verifier::external_body]
fn b3_hash(s: &str) -> (r: String)
    ensures
        r@ == blake3_hex(s@),
        r@.len() == 64,
{
    let hash = blake3::hash(s.as_bytes());
    hash.to_hex().as_str().to_string()
}

/// The bearer token of an `Authorization` header value: the part after the
/// scheme when the value splits into exactly two space-separated parts, and
/// the empty string otherwise.
pub open spec fn token_of(authorization: Seq<char>) -> Seq<char> {
    let parts = split_on(authorization, ' ');
    if parts.len() == 2 {
        parts[1]
    } else {
        Seq::empty()
    }
}

/// Extracts the bearer token from an `Authorization` header value.
pub fn get_token(authorization: &str) -> (r: String)
    ensures
        r@ == token_of(authorization@),
{
    let parts = split_char(authorization, ' ');
    proof {
        assert(views_of(parts@).len() == parts@.len());
    }
    if parts.len() == 2 {
        let token = &parts[1];
        proof {
            assert(views_of(parts@)[1] == parts@[1]@);
        }
        token.clone()
    } else {
        String::new()
    }
}

/// The tenant namespace of a credential: the hex digest of its bearer token
/// with `=` padding removed.
pub open spec fn namespace_of(authorization: Seq<char>) -> Seq<char> {
    blake3_hex(remove_all(token_of(authorization), '='))
}

/// Derives the tenant namespace from an `Authorization` header value.
pub fn derive_namespace(authorization: &str) -> (r: String)
    ensures
        r@ == namespace_of(authorization@),
        r@.len() == 64,
{
    let token = get_token(authorization);
    let stripped = remove_char(token.as_str(), '=');
    b3_hash(stripped.as_str())
}

/// The full object key of a credential and an object id: the namespace, a
/// `/`, and the id.
pub open spec fn full_key_of(authorization: Seq<char>, object_id: Seq<char>) -> Seq<char> {
    namespace_of(authorization) + seq!['/'] + object_id
}

/// Resolves the full store-level key for a caller's object id.
pub fn get_id(authorization: &str, object_id: &str) -> (r: String)
    ensures
        r@ == full_key_of(authorization@, object_id@),
{
    let ns = derive_namespace(authorization);
    proof {
        reveal_strlit("/");
        assert("/"@ =~= seq!['/']);
    }
    let mut r = ns;
    r.append("/");
    r.append(object_id);
    proof {
        assert(r@ =~= full_key_of(authorization@, object_id@));
    }
    r
}

/// The namespace is a function of the padding-stripped bearer token alone:
/// credentials that agree on it always land in the same namespace, in every
/// process and across restarts.  (That distinct stripped tokens land in
/// distinct namespaces holds only with cryptographic-hash probability and is
/// not stated here.)
pub proof fn lemma_namespace_deterministic(c1: Seq<char>, c2: Seq<char>)
    requires
        remove_all(token_of(c1), '=') == remove_all(token_of(c2), '='),
    ensures
        namespace_of(c1) == namespace_of(c2),
{
}

/// Stripping the namespace prefix from a full key recovers exactly the
/// object id it was built from.
pub proof fn lemma_key_strip_roundtrip(authorization: Seq<char>, object_id: Seq<char>)
    ensures
        strip_prefix_spec(
            full_key_of(authorization, object_id),
            namespace_of(authorization) + seq!['/'],
        ) == object_id,
{
    let pre = namespace_of(authorization) + seq!['/'];
    let key = full_key_of(authorization, object_id);
    assert(key =~= pre + object_id);
    assert(pre =~= key.subrange(0, pre.len() as int));
    assert(key.skip(pre.len() as int) =~= object_id);
}

} // verus!
