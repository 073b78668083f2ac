//! One-way digests of free-text descriptions.
//!
//! The ledger never stores a description verbatim: it stores a fixed-length
//! one-way digest of the text, computed by the host's hashing primitive.

use vstd::prelude::*;

verus! {

/// The digest that the host's one-way hash assigns to a text.
///
/// The hash is a pure function of the characters alone, so the same text
/// always receives the same digest; nothing further is assumed of the value.
pub uninterp spec fn digest_of(text: Seq<char>) -> Seq<u8>;

/// The byte length of every digest the hash produces.
pub const DIGEST_LEN: usize = 32;

/// Relies on `near_sdk::env::sha256`: a pure 32-byte digest of the input
/// bytes, here applied to the UTF-8 encoding of the text.
#[verifier::external_body]
pub(crate) fn digest_text(text: &str) -> (r: Vec<u8>)
    ensures
        r@ == digest_of(text@),
        r@.len() == DIGEST_LEN,
{
    near_sdk::env::sha256(text.as_bytes())
}

/// Identical description text always yields the identical digest.
pub proof fn lemma_digest_deterministic(a: Seq<char>, b: Seq<char>)
    requires
        a == b,
    ensures
        digest_of(a) == digest_of(b),
{
}

} // verus!
