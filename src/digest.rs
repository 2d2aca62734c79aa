//! The content digest: SHA-256 of a text's UTF-8 bytes, rendered as
//! lower-case hexadecimal.

use crate::text::{hex_of, to_hex};
use vstd::prelude::*;

verus! {

/// Number of characters in every digest.
pub const DIGEST_LEN: usize = 64;

/// The SHA-256 hash of the UTF-8 encoding of `s`.
pub uninterp spec fn sha256_of(s: Seq<char>) -> Seq<u8>;

/// Relies on `sha2::Sha256::digest` (through `digest::Digest`): the 32-byte
/// SHA-256 hash of the bytes handed to it.
#[verifier::external_body]
fn sha256(s: &str) -> (r: Vec<u8>)
    ensures
        r@ == sha256_of(s@),
        r@.len() == 32,
{
    <sha2::Sha256 as sha2::Digest>::digest(s.as_bytes()).to_vec()
}

/// The digest of a text.
pub open spec fn digest_of(s: Seq<char>) -> Seq<char> {
    hex_of(sha256_of(s))
}

/// Computes the digest of `s`: 64 lower-case hexadecimal characters.
pub fn hash_string(s: &str) -> (r: String)
    ensures
        r@ == digest_of(s@),
        r@.len() == DIGEST_LEN,
{
    let b = sha256(s);
    to_hex(&b)
}

} // verus!
