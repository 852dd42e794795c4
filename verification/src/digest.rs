//! What identifies the bytes of a document.
use vstd::prelude::*;

use sha2::{Digest, Sha256};

use crate::number::{hex, hex_string};

verus! {

/// The SHA-256 digest of bytes, as `Sha256::digest` computes it.
pub uninterp spec fn sha256(bytes: Seq<u8>) -> Seq<u8>;

/// Calls `Sha256::digest`, which gives a digest of 32 bytes.
#[verifier::external_body]
fn digest(bytes: &[u8]) -> (r: Vec<u8>)
    ensures
        r@ == sha256(bytes@),
        r@.len() == 32,
{
    Sha256::digest(bytes).to_vec()
}

/// The SHA-256 digest of a document in hexadecimal digits.
pub fn source_sha256(bytes: &[u8]) -> (r: String)
    ensures
        r@ == hex(sha256(bytes@)),
{
    hex_string(digest(bytes).as_slice())
}

} // verus!
