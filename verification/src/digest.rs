//! Content hashing for chunks and reassembled files.

use vstd::prelude::*;
use sha2::{Digest, Sha256};

verus! {

/// The lowercase hexadecimal SHA-256 digest of a byte sequence. The digest is
/// a function of the bytes alone; this crate states nothing further about it.
pub uninterp spec fn sha256_hex(data: Seq<u8>) -> Seq<char>;

/// Relies on sha2::Sha256 for the 32-byte digest of the input and on
/// hex::encode for its rendering as 64 lowercase hexadecimal characters.
#[verifier::external_body]
pub(crate) fn sha256_hex_of(data: &[u8]) -> (r: String)
    ensures
        r@ == sha256_hex(data@),
        r@.len() == 64,
{
    let mut hasher = Sha256::new();
    hasher.update(data);
    hex::encode(hasher.finalize())
}

} // verus!
