//! The one digest function used for every hash in the ledger.
//!
//! All commitment, kernel, transaction, proof, header and Merkle digests are
//! raw 32-byte BLAKE3 outputs. No hex re-encoding is applied anywhere.

use vstd::prelude::*;

verus! {

/// Length in bytes of every digest produced by [`digest`].
pub const DIGEST_LEN: usize = 32;

/// The BLAKE3 digest of a byte string.
pub uninterp spec fn blake3_of(b: Seq<u8>) -> Seq<u8>;

/// Relies on `blake3::hash`: it returns the 32-byte BLAKE3 hash of its input,
/// which depends on the input bytes alone.
#[verifier::external_body]
pub(crate) fn digest(b: &[u8]) -> (r: Vec<u8>)
    ensures
        r@ == blake3_of(b@),
        r@.len() == DIGEST_LEN,
{
    blake3::hash(b).as_bytes().to_vec()
}

} // verus!
