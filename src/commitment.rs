//! Output commitments.

use vstd::prelude::*;
use crate::digest::{blake3_of, digest};
use crate::encoding::{bytes_eq, bytes_field, copy_bytes, push_bytes_field, push_u64, u64_le};
use crate::errors::Result;
use crate::range_proof::RangeProof;

verus! {

/// A commitment to an amount under a blinding factor, with its range proof.
///
/// Two commitments are equal when their digests are equal.
#[derive(Debug, Eq)]
pub struct Commitment {
    /// Commitment digest.
    pub commitment: Vec<u8>,
    /// Committed amount.
    pub value: u64,
    /// Blinding factor.
    pub blinding: Vec<u8>,
    /// Range proof of the amount.
    pub range_proof: RangeProof,
}

/// Mathematical model of a [`Commitment`].
pub struct CommitmentView {
    pub commitment: Seq<u8>,
    pub value: u64,
    pub blinding: Seq<u8>,
    pub range_proof: Seq<u8>,
}

impl View for Commitment {
    type V = CommitmentView;

    open spec fn view(&self) -> CommitmentView {
        CommitmentView {
            commitment: self.commitment@,
            value: self.value,
            blinding: self.blinding@,
            range_proof: self.range_proof@,
        }
    }
}

/// The bytes a commitment digest is derived from: the amount, then the blinding factor.
pub open spec fn commitment_input(value: u64, blinding: Seq<u8>) -> Seq<u8> {
    u64_le(value) + bytes_field(blinding)
}

/// Canonical encoding of a commitment.
pub open spec fn commitment_bytes(c: CommitmentView) -> Seq<u8> {
    bytes_field(c.commitment) + u64_le(c.value) + bytes_field(c.blinding) + bytes_field(c.range_proof)
}

impl Commitment {
    /// Commits to `value` under `blinding`; the digest is derived from those two alone.
    pub fn new(value: u64, blinding: Vec<u8>, range_proof: RangeProof) -> (r: Result<Self>)
        ensures
            r matches Ok(c) && c@ == (CommitmentView {
                commitment: blake3_of(commitment_input(value, blinding@)),
                value,
                blinding: blinding@,
                range_proof: range_proof@,
            }),
    {
        let mut input: Vec<u8> = Vec::new();
        push_u64(&mut input, value);
        push_bytes_field(&mut input, blinding.as_slice());
        assert(input@ =~= commitment_input(value, blinding@));
        let commitment = digest(input.as_slice());
        Ok(Commitment { commitment, value, blinding, range_proof })
    }

    pub fn commitment(&self) -> (r: &[u8])
        ensures
            r@ == self.commitment@,
    {
        self.commitment.as_slice()
    }

    pub fn value(&self) -> (r: u64)
        ensures
            r == self.value,
    {
        self.value
    }

    pub fn blinding(&self) -> (r: &[u8])
        ensures
            r@ == self.blinding@,
    {
        self.blinding.as_slice()
    }

    /// Appends the canonical encoding of this commitment to `out`.
    pub fn encode_into(&self, out: &mut Vec<u8>)
        ensures
            final(out)@ == old(out)@ + commitment_bytes(self@),
    {
        push_bytes_field(out, self.commitment.as_slice());
        push_u64(out, self.value);
        push_bytes_field(out, self.blinding.as_slice());
        push_bytes_field(out, self.range_proof.proof_data.as_slice());
        assert(out@ =~= old(out)@ + commitment_bytes(self@));
    }
}

impl Clone for Commitment {
    fn clone(&self) -> (r: Self)
        ensures
            r@ == self@,
    {
        Commitment {
            commitment: copy_bytes(&self.commitment),
            value: self.value,
            blinding: copy_bytes(&self.blinding),
            range_proof: self.range_proof.clone(),
        }
    }
}

impl PartialEq for Commitment {
    fn eq(&self, other: &Commitment) -> (r: bool) {
        bytes_eq(self.commitment.as_slice(), other.commitment.as_slice())
    }
}

impl vstd::std_specs::cmp::PartialEqSpecImpl for Commitment {
    open spec fn obeys_eq_spec() -> bool {
        true
    }

    open spec fn eq_spec(&self, other: &Commitment) -> bool {
        self.commitment@ == other.commitment@
    }
}

} // verus!
