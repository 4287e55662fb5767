//! Range proofs.

use vstd::prelude::*;
use crate::digest::{blake3_of, digest, DIGEST_LEN};
use crate::encoding::{copy_bytes, push_bytes, push_u64, u64_le};
use crate::errors::Result;
use crate::parameters::MimblewimbleParameters;

verus! {

/// Attests that a committed amount lies in range, without carrying the amount.
#[derive(Debug, PartialEq, Eq)]
pub struct RangeProof {
    /// Proof payload.
    pub proof_data: Vec<u8>,
}

impl View for RangeProof {
    type V = Seq<u8>;

    open spec fn view(&self) -> Seq<u8> {
        self.proof_data@
    }
}

/// The bytes a proof payload is derived from: the amount, then the bit width.
pub open spec fn range_proof_input(value: u64, bits: usize) -> Seq<u8> {
    u64_le(value) + u64_le(bits as u64)
}

/// Number of digest blocks in a payload for width `bits`: enough to cover
/// `bits / 8` bytes, and at least one.
pub open spec fn block_count(bits: usize) -> nat {
    if bits / 8 <= DIGEST_LEN {
        1
    } else {
        ((bits / 8 + DIGEST_LEN - 1) / DIGEST_LEN as int) as nat
    }
}

/// The first `m` blocks of a payload: block `j` is the digest of the input
/// followed by the counter `j`.
pub open spec fn proof_blocks(input: Seq<u8>, m: nat) -> Seq<u8>
    decreases m,
{
    if m == 0 {
        Seq::empty()
    } else {
        proof_blocks(input, (m - 1) as nat) + blake3_of(input + u64_le((m - 1) as u64))
    }
}

/// What [`RangeProof::create`] produces for `value` under width `bits`.
pub open spec fn created_proof(p: Seq<u8>, value: u64, bits: usize) -> bool {
    &&& p == proof_blocks(range_proof_input(value, bits), block_count(bits))
    &&& p.len() == DIGEST_LEN * block_count(bits)
}

/// A payload is accepted when it holds at least `bits / 8` bytes.
pub open spec fn proof_accepts(p: Seq<u8>, bits: usize) -> bool {
    p.len() >= bits / 8
}

impl RangeProof {
    pub fn new(proof_data: Vec<u8>) -> (r: Self)
        ensures
            r@ == proof_data@,
    {
        RangeProof { proof_data }
    }

    /// Derives the proof payload for `value` under the configured bit width:
    /// as many digest blocks as cover `range_proof_bits / 8` bytes.
    pub fn create(value: u64, parameters: &MimblewimbleParameters) -> (r: Result<Self>)
        ensures
            r matches Ok(p) && created_proof(p@, value, parameters.range_proof_bits),
    {
        let bits = parameters.range_proof_bits;
        let mut input: Vec<u8> = Vec::new();
        push_u64(&mut input, value);
        push_u64(&mut input, bits as u64);
        assert(input@ =~= range_proof_input(value, bits));
        let bytes = bits / 8;
        let m: usize = if bytes <= DIGEST_LEN { 1 } else { (bytes + (DIGEST_LEN - 1)) / DIGEST_LEN };
        assert(m == block_count(bits));
        let mut proof_data: Vec<u8> = Vec::new();
        let mut j: usize = 0;
        while j < m
            invariant
                j <= m,
                input@ == range_proof_input(value, bits),
                proof_data@ == proof_blocks(input@, j as nat),
                proof_data@.len() == DIGEST_LEN * j,
            decreases m - j,
        {
            let mut block_input = copy_bytes(&input);
            push_u64(&mut block_input, j as u64);
            let block = digest(block_input.as_slice());
            push_bytes(&mut proof_data, block.as_slice());
            j = j + 1;
            assert(proof_data@ =~= proof_blocks(input@, j as nat));
        }
        Ok(RangeProof { proof_data })
    }

    /// Accepts iff the payload holds at least `range_proof_bits / 8` bytes.
    pub fn verify(&self, parameters: &MimblewimbleParameters) -> (r: Result<bool>)
        ensures
            r == Ok::<bool, crate::errors::MimblewimbleError>(proof_accepts(self@, parameters.range_proof_bits)),
    {
        if self.proof_data.len() < parameters.range_proof_bits / 8 {
            return Ok(false);
        }
        Ok(true)
    }
}

impl Clone for RangeProof {
    fn clone(&self) -> (r: Self)
        ensures
            r@ == self@,
    {
        RangeProof { proof_data: copy_bytes(&self.proof_data) }
    }
}

/// A freshly created proof verifies under the width it was created for,
/// for every amount and every width of at least 32 bits.
pub proof fn lemma_range_proof_round_trip(p: Seq<u8>, value: u64, bits: usize)
    requires
        created_proof(p, value, bits),
        bits >= 32,
    ensures
        proof_accepts(p, bits),
{
    let n = bits / 8;
    if n > DIGEST_LEN {
        let m = (n + DIGEST_LEN - 1) / DIGEST_LEN as int;
        assert(DIGEST_LEN * m >= n) by (nonlinear_arith)
            requires
                m == (n + 31) / 32,
                DIGEST_LEN == 32,
        ;
    }
}

} // verus!
