//! Protocol parameters.

use vstd::prelude::*;
use crate::errors::{MimblewimbleError, Result};

verus! {

/// Protocol configuration, validated once and then shared read-only.
#[derive(Debug, Clone)]
pub struct MimblewimbleParameters {
    /// Commitment scheme label (informational only).
    pub commitment_scheme: String,
    /// Range proof bit width.
    pub range_proof_bits: usize,
    /// Maximum transaction size in bytes.
    pub max_transaction_size: usize,
    /// Maximum block size in bytes.
    pub max_block_size: usize,
    /// Target block time in seconds.
    pub target_block_time: u64,
    /// Difficulty adjustment interval in blocks.
    pub difficulty_adjustment_interval: u64,
    /// Whether pruning is enabled.
    pub pruning_enabled: bool,
    /// Pruning interval in blocks.
    pub pruning_interval: u64,
    /// Maximum number of unspent outputs.
    pub max_utxo_set_size: usize,
}

impl MimblewimbleParameters {
    /// The bounds every usable configuration satisfies.
    pub open spec fn is_valid(&self) -> bool {
        &&& self.range_proof_bits >= 32
        &&& self.max_transaction_size > 0
        &&& self.max_block_size >= self.max_transaction_size
        &&& self.target_block_time > 0
        &&& self.difficulty_adjustment_interval > 0
    }

    /// Checks the bounds of [`Self::is_valid`]; fails with `InvalidParameter`
    /// exactly when one of them is violated.
    pub fn validate(&self) -> (r: Result<()>)
        ensures
            r is Ok <==> self.is_valid(),
            !self.is_valid() ==> r == Err::<(), MimblewimbleError>(MimblewimbleError::InvalidParameter),
    {
        if self.range_proof_bits < 32 {
            return Err(MimblewimbleError::InvalidParameter);
        }
        if self.max_transaction_size == 0 {
            return Err(MimblewimbleError::InvalidParameter);
        }
        if self.max_block_size < self.max_transaction_size {
            return Err(MimblewimbleError::InvalidParameter);
        }
        if self.target_block_time == 0 {
            return Err(MimblewimbleError::InvalidParameter);
        }
        if self.difficulty_adjustment_interval == 0 {
            return Err(MimblewimbleError::InvalidParameter);
        }
        Ok(())
    }
}

impl Default for MimblewimbleParameters {
    fn default() -> (r: Self)
        ensures
            r.commitment_scheme@ == "pedersen"@,
            r.range_proof_bits == 64,
            r.max_transaction_size == 1_000_000,
            r.max_block_size == 10_000_000,
            r.target_block_time == 30,
            r.difficulty_adjustment_interval == 2016,
            r.pruning_enabled,
            r.pruning_interval == 10_000,
            r.max_utxo_set_size == 1_000_000,
            r.is_valid(),
    {
        MimblewimbleParameters {
            commitment_scheme: "pedersen".to_owned(),
            range_proof_bits: 64,
            max_transaction_size: 1_000_000,
            max_block_size: 10_000_000,
            target_block_time: 30,
            difficulty_adjustment_interval: 2016,
            pruning_enabled: true,
            pruning_interval: 10_000,
            max_utxo_set_size: 1_000_000,
        }
    }
}

/// Validation rejects a range proof width of 16 bits and a block size
/// bound below the transaction size bound, whatever the other fields hold.
pub proof fn lemma_validation_rejects(p: MimblewimbleParameters)
    ensures
        p.range_proof_bits == 16 ==> !p.is_valid(),
        p.max_block_size < p.max_transaction_size ==> !p.is_valid(),
{
}

} // verus!
