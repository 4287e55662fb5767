//! Error kinds of the ledger.

use vstd::prelude::*;

verus! {

/// Errors reported by the ledger.
///
/// Logical rejections of a transaction (a missing input, a bad balance, a
/// failed proof) are not errors: verification reports them as `false`.
#[derive(Debug, Clone, PartialEq, Eq)]
pub enum MimblewimbleError {
    InvalidTransaction,
    InvalidBlock,
    InvalidCommitment,
    InvalidKernel,
    InvalidProof,
    ProofVerificationFailed,
    BalanceMismatch,
    UtxoNotFound,
    DoubleSpend,
    SerializationError(String),
    CryptoError(String),
    InvalidParameter,
    RangeProofError(String),
}

/// Result type of ledger operations.
pub type Result<T> = std::result::Result<T, MimblewimbleError>;

} // verus!
