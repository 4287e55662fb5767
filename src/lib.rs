//! Ledger core of a Mimblewimble-style confidential-transaction protocol.
//!
//! The ledger holds the unspent-output set and the append-only kernel
//! history, verifies transactions against them, and assembles blocks whose
//! headers carry a Merkle root over the ordered transactions. Commitments,
//! range proofs and kernel signatures are digest-based stand-ins behind the
//! interfaces a real commitment, range-proof and signature scheme would fill.

pub mod block;
pub mod commitment;
pub mod digest;
pub mod encoding;
pub mod errors;
pub mod kernel;
pub mod ledger;
pub mod merkle;
pub mod parameters;
pub mod range_proof;
pub mod tagged_proof;
pub mod transaction;

pub use block::{Block, BlockHeader};
pub use commitment::Commitment;
pub use errors::{MimblewimbleError, Result};
pub use kernel::{Kernel, KernelFeatures};
pub use ledger::{MimblewimbleState, MIMBLEWIMBLE_VERSION};
pub use merkle::compute_merkle_root;
pub use parameters::MimblewimbleParameters;
pub use range_proof::RangeProof;
pub use tagged_proof::{Proof, ProofType};
pub use transaction::Transaction;
