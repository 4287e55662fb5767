//! Tagged proof payloads.

use vstd::prelude::*;
use crate::digest::{blake3_of, digest};
use crate::encoding::{bytes_field, push_bytes_field};

verus! {

/// Kinds of proof.
#[derive(Debug, Clone, Copy, PartialEq, Eq, Structural)]
pub enum ProofType {
    Range,
    Kernel,
    Block,
}

/// The byte that stands for a proof kind in the canonical encoding.
pub open spec fn proof_type_tag(t: ProofType) -> u8 {
    match t {
        ProofType::Range => 0,
        ProofType::Kernel => 1,
        ProofType::Block => 2,
    }
}

/// A proof payload with its kind.
#[derive(Debug, Clone, PartialEq, Eq)]
pub struct Proof {
    pub data: Vec<u8>,
    pub proof_type: ProofType,
}

/// Canonical encoding of a proof: the payload, then the kind.
pub open spec fn proof_bytes(data: Seq<u8>, t: ProofType) -> Seq<u8> {
    bytes_field(data) + seq![proof_type_tag(t)]
}

impl Proof {
    pub fn new(data: Vec<u8>, proof_type: ProofType) -> (r: Self)
        ensures
            r.data@ == data@,
            r.proof_type == proof_type,
    {
        Proof { data, proof_type }
    }

    /// Digest of the canonical encoding.
    pub fn hash(&self) -> (r: Vec<u8>)
        ensures
            r@ == blake3_of(proof_bytes(self.data@, self.proof_type)),
            r@.len() > 0,
    {
        let mut bytes: Vec<u8> = Vec::new();
        push_bytes_field(&mut bytes, self.data.as_slice());
        let tag: u8 = match self.proof_type {
            ProofType::Range => 0,
            ProofType::Kernel => 1,
            ProofType::Block => 2,
        };
        bytes.push(tag);
        assert(bytes@ =~= proof_bytes(self.data@, self.proof_type));
        digest(bytes.as_slice())
    }
}

} // verus!
