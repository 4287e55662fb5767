//! Transaction kernels.

use vstd::prelude::*;
use crate::digest::{blake3_of, digest};
use crate::encoding::{bytes_field, copy_bytes, push_bytes_field, push_u64, u64_le};
use crate::errors::Result;
use crate::parameters::MimblewimbleParameters;

verus! {

/// Kernel feature tags.
#[derive(Debug, Clone, Copy, PartialEq, Eq, Structural)]
pub enum KernelFeatures {
    Plain,
    Coinbase,
    HeightLocked,
}

/// The byte that stands for a feature tag in the canonical encoding.
pub open spec fn feature_tag(f: KernelFeatures) -> u8 {
    match f {
        KernelFeatures::Plain => 0,
        KernelFeatures::Coinbase => 1,
        KernelFeatures::HeightLocked => 2,
    }
}

fn feature_byte(f: KernelFeatures) -> (r: u8)
    ensures
        r == feature_tag(f),
{
    match f {
        KernelFeatures::Plain => 0,
        KernelFeatures::Coinbase => 1,
        KernelFeatures::HeightLocked => 2,
    }
}

/// The public summary of a transaction: fee, lock height, excess and signature.
#[derive(Debug, Eq)]
pub struct Kernel {
    pub features: KernelFeatures,
    pub fee: u64,
    pub lock_height: u64,
    /// Excess value the signature is checked against.
    pub excess: Vec<u8>,
    pub signature: Vec<u8>,
}

/// Mathematical model of a [`Kernel`].
pub struct KernelView {
    pub features: KernelFeatures,
    pub fee: u64,
    pub lock_height: u64,
    pub excess: Seq<u8>,
    pub signature: Seq<u8>,
}

impl View for Kernel {
    type V = KernelView;

    open spec fn view(&self) -> KernelView {
        KernelView {
            features: self.features,
            fee: self.fee,
            lock_height: self.lock_height,
            excess: self.excess@,
            signature: self.signature@,
        }
    }
}

/// The bytes the kernel signature covers: features, fee, lock height, excess.
pub open spec fn kernel_signed_bytes(k: KernelView) -> Seq<u8> {
    seq![feature_tag(k.features)] + u64_le(k.fee) + u64_le(k.lock_height) + bytes_field(k.excess)
}

/// Canonical encoding of a kernel.
pub open spec fn kernel_bytes(k: KernelView) -> Seq<u8> {
    kernel_signed_bytes(k) + bytes_field(k.signature)
}

/// A kernel is accepted when its excess and its signature are both non-empty.
pub open spec fn kernel_accepts(k: KernelView) -> bool {
    k.excess.len() > 0 && k.signature.len() > 0
}

impl Kernel {
    pub fn new(
        features: KernelFeatures,
        fee: u64,
        lock_height: u64,
        excess: Vec<u8>,
        signature: Vec<u8>,
    ) -> (r: Self)
        ensures
            r@ == (KernelView { features, fee, lock_height, excess: excess@, signature: signature@ }),
    {
        Kernel { features, fee, lock_height, excess, signature }
    }

    fn push_signed_bytes(&self, out: &mut Vec<u8>)
        ensures
            final(out)@ == old(out)@ + kernel_signed_bytes(self@),
    {
        out.push(feature_byte(self.features));
        push_u64(out, self.fee);
        push_u64(out, self.lock_height);
        push_bytes_field(out, self.excess.as_slice());
        assert(out@ =~= old(out)@ + kernel_signed_bytes(self@));
    }

    /// Fails closed on an empty excess or signature; otherwise digests the
    /// signed bytes and accepts when that digest is non-empty.
    pub fn verify(&self, _parameters: &MimblewimbleParameters) -> (r: Result<bool>)
        ensures
            r == Ok::<bool, crate::errors::MimblewimbleError>(kernel_accepts(self@)),
    {
        if self.excess.len() == 0 {
            return Ok(false);
        }
        if self.signature.len() == 0 {
            return Ok(false);
        }
        let mut signed: Vec<u8> = Vec::new();
        self.push_signed_bytes(&mut signed);
        let kernel_hash = digest(signed.as_slice());
        Ok(kernel_hash.len() != 0)
    }

    /// Appends the canonical encoding of this kernel to `out`.
    pub fn encode_into(&self, out: &mut Vec<u8>)
        ensures
            final(out)@ == old(out)@ + kernel_bytes(self@),
    {
        self.push_signed_bytes(out);
        push_bytes_field(out, self.signature.as_slice());
        assert(out@ =~= old(out)@ + kernel_bytes(self@));
    }
}

impl Clone for Kernel {
    fn clone(&self) -> (r: Self)
        ensures
            r@ == self@,
    {
        Kernel {
            features: self.features,
            fee: self.fee,
            lock_height: self.lock_height,
            excess: copy_bytes(&self.excess),
            signature: copy_bytes(&self.signature),
        }
    }
}

impl PartialEq for Kernel {
    fn eq(&self, other: &Kernel) -> (r: bool) {
        self.features == other.features && self.fee == other.fee && self.lock_height == other.lock_height
            && crate::encoding::bytes_eq(self.excess.as_slice(), other.excess.as_slice())
            && crate::encoding::bytes_eq(self.signature.as_slice(), other.signature.as_slice())
    }
}

impl vstd::std_specs::cmp::PartialEqSpecImpl for Kernel {
    open spec fn obeys_eq_spec() -> bool {
        true
    }

    open spec fn eq_spec(&self, other: &Kernel) -> bool {
        self@ == other@
    }
}

} // verus!
