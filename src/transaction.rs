//! Transactions.

use vstd::prelude::*;
use crate::commitment::{commitment_bytes, Commitment, CommitmentView};
use crate::digest::{blake3_of, digest};
use crate::encoding::{push_u32, push_u64, u32_le, u64_le};
use crate::kernel::{kernel_bytes, Kernel, KernelView};

verus! {

/// Inputs and outputs of a transaction, bound by one kernel and a fee.
#[derive(Debug, Clone)]
pub struct Transaction {
    pub version: u32,
    /// Commitments spent.
    pub inputs: Vec<Commitment>,
    /// Commitments created.
    pub outputs: Vec<Commitment>,
    pub kernel: Kernel,
    pub fee: u64,
}

/// Mathematical model of a [`Transaction`].
pub struct TransactionView {
    pub version: u32,
    pub inputs: Seq<CommitmentView>,
    pub outputs: Seq<CommitmentView>,
    pub kernel: KernelView,
    pub fee: u64,
}

/// The models of a sequence of commitments.
pub open spec fn commitment_views(s: Seq<Commitment>) -> Seq<CommitmentView> {
    s.map_values(|c: Commitment| c@)
}

impl View for Transaction {
    type V = TransactionView;

    open spec fn view(&self) -> TransactionView {
        TransactionView {
            version: self.version,
            inputs: commitment_views(self.inputs@),
            outputs: commitment_views(self.outputs@),
            kernel: self.kernel@,
            fee: self.fee,
        }
    }
}

/// The encodings of a sequence of commitments, one after another.
pub open spec fn commitments_bytes(s: Seq<CommitmentView>) -> Seq<u8>
    decreases s.len(),
{
    if s.len() == 0 {
        Seq::empty()
    } else {
        commitments_bytes(s.drop_last()) + commitment_bytes(s.last())
    }
}

/// A sequence of commitments prefixed with its count.
pub open spec fn commitment_list_bytes(s: Seq<CommitmentView>) -> Seq<u8> {
    u64_le(s.len() as u64) + commitments_bytes(s)
}

/// Canonical encoding of a transaction.
#[verifier::opaque]
pub open spec fn transaction_bytes(t: TransactionView) -> Seq<u8> {
    u32_le(t.version) + commitment_list_bytes(t.inputs) + commitment_list_bytes(t.outputs)
        + kernel_bytes(t.kernel) + u64_le(t.fee)
}

fn push_commitment_list(out: &mut Vec<u8>, list: &Vec<Commitment>)
    ensures
        final(out)@ == old(out)@ + commitment_list_bytes(commitment_views(list@)),
{
    let ghost views = commitment_views(list@);
    let n = list.len();
    push_u64(out, n as u64);
    let ghost start = out@;
    let mut i: usize = 0;
    while i < n
        invariant
            n == list@.len(),
            views == commitment_views(list@),
            i <= n,
            start == old(out)@ + u64_le(n as u64),
            out@ == start + commitments_bytes(views.subrange(0, i as int)),
        decreases n - i,
    {
        list[i].encode_into(out);
        proof {
            assert(views.subrange(0, i + 1).drop_last() =~= views.subrange(0, i as int));
            assert(views.subrange(0, i + 1).last() == list@[i as int]@);
        }
        i = i + 1;
        assert(out@ =~= start + commitments_bytes(views.subrange(0, i as int)));
    }
    assert(views.subrange(0, n as int) =~= views);
    assert(out@ =~= old(out)@ + commitment_list_bytes(views));
}

impl Transaction {
    pub fn new(
        version: u32,
        inputs: Vec<Commitment>,
        outputs: Vec<Commitment>,
        kernel: Kernel,
        fee: u64,
    ) -> (r: Self)
        ensures
            r@ == (TransactionView {
                version,
                inputs: commitment_views(inputs@),
                outputs: commitment_views(outputs@),
                kernel: kernel@,
                fee,
            }),
    {
        Transaction { version, inputs, outputs, kernel, fee }
    }

    /// Appends the canonical encoding of this transaction to `out`.
    pub fn encode_into(&self, out: &mut Vec<u8>)
        ensures
            final(out)@ == old(out)@ + transaction_bytes(self@),
    {
        push_u32(out, self.version);
        push_commitment_list(out, &self.inputs);
        push_commitment_list(out, &self.outputs);
        self.kernel.encode_into(out);
        push_u64(out, self.fee);
        reveal(transaction_bytes);
        assert(out@ =~= old(out)@ + transaction_bytes(self@));
    }

    /// The canonical encoding of this transaction.
    pub fn to_bytes(&self) -> (r: Vec<u8>)
        ensures
            r@ == transaction_bytes(self@),
    {
        let mut out: Vec<u8> = Vec::new();
        self.encode_into(&mut out);
        assert(out@ =~= transaction_bytes(self@));
        out
    }

    /// Length in bytes of the canonical encoding.
    pub fn size(&self) -> (r: usize)
        ensures
            r == transaction_bytes(self@).len(),
    {
        self.to_bytes().len()
    }

    /// Digest of the canonical encoding.
    pub fn hash(&self) -> (r: Vec<u8>)
        ensures
            r@ == blake3_of(transaction_bytes(self@)),
            r@.len() > 0,
    {
        let bytes = self.to_bytes();
        digest(bytes.as_slice())
    }
}

} // verus!
