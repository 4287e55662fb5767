//! Blocks and block headers.

use vstd::prelude::*;
use crate::digest::{blake3_of, digest};
use crate::encoding::{bytes_field, push_bytes_field, push_u32, push_u64, u32_le, u64_le};
use crate::transaction::{transaction_bytes, Transaction, TransactionView};

verus! {

/// Header chaining a block to its predecessor and to its transactions.
#[derive(Debug, Clone)]
pub struct BlockHeader {
    pub version: u32,
    pub height: u64,
    pub timestamp: u64,
    /// Digest of the previous block.
    pub previous_hash: Vec<u8>,
    /// Merkle root of the block's transactions.
    pub merkle_root: Vec<u8>,
}

/// Mathematical model of a [`BlockHeader`].
pub struct BlockHeaderView {
    pub version: u32,
    pub height: u64,
    pub timestamp: u64,
    pub previous_hash: Seq<u8>,
    pub merkle_root: Seq<u8>,
}

impl View for BlockHeader {
    type V = BlockHeaderView;

    open spec fn view(&self) -> BlockHeaderView {
        BlockHeaderView {
            version: self.version,
            height: self.height,
            timestamp: self.timestamp,
            previous_hash: self.previous_hash@,
            merkle_root: self.merkle_root@,
        }
    }
}

/// Canonical encoding of a header.
pub open spec fn header_bytes(h: BlockHeaderView) -> Seq<u8> {
    u32_le(h.version) + u64_le(h.height) + u64_le(h.timestamp) + bytes_field(h.previous_hash)
        + bytes_field(h.merkle_root)
}

impl BlockHeader {
    fn encode_into(&self, out: &mut Vec<u8>)
        ensures
            final(out)@ == old(out)@ + header_bytes(self@),
    {
        push_u32(out, self.version);
        push_u64(out, self.height);
        push_u64(out, self.timestamp);
        push_bytes_field(out, self.previous_hash.as_slice());
        push_bytes_field(out, self.merkle_root.as_slice());
        assert(out@ =~= old(out)@ + header_bytes(self@));
    }

    /// Digest of the canonical encoding.
    pub fn hash(&self) -> (r: Vec<u8>)
        ensures
            r@ == blake3_of(header_bytes(self@)),
            r@.len() > 0,
    {
        let mut bytes: Vec<u8> = Vec::new();
        self.encode_into(&mut bytes);
        assert(bytes@ =~= header_bytes(self@));
        digest(bytes.as_slice())
    }
}

/// A header with its ordered transactions.
#[derive(Debug, Clone)]
pub struct Block {
    pub header: BlockHeader,
    pub transactions: Vec<Transaction>,
}

/// The models of a sequence of transactions.
pub open spec fn transaction_views(s: Seq<Transaction>) -> Seq<TransactionView> {
    s.map_values(|t: Transaction| t@)
}

/// Mathematical model of a [`Block`].
pub struct BlockView {
    pub header: BlockHeaderView,
    pub transactions: Seq<TransactionView>,
}

impl View for Block {
    type V = BlockView;

    open spec fn view(&self) -> BlockView {
        BlockView { header: self.header@, transactions: transaction_views(self.transactions@) }
    }
}

/// The encodings of a sequence of transactions, one after another.
pub open spec fn transactions_bytes(s: Seq<TransactionView>) -> Seq<u8>
    decreases s.len(),
{
    if s.len() == 0 {
        Seq::empty()
    } else {
        transactions_bytes(s.drop_last()) + transaction_bytes(s.last())
    }
}

/// Canonical encoding of a block: the header, the count, then each transaction.
pub open spec fn block_bytes(b: BlockView) -> Seq<u8> {
    header_bytes(b.header) + u64_le(b.transactions.len() as u64) + transactions_bytes(b.transactions)
}

impl Block {
    /// The block's digest is its header's digest.
    pub fn hash(&self) -> (r: Vec<u8>)
        ensures
            r@ == blake3_of(header_bytes(self@.header)),
            r@.len() > 0,
    {
        self.header.hash()
    }

    /// Length in bytes of the canonical encoding.
    pub fn size(&self) -> (r: usize)
        ensures
            r == block_bytes(self@).len(),
    {
        let ghost views = self@.transactions;
        let mut out: Vec<u8> = Vec::new();
        self.header.encode_into(&mut out);
        let n = self.transactions.len();
        push_u64(&mut out, n as u64);
        let ghost start = out@;
        let mut i: usize = 0;
        while i < n
            invariant
                n == self.transactions@.len(),
                views == self@.transactions,
                i <= n,
                start == header_bytes(self@.header) + u64_le(n as u64),
                out@ == start + transactions_bytes(views.subrange(0, i as int)),
            decreases n - i,
        {
            self.transactions[i].encode_into(&mut out);
            proof {
                assert(views.subrange(0, i + 1).drop_last() =~= views.subrange(0, i as int));
            }
            i = i + 1;
            assert(out@ =~= start + transactions_bytes(views.subrange(0, i as int)));
        }
        assert(views.subrange(0, n as int) =~= views);
        assert(out@ =~= block_bytes(self@));
        out.len()
    }

    pub fn transaction_count(&self) -> (r: usize)
        ensures
            r == self@.transactions.len(),
    {
        self.transactions.len()
    }
}

} // verus!
