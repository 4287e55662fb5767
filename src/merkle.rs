//! Merkle root over an ordered sequence of transactions.
//!
//! Leaves are the digests of the transactions' canonical encodings. Each pass
//! pairs neighbours left to right and digests their concatenation; an odd last
//! element is paired with itself. Passes repeat until one digest remains, and
//! at least one pass is always made, so a single leaf yields
//! `digest(leaf || leaf)`. The empty sequence has the all-zero root.

use vstd::prelude::*;
use crate::digest::{blake3_of, digest, DIGEST_LEN};
use crate::encoding::{copy_bytes, push_bytes};
use crate::block::transaction_views;
use crate::transaction::{transaction_bytes, Transaction, TransactionView};

verus! {

/// The root of an empty transaction sequence: thirty-two zero bytes.
pub open spec fn zero_digest() -> Seq<u8> {
    Seq::new(DIGEST_LEN as nat, |i: int| 0u8)
}

/// The models of a sequence of byte vectors.
pub open spec fn byte_views(s: Seq<Vec<u8>>) -> Seq<Seq<u8>> {
    s.map_values(|v: Vec<u8>| v@)
}

/// One leaf per transaction, in order.
pub open spec fn leaf_digests(txs: Seq<TransactionView>) -> Seq<Seq<u8>> {
    Seq::new(txs.len(), |i: int| blake3_of(transaction_bytes(txs[i])))
}

/// The `i`-th node of the next pass: its two children concatenated and digested,
/// the last child standing twice when it has no partner.
pub open spec fn pair_digest(h: Seq<Seq<u8>>, i: int) -> Seq<u8> {
    let right = if 2 * i + 1 < h.len() { h[2 * i + 1] } else { h[2 * i] };
    blake3_of(h[2 * i] + right)
}

/// One pass of the reduction.
pub open spec fn merkle_level(h: Seq<Seq<u8>>) -> Seq<Seq<u8>> {
    Seq::new(((h.len() + 1) / 2) as nat, |i: int| pair_digest(h, i))
}

/// Passes from a non-empty level down to the single remaining digest.
#[verifier::opaque]
pub open spec fn merkle_reduce(h: Seq<Seq<u8>>) -> Seq<u8>
    decreases h.len(),
{
    let next = merkle_level(h);
    if next.len() <= 1 {
        next[0]
    } else {
        merkle_reduce(next)
    }
}

/// The Merkle root of a transaction sequence.
pub open spec fn merkle_root(txs: Seq<TransactionView>) -> Seq<u8> {
    if txs.len() == 0 {
        zero_digest()
    } else {
        merkle_reduce(leaf_digests(txs))
    }
}

/// Thirty-two zero bytes.
pub fn zero_digest_bytes() -> (r: Vec<u8>)
    ensures
        r@ == zero_digest(),
{
    let mut zeros: Vec<u8> = Vec::new();
    let mut i: usize = 0;
    while i < DIGEST_LEN
        invariant
            i <= DIGEST_LEN,
            zeros@ == Seq::new(i as nat, |j: int| 0u8),
        decreases DIGEST_LEN - i,
    {
        zeros.push(0u8);
        i = i + 1;
        assert(zeros@ =~= Seq::new(i as nat, |j: int| 0u8));
    }
    zeros
}

fn next_level(hashes: &Vec<Vec<u8>>) -> (r: Vec<Vec<u8>>)
    ensures
        byte_views(r@) == merkle_level(byte_views(hashes@)),
{
    let ghost h = byte_views(hashes@);
    let n = hashes.len();
    let mut next: Vec<Vec<u8>> = Vec::new();
    let mut k: usize = 0;
    while k < n - k
        invariant
            n == hashes@.len(),
            h == byte_views(hashes@),
            2 * k <= n + 1,
            next@.len() == k,
            byte_views(next@) == merkle_level(h).subrange(0, k as int),
        decreases n - k,
    {
        let a = k + k;
        let b = if a + 1 < n { a + 1 } else { a };
        let mut buf = copy_bytes(&hashes[a]);
        push_bytes(&mut buf, hashes[b].as_slice());
        let node = digest(buf.as_slice());
        next.push(node);
        proof {
            assert(h[a as int] == hashes@[a as int]@);
            assert(h[b as int] == hashes@[b as int]@);
            assert(a == 2 * k);
            assert(node@ == pair_digest(h, k as int));
        }
        k = k + 1;
        assert(k <= (n + 1) / 2);
        assert(byte_views(next@).len() == k);
        assert(byte_views(next@)[k - 1] == node@);
        assert(byte_views(next@) =~= merkle_level(h).subrange(0, k as int));
    }
    assert(byte_views(next@) =~= merkle_level(h));
    next
}

/// The Merkle root of `transactions`.
pub fn compute_merkle_root(transactions: &[Transaction]) -> (r: Vec<u8>)
    ensures
        r@ == merkle_root(transaction_views(transactions@)),
{
    let ghost txs = transaction_views(transactions@);
    let n = transactions.len();
    if n == 0 {
        return zero_digest_bytes();
    }
    let mut hashes: Vec<Vec<u8>> = Vec::new();
    let mut i: usize = 0;
    while i < n
        invariant
            n == transactions@.len(),
            txs == transaction_views(transactions@),
            i <= n,
            hashes@.len() == i,
            byte_views(hashes@) == leaf_digests(txs).subrange(0, i as int),
        decreases n - i,
    {
        let leaf = transactions[i].hash();
        hashes.push(leaf);
        proof {
            assert(txs[i as int] == transactions@[i as int]@);
            assert(byte_views(hashes@)[i as int] == leaf_digests(txs)[i as int]);
        }
        i = i + 1;
        assert(byte_views(hashes@) =~= leaf_digests(txs).subrange(0, i as int));
    }
    assert(byte_views(hashes@) =~= leaf_digests(txs));
    loop
        invariant
            txs == transaction_views(transactions@),
            hashes@.len() >= 1,
            merkle_reduce(byte_views(hashes@)) == merkle_root(txs),
        decreases hashes@.len(),
    {
        let mut next = next_level(&hashes);
        proof {
            reveal(merkle_reduce);
        }
        if next.len() <= 1 {
            assert(next@[0]@ == byte_views(next@)[0]);
            assert(merkle_reduce(byte_views(hashes@)) == merkle_level(byte_views(hashes@))[0]);
            return next.swap_remove(0);
        }
        hashes = next;
    }
}

/// The root of the empty sequence is the all-zero digest, and a single
/// transaction's root is its leaf paired with itself.
pub proof fn lemma_merkle_root_small(t: TransactionView)
    ensures
        merkle_root(Seq::empty()) == zero_digest(),
        merkle_root(seq![t]) == blake3_of(
            blake3_of(transaction_bytes(t)) + blake3_of(transaction_bytes(t)),
        ),
{
    reveal(merkle_reduce);
    let h = leaf_digests(seq![t]);
    assert(merkle_level(h).len() == 1);
}

/// The root is a function of the ordered sequence alone, and the two
/// orders of a pair feed its leaves to the final digest in opposite order;
/// those inputs differ whenever the leaves are distinct and of equal length.
pub proof fn lemma_merkle_root_order(a: TransactionView, b: TransactionView, s1: Seq<TransactionView>, s2: Seq<TransactionView>)
    ensures
        s1 == s2 ==> merkle_root(s1) == merkle_root(s2),
        merkle_root(seq![a, b]) == blake3_of(
            blake3_of(transaction_bytes(a)) + blake3_of(transaction_bytes(b)),
        ),
        merkle_root(seq![b, a]) == blake3_of(
            blake3_of(transaction_bytes(b)) + blake3_of(transaction_bytes(a)),
        ),
        ({
            let la = blake3_of(transaction_bytes(a));
            let lb = blake3_of(transaction_bytes(b));
            la.len() == lb.len() && la != lb ==> la + lb != lb + la
        }),
{
    reveal(merkle_reduce);
    let hab = leaf_digests(seq![a, b]);
    let hba = leaf_digests(seq![b, a]);
    assert(merkle_level(hab).len() == 1);
    assert(merkle_level(hba).len() == 1);
    let la = blake3_of(transaction_bytes(a));
    let lb = blake3_of(transaction_bytes(b));
    if la.len() == lb.len() && la + lb == lb + la {
        assert((la + lb).subrange(0, la.len() as int) =~= la);
        assert((lb + la).subrange(0, la.len() as int) =~= lb);
    }
}

} // verus!
