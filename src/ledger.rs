//! The ledger state machine: unspent outputs, kernel history, validation
//! and block assembly.

use vstd::prelude::*;
use crate::block::{transaction_views, Block, BlockHeader, BlockHeaderView, BlockView};
use crate::commitment::{Commitment, CommitmentView};
use crate::encoding::bytes_eq;
use crate::errors::{MimblewimbleError, Result};
use crate::kernel::{kernel_accepts, Kernel, KernelView};
use crate::merkle::{compute_merkle_root, merkle_root, zero_digest};
use crate::parameters::MimblewimbleParameters;
use crate::range_proof::proof_accepts;
use crate::transaction::{commitment_views, Transaction, TransactionView};

verus! {

/// Protocol version written into every block header.
pub const MIMBLEWIMBLE_VERSION: u32 = 1;

// ---------------------------------------------------------------------------
// The model of validation and of the unspent-output set.

/// Sum of the committed amounts of a sequence.
pub open spec fn sum_values(s: Seq<CommitmentView>) -> nat
    decreases s.len(),
{
    if s.len() == 0 {
        0
    } else {
        (sum_values(s.drop_last()) + s.last().value) as nat
    }
}

/// Whether some commitment of `utxos` has digest `d`.
pub open spec fn has_digest(utxos: Seq<CommitmentView>, d: Seq<u8>) -> bool {
    exists|j: int| 0 <= j < utxos.len() && (#[trigger] utxos[j]).commitment == d
}

/// No digest occurs twice.
pub open spec fn digests_unique(s: Seq<CommitmentView>) -> bool {
    forall|i: int, j: int|
        0 <= i < s.len() && 0 <= j < s.len() && i != j ==> (#[trigger] s[i]).commitment
            != (#[trigger] s[j]).commitment
}

/// Every input of the transaction is in the unspent-output set.
pub open spec fn inputs_unspent(utxos: Seq<CommitmentView>, inputs: Seq<CommitmentView>) -> bool {
    forall|i: int| 0 <= i < inputs.len() ==> has_digest(utxos, (#[trigger] inputs[i]).commitment)
}

/// Every output's range proof is accepted under width `bits`.
pub open spec fn outputs_proved(outputs: Seq<CommitmentView>, bits: usize) -> bool {
    forall|i: int| 0 <= i < outputs.len() ==> proof_accepts((#[trigger] outputs[i]).range_proof, bits)
}

/// The input sum, or the output sum plus the fee, does not fit in 64 bits.
pub open spec fn sums_overflow(tx: TransactionView) -> bool {
    sum_values(tx.inputs) > u64::MAX || sum_values(tx.outputs) + tx.fee > u64::MAX
}

/// Inputs pay for the outputs and the fee exactly.
pub open spec fn balanced(tx: TransactionView) -> bool {
    sum_values(tx.inputs) == sum_values(tx.outputs) + tx.fee
}

/// The outcome of verifying `tx` against `utxos` under range proof width `bits`:
/// `false` when an input is missing, an error when a sum overflows, and
/// otherwise whether the balance, every range proof and the kernel hold.
pub open spec fn verification(utxos: Seq<CommitmentView>, bits: usize, tx: TransactionView) -> Result<bool> {
    if !inputs_unspent(utxos, tx.inputs) {
        Ok(false)
    } else if sums_overflow(tx) {
        Err(MimblewimbleError::InvalidTransaction)
    } else {
        Ok(balanced(tx) && outputs_proved(tx.outputs, bits) && kernel_accepts(tx.kernel))
    }
}

/// `s` without the commitments of digest `d`, order kept.
pub open spec fn without_digest(s: Seq<CommitmentView>, d: Seq<u8>) -> Seq<CommitmentView>
    decreases s.len(),
{
    if s.len() == 0 {
        s
    } else {
        let rest = without_digest(s.drop_last(), d);
        if s.last().commitment == d {
            rest
        } else {
            rest.push(s.last())
        }
    }
}

/// `s` after spending each input in turn.
pub open spec fn spend_all(s: Seq<CommitmentView>, inputs: Seq<CommitmentView>) -> Seq<CommitmentView>
    decreases inputs.len(),
{
    if inputs.len() == 0 {
        s
    } else {
        without_digest(spend_all(s, inputs.drop_last()), inputs.last().commitment)
    }
}

/// `s` with `c` inserted, replacing any commitment of the same digest.
pub open spec fn insert_output(s: Seq<CommitmentView>, c: CommitmentView) -> Seq<CommitmentView> {
    without_digest(s, c.commitment).push(c)
}

/// `s` after inserting each output in turn.
pub open spec fn insert_all(s: Seq<CommitmentView>, outputs: Seq<CommitmentView>) -> Seq<CommitmentView>
    decreases outputs.len(),
{
    if outputs.len() == 0 {
        s
    } else {
        insert_output(insert_all(s, outputs.drop_last()), outputs.last())
    }
}

/// The unspent-output set after applying an accepted transaction.
pub open spec fn apply_transaction(s: Seq<CommitmentView>, tx: TransactionView) -> Seq<CommitmentView> {
    insert_all(spend_all(s, tx.inputs), tx.outputs)
}

/// Mathematical model of a [`MimblewimbleState`].
pub struct LedgerView {
    pub parameters: MimblewimbleParameters,
    pub block_height: u64,
    pub utxos: Seq<CommitmentView>,
    pub kernels: Seq<KernelView>,
}

/// The ledger after `add_transaction(tx)`, or the error it reports.
pub open spec fn add_outcome(v: LedgerView, tx: TransactionView) -> Result<LedgerView> {
    match verification(v.utxos, v.parameters.range_proof_bits, tx) {
        Ok(true) => Ok(LedgerView {
            utxos: apply_transaction(v.utxos, tx),
            kernels: v.kernels.push(tx.kernel),
            ..v
        }),
        Ok(false) => Err(MimblewimbleError::InvalidTransaction),
        Err(e) => Err(e),
    }
}

/// Applies a batch in order against a working copy of `utxos`: the final
/// set, or the error of the first transaction that is not accepted.
pub open spec fn batch_outcome(utxos: Seq<CommitmentView>, bits: usize, txs: Seq<TransactionView>) -> Result<Seq<CommitmentView>>
    decreases txs.len(),
{
    if txs.len() == 0 {
        Ok(utxos)
    } else {
        match batch_outcome(utxos, bits, txs.drop_last()) {
            Err(e) => Err(e),
            Ok(w) => match verification(w, bits, txs.last()) {
                Ok(true) => Ok(apply_transaction(w, txs.last())),
                Ok(false) => Err(MimblewimbleError::InvalidTransaction),
                Err(e) => Err(e),
            },
        }
    }
}

// ---------------------------------------------------------------------------
// Facts about the model.

proof fn lemma_has_digest_push(s: Seq<CommitmentView>, c: CommitmentView, e: Seq<u8>)
    ensures
        has_digest(s.push(c), e) <==> (has_digest(s, e) || c.commitment == e),
{
    let t = s.push(c);
    if has_digest(t, e) {
        let j = choose|j: int| 0 <= j < t.len() && (#[trigger] t[j]).commitment == e;
        if j < s.len() {
            assert(s[j] == t[j]);
        }
    }
    if has_digest(s, e) {
        let j = choose|j: int| 0 <= j < s.len() && (#[trigger] s[j]).commitment == e;
        assert(t[j] == s[j]);
    }
    if c.commitment == e {
        assert(t[s.len() as int] == c);
    }
}

proof fn lemma_unique_push(s: Seq<CommitmentView>, c: CommitmentView)
    ensures
        digests_unique(s.push(c)) <==> (digests_unique(s) && !has_digest(s, c.commitment)),
{
    let t = s.push(c);
    if digests_unique(t) {
        assert forall|i: int, j: int|
            0 <= i < s.len() && 0 <= j < s.len() && i != j implies (#[trigger] s[i]).commitment
                != (#[trigger] s[j]).commitment by {
            assert(t[i] == s[i] && t[j] == s[j]);
        }
        if has_digest(s, c.commitment) {
            let j = choose|j: int| 0 <= j < s.len() && (#[trigger] s[j]).commitment == c.commitment;
            assert(t[j] == s[j] && t[s.len() as int] == c);
        }
    }
    if digests_unique(s) && !has_digest(s, c.commitment) {
        assert forall|i: int, j: int|
            0 <= i < t.len() && 0 <= j < t.len() && i != j implies (#[trigger] t[i]).commitment
                != (#[trigger] t[j]).commitment by {
            if i < s.len() && j < s.len() {
                assert(t[i] == s[i] && t[j] == s[j]);
            } else if i < s.len() {
                assert(t[i] == s[i]);
            } else if j < s.len() {
                assert(t[j] == s[j]);
            }
        }
    }
}

proof fn lemma_without_digest(s: Seq<CommitmentView>, d: Seq<u8>)
    ensures
        forall|e: Seq<u8>| #[trigger]
            has_digest(without_digest(s, d), e) <==> (has_digest(s, e) && e != d),
        digests_unique(s) ==> digests_unique(without_digest(s, d)),
    decreases s.len(),
{
    if s.len() > 0 {
        let p = s.drop_last();
        let l = s.last();
        assert(s =~= p.push(l));
        lemma_without_digest(p, d);
        let rest = without_digest(p, d);
        assert forall|e: Seq<u8>| #[trigger]
            has_digest(without_digest(s, d), e) <==> (has_digest(s, e) && e != d) by {
            lemma_has_digest_push(p, l, e);
            lemma_has_digest_push(rest, l, e);
        }
        lemma_unique_push(p, l);
        lemma_unique_push(rest, l);
    }
}

proof fn lemma_spend_all(s: Seq<CommitmentView>, ins: Seq<CommitmentView>)
    ensures
        forall|e: Seq<u8>| #[trigger]
            has_digest(spend_all(s, ins), e) <==> (has_digest(s, e) && !has_digest(ins, e)),
        digests_unique(s) ==> digests_unique(spend_all(s, ins)),
    decreases ins.len(),
{
    if ins.len() > 0 {
        let p = ins.drop_last();
        let l = ins.last();
        assert(ins =~= p.push(l));
        lemma_spend_all(s, p);
        lemma_without_digest(spend_all(s, p), l.commitment);
        assert forall|e: Seq<u8>| #[trigger]
            has_digest(spend_all(s, ins), e) <==> (has_digest(s, e) && !has_digest(ins, e)) by {
            lemma_has_digest_push(p, l, e);
        }
    }
}

proof fn lemma_insert_all(s: Seq<CommitmentView>, outs: Seq<CommitmentView>)
    ensures
        forall|e: Seq<u8>| #[trigger]
            has_digest(insert_all(s, outs), e) <==> (has_digest(s, e) || has_digest(outs, e)),
        digests_unique(s) ==> digests_unique(insert_all(s, outs)),
    decreases outs.len(),
{
    if outs.len() > 0 {
        let p = outs.drop_last();
        let l = outs.last();
        assert(outs =~= p.push(l));
        lemma_insert_all(s, p);
        let t = insert_all(s, p);
        lemma_without_digest(t, l.commitment);
        let kept = without_digest(t, l.commitment);
        assert forall|e: Seq<u8>| #[trigger]
            has_digest(insert_all(s, outs), e) <==> (has_digest(s, e) || has_digest(outs, e)) by {
            lemma_has_digest_push(p, l, e);
            lemma_has_digest_push(kept, l, e);
        }
        lemma_unique_push(kept, l);
    }
}

proof fn lemma_sum_prefix(s: Seq<CommitmentView>, k: int)
    requires
        0 <= k <= s.len(),
    ensures
        sum_values(s.subrange(0, k)) <= sum_values(s),
    decreases s.len(),
{
    if k < s.len() {
        assert(s.drop_last().subrange(0, k) =~= s.subrange(0, k));
        lemma_sum_prefix(s.drop_last(), k);
    } else {
        assert(s.subrange(0, k) =~= s);
    }
}

proof fn lemma_batch_error_stays(u: Seq<CommitmentView>, bits: usize, txs: Seq<TransactionView>, i: int)
    requires
        0 <= i <= txs.len(),
        batch_outcome(u, bits, txs.subrange(0, i)) is Err,
    ensures
        batch_outcome(u, bits, txs) == batch_outcome(u, bits, txs.subrange(0, i)),
    decreases txs.len(),
{
    if i == txs.len() {
        assert(txs.subrange(0, i) =~= txs);
    } else {
        assert(txs.drop_last().subrange(0, i) =~= txs.subrange(0, i));
        lemma_batch_error_stays(u, bits, txs.drop_last(), i);
    }
}

/// Applying an accepted transaction keeps every digest of the unspent-output
/// set distinct.
pub proof fn lemma_apply_keeps_digests_unique(s: Seq<CommitmentView>, tx: TransactionView)
    requires
        digests_unique(s),
    ensures
        digests_unique(apply_transaction(s, tx)),
{
    lemma_spend_all(s, tx.inputs);
    lemma_insert_all(spend_all(s, tx.inputs), tx.outputs);
}

/// Every accepted transaction balances exactly: its inputs sum to its outputs plus its fee.
pub proof fn lemma_accepted_is_balanced(v: LedgerView, tx: TransactionView)
    requires
        add_outcome(v, tx) is Ok,
    ensures
        sum_values(tx.inputs) == sum_values(tx.outputs) + tx.fee,
{
}

/// A transaction with an input outside the unspent-output set is rejected,
/// and a rejected `add_transaction` leaves the ledger as it was.
pub proof fn lemma_missing_input_rejected(v: LedgerView, tx: TransactionView, i: int)
    requires
        0 <= i < tx.inputs.len(),
        !has_digest(v.utxos, tx.inputs[i].commitment),
    ensures
        add_outcome(v, tx) == Err::<LedgerView, MimblewimbleError>(MimblewimbleError::InvalidTransaction),
{
}

/// Once a transaction that spends an output has been accepted, a second
/// transaction spending that same output is rejected (unless the first one
/// re-created an output of that digest).
pub proof fn lemma_double_spend_rejected(
    v: LedgerView,
    tx1: TransactionView,
    tx2: TransactionView,
    i: int,
    k: int,
)
    requires
        add_outcome(v, tx1) is Ok,
        0 <= i < tx1.inputs.len(),
        0 <= k < tx2.inputs.len(),
        tx2.inputs[k].commitment == tx1.inputs[i].commitment,
        !has_digest(tx1.outputs, tx1.inputs[i].commitment),
    ensures
        add_outcome(add_outcome(v, tx1)->Ok_0, tx2) == Err::<LedgerView, MimblewimbleError>(
            MimblewimbleError::InvalidTransaction,
        ),
{
    let d = tx1.inputs[i].commitment;
    lemma_spend_all(v.utxos, tx1.inputs);
    lemma_insert_all(spend_all(v.utxos, tx1.inputs), tx1.outputs);
    assert(has_digest(tx1.inputs, d));
    assert(!has_digest(apply_transaction(v.utxos, tx1), d));
    assert(!inputs_unspent(apply_transaction(v.utxos, tx1), tx2.inputs));
}

// ---------------------------------------------------------------------------
// Operations on an unspent-output set.

fn contains_digest(utxos: &Vec<Commitment>, d: &[u8]) -> (r: bool)
    ensures
        r == has_digest(commitment_views(utxos@), d@),
{
    let ghost s = commitment_views(utxos@);
    let n = utxos.len();
    let mut i: usize = 0;
    while i < n
        invariant
            n == utxos@.len(),
            s == commitment_views(utxos@),
            i <= n,
            forall|j: int| 0 <= j < i ==> (#[trigger] s[j]).commitment != d@,
        decreases n - i,
    {
        if bytes_eq(utxos[i].commitment.as_slice(), d) {
            assert(s[i as int].commitment == d@);
            return true;
        }
        i = i + 1;
    }
    false
}

fn remove_digest(utxos: &Vec<Commitment>, d: &[u8]) -> (r: Vec<Commitment>)
    ensures
        commitment_views(r@) == without_digest(commitment_views(utxos@), d@),
{
    let ghost s = commitment_views(utxos@);
    let n = utxos.len();
    let mut kept: Vec<Commitment> = Vec::new();
    let mut i: usize = 0;
    while i < n
        invariant
            n == utxos@.len(),
            s == commitment_views(utxos@),
            i <= n,
            commitment_views(kept@) == without_digest(s.subrange(0, i as int), d@),
        decreases n - i,
    {
        let ghost before = kept@;
        proof {
            assert(s.subrange(0, i + 1).drop_last() =~= s.subrange(0, i as int));
            assert(s.subrange(0, i + 1).last() == utxos@[i as int]@);
        }
        if !bytes_eq(utxos[i].commitment.as_slice(), d) {
            let c = utxos[i].clone();
            kept.push(c);
            assert(commitment_views(kept@) =~= commitment_views(before).push(utxos@[i as int]@));
        }
        i = i + 1;
    }
    assert(s.subrange(0, n as int) =~= s);
    kept
}

fn sum_amounts(s: &Vec<Commitment>) -> (r: Option<u64>)
    ensures
        match r {
            Some(x) => x == sum_values(commitment_views(s@)),
            None => sum_values(commitment_views(s@)) > u64::MAX,
        },
{
    let ghost v = commitment_views(s@);
    let n = s.len();
    let mut acc: u64 = 0;
    let mut i: usize = 0;
    while i < n
        invariant
            n == s@.len(),
            v == commitment_views(s@),
            i <= n,
            acc == sum_values(v.subrange(0, i as int)),
        decreases n - i,
    {
        proof {
            assert(v.subrange(0, i + 1).drop_last() =~= v.subrange(0, i as int));
        }
        let x = s[i].value;
        if acc > u64::MAX - x {
            proof {
                lemma_sum_prefix(v, i + 1);
            }
            return None;
        }
        acc = acc + x;
        i = i + 1;
    }
    assert(v.subrange(0, n as int) =~= v);
    Some(acc)
}

/// Verifies `tx` against the unspent-output set `utxos`.
fn check_transaction(
    parameters: &MimblewimbleParameters,
    utxos: &Vec<Commitment>,
    tx: &Transaction,
) -> (r: Result<bool>)
    ensures
        r == verification(commitment_views(utxos@), parameters.range_proof_bits, tx@),
{
    let ghost t = tx@;
    let ghost u = commitment_views(utxos@);
    let n_in = tx.inputs.len();
    let mut i: usize = 0;
    while i < n_in
        invariant
            n_in == tx.inputs@.len(),
            t == tx@,
            u == commitment_views(utxos@),
            i <= n_in,
            forall|j: int| 0 <= j < i ==> has_digest(u, (#[trigger] t.inputs[j]).commitment),
        decreases n_in - i,
    {
        if !contains_digest(utxos, tx.inputs[i].commitment.as_slice()) {
            assert(!has_digest(u, t.inputs[i as int].commitment));
            return Ok(false);
        }
        i = i + 1;
    }
    let input_sum = match sum_amounts(&tx.inputs) {
        Some(x) => x,
        None => return Err(MimblewimbleError::InvalidTransaction),
    };
    let output_sum = match sum_amounts(&tx.outputs) {
        Some(x) => x,
        None => return Err(MimblewimbleError::InvalidTransaction),
    };
    if output_sum > u64::MAX - tx.fee {
        return Err(MimblewimbleError::InvalidTransaction);
    }
    if input_sum != output_sum + tx.fee {
        return Ok(false);
    }
    assert(inputs_unspent(u, t.inputs));
    assert(!sums_overflow(t) && balanced(t));
    let n_out = tx.outputs.len();
    let mut k: usize = 0;
    while k < n_out
        invariant
            n_out == tx.outputs@.len(),
            t == tx@,
            u == commitment_views(utxos@),
            inputs_unspent(u, t.inputs),
            !sums_overflow(t),
            balanced(t),
            k <= n_out,
            forall|j: int|
                0 <= j < k ==> proof_accepts(
                    (#[trigger] t.outputs[j]).range_proof,
                    parameters.range_proof_bits,
                ),
        decreases n_out - k,
    {
        match tx.outputs[k].range_proof.verify(parameters) {
            Ok(true) => {},
            Ok(false) => {
                assert(!proof_accepts(t.outputs[k as int].range_proof, parameters.range_proof_bits));
                return Ok(false);
            },
            Err(e) => return Err(e),
        }
        k = k + 1;
    }
    tx.kernel.verify(parameters)
}

/// Applies an accepted transaction to `utxos`: spends every input, then
/// inserts every output.
fn apply_to(utxos: &mut Vec<Commitment>, tx: &Transaction)
    ensures
        commitment_views(final(utxos)@) == apply_transaction(commitment_views(old(utxos)@), tx@),
{
    let ghost t = tx@;
    let ghost start = commitment_views(utxos@);
    let n_in = tx.inputs.len();
    let mut i: usize = 0;
    while i < n_in
        invariant
            n_in == tx.inputs@.len(),
            t == tx@,
            i <= n_in,
            commitment_views(utxos@) == spend_all(start, t.inputs.subrange(0, i as int)),
        decreases n_in - i,
    {
        proof {
            assert(t.inputs.subrange(0, i + 1).drop_last() =~= t.inputs.subrange(0, i as int));
            assert(t.inputs.subrange(0, i + 1).last() == tx.inputs@[i as int]@);
        }
        let kept = remove_digest(utxos, tx.inputs[i].commitment.as_slice());
        *utxos = kept;
        i = i + 1;
    }
    assert(t.inputs.subrange(0, n_in as int) =~= t.inputs);
    let ghost mid = commitment_views(utxos@);
    let n_out = tx.outputs.len();
    let mut k: usize = 0;
    while k < n_out
        invariant
            n_out == tx.outputs@.len(),
            t == tx@,
            k <= n_out,
            mid == spend_all(start, t.inputs),
            commitment_views(utxos@) == insert_all(mid, t.outputs.subrange(0, k as int)),
        decreases n_out - k,
    {
        proof {
            assert(t.outputs.subrange(0, k + 1).drop_last() =~= t.outputs.subrange(0, k as int));
            assert(t.outputs.subrange(0, k + 1).last() == tx.outputs@[k as int]@);
        }
        let mut kept = remove_digest(utxos, tx.outputs[k].commitment.as_slice());
        let ghost before = kept@;
        kept.push(tx.outputs[k].clone());
        assert(commitment_views(kept@) =~= commitment_views(before).push(tx.outputs@[k as int]@));
        *utxos = kept;
        k = k + 1;
    }
    assert(t.outputs.subrange(0, n_out as int) =~= t.outputs);
}

fn copy_commitments(v: &Vec<Commitment>) -> (r: Vec<Commitment>)
    ensures
        commitment_views(r@) == commitment_views(v@),
{
    let n = v.len();
    let mut out: Vec<Commitment> = Vec::new();
    let mut i: usize = 0;
    while i < n
        invariant
            n == v@.len(),
            i <= n,
            out@.len() == i,
            commitment_views(out@) == commitment_views(v@).subrange(0, i as int),
        decreases n - i,
    {
        let c = v[i].clone();
        out.push(c);
        proof {
            assert(commitment_views(out@)[i as int] == commitment_views(v@)[i as int]);
        }
        i = i + 1;
        assert(commitment_views(out@) =~= commitment_views(v@).subrange(0, i as int));
    }
    assert(commitment_views(v@).subrange(0, n as int) =~= commitment_views(v@));
    out
}

// ---------------------------------------------------------------------------
// The ledger.

/// The models of a sequence of kernels.
pub open spec fn kernel_views(s: Seq<Kernel>) -> Seq<KernelView> {
    s.map_values(|k: Kernel| k@)
}

/// The block `create_block` assembles from an accepted batch.
pub open spec fn assembled_block(v: LedgerView, txs: Seq<TransactionView>, timestamp: u64) -> BlockView {
    BlockView {
        header: BlockHeaderView {
            version: MIMBLEWIMBLE_VERSION,
            height: v.block_height,
            timestamp,
            previous_hash: zero_digest(),
            merkle_root: merkle_root(txs),
        },
        transactions: txs,
    }
}

/// Owns the unspent-output set and the kernel history.
///
/// Mutation takes `&mut self`, so verifying a transaction and applying it
/// happen under one exclusive borrow; callers that share a ledger between
/// threads wrap it in a reader-writer lock.
#[derive(Debug)]
pub struct MimblewimbleState {
    parameters: MimblewimbleParameters,
    block_height: u64,
    utxo_set: Vec<Commitment>,
    kernel_set: Vec<Kernel>,
}

impl View for MimblewimbleState {
    type V = LedgerView;

    closed spec fn view(&self) -> LedgerView {
        LedgerView {
            parameters: self.parameters,
            block_height: self.block_height,
            utxos: commitment_views(self.utxo_set@),
            kernels: kernel_views(self.kernel_set@),
        }
    }
}

impl MimblewimbleState {
    /// Valid parameters, and no digest twice in the unspent-output set.
    pub open spec fn wf(&self) -> bool {
        self@.parameters.is_valid() && digests_unique(self@.utxos)
    }

    /// An empty ledger at height zero; fails with `InvalidParameter` exactly
    /// when the parameters are invalid.
    pub fn new(parameters: MimblewimbleParameters) -> (r: Result<Self>)
        ensures
            match r {
                Ok(s) => {
                    &&& parameters.is_valid()
                    &&& s.wf()
                    &&& s@ == (LedgerView {
                        parameters,
                        block_height: 0,
                        utxos: Seq::empty(),
                        kernels: Seq::empty(),
                    })
                },
                Err(e) => !parameters.is_valid() && e == MimblewimbleError::InvalidParameter,
            },
    {
        match parameters.validate() {
            Ok(()) => {},
            Err(e) => return Err(e),
        }
        let s = MimblewimbleState {
            parameters,
            block_height: 0,
            utxo_set: Vec::new(),
            kernel_set: Vec::new(),
        };
        assert(s@.utxos =~= Seq::<CommitmentView>::empty());
        assert(s@.kernels =~= Seq::<KernelView>::empty());
        Ok(s)
    }

    /// Verifies `tx` against the current unspent-output set without changing it.
    pub fn verify_transaction(&self, transaction: &Transaction) -> (r: Result<bool>)
        ensures
            r == verification(self@.utxos, self@.parameters.range_proof_bits, transaction@),
    {
        check_transaction(&self.parameters, &self.utxo_set, transaction)
    }

    /// Verifies `tx` and, when it is accepted, spends its inputs, inserts its
    /// outputs and appends its kernel. A rejected transaction is reported as
    /// `InvalidTransaction` and leaves the ledger unchanged.
    pub fn add_transaction(&mut self, transaction: &Transaction) -> (r: Result<()>)
        requires
            old(self).wf(),
        ensures
            final(self).wf(),
            match add_outcome(old(self)@, transaction@) {
                Ok(v) => r is Ok && final(self)@ == v,
                Err(e) => r == Err::<(), MimblewimbleError>(e) && final(self)@ == old(self)@,
            },
    {
        match check_transaction(&self.parameters, &self.utxo_set, transaction) {
            Ok(true) => {},
            Ok(false) => return Err(MimblewimbleError::InvalidTransaction),
            Err(e) => return Err(e),
        }
        proof {
            lemma_apply_keeps_digests_unique(self@.utxos, transaction@);
        }
        apply_to(&mut self.utxo_set, transaction);
        let ghost before = self.kernel_set@;
        self.kernel_set.push(transaction.kernel.clone());
        assert(kernel_views(self.kernel_set@) =~= kernel_views(before).push(transaction@.kernel));
        Ok(())
    }

    /// Applies `transactions` in order to a working copy of the unspent-output
    /// set and, when every one is accepted, returns the block holding them at
    /// the current height. The first rejection is reported: a verification
    /// error as it is, a rejected transaction as `InvalidTransaction`. Two
    /// transactions of one batch that spend the same output are therefore
    /// refused. The ledger itself is not changed.
    pub fn create_block(&self, transactions: Vec<Transaction>, timestamp: u64) -> (r: Result<Block>)
        ensures
            match batch_outcome(self@.utxos, self@.parameters.range_proof_bits, transaction_views(transactions@)) {
                Ok(_) => r matches Ok(b) && b@ == assembled_block(self@, transaction_views(transactions@), timestamp),
                Err(e) => r == Err::<Block, MimblewimbleError>(e),
            },
    {
        let ghost txs = transaction_views(transactions@);
        let ghost bits = self@.parameters.range_proof_bits;
        let mut working = copy_commitments(&self.utxo_set);
        let n = transactions.len();
        let mut i: usize = 0;
        assert(txs.subrange(0, 0) =~= Seq::<TransactionView>::empty());
        while i < n
            invariant
                n == transactions@.len(),
                txs == transaction_views(transactions@),
                bits == self.parameters.range_proof_bits,
                bits == self@.parameters.range_proof_bits,
                i <= n,
                batch_outcome(self@.utxos, bits, txs.subrange(0, i as int))
                    == Ok::<Seq<CommitmentView>, MimblewimbleError>(commitment_views(working@)),
            decreases n - i,
        {
            proof {
                assert(txs.subrange(0, i + 1).drop_last() =~= txs.subrange(0, i as int));
                assert(txs.subrange(0, i + 1).last() == transactions@[i as int]@);
            }
            match check_transaction(&self.parameters, &working, &transactions[i]) {
                Ok(true) => {},
                Ok(false) => {
                    proof {
                        lemma_batch_error_stays(self@.utxos, bits, txs, i + 1);
                    }
                    return Err(MimblewimbleError::InvalidTransaction);
                },
                Err(e) => {
                    proof {
                        lemma_batch_error_stays(self@.utxos, bits, txs, i + 1);
                    }
                    return Err(e);
                },
            }
            apply_to(&mut working, &transactions[i]);
            i = i + 1;
        }
        assert(txs.subrange(0, n as int) =~= txs);
        let merkle_root = compute_merkle_root(transactions.as_slice());
        let header = BlockHeader {
            version: MIMBLEWIMBLE_VERSION,
            height: self.block_height,
            timestamp,
            previous_hash: crate::merkle::zero_digest_bytes(),
            merkle_root,
        };
        Ok(Block { header, transactions })
    }

    pub fn block_height(&self) -> (r: u64)
        ensures
            r == self@.block_height,
    {
        self.block_height
    }

    /// Number of unspent outputs.
    pub fn utxo_set_size(&self) -> (r: usize)
        ensures
            r == self@.utxos.len(),
    {
        self.utxo_set.len()
    }

    /// Number of kernels in the history.
    pub fn kernel_set_size(&self) -> (r: usize)
        ensures
            r == self@.kernels.len(),
    {
        self.kernel_set.len()
    }

    pub fn parameters(&self) -> (r: &MimblewimbleParameters)
        ensures
            *r == self@.parameters,
    {
        &self.parameters
    }
}

} // verus!
