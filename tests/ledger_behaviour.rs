use silver_mimblewimble::kernel::KernelFeatures;
use silver_mimblewimble::{
    compute_merkle_root, Commitment, Kernel, MimblewimbleError, MimblewimbleParameters, MimblewimbleState,
    Proof, ProofType, RangeProof, Transaction, MIMBLEWIMBLE_VERSION,
};

fn params() -> MimblewimbleParameters {
    MimblewimbleParameters::default()
}

fn kernel(fee: u64) -> Kernel {
    Kernel::new(KernelFeatures::Plain, fee, 0, vec![1; 32], vec![2; 64])
}

fn output(value: u64, seed: u8) -> Commitment {
    let proof = RangeProof::create(value, &params()).unwrap();
    Commitment::new(value, vec![seed; 32], proof).unwrap()
}

fn tx(inputs: Vec<Commitment>, outputs: Vec<Commitment>, fee: u64) -> Transaction {
    Transaction::new(1, inputs, outputs, kernel(fee), fee)
}

/// A ledger holding one zero-value output with blinding `[seed; 32]`.
fn ledger_with(seed: u8) -> MimblewimbleState {
    let mut state = MimblewimbleState::new(params()).unwrap();
    state.add_transaction(&tx(vec![], vec![output(0, seed)], 0)).unwrap();
    state
}

fn le_field(b: &[u8]) -> Vec<u8> {
    let mut v = (b.len() as u64).to_le_bytes().to_vec();
    v.extend_from_slice(b);
    v
}

#[test]
fn accepted_transaction_balances() {
    let mut state = ledger_with(7);
    let t = tx(vec![output(0, 7)], vec![output(0, 8)], 0);
    assert_eq!(state.verify_transaction(&t), Ok(true));
    assert!(state.add_transaction(&t).is_ok());
    assert_eq!(state.utxo_set_size(), 1);
    assert_eq!(state.kernel_set_size(), 2);
}

#[test]
fn unbalanced_transaction_is_rejected() {
    let state = ledger_with(7);
    let t = tx(vec![output(0, 7)], vec![output(1, 8)], 0);
    assert_eq!(state.verify_transaction(&t), Ok(false));
    let t = tx(vec![output(0, 7)], vec![output(0, 8)], 1);
    assert_eq!(state.verify_transaction(&t), Ok(false));
}

#[test]
fn missing_input_leaves_state_unchanged() {
    let mut state = ledger_with(7);
    let t = tx(vec![output(0, 9)], vec![], 0);
    assert_eq!(state.verify_transaction(&t), Ok(false));
    assert_eq!(state.add_transaction(&t), Err(MimblewimbleError::InvalidTransaction));
    assert_eq!(state.utxo_set_size(), 1);
    assert_eq!(state.kernel_set_size(), 1);
    // the same blinding with another amount is another commitment
    let t = tx(vec![output(5, 7)], vec![output(5, 8)], 0);
    assert_eq!(state.add_transaction(&t), Err(MimblewimbleError::InvalidTransaction));
    assert_eq!(state.utxo_set_size(), 1);
}

#[test]
fn spending_twice_is_rejected() {
    let mut state = ledger_with(7);
    let first = tx(vec![output(0, 7)], vec![output(0, 8)], 0);
    let second = tx(vec![output(0, 7)], vec![output(0, 9)], 0);
    assert!(state.add_transaction(&first).is_ok());
    assert_eq!(state.add_transaction(&second), Err(MimblewimbleError::InvalidTransaction));
    assert_eq!(state.utxo_set_size(), 1);
    assert_eq!(state.kernel_set_size(), 2);
}

#[test]
fn duplicate_output_replaces_existing_entry() {
    let mut state = ledger_with(7);
    assert!(state.add_transaction(&tx(vec![], vec![output(0, 7), output(0, 7)], 0)).is_ok());
    assert_eq!(state.utxo_set_size(), 1);
}

#[test]
fn overflowing_sums_are_errors() {
    let state = ledger_with(7);
    let t = tx(vec![], vec![output(u64::MAX, 1)], 1);
    assert_eq!(state.verify_transaction(&t), Err(MimblewimbleError::InvalidTransaction));
    let t = tx(vec![], vec![output(u64::MAX, 1), output(1, 2)], 0);
    assert_eq!(state.verify_transaction(&t), Err(MimblewimbleError::InvalidTransaction));
}

#[test]
fn failing_range_proof_or_kernel_rejects() {
    let state = ledger_with(7);
    let short = Commitment::new(0, vec![3; 32], RangeProof::new(vec![0; 7])).unwrap();
    assert_eq!(state.verify_transaction(&tx(vec![], vec![short], 0)), Ok(false));
    let no_sig = Kernel::new(KernelFeatures::Plain, 0, 0, vec![1; 32], vec![]);
    let t = Transaction::new(1, vec![], vec![], no_sig, 0);
    assert_eq!(state.verify_transaction(&t), Ok(false));
    let t = tx(vec![], vec![], 0);
    assert_eq!(state.verify_transaction(&t), Ok(true));
}

#[test]
fn omitted_inputs_and_outputs_fail_on_balance() {
    let state = MimblewimbleState::new(params()).unwrap();
    let k = Kernel::new(KernelFeatures::Plain, 100, 0, vec![1; 32], vec![2; 64]);
    let t = Transaction::new(1, vec![], vec![], k, 100);
    assert_eq!(state.verify_transaction(&t), Ok(false));
}

#[test]
fn merkle_root_of_empty_is_zero() {
    assert_eq!(compute_merkle_root(&[]), vec![0u8; 32]);
}

#[test]
fn merkle_root_of_one_pairs_leaf_with_itself() {
    let t = tx(vec![], vec![output(0, 1)], 0);
    let leaf = t.hash();
    assert_eq!(leaf, blake3::hash(&t.to_bytes()).as_bytes().to_vec());
    let mut pair = leaf.clone();
    pair.extend_from_slice(&leaf);
    let expected = blake3::hash(&pair).as_bytes().to_vec();
    assert_eq!(compute_merkle_root(&[t]), expected);
}

#[test]
fn merkle_root_of_three_pairs_last_with_itself() {
    let txs = vec![tx(vec![], vec![output(0, 1)], 0), tx(vec![], vec![output(0, 2)], 0), tx(vec![], vec![output(0, 3)], 0)];
    let h: Vec<Vec<u8>> = txs.iter().map(|t| t.hash()).collect();
    let node = |a: &[u8], b: &[u8]| {
        let mut v = a.to_vec();
        v.extend_from_slice(b);
        blake3::hash(&v).as_bytes().to_vec()
    };
    let expected = node(&node(&h[0], &h[1]), &node(&h[2], &h[2]));
    assert_eq!(compute_merkle_root(&txs), expected);
}

#[test]
fn merkle_root_depends_on_order() {
    let a = tx(vec![], vec![output(0, 1)], 0);
    let b = tx(vec![], vec![output(0, 2)], 0);
    let ab = compute_merkle_root(&[a.clone(), b.clone()]);
    let ba = compute_merkle_root(&[b.clone(), a.clone()]);
    assert_ne!(ab, ba);
    assert_eq!(ab, compute_merkle_root(&[a, b]));
}

#[test]
fn range_proof_round_trip() {
    for bits in [32usize, 64, 128, 256, 263, 264, 512, 1000, 1024, 4096, 65536] {
        let mut p = params();
        p.range_proof_bits = bits;
        assert!(p.validate().is_ok());
        let blocks = if bits / 8 <= 32 { 1 } else { (bits / 8 + 31) / 32 };
        for amount in [0u64, 1, 1000, u64::MAX] {
            let proof = RangeProof::create(amount, &p).unwrap();
            assert_eq!(proof.proof_data.len(), 32 * blocks);
            assert!(proof.proof_data.len() >= bits / 8);
            assert_eq!(proof.verify(&p), Ok(true));
        }
    }
}

#[test]
fn wide_ledger_accepts_outputs() {
    let mut p = params();
    p.range_proof_bits = 512;
    let mut state = MimblewimbleState::new(p.clone()).unwrap();
    let proof = RangeProof::create(0, &p).unwrap();
    let out = Commitment::new(0, vec![4; 32], proof).unwrap();
    assert!(state.add_transaction(&tx(vec![], vec![out], 0)).is_ok());
    assert_eq!(state.utxo_set_size(), 1);
}

#[test]
fn range_proof_payload_is_digest_of_amount_and_width() {
    let block = |value: u64, bits: u64, j: u64| {
        let mut input = value.to_le_bytes().to_vec();
        input.extend_from_slice(&bits.to_le_bytes());
        input.extend_from_slice(&j.to_le_bytes());
        blake3::hash(&input).as_bytes().to_vec()
    };
    let proof = RangeProof::create(1000, &params()).unwrap();
    assert_eq!(proof.proof_data, block(1000, 64, 0));
    let mut p = params();
    p.range_proof_bits = 520;
    let wide = RangeProof::create(7, &p).unwrap();
    let mut expected = block(7, 520, 0);
    expected.extend_from_slice(&block(7, 520, 1));
    expected.extend_from_slice(&block(7, 520, 2));
    assert_eq!(wide.proof_data, expected);
}

#[test]
fn short_range_proof_fails() {
    let p = params();
    assert_eq!(RangeProof::new(vec![0; 7]).verify(&p), Ok(false));
    assert_eq!(RangeProof::new(vec![0; 8]).verify(&p), Ok(true));
}

#[test]
fn parameter_bounds() {
    assert!(params().validate().is_ok());
    let mut p = params();
    p.range_proof_bits = 16;
    assert_eq!(p.validate(), Err(MimblewimbleError::InvalidParameter));
    let mut p = params();
    p.max_block_size = p.max_transaction_size - 1;
    assert_eq!(p.validate(), Err(MimblewimbleError::InvalidParameter));
    let mut p = params();
    p.max_transaction_size = 0;
    assert!(p.validate().is_err());
    let mut p = params();
    p.target_block_time = 0;
    assert!(p.validate().is_err());
    let mut p = params();
    p.difficulty_adjustment_interval = 0;
    assert!(p.validate().is_err());
    let mut p = params();
    p.range_proof_bits = 32;
    p.max_block_size = p.max_transaction_size;
    assert!(p.validate().is_ok());
}

#[test]
fn default_parameter_values() {
    let p = params();
    assert_eq!(p.commitment_scheme, "pedersen");
    assert_eq!(p.range_proof_bits, 64);
    assert_eq!(p.max_transaction_size, 1_000_000);
    assert_eq!(p.max_block_size, 10_000_000);
    assert_eq!(p.target_block_time, 30);
    assert_eq!(p.difficulty_adjustment_interval, 2016);
    assert!(p.pruning_enabled);
    assert_eq!(p.pruning_interval, 10_000);
    assert_eq!(p.max_utxo_set_size, 1_000_000);
}

#[test]
fn invalid_parameters_refuse_a_ledger() {
    let mut p = params();
    p.target_block_time = 0;
    assert_eq!(MimblewimbleState::new(p).unwrap_err(), MimblewimbleError::InvalidParameter);
}

#[test]
fn commitment_digest_covers_amount_and_blinding() {
    let c = Commitment::new(1000, vec![42; 32], RangeProof::new(vec![1; 64])).unwrap();
    let mut input = 1000u64.to_le_bytes().to_vec();
    input.extend_from_slice(&le_field(&[42; 32]));
    assert_eq!(c.commitment(), blake3::hash(&input).as_bytes());
    assert_eq!(c.value(), 1000);
    assert_eq!(c.blinding(), &[42u8; 32][..]);
}

#[test]
fn commitments_compare_by_digest() {
    let a = Commitment::new(5, vec![1; 32], RangeProof::new(vec![1; 8])).unwrap();
    let b = Commitment::new(5, vec![1; 32], RangeProof::new(vec![9; 40])).unwrap();
    let c = Commitment::new(6, vec![1; 32], RangeProof::new(vec![1; 8])).unwrap();
    assert!(a == b);
    assert!(a != c);
}

#[test]
fn kernel_with_empty_parts_fails() {
    let p = params();
    assert_eq!(Kernel::new(KernelFeatures::Coinbase, 1, 2, vec![], vec![1]).verify(&p), Ok(false));
    assert_eq!(Kernel::new(KernelFeatures::HeightLocked, 1, 2, vec![1], vec![]).verify(&p), Ok(false));
    assert_eq!(Kernel::new(KernelFeatures::HeightLocked, 1, 2, vec![1], vec![1]).verify(&p), Ok(true));
}

#[test]
fn transaction_size_and_hash() {
    let t = tx(vec![], vec![], 100);
    assert_eq!(t.size(), 157);
    let mut bytes = 1u32.to_le_bytes().to_vec();
    bytes.extend_from_slice(&0u64.to_le_bytes());
    bytes.extend_from_slice(&0u64.to_le_bytes());
    bytes.push(0);
    bytes.extend_from_slice(&100u64.to_le_bytes());
    bytes.extend_from_slice(&0u64.to_le_bytes());
    bytes.extend_from_slice(&le_field(&[1; 32]));
    bytes.extend_from_slice(&le_field(&[2; 64]));
    bytes.extend_from_slice(&100u64.to_le_bytes());
    assert_eq!(t.to_bytes(), bytes);
    assert_eq!(t.hash(), blake3::hash(&bytes).as_bytes().to_vec());
}

#[test]
fn proof_hash_covers_data_and_kind() {
    let p = Proof::new(vec![1; 64], ProofType::Kernel);
    let mut bytes = le_field(&[1; 64]);
    bytes.push(1);
    assert_eq!(p.hash(), blake3::hash(&bytes).as_bytes().to_vec());
    assert_ne!(p.hash(), Proof::new(vec![1; 64], ProofType::Block).hash());
}

#[test]
fn block_is_assembled_from_accepted_batch() {
    let state = ledger_with(7);
    let txs = vec![tx(vec![output(0, 7)], vec![output(0, 8)], 0), tx(vec![output(0, 8)], vec![], 0)];
    let root = compute_merkle_root(&txs);
    let block = state.create_block(txs, 1234).unwrap();
    assert_eq!(block.header.version, MIMBLEWIMBLE_VERSION);
    assert_eq!(block.header.height, 0);
    assert_eq!(block.header.timestamp, 1234);
    assert_eq!(block.header.previous_hash, vec![0u8; 32]);
    assert_eq!(block.header.merkle_root, root);
    assert_eq!(block.transaction_count(), 2);
    assert_eq!(block.hash(), block.header.hash());
    assert_eq!(block.hash().len(), 32);
    assert_eq!(state.utxo_set_size(), 1);
    assert_eq!(state.block_height(), 0);
}

#[test]
fn block_refuses_double_spend_within_batch() {
    let state = ledger_with(7);
    let txs = vec![tx(vec![output(0, 7)], vec![output(0, 8)], 0), tx(vec![output(0, 7)], vec![output(0, 9)], 0)];
    assert_eq!(state.create_block(txs, 0).unwrap_err(), MimblewimbleError::InvalidTransaction);
}

#[test]
fn block_reports_first_error() {
    let state = ledger_with(7);
    let txs = vec![tx(vec![], vec![output(u64::MAX, 1)], 1), tx(vec![output(0, 9)], vec![], 0)];
    assert_eq!(state.create_block(txs, 0).unwrap_err(), MimblewimbleError::InvalidTransaction);
}

#[test]
fn empty_block_has_zero_root_and_exact_size() {
    let state = MimblewimbleState::new(params()).unwrap();
    let block = state.create_block(vec![], 5).unwrap();
    assert_eq!(block.header.merkle_root, vec![0u8; 32]);
    // version 4, height 8, timestamp 8, two 32-byte fields with length 40 each, count 8
    assert_eq!(block.size(), 4 + 8 + 8 + 40 + 40 + 8);
}

#[test]
fn parameters_are_those_given() {
    let mut p = params();
    p.commitment_scheme = "other".to_string();
    p.range_proof_bits = 128;
    p.max_utxo_set_size = 5;
    p.pruning_enabled = false;
    let state = MimblewimbleState::new(p).unwrap();
    let q = state.parameters();
    assert_eq!(q.commitment_scheme, "other");
    assert_eq!(q.range_proof_bits, 128);
    assert_eq!(q.max_utxo_set_size, 5);
    assert!(!q.pruning_enabled);
    assert_eq!(q.max_block_size, 10_000_000);
}
