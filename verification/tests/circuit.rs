//! Spend-circuit behaviour on concrete witnesses.
use qcash::circuit::{CircuitError, DecryptedInput, QSPVGuestInput, run_spend_circuit};
use qcash::commitment::{UTXOEncryptedPayload, create_header, hash_payload};
use sha2::Digest;

fn sha(data: &[u8]) -> [u8; 32] {
    let d = sha2::Sha256::digest(data);
    d.into()
}

fn sender_pubkey() -> [u8; 1184] {
    let mut k = [7u8; 1184];
    k[0] = 1;
    k
}

fn receiver_pubkey() -> [u8; 1184] {
    [9u8; 1184]
}

fn sender_vault() -> [u8; 32] {
    sha(&sender_pubkey())
}

fn payload(amount: u64, vault: [u8; 32], seed: u8, spent: Vec<[u8; 32]>) -> UTXOEncryptedPayload {
    UTXOEncryptedPayload {
        amount,
        is_return: false,
        receiver_vault: vault,
        randomness: [seed; 32],
        utxo_spent_list: spent,
        version: 1,
    }
}

fn input_for(p: UTXOEncryptedPayload, prev: [u8; 32]) -> DecryptedInput {
    let amount = p.amount;
    let randomness = p.randomness;
    let header = create_header(&p, prev, 1);
    DecryptedInput { header, payload: p, amount, randomness }
}

fn witness(inputs: Vec<DecryptedInput>, amount_to_send: u64, tip: [u8; 32]) -> QSPVGuestInput {
    QSPVGuestInput {
        sender_pubkey: sender_pubkey(),
        input_utxos: inputs,
        receiver_pubkey: receiver_pubkey(),
        amount_to_send,
        receiver_randomness: [3u8; 32],
        return_randomness: [4u8; 32],
        current_ledger_tip: tip,
    }
}

#[test]
fn spend_fifty_thirty_sends_sixty_returns_twenty() {
    let tip = [0u8; 32];
    let in1 = input_for(payload(50, sender_vault(), 10, vec![]), tip);
    let in2 = input_for(payload(30, sender_vault(), 11, vec![]), tip);
    let w = witness(vec![in1, in2], 60, tip);
    let out = run_spend_circuit(&w).expect("valid spend must succeed");
    assert_eq!(out.receiver_payload.amount, 60);
    assert!(!out.receiver_payload.is_return);
    assert_eq!(out.receiver_payload.receiver_vault, sha(&receiver_pubkey()));
    assert_eq!(out.return_payload.amount, 20);
    assert!(out.return_payload.is_return);
    assert_eq!(out.return_payload.receiver_vault, sender_vault());
    // conservation: inputs = send + return
    assert_eq!(out.receiver_payload.amount + out.return_payload.amount, 80);
    // receiver chains onto the tip, return chains onto the receiver
    assert_eq!(out.commitments.receiver_commitment.prev_utxo_hash, tip);
    assert_eq!(
        out.commitments.return_commitment.prev_utxo_hash,
        out.commitments.receiver_commitment.utxo_hash
    );
    // both outputs carry the propagated history: the two input hashes
    let hist = &out.receiver_payload.utxo_spent_list;
    assert_eq!(hist.len(), 2);
    assert_eq!(hist, &out.return_payload.utxo_spent_list);
    assert_eq!(hist[0], w.input_utxos[0].header.utxo_hash);
    assert_eq!(hist[1], w.input_utxos[1].header.utxo_hash);
}

#[test]
fn spend_eighty_one_from_eighty_is_insufficient() {
    let tip = [0u8; 32];
    let in1 = input_for(payload(50, sender_vault(), 10, vec![]), tip);
    let in2 = input_for(payload(30, sender_vault(), 11, vec![]), tip);
    let w = witness(vec![in1, in2], 81, tip);
    assert_eq!(run_spend_circuit(&w), Err(CircuitError::InsufficientFunds));
}

#[test]
fn output_headers_recompute_exactly() {
    // the receiver header's fields are the protocol hashes, recomputed here
    // byte for byte with an independent digest implementation
    let tip = [5u8; 32];
    let in1 = input_for(payload(40, sender_vault(), 12, vec![]), tip);
    let w = witness(vec![in1], 40, tip);
    let out = run_spend_circuit(&w).expect("valid spend must succeed");

    let rp = &out.receiver_payload;
    let mut preimage = Vec::new();
    preimage.extend_from_slice(&rp.amount.to_le_bytes());
    preimage.push(0u8);
    preimage.extend_from_slice(&rp.receiver_vault);
    preimage.extend_from_slice(&rp.randomness);
    for h in &rp.utxo_spent_list {
        preimage.extend_from_slice(h);
    }
    let commitment = sha(&preimage);
    assert_eq!(out.commitments.receiver_commitment.ciphertext_commitment, commitment);
    assert_eq!(hash_payload(rp), commitment);

    let mut header_preimage = Vec::new();
    header_preimage.extend_from_slice(&commitment);
    header_preimage.extend_from_slice(&tip);
    header_preimage.extend_from_slice(&1u32.to_le_bytes());
    assert_eq!(out.commitments.receiver_commitment.utxo_hash, sha(&header_preimage));
}

#[test]
fn tampered_payload_is_an_integrity_error() {
    let tip = [0u8; 32];
    let mut input = input_for(payload(50, sender_vault(), 10, vec![]), tip);
    input.payload.amount = 51;
    let w = witness(vec![input], 10, tip);
    assert_eq!(run_spend_circuit(&w), Err(CircuitError::Integrity));
}

#[test]
fn foreign_vault_is_an_ownership_error() {
    let tip = [0u8; 32];
    let other_vault = [42u8; 32];
    let input = input_for(payload(50, other_vault, 10, vec![]), tip);
    let w = witness(vec![input], 10, tip);
    assert_eq!(run_spend_circuit(&w), Err(CircuitError::Ownership));
}

#[test]
fn shared_ancestor_is_a_double_spend_in_either_order() {
    let tip = [0u8; 32];
    let ancestor = [77u8; 32];
    let in1 = input_for(payload(50, sender_vault(), 10, vec![ancestor]), tip);
    let in2 = input_for(payload(30, sender_vault(), 11, vec![ancestor]), tip);
    let w1 = witness(vec![in1.clone(), in2.clone()], 60, tip);
    assert_eq!(run_spend_circuit(&w1), Err(CircuitError::DoubleSpend));
    let w2 = witness(vec![in2, in1], 60, tip);
    assert_eq!(run_spend_circuit(&w2), Err(CircuitError::DoubleSpend));
}

#[test]
fn input_repeated_in_history_is_a_double_spend() {
    // the second input lists the first input's own hash as an ancestor
    let tip = [0u8; 32];
    let in1 = input_for(payload(50, sender_vault(), 10, vec![]), tip);
    let in2 = input_for(payload(30, sender_vault(), 11, vec![in1.header.utxo_hash]), tip);
    let w = witness(vec![in1, in2], 60, tip);
    assert_eq!(run_spend_circuit(&w), Err(CircuitError::DoubleSpend));
}

#[test]
fn duplicate_within_one_spent_list_is_a_double_spend() {
    let tip = [0u8; 32];
    let ancestor = [88u8; 32];
    let in1 = input_for(payload(50, sender_vault(), 10, vec![ancestor, ancestor]), tip);
    let w = witness(vec![in1], 10, tip);
    assert_eq!(run_spend_circuit(&w), Err(CircuitError::DoubleSpend));
}

#[test]
fn integrity_is_checked_before_funds() {
    // a tampered first input wins over the insufficient amount
    let tip = [0u8; 32];
    let mut input = input_for(payload(50, sender_vault(), 10, vec![]), tip);
    input.payload.amount = 51;
    let w = witness(vec![input], 1000, tip);
    assert_eq!(run_spend_circuit(&w), Err(CircuitError::Integrity));
}

#[test]
fn empty_witness_sends_zero() {
    let tip = [0u8; 32];
    let w = witness(vec![], 0, tip);
    let out = run_spend_circuit(&w).expect("empty spend of zero succeeds");
    assert_eq!(out.receiver_payload.amount, 0);
    assert_eq!(out.return_payload.amount, 0);
    assert!(out.receiver_payload.utxo_spent_list.is_empty());

    let w2 = witness(vec![], 1, tip);
    assert_eq!(run_spend_circuit(&w2), Err(CircuitError::InsufficientFunds));
}

#[test]
fn ancestry_propagates_through_spent_lists() {
    let tip = [0u8; 32];
    let a = [1u8; 32];
    let b = [2u8; 32];
    let in1 = input_for(payload(5, sender_vault(), 10, vec![a]), tip);
    let in2 = input_for(payload(6, sender_vault(), 11, vec![b]), tip);
    let in1_hash = in1.header.utxo_hash;
    let in2_hash = in2.header.utxo_hash;
    let w = witness(vec![in1, in2], 11, tip);
    let out = run_spend_circuit(&w).expect("valid spend must succeed");
    assert_eq!(out.receiver_payload.utxo_spent_list, vec![a, in1_hash, b, in2_hash]);
}
