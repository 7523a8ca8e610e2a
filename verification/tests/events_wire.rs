//! Event records decoded from hand-built wire bytes.
use qcash::events::QcashEvent;
use sha2::Digest;

fn tag(name: &str) -> [u8; 8] {
    let mut pre = b"event:".to_vec();
    pre.extend_from_slice(name.as_bytes());
    let d = sha2::Sha256::digest(&pre);
    let mut t = [0u8; 8];
    t.copy_from_slice(&d[0..8]);
    t
}

#[test]
fn utxo_created_decodes() {
    let mut data = tag("UtxoCreated").to_vec();
    data.extend_from_slice(&[1u8; 32]); // utxo
    data.extend_from_slice(&[2u8; 32]); // utxo_hash
    data.extend_from_slice(&[3u8; 32]); // prev_utxo_hash
    data.extend_from_slice(&7u32.to_le_bytes()); // epoch
    data.extend_from_slice(&1200u32.to_le_bytes()); // payload_size
    data.extend_from_slice(&[4u8; 32]); // zk_proof
    data.extend_from_slice(&[5u8; 32]); // ciphertext_commitment
    data.push(254); // bump
    data.extend_from_slice(&(-5i64).to_le_bytes()); // timestamp
    match QcashEvent::parse(&data) {
        Some(QcashEvent::UtxoCreated(e)) => {
            assert_eq!(e.utxo, [1u8; 32]);
            assert_eq!(e.utxo_hash, [2u8; 32]);
            assert_eq!(e.prev_utxo_hash, [3u8; 32]);
            assert_eq!(e.epoch, 7);
            assert_eq!(e.payload_size, 1200);
            assert_eq!(e.zk_proof, [4u8; 32]);
            assert_eq!(e.ciphertext_commitment, [5u8; 32]);
            assert_eq!(e.bump, 254);
            assert_eq!(e.timestamp, -5);
        }
        other => panic!("expected UtxoCreated, got {:?}", other),
    }
}

#[test]
fn truncated_record_yields_nothing() {
    let mut data = tag("UtxoCreated").to_vec();
    data.extend_from_slice(&[1u8; 100]);
    assert_eq!(QcashEvent::parse(&data), None);
    assert_eq!(QcashEvent::parse(&[1, 2, 3]), None);
}

#[test]
fn unknown_tag_yields_nothing() {
    let mut data = vec![9u8; 8];
    data.extend_from_slice(&[0u8; 300]);
    assert_eq!(QcashEvent::parse(&data), None);
}

#[test]
fn ledger_initialized_decodes() {
    let mut data = tag("LedgerInitialized").to_vec();
    data.extend_from_slice(&0u64.to_le_bytes());
    data.extend_from_slice(&[0u8; 32]);
    data.push(255);
    data.extend_from_slice(&1_700_000_000i64.to_le_bytes());
    match QcashEvent::parse(&data) {
        Some(QcashEvent::LedgerInitialized(e)) => {
            assert_eq!(e.count, 0);
            assert_eq!(e.genesis_hash, [0u8; 32]);
            assert_eq!(e.bump, 255);
            assert_eq!(e.timestamp, 1_700_000_000);
        }
        other => panic!("expected LedgerInitialized, got {:?}", other),
    }
}

#[test]
fn vault_completed_decodes() {
    let mut data = tag("VaultCompleted").to_vec();
    data.extend_from_slice(&[6u8; 32]);
    data.extend_from_slice(&1184u32.to_le_bytes());
    data.extend_from_slice(&[7u8; 32]);
    data.extend_from_slice(&9i64.to_le_bytes());
    match QcashEvent::parse(&data) {
        Some(QcashEvent::VaultCompleted(e)) => {
            assert_eq!(e.vault, [6u8; 32]);
            assert_eq!(e.total_length, 1184);
            assert_eq!(e.key_hash, [7u8; 32]);
            assert_eq!(e.timestamp, 9);
        }
        other => panic!("expected VaultCompleted, got {:?}", other),
    }
}

#[test]
fn zk_proof_chunk_written_decodes() {
    let mut data = tag("ZkProofChunkWritten").to_vec();
    data.extend_from_slice(&[8u8; 32]);
    data.extend_from_slice(&800u32.to_le_bytes());
    data.extend_from_slice(&1600u32.to_le_bytes());
    data.extend_from_slice(&2400u32.to_le_bytes());
    data.extend_from_slice(&9000u32.to_le_bytes());
    data.extend_from_slice(&11i64.to_le_bytes());
    match QcashEvent::parse(&data) {
        Some(QcashEvent::ZkProofChunkWritten(e)) => {
            assert_eq!(e.zk_proof, [8u8; 32]);
            assert_eq!(e.chunk_size, 800);
            assert_eq!(e.offset, 1600);
            assert_eq!(e.new_bytes_written, 2400);
            assert_eq!(e.total_length, 9000);
            assert_eq!(e.timestamp, 11);
        }
        other => panic!("expected ZkProofChunkWritten, got {:?}", other),
    }
}

fn attestation_fixed_prefix() -> Vec<u8> {
    let mut data = tag("AttestationSubmitted").to_vec();
    data.extend_from_slice(&[1u8; 32]); // utxo
    data.extend_from_slice(&[2u8; 32]); // utxo_hash
    data.extend_from_slice(&[3u8; 32]); // prover_old
    data.extend_from_slice(&[4u8; 32]); // prover_old_hash
    data.extend_from_slice(&[5u8; 32]); // prover_new
    data.extend_from_slice(&77u64.to_le_bytes()); // prover_unique_id
    data.push(1); // vote
    data.extend_from_slice(&[6u8; 32]); // next_key_hash
    data.extend_from_slice(&4242u64.to_le_bytes()); // lamports
    data.extend_from_slice(&2u16.to_le_bytes()); // valid
    data.extend_from_slice(&1u16.to_le_bytes()); // invalid
    data.extend_from_slice(&3u16.to_le_bytes()); // total
    data.push(1); // threshold_met
    data
}

#[test]
fn attestation_with_new_tip_decodes() {
    let mut data = attestation_fixed_prefix();
    data.push(1); // tip present
    data.extend_from_slice(&[9u8; 32]);
    data.push(1); // count present
    data.extend_from_slice(&12u64.to_le_bytes());
    data.extend_from_slice(&33i64.to_le_bytes());
    match QcashEvent::parse(&data) {
        Some(QcashEvent::AttestationSubmitted(e)) => {
            assert_eq!(e.prover_unique_id, 77);
            assert!(e.vote);
            assert_eq!(e.next_key_hash, [6u8; 32]);
            assert_eq!(e.lamports_transferred, 4242);
            assert_eq!(e.valid_votes, 2);
            assert_eq!(e.invalid_votes, 1);
            assert_eq!(e.total_votes, 3);
            assert!(e.threshold_met);
            assert_eq!(e.new_ledger_tip, Some([9u8; 32]));
            assert_eq!(e.new_ledger_count, Some(12));
            assert_eq!(e.timestamp, 33);
        }
        other => panic!("expected AttestationSubmitted, got {:?}", other),
    }
}

#[test]
fn attestation_without_optional_fields_decodes() {
    let mut data = attestation_fixed_prefix();
    data.push(0); // no tip
    data.push(0); // no count
    data.extend_from_slice(&34i64.to_le_bytes());
    match QcashEvent::parse(&data) {
        Some(QcashEvent::AttestationSubmitted(e)) => {
            assert_eq!(e.new_ledger_tip, None);
            assert_eq!(e.new_ledger_count, None);
            assert_eq!(e.timestamp, 34);
        }
        other => panic!("expected AttestationSubmitted, got {:?}", other),
    }
}

#[test]
fn attestation_with_invalid_presence_byte_yields_nothing() {
    let mut data = attestation_fixed_prefix();
    data.push(2); // invalid Option tag
    data.extend_from_slice(&[0u8; 41]);
    assert_eq!(QcashEvent::parse(&data), None);
}

#[test]
fn prover_registered_decodes() {
    let mut data = tag("ProverRegistered").to_vec();
    data.extend_from_slice(&[1u8; 32]);
    data.extend_from_slice(&5u64.to_le_bytes());
    data.extend_from_slice(&[2u8; 32]);
    data.extend_from_slice(&[3u8; 32]);
    data.extend_from_slice(&6u32.to_le_bytes());
    data.extend_from_slice(&21i64.to_le_bytes());
    match QcashEvent::parse(&data) {
        Some(QcashEvent::ProverRegistered(e)) => {
            assert_eq!(e.unique_id, 5);
            assert_eq!(e.total_provers, 6);
            assert_eq!(e.timestamp, 21);
        }
        other => panic!("expected ProverRegistered, got {:?}", other),
    }
}
