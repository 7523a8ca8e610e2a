//! Deterministic key derivation and the node's decision rules.
use hmac::Mac;
use qcash::node::{ProofPoll, SubmitStep, poll_proof_status, proof_body, submit_attestation_step, IMAGE_ID, MAX_PROOF_FETCH_RETRIES, MAX_SUBMIT_RETRIES};
use qcash::events::{LedgerInitialized, UtxoCreated};
use qcash::node::{event_action, EventAction};
use qcash::rng::{DeterministicRng, derive_kyber_key};
use qcash::storage::ZkProof;

/// The HMAC expansion the generator is specified over, computed directly
/// with the mac crate: block `i` is HMAC-SHA-256(seed, [i]).
fn expand(seed: &[u8], blocks: u8) -> Vec<u8> {
    let mut out = Vec::new();
    for i in 0..blocks {
        let mut mac = hmac::Hmac::<sha2::Sha256>::new_from_slice(seed).unwrap();
        mac.update(&[i]);
        out.extend_from_slice(&mac.finalize().into_bytes());
    }
    out
}

#[test]
fn rng_stream_is_the_hmac_expansion() {
    let seed = [13u8; 32];
    let expected = expand(&seed, 8);
    let mut rng = DeterministicRng::new(&seed);
    let mut buf = vec![0u8; 256];
    rng.fill_bytes(&mut buf);
    assert_eq!(buf, expected);
}

#[test]
fn rng_wraps_around_its_stream() {
    let seed = [14u8; 32];
    let expected = expand(&seed, 8);
    let mut rng = DeterministicRng::new(&seed);
    let mut buf = vec![0u8; 300];
    rng.fill_bytes(&mut buf);
    assert_eq!(&buf[0..256], &expected[..]);
    assert_eq!(&buf[256..300], &expected[0..44]);
}

#[test]
fn rng_words_come_from_the_stream() {
    let seed = [15u8; 32];
    let expected = expand(&seed, 8);
    let mut rng = DeterministicRng::new(&seed);
    let first = u64::from_le_bytes(expected[0..8].try_into().unwrap());
    assert_eq!(rng.next_u64(), first);
    let second = u64::from_le_bytes(expected[8..16].try_into().unwrap());
    let mut rng32 = DeterministicRng::new(&seed);
    let _ = rng32.next_u64();
    assert_eq!(rng32.next_u32(), (second % 0x1_0000_0000) as u32);
}

#[test]
fn kyber_key_is_derived_from_the_expansion() {
    let fragment = [21u8; 32];
    let keys = derive_kyber_key(&fragment);
    let seed = expand(&fragment, 8);
    let expected = pqc_kyber::derive(&seed[0..64]).unwrap();
    assert_eq!(keys.public, expected.public);
    assert_eq!(keys.secret, expected.secret);
}

#[test]
fn kyber_derivation_is_deterministic() {
    let fragment = [22u8; 32];
    let a = derive_kyber_key(&fragment);
    let b = derive_kyber_key(&fragment);
    assert_eq!(a.public, b.public);
    let c = derive_kyber_key(&[23u8; 32]);
    assert_ne!(a.public, c.public);
}

#[test]
fn poll_decisions_follow_the_header() {
    let tiny = vec![0u8; 10];
    assert_eq!(poll_proof_status(&tiny, 0, MAX_PROOF_FETCH_RETRIES), ProofPoll::TooSmall);

    let mut data = vec![0u8; 16 + 8];
    ZkProof::initialize(&mut data, 8);
    assert_eq!(poll_proof_status(&data, 0, 30), ProofPoll::WaitAndRetry);
    assert_eq!(poll_proof_status(&data, 30, 30), ProofPoll::Exhausted);
    ZkProof::update_bytes_written(&mut data, 8);
    assert_eq!(poll_proof_status(&data, 30, 30), ProofPoll::Ready);
}

#[test]
fn proof_body_drops_the_header() {
    let mut data = vec![0u8; 16];
    ZkProof::initialize(&mut data, 3);
    data.extend_from_slice(&[7, 8, 9]);
    assert_eq!(proof_body(&data), vec![7, 8, 9]);
}

#[test]
fn submission_retries_only_the_visibility_race() {
    assert_eq!(submit_attestation_step(true, false, 1, MAX_SUBMIT_RETRIES), SubmitStep::Done);
    assert_eq!(submit_attestation_step(false, true, 1, 10), SubmitStep::WaitAndRetry);
    assert_eq!(submit_attestation_step(false, true, 10, 10), SubmitStep::Fail);
    assert_eq!(submit_attestation_step(false, false, 1, 10), SubmitStep::Fail);
}

#[test]
fn circuit_identity_is_pinned() {
    assert_eq!(IMAGE_ID.len(), 32);
    assert_eq!(IMAGE_ID[0], 127);
    assert_eq!(IMAGE_ID[31], 255);
}

#[test]
fn log_lines_filter_to_event_bytes() {
    let payload = [1u8, 2, 3, 250];
    let encoded =
        base64::Engine::encode(&base64::engine::general_purpose::STANDARD, payload);
    let mut line = b"Program data: ".to_vec();
    line.extend_from_slice(encoded.as_bytes());
    assert_eq!(qcash::node::extract_event_data(&line), Some(payload.to_vec()));
    assert_eq!(qcash::node::extract_event_data(b"some other log line"), None);
    assert_eq!(qcash::node::extract_event_data(b"Program data: !!!"), None);
    assert_eq!(qcash::node::extract_event_data(b"Program data: "), Some(vec![]));
}

#[test]
fn only_created_utxos_call_for_attestation() {
    let created = qcash::events::QcashEvent::UtxoCreated(UtxoCreated {
        utxo: [1u8; 32],
        utxo_hash: [2u8; 32],
        prev_utxo_hash: [3u8; 32],
        epoch: 1,
        payload_size: 10,
        zk_proof: [4u8; 32],
        ciphertext_commitment: [5u8; 32],
        bump: 0,
        timestamp: 0,
    });
    assert_eq!(
        event_action(&created),
        EventAction::AttestUtxo { zk_proof: [4u8; 32], utxo: [1u8; 32], utxo_hash: [2u8; 32] }
    );
    let other = qcash::events::QcashEvent::LedgerInitialized(LedgerInitialized {
        count: 0,
        genesis_hash: [0u8; 32],
        bump: 0,
        timestamp: 0,
    });
    assert_eq!(event_action(&other), EventAction::Observe);
}
