//! Ledger, registry and attestation behaviour on concrete states.
use qcash::consensus::{ProgramConfig, airdrop, create_utxo, faucet_airdrop_payload, submit_attestation};
use qcash::errors::ErrorCode;
use qcash::ledger::Ledger;
use qcash::registry::{ProverInfo, ProverRegistry};
use qcash::utxo::Utxo;
use sha2::Digest;

fn sha(data: &[u8]) -> [u8; 32] {
    let d = sha2::Sha256::digest(data);
    d.into()
}

fn fresh_ledger() -> Ledger {
    let mut ledger = Ledger { count: 9, last_valid_utxo_hash: [9u8; 32], bump: 0 };
    ledger.initialize(1);
    ledger
}

fn fresh_registry() -> ProverRegistry {
    let mut r = ProverRegistry { prover_count: 0, bump: 0, provers: Vec::new() };
    r.initialize(1);
    r
}

/// A prover's on-chain signing key (32 bytes) derived from a test seed.
fn prover_key(seed: u8) -> [u8; 32] {
    [seed; 32]
}

fn pending_utxo(ledger: &Ledger, tag: u8) -> Utxo {
    create_utxo(
        ledger,
        [tag; 32],
        vec![1, 2, 3],
        [0u8; 12],
        1,
        [0u8; 1088],
        [5u8; 32],
        0,
    )
    .expect("create_utxo within payload bounds succeeds")
}

#[test]
fn ledger_starts_at_genesis_and_advances() {
    let mut ledger = fresh_ledger();
    assert_eq!(ledger.count, 0);
    assert_eq!(ledger.get_tip_hash(), [0u8; 32]);
    ledger.update_tip([7u8; 32]);
    assert_eq!(ledger.count, 1);
    assert_eq!(ledger.get_tip_hash(), [7u8; 32]);
}

#[test]
fn create_utxo_chains_onto_tip_and_commits_sealed_bytes() {
    let ledger = fresh_ledger();
    let utxo = pending_utxo(&ledger, 9);
    assert_eq!(utxo.prev_utxo_hash, ledger.get_tip_hash());
    assert_eq!(utxo.utxo_hash, [9u8; 32]);
    assert!(utxo.requires_voting());
    assert_eq!(utxo.get_valid_votes(), 0);
    assert_eq!(utxo.get_total_votes(), 0);
    // the commitment is the digest of ciphertext || nonce || payload
    let mut preimage = Vec::new();
    preimage.extend_from_slice(&[0u8; 1088]);
    preimage.extend_from_slice(&[0u8; 12]);
    preimage.extend_from_slice(&[1, 2, 3]);
    assert_eq!(utxo.ciphertext_commitment, sha(&preimage));
}

#[test]
fn create_utxo_rejects_oversized_payload() {
    let ledger = fresh_ledger();
    let r = create_utxo(&ledger, [9u8; 32], vec![0u8; 2049], [0u8; 12], 1, [0u8; 1088], [5u8; 32], 0);
    assert_eq!(r.unwrap_err(), ErrorCode::PayloadTooLarge);
}

#[test]
fn airdrop_finalizes_at_once() {
    let mut ledger = fresh_ledger();
    let r = airdrop(&mut ledger, [8u8; 32], vec![1], [0u8; 12], [6u8; 32], [0u8; 1088], 0, 0)
        .expect("airdrop within payload bounds succeeds");
    assert!(!r.requires_voting());
    assert_eq!(r.prev_utxo_hash, [0u8; 32]);
    assert_eq!(ledger.get_tip_hash(), [8u8; 32]);
    assert_eq!(ledger.count, 1);
}

#[test]
fn airdrop_rejects_oversized_payload() {
    let mut ledger = fresh_ledger();
    let r = airdrop(&mut ledger, [8u8; 32], vec![0u8; 2049], [0u8; 12], [6u8; 32], [0u8; 1088], 0, 0);
    assert_eq!(r.unwrap_err(), ErrorCode::PayloadTooLarge);
    assert_eq!(ledger.count, 0);
}

#[test]
fn registry_register_and_lookup() {
    let mut reg = fresh_registry();
    reg.register_prover(1, sha(&prover_key(1))).unwrap();
    reg.register_prover(2, sha(&prover_key(2))).unwrap();
    assert_eq!(reg.prover_count, 2);
    assert_eq!(reg.find_prover(&sha(&prover_key(1))), Some(0));
    assert_eq!(reg.find_prover(&sha(&prover_key(2))), Some(1));
    assert_eq!(reg.find_prover(&sha(&prover_key(3))), None);
}

#[test]
fn registry_rejects_zero_id() {
    let mut reg = fresh_registry();
    assert_eq!(reg.register_prover(0, sha(&prover_key(1))), Err(ErrorCode::InvalidProverUniqueId));
}

#[test]
fn registry_rejects_duplicate_key_hash() {
    let mut reg = fresh_registry();
    reg.register_prover(1, sha(&prover_key(1))).unwrap();
    assert_eq!(
        reg.register_prover(2, sha(&prover_key(1))),
        Err(ErrorCode::ProverAlreadyRegistered)
    );
}

#[test]
fn registry_rejects_duplicate_id() {
    let mut reg = fresh_registry();
    reg.register_prover(1, sha(&prover_key(1))).unwrap();
    assert_eq!(
        reg.register_prover(1, sha(&prover_key(2))),
        Err(ErrorCode::ProverUniqueIdAlreadyUsed)
    );
}

#[test]
fn registry_rejects_at_capacity() {
    let mut reg = fresh_registry();
    for i in 0..100u64 {
        let mut key = [0u8; 32];
        key[0] = i as u8;
        key[1] = 1;
        reg.register_prover(i + 1, sha(&key)).unwrap();
    }
    assert_eq!(
        reg.register_prover(200, sha(&prover_key(201))),
        Err(ErrorCode::MaxProversReached)
    );
}

#[test]
fn registry_deactivate_keeps_the_prover() {
    let mut reg = fresh_registry();
    reg.register_prover(1, sha(&prover_key(1))).unwrap();
    reg.deactivate_prover(&sha(&prover_key(1))).unwrap();
    assert_eq!(reg.prover_count, 1);
    assert!(!reg.provers[0].is_active());
    assert_eq!(
        reg.deactivate_prover(&sha(&prover_key(9))),
        Err(ErrorCode::ProverNotRegistered)
    );
}

#[test]
fn quorum_two_votes_from_distinct_provers() {
    let mut ledger = fresh_ledger();
    let mut reg = fresh_registry();
    reg.register_prover(1, sha(&prover_key(1))).unwrap();
    reg.register_prover(2, sha(&prover_key(2))).unwrap();
    let mut utxo = pending_utxo(&ledger, 9);

    // one valid vote with threshold 2: still pending
    let r1 = submit_attestation(&mut ledger, &mut utxo, &mut reg, &prover_key(1), true, sha(&prover_key(11)), 2);
    assert_eq!(r1, Ok(false));
    assert_eq!(utxo.get_valid_votes(), 1);
    assert_eq!(ledger.count, 0);
    assert_eq!(ledger.get_tip_hash(), [0u8; 32]);

    // the same prover again, under its rotated key: rejected by identity
    let r2 = submit_attestation(&mut ledger, &mut utxo, &mut reg, &prover_key(11), true, sha(&prover_key(12)), 2);
    assert_eq!(r2, Err(ErrorCode::ProverAlreadyVoted));

    // a second valid vote from a different unique id: finalized
    let r3 = submit_attestation(&mut ledger, &mut utxo, &mut reg, &prover_key(2), true, sha(&prover_key(22)), 2);
    assert_eq!(r3, Ok(true));
    assert_eq!(utxo.get_valid_votes(), 2);
    assert_eq!(ledger.count, 1);
    assert_eq!(ledger.get_tip_hash(), utxo.utxo_hash);
}

#[test]
fn invalid_votes_do_not_count_toward_quorum() {
    let mut ledger = fresh_ledger();
    let mut reg = fresh_registry();
    reg.register_prover(1, sha(&prover_key(1))).unwrap();
    let mut utxo = pending_utxo(&ledger, 9);
    let r = submit_attestation(&mut ledger, &mut utxo, &mut reg, &prover_key(1), false, sha(&prover_key(11)), 1);
    assert_eq!(r, Ok(false));
    assert_eq!(utxo.get_valid_votes(), 0);
    assert_eq!(utxo.get_invalid_votes(), 1);
    assert_eq!(utxo.get_total_votes(), 1);
    assert_eq!(ledger.count, 0);
}

#[test]
fn key_rotates_on_every_vote_and_old_keys_fail_lookup() {
    let mut ledger = fresh_ledger();
    let mut reg = fresh_registry();
    reg.register_prover(1, sha(&prover_key(1))).unwrap();

    // three votes on three successive UTXOs, each rotating the key once
    let keys = [prover_key(1), prover_key(31), prover_key(32), prover_key(33)];
    for step in 0..3usize {
        let mut utxo = pending_utxo(&ledger, 100 + step as u8);
        let r = submit_attestation(
            &mut ledger,
            &mut utxo,
            &mut reg,
            &keys[step],
            true,
            sha(&keys[step + 1]),
            1,
        );
        assert_eq!(r, Ok(true));
    }

    // the current key hash is the third submitted next-key hash
    assert_eq!(reg.provers[0].pubkey_hash, sha(&keys[3]));
    assert_eq!(reg.provers[0].unique_id, 1);
    // every earlier key fails lookup
    for old in &keys[0..3] {
        assert_eq!(reg.find_prover(&sha(old)), None);
    }
    assert_eq!(reg.find_prover(&sha(&keys[3])), Some(0));
}

#[test]
fn stale_tip_vote_is_rejected_unconditionally() {
    let mut ledger = fresh_ledger();
    let mut reg = fresh_registry();
    reg.register_prover(1, sha(&prover_key(1))).unwrap();
    // a UTXO admitted against the genesis tip, then the tip moves on
    let mut utxo = pending_utxo(&ledger, 9);
    ledger.update_tip([55u8; 32]);
    let r = submit_attestation(&mut ledger, &mut utxo, &mut reg, &prover_key(1), true, sha(&prover_key(11)), 1);
    assert_eq!(r, Err(ErrorCode::UtxoHashMismatch));
    assert_eq!(utxo.get_total_votes(), 0);
}

#[test]
fn unknown_and_inactive_provers_cannot_vote() {
    let mut ledger = fresh_ledger();
    let mut reg = fresh_registry();
    reg.register_prover(1, sha(&prover_key(1))).unwrap();
    let mut utxo = pending_utxo(&ledger, 9);
    let r = submit_attestation(&mut ledger, &mut utxo, &mut reg, &prover_key(8), true, sha(&prover_key(11)), 1);
    assert_eq!(r, Err(ErrorCode::ProverNotRegistered));
    reg.deactivate_prover(&sha(&prover_key(1))).unwrap();
    let r2 = submit_attestation(&mut ledger, &mut utxo, &mut reg, &prover_key(1), true, sha(&prover_key(11)), 1);
    assert_eq!(r2, Err(ErrorCode::ProverNotActive));
}

#[test]
fn vote_table_fills_at_ten() {
    let mut ledger = fresh_ledger();
    let mut reg = fresh_registry();
    for i in 0..11u64 {
        let mut key = [0u8; 32];
        key[0] = i as u8;
        key[1] = 2;
        reg.register_prover(i + 1, sha(&key)).unwrap();
    }
    let mut utxo = pending_utxo(&ledger, 9);
    for i in 0..10u64 {
        let mut key = [0u8; 32];
        key[0] = i as u8;
        key[1] = 2;
        let r = submit_attestation(&mut ledger, &mut utxo, &mut reg, &key, true, sha(&prover_key(99)), 100);
        assert_eq!(r, Ok(false));
    }
    assert_eq!(utxo.get_total_votes(), 10);
    let mut key11 = [0u8; 32];
    key11[0] = 10;
    key11[1] = 2;
    let r = submit_attestation(&mut ledger, &mut utxo, &mut reg, &key11, true, sha(&prover_key(98)), 100);
    assert_eq!(r, Err(ErrorCode::MaxVotesReached));
}

#[test]
fn minted_utxo_takes_no_votes() {
    let mut ledger = fresh_ledger();
    let mut reg = fresh_registry();
    reg.register_prover(1, sha(&prover_key(1))).unwrap();
    let mut utxo = airdrop(&mut ledger, [8u8; 32], vec![1], [0u8; 12], [6u8; 32], [0u8; 1088], 0, 0).unwrap();
    // its prev is genesis but the tip has moved to it, so refresh the state:
    // vote against a minted UTXO that is itself the tip fails on the table
    utxo.prev_utxo_hash = ledger.get_tip_hash();
    let r = submit_attestation(&mut ledger, &mut utxo, &mut reg, &prover_key(1), true, sha(&prover_key(11)), 1);
    assert_eq!(r, Err(ErrorCode::MaxVotesReached));
}

#[test]
fn program_config_admin_checks() {
    let mut config = ProgramConfig { admin_authority: [0u8; 32], min_attestations: 0, bump: 0 };
    assert!(!config.is_admin_set());
    config.initialize([3u8; 32], 2, 1);
    assert!(config.is_admin_set());
    assert!(config.is_admin(&[3u8; 32]));
    assert!(!config.is_admin(&[4u8; 32]));
    assert_eq!(config.min_attestations, 2);
}

#[test]
fn faucet_payload_grants_the_fixed_amount() {
    let p = faucet_airdrop_payload([6u8; 32], [7u8; 32]);
    assert_eq!(p.amount, 100);
    assert!(!p.is_return);
    assert_eq!(p.receiver_vault, [6u8; 32]);
    assert_eq!(p.randomness, [7u8; 32]);
    assert!(p.utxo_spent_list.is_empty());
    assert_eq!(p.version, 1);
}

#[test]
fn utxo_account_sizes() {
    assert_eq!(Utxo::size(0), 1465);
    assert_eq!(Utxo::size(100), 1565);
    assert_eq!(Utxo::size_airdrop(0), 1279);
    assert_eq!(Utxo::size_airdrop(100), 1379);
}

#[test]
fn prover_info_lifecycle() {
    let mut p = ProverInfo::new(4, [1u8; 32]);
    assert!(p.is_active());
    p.deactivate();
    assert!(!p.is_active());
    p.activate();
    assert!(p.is_active());
    p.update_pubkey_hash([2u8; 32]);
    assert_eq!(p.pubkey_hash, [2u8; 32]);
    assert_eq!(p.unique_id, 4);
}
