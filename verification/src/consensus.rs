//! Admission and attestation: how a UTXO enters the ledger as pending, how a
//! minted UTXO is finalized directly, and how a prover's vote advances a
//! pending UTXO toward the quorum that moves the tip.
use vstd::prelude::*;
use crate::{HASH, KYBER_CIPHERTEXT_SIZE, MAX_PAYLOAD_SIZE, NONCE_SIZE};
use crate::errors::ErrorCode;
use crate::hashing::{push_bytes, sha256, sha256_of};
use crate::ledger::Ledger;
use crate::registry::{ProverRegistry, lemma_find_prover_from_props, rotate_once, spec_find_prover};
use crate::utxo::{
    ProverVote, Utxo, count_valid, lemma_counts_update, lemma_free_slot_from_props,
    same_except_votes, spec_first_free, spec_has_voted, votes_view,
};

verus! {

/// Program-wide configuration: who may manage provers and how many valid
/// attestations finalize a UTXO.
#[derive(Clone, Copy, Debug, PartialEq, Eq)]
pub struct ProgramConfig {
    /// The admin's account address (32 bytes); all zeros means unset.
    pub admin_authority: [u8; 32],
    /// Valid attestations required to finalize a pending UTXO.
    pub min_attestations: u16,
    /// Bump seed of the account the config lives in.
    pub bump: u8,
}

impl ProgramConfig {
    /// Sets the admin and the attestation threshold.
    pub fn initialize(&mut self, admin_authority: [u8; 32], min_attestations: u16, bump: u8)
        ensures
            final(self).admin_authority == admin_authority,
            final(self).min_attestations == min_attestations,
            final(self).bump == bump,
    {
        self.admin_authority = admin_authority;
        self.min_attestations = min_attestations;
        self.bump = bump;
    }

    /// Whether an admin has been set (a non-zero address).
    pub fn is_admin_set(&self) -> (r: bool)
        ensures
            r == !(self.admin_authority@ =~= Seq::new(32, |i: int| 0u8)),
    {
        let zero = [0u8; 32];
        let r = !crate::hash_eq(&self.admin_authority, &zero);
        proof {
            assert(zero@ =~= Seq::new(32, |i: int| 0u8));
        }
        r
    }

    /// Whether `pubkey` is the admin.
    pub fn is_admin(&self, pubkey: &[u8; 32]) -> (r: bool)
        ensures
            r == (self.admin_authority@ == pubkey@),
    {
        crate::hash_eq(&self.admin_authority, pubkey)
    }
}

/// The commitment over a sealed payload as the ledger computes it on
/// admission: the hash of ciphertext, nonce and payload in that order.
pub open spec fn spec_sealed_commitment(
    kyber_ciphertext: Seq<u8>,
    nonce: Seq<u8>,
    encrypted_payload: Seq<u8>,
) -> Seq<u8> {
    sha256_of(kyber_ciphertext + nonce + encrypted_payload)
}

/// Admits a new pending UTXO chained onto the current tip.  Refused exactly
/// when the payload exceeds `MAX_PAYLOAD_SIZE`; otherwise the UTXO carries
/// the sealed-payload commitment, an empty vote table, and the proof
/// account's address.
pub fn create_utxo(
    ledger: &Ledger,
    utxo_hash: HASH,
    encrypted_payload: Vec<u8>,
    nonce: [u8; NONCE_SIZE],
    epoch: u32,
    kyber_ciphertext: [u8; KYBER_CIPHERTEXT_SIZE],
    zk_proof_pubkey: [u8; 32],
    bump: u8,
) -> (r: Result<Utxo, ErrorCode>)
    ensures
        encrypted_payload@.len() > MAX_PAYLOAD_SIZE
            ==> r == Err::<Utxo, ErrorCode>(ErrorCode::PayloadTooLarge),
        encrypted_payload@.len() <= MAX_PAYLOAD_SIZE ==> r is Ok && ({
            let u = r->Ok_0;
            &&& u.wf()
            &&& u.epoch == epoch
            &&& u.utxo_hash == utxo_hash
            &&& u.prev_utxo_hash == ledger.last_valid_utxo_hash
            &&& u.ciphertext_commitment@ == spec_sealed_commitment(
                kyber_ciphertext@, nonce@, encrypted_payload@)
            &&& u.nonce == nonce
            &&& u.encrypted_payload == encrypted_payload
            &&& u.kyber_ciphertext == kyber_ciphertext
            &&& u.zk_proof_pubkey == Some(zk_proof_pubkey)
            &&& crate::utxo::utxo_valid_votes(u) == 0
            &&& u.votes is Some
            &&& u.bump == bump
        }),
{
    let prev_utxo_hash = ledger.get_tip_hash();
    if encrypted_payload.len() > MAX_PAYLOAD_SIZE {
        return Err(ErrorCode::PayloadTooLarge);
    }
    let mut commitment_data: Vec<u8> = Vec::new();
    push_bytes(&mut commitment_data, kyber_ciphertext.as_slice());
    push_bytes(&mut commitment_data, nonce.as_slice());
    push_bytes(&mut commitment_data, encrypted_payload.as_slice());
    let ciphertext_commitment = sha256(commitment_data.as_slice());
    let mut utxo = Utxo {
        epoch: 0,
        utxo_hash: [0u8; 32],
        prev_utxo_hash: [0u8; 32],
        ciphertext_commitment: [0u8; 32],
        nonce: [0u8; NONCE_SIZE],
        encrypted_payload: Vec::new(),
        kyber_ciphertext: [0u8; KYBER_CIPHERTEXT_SIZE],
        zk_proof_pubkey: None,
        votes: None,
        bump: 0,
    };
    utxo.initialize(
        epoch,
        utxo_hash,
        prev_utxo_hash,
        ciphertext_commitment,
        nonce,
        encrypted_payload,
        kyber_ciphertext,
        zk_proof_pubkey,
        bump,
    );
    proof {
        crate::utxo::lemma_counts_all_free(votes_view(utxo).unwrap());
    }
    Ok(utxo)
}

/// Mints a UTXO with no proof and no votes and finalizes it at once: the
/// privileged path a faucet uses.  The commitment is supplied by the caller,
/// computed over the plaintext payload fields.  Refused exactly when the
/// payload exceeds `MAX_PAYLOAD_SIZE`; otherwise the tip moves to the new
/// UTXO and the count grows by one.
pub fn airdrop(
    ledger: &mut Ledger,
    utxo_hash: HASH,
    encrypted_payload: Vec<u8>,
    nonce: [u8; NONCE_SIZE],
    ciphertext_commitment: HASH,
    kyber_ciphertext: [u8; KYBER_CIPHERTEXT_SIZE],
    epoch: u32,
    bump: u8,
) -> (r: Result<Utxo, ErrorCode>)
    requires
        old(ledger).count < u64::MAX,
    ensures
        encrypted_payload@.len() > MAX_PAYLOAD_SIZE
            ==> r == Err::<Utxo, ErrorCode>(ErrorCode::PayloadTooLarge)
                && *final(ledger) == *old(ledger),
        encrypted_payload@.len() <= MAX_PAYLOAD_SIZE ==> r is Ok && ({
            let u = r->Ok_0;
            &&& u.wf()
            &&& u.epoch == epoch
            &&& u.utxo_hash == utxo_hash
            &&& u.prev_utxo_hash == old(ledger).last_valid_utxo_hash
            &&& u.ciphertext_commitment == ciphertext_commitment
            &&& u.nonce == nonce
            &&& u.encrypted_payload == encrypted_payload
            &&& u.kyber_ciphertext == kyber_ciphertext
            &&& u.zk_proof_pubkey is None
            &&& u.votes is None
            &&& u.bump == bump
            &&& final(ledger).last_valid_utxo_hash == utxo_hash
            &&& final(ledger).count == old(ledger).count + 1
            &&& final(ledger).bump == old(ledger).bump
        }),
{
    let prev_utxo_hash = ledger.get_tip_hash();
    if encrypted_payload.len() > MAX_PAYLOAD_SIZE {
        return Err(ErrorCode::PayloadTooLarge);
    }
    let mut utxo = Utxo {
        epoch: 0,
        utxo_hash: [0u8; 32],
        prev_utxo_hash: [0u8; 32],
        ciphertext_commitment: [0u8; 32],
        nonce: [0u8; NONCE_SIZE],
        encrypted_payload: Vec::new(),
        kyber_ciphertext: [0u8; KYBER_CIPHERTEXT_SIZE],
        zk_proof_pubkey: None,
        votes: None,
        bump: 0,
    };
    utxo.initialize_airdrop(
        epoch,
        utxo_hash,
        prev_utxo_hash,
        ciphertext_commitment,
        nonce,
        encrypted_payload,
        kyber_ciphertext,
        bump,
    );
    ledger.update_tip(utxo_hash);
    Ok(utxo)
}

/// Casts one prover's vote on a pending UTXO, rotates the prover's key, and
/// finalizes the UTXO when the quorum is reached.
///
/// The contract walks the checks in order: a vote on a UTXO whose
/// predecessor is no longer the tip is stale and rejected; the prover is
/// looked up by the hash of its outgoing key and must exist and be active;
/// a prover votes at most once per UTXO, by stable id, so rotation does not
/// grant a second ballot; the table must have room.  On success the ballot
/// lands in the first free slot, the prover's key hash becomes
/// `next_key_hash`, and the result says whether this vote finalized the
/// UTXO: exactly when the valid-vote count reaches `min_attestations`, the
/// ledger tip becomes this UTXO's hash and the count grows by one.
pub fn submit_attestation(
    ledger: &mut Ledger,
    utxo: &mut Utxo,
    prover_registry: &mut ProverRegistry,
    prover_old_pubkey: &[u8; 32],
    vote: bool,
    next_key_hash: HASH,
    min_attestations: u16,
) -> (r: Result<bool, ErrorCode>)
    requires
        old(utxo).wf(),
        old(prover_registry).wf(),
        old(ledger).count < u64::MAX,
    ensures
        final(utxo).wf(),
        final(prover_registry).wf(),
        ({
            let h = sha256_of(prover_old_pubkey@);
            let provers = old(prover_registry).provers@;
            let unchanged = *final(ledger) == *old(ledger) && *final(utxo) == *old(utxo)
                && *final(prover_registry) == *old(prover_registry);
            if old(utxo).prev_utxo_hash@ != old(ledger).last_valid_utxo_hash@ {
                r == Err::<bool, ErrorCode>(ErrorCode::UtxoHashMismatch) && unchanged
            } else {
                match spec_find_prover(provers, h) {
                    None => r == Err::<bool, ErrorCode>(ErrorCode::ProverNotRegistered) && unchanged,
                    Some(pidx) => {
                        let prover = provers[pidx];
                        if !prover.is_active {
                            r == Err::<bool, ErrorCode>(ErrorCode::ProverNotActive) && unchanged
                        } else {
                            match votes_view(*old(utxo)) {
                                None => r == Err::<bool, ErrorCode>(ErrorCode::MaxVotesReached)
                                    && unchanged,
                                Some(v) => {
                                    if spec_has_voted(v, prover.unique_id) {
                                        r == Err::<bool, ErrorCode>(ErrorCode::ProverAlreadyVoted)
                                            && unchanged
                                    } else {
                                        match spec_first_free(v) {
                                            None => r == Err::<bool, ErrorCode>(
                                                ErrorCode::MaxVotesReached) && unchanged,
                                            Some(k) => ({
                                                let newv = v.update(k, ProverVote {
                                                    prover_id: prover.unique_id,
                                                    is_valid: vote,
                                                });
                                                let finalized = count_valid(newv) >= min_attestations;
                                                &&& r == Ok::<bool, ErrorCode>(finalized)
                                                &&& same_except_votes(*old(utxo), *final(utxo))
                                                &&& votes_view(*final(utxo)) == Some(newv)
                                                &&& count_valid(newv) == count_valid(v)
                                                    + (if vote { 1int } else { 0int })
                                                &&& final(prover_registry).provers@
                                                    == rotate_once(provers, pidx, next_key_hash)
                                                &&& final(prover_registry).prover_count
                                                    == old(prover_registry).prover_count
                                                &&& if finalized {
                                                    final(ledger).last_valid_utxo_hash
                                                        == old(utxo).utxo_hash
                                                    && final(ledger).count == old(ledger).count + 1
                                                    && final(ledger).bump == old(ledger).bump
                                                } else {
                                                    *final(ledger) == *old(ledger)
                                                }
                                            }),
                                        }
                                    }
                                }
                            }
                        }
                    },
                }
            }
        }),
{
    let tip = ledger.get_tip_hash();
    if !crate::hash_eq(&utxo.prev_utxo_hash, &tip) {
        return Err(ErrorCode::UtxoHashMismatch);
    }
    let prover_old_pubkey_hash = sha256(prover_old_pubkey.as_slice());
    let found = prover_registry.find_prover(&prover_old_pubkey_hash);
    let pidx = match found {
        None => {
            return Err(ErrorCode::ProverNotRegistered);
        },
        Some(i) => i,
    };
    proof {
        lemma_find_prover_from_props(prover_registry.provers@, prover_old_pubkey_hash@, 0);
    }
    let prover_info = prover_registry.provers[pidx];
    if !prover_info.is_active {
        return Err(ErrorCode::ProverNotActive);
    }
    let prover_unique_id = prover_info.unique_id;
    let ghost v_before = votes_view(*utxo);
    match utxo.record_vote(prover_unique_id, vote) {
        Err(e) => {
            return Err(e);
        },
        Ok(()) => {},
    }
    proof {
        let v = v_before.unwrap();
        let k = spec_first_free(v).unwrap();
        lemma_free_slot_from_props(v, 0);
        lemma_counts_update(v, k, ProverVote { prover_id: prover_unique_id, is_valid: vote });
    }
    prover_registry.rotate_key(pidx, next_key_hash);
    let finalized = utxo.threshold_met(min_attestations);
    if finalized {
        ledger.update_tip(utxo.utxo_hash);
    }
    Ok(finalized)
}

/// Lamports the faucet grants in one airdrop payload.
pub const FAUCET_AMOUNT: u64 = 100;

/// The plaintext payload a faucet airdrop seals for a vault: the fixed
/// grant, addressed to the vault, with no spend history.
pub fn faucet_airdrop_payload(receiver_vault: [u8; 32], randomness: [u8; 32]) -> (p: crate::commitment::UTXOEncryptedPayload)
    ensures
        p.amount == FAUCET_AMOUNT,
        p.is_return == false,
        p.receiver_vault == receiver_vault,
        p.randomness == randomness,
        p.utxo_spent_list@.len() == 0,
        p.version == 1,
{
    crate::commitment::UTXOEncryptedPayload {
        amount: FAUCET_AMOUNT,
        is_return: false,
        receiver_vault,
        randomness,
        utxo_spent_list: Vec::new(),
        version: 1,
    }
}

} // verus!
