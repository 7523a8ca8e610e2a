//! The commitment model: UTXO headers, payloads, and the deterministic hash
//! rules that bind each output to its payload and to its predecessor.
//!
//! `utxo_hash = Hash(ciphertext_commitment || prev_utxo_hash || epoch_le)` and
//! `ciphertext_commitment = Hash(amount_le || is_return || receiver_vault ||
//! randomness || utxo_spent_list...)`.  These functions are pure and total;
//! the circuit, the ledger and any off-chain verifier all recompute them
//! through this one module.
use vstd::prelude::*;
use vstd::bytes::{spec_u32_to_le_bytes, spec_u64_to_le_bytes, u32_to_le_bytes, u64_to_le_bytes};
use crate::HASH;
use crate::hashing::{push_bytes, sha256, sha256_of};

verus! {

/// The public header of a UTXO: the commitment chain link.
#[derive(Clone, Debug, PartialEq, Eq)]
pub struct UTXOCommitmentHeader {
    pub utxo_hash: HASH,
    pub prev_utxo_hash: HASH,
    pub ciphertext_commitment: HASH,
    pub epoch: u32,
}

/// The plaintext form of a UTXO payload.  Off chain it travels encrypted;
/// the header commits to it through `ciphertext_commitment`.
#[derive(Clone, Debug, PartialEq, Eq)]
pub struct UTXOEncryptedPayload {
    pub amount: u64,
    pub is_return: bool,
    pub receiver_vault: [u8; 32],
    pub randomness: [u8; 32],
    pub utxo_spent_list: Vec<HASH>,
    pub version: u8,
}

/// The concatenation of a sequence of 32-byte hashes into one byte sequence.
pub open spec fn flatten_hashes(s: Seq<HASH>) -> Seq<u8>
    decreases s.len(),
{
    if s.len() == 0 {
        Seq::empty()
    } else {
        s[0]@ + flatten_hashes(s.drop_first())
    }
}

/// The bytes that a payload commitment hashes over.
pub open spec fn payload_preimage(p: UTXOEncryptedPayload) -> Seq<u8> {
    spec_u64_to_le_bytes(p.amount) + seq![(if p.is_return { 1u8 } else { 0u8 })]
        + p.receiver_vault@ + p.randomness@ + flatten_hashes(p.utxo_spent_list@)
}

/// The payload commitment: the hash the header's `ciphertext_commitment`
/// must equal for the UTXO to be valid.
pub open spec fn spec_payload_hash(p: UTXOEncryptedPayload) -> Seq<u8> {
    sha256_of(payload_preimage(p))
}

/// The bytes that a header hash hashes over.
pub open spec fn header_preimage(commitment: Seq<u8>, prev: Seq<u8>, epoch: u32) -> Seq<u8> {
    commitment + prev + spec_u32_to_le_bytes(epoch)
}

/// The header hash chaining a payload commitment onto a predecessor.
pub open spec fn spec_header_hash(commitment: Seq<u8>, prev: Seq<u8>, epoch: u32) -> Seq<u8> {
    sha256_of(header_preimage(commitment, prev, epoch))
}

/// Flattening distributes over appending one hash at the end.
pub proof fn lemma_flatten_push(s: Seq<HASH>, h: HASH)
    ensures
        flatten_hashes(s.push(h)) == flatten_hashes(s) + h@,
    decreases s.len(),
{
    if s.len() == 0 {
        assert(s.push(h)[0] == h);
        assert(s.push(h).drop_first() =~= Seq::<HASH>::empty());
        assert(flatten_hashes(s.push(h)) == h@ + flatten_hashes(Seq::<HASH>::empty()));
        assert(flatten_hashes(Seq::<HASH>::empty()) == Seq::<u8>::empty());
        assert(h@ + Seq::<u8>::empty() =~= Seq::<u8>::empty() + h@);
        assert(flatten_hashes(s) == Seq::<u8>::empty());
    } else {
        assert(s.push(h).drop_first() =~= s.drop_first().push(h));
        lemma_flatten_push(s.drop_first(), h);
        assert(s.push(h)[0] == s[0]);
        assert(flatten_hashes(s.push(h)) == s[0]@ + (flatten_hashes(s.drop_first()) + h@));
        assert(s[0]@ + (flatten_hashes(s.drop_first()) + h@) =~= flatten_hashes(s) + h@);
    }
}

/// Computes the payload commitment hash.
pub fn hash_payload(p: &UTXOEncryptedPayload) -> (r: HASH)
    ensures
        r@ == spec_payload_hash(*p),
{
    let mut buf: Vec<u8> = Vec::new();
    let amount_bytes = u64_to_le_bytes(p.amount);
    push_bytes(&mut buf, amount_bytes.as_slice());
    buf.push(if p.is_return { 1u8 } else { 0u8 });
    push_bytes(&mut buf, p.receiver_vault.as_slice());
    push_bytes(&mut buf, p.randomness.as_slice());
    assert(buf@ == spec_u64_to_le_bytes(p.amount)
        + seq![(if p.is_return { 1u8 } else { 0u8 })] + p.receiver_vault@ + p.randomness@);
    let ghost prefix: Seq<u8> = buf@;
    let n = p.utxo_spent_list.len();
    let mut i: usize = 0;
    while i < n
        invariant
            n == p.utxo_spent_list@.len(),
            0 <= i <= n,
            buf@ == prefix + flatten_hashes(p.utxo_spent_list@.take(i as int)),
        decreases n - i,
    {
        push_bytes(&mut buf, p.utxo_spent_list[i].as_slice());
        proof {
            let s = p.utxo_spent_list@;
            assert(s.take(i as int).push(s[i as int]) =~= s.take(i + 1));
            lemma_flatten_push(s.take(i as int), s[i as int]);
        }
        i = i + 1;
    }
    proof {
        assert(p.utxo_spent_list@.take(n as int) =~= p.utxo_spent_list@);
    }
    sha256(buf.as_slice())
}

/// Builds the commitment header for a payload, chained onto `prev_hash` at
/// the given epoch.
pub fn create_header(p: &UTXOEncryptedPayload, prev_hash: HASH, epoch: u32) -> (h: UTXOCommitmentHeader)
    ensures
        h.ciphertext_commitment@ == spec_payload_hash(*p),
        h.prev_utxo_hash == prev_hash,
        h.epoch == epoch,
        h.utxo_hash@ == spec_header_hash(spec_payload_hash(*p), prev_hash@, epoch),
{
    let c_commitment = hash_payload(p);
    let mut buf: Vec<u8> = Vec::new();
    push_bytes(&mut buf, c_commitment.as_slice());
    push_bytes(&mut buf, prev_hash.as_slice());
    let epoch_bytes = u32_to_le_bytes(epoch);
    push_bytes(&mut buf, epoch_bytes.as_slice());
    assert(buf@ == header_preimage(spec_payload_hash(*p), prev_hash@, epoch));
    let utxo_hash = sha256(buf.as_slice());
    UTXOCommitmentHeader { utxo_hash, prev_utxo_hash: prev_hash, ciphertext_commitment: c_commitment, epoch }
}

} // verus!
