//! A privacy-preserving UTXO value-transfer protocol: commitment model,
//! spend circuit, ledger state machine, prover registry with threshold
//! attestation, and the off-chain orchestrator's decision logic.
use vstd::prelude::*;

pub mod hashing;
pub mod commitment;
pub mod circuit;
pub mod errors;
pub mod ledger;
pub mod registry;
pub mod utxo;
pub mod consensus;
pub mod storage;
pub mod events;
pub mod node;
pub mod rng;

verus! {

/// Number of bytes in a protocol hash (SHA-256 digest).
pub const HASH_SIZE: usize = 32;

/// A 32-byte protocol hash value.
pub type HASH = [u8; HASH_SIZE];

/// Size of a Kyber-768 public key in bytes.
pub const KYBER_PUBKEY_SIZE: usize = 1184;

/// A Kyber-768 public key.
pub type KyberPubKey = [u8; KYBER_PUBKEY_SIZE];

/// Size of a Kyber-768 ciphertext in bytes.
pub const KYBER_CIPHERTEXT_SIZE: usize = 1088;

/// Size of the symmetric-cipher nonce carried beside a sealed payload.
pub const NONCE_SIZE: usize = 12;

/// Largest encrypted payload the ledger accepts.
pub const MAX_PAYLOAD_SIZE: usize = 2048;

/// Maximum number of provers the registry can hold.
pub const MAX_PROVERS: usize = 100;

/// Valid votes required before a pending UTXO is finalized.
pub const MIN_ATTESTATIONS_REQUIRED: u16 = 1;

/// Number of vote slots in a pending UTXO's vote table.
pub const MAX_VOTES_ALLOWED: usize = 10;

/// Byte-for-byte equality of two hash values.
pub fn hash_eq(a: &HASH, b: &HASH) -> (r: bool)
    ensures
        r == (a@ == b@),
{
    let mut i: usize = 0;
    while i < HASH_SIZE
        invariant
            0 <= i <= HASH_SIZE,
            forall|k: int| 0 <= k < i ==> a@[k] == b@[k],
        decreases HASH_SIZE - i,
    {
        if a[i] != b[i] {
            assert(a@[i as int] != b@[i as int]);
            return false;
        }
        i = i + 1;
    }
    assert(a@ =~= b@);
    true
}

/// Whether `s` holds a hash with the same bytes as `h`.
pub open spec fn hash_in(s: Seq<HASH>, h: HASH) -> bool {
    exists|i: int| 0 <= i < s.len() && s[i]@ == h@
}

/// No two entries of `s` hold the same bytes.
pub open spec fn nodup_hashes(s: Seq<HASH>) -> bool {
    forall|i: int, j: int| 0 <= i < j < s.len() ==> s[i]@ != s[j]@
}

/// Linear scan for a hash value, as the spend circuit uses it.
pub fn contains_hash(v: &Vec<HASH>, h: &HASH) -> (r: bool)
    ensures
        r == hash_in(v@, *h),
{
    let n = v.len();
    let mut i: usize = 0;
    while i < n
        invariant
            n == v@.len(),
            0 <= i <= n,
            forall|k: int| 0 <= k < i ==> v@[k]@ != h@,
        decreases n - i,
    {
        if hash_eq(&v[i], h) {
            return true;
        }
        i = i + 1;
    }
    false
}

} // verus!
