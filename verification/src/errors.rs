//! The ledger-side error taxonomy.  Every fallible state-machine operation
//! says in its contract exactly which of these it returns, and when.
use vstd::prelude::*;

verus! {

/// Why a ledger, registry or storage operation was refused.
#[derive(Clone, Copy, Debug, PartialEq, Eq)]
pub enum ErrorCode {
    /// A vault public key is not exactly `KYBER_PUBKEY_SIZE` bytes.
    InvalidKeyLength,
    /// A vault upload chunk exceeds the per-call write limit.
    ChunkSizeExceeded,
    /// A completed vault key does not hash to the expected value.
    HashMismatch,
    /// An encrypted payload exceeds `MAX_PAYLOAD_SIZE`.
    PayloadTooLarge,
    /// A chunk write's end position does not fit in the offset type.
    ArithmeticOverflow,
    /// A chunk write does not start at the current `bytes_written`.
    InvalidOffset,
    /// The public key hash is already registered.
    ProverAlreadyRegistered,
    /// No prover carries the given public key hash.
    ProverNotRegistered,
    /// The prover exists but has been deactivated.
    ProverNotActive,
    /// This prover (by unique id) already voted on the UTXO.
    ProverAlreadyVoted,
    /// The registry is at capacity.
    MaxProversReached,
    /// The UTXO's vote table has no free slot, or it takes no votes.
    MaxVotesReached,
    /// The unique id was already claimed by another prover.
    ProverUniqueIdAlreadyUsed,
    /// A prover unique id of zero is reserved for empty vote slots.
    InvalidProverUniqueId,
    /// The UTXO's predecessor is not the ledger's current tip.
    UtxoHashMismatch,
}

} // verus!
