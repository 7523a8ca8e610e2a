//! The ledger: the single linear chain of finalized UTXOs, reduced to its
//! count and the hash of its tip.  Genesis is the all-zero hash; the tip
//! moves only when a UTXO is finalized.
use vstd::prelude::*;
use crate::HASH;

verus! {

/// The on-chain ledger state.
#[derive(Clone, Copy, Debug, PartialEq, Eq)]
pub struct Ledger {
    /// Total number of finalized UTXOs; monotone.
    pub count: u64,
    /// Hash of the most recently finalized UTXO (genesis: all zeros).
    pub last_valid_utxo_hash: HASH,
    /// Bump seed of the account the ledger lives in.
    pub bump: u8,
}

/// The genesis tip: thirty-two zero bytes.
pub open spec fn genesis_hash() -> Seq<u8> {
    Seq::new(32, |i: int| 0u8)
}

impl Ledger {
    /// Resets the ledger to genesis: no UTXOs, all-zero tip.
    pub fn initialize(&mut self, bump: u8)
        ensures
            final(self).count == 0,
            final(self).last_valid_utxo_hash@ == genesis_hash(),
            final(self).bump == bump,
    {
        self.count = 0;
        self.last_valid_utxo_hash = [0u8; 32];
        self.bump = bump;
        assert(self.last_valid_utxo_hash@ =~= genesis_hash());
    }

    /// The tip hash that the next admitted UTXO must chain onto.
    pub fn get_tip_hash(&self) -> (r: HASH)
        ensures
            r == self.last_valid_utxo_hash,
    {
        self.last_valid_utxo_hash
    }

    /// Finalizes a UTXO: the tip becomes its hash and the count grows by one.
    pub fn update_tip(&mut self, new_utxo_hash: HASH)
        requires
            old(self).count < u64::MAX,
        ensures
            final(self).last_valid_utxo_hash == new_utxo_hash,
            final(self).count == old(self).count + 1,
            final(self).bump == old(self).bump,
    {
        self.last_valid_utxo_hash = new_utxo_hash;
        self.count = self.count + 1;
    }
}

} // verus!
