//! The prover registry: stable identities, rotating keys.
//!
//! A prover's `unique_id` never changes; its `pubkey_hash` rotates on every
//! vote.  Lookup goes by the current key hash only, so a retired key finds
//! nothing.  The registry never deletes: deactivation only clears `is_active`.
use vstd::prelude::*;
use crate::{HASH, MAX_PROVERS};
use crate::errors::ErrorCode;

verus! {

/// One registered prover.
#[derive(Clone, Copy, Debug, PartialEq, Eq)]
pub struct ProverInfo {
    /// Stable, non-zero identity; survives key rotation.
    pub unique_id: u64,
    /// Hash of the prover's current public key; rotates every vote.
    pub pubkey_hash: HASH,
    /// Whether the prover may vote.
    pub is_active: bool,
}

impl ProverInfo {
    /// A freshly registered, active prover.
    pub fn new(unique_id: u64, pubkey_hash: HASH) -> (r: Self)
        ensures
            r.unique_id == unique_id,
            r.pubkey_hash == pubkey_hash,
            r.is_active == true,
    {
        Self { unique_id, pubkey_hash, is_active: true }
    }

    /// Whether the prover may vote.
    pub fn is_active(&self) -> (r: bool)
        ensures
            r == self.is_active,
    {
        self.is_active
    }

    /// Re-enables the prover.
    pub fn activate(&mut self)
        ensures
            *final(self) == (ProverInfo { is_active: true, ..*old(self) }),
    {
        self.is_active = true;
    }

    /// Disables the prover without deleting it.
    pub fn deactivate(&mut self)
        ensures
            *final(self) == (ProverInfo { is_active: false, ..*old(self) }),
    {
        self.is_active = false;
    }

    /// Rotates the prover's key hash.
    pub fn update_pubkey_hash(&mut self, new_pubkey_hash: HASH)
        ensures
            *final(self) == (ProverInfo { pubkey_hash: new_pubkey_hash, ..*old(self) }),
    {
        self.pubkey_hash = new_pubkey_hash;
    }
}

/// The index of the first prover whose key hash matches, searching from `i`.
pub open spec fn find_prover_from(provers: Seq<ProverInfo>, h: Seq<u8>, i: int) -> Option<int>
    decreases provers.len() - i,
{
    if i < 0 || i >= provers.len() {
        None
    } else if provers[i].pubkey_hash@ == h {
        Some(i)
    } else {
        find_prover_from(provers, h, i + 1)
    }
}

/// The index of the prover currently holding key hash `h`, if any.
pub open spec fn spec_find_prover(provers: Seq<ProverInfo>, h: Seq<u8>) -> Option<int> {
    find_prover_from(provers, h, 0)
}

/// Whether some prover already claims the unique id.
pub open spec fn id_used(provers: Seq<ProverInfo>, unique_id: u64) -> bool {
    exists|k: int| 0 <= k < provers.len() && provers[k].unique_id == unique_id
}

/// A found index really is the first match.
pub proof fn lemma_find_prover_from_props(provers: Seq<ProverInfo>, h: Seq<u8>, i: int)
    requires
        0 <= i <= provers.len(),
    ensures
        match find_prover_from(provers, h, i) {
            Some(k) => i <= k < provers.len() && provers[k].pubkey_hash@ == h
                && forall|m: int| i <= m < k ==> provers[m].pubkey_hash@ != h,
            None => forall|m: int| i <= m < provers.len() ==> provers[m].pubkey_hash@ != h,
        },
    decreases provers.len() - i,
{
    if i < provers.len() && provers[i].pubkey_hash@ != h {
        lemma_find_prover_from_props(provers, h, i + 1);
    }
}

/// The registry account.
#[derive(Clone, Debug)]
pub struct ProverRegistry {
    /// Number of registered provers; equals the vector's length.
    pub prover_count: u32,
    /// Bump seed of the account the registry lives in.
    pub bump: u8,
    /// The provers, in registration order.
    pub provers: Vec<ProverInfo>,
}

impl ProverRegistry {
    /// Internal consistency: the count mirrors the vector, capacity holds,
    /// and no prover carries the reserved id zero.
    pub open spec fn wf(self) -> bool {
        &&& self.prover_count == self.provers@.len()
        &&& self.provers@.len() <= MAX_PROVERS
        &&& forall|k: int| 0 <= k < self.provers@.len() ==> (#[trigger] self.provers@[k]).unique_id != 0
    }

    /// Empties the registry.
    pub fn initialize(&mut self, bump: u8)
        ensures
            final(self).wf(),
            final(self).prover_count == 0,
            final(self).provers@.len() == 0,
            final(self).bump == bump,
    {
        self.prover_count = 0;
        self.bump = bump;
        self.provers = Vec::new();
    }

    /// Finds the prover currently holding `pubkey_hash`.
    pub fn find_prover(&self, pubkey_hash: &HASH) -> (r: Option<usize>)
        ensures
            match r {
                Some(k) => spec_find_prover(self.provers@, pubkey_hash@) == Some(k as int),
                None => spec_find_prover(self.provers@, pubkey_hash@) is None,
            },
    {
        let n = self.provers.len();
        let mut i: usize = 0;
        while i < n
            invariant
                n == self.provers@.len(),
                0 <= i <= n,
                spec_find_prover(self.provers@, pubkey_hash@)
                    == find_prover_from(self.provers@, pubkey_hash@, i as int),
            decreases n - i,
        {
            if crate::hash_eq(&self.provers[i].pubkey_hash, pubkey_hash) {
                return Some(i);
            }
            i = i + 1;
        }
        None
    }

    /// Registers a new prover.  Refused exactly when the id is zero, the key
    /// hash is already present, the registry is full, or the id is taken --
    /// in that order of checks; otherwise the prover is appended, active.
    pub fn register_prover(&mut self, unique_id: u64, pubkey_hash: HASH) -> (r: Result<(), ErrorCode>)
        requires
            old(self).wf(),
        ensures
            final(self).wf(),
            ({
                let provers = old(self).provers@;
                if unique_id == 0 {
                    r == Err::<(), ErrorCode>(ErrorCode::InvalidProverUniqueId)
                        && *final(self) == *old(self)
                } else if spec_find_prover(provers, pubkey_hash@) is Some {
                    r == Err::<(), ErrorCode>(ErrorCode::ProverAlreadyRegistered)
                        && *final(self) == *old(self)
                } else if provers.len() >= MAX_PROVERS {
                    r == Err::<(), ErrorCode>(ErrorCode::MaxProversReached)
                        && *final(self) == *old(self)
                } else if id_used(provers, unique_id) {
                    r == Err::<(), ErrorCode>(ErrorCode::ProverUniqueIdAlreadyUsed)
                        && *final(self) == *old(self)
                } else {
                    r == Ok::<(), ErrorCode>(())
                        && final(self).provers@ == provers.push(
                            ProverInfo { unique_id, pubkey_hash, is_active: true })
                        && final(self).prover_count == old(self).prover_count + 1
                        && final(self).bump == old(self).bump
                }
            }),
    {
        if unique_id == 0 {
            return Err(ErrorCode::InvalidProverUniqueId);
        }
        if self.find_prover(&pubkey_hash).is_some() {
            return Err(ErrorCode::ProverAlreadyRegistered);
        }
        if self.provers.len() >= MAX_PROVERS {
            return Err(ErrorCode::MaxProversReached);
        }
        let n = self.provers.len();
        let mut i: usize = 0;
        while i < n
            invariant
                n == self.provers@.len(),
                0 <= i <= n,
                *self == *old(self),
                old(self).wf(),
                unique_id != 0,
                spec_find_prover(old(self).provers@, pubkey_hash@) is None,
                old(self).provers@.len() < MAX_PROVERS,
                forall|k: int| 0 <= k < i ==> (#[trigger] self.provers@[k]).unique_id != unique_id,
            decreases n - i,
        {
            if self.provers[i].unique_id == unique_id {
                return Err(ErrorCode::ProverUniqueIdAlreadyUsed);
            }
            i = i + 1;
        }
        assert(!id_used(self.provers@, unique_id));
        let prover = ProverInfo::new(unique_id, pubkey_hash);
        self.provers.push(prover);
        self.prover_count = self.prover_count + 1;
        Ok(())
    }

    /// Deactivates the prover currently holding `pubkey_hash`.
    pub fn deactivate_prover(&mut self, pubkey_hash: &HASH) -> (r: Result<(), ErrorCode>)
        requires
            old(self).wf(),
        ensures
            final(self).wf(),
            ({
                let provers = old(self).provers@;
                match spec_find_prover(provers, pubkey_hash@) {
                    Some(k) => r == Ok::<(), ErrorCode>(())
                        && final(self).provers@ == provers.update(
                            k, ProverInfo { is_active: false, ..provers[k] })
                        && final(self).prover_count == old(self).prover_count
                        && final(self).bump == old(self).bump,
                    None => r == Err::<(), ErrorCode>(ErrorCode::ProverNotRegistered)
                        && *final(self) == *old(self),
                }
            }),
    {
        let found = self.find_prover(pubkey_hash);
        match found {
            None => Err(ErrorCode::ProverNotRegistered),
            Some(index) => {
                proof {
                    lemma_find_prover_from_props(self.provers@, pubkey_hash@, 0);
                }
                let mut p = self.provers[index];
                p.is_active = false;
                self.provers[index] = p;
                Ok(())
            },
        }
    }

    /// Rotates the key hash of the prover at `index`.
    pub fn rotate_key(&mut self, index: usize, next_key_hash: HASH)
        requires
            old(self).wf(),
            index < old(self).provers@.len(),
        ensures
            final(self).wf(),
            final(self).provers@ == old(self).provers@.update(
                index as int,
                ProverInfo { pubkey_hash: next_key_hash, ..old(self).provers@[index as int] }),
            final(self).prover_count == old(self).prover_count,
            final(self).bump == old(self).bump,
    {
        let mut p = self.provers[index];
        p.pubkey_hash = next_key_hash;
        self.provers[index] = p;
    }
}

/// One key rotation: the prover at `idx` moves to key hash `next`; nothing
/// else changes.
pub open spec fn rotate_once(provers: Seq<ProverInfo>, idx: int, next: HASH) -> Seq<ProverInfo> {
    provers.update(idx, ProverInfo { pubkey_hash: next, ..provers[idx] })
}

/// A whole run of rotations of one prover, in order.
pub open spec fn rotate_many(provers: Seq<ProverInfo>, idx: int, hashes: Seq<HASH>) -> Seq<ProverInfo>
    decreases hashes.len(),
{
    if hashes.len() == 0 {
        provers
    } else {
        rotate_many(rotate_once(provers, idx, hashes[0]), idx, hashes.drop_first())
    }
}

/// Key-rotation law: after a prover votes N times, submitting the key
/// hashes `hashes[0], ..., hashes[N-1]` in turn, its current key hash is
/// exactly the N-th submitted hash, its identity and activity are untouched,
/// and every other prover is untouched.
pub proof fn lemma_rotation_sequence(provers: Seq<ProverInfo>, idx: int, hashes: Seq<HASH>)
    requires
        0 <= idx < provers.len(),
        hashes.len() > 0,
    ensures
        rotate_many(provers, idx, hashes).len() == provers.len(),
        rotate_many(provers, idx, hashes)[idx].pubkey_hash == hashes.last(),
        rotate_many(provers, idx, hashes)[idx].unique_id == provers[idx].unique_id,
        rotate_many(provers, idx, hashes)[idx].is_active == provers[idx].is_active,
        forall|m: int| 0 <= m < provers.len() && m != idx
            ==> rotate_many(provers, idx, hashes)[m] == provers[m],
    decreases hashes.len(),
{
    let stepped = rotate_once(provers, idx, hashes[0]);
    assert(rotate_many(provers, idx, hashes) == rotate_many(stepped, idx, hashes.drop_first()));
    if hashes.len() == 1 {
        assert(hashes.drop_first().len() == 0);
        assert(rotate_many(stepped, idx, hashes.drop_first()) == stepped);
        assert(hashes.last() == hashes[0]);
        assert forall|m: int| 0 <= m < provers.len() && m != idx
            implies rotate_many(provers, idx, hashes)[m] == provers[m] by {
            assert(stepped[m] == provers[m]);
        }
    } else {
        lemma_rotation_sequence(stepped, idx, hashes.drop_first());
        assert(hashes.drop_first().last() == hashes.last());
        assert forall|m: int| 0 <= m < provers.len() && m != idx
            implies rotate_many(provers, idx, hashes)[m] == provers[m] by {
            assert(rotate_many(stepped, idx, hashes.drop_first())[m] == stepped[m]);
            assert(stepped[m] == provers[m]);
        }
    }
}

/// Stale-key law: once a prover has rotated away from a key, looking that
/// key up finds nothing, provided no other prover holds it either.
pub proof fn lemma_stale_key_not_found(
    provers: Seq<ProverInfo>,
    idx: int,
    hashes: Seq<HASH>,
    stale: Seq<u8>,
)
    requires
        0 <= idx < provers.len(),
        hashes.len() > 0,
        hashes.last()@ != stale,
        forall|m: int| 0 <= m < provers.len() && m != idx
            ==> (#[trigger] provers[m]).pubkey_hash@ != stale,
    ensures
        spec_find_prover(rotate_many(provers, idx, hashes), stale) is None,
{
    lemma_rotation_sequence(provers, idx, hashes);
    let rotated = rotate_many(provers, idx, hashes);
    lemma_find_prover_from_props(rotated, stale, 0);
    if spec_find_prover(rotated, stale) is Some {
        let k = spec_find_prover(rotated, stale).unwrap();
        assert(rotated[k].pubkey_hash@ == stale);
        if k == idx {
            assert(rotated[k].pubkey_hash == hashes.last());
        } else {
            assert(rotated[k] == provers[k]);
            assert(provers[k].pubkey_hash@ != stale);
        }
        assert(false);
    }
}

} // verus!
