//! A pending UTXO as the ledger stores it: the commitment fields, the sealed
//! payload, and (unless it was minted directly) a fixed table of prover
//! votes keyed by stable prover id.
use vstd::prelude::*;
use crate::{HASH, KYBER_CIPHERTEXT_SIZE, MAX_PAYLOAD_SIZE, MAX_VOTES_ALLOWED, NONCE_SIZE};
use crate::errors::ErrorCode;

verus! {

/// One vote slot: a slot with `prover_id == 0` is free.
#[derive(Clone, Copy, Debug, PartialEq, Eq)]
pub struct ProverVote {
    /// Unique id of the voting prover; zero marks an unused slot.
    pub prover_id: u64,
    /// The ballot: `true` attests the proof verified.
    pub is_valid: bool,
}

impl ProverVote {
    /// Bytes one slot occupies on chain.
    pub const SIZE: usize = 8 + 1;

    /// Whether this slot holds a vote.
    pub fn is_used(&self) -> (r: bool)
        ensures
            r == (self.prover_id != 0),
    {
        self.prover_id != 0
    }

    /// A filled vote slot.
    pub fn new(prover_id: u64, is_valid: bool) -> (r: Self)
        ensures
            r.prover_id == prover_id,
            r.is_valid == is_valid,
    {
        Self { prover_id, is_valid }
    }
}

/// How many slots hold a `true` ballot.
pub open spec fn count_valid(s: Seq<ProverVote>) -> int
    decreases s.len(),
{
    if s.len() == 0 {
        0
    } else {
        (if s[0].prover_id != 0 && s[0].is_valid { 1int } else { 0int }) + count_valid(s.drop_first())
    }
}

/// How many slots hold a `false` ballot.
pub open spec fn count_invalid(s: Seq<ProverVote>) -> int
    decreases s.len(),
{
    if s.len() == 0 {
        0
    } else {
        (if s[0].prover_id != 0 && !s[0].is_valid { 1int } else { 0int }) + count_invalid(s.drop_first())
    }
}

/// How many slots hold any ballot.
pub open spec fn count_total(s: Seq<ProverVote>) -> int
    decreases s.len(),
{
    if s.len() == 0 {
        0
    } else {
        (if s[0].prover_id != 0 { 1int } else { 0int }) + count_total(s.drop_first())
    }
}

/// Whether the prover with this unique id already holds a slot.
pub open spec fn spec_has_voted(s: Seq<ProverVote>, prover_unique_id: u64) -> bool {
    exists|k: int| 0 <= k < s.len() && s[k].prover_id != 0 && s[k].prover_id == prover_unique_id
}

/// The first free slot at or after `i`.
pub open spec fn free_slot_from(s: Seq<ProverVote>, i: int) -> Option<int>
    decreases s.len() - i,
{
    if i < 0 || i >= s.len() {
        None
    } else if s[i].prover_id == 0 {
        Some(i)
    } else {
        free_slot_from(s, i + 1)
    }
}

/// The first free slot of the table, if any.
pub open spec fn spec_first_free(s: Seq<ProverVote>) -> Option<int> {
    free_slot_from(s, 0)
}

/// A found free slot really is the first one.
pub proof fn lemma_free_slot_from_props(s: Seq<ProverVote>, i: int)
    requires
        0 <= i <= s.len(),
    ensures
        match free_slot_from(s, i) {
            Some(k) => i <= k < s.len() && s[k].prover_id == 0
                && forall|m: int| i <= m < k ==> s[m].prover_id != 0,
            None => forall|m: int| i <= m < s.len() ==> s[m].prover_id != 0,
        },
    decreases s.len() - i,
{
    if i < s.len() && s[i].prover_id != 0 {
        lemma_free_slot_from_props(s, i + 1);
    }
}

/// Counts never exceed the table length and never drop below zero.
pub proof fn lemma_counts_bounded(s: Seq<ProverVote>)
    ensures
        0 <= count_valid(s) <= s.len(),
        0 <= count_invalid(s) <= s.len(),
        0 <= count_total(s) <= s.len(),
    decreases s.len(),
{
    if s.len() > 0 {
        lemma_counts_bounded(s.drop_first());
    }
}

/// How each count moves when one slot is overwritten.
pub proof fn lemma_counts_update(s: Seq<ProverVote>, k: int, v: ProverVote)
    requires
        0 <= k < s.len(),
    ensures
        count_valid(s.update(k, v)) == count_valid(s)
            - (if s[k].prover_id != 0 && s[k].is_valid { 1int } else { 0int })
            + (if v.prover_id != 0 && v.is_valid { 1int } else { 0int }),
        count_invalid(s.update(k, v)) == count_invalid(s)
            - (if s[k].prover_id != 0 && !s[k].is_valid { 1int } else { 0int })
            + (if v.prover_id != 0 && !v.is_valid { 1int } else { 0int }),
        count_total(s.update(k, v)) == count_total(s)
            - (if s[k].prover_id != 0 { 1int } else { 0int })
            + (if v.prover_id != 0 { 1int } else { 0int }),
    decreases s.len(),
{
    if k == 0 {
        assert(s.update(0, v).drop_first() =~= s.drop_first());
        assert(s.update(0, v)[0] == v);
    } else {
        assert(s.update(k, v).drop_first() =~= s.drop_first().update(k - 1, v));
        lemma_counts_update(s.drop_first(), k - 1, v);
        assert(s.update(k, v)[0] == s[0]);
        assert(s.drop_first()[k - 1] == s[k]);
    }
}

/// A table of free slots holds no votes.
pub proof fn lemma_counts_all_free(s: Seq<ProverVote>)
    requires
        forall|k: int| 0 <= k < s.len() ==> (#[trigger] s[k]).prover_id == 0,
    ensures
        count_valid(s) == 0,
        count_invalid(s) == 0,
        count_total(s) == 0,
    decreases s.len(),
{
    if s.len() > 0 {
        assert(forall|k: int| 0 <= k < s.drop_first().len()
            ==> (#[trigger] s.drop_first()[k]) == s[k + 1]);
        lemma_counts_all_free(s.drop_first());
    }
}

/// The UTXO account: commitment fields, sealed payload, and the vote table
/// (`None` for a directly minted UTXO, which takes no votes).
#[derive(Clone, Debug)]
pub struct Utxo {
    pub epoch: u32,
    pub utxo_hash: HASH,
    pub prev_utxo_hash: HASH,
    pub ciphertext_commitment: HASH,
    pub nonce: [u8; NONCE_SIZE],
    pub encrypted_payload: Vec<u8>,
    pub kyber_ciphertext: [u8; KYBER_CIPHERTEXT_SIZE],
    /// Address of the proof account, absent for minted UTXOs.
    pub zk_proof_pubkey: Option<[u8; 32]>,
    /// Vote table, absent for minted UTXOs.
    pub votes: Option<Vec<ProverVote>>,
    pub bump: u8,
}

/// The vote table as a sequence, where there is one.
pub open spec fn votes_view(u: Utxo) -> Option<Seq<ProverVote>> {
    match u.votes {
        Some(v) => Some(v@),
        None => None,
    }
}

/// The number of valid votes the UTXO carries.
pub open spec fn utxo_valid_votes(u: Utxo) -> int {
    match votes_view(u) {
        Some(v) => count_valid(v),
        None => 0,
    }
}

/// All fields but the vote table agree.
pub open spec fn same_except_votes(a: Utxo, b: Utxo) -> bool {
    &&& a.epoch == b.epoch
    &&& a.utxo_hash == b.utxo_hash
    &&& a.prev_utxo_hash == b.prev_utxo_hash
    &&& a.ciphertext_commitment == b.ciphertext_commitment
    &&& a.nonce == b.nonce
    &&& a.encrypted_payload == b.encrypted_payload
    &&& a.kyber_ciphertext == b.kyber_ciphertext
    &&& a.zk_proof_pubkey == b.zk_proof_pubkey
    &&& a.bump == b.bump
}

impl Utxo {
    /// The vote table, where present, has exactly `MAX_VOTES_ALLOWED` slots.
    pub open spec fn wf(self) -> bool {
        match votes_view(self) {
            Some(v) => v.len() == MAX_VOTES_ALLOWED,
            None => true,
        }
    }

    /// Bytes a voting UTXO account occupies, given its payload length.
    pub fn size(payload_len: usize) -> (r: usize)
        requires
            payload_len <= MAX_PAYLOAD_SIZE,
        ensures
            r == 1465 + payload_len,
    {
        8 + // discriminator
        4 + // epoch
        32 + // utxo_hash
        32 + // prev_utxo_hash
        32 + // ciphertext_commitment
        NONCE_SIZE + // nonce
        4 + payload_len + // encrypted_payload (length prefix + data)
        KYBER_CIPHERTEXT_SIZE + // kyber_ciphertext
        1 + 32 + // zk_proof_pubkey (tag + address)
        1 + (ProverVote::SIZE * MAX_VOTES_ALLOWED) + // votes (tag + table)
        1 + // bump
        128 // padding
    }

    /// Bytes a minted (non-voting) UTXO account occupies.
    pub fn size_airdrop(payload_len: usize) -> (r: usize)
        requires
            payload_len <= MAX_PAYLOAD_SIZE,
        ensures
            r == 1279 + payload_len,
    {
        8 + // discriminator
        4 + // epoch
        32 + // utxo_hash
        32 + // prev_utxo_hash
        32 + // ciphertext_commitment
        NONCE_SIZE + // nonce
        4 + payload_len + // encrypted_payload (length prefix + data)
        KYBER_CIPHERTEXT_SIZE + // kyber_ciphertext
        1 + // zk_proof_pubkey (tag only: absent)
        1 + // votes (tag only: absent)
        1 + // bump
        64 // padding
    }

    /// Fills in a freshly admitted UTXO that awaits votes: every slot free.
    pub fn initialize(
        &mut self,
        epoch: u32,
        utxo_hash: HASH,
        prev_utxo_hash: HASH,
        ciphertext_commitment: HASH,
        nonce: [u8; NONCE_SIZE],
        encrypted_payload: Vec<u8>,
        kyber_ciphertext: [u8; KYBER_CIPHERTEXT_SIZE],
        zk_proof_pubkey: [u8; 32],
        bump: u8,
    )
        ensures
            final(self).wf(),
            final(self).epoch == epoch,
            final(self).utxo_hash == utxo_hash,
            final(self).prev_utxo_hash == prev_utxo_hash,
            final(self).ciphertext_commitment == ciphertext_commitment,
            final(self).nonce == nonce,
            final(self).encrypted_payload == encrypted_payload,
            final(self).kyber_ciphertext == kyber_ciphertext,
            final(self).zk_proof_pubkey == Some(zk_proof_pubkey),
            final(self).bump == bump,
            ({
                match votes_view(*final(self)) {
                    Some(v) => v.len() == MAX_VOTES_ALLOWED
                        && forall|k: int| 0 <= k < v.len() ==> (#[trigger] v[k]).prover_id == 0,
                    None => false,
                }
            }),
            utxo_valid_votes(*final(self)) == 0,
    {
        let mut table: Vec<ProverVote> = Vec::new();
        let mut i: usize = 0;
        while i < MAX_VOTES_ALLOWED
            invariant
                0 <= i <= MAX_VOTES_ALLOWED,
                table@.len() == i,
                forall|k: int| 0 <= k < i ==> (#[trigger] table@[k]).prover_id == 0,
            decreases MAX_VOTES_ALLOWED - i,
        {
            table.push(ProverVote { prover_id: 0, is_valid: false });
            i = i + 1;
        }
        proof {
            lemma_counts_all_free(table@);
        }
        self.epoch = epoch;
        self.utxo_hash = utxo_hash;
        self.prev_utxo_hash = prev_utxo_hash;
        self.ciphertext_commitment = ciphertext_commitment;
        self.nonce = nonce;
        self.encrypted_payload = encrypted_payload;
        self.kyber_ciphertext = kyber_ciphertext;
        self.zk_proof_pubkey = Some(zk_proof_pubkey);
        self.votes = Some(table);
        self.bump = bump;
    }

    /// Fills in a minted UTXO: no proof reference, no vote table.
    pub fn initialize_airdrop(
        &mut self,
        epoch: u32,
        utxo_hash: HASH,
        prev_utxo_hash: HASH,
        ciphertext_commitment: HASH,
        nonce: [u8; NONCE_SIZE],
        encrypted_payload: Vec<u8>,
        kyber_ciphertext: [u8; KYBER_CIPHERTEXT_SIZE],
        bump: u8,
    )
        ensures
            final(self).wf(),
            final(self).epoch == epoch,
            final(self).utxo_hash == utxo_hash,
            final(self).prev_utxo_hash == prev_utxo_hash,
            final(self).ciphertext_commitment == ciphertext_commitment,
            final(self).nonce == nonce,
            final(self).encrypted_payload == encrypted_payload,
            final(self).kyber_ciphertext == kyber_ciphertext,
            final(self).zk_proof_pubkey is None,
            final(self).votes is None,
            final(self).bump == bump,
    {
        self.epoch = epoch;
        self.utxo_hash = utxo_hash;
        self.prev_utxo_hash = prev_utxo_hash;
        self.ciphertext_commitment = ciphertext_commitment;
        self.nonce = nonce;
        self.encrypted_payload = encrypted_payload;
        self.kyber_ciphertext = kyber_ciphertext;
        self.zk_proof_pubkey = None;
        self.votes = None;
        self.bump = bump;
    }

    /// Whether this UTXO is finalized by votes rather than minted.
    pub fn requires_voting(&self) -> (r: bool)
        ensures
            r == (self.votes is Some),
    {
        self.votes.is_some()
    }

    /// Whether the prover with this unique id already voted here.
    pub fn has_prover_voted(&self, prover_unique_id: u64) -> (r: bool)
        ensures
            r == match votes_view(*self) {
                Some(v) => spec_has_voted(v, prover_unique_id),
                None => false,
            },
    {
        match &self.votes {
            None => false,
            Some(table) => {
                let n = table.len();
                let mut i: usize = 0;
                while i < n
                    invariant
                        n == table@.len(),
                        0 <= i <= n,
                        votes_view(*self) == Some(table@),
                        forall|k: int| 0 <= k < i ==> !((#[trigger] table@[k]).prover_id != 0
                            && table@[k].prover_id == prover_unique_id),
                    decreases n - i,
                {
                    if table[i].prover_id != 0 && table[i].prover_id == prover_unique_id {
                        return true;
                    }
                    i = i + 1;
                }
                false
            },
        }
    }

    /// Records a ballot in the first free slot.  Refused exactly when this
    /// prover already voted, or when there is no vote table or no free slot.
    pub fn record_vote(&mut self, prover_unique_id: u64, is_valid: bool) -> (r: Result<(), ErrorCode>)
        requires
            prover_unique_id != 0,
        ensures
            ({
                match votes_view(*old(self)) {
                    None => r == Err::<(), ErrorCode>(ErrorCode::MaxVotesReached)
                        && *final(self) == *old(self),
                    Some(v) => {
                        if spec_has_voted(v, prover_unique_id) {
                            r == Err::<(), ErrorCode>(ErrorCode::ProverAlreadyVoted)
                                && *final(self) == *old(self)
                        } else {
                            match spec_first_free(v) {
                                None => r == Err::<(), ErrorCode>(ErrorCode::MaxVotesReached)
                                    && *final(self) == *old(self),
                                Some(k) => r == Ok::<(), ErrorCode>(())
                                    && same_except_votes(*old(self), *final(self))
                                    && votes_view(*final(self)) == Some(v.update(
                                        k, ProverVote { prover_id: prover_unique_id, is_valid }))
                            }
                        }
                    },
                }
            }),
    {
        if self.has_prover_voted(prover_unique_id) {
            return Err(ErrorCode::ProverAlreadyVoted);
        }
        if self.votes.is_none() {
            return Err(ErrorCode::MaxVotesReached);
        }
        let slot = self.first_free_slot();
        match slot {
            None => Err(ErrorCode::MaxVotesReached),
            Some(k) => {
                proof {
                    lemma_free_slot_from_props(votes_view(*self).unwrap(), 0);
                }
                self.set_vote_slot(k, ProverVote { prover_id: prover_unique_id, is_valid });
                Ok(())
            },
        }
    }

    /// The first free slot of the vote table, if there is a table and room.
    fn first_free_slot(&self) -> (r: Option<usize>)
        ensures
            match votes_view(*self) {
                None => r is None,
                Some(v) => match r {
                    Some(k) => spec_first_free(v) == Some(k as int),
                    None => spec_first_free(v) is None,
                },
            },
    {
        match &self.votes {
            None => None,
            Some(table) => {
                let n = table.len();
                let mut i: usize = 0;
                while i < n
                    invariant
                        n == table@.len(),
                        0 <= i <= n,
                        votes_view(*self) == Some(table@),
                        spec_first_free(table@) == free_slot_from(table@, i as int),
                    decreases n - i,
                {
                    if table[i].prover_id == 0 {
                        return Some(i);
                    }
                    i = i + 1;
                }
                None
            },
        }
    }

    /// Overwrites one slot of the vote table.
    fn set_vote_slot(&mut self, k: usize, v: ProverVote)
        requires
            old(self).votes is Some,
            k < votes_view(*old(self)).unwrap().len(),
        ensures
            same_except_votes(*old(self), *final(self)),
            votes_view(*final(self)) == Some(votes_view(*old(self)).unwrap().update(k as int, v)),
    {
        match &mut self.votes {
            None => {
                proof {
                    assert(false);
                }
            },
            Some(table) => {
                table[k] = v;
            },
        }
    }

    /// The number of slots holding a valid ballot.
    pub fn get_valid_votes(&self) -> (r: u16)
        requires
            self.wf(),
        ensures
            r == match votes_view(*self) {
                Some(v) => count_valid(v),
                None => 0int,
            },
    {
        match &self.votes {
            None => 0,
            Some(table) => {
                proof {
                    lemma_counts_bounded(table@);
                }
                let n = table.len();
                let mut acc: usize = 0;
                let mut i: usize = 0;
                while i < n
                    invariant
                        n == table@.len(),
                        0 <= i <= n,
                        acc == count_valid(table@.take(i as int)),
                        acc <= i,
                    decreases n - i,
                {
                    proof {
                        lemma_count_snoc(table@, i as int);
                        lemma_counts_bounded(table@.take(i + 1));
                    }
                    if table[i].prover_id != 0 && table[i].is_valid {
                        acc = acc + 1;
                    }
                    i = i + 1;
                }
                proof {
                    assert(table@.take(n as int) =~= table@);
                    lemma_counts_bounded(table@);
                }
                acc as u16
            },
        }
    }

    /// The number of slots holding an invalid ballot.
    pub fn get_invalid_votes(&self) -> (r: u16)
        requires
            self.wf(),
        ensures
            r == match votes_view(*self) {
                Some(v) => count_invalid(v),
                None => 0int,
            },
    {
        match &self.votes {
            None => 0,
            Some(table) => {
                let n = table.len();
                let mut acc: usize = 0;
                let mut i: usize = 0;
                while i < n
                    invariant
                        n == table@.len(),
                        0 <= i <= n,
                        acc == count_invalid(table@.take(i as int)),
                        acc <= i,
                    decreases n - i,
                {
                    proof {
                        lemma_count_snoc(table@, i as int);
                        lemma_counts_bounded(table@.take(i + 1));
                    }
                    if table[i].prover_id != 0 && !table[i].is_valid {
                        acc = acc + 1;
                    }
                    i = i + 1;
                }
                proof {
                    assert(table@.take(n as int) =~= table@);
                    lemma_counts_bounded(table@);
                }
                acc as u16
            },
        }
    }

    /// The number of slots holding any ballot.
    pub fn get_total_votes(&self) -> (r: u16)
        requires
            self.wf(),
        ensures
            r == match votes_view(*self) {
                Some(v) => count_total(v),
                None => 0int,
            },
    {
        match &self.votes {
            None => 0,
            Some(table) => {
                let n = table.len();
                let mut acc: usize = 0;
                let mut i: usize = 0;
                while i < n
                    invariant
                        n == table@.len(),
                        0 <= i <= n,
                        acc == count_total(table@.take(i as int)),
                        acc <= i,
                    decreases n - i,
                {
                    proof {
                        lemma_count_snoc(table@, i as int);
                        lemma_counts_bounded(table@.take(i + 1));
                    }
                    if table[i].prover_id != 0 {
                        acc = acc + 1;
                    }
                    i = i + 1;
                }
                proof {
                    assert(table@.take(n as int) =~= table@);
                    lemma_counts_bounded(table@);
                }
                acc as u16
            },
        }
    }

    /// Quorum check: enough valid ballots to finalize.
    pub fn threshold_met(&self, min_attestations: u16) -> (r: bool)
        requires
            self.wf(),
        ensures
            r == (utxo_valid_votes(*self) >= min_attestations),
    {
        self.get_valid_votes() >= min_attestations
    }
}

/// One step of each count along a prefix of the table.
pub proof fn lemma_count_snoc(s: Seq<ProverVote>, k: int)
    requires
        0 <= k < s.len(),
    ensures
        count_valid(s.take(k + 1)) == count_valid(s.take(k))
            + (if s[k].prover_id != 0 && s[k].is_valid { 1int } else { 0int }),
        count_invalid(s.take(k + 1)) == count_invalid(s.take(k))
            + (if s[k].prover_id != 0 && !s[k].is_valid { 1int } else { 0int }),
        count_total(s.take(k + 1)) == count_total(s.take(k))
            + (if s[k].prover_id != 0 { 1int } else { 0int }),
    decreases k,
{
    if k == 0 {
        assert(s.take(1) =~= seq![s[0]]);
        assert(seq![s[0]].drop_first() =~= Seq::<ProverVote>::empty());
        assert(s.take(0) =~= Seq::<ProverVote>::empty());
    } else {
        assert(s.take(k + 1).drop_first() =~= s.drop_first().take(k));
        assert(s.take(k).drop_first() =~= s.drop_first().take(k - 1));
        lemma_count_snoc(s.drop_first(), k - 1);
        assert(s.take(k + 1)[0] == s[0]);
        assert(s.take(k)[0] == s[0]);
        assert(s.drop_first()[k - 1] == s[k]);
    }
}

/// Quorum law for a threshold of two: a table holding exactly one valid
/// vote stays below the threshold, and recording one more valid ballot --
/// from any prover id, in any free slot -- reaches it.  Together with
/// `record_vote`'s refusal of a repeated id, a second ballot can only come
/// from a different prover, however often either has rotated its keys.
pub proof fn lemma_second_valid_vote_reaches_quorum(s: Seq<ProverVote>, k: int, prover_id: u64)
    requires
        count_valid(s) == 1,
        0 <= k < s.len(),
        s[k].prover_id == 0,
        prover_id != 0,
    ensures
        !(count_valid(s) >= 2),
        count_valid(s.update(k, ProverVote { prover_id, is_valid: true })) == 2,
{
    lemma_counts_update(s, k, ProverVote { prover_id, is_valid: true });
}

} // verus!
