//! The spend circuit: a pure function from a private witness to the two
//! output commitments, enforcing payload integrity, ownership, double-spend
//! freedom and fund sufficiency.
//!
//! The contract pins the exact outcome for every witness: which failure is
//! reported (the checks run in input order, and per input in the order
//! integrity, ownership, double spend), and on success every field of both
//! output payloads and headers.
use vstd::prelude::*;
use crate::{HASH, KyberPubKey, contains_hash, hash_eq, hash_in, nodup_hashes};
use crate::commitment::{
    UTXOCommitmentHeader, UTXOEncryptedPayload, create_header, hash_payload,
    spec_header_hash, spec_payload_hash,
};
use crate::hashing::{sha256, sha256_of};

verus! {

/// The private witness of one spend: the spender's vault key, the inputs
/// being consumed, the destination, and the chain tip to build on.
#[derive(Clone, Debug)]
pub struct QSPVGuestInput {
    /// The spender's vault public key, pre-derived outside the circuit.
    pub sender_pubkey: KyberPubKey,
    pub input_utxos: Vec<DecryptedInput>,
    pub receiver_pubkey: KyberPubKey,
    pub amount_to_send: u64,
    pub receiver_randomness: [u8; 32],
    pub return_randomness: [u8; 32],
    pub current_ledger_tip: HASH,
}

/// One input UTXO, opened: its public header and decrypted payload.
#[derive(Clone, Debug)]
pub struct DecryptedInput {
    pub header: UTXOCommitmentHeader,
    pub payload: UTXOEncryptedPayload,
    pub amount: u64,
    pub randomness: [u8; 32],
}

/// The circuit's public output: the two freshly minted commitment headers.
#[derive(Clone, Debug, PartialEq, Eq)]
pub struct QspvGuestOutput {
    pub receiver_commitment: UTXOCommitmentHeader,
    pub return_commitment: UTXOCommitmentHeader,
}

/// Everything a successful spend produces: the public commitments plus the
/// two plaintext payloads they commit to (sealed and sent out-of-band).
#[derive(Clone, Debug, PartialEq, Eq)]
pub struct SpendOutputs {
    pub commitments: QspvGuestOutput,
    pub receiver_payload: UTXOEncryptedPayload,
    pub return_payload: UTXOEncryptedPayload,
}

/// Why a spend attempt is unsatisfiable.
#[derive(Clone, Copy, Debug, PartialEq, Eq)]
pub enum CircuitError {
    /// A payload does not hash to its header's `ciphertext_commitment`.
    Integrity,
    /// An input payload's `receiver_vault` is not the sender's vault.
    Ownership,
    /// Two inputs share an ancestor, or an input reappears in the history.
    DoubleSpend,
    /// The inputs sum to less than the amount to send.
    InsufficientFunds,
}

/// The payload hashes to the header's commitment.
pub open spec fn input_integrity_ok(inp: DecryptedInput) -> bool {
    inp.header.ciphertext_commitment@ == spec_payload_hash(inp.payload)
}

/// The payload names the sender's vault as its owner.
pub open spec fn input_ownership_ok(inp: DecryptedInput, vault: Seq<u8>) -> bool {
    inp.payload.receiver_vault@ == vault
}

/// The hashes one input adds to the propagated history: its own spent list
/// followed by its own UTXO hash.
pub open spec fn contributed(inp: DecryptedInput) -> Seq<HASH> {
    inp.payload.utxo_spent_list@.push(inp.header.utxo_hash)
}

/// Whether the hashes of `l` can be merged into the running history `hist`
/// one at a time without ever meeting a hash already present.
pub open spec fn admits(hist: Seq<HASH>, l: Seq<HASH>) -> bool
    decreases l.len(),
{
    l.len() == 0 || (!hash_in(hist, l[0]) && admits(hist.push(l[0]), l.drop_first()))
}

/// The full propagated history of a sequence of inputs, in input order.
pub open spec fn spend_history(inputs: Seq<DecryptedInput>) -> Seq<HASH>
    decreases inputs.len(),
{
    if inputs.len() == 0 {
        Seq::empty()
    } else {
        contributed(inputs[0]) + spend_history(inputs.drop_first())
    }
}

/// The sum of the input payload amounts, as an unbounded integer.
pub open spec fn amount_sum(inputs: Seq<DecryptedInput>) -> int
    decreases inputs.len(),
{
    if inputs.len() == 0 {
        0
    } else {
        inputs[0].payload.amount + amount_sum(inputs.drop_first())
    }
}

/// The first failure the circuit meets while scanning `inputs` in order
/// against the sender's vault and the running history, or `None` if every
/// input passes.
pub open spec fn scan_inputs(
    inputs: Seq<DecryptedInput>,
    vault: Seq<u8>,
    hist: Seq<HASH>,
) -> Option<CircuitError>
    decreases inputs.len(),
{
    if inputs.len() == 0 {
        None
    } else {
        let inp = inputs[0];
        if !input_integrity_ok(inp) {
            Some(CircuitError::Integrity)
        } else if !input_ownership_ok(inp, vault) {
            Some(CircuitError::Ownership)
        } else if !admits(hist, contributed(inp)) {
            Some(CircuitError::DoubleSpend)
        } else {
            scan_inputs(inputs.drop_first(), vault, hist + contributed(inp))
        }
    }
}

/// What a successful spend looks like: every field of both payloads and
/// both headers, as the commitment model dictates.
pub open spec fn spend_outputs_ok(input: QSPVGuestInput, out: SpendOutputs) -> bool {
    let inputs = input.input_utxos@;
    let hist = spend_history(inputs);
    let rp = out.receiver_payload;
    let tp = out.return_payload;
    let rc = out.commitments.receiver_commitment;
    let tc = out.commitments.return_commitment;
    &&& rp.amount == input.amount_to_send
    &&& rp.is_return == false
    &&& rp.receiver_vault@ == sha256_of(input.receiver_pubkey@)
    &&& rp.randomness == input.receiver_randomness
    &&& rp.utxo_spent_list@ == hist
    &&& rp.version == 1
    &&& tp.amount == amount_sum(inputs) - input.amount_to_send
    &&& tp.is_return == true
    &&& tp.receiver_vault@ == sha256_of(input.sender_pubkey@)
    &&& tp.randomness == input.return_randomness
    &&& tp.utxo_spent_list@ == hist
    &&& tp.version == 1
    &&& rc.ciphertext_commitment@ == spec_payload_hash(rp)
    &&& rc.prev_utxo_hash == input.current_ledger_tip
    &&& rc.epoch == 1
    &&& rc.utxo_hash@ == spec_header_hash(spec_payload_hash(rp), input.current_ledger_tip@, 1)
    &&& tc.ciphertext_commitment@ == spec_payload_hash(tp)
    &&& tc.prev_utxo_hash == rc.utxo_hash
    &&& tc.epoch == 1
    &&& tc.utxo_hash@ == spec_header_hash(spec_payload_hash(tp), rc.utxo_hash@, 1)
}

/// Copies a vector of hashes.
fn copy_hashes(v: &Vec<HASH>) -> (r: Vec<HASH>)
    ensures
        r@ == v@,
{
    let mut r: Vec<HASH> = Vec::new();
    let n = v.len();
    let mut i: usize = 0;
    while i < n
        invariant
            n == v@.len(),
            0 <= i <= n,
            r@ == v@.take(i as int),
        decreases n - i,
    {
        r.push(v[i]);
        assert(v@.take(i as int).push(v@[i as int]) =~= v@.take(i + 1));
        i = i + 1;
    }
    assert(v@.take(n as int) =~= v@);
    r
}

/// `spend_history` distributes over concatenation.
pub proof fn lemma_spend_history_concat(s1: Seq<DecryptedInput>, s2: Seq<DecryptedInput>)
    ensures
        spend_history(s1 + s2) == spend_history(s1) + spend_history(s2),
    decreases s1.len(),
{
    if s1.len() == 0 {
        assert(s1 + s2 =~= s2);
        assert(spend_history(s1) + spend_history(s2) =~= spend_history(s2));
    } else {
        assert((s1 + s2).drop_first() =~= s1.drop_first() + s2);
        lemma_spend_history_concat(s1.drop_first(), s2);
        assert((s1 + s2)[0] == s1[0]);
        assert(contributed(s1[0]) + (spend_history(s1.drop_first()) + spend_history(s2))
            =~= (contributed(s1[0]) + spend_history(s1.drop_first())) + spend_history(s2));
    }
}

/// One step of `spend_history` along a prefix.
pub proof fn lemma_spend_history_snoc(s: Seq<DecryptedInput>, k: int)
    requires
        0 <= k < s.len(),
    ensures
        spend_history(s.take(k + 1)) == spend_history(s.take(k)) + contributed(s[k]),
{
    assert(s.take(k + 1) =~= s.take(k) + seq![s[k]]);
    lemma_spend_history_concat(s.take(k), seq![s[k]]);
    assert(seq![s[k]].drop_first() =~= Seq::<DecryptedInput>::empty());
    assert(spend_history(seq![s[k]]) == contributed(s[k]) + spend_history(Seq::<DecryptedInput>::empty()));
    assert(contributed(s[k]) + Seq::<HASH>::empty() =~= contributed(s[k]));
}

/// `amount_sum` distributes over concatenation.
pub proof fn lemma_amount_sum_concat(s1: Seq<DecryptedInput>, s2: Seq<DecryptedInput>)
    ensures
        amount_sum(s1 + s2) == amount_sum(s1) + amount_sum(s2),
    decreases s1.len(),
{
    if s1.len() == 0 {
        assert(s1 + s2 =~= s2);
    } else {
        assert((s1 + s2).drop_first() =~= s1.drop_first() + s2);
        lemma_amount_sum_concat(s1.drop_first(), s2);
        assert((s1 + s2)[0] == s1[0]);
    }
}

/// One step of `amount_sum` along a prefix.
pub proof fn lemma_amount_sum_snoc(s: Seq<DecryptedInput>, k: int)
    requires
        0 <= k < s.len(),
    ensures
        amount_sum(s.take(k + 1)) == amount_sum(s.take(k)) + s[k].payload.amount,
{
    assert(s.take(k + 1) =~= s.take(k) + seq![s[k]]);
    lemma_amount_sum_concat(s.take(k), seq![s[k]]);
    assert(seq![s[k]].drop_first() =~= Seq::<DecryptedInput>::empty());
    assert(amount_sum(seq![s[k]]) == s[k].payload.amount + amount_sum(Seq::<DecryptedInput>::empty()));
    assert(amount_sum(Seq::<DecryptedInput>::empty()) == 0);
}

/// Every amount is non-negative, so the sum is too.
pub proof fn lemma_amount_sum_nonneg(s: Seq<DecryptedInput>)
    ensures
        amount_sum(s) >= 0,
    decreases s.len(),
{
    if s.len() > 0 {
        lemma_amount_sum_nonneg(s.drop_first());
    }
}

/// A prefix never sums to more than the whole.
pub proof fn lemma_amount_sum_prefix(s: Seq<DecryptedInput>, k: int)
    requires
        0 <= k <= s.len(),
    ensures
        amount_sum(s.take(k)) <= amount_sum(s),
{
    assert(s =~= s.take(k) + s.skip(k));
    lemma_amount_sum_concat(s.take(k), s.skip(k));
    lemma_amount_sum_nonneg(s.skip(k));
}

/// Runs the spend circuit on the witness.  The result is fully determined:
/// the first failing check in input order is reported, and a success yields
/// exactly the payloads and headers of the commitment model, with the return
/// output chained onto the receiver output.
pub fn run_spend_circuit(input: &QSPVGuestInput) -> (r: Result<SpendOutputs, CircuitError>)
    requires
        amount_sum(input.input_utxos@) <= u64::MAX,
    ensures
        ({
            let vault = sha256_of(input.sender_pubkey@);
            let inputs = input.input_utxos@;
            match scan_inputs(inputs, vault, Seq::empty()) {
                Some(e) => r == Result::<SpendOutputs, CircuitError>::Err(e),
                None => {
                    if amount_sum(inputs) < input.amount_to_send {
                        r == Result::<SpendOutputs, CircuitError>::Err(CircuitError::InsufficientFunds)
                    } else {
                        r is Ok && spend_outputs_ok(*input, r->Ok_0)
                    }
                },
            }
        }),
        // Conservation: inputs = send + return on every success.
        r is Ok ==> r->Ok_0.receiver_payload.amount + r->Ok_0.return_payload.amount
            == amount_sum(input.input_utxos@),
        // Chain linkage: the return output extends the receiver output.
        r is Ok ==> r->Ok_0.commitments.return_commitment.prev_utxo_hash
            == r->Ok_0.commitments.receiver_commitment.utxo_hash,
{
    let ghost vault = sha256_of(input.sender_pubkey@);
    let ghost inputs = input.input_utxos@;
    let my_vault_hash = sha256(input.sender_pubkey.as_slice());
    let mut total: u64 = 0;
    let mut history: Vec<HASH> = Vec::new();
    let n = input.input_utxos.len();
    let mut idx: usize = 0;
    proof {
        assert(inputs.skip(0) =~= inputs);
        assert(inputs.take(0) =~= Seq::<DecryptedInput>::empty());
        assert(history@ =~= Seq::<HASH>::empty());
    }
    while idx < n
        invariant
            n == inputs.len(),
            inputs == input.input_utxos@,
            vault == sha256_of(input.sender_pubkey@),
            my_vault_hash@ == vault,
            amount_sum(inputs) <= u64::MAX,
            0 <= idx <= n,
            history@ == spend_history(inputs.take(idx as int)),
            nodup_hashes(history@),
            scan_inputs(inputs, vault, Seq::empty())
                == scan_inputs(inputs.skip(idx as int), vault, history@),
            total == amount_sum(inputs.take(idx as int)),
        decreases n - idx,
    {
        let utxo = &input.input_utxos[idx];
        proof {
            assert(inputs.skip(idx as int).len() > 0);
            assert(inputs.skip(idx as int)[0] == inputs[idx as int]);
        }
        let calculated_payload_hash = hash_payload(&utxo.payload);
        if !hash_eq(&calculated_payload_hash, &utxo.header.ciphertext_commitment) {
            assert(!input_integrity_ok(inputs[idx as int]));
            return Err(CircuitError::Integrity);
        }
        if !hash_eq(&utxo.payload.receiver_vault, &my_vault_hash) {
            assert(!input_ownership_ok(inputs[idx as int], vault));
            return Err(CircuitError::Ownership);
        }
        let ghost h0 = history@;
        let ghost list = utxo.payload.utxo_spent_list@;
        let ghost uh = utxo.header.utxo_hash;
        let m = utxo.payload.utxo_spent_list.len();
        let mut j: usize = 0;
        proof {
            assert(list.skip(0) =~= list);
            assert(list.skip(0).push(uh) =~= contributed(inputs[idx as int]));
        }
        while j < m
            invariant
                m == list.len(),
                list == utxo.payload.utxo_spent_list@,
                uh == utxo.header.utxo_hash,
                0 <= j <= m,
                history@ == h0 + list.take(j as int),
                nodup_hashes(history@),
                admits(h0, contributed(inputs[idx as int]))
                    == admits(history@, list.skip(j as int).push(uh)),
                inputs == input.input_utxos@,
                0 <= idx < inputs.len(),
                utxo == input.input_utxos@[idx as int],
                contributed(inputs[idx as int]) == list.push(uh),
                vault == sha256_of(input.sender_pubkey@),
                input_integrity_ok(inputs[idx as int]),
                input_ownership_ok(inputs[idx as int], vault),
                scan_inputs(inputs, vault, Seq::empty())
                    == scan_inputs(inputs.skip(idx as int), vault, h0),
            decreases m - j,
        {
            let past_hash = &utxo.payload.utxo_spent_list[j];
            proof {
                assert(list.skip(j as int)[0] == list[j as int]);
            }
            if contains_hash(&history, past_hash) {
                proof {
                    assert(list.skip(j as int).push(uh)[0] == list[j as int]);
                    assert(!admits(history@, list.skip(j as int).push(uh)));
                    assert(!admits(h0, contributed(inputs[idx as int])));
                    assert(scan_inputs(inputs.skip(idx as int), vault, h0)
                        == Some(CircuitError::DoubleSpend));
                }
                return Err(CircuitError::DoubleSpend);
            }
            history.push(*past_hash);
            proof {
                let pre = h0 + list.take(j as int);
                assert(pre.push(list[j as int]) =~= h0 + list.take(j + 1));
                // the merged element was fresh, so no duplicates arise
                assert(forall|k: int| 0 <= k < pre.len() ==> pre[k]@ != list[j as int]@);
                assert(nodup_hashes(pre.push(list[j as int])));
                // one unfolding of `admits` along the remaining suffix
                let rest = list.skip(j as int).push(uh);
                assert(rest[0] == list[j as int]);
                assert(rest.drop_first() =~= list.skip(j + 1).push(uh));
                assert(pre.push(list[j as int]) == history@);
                assert(admits(pre, rest) == admits(history@, list.skip(j + 1).push(uh)));
            }
            j = j + 1;
        }
        proof {
            assert(list.take(m as int) =~= list);
            assert(list.skip(m as int).push(uh) =~= seq![uh]);
        }
        if contains_hash(&history, &utxo.header.utxo_hash) {
            proof {
                assert(seq![uh][0] == uh);
                assert(!admits(history@, seq![uh]));
                assert(!admits(h0, contributed(inputs[idx as int])));
                assert(scan_inputs(inputs.skip(idx as int), vault, h0)
                    == Some(CircuitError::DoubleSpend));
            }
            return Err(CircuitError::DoubleSpend);
        }
        history.push(utxo.header.utxo_hash);
        proof {
            let pre = h0 + list;
            assert(pre.push(uh) =~= h0 + contributed(inputs[idx as int]));
            assert(forall|k: int| 0 <= k < pre.len() ==> pre[k]@ != uh@);
            assert(nodup_hashes(pre.push(uh)));
            // `admits` holds for the whole contributed list
            assert(seq![uh][0] == uh);
            assert(seq![uh].drop_first() =~= Seq::<HASH>::empty());
            assert(admits(history@, Seq::<HASH>::empty()));
            assert(admits(h0, contributed(inputs[idx as int])));
            // advance the scan by one input
            assert(inputs.skip(idx as int).drop_first() =~= inputs.skip(idx + 1));
            assert(scan_inputs(inputs.skip(idx as int), vault, h0)
                == scan_inputs(inputs.skip(idx + 1), vault, h0 + contributed(inputs[idx as int])));
            lemma_spend_history_snoc(inputs, idx as int);
            // the running total stays within u64 range
            lemma_amount_sum_snoc(inputs, idx as int);
            lemma_amount_sum_prefix(inputs, idx + 1);
            lemma_amount_sum_nonneg(inputs.take(idx as int));
        }
        total = total + utxo.payload.amount;
        idx = idx + 1;
    }
    proof {
        assert(inputs.take(n as int) =~= inputs);
        assert(inputs.skip(n as int) =~= Seq::<DecryptedInput>::empty());
        assert(scan_inputs(inputs, vault, Seq::empty()) is None);
    }
    if total < input.amount_to_send {
        return Err(CircuitError::InsufficientFunds);
    }
    let return_amount = total - input.amount_to_send;

    let receiver_vault = sha256(input.receiver_pubkey.as_slice());
    let receiver_payload = UTXOEncryptedPayload {
        amount: input.amount_to_send,
        is_return: false,
        receiver_vault,
        randomness: input.receiver_randomness,
        utxo_spent_list: copy_hashes(&history),
        version: 1,
    };
    let receiver_header = create_header(&receiver_payload, input.current_ledger_tip, 1);

    let return_payload = UTXOEncryptedPayload {
        amount: return_amount,
        is_return: true,
        receiver_vault: my_vault_hash,
        randomness: input.return_randomness,
        utxo_spent_list: history,
        version: 1,
    };
    let return_header = create_header(&return_payload, receiver_header.utxo_hash, 1);

    Ok(SpendOutputs {
        commitments: QspvGuestOutput {
            receiver_commitment: receiver_header,
            return_commitment: return_header,
        },
        receiver_payload,
        return_payload,
    })
}

/// Every prefix of a duplicate-free sequence is duplicate-free.
pub proof fn lemma_nodup_prefix(a: Seq<HASH>, b: Seq<HASH>)
    requires
        nodup_hashes(a + b),
    ensures
        nodup_hashes(a),
{
    assert forall|i: int, j: int| 0 <= i < j < a.len() implies a[i]@ != a[j]@ by {
        assert((a + b)[i] == a[i]);
        assert((a + b)[j] == a[j]);
    }
}

/// Merging a list into a duplicate-free history succeeds exactly when the
/// combined sequence stays duplicate-free.
pub proof fn lemma_admits_nodup(hist: Seq<HASH>, l: Seq<HASH>)
    requires
        nodup_hashes(hist),
    ensures
        admits(hist, l) == nodup_hashes(hist + l),
    decreases l.len(),
{
    if l.len() == 0 {
        assert(hist + l =~= hist);
    } else {
        let x = l[0];
        if hash_in(hist, x) {
            assert(!admits(hist, l));
            let i = choose|i: int| 0 <= i < hist.len() && hist[i]@ == x@;
            assert((hist + l)[i]@ == (hist + l)[hist.len() as int]@);
            assert(!nodup_hashes(hist + l));
        } else {
            assert forall|i: int, j: int| 0 <= i < j < hist.push(x).len()
                implies hist.push(x)[i]@ != hist.push(x)[j]@ by {
                if j == hist.len() {
                    assert(hist.push(x)[i] == hist[i]);
                    assert(!(hist[i]@ == x@));
                }
            }
            assert(nodup_hashes(hist.push(x)));
            lemma_admits_nodup(hist.push(x), l.drop_first());
            assert(hist.push(x) + l.drop_first() =~= hist + l);
        }
    }
}

/// When every input passes integrity and ownership, the scan's outcome is
/// decided purely by double-spend freedom of the combined history.
pub proof fn lemma_scan_nodup(inputs: Seq<DecryptedInput>, vault: Seq<u8>, hist: Seq<HASH>)
    requires
        nodup_hashes(hist),
        forall|k: int| 0 <= k < inputs.len()
            ==> input_integrity_ok(#[trigger] inputs[k]) && input_ownership_ok(inputs[k], vault),
    ensures
        scan_inputs(inputs, vault, hist) == if nodup_hashes(hist + spend_history(inputs)) {
            None::<CircuitError>
        } else {
            Some(CircuitError::DoubleSpend)
        },
    decreases inputs.len(),
{
    if inputs.len() == 0 {
        assert(hist + spend_history(inputs) =~= hist);
    } else {
        let inp = inputs[0];
        assert(input_integrity_ok(inp) && input_ownership_ok(inp, vault));
        lemma_admits_nodup(hist, contributed(inp));
        assert(spend_history(inputs) == contributed(inp) + spend_history(inputs.drop_first()));
        assert((hist + contributed(inp)) + spend_history(inputs.drop_first())
            =~= hist + spend_history(inputs));
        if admits(hist, contributed(inp)) {
            assert(forall|k: int| 0 <= k < inputs.drop_first().len()
                ==> #[trigger] inputs.drop_first()[k] == inputs[k + 1]);
            lemma_scan_nodup(inputs.drop_first(), vault, hist + contributed(inp));
        } else {
            assert(scan_inputs(inputs, vault, hist) == Some(CircuitError::DoubleSpend));
            if nodup_hashes(hist + spend_history(inputs)) {
                lemma_nodup_prefix(hist + contributed(inp), spend_history(inputs.drop_first()));
            }
        }
    }
}

/// A scan that accepts binds every input: each payload hashes to its
/// header's commitment and names the sender's vault, and the combined
/// history carries no duplicate.
pub proof fn lemma_scan_accepts(inputs: Seq<DecryptedInput>, vault: Seq<u8>, hist: Seq<HASH>)
    requires
        nodup_hashes(hist),
        scan_inputs(inputs, vault, hist) is None,
    ensures
        forall|k: int| 0 <= k < inputs.len()
            ==> input_integrity_ok(#[trigger] inputs[k]) && input_ownership_ok(inputs[k], vault),
        nodup_hashes(hist + spend_history(inputs)),
    decreases inputs.len(),
{
    if inputs.len() == 0 {
        assert(hist + spend_history(inputs) =~= hist);
    } else {
        let inp = inputs[0];
        lemma_admits_nodup(hist, contributed(inp));
        lemma_scan_accepts(inputs.drop_first(), vault, hist + contributed(inp));
        assert(forall|k: int| 0 <= k < inputs.drop_first().len()
            ==> #[trigger] inputs.drop_first()[k] == inputs[k + 1]);
        assert forall|k: int| 0 <= k < inputs.len()
            implies input_integrity_ok(#[trigger] inputs[k]) && input_ownership_ok(inputs[k], vault) by {
            if k > 0 {
                assert(inputs.drop_first()[k - 1] == inputs[k]);
            }
        }
        assert((hist + contributed(inp)) + spend_history(inputs.drop_first())
            =~= hist + spend_history(inputs));
    }
}

/// Where each input's contribution lands inside the full history.
pub proof fn lemma_history_position(inputs: Seq<DecryptedInput>, k: int, t: int)
    requires
        0 <= k < inputs.len(),
        0 <= t < contributed(inputs[k]).len(),
    ensures
        ({
            let off = spend_history(inputs.take(k)).len();
            &&& off + t < spend_history(inputs).len()
            &&& spend_history(inputs)[off + t] == contributed(inputs[k])[t]
        }),
{
    assert(inputs =~= inputs.take(k) + inputs.skip(k));
    lemma_spend_history_concat(inputs.take(k), inputs.skip(k));
    assert(inputs.skip(k)[0] == inputs[k]);
    assert(inputs.skip(k).drop_first() =~= inputs.skip(k + 1));
    assert(spend_history(inputs.skip(k))
        == contributed(inputs[k]) + spend_history(inputs.skip(k + 1)));
    let off = spend_history(inputs.take(k)).len();
    assert(spend_history(inputs)[off + t]
        == spend_history(inputs.skip(k))[t]);
    assert(spend_history(inputs.skip(k))[t] == contributed(inputs[k])[t]);
}

/// Contributions of later inputs land strictly after earlier ones.
pub proof fn lemma_history_offset_mono(inputs: Seq<DecryptedInput>, i: int, j: int)
    requires
        0 <= i < j < inputs.len(),
    ensures
        spend_history(inputs.take(i)).len() + contributed(inputs[i]).len()
            <= spend_history(inputs.take(j)).len(),
{
    assert(inputs.take(j) =~= inputs.take(i + 1) + inputs.subrange(i + 1, j));
    lemma_spend_history_concat(inputs.take(i + 1), inputs.subrange(i + 1, j));
    lemma_spend_history_snoc(inputs, i);
}

/// Double-spend law: if two distinct inputs carry the same ancestor hash in
/// their spent lists, and no earlier check preempts the scan, the circuit
/// rejects with `DoubleSpend` -- whatever order the inputs stand in.
pub proof fn lemma_shared_ancestor_rejected(
    inputs: Seq<DecryptedInput>,
    vault: Seq<u8>,
    i: int,
    j: int,
    p: int,
    q: int,
)
    requires
        0 <= i < j < inputs.len(),
        0 <= p < inputs[i].payload.utxo_spent_list@.len(),
        0 <= q < inputs[j].payload.utxo_spent_list@.len(),
        inputs[i].payload.utxo_spent_list@[p]@ == inputs[j].payload.utxo_spent_list@[q]@,
        forall|k: int| 0 <= k < inputs.len()
            ==> input_integrity_ok(#[trigger] inputs[k]) && input_ownership_ok(inputs[k], vault),
    ensures
        scan_inputs(inputs, vault, Seq::empty()) == Some(CircuitError::DoubleSpend),
{
    let pos_i = spend_history(inputs.take(i)).len() + p;
    let pos_j = spend_history(inputs.take(j)).len() + q;
    lemma_history_position(inputs, i, p);
    lemma_history_position(inputs, j, q);
    lemma_history_offset_mono(inputs, i, j);
    assert(contributed(inputs[i])[p] == inputs[i].payload.utxo_spent_list@[p]);
    assert(contributed(inputs[j])[q] == inputs[j].payload.utxo_spent_list@[q]);
    assert(pos_i < pos_j);
    assert(spend_history(inputs)[pos_i]@ == spend_history(inputs)[pos_j]@);
    assert(!nodup_hashes(spend_history(inputs)));
    lemma_scan_nodup(inputs, vault, Seq::empty());
    assert(Seq::empty() + spend_history(inputs) =~= spend_history(inputs));
}

} // verus!
