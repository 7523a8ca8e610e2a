//! The attestation node's decision rules.
//!
//! The node itself lives at the edge: it subscribes to ledger events,
//! fetches proof accounts and sends transactions.  What it decides at each
//! step -- whether a proof upload is complete, whether to keep polling, and
//! whether a failed submission is the known visibility race worth retrying
//! -- is pure, and stands here with exact contracts.
use vstd::prelude::*;
use crate::events::QcashEvent;
use crate::storage::{ZkProof, spec_bytes_written, spec_total_len};

verus! {

/// The circuit identity every fetched proof is verified against.
pub const IMAGE_ID: [u8; 32] = [
    127, 44, 174, 85, 213, 14, 167, 223, 46, 79, 95, 39, 209, 68, 82, 95,
    37, 120, 61, 89, 212, 94, 103, 53, 174, 150, 40, 72, 59, 19, 163, 255,
];

/// How many times the node polls an incomplete proof upload.
pub const MAX_PROOF_FETCH_RETRIES: u32 = 30;

/// How many times the node resubmits an attestation that raced admission.
pub const MAX_SUBMIT_RETRIES: u32 = 10;

/// Milliseconds between retries.
pub const RETRY_DELAY_MS: u64 = 500;

/// What to do with a freshly fetched proof account.
#[derive(Clone, Copy, Debug, PartialEq, Eq)]
pub enum ProofPoll {
    /// The account cannot even hold the header: a hard error.
    TooSmall,
    /// `bytes_written` has reached `total_len`: the proof is complete.
    Ready,
    /// Upload still in progress; wait and fetch again.
    WaitAndRetry,
    /// Upload still in progress and the retry budget is spent: give up.
    Exhausted,
}

/// Decides the poll step for a fetched proof account, after `retries_used`
/// earlier polls against a budget of `max_retries`.
pub fn poll_proof_status(data: &Vec<u8>, retries_used: u32, max_retries: u32) -> (r: ProofPoll)
    ensures
        data@.len() < 16 ==> r == ProofPoll::TooSmall,
        data@.len() >= 16 ==> ({
            if spec_bytes_written(data@) >= spec_total_len(data@) {
                r == ProofPoll::Ready
            } else if retries_used >= max_retries {
                r == ProofPoll::Exhausted
            } else {
                r == ProofPoll::WaitAndRetry
            }
        }),
{
    if data.len() < 16 {
        return ProofPoll::TooSmall;
    }
    let total_len = ZkProof::read_total_len(data);
    let bytes_written = ZkProof::read_bytes_written(data);
    if bytes_written >= total_len {
        ProofPoll::Ready
    } else if retries_used >= max_retries {
        ProofPoll::Exhausted
    } else {
        ProofPoll::WaitAndRetry
    }
}

/// The serialized proof blob: everything after the 16-byte header.
pub fn proof_body(data: &Vec<u8>) -> (r: Vec<u8>)
    requires
        data@.len() >= 16,
    ensures
        r@ == data@.skip(16),
{
    let dlen = data.len();
    let s = vstd::slice::slice_subrange(data.as_slice(), 16, dlen);
    let r = vstd::slice::slice_to_vec(s);
    assert(data@.subrange(16, dlen as int) =~= data@.skip(16));
    r
}

/// What to do after one attestation submission attempt.
#[derive(Clone, Copy, Debug, PartialEq, Eq)]
pub enum SubmitStep {
    /// The submission went through.
    Done,
    /// The UTXO account is not visible yet; wait and submit again.
    WaitAndRetry,
    /// A real failure, or the retry budget is spent: surface the error.
    Fail,
}

/// Decides the next step after a submission attempt.  Only the known
/// eventual-consistency race -- the UTXO account not yet visible -- is
/// retried, and only while attempts remain.
pub fn submit_attestation_step(
    succeeded: bool,
    account_not_visible: bool,
    attempt: u32,
    max_retries: u32,
) -> (r: SubmitStep)
    ensures
        succeeded ==> r == SubmitStep::Done,
        !succeeded && account_not_visible && attempt < max_retries ==> r == SubmitStep::WaitAndRetry,
        !succeeded && !(account_not_visible && attempt < max_retries) ==> r == SubmitStep::Fail,
{
    if succeeded {
        SubmitStep::Done
    } else if account_not_visible && attempt < max_retries {
        SubmitStep::WaitAndRetry
    } else {
        SubmitStep::Fail
    }
}

/// What a base64 string of bytes decodes to, if it is well-formed; the
/// result is a function of the input bytes alone.
pub uninterp spec fn base64_decoded(s: Seq<u8>) -> Option<Seq<u8>>;

/// Relies on base64's standard-alphabet engine: decodes or rejects the
/// input on its content alone.
#[verifier::external_body]
fn base64_decode(input: &[u8]) -> (r: Option<Vec<u8>>)
    ensures
        r is Some <==> base64_decoded(input@) is Some,
        r matches Some(v) ==> base64_decoded(input@) == Some(v@),
{
    match base64::Engine::decode(&base64::engine::general_purpose::STANDARD, input) {
        Ok(v) => Some(v),
        Err(_) => None,
    }
}

/// The marker that opens a log line carrying an event record.
pub open spec fn program_data_prefix() -> Seq<u8> {
    seq![80u8, 114u8, 111u8, 103u8, 114u8, 97u8, 109u8, 32u8,
        100u8, 97u8, 116u8, 97u8, 58u8, 32u8]
}

/// Pulls the event bytes out of one log line: a value comes back exactly
/// when the line opens with `Program data: ` and the rest decodes as
/// base64.  Every other line is someone else's log output and is dropped.
pub fn extract_event_data(line: &[u8]) -> (r: Option<Vec<u8>>)
    ensures
        ({
            if line@.len() >= 14 && line@.take(14) == program_data_prefix() {
                match base64_decoded(line@.skip(14)) {
                    Some(bytes) => r matches Some(v) && v@ == bytes,
                    None => r is None,
                }
            } else {
                r is None
            }
        }),
{
    // the marker's bytes: `Program data: `
    let prefix: [u8; 14] = [80u8, 114u8, 111u8, 103u8, 114u8, 97u8, 109u8, 32u8,
        100u8, 97u8, 116u8, 97u8, 58u8, 32u8];
    proof {
        assert(prefix@ =~= program_data_prefix());
    }
    let n = line.len();
    if n < 14 {
        return None;
    }
    let mut i: usize = 0;
    while i < 14
        invariant
            n == line@.len(),
            n >= 14,
            0 <= i <= 14,
            prefix@ == program_data_prefix(),
            forall|k: int| 0 <= k < i ==> line@[k] == prefix@[k],
        decreases 14 - i,
    {
        if line[i] != prefix[i] {
            assert(line@.take(14)[i as int] != program_data_prefix()[i as int]);
            return None;
        }
        i = i + 1;
    }
    assert(line@.take(14) =~= prefix@);
    let rest = vstd::slice::slice_subrange(line, 14, n);
    assert(rest@ =~= line@.skip(14));
    base64_decode(rest)
}

/// What the node does with one parsed event.
#[derive(Clone, Copy, Debug, PartialEq, Eq)]
pub enum EventAction {
    /// Fetch the referenced proof, verify it, and attest the UTXO.
    AttestUtxo {
        zk_proof: [u8; 32],
        utxo: [u8; 32],
        utxo_hash: [u8; 32],
    },
    /// Nothing to do beyond observing the event.
    Observe,
}

/// Dispatches one event: only a newly created UTXO calls for work -- its
/// proof account is fetched and the UTXO attested; every other event is
/// observed and dropped.
pub fn event_action(event: &QcashEvent) -> (r: EventAction)
    ensures
        match *event {
            QcashEvent::UtxoCreated(e) => r == (EventAction::AttestUtxo {
                zk_proof: e.zk_proof,
                utxo: e.utxo,
                utxo_hash: e.utxo_hash,
            }),
            _ => r == EventAction::Observe,
        },
{
    match event {
        QcashEvent::UtxoCreated(e) => EventAction::AttestUtxo {
            zk_proof: e.zk_proof,
            utxo: e.utxo,
            utxo_hash: e.utxo_hash,
        },
        _ => EventAction::Observe,
    }
}

} // verus!
