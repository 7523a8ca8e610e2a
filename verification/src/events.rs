//! The ledger's event log records, and their wire format.
//!
//! Each record opens with an 8-byte type tag -- the leading bytes of the
//! digest of `event:` followed by the record's type name -- then its fields
//! in order:
//! integers little-endian, addresses and hashes as raw 32-byte strings,
//! booleans and optional values behind one tag byte that must be 0 or 1.
//! Trailing bytes after a record are ignored, as the emitting runtime pads
//! nothing and readers take records from a longer log.
use vstd::prelude::*;
use vstd::bytes::{
    spec_u16_from_le_bytes, spec_u32_from_le_bytes, spec_u64_from_le_bytes,
    u16_from_le_bytes, u32_from_le_bytes, u64_from_le_bytes,
};
use vstd::slice::slice_subrange;

verus! {

/// The little-endian two's-complement reading of 8 bytes.
pub open spec fn spec_i64_from_le_bytes(s: Seq<u8>) -> i64 {
    let u = spec_u64_from_le_bytes(s);
    if u <= i64::MAX as u64 {
        u as i64
    } else {
        (u - 0x1_0000_0000_0000_0000) as i64
    }
}

fn read_u16_at(data: &[u8], offset: usize) -> (r: u16)
    requires
        offset + 2 <= data@.len(),
    ensures
        r == spec_u16_from_le_bytes(data@.subrange(offset as int, offset + 2)),
{
    let dlen = data.len();
    assert(offset + 2 <= dlen);
    let s = slice_subrange(data, offset, offset + 2);
    u16_from_le_bytes(s)
}

fn read_u32_at(data: &[u8], offset: usize) -> (r: u32)
    requires
        offset + 4 <= data@.len(),
    ensures
        r == spec_u32_from_le_bytes(data@.subrange(offset as int, offset + 4)),
{
    let dlen = data.len();
    assert(offset + 4 <= dlen);
    let s = slice_subrange(data, offset, offset + 4);
    u32_from_le_bytes(s)
}

fn read_u64_at(data: &[u8], offset: usize) -> (r: u64)
    requires
        offset + 8 <= data@.len(),
    ensures
        r == spec_u64_from_le_bytes(data@.subrange(offset as int, offset + 8)),
{
    let dlen = data.len();
    assert(offset + 8 <= dlen);
    let s = slice_subrange(data, offset, offset + 8);
    u64_from_le_bytes(s)
}

fn read_i64_at(data: &[u8], offset: usize) -> (r: i64)
    requires
        offset + 8 <= data@.len(),
    ensures
        r == spec_i64_from_le_bytes(data@.subrange(offset as int, offset + 8)),
{
    let u = read_u64_at(data, offset);
    if u <= i64::MAX as u64 {
        u as i64
    } else {
        let distance = u64::MAX - u;
        let r = -(distance as i64) - 1;
        assert(r == u - 0x1_0000_0000_0000_0000);
        r
    }
}

fn read_bytes32_at(data: &[u8], offset: usize) -> (r: [u8; 32])
    requires
        offset + 32 <= data@.len(),
    ensures
        r@ == data@.subrange(offset as int, offset + 32),
{
    let dlen = data.len();
    assert(offset + 32 <= dlen);
    let mut r = [0u8; 32];
    let mut i: usize = 0;
    while i < 32
        invariant
            offset + 32 <= dlen,
            dlen == data@.len(),
            0 <= i <= 32,
            r@.len() == 32,
            forall|k: int| 0 <= k < i ==> r@[k] == data@[offset + k],
        decreases 32 - i,
    {
        r[i] = data[offset + i];
        i = i + 1;
    }
    assert(r@ =~= data@.subrange(offset as int, offset + 32));
    r
}

/// Emitted when the program's config and registry are set up.
#[derive(Clone, Copy, Debug, PartialEq, Eq)]
pub struct ProgramInitialized {
    pub admin: [u8; 32],
    pub min_attestations: u16,
    pub config_bump: u8,
    pub registry_bump: u8,
    pub timestamp: i64,
}

/// Emitted when a vault receives the first slice of its key.
#[derive(Clone, Copy, Debug, PartialEq, Eq)]
pub struct VaultInitialized {
    pub owner: [u8; 32],
    pub vault: [u8; 32],
    pub version: u8,
    pub chunk1_length: u32,
    pub timestamp: i64,
}

/// Emitted when a vault's key is complete and hash-bound.
#[derive(Clone, Copy, Debug, PartialEq, Eq)]
pub struct VaultCompleted {
    pub vault: [u8; 32],
    pub total_length: u32,
    pub key_hash: [u8; 32],
    pub timestamp: i64,
}

/// Emitted when the ledger is created at genesis.
#[derive(Clone, Copy, Debug, PartialEq, Eq)]
pub struct LedgerInitialized {
    pub count: u64,
    pub genesis_hash: [u8; 32],
    pub bump: u8,
    pub timestamp: i64,
}

/// Emitted when a ciphertext loader account is created.
#[derive(Clone, Copy, Debug, PartialEq, Eq)]
pub struct LoaderInitialized {
    pub loader: [u8; 32],
    pub size: u32,
    pub timestamp: i64,
}

/// Emitted for each chunk written into a loader.
#[derive(Clone, Copy, Debug, PartialEq, Eq)]
pub struct LoaderChunkWritten {
    pub loader: [u8; 32],
    pub chunk_size: u32,
    pub offset: u32,
    pub end: u32,
    pub timestamp: i64,
}

/// Emitted when a proof account's header is initialized.
#[derive(Clone, Copy, Debug, PartialEq, Eq)]
pub struct ZkProofInitialized {
    pub zk_proof: [u8; 32],
    pub total_bytes: u32,
    pub timestamp: i64,
}

/// Emitted for each chunk written into a proof account.
#[derive(Clone, Copy, Debug, PartialEq, Eq)]
pub struct ZkProofChunkWritten {
    pub zk_proof: [u8; 32],
    pub chunk_size: u32,
    pub offset: u32,
    pub new_bytes_written: u32,
    pub total_length: u32,
    pub timestamp: i64,
}

/// Emitted when a pending UTXO is admitted.
#[derive(Clone, Copy, Debug, PartialEq, Eq)]
pub struct UtxoCreated {
    pub utxo: [u8; 32],
    pub utxo_hash: [u8; 32],
    pub prev_utxo_hash: [u8; 32],
    pub epoch: u32,
    pub payload_size: u32,
    pub zk_proof: [u8; 32],
    pub ciphertext_commitment: [u8; 32],
    pub bump: u8,
    pub timestamp: i64,
}

/// Emitted when a minted UTXO is admitted and finalized at once.
#[derive(Clone, Copy, Debug, PartialEq, Eq)]
pub struct AirdropCompleted {
    pub utxo: [u8; 32],
    pub utxo_hash: [u8; 32],
    pub prev_utxo_hash: [u8; 32],
    pub epoch: u32,
    pub payload_size: u32,
    pub ciphertext_commitment: [u8; 32],
    pub bump: u8,
    pub new_ledger_count: u64,
    pub timestamp: i64,
}

/// Emitted when a prover is registered.
#[derive(Clone, Copy, Debug, PartialEq, Eq)]
pub struct ProverRegistered {
    pub admin: [u8; 32],
    pub unique_id: u64,
    pub prover_pubkey: [u8; 32],
    pub prover_pubkey_hash: [u8; 32],
    pub total_provers: u32,
    pub timestamp: i64,
}

/// Emitted when a prover is deactivated.
#[derive(Clone, Copy, Debug, PartialEq, Eq)]
pub struct ProverDeactivated {
    pub admin: [u8; 32],
    pub prover_pubkey: [u8; 32],
    pub prover_pubkey_hash: [u8; 32],
    pub timestamp: i64,
}

/// Emitted for each attestation vote.
#[derive(Clone, Copy, Debug, PartialEq, Eq)]
pub struct AttestationSubmitted {
    pub utxo: [u8; 32],
    pub utxo_hash: [u8; 32],
    pub prover_old: [u8; 32],
    pub prover_old_hash: [u8; 32],
    pub prover_new: [u8; 32],
    pub prover_unique_id: u64,
    pub vote: bool,
    pub next_key_hash: [u8; 32],
    pub lamports_transferred: u64,
    pub valid_votes: u16,
    pub invalid_votes: u16,
    pub total_votes: u16,
    pub threshold_met: bool,
    pub new_ledger_tip: Option<[u8; 32]>,
    pub new_ledger_count: Option<u64>,
    pub timestamp: i64,
}

/// Any event record the ledger emits, parsed from its leading type tag.
#[derive(Clone, Copy, Debug, PartialEq, Eq)]
pub enum QcashEvent {
    AttestationSubmitted(AttestationSubmitted),
    LedgerInitialized(LedgerInitialized),
    LoaderChunkWritten(LoaderChunkWritten),
    LoaderInitialized(LoaderInitialized),
    ProgramInitialized(ProgramInitialized),
    ProverDeactivated(ProverDeactivated),
    ProverRegistered(ProverRegistered),
    UtxoCreated(UtxoCreated),
    VaultCompleted(VaultCompleted),
    VaultInitialized(VaultInitialized),
    ZkProofChunkWritten(ZkProofChunkWritten),
    ZkProofInitialized(ZkProofInitialized),
}

/// The type tag that opens a `LedgerInitialized` record.
pub open spec fn ledger_initialized_tag() -> Seq<u8> {
    seq![56u8, 38u8, 185u8, 200u8, 94u8, 92u8, 181u8, 202u8]
}

/// Whether the bytes hold a complete `LedgerInitialized` body.
pub open spec fn ledger_initialized_parses(b: Seq<u8>) -> bool {
    b.len() >= 49
}

/// How a `LedgerInitialized` value lies in its body bytes.
pub open spec fn ledger_initialized_wire(b: Seq<u8>, e: LedgerInitialized) -> bool {
    &&& b.len() >= 49
    &&& e.count == spec_u64_from_le_bytes(b.subrange(0, 8))
    &&& e.genesis_hash@ == b.subrange(8, 40)
    &&& e.bump == b[40]
    &&& e.timestamp == spec_i64_from_le_bytes(b.subrange(41, 49))
}

fn ledger_initialized_tag_bytes() -> (r: [u8; 8])
    ensures
        r@ == ledger_initialized_tag(),
{
    let r = [56u8, 38u8, 185u8, 200u8, 94u8, 92u8, 181u8, 202u8];
    assert(r@ =~= ledger_initialized_tag());
    r
}

fn parse_ledger_initialized(b: &[u8]) -> (r: Option<LedgerInitialized>)
    ensures
        r is Some <==> ledger_initialized_parses(b@),
        r matches Some(e) ==> ledger_initialized_wire(b@, e),
{
    if b.len() < 49 {
        return None;
    }
    let count = read_u64_at(b, 0);
    let genesis_hash = read_bytes32_at(b, 8);
    let bump = b[40];
    let timestamp = read_i64_at(b, 41);
    Some(LedgerInitialized { count, genesis_hash, bump, timestamp })
}

/// The type tag that opens a `LoaderChunkWritten` record.
pub open spec fn loader_chunk_written_tag() -> Seq<u8> {
    seq![100u8, 107u8, 219u8, 86u8, 6u8, 9u8, 103u8, 244u8]
}

/// Whether the bytes hold a complete `LoaderChunkWritten` body.
pub open spec fn loader_chunk_written_parses(b: Seq<u8>) -> bool {
    b.len() >= 52
}

/// How a `LoaderChunkWritten` value lies in its body bytes.
pub open spec fn loader_chunk_written_wire(b: Seq<u8>, e: LoaderChunkWritten) -> bool {
    &&& b.len() >= 52
    &&& e.loader@ == b.subrange(0, 32)
    &&& e.chunk_size == spec_u32_from_le_bytes(b.subrange(32, 36))
    &&& e.offset == spec_u32_from_le_bytes(b.subrange(36, 40))
    &&& e.end == spec_u32_from_le_bytes(b.subrange(40, 44))
    &&& e.timestamp == spec_i64_from_le_bytes(b.subrange(44, 52))
}

fn loader_chunk_written_tag_bytes() -> (r: [u8; 8])
    ensures
        r@ == loader_chunk_written_tag(),
{
    let r = [100u8, 107u8, 219u8, 86u8, 6u8, 9u8, 103u8, 244u8];
    assert(r@ =~= loader_chunk_written_tag());
    r
}

fn parse_loader_chunk_written(b: &[u8]) -> (r: Option<LoaderChunkWritten>)
    ensures
        r is Some <==> loader_chunk_written_parses(b@),
        r matches Some(e) ==> loader_chunk_written_wire(b@, e),
{
    if b.len() < 52 {
        return None;
    }
    let loader = read_bytes32_at(b, 0);
    let chunk_size = read_u32_at(b, 32);
    let offset = read_u32_at(b, 36);
    let end = read_u32_at(b, 40);
    let timestamp = read_i64_at(b, 44);
    Some(LoaderChunkWritten { loader, chunk_size, offset, end, timestamp })
}

/// The type tag that opens a `LoaderInitialized` record.
pub open spec fn loader_initialized_tag() -> Seq<u8> {
    seq![232u8, 178u8, 234u8, 13u8, 122u8, 253u8, 41u8, 114u8]
}

/// Whether the bytes hold a complete `LoaderInitialized` body.
pub open spec fn loader_initialized_parses(b: Seq<u8>) -> bool {
    b.len() >= 44
}

/// How a `LoaderInitialized` value lies in its body bytes.
pub open spec fn loader_initialized_wire(b: Seq<u8>, e: LoaderInitialized) -> bool {
    &&& b.len() >= 44
    &&& e.loader@ == b.subrange(0, 32)
    &&& e.size == spec_u32_from_le_bytes(b.subrange(32, 36))
    &&& e.timestamp == spec_i64_from_le_bytes(b.subrange(36, 44))
}

fn loader_initialized_tag_bytes() -> (r: [u8; 8])
    ensures
        r@ == loader_initialized_tag(),
{
    let r = [232u8, 178u8, 234u8, 13u8, 122u8, 253u8, 41u8, 114u8];
    assert(r@ =~= loader_initialized_tag());
    r
}

fn parse_loader_initialized(b: &[u8]) -> (r: Option<LoaderInitialized>)
    ensures
        r is Some <==> loader_initialized_parses(b@),
        r matches Some(e) ==> loader_initialized_wire(b@, e),
{
    if b.len() < 44 {
        return None;
    }
    let loader = read_bytes32_at(b, 0);
    let size = read_u32_at(b, 32);
    let timestamp = read_i64_at(b, 36);
    Some(LoaderInitialized { loader, size, timestamp })
}

/// The type tag that opens a `ProgramInitialized` record.
pub open spec fn program_initialized_tag() -> Seq<u8> {
    seq![43u8, 70u8, 110u8, 241u8, 199u8, 218u8, 221u8, 245u8]
}

/// Whether the bytes hold a complete `ProgramInitialized` body.
pub open spec fn program_initialized_parses(b: Seq<u8>) -> bool {
    b.len() >= 44
}

/// How a `ProgramInitialized` value lies in its body bytes.
pub open spec fn program_initialized_wire(b: Seq<u8>, e: ProgramInitialized) -> bool {
    &&& b.len() >= 44
    &&& e.admin@ == b.subrange(0, 32)
    &&& e.min_attestations == spec_u16_from_le_bytes(b.subrange(32, 34))
    &&& e.config_bump == b[34]
    &&& e.registry_bump == b[35]
    &&& e.timestamp == spec_i64_from_le_bytes(b.subrange(36, 44))
}

fn program_initialized_tag_bytes() -> (r: [u8; 8])
    ensures
        r@ == program_initialized_tag(),
{
    let r = [43u8, 70u8, 110u8, 241u8, 199u8, 218u8, 221u8, 245u8];
    assert(r@ =~= program_initialized_tag());
    r
}

fn parse_program_initialized(b: &[u8]) -> (r: Option<ProgramInitialized>)
    ensures
        r is Some <==> program_initialized_parses(b@),
        r matches Some(e) ==> program_initialized_wire(b@, e),
{
    if b.len() < 44 {
        return None;
    }
    let admin = read_bytes32_at(b, 0);
    let min_attestations = read_u16_at(b, 32);
    let config_bump = b[34];
    let registry_bump = b[35];
    let timestamp = read_i64_at(b, 36);
    Some(ProgramInitialized { admin, min_attestations, config_bump, registry_bump, timestamp })
}

/// The type tag that opens a `ProverDeactivated` record.
pub open spec fn prover_deactivated_tag() -> Seq<u8> {
    seq![124u8, 129u8, 96u8, 166u8, 67u8, 234u8, 34u8, 181u8]
}

/// Whether the bytes hold a complete `ProverDeactivated` body.
pub open spec fn prover_deactivated_parses(b: Seq<u8>) -> bool {
    b.len() >= 104
}

/// How a `ProverDeactivated` value lies in its body bytes.
pub open spec fn prover_deactivated_wire(b: Seq<u8>, e: ProverDeactivated) -> bool {
    &&& b.len() >= 104
    &&& e.admin@ == b.subrange(0, 32)
    &&& e.prover_pubkey@ == b.subrange(32, 64)
    &&& e.prover_pubkey_hash@ == b.subrange(64, 96)
    &&& e.timestamp == spec_i64_from_le_bytes(b.subrange(96, 104))
}

fn prover_deactivated_tag_bytes() -> (r: [u8; 8])
    ensures
        r@ == prover_deactivated_tag(),
{
    let r = [124u8, 129u8, 96u8, 166u8, 67u8, 234u8, 34u8, 181u8];
    assert(r@ =~= prover_deactivated_tag());
    r
}

fn parse_prover_deactivated(b: &[u8]) -> (r: Option<ProverDeactivated>)
    ensures
        r is Some <==> prover_deactivated_parses(b@),
        r matches Some(e) ==> prover_deactivated_wire(b@, e),
{
    if b.len() < 104 {
        return None;
    }
    let admin = read_bytes32_at(b, 0);
    let prover_pubkey = read_bytes32_at(b, 32);
    let prover_pubkey_hash = read_bytes32_at(b, 64);
    let timestamp = read_i64_at(b, 96);
    Some(ProverDeactivated { admin, prover_pubkey, prover_pubkey_hash, timestamp })
}

/// The type tag that opens a `ProverRegistered` record.
pub open spec fn prover_registered_tag() -> Seq<u8> {
    seq![243u8, 150u8, 169u8, 237u8, 21u8, 205u8, 121u8, 191u8]
}

/// Whether the bytes hold a complete `ProverRegistered` body.
pub open spec fn prover_registered_parses(b: Seq<u8>) -> bool {
    b.len() >= 116
}

/// How a `ProverRegistered` value lies in its body bytes.
pub open spec fn prover_registered_wire(b: Seq<u8>, e: ProverRegistered) -> bool {
    &&& b.len() >= 116
    &&& e.admin@ == b.subrange(0, 32)
    &&& e.unique_id == spec_u64_from_le_bytes(b.subrange(32, 40))
    &&& e.prover_pubkey@ == b.subrange(40, 72)
    &&& e.prover_pubkey_hash@ == b.subrange(72, 104)
    &&& e.total_provers == spec_u32_from_le_bytes(b.subrange(104, 108))
    &&& e.timestamp == spec_i64_from_le_bytes(b.subrange(108, 116))
}

fn prover_registered_tag_bytes() -> (r: [u8; 8])
    ensures
        r@ == prover_registered_tag(),
{
    let r = [243u8, 150u8, 169u8, 237u8, 21u8, 205u8, 121u8, 191u8];
    assert(r@ =~= prover_registered_tag());
    r
}

fn parse_prover_registered(b: &[u8]) -> (r: Option<ProverRegistered>)
    ensures
        r is Some <==> prover_registered_parses(b@),
        r matches Some(e) ==> prover_registered_wire(b@, e),
{
    if b.len() < 116 {
        return None;
    }
    let admin = read_bytes32_at(b, 0);
    let unique_id = read_u64_at(b, 32);
    let prover_pubkey = read_bytes32_at(b, 40);
    let prover_pubkey_hash = read_bytes32_at(b, 72);
    let total_provers = read_u32_at(b, 104);
    let timestamp = read_i64_at(b, 108);
    Some(ProverRegistered { admin, unique_id, prover_pubkey, prover_pubkey_hash, total_provers, timestamp })
}

/// The type tag that opens a `UtxoCreated` record.
pub open spec fn utxo_created_tag() -> Seq<u8> {
    seq![141u8, 33u8, 36u8, 147u8, 147u8, 155u8, 87u8, 98u8]
}

/// Whether the bytes hold a complete `UtxoCreated` body.
pub open spec fn utxo_created_parses(b: Seq<u8>) -> bool {
    b.len() >= 177
}

/// How a `UtxoCreated` value lies in its body bytes.
pub open spec fn utxo_created_wire(b: Seq<u8>, e: UtxoCreated) -> bool {
    &&& b.len() >= 177
    &&& e.utxo@ == b.subrange(0, 32)
    &&& e.utxo_hash@ == b.subrange(32, 64)
    &&& e.prev_utxo_hash@ == b.subrange(64, 96)
    &&& e.epoch == spec_u32_from_le_bytes(b.subrange(96, 100))
    &&& e.payload_size == spec_u32_from_le_bytes(b.subrange(100, 104))
    &&& e.zk_proof@ == b.subrange(104, 136)
    &&& e.ciphertext_commitment@ == b.subrange(136, 168)
    &&& e.bump == b[168]
    &&& e.timestamp == spec_i64_from_le_bytes(b.subrange(169, 177))
}

fn utxo_created_tag_bytes() -> (r: [u8; 8])
    ensures
        r@ == utxo_created_tag(),
{
    let r = [141u8, 33u8, 36u8, 147u8, 147u8, 155u8, 87u8, 98u8];
    assert(r@ =~= utxo_created_tag());
    r
}

fn parse_utxo_created(b: &[u8]) -> (r: Option<UtxoCreated>)
    ensures
        r is Some <==> utxo_created_parses(b@),
        r matches Some(e) ==> utxo_created_wire(b@, e),
{
    if b.len() < 177 {
        return None;
    }
    let utxo = read_bytes32_at(b, 0);
    let utxo_hash = read_bytes32_at(b, 32);
    let prev_utxo_hash = read_bytes32_at(b, 64);
    let epoch = read_u32_at(b, 96);
    let payload_size = read_u32_at(b, 100);
    let zk_proof = read_bytes32_at(b, 104);
    let ciphertext_commitment = read_bytes32_at(b, 136);
    let bump = b[168];
    let timestamp = read_i64_at(b, 169);
    Some(UtxoCreated { utxo, utxo_hash, prev_utxo_hash, epoch, payload_size, zk_proof, ciphertext_commitment, bump, timestamp })
}

/// The type tag that opens a `VaultCompleted` record.
pub open spec fn vault_completed_tag() -> Seq<u8> {
    seq![174u8, 72u8, 181u8, 184u8, 121u8, 48u8, 107u8, 227u8]
}

/// Whether the bytes hold a complete `VaultCompleted` body.
pub open spec fn vault_completed_parses(b: Seq<u8>) -> bool {
    b.len() >= 76
}

/// How a `VaultCompleted` value lies in its body bytes.
pub open spec fn vault_completed_wire(b: Seq<u8>, e: VaultCompleted) -> bool {
    &&& b.len() >= 76
    &&& e.vault@ == b.subrange(0, 32)
    &&& e.total_length == spec_u32_from_le_bytes(b.subrange(32, 36))
    &&& e.key_hash@ == b.subrange(36, 68)
    &&& e.timestamp == spec_i64_from_le_bytes(b.subrange(68, 76))
}

fn vault_completed_tag_bytes() -> (r: [u8; 8])
    ensures
        r@ == vault_completed_tag(),
{
    let r = [174u8, 72u8, 181u8, 184u8, 121u8, 48u8, 107u8, 227u8];
    assert(r@ =~= vault_completed_tag());
    r
}

fn parse_vault_completed(b: &[u8]) -> (r: Option<VaultCompleted>)
    ensures
        r is Some <==> vault_completed_parses(b@),
        r matches Some(e) ==> vault_completed_wire(b@, e),
{
    if b.len() < 76 {
        return None;
    }
    let vault = read_bytes32_at(b, 0);
    let total_length = read_u32_at(b, 32);
    let key_hash = read_bytes32_at(b, 36);
    let timestamp = read_i64_at(b, 68);
    Some(VaultCompleted { vault, total_length, key_hash, timestamp })
}

/// The type tag that opens a `VaultInitialized` record.
pub open spec fn vault_initialized_tag() -> Seq<u8> {
    seq![180u8, 43u8, 207u8, 2u8, 18u8, 71u8, 3u8, 75u8]
}

/// Whether the bytes hold a complete `VaultInitialized` body.
pub open spec fn vault_initialized_parses(b: Seq<u8>) -> bool {
    b.len() >= 77
}

/// How a `VaultInitialized` value lies in its body bytes.
pub open spec fn vault_initialized_wire(b: Seq<u8>, e: VaultInitialized) -> bool {
    &&& b.len() >= 77
    &&& e.owner@ == b.subrange(0, 32)
    &&& e.vault@ == b.subrange(32, 64)
    &&& e.version == b[64]
    &&& e.chunk1_length == spec_u32_from_le_bytes(b.subrange(65, 69))
    &&& e.timestamp == spec_i64_from_le_bytes(b.subrange(69, 77))
}

fn vault_initialized_tag_bytes() -> (r: [u8; 8])
    ensures
        r@ == vault_initialized_tag(),
{
    let r = [180u8, 43u8, 207u8, 2u8, 18u8, 71u8, 3u8, 75u8];
    assert(r@ =~= vault_initialized_tag());
    r
}

fn parse_vault_initialized(b: &[u8]) -> (r: Option<VaultInitialized>)
    ensures
        r is Some <==> vault_initialized_parses(b@),
        r matches Some(e) ==> vault_initialized_wire(b@, e),
{
    if b.len() < 77 {
        return None;
    }
    let owner = read_bytes32_at(b, 0);
    let vault = read_bytes32_at(b, 32);
    let version = b[64];
    let chunk1_length = read_u32_at(b, 65);
    let timestamp = read_i64_at(b, 69);
    Some(VaultInitialized { owner, vault, version, chunk1_length, timestamp })
}

/// The type tag that opens a `ZkProofChunkWritten` record.
pub open spec fn zk_proof_chunk_written_tag() -> Seq<u8> {
    seq![86u8, 99u8, 62u8, 54u8, 246u8, 173u8, 54u8, 146u8]
}

/// Whether the bytes hold a complete `ZkProofChunkWritten` body.
pub open spec fn zk_proof_chunk_written_parses(b: Seq<u8>) -> bool {
    b.len() >= 56
}

/// How a `ZkProofChunkWritten` value lies in its body bytes.
pub open spec fn zk_proof_chunk_written_wire(b: Seq<u8>, e: ZkProofChunkWritten) -> bool {
    &&& b.len() >= 56
    &&& e.zk_proof@ == b.subrange(0, 32)
    &&& e.chunk_size == spec_u32_from_le_bytes(b.subrange(32, 36))
    &&& e.offset == spec_u32_from_le_bytes(b.subrange(36, 40))
    &&& e.new_bytes_written == spec_u32_from_le_bytes(b.subrange(40, 44))
    &&& e.total_length == spec_u32_from_le_bytes(b.subrange(44, 48))
    &&& e.timestamp == spec_i64_from_le_bytes(b.subrange(48, 56))
}

fn zk_proof_chunk_written_tag_bytes() -> (r: [u8; 8])
    ensures
        r@ == zk_proof_chunk_written_tag(),
{
    let r = [86u8, 99u8, 62u8, 54u8, 246u8, 173u8, 54u8, 146u8];
    assert(r@ =~= zk_proof_chunk_written_tag());
    r
}

fn parse_zk_proof_chunk_written(b: &[u8]) -> (r: Option<ZkProofChunkWritten>)
    ensures
        r is Some <==> zk_proof_chunk_written_parses(b@),
        r matches Some(e) ==> zk_proof_chunk_written_wire(b@, e),
{
    if b.len() < 56 {
        return None;
    }
    let zk_proof = read_bytes32_at(b, 0);
    let chunk_size = read_u32_at(b, 32);
    let offset = read_u32_at(b, 36);
    let new_bytes_written = read_u32_at(b, 40);
    let total_length = read_u32_at(b, 44);
    let timestamp = read_i64_at(b, 48);
    Some(ZkProofChunkWritten { zk_proof, chunk_size, offset, new_bytes_written, total_length, timestamp })
}

/// The type tag that opens a `ZkProofInitialized` record.
pub open spec fn zk_proof_initialized_tag() -> Seq<u8> {
    seq![41u8, 89u8, 183u8, 101u8, 104u8, 233u8, 152u8, 10u8]
}

/// Whether the bytes hold a complete `ZkProofInitialized` body.
pub open spec fn zk_proof_initialized_parses(b: Seq<u8>) -> bool {
    b.len() >= 44
}

/// How a `ZkProofInitialized` value lies in its body bytes.
pub open spec fn zk_proof_initialized_wire(b: Seq<u8>, e: ZkProofInitialized) -> bool {
    &&& b.len() >= 44
    &&& e.zk_proof@ == b.subrange(0, 32)
    &&& e.total_bytes == spec_u32_from_le_bytes(b.subrange(32, 36))
    &&& e.timestamp == spec_i64_from_le_bytes(b.subrange(36, 44))
}

fn zk_proof_initialized_tag_bytes() -> (r: [u8; 8])
    ensures
        r@ == zk_proof_initialized_tag(),
{
    let r = [41u8, 89u8, 183u8, 101u8, 104u8, 233u8, 152u8, 10u8];
    assert(r@ =~= zk_proof_initialized_tag());
    r
}

fn parse_zk_proof_initialized(b: &[u8]) -> (r: Option<ZkProofInitialized>)
    ensures
        r is Some <==> zk_proof_initialized_parses(b@),
        r matches Some(e) ==> zk_proof_initialized_wire(b@, e),
{
    if b.len() < 44 {
        return None;
    }
    let zk_proof = read_bytes32_at(b, 0);
    let total_bytes = read_u32_at(b, 32);
    let timestamp = read_i64_at(b, 36);
    Some(ZkProofInitialized { zk_proof, total_bytes, timestamp })
}

/// Whether the bytes hold a complete `AttestationSubmitted` body: the fixed
/// fields, two valid ballot bytes, and the two optional trailing values
/// behind valid presence tags, then the timestamp.
pub open spec fn attestation_submitted_parses(b: Seq<u8>) -> bool {
    &&& b.len() >= 217
    &&& (b[168] == 0 || b[168] == 1)
    &&& (b[215] == 0 || b[215] == 1)
    &&& (b[216] == 0 || b[216] == 1)
    &&& ({
        let c_off: int = if b[216] == 1 { 249 } else { 217 };
        &&& b.len() >= c_off + 1
        &&& (b[c_off] == 0 || b[c_off] == 1)
        &&& b.len() >= c_off + 1 + (if b[c_off] == 1 { 8int } else { 0int }) + 8
    })
}

/// How an `AttestationSubmitted` value lies in its body bytes.
pub open spec fn attestation_submitted_wire(b: Seq<u8>, e: AttestationSubmitted) -> bool {
    &&& attestation_submitted_parses(b)
    &&& e.utxo@ == b.subrange(0, 32)
    &&& e.utxo_hash@ == b.subrange(32, 64)
    &&& e.prover_old@ == b.subrange(64, 96)
    &&& e.prover_old_hash@ == b.subrange(96, 128)
    &&& e.prover_new@ == b.subrange(128, 160)
    &&& e.prover_unique_id == spec_u64_from_le_bytes(b.subrange(160, 168))
    &&& e.vote == (b[168] == 1)
    &&& e.next_key_hash@ == b.subrange(169, 201)
    &&& e.lamports_transferred == spec_u64_from_le_bytes(b.subrange(201, 209))
    &&& e.valid_votes == spec_u16_from_le_bytes(b.subrange(209, 211))
    &&& e.invalid_votes == spec_u16_from_le_bytes(b.subrange(211, 213))
    &&& e.total_votes == spec_u16_from_le_bytes(b.subrange(213, 215))
    &&& e.threshold_met == (b[215] == 1)
    &&& ({
        let c_off: int = if b[216] == 1 { 249 } else { 217 };
        let t_off: int = c_off + 1 + (if b[c_off] == 1 { 8int } else { 0int });
        &&& (b[216] == 1 ==> (e.new_ledger_tip matches Some(t) && t@ == b.subrange(217, 249)))
        &&& (b[216] == 0 ==> e.new_ledger_tip is None)
        &&& (b[c_off] == 1 ==> e.new_ledger_count
            == Some(spec_u64_from_le_bytes(b.subrange(c_off + 1, c_off + 9))))
        &&& (b[c_off] == 0 ==> e.new_ledger_count is None)
        &&& e.timestamp == spec_i64_from_le_bytes(b.subrange(t_off, t_off + 8))
    })
}

fn attestation_submitted_tag_bytes() -> (r: [u8; 8])
    ensures
        r@ == attestation_submitted_tag(),
{
    let r = [177u8, 213u8, 117u8, 225u8, 166u8, 11u8, 54u8, 218u8];
    assert(r@ =~= attestation_submitted_tag());
    r
}

/// The type tag that opens an `AttestationSubmitted` record.
pub open spec fn attestation_submitted_tag() -> Seq<u8> {
    seq![177u8, 213u8, 117u8, 225u8, 166u8, 11u8, 54u8, 218u8]
}

fn parse_attestation_submitted(b: &[u8]) -> (r: Option<AttestationSubmitted>)
    ensures
        r is Some <==> attestation_submitted_parses(b@),
        r matches Some(e) ==> attestation_submitted_wire(b@, e),
{
    if b.len() < 217 {
        return None;
    }
    let vote_byte = b[168];
    if vote_byte > 1 {
        return None;
    }
    let tm_byte = b[215];
    if tm_byte > 1 {
        return None;
    }
    let tip_tag = b[216];
    if tip_tag > 1 {
        return None;
    }
    let c_off: usize = if tip_tag == 1 { 249 } else { 217 };
    if b.len() < c_off + 1 {
        return None;
    }
    let cnt_tag = b[c_off];
    if cnt_tag > 1 {
        return None;
    }
    let t_off: usize = c_off + 1 + (if cnt_tag == 1 { 8 } else { 0 });
    if b.len() < t_off + 8 {
        return None;
    }
    let utxo = read_bytes32_at(b, 0);
    let utxo_hash = read_bytes32_at(b, 32);
    let prover_old = read_bytes32_at(b, 64);
    let prover_old_hash = read_bytes32_at(b, 96);
    let prover_new = read_bytes32_at(b, 128);
    let prover_unique_id = read_u64_at(b, 160);
    let vote = vote_byte == 1;
    let next_key_hash = read_bytes32_at(b, 169);
    let lamports_transferred = read_u64_at(b, 201);
    let valid_votes = read_u16_at(b, 209);
    let invalid_votes = read_u16_at(b, 211);
    let total_votes = read_u16_at(b, 213);
    let threshold_met = tm_byte == 1;
    let new_ledger_tip = if tip_tag == 1 {
        Some(read_bytes32_at(b, 217))
    } else {
        None
    };
    let new_ledger_count = if cnt_tag == 1 {
        Some(read_u64_at(b, c_off + 1))
    } else {
        None
    };
    let timestamp = read_i64_at(b, t_off);
    Some(AttestationSubmitted {
        utxo,
        utxo_hash,
        prover_old,
        prover_old_hash,
        prover_new,
        prover_unique_id,
        vote,
        next_key_hash,
        lamports_transferred,
        valid_votes,
        invalid_votes,
        total_votes,
        threshold_met,
        new_ledger_tip,
        new_ledger_count,
        timestamp,
    })
}

/// Whether the first eight bytes of `data` equal `tag`.
fn tag_matches(data: &[u8], tag: &[u8; 8]) -> (r: bool)
    requires
        data@.len() >= 8,
    ensures
        r == (data@.subrange(0, 8) == tag@),
{
    let mut i: usize = 0;
    while i < 8
        invariant
            data@.len() >= 8,
            0 <= i <= 8,
            forall|k: int| 0 <= k < i ==> data@[k] == tag@[k],
        decreases 8 - i,
    {
        if data[i] != tag[i] {
            assert(data@.subrange(0, 8)[i as int] != tag@[i as int]);
            return false;
        }
        i = i + 1;
    }
    assert(data@.subrange(0, 8) =~= tag@);
    true
}

impl QcashEvent {
    /// Parses one event record from its leading type tag: for each known
    /// tag, the fields are taken from the bytes after it exactly as the
    /// record's wire layout lays them out; an unknown tag, or a body that
    /// is too short or carries an invalid ballot or presence byte, yields
    /// nothing.
    pub fn parse(data: &[u8]) -> (r: Option<QcashEvent>)
        ensures
            data@.len() < 8 ==> r is None,
            data@.len() >= 8 ==> ({
                let tag = data@.subrange(0, 8);
                let body = data@.skip(8);
            &&& (tag == attestation_submitted_tag() ==> ({
                if attestation_submitted_parses(body) {
                    r matches Some(QcashEvent::AttestationSubmitted(e)) && attestation_submitted_wire(body, e)
                } else {
                    r is None
                }
            }))
            &&& (tag == ledger_initialized_tag() ==> ({
                if ledger_initialized_parses(body) {
                    r matches Some(QcashEvent::LedgerInitialized(e)) && ledger_initialized_wire(body, e)
                } else {
                    r is None
                }
            }))
            &&& (tag == loader_chunk_written_tag() ==> ({
                if loader_chunk_written_parses(body) {
                    r matches Some(QcashEvent::LoaderChunkWritten(e)) && loader_chunk_written_wire(body, e)
                } else {
                    r is None
                }
            }))
            &&& (tag == loader_initialized_tag() ==> ({
                if loader_initialized_parses(body) {
                    r matches Some(QcashEvent::LoaderInitialized(e)) && loader_initialized_wire(body, e)
                } else {
                    r is None
                }
            }))
            &&& (tag == program_initialized_tag() ==> ({
                if program_initialized_parses(body) {
                    r matches Some(QcashEvent::ProgramInitialized(e)) && program_initialized_wire(body, e)
                } else {
                    r is None
                }
            }))
            &&& (tag == prover_deactivated_tag() ==> ({
                if prover_deactivated_parses(body) {
                    r matches Some(QcashEvent::ProverDeactivated(e)) && prover_deactivated_wire(body, e)
                } else {
                    r is None
                }
            }))
            &&& (tag == prover_registered_tag() ==> ({
                if prover_registered_parses(body) {
                    r matches Some(QcashEvent::ProverRegistered(e)) && prover_registered_wire(body, e)
                } else {
                    r is None
                }
            }))
            &&& (tag == utxo_created_tag() ==> ({
                if utxo_created_parses(body) {
                    r matches Some(QcashEvent::UtxoCreated(e)) && utxo_created_wire(body, e)
                } else {
                    r is None
                }
            }))
            &&& (tag == vault_completed_tag() ==> ({
                if vault_completed_parses(body) {
                    r matches Some(QcashEvent::VaultCompleted(e)) && vault_completed_wire(body, e)
                } else {
                    r is None
                }
            }))
            &&& (tag == vault_initialized_tag() ==> ({
                if vault_initialized_parses(body) {
                    r matches Some(QcashEvent::VaultInitialized(e)) && vault_initialized_wire(body, e)
                } else {
                    r is None
                }
            }))
            &&& (tag == zk_proof_chunk_written_tag() ==> ({
                if zk_proof_chunk_written_parses(body) {
                    r matches Some(QcashEvent::ZkProofChunkWritten(e)) && zk_proof_chunk_written_wire(body, e)
                } else {
                    r is None
                }
            }))
            &&& (tag == zk_proof_initialized_tag() ==> ({
                if zk_proof_initialized_parses(body) {
                    r matches Some(QcashEvent::ZkProofInitialized(e)) && zk_proof_initialized_wire(body, e)
                } else {
                    r is None
                }
            }))
                &&& ((tag != attestation_submitted_tag() && tag != ledger_initialized_tag() && tag != loader_chunk_written_tag() && tag != loader_initialized_tag() && tag != program_initialized_tag() && tag != prover_deactivated_tag() && tag != prover_registered_tag() && tag != utxo_created_tag() && tag != vault_completed_tag() && tag != vault_initialized_tag() && tag != zk_proof_chunk_written_tag() && tag != zk_proof_initialized_tag()) ==> r is None)
            }),
    {
        if data.len() < 8 {
            return None;
        }
        let body = slice_subrange(data, 8, data.len());
        proof {
            assert(body@ =~= data@.skip(8));
        }
    if tag_matches(data, &attestation_submitted_tag_bytes()) {
        return match parse_attestation_submitted(body) {
            Some(e) => Some(QcashEvent::AttestationSubmitted(e)),
            None => None,
        };
    }
    if tag_matches(data, &ledger_initialized_tag_bytes()) {
        return match parse_ledger_initialized(body) {
            Some(e) => Some(QcashEvent::LedgerInitialized(e)),
            None => None,
        };
    }
    if tag_matches(data, &loader_chunk_written_tag_bytes()) {
        return match parse_loader_chunk_written(body) {
            Some(e) => Some(QcashEvent::LoaderChunkWritten(e)),
            None => None,
        };
    }
    if tag_matches(data, &loader_initialized_tag_bytes()) {
        return match parse_loader_initialized(body) {
            Some(e) => Some(QcashEvent::LoaderInitialized(e)),
            None => None,
        };
    }
    if tag_matches(data, &program_initialized_tag_bytes()) {
        return match parse_program_initialized(body) {
            Some(e) => Some(QcashEvent::ProgramInitialized(e)),
            None => None,
        };
    }
    if tag_matches(data, &prover_deactivated_tag_bytes()) {
        return match parse_prover_deactivated(body) {
            Some(e) => Some(QcashEvent::ProverDeactivated(e)),
            None => None,
        };
    }
    if tag_matches(data, &prover_registered_tag_bytes()) {
        return match parse_prover_registered(body) {
            Some(e) => Some(QcashEvent::ProverRegistered(e)),
            None => None,
        };
    }
    if tag_matches(data, &utxo_created_tag_bytes()) {
        return match parse_utxo_created(body) {
            Some(e) => Some(QcashEvent::UtxoCreated(e)),
            None => None,
        };
    }
    if tag_matches(data, &vault_completed_tag_bytes()) {
        return match parse_vault_completed(body) {
            Some(e) => Some(QcashEvent::VaultCompleted(e)),
            None => None,
        };
    }
    if tag_matches(data, &vault_initialized_tag_bytes()) {
        return match parse_vault_initialized(body) {
            Some(e) => Some(QcashEvent::VaultInitialized(e)),
            None => None,
        };
    }
    if tag_matches(data, &zk_proof_chunk_written_tag_bytes()) {
        return match parse_zk_proof_chunk_written(body) {
            Some(e) => Some(QcashEvent::ZkProofChunkWritten(e)),
            None => None,
        };
    }
    if tag_matches(data, &zk_proof_initialized_tag_bytes()) {
        return match parse_zk_proof_initialized(body) {
            Some(e) => Some(QcashEvent::ZkProofInitialized(e)),
            None => None,
        };
    }
        None
    }
}

} // verus!
