//! On-chain storage formats: the chunk-uploaded proof account, the
//! ciphertext loader, and the two-phase vault registration.
//!
//! A proof account starts with a fixed 16-byte header -- an 8-byte tag,
//! `total_len` as a little-endian `u32` at offset 8 and `bytes_written` at
//! offset 12 -- followed by the proof bytes.  Writers must append exactly at
//! `bytes_written`; out-of-order offsets are rejected.
use vstd::prelude::*;
use vstd::bytes::{spec_u32_from_le_bytes, u32_from_le_bytes, u32_to_le_bytes};
use vstd::slice::slice_subrange;
use crate::{HASH, KYBER_CIPHERTEXT_SIZE, KYBER_PUBKEY_SIZE};
use crate::errors::ErrorCode;
use crate::hashing::{sha256, sha256_of};

verus! {

/// Largest slice of a vault key one call may upload.
pub const MAX_VAULT_CHUNK: usize = 800;

/// Overwrites `dst[offset..offset + src.len()]` with `src`, leaving every
/// other byte in place.
pub fn write_bytes_at(dst: &mut Vec<u8>, offset: usize, src: &[u8])
    requires
        offset + src@.len() <= old(dst)@.len(),
    ensures
        final(dst)@.len() == old(dst)@.len(),
        final(dst)@.subrange(offset as int, offset + src@.len()) == src@,
        forall|k: int| 0 <= k < old(dst)@.len()
            && !(offset <= k < offset + src@.len()) ==> final(dst)@[k] == old(dst)@[k],
{
    let dlen = dst.len();
    let n = src.len();
    let mut i: usize = 0;
    while i < n
        invariant
            n == src@.len(),
            offset + n <= dlen,
            dlen == dst@.len(),
            0 <= i <= n,
            dst@.len() == old(dst)@.len(),
            forall|k: int| 0 <= k < i ==> dst@[offset + k] == src@[k],
            forall|k: int| 0 <= k < dst@.len()
                && !(offset <= k < offset + i) ==> dst@[k] == old(dst)@[k],
        decreases n - i,
    {
        dst[offset + i] = src[i];
        i = i + 1;
    }
    assert(final(dst)@.subrange(offset as int, offset + src@.len()) =~= src@);
}

/// Reads the little-endian `u32` at `offset`.
pub fn read_u32_at(data: &Vec<u8>, offset: usize) -> (r: u32)
    requires
        offset + 4 <= data@.len(),
    ensures
        r == spec_u32_from_le_bytes(data@.subrange(offset as int, offset + 4)),
{
    let dlen = data.len();
    assert(offset + 4 <= dlen);
    let s = slice_subrange(data.as_slice(), offset, offset + 4);
    u32_from_le_bytes(s)
}

/// The proof account's header fields.  The proof bytes follow the header in
/// the account data.
pub struct ZkProof {
    pub total_len: u32,
    pub bytes_written: u32,
}

/// The `total_len` field of a proof account's bytes.
pub open spec fn spec_total_len(data: Seq<u8>) -> u32 {
    spec_u32_from_le_bytes(data.subrange(8, 12))
}

/// The `bytes_written` field of a proof account's bytes.
pub open spec fn spec_bytes_written(data: Seq<u8>) -> u32 {
    spec_u32_from_le_bytes(data.subrange(12, 16))
}

/// The fixed 8-byte tag that opens a proof account.
pub open spec fn spec_zk_proof_tag() -> Seq<u8> {
    seq![99u8, 112u8, 199u8, 152u8, 247u8, 109u8, 47u8, 105u8]
}

impl ZkProof {
    /// Bytes of header before the proof data.
    pub const HEADER_SIZE: usize = 8 + 4 + 4;

    /// Account size for a proof of `proof_len` bytes: header plus data.
    pub fn space(proof_len: u32) -> (r: Result<usize, ErrorCode>)
        ensures
            16 + proof_len <= usize::MAX
                ==> r == Ok::<usize, ErrorCode>((16 + proof_len) as usize),
            16 + proof_len > usize::MAX
                ==> r == Err::<usize, ErrorCode>(ErrorCode::ArithmeticOverflow),
    {
        if proof_len as usize <= usize::MAX - 16 {
            Ok(16 + proof_len as usize)
        } else {
            Err(ErrorCode::ArithmeticOverflow)
        }
    }

    /// Where the proof bytes start.
    pub fn data_offset() -> (r: usize)
        ensures
            r == 16,
    {
        Self::HEADER_SIZE
    }

    /// The account tag identifying a proof account.
    pub fn discriminator() -> (r: [u8; 8])
        ensures
            r@ == spec_zk_proof_tag(),
    {
        let r = [99u8, 112u8, 199u8, 152u8, 247u8, 109u8, 47u8, 105u8];
        assert(r@ =~= spec_zk_proof_tag());
        r
    }

    /// Writes a fresh header: the tag, the total length, and zero bytes
    /// written.  Bytes past the header stay as they are.
    pub fn initialize(data: &mut Vec<u8>, total_length: u32)
        requires
            old(data)@.len() >= 16,
        ensures
            final(data)@.len() == old(data)@.len(),
            final(data)@.subrange(0, 8) == spec_zk_proof_tag(),
            spec_total_len(final(data)@) == total_length,
            spec_bytes_written(final(data)@) == 0,
            forall|k: int| 16 <= k < old(data)@.len() ==> final(data)@[k] == old(data)@[k],
    {
        let tag = Self::discriminator();
        write_bytes_at(data, 0, tag.as_slice());
        let total_bytes = u32_to_le_bytes(total_length);
        write_bytes_at(data, 8, total_bytes.as_slice());
        let zero_bytes = u32_to_le_bytes(0);
        write_bytes_at(data, 12, zero_bytes.as_slice());
        proof {
            assert(final(data)@.subrange(0, 8) =~= spec_zk_proof_tag());
            assert(final(data)@.subrange(8, 12) =~= total_bytes@);
            assert(final(data)@.subrange(12, 16) =~= zero_bytes@);
            vstd::bytes::lemma_auto_spec_u32_to_from_le_bytes();
        }
    }

    /// Reads `total_len` from a proof account.
    pub fn read_total_len(data: &Vec<u8>) -> (r: u32)
        requires
            data@.len() >= 16,
        ensures
            r == spec_total_len(data@),
    {
        read_u32_at(data, 8)
    }

    /// Reads `bytes_written` from a proof account.
    pub fn read_bytes_written(data: &Vec<u8>) -> (r: u32)
        requires
            data@.len() >= 16,
        ensures
            r == spec_bytes_written(data@),
    {
        read_u32_at(data, 12)
    }

    /// Overwrites the `bytes_written` field.
    pub fn update_bytes_written(data: &mut Vec<u8>, new_bytes_written: u32)
        requires
            old(data)@.len() >= 16,
        ensures
            final(data)@.len() == old(data)@.len(),
            spec_bytes_written(final(data)@) == new_bytes_written,
            spec_total_len(final(data)@) == spec_total_len(old(data)@),
            final(data)@.subrange(0, 8) == old(data)@.subrange(0, 8),
            forall|k: int| 16 <= k < old(data)@.len() ==> final(data)@[k] == old(data)@[k],
    {
        let bytes = u32_to_le_bytes(new_bytes_written);
        write_bytes_at(data, 12, bytes.as_slice());
        proof {
            assert(final(data)@.subrange(12, 16) =~= bytes@);
            assert(final(data)@.subrange(8, 12) =~= old(data)@.subrange(8, 12));
            assert(final(data)@.subrange(0, 8) =~= old(data)@.subrange(0, 8));
            vstd::bytes::lemma_auto_spec_u32_to_from_le_bytes();
        }
    }

    /// Copies one contiguous chunk into the proof region at `bytes_written`.
    pub fn write_chunk(data: &mut Vec<u8>, bytes_written: u32, chunk: &Vec<u8>)
        requires
            16 + bytes_written + chunk@.len() <= old(data)@.len(),
        ensures
            final(data)@.len() == old(data)@.len(),
            final(data)@.subrange(
                16 + bytes_written, 16 + bytes_written + chunk@.len()) == chunk@,
            forall|k: int| 0 <= k < old(data)@.len()
                && !(16 + bytes_written <= k < 16 + bytes_written + chunk@.len())
                ==> final(data)@[k] == old(data)@[k],
    {
        let dlen = data.len();
        assert(16 + bytes_written <= dlen);
        let offset = Self::HEADER_SIZE + bytes_written as usize;
        write_bytes_at(data, offset, chunk.as_slice());
    }

    /// Copies the uploaded proof bytes out of the account.
    pub fn get_proof_data(data: &Vec<u8>, total_length: u32) -> (r: Vec<u8>)
        requires
            16 + total_length <= data@.len(),
        ensures
            r@ == data@.subrange(16, 16 + total_length),
    {
        let dlen = data.len();
        assert(16 + total_length <= dlen);
        let s = slice_subrange(data.as_slice(), 16, 16 + total_length as usize);
        vstd::slice::slice_to_vec(s)
    }
}

/// Appends a chunk to a proof account.  Refused exactly when the chunk does
/// not start at `bytes_written`, or would run past `total_len`; otherwise
/// the chunk lands at its offset and `bytes_written` advances by its length.
pub fn write_zk_proof(data: &mut Vec<u8>, offset: u32, chunk: &Vec<u8>) -> (r: Result<(), ErrorCode>)
    requires
        old(data)@.len() >= 16,
        16 + spec_total_len(old(data)@) <= old(data)@.len(),
        spec_bytes_written(old(data)@) <= spec_total_len(old(data)@),
    ensures
        final(data)@.len() == old(data)@.len(),
        ({
            let total = spec_total_len(old(data)@);
            let written = spec_bytes_written(old(data)@);
            if offset != written {
                r == Err::<(), ErrorCode>(ErrorCode::InvalidOffset) && final(data)@ == old(data)@
            } else if offset + chunk@.len() > total {
                r == Err::<(), ErrorCode>(ErrorCode::PayloadTooLarge) && final(data)@ == old(data)@
            } else {
                &&& r == Ok::<(), ErrorCode>(())
                &&& spec_total_len(final(data)@) == total
                &&& spec_bytes_written(final(data)@) == offset + chunk@.len()
                &&& final(data)@.subrange(0, 8) == old(data)@.subrange(0, 8)
                &&& final(data)@.subrange(16 + offset, 16 + offset + chunk@.len()) == chunk@
                &&& forall|k: int| 16 <= k < old(data)@.len()
                    && !(16 + offset <= k < 16 + offset + chunk@.len())
                    ==> final(data)@[k] == old(data)@[k]
            }
        }),
{
    let total_len = ZkProof::read_total_len(data);
    let bytes_written = ZkProof::read_bytes_written(data);
    if offset != bytes_written {
        return Err(ErrorCode::InvalidOffset);
    }
    if chunk.len() > (total_len - bytes_written) as usize {
        return Err(ErrorCode::PayloadTooLarge);
    }
    ZkProof::write_chunk(data, bytes_written, chunk);
    let ghost mid = data@;
    proof {
        assert(mid.subrange(8, 12) =~= old(data)@.subrange(8, 12));
    }
    let new_bytes_written = bytes_written + chunk.len() as u32;
    ZkProof::update_bytes_written(data, new_bytes_written);
    proof {
        assert(spec_total_len(mid) == spec_total_len(old(data)@));
        assert(final(data)@.subrange(16 + offset, 16 + offset + chunk@.len())
            =~= mid.subrange(16 + offset, 16 + offset + chunk@.len()));
        assert(mid.subrange(16 + offset, 16 + offset + chunk@.len()) =~= chunk@);
        assert(final(data)@.subrange(0, 8) =~= mid.subrange(0, 8));
        assert(mid.subrange(0, 8) =~= old(data)@.subrange(0, 8));
    }
    Ok(())
}

/// The loader account: a staging buffer for one Kyber ciphertext.
#[derive(Clone, Debug)]
pub struct Loader {
    pub ciphertext: [u8; KYBER_CIPHERTEXT_SIZE],
}

impl Loader {
    /// Account bytes: an 8-byte tag before the ciphertext.
    pub const LEN: usize = 8 + KYBER_CIPHERTEXT_SIZE;
}

/// Writes one chunk of ciphertext into the loader at `offset`.  Refused
/// exactly when the chunk would run past the ciphertext buffer.
pub fn write_loader(loader: &mut Loader, offset: u32, data: &Vec<u8>) -> (r: Result<(), ErrorCode>)
    ensures
        if offset + data@.len() > KYBER_CIPHERTEXT_SIZE {
            r == Err::<(), ErrorCode>(ErrorCode::PayloadTooLarge) && *final(loader) == *old(loader)
        } else {
            r == Ok::<(), ErrorCode>(())
                && final(loader).ciphertext@.subrange(offset as int, offset + data@.len()) == data@
                && forall|k: int| 0 <= k < KYBER_CIPHERTEXT_SIZE
                    && !(offset <= k < offset + data@.len())
                    ==> final(loader).ciphertext@[k] == old(loader).ciphertext@[k]
        },
{
    if offset as usize > KYBER_CIPHERTEXT_SIZE
        || data.len() > KYBER_CIPHERTEXT_SIZE - offset as usize {
        return Err(ErrorCode::PayloadTooLarge);
    }
    let start = offset as usize;
    let n = data.len();
    let mut i: usize = 0;
    while i < n
        invariant
            n == data@.len(),
            start + n <= KYBER_CIPHERTEXT_SIZE,
            start == offset,
            0 <= i <= n,
            forall|k: int| 0 <= k < i ==> loader.ciphertext@[start + k] == data@[k],
            forall|k: int| 0 <= k < KYBER_CIPHERTEXT_SIZE
                && !(start <= k < start + i) ==> loader.ciphertext@[k] == old(loader).ciphertext@[k],
        decreases n - i,
    {
        loader.ciphertext[start + i] = data[i];
        i = i + 1;
    }
    proof {
        assert(final(loader).ciphertext@.subrange(offset as int, offset + data@.len()) =~= data@);
    }
    Ok(())
}

/// A vault account mid-registration: the key arrives in two uploads.
#[derive(Clone, Debug, PartialEq, Eq)]
pub struct Vault {
    pub version: u8,
    pub flags: u8,
    pub kyber_pubkey: Vec<u8>,
}

/// Starts a vault with the first slice of the key.  Refused exactly when
/// the slice exceeds the per-call limit.
pub fn init_vault(kyber_key_part1: Vec<u8>) -> (r: Result<Vault, ErrorCode>)
    ensures
        if kyber_key_part1@.len() > MAX_VAULT_CHUNK {
            r == Err::<Vault, ErrorCode>(ErrorCode::ChunkSizeExceeded)
        } else {
            r is Ok && r->Ok_0.version == 1 && r->Ok_0.flags == 0
                && r->Ok_0.kyber_pubkey@ == kyber_key_part1@
        },
{
    if kyber_key_part1.len() > MAX_VAULT_CHUNK {
        return Err(ErrorCode::ChunkSizeExceeded);
    }
    Ok(Vault { version: 1, flags: 0, kyber_pubkey: kyber_key_part1 })
}

/// Completes a vault with the second slice of the key.  Refused exactly
/// when the assembled key is not `KYBER_PUBKEY_SIZE` bytes, or does not
/// hash to the expected binding value; on failure the vault is untouched.
pub fn complete_vault(
    vault: &mut Vault,
    kyber_key_part2: &Vec<u8>,
    expected_key_hash: &HASH,
) -> (r: Result<(), ErrorCode>)
    ensures
        ({
            let combined = old(vault).kyber_pubkey@ + kyber_key_part2@;
            if combined.len() != KYBER_PUBKEY_SIZE {
                r == Err::<(), ErrorCode>(ErrorCode::InvalidKeyLength) && *final(vault) == *old(vault)
            } else if sha256_of(combined) != expected_key_hash@ {
                r == Err::<(), ErrorCode>(ErrorCode::HashMismatch) && *final(vault) == *old(vault)
            } else {
                r == Ok::<(), ErrorCode>(())
                    && final(vault).kyber_pubkey@ == combined
                    && final(vault).version == old(vault).version
                    && final(vault).flags == old(vault).flags
            }
        }),
{
    let mut combined: Vec<u8> = Vec::new();
    crate::hashing::push_bytes(&mut combined, vault.kyber_pubkey.as_slice());
    crate::hashing::push_bytes(&mut combined, kyber_key_part2.as_slice());
    if combined.len() != KYBER_PUBKEY_SIZE {
        return Err(ErrorCode::InvalidKeyLength);
    }
    let hash_result = sha256(combined.as_slice());
    if !crate::hash_eq(&hash_result, expected_key_hash) {
        return Err(ErrorCode::HashMismatch);
    }
    vault.kyber_pubkey = combined;
    Ok(())
}

/// A vault account's stored state, as its byte layout carries it: version,
/// flags, then the key behind a little-endian `u32` length prefix.
#[derive(Clone, Debug, PartialEq, Eq)]
pub struct VaultState {
    pub version: u8,
    pub flags: u8,
    pub kyber_key: Vec<u8>,
}

impl VaultState {
    /// Decodes a vault account body.  Yields a value exactly when the bytes
    /// hold the two flag bytes and a complete length-prefixed key; trailing
    /// bytes are ignored.
    pub fn parse(data: &Vec<u8>) -> (r: Option<VaultState>)
        ensures
            ({
                if data@.len() >= 6
                    && 6 + spec_u32_from_le_bytes(data@.subrange(2, 6)) <= data@.len() {
                    let klen = spec_u32_from_le_bytes(data@.subrange(2, 6));
                    match r {
                        Some(v) => v.version == data@[0] && v.flags == data@[1]
                            && v.kyber_key@ == data@.subrange(6, 6 + klen),
                        None => false,
                    }
                } else {
                    r is None
                }
            }),
    {
        if data.len() < 6 {
            return None;
        }
        let version = data[0];
        let flags = data[1];
        let klen = read_u32_at(data, 2);
        if klen as usize > data.len() - 6 {
            return None;
        }
        let s = slice_subrange(data.as_slice(), 6, 6 + klen as usize);
        let kyber_key = vstd::slice::slice_to_vec(s);
        Some(VaultState { version, flags, kyber_key })
    }
}

} // verus!
