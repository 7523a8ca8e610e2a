//! Deterministic key derivation for a vault: a seed fragment is expanded by
//! HMAC-SHA-256 into a byte stream, and the first 64 bytes of that stream
//! seed the Kyber keypair.  The same fragment always yields the same keys.
use vstd::prelude::*;
use vstd::bytes::{spec_u64_from_le_bytes, u64_from_le_bytes};
use crate::hashing::{hmac_sha256, hmac_sha256_of, push_bytes};

verus! {

/// The declared shape of pqc_kyber's keypair type; opaque to the library.
#[verifier::external_type_specification]
#[verifier::external_body]
pub struct ExKeypair(pqc_kyber::Keypair);

/// The expansion of a seed into `n` HMAC blocks: block `i` is the MAC of
/// the single byte `i` under the seed as key.
pub open spec fn hmac_expansion(seed: Seq<u8>, n: nat) -> Seq<u8>
    decreases n,
{
    if n == 0 {
        Seq::empty()
    } else {
        hmac_expansion(seed, (n - 1) as nat) + hmac_sha256_of(seed, seq![(n - 1) as u8])
    }
}

/// A deterministic byte stream expanded from a seed, read as a ring buffer.
pub struct DeterministicRng {
    seed_bytes: Vec<u8>,
    cursor: usize,
}

/// The expanded stream a generator draws from.
pub closed spec fn rng_stream(r: DeterministicRng) -> Seq<u8> {
    r.seed_bytes@
}

/// How many bytes the generator has handed out.
pub closed spec fn rng_cursor(r: DeterministicRng) -> int {
    r.cursor as int
}

impl DeterministicRng {
    /// A non-empty stream, so reads cannot run dry.
    pub open spec fn wf(self) -> bool {
        rng_stream(self).len() > 0
    }

    /// Expands `seed` into eight HMAC blocks -- 256 bytes, enough for any
    /// key derivation this library performs -- and starts at the beginning.
    pub fn new(seed: &[u8]) -> (r: Self)
        ensures
            r.wf(),
            rng_stream(r) == hmac_expansion(seed@, 8),
            rng_stream(r).len() == 256,
            rng_cursor(r) == 0,
    {
        let mut seed_bytes: Vec<u8> = Vec::new();
        let mut i: usize = 0;
        while i < 8
            invariant
                0 <= i <= 8,
                seed_bytes@ == hmac_expansion(seed@, i as nat),
                seed_bytes@.len() == 32 * i,
            decreases 8 - i,
        {
            let index_byte = [i as u8];
            let block = hmac_sha256(seed, index_byte.as_slice());
            push_bytes(&mut seed_bytes, block.as_slice());
            proof {
                assert(index_byte@ =~= seq![i as u8]);
            }
            i = i + 1;
        }
        Self { seed_bytes, cursor: 0 }
    }

    /// Overwrites `dst` with the next `dst.len()` bytes of the stream,
    /// wrapping around its end, and advances the cursor by that many.
    pub fn fill_bytes(&mut self, dst: &mut Vec<u8>)
        requires
            old(self).wf(),
            rng_cursor(*old(self)) + old(dst)@.len() <= usize::MAX,
        ensures
            final(self).wf(),
            rng_stream(*final(self)) == rng_stream(*old(self)),
            rng_cursor(*final(self)) == rng_cursor(*old(self)) + old(dst)@.len(),
            final(dst)@.len() == old(dst)@.len(),
            forall|k: int| 0 <= k < old(dst)@.len() ==> final(dst)@[k] == rng_stream(
                *old(self))[(rng_cursor(*old(self)) + k) % (rng_stream(*old(self)).len() as int)],
    {
        let n = dst.len();
        let stream_len = self.seed_bytes.len();
        let mut i: usize = 0;
        while i < n
            invariant
                n == dst@.len(),
                stream_len == rng_stream(*self).len(),
                stream_len > 0,
                rng_stream(*self) == rng_stream(*old(self)),
                rng_cursor(*self) == rng_cursor(*old(self)) + i,
                rng_cursor(*old(self)) + n <= usize::MAX,
                0 <= i <= n,
                dst@.len() == n,
                forall|k: int| 0 <= k < i ==> dst@[k] == rng_stream(
                    *old(self))[(rng_cursor(*old(self)) + k) % (stream_len as int)],
            decreases n - i,
        {
            let idx = self.cursor % stream_len;
            dst[i] = self.seed_bytes[idx];
            self.cursor = self.cursor + 1;
            i = i + 1;
        }
    }

    /// The next eight stream bytes, read as a little-endian `u64`.
    pub fn next_u64(&mut self) -> (r: u64)
        requires
            old(self).wf(),
            rng_cursor(*old(self)) + 8 <= usize::MAX,
        ensures
            final(self).wf(),
            rng_stream(*final(self)) == rng_stream(*old(self)),
            rng_cursor(*final(self)) == rng_cursor(*old(self)) + 8,
            r == spec_u64_from_le_bytes(Seq::new(8, |k: int| rng_stream(
                *old(self))[(rng_cursor(*old(self)) + k) % (rng_stream(*old(self)).len() as int)])),
    {
        let mut buf: Vec<u8> = vec![0u8; 8];
        self.fill_bytes(&mut buf);
        let r = u64_from_le_bytes(buf.as_slice());
        proof {
            assert(buf@ =~= Seq::new(8, |k: int| rng_stream(*old(self))[(rng_cursor(*old(self))
                + k) % (rng_stream(*old(self)).len() as int)]));
        }
        r
    }

    /// The next eight stream bytes, reduced to their low 32 bits.
    pub fn next_u32(&mut self) -> (r: u32)
        requires
            old(self).wf(),
            rng_cursor(*old(self)) + 8 <= usize::MAX,
        ensures
            final(self).wf(),
            rng_stream(*final(self)) == rng_stream(*old(self)),
            rng_cursor(*final(self)) == rng_cursor(*old(self)) + 8,
            r == spec_u64_from_le_bytes(Seq::new(8, |k: int| rng_stream(
                *old(self))[(rng_cursor(*old(self)) + k) % (rng_stream(*old(self)).len() as int)]))
                % 0x1_0000_0000,
    {
        let v = self.next_u64();
        (v % 0x1_0000_0000) as u32
    }
}

/// Relies on pqc_kyber::derive: the keypair is a function of the 64-byte
/// seed alone, and with a seed of exactly 64 bytes the call cannot fail.
#[verifier::external_body]
fn kyber_derive(seed: &Vec<u8>) -> (r: pqc_kyber::Keypair)
    requires
        seed@.len() == 64,
{
    pqc_kyber::derive(seed.as_slice()).unwrap()
}

/// Derives a vault's Kyber keypair deterministically from a 32-byte seed
/// fragment: the fragment is HMAC-expanded and the first 64 stream bytes
/// become the derivation seed.
pub fn derive_kyber_key(fragment: &[u8; 32]) -> pqc_kyber::Keypair {
    let mut rng = DeterministicRng::new(fragment.as_slice());
    let mut coins: Vec<u8> = vec![0u8; 64];
    rng.fill_bytes(&mut coins);
    kyber_derive(&coins)
}

} // verus!
