//! The protocol's hash primitive and the trusted wrappers around it.
//!
//! Every commitment in the protocol is a SHA-256 digest.  The digest value
//! itself is left abstract: `sha256_of` names the function that the `sha2`
//! crate computes, and every contract in the crate speaks of commitments
//! through that name, so the whole commitment model is bit-identical wherever
//! it is recomputed.
use vstd::prelude::*;
use vstd::string::StringSliceAdditionalSpecFns;
use crate::HASH;

verus! {

/// The SHA-256 digest of a byte sequence, as computed by the `sha2` crate.
/// The digest is a function of the input bytes alone.
pub uninterp spec fn sha256_of(input: Seq<u8>) -> Seq<u8>;

/// The HMAC-SHA-256 tag of a message under a key, as computed by the `hmac`
/// crate over `sha2`.  The tag is a function of key and message alone.
pub uninterp spec fn hmac_sha256_of(key: Seq<u8>, msg: Seq<u8>) -> Seq<u8>;

/// Relies on sha2's `Sha256`: a one-shot digest of the input bytes,
/// always 32 bytes long.
#[verifier::external_body]
pub(crate) fn sha256(input: &[u8]) -> (r: HASH)
    ensures
        r@ == sha256_of(input@),
{
    let digest = <sha2::Sha256 as sha2::Digest>::digest(input);
    digest.into()
}

/// Relies on hmac's `Hmac<Sha256>`: a one-shot MAC of the message under the
/// key, always 32 bytes long.  `new_from_slice` accepts keys of any length,
/// so the construction cannot fail.
#[verifier::external_body]
pub(crate) fn hmac_sha256(key: &[u8], msg: &[u8]) -> (r: HASH)
    ensures
        r@ == hmac_sha256_of(key@, msg@),
{
    let mut mac = <hmac::Hmac<sha2::Sha256> as hmac::Mac>::new_from_slice(key).unwrap();
    hmac::Mac::update(&mut mac, msg);
    let tag = hmac::Mac::finalize(mac).into_bytes();
    tag.into()
}

/// Appends every byte of `s` to `buf`, in order.
pub fn push_bytes(buf: &mut Vec<u8>, s: &[u8])
    ensures
        final(buf)@ == old(buf)@ + s@,
{
    let n = s.len();
    let mut i: usize = 0;
    while i < n
        invariant
            n == s@.len(),
            0 <= i <= n,
            buf@ == old(buf)@ + s@.take(i as int),
        decreases n - i,
    {
        buf.push(s[i]);
        assert(s@.take(i as int).push(s@[i as int]) =~= s@.take(i + 1));
        i = i + 1;
    }
    assert(s@.take(n as int) =~= s@);
}

/// The instruction discriminator of a named ledger call: the first eight
/// bytes of the digest of `"global:"` followed by the call's name.
pub fn get_discriminator(name: &str) -> (r: Vec<u8>)
    ensures
        r@ == sha256_of("global:".spec_bytes() + name.spec_bytes()).take(8),
        sha256_of("global:".spec_bytes() + name.spec_bytes()).len() == 32,
{
    let mut buf: Vec<u8> = Vec::new();
    push_bytes(&mut buf, "global:".as_bytes());
    push_bytes(&mut buf, name.as_bytes());
    let h = sha256(buf.as_slice());
    let s = vstd::slice::slice_subrange(h.as_slice(), 0, 8);
    let r = vstd::slice::slice_to_vec(s);
    assert(h@.subrange(0, 8) =~= sha256_of("global:".spec_bytes() + name.spec_bytes()).take(8));
    r
}

} // verus!
