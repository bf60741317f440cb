//! The SHA-256 digest that bodies are absorbed into.

use chia_sha2::Sha256;
use vstd::prelude::*;

verus! {

/// The running digest of `chia_sha2`.
#[verifier::external_type_specification]
#[verifier::external_body]
pub struct ExSha256(Sha256);

/// The bytes that a running digest has absorbed so far.
pub uninterp spec fn absorbed(digest: Sha256) -> Seq<u8>;

/// The SHA-256 digest of `data`.
pub uninterp spec fn sha256(data: Seq<u8>) -> Seq<u8>;

/// `Sha256::new` of `chia_sha2`: a digest that has absorbed nothing.
#[verifier::external_body]
pub(crate) fn new_digest() -> (digest: Sha256)
    ensures
        absorbed(digest) == Seq::<u8>::empty(),
{
    Sha256::new()
}

/// `Sha256::update` of `chia_sha2`: absorbs `data` behind what was absorbed before.
#[verifier::external_body]
pub(crate) fn absorb(digest: &mut Sha256, data: &[u8])
    ensures
        absorbed(*final(digest)) == absorbed(*old(digest)) + data@,
{
    digest.update(data)
}

/// `u32::update_digest` of `chia_traits::Streamable`: absorbs the four bytes of `value`, most
/// significant first.
#[verifier::external_body]
pub(crate) fn absorb_u32(digest: &mut Sha256, value: u32)
    ensures
        absorbed(*final(digest)) == absorbed(*old(digest)) + crate::streamable::be_u32(value),
{
    chia_traits::Streamable::update_digest(&value, digest)
}

/// `Sha256::finalize` of `chia_sha2`: the digest of all that was absorbed, 32 bytes long.
#[verifier::external_body]
pub(crate) fn finish(digest: Sha256) -> (r: [u8; 32])
    ensures
        r@ == sha256(absorbed(digest)),
{
    digest.finalize()
}

} // verus!
