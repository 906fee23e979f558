//! Keccak-256, the hash that addresses and their checksums are built on.

use vstd::prelude::*;

verus! {

/// The Keccak-256 digest of `data`.
///
/// The permutation is not modelled: the digest is known only as a function
/// of the input bytes.
pub uninterp spec fn keccak256_digest(data: Seq<u8>) -> Seq<u8>;

/// Hashes `data` with `ethers_core::utils::keccak256`.
///
/// Trusted: the 32 bytes handed back are the Keccak-256 digest of exactly
/// the bytes of `data`.
#[verifier::external_body]
pub(crate) fn keccak256(data: &[u8]) -> (digest: [u8; 32])
    ensures
        digest@ == keccak256_digest(data@),
{
    ethers_core::utils::keccak256(data)
}

} // verus!
