//! From the bytes of a public key to the text of its address.
//!
//! A key is decoded to its curve point, the point's two coordinates are
//! hashed with Keccak-256, the last twenty bytes of the digest are the raw
//! address, and the raw address is written as checksummed text.

use vstd::prelude::*;
use crate::checksum::{
    checksum_text,
    is_address_text,
    lemma_checksum_text_shape,
    to_checksum_address,
};
use crate::keccak::{keccak256, keccak256_digest};
use crate::sec1::{
    decode_point,
    is_public_key,
    is_sec1_framed,
    is_valid_public_key,
    sec1_point,
    uncompressed_form,
    COMPRESSED_LEN,
    TAG_UNCOMPRESSED,
    UNCOMPRESSED_LEN,
};

verus! {

/// Why no address could be derived.
#[derive(Clone, Copy, Debug, PartialEq, Eq, Structural)]
pub enum DerivationError {
    /// The bytes are no public key: their length or tag is not that of a
    /// compressed or uncompressed point, or they encode no point of the
    /// curve.
    InvalidEncoding,
}

/// The raw address in a 32-byte `digest`: its last twenty bytes.
pub open spec fn raw_address(digest: Seq<u8>) -> Seq<u8> {
    Seq::new(20, |i: int| digest[12 + i])
}

/// The address text of an uncompressed `point`: the tag is set aside, the
/// 64 bytes of the coordinates are hashed, and the raw address in the
/// digest is checksummed.
pub open spec fn point_address(point: Seq<u8>) -> Seq<char> {
    checksum_text(raw_address(keccak256_digest(point.subrange(1, UNCOMPRESSED_LEN as int))))
}

/// What deriving from `bytes` gives: the address text of the point they
/// encode, or the error where they are no public key.
pub open spec fn derivation(bytes: Seq<u8>) -> Result<Seq<char>, DerivationError> {
    if is_public_key(bytes) {
        Ok(point_address(uncompressed_form(bytes)))
    } else {
        Err(DerivationError::InvalidEncoding)
    }
}

/// Deriving is a function of the input bytes and of nothing else: from the
/// same bytes it gives the same outcome every time.
pub proof fn lemma_derivation_is_deterministic(first: Seq<u8>, second: Seq<u8>)
    requires
        first =~= second,
    ensures
        derivation(first) == derivation(second),
{
}

/// A compressed and an uncompressed encoding of one point have the same
/// address: where the compressed key decodes to the point that the
/// uncompressed key spells out, both derive the same text.
pub proof fn lemma_encodings_of_one_point_agree(compressed: Seq<u8>, uncompressed: Seq<u8>)
    requires
        compressed.len() == COMPRESSED_LEN,
        uncompressed.len() == UNCOMPRESSED_LEN,
        is_public_key(compressed),
        is_public_key(uncompressed),
        sec1_point(compressed) == Some(uncompressed),
    ensures
        derivation(compressed) is Ok,
        derivation(compressed) == derivation(uncompressed),
{
}

/// Every public key has an address, and its text is `0x` followed by forty
/// hexadecimal digits.
pub proof fn lemma_public_key_has_address(bytes: Seq<u8>)
    requires
        is_public_key(bytes),
    ensures
        derivation(bytes) is Ok,
        is_address_text(derivation(bytes)->Ok_0),
{
    lemma_checksum_text_shape(
        raw_address(
            keccak256_digest(uncompressed_form(bytes).subrange(1, UNCOMPRESSED_LEN as int)),
        ),
    );
}

/// Bytes without the frame of a public key are rejected, whatever else
/// they hold.
pub proof fn lemma_unframed_bytes_are_rejected(bytes: Seq<u8>)
    requires
        !is_sec1_framed(bytes),
    ensures
        derivation(bytes) == Err::<Seq<char>, DerivationError>(DerivationError::InvalidEncoding),
{
}

/// Takes the raw address out of a digest.
pub fn digest_to_raw_address(digest: &[u8; 32]) -> (raw: [u8; 20])
    ensures
        raw@ == raw_address(digest@),
{
    let mut raw: [u8; 20] = [0u8; 20];
    let mut i: usize = 0;
    while i < 20
        invariant
            i <= 20,
            forall|k: int| 0 <= k < i ==> raw@[k] == digest@[12 + k],
        decreases 20 - i,
    {
        raw[i] = digest[12 + i];
        i += 1;
    }
    assert(raw@ =~= raw_address(digest@));
    raw
}

/// The address of the uncompressed curve point `point`, which is the tag
/// `0x04` and the 64 bytes of the two coordinates.
pub fn point_to_address(point: &[u8]) -> (text: String)
    requires
        point@.len() == UNCOMPRESSED_LEN,
        point@[0] == TAG_UNCOMPRESSED,
    ensures
        text@ == point_address(point@),
        is_address_text(text@),
{
    let digest = keccak256(&point[1..UNCOMPRESSED_LEN]);
    let raw = digest_to_raw_address(&digest);
    to_checksum_address(&raw)
}

/// The address of the public key `pubkey_bytes`, which must be one: see
/// [`derive_address`] for bytes that may not be.
pub fn pubkey_bytes_to_address(pubkey_bytes: &[u8]) -> (text: String)
    requires
        is_public_key(pubkey_bytes@),
    ensures
        derivation(pubkey_bytes@) == Ok::<Seq<char>, DerivationError>(text@),
        is_address_text(text@),
{
    match decode_point(pubkey_bytes) {
        Ok(point) => point_to_address(point.as_slice()),
        Err(_) => vstd::pervasive::unreached(),
    }
}

/// Derives the address of the public key `pubkey_bytes`, compressed or
/// uncompressed, and rejects bytes that are no public key.
pub fn derive_address(pubkey_bytes: &[u8]) -> (outcome: Result<String, DerivationError>)
    ensures
        match outcome {
            Ok(text) => derivation(pubkey_bytes@) == Ok::<Seq<char>, DerivationError>(text@)
                && is_address_text(text@),
            Err(error) => derivation(pubkey_bytes@) == Err::<Seq<char>, DerivationError>(error),
        },
        outcome is Ok <==> is_public_key(pubkey_bytes@),
{
    if is_valid_public_key(pubkey_bytes) {
        Ok(pubkey_bytes_to_address(pubkey_bytes))
    } else {
        Err(DerivationError::InvalidEncoding)
    }
}

} // verus!
