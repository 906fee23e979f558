//! SEC1 encodings of secp256k1 public keys: the frame that this library
//! accepts, and the decoding of the point inside it.

use ethers_core::k256::elliptic_curve::sec1::ToEncodedPoint;
use ethers_core::k256::PublicKey;
use vstd::prelude::*;

verus! {

/// Tag of a compressed point whose y-coordinate is even.
pub const TAG_COMPRESSED_EVEN: u8 = 2;

/// Tag of a compressed point whose y-coordinate is odd.
pub const TAG_COMPRESSED_ODD: u8 = 3;

/// Tag of an uncompressed point.
pub const TAG_UNCOMPRESSED: u8 = 4;

/// Length of a compressed point: the tag and one coordinate of 32 bytes.
pub const COMPRESSED_LEN: usize = 33;

/// Length of an uncompressed point: the tag and two coordinates of 32 bytes.
pub const UNCOMPRESSED_LEN: usize = 65;

/// Whether `bytes` has the frame of a public key: 33 bytes behind the tag
/// `0x02` or `0x03` (a compressed point), or 65 bytes behind the tag `0x04`
/// (an uncompressed one).
pub open spec fn is_sec1_framed(bytes: Seq<u8>) -> bool {
    ||| bytes.len() == COMPRESSED_LEN && (bytes[0] == TAG_COMPRESSED_EVEN || bytes[0]
        == TAG_COMPRESSED_ODD)
    ||| bytes.len() == UNCOMPRESSED_LEN && bytes[0] == TAG_UNCOMPRESSED
}

/// The uncompressed encoding of the curve point that `bytes` decodes to,
/// and `None` where the decoder finds no public key in them.
///
/// The curve arithmetic is not modelled: the decoded point is known only as
/// a function of the input bytes.
pub uninterp spec fn sec1_point(bytes: Seq<u8>) -> Option<Seq<u8>>;

/// Whether `bytes` is a public key: framed as one, and decoding to a point
/// of the curve.
pub open spec fn is_public_key(bytes: Seq<u8>) -> bool {
    is_sec1_framed(bytes) && sec1_point(bytes) is Some
}

/// The point of the public key `bytes` in its uncompressed encoding: the
/// key itself where it is uncompressed, and otherwise what decoding it
/// gives.
pub open spec fn uncompressed_form(bytes: Seq<u8>) -> Seq<u8>
    recommends
        is_public_key(bytes),
{
    if bytes.len() == UNCOMPRESSED_LEN {
        bytes
    } else {
        sec1_point(bytes).unwrap()
    }
}

/// The error of the curve library, which carries no detail.
#[verifier::external_type_specification]
#[verifier::external_body]
pub struct ExCurveError(ethers_core::k256::elliptic_curve::Error);

/// Tells whether `bytes` has the length and the tag of a public key. The
/// coordinates are not looked at.
pub fn has_sec1_frame(bytes: &[u8]) -> (framed: bool)
    ensures
        framed == is_sec1_framed(bytes@),
{
    let n: usize = bytes.len();
    if n == COMPRESSED_LEN {
        bytes[0] == TAG_COMPRESSED_EVEN || bytes[0] == TAG_COMPRESSED_ODD
    } else if n == UNCOMPRESSED_LEN {
        bytes[0] == TAG_UNCOMPRESSED
    } else {
        false
    }
}

/// Decodes `bytes` with `k256::PublicKey::from_sec1_bytes` and writes the
/// key out again with `to_encoded_point(false)`.
///
/// Trusted: whether the decoder accepts, and the point it finds, depend on
/// `bytes` alone; a key that it accepted is written out as 65 bytes, the
/// tag `0x04` and then the two coordinates; and a key that was read from 65
/// bytes is written out as those same bytes, because a coordinate is only
/// accepted in its one canonical form.
#[verifier::external_body]
pub(crate) fn decode_point(bytes: &[u8]) -> (decoded: Result<
    Vec<u8>,
    ethers_core::k256::elliptic_curve::Error,
>)
    ensures
        match decoded {
            Ok(point) => sec1_point(bytes@) == Some(point@) && point@.len() == UNCOMPRESSED_LEN
                && point@[0] == TAG_UNCOMPRESSED,
            Err(_) => sec1_point(bytes@) is None,
        },
        decoded is Ok && bytes@.len() == UNCOMPRESSED_LEN ==> decoded->Ok_0@ == bytes@,
{
    let key = PublicKey::from_sec1_bytes(bytes)?;
    Ok(key.to_encoded_point(false).as_bytes().to_vec())
}

/// Tells whether `bytes` is a public key, by its frame first and then by
/// decoding the point. The decoder alone would also take a compact point
/// behind the tag `0x05`, which is no public key here: the frame check
/// keeps it out.
pub fn is_valid_public_key(bytes: &[u8]) -> (valid: bool)
    ensures
        valid == is_public_key(bytes@),
{
    if !has_sec1_frame(bytes) {
        return false;
    }
    match decode_point(bytes) {
        Ok(_) => true,
        Err(_) => false,
    }
}

} // verus!
