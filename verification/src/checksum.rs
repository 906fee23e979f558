//! The textual form of a 20-byte address: `0x` and forty hexadecimal digits
//! whose letter case carries a checksum.
//!
//! The digits are hashed as lowercase ASCII; a letter is written in upper
//! case exactly where the matching four bits of the digest are eight or
//! more.

use vstd::prelude::*;
use crate::hex::{
    encode_lower,
    hex_decoded,
    hex_lower,
    hex_value,
    lemma_reading_undoes_rendering,
    lemma_rendered_digit,
    nibble,
    without_prefix,
    LOWER_A,
};
use crate::keccak::{keccak256, keccak256_digest};

verus! {

/// ASCII code of `z`.
pub const LOWER_Z: u8 = 122;

/// How far the ASCII code of a lowercase letter lies above that of its
/// capital.
pub const CASE_GAP: u8 = 32;

/// `byte` with a lowercase ASCII letter turned into its capital.
pub open spec fn ascii_upper(byte: u8) -> u8 {
    if LOWER_A <= byte <= LOWER_Z {
        (byte - CASE_GAP) as u8
    } else {
        byte
    }
}

/// `c` with a capital ASCII letter turned into its lowercase form.
pub open spec fn lower_char(c: char) -> char {
    if 'A' <= c <= 'Z' {
        ((c as u8) + CASE_GAP) as u8 as char
    } else {
        c
    }
}

/// `text` with every capital ASCII letter in lowercase.
pub open spec fn lowercased(text: Seq<char>) -> Seq<char> {
    Seq::new(text.len(), |i: int| lower_char(text[i]))
}

/// The ASCII bytes of `text`.
pub open spec fn ascii_bytes(text: Seq<char>) -> Seq<u8> {
    Seq::new(text.len(), |i: int| text[i] as u8)
}

/// The text whose characters are the ASCII `bytes`.
pub open spec fn ascii_text(bytes: Seq<u8>) -> Seq<char> {
    Seq::new(bytes.len(), |i: int| bytes[i] as char)
}

/// `digits` with a capital in place of each lowercase letter whose four
/// bits of `hash` are eight or more.
pub open spec fn cased(digits: Seq<u8>, hash: Seq<u8>) -> Seq<u8> {
    Seq::new(
        digits.len(),
        |i: int|
            if nibble(hash, i) >= 8 {
                ascii_upper(digits[i])
            } else {
                digits[i]
            },
    )
}

/// The prefix `0x`, then `digits` cased by `hash`.
pub open spec fn cased_text(digits: Seq<u8>, hash: Seq<u8>) -> Seq<char> {
    seq!['0', 'x'] + ascii_text(cased(digits, hash))
}

/// The checksum casing of lowercase hexadecimal `digits`: they are cased by
/// the Keccak-256 digest of their own ASCII bytes.
pub open spec fn checksum_cased(digits: Seq<u8>) -> Seq<char> {
    cased_text(digits, keccak256_digest(digits))
}

/// The checksummed text of the raw address `raw`.
pub open spec fn checksum_text(raw: Seq<u8>) -> Seq<char> {
    checksum_cased(hex_lower(raw))
}

/// Whether `c` is a hexadecimal digit of either case.
pub open spec fn is_hex_char(c: char) -> bool {
    ('0' <= c <= '9') || ('a' <= c <= 'f') || ('A' <= c <= 'F')
}

/// Whether `text` has the shape of an address: `0x` and forty hexadecimal
/// digits.
pub open spec fn is_address_text(text: Seq<char>) -> bool {
    &&& text.len() == 42
    &&& text[0] == '0'
    &&& text[1] == 'x'
    &&& forall|i: int| 2 <= i < 42 ==> is_hex_char(#[trigger] text[i])
}

/// The checksummed text of any 20-byte address is `0x` followed by forty
/// hexadecimal digits.
pub proof fn lemma_checksum_text_shape(raw: Seq<u8>)
    requires
        raw.len() == 20,
    ensures
        is_address_text(checksum_text(raw)),
{
    let text = checksum_text(raw);
    assert forall|i: int| 2 <= i < 42 implies is_hex_char(#[trigger] text[i]) by {
        lemma_rendered_digit(raw, i - 2);
    }
}

/// The casing is a checksum that can be checked again. Write the digits of
/// a checksummed address in lowercase: they are the lowercase digits of the
/// raw address, they read back as the raw address, and casing them anew
/// gives the same text.
pub proof fn lemma_checksum_round_trip(raw: Seq<u8>)
    requires
        raw.len() == 20,
    ensures
        ({
            let lower = ascii_bytes(lowercased(checksum_text(raw).skip(2)));
            &&& lower == hex_lower(raw)
            &&& hex_decoded(lower) == Some(raw)
            &&& checksum_cased(lower) == checksum_text(raw)
        }),
{
    let digits = hex_lower(raw);
    let lower = ascii_bytes(lowercased(checksum_text(raw).skip(2)));
    assert forall|i: int| 0 <= i < 40 implies lower[i] == digits[i] by {
        lemma_rendered_digit(raw, i);
    }
    assert(lower =~= digits);
    lemma_reading_undoes_rendering(raw);
}

/// The text of an address stands for the address: read as hexadecimal,
/// prefix and capitals included, it gives the raw bytes back.
pub proof fn lemma_address_text_reads_back(raw: Seq<u8>)
    requires
        raw.len() == 20,
    ensures
        hex_decoded(ascii_bytes(checksum_text(raw))) == Some(raw),
{
    let text = ascii_bytes(checksum_text(raw));
    let digits = text.skip(2);
    assert(without_prefix(text) == digits);
    assert forall|i: int| 0 <= i < 40 implies hex_value(#[trigger] digits[i]) == Some(
        nibble(raw, i) as u8,
    ) by {
        lemma_rendered_digit(raw, i);
    }
    let read = hex_decoded(text).unwrap();
    assert forall|j: int| 0 <= j < 20 implies read[j] == raw[j] by {
        assert(hex_value(digits[2 * j]) == Some(nibble(raw, 2 * j) as u8));
        assert(hex_value(digits[2 * j + 1]) == Some(nibble(raw, 2 * j + 1) as u8));
    }
    assert(read =~= raw);
}

/// `String::push` of std appends the one character to the string and
/// leaves what was there in place.
pub assume_specification[ String::push ](s: &mut String, c: char)
    ensures
        final(s)@ == old(s)@.push(c),
;

/// Writes `0x` and then `digits`, with a capital in place of each lowercase
/// letter whose four bits of `hash` are eight or more. A digest has
/// sixty-four such groups, so that is the most digits it can case.
pub fn case_digits(digits: &[u8], hash: &[u8; 32]) -> (text: String)
    requires
        digits@.len() <= 64,
    ensures
        text@ == cased_text(digits@, hash@),
{
    let mut text = String::new();
    text.push('0');
    text.push('x');
    let mut i: usize = 0;
    while i < digits.len()
        invariant
            i <= digits@.len() <= 64,
            text@.len() == 2 + i,
            text@[0] == '0',
            text@[1] == 'x',
            forall|k: int| 0 <= k < i ==> text@[2 + k] == cased(digits@, hash@)[k] as char,
        decreases digits@.len() - i,
    {
        let digit: u8 = digits[i];
        let byte: u8 = hash[i / 2];
        let bits: u8 = if i % 2 == 0 {
            byte / 16
        } else {
            byte % 16
        };
        let out: u8 = if bits >= 8 && LOWER_A <= digit && digit <= LOWER_Z {
            digit - CASE_GAP
        } else {
            digit
        };
        text.push(out as char);
        i += 1;
    }
    assert(text@ =~= cased_text(digits@, hash@));
    text
}

/// Renders the raw address `raw` as checksummed text: `0x`, then its forty
/// hexadecimal digits, the letters among them in the case that the
/// Keccak-256 digest of the lowercase digits gives them.
pub fn to_checksum_address(raw: &[u8; 20]) -> (text: String)
    ensures
        text@ == checksum_text(raw@),
        is_address_text(text@),
{
    let digits = encode_lower(raw.as_slice());
    let hash = keccak256(digits.as_slice());
    proof {
        lemma_checksum_text_shape(raw@);
    }
    case_digits(digits.as_slice(), &hash)
}

} // verus!
