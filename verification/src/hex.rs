//! Hexadecimal text as ASCII bytes: rendering bytes as lowercase digits and
//! reading digits of either case back into bytes.

use vstd::prelude::*;

verus! {

/// ASCII code of `0`.
pub const DIGIT_ZERO: u8 = 48;

/// ASCII code of `9`.
pub const DIGIT_NINE: u8 = 57;

/// ASCII code of `A`.
pub const UPPER_A: u8 = 65;

/// ASCII code of `F`.
pub const UPPER_F: u8 = 70;

/// ASCII code of `X`.
pub const UPPER_X: u8 = 88;

/// ASCII code of `a`.
pub const LOWER_A: u8 = 97;

/// ASCII code of `f`.
pub const LOWER_F: u8 = 102;

/// ASCII code of `x`.
pub const LOWER_X: u8 = 120;

/// ASCII code of the lowercase hexadecimal digit for `value`.
pub open spec fn hex_digit(value: int) -> u8
    recommends
        0 <= value < 16,
{
    if value < 10 {
        (DIGIT_ZERO + value) as u8
    } else {
        (LOWER_A + (value - 10)) as u8
    }
}

/// The `i`-th group of four bits in `bytes`, the high half of each byte
/// before its low half.
pub open spec fn nibble(bytes: Seq<u8>, i: int) -> int
    recommends
        0 <= i < 2 * bytes.len(),
{
    if i % 2 == 0 {
        bytes[i / 2] as int / 16
    } else {
        bytes[i / 2] as int % 16
    }
}

/// `bytes` written as lowercase hexadecimal, two ASCII digits per byte.
pub open spec fn hex_lower(bytes: Seq<u8>) -> Seq<u8> {
    Seq::new(2 * bytes.len(), |i: int| hex_digit(nibble(bytes, i)))
}

/// What an ASCII hexadecimal digit of either case stands for, and `None`
/// for every other byte.
pub open spec fn hex_value(digit: u8) -> Option<u8> {
    if DIGIT_ZERO <= digit <= DIGIT_NINE {
        Some((digit - DIGIT_ZERO) as u8)
    } else if LOWER_A <= digit <= LOWER_F {
        Some((digit - LOWER_A + 10) as u8)
    } else if UPPER_A <= digit <= UPPER_F {
        Some((digit - UPPER_A + 10) as u8)
    } else {
        None
    }
}

/// `text` without a leading `0x` or `0X`, where it has one.
pub open spec fn without_prefix(text: Seq<u8>) -> Seq<u8> {
    if text.len() >= 2 && text[0] == DIGIT_ZERO && (text[1] == LOWER_X || text[1] == UPPER_X) {
        text.skip(2)
    } else {
        text
    }
}

/// Whether `text` can be read as hexadecimal: an even number of bytes, all
/// of them digits once an optional prefix is set aside.
pub open spec fn is_hex_text(text: Seq<u8>) -> bool {
    &&& text.len() % 2 == 0
    &&& forall|i: int|
        0 <= i < without_prefix(text).len() ==> hex_value(#[trigger] without_prefix(text)[i])
            is Some
}

/// The byte that the `i`-th pair of `digits` stands for.
pub open spec fn pair_value(digits: Seq<u8>, i: int) -> u8
    recommends
        0 <= i && 2 * i + 1 < digits.len(),
        hex_value(digits[2 * i]) is Some,
        hex_value(digits[2 * i + 1]) is Some,
{
    (16 * hex_value(digits[2 * i]).unwrap() + hex_value(digits[2 * i + 1]).unwrap()) as u8
}

/// The bytes that `text` stands for, or `None` where it is not hexadecimal.
pub open spec fn hex_decoded(text: Seq<u8>) -> Option<Seq<u8>> {
    if is_hex_text(text) {
        let digits = without_prefix(text);
        Some(Seq::new(digits.len() / 2, |i: int| pair_value(digits, i)))
    } else {
        None
    }
}

/// Each digit of a lowercase rendering is `0`-`9` or `a`-`f`, and stands
/// for the four bits it was made from.
pub proof fn lemma_rendered_digit(bytes: Seq<u8>, i: int)
    requires
        0 <= i < 2 * bytes.len(),
    ensures
        0 <= nibble(bytes, i) < 16,
        hex_value(hex_lower(bytes)[i]) == Some(nibble(bytes, i) as u8),
        (DIGIT_ZERO <= hex_lower(bytes)[i] <= DIGIT_NINE) || (LOWER_A <= hex_lower(bytes)[i]
            <= LOWER_F),
{
}

/// Reading undoes rendering: the lowercase digits of any bytes are
/// hexadecimal text, and stand for those bytes.
pub proof fn lemma_reading_undoes_rendering(bytes: Seq<u8>)
    ensures
        hex_decoded(hex_lower(bytes)) == Some(bytes),
{
    let text = hex_lower(bytes);
    if text.len() >= 2 {
        lemma_rendered_digit(bytes, 1);
    }
    assert(without_prefix(text) == text);
    assert forall|i: int| 0 <= i < text.len() implies hex_value(#[trigger] text[i]) is Some by {
        lemma_rendered_digit(bytes, i);
    }
    let read = hex_decoded(text).unwrap();
    assert forall|j: int| 0 <= j < bytes.len() implies read[j] == bytes[j] by {
        lemma_rendered_digit(bytes, 2 * j);
        lemma_rendered_digit(bytes, 2 * j + 1);
    }
    assert(read =~= bytes);
}

fn digit_for(value: u8) -> (digit: u8)
    requires
        value < 16,
    ensures
        digit == hex_digit(value as int),
{
    if value < 10 {
        DIGIT_ZERO + value
    } else {
        LOWER_A + (value - 10)
    }
}

fn value_of(digit: u8) -> (value: Option<u8>)
    ensures
        value == hex_value(digit),
        value matches Some(v) ==> v < 16,
{
    if DIGIT_ZERO <= digit && digit <= DIGIT_NINE {
        Some(digit - DIGIT_ZERO)
    } else if LOWER_A <= digit && digit <= LOWER_F {
        Some(digit - LOWER_A + 10)
    } else if UPPER_A <= digit && digit <= UPPER_F {
        Some(digit - UPPER_A + 10)
    } else {
        None
    }
}

/// Renders `bytes` as lowercase hexadecimal digits.
pub fn encode_lower(bytes: &[u8]) -> (digits: Vec<u8>)
    ensures
        digits@ == hex_lower(bytes@),
{
    let mut digits: Vec<u8> = Vec::new();
    let mut i: usize = 0;
    while i < bytes.len()
        invariant
            i <= bytes.len(),
            digits@.len() == 2 * i,
            forall|k: int| 0 <= k < 2 * i ==> digits@[k] == hex_digit(nibble(bytes@, k)),
        decreases bytes.len() - i,
    {
        let byte: u8 = bytes[i];
        digits.push(digit_for(byte / 16));
        digits.push(digit_for(byte % 16));
        i += 1;
    }
    digits
}

/// Reads hexadecimal `text`, given as ASCII bytes, into the bytes it stands
/// for. Digits of both cases are taken, and a leading `0x` is skipped.
/// Text of odd length, or with a byte that is no digit, gives `None`.
pub fn decode_hex(text: &[u8]) -> (bytes: Option<Vec<u8>>)
    ensures
        match bytes {
            Some(b) => hex_decoded(text@) == Some(b@),
            None => hex_decoded(text@) is None,
        },
{
    let n: usize = text.len();
    if n % 2 != 0 {
        return None;
    }
    let digits: &[u8] = if n >= 2 && text[0] == DIGIT_ZERO && (text[1] == LOWER_X || text[1]
        == UPPER_X) {
        &text[2..n]
    } else {
        text
    };
    let pairs: usize = digits.len() / 2;
    let mut bytes: Vec<u8> = Vec::new();
    let mut i: usize = 0;
    while i < pairs
        invariant
            digits@ == without_prefix(text@),
            digits@.len() == 2 * pairs,
            text@.len() % 2 == 0,
            i <= pairs,
            bytes@.len() == i,
            forall|k: int| 0 <= k < 2 * i ==> hex_value(#[trigger] digits@[k]) is Some,
            forall|j: int| 0 <= j < i ==> bytes@[j] == pair_value(digits@, j),
        decreases pairs - i,
    {
        match (value_of(digits[2 * i]), value_of(digits[2 * i + 1])) {
            (Some(high), Some(low)) => {
                bytes.push(16 * high + low);
            },
            _ => {
                return None;
            },
        }
        i += 1;
    }
    assert(bytes@ =~= hex_decoded(text@).unwrap());
    Some(bytes)
}

} // verus!
