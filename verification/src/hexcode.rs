//! Decoding of hexadecimal text, by the `hex` crate.
use vstd::prelude::*;

verus! {

/// Why hexadecimal text could not be decoded.
#[derive(Debug, Clone, Copy, PartialEq, Eq, Structural)]
pub enum HexError {
    /// A byte that is not a hexadecimal digit, and its position.
    InvalidHexCharacter { c: char, index: usize },
    /// An odd number of digits.
    OddLength,
    /// A length that does not fit the output.
    InvalidStringLength,
}

/// `0`–`9`, `A`–`F` or `a`–`f`.
pub open spec fn is_hex_digit(b: u8) -> bool {
    (48 <= b <= 57) || (65 <= b <= 70) || (97 <= b <= 102)
}

/// The value of a hexadecimal digit.
pub open spec fn hex_digit_value(b: u8) -> int {
    if 48 <= b <= 57 {
        b - 48
    } else if 65 <= b <= 70 {
        b - 55
    } else {
        b - 87
    }
}

/// The bytes that pairs of hexadecimal digits stand for, high digit first.
pub open spec fn hex_bytes(d: Seq<u8>) -> Seq<u8> {
    Seq::new(d.len() / 2, |i: int| (16 * hex_digit_value(d[2 * i]) + hex_digit_value(d[2 * i + 1])) as u8)
}

/// Decodes hexadecimal text with `hex::decode`: an odd number of digits is
/// refused as such; otherwise the first byte that is not a hexadecimal digit
/// is reported with its position; otherwise each pair of digits gives one byte.
#[verifier::external_body]
pub(crate) fn hex_decode(data: &[u8]) -> (r: Result<Vec<u8>, HexError>)
    ensures
        data@.len() % 2 == 1 ==> r matches Err(HexError::OddLength),
        data@.len() % 2 == 0 ==> match r {
            Ok(v) => (forall|i: int| 0 <= i < data@.len() ==> is_hex_digit(#[trigger] data@[i])) && v@ == hex_bytes(data@),
            Err(e) => e matches HexError::InvalidHexCharacter { c, index } && {
                &&& index < data@.len()
                &&& !is_hex_digit(data@[index as int])
                &&& c == data@[index as int] as char
                &&& forall|j: int| 0 <= j < index ==> is_hex_digit(#[trigger] data@[j])
            },
        },
{
    match hex::decode(data) {
        Ok(v) => Ok(v),
        Err(hex::FromHexError::InvalidHexCharacter { c, index }) => Err(HexError::InvalidHexCharacter { c, index }),
        Err(hex::FromHexError::OddLength) => Err(HexError::OddLength),
        Err(hex::FromHexError::InvalidStringLength) => Err(HexError::InvalidStringLength),
    }
}

} // verus!
