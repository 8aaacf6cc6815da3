//! Hexadecimal text: the contracts under which the `hex` crate is called.

use vstd::prelude::*;
use vstd::string::*;

verus! {

/// Why a text is no hexadecimal encoding of bytes.
#[derive(Debug, Clone, Copy)]
pub enum HexError {
    /// The byte `c` at `index` is no hexadecimal digit.
    InvalidHexCharacter { c: char, index: usize },
    /// The text has an odd number of digits.
    OddLength,
    /// The text does not have the length that the receiver asks for.
    InvalidStringLength,
}

/// The value of one hexadecimal digit, in either case.
pub open spec fn hex_value(digit: u8) -> Option<u8> {
    if 0x30 <= digit <= 0x39 {
        Some((digit - 0x30) as u8)
    } else if 0x61 <= digit <= 0x66 {
        Some((digit - 0x61 + 10) as u8)
    } else if 0x41 <= digit <= 0x46 {
        Some((digit - 0x41 + 10) as u8)
    } else {
        None
    }
}

/// Every byte of the text is a hexadecimal digit.
pub open spec fn is_hex(text: Seq<u8>) -> bool {
    forall|i: int| 0 <= i < text.len() ==> (#[trigger] hex_value(text[i])) is Some
}

/// The bytes that a text of an even number of hexadecimal digits encodes.
pub open spec fn hex_bytes(text: Seq<u8>) -> Seq<u8> {
    Seq::new(
        text.len() / 2,
        |i: int| (16 * hex_value(text[2 * i]).unwrap() + hex_value(text[2 * i + 1]).unwrap()) as u8,
    )
}

/// What decoding a text gives: the encoded bytes for an even number of
/// hexadecimal digits; else the odd length is reported first, and after it
/// the first byte that is no digit.
pub open spec fn hex_decoding(text: Seq<u8>, result: Result<Vec<u8>, HexError>) -> bool {
    match result {
        Ok(bytes) => text.len() % 2 == 0 && is_hex(text) && bytes@ == hex_bytes(text),
        Err(HexError::OddLength) => text.len() % 2 == 1,
        Err(HexError::InvalidHexCharacter { c, index }) => {
            &&& text.len() % 2 == 0
            &&& index < text.len()
            &&& hex_value(text[index as int]) is None
            &&& c == text[index as int] as char
            &&& is_hex(text.take(index as int))
        },
        Err(HexError::InvalidStringLength) => false,
    }
}

/// Calls `hex::decode`. The crate refuses an odd length before it looks at
/// any digit, then decodes pair by pair and stops at the first byte that is no
/// digit; it never reports a wrong string length for a growable result.
#[verifier::external_body]
pub(crate) fn hex_decode(text: &[u8]) -> (result: Result<Vec<u8>, HexError>)
    ensures
        hex_decoding(text@, result),
{
    match hex::decode(text) {
        Ok(bytes) => Ok(bytes),
        Err(hex::FromHexError::InvalidHexCharacter { c, index }) => Err(
            HexError::InvalidHexCharacter { c, index },
        ),
        Err(hex::FromHexError::OddLength) => Err(HexError::OddLength),
        Err(hex::FromHexError::InvalidStringLength) => Err(HexError::InvalidStringLength),
    }
}

/// Decodes a hexadecimal text: the bytes for an even number of digits, the
/// reason otherwise.
pub fn decode(text: &[u8]) -> (result: Result<Vec<u8>, HexError>)
    ensures
        hex_decoding(text@, result),
        result is Ok <==> text@.len() % 2 == 0 && is_hex(text@),
{
    let result = hex_decode(text);
    proof {
        if let Err(HexError::InvalidHexCharacter { c, index }) = result {
            assert(hex_value(text@[index as int]) is None);
        }
    }
    result
}

/// The lower-case hexadecimal digit of a value below sixteen.
pub open spec fn hex_digit(value: u8) -> char {
    if value == 0 {
        '0'
    } else if value == 1 {
        '1'
    } else if value == 2 {
        '2'
    } else if value == 3 {
        '3'
    } else if value == 4 {
        '4'
    } else if value == 5 {
        '5'
    } else if value == 6 {
        '6'
    } else if value == 7 {
        '7'
    } else if value == 8 {
        '8'
    } else if value == 9 {
        '9'
    } else if value == 10 {
        'a'
    } else if value == 11 {
        'b'
    } else if value == 12 {
        'c'
    } else if value == 13 {
        'd'
    } else if value == 14 {
        'e'
    } else {
        'f'
    }
}

/// The lower-case hexadecimal text of bytes: two digits for each byte, the
/// high one first.
pub open spec fn hex_text(data: Seq<u8>) -> Seq<char> {
    Seq::new(
        2 * data.len(),
        |i: int|
            hex_digit(
                if i % 2 == 0 {
                    data[i / 2] / 16
                } else {
                    data[i / 2] % 16
                },
            ),
    )
}

/// Calls `hex::encode`, which writes each byte as two lower-case digits.
#[verifier::external_body]
pub(crate) fn hex_encode(data: &[u8]) -> (text: String)
    ensures
        text@ == hex_text(data@),
{
    hex::encode(data)
}

/// The text with which the `hex` crate reports an error.
pub uninterp spec fn hex_error_display(error: HexError) -> Seq<char>;

/// The text of an error: two fixed texts for the two errors of length, and
/// for a byte that is no digit the text that the `hex` crate makes of the
/// byte and its place.
pub open spec fn hex_error_words(error: HexError) -> Seq<char> {
    match error {
        HexError::OddLength => "Odd number of digits"@,
        HexError::InvalidStringLength => "Invalid string length"@,
        HexError::InvalidHexCharacter { .. } => hex_error_display(error),
    }
}

/// Formats the error as `hex::FromHexError` displays it. The two errors of
/// length are displayed as fixed texts; the text for a byte that is no digit
/// is a function of the byte and its place.
#[verifier::external_body]
pub(crate) fn hex_error_text(error: HexError) -> (text: String)
    ensures
        text@ == hex_error_display(error),
        error is OddLength ==> text@ == "Odd number of digits"@,
        error is InvalidStringLength ==> text@ == "Invalid string length"@,
{
    match error {
        HexError::InvalidHexCharacter { c, index } => hex::FromHexError::InvalidHexCharacter {
            c,
            index,
        }.to_string(),
        HexError::OddLength => hex::FromHexError::OddLength.to_string(),
        HexError::InvalidStringLength => hex::FromHexError::InvalidStringLength.to_string(),
    }
}

} // verus!
