//! Decoding `0x`-prefixed hexadecimal text into the string its bytes spell,
//! used to render the return data the execution engine reports.

use vstd::prelude::*;
use vstd::utf8::{decode_utf8, valid_utf8};

verus! {

/// Whether `c` is a hexadecimal digit, either case.
pub open spec fn is_hex_digit_char(c: char) -> bool {
    ('0' <= c && c <= '9') || ('a' <= c && c <= 'f') || ('A' <= c && c <= 'F')
}

/// The numeric value of the hexadecimal digit `c`.
pub open spec fn hex_char_value(c: char) -> int
    recommends
        is_hex_digit_char(c),
{
    if '0' <= c && c <= '9' {
        c as int - '0' as int
    } else if 'a' <= c && c <= 'f' {
        c as int - 'a' as int + 10
    } else {
        c as int - 'A' as int + 10
    }
}

/// Whether `s` is decodable hexadecimal: even length, hexadecimal digits only.
pub open spec fn hex_valid(s: Seq<char>) -> bool {
    s.len() % 2 == 0 && forall|i: int| 0 <= i < s.len() ==> is_hex_digit_char(s[i])
}

/// The bytes `s` spells, one byte per digit pair, high digit first.
pub open spec fn hex_bytes(s: Seq<char>) -> Seq<u8>
    recommends
        hex_valid(s),
{
    Seq::new(
        s.len() / 2,
        |i: int| (hex_char_value(s[2 * i]) * 16 + hex_char_value(s[2 * i + 1])) as u8,
    )
}

#[verifier::external_type_specification]
#[verifier::external_body]
pub struct ExFromHexError(hex::FromHexError);

/// Relies on hex::decode: it succeeds exactly on an even-length string of
/// hexadecimal digits (either case) and yields one byte per digit pair, the
/// first digit of each pair giving the byte's high four bits.
#[verifier::external_body]
fn hex_decode(s: &str) -> (r: Result<Vec<u8>, hex::FromHexError>)
    ensures
        match r {
            Ok(b) => hex_valid(s@) && b@ == hex_bytes(s@),
            Err(_) => !hex_valid(s@),
        },
{
    hex::decode(s)
}

/// Relies on String::from_utf8: it succeeds exactly on a valid UTF-8 byte
/// sequence and returns the string those bytes encode.
#[verifier::external_body]
fn utf8_to_string(bytes: Vec<u8>) -> (r: Option<String>)
    ensures
        match r {
            Some(s) => valid_utf8(bytes@) && s@ == decode_utf8(bytes@),
            None => !valid_utf8(bytes@),
        },
{
    String::from_utf8(bytes).ok()
}

/// Why hexadecimal text could not be rendered as a string.
#[derive(Debug, Clone, Copy, PartialEq, Eq, Structural)]
pub enum HexTextError {
    /// The text after the prefix is not even-length hexadecimal.
    InvalidHex,
    /// The decoded bytes are not valid UTF-8.
    InvalidUtf8,
}

/// Decodes `0x`-prefixed hexadecimal text into the string its bytes spell:
/// the two prefix characters are dropped, the rest is read as hexadecimal,
/// and the resulting bytes are decoded as UTF-8.
pub fn hex_to_string(hex: &str) -> (r: Result<String, HexTextError>)
    requires
        hex@.len() >= 2,
    ensures
        match r {
            Ok(s) => hex_valid(hex@.skip(2)) && valid_utf8(hex_bytes(hex@.skip(2))) && s@
                == decode_utf8(hex_bytes(hex@.skip(2))),
            Err(HexTextError::InvalidHex) => !hex_valid(hex@.skip(2)),
            Err(HexTextError::InvalidUtf8) => hex_valid(hex@.skip(2)) && !valid_utf8(
                hex_bytes(hex@.skip(2)),
            ),
        },
{
    let len = hex.unicode_len();
    let tail = hex.substring_char(2, len);
    proof {
        assert(tail@ =~= hex@.skip(2));
    }
    match hex_decode(tail) {
        Ok(bytes) => match utf8_to_string(bytes) {
            Some(s) => Ok(s),
            None => Err(HexTextError::InvalidUtf8),
        },
        Err(_) => Err(HexTextError::InvalidHex),
    }
}

} // verus!
