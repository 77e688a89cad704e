//! Text forms of bytes and numbers: lower-case hex, UUID strings, decimal numbers,
//! UTF-8 checks, and the random numbers that identify RTP streams.

use vstd::prelude::*;
use vstd::utf8::*;
use rand::RngCore;

verus! {

/// The lower-case hex digit for a value below 16.
pub open spec fn hex_digit(n: u8) -> char {
    if n < 10 {
        ((48 + n) as u8) as char
    } else {
        ((87 + n) as u8) as char
    }
}

/// Lower-case hex text of bytes: two digits per byte, the high half first.
pub open spec fn hex_lower(b: Seq<u8>) -> Seq<char>
    decreases b.len(),
{
    if b.len() == 0 {
        Seq::empty()
    } else {
        hex_lower(b.drop_last()) + seq![hex_digit(b.last() / 16), hex_digit(b.last() % 16)]
    }
}

/// The hyphenated lower-case text of a 16-byte UUID: groups of 4, 2, 2, 2 and 6
/// bytes in hex, separated by '-'.
pub open spec fn uuid_text(b: Seq<u8>) -> Seq<char> {
    hex_lower(b.subrange(0, 4)) + seq!['-'] + hex_lower(b.subrange(4, 6)) + seq!['-']
        + hex_lower(b.subrange(6, 8)) + seq!['-'] + hex_lower(b.subrange(8, 10)) + seq!['-']
        + hex_lower(b.subrange(10, 16))
}

/// Decimal text of a number, without leading zeros ("0" for zero).
pub open spec fn decimal(n: nat) -> Seq<char>
    decreases n,
{
    if n < 10 {
        seq![((48 + n) as u8) as char]
    } else {
        decimal(n / 10) + seq![((48 + n % 10) as u8) as char]
    }
}

/// Calls `hex::encode`, which writes each byte as two lower-case hex digits, the high
/// half first (its source maps each half through the table "0123456789abcdef").
#[verifier::external_body]
pub(crate) fn hex_encode(data: &[u8]) -> (r: String)
    ensures
        r@ == hex_lower(data@),
{
    hex::encode(data)
}

/// Calls `u32::to_string`, which writes the number in decimal, without leading zeros.
#[verifier::external_body]
pub(crate) fn decimal_text(n: u32) -> (r: String)
    ensures
        r@ == decimal(n as nat),
{
    n.to_string()
}

/// Calls `uuid::Uuid::from_bytes` and then `to_string`, which writes the UUID in its
/// hyphenated lower-case form (`format_hyphenated` in the crate's source).
#[verifier::external_body]
pub(crate) fn uuid_hyphenated(bytes: [u8; 16]) -> (r: String)
    ensures
        r@ == uuid_text(bytes@),
{
    uuid::Uuid::from_bytes(bytes).to_string()
}

/// Calls `uuid::Uuid::to_u128_le` and then `u128::to_le_bytes`. The crate computes the
/// first as `u128::from_le_bytes` of the UUID's bytes, which the second undoes, so the
/// bytes come back unchanged.
#[verifier::external_body]
pub(crate) fn uuid_le_bytes(bytes: [u8; 16]) -> (r: Vec<u8>)
    ensures
        r@ == bytes@,
{
    uuid::Uuid::from_bytes(bytes).to_u128_le().to_le_bytes().to_vec()
}

/// Calls `String::from_utf8`, which succeeds exactly on valid UTF-8 and then holds
/// the text whose UTF-8 encoding is the given bytes.
#[verifier::external_body]
pub(crate) fn utf8_text(bytes: &Vec<u8>) -> (r: Option<String>)
    ensures
        r is Some <==> valid_utf8(bytes@),
        r matches Some(s) ==> encode_utf8(s@) == bytes@,
{
    String::from_utf8(bytes.clone()).ok()
}

/// Draws four bytes from `rand::thread_rng` and reads them as a little-endian `u32`.
/// Nothing is stated of the value: it is random.
#[verifier::external_body]
pub(crate) fn random_u32() -> u32 {
    let mut data = [0u8; 4];
    rand::thread_rng().fill_bytes(&mut data);
    u32::from_le_bytes(data)
}

} // verus!
