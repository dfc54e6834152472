//! Outside codecs: base64, CRC-32 and decimal numbers of 128 bits.
//!
//! What these return takes pages to state and depends on the arguments alone,
//! so each result has a name, and contracts speak of the name.

use base64::Engine;
use vstd::prelude::*;

verus! {

/// The standard base64 form, with padding, of some bytes.
pub uninterp spec fn base64_text(bytes: Seq<u8>) -> Seq<char>;

/// The bytes that a standard base64 text with padding stands for, or, where it
/// is none, the description of the error.
pub uninterp spec fn base64_decoded(text: Seq<char>) -> Result<Seq<u8>, Seq<char>>;

/// The bytes that a standard base64 text with padding stands for, where it is
/// one.
pub open spec fn base64_bytes(text: Seq<char>) -> Option<Seq<u8>> {
    match base64_decoded(text) {
        Ok(b) => Some(b),
        Err(_) => None,
    }
}

/// The CRC-32 checksum of some bytes.
pub uninterp spec fn crc32_of(bytes: Seq<u8>) -> u32;

/// The sixteen bytes of the decimal number that a text stands for, where it
/// is one that 128 bits can hold.
pub uninterp spec fn decimal128_of(text: Seq<char>) -> Option<Seq<u8>>;

/// How the decimal number of sixteen bytes is written.
pub uninterp spec fn decimal128_text(bytes: Seq<u8>) -> Seq<char>;

/// Calls `base64::Engine::encode` with the `STANDARD` engine. Decoding the
/// result gives the bytes back.
#[verifier::external_body]
pub(crate) fn base64_encode(bytes: &Vec<u8>) -> (r: String)
    ensures
        r@ == base64_text(bytes@),
        base64_bytes(r@) == Some(bytes@),
{
    base64::engine::general_purpose::STANDARD.encode(bytes)
}

/// Calls `base64::Engine::decode` with the `STANDARD` engine, and hands out the
/// description of its error where it fails.
#[verifier::external_body]
pub(crate) fn base64_decode(text: &str) -> (r: Result<Vec<u8>, String>)
    ensures
        match r {
            Ok(v) => base64_decoded(text@) == Ok::<Seq<u8>, Seq<char>>(v@),
            Err(e) => base64_decoded(text@) == Err::<Seq<u8>, Seq<char>>(e@),
        },
{
    base64::engine::general_purpose::STANDARD.decode(text).map_err(|e| e.to_string())
}

/// Calls `crc32fast::hash`.
#[verifier::external_body]
pub(crate) fn crc32(bytes: &[u8]) -> (r: u32)
    ensures
        r == crc32_of(bytes@),
{
    crc32fast::hash(bytes)
}

/// Calls `bson::Decimal128::from_str` and hands out the bytes of the number;
/// `None` stands for its error.
#[verifier::external_body]
pub(crate) fn parse_decimal128(text: &str) -> (r: Option<Vec<u8>>)
    ensures
        match r {
            Some(v) => decimal128_of(text@) == Some(v@) && v@.len() == 16,
            None => decimal128_of(text@) is None,
        },
{
    text.parse::<bson::Decimal128>().ok().map(|d| d.bytes().to_vec())
}

/// Calls `bson::Decimal128::from_bytes` and writes the number with its
/// `Display`.
#[verifier::external_body]
pub(crate) fn show_decimal128(bytes: &Vec<u8>) -> (r: String)
    requires
        bytes@.len() == 16,
    ensures
        r@ == decimal128_text(bytes@),
{
    let mut number = [0u8; 16];
    number.copy_from_slice(bytes);
    bson::Decimal128::from_bytes(number).to_string()
}

} // verus!
