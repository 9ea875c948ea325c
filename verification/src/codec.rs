//! Text encodings at the boundary of the core: hexadecimal, unpadded
//! base64url, UTF-8 and big-endian integers.
//!
//! The encoders and decoders themselves come from the `hex`, `base64` and
//! `byteorder` crates and from `core`; this module states what they compute
//! and turns their errors into [`LCoreError`].

use crate::error::LCoreError;
use vstd::prelude::*;
use vstd::string::StringSliceAdditionalSpecFns;
use vstd::utf8::valid_utf8;

verus! {

#[verifier::external_type_specification]
#[verifier::external_body]
pub struct ExFromHexError(hex::FromHexError);

#[verifier::external_type_specification]
#[verifier::external_body]
pub struct ExBase64DecodeError(base64::DecodeError);

#[verifier::external_type_specification]
#[verifier::external_body]
pub struct ExUtf8Error(core::str::Utf8Error);

/// Value of one hexadecimal digit, upper or lower case.
pub open spec fn hex_digit_value(c: u8) -> Option<u8> {
    if 0x30 <= c <= 0x39 {
        Some((c - 0x30) as u8)
    } else if 0x41 <= c <= 0x46 {
        Some((c - 0x41 + 10) as u8)
    } else if 0x61 <= c <= 0x66 {
        Some((c - 0x61 + 10) as u8)
    } else {
        None
    }
}

/// `text` is an even number of hexadecimal digits.
pub open spec fn is_hex_text(text: Seq<u8>) -> bool {
    text.len() % 2 == 0 && forall|i: int|
        0 <= i < text.len() ==> (#[trigger] hex_digit_value(text[i])) is Some
}

/// The bytes that hexadecimal `text` denotes, two digits to a byte, the high
/// digit first; `None` unless `text` is an even number of digits.
pub open spec fn spec_hex_decode(text: Seq<u8>) -> Option<Seq<u8>> {
    if is_hex_text(text) {
        Some(
            Seq::new(
                text.len() / 2,
                |i: int|
                    (hex_digit_value(text[2 * i]).unwrap() * 16 + hex_digit_value(
                        text[2 * i + 1],
                    ).unwrap()) as u8,
            ),
        )
    } else {
        None
    }
}

/// The sixteen lower-case hexadecimal digits in order.
pub open spec fn hex_alphabet() -> Seq<char> {
    seq!['0', '1', '2', '3', '4', '5', '6', '7', '8', '9', 'a', 'b', 'c', 'd', 'e', 'f']
}

/// Lower-case hexadecimal text of `data`: two digits per byte, high digit
/// first.
pub open spec fn spec_hex_encode(data: Seq<u8>) -> Seq<char> {
    Seq::new(
        2 * data.len(),
        |i: int|
            if i % 2 == 0 {
                hex_alphabet()[data[i / 2] as int / 16]
            } else {
                hex_alphabet()[data[i / 2] as int % 16]
            },
    )
}

/// The eight bytes of `n`, most significant first.
pub open spec fn u64_be_bytes(n: u64) -> Seq<u8> {
    seq![
        (n >> 56) as u8,
        ((n >> 48) & 0xff) as u8,
        ((n >> 40) & 0xff) as u8,
        ((n >> 32) & 0xff) as u8,
        ((n >> 24) & 0xff) as u8,
        ((n >> 16) & 0xff) as u8,
        ((n >> 8) & 0xff) as u8,
        (n & 0xff) as u8,
    ]
}

/// What decoding `text` as base64 gives under the URL-safe alphabet, with
/// padding forbidden and non-canonical trailing bits rejected; `None` when
/// the decoder rejects `text`.
pub uninterp spec fn base64url_decode(text: Seq<u8>) -> Option<Seq<u8>>;

/// `hex::decode`: accepts exactly the texts of an even number of hexadecimal
/// digits, in either case, and returns the bytes they denote.
#[verifier::external_body]
pub(crate) fn hex_decode_raw(text: &[u8]) -> (res: Result<Vec<u8>, hex::FromHexError>)
    ensures
        match res {
            Ok(bytes) => spec_hex_decode(text@) == Some(bytes@),
            Err(_) => spec_hex_decode(text@) is None,
        },
{
    hex::decode(text)
}

/// `hex::encode`: the lower-case hexadecimal text of `data`.
#[verifier::external_body]
pub(crate) fn hex_encode_raw(data: &[u8]) -> (text: String)
    ensures
        text@ == spec_hex_encode(data@),
{
    hex::encode(data)
}

/// `Engine::decode` of `base64::engine::general_purpose::URL_SAFE_NO_PAD`:
/// the result is a function of the text alone, named [`base64url_decode`].
#[verifier::external_body]
pub(crate) fn base64url_decode_raw(text: &[u8]) -> (res: Result<Vec<u8>, base64::DecodeError>)
    ensures
        match res {
            Ok(bytes) => base64url_decode(text@) == Some(bytes@),
            Err(_) => base64url_decode(text@) is None,
        },
{
    base64::Engine::decode(&base64::engine::general_purpose::URL_SAFE_NO_PAD, text)
}

/// `core::str::from_utf8`: succeeds exactly on well-formed UTF-8 and then
/// returns the same bytes viewed as text.
#[verifier::external_body]
pub(crate) fn from_utf8_raw(bytes: &[u8]) -> (res: Result<&str, core::str::Utf8Error>)
    ensures
        match res {
            Ok(text) => valid_utf8(bytes@) && text.spec_bytes() == bytes@,
            Err(_) => !valid_utf8(bytes@),
        },
{
    core::str::from_utf8(bytes)
}

/// `byteorder::ByteOrder::write_u64` for `BigEndian`, on a buffer of
/// exactly eight bytes.
#[verifier::external_body]
pub(crate) fn u64_to_be_bytes(n: u64) -> (bytes: [u8; 8])
    ensures
        bytes@ == u64_be_bytes(n),
{
    let mut bytes = [0u8; 8];
    <byteorder::BigEndian as byteorder::ByteOrder>::write_u64(&mut bytes, n);
    bytes
}

/// Decodes hexadecimal text.
pub fn decode_hex(text: &[u8]) -> (res: Result<Vec<u8>, LCoreError>)
    ensures
        match res {
            Ok(bytes) => spec_hex_decode(text@) == Some(bytes@),
            Err(e) => spec_hex_decode(text@) is None && e == LCoreError::HexDecode,
        },
{
    match hex_decode_raw(text) {
        Ok(bytes) => Ok(bytes),
        Err(_) => Err(LCoreError::HexDecode),
    }
}

/// Views well-formed UTF-8 bytes as text.
pub fn decode_utf8(bytes: &[u8]) -> (res: Result<&str, LCoreError>)
    ensures
        match res {
            Ok(text) => valid_utf8(bytes@) && text.spec_bytes() == bytes@,
            Err(e) => !valid_utf8(bytes@) && e == LCoreError::Utf8,
        },
{
    match from_utf8_raw(bytes) {
        Ok(text) => Ok(text),
        Err(_) => Err(LCoreError::Utf8),
    }
}

} // verus!
