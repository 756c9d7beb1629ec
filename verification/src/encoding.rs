//! Base64, hexadecimal digits, SHA-256 and UTF-8.

use base64::{DecodeError, Engine};
use sha2::Digest;
use vstd::prelude::*;

use crate::text;

verus! {

/// Why a text is not the base64 form of any bytes.
#[derive(Clone, Copy, Debug, PartialEq, Eq, Structural)]
pub enum Base64Error {
    InvalidByte(usize, u8),
    InvalidLength(usize),
    InvalidLastSymbol(usize, u8),
    InvalidPadding,
}

impl Base64Error {
    /// What is told of the error.
    pub open spec fn told(self) -> Seq<char> {
        match self {
            Base64Error::InvalidByte(offset, byte) => "Invalid symbol "@ + text::digits(
                byte as nat,
            ) + ", offset "@ + text::digits(offset as nat) + "."@,
            Base64Error::InvalidLength(length) => "Invalid input length: "@ + text::digits(
                length as nat,
            ),
            Base64Error::InvalidLastSymbol(offset, byte) => "Invalid last symbol "@ + text::digits(
                byte as nat,
            ) + ", offset "@ + text::digits(offset as nat) + "."@,
            Base64Error::InvalidPadding => "Invalid padding"@,
        }
    }

    /// What is told of the error, in the words of the `base64` crate.
    pub fn message(&self) -> (r: String)
        ensures
            r@ == self.told(),
    {
        match *self {
            Base64Error::InvalidByte(offset, byte) => at_offset("Invalid symbol ", byte, offset),
            Base64Error::InvalidLength(length) => {
                let number = text::decimal(length as u128);
                text::concat("Invalid input length: ", number.as_str())
            },
            Base64Error::InvalidLastSymbol(offset, byte) => at_offset(
                "Invalid last symbol ",
                byte,
                offset,
            ),
            Base64Error::InvalidPadding => "Invalid padding".to_owned(),
        }
    }
}

/// What is told of a byte at an offset.
fn at_offset(what: &str, byte: u8, offset: usize) -> (r: String)
    ensures
        r@ == what@ + text::digits(byte as nat) + ", offset "@ + text::digits(offset as nat) + "."@,
{
    let number = text::decimal(byte as u128);
    let place = text::decimal(offset as u128);
    let mut told = text::concat3(what, number.as_str(), ", offset ");
    told.append(place.as_str());
    told.append(".");
    told
}

/// What the `base64` crate's standard alphabet, with padding, makes of bytes.
pub uninterp spec fn base64_text(bytes: Seq<u8>) -> Seq<char>;

/// What the `base64` crate reads out of a text in its standard alphabet, with padding, or why the
/// text is not such an encoding.
pub uninterp spec fn base64_bytes(text: Seq<char>) -> Result<Seq<u8>, Base64Error>;

/// What the `sha2` crate's SHA-256 makes of bytes.
pub uninterp spec fn sha256_digest(bytes: Seq<u8>) -> Seq<u8>;

/// Calls `base64`'s `Engine::encode` on the engine `STANDARD`. The bytes alone decide the text:
/// four characters for every three bytes, the last three filled up; and the same engine reads
/// the same bytes out of it again.
#[verifier::external_body]
pub(crate) fn base64_encode(bytes: &[u8]) -> (text: String)
    ensures
        text@ == base64_text(bytes@),
        text@.len() == (bytes@.len() + 2) / 3 * 4,
        (base64_bytes(text@) == Ok::<Seq<u8>, Base64Error>(bytes@)),
{
    base64::engine::general_purpose::STANDARD.encode(bytes)
}

/// Calls `base64`'s `Engine::decode` on the engine `STANDARD`; the text alone decides whether it
/// is an encoding, of which bytes, and which error is found where it is none.
#[verifier::external_body]
pub(crate) fn base64_decode(text: &str) -> (bytes: Result<Vec<u8>, Base64Error>)
    ensures
        match bytes {
            Ok(read) => base64_bytes(text@) == Ok::<Seq<u8>, Base64Error>(read@),
            Err(error) => base64_bytes(text@) == Err::<Seq<u8>, Base64Error>(error),
        },
{
    base64::engine::general_purpose::STANDARD.decode(text).map_err(|error| match error {
        DecodeError::InvalidByte(offset, byte) => Base64Error::InvalidByte(offset, byte),
        DecodeError::InvalidLength(length) => Base64Error::InvalidLength(length),
        DecodeError::InvalidLastSymbol(offset, byte) => Base64Error::InvalidLastSymbol(offset, byte),
        DecodeError::InvalidPadding => Base64Error::InvalidPadding,
    })
}

/// Calls `sha2`'s `Sha256::digest`: 32 bytes, which the input alone decides.
#[verifier::external_body]
pub(crate) fn sha256(bytes: &[u8]) -> (digest: Vec<u8>)
    ensures
        digest@ == sha256_digest(bytes@),
        digest@.len() == 32,
{
    sha2::Sha256::digest(bytes).to_vec()
}

/// The hexadecimal digit of a number below sixteen.
pub open spec fn hex_digit(d: int) -> char {
    if d < 10 {
        (('0' as int) + d) as char
    } else {
        (('a' as int) + d - 10) as char
    }
}

/// Two lower-case hexadecimal digits for each byte.
pub open spec fn hex_text(bytes: Seq<u8>) -> Seq<char> {
    Seq::new(
        2 * bytes.len(),
        |i: int|
            if i % 2 == 0 {
                hex_digit(bytes[i / 2] as int / 16)
            } else {
                hex_digit(bytes[i / 2] as int % 16)
            },
    )
}

/// Calls `hex::encode`: two lower-case hexadecimal digits for each byte, the upper half first.
#[verifier::external_body]
pub(crate) fn hex_encode(bytes: &[u8]) -> (text: String)
    ensures
        text@ == hex_text(bytes@),
{
    hex::encode(bytes)
}

/// Calls `String::from_utf8`: the text that the bytes encode, where they are valid UTF-8.
#[verifier::external_body]
pub(crate) fn string_from_utf8(bytes: Vec<u8>) -> (text: Option<String>)
    ensures
        text is Some <==> vstd::utf8::valid_utf8(bytes@),
        text is Some ==> text->0@ == vstd::utf8::decode_utf8(bytes@),
{
    String::from_utf8(bytes).ok()
}

/// The SHA-256 of a text's UTF-8 bytes, in hexadecimal digits.
pub open spec fn digest_text(text: Seq<char>) -> Seq<char> {
    hex_text(sha256_digest(vstd::utf8::encode_utf8(text)))
}

/// The SHA-256 of a text's UTF-8 bytes, in hexadecimal digits.
pub fn digest_of(text: &str) -> (r: String)
    ensures
        r@ == digest_text(text@),
        r@.len() == 64,
{
    hex_encode(&sha256(text.as_bytes()))
}

/// A digest is written in two lower-case hexadecimal digits for each of its 32 bytes.
pub proof fn digests_are_written_in_hexadecimal(text: &str, r: String)
    requires
        call_ensures(digest_of, (text,), r),
    ensures
        r@.len() == 64,
        r@ == hex_text(sha256_digest(vstd::utf8::encode_utf8(text@))),
{
}

/// Two hexadecimal digits stand for one byte: the first for its sixteens, the second for the rest.
pub proof fn hexadecimal_digits_stand_for_bytes(bytes: Seq<u8>, i: int)
    requires
        0 <= i < bytes.len(),
    ensures
        hex_text(bytes).len() == 2 * bytes.len(),
        ({
            let high = hex_text(bytes)[2 * i];
            let low = hex_text(bytes)[2 * i + 1];
            let value = |c: char| if c <= '9' { c as int - 48 } else { c as int - 87 };
            &&& ('0' <= high && high <= '9') || ('a' <= high && high <= 'f')
            &&& ('0' <= low && low <= '9') || ('a' <= low && low <= 'f')
            &&& bytes[i] == value(high) * 16 + value(low)
        }),
{
}

/// An error in base64 is told with the byte and the place that it was found at.
pub proof fn base64_errors_are_told(error: Base64Error, r: String)
    requires
        call_ensures(Base64Error::message, (&error,), r),
    ensures
        error matches Base64Error::InvalidByte(offset, byte) ==> r@ == "Invalid symbol "@
            + text::digits(byte as nat) + ", offset "@ + text::digits(offset as nat) + "."@,
        error matches Base64Error::InvalidLength(length) ==> r@ == "Invalid input length: "@
            + text::digits(length as nat),
        error matches Base64Error::InvalidLastSymbol(offset, byte) ==> r@ == "Invalid last symbol "@
            + text::digits(byte as nat) + ", offset "@ + text::digits(offset as nat) + "."@,
        error is InvalidPadding ==> r@ == "Invalid padding"@,
{
}

} // verus!
