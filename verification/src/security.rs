//! Secrets at rest, and what may be shown of them.

use aes_gcm::aead::{Aead, KeyInit};
use rand_core::RngCore;
use vstd::prelude::*;

use crate::encoding;
use crate::model;
use crate::model::{refuse, AppResult, INTERNAL_SERVER_ERROR};
use crate::text;

verus! {

/// The most bytes that one sealing takes.
pub const SEAL_LIMIT: u64 = 68_719_476_736;

/// What the `aes-gcm` crate's AES-256-GCM makes of bytes under a key and a nonce.
pub uninterp spec fn sealed(key: Seq<u8>, nonce: Seq<u8>, plain: Seq<u8>) -> Seq<u8>;

/// What the `aes-gcm` crate's AES-256-GCM reads out of sealed bytes under a key and a nonce;
/// nothing where the tag does not fit.
pub uninterp spec fn unsealed(key: Seq<u8>, nonce: Seq<u8>, cipher: Seq<u8>) -> Option<Seq<u8>>;

/// Calls `Aead::encrypt` of `aes_gcm::Aes256Gcm`. It refuses only bytes beyond its limit. Key,
/// nonce and bytes alone decide the result: as many bytes and a tag of sixteen, out of which
/// `decrypt` reads the same bytes again.
#[verifier::external_body]
pub(crate) fn seal(key: &[u8; 32], nonce: &[u8], plain: &[u8]) -> (cipher: Option<Vec<u8>>)
    requires
        nonce@.len() == 12,
    ensures
        cipher is Some <==> plain@.len() <= SEAL_LIMIT,
        cipher matches Some(bytes) ==> {
            &&& bytes@ == sealed(key@, nonce@, plain@)
            &&& bytes@.len() == plain@.len() + 16
            &&& unsealed(key@, nonce@, bytes@) == Some(plain@)
        },
{
    let cipher = aes_gcm::Aes256Gcm::new(key.into());
    cipher.encrypt(aes_gcm::Nonce::from_slice(nonce), plain).ok()
}

/// Calls `Aead::decrypt` of `aes_gcm::Aes256Gcm`; key, nonce and bytes alone decide whether they
/// can be read, and what they say.
#[verifier::external_body]
pub(crate) fn unseal(key: &[u8; 32], nonce: &[u8], cipher: &[u8]) -> (plain: Option<Vec<u8>>)
    requires
        nonce@.len() == 12,
    ensures
        match plain {
            Some(bytes) => unsealed(key@, nonce@, cipher@) == Some(bytes@),
            None => unsealed(key@, nonce@, cipher@) is None,
        },
{
    let opener = aes_gcm::Aes256Gcm::new(key.into());
    opener.decrypt(aes_gcm::Nonce::from_slice(nonce), cipher).ok()
}

/// Calls `RngCore::fill_bytes` of `rand_core::OsRng`: as many bytes as asked for, which chance
/// picks. It panics where the system has no randomness to give.
#[verifier::external_body]
pub(crate) fn random_bytes(count: usize) -> (bytes: Vec<u8>)
    ensures
        bytes@.len() == count,
{
    let mut bytes = vec![0_u8; count];
    rand_core::OsRng.fill_bytes(&mut bytes);
    bytes
}

/// The text that a stored secret holds under a key, or why it cannot be read.
pub open spec fn secret_of(key: Seq<u8>, value: Seq<char>) -> Result<Seq<char>, Seq<char>> {
    match encoding::base64_bytes(value) {
        Err(_) => Err("凭证数据无效"@),
        Ok(payload) => if payload.len() <= 12 {
            Err("凭证数据无效"@)
        } else {
            match unsealed(key, payload.take(12), payload.skip(12)) {
                None => Err("凭证解密失败"@),
                Some(bytes) => if vstd::utf8::valid_utf8(bytes) {
                    Ok(vstd::utf8::decode_utf8(bytes))
                } else {
                    Err("凭证数据无效"@)
                },
            }
        },
    }
}

/// The stored form of a secret under a key and a nonce: nonce and sealed bytes in base64.
pub open spec fn stored_secret(key: Seq<u8>, nonce: Seq<u8>, value: Seq<char>) -> Seq<char> {
    encoding::base64_text(nonce + sealed(key, nonce, vstd::utf8::encode_utf8(value)))
}

/// The stored form of a secret, under a given nonce. What is stored can be read again, and is
/// not the secret itself.
pub fn seal_secret(key: &[u8; 32], value: &str, nonce: &[u8]) -> (r: AppResult<String>)
    requires
        nonce@.len() == 12,
    ensures
        if vstd::utf8::encode_utf8(value@).len() <= SEAL_LIMIT {
            &&& r matches Ok(stored)
            &&& stored@ == stored_secret(key@, nonce@, value@)
            &&& secret_of(key@, stored@) == Ok::<Seq<char>, Seq<char>>(value@)
            &&& stored@ != value@
        } else {
            model::refused(r, INTERNAL_SERVER_ERROR, "凭证加密失败"@)
        },
{
    let plain = value.as_bytes();
    match seal(key, nonce, plain) {
        None => refuse(INTERNAL_SERVER_ERROR, "凭证加密失败"),
        Some(cipher) => {
            let mut payload: Vec<u8> = Vec::new();
            payload.extend_from_slice(nonce);
            payload.extend_from_slice(&cipher);
            assert(payload@ == nonce@ + cipher@);
            let stored = encoding::base64_encode(&payload);
            proof {
                assert(payload@.take(12) == nonce@);
                assert(payload@.skip(12) == cipher@);
                text::bytes_cover_characters(value@);
                assert(stored@.len() > value@.len());
                vstd::utf8::encode_utf8_valid_utf8(value@);
                vstd::utf8::encode_utf8_decode_utf8(value@);
            }
            Ok(stored)
        },
    }
}

/// The stored form of a secret, under a fresh nonce. What is stored can be read again, and is
/// not the secret itself.
pub fn encrypt_secret(key: &[u8; 32], value: &str) -> (r: AppResult<String>)
    ensures
        if vstd::utf8::encode_utf8(value@).len() <= SEAL_LIMIT {
            &&& r matches Ok(stored)
            &&& secret_of(key@, stored@) == Ok::<Seq<char>, Seq<char>>(value@)
            &&& stored@ != value@
            &&& exists|nonce: Seq<u8>|
                nonce.len() == 12 && stored@ == #[trigger] stored_secret(key@, nonce, value@)
        } else {
            model::refused(r, INTERNAL_SERVER_ERROR, "凭证加密失败"@)
        },
{
    let nonce = random_bytes(12);
    seal_secret(key, value, &nonce)
}

/// The secret that a stored form holds, where the key fits.
pub fn decrypt_secret(key: &[u8; 32], value: &str) -> (r: AppResult<String>)
    ensures
        match secret_of(key@, value@) {
            Ok(secret) => r matches Ok(read) && read@ == secret,
            Err(message) => model::refused(r, INTERNAL_SERVER_ERROR, message),
        },
{
    match encoding::base64_decode(value) {
        Err(_) => refuse(INTERNAL_SERVER_ERROR, "凭证数据无效"),
        Ok(payload) => {
            if payload.len() <= 12 {
                return refuse(INTERNAL_SERVER_ERROR, "凭证数据无效");
            }
            let mut nonce: Vec<u8> = payload;
            let ghost whole = nonce@;
            let cipher = nonce.split_off(12);
            assert(nonce@ == whole.take(12));
            assert(cipher@ == whole.skip(12));
            match unseal(key, &nonce, &cipher) {
                None => refuse(INTERNAL_SERVER_ERROR, "凭证解密失败"),
                Some(bytes) => match encoding::string_from_utf8(bytes) {
                    None => refuse(INTERNAL_SERVER_ERROR, "凭证数据无效"),
                    Some(secret) => Ok(secret),
                },
            }
        },
    }
}

/// The form in which an API key is kept: the SHA-256 of its UTF-8 bytes, in hexadecimal digits.
pub fn hash_api_key(value: &str) -> (r: String)
    ensures
        r@ == encoding::digest_text(value@),
{
    encoding::digest_of(value)
}

/// What stands for the hidden part of a key.
pub const MASK: &'static str = "••••••••••••";

/// A key with only its ends shown.
pub open spec fn masked(prefix: Seq<char>, suffix: Seq<char>) -> Seq<char> {
    prefix + MASK@ + suffix
}

/// A key with only its ends shown.
pub fn mask_key(prefix: &str, suffix: &str) -> (r: String)
    ensures
        r@ == masked(prefix@, suffix@),
{
    text::concat3(prefix, MASK, suffix)
}

/// How many characters of a key are shown at its two ends.
pub open spec fn shown_lengths(length: int) -> (int, int) {
    if length > 13 {
        (9, 4)
    } else if length > 4 {
        (2, 2)
    } else {
        (0, 0)
    }
}

/// The first and the last characters of a key, as far as they may be shown.
pub fn key_parts(value: &str) -> (r: (String, String))
    ensures
        r.0@ == value@.take(shown_lengths(value@.len() as int).0),
        r.1@ == value@.skip(value@.len() - shown_lengths(value@.len() as int).1),
{
    let chars = text::characters(value);
    let count: usize = chars.len();
    let (front, back): (usize, usize) = if count > 13 {
        (9, 4)
    } else if count > 4 {
        (2, 2)
    } else {
        (0, 0)
    };
    assert(value@.take(front as int) == value@.subrange(0, front as int));
    assert(value@.skip(count - back) == value@.subrange(count - back, count as int));
    (text::slice(&chars, 0, front), text::slice(&chars, count - back, count))
}

/// Whatever the key, some of it stays hidden.
pub proof fn some_of_a_key_stays_hidden(length: int)
    requires
        length > 0,
    ensures
        shown_lengths(length).0 + shown_lengths(length).1 < length,
{
}

/// What was encrypted can be decrypted under the same key, whatever the secret, and is not stored
/// in the clear.
pub proof fn secrets_can_be_read_again(
    key: &[u8; 32],
    value: &str,
    kept: &str,
    stored: AppResult<String>,
    read: AppResult<String>,
)
    requires
        call_ensures(encrypt_secret, (key, value), stored),
        stored is Ok ==> kept@ == stored->Ok_0@,
        call_ensures(decrypt_secret, (key, kept), read),
    ensures
        vstd::utf8::encode_utf8(value@).len() <= 68_719_476_736 ==> stored is Ok,
        stored is Ok ==> read is Ok && read->Ok_0@ == value@,
        stored is Ok ==> stored->Ok_0@ != value@,
{
}

/// A stored secret is the base64 form of its nonce and of what is sealed under that nonce.
pub proof fn secrets_are_sealed_under_their_nonce(
    key: &[u8; 32],
    value: &str,
    nonce: &[u8],
    r: AppResult<String>,
)
    requires
        nonce@.len() == 12,
        call_ensures(seal_secret, (key, value, nonce), r),
    ensures
        r is Ok <==> vstd::utf8::encode_utf8(value@).len() <= 68_719_476_736,
        r is Ok ==> r->Ok_0@ == encoding::base64_text(
            nonce@ + sealed(key@, nonce@, vstd::utf8::encode_utf8(value@)),
        ),
        r matches Err(error) ==> error.0 == 500,
{
}

/// What cannot be opened under the key is refused; what can is handed out as it is.
pub proof fn only_fitting_keys_open_secrets(key: &[u8; 32], value: &str, r: AppResult<String>)
    requires
        call_ensures(decrypt_secret, (key, value), r),
    ensures
        r is Ok <==> {
            let payload = encoding::base64_bytes(value@);
            &&& payload is Ok
            &&& payload->Ok_0.len() > 12
            &&& unsealed(key@, payload->Ok_0.take(12), payload->Ok_0.skip(12)) is Some
            &&& vstd::utf8::valid_utf8(
                unsealed(key@, payload->Ok_0.take(12), payload->Ok_0.skip(12))->0,
            )
        },
        r matches Err(error) ==> error.0 == 500,
{
}

/// API keys are kept as the hexadecimal SHA-256 of their bytes, two digits for each.
pub proof fn keys_are_kept_as_digests(value: &str, r: String)
    requires
        call_ensures(hash_api_key, (value,), r),
    ensures
        r@ == encoding::hex_text(
            encoding::sha256_digest(vstd::utf8::encode_utf8(value@)),
        ),
{
}

/// Of a key the first nine and the last four characters are shown, of a short one two and two, and
/// of a very short one none; a mask stands for what is hidden.
pub proof fn only_the_ends_of_a_key_are_shown(value: &str, r: (String, String))
    requires
        call_ensures(key_parts, (value,), r),
    ensures
        r.0@.is_prefix_of(value@),
        r.1@.is_suffix_of(value@),
        value@.len() > 13 ==> r.0@.len() == 9 && r.1@.len() == 4,
        4 < value@.len() <= 13 ==> r.0@.len() == 2 && r.1@.len() == 2,
        value@.len() <= 4 ==> r.0@.len() == 0 && r.1@.len() == 0,
        value@.len() > 0 ==> r.0@.len() + r.1@.len() < value@.len(),
{
    assert(value@.subrange(value@.len() - r.1@.len(), value@.len() as int) =~= r.1@);
}

/// A masked key begins and ends as the key does, with the mask between.
pub proof fn masks_stand_between_the_ends(prefix: &str, suffix: &str, r: String)
    requires
        call_ensures(mask_key, (prefix, suffix), r),
    ensures
        prefix@.is_prefix_of(r@),
        suffix@.is_suffix_of(r@),
        r@.len() == prefix@.len() + 12 + suffix@.len(),
        r@.subrange(prefix@.len() as int, (prefix@.len() + 12) as int) == "••••••••••••"@,
{
    reveal_strlit("••••••••••••");
    assert(r@.subrange(0, prefix@.len() as int) =~= prefix@);
    assert(r@.subrange(r@.len() - suffix@.len(), r@.len() as int) =~= suffix@);
}

} // verus!
