//! Who may read the metrics.

use axum::http::{HeaderMap, HeaderValue};
use vstd::prelude::*;

use crate::encoding;
use crate::model;
use crate::model::{refuse, AppResult, NOT_FOUND, SERVICE_UNAVAILABLE, UNAUTHORIZED};
use crate::request;
use crate::text;

verus! {

/// Whether two digests are equal. All bytes are read, wherever the first difference is.
pub fn constant_time_eq(expected: &[u8; 32], supplied: &[u8; 32]) -> (r: bool)
    ensures
        r == (expected@ == supplied@),
{
    let mut difference: u8 = 0;
    let mut i: usize = 0;
    while i < 32
        invariant
            i <= 32,
            expected@.len() == 32,
            supplied@.len() == 32,
            difference == 0 <==> forall|j: int| 0 <= j < i ==> expected@[j] == supplied@[j],
        decreases 32 - i,
    {
        let left: u8 = expected[i];
        let right: u8 = supplied[i];
        let before: u8 = difference;
        difference = before | (left ^ right);
        assert((before | (left ^ right)) == 0 <==> before == 0 && left == right) by (bit_vector);
        i += 1;
    }
    if difference == 0 {
        assert(expected@ == supplied@);
    }
    difference == 0
}

/// The token that a request brings after `Bearer `, trimmed; none where that is empty.
pub open spec fn token_of(contents: Map<Seq<char>, Seq<Seq<u8>>>) -> Option<Seq<char>> {
    match request::header_value(contents, "authorization"@) {
        Some(value) => if "Bearer "@.is_prefix_of(value) && text::trimmed(
            value.skip("Bearer "@.len() as int),
        ).len() > 0 {
            Some(text::trimmed(value.skip("Bearer "@.len() as int)))
        } else {
            None
        },
        None => None,
    }
}

/// The token that a request brings.
pub fn bearer_token<'a>(headers: &'a HeaderMap<HeaderValue>) -> (r: Option<&'a str>)
    ensures
        text::opt_str(r) == token_of(request::header_contents(*headers)),
{
    match request::header_string(headers, "authorization") {
        Some(value) => match text::strip_prefix(value, "Bearer ") {
            Some(rest) => {
                let trimmed = text::trim(rest);
                if text::characters(trimmed).len() == 0 {
                    None
                } else {
                    Some(trimmed)
                }
            },
            None => None,
        },
        None => None,
    }
}

/// The SHA-256 of a text's UTF-8 bytes, as an array.
pub fn token_digest(value: &str) -> (r: [u8; 32])
    ensures
        r@ == encoding::sha256_digest(vstd::utf8::encode_utf8(value@)),
{
    let digest = encoding::sha256(value.as_bytes());
    let mut out: [u8; 32] = [0u8; 32];
    let mut i: usize = 0;
    while i < 32
        invariant
            i <= 32,
            digest@.len() == 32,
            out@.len() == 32,
            forall|j: int| 0 <= j < i ==> out@[j] == digest@[j],
        decreases 32 - i,
    {
        out[i] = digest[i];
        i += 1;
    }
    assert(out@ == digest@);
    out
}

/// Whether a request may read the metrics: without a configured token there are none to read,
/// and the token that it brings must have the configured digest.
pub fn metrics_access(expected: &Option<[u8; 32]>, headers: &HeaderMap<HeaderValue>) -> (r: AppResult<
    (),
>)
    ensures
        match *expected {
            None => model::refused(r, NOT_FOUND, "接口不存在"@),
            Some(digest) => match token_of(request::header_contents(*headers)) {
                Some(value) => if encoding::sha256_digest(vstd::utf8::encode_utf8(value))
                    == digest@ {
                    r is Ok
                } else {
                    model::refused(r, UNAUTHORIZED, "指标访问令牌无效"@)
                },
                None => model::refused(r, UNAUTHORIZED, "指标访问令牌无效"@),
            },
        },
{
    let digest = match expected {
        Some(digest) => digest,
        None => {
            return refuse(NOT_FOUND, "接口不存在");
        },
    };
    match bearer_token(headers) {
        Some(value) => {
            let supplied = token_digest(value);
            if constant_time_eq(digest, &supplied) {
                return Ok(());
            }
        },
        None => {},
    }
    refuse(UNAUTHORIZED, "指标访问令牌无效")
}

/// The rendered metrics; there are none before the recorder is in place.
pub fn metrics(rendered: Option<String>) -> (r: AppResult<String>)
    ensures
        match rendered {
            Some(body) => r matches Ok(held) && held == body,
            None => model::refused(r, SERVICE_UNAVAILABLE, "指标尚未初始化"@),
        },
{
    match rendered {
        Some(body) => Ok(body),
        None => refuse(SERVICE_UNAVAILABLE, "指标尚未初始化"),
    }
}

/// Two digests are equal exactly where they agree in every byte.
pub proof fn digests_agree_in_every_byte(expected: &[u8; 32], supplied: &[u8; 32], r: bool)
    requires
        call_ensures(constant_time_eq, (expected, supplied), r),
    ensures
        r <==> forall|i: int| 0 <= i < 32 ==> #[trigger] expected@[i] == supplied@[i],
{
    if forall|i: int| 0 <= i < 32 ==> #[trigger] expected@[i] == supplied@[i] {
        assert(expected@ =~= supplied@);
    }
}

/// The token is what stands behind `Bearer `, without the white space around it.
pub proof fn tokens_stand_behind_the_word(
    headers: &HeaderMap<HeaderValue>,
    name: &str,
    header: Option<&str>,
    rest: Seq<char>,
    r: Option<&str>,
)
    requires
        name@ == "authorization"@,
        call_ensures(request::header_string, (headers, name), header),
        call_ensures(bearer_token, (headers,), r),
    ensures
        header is None ==> r is None,
        header is Some && header->0@ == "Bearer "@ + rest && text::trimmed(rest).len() > 0
            ==> r is Some && r->0@ == text::trimmed(rest),
        header is Some && header->0@ == "Bearer "@ + rest && text::trimmed(rest).len() == 0
            ==> r is None,
        header is Some && !"Bearer "@.is_prefix_of(header->0@) ==> r is None,
{
    if header is Some && header->0@ == "Bearer "@ + rest {
        let value = header->0@;
        assert(value.subrange(0, "Bearer "@.len() as int) =~= "Bearer "@);
        assert(value.skip("Bearer "@.len() as int) =~= rest);
    }
}

/// The metrics are read by those whose token has the configured digest, and by nobody else; where
/// no token is configured there are none.
pub proof fn metrics_are_for_those_with_the_token(
    expected: &Option<[u8; 32]>,
    headers: &HeaderMap<HeaderValue>,
    token: Option<&str>,
    digest: [u8; 32],
    r: AppResult<()>,
)
    requires
        call_ensures(bearer_token, (headers,), token),
        token is Some ==> call_ensures(token_digest, (token->0,), digest),
        call_ensures(metrics_access, (expected, headers), r),
    ensures
        r is Ok <==> *expected is Some && token is Some && (*expected)->0@ == digest@,
        *expected is None ==> r->Err_0.0 == 404,
        *expected is Some && r is Err ==> r->Err_0.0 == 401,
{
}

/// The digest of a token is the SHA-256 of its bytes.
pub proof fn digests_are_of_the_bytes(value: &str, r: [u8; 32])
    requires
        call_ensures(token_digest, (value,), r),
    ensures
        r@ == encoding::sha256_digest(vstd::utf8::encode_utf8(value@)),
{
}

/// Metrics are handed out as they were rendered, once there are any.
pub proof fn metrics_are_handed_out_as_rendered(rendered: Option<String>, r: AppResult<String>)
    requires
        call_ensures(metrics, (rendered,), r),
    ensures
        r is Ok <==> rendered is Some,
        r is Ok ==> r->Ok_0@ == rendered->0@,
        r matches Err(error) ==> error.0 == 503,
{
}

} // verus!
