//! What a request's headers say about the client.

use axum::http::{HeaderMap, HeaderValue};
use vstd::prelude::*;

use crate::images::RequestMetadata;
use crate::model;
use crate::model::{
    refuse, AppError, AppResult, FORBIDDEN, INTERNAL_SERVER_ERROR, TOO_MANY_REQUESTS,
};
use crate::text;

verus! {

/// The header that carries a request's identifier.
pub const REQUEST_ID_HEADER: &'static str = "x-request-id";

/// `http::HeaderMap`, a multimap from header names to values.
#[verifier::external_type_specification]
#[verifier::external_body]
#[verifier::reject_recursive_types(T)]
pub struct ExHeaderMap<T>(axum::http::HeaderMap<T>);

/// `http::HeaderValue`, the bytes of one header.
#[verifier::external_type_specification]
#[verifier::external_body]
pub struct ExHeaderValue(axum::http::HeaderValue);

/// What a header map holds: under each name, in lower case, its values in order.
pub uninterp spec fn header_contents(headers: HeaderMap<HeaderValue>) -> Map<
    Seq<char>,
    Seq<Seq<u8>>,
>;

/// The bytes that a header value holds.
pub uninterp spec fn value_bytes(value: HeaderValue) -> Seq<u8>;

/// The values under a header name; none where the header is not there.
pub open spec fn values_of(contents: Map<Seq<char>, Seq<Seq<u8>>>, name: Seq<char>) -> Seq<
    Seq<u8>,
> {
    if contents.contains_key(text::ascii_lowered(name)) {
        contents[text::ascii_lowered(name)]
    } else {
        Seq::empty()
    }
}

/// Calls `HeaderMap::get`: the first value under the name, whatever the case of its letters.
#[verifier::external_body]
pub(crate) fn header_get<'a>(headers: &'a HeaderMap<HeaderValue>, name: &str) -> (value: Option<
    &'a HeaderValue,
>)
    ensures
        match value {
            Some(found) => {
                &&& values_of(header_contents(*headers), name@).len() > 0
                &&& value_bytes(*found) == values_of(header_contents(*headers), name@)[0]
            },
            None => values_of(header_contents(*headers), name@).len() == 0,
        },
{
    headers.get(name)
}

/// Calls `HeaderMap::get_all`: the values under the name in order, whatever the case of its
/// letters.
#[verifier::external_body]
pub(crate) fn header_get_all<'a>(headers: &'a HeaderMap<HeaderValue>, name: &str) -> (values: Vec<
    &'a HeaderValue,
>)
    ensures
        values@.len() == values_of(header_contents(*headers), name@).len(),
        forall|i: int|
            0 <= i < values@.len() ==> value_bytes(*#[trigger] values@[i]) == values_of(
                header_contents(*headers),
                name@,
            )[i],
{
    headers.get_all(name).iter().collect()
}

/// Whether a byte may stand in a header value that is read as text.
pub open spec fn is_visible(byte: u8) -> bool {
    32 <= byte < 127 || byte == 9
}

/// The text of a header value: there is one where every byte is visible ASCII or a tab.
pub open spec fn value_text(bytes: Seq<u8>) -> Option<Seq<char>> {
    if forall|i: int| 0 <= i < bytes.len() ==> is_visible(#[trigger] bytes[i]) {
        Some(Seq::new(bytes.len(), |i: int| bytes[i] as char))
    } else {
        None
    }
}

/// Calls `HeaderValue::to_str`: the value as text, where every byte is visible ASCII or a tab.
#[verifier::external_body]
pub(crate) fn header_to_str(value: &HeaderValue) -> (read: Option<&str>)
    ensures
        text::opt_str(read) == value_text(value_bytes(*value)),
{
    value.to_str().ok()
}

/// The text of the first header with the name.
pub open spec fn header_value(contents: Map<Seq<char>, Seq<Seq<u8>>>, name: Seq<char>) -> Option<
    Seq<char>,
> {
    if values_of(contents, name).len() > 0 {
        value_text(values_of(contents, name)[0])
    } else {
        None
    }
}

/// The text of the first header with the name, trimmed and shortened; none where that is empty.
pub open spec fn header_field(
    contents: Map<Seq<char>, Seq<Seq<u8>>>,
    name: Seq<char>,
    max_len: int,
) -> Option<Seq<char>> {
    match header_value(contents, name) {
        Some(value) => if text::trimmed(value).len() == 0 {
            None
        } else {
            Some(text::shortened(text::trimmed(value), max_len))
        },
        None => None,
    }
}

/// The text of the first header with the name.
pub fn header_string<'a>(headers: &'a HeaderMap<HeaderValue>, name: &str) -> (r: Option<&'a str>)
    ensures
        text::opt_str(r) == header_value(header_contents(*headers), name@),
{
    match header_get(headers, name) {
        Some(value) => header_to_str(value),
        None => None,
    }
}

/// The text of a header, without the white space around it and cut to `max_len` characters.
pub fn header_text(headers: &HeaderMap<HeaderValue>, name: &str, max_len: usize) -> (r: Option<
    String,
>)
    ensures
        text::opt(r) == header_field(header_contents(*headers), name@, max_len as int),
{
    match header_string(headers, name) {
        Some(value) => {
            let trimmed = text::trim(value);
            if text::characters(trimmed).len() == 0 {
                None
            } else {
                Some(text::take(trimmed, max_len))
            }
        },
        None => None,
    }
}

/// As `header_text`, with an empty text where there is none.
fn header_or_empty(headers: &HeaderMap<HeaderValue>, name: &str, max_len: usize) -> (r: String)
    ensures
        r@ == text::or_text(header_field(header_contents(*headers), name@, max_len as int), ""@),
{
    match header_text(headers, name, max_len) {
        Some(value) => value,
        None => "".to_owned(),
    }
}

/// Whether a character may stand in a request identifier.
pub open spec fn is_id_character(c: char) -> bool {
    ||| '0' <= c && c <= '9'
    ||| 'a' <= c && c <= 'z'
    ||| 'A' <= c && c <= 'Z'
    ||| c == '-'
    ||| c == '_'
    ||| c == '.'
    ||| c == ':'
}

/// The identifier that a request brings, if it is a proper one.
pub open spec fn request_id_of(contents: Map<Seq<char>, Seq<Seq<u8>>>) -> Option<Seq<char>> {
    match header_field(contents, REQUEST_ID_HEADER@, 128) {
        Some(id) => if forall|i: int| 0 <= i < id.len() ==> is_id_character(#[trigger] id[i]) {
            Some(id)
        } else {
            None
        },
        None => None,
    }
}

/// The identifier that a request brings, if it is made of letters, digits and `-_.:` only.
pub fn request_id(headers: &HeaderMap<HeaderValue>) -> (r: Option<String>)
    ensures
        text::opt(r) == request_id_of(header_contents(*headers)),
{
    match header_text(headers, REQUEST_ID_HEADER, 128) {
        Some(id) => {
            let chars = text::characters(id.as_str());
            let mut i: usize = 0;
            while i < chars.len()
                invariant
                    chars@ == id@,
                    i <= chars@.len(),
                    Some(id@) == header_field(header_contents(*headers), REQUEST_ID_HEADER@, 128),
                    forall|j: int| 0 <= j < i ==> is_id_character(#[trigger] id@[j]),
                decreases chars@.len() - i,
            {
                let c = chars[i];
                if !(('0' <= c && c <= '9') || ('a' <= c && c <= 'z') || ('A' <= c && c <= 'Z') || c
                    == '-' || c == '_' || c == '.' || c == ':') {
                    assert(!is_id_character(id@[i as int]));
                    return None;
                }
                i += 1;
            }
            Some(id)
        },
        None => None,
    }
}

/// The identifier under which a request is observed: its own, or a fresh one.
pub fn observed_id(headers: &HeaderMap<HeaderValue>) -> (r: String)
    ensures
        match request_id_of(header_contents(*headers)) {
            Some(id) => r@ == id,
            None => crate::token::is_token(r@),
        },
{
    match request_id(headers) {
        Some(id) => id,
        None => crate::token::unique_token(),
    }
}

/// An IP address.
#[derive(Clone, Copy, Debug, PartialEq, Eq, Structural)]
pub enum IpAddress {
    V4(u8, u8, u8, u8),
    V6(u16, u16, u16, u16, u16, u16, u16, u16),
}

impl IpAddress {
    /// Whether the address is one of the host itself or of a private network: `127.0.0.0/8`,
    /// `10.0.0.0/8`, `172.16.0.0/12`, `192.168.0.0/16`, `::1` and `fc00::/7`.
    pub open spec fn trusted(self) -> bool {
        match self {
            IpAddress::V4(a, b, c, d) => {
                ||| a == 127
                ||| a == 10
                ||| a == 172 && 16 <= b <= 31
                ||| a == 192 && b == 168
            },
            IpAddress::V6(a, b, c, d, e, f, g, h) => {
                ||| 0xfc00 <= a <= 0xfdff
                ||| a == 0 && b == 0 && c == 0 && d == 0 && e == 0 && f == 0 && g == 0 && h == 1
            },
        }
    }

    /// Whether a peer with this address is a proxy whose forwarding headers are believed.
    pub fn is_trusted_proxy(&self) -> (r: bool)
        ensures
            r == self.trusted(),
    {
        match *self {
            IpAddress::V4(a, b, _, _) => a == 127 || a == 10 || (a == 172 && 16 <= b && b <= 31)
                || (a == 192 && b == 168),
            IpAddress::V6(a, b, c, d, e, f, g, h) => (0xfc00 <= a && a <= 0xfdff) || (a == 0 && b
                == 0 && c == 0 && d == 0 && e == 0 && f == 0 && g == 0 && h == 1),
        }
    }
}

/// The addresses that a trusted proxy reports, as texts: the first of `x-forwarded-for`, then
/// `x-real-ip`.
#[derive(Debug, PartialEq, Eq)]
pub struct ForwardedAddresses {
    pub forwarded_for: Option<String>,
    pub real_ip: Option<String>,
}

/// The first of the addresses in `x-forwarded-for`, where the peer is believed.
pub open spec fn forwarded_for(contents: Map<Seq<char>, Seq<Seq<u8>>>, peer: IpAddress) -> Option<
    Seq<char>,
> {
    if peer.trusted() {
        match header_field(contents, "x-forwarded-for"@, 64) {
            Some(value) => Some(text::trimmed(text::split_on(value, ',')[0])),
            None => None,
        }
    } else {
        None
    }
}

/// The address in `x-real-ip`, where the peer is believed.
pub open spec fn real_ip(contents: Map<Seq<char>, Seq<Seq<u8>>>, peer: IpAddress) -> Option<
    Seq<char>,
> {
    if peer.trusted() {
        header_field(contents, "x-real-ip"@, 64)
    } else {
        None
    }
}

/// The addresses that the headers report, where the peer is a trusted proxy; none otherwise.
pub fn forwarded_addresses(headers: &HeaderMap<HeaderValue>, peer: IpAddress) -> (r:
    ForwardedAddresses)
    ensures
        text::opt(r.forwarded_for) == forwarded_for(header_contents(*headers), peer),
        text::opt(r.real_ip) == real_ip(header_contents(*headers), peer),
{
    if !peer.is_trusted_proxy() {
        return ForwardedAddresses { forwarded_for: None, real_ip: None };
    }
    let first = match header_text(headers, "x-forwarded-for", 64) {
        Some(value) => {
            let parts = text::split(value.as_str(), ',');
            proof {
                text::split_is_never_empty(value@, ',');
                assert(text::views(parts@)[0] == parts@[0]@);
            }
            Some(text::trim(parts[0].as_str()).to_owned())
        },
        None => None,
    };
    ForwardedAddresses { forwarded_for: first, real_ip: header_text(headers, "x-real-ip", 64) }
}

/// The client's address: what a trusted proxy reported, if that is an address, else the peer's.
pub open spec fn client_address(
    peer: IpAddress,
    forwarded: Option<IpAddress>,
    direct: Option<IpAddress>,
) -> IpAddress {
    if !peer.trusted() {
        peer
    } else if forwarded is Some {
        forwarded->0
    } else if direct is Some {
        direct->0
    } else {
        peer
    }
}

/// The client's address, once the reported texts were read as addresses.
pub fn client_ip(peer: IpAddress, forwarded: Option<IpAddress>, direct: Option<IpAddress>) -> (r:
    IpAddress)
    ensures
        r == client_address(peer, forwarded, direct),
{
    if !peer.is_trusted_proxy() {
        return peer;
    }
    match forwarded {
        Some(address) => address,
        None => match direct {
            Some(address) => address,
            None => peer,
        },
    }
}

/// Which client a rate limit counts a request for.
#[derive(Clone, Copy, Debug, PartialEq, Eq)]
pub struct TrustedClientIpKeyExtractor;

impl TrustedClientIpKeyExtractor {
    /// The address that a request is counted for; none where the peer is not known.
    pub fn extract(
        &self,
        peer: Option<IpAddress>,
        forwarded: Option<IpAddress>,
        direct: Option<IpAddress>,
    ) -> (r: Option<IpAddress>)
        ensures
            match peer {
                Some(address) => r == Some(client_address(address, forwarded, direct)),
                None => r is None,
            },
    {
        match peer {
            Some(address) => Some(client_ip(address, forwarded, direct)),
            None => None,
        }
    }
}

/// Whether a request names its device, which only the site's own clients do.
pub open spec fn is_first_party(contents: Map<Seq<char>, Seq<Seq<u8>>>) -> bool {
    header_field(contents, "x-lumora-device-id"@, 128) is Some
}

/// Refuses requests that do not name their device. A foreign page cannot add the header without
/// a preflight, which it does not pass.
pub fn ensure_first_party_client(headers: &HeaderMap<HeaderValue>) -> (r: AppResult<()>)
    ensures
        if is_first_party(header_contents(*headers)) {
            r is Ok
        } else {
            model::refused(r, FORBIDDEN, "缺少客户端标识"@)
        },
{
    if header_text(headers, "x-lumora-device-id", 128).is_none() {
        return refuse(FORBIDDEN, "缺少客户端标识");
    }
    Ok(())
}

/// Whether a method changes state.
pub open spec fn changes_state(method: Seq<char>) -> bool {
    method == "POST"@ || method == "PUT"@ || method == "DELETE"@
}

/// Refuses requests that change state and do not name their device.
pub fn require_first_party_request(method: &str, headers: &HeaderMap<HeaderValue>) -> (r: AppResult<
    (),
>)
    ensures
        if changes_state(method@) && !is_first_party(header_contents(*headers)) {
            model::refused(r, FORBIDDEN, "缺少客户端标识"@)
        } else {
            r is Ok
        },
{
    if text::same(method, "POST") || text::same(method, "PUT") || text::same(method, "DELETE") {
        ensure_first_party_client(headers)
    } else {
        Ok(())
    }
}

/// Where a request came from, as its headers and the client's address say.
pub open spec fn describes_request(
    metadata: RequestMetadata,
    contents: Map<Seq<char>, Seq<Seq<u8>>>,
    ip_address: Seq<char>,
) -> bool {
    &&& metadata.request_id@ == text::or_text(request_id_of(contents), ""@)
    &&& metadata.ip_address@ == ip_address
    &&& metadata.device_id@ == text::or_text(
        header_field(contents, "x-lumora-device-id"@, 128),
        ""@,
    )
    &&& metadata.platform@ == text::or_text(header_field(contents, "x-lumora-platform"@, 64), ""@)
    &&& metadata.app_version@ == text::or_text(
        header_field(contents, "x-lumora-app-version"@, 32),
        ""@,
    )
    &&& metadata.user_agent@ == text::or_text(header_field(contents, "user-agent"@, 300), ""@)
    &&& metadata.desktop == (header_field(contents, "x-lumora-client"@, 32) == Some("desktop"@))
}

/// Where a request came from.
pub fn request_metadata(headers: &HeaderMap<HeaderValue>, ip_address: &str) -> (r: RequestMetadata)
    ensures
        describes_request(r, header_contents(*headers), ip_address@),
{
    let id = match request_id(headers) {
        Some(id) => id,
        None => "".to_owned(),
    };
    let desktop = match header_text(headers, "x-lumora-client", 32) {
        Some(client) => text::same(client.as_str(), "desktop"),
        None => false,
    };
    RequestMetadata {
        request_id: id,
        ip_address: ip_address.to_owned(),
        device_id: header_or_empty(headers, "x-lumora-device-id", 128),
        platform: header_or_empty(headers, "x-lumora-platform", 64),
        app_version: header_or_empty(headers, "x-lumora-app-version", 32),
        user_agent: header_or_empty(headers, "user-agent", 300),
        desktop,
    }
}

/// Why a rate limit let a request not through; `H` are the headers that the answer is to carry.
#[derive(Debug)]
pub enum RateLimit<H> {
    TooManyRequests(Option<H>),
    UnableToExtractKey,
    Other(u16, Option<String>, Option<H>),
}

/// The answer to a request that a rate limit did not let through, with the headers it carries.
pub fn rate_limit_response<H>(limit: RateLimit<H>) -> (r: (AppError, Option<H>))
    ensures
        match limit {
            RateLimit::TooManyRequests(headers) => {
                &&& r.0.0 == TOO_MANY_REQUESTS
                &&& r.0.1@ == "请求过于频繁，请稍后再试"@
                &&& r.1 == headers
            },
            RateLimit::UnableToExtractKey => {
                &&& r.0.0 == INTERNAL_SERVER_ERROR
                &&& r.0.1@ == "无法识别请求来源"@
                &&& r.1 is None
            },
            RateLimit::Other(code, message, headers) => {
                &&& r.0.0 == code
                &&& r.0.1@ == text::or_text(text::opt(message), "请求限制检查失败"@)
                &&& r.1 == headers
            },
        },
{
    match limit {
        RateLimit::TooManyRequests(headers) => (
            AppError(TOO_MANY_REQUESTS, "请求过于频繁，请稍后再试".to_owned()),
            headers,
        ),
        RateLimit::UnableToExtractKey => (
            AppError(INTERNAL_SERVER_ERROR, "无法识别请求来源".to_owned()),
            None,
        ),
        RateLimit::Other(code, message, headers) => {
            let told = match message {
                Some(given) => given,
                None => "请求限制检查失败".to_owned(),
            };
            (AppError(code, told), headers)
        },
    }
}

/// Forwarding headers of a peer outside the trusted networks change nothing.
pub proof fn strangers_cannot_forge_their_address(
    contents: Map<Seq<char>, Seq<Seq<u8>>>,
    peer: IpAddress,
    forwarded: Option<IpAddress>,
    direct: Option<IpAddress>,
)
    requires
        !peer.trusted(),
    ensures
        forwarded_for(contents, peer) is None,
        real_ip(contents, peer) is None,
        client_address(peer, forwarded, direct) == peer,
{
}

/// A header is read as the first value under its name, without the white space around it and no
/// longer than allowed; a blank one is as good as none.
pub proof fn headers_are_read_trimmed_and_short(
    headers: &HeaderMap<HeaderValue>,
    name: &str,
    max_len: usize,
    plain: Option<&str>,
    r: Option<String>,
)
    requires
        call_ensures(header_string, (headers, name), plain),
        call_ensures(header_text, (headers, name, max_len), r),
    ensures
        r is Some <==> plain is Some && text::trimmed(plain->0@).len() > 0,
        r matches Some(value) ==> value@.is_prefix_of(text::trimmed(plain->0@)) && value@.len()
            == if text::trimmed(plain->0@).len() < max_len {
            text::trimmed(plain->0@).len() as int
        } else {
            max_len as int
        },
{
}

/// A header's text is the first value under its name, byte for character, where all its bytes are
/// visible ASCII or tabs.
pub proof fn headers_are_read_byte_for_character(
    headers: &HeaderMap<HeaderValue>,
    name: &str,
    r: Option<&str>,
)
    requires
        call_ensures(header_string, (headers, name), r),
    ensures
        ({
            let values = values_of(header_contents(*headers), name@);
            &&& r is Some <==> values.len() > 0 && forall|i: int|
                0 <= i < values[0].len() ==> (32 <= #[trigger] values[0][i] <= 126 || values[0][i]
                    == 9)
            &&& r is Some ==> r->0@.len() == values[0].len() && forall|i: int|
                0 <= i < values[0].len() ==> (#[trigger] r->0@[i]) as u32 == values[0][i]
        }),
{
    let values = values_of(header_contents(*headers), name@);
    if values.len() > 0 {
        let bytes = values[0];
        if forall|i: int| 0 <= i < bytes.len() ==> (32 <= #[trigger] bytes[i] <= 126 || bytes[i]
            == 9) {
            assert forall|i: int| 0 <= i < bytes.len() implies is_visible(#[trigger] bytes[i]) by {
            }
        }
        if forall|i: int| 0 <= i < bytes.len() ==> is_visible(#[trigger] bytes[i]) {
            assert forall|i: int| 0 <= i < bytes.len() implies (32 <= #[trigger] bytes[i] <= 126
                || bytes[i] == 9) by {
                assert(is_visible(bytes[i]));
            }
        }
    }
}

/// The letters of a header's name may have either case.
pub proof fn header_names_ignore_case(
    headers: &HeaderMap<HeaderValue>,
    name: &str,
    other: &str,
    r: Option<&str>,
    s: Option<&str>,
)
    requires
        text::ascii_lowered(name@) == text::ascii_lowered(other@),
        call_ensures(header_string, (headers, name), r),
        call_ensures(header_string, (headers, other), s),
    ensures
        text::opt_str(r) == text::opt_str(s),
{
}

/// A request keeps the identifier that it brings exactly where that is made of letters, digits and
/// `-_.:` only.
pub proof fn proper_identifiers_are_kept(
    headers: &HeaderMap<HeaderValue>,
    name: &str,
    brought: Option<String>,
    r: Option<String>,
)
    requires
        name@ == "x-request-id"@,
        call_ensures(header_text, (headers, name, 128), brought),
        call_ensures(request_id, (headers,), r),
    ensures
        r is Some <==> brought is Some && forall|i: int|
            0 <= i < brought->0@.len() ==> {
                let c = #[trigger] brought->0@[i];
                ('0' <= c && c <= '9') || ('a' <= c && c <= 'z') || ('A' <= c && c <= 'Z') || c
                    == '-' || c == '_' || c == '.' || c == ':'
            },
        r is Some ==> r->0@ == brought->0@,
{
    if brought is Some {
        let id = brought->0@;
        if forall|i: int| 0 <= i < id.len() ==> is_id_character(#[trigger] id[i]) {
            assert forall|i: int| 0 <= i < id.len() implies {
                let c = #[trigger] id[i];
                ('0' <= c && c <= '9') || ('a' <= c && c <= 'z') || ('A' <= c && c <= 'Z') || c
                    == '-' || c == '_' || c == '.' || c == ':'
            } by {
                assert(is_id_character(id[i]));
            }
        } else {
            let i = choose|i: int| 0 <= i < id.len() && !is_id_character(#[trigger] id[i]);
            let c = id[i];
            assert(!(('0' <= c && c <= '9') || ('a' <= c && c <= 'z') || ('A' <= c && c <= 'Z') || c
                == '-' || c == '_' || c == '.' || c == ':'));
        }
    }
}

/// A request is observed under the identifier that it brings, where that is kept.
pub proof fn requests_are_observed_under_their_identifier(
    headers: &HeaderMap<HeaderValue>,
    id: Option<String>,
    r: String,
)
    requires
        call_ensures(request_id, (headers,), id),
        call_ensures(observed_id, (headers,), r),
    ensures
        id is Some ==> r@ == id->0@,
        id is None ==> crate::token::is_token(r@),
{
}

/// Only peers on the host itself or in a private network are believed.
pub proof fn only_private_networks_are_believed(address: IpAddress, r: bool)
    requires
        call_ensures(IpAddress::is_trusted_proxy, (&address,), r),
    ensures
        address matches IpAddress::V4(a, b, c, d) ==> (r <==> a == 127 || a == 10 || (a == 172 && b
            >= 16 && b <= 31) || (a == 192 && b == 168)),
        address matches IpAddress::V6(a, b, c, d, e, f, g, h) ==> (r <==> a / 512 == 126 || (a == 0
            && b == 0 && c == 0 && d == 0 && e == 0 && f == 0 && g == 0 && h == 1)),
{
}

/// A client's address is what a believed peer reports, the forwarded one first, and else that of
/// the peer.
pub proof fn clients_are_known_by_believed_reports(
    peer: IpAddress,
    forwarded: Option<IpAddress>,
    direct: Option<IpAddress>,
    believed: bool,
    r: IpAddress,
)
    requires
        call_ensures(IpAddress::is_trusted_proxy, (&peer,), believed),
        call_ensures(client_ip, (peer, forwarded, direct), r),
    ensures
        !believed ==> r == peer,
        believed && forwarded is Some ==> r == forwarded->0,
        believed && forwarded is None && direct is Some ==> r == direct->0,
        forwarded is None && direct is None ==> r == peer,
{
}

/// A rate limit counts a request for its client's address.
pub proof fn limits_count_by_client(
    extractor: TrustedClientIpKeyExtractor,
    peer: Option<IpAddress>,
    forwarded: Option<IpAddress>,
    direct: Option<IpAddress>,
    client: IpAddress,
    r: Option<IpAddress>,
)
    requires
        peer is Some ==> call_ensures(client_ip, (peer->0, forwarded, direct), client),
        call_ensures(
            TrustedClientIpKeyExtractor::extract,
            (&extractor, peer, forwarded, direct),
            r,
        ),
    ensures
        r is Some <==> peer is Some,
        r is Some ==> r->0 == client,
{
}

/// Reports are read out of the headers of believed peers only: of `x-forwarded-for` what stands
/// before the first comma, of `x-real-ip` all.
pub proof fn reports_are_read_from_believed_peers(
    headers: &HeaderMap<HeaderValue>,
    peer: IpAddress,
    believed: bool,
    chain_name: &str,
    direct_name: &str,
    chain: Option<String>,
    direct: Option<String>,
    r: ForwardedAddresses,
)
    requires
        call_ensures(IpAddress::is_trusted_proxy, (&peer,), believed),
        chain_name@ == "x-forwarded-for"@,
        direct_name@ == "x-real-ip"@,
        call_ensures(header_text, (headers, chain_name, 64), chain),
        call_ensures(header_text, (headers, direct_name, 64), direct),
        call_ensures(forwarded_addresses, (headers, peer), r),
    ensures
        !believed ==> r.forwarded_for is None && r.real_ip is None,
        believed ==> (r.forwarded_for is Some <==> chain is Some),
        believed && direct is Some ==> r.real_ip is Some && r.real_ip->0@ == direct->0@,
        believed && direct is None ==> r.real_ip is None,
        believed && chain is Some && !chain->0@.contains(',') ==> r.forwarded_for->0@
            == text::trimmed(chain->0@),
        believed && chain is Some ==> forall|i: int|
            0 <= i <= chain->0@.len() && !chain->0@.take(i).contains(',') && (i == chain->0@.len()
                || chain->0@[i] == ',') ==> r.forwarded_for->0@ == text::trimmed(
                #[trigger] chain->0@.take(i),
            ),
{
    if believed && chain is Some {
        let value = chain->0@;
        assert forall|i: int|
            0 <= i <= value.len() && !value.take(i).contains(',') && (i == value.len() || value[i]
                == ',') implies text::split_on(value, ',')[0] == #[trigger] value.take(i) by {
            text::the_first_part_ends_at_the_first_separator(value, ',', i);
        }
        if !value.contains(',') {
            assert(value.take(value.len() as int) =~= value);
        }
    }
}

/// A request is the site's own exactly where it names its device.
pub proof fn own_requests_name_their_device(
    headers: &HeaderMap<HeaderValue>,
    name: &str,
    device: Option<String>,
    r: AppResult<()>,
)
    requires
        name@ == "x-lumora-device-id"@,
        call_ensures(header_text, (headers, name, 128), device),
        call_ensures(ensure_first_party_client, (headers,), r),
    ensures
        r is Ok <==> device is Some,
        r matches Err(error) ==> error.0 == 403,
{
}

/// Requests that change something must be the site's own; others need not.
pub proof fn changes_need_own_requests(
    method: &str,
    headers: &HeaderMap<HeaderValue>,
    own: AppResult<()>,
    r: AppResult<()>,
)
    requires
        call_ensures(ensure_first_party_client, (headers,), own),
        call_ensures(require_first_party_request, (method, headers), r),
    ensures
        r is Err <==> own is Err && (method@ == "POST"@ || method@ == "PUT"@ || method@
            == "DELETE"@),
        r matches Err(error) ==> error.0 == 403,
{
}

/// What is noted of a request is what its headers say, each under its own name.
pub proof fn requests_are_noted_as_their_headers_say(
    headers: &HeaderMap<HeaderValue>,
    ip_address: &str,
    id: Option<String>,
    r: RequestMetadata,
)
    requires
        call_ensures(request_id, (headers,), id),
        call_ensures(request_metadata, (headers, ip_address), r),
    ensures
        r.ip_address@ == ip_address@,
        id is Some ==> r.request_id@ == id->0@,
        id is None ==> r.request_id@.len() == 0,
        ({
            let contents = header_contents(*headers);
            &&& r.device_id@ == text::or_text(
                header_field(contents, "x-lumora-device-id"@, 128),
                ""@,
            )
            &&& r.platform@ == text::or_text(header_field(contents, "x-lumora-platform"@, 64), ""@)
            &&& r.app_version@ == text::or_text(
                header_field(contents, "x-lumora-app-version"@, 32),
                ""@,
            )
            &&& r.user_agent@ == text::or_text(header_field(contents, "user-agent"@, 300), ""@)
            &&& r.desktop <==> header_field(contents, "x-lumora-client"@, 32) == Some("desktop"@)
        }),
{
    reveal_strlit("");
}

/// A request that a rate limit stops is answered as such, with the headers that the limit gives.
pub proof fn stopped_requests_are_answered<H>(limit: RateLimit<H>, r: (AppError, Option<H>))
    requires
        call_ensures(rate_limit_response::<H>, (limit,), r),
    ensures
        limit matches RateLimit::TooManyRequests(headers) ==> r.0.0 == 429 && r.1 == headers,
        limit is UnableToExtractKey ==> r.0.0 == 500 && r.1 is None,
        limit matches RateLimit::Other(code, message, headers) ==> r.0.0 == code && r.1 == headers
            && (message is Some ==> r.0.1@ == message->0@),
{
}

} // verus!
