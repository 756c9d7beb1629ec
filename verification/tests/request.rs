use axum::http::{HeaderMap, HeaderValue};
use lumora::model::{BAD_REQUEST, FORBIDDEN, INTERNAL_SERVER_ERROR, TOO_MANY_REQUESTS};
use lumora::request::{
    client_ip, ensure_first_party_client, forwarded_addresses, header_string, header_text,
    observed_id, rate_limit_response, request_id, request_metadata, require_first_party_request,
    IpAddress, RateLimit, TrustedClientIpKeyExtractor, REQUEST_ID_HEADER,
};

fn headers_with(name: &'static str, value: &'static str) -> HeaderMap {
    let mut headers = HeaderMap::new();
    headers.insert(name, HeaderValue::from_static(value));
    headers
}

#[test]
fn trusts_forwarded_headers_only_behind_a_local_proxy() {
    let headers = headers_with("x-forwarded-for", "203.0.113.9, 10.0.0.1");

    let via_proxy = IpAddress::V4(127, 0, 0, 1);
    let given = forwarded_addresses(&headers, via_proxy);
    assert_eq!(given.forwarded_for.as_deref(), Some("203.0.113.9"));
    assert_eq!(
        client_ip(via_proxy, Some(IpAddress::V4(203, 0, 113, 9)), None),
        IpAddress::V4(203, 0, 113, 9)
    );

    let direct = IpAddress::V4(198, 51, 100, 7);
    let given = forwarded_addresses(&headers, direct);
    assert_eq!(given.forwarded_for, None);
    assert_eq!(
        client_ip(direct, Some(IpAddress::V4(203, 0, 113, 9)), None),
        IpAddress::V4(198, 51, 100, 7)
    );
}

#[test]
fn falls_back_to_real_ip_then_peer_address() {
    let via_proxy = IpAddress::V4(10, 0, 0, 5);
    let headers = headers_with("x-real-ip", "203.0.113.20");
    let given = forwarded_addresses(&headers, via_proxy);
    assert_eq!(given.real_ip.as_deref(), Some("203.0.113.20"));
    assert_eq!(
        client_ip(via_proxy, None, Some(IpAddress::V4(203, 0, 113, 20))),
        IpAddress::V4(203, 0, 113, 20)
    );
    let given = forwarded_addresses(&HeaderMap::new(), via_proxy);
    assert_eq!(given.real_ip, None);
    assert_eq!(
        client_ip(via_proxy, None, None),
        IpAddress::V4(10, 0, 0, 5)
    );
}

#[test]
fn ignores_invalid_forwarded_addresses() {
    let via_proxy = IpAddress::V4(10, 0, 0, 5);
    let headers = headers_with("x-forwarded-for", "not-an-ip");
    let given = forwarded_addresses(&headers, via_proxy);
    assert_eq!(given.forwarded_for.as_deref(), Some("not-an-ip"));
    assert_eq!(
        client_ip(via_proxy, None, None),
        IpAddress::V4(10, 0, 0, 5)
    );
}

#[test]
fn truncates_and_trims_header_text() {
    let headers = headers_with("x-lumora-platform", "  windows  ");
    assert_eq!(
        header_text(&headers, "x-lumora-platform", 64).as_deref(),
        Some("windows")
    );
    assert_eq!(
        header_text(&headers, "x-lumora-platform", 3).as_deref(),
        Some("win")
    );
    assert_eq!(header_text(&headers, "missing", 64), None);
}

#[test]
fn rate_limit_response_preserves_retry_after() {
    let mut headers = HeaderMap::new();
    headers.insert("retry-after", HeaderValue::from_static("2"));
    let (error, kept) = rate_limit_response(RateLimit::TooManyRequests(Some(headers)));
    assert_eq!(error.0, TOO_MANY_REQUESTS);
    assert_eq!(kept.unwrap()["retry-after"], "2");
}

#[test]
fn rate_limits_that_fail_otherwise_are_answered() {
    let (error, kept) = rate_limit_response::<HeaderMap>(RateLimit::UnableToExtractKey);
    assert_eq!(error.0, INTERNAL_SERVER_ERROR);
    assert!(kept.is_none());
    let (error, _) =
        rate_limit_response::<HeaderMap>(RateLimit::Other(BAD_REQUEST, Some("x".into()), None));
    assert_eq!(error.0, BAD_REQUEST);
    assert_eq!(error.1, "x");
}

#[test]
fn csrf_middleware_protects_only_state_changing_requests() {
    let none = HeaderMap::new();
    assert!(require_first_party_request("GET", &none).is_ok());
    assert_eq!(
        require_first_party_request("POST", &none).unwrap_err().0,
        FORBIDDEN
    );
    let known = headers_with("x-lumora-device-id", "test-device");
    assert!(require_first_party_request("POST", &known).is_ok());
    assert!(require_first_party_request("HEAD", &none).is_ok());
    assert!(require_first_party_request("OPTIONS", &none).is_ok());
    assert!(require_first_party_request("DELETE", &none).is_err());
    assert!(ensure_first_party_client(&none).is_err());
}

#[test]
fn request_id_is_preserved_on_error_responses() {
    let headers = headers_with(REQUEST_ID_HEADER, "request-test-1");
    assert_eq!(observed_id(&headers), "request-test-1");
    assert_eq!(request_id(&headers).as_deref(), Some("request-test-1"));
    let fresh = observed_id(&HeaderMap::new());
    assert_ne!(fresh, observed_id(&HeaderMap::new()));
    assert!(!fresh.is_empty());
}

#[test]
fn header_values_that_are_no_text_are_passed_over() {
    let mut headers = HeaderMap::new();
    headers.insert("x-lumora-platform", HeaderValue::from_bytes(&[0xff]).unwrap());
    assert_eq!(header_string(&headers, "x-lumora-platform"), None);
    let plain = headers_with("x-lumora-platform", "macOS");
    assert_eq!(header_string(&plain, "x-lumora-platform"), Some("macOS"));
    assert_eq!(header_string(&plain, "X-LUMORA-PLATFORM"), Some("macOS"));
}

#[test]
fn metadata_is_read_from_headers() {
    let mut headers = HeaderMap::new();
    headers.insert("x-lumora-device-id", HeaderValue::from_static(" device-1 "));
    headers.insert("x-lumora-platform", HeaderValue::from_static("Windows"));
    headers.insert("x-lumora-app-version", HeaderValue::from_static("1.0.9"));
    headers.insert("user-agent", HeaderValue::from_static("Lumora Test"));
    let metadata = request_metadata(&headers, "203.0.113.10");
    assert_eq!(metadata.ip_address, "203.0.113.10");
    assert_eq!(metadata.device_id, "device-1");
    assert_eq!(metadata.platform, "Windows");
    assert_eq!(metadata.app_version, "1.0.9");
    assert_eq!(metadata.user_agent, "Lumora Test");
}

#[test]
fn only_local_peers_are_trusted() {
    assert!(IpAddress::V4(127, 0, 0, 1).is_trusted_proxy());
    assert!(IpAddress::V4(10, 1, 2, 3).is_trusted_proxy());
    assert!(IpAddress::V4(172, 16, 0, 1).is_trusted_proxy());
    assert!(!IpAddress::V4(172, 32, 0, 1).is_trusted_proxy());
    assert!(IpAddress::V4(192, 168, 0, 1).is_trusted_proxy());
    assert!(!IpAddress::V4(8, 8, 8, 8).is_trusted_proxy());
    assert!(IpAddress::V6(0, 0, 0, 0, 0, 0, 0, 1).is_trusted_proxy());
    assert!(IpAddress::V6(0xfd00, 0, 0, 0, 0, 0, 0, 1).is_trusted_proxy());
    assert!(!IpAddress::V6(0x2001, 0xdb8, 0, 0, 0, 0, 0, 1).is_trusted_proxy());
}

#[test]
fn clients_without_a_peer_have_no_key() {
    let extractor = TrustedClientIpKeyExtractor;
    assert_eq!(extractor.extract(None, None, None), None);
    assert_eq!(
        extractor.extract(
            Some(IpAddress::V4(127, 0, 0, 1)),
            Some(IpAddress::V4(203, 0, 113, 9)),
            None
        ),
        Some(IpAddress::V4(203, 0, 113, 9))
    );
}
