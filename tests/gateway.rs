use ohttp_server::discover::{discover_reply, ConfigListing};
use ohttp_server::error::{error_status, missing_config_reply, request_error_reply, GatewayError};
use ohttp_server::headers::{
    compute_injected_headers, filter_response_headers, inject_normalized, outer_response_headers,
    wants_attestation_token,
};
use ohttp_server::key::{import_exported, parse_cbor_key, ExportedKey};
use ohttp_server::kms::{
    attestation_outcome, bearer, import_start, kms_request_url, kms_step, ImportStart, KmsStep,
};
use ohttp_server::request::{
    decode_inner_request, framing, inner_method, inner_path, inner_request_headers, kid_of_body, may_resolve, Framing,
};

fn hdrs(list: &[(&str, &str)]) -> Vec<(String, String)> {
    list.iter().map(|(n, v)| (n.to_string(), v.to_string())).collect()
}

// A COSE-like private key map {4: 7, -1: 2, -4: h'0102'}.
const KEY_KID7: &str = "a30407200223420102";

#[test]
fn empty_body_asks_for_latest_key() {
    assert_eq!(kid_of_body(&[]), -1);
}

#[test]
fn first_byte_is_key_id() {
    assert_eq!(kid_of_body(&[3, 9, 9]), 3);
    assert_eq!(kid_of_body(&[255]), 255);
}

#[test]
fn local_key_mode_knows_only_id_zero() {
    assert!(may_resolve(true, 0));
    assert!(!may_resolve(true, 3));
    assert!(!may_resolve(true, -1));
    assert!(may_resolve(false, 3));
}

#[test]
fn framing_follows_switch() {
    assert_eq!(framing(true), Framing::IndeterminateLength);
    assert_eq!(framing(false), Framing::KnownLength);
}

#[test]
fn kms_not_ready_twice_then_ready() {
    let mut retries = 0u32;
    let mut steps = Vec::new();
    for status in [202u16, 202, 200] {
        let s = kms_step(retries, status);
        if let KmsStep::Retry(n) = s {
            retries = n;
        }
        steps.push(s);
    }
    assert_eq!(steps, vec![KmsStep::Retry(1), KmsStep::Retry(2), KmsStep::Ready]);
}

#[test]
fn kms_retry_budget_is_three() {
    assert_eq!(kms_step(2, 202), KmsStep::Retry(3));
    assert_eq!(kms_step(3, 202), KmsStep::Fail(GatewayError::KmsUnavailable));
}

#[test]
fn kms_other_status_is_rejection() {
    assert_eq!(kms_step(0, 500), KmsStep::Fail(GatewayError::KmsRejected));
    assert_eq!(kms_step(0, 404), KmsStep::Fail(GatewayError::KmsRejected));
}

#[test]
fn kms_url_carries_kid() {
    assert_eq!(kms_request_url("https://kms.example/key", 3), "https://kms.example/key?kid=3");
    assert_eq!(kms_request_url("https://kms.example/key", 255), "https://kms.example/key?kid=255");
    assert_eq!(kms_request_url("https://kms.example/key", -1), "https://kms.example/key");
}

#[test]
fn bearer_header_value() {
    assert_eq!(bearer("abc.def"), "Bearer abc.def");
}

#[test]
fn cbor_key_is_read() {
    let r = parse_cbor_key(KEY_KID7, 7).unwrap();
    assert_eq!(r, (Some(vec![1, 2]), 7));
    let latest = parse_cbor_key(KEY_KID7, -1).unwrap();
    assert_eq!(latest, (Some(vec![1, 2]), 7));
}

#[test]
fn cbor_key_upper_case_hex() {
    let r = parse_cbor_key("A30407200223420102", 7).unwrap();
    assert_eq!(r, (Some(vec![1, 2]), 7));
}

#[test]
fn cbor_key_id_mismatch() {
    assert_eq!(parse_cbor_key(KEY_KID7, 3), Err(GatewayError::KeyIdMismatch));
}

#[test]
fn cbor_key_wrong_key_type() {
    // {-1: 3}
    assert_eq!(parse_cbor_key("a12003", -1), Err(GatewayError::MalformedKey));
}

#[test]
fn cbor_key_text_key_is_malformed() {
    // {"a": 1}
    assert_eq!(parse_cbor_key("a1616101", -1), Err(GatewayError::MalformedKey));
}

#[test]
fn cbor_key_unexpected_field() {
    // {5: 1}
    assert_eq!(parse_cbor_key("a10501", -1), Err(GatewayError::MalformedKey));
}

#[test]
fn cbor_key_public_coordinates_ignored() {
    // {-2: h'00', -3: h'00', -4: h'09'}
    assert_eq!(parse_cbor_key("", -1), Err(GatewayError::MalformedKey));
    let r = parse_cbor_key("a3214100224100234109", -1).unwrap();
    assert_eq!(r, (Some(vec![9]), 0));
}

#[test]
fn cbor_key_bad_hex_or_not_a_map() {
    assert_eq!(parse_cbor_key("zz", 0), Err(GatewayError::MalformedKey));
    assert_eq!(parse_cbor_key("a30", 0), Err(GatewayError::MalformedKey));
    assert_eq!(parse_cbor_key("01", 0), Err(GatewayError::MalformedKey));
    assert_eq!(parse_cbor_key("ff", 0), Err(GatewayError::MalformedKey));
}

#[test]
fn exported_key_with_other_kid_is_refused() {
    let exported = ExportedKey { kid: 7, key: KEY_KID7.to_string(), receipt: String::new() };
    assert_eq!(import_exported(3, &exported).err(), Some(GatewayError::KeyIdMismatch));
}

#[test]
fn exported_key_is_imported() {
    let exported = ExportedKey { kid: 7, key: KEY_KID7.to_string(), receipt: "r".to_string() };
    let m = import_exported(7, &exported).unwrap();
    assert_eq!(m.kid, 7);
    assert_eq!(m.scalar, vec![1, 2]);
    let m = import_exported(-1, &exported).unwrap();
    assert_eq!(m.kid, 7);
}

#[test]
fn exported_key_without_scalar_is_malformed() {
    // {4: 7, -1: 2}
    let exported = ExportedKey { kid: 7, key: "a204072002".to_string(), receipt: String::new() };
    assert_eq!(import_exported(7, &exported).err(), Some(GatewayError::MalformedKey));
}

#[test]
fn primed_cache_is_used_for_every_kid() {
    for kid in 0..=255 {
        match import_start(kid, Some(kid * 2)) {
            ImportStart::Cached(v) => assert_eq!(v, kid * 2),
            ImportStart::Fetch => panic!("cache not used"),
        }
    }
    assert!(matches!(import_start(4, None::<i32>), ImportStart::Fetch));
    assert!(matches!(import_start(-1, Some(1)), ImportStart::Fetch));
}

#[test]
fn attestation_code_decides() {
    assert_eq!(attestation_outcome(0, vec![1, 2]), Ok(vec![1, 2]));
    assert_eq!(attestation_outcome(-3, vec![1]), Err(GatewayError::AttestationUnavailable));
}

#[test]
fn injection_keeps_to_allowlist() {
    let outer = hdrs(&[("x-a", "1"), ("x-b", "2"), ("x-a", "3"), ("x-d", "4")]);
    let keys: Vec<String> =
        vec!["X-A".to_string(), "x-c".to_string(), "x-a".to_string(), "bad key".to_string(), "x-d".to_string()];
    let r = compute_injected_headers(&outer, &keys);
    assert_eq!(r, hdrs(&[("x-a", "1"), ("x-d", "4")]));
}

#[test]
fn injection_with_empty_allowlist() {
    let outer = hdrs(&[("x-a", "1")]);
    assert!(compute_injected_headers(&outer, &Vec::new()).is_empty());
}

#[test]
fn injection_of_normalized_names() {
    let outer = hdrs(&[("x-a", "1"), ("x-b", "2")]);
    let names = vec![Some("x-b".to_string()), None, Some("x-b".to_string()), Some("x-a".to_string())];
    assert_eq!(inject_normalized(&outer, &names), hdrs(&[("x-b", "2"), ("x-a", "1")]));
}

#[test]
fn response_filter_drops_framing_headers() {
    let backend = hdrs(&[("Content-Type", "text/plain"), ("x-y", "z"), ("CONTENT-LENGTH", "2"), ("content-lengthy", "1")]);
    assert_eq!(filter_response_headers(&backend), hdrs(&[("x-y", "z"), ("content-lengthy", "1")]));
}

#[test]
fn outer_headers_echo_token() {
    let backend = hdrs(&[("content-type", "text/plain"), ("server", "b")]);
    let r = outer_response_headers(true, &"tok".to_string(), &backend);
    assert_eq!(
        r,
        hdrs(&[
            ("content-type", "message/ohttp-chunked-res"),
            ("x-attestation-token", "tok"),
            ("server", "b")
        ])
    );
    let r = outer_response_headers(false, &"tok".to_string(), &backend);
    assert_eq!(r, hdrs(&[("content-type", "message/ohttp-chunked-res"), ("server", "b")]));
}

#[test]
fn token_requested_by_header() {
    assert!(wants_attestation_token(&hdrs(&[("a", "b"), ("x-attestation-token", "anything")])));
    assert!(!wants_attestation_token(&hdrs(&[("a", "b")])));
}

#[test]
fn discover_without_local_key() {
    let r = discover_reply(false, &ConfigListing::Encoded(vec![1]));
    assert_eq!(r.status, 404);
    assert_eq!(r.body, "Not found");
}

#[test]
fn discover_with_local_key() {
    let r = discover_reply(true, &ConfigListing::Encoded(vec![0x00, 0xab, 0x10]));
    assert_eq!(r.status, 200);
    assert_eq!(r.body, "00ab10");
    let r = discover_reply(true, &ConfigListing::Missing);
    assert_eq!(r.status, 500);
    assert_eq!(r.body, "KID 0 missing from cache (should be impossible with local keying)");
    let r = discover_reply(true, &ConfigListing::Unencodable);
    assert_eq!(r.status, 500);
    assert_eq!(r.body, "Invalid key configuration (check KeyConfig written to initial cache)");
}

#[test]
fn error_statuses() {
    assert_eq!(error_status(GatewayError::BadOuterRequest), 422);
    assert_eq!(error_status(GatewayError::BadInnerRequest), 400);
    assert_eq!(error_status(GatewayError::BackendFailure), 400);
    assert_eq!(error_status(GatewayError::KeyIdMismatch), 500);
    assert_eq!(error_status(GatewayError::KmsUnavailable), 500);
}

#[test]
fn error_replies() {
    let r = request_error_reply(GatewayError::BadOuterRequest, "KeyId(3)");
    assert_eq!((r.status, r.body.as_str()), (422, "Error: KeyId(3)"));
    let r = request_error_reply(GatewayError::BadInnerRequest, "x");
    assert_eq!((r.status, r.body.as_str()), (400, "Request error"));
    let r = missing_config_reply();
    assert_eq!(r.status, 500);
    assert_eq!(
        r.body,
        "Failed to get or load the OHTTP coniguration from local cache or key management service."
    );
    assert_eq!(request_error_reply(GatewayError::MalformedKey, "x").body, r.body);
}

#[test]
fn inner_headers_then_injected() {
    let fields = vec![(b"Accept".to_vec(), b"*/*".to_vec()), (b"x-k".to_vec(), b"v".to_vec())];
    let injected = hdrs(&[("x-a", "1")]);
    let r = inner_request_headers(&fields, &injected).unwrap();
    assert_eq!(r, hdrs(&[("accept", "*/*"), ("x-k", "v"), ("x-a", "1")]));
}

#[test]
fn inner_header_malformed() {
    let bad_name = vec![(b"a b".to_vec(), b"v".to_vec())];
    assert_eq!(inner_request_headers(&bad_name, &Vec::new()), Err(GatewayError::BadInnerRequest));
    let bad_value = vec![(b"x".to_vec(), vec![0xff, 0xfe])];
    assert_eq!(inner_request_headers(&bad_value, &Vec::new()), Err(GatewayError::BadInnerRequest));
    let bad_utf8_name = vec![(vec![0xc3], b"v".to_vec())];
    assert_eq!(inner_request_headers(&bad_utf8_name, &Vec::new()), Err(GatewayError::BadInnerRequest));
}

#[test]
fn inner_path_and_method() {
    assert_eq!(inner_path(Some(b"/echo")), Ok(Some("/echo".to_string())));
    assert_eq!(inner_path(Some(&[0xff])), Err(GatewayError::BadInnerRequest));
    assert_eq!(inner_path(None), Ok(None));
    assert_eq!(inner_method(None), b"GET".to_vec());
    assert_eq!(inner_method(Some(b"POST")), b"POST".to_vec());
}

#[test]
fn inner_request_is_decoded() {
    let mut b = vec![0u8, 3];
    b.extend_from_slice(b"GET");
    b.push(5);
    b.extend_from_slice(b"https");
    b.push(0);
    b.push(5);
    b.extend_from_slice(b"/echo");
    b.extend_from_slice(&[6, 3]);
    b.extend_from_slice(b"x-k");
    b.push(1);
    b.extend_from_slice(b"v");
    b.push(2);
    b.extend_from_slice(b"hi");
    b.push(0);
    let r = decode_inner_request(&b).unwrap();
    assert_eq!(r.method, Some(b"GET".to_vec()));
    assert_eq!(r.path, Some(b"/echo".to_vec()));
    assert_eq!(r.fields, vec![(b"x-k".to_vec(), b"v".to_vec())]);
    assert_eq!(r.content, b"hi".to_vec());
}

#[test]
fn inner_request_garbage_is_bad() {
    assert_eq!(decode_inner_request(&[7]).err(), Some(GatewayError::BadInnerRequest));
    assert_eq!(decode_inner_request(&[]).err(), Some(GatewayError::BadInnerRequest));
}
