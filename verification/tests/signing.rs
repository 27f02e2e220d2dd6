use picnexus_core::sigv4::{
    aws_scheme, build_authorization, build_canonical_query, build_canonical_request, build_scope,
    build_string_to_sign, compute_signature, derive_signing_key, hmac_sha256, sign_aws_request,
    sign_request, sort_named_values, NamedValue, TosSigner,
};

fn nv(name: &str, value: &str) -> NamedValue {
    NamedValue { name: name.as_bytes().to_vec(), value: value.as_bytes().to_vec() }
}

const EMPTY_SHA256: &str = "e3b0c44298fc1c149afbf4c8996fb92427ae41e4649b934ca495991b7852b855";

/// The published signature test vector: a plain GET of `/` signed for
/// 20150830T123600Z in us-east-1 must produce the reference signature.
#[test]
fn signature_round_trip_matches_reference_vector() {
    let scheme = aws_scheme(b"us-east-1".to_vec(), b"service".to_vec());
    let headers = vec![nv("host", "example.amazonaws.com"), nv("x-amz-date", "20150830T123600Z")];
    let authorization = sign_request(
        &scheme,
        b"AKIDEXAMPLE",
        b"wJalrXUtnFEMI/K7MDENG+bPxRfiCYEXAMPLEKEY",
        b"GET",
        b"/",
        Vec::new(),
        headers,
        EMPTY_SHA256.as_bytes(),
        b"20150830T123600Z",
    );
    assert_eq!(
        String::from_utf8(authorization).unwrap(),
        "AWS4-HMAC-SHA256 Credential=AKIDEXAMPLE/20150830/us-east-1/service/aws4_request, \
         SignedHeaders=host;x-amz-date, \
         Signature=5fa00fa31553b73ebf1942676e86291e8372ff2a2260956d9b8aae1d763fbf31"
    );
}

#[test]
fn canonical_request_has_reference_layout() {
    let headers = vec![nv("host", "example.amazonaws.com"), nv("x-amz-date", "20150830T123600Z")];
    let canonical = build_canonical_request(
        b"GET",
        b"/",
        Vec::new(),
        headers,
        EMPTY_SHA256.as_bytes(),
    );
    let expected = format!(
        "GET\n/\n\nhost:example.amazonaws.com\nx-amz-date:20150830T123600Z\n\nhost;x-amz-date\n{}",
        EMPTY_SHA256
    );
    assert_eq!(String::from_utf8(canonical).unwrap(), expected);
}

/// Canonicalization determinism: the same parameters and headers, in
/// any order, give byte-identical output.
#[test]
fn canonical_request_ignores_input_order() {
    let q1 = vec![nv("b", "2"), nv("a", "1"), nv("c", "3")];
    let q2 = vec![nv("c", "3"), nv("a", "1"), nv("b", "2")];
    let h1 = vec![nv("Host", "h.example"), nv("X-Tos-Date", "20250101T000000Z")];
    let h2 = vec![nv("X-Tos-Date", "20250101T000000Z"), nv("Host", "h.example")];
    let c1 = build_canonical_request(b"PUT", b"/k", q1, h1, b"UNSIGNED-PAYLOAD");
    let c2 = build_canonical_request(b"PUT", b"/k", q2, h2, b"UNSIGNED-PAYLOAD");
    assert_eq!(c1, c2);
    let text = String::from_utf8(c1).unwrap();
    assert_eq!(
        text,
        "PUT\n/k\na=1&b=2&c=3\nhost:h.example\nx-tos-date:20250101T000000Z\n\nhost;x-tos-date\nUNSIGNED-PAYLOAD"
    );
}

#[test]
fn empty_query_serializes_as_empty_string() {
    let canonical = build_canonical_query(Vec::new());
    assert_eq!(canonical, Vec::<u8>::new());
}

#[test]
fn query_values_are_percent_encoded_and_sorted() {
    let q = vec![nv("uploadId", "a b/c"), nv("partNumber", "1")];
    let canonical = build_canonical_query(q);
    assert_eq!(
        String::from_utf8(canonical).unwrap(),
        "partNumber=1&uploadId=a%20b%2Fc"
    );
}

#[test]
fn empty_uri_canonicalizes_to_slash() {
    let canonical = build_canonical_request(b"GET", b"", Vec::new(), Vec::new(), b"M");
    assert_eq!(String::from_utf8(canonical).unwrap(), "GET\n/\n\n\n\nM");
}

/// Key derivation is exactly the four-step HMAC chain, whatever the
/// region and service lengths.
#[test]
fn derived_key_is_the_four_hmac_chain() {
    let secret = b"top-secret";
    let derived = derive_signing_key(b"AWS4", secret, b"20250102", b"auto", b"s3", b"aws4_request");
    let mut prefixed = b"AWS4".to_vec();
    prefixed.extend_from_slice(secret);
    let k_date = hmac_sha256(&prefixed, b"20250102");
    let k_region = hmac_sha256(&k_date, b"auto");
    let k_service = hmac_sha256(&k_region, b"s3");
    let k_signing = hmac_sha256(&k_service, b"aws4_request");
    assert_eq!(derived, k_signing);
    assert_eq!(derived.len(), 32);

    // a long region and a one-byte service go through the same chain
    let derived2 = derive_signing_key(b"", secret, b"20250102", b"a-very-long-region-name", b"x", b"request");
    let k1 = hmac_sha256(secret, b"20250102");
    let k2 = hmac_sha256(&k1, b"a-very-long-region-name");
    let k3 = hmac_sha256(&k2, b"x");
    assert_eq!(derived2, hmac_sha256(&k3, b"request"));
}

#[test]
fn scope_and_string_to_sign_have_reference_layout() {
    let scope = build_scope(b"20150830", b"us-east-1", b"service", b"aws4_request");
    assert_eq!(scope, b"20150830/us-east-1/service/aws4_request".to_vec());
    let sts = build_string_to_sign(
        b"AWS4-HMAC-SHA256",
        b"20150830T123600Z",
        &scope,
        b"GET\n/\n\nhost:example.amazonaws.com\nx-amz-date:20150830T123600Z\n\nhost;x-amz-date\ne3b0c44298fc1c149afbf4c8996fb92427ae41e4649b934ca495991b7852b855",
    );
    assert_eq!(
        String::from_utf8(sts).unwrap(),
        "AWS4-HMAC-SHA256\n20150830T123600Z\n20150830/us-east-1/service/aws4_request\n\
         bb579772317eb040ac9ed261061d46c1f17a8133879d6129b6e1c25292927e63"
    );
}

#[test]
fn authorization_header_has_reference_layout() {
    let auth = build_authorization(b"TOS4-HMAC-SHA256", b"AK", b"scope", b"host;x-tos-date", b"f00d");
    assert_eq!(
        String::from_utf8(auth).unwrap(),
        "TOS4-HMAC-SHA256 Credential=AK/scope, SignedHeaders=host;x-tos-date, Signature=f00d"
    );
}

#[test]
fn signature_is_hex_hmac_of_string_to_sign() {
    let key = b"0123456789abcdef0123456789abcdef";
    let sig = compute_signature(key, b"payload");
    let mac = hmac_sha256(key, b"payload");
    let hex: String = mac.iter().map(|b| format!("{:02x}", b)).collect();
    assert_eq!(String::from_utf8(sig).unwrap(), hex);
}

#[test]
fn sort_orders_by_name_then_value() {
    let sorted = sort_named_values(vec![nv("b", "1"), nv("a", "2"), nv("a", "1")]);
    let view: Vec<(String, String)> = sorted
        .iter()
        .map(|p| {
            (
                String::from_utf8(p.name.clone()).unwrap(),
                String::from_utf8(p.value.clone()).unwrap(),
            )
        })
        .collect();
    assert_eq!(
        view,
        vec![
            ("a".to_string(), "1".to_string()),
            ("a".to_string(), "2".to_string()),
            ("b".to_string(), "1".to_string()),
        ]
    );
}

/// The TOS signer emits exactly the four protocol headers plus the
/// authorization that binds them.
#[test]
fn tos_signer_emits_the_bound_header_set() {
    let signer = TosSigner::new(b"AK".to_vec(), b"SK".to_vec(), b"TOKEN".to_vec());
    let headers = signer
        .sign(b"POST", b"/web/abc.png", vec![nv("uploads", "")], b"20250101T000000Z")
        .unwrap();
    let names: Vec<String> =
        headers.iter().map(|h| String::from_utf8(h.name.clone()).unwrap()).collect();
    assert_eq!(
        names,
        vec!["host", "x-tos-content-sha256", "x-tos-date", "x-tos-security-token", "authorization"]
    );
    assert_eq!(headers[0].value, b"n-so.tos-cn-shanghai.volces.com".to_vec());
    assert_eq!(headers[1].value, b"UNSIGNED-PAYLOAD".to_vec());
    assert_eq!(headers[2].value, b"20250101T000000Z".to_vec());
    assert_eq!(headers[3].value, b"TOKEN".to_vec());
    let auth = String::from_utf8(headers[4].value.clone()).unwrap();
    assert!(auth.starts_with("TOS4-HMAC-SHA256 Credential=AK/20250101/tos-cn-shanghai/tos/request, "));
    assert!(auth.contains("SignedHeaders=host;x-tos-content-sha256;x-tos-date;x-tos-security-token, "));
}

#[test]
fn tos_signing_key_uses_the_raw_secret() {
    let signer = TosSigner::new(b"AK".to_vec(), b"SK".to_vec(), b"TOKEN".to_vec());
    let key = signer.get_signing_key(b"20250101").unwrap();
    let k1 = hmac_sha256(b"SK", b"20250101");
    let k2 = hmac_sha256(&k1, b"tos-cn-shanghai");
    let k3 = hmac_sha256(&k2, b"tos");
    assert_eq!(key, hmac_sha256(&k3, b"request"));
}

#[test]
fn tos_hmac_helper_never_fails() {
    assert!(TosSigner::hmac_sha256(b"", b"data").is_ok());
    assert!(TosSigner::hmac_sha256(&[0u8; 1000], b"").is_ok());
}

#[test]
fn aws_request_headers_include_bound_authorization() {
    let headers = sign_aws_request(
        b"AK",
        b"SK",
        b"auto",
        b"s3",
        b"HEAD",
        b"/bucket",
        Vec::new(),
        b"acct.r2.cloudflarestorage.com",
        b"20250101T000000Z",
    );
    let names: Vec<String> =
        headers.iter().map(|h| String::from_utf8(h.name.clone()).unwrap()).collect();
    assert_eq!(names, vec!["host", "x-amz-content-sha256", "x-amz-date", "authorization"]);
    let auth = String::from_utf8(headers[3].value.clone()).unwrap();
    assert!(auth.starts_with("AWS4-HMAC-SHA256 Credential=AK/20250101/auto/s3/aws4_request, "));
    assert!(auth.contains("SignedHeaders=host;x-amz-content-sha256;x-amz-date, "));
}
