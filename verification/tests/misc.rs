use picnexus_core::byteseq::{contains_bytes, find_first, lex_leq};
use picnexus_core::digests::{base64_standard, hex_lower, sha256_digest, url_encode_component};
use picnexus_core::encoding::{aws_uri_encode, uri_encode_path};
use picnexus_core::errors::{classify_transport_error, AppError, IntoAppError};
use picnexus_core::linkcheck::{classify_error, is_baidu_proxy_link, LinkVerdict};
use picnexus_core::multipart::{extension_of, get_content_type, build_public_url, build_sts_request_body,
    build_tos_object_url, part_query_params};
use picnexus_core::oss::{
    calculate_md5, calculate_oss_signature, decide_poll, get_mime_type, is_supported_image_ext,
    normalize_image_url, PollDecision,
};
use picnexus_core::results::ProgressPayload;
use picnexus_core::s3opts::{
    build_basic_auth, build_s3_endpoint, build_s3_public_url, classify_probe_status,
    classify_s3_error, delete_retry_decision, get_service_name, is_retriable_error,
    s3_retry_delay_ms, ConnectionVerdict, DeleteStep, S3ErrorVerdict,
};
use picnexus_core::cookies::{is_safe_field_name, is_safe_service_id};

#[test]
fn percent_encoding_keeps_unreserved_and_escapes_the_rest() {
    assert_eq!(aws_uri_encode(b"AZaz09-._~", true), b"AZaz09-._~".to_vec());
    assert_eq!(aws_uri_encode(b"a b/c", true), b"a%20b%2Fc".to_vec());
    assert_eq!(aws_uri_encode(b"a b/c", false), b"a%20b/c".to_vec());
    assert_eq!(uri_encode_path(b"web/a b.png"), b"web/a%20b.png".to_vec());
    // the outside encoder agrees with the verified one
    assert_eq!(url_encode_component(b"a b/c+"), b"a%20b%2Fc%2B".to_vec());
}

#[test]
fn hex_is_two_lowercase_digits_per_byte() {
    assert_eq!(hex_lower(&[0x00, 0xab, 0xff]), b"00abff".to_vec());
}

#[test]
fn sha256_of_empty_input_matches_reference() {
    let hex = hex_lower(&sha256_digest(b""));
    assert_eq!(
        String::from_utf8(hex).unwrap(),
        "e3b0c44298fc1c149afbf4c8996fb92427ae41e4649b934ca495991b7852b855"
    );
}

#[test]
fn md5_of_reference_input_matches() {
    assert_eq!(
        String::from_utf8(calculate_md5(b"abc")).unwrap(),
        "900150983cd24fb0d6963f7d28e17f72"
    );
}

#[test]
fn base64_standard_matches_reference() {
    assert_eq!(base64_standard(b"abc"), b"YWJj".to_vec());
    assert_eq!(base64_standard(b"ab"), b"YWI=".to_vec());
}

#[test]
fn basic_auth_encodes_user_and_secret() {
    assert_eq!(
        String::from_utf8(build_basic_auth(b"user", b"pass")).unwrap(),
        "Basic dXNlcjpwYXNz"
    );
}

#[test]
fn byte_search_finds_first_occurrence() {
    assert_eq!(find_first(b"abcabc", b"bc"), Some(1));
    assert_eq!(find_first(b"abc", b"zz"), None);
    assert!(contains_bytes(b"hello", b"ell"));
    assert!(lex_leq(b"abc", b"abd"));
    assert!(lex_leq(b"ab", b"abc"));
    assert!(!lex_leq(b"b", b"abc"));
}

#[test]
fn extension_extraction_lowers_and_takes_the_last_segment() {
    assert_eq!(extension_of(b"photo.PNG"), b"png".to_vec());
    assert_eq!(extension_of(b"archive.tar.GZ"), b"gz".to_vec());
    assert_eq!(extension_of(b"noext"), b"noext".to_vec());
}

#[test]
fn content_types_cover_the_image_formats() {
    assert_eq!(get_content_type(b"JPG"), b"image/jpeg".to_vec());
    assert_eq!(get_content_type(b"png"), b"image/png".to_vec());
    assert_eq!(get_content_type(b"weird"), b"application/octet-stream".to_vec());
    assert_eq!(get_mime_type(b"png"), b"image/png".to_vec());
    assert_eq!(get_mime_type(b"jpg"), b"image/jpeg".to_vec());
}

#[test]
fn tos_urls_encode_the_key_path() {
    let url = build_tos_object_url(b"web/a b.png", b"?uploads=");
    assert_eq!(
        String::from_utf8(url).unwrap(),
        "https://n-so.tos-cn-shanghai.volces.com/web/a%20b.png?uploads="
    );
    assert_eq!(
        String::from_utf8(build_public_url(b"web/k.png")).unwrap(),
        "https://bfns.zhaomi.cn/web/k.png"
    );
    assert_eq!(
        String::from_utf8(build_sts_request_body(b"web/a b.png")).unwrap(),
        "filename%5B0%5D=web%2Fa%20b.png"
    );
    let params = part_query_params(1, b"U1");
    assert_eq!(params[0].name, b"partNumber".to_vec());
    assert_eq!(params[0].value, b"1".to_vec());
    assert_eq!(params[1].value, b"U1".to_vec());
}

#[test]
fn oss_signature_matches_a_reference_computation() {
    let sig = calculate_oss_signature(b"key", b"image/png", b"date", b"tok", b"obj").unwrap();
    assert_eq!(String::from_utf8(sig).unwrap(), "TOQdqJFeZ/Ok3D74jS8qldkFfT8=");
}

#[test]
fn sha1_of_reference_input_matches() {
    assert_eq!(
        String::from_utf8(picnexus_core::multipart::calculate_file_hash(b"abc")).unwrap(),
        "a9993e364706816aba3e25717850c26c9cd0d89d"
    );
}

#[test]
fn url_normalization_extracts_the_token() {
    assert_eq!(
        normalize_image_url(b"https://picd.zhimg.com/80/v2-0a1b2c3d.jpg?x=1"),
        b"https://picx.zhimg.com/v2-0a1b2c3d.webp".to_vec()
    );
    assert_eq!(normalize_image_url(b"https://other/img.png"), b"https://other/img.png".to_vec());
    // a bare marker without hex after it is not a token
    assert_eq!(normalize_image_url(b"x/v2-zz"), b"x/v2-zz".to_vec());
}

#[test]
fn supported_extensions_are_the_five_image_kinds() {
    assert!(is_supported_image_ext(b"jpg"));
    assert!(is_supported_image_ext(b"webp"));
    assert!(!is_supported_image_ext(b"exe"));
}

#[test]
fn poll_decisions_follow_the_status_field() {
    assert!(matches!(decide_poll(br#"{"status":"processing"}"#), PollDecision::Continue));
    match decide_poll(br#"{"status":"done","url":"https://u"}"#) {
        PollDecision::Finished { url } => assert_eq!(url, b"https://u".to_vec()),
        _ => panic!("a finished status with a url must finish"),
    }
    match decide_poll(br#"{"status":"done","original_src":"https://o"}"#) {
        PollDecision::Finished { url } => assert_eq!(url, b"https://o".to_vec()),
        _ => panic!("original_src must serve as the fallback url"),
    }
    assert!(matches!(decide_poll(br#"{"status":"done"}"#), PollDecision::MissingUrl));
}

#[test]
fn endpoints_follow_the_provider_table() {
    let (e, r) = build_s3_endpoint("r2", &Some("acct1".to_string()), &None).unwrap();
    assert_eq!(e, "https://acct1.r2.cloudflarestorage.com");
    assert_eq!(r, "auto");
    let (e, r) = build_s3_endpoint("tencent", &None, &Some("ap-guangzhou".to_string())).unwrap();
    assert_eq!(e, "https://cos.ap-guangzhou.myqcloud.com");
    assert_eq!(r, "ap-guangzhou");
    let (e, _) = build_s3_endpoint("aliyun", &None, &Some("cn-hangzhou".to_string())).unwrap();
    assert_eq!(e, "https://oss-cn-hangzhou.aliyuncs.com");
    let (e, _) = build_s3_endpoint("qiniu", &None, &Some("cn-east-1".to_string())).unwrap();
    assert_eq!(e, "https://s3-cn-east-1.qiniucs.com");
    assert!(matches!(
        build_s3_endpoint("r2", &Some(String::new()), &None),
        Err(AppError::Config { .. })
    ));
    assert!(matches!(build_s3_endpoint("ftp", &None, &None), Err(AppError::Config { .. })));
}

#[test]
fn service_names_cover_the_table() {
    assert_eq!(get_service_name("r2"), "Cloudflare R2");
    assert_eq!(get_service_name("upyun"), "Upyun");
    assert_eq!(get_service_name("custom"), "custom");
}

#[test]
fn retry_markers_and_delays() {
    assert!(is_retriable_error("dispatch failure: io error"));
    assert!(is_retriable_error("operation timeout"));
    assert!(!is_retriable_error("AccessDenied"));
    assert_eq!(s3_retry_delay_ms(1), 100);
    assert_eq!(s3_retry_delay_ms(2), 200);
    assert_eq!(s3_retry_delay_ms(3), 400);
}

#[test]
fn s3_errors_classify_by_marker() {
    assert!(matches!(classify_s3_error("NoSuchBucket: b"), S3ErrorVerdict::BucketMissing));
    assert!(matches!(classify_s3_error("InvalidAccessKeyId"), S3ErrorVerdict::AccessDenied));
    assert!(matches!(
        classify_s3_error("SignatureDoesNotMatch"),
        S3ErrorVerdict::SignatureMismatch
    ));
    assert!(matches!(classify_s3_error("InvalidBucketName"), S3ErrorVerdict::InvalidBucketName));
    assert!(matches!(classify_s3_error("dispatch failure"), S3ErrorVerdict::Other));
}

#[test]
fn public_urls_prefer_the_custom_domain() {
    assert_eq!(
        build_s3_public_url(b"https://e", b"bkt", b"k.png", b""),
        b"https://e/bkt/k.png".to_vec()
    );
    assert_eq!(
        build_s3_public_url(b"https://e", b"bkt", b"k.png", b"https://cdn.example//"),
        b"https://cdn.example/k.png".to_vec()
    );
}

#[test]
fn probe_statuses_classify() {
    assert!(matches!(classify_probe_status(200, false), ConnectionVerdict::Reachable));
    assert!(matches!(classify_probe_status(207, true), ConnectionVerdict::Reachable));
    assert!(matches!(classify_probe_status(207, false), ConnectionVerdict::Reachable));
    assert!(matches!(classify_probe_status(500, false), ConnectionVerdict::Other));
    assert!(matches!(classify_probe_status(401, false), ConnectionVerdict::Unauthorized));
    assert!(matches!(classify_probe_status(403, false), ConnectionVerdict::Unauthorized));
    assert!(matches!(classify_probe_status(404, false), ConnectionVerdict::Missing));
}

#[test]
fn deletion_retry_decisions_follow_the_outcome() {
    assert!(matches!(delete_retry_decision(Some(204), 0, 3), DeleteStep::Done));
    assert!(matches!(delete_retry_decision(Some(404), 0, 3), DeleteStep::Refused));
    assert!(matches!(delete_retry_decision(Some(500), 0, 3), DeleteStep::Retry { delay_ms: 1000 }));
    assert!(matches!(delete_retry_decision(None, 1, 3), DeleteStep::Retry { delay_ms: 2000 }));
    assert!(matches!(delete_retry_decision(Some(503), 2, 3), DeleteStep::GiveUp));
    assert!(matches!(delete_retry_decision(None, 2, 3), DeleteStep::GiveUp));
}

#[test]
fn link_suggestions_cover_the_failing_classes() {
    assert!(LinkVerdict::Success.suggestion().is_none());
    assert_eq!(
        LinkVerdict::Http4xx.suggestion().unwrap(),
        "the image is gone or access is denied; re-upload it to a working host"
    );
    assert_eq!(
        LinkVerdict::Http5xx.suggestion().unwrap(),
        "the host is temporarily unavailable; retry later"
    );
    assert_eq!(
        LinkVerdict::Timeout.suggestion().unwrap(),
        "the request timed out; the network or the host is slow"
    );
    assert_eq!(
        LinkVerdict::Network.suggestion().unwrap(),
        "the connection failed; check the network or firewall settings"
    );
}

#[test]
fn link_probe_outcomes_classify() {
    assert!(matches!(classify_error(Some(204), false, false), LinkVerdict::Success));
    assert!(matches!(classify_error(Some(404), false, false), LinkVerdict::Http4xx));
    assert!(matches!(classify_error(Some(503), false, false), LinkVerdict::Http5xx));
    assert!(matches!(classify_error(None, true, false), LinkVerdict::Timeout));
    assert!(matches!(classify_error(None, false, true), LinkVerdict::Network));
    assert!(is_baidu_proxy_link("https://image.baidu.com/x"));
    assert!(!is_baidu_proxy_link("https://example.com/x"));
}

#[test]
fn error_constructors_keep_their_fields() {
    match AppError::upload_with_code("svc".to_string(), 42, "m".to_string()) {
        AppError::Upload { service, code, message } => {
            assert_eq!(service, "svc");
            assert_eq!(code, Some(42));
            assert_eq!(message, "m");
        },
        _ => panic!("wrong variant"),
    }
    assert!(matches!(classify_transport_error(true, false, String::new()), AppError::Network { .. }));
    let converted: Result<(), AppError> = Err("boom").into_storage_err();
    assert!(matches!(converted, Err(AppError::Storage { .. })));
    let passed: Result<u32, AppError> = Ok::<u32, &str>(7).into_network_err();
    assert_eq!(passed.unwrap(), 7);
}

#[test]
fn safe_names_allow_word_characters_only() {
    assert!(is_safe_field_name("SUB"));
    assert!(is_safe_field_name("csrf-token_2"));
    assert!(!is_safe_field_name(""));
    assert!(!is_safe_field_name("a=b"));
    assert!(!is_safe_field_name(&"x".repeat(65)));
    assert!(is_safe_service_id("weibo"));
    assert!(!is_safe_service_id("bad;id"));
    assert!(!is_safe_service_id(&"y".repeat(33)));
}

#[test]
fn errors_describe_themselves() {
    let e = AppError::upload("host".to_string(), "refused".to_string());
    assert_eq!(e.describe(), "host upload error: refused");
    let e = AppError::auth("cookie expired".to_string());
    assert_eq!(e.describe(), "authentication error: cookie expired");
    let e: AppError = AppError::from("broken pipe".to_string());
    assert!(matches!(e, AppError::Network { .. }));
}

#[test]
fn progress_payload_never_exceeds_its_total() {
    let p = ProgressPayload::new_clamped("id1".to_string(), 150, 100);
    assert_eq!(p.progress, 100);
    let p = ProgressPayload::new_clamped("id1".to_string(), 50, 100);
    assert_eq!(p.progress, 50);
}
