use picnexus_core::errors::AppError;
use picnexus_core::jsontext::{
    build_complete_body, json_escape, json_int_field, json_string_field, u64_to_dec, UploadPart,
};
use picnexus_core::listing::{
    parse_list_page, parse_list_objects, should_fetch_next_page, sort_objects_newest_first,
};
use picnexus_core::multipart::{parse_sts_response, parse_upload_id};
use picnexus_core::textscan::{
    classify_weibo_test_response, find_xml_tag_content, parse_i64, parse_weibo_response,
    parse_weibo_response_fallback, trim_bytes, WeiboCookieVerdict,
};

#[test]
fn weibo_response_parses_all_fields() {
    let xml = b"<root><pid>009abc</pid><width> 640 </width><height>480</height><size>12345</size></root>";
    let r = parse_weibo_response(xml).unwrap();
    assert_eq!(r.pid, b"009abc".to_vec());
    assert_eq!(r.width, 640);
    assert_eq!(r.height, 480);
    assert_eq!(r.size, 12345);
}

#[test]
fn weibo_expired_marker_is_an_auth_error() {
    let xml = b"<root><data>100006</data></root>";
    match parse_weibo_response(xml) {
        Err(AppError::Auth { .. }) => {},
        other => panic!("expected an auth error, got {:?}", other.is_ok()),
    }
}

#[test]
fn weibo_response_without_pid_is_a_provider_error() {
    match parse_weibo_response(b"<root><err>1</err></root>") {
        Err(AppError::Upload { .. }) => {},
        other => panic!("expected a provider error, got {:?}", other.is_ok()),
    }
}

#[test]
fn weibo_fallback_tolerates_spaced_tags() {
    let xml = b"<pid >XYZ</pid><width>3</width>";
    let r = parse_weibo_response_fallback(xml).unwrap();
    assert_eq!(r.pid, b"XYZ".to_vec());
    assert_eq!(r.width, 3);
    assert_eq!(r.height, 0);
}

#[test]
fn xml_tag_scan_tries_the_four_spellings() {
    assert_eq!(find_xml_tag_content(b"<k>v</k>", b"k"), Some(b"v".to_vec()));
    assert_eq!(find_xml_tag_content(b"<k >v</k>", b"k"), Some(b"v".to_vec()));
    assert_eq!(find_xml_tag_content(b"<k\n>v</k>", b"k"), Some(b"v".to_vec()));
    assert_eq!(find_xml_tag_content(b"<k\r\n> v </k>", b"k"), Some(b"v".to_vec()));
    assert_eq!(find_xml_tag_content(b"<k>v", b"k"), None);
}

#[test]
fn trim_strips_both_sides() {
    assert_eq!(trim_bytes(b" \t\r\n abc \n"), b"abc".to_vec());
    assert_eq!(trim_bytes(b"   "), Vec::<u8>::new());
}

#[test]
fn decimal_parse_accepts_signs_and_rejects_junk() {
    assert_eq!(parse_i64(b"123"), Some(123));
    assert_eq!(parse_i64(b"-45"), Some(-45));
    assert_eq!(parse_i64(b"+7"), Some(7));
    assert_eq!(parse_i64(b""), None);
    assert_eq!(parse_i64(b"-"), None);
    assert_eq!(parse_i64(b"12a"), None);
    assert_eq!(parse_i64(b"9223372036854775807"), Some(i64::MAX));
    assert_eq!(parse_i64(b"9223372036854775808"), None);
}

#[test]
fn json_field_scan_reads_flat_fields() {
    let body = br#"{"code": 0, "msg": "ok", "data": {"access_key": "AK"}}"#;
    assert_eq!(json_int_field(body, b"code"), Some(0));
    assert_eq!(json_string_field(body, b"msg"), Some(b"ok".to_vec()));
    assert_eq!(json_string_field(body, b"access_key"), Some(b"AK".to_vec()));
    assert_eq!(json_int_field(body, b"missing"), None);
}

#[test]
fn json_escaping_covers_quotes_and_controls() {
    assert_eq!(json_escape(br#"a"b\c"#), br#"a\"b\\c"#.to_vec());
    assert_eq!(json_escape(b"x\ny"), b"x\\u000ay".to_vec());
}

#[test]
fn decimal_rendering_is_exact() {
    assert_eq!(u64_to_dec(0), b"0".to_vec());
    assert_eq!(u64_to_dec(10), b"10".to_vec());
    assert_eq!(u64_to_dec(90210), b"90210".to_vec());
}

#[test]
fn completion_body_is_byte_exact() {
    let parts = vec![UploadPart { part_number: 1, etag: b"\"abc\"".to_vec() }];
    let body = build_complete_body(&parts);
    assert_eq!(
        String::from_utf8(body).unwrap(),
        "{\"Parts\":[{\"ETag\":\"\\\"abc\\\"\",\"PartNumber\":1}]}"
    );
}

/// An HTML page where JSON was expected classifies as an auth error,
/// and a provider error payload keeps its code.
#[test]
fn error_classification_distinguishes_html_and_provider_codes() {
    let html = b"<!DOCTYPE html><html><body>please sign in</body></html>";
    match parse_sts_response(200, html) {
        Err(AppError::Auth { .. }) => {},
        _ => panic!("an HTML body must classify as an auth error"),
    }
    let provider = br#"{"code": 4029, "msg": "quota exceeded"}"#;
    match parse_sts_response(200, provider) {
        Err(AppError::Upload { code, message, .. }) => {
            assert_eq!(code, Some(4029));
            assert_eq!(message, "quota exceeded");
        },
        _ => panic!("a coded payload must classify as a provider error"),
    }
    let codeless = br#"{"code": 17}"#;
    match parse_sts_response(200, codeless) {
        Err(AppError::Upload { code, message, .. }) => {
            assert_eq!(code, Some(17));
            assert_eq!(message, "token service reported an error");
        },
        _ => panic!("a coded payload without a message still classifies"),
    }
    let garbage = b"\x00\x01binary";
    match parse_sts_response(200, garbage) {
        Err(AppError::Upload { code, .. }) => assert_eq!(code, None),
        _ => panic!("garbage must classify as a provider error without a code"),
    }
}

#[test]
fn sts_auth_statuses_fail_closed() {
    for status in [401u16, 403u16] {
        match parse_sts_response(status, br#"{"code":0}"#) {
            Err(AppError::Auth { .. }) => {},
            _ => panic!("status {} must classify as an auth error", status),
        }
    }
    match parse_sts_response(500, b"oops") {
        Err(AppError::Upload { .. }) => {},
        _ => panic!("a 500 must classify as a provider error"),
    }
}

#[test]
fn sts_success_extracts_all_three_credentials() {
    let body = br#"{"code":0,"data":{"access_key":"AK","secret_access_key":"SK","session_token":"TOK","expire_in":900}}"#;
    let creds = parse_sts_response(200, body).unwrap();
    assert_eq!(creds.access_key, b"AK".to_vec());
    assert_eq!(creds.secret_access_key, b"SK".to_vec());
    assert_eq!(creds.session_token, b"TOK".to_vec());
}

#[test]
fn upload_id_parses_from_json_and_xml() {
    assert_eq!(parse_upload_id(br#"{"UploadId": "J123"}"#), Some(b"J123".to_vec()));
    assert_eq!(
        parse_upload_id(b"<InitiateMultipartUploadResult><UploadId>X9</UploadId></InitiateMultipartUploadResult>"),
        Some(b"X9".to_vec())
    );
    assert_eq!(parse_upload_id(b"nonsense"), None);
}

#[test]
fn listing_parses_entries_and_pagination() {
    let xml = b"<ListBucketResult>\
        <Contents><Key>a.png</Key><Size>10</Size><LastModified>2024-01-01T00:00:00Z</LastModified></Contents>\
        <Contents><Key>b.png</Key><Size>20</Size><LastModified>2025-01-01T00:00:00Z</LastModified></Contents>\
        <Contents><Key></Key><Size>5</Size></Contents>\
        <IsTruncated>true</IsTruncated><NextContinuationToken>tok42</NextContinuationToken>\
        </ListBucketResult>";
    let page = parse_list_page(xml);
    assert_eq!(page.objects.len(), 2);
    assert_eq!(page.objects[0].key, b"a.png".to_vec());
    assert_eq!(page.objects[0].size, 10);
    assert!(page.is_truncated);
    assert_eq!(page.next_token, b"tok42".to_vec());
    assert!(should_fetch_next_page(&page));

    let sorted = sort_objects_newest_first(page.objects);
    assert_eq!(sorted[0].key, b"b.png".to_vec());
    assert_eq!(sorted[1].key, b"a.png".to_vec());
}

#[test]
fn listing_stops_without_a_token() {
    let xml = b"<ListBucketResult><Contents><Key>k</Key></Contents><IsTruncated>false</IsTruncated></ListBucketResult>";
    let page = parse_list_page(xml);
    assert_eq!(page.objects.len(), 1);
    assert_eq!(page.objects[0].size, 0);
    assert!(!page.is_truncated);
    assert!(!should_fetch_next_page(&page));
    assert_eq!(parse_list_objects(b"<nothing/>").len(), 0);
}

#[test]
fn weibo_cookie_verdicts_cover_the_shapes() {
    assert!(matches!(
        classify_weibo_test_response(b"<data>100006</data>"),
        WeiboCookieVerdict::Expired
    ));
    assert!(matches!(classify_weibo_test_response(b"<pid>1</pid>"), WeiboCookieVerdict::Valid));
    assert!(matches!(classify_weibo_test_response(b"<err>x</err>"), WeiboCookieVerdict::Invalid));
    assert!(matches!(classify_weibo_test_response(b"hello"), WeiboCookieVerdict::Unrecognized));
}
