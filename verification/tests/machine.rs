use picnexus_core::multipart::{
    calculate_file_hash, compute_object_key, UploadAction, UploadEvent, UploadMachine, UploadPhase,
};
use picnexus_core::errors::AppError;

const STS_OK: &[u8] =
    br#"{"code":0,"data":{"access_key":"AK","secret_access_key":"SK","session_token":"TOK"}}"#;

fn png_bytes() -> Vec<u8> {
    // a 100-byte stand-in for a small image
    (0u8..100u8).collect()
}

fn expected_key() -> Vec<u8> {
    let mut key = b"web/".to_vec();
    key.extend_from_slice(&calculate_file_hash(&png_bytes()));
    key.extend_from_slice(b".png");
    key
}

/// The successful small-upload scenario: the object is absent, the
/// init / part / complete calls all answer 2xx, and the result is a
/// non-instant upload at the computed key's public URL.
#[test]
fn successful_small_upload_walks_all_five_steps() {
    let content = png_bytes();
    let mut m = UploadMachine::start(&content, b"png", 100, 3);
    assert!(matches!(m.phase, UploadPhase::CheckingExists));

    let a = m.step(UploadEvent::ProbeResult { found: false });
    assert!(matches!(a, UploadAction::FetchCredentials));

    let a = m.step(UploadEvent::StsResponse { status: 200, body: STS_OK.to_vec() });
    assert!(matches!(a, UploadAction::SendInit));

    let a = m.step(UploadEvent::InitResponse { status: 200, body: br#"{"UploadId":"U1"}"#.to_vec() });
    assert!(matches!(a, UploadAction::SendPart));

    let a = m.step(UploadEvent::PartResponse { status: 200, etag: Some(b"\"e1\"".to_vec()) });
    assert!(matches!(a, UploadAction::SendComplete));

    let a = m.step(UploadEvent::CompleteResponse { status: 200 });
    assert!(matches!(a, UploadAction::Stop));
    match &m.phase {
        UploadPhase::Done { result } => {
            assert!(!result.instant);
            assert_eq!(result.size, 100);
            let mut url = b"https://bfns.zhaomi.cn/".to_vec();
            url.extend_from_slice(&expected_key());
            assert_eq!(result.url, url);
        },
        _ => panic!("the machine must be done after a successful completion"),
    }
}

/// The dedupe scenario: the same bytes map to the same key, and a
/// found probe finishes instantly without any signed call.
#[test]
fn dedupe_hit_finishes_instantly_without_signed_calls() {
    let content = png_bytes();
    let key1 = compute_object_key(&content, b"png");
    let key2 = compute_object_key(&content, b"png");
    assert_eq!(key1, key2);
    // a different name with the same extension computes the same key
    assert_eq!(key1, expected_key());

    let mut m = UploadMachine::start(&content, b"png", 100, 3);
    let a = m.step(UploadEvent::ProbeResult { found: true });
    assert!(matches!(a, UploadAction::Stop));
    match &m.phase {
        UploadPhase::Done { result } => {
            assert!(result.instant);
            assert_eq!(result.size, 100);
        },
        _ => panic!("a found probe must finish the machine"),
    }
}

/// Completion atomicity: after the part is stored but before the
/// completion call has succeeded, the machine does not report the
/// object reachable.
#[test]
fn object_not_reported_before_completion_succeeds() {
    let content = png_bytes();
    let mut m = UploadMachine::start(&content, b"png", 100, 3);
    m.step(UploadEvent::ProbeResult { found: false });
    m.step(UploadEvent::StsResponse { status: 200, body: STS_OK.to_vec() });
    m.step(UploadEvent::InitResponse { status: 200, body: br#"{"UploadId":"U1"}"#.to_vec() });
    let a = m.step(UploadEvent::PartResponse { status: 200, etag: Some(b"\"e1\"".to_vec()) });
    assert!(matches!(a, UploadAction::SendComplete));
    assert!(matches!(m.phase, UploadPhase::Completing { .. }));
    assert!(!matches!(m.phase, UploadPhase::Done { .. }));

    // and a failed completion never reports the URL either
    let a = m.step(UploadEvent::CompleteResponse { status: 500 });
    assert!(matches!(a, UploadAction::Stop));
    assert!(matches!(m.phase, UploadPhase::Failed { .. }));
}

/// Expired credentials: a 403 from the credentials call fails the
/// upload immediately with the auth kind and no retry.
#[test]
fn expired_credentials_fail_immediately_with_auth_kind() {
    let content = png_bytes();
    let mut m = UploadMachine::start(&content, b"png", 100, 3);
    m.step(UploadEvent::ProbeResult { found: false });
    let a = m.step(UploadEvent::StsResponse { status: 403, body: b"denied".to_vec() });
    assert!(matches!(a, UploadAction::Stop));
    match &m.phase {
        UploadPhase::Failed { error } => assert!(matches!(error, AppError::Auth { .. })),
        _ => panic!("a 403 must fail the upload"),
    }
    // the machine stays failed whatever comes later
    let a = m.step(UploadEvent::CompleteResponse { status: 200 });
    assert!(matches!(a, UploadAction::Stop));
    assert!(matches!(m.phase, UploadPhase::Failed { .. }));
}

/// A transient network blip: the part upload times out once, the
/// machine backs off and restarts from the credentials call, and the
/// second pass succeeds within the budget.
#[test]
fn transient_network_blip_retries_and_succeeds() {
    let content = png_bytes();
    let mut m = UploadMachine::start(&content, b"png", 100, 3);
    m.step(UploadEvent::ProbeResult { found: false });
    m.step(UploadEvent::StsResponse { status: 200, body: STS_OK.to_vec() });
    m.step(UploadEvent::InitResponse { status: 200, body: br#"{"UploadId":"U1"}"#.to_vec() });

    let a = m.step(UploadEvent::NetworkFailure { timed_out: true });
    match a {
        UploadAction::Backoff { delay_ms } => assert_eq!(delay_ms, 500),
        _ => panic!("a timeout within the budget must back off"),
    }
    assert!(matches!(m.phase, UploadPhase::FetchingCredentials));

    // the whole signed sequence runs again with fresh credentials
    m.step(UploadEvent::StsResponse { status: 200, body: STS_OK.to_vec() });
    m.step(UploadEvent::InitResponse { status: 200, body: br#"{"UploadId":"U2"}"#.to_vec() });
    m.step(UploadEvent::PartResponse { status: 200, etag: Some(b"\"e2\"".to_vec()) });
    let a = m.step(UploadEvent::CompleteResponse { status: 200 });
    assert!(matches!(a, UploadAction::Stop));
    match &m.phase {
        UploadPhase::Done { result } => assert!(!result.instant),
        _ => panic!("the retried upload must succeed"),
    }
}

#[test]
fn network_failures_exhaust_the_budget() {
    let content = png_bytes();
    let mut m = UploadMachine::start(&content, b"png", 100, 3);
    m.step(UploadEvent::ProbeResult { found: false });
    let a = m.step(UploadEvent::NetworkFailure { timed_out: true });
    assert!(matches!(a, UploadAction::Backoff { delay_ms: 500 }));
    let a = m.step(UploadEvent::NetworkFailure { timed_out: false });
    assert!(matches!(a, UploadAction::Backoff { delay_ms: 1000 }));
    let a = m.step(UploadEvent::NetworkFailure { timed_out: true });
    assert!(matches!(a, UploadAction::Stop));
    match &m.phase {
        UploadPhase::Failed { error } => assert!(matches!(error, AppError::Network { .. })),
        _ => panic!("an exhausted budget must fail with the network kind"),
    }
}

#[test]
fn probe_errors_read_as_not_stored() {
    let content = png_bytes();
    let mut m = UploadMachine::start(&content, b"png", 100, 3);
    let a = m.step(UploadEvent::NetworkFailure { timed_out: true });
    assert!(matches!(a, UploadAction::FetchCredentials));
    assert!(matches!(m.phase, UploadPhase::FetchingCredentials));
}

#[test]
fn init_without_upload_id_fails_as_provider_error() {
    let content = png_bytes();
    let mut m = UploadMachine::start(&content, b"png", 100, 3);
    m.step(UploadEvent::ProbeResult { found: false });
    m.step(UploadEvent::StsResponse { status: 200, body: STS_OK.to_vec() });
    let a = m.step(UploadEvent::InitResponse { status: 200, body: b"{}".to_vec() });
    assert!(matches!(a, UploadAction::Stop));
    match &m.phase {
        UploadPhase::Failed { error } => assert!(matches!(error, AppError::Upload { .. })),
        _ => panic!("a response without an upload id must fail"),
    }
}

#[test]
fn part_without_etag_fails_as_provider_error() {
    let content = png_bytes();
    let mut m = UploadMachine::start(&content, b"png", 100, 3);
    m.step(UploadEvent::ProbeResult { found: false });
    m.step(UploadEvent::StsResponse { status: 200, body: STS_OK.to_vec() });
    m.step(UploadEvent::InitResponse { status: 200, body: br#"{"UploadId":"U1"}"#.to_vec() });
    let a = m.step(UploadEvent::PartResponse { status: 200, etag: None });
    assert!(matches!(a, UploadAction::Stop));
    assert!(matches!(m.phase, UploadPhase::Failed { .. }));
}
