//! The chunked-upload core for the TOS store: the content-addressed
//! object key, the signed init / upload-part / complete requests, the
//! tolerant response parsers, and the state machine that sequences
//! them.  The caller performs the network calls and feeds each outcome
//! back in as an event; every decision in between is verified here.

use vstd::prelude::*;
use crate::byteseq::{ascii_bytes, lit_bytes, push_bytes, to_vec};
use crate::digests::{sha1_of, sha1_digest, hex_lower, url_encode_component};
use crate::encoding::{spec_hex_lower, spec_uri_encode, uri_encode_path};
use crate::errors::{AppError, string_from_str};
use crate::jsontext::{
    spec_udec, u64_to_dec, spec_json_int_field, spec_json_string_field, json_int_field,
    json_string_field, looks_like_html, looks_like_json_object, body_looks_like_html,
    body_looks_like_json_object, UploadPart,
};
use crate::sigv4::{NamedValue, nvs_view, spec_lower, ascii_lower, spec_tos_host};
use crate::textscan::{spec_between_raw, between_raw};

verus! {

/// An HTTP status in the 2xx range.
pub open spec fn http_success(status: u16) -> bool {
    200 <= status < 300
}

/// The base URL of the public CDN in front of the store.
pub open spec fn spec_cdn_base() -> Seq<u8> {
    ascii_bytes("https://bfns.zhaomi.cn"@)
}

/// The public URL of an object: the CDN base and the object key.
pub open spec fn spec_public_url(key: Seq<u8>) -> Seq<u8> {
    spec_cdn_base() + seq![47u8] + key
}

/// Builds the public URL of an object key.
pub fn build_public_url(key: &[u8]) -> (r: Vec<u8>)
    ensures
        r@ == spec_public_url(key@),
{
    proof {
        reveal_strlit("https://bfns.zhaomi.cn");
    }
    let mut out = lit_bytes("https://bfns.zhaomi.cn");
    out.push(47);
    push_bytes(&mut out, key);
    proof {
        assert(out@ =~= spec_public_url(key@));
    }
    out
}

/// The lowered name segment after the last dot: the extension, or the
/// whole lowered name where no dot occurs.
pub open spec fn spec_after_last_dot(s: Seq<u8>) -> Seq<u8>
    decreases s.len(),
{
    match crate::textscan::spec_find(s, seq![46u8]) {
        None => s,
        Some(i) => if 0 <= i < s.len() {
            spec_after_last_dot(s.skip(i + 1))
        } else {
            s
        },
    }
}

/// The file extension the upload path uses: what follows the last dot
/// of the file name, lowered.
pub open spec fn spec_ext_of(name: Seq<u8>) -> Seq<u8> {
    spec_lower(spec_after_last_dot(name))
}

proof fn lemma_no_dot(s: Seq<u8>)
    requires
        forall|k: int| 0 <= k < s.len() ==> s[k] != 46,
    ensures
        spec_after_last_dot(s) == s,
{
    let dot = seq![46u8];
    assert forall|k: int| !crate::byteseq::matches_at(s, dot, k) by {
        if crate::byteseq::matches_at(s, dot, k) {
            assert(s.subrange(k, k + 1) == dot);
            assert(s[k] == dot[0]);
        }
    }
    crate::textscan::lemma_spec_find_none(s, dot);
}

proof fn lemma_after_last_dot(s: Seq<u8>, i: int)
    requires
        0 <= i < s.len(),
        s[i] == 46,
        forall|k: int| i < k < s.len() ==> s[k] != 46,
    ensures
        spec_after_last_dot(s) == s.skip(i + 1),
    decreases s.len(),
{
    let dot = seq![46u8];
    assert(crate::byteseq::matches_at(s, dot, i)) by {
        assert(s.subrange(i, i + 1) =~= dot);
    }
    crate::textscan::lemma_spec_find_props(s, dot);
    match crate::textscan::spec_find(s, dot) {
        None => {
            assert(false);
        },
        Some(ff) => {
            assert(ff <= i);
            assert(s.subrange(ff, ff + 1) == dot);
            assert(s.subrange(ff, ff + 1)[0] == s[ff]);
            assert(s[ff] == 46);
            if ff == i {
                let rest = s.skip(i + 1);
                assert(forall|k: int| 0 <= k < rest.len() ==> rest[k] == s[i + 1 + k]);
                assert(forall|k: int| 0 <= k < rest.len() ==> rest[k] != 46);
                lemma_no_dot(rest);
            } else {
                assert(ff < i);
                let t = s.skip(ff + 1);
                assert(t[i - ff - 1] == s[i as int]);
                assert(forall|k: int| i - ff - 1 < k < t.len() ==> t[k] == s[ff + 1 + k]);
                assert(forall|k: int| i - ff - 1 < k < t.len() ==> t[k] != 46);
                lemma_after_last_dot(t, i - ff - 1);
                assert(t.skip(i - ff) =~= s.skip(i + 1));
            }
        },
    }
}

/// Extracts the lowered extension of a file name.
pub fn extension_of(name: &[u8]) -> (r: Vec<u8>)
    ensures
        r@ == spec_ext_of(name@),
{
    let n = name.len();
    let mut last_dot: usize = n;
    let mut i: usize = 0;
    while i < n
        invariant
            i <= n,
            n == name@.len(),
            last_dot == n || (last_dot < i && name@[last_dot as int] == 46),
            forall|k: int| last_dot < k < i && last_dot < n ==> name@[k] != 46,
            last_dot == n ==> forall|k: int| 0 <= k < i ==> name@[k] != 46,
        decreases n - i,
    {
        if name[i] == 46 {
            last_dot = i;
        }
        i = i + 1;
    }
    if last_dot == n {
        proof {
            lemma_no_dot(name@);
        }
        ascii_lower(name)
    } else {
        let seg = crate::byteseq::sub_vec(name, last_dot + 1, n);
        proof {
            assert(seg@ =~= name@.skip(last_dot + 1));
            lemma_after_last_dot(name@, last_dot as int);
        }
        ascii_lower(seg.as_slice())
    }
}

/// The content type served for an image extension; anything unknown
/// is an octet stream.
pub open spec fn spec_content_type(ext_lower: Seq<u8>) -> Seq<u8> {
    if ext_lower == ascii_bytes("jpg"@) || ext_lower == ascii_bytes("jpeg"@) {
        ascii_bytes("image/jpeg"@)
    } else if ext_lower == ascii_bytes("png"@) {
        ascii_bytes("image/png"@)
    } else if ext_lower == ascii_bytes("gif"@) {
        ascii_bytes("image/gif"@)
    } else if ext_lower == ascii_bytes("webp"@) {
        ascii_bytes("image/webp"@)
    } else if ext_lower == ascii_bytes("bmp"@) {
        ascii_bytes("image/bmp"@)
    } else {
        ascii_bytes("application/octet-stream"@)
    }
}

/// Maps an extension to its content type, after lowering it.
pub fn get_content_type(ext: &[u8]) -> (r: Vec<u8>)
    ensures
        r@ == spec_content_type(spec_lower(ext@)),
{
    proof {
        reveal_strlit("jpg");
        reveal_strlit("jpeg");
        reveal_strlit("png");
        reveal_strlit("gif");
        reveal_strlit("webp");
        reveal_strlit("bmp");
        reveal_strlit("image/jpeg");
        reveal_strlit("image/png");
        reveal_strlit("image/gif");
        reveal_strlit("image/webp");
        reveal_strlit("image/bmp");
        reveal_strlit("application/octet-stream");
    }
    let low = ascii_lower(ext);
    let l = low.as_slice();
    let jpg = lit_bytes("jpg");
    let jpeg = lit_bytes("jpeg");
    let png = lit_bytes("png");
    let gif = lit_bytes("gif");
    let webp = lit_bytes("webp");
    let bmp = lit_bytes("bmp");
    if crate::byteseq::bytes_eq(l, jpg.as_slice()) || crate::byteseq::bytes_eq(l, jpeg.as_slice()) {
        lit_bytes("image/jpeg")
    } else if crate::byteseq::bytes_eq(l, png.as_slice()) {
        lit_bytes("image/png")
    } else if crate::byteseq::bytes_eq(l, gif.as_slice()) {
        lit_bytes("image/gif")
    } else if crate::byteseq::bytes_eq(l, webp.as_slice()) {
        lit_bytes("image/webp")
    } else if crate::byteseq::bytes_eq(l, bmp.as_slice()) {
        lit_bytes("image/bmp")
    } else {
        lit_bytes("application/octet-stream")
    }
}

/// The hex SHA-1 of a file's content: the hash the object key is
/// built from.
pub fn calculate_file_hash(buffer: &[u8]) -> (r: Vec<u8>)
    ensures
        r@ == spec_hex_lower(sha1_of(buffer@)),
{
    let digest = sha1_digest(buffer);
    hex_lower(digest.as_slice())
}

/// The content-addressed object key: the hex SHA-1 of the content
/// bytes under the `web/` prefix, with the file's extension.  The
/// name of the file plays no part beyond its extension, which is what
/// makes re-uploads of the same bytes land on the same key.
pub open spec fn spec_object_key(content: Seq<u8>, ext: Seq<u8>) -> Seq<u8> {
    ascii_bytes("web/"@) + spec_hex_lower(sha1_of(content)) + seq![46u8] + ext
}

/// Computes the object key for a file's content and extension.
pub fn compute_object_key(content: &[u8], ext: &[u8]) -> (r: Vec<u8>)
    ensures
        r@ == spec_object_key(content@, ext@),
{
    proof {
        reveal_strlit("web/");
    }
    let digest = sha1_digest(content);
    let digest_hex = hex_lower(digest.as_slice());
    let mut out = lit_bytes("web/");
    push_bytes(&mut out, digest_hex.as_slice());
    out.push(46);
    push_bytes(&mut out, ext);
    proof {
        assert(out@ =~= spec_object_key(content@, ext@));
    }
    out
}

/// Law: the object key is content-addressed.  Two files with the same
/// bytes get the same key whatever their names, as long as the names
/// share an extension; the second upload can then short-circuit on
/// the existence probe.
pub proof fn lemma_idempotent_object_key(content: Seq<u8>, name1: Seq<u8>, name2: Seq<u8>)
    requires
        spec_ext_of(name1) == spec_ext_of(name2),
    ensures
        spec_object_key(content, spec_ext_of(name1)) == spec_object_key(
            content,
            spec_ext_of(name2),
        ),
{
}

/// Short-lived credentials issued for one upload session.
pub struct StsCredentials {
    pub access_key: Vec<u8>,
    pub secret_access_key: Vec<u8>,
    pub session_token: Vec<u8>,
}

/// The body of the credentials request: one percent-encoded file name
/// under the `filename[0]` form key.
pub fn build_sts_request_body(file_key: &[u8]) -> (r: Vec<u8>)
    ensures
        r@ == ascii_bytes("filename%5B0%5D="@) + spec_uri_encode(file_key@, true),
{
    proof {
        reveal_strlit("filename%5B0%5D=");
    }
    let mut out = lit_bytes("filename%5B0%5D=");
    let enc = url_encode_component(file_key);
    push_bytes(&mut out, enc.as_slice());
    proof {
        assert(out@ =~= ascii_bytes("filename%5B0%5D="@) + spec_uri_encode(file_key@, true));
    }
    out
}

/// Whether a status is one the providers use for missing or expired
/// credentials.
pub open spec fn auth_status(status: u16) -> bool {
    status == 401 || status == 403
}

/// What the credentials response contains, at the spec level: the
/// provider code and, on success, the three credential fields.
pub open spec fn spec_sts_fields(body: Seq<u8>) -> (Option<int>, Option<Seq<u8>>, Option<Seq<u8>>, Option<
    Seq<u8>,
>) {
    (
        spec_json_int_field(body, ascii_bytes("code"@)),
        spec_json_string_field(body, ascii_bytes("access_key"@)),
        spec_json_string_field(body, ascii_bytes("secret_access_key"@)),
        spec_json_string_field(body, ascii_bytes("session_token"@)),
    )
}

/// Parses the credentials response.  A 401 or 403, or an HTML page
/// where JSON was expected, is an authentication failure; a JSON body
/// with a nonzero code is a provider error that keeps the provider's
/// own code and, when one is present, the provider's own message; a
/// zero code with all three credential fields succeeds; anything else
/// is an unparseable provider response.
pub fn parse_sts_response(status: u16, body: &[u8]) -> (r: Result<StsCredentials, AppError>)
    ensures
        auth_status(status) ==> (r matches Err(e) && e is Auth),
        !auth_status(status) && !http_success(status) ==> (r matches Err(e) && e is Upload),
        http_success(status) && !auth_status(status) && looks_like_html(body@) ==> (r matches Err(e)
            && e is Auth),
        http_success(status) && !auth_status(status) && !looks_like_html(body@) ==> match spec_sts_fields(
            body@,
        ).0 {
            None => r matches Err(e) && e is Upload,
            Some(c) => {
                if c != 0 {
                    r matches Err(e) && e matches AppError::Upload { code, message, .. } && (
                    -0x8000_0000 <= c < 0x8000_0000 ==> code == Some(c as i32)) && (
                    match spec_json_string_field(body@, ascii_bytes("msg"@)) {
                        Some(m) => message@ == crate::byteseq::utf8_lossy_of(m),
                        None => message@ == "token service reported an error"@,
                    })
                } else {
                    match (
                        spec_sts_fields(body@).1,
                        spec_sts_fields(body@).2,
                        spec_sts_fields(body@).3,
                    ) {
                        (Some(ak), Some(sk), Some(tok)) => r matches Ok(c) && c.access_key@ == ak
                            && c.secret_access_key@ == sk && c.session_token@ == tok,
                        _ => r matches Err(e) && e is Upload,
                    }
                }
            },
        },
{
    proof {
        reveal_strlit("code");
        reveal_strlit("msg");
        reveal_strlit("access_key");
        reveal_strlit("secret_access_key");
        reveal_strlit("session_token");
    }
    if status == 401 || status == 403 {
        return Err(AppError::auth(string_from_str("credentials rejected by the token service")));
    }
    if !(200 <= status && status < 300) {
        return Err(
            AppError::upload(
                string_from_str("nami"),
                string_from_str("credentials request failed"),
            ),
        );
    }
    if body_looks_like_html(body) {
        return Err(
            AppError::auth(
                string_from_str("login page returned where JSON was expected: session expired"),
            ),
        );
    }
    let code_tag = lit_bytes("code");
    let code = match json_int_field(body, code_tag.as_slice()) {
        None => {
            return Err(
                AppError::upload(
                    string_from_str("nami"),
                    string_from_str("no code field in the credentials response"),
                ),
            );
        },
        Some(c) => c,
    };
    if code != 0 {
        let msg_tag = lit_bytes("msg");
        let message = match json_string_field(body, msg_tag.as_slice()) {
            Some(m) => crate::byteseq::bytes_to_string_lossy(m.as_slice()),
            None => string_from_str("token service reported an error"),
        };
        if code >= -0x8000_0000i64 && code < 0x8000_0000i64 {
            return Err(AppError::upload_with_code(string_from_str("nami"), code as i32, message));
        }
        return Err(AppError::upload(string_from_str("nami"), message));
    }
    let ak_tag = lit_bytes("access_key");
    let sk_tag = lit_bytes("secret_access_key");
    let tok_tag = lit_bytes("session_token");
    let ak = json_string_field(body, ak_tag.as_slice());
    let sk = json_string_field(body, sk_tag.as_slice());
    let tok = json_string_field(body, tok_tag.as_slice());
    match (ak, sk, tok) {
        (Some(access_key), Some(secret_access_key), Some(session_token)) => Ok(
            StsCredentials { access_key, secret_access_key, session_token },
        ),
        _ => Err(
            AppError::upload(
                string_from_str("nami"),
                string_from_str("credential fields missing from the response"),
            ),
        ),
    }
}

/// The upload id in an initiation response: the `UploadId` string
/// field of a JSON body, or the text between the first `<UploadId>`
/// and `</UploadId>` of an XML body.
pub open spec fn spec_upload_id(body: Seq<u8>) -> Option<Seq<u8>> {
    if looks_like_json_object(body) {
        spec_json_string_field(body, ascii_bytes("UploadId"@))
    } else {
        spec_between_raw(body, ascii_bytes("<UploadId>"@), ascii_bytes("</UploadId>"@))
    }
}

/// Extracts the upload id from an initiation response body.
pub fn parse_upload_id(body: &[u8]) -> (r: Option<Vec<u8>>)
    ensures
        match r {
            Some(id) => spec_upload_id(body@) == Some(id@),
            None => spec_upload_id(body@) is None,
        },
{
    proof {
        reveal_strlit("UploadId");
        reveal_strlit("<UploadId>");
        reveal_strlit("</UploadId>");
    }
    if body_looks_like_json_object(body) {
        let tag = lit_bytes("UploadId");
        json_string_field(body, tag.as_slice())
    } else {
        let open = lit_bytes("<UploadId>");
        let close = lit_bytes("</UploadId>");
        between_raw(body, open.as_slice(), close.as_slice())
    }
}

/// The store URL for an object key with a query string appended: the
/// key's path percent-encoded with its slashes kept.
pub fn build_tos_object_url(file_key: &[u8], query_suffix: &[u8]) -> (r: Vec<u8>)
    ensures
        r@ == ascii_bytes("https://"@) + spec_tos_host() + seq![47u8] + spec_uri_encode(
            file_key@,
            false,
        ) + query_suffix@,
{
    proof {
        reveal_strlit("https://");
        reveal_strlit("n-so.tos-cn-shanghai.volces.com");
    }
    let mut out = lit_bytes("https://");
    let host = lit_bytes("n-so.tos-cn-shanghai.volces.com");
    push_bytes(&mut out, host.as_slice());
    out.push(47);
    let enc = uri_encode_path(file_key);
    push_bytes(&mut out, enc.as_slice());
    push_bytes(&mut out, query_suffix);
    proof {
        assert(out@ =~= ascii_bytes("https://"@) + spec_tos_host() + seq![47u8] + spec_uri_encode(
            file_key@,
            false,
        ) + query_suffix@);
    }
    out
}

/// The query parameters of the initiation request.
pub fn init_query_params() -> (r: Vec<NamedValue>)
    ensures
        nvs_view(r@) == seq![(ascii_bytes("uploads"@), Seq::<u8>::empty())],
{
    proof {
        reveal_strlit("uploads");
    }
    let mut out: Vec<NamedValue> = Vec::new();
    out.push(NamedValue { name: lit_bytes("uploads"), value: Vec::new() });
    proof {
        assert(nvs_view(out@) =~= seq![(ascii_bytes("uploads"@), Seq::<u8>::empty())]);
    }
    out
}

/// The query parameters of a part-upload request.
pub fn part_query_params(part_number: u32, upload_id: &[u8]) -> (r: Vec<NamedValue>)
    ensures
        nvs_view(r@) == seq![
            (ascii_bytes("partNumber"@), spec_udec(part_number as nat)),
            (ascii_bytes("uploadId"@), upload_id@),
        ],
{
    proof {
        reveal_strlit("partNumber");
        reveal_strlit("uploadId");
    }
    let mut out: Vec<NamedValue> = Vec::new();
    out.push(NamedValue { name: lit_bytes("partNumber"), value: u64_to_dec(part_number as u64) });
    out.push(NamedValue { name: lit_bytes("uploadId"), value: to_vec(upload_id) });
    proof {
        assert(nvs_view(out@) =~= seq![
            (ascii_bytes("partNumber"@), spec_udec(part_number as nat)),
            (ascii_bytes("uploadId"@), upload_id@),
        ]);
    }
    out
}

/// The query parameters of the completion request.
pub fn complete_query_params(upload_id: &[u8]) -> (r: Vec<NamedValue>)
    ensures
        nvs_view(r@) == seq![(ascii_bytes("uploadId"@), upload_id@)],
{
    proof {
        reveal_strlit("uploadId");
    }
    let mut out: Vec<NamedValue> = Vec::new();
    out.push(NamedValue { name: lit_bytes("uploadId"), value: to_vec(upload_id) });
    proof {
        assert(nvs_view(out@) =~= seq![(ascii_bytes("uploadId"@), upload_id@)]);
    }
    out
}

/// What one finished upload reports: the public URL, the size, and
/// whether the existence probe made the upload instant.
pub struct NamiUploadResult {
    pub url: Vec<u8>,
    pub size: u64,
    pub instant: bool,
}

/// Where the upload sequence stands.
pub enum UploadPhase {
    /// Probing the CDN for an existing object with this key.
    CheckingExists,
    /// Requesting short-lived credentials.
    FetchingCredentials,
    /// Credentials in hand; the initiation call is out.
    Initiating { credentials: StsCredentials },
    /// A session is open; the single part is being sent.
    UploadingPart { credentials: StsCredentials, upload_id: Vec<u8> },
    /// The part is stored; the completion call is out.
    Completing { credentials: StsCredentials, upload_id: Vec<u8>, parts: Vec<UploadPart> },
    /// The upload finished; the object is reachable at its URL.
    Done { result: NamiUploadResult },
    /// The upload failed; the error says whether it was worth a retry.
    Failed { error: AppError },
}

/// What the network layer reports back for the request the machine
/// last asked for.
pub enum UploadEvent {
    /// The existence probe came back.
    ProbeResult { found: bool },
    /// The credentials call answered.
    StsResponse { status: u16, body: Vec<u8> },
    /// The initiation call answered.
    InitResponse { status: u16, body: Vec<u8> },
    /// The part upload answered; `etag` is the header, if present.
    PartResponse { status: u16, etag: Option<Vec<u8>> },
    /// The completion call answered.
    CompleteResponse { status: u16 },
    /// The call never completed: a timeout or a broken connection.
    NetworkFailure { timed_out: bool },
}

/// What the caller must do next.  The first step - probing the
/// public URL of the fresh machine's key - is implied by `start`;
/// every later step is named here.
pub enum UploadAction {
    /// Request credentials for the key.
    FetchCredentials,
    /// Send the signed initiation call.
    SendInit,
    /// Send the signed part upload.
    SendPart,
    /// Send the signed completion call.
    SendComplete,
    /// Wait this long, then request fresh credentials: the whole
    /// signed sequence restarts, as short-lived credentials demand.
    Backoff { delay_ms: u64 },
    /// The machine is in a terminal phase; read it and stop.
    Stop,
}

/// The upload state machine.  `attempts_used` counts whole-operation
/// tries spent on network failures; signed-call rejections never
/// retry.
pub struct UploadMachine {
    pub phase: UploadPhase,
    pub key: Vec<u8>,
    pub size: u64,
    pub attempts_used: u8,
    pub max_attempts: u8,
}

/// A mismatched event: the machine fails closed rather than guess.
pub open spec fn mismatch_spec(post: UploadMachine, action: UploadAction) -> bool {
    (post.phase matches UploadPhase::Failed { error } && error is Validation) && action is Stop
}

/// The credentials-response transition: authentication failures and
/// HTML-for-JSON fail with the auth kind, provider codes fail with
/// the provider kind, and a parsed credential triple moves on to the
/// initiation call.
pub open spec fn sts_step_spec(
    status: u16,
    body: Seq<u8>,
    post: UploadMachine,
    action: UploadAction,
) -> bool {
    if auth_status(status) {
        post.failed_auth() && action is Stop
    } else if !http_success(status) {
        post.failed_upload() && action is Stop
    } else if looks_like_html(body) {
        post.failed_auth() && action is Stop
    } else {
        match spec_sts_fields(body).0 {
            None => post.failed_upload() && action is Stop,
            Some(c) => if c != 0 {
                post.failed_upload() && action is Stop
            } else {
                match (spec_sts_fields(body).1, spec_sts_fields(body).2, spec_sts_fields(body).3) {
                    (Some(ak), Some(sk), Some(tok)) => (
                    post.phase matches UploadPhase::Initiating { credentials }
                        && credentials.access_key@ == ak && credentials.secret_access_key@ == sk
                        && credentials.session_token@ == tok) && action is SendInit,
                    _ => post.failed_upload() && action is Stop,
                }
            },
        }
    }
}

/// The initiation-response transition.
pub open spec fn init_step_spec(
    credentials: StsCredentials,
    status: u16,
    body: Seq<u8>,
    post: UploadMachine,
    action: UploadAction,
) -> bool {
    if auth_status(status) {
        post.failed_auth() && action is Stop
    } else if !http_success(status) {
        post.failed_upload() && action is Stop
    } else {
        match spec_upload_id(body) {
            Some(id) => (post.phase matches UploadPhase::UploadingPart { credentials: c2, upload_id }
                && c2.access_key@ == credentials.access_key@ && c2.secret_access_key@
                == credentials.secret_access_key@ && c2.session_token@
                == credentials.session_token@ && upload_id@ == id) && action is SendPart,
            None => post.failed_upload() && action is Stop,
        }
    }
}

/// The part-response transition: a stored part is recorded with its
/// ETag as the single entry of the part list.
pub open spec fn part_step_spec(
    credentials: StsCredentials,
    upload_id: Vec<u8>,
    status: u16,
    etag: Option<Vec<u8>>,
    post: UploadMachine,
    action: UploadAction,
) -> bool {
    if auth_status(status) {
        post.failed_auth() && action is Stop
    } else if !http_success(status) {
        post.failed_upload() && action is Stop
    } else {
        match etag {
            Some(e) => (post.phase matches UploadPhase::Completing {
                credentials: c2,
                upload_id: u2,
                parts,
            } && c2.access_key@ == credentials.access_key@ && c2.secret_access_key@
                == credentials.secret_access_key@ && c2.session_token@
                == credentials.session_token@ && u2@ == upload_id@ && crate::jsontext::parts_view(
                parts@,
            ) == seq![(1u32, e@)]) && action is SendComplete,
            None => post.failed_upload() && action is Stop,
        }
    }
}

/// The completion-response transition: only a 2xx here makes the
/// object's public URL the reported outcome.
pub open spec fn complete_step_spec(
    pre: UploadMachine,
    status: u16,
    post: UploadMachine,
    action: UploadAction,
) -> bool {
    if http_success(status) {
        (post.phase matches UploadPhase::Done { result } && !result.instant && result.url@
            == spec_public_url(pre.key@) && result.size == pre.size) && action is Stop
    } else if auth_status(status) {
        post.failed_auth() && action is Stop
    } else {
        post.failed_upload() && action is Stop
    }
}

/// The network-failure transition: one whole-operation attempt is
/// spent, the backoff doubles, and the sequence restarts from the
/// credentials call; an exhausted budget fails with the network kind.
pub open spec fn retry_step_spec(
    pre: UploadMachine,
    post: UploadMachine,
    action: UploadAction,
) -> bool {
    if pre.attempts_used + 1 < pre.max_attempts {
        (post.phase is FetchingCredentials && post.attempts_used == pre.attempts_used + 1) && (
        action matches UploadAction::Backoff { delay_ms } && delay_ms == (500u64 << (
        pre.attempts_used as u64)))
    } else {
        post.failed_network() && action is Stop
    }
}

/// The whole transition relation of the upload machine.
pub open spec fn step_spec(
    pre: UploadMachine,
    event: UploadEvent,
    post: UploadMachine,
    action: UploadAction,
) -> bool {
    match pre.phase {
        UploadPhase::Done { .. } => post == pre && action is Stop,
        UploadPhase::Failed { .. } => post == pre && action is Stop,
        UploadPhase::CheckingExists => match event {
            UploadEvent::ProbeResult { found } => if found {
                (post.phase matches UploadPhase::Done { result } && result.instant && result.url@
                    == spec_public_url(pre.key@) && result.size == pre.size) && action is Stop
            } else {
                (post.phase is FetchingCredentials && post.attempts_used == pre.attempts_used)
                    && action is FetchCredentials
            },
            UploadEvent::NetworkFailure { .. } => (post.phase is FetchingCredentials
                && post.attempts_used == pre.attempts_used) && action is FetchCredentials,
            _ => mismatch_spec(post, action),
        },
        UploadPhase::FetchingCredentials => match event {
            UploadEvent::StsResponse { status, body } => sts_step_spec(status, body@, post, action),
            UploadEvent::NetworkFailure { .. } => retry_step_spec(pre, post, action),
            _ => mismatch_spec(post, action),
        },
        UploadPhase::Initiating { credentials } => match event {
            UploadEvent::InitResponse { status, body } => init_step_spec(
                credentials,
                status,
                body@,
                post,
                action,
            ),
            UploadEvent::NetworkFailure { .. } => retry_step_spec(pre, post, action),
            _ => mismatch_spec(post, action),
        },
        UploadPhase::UploadingPart { credentials, upload_id } => match event {
            UploadEvent::PartResponse { status, etag } => part_step_spec(
                credentials,
                upload_id,
                status,
                etag,
                post,
                action,
            ),
            UploadEvent::NetworkFailure { .. } => retry_step_spec(pre, post, action),
            _ => mismatch_spec(post, action),
        },
        UploadPhase::Completing { .. } => match event {
            UploadEvent::CompleteResponse { status } => complete_step_spec(pre, status, post, action),
            UploadEvent::NetworkFailure { .. } => retry_step_spec(pre, post, action),
            _ => mismatch_spec(post, action),
        },
    }
}

impl UploadMachine {
    /// Starts an upload: hashes the content into its key and begins
    /// with the existence probe.  The retry budget is clamped to
    /// sixteen whole-operation attempts.
    pub fn start(content: &[u8], ext: &[u8], size: u64, max_attempts: u8) -> (m: UploadMachine)
        ensures
            m.key@ == spec_object_key(content@, ext@),
            m.phase is CheckingExists,
            m.size == size,
            m.attempts_used == 0,
            m.max_attempts == if max_attempts <= 16 {
                max_attempts
            } else {
                16
            },
    {
        let key = compute_object_key(content, ext);
        UploadMachine {
            phase: UploadPhase::CheckingExists,
            key,
            size,
            attempts_used: 0,
            max_attempts: if max_attempts <= 16 {
                max_attempts
            } else {
                16
            },
        }
    }

    /// A terminal phase: the machine has reported its outcome.
    pub open spec fn terminal(&self) -> bool {
        self.phase is Done || self.phase is Failed
    }

    /// The machine failed with an authentication error.
    pub open spec fn failed_auth(&self) -> bool {
        self.phase matches UploadPhase::Failed { error } && error is Auth
    }

    /// The machine failed with a provider error.
    pub open spec fn failed_upload(&self) -> bool {
        self.phase matches UploadPhase::Failed { error } && error is Upload
    }

    /// The machine failed with a network error.
    pub open spec fn failed_network(&self) -> bool {
        self.phase matches UploadPhase::Failed { error } && error is Network
    }

    /// Feeds one event into the machine and returns what to do next.
    ///
    /// The contract carries the laws of the sequence: a found probe
    /// finishes instantly without a signed call; a non-instant finish
    /// happens only on a successful completion response, so the
    /// object is never reported reachable before the completion call
    /// succeeded; a 401 or 403 fails with an authentication error at
    /// once; and only network failures back off and retry, within the
    /// attempt budget.
    pub fn step(&mut self, event: UploadEvent) -> (action: UploadAction)
        requires
            old(self).attempts_used <= old(self).max_attempts,
            old(self).max_attempts <= 16,
        ensures
            final(self).key@ == old(self).key@,
            final(self).size == old(self).size,
            final(self).max_attempts == old(self).max_attempts,
            final(self).attempts_used <= final(self).max_attempts,
            step_spec(*old(self), event, *final(self), action),
            // a backoff is issued only for a network failure
            action is Backoff ==> event is NetworkFailure,
            // a non-instant finish answers only a successful completion
            // call: the object is never reported reachable at its public
            // URL before the completion call has succeeded
            (!old(self).terminal() && (final(self).phase matches UploadPhase::Done { result }
                && !result.instant)) ==> (old(self).phase is Completing && (
            event matches UploadEvent::CompleteResponse { status } && http_success(status))),

    {
        let mut phase = UploadPhase::CheckingExists;
        core::mem::swap(&mut phase, &mut self.phase);
        match phase {
            UploadPhase::Done { result } => {
                self.phase = UploadPhase::Done { result };
                UploadAction::Stop
            },
            UploadPhase::Failed { error } => {
                self.phase = UploadPhase::Failed { error };
                UploadAction::Stop
            },
            UploadPhase::CheckingExists => {
                match event {
                    UploadEvent::ProbeResult { found } => {
                        if found {
                            let url = build_public_url(self.key.as_slice());
                            self.phase = UploadPhase::Done {
                                result: NamiUploadResult { url, size: self.size, instant: true },
                            };
                            UploadAction::Stop
                        } else {
                            self.phase = UploadPhase::FetchingCredentials;
                            UploadAction::FetchCredentials
                        }
                    },
                    UploadEvent::NetworkFailure { .. } => {
                        // an unreachable CDN reads as "not stored yet"
                        self.phase = UploadPhase::FetchingCredentials;
                        UploadAction::FetchCredentials
                    },
                    _ => {
                        self.phase = UploadPhase::Failed {
                            error: AppError::validation(
                                string_from_str("event does not answer the pending probe"),
                            ),
                        };
                        UploadAction::Stop
                    },
                }
            },
            UploadPhase::FetchingCredentials => {
                match event {
                    UploadEvent::StsResponse { status, body } => {
                        match parse_sts_response(status, body.as_slice()) {
                            Ok(credentials) => {
                                self.phase = UploadPhase::Initiating { credentials };
                                UploadAction::SendInit
                            },
                            Err(error) => {
                                self.phase = UploadPhase::Failed { error };
                                UploadAction::Stop
                            },
                        }
                    },
                    UploadEvent::NetworkFailure { .. } => self.retry_or_fail(),
                    _ => {
                        self.phase = UploadPhase::Failed {
                            error: AppError::validation(
                                string_from_str(
                                    "event does not answer the pending credentials call",
                                ),
                            ),
                        };
                        UploadAction::Stop
                    },
                }
            },
            UploadPhase::Initiating { credentials } => {
                match event {
                    UploadEvent::InitResponse { status, body } => {
                        if status == 401 || status == 403 {
                            self.phase = UploadPhase::Failed {
                                error: AppError::auth(
                                    string_from_str("initiation rejected: credentials expired"),
                                ),
                            };
                            return UploadAction::Stop;
                        }
                        if !(200 <= status && status < 300) {
                            self.phase = UploadPhase::Failed {
                                error: AppError::upload(
                                    string_from_str("nami"),
                                    string_from_str("initiation failed"),
                                ),
                            };
                            return UploadAction::Stop;
                        }
                        match parse_upload_id(body.as_slice()) {
                            Some(upload_id) => {
                                self.phase = UploadPhase::UploadingPart { credentials, upload_id };
                                UploadAction::SendPart
                            },
                            None => {
                                self.phase = UploadPhase::Failed {
                                    error: AppError::upload(
                                        string_from_str("nami"),
                                        string_from_str("no upload id in the response"),
                                    ),
                                };
                                UploadAction::Stop
                            },
                        }
                    },
                    UploadEvent::NetworkFailure { .. } => self.retry_or_fail(),
                    _ => {
                        self.phase = UploadPhase::Failed {
                            error: AppError::validation(
                                string_from_str("event does not answer the pending initiation"),
                            ),
                        };
                        UploadAction::Stop
                    },
                }
            },
            UploadPhase::UploadingPart { credentials, upload_id } => {
                match event {
                    UploadEvent::PartResponse { status, etag } => {
                        if status == 401 || status == 403 {
                            self.phase = UploadPhase::Failed {
                                error: AppError::auth(
                                    string_from_str("part upload rejected: credentials expired"),
                                ),
                            };
                            return UploadAction::Stop;
                        }
                        if !(200 <= status && status < 300) {
                            self.phase = UploadPhase::Failed {
                                error: AppError::upload(
                                    string_from_str("nami"),
                                    string_from_str("part upload failed"),
                                ),
                            };
                            return UploadAction::Stop;
                        }
                        match etag {
                            Some(e) => {
                                let mut parts: Vec<UploadPart> = Vec::new();
                                parts.push(UploadPart { part_number: 1, etag: e });
                                proof {
                                    assert(crate::jsontext::parts_view(parts@) =~= seq![
                                        (1u32, e@),
                                    ]);
                                }
                                self.phase = UploadPhase::Completing {
                                    credentials,
                                    upload_id,
                                    parts,
                                };
                                UploadAction::SendComplete
                            },
                            None => {
                                self.phase = UploadPhase::Failed {
                                    error: AppError::upload(
                                        string_from_str("nami"),
                                        string_from_str("no ETag in the part response"),
                                    ),
                                };
                                UploadAction::Stop
                            },
                        }
                    },
                    UploadEvent::NetworkFailure { .. } => self.retry_or_fail(),
                    _ => {
                        self.phase = UploadPhase::Failed {
                            error: AppError::validation(
                                string_from_str("event does not answer the pending part upload"),
                            ),
                        };
                        UploadAction::Stop
                    },
                }
            },
            UploadPhase::Completing { credentials, upload_id, parts } => {
                match event {
                    UploadEvent::CompleteResponse { status } => {
                        if 200 <= status && status < 300 {
                            let url = build_public_url(self.key.as_slice());
                            self.phase = UploadPhase::Done {
                                result: NamiUploadResult { url, size: self.size, instant: false },
                            };
                            UploadAction::Stop
                        } else if status == 401 || status == 403 {
                            self.phase = UploadPhase::Failed {
                                error: AppError::auth(
                                    string_from_str("completion rejected: credentials expired"),
                                ),
                            };
                            UploadAction::Stop
                        } else {
                            self.phase = UploadPhase::Failed {
                                error: AppError::upload(
                                    string_from_str("nami"),
                                    string_from_str("completion failed"),
                                ),
                            };
                            UploadAction::Stop
                        }
                    },
                    UploadEvent::NetworkFailure { .. } => {
                        let _ = (credentials, upload_id, parts);
                        self.retry_or_fail()
                    },
                    _ => {
                        self.phase = UploadPhase::Failed {
                            error: AppError::validation(
                                string_from_str("event does not answer the pending completion"),
                            ),
                        };
                        UploadAction::Stop
                    },
                }
            },
        }
    }

    /// Spends one whole-operation attempt on a network failure: backs
    /// off and restarts from the credentials call, or gives up once
    /// the budget is out.
    fn retry_or_fail(&mut self) -> (action: UploadAction)
        requires
            old(self).attempts_used <= old(self).max_attempts,
            old(self).max_attempts <= 16,
        ensures
            final(self).key@ == old(self).key@,
            final(self).size == old(self).size,
            final(self).max_attempts == old(self).max_attempts,
            final(self).attempts_used <= final(self).max_attempts,
            old(self).attempts_used + 1 < old(self).max_attempts ==> (final(self).phase is FetchingCredentials && final(self).attempts_used == old(self).attempts_used
                + 1) && (action matches UploadAction::Backoff { delay_ms } && delay_ms == (500u64
                << (old(self).attempts_used as u64))),
            !(old(self).attempts_used + 1 < old(self).max_attempts) ==> final(self).failed_network()
                && action is Stop,
    {
        if self.attempts_used + 1 < self.max_attempts {
            let delay_ms = 500u64 << (self.attempts_used as u64);
            self.attempts_used = self.attempts_used + 1;
            self.phase = UploadPhase::FetchingCredentials;
            UploadAction::Backoff { delay_ms }
        } else {
            self.phase = UploadPhase::Failed {
                error: AppError::network(
                    string_from_str("network failure persisted through the retry budget"),
                ),
            };
            UploadAction::Stop
        }
    }
}

} // verus!
