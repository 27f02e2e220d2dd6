//! S3-compatible store plumbing: the per-provider endpoint table, the
//! flexible credential configuration, error classification for the
//! connection test, the bounded-retry delays, and the public-URL and
//! basic-auth builders.

use vstd::prelude::*;
use vstd::string::{StringExecFns, StringSliceAdditionalSpecFns};
use crate::byteseq::{ascii_bytes, contains_seq, lit_bytes, contains_bytes, push_bytes};
use crate::digests::{base64_of, base64_standard};
use crate::errors::{AppError, string_from_str};

verus! {

/// What one upload to an S3-compatible store reports.
pub struct S3UploadResult {
    pub url: String,
    pub key: String,
}

/// A connection-test configuration, tolerant of the field names the
/// different providers use for the same three values.
pub struct S3TestConfig {
    pub account_id: Option<String>,
    pub access_key_id: Option<String>,
    pub secret_id: Option<String>,
    pub access_key: Option<String>,
    pub operator: Option<String>,
    pub secret_access_key: Option<String>,
    pub secret_key: Option<String>,
    pub access_key_secret: Option<String>,
    pub password: Option<String>,
    pub bucket_name: Option<String>,
    pub bucket: Option<String>,
    pub region: Option<String>,
}

/// The view of an optional string.
pub open spec fn opt_view(o: Option<String>) -> Option<Seq<char>> {
    match o {
        Some(s) => Some(s@),
        None => None,
    }
}

/// Which field serves as the access key: the first one set, in the
/// fixed precedence order.
pub open spec fn spec_access_key_of(c: S3TestConfig) -> Option<Seq<char>> {
    if c.access_key_id is Some {
        opt_view(c.access_key_id)
    } else if c.secret_id is Some {
        opt_view(c.secret_id)
    } else if c.access_key is Some {
        opt_view(c.access_key)
    } else {
        opt_view(c.operator)
    }
}

/// Which field serves as the secret key.
pub open spec fn spec_secret_key_of(c: S3TestConfig) -> Option<Seq<char>> {
    if c.secret_access_key is Some {
        opt_view(c.secret_access_key)
    } else if c.secret_key is Some {
        opt_view(c.secret_key)
    } else if c.access_key_secret is Some {
        opt_view(c.access_key_secret)
    } else {
        opt_view(c.password)
    }
}

/// Which field serves as the bucket name.
pub open spec fn spec_bucket_of(c: S3TestConfig) -> Option<Seq<char>> {
    if c.bucket_name is Some {
        opt_view(c.bucket_name)
    } else {
        opt_view(c.bucket)
    }
}

impl S3TestConfig {
    /// The access key, whichever field carries it.
    pub fn get_access_key(&self) -> (r: Option<String>)
        ensures
            opt_view(r) == spec_access_key_of(*self),
    {
        match &self.access_key_id {
            Some(s) => Some(s.clone()),
            None => match &self.secret_id {
                Some(s) => Some(s.clone()),
                None => match &self.access_key {
                    Some(s) => Some(s.clone()),
                    None => match &self.operator {
                        Some(s) => Some(s.clone()),
                        None => None,
                    },
                },
            },
        }
    }

    /// The secret key, whichever field carries it.
    pub fn get_secret_key(&self) -> (r: Option<String>)
        ensures
            opt_view(r) == spec_secret_key_of(*self),
    {
        match &self.secret_access_key {
            Some(s) => Some(s.clone()),
            None => match &self.secret_key {
                Some(s) => Some(s.clone()),
                None => match &self.access_key_secret {
                    Some(s) => Some(s.clone()),
                    None => match &self.password {
                        Some(s) => Some(s.clone()),
                        None => None,
                    },
                },
            },
        }
    }

    /// The bucket name, whichever field carries it.
    pub fn get_bucket(&self) -> (r: Option<String>)
        ensures
            opt_view(r) == spec_bucket_of(*self),
    {
        match &self.bucket_name {
            Some(s) => Some(s.clone()),
            None => match &self.bucket {
                Some(s) => Some(s.clone()),
                None => None,
            },
        }
    }
}

/// The endpoint and region for a provider id.  The providers that
/// embed the region in their endpoint require one; the flat-namespace
/// provider requires its account id instead.
#[verifier::rlimit(60)]
pub fn build_s3_endpoint(service_id: &str, account_id: &Option<String>, region: &Option<String>)
    -> (r: Result<(String, String), AppError>)
    ensures
        service_id.spec_bytes() == ascii_bytes("r2"@) ==> match account_id {
            Some(a) => if a@.len() > 0 {
                r matches Ok((e, rg)) && e@ == "https://"@ + a@ + ".r2.cloudflarestorage.com"@
                    && rg@ == "auto"@
            } else {
                r matches Err(e) && e is Config
            },
            None => r matches Err(e) && e is Config,
        },
        service_id.spec_bytes() == ascii_bytes("tencent"@) ==> match region {
            Some(rv) => if rv@.len() > 0 {
                r matches Ok((e, rg)) && e@ == "https://cos."@ + rv@ + ".myqcloud.com"@ && rg@
                    == rv@
            } else {
                r matches Err(e) && e is Config
            },
            None => r matches Err(e) && e is Config,
        },
        service_id.spec_bytes() == ascii_bytes("aliyun"@) ==> match region {
            Some(rv) => if rv@.len() > 0 {
                r matches Ok((e, rg)) && e@ == "https://oss-"@ + rv@ + ".aliyuncs.com"@ && rg@
                    == rv@
            } else {
                r matches Err(e) && e is Config
            },
            None => r matches Err(e) && e is Config,
        },
        service_id.spec_bytes() == ascii_bytes("qiniu"@) ==> match region {
            Some(rv) => if rv@.len() > 0 {
                r matches Ok((e, rg)) && e@ == "https://s3-"@ + rv@ + ".qiniucs.com"@ && rg@ == rv@
            } else {
                r matches Err(e) && e is Config
            },
            None => r matches Err(e) && e is Config,
        },
        service_id.spec_bytes() != ascii_bytes("r2"@) && service_id.spec_bytes() != ascii_bytes(
            "tencent"@,
        ) && service_id.spec_bytes() != ascii_bytes("aliyun"@) && service_id.spec_bytes()
            != ascii_bytes("qiniu"@) ==> (r matches Err(e) && e is Config),
{
    proof {
        reveal_strlit("r2");
        reveal_strlit("tencent");
        reveal_strlit("aliyun");
        reveal_strlit("qiniu");
        // pin the views of the four provider ids apart
        assert(ascii_bytes("r2"@).len() == 2);
        assert(ascii_bytes("tencent"@).len() == 7);
        assert(ascii_bytes("aliyun"@).len() == 6);
        assert(ascii_bytes("qiniu"@).len() == 5);
    }
    let sid = service_id.as_bytes();
    let r2 = lit_bytes("r2");
    let tencent = lit_bytes("tencent");
    let aliyun = lit_bytes("aliyun");
    let qiniu = lit_bytes("qiniu");
    if crate::byteseq::bytes_eq(sid, r2.as_slice()) {
        match account_id {
            Some(a) => {
                if a.as_str().unicode_len() > 0 {
                    let mut e = String::from_str("https://");
                    e.append(a.as_str());
                    e.append(".r2.cloudflarestorage.com");
                    Ok((e, String::from_str("auto")))
                } else {
                    Err(AppError::config(string_from_str("the account id must not be empty")))
                }
            },
            None => Err(AppError::config(string_from_str("the account id must not be empty"))),
        }
    } else if crate::byteseq::bytes_eq(sid, tencent.as_slice()) {
        match region {
            Some(rv) => {
                if rv.as_str().unicode_len() > 0 {
                    let mut e = String::from_str("https://cos.");
                    e.append(rv.as_str());
                    e.append(".myqcloud.com");
                    Ok((e, rv.clone()))
                } else {
                    Err(AppError::config(string_from_str("the region must not be empty")))
                }
            },
            None => Err(AppError::config(string_from_str("the region must not be empty"))),
        }
    } else if crate::byteseq::bytes_eq(sid, aliyun.as_slice()) {
        match region {
            Some(rv) => {
                if rv.as_str().unicode_len() > 0 {
                    let mut e = String::from_str("https://oss-");
                    e.append(rv.as_str());
                    e.append(".aliyuncs.com");
                    Ok((e, rv.clone()))
                } else {
                    Err(AppError::config(string_from_str("the region must not be empty")))
                }
            },
            None => Err(AppError::config(string_from_str("the region must not be empty"))),
        }
    } else if crate::byteseq::bytes_eq(sid, qiniu.as_slice()) {
        match region {
            Some(rv) => {
                if rv.as_str().unicode_len() > 0 {
                    let mut e = String::from_str("https://s3-");
                    e.append(rv.as_str());
                    e.append(".qiniucs.com");
                    Ok((e, rv.clone()))
                } else {
                    Err(AppError::config(string_from_str("the region must not be empty")))
                }
            },
            None => Err(AppError::config(string_from_str("the region must not be empty"))),
        }
    } else {
        Err(AppError::config(string_from_str("unsupported provider id")))
    }
}

/// The display name of a provider id; an unknown id names itself.
#[verifier::rlimit(60)]
pub fn get_service_name(service_id: &str) -> (r: String)
    ensures
        service_id.spec_bytes() == ascii_bytes("r2"@) ==> r@ == "Cloudflare R2"@,
        service_id.spec_bytes() == ascii_bytes("tencent"@) ==> r@ == "Tencent COS"@,
        service_id.spec_bytes() == ascii_bytes("aliyun"@) ==> r@ == "Aliyun OSS"@,
        service_id.spec_bytes() == ascii_bytes("qiniu"@) ==> r@ == "Qiniu"@,
        service_id.spec_bytes() == ascii_bytes("upyun"@) ==> r@ == "Upyun"@,
        service_id.spec_bytes() != ascii_bytes("r2"@) && service_id.spec_bytes() != ascii_bytes(
            "tencent"@,
        ) && service_id.spec_bytes() != ascii_bytes("aliyun"@) && service_id.spec_bytes()
            != ascii_bytes("qiniu"@) && service_id.spec_bytes() != ascii_bytes("upyun"@) ==> r@
            == service_id@,
{
    proof {
        reveal_strlit("r2");
        reveal_strlit("tencent");
        reveal_strlit("aliyun");
        reveal_strlit("qiniu");
        reveal_strlit("upyun");
        // pin the views of the five provider ids apart
        assert(ascii_bytes("r2"@).len() == 2);
        assert(ascii_bytes("tencent"@).len() == 7);
        assert(ascii_bytes("aliyun"@).len() == 6);
        assert(ascii_bytes("qiniu"@).len() == 5);
        assert(ascii_bytes("upyun"@).len() == 5);
        assert(ascii_bytes("qiniu"@)[0] == 113u8);
        assert(ascii_bytes("upyun"@)[0] == 117u8);
    }
    let sid = service_id.as_bytes();
    let r2 = lit_bytes("r2");
    let tencent = lit_bytes("tencent");
    let aliyun = lit_bytes("aliyun");
    let qiniu = lit_bytes("qiniu");
    let upyun = lit_bytes("upyun");
    if crate::byteseq::bytes_eq(sid, r2.as_slice()) {
        String::from_str("Cloudflare R2")
    } else if crate::byteseq::bytes_eq(sid, tencent.as_slice()) {
        String::from_str("Tencent COS")
    } else if crate::byteseq::bytes_eq(sid, aliyun.as_slice()) {
        String::from_str("Aliyun OSS")
    } else if crate::byteseq::bytes_eq(sid, qiniu.as_slice()) {
        String::from_str("Qiniu")
    } else if crate::byteseq::bytes_eq(sid, upyun.as_slice()) {
        String::from_str("Upyun")
    } else {
        service_id.to_owned()
    }
}

/// Whether a store error message names a transient network condition
/// that a bounded retry may fix.
pub fn is_retriable_error(error_msg: &str) -> (r: bool)
    ensures
        r == (contains_seq(error_msg.spec_bytes(), ascii_bytes("dispatch failure"@))
            || contains_seq(error_msg.spec_bytes(), ascii_bytes("connection reset"@))
            || contains_seq(error_msg.spec_bytes(), ascii_bytes("connection closed"@))
            || contains_seq(error_msg.spec_bytes(), ascii_bytes("timeout"@)) || contains_seq(
            error_msg.spec_bytes(),
            ascii_bytes("hyper"@),
        )),
{
    proof {
        reveal_strlit("dispatch failure");
        reveal_strlit("connection reset");
        reveal_strlit("connection closed");
        reveal_strlit("timeout");
        reveal_strlit("hyper");
    }
    let m = error_msg.as_bytes();
    let p1 = lit_bytes("dispatch failure");
    let p2 = lit_bytes("connection reset");
    let p3 = lit_bytes("connection closed");
    let p4 = lit_bytes("timeout");
    let p5 = lit_bytes("hyper");
    contains_bytes(m, p1.as_slice()) || contains_bytes(m, p2.as_slice()) || contains_bytes(
        m,
        p3.as_slice(),
    ) || contains_bytes(m, p4.as_slice()) || contains_bytes(m, p5.as_slice())
}

/// How a failed connection test is classified, in the order the
/// error markers are checked.
pub enum S3ErrorVerdict {
    /// The bucket does not exist: a configuration problem.
    BucketMissing,
    /// The credentials were rejected: never retried.
    AccessDenied,
    /// The signature did not match: a secret-key problem, never
    /// retried.
    SignatureMismatch,
    /// The bucket name is invalid.
    InvalidBucketName,
    /// None of the fatal markers: possibly transient.
    Other,
}

/// Classifies a store error message by its marker strings.
pub fn classify_s3_error(msg: &str) -> (r: S3ErrorVerdict)
    ensures
        contains_seq(msg.spec_bytes(), ascii_bytes("NoSuchBucket"@)) ==> r is BucketMissing,
        !contains_seq(msg.spec_bytes(), ascii_bytes("NoSuchBucket"@)) && (contains_seq(
            msg.spec_bytes(),
            ascii_bytes("AccessDenied"@),
        ) || contains_seq(msg.spec_bytes(), ascii_bytes("InvalidAccessKeyId"@))) ==> r
            is AccessDenied,
        !contains_seq(msg.spec_bytes(), ascii_bytes("NoSuchBucket"@)) && !contains_seq(
            msg.spec_bytes(),
            ascii_bytes("AccessDenied"@),
        ) && !contains_seq(msg.spec_bytes(), ascii_bytes("InvalidAccessKeyId"@)) && contains_seq(
            msg.spec_bytes(),
            ascii_bytes("SignatureDoesNotMatch"@),
        ) ==> r is SignatureMismatch,
        !contains_seq(msg.spec_bytes(), ascii_bytes("NoSuchBucket"@)) && !contains_seq(
            msg.spec_bytes(),
            ascii_bytes("AccessDenied"@),
        ) && !contains_seq(msg.spec_bytes(), ascii_bytes("InvalidAccessKeyId"@)) && !contains_seq(
            msg.spec_bytes(),
            ascii_bytes("SignatureDoesNotMatch"@),
        ) && contains_seq(msg.spec_bytes(), ascii_bytes("InvalidBucketName"@)) ==> r
            is InvalidBucketName,
        !contains_seq(msg.spec_bytes(), ascii_bytes("NoSuchBucket"@)) && !contains_seq(
            msg.spec_bytes(),
            ascii_bytes("AccessDenied"@),
        ) && !contains_seq(msg.spec_bytes(), ascii_bytes("InvalidAccessKeyId"@)) && !contains_seq(
            msg.spec_bytes(),
            ascii_bytes("SignatureDoesNotMatch"@),
        ) && !contains_seq(msg.spec_bytes(), ascii_bytes("InvalidBucketName"@)) ==> r is Other,
{
    proof {
        reveal_strlit("NoSuchBucket");
        reveal_strlit("AccessDenied");
        reveal_strlit("InvalidAccessKeyId");
        reveal_strlit("SignatureDoesNotMatch");
        reveal_strlit("InvalidBucketName");
    }
    let m = msg.as_bytes();
    let p1 = lit_bytes("NoSuchBucket");
    if contains_bytes(m, p1.as_slice()) {
        return S3ErrorVerdict::BucketMissing;
    }
    let p2 = lit_bytes("AccessDenied");
    let p3 = lit_bytes("InvalidAccessKeyId");
    if contains_bytes(m, p2.as_slice()) || contains_bytes(m, p3.as_slice()) {
        return S3ErrorVerdict::AccessDenied;
    }
    let p4 = lit_bytes("SignatureDoesNotMatch");
    if contains_bytes(m, p4.as_slice()) {
        return S3ErrorVerdict::SignatureMismatch;
    }
    let p5 = lit_bytes("InvalidBucketName");
    if contains_bytes(m, p5.as_slice()) {
        return S3ErrorVerdict::InvalidBucketName;
    }
    S3ErrorVerdict::Other
}

/// The exponential backoff for the connection test: the first wait is
/// a tenth of a second and each retry doubles it.
pub fn s3_retry_delay_ms(attempt: u32) -> (r: u64)
    requires
        1 <= attempt <= 16,
    ensures
        r == (100u64 << ((attempt - 1) as u64)),
{
    100u64 << ((attempt - 1) as u64)
}

/// A byte string with its trailing slashes removed.
pub open spec fn spec_trim_trailing_slashes(s: Seq<u8>) -> Seq<u8>
    decreases s.len(),
{
    if s.len() > 0 && s[s.len() - 1] == 47 {
        spec_trim_trailing_slashes(s.drop_last())
    } else {
        s
    }
}

proof fn lemma_trim_slashes_take(s: Seq<u8>, j: int)
    requires
        0 <= j <= s.len(),
        forall|k: int| j <= k < s.len() ==> s[k] == 47,
        j > 0 ==> s[j - 1] != 47,
    ensures
        spec_trim_trailing_slashes(s) == s.take(j),
    decreases s.len() - j,
{
    if j == s.len() {
        assert(s.take(j) =~= s);
    } else {
        assert(s[s.len() - 1] == 47);
        assert(s.drop_last().take(j) =~= s.take(j));
        lemma_trim_slashes_take(s.drop_last(), j);
    }
}

/// The public URL of an uploaded object: under a configured public
/// domain (trailing slashes dropped), or under the endpoint and
/// bucket where no domain is set.
pub open spec fn spec_s3_public_url(
    endpoint: Seq<u8>,
    bucket: Seq<u8>,
    key: Seq<u8>,
    public_domain: Seq<u8>,
) -> Seq<u8> {
    if public_domain.len() == 0 {
        endpoint + seq![47u8] + bucket + seq![47u8] + key
    } else {
        spec_trim_trailing_slashes(public_domain) + seq![47u8] + key
    }
}

/// Builds the public URL of an uploaded object.
pub fn build_s3_public_url(endpoint: &[u8], bucket: &[u8], key: &[u8], public_domain: &[u8]) -> (r:
    Vec<u8>)
    ensures
        r@ == spec_s3_public_url(endpoint@, bucket@, key@, public_domain@),
{
    if public_domain.len() == 0 {
        let mut out: Vec<u8> = Vec::new();
        push_bytes(&mut out, endpoint);
        out.push(47);
        push_bytes(&mut out, bucket);
        out.push(47);
        push_bytes(&mut out, key);
        proof {
            assert(out@ =~= spec_s3_public_url(endpoint@, bucket@, key@, public_domain@));
        }
        out
    } else {
        let n = public_domain.len();
        let mut end: usize = n;
        while end > 0 && public_domain[end - 1] == 47
            invariant
                end <= n,
                n == public_domain@.len(),
                forall|k: int| end <= k < n ==> public_domain@[k] == 47,
            decreases end,
        {
            end = end - 1;
        }
        let mut out = crate::byteseq::sub_vec(public_domain, 0, end);
        proof {
            lemma_trim_slashes_take(public_domain@, end as int);
        }
        out.push(47);
        push_bytes(&mut out, key);
        proof {
            assert(out@ =~= spec_s3_public_url(endpoint@, bucket@, key@, public_domain@));
        }
        out
    }
}

/// The basic-authentication header value for a user and secret.
pub fn build_basic_auth(user: &[u8], secret: &[u8]) -> (r: Vec<u8>)
    ensures
        r@ == ascii_bytes("Basic "@) + base64_of(user@ + seq![58u8] + secret@),
{
    proof {
        reveal_strlit("Basic ");
    }
    let mut raw: Vec<u8> = Vec::new();
    push_bytes(&mut raw, user);
    raw.push(58);
    push_bytes(&mut raw, secret);
    proof {
        assert(raw@ =~= user@ + seq![58u8] + secret@);
    }
    let encoded = base64_standard(raw.as_slice());
    let mut out = lit_bytes("Basic ");
    push_bytes(&mut out, encoded.as_slice());
    proof {
        assert(out@ =~= ascii_bytes("Basic "@) + base64_of(user@ + seq![58u8] + secret@));
    }
    out
}

/// What one step of a bounded deletion retry decides.
pub enum DeleteStep {
    /// A success status: the object is gone, stop.
    Done,
    /// A client error: the store refused the request, and retrying a
    /// refusal cannot help.
    Refused,
    /// A server error or a transport failure: wait this long, then
    /// try again.
    Retry { delay_ms: u64 },
    /// The same, but the attempt budget is out.
    GiveUp,
}

/// A deletion outcome worth retrying: a transport failure (no status
/// at all), or any status that is neither a success nor a client
/// error.
pub open spec fn delete_retryable(status: Option<u16>) -> bool {
    match status {
        Some(s) => !(200 <= s < 300) && !(400 <= s < 500),
        None => true,
    }
}

/// Decides the next step of a bounded deletion retry from the
/// attempt's outcome: a 2xx finishes, a 4xx fails outright, and
/// anything else retries with a doubling delay until the budget is
/// out.  `status` is the answered status, or nothing for a transport
/// failure; `attempts_used` counts the attempts already made.
pub fn delete_retry_decision(status: Option<u16>, attempts_used: u32, max_attempts: u32) -> (r:
    DeleteStep)
    requires
        attempts_used < max_attempts <= 16,
    ensures
        (status matches Some(s) && 200 <= s < 300) ==> r is Done,
        (status matches Some(s) && 400 <= s < 500) ==> r is Refused,
        delete_retryable(status) && attempts_used + 1 < max_attempts ==> (
        r matches DeleteStep::Retry { delay_ms } && delay_ms == (500u64 << ((attempts_used
            + 1) as u64))),
        delete_retryable(status) && attempts_used + 1 >= max_attempts ==> r is GiveUp,
{
    match status {
        Some(s) => {
            if 200 <= s && s < 300 {
                return DeleteStep::Done;
            }
            if 400 <= s && s < 500 {
                return DeleteStep::Refused;
            }
        },
        None => {},
    }
    if attempts_used + 1 < max_attempts {
        DeleteStep::Retry { delay_ms: 500u64 << ((attempts_used + 1) as u64) }
    } else {
        DeleteStep::GiveUp
    }
}

/// What a simple status-only connection test shows.
pub enum ConnectionVerdict {
    /// A success status: the store answered.
    Reachable,
    /// The credentials were rejected.
    Unauthorized,
    /// The bucket or path does not exist.
    Missing,
    /// Any other status.
    Other,
}

/// Classifies a REST connection test by its status code, counting
/// the multi-status answer a WebDAV listing returns as reachable.
/// Both 401 and 403 read as rejected credentials: object stores
/// answer a probe under bad keys with 403.
pub fn classify_probe_status(status: u16, multi_status_ok: bool) -> (r: ConnectionVerdict)
    ensures
        (200 <= status < 300 || (multi_status_ok && status == 207)) ==> r is Reachable,
        !(200 <= status < 300 || (multi_status_ok && status == 207)) && (status == 401 || status
            == 403) ==> r is Unauthorized,
        !(200 <= status < 300 || (multi_status_ok && status == 207)) && status == 404 ==> r
            is Missing,
        !(200 <= status < 300 || (multi_status_ok && status == 207)) && status != 401 && status
            != 403 && status != 404 ==> r is Other,
{
    if (200 <= status && status < 300) || (multi_status_ok && status == 207) {
        ConnectionVerdict::Reachable
    } else if status == 401 || status == 403 {
        ConnectionVerdict::Unauthorized
    } else if status == 404 {
        ConnectionVerdict::Missing
    } else {
        ConnectionVerdict::Other
    }
}

} // verus!
