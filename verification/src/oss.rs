//! The OSS-backed image-host path: the content hash, the OSS request
//! signature, URL normalization and the status-poll decision.

use vstd::prelude::*;
use crate::byteseq::{ascii_bytes, lit_bytes, push_bytes, sub_vec, to_vec, bytes_eq};
use crate::digests::{
    md5_of, md5_digest, hmac_sha1_of, hmac_sha1_digest, base64_of, base64_standard, hex_lower,
};
use crate::encoding::spec_hex_lower;
use crate::errors::AppError;
use crate::textscan::{find_bytes, is_digit};
use crate::jsontext::{spec_json_string_field, json_string_field};

verus! {

/// What one finished image-host upload reports.
pub struct ZhihuUploadResult {
    pub url: Vec<u8>,
    pub size: u64,
}

/// The hex MD5 of a byte string, the hash the image host dedupes on.
pub fn calculate_md5(data: &[u8]) -> (r: Vec<u8>)
    ensures
        r@ == spec_hex_lower(md5_of(data@)),
{
    let digest = md5_digest(data);
    hex_lower(digest.as_slice())
}

/// The string an OSS PUT signs: the method, the blank content hash,
/// the content type, the date, the two custom headers, and the
/// bucket-qualified object key.
pub open spec fn spec_oss_string_to_sign(
    content_type: Seq<u8>,
    date: Seq<u8>,
    security_token: Seq<u8>,
    object_key: Seq<u8>,
) -> Seq<u8> {
    ascii_bytes("PUT\n\n"@) + content_type + seq![10u8] + date + ascii_bytes("\nx-oss-date:"@)
        + date + ascii_bytes("\nx-oss-security-token:"@) + security_token + ascii_bytes(
        "\n/zhihu-pics/"@,
    ) + object_key
}

/// Signs an OSS PUT: the base64 HMAC-SHA1 of the string to sign under
/// the access key.  HMAC accepts keys of any length, so the error arm
/// of the result is never taken; callers still get the fallible shape
/// the signing interfaces share.
pub fn calculate_oss_signature(
    access_key: &[u8],
    content_type: &[u8],
    date: &[u8],
    security_token: &[u8],
    object_key: &[u8],
) -> (r: Result<Vec<u8>, AppError>)
    ensures
        r matches Ok(v) && v@ == base64_of(
            hmac_sha1_of(
                access_key@,
                spec_oss_string_to_sign(content_type@, date@, security_token@, object_key@),
            ),
        ),
{
    proof {
        reveal_strlit("PUT\n\n");
        reveal_strlit("\nx-oss-date:");
        reveal_strlit("\nx-oss-security-token:");
        reveal_strlit("\n/zhihu-pics/");
    }
    let mut sts = lit_bytes("PUT\n\n");
    push_bytes(&mut sts, content_type);
    sts.push(10);
    push_bytes(&mut sts, date);
    let h1 = lit_bytes("\nx-oss-date:");
    push_bytes(&mut sts, h1.as_slice());
    push_bytes(&mut sts, date);
    let h2 = lit_bytes("\nx-oss-security-token:");
    push_bytes(&mut sts, h2.as_slice());
    push_bytes(&mut sts, security_token);
    let h3 = lit_bytes("\n/zhihu-pics/");
    push_bytes(&mut sts, h3.as_slice());
    push_bytes(&mut sts, object_key);
    proof {
        assert(sts@ =~= spec_oss_string_to_sign(content_type@, date@, security_token@, object_key@));
    }
    let mac = hmac_sha1_digest(access_key, sts.as_slice());
    Ok(base64_standard(mac.as_slice()))
}

/// A lowercase hex digit.
pub open spec fn is_hex_lower(b: u8) -> bool {
    is_digit(b) || (97 <= b <= 102)
}

/// The length of the leading lowercase-hex run of `s`.
pub open spec fn spec_hex_run(s: Seq<u8>) -> int
    decreases s.len(),
{
    if s.len() > 0 && is_hex_lower(s[0]) {
        1 + spec_hex_run(s.skip(1))
    } else {
        0
    }
}

/// The image token of a URL: the first `v2-` followed by at least
/// one lowercase hex digit, with its full hex run.
pub open spec fn spec_image_token_at(url: Seq<u8>, i: int) -> Option<Seq<u8>>
    decreases url.len() - i + 1 when 0 <= i
{
    match crate::textscan::spec_find_at(url, ascii_bytes("v2-"@), i) {
        None => None,
        Some(p) => {
            if p < i || p >= url.len() {
                None
            } else {
                let run = spec_hex_run(url.skip(p + 3));
                if run > 0 {
                    Some(url.subrange(p, p + 3 + run))
                } else {
                    spec_image_token_at(url, p + 1)
                }
            }
        },
    }
}

/// The normalized form of an image URL: where a `v2-<hex>` token
/// occurs, the canonical host and the `.webp` suffix around that
/// token; anywhere else, the URL unchanged.
pub open spec fn spec_normalize_image_url(url: Seq<u8>) -> Seq<u8> {
    match spec_image_token_at(url, 0) {
        Some(tok) => ascii_bytes("https://picx.zhimg.com/"@) + tok + ascii_bytes(".webp"@),
        None => url,
    }
}

proof fn lemma_spec_find_at_shift(s: Seq<u8>, sub: Seq<u8>, i: int, r: int)
    requires
        0 <= i <= r,
        crate::byteseq::matches_at(s, sub, r),
        forall|k: int| i <= k < r ==> !crate::byteseq::matches_at(s, sub, k),
    ensures
        crate::textscan::spec_find_at(s, sub, i) == Some(r),
{
    crate::textscan::lemma_spec_find_at_some(s, sub, i, r);
}

proof fn lemma_spec_find_at_none_shift(s: Seq<u8>, sub: Seq<u8>, i: int)
    requires
        0 <= i,
        forall|k: int| i <= k ==> !crate::byteseq::matches_at(s, sub, k),
    ensures
        crate::textscan::spec_find_at(s, sub, i) is None,
{
    crate::textscan::lemma_spec_find_at_none(s, sub, i);
}

/// Measures the lowercase-hex run at `start`.
fn hex_run_at(url: &[u8], start: usize) -> (r: usize)
    requires
        start <= url@.len(),
    ensures
        r == spec_hex_run(url@.skip(start as int)),
        start + r <= url@.len(),
{
    let n = url.len();
    let mut j = start;
    while j < n && ((url[j] >= 48 && url[j] <= 57) || (url[j] >= 97 && url[j] <= 102))
        invariant
            start <= j <= n,
            n == url@.len(),
            forall|k: int| start <= k < j ==> is_hex_lower(url@[k]),
        decreases n - j,
    {
        j = j + 1;
    }
    proof {
        lemma_hex_run_exact(url@, start as int, j as int);
    }
    j - start
}

proof fn lemma_hex_run_exact(s: Seq<u8>, start: int, end: int)
    requires
        0 <= start <= end <= s.len(),
        forall|k: int| start <= k < end ==> is_hex_lower(s[k]),
        end < s.len() ==> !is_hex_lower(s[end]),
    ensures
        spec_hex_run(s.skip(start)) == end - start,
    decreases end - start,
{
    if start == end {
        if end < s.len() {
            assert(s.skip(start)[0] == s[end]);
        }
    } else {
        assert(is_hex_lower(s.skip(start)[0]));
        assert(s.skip(start).skip(1) =~= s.skip(start + 1));
        lemma_hex_run_exact(s, start + 1, end);
    }
}

/// Normalizes an image URL to the canonical `v2-<hex>.webp` form
/// where its token occurs, and leaves it alone otherwise.
pub fn normalize_image_url(url: &[u8]) -> (r: Vec<u8>)
    ensures
        r@ == spec_normalize_image_url(url@),
{
    proof {
        reveal_strlit("v2-");
        reveal_strlit("https://picx.zhimg.com/");
        reveal_strlit(".webp");
    }
    let pat = lit_bytes("v2-");
    let n = url.len();
    let mut i: usize = 0;
    loop
        invariant
            i <= n,
            n == url@.len(),
            pat@ == ascii_bytes("v2-"@),
            pat@.len() == 3,
            spec_image_token_at(url@, 0) == spec_image_token_at(url@, i as int),
        decreases n - i,
    {
        let rest = sub_vec(url, i, n);
        proof {
            assert(rest@ =~= url@.skip(i as int));
        }
        match find_bytes(rest.as_slice(), pat.as_slice()) {
            None => {
                proof {
                    crate::textscan::lemma_spec_find_props(rest@, pat@);
                    assert forall|k: int|
                        i <= k implies !crate::byteseq::matches_at(url@, pat@, k) by {
                        if 0 <= k && k + pat@.len() <= url@.len() {
                            if crate::byteseq::matches_at(url@, pat@, k) {
                                assert(rest@.subrange(k - i, k - i + 3) =~= url@.subrange(
                                    k,
                                    k + 3,
                                ));
                                assert(crate::byteseq::matches_at(rest@, pat@, k - i));
                                assert(false);
                            }
                        }
                    }
                    lemma_spec_find_at_none_shift(url@, pat@, i as int);
                }
                return to_vec(url);
            },
            Some(off) => {
                let p = i + off;
                proof {
                    crate::textscan::lemma_spec_find_props(rest@, pat@);
                    assert(url@.subrange(p as int, p + 3) =~= rest@.subrange(off as int, off + 3));
                    assert(crate::byteseq::matches_at(url@, pat@, p as int));
                    assert forall|k: int|
                        i <= k < p implies !crate::byteseq::matches_at(url@, pat@, k) by {
                        if 0 <= k && k + pat@.len() <= url@.len() {
                            if crate::byteseq::matches_at(url@, pat@, k) {
                                assert(rest@.subrange(k - i, k - i + 3) =~= url@.subrange(
                                    k,
                                    k + 3,
                                ));
                                assert(crate::byteseq::matches_at(rest@, pat@, k - i));
                                assert(false);
                            }
                        }
                    }
                    lemma_spec_find_at_shift(url@, pat@, i as int, p as int);
                }
                let run = hex_run_at(url, p + 3);
                if run > 0 {
                    let token = sub_vec(url, p, p + 3 + run);
                    proof {
                        reveal_strlit("https://picx.zhimg.com/");
                        reveal_strlit(".webp");
                        assert(token@ =~= url@.subrange(p as int, p + 3 + run));
                    }
                    let mut out = lit_bytes("https://picx.zhimg.com/");
                    push_bytes(&mut out, token.as_slice());
                    let suffix = lit_bytes(".webp");
                    push_bytes(&mut out, suffix.as_slice());
                    proof {
                        assert(out@ =~= spec_normalize_image_url(url@));
                    }
                    return out;
                }
                i = p + 1;
            },
        }
    }
}

/// The image extensions the host accepts.
pub fn is_supported_image_ext(ext: &[u8]) -> (r: bool)
    ensures
        r == (ext@ == ascii_bytes("jpg"@) || ext@ == ascii_bytes("jpeg"@) || ext@ == ascii_bytes(
            "png"@,
        ) || ext@ == ascii_bytes("gif"@) || ext@ == ascii_bytes("webp"@)),
{
    proof {
        reveal_strlit("jpg");
        reveal_strlit("jpeg");
        reveal_strlit("png");
        reveal_strlit("gif");
        reveal_strlit("webp");
    }
    let jpg = lit_bytes("jpg");
    let jpeg = lit_bytes("jpeg");
    let png = lit_bytes("png");
    let gif = lit_bytes("gif");
    let webp = lit_bytes("webp");
    bytes_eq(ext, jpg.as_slice()) || bytes_eq(ext, jpeg.as_slice()) || bytes_eq(ext, png.as_slice())
        || bytes_eq(ext, gif.as_slice()) || bytes_eq(ext, webp.as_slice())
}

/// The MIME type of a supported image extension; the host's default
/// is JPEG.
pub open spec fn spec_mime_type(ext: Seq<u8>) -> Seq<u8> {
    if ext == ascii_bytes("png"@) {
        ascii_bytes("image/png"@)
    } else if ext == ascii_bytes("gif"@) {
        ascii_bytes("image/gif"@)
    } else if ext == ascii_bytes("webp"@) {
        ascii_bytes("image/webp"@)
    } else {
        ascii_bytes("image/jpeg"@)
    }
}

/// Maps an extension to its MIME type.
pub fn get_mime_type(ext: &[u8]) -> (r: Vec<u8>)
    ensures
        r@ == spec_mime_type(ext@),
{
    proof {
        reveal_strlit("png");
        reveal_strlit("gif");
        reveal_strlit("webp");
        reveal_strlit("image/png");
        reveal_strlit("image/gif");
        reveal_strlit("image/webp");
        reveal_strlit("image/jpeg");
    }
    let png = lit_bytes("png");
    let gif = lit_bytes("gif");
    let webp = lit_bytes("webp");
    if bytes_eq(ext, png.as_slice()) {
        lit_bytes("image/png")
    } else if bytes_eq(ext, gif.as_slice()) {
        lit_bytes("image/gif")
    } else if bytes_eq(ext, webp.as_slice()) {
        lit_bytes("image/webp")
    } else {
        lit_bytes("image/jpeg")
    }
}

/// What the status poll decides from one status response.
pub enum PollDecision {
    /// The image is still processing; poll again.
    Continue,
    /// Processing finished and a URL came back.
    Finished { url: Vec<u8> },
    /// Processing finished but no URL was returned.
    MissingUrl,
}

/// Decides the next poll step from a status response body: a
/// `processing` status continues, any other status finishes with the
/// `url` field or, failing that, the `original_src` field.
pub fn decide_poll(body: &[u8]) -> (r: PollDecision)
    ensures
        spec_json_string_field(body@, ascii_bytes("status"@)) == Some(ascii_bytes("processing"@))
            ==> r is Continue,
        spec_json_string_field(body@, ascii_bytes("status"@)) != Some(ascii_bytes("processing"@))
            ==> match spec_json_string_field(body@, ascii_bytes("url"@)) {
            Some(u) => r matches PollDecision::Finished { url } && url@ == u,
            None => match spec_json_string_field(body@, ascii_bytes("original_src"@)) {
                Some(u) => r matches PollDecision::Finished { url } && url@ == u,
                None => r is MissingUrl,
            },
        },
{
    proof {
        reveal_strlit("status");
        reveal_strlit("processing");
        reveal_strlit("url");
        reveal_strlit("original_src");
    }
    let status_tag = lit_bytes("status");
    let processing = lit_bytes("processing");
    let still = match json_string_field(body, status_tag.as_slice()) {
        Some(s) => bytes_eq(s.as_slice(), processing.as_slice()),
        None => false,
    };
    if still {
        return PollDecision::Continue;
    }
    let url_tag = lit_bytes("url");
    match json_string_field(body, url_tag.as_slice()) {
        Some(url) => PollDecision::Finished { url },
        None => {
            let src_tag = lit_bytes("original_src");
            match json_string_field(body, src_tag.as_slice()) {
                Some(url) => PollDecision::Finished { url },
                None => PollDecision::MissingUrl,
            }
        },
    }
}

} // verus!
