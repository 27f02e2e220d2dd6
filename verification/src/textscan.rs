//! Tolerant text scanning: first-occurrence search with a spec-level
//! definition, whitespace trimming, decimal parsing and rendering.
//! The provider-response parsers are built from these pieces, so each
//! parse result is pinned down as a function of the input bytes.

use vstd::prelude::*;
use crate::byteseq::{ascii_bytes, contains_seq, find_first, lit_bytes, matches_at};
use crate::errors::{AppError, string_from_str};

verus! {

/// The position of the first occurrence of `sub` in `s` at or after
/// `i`, if any.
pub open spec fn spec_find_at(s: Seq<u8>, sub: Seq<u8>, i: int) -> Option<int>
    decreases s.len() - i + 1 when 0 <= i
{
    if i + sub.len() > s.len() {
        None
    } else if s.subrange(i, i + sub.len() as int) == sub {
        Some(i)
    } else {
        spec_find_at(s, sub, i + 1)
    }
}

/// The position of the first occurrence of `sub` in `s`, if any.
pub open spec fn spec_find(s: Seq<u8>, sub: Seq<u8>) -> Option<int> {
    spec_find_at(s, sub, 0)
}

pub proof fn lemma_spec_find_at_some(s: Seq<u8>, sub: Seq<u8>, i: int, r: int)
    requires
        0 <= i <= r,
        matches_at(s, sub, r),
        forall|k: int| i <= k < r ==> !matches_at(s, sub, k),
    ensures
        spec_find_at(s, sub, i) == Some(r),
    decreases r - i,
{
    if i == r {
    } else {
        assert(!matches_at(s, sub, i));
        lemma_spec_find_at_some(s, sub, i + 1, r);
    }
}

pub proof fn lemma_spec_find_at_none(s: Seq<u8>, sub: Seq<u8>, i: int)
    requires
        0 <= i,
        forall|k: int| i <= k ==> !matches_at(s, sub, k),
    ensures
        spec_find_at(s, sub, i) == None::<int>,
    decreases s.len() - i + 1,
{
    if i + sub.len() > s.len() {
    } else {
        assert(!matches_at(s, sub, i));
        lemma_spec_find_at_none(s, sub, i + 1);
    }
}

proof fn lemma_spec_find_at_props(s: Seq<u8>, sub: Seq<u8>, i: int)
    requires
        0 <= i,
    ensures
        match spec_find_at(s, sub, i) {
            Some(r) => i <= r && matches_at(s, sub, r) && forall|k: int|
                i <= k < r ==> !matches_at(s, sub, k),
            None => forall|k: int| i <= k ==> !matches_at(s, sub, k),
        },
    decreases s.len() - i + 1,
{
    if i + sub.len() > s.len() {
    } else if s.subrange(i, i + sub.len() as int) == sub {
    } else {
        lemma_spec_find_at_props(s, sub, i + 1);
    }
}

/// What `spec_find` returning an index or nothing means: a first
/// match, or no match anywhere.
pub proof fn lemma_spec_find_props(s: Seq<u8>, sub: Seq<u8>)
    ensures
        match spec_find(s, sub) {
            Some(i) => 0 <= i && matches_at(s, sub, i) && forall|k: int|
                0 <= k < i ==> !matches_at(s, sub, k),
            None => forall|k: int| !matches_at(s, sub, k),
        },
{
    lemma_spec_find_at_props(s, sub, 0);
}

/// A match with nothing before it is what `spec_find` returns.
pub proof fn lemma_spec_find_first(s: Seq<u8>, sub: Seq<u8>, r: int)
    requires
        matches_at(s, sub, r),
        forall|k: int| 0 <= k < r ==> !matches_at(s, sub, k),
    ensures
        spec_find(s, sub) == Some(r),
{
    lemma_spec_find_at_some(s, sub, 0, r);
}

/// With no match anywhere, `spec_find` returns nothing.
pub proof fn lemma_spec_find_none(s: Seq<u8>, sub: Seq<u8>)
    requires
        forall|k: int| !matches_at(s, sub, k),
    ensures
        spec_find(s, sub) is None,
{
    lemma_spec_find_at_none(s, sub, 0);
}

/// Finds the first occurrence of `sub` in `s`; the result is exactly
/// `spec_find` of the inputs.
pub fn find_bytes(s: &[u8], sub: &[u8]) -> (r: Option<usize>)
    ensures
        match r {
            Some(i) => spec_find(s@, sub@) == Some(i as int) && matches_at(s@, sub@, i as int) && i
                + sub@.len() <= s@.len(),
            None => spec_find(s@, sub@) is None,
        },
{
    let r = find_first(s, sub);
    proof {
        match r {
            Some(i) => {
                lemma_spec_find_at_some(s@, sub@, 0, i as int);
            },
            None => {
                assert(forall|k: int| 0 <= k ==> !matches_at(s@, sub@, k));
                lemma_spec_find_at_none(s@, sub@, 0);
            },
        }
    }
    r
}

/// An ASCII whitespace byte: space, tab, line feed or carriage return.
pub open spec fn is_ws(b: u8) -> bool {
    b == 32 || b == 9 || b == 10 || b == 13
}

/// The byte string with leading whitespace removed.
pub open spec fn spec_trim_front(s: Seq<u8>) -> Seq<u8>
    decreases s.len(),
{
    if s.len() > 0 && is_ws(s[0]) {
        spec_trim_front(s.skip(1))
    } else {
        s
    }
}

/// The byte string with trailing whitespace removed.
pub open spec fn spec_trim_back(s: Seq<u8>) -> Seq<u8>
    decreases s.len(),
{
    if s.len() > 0 && is_ws(s[s.len() - 1]) {
        spec_trim_back(s.drop_last())
    } else {
        s
    }
}

/// The byte string with whitespace removed on both sides.
pub open spec fn spec_trim(s: Seq<u8>) -> Seq<u8> {
    spec_trim_back(spec_trim_front(s))
}

proof fn lemma_trim_front_skip(s: Seq<u8>, i: int)
    requires
        0 <= i <= s.len(),
        forall|k: int| 0 <= k < i ==> is_ws(s[k]),
        i < s.len() ==> !is_ws(s[i]),
    ensures
        spec_trim_front(s) == s.skip(i),
    decreases i,
{
    if i == 0 {
        assert(s.skip(0) =~= s);
    } else {
        assert(is_ws(s[0]));
        assert(s.skip(1).skip(i - 1) =~= s.skip(i));
        lemma_trim_front_skip(s.skip(1), i - 1);
    }
}

proof fn lemma_trim_back_take(s: Seq<u8>, j: int)
    requires
        0 <= j <= s.len(),
        forall|k: int| j <= k < s.len() ==> is_ws(s[k]),
        j > 0 ==> !is_ws(s[j - 1]),
    ensures
        spec_trim_back(s) == s.take(j),
    decreases s.len() - j,
{
    if j == s.len() {
        assert(s.take(j) =~= s);
    } else {
        assert(is_ws(s[s.len() - 1]));
        assert(s.drop_last().take(j) =~= s.take(j));
        lemma_trim_back_take(s.drop_last(), j);
    }
}

/// Removes leading and trailing ASCII whitespace.
pub fn trim_bytes(s: &[u8]) -> (r: Vec<u8>)
    ensures
        r@ == spec_trim(s@),
{
    let n = s.len();
    let mut start: usize = 0;
    while start < n && (s[start] == 32 || s[start] == 9 || s[start] == 10 || s[start] == 13)
        invariant
            start <= n,
            n == s@.len(),
            forall|k: int| 0 <= k < start ==> is_ws(s@[k]),
        decreases n - start,
    {
        start = start + 1;
    }
    let mut end: usize = n;
    while end > start && (s[end - 1] == 32 || s[end - 1] == 9 || s[end - 1] == 10 || s[end - 1]
        == 13)
        invariant
            start <= end <= n,
            n == s@.len(),
            forall|k: int| 0 <= k < start ==> is_ws(s@[k]),
            forall|k: int| end <= k < n ==> is_ws(s@[k]),
        decreases end,
    {
        end = end - 1;
    }
    let r = crate::byteseq::sub_vec(s, start, end);
    proof {
        lemma_trim_front_skip(s@, start as int);
        let f = s@.skip(start as int);
        if end == start {
            // everything after `start` is whitespace, or the string is empty there
            lemma_trim_back_take(f, 0);
        } else {
            lemma_trim_back_take(f, end - start);
        }
        assert(r@ =~= spec_trim(s@));
    }
    r
}

/// A decimal digit.
pub open spec fn is_digit(b: u8) -> bool {
    48 <= b <= 57
}

/// The value of a digit string, most significant first.
pub open spec fn digits_val(s: Seq<u8>) -> int
    decreases s.len(),
{
    if s.len() == 0 {
        0
    } else {
        digits_val(s.drop_last()) * 10 + (s[s.len() - 1] - 48)
    }
}

/// Whether every byte is a digit.
pub open spec fn all_digits(s: Seq<u8>) -> bool {
    forall|k: int| 0 <= k < s.len() ==> is_digit(#[trigger] s[k])
}

/// What parsing a decimal integer yields: an optional sign, then one
/// or more digits, nothing else, and a value within the given bounds;
/// any other shape is rejected.
pub open spec fn spec_parse_int(s: Seq<u8>, lo: int, hi: int) -> Option<int> {
    let (neg, ds) = if s.len() > 0 && s[0] == 45 {
        (true, s.skip(1))
    } else if s.len() > 0 && s[0] == 43 {
        (false, s.skip(1))
    } else {
        (false, s)
    };
    if ds.len() == 0 || !all_digits(ds) {
        None
    } else {
        let v = if neg {
            -digits_val(ds)
        } else {
            digits_val(ds)
        };
        if lo <= v <= hi {
            Some(v)
        } else {
            None
        }
    }
}

/// Parses a decimal integer: an optional sign and digits, nothing
/// else, with the value's magnitude at most `i64::MAX`.
pub fn parse_i64(s: &[u8]) -> (r: Option<i64>)
    ensures
        match r {
            Some(v) => spec_parse_int(s@, -(i64::MAX as int), i64::MAX as int) == Some(v as int),
            None => spec_parse_int(s@, -(i64::MAX as int), i64::MAX as int) is None,
        },
{
    let n = s.len();
    if n == 0 {
        return None;
    }
    let neg = s[0] == 45;
    let has_sign = neg || s[0] == 43;
    let mut j: usize = if has_sign {
        1
    } else {
        0
    };
    if j == n {
        return None;
    }
    let ghost off = j as int;
    let ghost ds = s@.skip(off);
    proof {
        if off == 0 {
            assert(s@.skip(0) =~= s@);
        }
        assert(ds.take(0) =~= Seq::<u8>::empty());
    }
    let mut acc: i64 = 0;
    while j < n
        invariant
            off <= j <= n,
            0 <= off <= 1,
            0 < n == s@.len(),
            ((s@[0] == 45 || s@[0] == 43) <==> off == 1),
            neg == (s@[0] == 45),
            ds == s@.skip(off),
            all_digits(ds.take(j - off)),
            acc == digits_val(ds.take(j - off)),
            0 <= acc <= i64::MAX,
        decreases n - j,
    {
        let b = s[j];
        proof {
            assert(ds[j - off] == s@[j as int]);
            if off == 0 {
                assert(s@.skip(0) =~= s@);
            }
        }
        if b < 48 || b > 57 {
            proof {
                assert(!is_digit(ds[j - off]));
                assert(!all_digits(ds));
            }
            return None;
        }
        let d = (b - 48) as i64;
        if acc > (i64::MAX - d) / 10 {
            // the value no longer fits
            proof {
                assert(ds.take(j - off + 1) =~= ds.take(j - off).push(ds[j - off]));
                assert(ds.take(j - off + 1).drop_last() =~= ds.take(j - off));
                assert(digits_val(ds.take(j - off + 1)) == acc * 10 + d);
                assert(acc * 10 + d > i64::MAX as int);
                lemma_parse_overflow(ds, j - off + 1);
            }
            return None;
        }
        acc = acc * 10 + d;
        proof {
            assert(ds.take(j - off + 1) =~= ds.take(j - off).push(ds[j - off]));
            assert(ds.take(j - off + 1).drop_last() =~= ds.take(j - off));
        }
        j = j + 1;
    }
    proof {
        assert(ds.take(n - off) =~= ds);
    }
    if neg {
        Some(-acc)
    } else {
        Some(acc)
    }
}

/// The opening pattern for an XML tag, in one of the four spellings
/// the scanner tolerates: `<tag>`, `<tag >`, and the two with a line
/// break before the closing angle bracket.
pub open spec fn open_pattern(tag: Seq<u8>, variant: int) -> Seq<u8> {
    if variant == 0 {
        seq![60u8] + tag + seq![62u8]
    } else if variant == 1 {
        seq![60u8] + tag + seq![32u8, 62u8]
    } else if variant == 2 {
        seq![60u8] + tag + seq![10u8, 62u8]
    } else {
        seq![60u8] + tag + seq![13u8, 10u8, 62u8]
    }
}

/// The closing pattern `</tag>`.
pub open spec fn close_pattern(tag: Seq<u8>) -> Seq<u8> {
    seq![60u8, 47u8] + tag + seq![62u8]
}

/// The trimmed text between the first occurrence of `open` and the
/// first occurrence of `close` after it, if both occur.
pub open spec fn spec_tag_between(xml: Seq<u8>, open: Seq<u8>, close: Seq<u8>) -> Option<Seq<u8>> {
    match spec_find(xml, open) {
        None => None,
        Some(i) => {
            let rest = xml.skip(i + open.len() as int);
            match spec_find(rest, close) {
                None => None,
                Some(j) => Some(spec_trim(rest.take(j))),
            }
        },
    }
}

/// The untrimmed text between the first occurrence of `open` and the
/// first occurrence of `close` after it, if both occur.
pub open spec fn spec_between_raw(xml: Seq<u8>, open: Seq<u8>, close: Seq<u8>) -> Option<Seq<u8>> {
    match spec_find(xml, open) {
        None => None,
        Some(i) => {
            let rest = xml.skip(i + open.len() as int);
            match spec_find(rest, close) {
                None => None,
                Some(j) => Some(rest.take(j)),
            }
        },
    }
}

/// Extracts the untrimmed content between one opening and one closing
/// pattern.
pub fn between_raw(xml: &[u8], open: &[u8], close: &[u8]) -> (r: Option<Vec<u8>>)
    ensures
        match r {
            Some(c) => spec_between_raw(xml@, open@, close@) == Some(c@),
            None => spec_between_raw(xml@, open@, close@) is None,
        },
{
    match find_bytes(xml, open) {
        None => None,
        Some(i) => {
            let xlen = xml.len();
            let cs = i + open.len();
            let rest = crate::byteseq::sub_vec(xml, cs, xlen);
            proof {
                assert(rest@ =~= xml@.skip(i + open@.len()));
            }
            match find_bytes(rest.as_slice(), close) {
                None => None,
                Some(j) => {
                    let content = crate::byteseq::sub_vec(rest.as_slice(), 0, j);
                    proof {
                        assert(content@ =~= rest@.take(j as int));
                    }
                    Some(content)
                },
            }
        },
    }
}

/// The content of the first tag occurrence, trying the four opening
/// spellings in order.
pub open spec fn spec_find_xml_tag(xml: Seq<u8>, tag: Seq<u8>) -> Option<Seq<u8>> {
    if spec_tag_between(xml, open_pattern(tag, 0), close_pattern(tag)) is Some {
        spec_tag_between(xml, open_pattern(tag, 0), close_pattern(tag))
    } else if spec_tag_between(xml, open_pattern(tag, 1), close_pattern(tag)) is Some {
        spec_tag_between(xml, open_pattern(tag, 1), close_pattern(tag))
    } else if spec_tag_between(xml, open_pattern(tag, 2), close_pattern(tag)) is Some {
        spec_tag_between(xml, open_pattern(tag, 2), close_pattern(tag))
    } else {
        spec_tag_between(xml, open_pattern(tag, 3), close_pattern(tag))
    }
}

/// Builds one opening pattern.
fn build_open_pattern(tag: &[u8], variant: usize) -> (r: Vec<u8>)
    requires
        variant < 4,
    ensures
        r@ == open_pattern(tag@, variant as int),
{
    let mut out: Vec<u8> = Vec::new();
    out.push(60);
    crate::byteseq::push_bytes(&mut out, tag);
    if variant == 1 {
        out.push(32);
    } else if variant == 2 {
        out.push(10);
    } else if variant == 3 {
        out.push(13);
        out.push(10);
    }
    out.push(62);
    proof {
        assert(out@ =~= open_pattern(tag@, variant as int));
    }
    out
}

/// Builds the closing pattern.
fn build_close_pattern(tag: &[u8]) -> (r: Vec<u8>)
    ensures
        r@ == close_pattern(tag@),
{
    let mut out: Vec<u8> = Vec::new();
    out.push(60);
    out.push(47);
    crate::byteseq::push_bytes(&mut out, tag);
    out.push(62);
    proof {
        assert(out@ =~= close_pattern(tag@));
    }
    out
}

/// Extracts the trimmed content between one opening and one closing
/// pattern.
fn tag_between(xml: &[u8], open: &[u8], close: &[u8]) -> (r: Option<Vec<u8>>)
    ensures
        match r {
            Some(c) => spec_tag_between(xml@, open@, close@) == Some(c@),
            None => spec_tag_between(xml@, open@, close@) is None,
        },
{
    match find_bytes(xml, open) {
        None => None,
        Some(i) => {
            let xlen = xml.len();
            let cs = i + open.len();
            let rest = crate::byteseq::sub_vec(xml, cs, xlen);
            proof {
                assert(rest@ =~= xml@.skip(i + open@.len()));
            }
            match find_bytes(rest.as_slice(), close) {
                None => None,
                Some(j) => {
                    let content = crate::byteseq::sub_vec(rest.as_slice(), 0, j);
                    proof {
                        assert(content@ =~= rest@.take(j as int));
                    }
                    Some(trim_bytes(content.as_slice()))
                },
            }
        },
    }
}

/// Finds the trimmed content of an XML tag, tolerating the four
/// opening spellings: the looser string-search layer under the
/// response parsers.
pub fn find_xml_tag_content(xml: &[u8], tag: &[u8]) -> (r: Option<Vec<u8>>)
    ensures
        match r {
            Some(c) => spec_find_xml_tag(xml@, tag@) == Some(c@),
            None => spec_find_xml_tag(xml@, tag@) is None,
        },
{
    let close = build_close_pattern(tag);
    let mut variant: usize = 0;
    while variant < 4
        invariant
            variant <= 4,
            close@ == close_pattern(tag@),
            forall|v: int|
                0 <= v < variant ==> spec_tag_between(
                    xml@,
                    open_pattern(tag@, v),
                    close_pattern(tag@),
                ) is None,
        decreases 4 - variant,
    {
        let open = build_open_pattern(tag, variant);
        match tag_between(xml, open.as_slice(), close.as_slice()) {
            Some(c) => {
                return Some(c);
            },
            None => {},
        }
        variant = variant + 1;
    }
    None
}

/// Parses a decimal integer whose magnitude fits in an i32, yielding
/// zero for anything unparseable - the tolerant shape the response
/// parsers use for dimension and size fields.
pub fn parse_i32_or_zero(s: &[u8]) -> (r: i32)
    ensures
        match spec_parse_int(s@, -(i32::MAX as int), i32::MAX as int) {
            Some(v) => r as int == v,
            None => r == 0,
        },
{
    match parse_i64(s) {
        Some(v) => {
            if v > i32::MAX as i64 || v < -(i32::MAX as i64) {
                0
            } else {
                v as i32
            }
        },
        None => 0,
    }
}

/// A parsed image-upload response: the picture id and the reported
/// dimensions and size.
pub struct UploadResponse {
    pub pid: Vec<u8>,
    pub width: i32,
    pub height: i32,
    pub size: i32,
}

/// The marker that the image host puts in a response when the session
/// cookie has expired.
pub open spec fn weibo_auth_expired(xml: Seq<u8>) -> bool {
    contains_seq(xml, ascii_bytes("<data>100006</data>"@))
}

/// The tolerant value of a numeric tag: its parsed content, or zero
/// where the tag is missing or unparseable.
pub open spec fn spec_dim(xml: Seq<u8>, tag: Seq<u8>) -> int {
    match spec_find_xml_tag(xml, tag) {
        Some(c) => match spec_parse_int(c, -(i32::MAX as int), i32::MAX as int) {
            Some(v) => v,
            None => 0,
        },
        None => 0,
    }
}

/// Reads a numeric tag tolerantly.
fn dim_of(xml: &[u8], tag: &[u8]) -> (r: i32)
    ensures
        r as int == spec_dim(xml@, tag@),
{
    match find_xml_tag_content(xml, tag) {
        Some(c) => parse_i32_or_zero(c.as_slice()),
        None => 0,
    }
}

/// The looser fallback parse: the first `pid` tag's content and the
/// tolerant dimensions, with no authentication check.
pub fn parse_weibo_response_fallback(xml: &[u8]) -> (r: Result<UploadResponse, AppError>)
    ensures
        match spec_find_xml_tag(xml@, ascii_bytes("pid"@)) {
            Some(p) => r matches Ok(u) && u.pid@ == p && u.width as int == spec_dim(
                xml@,
                ascii_bytes("width"@),
            ) && u.height as int == spec_dim(xml@, ascii_bytes("height"@)) && u.size as int
                == spec_dim(xml@, ascii_bytes("size"@)),
            None => r matches Err(e) && e is Upload,
        },
{
    proof {
        reveal_strlit("pid");
        reveal_strlit("width");
        reveal_strlit("height");
        reveal_strlit("size");
    }
    let ptag = lit_bytes("pid");
    let pid = match find_xml_tag_content(xml, ptag.as_slice()) {
        Some(p) => p,
        None => {
            return Err(
                AppError::upload(
                    string_from_str("weibo"),
                    string_from_str("no picture id in the response"),
                ),
            );
        },
    };
    let wtag = lit_bytes("width");
    let htag = lit_bytes("height");
    let stag = lit_bytes("size");
    let width = dim_of(xml, wtag.as_slice());
    let height = dim_of(xml, htag.as_slice());
    let size = dim_of(xml, stag.as_slice());
    Ok(UploadResponse { pid, width, height, size })
}

/// Parses an image-upload response: an expired-session marker maps to
/// an authentication error, a response with a picture id parses, and
/// anything else is a provider error.
pub fn parse_weibo_response(xml: &[u8]) -> (r: Result<UploadResponse, AppError>)
    ensures
        weibo_auth_expired(xml@) ==> (r matches Err(e) && e is Auth),
        !weibo_auth_expired(xml@) ==> match spec_find_xml_tag(xml@, ascii_bytes("pid"@)) {
            Some(p) => r matches Ok(u) && u.pid@ == p && u.width as int == spec_dim(
                xml@,
                ascii_bytes("width"@),
            ) && u.height as int == spec_dim(xml@, ascii_bytes("height"@)) && u.size as int
                == spec_dim(xml@, ascii_bytes("size"@)),
            None => r matches Err(e) && e is Upload,
        },
{
    proof {
        reveal_strlit("<data>100006</data>");
    }
    let marker = lit_bytes("<data>100006</data>");
    if crate::byteseq::contains_bytes(xml, marker.as_slice()) {
        return Err(AppError::auth(string_from_str("session cookie expired (code 100006)")));
    }
    parse_weibo_response_fallback(xml)
}

/// What a cookie-test upload response shows about the session.
pub enum WeiboCookieVerdict {
    /// The response carries a picture id: the cookie works.
    Valid,
    /// The response carries the expired-session marker.
    Expired,
    /// The response carries an error or code tag.
    Invalid,
    /// The response has none of the recognized shapes.
    Unrecognized,
}

/// Classifies a cookie-test upload response.
pub fn classify_weibo_test_response(body: &[u8]) -> (r: WeiboCookieVerdict)
    ensures
        weibo_auth_expired(body@) ==> r is Expired,
        !weibo_auth_expired(body@) && contains_seq(body@, ascii_bytes("<pid>"@)) ==> r is Valid,
        !weibo_auth_expired(body@) && !contains_seq(body@, ascii_bytes("<pid>"@)) && (contains_seq(
            body@,
            ascii_bytes("<err>"@),
        ) || contains_seq(body@, ascii_bytes("<code>"@))) ==> r is Invalid,
        !weibo_auth_expired(body@) && !contains_seq(body@, ascii_bytes("<pid>"@)) && !contains_seq(
            body@,
            ascii_bytes("<err>"@),
        ) && !contains_seq(body@, ascii_bytes("<code>"@)) ==> r is Unrecognized,
{
    proof {
        reveal_strlit("<data>100006</data>");
        reveal_strlit("<pid>");
        reveal_strlit("<err>");
        reveal_strlit("<code>");
    }
    let marker = lit_bytes("<data>100006</data>");
    if crate::byteseq::contains_bytes(body, marker.as_slice()) {
        return WeiboCookieVerdict::Expired;
    }
    let pid = lit_bytes("<pid>");
    if crate::byteseq::contains_bytes(body, pid.as_slice()) {
        return WeiboCookieVerdict::Valid;
    }
    let err = lit_bytes("<err>");
    let code = lit_bytes("<code>");
    if crate::byteseq::contains_bytes(body, err.as_slice()) || crate::byteseq::contains_bytes(
        body,
        code.as_slice(),
    ) {
        return WeiboCookieVerdict::Invalid;
    }
    WeiboCookieVerdict::Unrecognized
}

proof fn lemma_parse_overflow(ds: Seq<u8>, m: int)
    requires
        0 < m <= ds.len(),
        all_digits(ds.take(m)),
        digits_val(ds.take(m)) > i64::MAX as int,
    ensures
        digits_val(ds) > i64::MAX as int || !all_digits(ds),
    decreases ds.len() - m,
{
    if m == ds.len() {
        assert(ds.take(m) =~= ds);
    } else {
        if all_digits(ds.take(m + 1)) {
            assert(ds.take(m + 1).drop_last() =~= ds.take(m));
            assert(digits_val(ds.take(m + 1)) == digits_val(ds.take(m)) * 10 + (ds[m] - 48));
            lemma_parse_overflow(ds, m + 1);
        } else {
            assert(exists|k: int| 0 <= k < m + 1 && !is_digit(#[trigger] ds.take(m + 1)[k]));
            let k = choose|k: int| 0 <= k < m + 1 && !is_digit(#[trigger] ds.take(m + 1)[k]);
            assert(ds.take(m + 1)[k] == ds[k]);
            assert(!all_digits(ds));
        }
    }
}

} // verus!
