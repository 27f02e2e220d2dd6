//! JSON text, written and read byte-exactly: string escaping, decimal
//! rendering, the multipart-completion body, and a tolerant scan for
//! single fields of a flat JSON object.  The scan is what classifies a
//! provider response without trusting an outside parser.

use vstd::prelude::*;
use crate::byteseq::{ascii_bytes, lit_bytes, push_bytes, starts_with, sub_vec};
use crate::encoding::{hex_upper_digit, hex_lower_digit};
use crate::textscan::{
    spec_find, find_bytes, spec_trim_front, is_ws, is_digit, spec_parse_int, parse_i64,
};

verus! {

/// The JSON escape of one string byte: quote and backslash get a
/// backslash, control bytes become `\u00XX`, everything else stands.
pub open spec fn json_escape_byte(b: u8) -> Seq<u8> {
    if b == 34 || b == 92 {
        seq![92u8, b]
    } else if b < 32 {
        seq![92u8, 117u8, 48u8, 48u8, hex_lower_digit(b / 16), hex_lower_digit(b % 16)]
    } else {
        seq![b]
    }
}

/// The JSON escape of a whole byte string.
pub open spec fn spec_json_escape(s: Seq<u8>) -> Seq<u8>
    decreases s.len(),
{
    if s.len() == 0 {
        Seq::empty()
    } else {
        json_escape_byte(s[0]) + spec_json_escape(s.skip(1))
    }
}

proof fn lemma_json_escape_snoc(s: Seq<u8>, b: u8)
    ensures
        spec_json_escape(s.push(b)) == spec_json_escape(s) + json_escape_byte(b),
    decreases s.len(),
{
    if s.len() == 0 {
        assert(s.push(b).skip(1) =~= s);
        assert(spec_json_escape(s.push(b)) =~= spec_json_escape(s) + json_escape_byte(b));
    } else {
        assert(s.push(b).skip(1) =~= s.skip(1).push(b));
        lemma_json_escape_snoc(s.skip(1), b);
        assert(spec_json_escape(s.push(b)) =~= spec_json_escape(s) + json_escape_byte(b));
    }
}

/// Escapes a byte string for inclusion in a JSON string literal.
pub fn json_escape(s: &[u8]) -> (r: Vec<u8>)
    ensures
        r@ == spec_json_escape(s@),
{
    let mut out: Vec<u8> = Vec::new();
    let n = s.len();
    let mut i: usize = 0;
    proof {
        assert(s@.subrange(0, 0) =~= Seq::<u8>::empty());
    }
    while i < n
        invariant
            i <= n,
            n == s@.len(),
            out@ == spec_json_escape(s@.subrange(0, i as int)),
        decreases n - i,
    {
        let b = s[i];
        if b == 34 || b == 92 {
            out.push(92);
            out.push(b);
        } else if b < 32 {
            out.push(92);
            out.push(117);
            out.push(48);
            out.push(48);
            let hi = b / 16;
            let lo = b % 16;
            out.push(if hi < 10 { 48 + hi } else { 97 + (hi - 10) });
            out.push(if lo < 10 { 48 + lo } else { 97 + (lo - 10) });
        } else {
            out.push(b);
        }
        proof {
            lemma_json_escape_snoc(s@.subrange(0, i as int), s@[i as int]);
            assert(s@.subrange(0, i + 1) =~= s@.subrange(0, i as int).push(s@[i as int]));
            assert(out@ =~= spec_json_escape(s@.subrange(0, i + 1)));
        }
        i = i + 1;
    }
    proof {
        assert(s@.subrange(0, n as int) =~= s@);
    }
    out
}

/// The decimal rendering of an unsigned number, most significant
/// digit first.
pub open spec fn spec_udec(n: nat) -> Seq<u8>
    decreases n,
{
    if n < 10 {
        seq![(48 + n) as u8]
    } else {
        spec_udec(n / 10).push((48 + n % 10) as u8)
    }
}

/// Renders an unsigned number in decimal.
pub fn u64_to_dec(n: u64) -> (r: Vec<u8>)
    ensures
        r@ == spec_udec(n as nat),
    decreases n,
{
    if n < 10 {
        let mut out: Vec<u8> = Vec::new();
        out.push(48 + (n as u8));
        proof {
            assert(out@ =~= spec_udec(n as nat));
        }
        out
    } else {
        let mut out = u64_to_dec(n / 10);
        out.push(48 + ((n % 10) as u8));
        out
    }
}

/// One part entry of the completion body: the ETag escaped, the part
/// number in decimal, the keys in the order the wire format fixes.
pub open spec fn spec_part_json(part_number: nat, etag: Seq<u8>) -> Seq<u8> {
    ascii_bytes("{\"ETag\":\""@) + spec_json_escape(etag) + ascii_bytes("\",\"PartNumber\":"@)
        + spec_udec(part_number) + seq![125u8]
}

/// The entries of the completion body joined by commas.
pub open spec fn spec_parts_array(parts: Seq<(u32, Seq<u8>)>) -> Seq<u8>
    decreases parts.len(),
{
    if parts.len() == 0 {
        Seq::empty()
    } else if parts.len() == 1 {
        spec_part_json(parts[0].0 as nat, parts[0].1)
    } else {
        spec_part_json(parts[0].0 as nat, parts[0].1) + seq![44u8] + spec_parts_array(
            parts.skip(1),
        )
    }
}

proof fn lemma_parts_array_snoc(parts: Seq<(u32, Seq<u8>)>, p: (u32, Seq<u8>))
    ensures
        parts.len() == 0 ==> spec_parts_array(parts.push(p)) == spec_part_json(p.0 as nat, p.1),
        parts.len() > 0 ==> spec_parts_array(parts.push(p)) == spec_parts_array(parts) + seq![44u8]
            + spec_part_json(p.0 as nat, p.1),
    decreases parts.len(),
{
    if parts.len() == 0 {
    } else {
        assert(parts.push(p).skip(1) =~= parts.skip(1).push(p));
        lemma_parts_array_snoc(parts.skip(1), p);
        assert(spec_parts_array(parts.push(p)) =~= spec_parts_array(parts) + seq![44u8]
            + spec_part_json(p.0 as nat, p.1));
    }
}

/// One uploaded part: its number and the ETag the store returned for
/// it.
pub struct UploadPart {
    pub part_number: u32,
    pub etag: Vec<u8>,
}

/// The spec-level view of a part list.
pub open spec fn parts_view(parts: Seq<UploadPart>) -> Seq<(u32, Seq<u8>)> {
    parts.map_values(|p: UploadPart| (p.part_number, p.etag@))
}

/// The whole multipart-completion body.
pub open spec fn spec_complete_body(parts: Seq<(u32, Seq<u8>)>) -> Seq<u8> {
    ascii_bytes("{\"Parts\":["@) + spec_parts_array(parts) + ascii_bytes("]}"@)
}

/// Builds the multipart-completion body for an ordered part list.
pub fn build_complete_body(parts: &Vec<UploadPart>) -> (r: Vec<u8>)
    ensures
        r@ == spec_complete_body(parts_view(parts@)),
{
    proof {
        reveal_strlit("{\"Parts\":[");
        reveal_strlit("{\"ETag\":\"");
        reveal_strlit("\",\"PartNumber\":");
        reveal_strlit("]}");
    }
    let ghost pv = parts_view(parts@);
    let mut out: Vec<u8> = Vec::new();
    let head = lit_bytes("{\"Parts\":[");
    push_bytes(&mut out, head.as_slice());
    let ghost mid = out@;
    let n = parts.len();
    let mut i: usize = 0;
    proof {
        assert(pv.subrange(0, 0) =~= Seq::<(u32, Seq<u8>)>::empty());
    }
    while i < n
        invariant
            i <= n,
            n == parts@.len(),
            pv == parts_view(parts@),
            mid == ascii_bytes("{\"Parts\":["@),
            out@ == mid + spec_parts_array(pv.subrange(0, i as int)),
        decreases n - i,
    {
        proof {
            reveal_strlit("{\"ETag\":\"");
            reveal_strlit("\",\"PartNumber\":");
        }
        if i > 0 {
            out.push(44);
        }
        let ehead = lit_bytes("{\"ETag\":\"");
        push_bytes(&mut out, ehead.as_slice());
        let escaped = json_escape(parts[i].etag.as_slice());
        push_bytes(&mut out, escaped.as_slice());
        let emid = lit_bytes("\",\"PartNumber\":");
        push_bytes(&mut out, emid.as_slice());
        let num = u64_to_dec(parts[i].part_number as u64);
        push_bytes(&mut out, num.as_slice());
        out.push(125);
        proof {
            assert(pv[i as int] == (parts@[i as int].part_number, parts@[i as int].etag@));
            lemma_parts_array_snoc(pv.subrange(0, i as int), pv[i as int]);
            assert(pv.subrange(0, i + 1) =~= pv.subrange(0, i as int).push(pv[i as int]));
            assert(out@ =~= mid + spec_parts_array(pv.subrange(0, i + 1)));
        }
        i = i + 1;
    }
    out.push(93);
    out.push(125);
    proof {
        reveal_strlit("]}");
        assert(pv.subrange(0, n as int) =~= pv);
        assert(out@ =~= spec_complete_body(pv));
    }
    out
}

/// The remainder of `body` after the first `"name"` key and its colon,
/// with surrounding whitespace skipped; `None` where the key or the
/// colon is missing.
pub open spec fn spec_after_key(body: Seq<u8>, name: Seq<u8>) -> Option<Seq<u8>> {
    let pattern = seq![34u8] + name + seq![34u8];
    match spec_find(body, pattern) {
        None => None,
        Some(i) => {
            let rest = spec_trim_front(body.skip(i + pattern.len() as int));
            if rest.len() > 0 && rest[0] == 58 {
                Some(spec_trim_front(rest.skip(1)))
            } else {
                None
            }
        },
    }
}

/// The length of the numeric prefix of `s`: an optional minus sign
/// followed by digits.
pub open spec fn spec_num_prefix_len(s: Seq<u8>) -> int {
    if s.len() > 0 && s[0] == 45 {
        1 + spec_digit_run(s.skip(1))
    } else {
        spec_digit_run(s)
    }
}

/// The length of the leading digit run of `s`.
pub open spec fn spec_digit_run(s: Seq<u8>) -> int
    decreases s.len(),
{
    if s.len() > 0 && is_digit(s[0]) {
        1 + spec_digit_run(s.skip(1))
    } else {
        0
    }
}

/// The integer value of the first `"name": <number>` field, if the
/// key occurs, a numeric token follows its colon, and the value's
/// magnitude fits in an i64.
pub open spec fn spec_json_int_field(body: Seq<u8>, name: Seq<u8>) -> Option<int> {
    match spec_after_key(body, name) {
        None => None,
        Some(rest) => {
            let m = spec_num_prefix_len(rest);
            if m == 0 {
                None
            } else {
                spec_parse_int(rest.take(m), -(i64::MAX as int), i64::MAX as int)
            }
        },
    }
}

/// The raw content of the first `"name": "<value>"` field: the bytes
/// up to the next quote, unescaping left to the caller's tolerance.
pub open spec fn spec_json_string_field(body: Seq<u8>, name: Seq<u8>) -> Option<Seq<u8>> {
    match spec_after_key(body, name) {
        None => None,
        Some(rest) => {
            if rest.len() > 0 && rest[0] == 34 {
                let inner = rest.skip(1);
                match spec_find(inner, seq![34u8]) {
                    None => None,
                    Some(j) => Some(inner.take(j)),
                }
            } else {
                None
            }
        },
    }
}

proof fn lemma_trim_front_drops(s: Seq<u8>, i: int)
    requires
        0 <= i <= s.len(),
        forall|k: int| 0 <= k < i ==> is_ws(s[k]),
    ensures
        spec_trim_front(s) == spec_trim_front(s.skip(i)),
    decreases i,
{
    if i == 0 {
        assert(s.skip(0) =~= s);
    } else {
        assert(is_ws(s[0]));
        assert(s.skip(1).skip(i - 1) =~= s.skip(i));
        lemma_trim_front_drops(s.skip(1), i - 1);
    }
}

proof fn lemma_trim_front_stops(s: Seq<u8>, i: int)
    requires
        0 <= i <= s.len(),
        forall|k: int| 0 <= k < i ==> is_ws(s[k]),
        i < s.len() ==> !is_ws(s[i]),
    ensures
        spec_trim_front(s) == s.skip(i),
    decreases i,
{
    if i == 0 {
        assert(s.skip(0) =~= s);
    } else {
        assert(is_ws(s[0]));
        assert(s.skip(1).skip(i - 1) =~= s.skip(i));
        lemma_trim_front_stops(s.skip(1), i - 1);
    }
}

/// Skips ASCII whitespace from `start`, returning the position of the
/// first non-whitespace byte (or the length).
fn skip_ws(s: &[u8], start: usize) -> (r: usize)
    requires
        start <= s@.len(),
    ensures
        start <= r <= s@.len(),
        forall|k: int| start <= k < r ==> is_ws(s@[k]),
        r < s@.len() ==> !is_ws(s@[r as int]),
        spec_trim_front(s@.skip(start as int)) == s@.skip(r as int),
{
    let n = s.len();
    let mut i = start;
    while i < n && (s[i] == 32 || s[i] == 9 || s[i] == 10 || s[i] == 13)
        invariant
            start <= i <= n,
            n == s@.len(),
            forall|k: int| start <= k < i ==> is_ws(s@[k]),
        decreases n - i,
    {
        i = i + 1;
    }
    proof {
        let sk = s@.skip(start as int);
        assert(forall|k: int| 0 <= k < i - start ==> is_ws(sk[k]));
        lemma_trim_front_stops(sk, i - start as int);
        assert(sk.skip(i - start as int) =~= s@.skip(i as int));
    }
    i
}

/// Finds the remainder after a `"name"` key and its colon.
fn after_key(body: &[u8], name: &[u8]) -> (r: Option<usize>)
    ensures
        match r {
            Some(p) => p <= body@.len() && spec_after_key(body@, name@) == Some(
                body@.skip(p as int),
            ),
            None => spec_after_key(body@, name@) is None,
        },
{
    let mut pattern: Vec<u8> = Vec::new();
    pattern.push(34);
    push_bytes(&mut pattern, name);
    pattern.push(34);
    proof {
        assert(pattern@ =~= seq![34u8] + name@ + seq![34u8]);
    }
    match find_bytes(body, pattern.as_slice()) {
        None => None,
        Some(i) => {
            let blen = body.len();
            let cs = i + pattern.len();
            let p = skip_ws(body, cs);
            proof {
                assert(spec_trim_front(body@.skip(cs as int)) == body@.skip(p as int));
            }
            if p < blen && body[p] == 58 {
                let q = skip_ws(body, p + 1);
                proof {
                    let rest = spec_trim_front(body@.skip(cs as int));
                    assert(rest == body@.skip(p as int));
                    assert(rest[0] == 58);
                    assert(rest.skip(1) =~= body@.skip(p + 1));
                    assert(spec_trim_front(body@.skip(p + 1)) == body@.skip(q as int));
                }
                Some(q)
            } else {
                proof {
                    let rest = spec_trim_front(body@.skip(cs as int));
                    assert(rest == body@.skip(p as int));
                }
                None
            }
        },
    }
}

/// Reads the integer value of a `"name": <number>` field.
pub fn json_int_field(body: &[u8], name: &[u8]) -> (r: Option<i64>)
    ensures
        match r {
            Some(v) => spec_json_int_field(body@, name@) == Some(v as int),
            None => spec_json_int_field(body@, name@) is None,
        },
{
    let p = match after_key(body, name) {
        None => {
            return None;
        },
        Some(p) => p,
    };
    let n = body.len();
    let mut q = p;
    if q < n && body[q] == 45 {
        q = q + 1;
    }
    let start_digits = q;
    while q < n && body[q] >= 48 && body[q] <= 57
        invariant
            start_digits <= q <= n,
            n == body@.len(),
            forall|k: int| start_digits <= k < q ==> is_digit(body@[k]),
        decreases n - q,
    {
        q = q + 1;
    }
    let ghost rest = body@.skip(p as int);
    proof {
        lemma_digit_run_exact(body@, start_digits as int, q as int);
        if start_digits > p {
            assert(rest[0] == 45);
            assert(rest.skip(1) =~= body@.skip(start_digits as int));
            assert(spec_num_prefix_len(rest) == 1 + (q - start_digits));
        } else {
            assert(spec_num_prefix_len(rest) == q - start_digits);
        }
    }
    if q == start_digits {
        // no digits follow
        return None;
    }
    let token = sub_vec(body, p, q);
    proof {
        assert(token@ =~= rest.take(q - p));
    }
    parse_i64(token.as_slice())
}

proof fn lemma_digit_run_exact(s: Seq<u8>, start: int, end: int)
    requires
        0 <= start <= end <= s.len(),
        forall|k: int| start <= k < end ==> is_digit(s[k]),
        end < s.len() ==> !is_digit(s[end]),
    ensures
        spec_digit_run(s.skip(start)) == end - start,
    decreases end - start,
{
    if start == end {
        if end < s.len() {
            assert(s.skip(start)[0] == s[end]);
        }
    } else {
        assert(is_digit(s.skip(start)[0]));
        assert(s.skip(start).skip(1) =~= s.skip(start + 1));
        lemma_digit_run_exact(s, start + 1, end);
    }
}

/// Reads the raw content of a `"name": "<value>"` field.
pub fn json_string_field(body: &[u8], name: &[u8]) -> (r: Option<Vec<u8>>)
    ensures
        match r {
            Some(v) => spec_json_string_field(body@, name@) == Some(v@),
            None => spec_json_string_field(body@, name@) is None,
        },
{
    let p = match after_key(body, name) {
        None => {
            return None;
        },
        Some(p) => p,
    };
    let n = body.len();
    if p >= n || body[p] != 34 {
        return None;
    }
    let inner = sub_vec(body, p + 1, n);
    proof {
        assert(inner@ =~= body@.skip(p as int).skip(1));
    }
    let quote: Vec<u8> = {
        let mut q: Vec<u8> = Vec::new();
        q.push(34);
        q
    };
    proof {
        assert(quote@ =~= seq![34u8]);
    }
    match find_bytes(inner.as_slice(), quote.as_slice()) {
        None => None,
        Some(j) => {
            let v = sub_vec(inner.as_slice(), 0, j);
            proof {
                assert(v@ =~= inner@.take(j as int));
            }
            Some(v)
        },
    }
}

/// Whether a response body looks like an HTML document rather than
/// JSON: its first non-whitespace byte opens a tag.  A login page
/// where JSON was expected is the classic sign of an expired session.
pub open spec fn looks_like_html(body: Seq<u8>) -> bool {
    spec_trim_front(body).len() > 0 && spec_trim_front(body)[0] == 60
}

/// Whether a response body looks like a JSON object.
pub open spec fn looks_like_json_object(body: Seq<u8>) -> bool {
    spec_trim_front(body).len() > 0 && spec_trim_front(body)[0] == 123
}

/// Tests whether a body looks like HTML.
pub fn body_looks_like_html(body: &[u8]) -> (r: bool)
    ensures
        r == looks_like_html(body@),
{
    let p = skip_ws(body, 0);
    proof {
        assert(body@.skip(0) =~= body@);
    }
    p < body.len() && body[p] == 60
}

/// Tests whether a body looks like a JSON object.
pub fn body_looks_like_json_object(body: &[u8]) -> (r: bool)
    ensures
        r == looks_like_json_object(body@),
{
    let p = skip_ws(body, 0);
    proof {
        assert(body@.skip(0) =~= body@);
    }
    p < body.len() && body[p] == 123
}

} // verus!
