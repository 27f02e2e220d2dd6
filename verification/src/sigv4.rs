//! Canonical request construction and request signing.
//!
//! This is the shared core of the two signing schemes the library
//! supports: `AWS4-HMAC-SHA256` for S3-compatible stores and
//! `TOS4-HMAC-SHA256` for the TOS store.  The two differ only in the
//! algorithm label, the secret-key prefix, the scope suffix and the
//! header set; the canonicalization and the HMAC chaining are one body
//! of code, proved byte-exact against spec-level definitions.

use vstd::prelude::*;
use vstd::relations::{sorted_by, total_ordering};
use vstd::seq_lib::lemma_sorted_unique;
use crate::byteseq::{
    ascii_bytes, lex_le, lemma_lex_le_antisymmetric, lemma_lex_le_total, lemma_lex_le_transitive,
    lex_leq, bytes_eq, push_bytes, lit_bytes, to_vec, sub_vec,
};
use crate::digests::{hmac_sha256_of, sha256_of, hmac_sha256_digest, sha256_digest, hex_lower};
use crate::encoding::{spec_uri_encode, spec_hex_lower, aws_uri_encode};
use crate::errors::AppError;

verus! {

/// One named byte value: a query parameter or a header.
pub struct NamedValue {
    pub name: Vec<u8>,
    pub value: Vec<u8>,
}

/// The spec-level view of a named value.
pub open spec fn nv_view(p: NamedValue) -> (Seq<u8>, Seq<u8>) {
    (p.name@, p.value@)
}

/// The spec-level view of a list of named values.
pub open spec fn nvs_view(s: Seq<NamedValue>) -> Seq<(Seq<u8>, Seq<u8>)> {
    s.map_values(|p: NamedValue| nv_view(p))
}

/// Canonical order on pairs: by name, and by value between equal names.
pub open spec fn pair_le(a: (Seq<u8>, Seq<u8>), b: (Seq<u8>, Seq<u8>)) -> bool {
    if a.0 == b.0 {
        lex_le(a.1, b.1)
    } else {
        lex_le(a.0, b.0)
    }
}

/// The pair order as a first-class relation.
pub open spec fn pair_le_fn() -> spec_fn((Seq<u8>, Seq<u8>), (Seq<u8>, Seq<u8>)) -> bool {
    |a: (Seq<u8>, Seq<u8>), b: (Seq<u8>, Seq<u8>)| pair_le(a, b)
}

/// Any two pairs are comparable.
pub proof fn lemma_pair_le_connected(a: (Seq<u8>, Seq<u8>), b: (Seq<u8>, Seq<u8>))
    ensures
        pair_le(a, b) || pair_le(b, a),
{
    if a.0 == b.0 {
        lemma_lex_le_total(a.1, b.1);
    } else {
        lemma_lex_le_total(a.0, b.0);
    }
}

/// Two pairs each at most the other are equal.
pub proof fn lemma_pair_le_antisymmetric(a: (Seq<u8>, Seq<u8>), b: (Seq<u8>, Seq<u8>))
    requires
        pair_le(a, b),
        pair_le(b, a),
    ensures
        a == b,
{
    if a.0 == b.0 {
        lemma_lex_le_antisymmetric(a.1, b.1);
    } else {
        lemma_lex_le_antisymmetric(a.0, b.0);
    }
}

/// The pair order is transitive.
pub proof fn lemma_pair_le_transitive(a: (Seq<u8>, Seq<u8>), b: (Seq<u8>, Seq<u8>), c: (
    Seq<u8>,
    Seq<u8>,
))
    requires
        pair_le(a, b),
        pair_le(b, c),
    ensures
        pair_le(a, c),
{
    if a.0 == b.0 && b.0 == c.0 {
        lemma_lex_le_transitive(a.1, b.1, c.1);
    } else if a.0 == b.0 || b.0 == c.0 {
    } else {
        lemma_lex_le_transitive(a.0, b.0, c.0);
        if a.0 == c.0 {
            lemma_lex_le_antisymmetric(a.0, b.0);
        }
    }
}

/// The pair order is a total order, so sorting by it has a unique
/// result: this is what makes canonicalization deterministic.
pub proof fn lemma_pair_le_total_ordering()
    ensures
        total_ordering(pair_le_fn()),
{
    let f = pair_le_fn();
    assert forall|a: (Seq<u8>, Seq<u8>)| #[trigger] f(a, a) by {
        lemma_pair_le_connected(a, a);
    }
    assert forall|a: (Seq<u8>, Seq<u8>), b: (Seq<u8>, Seq<u8>)| #[trigger] f(a, b) && #[trigger] f(
        b,
        a,
    ) implies a == b by {
        lemma_pair_le_antisymmetric(a, b);
    }
    assert forall|a: (Seq<u8>, Seq<u8>), b: (Seq<u8>, Seq<u8>), c: (Seq<u8>, Seq<u8>)|
        #[trigger] f(a, b) && #[trigger] f(b, c) implies f(a, c) by {
        lemma_pair_le_transitive(a, b, c);
    }
    assert forall|a: (Seq<u8>, Seq<u8>), b: (Seq<u8>, Seq<u8>)| #[trigger] f(a, b) || #[trigger] f(
        b,
        a,
    ) by {
        lemma_pair_le_connected(a, b);
    }
}

/// Compares two named values in the canonical order.
pub fn nv_leq(a: &NamedValue, b: &NamedValue) -> (r: bool)
    ensures
        r == pair_le(nv_view(*a), nv_view(*b)),
{
    if bytes_eq(a.name.as_slice(), b.name.as_slice()) {
        lex_leq(a.value.as_slice(), b.value.as_slice())
    } else {
        lex_leq(a.name.as_slice(), b.name.as_slice())
    }
}

proof fn lemma_nvs_view_insert(s: Seq<NamedValue>, j: int, x: NamedValue)
    requires
        0 <= j <= s.len(),
    ensures
        nvs_view(s.insert(j, x)) =~= nvs_view(s).insert(j, nv_view(x)),
{
}

proof fn lemma_nvs_view_drop_last(s: Seq<NamedValue>)
    requires
        s.len() > 0,
    ensures
        nvs_view(s.drop_last()) =~= nvs_view(s).drop_last(),
{
}

/// Finds the first position whose element is not below `x`.
fn find_insert_pos(out: &Vec<NamedValue>, x: &NamedValue) -> (j: usize)
    ensures
        j <= out@.len(),
        forall|k: int| 0 <= k < j ==> !pair_le(nv_view(*x), nvs_view(out@)[k]),
        j < out@.len() ==> pair_le(nv_view(*x), nvs_view(out@)[j as int]),
{
    let n = out.len();
    let mut j: usize = 0;
    while j < n
        invariant
            j <= n,
            n == out@.len(),
            forall|k: int| 0 <= k < j ==> !pair_le(nv_view(*x), nvs_view(out@)[k]),
        decreases n - j,
    {
        let below = nv_leq(x, &out[j]);
        proof {
            assert(nvs_view(out@)[j as int] == nv_view(out@[j as int]));
        }
        if below {
            return j;
        }
        j = j + 1;
    }
    j
}

/// Inserts one value into an already sorted vector, keeping it sorted.
fn insert_sorted(out: &mut Vec<NamedValue>, x: NamedValue)
    requires
        sorted_by(nvs_view(old(out)@), pair_le_fn()),
    ensures
        sorted_by(nvs_view(final(out)@), pair_le_fn()),
        nvs_view(final(out)@).to_multiset() == nvs_view(old(out)@).to_multiset().insert(nv_view(x)),
{
    broadcast use vstd::seq_lib::group_to_multiset_ensures;
    broadcast use vstd::multiset::group_multiset_axioms;

    proof {
        lemma_pair_le_total_ordering();
    }
    let ghost xv = nv_view(x);
    let ghost olds = out@;
    let ghost oldv = nvs_view(out@);
    let j = find_insert_pos(out, &x);
    let ghost jj = j as int;
    proof {
        let f = pair_le_fn();
        // everything before the insertion point is at most x
        assert forall|k: int| 0 <= k < jj implies #[trigger] f(oldv[k], xv) by {
            assert(!pair_le(xv, oldv[k]));
            lemma_pair_le_connected(xv, oldv[k]);
        }
        // x is at most everything from the insertion point on
        assert forall|k: int| jj <= k < oldv.len() implies #[trigger] f(xv, oldv[k]) by {
            assert(pair_le(xv, oldv[jj]));
            if k > jj {
                assert(f(oldv[jj], oldv[k]));
                lemma_pair_le_transitive(xv, oldv[jj], oldv[k]);
            }
        }
    }
    out.insert(j, x);
    proof {
        let f = pair_le_fn();
        lemma_nvs_view_insert(olds, jj, x);
        let t = nvs_view(out@);
        assert(t =~= oldv.insert(jj, xv));
        assert forall|i1: int, i2: int| 0 <= i1 < i2 < t.len() implies #[trigger] f(
            t[i1],
            t[i2],
        ) by {
            if i2 < jj {
                assert(f(oldv[i1], oldv[i2]));
            } else if i1 == jj {
                assert(t[i2] == oldv[i2 - 1]);
                assert(f(xv, oldv[i2 - 1]));
            } else if i1 > jj {
                assert(f(oldv[i1 - 1], oldv[i2 - 1]));
            } else if i2 == jj {
                assert(f(oldv[i1], xv));
            } else {
                // i1 < jj < i2: both are old elements
                assert(t[i1] == oldv[i1]);
                assert(t[i2] == oldv[i2 - 1]);
                if i1 == i2 - 1 {
                    lemma_pair_le_connected(oldv[i1], oldv[i1]);
                } else {
                    assert(f(oldv[i1], oldv[i2 - 1]));
                }
            }
        }
        // the multiset gains exactly the new pair
        assert(oldv.insert(jj, xv).to_multiset() == oldv.to_multiset().insert(xv));
        assert(t.to_multiset() == oldv.to_multiset().insert(xv));
    }
}

/// Sorts a list of named values into the canonical order.  The result
/// is, at the level of views, exactly `sort_by` of the input: the one
/// sorted arrangement of its pairs.
pub fn sort_named_values(input: Vec<NamedValue>) -> (r: Vec<NamedValue>)
    ensures
        nvs_view(r@) == nvs_view(input@).sort_by(pair_le_fn()),
        sorted_by(nvs_view(r@), pair_le_fn()),
{
    broadcast use vstd::seq_lib::group_to_multiset_ensures;
    broadcast use vstd::multiset::group_multiset_axioms;

    let ghost inv = nvs_view(input@);
    let mut rest = input;
    let mut out: Vec<NamedValue> = Vec::new();
    proof {
        assert(nvs_view(out@) =~= Seq::<(Seq<u8>, Seq<u8>)>::empty());
        assert(nvs_view(out@).to_multiset().add(nvs_view(rest@).to_multiset()) =~= nvs_view(
            rest@,
        ).to_multiset());
    }
    while rest.len() > 0
        invariant
            sorted_by(nvs_view(out@), pair_le_fn()),
            nvs_view(out@).to_multiset().add(nvs_view(rest@).to_multiset()) == inv.to_multiset(),
        decreases rest@.len(),
    {
        let ghost rests = rest@;
        let ghost restv = nvs_view(rest@);
        let ghost outv = nvs_view(out@);
        let xo = rest.pop();
        let x = match xo {
            Some(x) => x,
            None => unreached(),
        };
        let ghost xv = nv_view(x);
        proof {
            broadcast use vstd::seq_lib::group_to_multiset_ensures;
            broadcast use vstd::multiset::group_multiset_axioms;

            lemma_nvs_view_drop_last(rests);
            assert(nvs_view(rest@) =~= restv.drop_last());
            assert(xv == restv[restv.len() - 1]);
            assert(restv.drop_last() =~= restv.remove(restv.len() - 1));
            assert(restv.remove(restv.len() - 1).to_multiset() == restv.to_multiset().remove(
                restv[restv.len() - 1],
            ));
            assert(restv.contains(xv));
            assert(restv.to_multiset().count(xv) > 0);
        }
        insert_sorted(&mut out, x);
        proof {
            broadcast use vstd::seq_lib::group_to_multiset_ensures;
            broadcast use vstd::multiset::group_multiset_axioms;

            assert(nvs_view(out@).to_multiset() =~= outv.to_multiset().insert(xv));
            assert(nvs_view(rest@).to_multiset() =~= restv.to_multiset().remove(xv));
            assert(nvs_view(out@).to_multiset().add(nvs_view(rest@).to_multiset())
                =~= inv.to_multiset());
        }
    }
    proof {
        lemma_pair_le_total_ordering();
        inv.lemma_sort_by_ensures(pair_le_fn());
        assert(nvs_view(rest@) =~= Seq::<(Seq<u8>, Seq<u8>)>::empty());
        assert(nvs_view(out@).to_multiset() =~= inv.to_multiset());
        lemma_sorted_unique(nvs_view(out@), inv.sort_by(pair_le_fn()), pair_le_fn());
    }
    out
}

/// The serialized form of one query parameter: both sides
/// percent-encoded, joined by `=`.
pub open spec fn enc_pair(p: (Seq<u8>, Seq<u8>)) -> Seq<u8> {
    spec_uri_encode(p.0, true) + seq![61u8] + spec_uri_encode(p.1, true)
}

/// Serialized query parameters joined by `&`.
pub open spec fn spec_join_query(ps: Seq<(Seq<u8>, Seq<u8>)>) -> Seq<u8>
    decreases ps.len(),
{
    if ps.len() == 0 {
        Seq::empty()
    } else if ps.len() == 1 {
        enc_pair(ps[0])
    } else {
        enc_pair(ps[0]) + seq![38u8] + spec_join_query(ps.skip(1))
    }
}

proof fn lemma_join_query_snoc(ps: Seq<(Seq<u8>, Seq<u8>)>, p: (Seq<u8>, Seq<u8>))
    ensures
        ps.len() == 0 ==> spec_join_query(ps.push(p)) == enc_pair(p),
        ps.len() > 0 ==> spec_join_query(ps.push(p)) == spec_join_query(ps) + seq![38u8] + enc_pair(
            p,
        ),
    decreases ps.len(),
{
    if ps.len() == 0 {
    } else {
        assert(ps.push(p).skip(1) =~= ps.skip(1).push(p));
        lemma_join_query_snoc(ps.skip(1), p);
        if ps.len() == 1 {
            assert(spec_join_query(ps.push(p)) =~= spec_join_query(ps) + seq![38u8] + enc_pair(p));
        } else {
            assert(spec_join_query(ps.push(p)) =~= spec_join_query(ps) + seq![38u8] + enc_pair(p));
        }
    }
}

/// The canonical query string: parameters sorted into the canonical
/// order, percent-encoded and joined.  An empty parameter list yields
/// the empty string.
pub open spec fn spec_canonical_query(ps: Seq<(Seq<u8>, Seq<u8>)>) -> Seq<u8> {
    spec_join_query(ps.sort_by(pair_le_fn()))
}

/// Builds the canonical query string for a parameter list.
pub fn build_canonical_query(params: Vec<NamedValue>) -> (r: Vec<u8>)
    ensures
        r@ == spec_canonical_query(nvs_view(params@)),
{
    let ghost pv = nvs_view(params@);
    let sorted = sort_named_values(params);
    let ghost sv = nvs_view(sorted@);
    let mut out: Vec<u8> = Vec::new();
    let n = sorted.len();
    let mut i: usize = 0;
    proof {
        assert(sv.subrange(0, 0) =~= Seq::<(Seq<u8>, Seq<u8>)>::empty());
    }
    while i < n
        invariant
            i <= n,
            n == sorted@.len(),
            sv == nvs_view(sorted@),
            out@ == spec_join_query(sv.subrange(0, i as int)),
        decreases n - i,
    {
        if i > 0 {
            out.push(38);
        }
        let ek = crate::digests::url_encode_component(sorted[i].name.as_slice());
        push_bytes(&mut out, ek.as_slice());
        out.push(61);
        let ev = crate::digests::url_encode_component(sorted[i].value.as_slice());
        push_bytes(&mut out, ev.as_slice());
        proof {
            assert(sv[i as int] == nv_view(sorted@[i as int]));
            lemma_join_query_snoc(sv.subrange(0, i as int), sv[i as int]);
            assert(sv.subrange(0, i + 1) =~= sv.subrange(0, i as int).push(sv[i as int]));
            assert(out@ =~= spec_join_query(sv.subrange(0, i + 1)));
        }
        i = i + 1;
    }
    proof {
        assert(sv.subrange(0, n as int) =~= sv);
    }
    out
}

/// A byte lowered into ASCII lowercase.
pub open spec fn lower_byte(b: u8) -> u8 {
    if 0x41 <= b <= 0x5a {
        (b + 0x20) as u8
    } else {
        b
    }
}

/// A byte string lowered into ASCII lowercase.
pub open spec fn spec_lower(s: Seq<u8>) -> Seq<u8> {
    s.map_values(|b: u8| lower_byte(b))
}

/// Lowers a byte string into ASCII lowercase.
pub fn ascii_lower(s: &[u8]) -> (r: Vec<u8>)
    ensures
        r@ == spec_lower(s@),
{
    let mut out: Vec<u8> = Vec::new();
    let n = s.len();
    let mut i: usize = 0;
    while i < n
        invariant
            i <= n,
            n == s@.len(),
            out@.len() == i,
            forall|k: int| 0 <= k < i ==> out@[k] == lower_byte(s@[k]),
        decreases n - i,
    {
        let b = s[i];
        if 0x41 <= b && b <= 0x5a {
            out.push(b + 0x20);
        } else {
            out.push(b);
        }
        i = i + 1;
    }
    proof {
        assert(out@ =~= spec_lower(s@));
    }
    out
}

/// Header pairs with their names lowered.
pub open spec fn lower_pairs(hs: Seq<(Seq<u8>, Seq<u8>)>) -> Seq<(Seq<u8>, Seq<u8>)> {
    hs.map_values(|p: (Seq<u8>, Seq<u8>)| (spec_lower(p.0), p.1))
}

/// The canonical header pairs: names lowered, then sorted.
pub open spec fn spec_norm_headers(hs: Seq<(Seq<u8>, Seq<u8>)>) -> Seq<(Seq<u8>, Seq<u8>)> {
    lower_pairs(hs).sort_by(pair_le_fn())
}

/// The canonical header block: one `name:value` line per header, each
/// line closed by a newline.
pub open spec fn spec_header_lines(hs: Seq<(Seq<u8>, Seq<u8>)>) -> Seq<u8>
    decreases hs.len(),
{
    if hs.len() == 0 {
        Seq::empty()
    } else {
        hs[0].0 + seq![58u8] + hs[0].1 + seq![10u8] + spec_header_lines(hs.skip(1))
    }
}

proof fn lemma_header_lines_snoc(hs: Seq<(Seq<u8>, Seq<u8>)>, p: (Seq<u8>, Seq<u8>))
    ensures
        spec_header_lines(hs.push(p)) == spec_header_lines(hs) + p.0 + seq![58u8] + p.1 + seq![
            10u8,
        ],
    decreases hs.len(),
{
    if hs.len() == 0 {
        assert(hs.push(p).skip(1) =~= hs);
        assert(spec_header_lines(hs.push(p)) =~= spec_header_lines(hs) + p.0 + seq![58u8] + p.1
            + seq![10u8]);
    } else {
        assert(hs.push(p).skip(1) =~= hs.skip(1).push(p));
        lemma_header_lines_snoc(hs.skip(1), p);
        assert(spec_header_lines(hs.push(p)) =~= spec_header_lines(hs) + p.0 + seq![58u8] + p.1
            + seq![10u8]);
    }
}

/// The signed-header list: the header names joined by `;`.
pub open spec fn spec_signed_names(hs: Seq<(Seq<u8>, Seq<u8>)>) -> Seq<u8>
    decreases hs.len(),
{
    if hs.len() == 0 {
        Seq::empty()
    } else if hs.len() == 1 {
        hs[0].0
    } else {
        hs[0].0 + seq![59u8] + spec_signed_names(hs.skip(1))
    }
}

proof fn lemma_signed_names_snoc(hs: Seq<(Seq<u8>, Seq<u8>)>, p: (Seq<u8>, Seq<u8>))
    ensures
        hs.len() == 0 ==> spec_signed_names(hs.push(p)) == p.0,
        hs.len() > 0 ==> spec_signed_names(hs.push(p)) == spec_signed_names(hs) + seq![59u8] + p.0,
    decreases hs.len(),
{
    if hs.len() == 0 {
    } else {
        assert(hs.push(p).skip(1) =~= hs.skip(1).push(p));
        lemma_signed_names_snoc(hs.skip(1), p);
        assert(spec_signed_names(hs.push(p)) =~= spec_signed_names(hs) + seq![59u8] + p.0);
    }
}

/// The canonical URI: the path itself, or `/` where the path is empty.
pub open spec fn spec_canonical_uri(uri: Seq<u8>) -> Seq<u8> {
    if uri.len() == 0 {
        seq![47u8]
    } else {
        uri
    }
}

/// The canonical request over which a signature is computed:
/// method, URI, sorted query, lowered and sorted headers (the block
/// followed by a blank line), the signed-header names, and the payload
/// marker, separated by newlines.
pub open spec fn spec_canonical_request(
    method: Seq<u8>,
    uri: Seq<u8>,
    query: Seq<(Seq<u8>, Seq<u8>)>,
    headers: Seq<(Seq<u8>, Seq<u8>)>,
    payload_marker: Seq<u8>,
) -> Seq<u8> {
    method + seq![10u8] + spec_canonical_uri(uri) + seq![10u8] + spec_canonical_query(query)
        + seq![10u8] + spec_header_lines(spec_norm_headers(headers)) + seq![10u8]
        + spec_signed_names(spec_norm_headers(headers)) + seq![10u8] + payload_marker
}

/// Lowers the names of a header list.
fn lower_header_names(headers: Vec<NamedValue>) -> (r: Vec<NamedValue>)
    ensures
        nvs_view(r@) == lower_pairs(nvs_view(headers@)),
{
    let mut out: Vec<NamedValue> = Vec::new();
    let n = headers.len();
    let mut i: usize = 0;
    while i < n
        invariant
            i <= n,
            n == headers@.len(),
            out@.len() == i,
            forall|k: int|
                0 <= k < i ==> nv_view(out@[k]) == (
                spec_lower(nv_view(headers@[k]).0),
                nv_view(headers@[k]).1,
            ),
        decreases n - i,
    {
        let name = ascii_lower(headers[i].name.as_slice());
        let value = to_vec(headers[i].value.as_slice());
        out.push(NamedValue { name, value });
        i = i + 1;
    }
    proof {
        assert(nvs_view(out@) =~= lower_pairs(nvs_view(headers@)));
    }
    out
}

/// Builds the canonical request for a method, URI path, query parameter
/// list, header list and payload marker.  The output is byte-exact: the
/// same inputs always produce the same canonical request, in whatever
/// order the parameters and headers were handed in.
pub fn build_canonical_request(
    method: &[u8],
    uri: &[u8],
    query: Vec<NamedValue>,
    headers: Vec<NamedValue>,
    payload_marker: &[u8],
) -> (r: Vec<u8>)
    ensures
        r@ == spec_canonical_request(
            method@,
            uri@,
            nvs_view(query@),
            nvs_view(headers@),
            payload_marker@,
        ),
{
    let ghost qv = nvs_view(query@);
    let ghost hv = nvs_view(headers@);
    let canonical_query = build_canonical_query(query);
    let lowered = lower_header_names(headers);
    let sorted_headers = sort_named_values(lowered);
    let ghost shv = nvs_view(sorted_headers@);

    let mut out: Vec<u8> = Vec::new();
    push_bytes(&mut out, method);
    out.push(10);
    if uri.len() == 0 {
        out.push(47);
    } else {
        push_bytes(&mut out, uri);
    }
    out.push(10);
    push_bytes(&mut out, canonical_query.as_slice());
    out.push(10);

    // header lines
    let n = sorted_headers.len();
    let ghost mid = out@;
    let mut i: usize = 0;
    proof {
        assert(shv.subrange(0, 0) =~= Seq::<(Seq<u8>, Seq<u8>)>::empty());
    }
    while i < n
        invariant
            i <= n,
            n == sorted_headers@.len(),
            shv == nvs_view(sorted_headers@),
            out@ == mid + spec_header_lines(shv.subrange(0, i as int)),
        decreases n - i,
    {
        push_bytes(&mut out, sorted_headers[i].name.as_slice());
        out.push(58);
        push_bytes(&mut out, sorted_headers[i].value.as_slice());
        out.push(10);
        proof {
            assert(shv[i as int] == nv_view(sorted_headers@[i as int]));
            lemma_header_lines_snoc(shv.subrange(0, i as int), shv[i as int]);
            assert(shv.subrange(0, i + 1) =~= shv.subrange(0, i as int).push(shv[i as int]));
            assert(out@ =~= mid + spec_header_lines(shv.subrange(0, i + 1)));
        }
        i = i + 1;
    }
    out.push(10);

    // signed header names
    let ghost mid2 = out@;
    let mut j: usize = 0;
    proof {
        assert(shv.subrange(0, 0) =~= Seq::<(Seq<u8>, Seq<u8>)>::empty());
    }
    while j < n
        invariant
            j <= n,
            n == sorted_headers@.len(),
            shv == nvs_view(sorted_headers@),
            out@ == mid2 + spec_signed_names(shv.subrange(0, j as int)),
        decreases n - j,
    {
        if j > 0 {
            out.push(59);
        }
        push_bytes(&mut out, sorted_headers[j].name.as_slice());
        proof {
            assert(shv[j as int] == nv_view(sorted_headers@[j as int]));
            lemma_signed_names_snoc(shv.subrange(0, j as int), shv[j as int]);
            assert(shv.subrange(0, j + 1) =~= shv.subrange(0, j as int).push(shv[j as int]));
            assert(out@ =~= mid2 + spec_signed_names(shv.subrange(0, j + 1)));
        }
        j = j + 1;
    }
    out.push(10);
    push_bytes(&mut out, payload_marker);
    proof {
        assert(shv.subrange(0, n as int) =~= shv);
        assert(out@ =~= spec_canonical_request(method@, uri@, qv, hv, payload_marker@));
    }
    out
}

/// Law: canonicalization is deterministic.  For one fixed set of query
/// parameters and one fixed set of headers (headers compared after
/// their names are lowered), the canonical request is one byte string,
/// in whatever order a caller's map hands the entries out.
pub proof fn lemma_canonical_request_order_insensitive(
    method: Seq<u8>,
    uri: Seq<u8>,
    q1: Seq<(Seq<u8>, Seq<u8>)>,
    q2: Seq<(Seq<u8>, Seq<u8>)>,
    h1: Seq<(Seq<u8>, Seq<u8>)>,
    h2: Seq<(Seq<u8>, Seq<u8>)>,
    payload_marker: Seq<u8>,
)
    requires
        q1.to_multiset() == q2.to_multiset(),
        lower_pairs(h1).to_multiset() == lower_pairs(h2).to_multiset(),
    ensures
        spec_canonical_request(method, uri, q1, h1, payload_marker) == spec_canonical_request(
            method,
            uri,
            q2,
            h2,
            payload_marker,
        ),
{
    lemma_pair_le_total_ordering();
    q1.lemma_sort_by_ensures(pair_le_fn());
    q2.lemma_sort_by_ensures(pair_le_fn());
    lemma_sorted_unique(q1.sort_by(pair_le_fn()), q2.sort_by(pair_le_fn()), pair_le_fn());
    lower_pairs(h1).lemma_sort_by_ensures(pair_le_fn());
    lower_pairs(h2).lemma_sort_by_ensures(pair_le_fn());
    lemma_sorted_unique(
        lower_pairs(h1).sort_by(pair_le_fn()),
        lower_pairs(h2).sort_by(pair_le_fn()),
        pair_le_fn(),
    );
}

/// The credential scope: date, region, service and the scheme's
/// closing word, joined by `/`.
pub open spec fn spec_scope(date: Seq<u8>, region: Seq<u8>, service: Seq<u8>, suffix: Seq<u8>) -> Seq<
    u8,
> {
    date + seq![47u8] + region + seq![47u8] + service + seq![47u8] + suffix
}

/// Builds the credential scope.
pub fn build_scope(date: &[u8], region: &[u8], service: &[u8], suffix: &[u8]) -> (r: Vec<u8>)
    ensures
        r@ == spec_scope(date@, region@, service@, suffix@),
{
    let mut out: Vec<u8> = Vec::new();
    push_bytes(&mut out, date);
    out.push(47);
    push_bytes(&mut out, region);
    out.push(47);
    push_bytes(&mut out, service);
    out.push(47);
    push_bytes(&mut out, suffix);
    proof {
        assert(out@ =~= spec_scope(date@, region@, service@, suffix@));
    }
    out
}

/// The scoped signing key: four chained HMAC-SHA256 applications over
/// the prefixed secret, the date, the region, the service and the
/// scheme's closing word.
pub open spec fn spec_signing_key(
    key_prefix: Seq<u8>,
    secret: Seq<u8>,
    date: Seq<u8>,
    region: Seq<u8>,
    service: Seq<u8>,
    suffix: Seq<u8>,
) -> Seq<u8> {
    hmac_sha256_of(
        hmac_sha256_of(hmac_sha256_of(hmac_sha256_of(key_prefix + secret, date), region), service),
        suffix,
    )
}

/// Law: key derivation is exactly four HMAC-SHA256 applications in a
/// fixed chain - date, then region, then service, then the closing
/// word - whatever the lengths of the region and service names.
pub proof fn lemma_signing_key_is_four_hmac_chain(
    key_prefix: Seq<u8>,
    secret: Seq<u8>,
    date: Seq<u8>,
    region: Seq<u8>,
    service: Seq<u8>,
    suffix: Seq<u8>,
)
    ensures
        spec_signing_key(key_prefix, secret, date, region, service, suffix) == ({
            let k_date = hmac_sha256_of(key_prefix + secret, date);
            let k_region = hmac_sha256_of(k_date, region);
            let k_service = hmac_sha256_of(k_region, service);
            hmac_sha256_of(k_service, suffix)
        }),
{
}

/// Derives the scoped signing key.
pub fn derive_signing_key(
    key_prefix: &[u8],
    secret: &[u8],
    date: &[u8],
    region: &[u8],
    service: &[u8],
    suffix: &[u8],
) -> (r: Vec<u8>)
    ensures
        r@ == spec_signing_key(key_prefix@, secret@, date@, region@, service@, suffix@),
        r@.len() == 32,
{
    let mut prefixed: Vec<u8> = Vec::new();
    push_bytes(&mut prefixed, key_prefix);
    push_bytes(&mut prefixed, secret);
    let k_date = hmac_sha256_digest(prefixed.as_slice(), date);
    let k_region = hmac_sha256_digest(k_date.as_slice(), region);
    let k_service = hmac_sha256_digest(k_region.as_slice(), service);
    hmac_sha256_digest(k_service.as_slice(), suffix)
}

/// The string to sign: algorithm, timestamp, scope and the hex SHA-256
/// of the canonical request, separated by newlines.
pub open spec fn spec_string_to_sign(
    algorithm: Seq<u8>,
    timestamp: Seq<u8>,
    scope: Seq<u8>,
    canonical_request: Seq<u8>,
) -> Seq<u8> {
    algorithm + seq![10u8] + timestamp + seq![10u8] + scope + seq![10u8] + spec_hex_lower(
        sha256_of(canonical_request),
    )
}

/// Builds the string to sign from a canonical request.
pub fn build_string_to_sign(
    algorithm: &[u8],
    timestamp: &[u8],
    scope: &[u8],
    canonical_request: &[u8],
) -> (r: Vec<u8>)
    ensures
        r@ == spec_string_to_sign(algorithm@, timestamp@, scope@, canonical_request@),
{
    let digest = sha256_digest(canonical_request);
    let digest_hex = hex_lower(digest.as_slice());
    let mut out: Vec<u8> = Vec::new();
    push_bytes(&mut out, algorithm);
    out.push(10);
    push_bytes(&mut out, timestamp);
    out.push(10);
    push_bytes(&mut out, scope);
    out.push(10);
    push_bytes(&mut out, digest_hex.as_slice());
    proof {
        assert(out@ =~= spec_string_to_sign(algorithm@, timestamp@, scope@, canonical_request@));
    }
    out
}

/// The final signature: the hex HMAC-SHA256 of the string to sign
/// under the derived key.
pub open spec fn spec_signature(signing_key: Seq<u8>, string_to_sign: Seq<u8>) -> Seq<u8> {
    spec_hex_lower(hmac_sha256_of(signing_key, string_to_sign))
}

/// Computes the hex signature.
pub fn compute_signature(signing_key: &[u8], string_to_sign: &[u8]) -> (r: Vec<u8>)
    ensures
        r@ == spec_signature(signing_key@, string_to_sign@),
{
    let mac = hmac_sha256_digest(signing_key, string_to_sign);
    hex_lower(mac.as_slice())
}

/// The `Authorization` header value.
pub open spec fn spec_authorization(
    algorithm: Seq<u8>,
    access_key: Seq<u8>,
    scope: Seq<u8>,
    signed_names: Seq<u8>,
    signature: Seq<u8>,
) -> Seq<u8> {
    algorithm + ascii_bytes(" Credential="@) + access_key + seq![47u8] + scope + ascii_bytes(
        ", SignedHeaders="@,
    ) + signed_names + ascii_bytes(", Signature="@) + signature
}

/// Builds the `Authorization` header value.
pub fn build_authorization(
    algorithm: &[u8],
    access_key: &[u8],
    scope: &[u8],
    signed_names: &[u8],
    signature: &[u8],
) -> (r: Vec<u8>)
    ensures
        r@ == spec_authorization(algorithm@, access_key@, scope@, signed_names@, signature@),
{
    proof {
        reveal_strlit(" Credential=");
        reveal_strlit(", SignedHeaders=");
        reveal_strlit(", Signature=");
    }
    let mut out: Vec<u8> = Vec::new();
    push_bytes(&mut out, algorithm);
    let cred = lit_bytes(" Credential=");
    push_bytes(&mut out, cred.as_slice());
    push_bytes(&mut out, access_key);
    out.push(47);
    push_bytes(&mut out, scope);
    let sh = lit_bytes(", SignedHeaders=");
    push_bytes(&mut out, sh.as_slice());
    push_bytes(&mut out, signed_names);
    let sig = lit_bytes(", Signature=");
    push_bytes(&mut out, sig.as_slice());
    push_bytes(&mut out, signature);
    proof {
        assert(out@ =~= spec_authorization(
            algorithm@,
            access_key@,
            scope@,
            signed_names@,
            signature@,
        ));
    }
    out
}

/// One signing scheme: the algorithm label, the secret-key prefix, the
/// scope's region, service and closing word.  The library ships two:
/// the AWS flavour and the TOS flavour.
pub struct SigningScheme {
    pub algorithm: Vec<u8>,
    pub key_prefix: Vec<u8>,
    pub region: Vec<u8>,
    pub service: Vec<u8>,
    pub scope_suffix: Vec<u8>,
}

/// The `AWS4-HMAC-SHA256` scheme: secret prefixed with `AWS4`, scope
/// closed by `aws4_request`.
pub fn aws_scheme(region: Vec<u8>, service: Vec<u8>) -> (s: SigningScheme)
    ensures
        s.algorithm@ == ascii_bytes("AWS4-HMAC-SHA256"@),
        s.key_prefix@ == ascii_bytes("AWS4"@),
        s.region@ == region@,
        s.service@ == service@,
        s.scope_suffix@ == ascii_bytes("aws4_request"@),
{
    proof {
        reveal_strlit("AWS4-HMAC-SHA256");
        reveal_strlit("AWS4");
        reveal_strlit("aws4_request");
    }
    SigningScheme {
        algorithm: lit_bytes("AWS4-HMAC-SHA256"),
        key_prefix: lit_bytes("AWS4"),
        region,
        service,
        scope_suffix: lit_bytes("aws4_request"),
    }
}

/// The `TOS4-HMAC-SHA256` scheme: the raw secret, unprefixed - a
/// protocol-level difference from the AWS flavour, not a bug - and a
/// scope closed by a bare `request`.
pub fn tos_scheme(region: Vec<u8>, service: Vec<u8>) -> (s: SigningScheme)
    ensures
        s.algorithm@ == ascii_bytes("TOS4-HMAC-SHA256"@),
        s.key_prefix@ == Seq::<u8>::empty(),
        s.region@ == region@,
        s.service@ == service@,
        s.scope_suffix@ == ascii_bytes("request"@),
{
    proof {
        reveal_strlit("TOS4-HMAC-SHA256");
        reveal_strlit("request");
    }
    SigningScheme {
        algorithm: lit_bytes("TOS4-HMAC-SHA256"),
        key_prefix: Vec::new(),
        region,
        service,
        scope_suffix: lit_bytes("request"),
    }
}

/// The `Authorization` value that signing a whole request produces,
/// as a function of every signing input.  The date is the first eight
/// bytes of the timestamp, so the scope can never disagree with the
/// request's date header.
pub open spec fn spec_sign_request_fields(
    algorithm: Seq<u8>,
    key_prefix: Seq<u8>,
    region: Seq<u8>,
    service: Seq<u8>,
    scope_suffix: Seq<u8>,
    access_key: Seq<u8>,
    secret: Seq<u8>,
    method: Seq<u8>,
    uri: Seq<u8>,
    query: Seq<(Seq<u8>, Seq<u8>)>,
    headers: Seq<(Seq<u8>, Seq<u8>)>,
    payload_marker: Seq<u8>,
    timestamp: Seq<u8>,
) -> Seq<u8> {
    let date = timestamp.take(8);
    let scope = spec_scope(date, region, service, scope_suffix);
    let canonical = spec_canonical_request(method, uri, query, headers, payload_marker);
    let sts = spec_string_to_sign(algorithm, timestamp, scope, canonical);
    let key = spec_signing_key(key_prefix, secret, date, region, service, scope_suffix);
    spec_authorization(
        algorithm,
        access_key,
        scope,
        spec_signed_names(spec_norm_headers(headers)),
        spec_signature(key, sts),
    )
}

pub open spec fn spec_sign_request(
    scheme: SigningScheme,
    access_key: Seq<u8>,
    secret: Seq<u8>,
    method: Seq<u8>,
    uri: Seq<u8>,
    query: Seq<(Seq<u8>, Seq<u8>)>,
    headers: Seq<(Seq<u8>, Seq<u8>)>,
    payload_marker: Seq<u8>,
    timestamp: Seq<u8>,
) -> Seq<u8> {
    spec_sign_request_fields(
        scheme.algorithm@,
        scheme.key_prefix@,
        scheme.region@,
        scheme.service@,
        scheme.scope_suffix@,
        access_key,
        secret,
        method,
        uri,
        query,
        headers,
        payload_marker,
        timestamp,
    )
}

/// Signs one request: canonicalizes it, hashes it, derives the scoped
/// key and returns the `Authorization` header value.  The timestamp is
/// taken as an argument and used for both the scope date and the
/// string to sign, so one request is signed against one instant.
pub fn sign_request(
    scheme: &SigningScheme,
    access_key: &[u8],
    secret: &[u8],
    method: &[u8],
    uri: &[u8],
    query: Vec<NamedValue>,
    headers: Vec<NamedValue>,
    payload_marker: &[u8],
    timestamp: &[u8],
) -> (r: Vec<u8>)
    requires
        timestamp@.len() >= 8,
    ensures
        r@ == spec_sign_request(
            *scheme,
            access_key@,
            secret@,
            method@,
            uri@,
            nvs_view(query@),
            nvs_view(headers@),
            payload_marker@,
            timestamp@,
        ),
{
    let ghost hv = nvs_view(headers@);
    let date = sub_vec(timestamp, 0, 8);
    let scope = build_scope(
        date.as_slice(),
        scheme.region.as_slice(),
        scheme.service.as_slice(),
        scheme.scope_suffix.as_slice(),
    );
    // the signed-header names are recomputed from a lowered, sorted copy
    let lowered = lower_header_names(copy_named_values(&headers));
    let sorted = sort_named_values(lowered);
    let signed_names = join_names(&sorted);
    let canonical = build_canonical_request(method, uri, query, headers, payload_marker);
    let sts = build_string_to_sign(
        scheme.algorithm.as_slice(),
        timestamp,
        scope.as_slice(),
        canonical.as_slice(),
    );
    let key = derive_signing_key(
        scheme.key_prefix.as_slice(),
        secret,
        date.as_slice(),
        scheme.region.as_slice(),
        scheme.service.as_slice(),
        scheme.scope_suffix.as_slice(),
    );
    let signature = compute_signature(key.as_slice(), sts.as_slice());
    proof {
        assert(date@ =~= timestamp@.take(8));
    }
    build_authorization(
        scheme.algorithm.as_slice(),
        access_key,
        scope.as_slice(),
        signed_names.as_slice(),
        signature.as_slice(),
    )
}

/// Copies a list of named values.
pub fn copy_named_values(input: &Vec<NamedValue>) -> (r: Vec<NamedValue>)
    ensures
        nvs_view(r@) == nvs_view(input@),
{
    let mut out: Vec<NamedValue> = Vec::new();
    let n = input.len();
    let mut i: usize = 0;
    while i < n
        invariant
            i <= n,
            n == input@.len(),
            out@.len() == i,
            forall|k: int| 0 <= k < i ==> nv_view(out@[k]) == nv_view(input@[k]),
        decreases n - i,
    {
        let name = to_vec(input[i].name.as_slice());
        let value = to_vec(input[i].value.as_slice());
        out.push(NamedValue { name, value });
        i = i + 1;
    }
    proof {
        assert(nvs_view(out@) =~= nvs_view(input@));
    }
    out
}

/// Joins the names of a header list with `;`.
fn join_names(headers: &Vec<NamedValue>) -> (r: Vec<u8>)
    ensures
        r@ == spec_signed_names(nvs_view(headers@)),
{
    let ghost hv = nvs_view(headers@);
    let mut out: Vec<u8> = Vec::new();
    let n = headers.len();
    let mut j: usize = 0;
    proof {
        assert(hv.subrange(0, 0) =~= Seq::<(Seq<u8>, Seq<u8>)>::empty());
    }
    while j < n
        invariant
            j <= n,
            n == headers@.len(),
            hv == nvs_view(headers@),
            out@ == spec_signed_names(hv.subrange(0, j as int)),
        decreases n - j,
    {
        if j > 0 {
            out.push(59);
        }
        push_bytes(&mut out, headers[j].name.as_slice());
        proof {
            assert(hv[j as int] == nv_view(headers@[j as int]));
            lemma_signed_names_snoc(hv.subrange(0, j as int), hv[j as int]);
            assert(hv.subrange(0, j + 1) =~= hv.subrange(0, j as int).push(hv[j as int]));
            assert(out@ =~= spec_signed_names(hv.subrange(0, j + 1)));
        }
        j = j + 1;
    }
    proof {
        assert(hv.subrange(0, n as int) =~= hv);
    }
    out
}

/// One HMAC-SHA256 application over raw bytes, as the key-derivation
/// chain uses it.
pub fn hmac_sha256(key: &[u8], data: &[u8]) -> (r: Vec<u8>)
    ensures
        r@ == hmac_sha256_of(key@, data@),
        r@.len() == 32,
{
    hmac_sha256_digest(key, data)
}

/// The headers that every signed AWS-flavour request carries before
/// `authorization`: the host, the unsigned-payload marker and the
/// timestamp.
pub open spec fn spec_aws_base_headers(host: Seq<u8>, timestamp: Seq<u8>) -> Seq<
    (Seq<u8>, Seq<u8>),
> {
    seq![
        (ascii_bytes("host"@), host),
        (ascii_bytes("x-amz-content-sha256"@), ascii_bytes("UNSIGNED-PAYLOAD"@)),
        (ascii_bytes("x-amz-date"@), timestamp),
    ]
}

/// The full header set of a signed AWS-flavour request: the base
/// headers plus the `authorization` value computed over exactly those
/// headers.
pub open spec fn spec_aws_sign_headers(
    access_key: Seq<u8>,
    secret: Seq<u8>,
    region: Seq<u8>,
    service: Seq<u8>,
    method: Seq<u8>,
    uri: Seq<u8>,
    query: Seq<(Seq<u8>, Seq<u8>)>,
    host: Seq<u8>,
    timestamp: Seq<u8>,
) -> Seq<(Seq<u8>, Seq<u8>)> {
    let base = spec_aws_base_headers(host, timestamp);
    base.push(
        (
            ascii_bytes("authorization"@),
            spec_sign_request_fields(
                ascii_bytes("AWS4-HMAC-SHA256"@),
                ascii_bytes("AWS4"@),
                region,
                service,
                ascii_bytes("aws4_request"@),
                access_key,
                secret,
                method,
                uri,
                query,
                base,
                ascii_bytes("UNSIGNED-PAYLOAD"@),
                timestamp,
            ),
        ),
    )
}

/// Signs one AWS-flavour request - the store-management calls all go
/// through here - and returns every header it must carry.
pub fn sign_aws_request(
    access_key: &[u8],
    secret: &[u8],
    region: &[u8],
    service: &[u8],
    method: &[u8],
    uri: &[u8],
    query: Vec<NamedValue>,
    host: &[u8],
    timestamp: &[u8],
) -> (r: Vec<NamedValue>)
    requires
        timestamp@.len() >= 8,
    ensures
        nvs_view(r@) == spec_aws_sign_headers(
            access_key@,
            secret@,
            region@,
            service@,
            method@,
            uri@,
            nvs_view(query@),
            host@,
            timestamp@,
        ),
{
    proof {
        reveal_strlit("host");
        reveal_strlit("x-amz-content-sha256");
        reveal_strlit("UNSIGNED-PAYLOAD");
        reveal_strlit("x-amz-date");
        reveal_strlit("authorization");
    }
    let mut headers: Vec<NamedValue> = Vec::new();
    headers.push(NamedValue { name: lit_bytes("host"), value: to_vec(host) });
    headers.push(
        NamedValue { name: lit_bytes("x-amz-content-sha256"), value: lit_bytes("UNSIGNED-PAYLOAD") },
    );
    headers.push(NamedValue { name: lit_bytes("x-amz-date"), value: to_vec(timestamp) });
    proof {
        assert(nvs_view(headers@) =~= spec_aws_base_headers(host@, timestamp@));
    }
    let headers_for_signing = copy_named_values(&headers);
    let scheme = aws_scheme(to_vec(region), to_vec(service));
    let marker = lit_bytes("UNSIGNED-PAYLOAD");
    let authorization = sign_request(
        &scheme,
        access_key,
        secret,
        method,
        uri,
        query,
        headers_for_signing,
        marker.as_slice(),
        timestamp,
    );
    headers.push(NamedValue { name: lit_bytes("authorization"), value: authorization });
    proof {
        assert(nvs_view(headers@) =~= spec_aws_sign_headers(
            access_key@,
            secret@,
            region@,
            service@,
            method@,
            uri@,
            nvs_view(query@),
            host@,
            timestamp@,
        ));
    }
    headers
}

/// The TOS store's region name.
pub open spec fn spec_tos_region() -> Seq<u8> {
    ascii_bytes("tos-cn-shanghai"@)
}

/// The TOS store's service name.
pub open spec fn spec_tos_service() -> Seq<u8> {
    ascii_bytes("tos"@)
}

/// The TOS store's host name.
pub open spec fn spec_tos_host() -> Seq<u8> {
    ascii_bytes("n-so.tos-cn-shanghai.volces.com"@)
}

/// The headers that every signed TOS request carries, before the
/// `authorization` header is appended: the host, the unsigned-payload
/// marker, the timestamp and the session token.
pub open spec fn spec_tos_base_headers(token: Seq<u8>, timestamp: Seq<u8>) -> Seq<
    (Seq<u8>, Seq<u8>),
> {
    seq![
        (ascii_bytes("host"@), spec_tos_host()),
        (ascii_bytes("x-tos-content-sha256"@), ascii_bytes("UNSIGNED-PAYLOAD"@)),
        (ascii_bytes("x-tos-date"@), timestamp),
        (ascii_bytes("x-tos-security-token"@), token),
    ]
}

/// The full header set that signing a TOS request returns: the base
/// headers plus `authorization`, whose value binds exactly those
/// headers, the method, the URI, the sorted query and the timestamp.
pub open spec fn spec_tos_sign_headers(
    access_key: Seq<u8>,
    secret: Seq<u8>,
    token: Seq<u8>,
    method: Seq<u8>,
    uri: Seq<u8>,
    query: Seq<(Seq<u8>, Seq<u8>)>,
    timestamp: Seq<u8>,
) -> Seq<(Seq<u8>, Seq<u8>)> {
    let base = spec_tos_base_headers(token, timestamp);
    base.push(
        (
            ascii_bytes("authorization"@),
            spec_sign_request_fields(
                ascii_bytes("TOS4-HMAC-SHA256"@),
                Seq::<u8>::empty(),
                spec_tos_region(),
                spec_tos_service(),
                ascii_bytes("request"@),
                access_key,
                secret,
                method,
                uri,
                query,
                base,
                ascii_bytes("UNSIGNED-PAYLOAD"@),
                timestamp,
            ),
        ),
    )
}

/// The signer for the TOS store: short-lived STS credentials and the
/// session token they came with.
pub struct TosSigner {
    pub access_key: Vec<u8>,
    pub secret_key: Vec<u8>,
    pub session_token: Vec<u8>,
}

impl TosSigner {
    /// Packs a set of STS credentials into a signer.
    pub fn new(access_key: Vec<u8>, secret_key: Vec<u8>, session_token: Vec<u8>) -> (s: TosSigner)
        ensures
            s.access_key@ == access_key@,
            s.secret_key@ == secret_key@,
            s.session_token@ == session_token@,
    {
        TosSigner { access_key, secret_key, session_token }
    }

    /// One HMAC-SHA256 application, in the error-carrying shape the
    /// rest of the signer uses.  It never fails: HMAC accepts keys of
    /// any length.
    pub fn hmac_sha256(key: &[u8], data: &[u8]) -> (r: Result<Vec<u8>, AppError>)
        ensures
            r matches Ok(v) && v@ == hmac_sha256_of(key@, data@) && v@.len() == 32,
    {
        Ok(hmac_sha256_digest(key, data))
    }

    /// Derives the TOS signing key for a date: the four-HMAC chain
    /// over the raw, unprefixed secret.
    pub fn get_signing_key(&self, date: &[u8]) -> (r: Result<Vec<u8>, AppError>)
        ensures
            r matches Ok(k) && k@ == spec_signing_key(
                Seq::<u8>::empty(),
                self.secret_key@,
                date@,
                spec_tos_region(),
                spec_tos_service(),
                ascii_bytes("request"@),
            ) && k@.len() == 32,
    {
        proof {
            reveal_strlit("tos-cn-shanghai");
            reveal_strlit("tos");
            reveal_strlit("request");
        }
        let empty: Vec<u8> = Vec::new();
        let region = lit_bytes("tos-cn-shanghai");
        let service = lit_bytes("tos");
        let suffix = lit_bytes("request");
        Ok(
            derive_signing_key(
                empty.as_slice(),
                self.secret_key.as_slice(),
                date,
                region.as_slice(),
                service.as_slice(),
                suffix.as_slice(),
            ),
        )
    }

    /// Builds the base header list for a timestamp.
    fn base_headers(&self, timestamp: &[u8]) -> (r: Vec<NamedValue>)
        ensures
            nvs_view(r@) == spec_tos_base_headers(self.session_token@, timestamp@),
    {
        proof {
            reveal_strlit("host");
            reveal_strlit("n-so.tos-cn-shanghai.volces.com");
            reveal_strlit("x-tos-content-sha256");
            reveal_strlit("UNSIGNED-PAYLOAD");
            reveal_strlit("x-tos-date");
            reveal_strlit("x-tos-security-token");
        }
        let mut out: Vec<NamedValue> = Vec::new();
        out.push(
            NamedValue {
                name: lit_bytes("host"),
                value: lit_bytes("n-so.tos-cn-shanghai.volces.com"),
            },
        );
        out.push(
            NamedValue {
                name: lit_bytes("x-tos-content-sha256"),
                value: lit_bytes("UNSIGNED-PAYLOAD"),
            },
        );
        out.push(NamedValue { name: lit_bytes("x-tos-date"), value: to_vec(timestamp) });
        out.push(
            NamedValue {
                name: lit_bytes("x-tos-security-token"),
                value: to_vec(self.session_token.as_slice()),
            },
        );
        proof {
            assert(nvs_view(out@) =~= spec_tos_base_headers(self.session_token@, timestamp@));
        }
        out
    }

    /// Signs one TOS request and returns every header the request must
    /// carry: the base headers and the `authorization` value computed
    /// over exactly those headers.  The transmitted header set and the
    /// signed header set cannot drift apart.
    pub fn sign(&self, method: &[u8], uri: &[u8], query: Vec<NamedValue>, timestamp: &[u8]) -> (r:
        Result<Vec<NamedValue>, AppError>)
        requires
            timestamp@.len() >= 8,
        ensures
            r matches Ok(hs) && nvs_view(hs@) == spec_tos_sign_headers(
                self.access_key@,
                self.secret_key@,
                self.session_token@,
                method@,
                uri@,
                nvs_view(query@),
                timestamp@,
            ),
    {
        proof {
            reveal_strlit("tos-cn-shanghai");
            reveal_strlit("tos");
            reveal_strlit("UNSIGNED-PAYLOAD");
            reveal_strlit("authorization");
        }
        let mut headers = self.base_headers(timestamp);
        let headers_for_signing = copy_named_values(&headers);
        let scheme = tos_scheme(lit_bytes("tos-cn-shanghai"), lit_bytes("tos"));
        let marker = lit_bytes("UNSIGNED-PAYLOAD");
        let authorization = sign_request(
            &scheme,
            self.access_key.as_slice(),
            self.secret_key.as_slice(),
            method,
            uri,
            query,
            headers_for_signing,
            marker.as_slice(),
            timestamp,
        );
        let ghost basev = nvs_view(headers@);
        headers.push(NamedValue { name: lit_bytes("authorization"), value: authorization });
        proof {
            assert(nvs_view(headers@) =~= spec_tos_sign_headers(
                self.access_key@,
                self.secret_key@,
                self.session_token@,
                method@,
                uri@,
                nvs_view(query@),
                timestamp@,
            ));
        }
        Ok(headers)
    }
}

} // verus!
