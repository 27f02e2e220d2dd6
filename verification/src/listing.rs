//! Parsing and ordering of object-listing responses: the flat XML of
//! a bucket listing is scanned entry by entry, and the result is
//! sorted newest first.  The pagination decision - follow the
//! continuation token or stop - is taken here too.

use vstd::prelude::*;
use vstd::relations::sorted_by;
use crate::byteseq::{ascii_bytes, lex_le, lemma_lex_le_total, lemma_lex_le_transitive, lex_leq,
    lit_bytes, sub_vec, to_vec};
use crate::errors::AppError;
use crate::textscan::{
    spec_find, find_bytes, spec_find_xml_tag, find_xml_tag_content, spec_parse_int, parse_i64,
};

verus! {

/// One object of a bucket listing.
pub struct R2Object {
    pub key: Vec<u8>,
    pub size: i64,
    pub last_modified: Vec<u8>,
}

/// The spec-level view of one listed object.
pub open spec fn obj_view(o: R2Object) -> (Seq<u8>, int, Seq<u8>) {
    (o.key@, o.size as int, o.last_modified@)
}

/// The spec-level view of an object list.
pub open spec fn objs_view(s: Seq<R2Object>) -> Seq<(Seq<u8>, int, Seq<u8>)> {
    s.map_values(|o: R2Object| obj_view(o))
}

/// The tolerant value of a listing's `Size` tag.
pub open spec fn spec_size_of(block: Seq<u8>) -> int {
    match spec_find_xml_tag(block, ascii_bytes("Size"@)) {
        Some(c) => match spec_parse_int(c, -(i64::MAX as int), i64::MAX as int) {
            Some(v) => v,
            None => 0,
        },
        None => 0,
    }
}

/// The tolerant value of a listing's `LastModified` tag.
pub open spec fn spec_lm_of(block: Seq<u8>) -> Seq<u8> {
    match spec_find_xml_tag(block, ascii_bytes("LastModified"@)) {
        Some(c) => c,
        None => Seq::empty(),
    }
}

/// The entry one `Contents` block yields: nothing without a
/// non-empty key, else the key with the block's size and timestamp.
pub open spec fn spec_entry_of(block: Seq<u8>) -> Option<(Seq<u8>, int, Seq<u8>)> {
    match spec_find_xml_tag(block, ascii_bytes("Key"@)) {
        None => None,
        Some(k) => if k.len() == 0 {
            None
        } else {
            Some((k, spec_size_of(block), spec_lm_of(block)))
        },
    }
}

/// Every entry of a listing body, in document order: one entry per
/// `Contents` block that carries a non-empty key.
pub open spec fn spec_list_entries(xml: Seq<u8>) -> Seq<(Seq<u8>, int, Seq<u8>)>
    decreases xml.len(),
{
    match spec_find(xml, ascii_bytes("<Contents>"@)) {
        None => Seq::empty(),
        Some(i) => {
            if 0 <= i && i + 10 <= xml.len() {
                let after_open = xml.skip(i + 10);
                match spec_find(after_open, ascii_bytes("</Contents>"@)) {
                    None => Seq::empty(),
                    Some(j) => {
                        if 0 <= j && j + 11 <= after_open.len() {
                            let block = after_open.take(j);
                            let rest = after_open.skip(j + 11);
                            (match spec_entry_of(block) {
                                Some(e) => seq![e],
                                None => Seq::empty(),
                            }) + spec_list_entries(rest)
                        } else {
                            Seq::empty()
                        }
                    },
                }
            } else {
                Seq::empty()
            }
        },
    }
}

/// Parses every `Contents` entry of a listing body.
pub fn parse_list_objects(xml: &[u8]) -> (r: Vec<R2Object>)
    ensures
        objs_view(r@) == spec_list_entries(xml@),
{
    proof {
        reveal_strlit("<Contents>");
        reveal_strlit("</Contents>");
        reveal_strlit("Key");
        reveal_strlit("Size");
        reveal_strlit("LastModified");
    }
    let open = lit_bytes("<Contents>");
    let close = lit_bytes("</Contents>");
    let key_tag = lit_bytes("Key");
    let size_tag = lit_bytes("Size");
    let lm_tag = lit_bytes("LastModified");
    let mut remaining = to_vec(xml);
    let mut out: Vec<R2Object> = Vec::new();
    proof {
        assert(objs_view(out@) =~= Seq::<(Seq<u8>, int, Seq<u8>)>::empty());
        assert(objs_view(out@) + spec_list_entries(remaining@) =~= spec_list_entries(xml@));
    }
    loop
        invariant
            open@ == ascii_bytes("<Contents>"@),
            close@ == ascii_bytes("</Contents>"@),
            key_tag@ == ascii_bytes("Key"@),
            size_tag@ == ascii_bytes("Size"@),
            lm_tag@ == ascii_bytes("LastModified"@),
            open@.len() == 10,
            close@.len() == 11,
            objs_view(out@) + spec_list_entries(remaining@) == spec_list_entries(xml@),
        decreases remaining@.len(),
    {
        let ghost remv = remaining@;
        let i = match find_bytes(remaining.as_slice(), open.as_slice()) {
            None => {
                proof {
                    assert(spec_list_entries(remv) =~= Seq::<(Seq<u8>, int, Seq<u8>)>::empty());
                    assert(objs_view(out@) =~= spec_list_entries(xml@));
                }
                return out;
            },
            Some(i) => i,
        };
        let rlen = remaining.len();
        let after_open = sub_vec(remaining.as_slice(), i + 10, rlen);
        proof {
            assert(after_open@ =~= remv.skip(i + 10));
        }
        let j = match find_bytes(after_open.as_slice(), close.as_slice()) {
            None => {
                proof {
                    assert(spec_list_entries(remv) =~= Seq::<(Seq<u8>, int, Seq<u8>)>::empty());
                    assert(objs_view(out@) =~= spec_list_entries(xml@));
                }
                return out;
            },
            Some(j) => j,
        };
        let alen = after_open.len();
        let block = sub_vec(after_open.as_slice(), 0, j);
        let rest = sub_vec(after_open.as_slice(), j + 11, alen);
        proof {
            assert(block@ =~= after_open@.take(j as int));
            assert(rest@ =~= after_open@.skip(j + 11));
        }
        let ghost outv = objs_view(out@);
        match find_xml_tag_content(block.as_slice(), key_tag.as_slice()) {
            None => {},
            Some(key) => {
                if key.len() > 0 {
                    let size = match find_xml_tag_content(block.as_slice(), size_tag.as_slice()) {
                        Some(c) => match parse_i64(c.as_slice()) {
                            Some(v) => v,
                            None => 0,
                        },
                        None => 0,
                    };
                    let last_modified = match find_xml_tag_content(
                        block.as_slice(),
                        lm_tag.as_slice(),
                    ) {
                        Some(c) => c,
                        None => Vec::new(),
                    };
                    let ghost e = (key@, size as int, last_modified@);
                    out.push(R2Object { key, size, last_modified });
                    proof {
                        assert(spec_entry_of(block@) == Some(e));
                        assert(objs_view(out@) =~= outv.push(e));
                    }
                }
            },
        }
        proof {
            assert(spec_list_entries(remv) == (match spec_entry_of(block@) {
                Some(e) => seq![e],
                None => Seq::<(Seq<u8>, int, Seq<u8>)>::empty(),
            }) + spec_list_entries(rest@));
            assert(objs_view(out@) + spec_list_entries(rest@) =~= spec_list_entries(xml@));
        }
        remaining = rest;
    }
}

/// Newest first: one object sorts before another when its timestamp
/// is lexicographically at least the other's.
pub open spec fn newer_first(a: (Seq<u8>, int, Seq<u8>), b: (Seq<u8>, int, Seq<u8>)) -> bool {
    lex_le(b.2, a.2)
}

/// The newest-first order as a relation.
pub open spec fn newer_first_fn() -> spec_fn(
    (Seq<u8>, int, Seq<u8>),
    (Seq<u8>, int, Seq<u8>),
) -> bool {
    |a: (Seq<u8>, int, Seq<u8>), b: (Seq<u8>, int, Seq<u8>)| newer_first(a, b)
}

proof fn lemma_objs_view_insert(s: Seq<R2Object>, j: int, x: R2Object)
    requires
        0 <= j <= s.len(),
    ensures
        objs_view(s.insert(j, x)) =~= objs_view(s).insert(j, obj_view(x)),
{
}

proof fn lemma_objs_view_drop_last(s: Seq<R2Object>)
    requires
        s.len() > 0,
    ensures
        objs_view(s.drop_last()) =~= objs_view(s).drop_last(),
{
}

/// Finds where a newly seen object belongs in a newest-first list.
fn find_obj_pos(out: &Vec<R2Object>, x: &R2Object) -> (j: usize)
    ensures
        j <= out@.len(),
        forall|k: int| 0 <= k < j ==> !newer_first(obj_view(*x), objs_view(out@)[k]),
        j < out@.len() ==> newer_first(obj_view(*x), objs_view(out@)[j as int]),
{
    let n = out.len();
    let mut j: usize = 0;
    while j < n
        invariant
            j <= n,
            n == out@.len(),
            forall|k: int| 0 <= k < j ==> !newer_first(obj_view(*x), objs_view(out@)[k]),
        decreases n - j,
    {
        let newer = lex_leq(out[j].last_modified.as_slice(), x.last_modified.as_slice());
        proof {
            assert(objs_view(out@)[j as int] == obj_view(out@[j as int]));
        }
        if newer {
            return j;
        }
        j = j + 1;
    }
    j
}

/// Inserts one object into a newest-first list, keeping the order.
fn insert_newest_first(out: &mut Vec<R2Object>, x: R2Object)
    requires
        sorted_by(objs_view(old(out)@), newer_first_fn()),
    ensures
        sorted_by(objs_view(final(out)@), newer_first_fn()),
        objs_view(final(out)@).to_multiset() == objs_view(old(out)@).to_multiset().insert(obj_view(
            x,
        )),
{
    broadcast use vstd::seq_lib::group_to_multiset_ensures;
    broadcast use vstd::multiset::group_multiset_axioms;

    let ghost xv = obj_view(x);
    let ghost olds = out@;
    let ghost oldv = objs_view(out@);
    let j = find_obj_pos(out, &x);
    let ghost jj = j as int;
    proof {
        let f = newer_first_fn();
        assert forall|k: int| 0 <= k < jj implies #[trigger] f(oldv[k], xv) by {
            assert(!newer_first(xv, oldv[k]));
            lemma_lex_le_total(xv.2, oldv[k].2);
        }
        assert forall|k: int| jj <= k < oldv.len() implies #[trigger] f(xv, oldv[k]) by {
            assert(newer_first(xv, oldv[jj]));
            if k > jj {
                assert(f(oldv[jj], oldv[k]));
                lemma_lex_le_transitive(oldv[k].2, oldv[jj].2, xv.2);
            }
        }
    }
    out.insert(j, x);
    proof {
        let f = newer_first_fn();
        lemma_objs_view_insert(olds, jj, x);
        let t = objs_view(out@);
        assert(t =~= oldv.insert(jj, xv));
        assert forall|i1: int, i2: int| 0 <= i1 < i2 < t.len() implies #[trigger] f(
            t[i1],
            t[i2],
        ) by {
            if i2 < jj {
                assert(f(oldv[i1], oldv[i2]));
            } else if i1 == jj {
                assert(t[i2] == oldv[i2 - 1]);
                assert(f(xv, oldv[i2 - 1]));
            } else if i1 > jj {
                assert(f(oldv[i1 - 1], oldv[i2 - 1]));
            } else if i2 == jj {
                assert(f(oldv[i1], xv));
            } else {
                assert(t[i1] == oldv[i1]);
                assert(t[i2] == oldv[i2 - 1]);
                if i1 == i2 - 1 {
                    lemma_lex_le_total(oldv[i1].2, oldv[i1].2);
                } else {
                    assert(f(oldv[i1], oldv[i2 - 1]));
                }
            }
        }
        assert(oldv.insert(jj, xv).to_multiset() == oldv.to_multiset().insert(xv));
        assert(t.to_multiset() == oldv.to_multiset().insert(xv));
    }
}

/// Sorts a listing newest first.  The result is a rearrangement of
/// the input - the same objects, now ordered by their timestamps,
/// latest at the front.
pub fn sort_objects_newest_first(input: Vec<R2Object>) -> (r: Vec<R2Object>)
    ensures
        sorted_by(objs_view(r@), newer_first_fn()),
        objs_view(r@).to_multiset() == objs_view(input@).to_multiset(),
{
    broadcast use vstd::seq_lib::group_to_multiset_ensures;
    broadcast use vstd::multiset::group_multiset_axioms;

    let ghost inv = objs_view(input@);
    let mut rest = input;
    let mut out: Vec<R2Object> = Vec::new();
    proof {
        assert(objs_view(out@) =~= Seq::<(Seq<u8>, int, Seq<u8>)>::empty());
        assert(objs_view(out@).to_multiset().add(objs_view(rest@).to_multiset()) =~= objs_view(
            rest@,
        ).to_multiset());
    }
    while rest.len() > 0
        invariant
            sorted_by(objs_view(out@), newer_first_fn()),
            objs_view(out@).to_multiset().add(objs_view(rest@).to_multiset()) == inv.to_multiset(),
        decreases rest@.len(),
    {
        let ghost rests = rest@;
        let ghost restv = objs_view(rest@);
        let ghost outv = objs_view(out@);
        let xo = rest.pop();
        let x = match xo {
            Some(x) => x,
            None => unreached(),
        };
        let ghost xv = obj_view(x);
        proof {
            broadcast use vstd::seq_lib::group_to_multiset_ensures;
            broadcast use vstd::multiset::group_multiset_axioms;

            lemma_objs_view_drop_last(rests);
            assert(objs_view(rest@) =~= restv.drop_last());
            assert(xv == restv[restv.len() - 1]);
            assert(restv.drop_last() =~= restv.remove(restv.len() - 1));
            assert(restv.remove(restv.len() - 1).to_multiset() == restv.to_multiset().remove(
                restv[restv.len() - 1],
            ));
            assert(restv.contains(xv));
            assert(restv.to_multiset().count(xv) > 0);
        }
        insert_newest_first(&mut out, x);
        proof {
            broadcast use vstd::seq_lib::group_to_multiset_ensures;
            broadcast use vstd::multiset::group_multiset_axioms;

            assert(objs_view(out@).to_multiset() =~= outv.to_multiset().insert(xv));
            assert(objs_view(rest@).to_multiset() =~= restv.to_multiset().remove(xv));
            assert(objs_view(out@).to_multiset().add(objs_view(rest@).to_multiset())
                =~= inv.to_multiset());
        }
    }
    proof {
        assert(objs_view(rest@) =~= Seq::<(Seq<u8>, int, Seq<u8>)>::empty());
        assert(objs_view(out@).to_multiset() =~= inv.to_multiset());
    }
    out
}

/// One page of a listing: its entries, whether the listing was cut
/// short, and the token that fetches the next page.
pub struct ListPage {
    pub objects: Vec<R2Object>,
    pub is_truncated: bool,
    pub next_token: Vec<u8>,
}

/// Whether the listing body declares itself truncated.
pub open spec fn spec_is_truncated(xml: Seq<u8>) -> bool {
    spec_find_xml_tag(xml, ascii_bytes("IsTruncated"@)) == Some(ascii_bytes("true"@))
}

/// The continuation token of a listing body, or empty.
pub open spec fn spec_next_token(xml: Seq<u8>) -> Seq<u8> {
    match spec_find_xml_tag(xml, ascii_bytes("NextContinuationToken"@)) {
        Some(t) => t,
        None => Seq::empty(),
    }
}

/// Parses one page of a listing.
pub fn parse_list_page(xml: &[u8]) -> (r: ListPage)
    ensures
        objs_view(r.objects@) == spec_list_entries(xml@),
        r.is_truncated == spec_is_truncated(xml@),
        r.next_token@ == spec_next_token(xml@),
{
    proof {
        reveal_strlit("IsTruncated");
        reveal_strlit("NextContinuationToken");
        reveal_strlit("true");
    }
    let objects = parse_list_objects(xml);
    let trunc_tag = lit_bytes("IsTruncated");
    let truth = lit_bytes("true");
    let is_truncated = match find_xml_tag_content(xml, trunc_tag.as_slice()) {
        Some(c) => crate::byteseq::bytes_eq(c.as_slice(), truth.as_slice()),
        None => false,
    };
    let tok_tag = lit_bytes("NextContinuationToken");
    let next_token = match find_xml_tag_content(xml, tok_tag.as_slice()) {
        Some(t) => t,
        None => Vec::new(),
    };
    ListPage { objects, is_truncated, next_token }
}

/// Whether a listing must fetch another page: it was truncated and a
/// token came back.
pub fn should_fetch_next_page(page: &ListPage) -> (r: bool)
    ensures
        r == (page.is_truncated && page.next_token@.len() > 0),
{
    page.is_truncated && page.next_token.len() > 0
}

} // verus!
