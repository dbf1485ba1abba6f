//! Percent-decoding and path sanitizing for request paths.
//!
//! A request path is decoded and folded into a sequence of safe relative
//! components: empty and current-directory segments are dropped, a
//! parent-directory segment pops the accumulator, and everything else is kept
//! as a plain component. The result can never escape the conceptual root.
use vstd::prelude::*;

use crate::bytestr::{bytes_eq, find_byte, find_spec, lemma_find_spec, lit, lit_bytes};

verus! {

/// What `percent_encoding` decodes a byte string to (percent sequences
/// resolved, invalid UTF-8 replaced).
pub uninterp spec fn percent_decoded(s: Seq<u8>) -> Seq<u8>;

/// Relies on `percent_encoding::percent_decode` followed by lossy UTF-8
/// decoding: the result is a function of the input bytes alone.
#[verifier::external_body]
pub(crate) fn decode_percents(s: &[u8]) -> (r: Vec<u8>)
    ensures
        r@ == percent_decoded(s@),
{
    percent_encoding::percent_decode(s).decode_utf8_lossy().into_owned().into_bytes()
}

/// A safe path component: non-empty, no separator, and no special meaning.
pub open spec fn component_ok(c: Seq<u8>) -> bool {
    &&& c.len() > 0
    &&& c != lit_bytes(".")
    &&& c != lit_bytes("..")
    &&& forall|i: int| 0 <= i < c.len() ==> c[i] != 47
}

/// A safe relative path: every component is safe.
pub open spec fn path_ok(p: Seq<Seq<u8>>) -> bool {
    forall|i: int| 0 <= i < p.len() ==> component_ok(#[trigger] p[i])
}

/// How one path segment changes the accumulated components.
pub open spec fn seg_fold(acc: Seq<Seq<u8>>, seg: Seq<u8>) -> Seq<Seq<u8>> {
    if seg == lit_bytes("..") {
        if acc.len() > 0 {
            acc.drop_last()
        } else {
            acc
        }
    } else if seg.len() == 0 || seg == lit_bytes(".") {
        acc
    } else {
        acc.push(seg)
    }
}

/// Fold the `/`-separated segments of a decoded path onto an accumulator.
pub open spec fn sanitize_from(acc: Seq<Seq<u8>>, s: Seq<u8>) -> Seq<Seq<u8>>
    decreases s.len(),
{
    match find_spec(s, 47) {
        Some(i) => if 0 <= i < s.len() {
            sanitize_from(seg_fold(acc, s.take(i)), s.skip(i + 1))
        } else {
            seg_fold(acc, s)
        },
        None => seg_fold(acc, s),
    }
}

/// The components a decoded request path sanitizes to.
pub open spec fn sanitize_spec(s: Seq<u8>) -> Seq<Seq<u8>> {
    sanitize_from(Seq::empty(), s)
}

fn fold_segment(acc: &mut Vec<Vec<u8>>, seg: &[u8])
    ensures
        final(acc).deep_view() == seg_fold(old(acc).deep_view(), seg@),
{
    proof {
        reveal_strlit(".");
        reveal_strlit("..");
    }
    let dot = lit(".");
    let dotdot = lit("..");
    if bytes_eq(seg, dotdot.as_slice()) {
        if acc.len() > 0 {
            acc.pop();
            proof {
                assert(acc.deep_view() =~~= old(acc).deep_view().drop_last());
            }
        }
    } else if seg.len() == 0 || bytes_eq(seg, dot.as_slice()) {
    } else {
        acc.push(vstd::slice::slice_to_vec(seg));
        proof {
            assert(acc.deep_view() =~~= old(acc).deep_view().push(seg@));
        }
    }
}

fn sanitize_rec(acc: &mut Vec<Vec<u8>>, s: &[u8])
    ensures
        final(acc).deep_view() == sanitize_from(old(acc).deep_view(), s@),
    decreases s@.len(),
{
    match find_byte(s, 47) {
        Some(i) => {
            proof {
                lemma_find_spec(s@, 47);
                assert(find_spec(s@, 47) == Some(i as int));
                assert((i as int) < s@.len());
                assert(s@.subrange(0, i as int) =~= s@.take(i as int));
                assert(s@.subrange(i + 1 as int, s@.len() as int) =~= s@.skip(i + 1));
            }
            let n = s.len();
            fold_segment(acc, vstd::slice::slice_subrange(s, 0, i));
            sanitize_rec(acc, vstd::slice::slice_subrange(s, i + 1, n));
        },
        None => {
            fold_segment(acc, s);
        },
    }
}

/// Collapse a decoded path into its safe relative components.
pub fn sanitize_path(decoded: &[u8]) -> (r: Vec<Vec<u8>>)
    ensures
        r.deep_view() == sanitize_spec(decoded@),
{
    let mut acc: Vec<Vec<u8>> = Vec::new();
    proof {
        assert(acc.deep_view() =~~= Seq::<Seq<u8>>::empty());
    }
    sanitize_rec(&mut acc, decoded);
    acc
}

/// Folding one segment keeps every accumulated component safe.
proof fn lemma_seg_fold_ok(acc: Seq<Seq<u8>>, seg: Seq<u8>)
    requires
        path_ok(acc),
        forall|i: int| 0 <= i < seg.len() ==> seg[i] != 47,
    ensures
        path_ok(seg_fold(acc, seg)),
{
    let r = seg_fold(acc, seg);
    assert forall|i: int| 0 <= i < r.len() implies component_ok(#[trigger] r[i]) by {
        if seg != lit_bytes("..") && seg.len() > 0 && seg != lit_bytes(".") {
            if i < acc.len() {
                assert(component_ok(acc[i]));
            } else {
                assert(r[i] == seg);
            }
        } else {
            assert(r[i] == acc[i]);
        }
    }
}

/// Whatever was accumulated so far, folding the rest of a decoded path
/// keeps every component safe: no `..`, no empty or separator-bearing part.
pub proof fn lemma_sanitize_from_ok(acc: Seq<Seq<u8>>, s: Seq<u8>)
    requires
        path_ok(acc),
    ensures
        path_ok(sanitize_from(acc, s)),
    decreases s.len(),
{
    lemma_find_spec(s, 47);
    match find_spec(s, 47) {
        Some(i) => {
            lemma_seg_fold_ok(acc, s.take(i));
            lemma_sanitize_from_ok(seg_fold(acc, s.take(i)), s.skip(i + 1));
        },
        None => {
            lemma_seg_fold_ok(acc, s);
        },
    }
}

/// The sanitizer only ever yields safe relative components, whatever the
/// request path held.
pub proof fn lemma_sanitize_ok(s: Seq<u8>)
    ensures
        path_ok(sanitize_spec(s)),
{
    lemma_sanitize_from_ok(Seq::empty(), s);
}

/// The components of a path joined back into one `/`-separated byte string.
pub open spec fn join_components(p: Seq<Seq<u8>>) -> Seq<u8>
    decreases p.len(),
{
    if p.len() == 0 {
        Seq::empty()
    } else if p.len() == 1 {
        p[0]
    } else {
        p[0] + seq![47u8] + join_components(p.skip(1))
    }
}

/// Sanitizing a joined safe path appends exactly its components.
proof fn lemma_sanitize_join_from(acc: Seq<Seq<u8>>, p: Seq<Seq<u8>>)
    requires
        path_ok(p),
    ensures
        sanitize_from(acc, join_components(p)) == acc + p,
    decreases p.len(),
{
    reveal_strlit(".");
    reveal_strlit("..");
    let s = join_components(p);
    lemma_find_spec(s, 47);
    if p.len() == 0 {
        assert(find_spec(s, 47) is None);
        assert(seg_fold(acc, s) == acc);
        assert(acc + p =~= acc);
    } else if p.len() == 1 {
        assert(s == p[0]);
        assert(component_ok(p[0]));
        match find_spec(s, 47) {
            Some(i) => {
                assert(s[i] == 47);
                assert(false);
            },
            None => {},
        }
        assert(seg_fold(acc, s) == acc.push(p[0]));
        assert(acc.push(p[0]) =~= acc + p);
    } else {
        let head = p[0];
        assert(component_ok(head));
        let rest = join_components(p.skip(1));
        assert(s =~= head + seq![47u8] + rest);
        crate::bytestr::lemma_find_unique(s, 47, head.len() as int);
        let i = head.len() as int;
        assert(s.take(i) =~= head);
        assert(s.skip(i + 1) =~= rest);
        assert(seg_fold(acc, head) == acc.push(head));
        assert(path_ok(p.skip(1)));
        lemma_sanitize_join_from(acc.push(head), p.skip(1));
        assert(acc.push(head) + p.skip(1) =~= acc + p);
    }
}

/// Sanitizing is idempotent: the components of an already-sanitized path,
/// joined and sanitized again, are unchanged.
pub proof fn lemma_sanitize_idempotent(raw: Seq<u8>)
    ensures
        sanitize_spec(join_components(sanitize_spec(raw))) == sanitize_spec(raw),
{
    lemma_sanitize_ok(raw);
    lemma_sanitize_join_from(Seq::empty(), sanitize_spec(raw));
    assert(Seq::<Seq<u8>>::empty() + sanitize_spec(raw) =~= sanitize_spec(raw));
}

/// A decoded and sanitized request path, with the directory-request flag
/// taken from the raw path's trailing slash.
pub struct RequestedPath {
    pub sanitized: Vec<Vec<u8>>,
    pub is_dir_request: bool,
}

impl RequestedPath {
    /// Decode and sanitize a raw request path.
    pub fn resolve(request_path: &[u8]) -> (r: Self)
        ensures
            r.sanitized.deep_view() == sanitize_spec(percent_decoded(request_path@)),
            r.is_dir_request == (request_path@.len() > 0 && request_path@.last() == 47),
    {
        let is_dir_request = request_path.len() > 0 && request_path[request_path.len() - 1] == 47;
        let decoded = decode_percents(request_path);
        let sanitized = sanitize_path(decoded.as_slice());
        RequestedPath { sanitized, is_dir_request }
    }
}

} // verus!
