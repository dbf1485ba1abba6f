//! The resolver: from a request path and client capability hints to a
//! concrete opened file, a redirect, or a well-defined non-file outcome.
//!
//! Directory requests fall back to their `index.html`; plain file requests
//! negotiate a pre-compressed sibling (`<name>zst`, `<name>.br`, `<name>.gz`,
//! tried in that fixed order) when the client and the server policy both
//! allow the encoding.
use vstd::prelude::*;

use crate::bytestr::{lit, lit_bytes, push_all};
use crate::encoding::{parse_accept_encoding, spec_and, AcceptEncoding, Encoding};
use crate::requested_path::{component_ok, path_ok, percent_decoded, sanitize_spec, RequestedPath};
use crate::vfs::{FileAccess, FileOpener, FileWithMetadata, VfsError};

verus! {

/// The request method, as far as this library distinguishes it.
#[derive(Clone, Copy, Debug, PartialEq, Eq, Structural)]
pub enum Method {
    Get,
    Head,
    Other,
}

/// A successfully resolved file: the handle and everything the response
/// builder needs to describe it.
pub struct ResolvedFile<F> {
    pub handle: F,
    pub path: Vec<Vec<u8>>,
    pub size: u64,
    pub modified: Option<crate::vfs::UnixTime>,
    pub content_type: Option<Vec<u8>>,
    pub encoding: Option<Encoding>,
}

impl<F> ResolvedFile<F> {
    /// Bundle an opened file with its path, content type and encoding.
    pub fn new(
        file: FileWithMetadata<F>,
        path: Vec<Vec<u8>>,
        content_type: Option<Vec<u8>>,
        encoding: Option<Encoding>,
    ) -> (r: Self)
        ensures
            r.handle == file.handle,
            r.path == path,
            r.size == file.size,
            r.modified == file.modified,
            r.content_type == content_type,
            r.encoding == encoding,
    {
        ResolvedFile {
            handle: file.handle,
            path,
            size: file.size,
            modified: file.modified,
            content_type,
            encoding,
        }
    }
}

/// What resolving a request can come to.
pub enum ResolveResult<F> {
    MethodNotMatched,
    NotFound,
    PermissionDenied,
    IsDirectory { redirect_to: Vec<u8> },
    Found(ResolvedFile<F>),
}

/// The same, at the specification level; a found file carries its bytes.
#[verifier::ext_equal]
pub enum ResolveOutcomeSpec {
    MethodNotMatched,
    NotFound,
    PermissionDenied,
    IsDirectory { redirect_to: Seq<u8> },
    Found {
        path: Seq<Seq<u8>>,
        size: u64,
        modified: Option<crate::vfs::UnixTime>,
        content_type: Option<Seq<u8>>,
        encoding: Option<Encoding>,
        content: Seq<u8>,
    },
}

/// The specification view of a resolve result.
pub open spec fn outcome_view<F: FileAccess>(r: &ResolveResult<F>) -> ResolveOutcomeSpec {
    match r {
        ResolveResult::MethodNotMatched => ResolveOutcomeSpec::MethodNotMatched,
        ResolveResult::NotFound => ResolveOutcomeSpec::NotFound,
        ResolveResult::PermissionDenied => ResolveOutcomeSpec::PermissionDenied,
        ResolveResult::IsDirectory { redirect_to } => ResolveOutcomeSpec::IsDirectory {
            redirect_to: redirect_to@,
        },
        ResolveResult::Found(f) => ResolveOutcomeSpec::Found {
            path: f.path.deep_view(),
            size: f.size,
            modified: f.modified,
            content_type: match f.content_type {
                Some(ct) => Some(ct@),
                None => None,
            },
            encoding: f.encoding,
            content: f.handle.content(),
        },
    }
}

/// What `mime_guess` answers for a file name.
pub uninterp spec fn mime_of(name: Seq<u8>) -> Option<Seq<u8>>;

/// Relies on `mime_guess::from_path` followed by `Mime::to_string`: the
/// guess depends on the file name alone.
#[verifier::external_body]
pub(crate) fn guess_mime(name: &[u8]) -> (r: Option<Vec<u8>>)
    ensures
        r is Some <==> mime_of(name@) is Some,
        r matches Some(v) ==> mime_of(name@) == Some(v@),
{
    std::str::from_utf8(name).ok().and_then(
        |s| mime_guess::from_path(std::path::Path::new(s)).first(),
    ).map(|m| m.to_string().into_bytes())
}

/// The charset post-processing applied to a guessed type: the two JavaScript
/// types gain an explicit UTF-8 charset, everything else is untouched.
pub open spec fn with_charset(m: Seq<u8>) -> Seq<u8> {
    if m == lit_bytes("application/javascript") || m == lit_bytes("text/javascript") {
        m + lit_bytes("; charset=utf-8")
    } else {
        m
    }
}

fn set_charset(m: Vec<u8>) -> (r: Vec<u8>)
    ensures
        r@ == with_charset(m@),
{
    proof {
        reveal_strlit("application/javascript");
        reveal_strlit("text/javascript");
        reveal_strlit("; charset=utf-8");
    }
    let app_js = lit("application/javascript");
    let text_js = lit("text/javascript");
    if crate::bytestr::bytes_eq(m.as_slice(), app_js.as_slice()) || crate::bytestr::bytes_eq(
        m.as_slice(),
        text_js.as_slice(),
    ) {
        let mut out = m;
        let suffix = lit("; charset=utf-8");
        push_all(&mut out, suffix.as_slice());
        out
    } else {
        m
    }
}

/// The content type guessed for a resolved path: from its last component,
/// with the charset post-processing.
pub open spec fn content_type_of(path: Seq<Seq<u8>>) -> Option<Seq<u8>> {
    let name = if path.len() > 0 {
        path.last()
    } else {
        Seq::empty()
    };
    match mime_of(name) {
        Some(m) => Some(with_charset(m)),
        None => None,
    }
}

fn guess_content_type(path: &Vec<Vec<u8>>) -> (r: Option<Vec<u8>>)
    ensures
        match r {
            Some(v) => content_type_of(path.deep_view()) == Some(v@),
            None => content_type_of(path.deep_view()) == None::<Seq<u8>>,
        },
{
    let empty: Vec<u8> = Vec::new();
    let name: &Vec<u8> = if path.len() > 0 {
        &path[path.len() - 1]
    } else {
        &empty
    };
    proof {
        if path@.len() > 0 {
            assert(path.deep_view().last() == path@[path@.len() - 1]@);
        }
    }
    match guess_mime(name.as_slice()) {
        Some(m) => Some(set_charset(m)),
        None => None,
    }
}

/// The sibling path for an encoding suffix: the suffix appended to the last
/// component, or a fresh component on an empty path.
pub open spec fn sibling_path(p: Seq<Seq<u8>>, suffix: Seq<u8>) -> Seq<Seq<u8>> {
    if p.len() == 0 {
        seq![suffix]
    } else {
        p.update(p.len() - 1, p.last() + suffix)
    }
}

fn sibling_exec(p: &Vec<Vec<u8>>, suffix: &[u8]) -> (r: Vec<Vec<u8>>)
    ensures
        r.deep_view() == sibling_path(p.deep_view(), suffix@),
{
    let mut q = crate::vfs::clone_path(p);
    if q.len() == 0 {
        q.push(vstd::slice::slice_to_vec(suffix));
        proof {
            assert(q.deep_view() =~~= sibling_path(p.deep_view(), suffix@));
        }
    } else {
        let mut last = q.pop().unwrap();
        push_all(&mut last, suffix);
        q.push(last);
        proof {
            assert(q.deep_view() =~~= sibling_path(p.deep_view(), suffix@));
        }
    }
    q
}

/// A safe component stays safe when an encoding suffix is appended, and each
/// suffix is itself a safe component.
proof fn lemma_sibling_ok(p: Seq<Seq<u8>>, suffix: Seq<u8>)
    requires
        path_ok(p),
        suffix == lit_bytes("zst") || suffix == lit_bytes(".br") || suffix == lit_bytes(".gz"),
    ensures
        path_ok(sibling_path(p, suffix)),
{
    reveal_strlit("zst");
    reveal_strlit(".br");
    reveal_strlit(".gz");
    reveal_strlit(".");
    reveal_strlit("..");
    let q = sibling_path(p, suffix);
    assert forall|i: int| 0 <= i < q.len() implies component_ok(#[trigger] q[i]) by {
        if p.len() == 0 {
            assert(q[i] == suffix);
        } else if i == p.len() - 1 {
            assert(q[i] == p.last() + suffix);
            assert(component_ok(p.last()));
            assert(q[i].len() >= 4);
            assert(forall|j: int| 0 <= j < q[i].len() ==> q[i][j] != 47);
        } else {
            assert(q[i] == p[i]);
        }
    }
}

/// The canonical redirect target for a directory path: a leading slash, then
/// each component with a trailing slash.
pub open spec fn redirect_of(p: Seq<Seq<u8>>) -> Seq<u8>
    decreases p.len(),
{
    if p.len() == 0 {
        seq![47u8]
    } else {
        redirect_of(p.drop_last()) + p.last() + seq![47u8]
    }
}

fn redirect_target(p: &Vec<Vec<u8>>) -> (r: Vec<u8>)
    ensures
        r@ == redirect_of(p.deep_view()),
{
    let mut out: Vec<u8> = Vec::new();
    out.push(47);
    let n = p.len();
    let mut i: usize = 0;
    proof {
        assert(p.deep_view().take(0) =~= Seq::<Seq<u8>>::empty());
        assert(out@ =~= redirect_of(p.deep_view().take(0)));
    }
    while i < n
        invariant
            i <= n,
            n == p@.len(),
            out@ == redirect_of(p.deep_view().take(i as int)),
        decreases n - i,
    {
        push_all(&mut out, p[i].as_slice());
        out.push(47);
        proof {
            let dv = p.deep_view();
            assert(dv.take(i + 1).drop_last() =~= dv.take(i as int));
            assert(dv.take(i + 1).last() == dv[i as int]);
            assert(dv[i as int] == p@[i as int]@);
        }
        i += 1;
    }
    proof {
        assert(p.deep_view().take(n as int) =~= p.deep_view());
    }
    out
}

/// How an open error maps to an outcome: missing and forbidden entries are
/// outcomes of their own, anything else surfaces as an error.
pub open spec fn spec_map_open_err(e: VfsError) -> Result<ResolveOutcomeSpec, VfsError> {
    match e {
        VfsError::NotFound => Ok(ResolveOutcomeSpec::NotFound),
        VfsError::PermissionDenied => Ok(ResolveOutcomeSpec::PermissionDenied),
        VfsError::Other => Err(VfsError::Other),
    }
}

/// A found outcome built from a file-system entry.
pub open spec fn spec_found(
    fs: Map<Seq<Seq<u8>>, crate::vfs::FileEntry>,
    path: Seq<Seq<u8>>,
    content_type: Option<Seq<u8>>,
    encoding: Option<Encoding>,
) -> ResolveOutcomeSpec {
    let e = fs[path];
    ResolveOutcomeSpec::Found {
        path,
        size: e.content.len() as u64,
        modified: e.modified,
        content_type,
        encoding,
        content: e.content,
    }
}

/// Finalization: negotiate a pre-compressed sibling, in the fixed priority
/// order zstd, brotli, gzip, each only when allowed and present; the content
/// type always comes from the path that was asked for, not the sibling.
///
/// The zstd sibling suffix is deliberately `zst` with no leading dot — the
/// naming convention this server looks up (`filezst`), unlike the dotted
/// `.br` and `.gz` siblings. Strict dotted naming would use `.zst`; the
/// dot-less form is pinned here so the difference is a decision, not an
/// accident.
pub open spec fn spec_resolve_final<O: FileOpener>(
    o: &O,
    path: Seq<Seq<u8>>,
    enc: AcceptEncoding,
) -> ResolveOutcomeSpec {
    let ct = content_type_of(path);
    let zst = sibling_path(path, lit_bytes("zst"));
    let br = sibling_path(path, lit_bytes(".br"));
    let gz = sibling_path(path, lit_bytes(".gz"));
    if enc.zstd && o.fs().contains_key(zst) {
        spec_found(o.fs(), zst, ct, Some(Encoding::Zstd))
    } else if enc.br && o.fs().contains_key(br) {
        spec_found(o.fs(), br, ct, Some(Encoding::Br))
    } else if enc.gzip && o.fs().contains_key(gz) {
        spec_found(o.fs(), gz, ct, Some(Encoding::Gzip))
    } else {
        spec_found(o.fs(), path, ct, None)
    }
}

/// Resolution against a backend: open, disambiguate directory and file,
/// fall back to the directory index, then finalize.
pub open spec fn spec_resolve_path<O: FileOpener>(
    o: &O,
    sani: Seq<Seq<u8>>,
    is_dir_request: bool,
    enc: AcceptEncoding,
) -> Result<ResolveOutcomeSpec, VfsError> {
    if !o.fs().contains_key(sani) {
        spec_map_open_err(o.open_err(sani))
    } else {
        let e = o.fs()[sani];
        if is_dir_request && !e.is_dir {
            Ok(ResolveOutcomeSpec::NotFound)
        } else if !is_dir_request && e.is_dir {
            Ok(ResolveOutcomeSpec::IsDirectory { redirect_to: redirect_of(sani) })
        } else if !is_dir_request {
            Ok(spec_resolve_final(o, sani, enc))
        } else {
            let indexed = sani.push(lit_bytes("index.html"));
            if !o.fs().contains_key(indexed) {
                spec_map_open_err(o.open_err(indexed))
            } else if o.fs()[indexed].is_dir {
                Ok(ResolveOutcomeSpec::NotFound)
            } else {
                Ok(spec_resolve_final(o, indexed, enc))
            }
        }
    }
}

/// A whole request: unrecognized methods short-circuit; the encodings the
/// sibling lookup may use are the intersection of the server policy and the
/// client offer; the path is decoded and sanitized.
pub open spec fn spec_resovle_request<O: FileOpener>(
    o: &O,
    policy: AcceptEncoding,
    method: Method,
    raw_path: Seq<u8>,
    accept_encoding: Option<Seq<u8>>,
) -> Result<ResolveOutcomeSpec, VfsError> {
    if !(method is Get || method is Head) {
        Ok(ResolveOutcomeSpec::MethodNotMatched)
    } else {
        let client = match accept_encoding {
            Some(h) => parse_accept_encoding(h),
            None => AcceptEncoding { gzip: false, br: false, zstd: false },
        };
        spec_resolve_path(
            o,
            sanitize_spec(percent_decoded(raw_path)),
            raw_path.len() > 0 && raw_path.last() == 47,
            spec_and(policy, client),
        )
    }
}

/// The parameters resolution works from once the request is decoded: the
/// sanitized path, the directory-request flag, and the encodings in play.
/// Rewrite hooks receive and return this value.
pub struct ResolveParams {
    pub path: Vec<Vec<u8>>,
    pub is_dir_request: bool,
    pub accept_encoding: AcceptEncoding,
}

/// The resolver: a backend and the server-side encoding policy.
pub struct Resolver<O> {
    pub opener: O,
    pub allowed_encodings: AcceptEncoding,
}

impl<O: FileOpener> Resolver<O> {
    /// A resolver over a backend, allowing no encodings yet.
    pub fn with_opener(opener: O) -> (r: Self)
        ensures
            r.opener == opener,
            r.allowed_encodings == (AcceptEncoding { gzip: false, br: false, zstd: false }),
    {
        Resolver { opener, allowed_encodings: AcceptEncoding::none() }
    }

    /// Resolve a whole request head.
    pub fn resovle_request(&self, req: &crate::response::RequestHead) -> (r: Result<
        ResolveResult<O::File>,
        VfsError,
    >)
        ensures
            resolve_result_matches(
                &r,
                spec_resovle_request(
                    &self.opener,
                    self.allowed_encodings,
                    req.method,
                    req.path@,
                    match req.accept_encoding {
                        Some(ref h) => Some(h@),
                        None => None,
                    },
                ),
            ),
    {
        match req.method {
            Method::Get => {},
            Method::Head => {},
            Method::Other => {
                return Ok(ResolveResult::MethodNotMatched);
            },
        }
        let client = match &req.accept_encoding {
            Some(h) => AcceptEncoding::from_header_value(h.as_slice()),
            None => AcceptEncoding::none(),
        };
        let accept_encoding = self.allowed_encodings.bitand(client);
        self.resolve_path(req.path.as_slice(), accept_encoding)
    }

    /// Resolve an undecoded request path under the given encodings.
    pub fn resolve_path(&self, request_path: &[u8], accept_encoding: AcceptEncoding) -> (r:
        Result<ResolveResult<O::File>, VfsError>)
        ensures
            resolve_result_matches(
                &r,
                spec_resolve_path(
                    &self.opener,
                    sanitize_spec(percent_decoded(request_path@)),
                    request_path@.len() > 0 && request_path@.last() == 47,
                    accept_encoding,
                ),
            ),
    {
        let requested = RequestedPath::resolve(request_path);
        let params = ResolveParams {
            path: requested.sanitized,
            is_dir_request: requested.is_dir_request,
            accept_encoding,
        };
        let path = params.path;
        let is_dir_request = params.is_dir_request;
        let accept_encoding = params.accept_encoding;
        proof {
            crate::requested_path::lemma_sanitize_ok(percent_decoded(request_path@));
        }
        let file = match self.opener.open(&path) {
            Ok(f) => f,
            Err(e) => {
                return match e {
                    VfsError::NotFound => Ok(ResolveResult::NotFound),
                    VfsError::PermissionDenied => Ok(ResolveResult::PermissionDenied),
                    VfsError::Other => Err(VfsError::Other),
                };
            },
        };
        if is_dir_request && !file.is_dir {
            return Ok(ResolveResult::NotFound);
        }
        if !is_dir_request && file.is_dir {
            let target = redirect_target(&path);
            return Ok(ResolveResult::IsDirectory { redirect_to: target });
        }
        if !is_dir_request {
            return self.resolve_final(file, path, accept_encoding);
        }
        let mut path = path;
        let ghost sani = sanitize_spec(percent_decoded(request_path@));
        let ghost before = path.deep_view();
        proof {
            reveal_strlit("index.html");
            reveal_strlit(".");
            reveal_strlit("..");
        }
        let idx = lit("index.html");
        proof {
            assert(component_ok(idx@));
        }
        let ghost idxv = idx@;
        path.push(idx);
        proof {
            assert forall|i: int| 0 <= i < path.deep_view().len() implies path.deep_view()[i]
                == sani.push(lit_bytes("index.html"))[i] by {
                if i < before.len() {
                    assert(path.deep_view()[i] =~= before[i]);
                } else {
                    assert(path.deep_view()[i] =~= idxv);
                }
            }
            assert(path.deep_view() =~= sani.push(lit_bytes("index.html")));
        }
        let file = match self.opener.open(&path) {
            Ok(f) => f,
            Err(e) => {
                return match e {
                    VfsError::NotFound => Ok(ResolveResult::NotFound),
                    VfsError::PermissionDenied => Ok(ResolveResult::PermissionDenied),
                    VfsError::Other => Err(VfsError::Other),
                };
            },
        };
        if file.is_dir {
            return Ok(ResolveResult::NotFound);
        }
        self.resolve_final(file, path, accept_encoding)
    }

    /// Finalize a found file: guess its type and try the allowed
    /// pre-compressed siblings in priority order.
    fn resolve_final(
        &self,
        file: FileWithMetadata<O::File>,
        path: Vec<Vec<u8>>,
        accept_encoding: AcceptEncoding,
    ) -> (r: Result<ResolveResult<O::File>, VfsError>)
        requires
            path_ok(path.deep_view()),
            self.opener.fs().contains_key(path.deep_view()),
            ({
                let e = self.opener.fs()[path.deep_view()];
                &&& file.size == e.content.len()
                &&& file.modified == e.modified
                &&& file.handle.content() == e.content
                &&& file.handle.pos() == 0
            }),
        ensures
            resolve_result_matches(
                &r,
                Ok(spec_resolve_final(&self.opener, path.deep_view(), accept_encoding)),
            ),
    {
        proof {
            reveal_strlit("zst");
            reveal_strlit(".br");
            reveal_strlit(".gz");
        }
        let mimetype = guess_content_type(&path);
        if accept_encoding.zstd {
            let zst_suffix = lit("zst");
            let zst_path = sibling_exec(&path, zst_suffix.as_slice());
            proof {
                lemma_sibling_ok(path.deep_view(), lit_bytes("zst"));
            }
            if let Ok(f) = self.opener.open(&zst_path) {
                return Ok(ResolveResult::Found(ResolvedFile::new(
                    f,
                    zst_path,
                    mimetype,
                    Some(Encoding::Zstd),
                )));
            }
        }
        if accept_encoding.br {
            let br_suffix = lit(".br");
            let br_path = sibling_exec(&path, br_suffix.as_slice());
            proof {
                lemma_sibling_ok(path.deep_view(), lit_bytes(".br"));
            }
            if let Ok(f) = self.opener.open(&br_path) {
                return Ok(ResolveResult::Found(ResolvedFile::new(
                    f,
                    br_path,
                    mimetype,
                    Some(Encoding::Br),
                )));
            }
        }
        if accept_encoding.gzip {
            let gz_suffix = lit(".gz");
            let gz_path = sibling_exec(&path, gz_suffix.as_slice());
            proof {
                lemma_sibling_ok(path.deep_view(), lit_bytes(".gz"));
            }
            if let Ok(f) = self.opener.open(&gz_path) {
                return Ok(ResolveResult::Found(ResolvedFile::new(
                    f,
                    gz_path,
                    mimetype,
                    Some(Encoding::Gzip),
                )));
            }
        }
        Ok(ResolveResult::Found(ResolvedFile::new(file, path, mimetype, None)))
    }
}

/// A resolve result agrees with its specification: same error or same
/// outcome, and a found file's handle is freshly opened (cursor at zero).
pub open spec fn resolve_result_matches<F: FileAccess>(
    r: &Result<ResolveResult<F>, VfsError>,
    s: Result<ResolveOutcomeSpec, VfsError>,
) -> bool {
    match r {
        Ok(v) => s matches Ok(o) && outcome_view(v) == o && (v matches ResolveResult::Found(f)
            ==> f.handle.pos() == 0),
        Err(e) => s == Err::<ResolveOutcomeSpec, VfsError>(*e),
    }
}

/// Under equally acceptable encodings the sibling precedence is fixed:
/// zstd beats brotli, and brotli beats gzip.
pub proof fn lemma_sibling_precedence<O: FileOpener>(o: &O, path: Seq<Seq<u8>>, enc: AcceptEncoding)
    ensures
        enc.zstd && o.fs().contains_key(sibling_path(path, lit_bytes("zst"))) ==> (
        spec_resolve_final(o, path, enc) matches ResolveOutcomeSpec::Found { encoding, .. }
            && encoding == Some(Encoding::Zstd)),
        !(enc.zstd && o.fs().contains_key(sibling_path(path, lit_bytes("zst")))) && enc.br
            && o.fs().contains_key(sibling_path(path, lit_bytes(".br"))) ==> (spec_resolve_final(
            o,
            path,
            enc,
        ) matches ResolveOutcomeSpec::Found { encoding, .. } && encoding == Some(Encoding::Br)),
        !(enc.zstd && o.fs().contains_key(sibling_path(path, lit_bytes("zst")))) && !(enc.br
            && o.fs().contains_key(sibling_path(path, lit_bytes(".br")))) && enc.gzip
            && o.fs().contains_key(sibling_path(path, lit_bytes(".gz"))) ==> (spec_resolve_final(
            o,
            path,
            enc,
        ) matches ResolveOutcomeSpec::Found { encoding, .. } && encoding == Some(Encoding::Gzip)),
{
}

/// An intersection of accepted encodings is a subset of both sides: what the
/// sibling lookup may use never exceeds the server policy or the client
/// offer.
pub proof fn lemma_intersection_subset(a: AcceptEncoding, b: AcceptEncoding)
    ensures
        crate::encoding::subset_of(spec_and(a, b), a),
        crate::encoding::subset_of(spec_and(a, b), b),
{
}

} // verus!
