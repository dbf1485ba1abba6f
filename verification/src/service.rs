//! The service façade: configuration, and the request-to-response pipeline.
use vstd::prelude::*;

use crate::body::Body;
use crate::bytestr::push_all;
use crate::encoding::AcceptEncoding;
use crate::resolve::{
    outcome_view, spec_resovle_request, ResolveOutcomeSpec, ResolveResult, ResolvedFile, Resolver,
};
use crate::response::{
    builder_view, found_response_ok, header_pairs, BuilderSpec, FileResponseBuilder, Header,
    HeaderName, HttpResponse, RequestHead,
};
use crate::vfs::{FileAccess, FileOpener, MemoryFs, VfsError};

verus! {

/// A response agrees with a resolve outcome: the four non-file outcomes map
/// to their fixed statuses (the redirect carrying its `Location`, query
/// preserved), and a found file is answered as the per-file builder promises.
pub open spec fn response_matches_outcome<F: FileAccess>(
    frb: BuilderSpec,
    query: Option<Seq<u8>>,
    outcome: ResolveOutcomeSpec,
    r: HttpResponse<F>,
) -> bool {
    match outcome {
        ResolveOutcomeSpec::MethodNotMatched => r.status == 400 && header_pairs(r.headers@)
            == Seq::<(HeaderName, Seq<u8>)>::empty() && r.body is Empty,
        ResolveOutcomeSpec::NotFound => r.status == 404 && header_pairs(r.headers@) == Seq::<
            (HeaderName, Seq<u8>),
        >::empty() && r.body is Empty,
        ResolveOutcomeSpec::PermissionDenied => r.status == 403 && header_pairs(r.headers@)
            == Seq::<(HeaderName, Seq<u8>)>::empty() && r.body is Empty,
        ResolveOutcomeSpec::IsDirectory { redirect_to } => r.status == 301 && header_pairs(
            r.headers@,
        ) == seq![
            (
                HeaderName::Location,
                redirect_to + (match query {
                    Some(q) => seq![63u8] + q,
                    None => Seq::<u8>::empty(),
                }),
            ),
        ] && r.body is Empty,
        ResolveOutcomeSpec::Found { .. } => exists|file: ResolvedFile<F>|
            outcome_view(&ResolveResult::Found(file)) == outcome && file.handle.pos() == 0
                && #[trigger] found_response_ok(frb, file, r),
    }
}

/// Builds a response for any resolve outcome, remembering the request's
/// path and query.
pub struct ResponseBuilder {
    pub path: Vec<u8>,
    pub query: Option<Vec<u8>>,
    pub file_response_builder: FileResponseBuilder,
}

impl ResponseBuilder {
    /// A builder with nothing set.
    pub fn new() -> (r: Self)
        ensures
            r.path@ == Seq::<u8>::empty(),
            r.query is None,
            r.file_response_builder.cache_headers is None,
            !r.file_response_builder.is_head,
            r.file_response_builder.if_modified_since is None,
            r.file_response_builder.range is None,
            r.file_response_builder.if_range is None,
    {
        ResponseBuilder {
            path: Vec::new(),
            query: None,
            file_response_builder: FileResponseBuilder::new(),
        }
    }

    /// Take everything this builder reads from a request head.
    pub fn request(&mut self, req: &RequestHead)
        ensures
            final(self).path@ == req.path@,
            crate::response::opt_bytes(final(self).query) == crate::response::opt_bytes(
                req.query,
            ),
            final(self).file_response_builder.cache_headers == old(
                self,
            ).file_response_builder.cache_headers,
            final(self).file_response_builder.is_head == (req.method is Head),
            final(self).file_response_builder.if_modified_since == (
            match req.if_modified_since {
                Some(ref v) => crate::response::http_date_parse(v@),
                None => None,
            }),
            crate::response::opt_bytes(final(self).file_response_builder.range)
                == crate::response::spec_header_text(req.range),
            crate::response::opt_bytes(final(self).file_response_builder.if_range) == (
            match crate::response::spec_header_text(req.if_range) {
                Some(v) => Some(v),
                None => crate::response::opt_bytes(old(self).file_response_builder.if_range),
            }),
    {
        self.path(req.path.as_slice());
        self.query(match &req.query {
            Some(q) => Some(q.as_slice()),
            None => None,
        });
        self.file_response_builder.request(req);
    }

    /// Set the cache policy the responses advertise.
    pub fn cache_headers(&mut self, value: Option<u32>)
        ensures
            final(self).path == old(self).path,
            final(self).query == old(self).query,
            *final(self) == (ResponseBuilder {
                file_response_builder: final(self).file_response_builder,
                ..*old(self)
            }),
            final(self).file_response_builder == (FileResponseBuilder {
                cache_headers: value,
                ..old(self).file_response_builder
            }),
    {
        self.file_response_builder.cache_headers(value);
    }

    /// Remember the request path.
    pub fn path(&mut self, value: &[u8])
        ensures
            *final(self) == (ResponseBuilder { path: final(self).path, ..*old(self) }),
            final(self).path@ == value@,
    {
        self.path = vstd::slice::slice_to_vec(value);
    }

    /// Remember the request query string.
    pub fn query(&mut self, value: Option<&[u8]>)
        ensures
            *final(self) == (ResponseBuilder { query: final(self).query, ..*old(self) }),
            crate::response::opt_bytes(final(self).query) == (match value {
                Some(q) => Some(q@),
                None => None::<Seq<u8>>,
            }),
    {
        self.query = match value {
            Some(q) => Some(vstd::slice::slice_to_vec(q)),
            None => None,
        };
    }

    /// Build the response for a resolve outcome. A found file's handle must
    /// be freshly opened (cursor at zero), as the resolver hands it over.
    pub fn build<F: FileAccess>(&self, result: ResolveResult<F>) -> (r: HttpResponse<F>)
        requires
            result matches ResolveResult::Found(f) ==> f.handle.pos() == 0,
        ensures
            response_matches_outcome(
                builder_view(self.file_response_builder),
                crate::response::opt_bytes(self.query),
                outcome_view(&result),
                r,
            ),
            result matches ResolveResult::Found(f) ==> found_response_ok(
                builder_view(self.file_response_builder),
                f,
                r,
            ),
    {
        proof {
            assert(header_pairs(Seq::<Header>::empty()) =~= Seq::<(HeaderName, Seq<u8>)>::empty());
        }
        match result {
            ResolveResult::MethodNotMatched => HttpResponse {
                status: 400,
                headers: Vec::new(),
                body: Body::Empty,
            },
            ResolveResult::NotFound => HttpResponse {
                status: 404,
                headers: Vec::new(),
                body: Body::Empty,
            },
            ResolveResult::PermissionDenied => HttpResponse {
                status: 403,
                headers: Vec::new(),
                body: Body::Empty,
            },
            ResolveResult::IsDirectory { redirect_to } => {
                let mut target = redirect_to;
                if let Some(q) = &self.query {
                    target.push(63);
                    push_all(&mut target, q.as_slice());
                }
                let mut headers: Vec<Header> = Vec::new();
                headers.push(Header { name: HeaderName::Location, value: target });
                let resp = HttpResponse { status: 301, headers, body: Body::Empty };
                proof {
                    assert(header_pairs(resp.headers@) =~~= seq![
                        (
                            HeaderName::Location,
                            outcome_view(&result)->IsDirectory_redirect_to + (
                            match crate::response::opt_bytes(self.query) {
                                Some(q) => seq![63u8] + q,
                                None => Seq::<u8>::empty(),
                            }),
                        ),
                    ]);
                }
                resp
            },
            ResolveResult::Found(file) => {
                let ghost gfile = file;
                let resp = self.file_response_builder.build(file);
                proof {
                    if gfile.handle.pos() == 0 {
                        assert(outcome_view(&ResolveResult::Found(gfile)) == outcome_view(
                            &result,
                        ));
                    }
                }
                resp
            },
        }
    }
}

/// The static-file service: a resolver and the cache policy.
pub struct Static<O> {
    pub resolver: Resolver<O>,
    pub cache_headers: Option<u32>,
}

impl Static<MemoryFs> {
    /// A service over an in-memory file set.
    pub fn from_memory_fs(fs: MemoryFs) -> (r: Self)
        ensures
            r.resolver.opener == fs,
            r.resolver.allowed_encodings == (AcceptEncoding {
                gzip: false,
                br: false,
                zstd: false,
            }),
            r.cache_headers is None,
    {
        Static { resolver: Resolver::with_opener(fs), cache_headers: None }
    }
}

impl<O: FileOpener> Static<O> {
    /// A service over any backend.
    pub fn with_opener(opener: O) -> (r: Self)
        ensures
            r.resolver.opener == opener,
            r.resolver.allowed_encodings == (AcceptEncoding {
                gzip: false,
                br: false,
                zstd: false,
            }),
            r.cache_headers is None,
    {
        Static { resolver: Resolver::with_opener(opener), cache_headers: None }
    }

    /// Set the cache policy the responses advertise.
    pub fn cache_headers(&mut self, value: Option<u32>)
        ensures
            *final(self) == (Static { cache_headers: value, ..*old(self) }),
    {
        self.cache_headers = value;
    }

    /// Set the encodings the server is willing to serve.
    pub fn allowed_encodings(&mut self, allowed_encodings: AcceptEncoding)
        ensures
            final(self).cache_headers == old(self).cache_headers,
            final(self).resolver.opener == old(self).resolver.opener,
            final(self).resolver.allowed_encodings == allowed_encodings,
    {
        self.resolver.allowed_encodings = allowed_encodings;
    }

    /// Serve one request: resolve it and build the response.
    pub fn serve(&self, request: &RequestHead) -> (r: Result<HttpResponse<O::File>, VfsError>)
        ensures
            serve_ok(self, request, &r),
    {
        let result = match self.resolver.resovle_request(request) {
            Ok(v) => v,
            Err(e) => {
                proof {
                    assert(serve_ok(self, request, &Err::<HttpResponse<O::File>, VfsError>(e)));
                }
                return Err(e);
            },
        };
        let mut builder = ResponseBuilder::new();
        builder.request(request);
        builder.cache_headers(self.cache_headers);
        let resp = builder.build(result);
        proof {
            assert(builder_view(builder.file_response_builder) == request_builder_spec(
                request,
                self.cache_headers,
            ));
        }
        let r = Ok(resp);
        proof {
            assert(serve_ok(self, request, &r));
        }
        r
    }
}

/// What serving promises: resolution went as its specification says, and the
/// response matches the outcome under a builder read off the request.
pub open spec fn serve_ok<O: FileOpener>(
    s: &Static<O>,
    request: &RequestHead,
    r: &Result<HttpResponse<O::File>, VfsError>,
) -> bool {
    let outcome = spec_resovle_request(
        &s.resolver.opener,
        s.resolver.allowed_encodings,
        request.method,
        request.path@,
        match request.accept_encoding {
            Some(h) => Some(h@),
            None => None,
        },
    );
    match r {
        Ok(resp) => {
            &&& outcome is Ok
            &&& (outcome matches Ok(o) ==> response_matches_outcome(
                request_builder_spec(request, s.cache_headers),
                crate::response::opt_bytes(request.query),
                o,
                *resp,
            ))
        },
        Err(e) => outcome == Err::<ResolveOutcomeSpec, VfsError>(*e),
    }
}

/// The builder state a served request is answered under: the service's cache
/// policy, the request's method, and its conditional headers (each counting
/// only when the HTTP layer exposes it as text).
pub open spec fn request_builder_spec(request: &RequestHead, cache: Option<u32>) -> BuilderSpec {
    BuilderSpec {
        cache_headers: cache,
        is_head: request.method is Head,
        if_modified_since: match request.if_modified_since {
            Some(v) => crate::response::http_date_parse(v@),
            None => None,
        },
        range: crate::response::spec_header_text(request.range),
        if_range: crate::response::spec_header_text(request.if_range),
    }
}


} // verus!
