//! The response builder: conditional headers, range selection, status codes
//! and the exact header values a response carries.
use vstd::prelude::*;

use crate::body::Body;
use crate::bytestr::{bytes_eq, dec_of, hex_of, lit, lit_bytes, push_all, u64_to_dec, u64_to_hex};
use crate::encoding::{encoding_name, header_value_ok};
use crate::range::{range_parse, HttpRange, RangesParsed, RangesParsedSpec};
use crate::resolve::{Method, ResolvedFile};
use crate::stream::{
    parts_len, parts_total, FileBytesStream, FileBytesStreamMultiRange, FileBytesStreamRange,
};
use crate::vfs::{FileAccess, UnixTime};

verus! {

/// The request data the builders read: method, split URI, and the four
/// headers this library understands, as raw bytes.
pub struct RequestHead {
    pub method: Method,
    pub path: Vec<u8>,
    pub query: Option<Vec<u8>>,
    pub accept_encoding: Option<Vec<u8>>,
    pub if_modified_since: Option<Vec<u8>>,
    pub range: Option<Vec<u8>>,
    pub if_range: Option<Vec<u8>>,
}

/// The response headers this library emits.
#[derive(Clone, Copy, Debug, PartialEq, Eq, Structural)]
pub enum HeaderName {
    ETag,
    LastModified,
    AcceptRanges,
    CacheControl,
    ContentLength,
    ContentRange,
    ContentType,
    ContentEncoding,
    Location,
}

/// One response header.
pub struct Header {
    pub name: HeaderName,
    pub value: Vec<u8>,
}

/// The specification view of a header list.
pub open spec fn header_pairs(hs: Seq<Header>) -> Seq<(HeaderName, Seq<u8>)> {
    hs.map_values(|h: Header| (h.name, h.value@))
}

/// A complete response: status, headers, body.
pub struct HttpResponse<F> {
    pub status: u16,
    pub headers: Vec<Header>,
    pub body: Body<F>,
}

/// What `httpdate` prints for a timestamp (seconds since the epoch).
pub uninterp spec fn http_date_of(secs: u64) -> Seq<u8>;

/// Relies on `httpdate::fmt_http_date`: the text depends on the whole
/// seconds alone; its source panics from year 9999 on, which the bound
/// excludes.
#[verifier::external_body]
pub(crate) fn fmt_http_date_bytes(secs: u64) -> (r: Vec<u8>)
    requires
        secs < 253402300800,
    ensures
        r@ == http_date_of(secs),
{
    let t = std::time::UNIX_EPOCH + std::time::Duration::from_secs(secs);
    httpdate::fmt_http_date(t).into_bytes()
}

/// What `httpdate` reads out of a header value, as seconds since the epoch.
pub uninterp spec fn http_date_parse(s: Seq<u8>) -> Option<u64>;

/// Relies on `httpdate::parse_http_date`: the outcome is a function of the
/// text alone, and every date it accepts lies at or after the epoch.
#[verifier::external_body]
pub(crate) fn parse_http_date_bytes(s: &[u8]) -> (r: Option<u64>)
    ensures
        r == http_date_parse(s@),
{
    std::str::from_utf8(s).ok().and_then(|v| httpdate::parse_http_date(v).ok()).and_then(
        |t| t.duration_since(std::time::UNIX_EPOCH).ok(),
    ).map(|d| d.as_secs())
}

/// Relies on `rand::random_range` over `0..n`: the result is below `n`.
#[verifier::external_body]
fn random_below(n: u8) -> (r: u8)
    requires
        n >= 1,
    ensures
        r < n,
{
    rand::random_range(0..n)
}

/// A byte allowed in a multipart boundary: a decimal digit or an ASCII
/// letter.
pub open spec fn is_boundary_byte(b: u8) -> bool {
    (48 <= b <= 57) || (65 <= b <= 90) || (97 <= b <= 122)
}

/// A well-formed boundary: sixty bytes from the boundary alphabet.
pub open spec fn boundary_ok(b: Seq<u8>) -> bool {
    b.len() == 60 && forall|i: int| 0 <= i < b.len() ==> is_boundary_byte(#[trigger] b[i])
}

fn boundary_char(i: u8) -> (r: u8)
    requires
        i < 62,
    ensures
        is_boundary_byte(r),
{
    if i < 10 {
        48 + i
    } else if i < 36 {
        55 + i
    } else {
        61 + i
    }
}

fn gen_boundary() -> (r: Vec<u8>)
    ensures
        boundary_ok(r@),
{
    let mut v: Vec<u8> = Vec::new();
    let mut i: usize = 0;
    while i < 60
        invariant
            i <= 60,
            v@.len() == i,
            forall|j: int| 0 <= j < i ==> is_boundary_byte(#[trigger] v@[j]),
        decreases 60 - i,
    {
        v.push(boundary_char(random_below(62)));
        i += 1;
    }
    v
}

/// The weak entity tag for a size and a modification time: size, seconds and
/// nanoseconds, each in hexadecimal.
pub open spec fn etag_bytes(size: u64, t: UnixTime) -> Seq<u8> {
    seq![119u8, 47u8, 34u8] + hex_of(size) + seq![45u8] + hex_of(t.secs) + seq![46u8] + hex_of(
        t.nanos as u64,
    ) + seq![34u8]
}

fn make_etag(size: u64, t: UnixTime) -> (r: Vec<u8>)
    ensures
        r@ == etag_bytes(size, t),
{
    let mut v: Vec<u8> = Vec::new();
    v.push(119);
    v.push(47);
    v.push(34);
    let h = u64_to_hex(size);
    push_all(&mut v, h.as_slice());
    v.push(45);
    let h = u64_to_hex(t.secs);
    push_all(&mut v, h.as_slice());
    v.push(46);
    let h = u64_to_hex(t.nanos as u64);
    push_all(&mut v, h.as_slice());
    v.push(34);
    proof {
        assert(v@ =~= etag_bytes(size, t));
    }
    v
}

/// The `Content-Range` value of a single-range response, unit included.
pub open spec fn content_range_value(r: HttpRange, total: u64) -> Seq<u8> {
    lit_bytes("bytes ") + dec_of(r.start) + seq![45u8] + dec_of((r.start + r.length - 1) as u64)
        + seq![47u8] + dec_of(total)
}

fn content_range_header(r: HttpRange, total: u64) -> (v: Vec<u8>)
    requires
        r.length >= 1,
        r.start + r.length <= total,
    ensures
        v@ == content_range_value(r, total),
{
    proof {
        reveal_strlit("bytes ");
    }
    let mut v = lit("bytes ");
    let d = u64_to_dec(r.start);
    push_all(&mut v, d.as_slice());
    v.push(45);
    let d = u64_to_dec(r.start + r.length - 1);
    push_all(&mut v, d.as_slice());
    v.push(47);
    let d = u64_to_dec(total);
    push_all(&mut v, d.as_slice());
    proof {
        assert(v@ =~= content_range_value(r, total));
    }
    v
}

/// A modification time the builder trusts: at least two seconds past the
/// epoch (filtering bogus near-zero timestamps) and before year 9999 (which
/// the date formatter cannot print).
pub open spec fn valid_mtime(m: Option<UnixTime>) -> Option<UnixTime> {
    match m {
        Some(t) => if 2 <= t.secs < 253402300800 {
            Some(t)
        } else {
            None
        },
        None => None,
    }
}

/// Whether a `Range` header is honored: always without `If-Range`, else only
/// when `If-Range` matches the entity tag or the last-modified date exactly.
pub open spec fn range_cond_ok(if_range: Option<Seq<u8>>, size: u64, m: Option<UnixTime>) -> bool {
    match if_range {
        None => true,
        Some(v) => match m {
            Some(t) => v == etag_bytes(size, t) || v == http_date_of(t.secs),
            None => false,
        },
    }
}

/// The headers every found response starts from: the validators when the
/// modification time is trusted, then the cache policy.
pub open spec fn base_headers(size: u64, m: Option<UnixTime>, cache: Option<u32>) -> Seq<
    (HeaderName, Seq<u8>),
> {
    (match m {
        Some(t) => seq![
            (HeaderName::ETag, etag_bytes(size, t)),
            (HeaderName::LastModified, http_date_of(t.secs)),
            (HeaderName::AcceptRanges, lit_bytes("bytes")),
        ],
        None => Seq::empty(),
    }) + (match cache {
        Some(n) => seq![
            (HeaderName::CacheControl, lit_bytes("public, max-age=") + dec_of(n as u64)),
        ],
        None => Seq::empty(),
    })
}

/// Every parsed range is usable for streaming: non-empty and within the
/// size snapshot.
pub open spec fn ranges_usable(v: Seq<HttpRange>, size: u64) -> bool {
    forall|i: int| 0 <= i < v.len() ==> (#[trigger] v[i]).length >= 1 && v[i].start + v[i].length
        <= size
}

fn ranges_usable_exec(v: &Vec<HttpRange>, size: u64) -> (r: bool)
    ensures
        r == ranges_usable(v@, size),
{
    let mut i: usize = 0;
    while i < v.len()
        invariant
            i <= v@.len(),
            forall|j: int| 0 <= j < i ==> (#[trigger] v@[j]).length >= 1 && v@[j].start
                + v@[j].length <= size,
        decreases v@.len() - i,
    {
        let rg = v[i];
        if rg.length < 1 {
            return false;
        }
        match rg.start.checked_add(rg.length) {
            Some(e) => {
                if e > size {
                    return false;
                }
            },
            None => {
                return false;
            },
        }
        i += 1;
    }
    true
}

/// The value of an `Option` of bytes, at the specification level.
pub open spec fn opt_bytes(o: Option<Vec<u8>>) -> Option<Seq<u8>> {
    match o {
        Some(v) => Some(v@),
        None => None,
    }
}

/// The request-derived builder state, as plain specification values.
pub struct BuilderSpec {
    pub cache_headers: Option<u32>,
    pub is_head: bool,
    pub if_modified_since: Option<u64>,
    pub range: Option<Seq<u8>>,
    pub if_range: Option<Seq<u8>>,
}

/// The specification view of a per-file builder.
pub open spec fn builder_view(b: FileResponseBuilder) -> BuilderSpec {
    BuilderSpec {
        cache_headers: b.cache_headers,
        is_head: b.is_head,
        if_modified_since: b.if_modified_since,
        range: opt_bytes(b.range),
        if_range: opt_bytes(b.if_range),
    }
}

/// How the builder answers a found file when no honored range shapes the
/// response: a plain 200 with the full content.
pub open spec fn full_response_ok<F: FileAccess>(
    b: BuilderSpec,
    file: ResolvedFile<F>,
    r: HttpResponse<F>,
) -> bool {
    &&& r.status == 200
    &&& header_pairs(r.headers@) == base_headers(
        file.size,
        valid_mtime(file.modified),
        b.cache_headers,
    ) + seq![(HeaderName::ContentLength, dec_of(file.size))] + (match file.content_type {
        Some(ct) => seq![(HeaderName::ContentType, ct@)],
        None => Seq::empty(),
    }) + (match file.encoding {
        Some(e) => seq![(HeaderName::ContentEncoding, encoding_name(e))],
        None => Seq::empty(),
    })
    &&& r.body matches Body::Full(s) && s.file == file.handle && s.remaining == file.size
}

/// How the builder answers a multipart request for the parsed ranges, once a
/// boundary has been drawn: the multipart content type and the exact body
/// length, and a multi-range stream set up over the file.
pub open spec fn multi_response_ok<F: FileAccess>(
    b: BuilderSpec,
    file: ResolvedFile<F>,
    r: HttpResponse<F>,
    v: Seq<HttpRange>,
    bnd: Seq<u8>,
) -> bool {
    let ctb = match file.content_type {
        Some(c) => c@,
        None => Seq::<u8>::empty(),
    };
    let total = parts_len(v, 0, true, bnd, ctb, file.size);
    if total <= u64::MAX {
        &&& r.status == 206
        &&& header_pairs(r.headers@) == base_headers(
            file.size,
            valid_mtime(file.modified),
            b.cache_headers,
        ) + seq![
            (
                HeaderName::ContentType,
                lit_bytes("multipart/byteranges; boundary=") + bnd,
            ),
            (HeaderName::ContentLength, dec_of(total as u64)),
        ]
        &&& r.body matches Body::MultiRange(m) && m.ranges@ == v && m.boundary@ == bnd
            && m.content_type@ == ctb && m.file_length == file.size && m.next_index == 0
            && m.is_first_boundary && !m.completed && m.file_range.file_stream.file == file.handle
            && m.file_range.file_stream.remaining == 0
        &&& (file.handle.content().len() == file.size ==> r.body.output().len() == total)
    } else {
        full_response_ok(b, file, r)
    }
}

/// Everything the builder promises of its answer for a found file: the
/// conditional short-circuit, the HEAD shape, the three range outcomes, the
/// full-body fallback — and that whenever a `Content-Length` is emitted for
/// a body, the body's stream produces exactly that many bytes.
///
/// The conditional short-circuit is deliberately presence-only: a parseable
/// `If-Modified-Since` together with a trusted modification time answers 304
/// without comparing the two instants. A strict conditional GET would
/// compare them; this server's observable behavior is pinned here instead.
pub open spec fn found_response_ok<F: FileAccess>(
    b: BuilderSpec,
    file: ResolvedFile<F>,
    r: HttpResponse<F>,
) -> bool {
    let size = file.size;
    let m = valid_mtime(file.modified);
    let base = base_headers(size, m, b.cache_headers);
    let cond304 = b.if_modified_since is Some && m is Some;
    let rco = range_cond_ok(b.if_range, size, m);
    &&& (file.handle.content().len() == file.size ==> r.body.wf())
    &&& (cond304 ==> r.status == 304 && header_pairs(r.headers@) == Seq::<
        (HeaderName, Seq<u8>),
    >::empty() && r.body is Empty)
    &&& (!cond304 && b.is_head ==> r.status == 200 && header_pairs(r.headers@) == base + seq![
        (HeaderName::ContentLength, dec_of(size)),
    ] && r.body is Empty)
    &&& (!cond304 && !b.is_head ==> match b.range {
        Some(h) => if rco {
            match range_parse(h, size) {
                RangesParsedSpec::NoOverlap => r.status == 416 && header_pairs(r.headers@) == base
                    && r.body is Empty,
                RangesParsedSpec::Valid(v) => if v.len() >= 1 && ranges_usable(v, size) {
                    if v.len() == 1 {
                        &&& r.status == 206
                        &&& header_pairs(r.headers@) == base + seq![
                            (HeaderName::ContentRange, content_range_value(v[0], size)),
                            (HeaderName::ContentLength, dec_of(v[0].length)),
                        ]
                        &&& r.body matches Body::Range(s) && s.file_stream.file == file.handle
                            && s.file_stream.remaining == v[0].length && s.seek_state is NeedSeek
                            && s.start_offset == v[0].start
                        &&& (file.handle.content().len() == size ==> r.body.output().len()
                            == v[0].length)
                    } else {
                        exists|bnd: Seq<u8>|
                            boundary_ok(bnd) && multi_response_ok(b, file, r, v, bnd)
                    }
                } else {
                    full_response_ok(b, file, r)
                },
                RangesParsedSpec::Invalid => full_response_ok(b, file, r),
            }
        } else {
            full_response_ok(b, file, r)
        },
        None => full_response_ok(b, file, r),
    })
    &&& (!cond304 && !b.is_head && file.handle.content().len() == size && file.handle.pos() == 0
        ==> (r.body is Full ==> r.body.output().len() == size))
}

/// The request-derived state of the per-file response builder.
pub struct FileResponseBuilder {
    pub cache_headers: Option<u32>,
    pub is_head: bool,
    pub if_modified_since: Option<u64>,
    pub range: Option<Vec<u8>>,
    pub if_range: Option<Vec<u8>>,
}

impl FileResponseBuilder {
    /// A builder with nothing set.
    pub fn new() -> (r: Self)
        ensures
            r.cache_headers is None,
            !r.is_head,
            r.if_modified_since is None,
            r.range is None,
            r.if_range is None,
    {
        FileResponseBuilder {
            cache_headers: None,
            is_head: false,
            if_modified_since: None,
            range: None,
            if_range: None,
        }
    }

    /// Take everything this builder reads from a request head.
    pub fn request(&mut self, req: &RequestHead)
        ensures
            final(self).cache_headers == old(self).cache_headers,
            final(self).is_head == (req.method is Head),
            final(self).if_modified_since == (match req.if_modified_since {
                Some(ref v) => http_date_parse(v@),
                None => None,
            }),
            opt_bytes(final(self).range) == spec_header_text(req.range),
            opt_bytes(final(self).if_range) == (match spec_header_text(req.if_range) {
                Some(v) => Some(v),
                None => opt_bytes(old(self).if_range),
            }),
    {
        self.request_method(req.method);
        self.request_heanders(req);
    }

    /// Record whether the request method was HEAD.
    pub fn request_method(&mut self, method: Method)
        ensures
            *final(self) == (FileResponseBuilder { is_head: method is Head, ..*old(self) }),
    {
        self.is_head(matches!(method, Method::Head));
    }

    /// Read the conditional and range headers off a request head.
    pub fn request_heanders(&mut self, req: &RequestHead)
        ensures
            final(self).cache_headers == old(self).cache_headers,
            final(self).is_head == old(self).is_head,
            final(self).if_modified_since == (match req.if_modified_since {
                Some(ref v) => http_date_parse(v@),
                None => None,
            }),
            opt_bytes(final(self).range) == spec_header_text(req.range),
            opt_bytes(final(self).if_range) == (match spec_header_text(req.if_range) {
                Some(v) => Some(v),
                None => opt_bytes(old(self).if_range),
            }),
    {
        self.if_modified_since_header(match &req.if_modified_since {
            Some(v) => Some(v.as_slice()),
            None => None,
        });
        self.range_header(match &req.range {
            Some(v) => Some(v.as_slice()),
            None => None,
        });
        self.if_range(match &req.if_range {
            Some(v) => Some(v.as_slice()),
            None => None,
        });
    }

    /// Set the cache policy the responses advertise.
    pub fn cache_headers(&mut self, value: Option<u32>)
        ensures
            *final(self) == (FileResponseBuilder { cache_headers: value, ..*old(self) }),
    {
        self.cache_headers = value;
    }

    /// Record whether the request method was HEAD.
    pub fn is_head(&mut self, value: bool)
        ensures
            *final(self) == (FileResponseBuilder { is_head: value, ..*old(self) }),
    {
        self.is_head = value;
    }

    /// Set the parsed `If-Modified-Since` timestamp directly.
    pub fn if_modified_since(&mut self, value: Option<u64>)
        ensures
            *final(self) == (FileResponseBuilder { if_modified_since: value, ..*old(self) }),
    {
        self.if_modified_since = value;
    }

    /// Parse an `If-Modified-Since` header value.
    pub fn if_modified_since_header(&mut self, value: Option<&[u8]>)
        ensures
            final(self).cache_headers == old(self).cache_headers,
            final(self).is_head == old(self).is_head,
            final(self).range == old(self).range,
            final(self).if_range == old(self).if_range,
            final(self).if_modified_since == (match value {
                Some(v) => http_date_parse(v@),
                None => None,
            }),
    {
        self.if_modified_since = match value {
            Some(v) => parse_http_date_bytes(v),
            None => None,
        };
    }

    /// Keep an `If-Range` header value, when it is header text.
    pub fn if_range(&mut self, value: Option<&[u8]>)
        ensures
            final(self).cache_headers == old(self).cache_headers,
            final(self).is_head == old(self).is_head,
            final(self).range == old(self).range,
            final(self).if_modified_since == old(self).if_modified_since,
            opt_bytes(final(self).if_range) == (match value {
                Some(v) => if header_value_ok(v@) {
                    Some(v@)
                } else {
                    opt_bytes(old(self).if_range)
                },
                None => opt_bytes(old(self).if_range),
            }),
    {
        if let Some(v) = value {
            if is_header_text(v) {
                self.if_range = Some(vstd::slice::slice_to_vec(v));
            }
        }
    }

    /// Keep a `Range` header value, when it is header text.
    pub fn range_header(&mut self, value: Option<&[u8]>)
        ensures
            final(self).cache_headers == old(self).cache_headers,
            final(self).is_head == old(self).is_head,
            final(self).if_range == old(self).if_range,
            final(self).if_modified_since == old(self).if_modified_since,
            opt_bytes(final(self).range) == (match value {
                Some(v) => if header_value_ok(v@) {
                    Some(v@)
                } else {
                    None
                },
                None => None,
            }),
    {
        self.range = match value {
            Some(v) => if is_header_text(v) {
                Some(vstd::slice::slice_to_vec(v))
            } else {
                None
            },
            None => None,
        };
    }

    /// Build the response for a resolved file.
    #[verifier::rlimit(100)]
    pub fn build<F: FileAccess>(&self, file: ResolvedFile<F>) -> (r: HttpResponse<F>)
        ensures
            found_response_ok(builder_view(*self), file, r),
    {
        proof {
            reveal_strlit("bytes");
            reveal_strlit("public, max-age=");
            reveal_strlit("multipart/byteranges; boundary=");
        }
        let size = file.size;
        let m: Option<UnixTime> = match file.modified {
            Some(t) => if t.secs >= 2 && t.secs < 253402300800 {
                Some(t)
            } else {
                None
            },
            None => None,
        };
        let mut headers: Vec<Header> = Vec::new();
        let mut cond_ok: bool = self.if_range.is_none();
        if let Some(t) = m {
            if self.if_modified_since.is_some() {
                proof {
                    assert(header_pairs(Seq::<Header>::empty()) =~= Seq::<
                        (HeaderName, Seq<u8>),
                    >::empty());
                }
                return HttpResponse { status: 304, headers: Vec::new(), body: Body::Empty };
            }
            let etag = make_etag(size, t);
            if let Some(v) = &self.if_range {
                if bytes_eq(v.as_slice(), etag.as_slice()) {
                    cond_ok = true;
                }
            }
            headers.push(Header { name: HeaderName::ETag, value: etag });
            let last_modified = fmt_http_date_bytes(t.secs);
            if let Some(v) = &self.if_range {
                if bytes_eq(v.as_slice(), last_modified.as_slice()) {
                    cond_ok = true;
                }
            }
            headers.push(Header { name: HeaderName::LastModified, value: last_modified });
            headers.push(Header { name: HeaderName::AcceptRanges, value: lit("bytes") });
        }
        if let Some(seconds) = self.cache_headers {
            let mut cc = lit("public, max-age=");
            let d = u64_to_dec(seconds as u64);
            push_all(&mut cc, d.as_slice());
            headers.push(Header { name: HeaderName::CacheControl, value: cc });
        }
        proof {
            assert(header_pairs(headers@) =~~= base_headers(size, m, self.cache_headers));
            assert(cond_ok == range_cond_ok(opt_bytes(self.if_range), size, m));
        }
        if self.is_head {
            headers.push(Header { name: HeaderName::ContentLength, value: u64_to_dec(size) });
            proof {
                assert(header_pairs(headers@) =~~= base_headers(size, m, self.cache_headers)
                    + seq![(HeaderName::ContentLength, dec_of(size))]);
            }
            return HttpResponse { status: 200, headers, body: Body::Empty };
        }
        if cond_ok {
            if let Some(h) = &self.range {
                match crate::range::parse_ranges(h.as_slice(), size) {
                    RangesParsed::NoOverlap => {
                        return HttpResponse { status: 416, headers, body: Body::Empty };
                    },
                    RangesParsed::Valid(v) => {
                        if v.len() >= 1 && ranges_usable_exec(&v, size) {
                            if v.len() == 1 {
                                let rg = v[0];
                                headers.push(Header {
                                    name: HeaderName::ContentRange,
                                    value: content_range_header(rg, size),
                                });
                                headers.push(Header {
                                    name: HeaderName::ContentLength,
                                    value: u64_to_dec(rg.length),
                                });
                                proof {
                                    assert(header_pairs(headers@) =~~= base_headers(
                                        size,
                                        m,
                                        self.cache_headers,
                                    ) + seq![
                                        (
                                            HeaderName::ContentRange,
                                            content_range_value(rg, size),
                                        ),
                                        (HeaderName::ContentLength, dec_of(rg.length)),
                                    ]);
                                }
                                let body = Body::Range(FileBytesStreamRange::new(file.handle, rg));
                                return HttpResponse { status: 206, headers, body };
                            }
                            let boundary = gen_boundary();
                            let ct: Vec<u8> = match &file.content_type {
                                Some(c) => crate::vfs::copy_bytes(c),
                                None => Vec::new(),
                            };
                            if let Some(total) = parts_total(&v, 0, true, &boundary, &ct, size) {
                                let mut ctv = lit("multipart/byteranges; boundary=");
                                push_all(&mut ctv, boundary.as_slice());
                                headers.push(Header {
                                    name: HeaderName::ContentType,
                                    value: ctv,
                                });
                                headers.push(Header {
                                    name: HeaderName::ContentLength,
                                    value: u64_to_dec(total),
                                });
                                let ghost bnd = boundary@;
                                let mut stream = FileBytesStreamMultiRange::new(
                                    file.handle,
                                    v,
                                    boundary,
                                    size,
                                );
                                stream.set_content_type(ct);
                                proof {
                                    assert(header_pairs(headers@) =~~= base_headers(
                                        size,
                                        m,
                                        self.cache_headers,
                                    ) + seq![
                                        (
                                            HeaderName::ContentType,
                                            lit_bytes("multipart/byteranges; boundary=") + bnd,
                                        ),
                                        (HeaderName::ContentLength, dec_of(total)),
                                    ]);
                                    if file.handle.content().len() == size {
                                        crate::stream::lemma_rest_parts_len(
                                            stream.ranges@,
                                            0,
                                            true,
                                            bnd,
                                            stream.content_type@,
                                            size,
                                            stream.content(),
                                        );
                                    }
                                }
                                let ghost vv = stream.ranges@;
                                let body = Body::MultiRange(stream);
                                let resp = HttpResponse { status: 206, headers, body };
                                proof {
                                    assert(boundary_ok(bnd));
                                    assert(multi_response_ok(builder_view(*self), file, resp, vv, bnd));
                                }
                                return resp;
                            }
                            // The multipart body would not fit a length
                            // header: answer with the full content instead.
                            return self.build_full(file, headers, m);
                        }
                        return self.build_full(file, headers, m);
                    },
                    RangesParsed::Invalid => {
                        return self.build_full(file, headers, m);
                    },
                }
            }
        }
        self.build_full(file, headers, m)
    }

    /// The plain 200 answer carrying the whole file.
    fn build_full<F: FileAccess>(
        &self,
        file: ResolvedFile<F>,
        headers: Vec<Header>,
        m: Option<UnixTime>,
    ) -> (r: HttpResponse<F>)
        requires
            m == valid_mtime(file.modified),
            header_pairs(headers@) == base_headers(file.size, m, self.cache_headers),
        ensures
            full_response_ok(builder_view(*self), file, r),
            r.body.wf(),
    {
        let mut headers = headers;
        headers.push(Header { name: HeaderName::ContentLength, value: u64_to_dec(file.size) });
        let encoding = file.encoding;
        let content_type = match &file.content_type {
            Some(c) => Some(crate::vfs::copy_bytes(c)),
            None => None,
        };
        if let Some(ct) = content_type {
            headers.push(Header { name: HeaderName::ContentType, value: ct });
        }
        if let Some(e) = encoding {
            headers.push(Header { name: HeaderName::ContentEncoding, value: e.to_header_value() });
        }
        proof {
            assert(header_pairs(headers@) =~~= base_headers(
                file.size,
                valid_mtime(file.modified),
                self.cache_headers,
            ) + seq![(HeaderName::ContentLength, dec_of(file.size))] + (match file.content_type {
                Some(ct) => seq![(HeaderName::ContentType, ct@)],
                None => Seq::<(HeaderName, Seq<u8>)>::empty(),
            }) + (match file.encoding {
                Some(e) => seq![(HeaderName::ContentEncoding, encoding_name(e))],
                None => Seq::<(HeaderName, Seq<u8>)>::empty(),
            }));
        }
        let size = file.size;
        let body = Body::Full(FileBytesStream::new_with_limit(file.handle, size));
        HttpResponse { status: 200, headers, body }
    }
}

/// The header-text specification: what an HTTP layer exposes as a string.
pub open spec fn spec_header_text(o: Option<Vec<u8>>) -> Option<Seq<u8>> {
    match o {
        Some(v) => if header_value_ok(v@) {
            Some(v@)
        } else {
            None
        },
        None => None,
    }
}

/// Whether a value is header text: visible ASCII or tab throughout.
pub fn is_header_text(s: &[u8]) -> (r: bool)
    ensures
        r == header_value_ok(s@),
{
    let mut i: usize = 0;
    while i < s.len()
        invariant
            i <= s@.len(),
            forall|j: int| 0 <= j < i ==> (32 <= #[trigger] s@[j] < 127 || s@[j] == 9),
        decreases s@.len() - i,
    {
        let b = s[i];
        if !(b >= 32 && b < 127 || b == 9) {
            return false;
        }
        i += 1;
    }
    true
}

/// The weak entity tag is a function of size and modification time alone,
/// and `If-Range` set to exactly that tag always lets the range through.
pub proof fn lemma_etag_if_range(size: u64, t: UnixTime)
    requires
        valid_mtime(Some(t)) == Some(t),
    ensures
        range_cond_ok(Some(etag_bytes(size, t)), size, Some(t)),
        range_cond_ok(Some(http_date_of(t.secs)), size, Some(t)),
{
}

} // verus!

