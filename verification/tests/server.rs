use staticfile::body::Body;
use staticfile::range::HttpRange;
use staticfile::resolve::ResolvedFile;
use staticfile::response::FileResponseBuilder;
use staticfile::stream::FileBytesStreamRange;
use staticfile::bytestr::{u64_to_dec, u64_to_hex};
use staticfile::encoding::{AcceptEncoding, Encoding};
use staticfile::requested_path::RequestedPath;
use staticfile::resolve::Method;
use staticfile::response::{Header, HeaderName, HttpResponse, RequestHead};
use staticfile::service::Static;
use staticfile::stream::FileBytesStreamMultiRange;
use staticfile::vfs::{MemFile, MemoryFs, UnixTime};

fn comps(path: &str) -> Vec<Vec<u8>> {
    path.split('/').filter(|c| !c.is_empty()).map(|c| c.as_bytes().to_vec()).collect()
}

fn mtime_2020() -> Option<UnixTime> {
    Some(UnixTime { secs: 1577836800, nanos: 0 })
}

fn fixture() -> MemoryFs {
    let mut fs = MemoryFs::new();
    fs.add(comps("index.html"), b"hello world13".to_vec(), mtime_2020());
    fs.add(comps("a.txt"), b"hello".to_vec(), mtime_2020());
    fs.add(comps("a.txt.gz"), b"\x1f\x8bgz123".to_vec(), mtime_2020());
    fs.add(comps("style.css"), b"0123456789abcdefghijklmnopqrstuvwxyzABCD".to_vec(), mtime_2020());
    fs.add(comps("dir/index.html"), b"inner".to_vec(), mtime_2020());
    fs.add(comps("empty.bin"), Vec::new(), mtime_2020());
    fs.add(comps("ten.bin"), b"0123456789".to_vec(), mtime_2020());
    fs.add(comps("one.bin"), b"x".to_vec(), mtime_2020());
    fs
}

fn req(method: Method, path: &str) -> RequestHead {
    RequestHead {
        method,
        path: path.as_bytes().to_vec(),
        query: None,
        accept_encoding: None,
        if_modified_since: None,
        range: None,
        if_range: None,
    }
}

fn drain(body: &mut Body<MemFile>) -> Vec<u8> {
    let mut out = Vec::new();
    loop {
        match body.next_chunk() {
            Ok(Some(chunk)) => out.extend(chunk),
            Ok(None) => break,
            Err(_) => panic!("stream error"),
        }
    }
    out
}

fn header<'a>(resp: &'a HttpResponse<MemFile>, name: HeaderName) -> Option<&'a [u8]> {
    for h in resp.headers.iter() {
        let Header { name: n, value } = h;
        if *n == name {
            return Some(value.as_slice());
        }
    }
    None
}

fn serve_one(fs: MemoryFs, request: RequestHead) -> HttpResponse<MemFile> {
    let mut service = Static::from_memory_fs(fs);
    service.allowed_encodings(AcceptEncoding::none());
    service.serve(&request).expect("serve failed")
}

#[test]
fn empty_file_get_is_full_200() {
    let mut resp = serve_one(fixture(), req(Method::Get, "/empty.bin"));
    assert_eq!(resp.status, 200);
    assert_eq!(header(&resp, HeaderName::ContentLength), Some(b"0".as_slice()));
    assert_eq!(drain(&mut resp.body), Vec::<u8>::new());
}

#[test]
fn range_first_byte_of_one_byte_file() {
    let mut request = req(Method::Get, "/one.bin");
    request.range = Some(b"bytes=0-0".to_vec());
    let mut resp = serve_one(fixture(), request);
    assert_eq!(resp.status, 206);
    assert_eq!(header(&resp, HeaderName::ContentRange), Some(b"bytes 0-0/1".as_slice()));
    assert_eq!(header(&resp, HeaderName::ContentLength), Some(b"1".as_slice()));
    assert_eq!(drain(&mut resp.body), b"x".to_vec());
}

#[test]
fn range_past_the_end_is_416() {
    let mut request = req(Method::Get, "/ten.bin");
    request.range = Some(b"bytes=100-".to_vec());
    let mut resp = serve_one(fixture(), request);
    assert_eq!(resp.status, 416);
    assert_eq!(header(&resp, HeaderName::ContentLength), None);
    assert_eq!(header(&resp, HeaderName::ContentRange), None);
    assert_eq!(drain(&mut resp.body), Vec::<u8>::new());
}

#[test]
fn backwards_range_is_ignored() {
    let mut request = req(Method::Get, "/ten.bin");
    request.range = Some(b"bytes=5-2".to_vec());
    let mut resp = serve_one(fixture(), request);
    assert_eq!(resp.status, 200);
    assert_eq!(header(&resp, HeaderName::ContentLength), Some(b"10".as_slice()));
    assert_eq!(drain(&mut resp.body), b"0123456789".to_vec());
}

#[test]
fn if_modified_since_gives_304() {
    let mut request = req(Method::Get, "/a.txt");
    request.if_modified_since = Some(b"Sun, 06 Nov 1994 08:49:37 GMT".to_vec());
    let mut resp = serve_one(fixture(), request);
    assert_eq!(resp.status, 304);
    assert!(resp.headers.is_empty());
    assert_eq!(drain(&mut resp.body), Vec::<u8>::new());
}

#[test]
fn directory_without_slash_redirects() {
    let resp = serve_one(fixture(), req(Method::Get, "/dir"));
    assert_eq!(resp.status, 301);
    assert_eq!(header(&resp, HeaderName::Location), Some(b"/dir/".as_slice()));
}

#[test]
fn directory_redirect_keeps_query() {
    let mut request = req(Method::Get, "/dir");
    request.query = Some(b"a=1".to_vec());
    let resp = serve_one(fixture(), request);
    assert_eq!(resp.status, 301);
    assert_eq!(header(&resp, HeaderName::Location), Some(b"/dir/?a=1".as_slice()));
}

#[test]
fn directory_with_slash_serves_index() {
    let mut resp = serve_one(fixture(), req(Method::Get, "/dir/"));
    assert_eq!(resp.status, 200);
    assert_eq!(drain(&mut resp.body), b"inner".to_vec());
}

#[test]
fn root_serves_index_html() {
    let mut resp = serve_one(fixture(), req(Method::Get, "/"));
    assert_eq!(resp.status, 200);
    assert_eq!(header(&resp, HeaderName::ContentLength), Some(b"13".as_slice()));
    let ct = header(&resp, HeaderName::ContentType).expect("no content type");
    assert!(ct.windows(9).any(|w| w == b"text/html"));
    assert_eq!(drain(&mut resp.body), b"hello world13".to_vec());
}

#[test]
fn gzip_sibling_is_served_when_offered() {
    let mut request = req(Method::Get, "/a.txt");
    request.accept_encoding = Some(b"gzip".to_vec());
    let mut service = Static::from_memory_fs(fixture());
    service.allowed_encodings(AcceptEncoding::all());
    let mut resp = service.serve(&request).expect("serve failed");
    assert_eq!(resp.status, 200);
    assert_eq!(header(&resp, HeaderName::ContentEncoding), Some(b"gzip".as_slice()));
    assert_eq!(header(&resp, HeaderName::ContentLength), Some(b"7".as_slice()));
    let ct = header(&resp, HeaderName::ContentType).expect("no content type");
    assert!(ct.windows(10).any(|w| w == b"text/plain"));
    assert_eq!(drain(&mut resp.body), b"\x1f\x8bgz123".to_vec());
}

#[test]
fn gzip_sibling_needs_client_offer() {
    let request = req(Method::Get, "/a.txt");
    let mut service = Static::from_memory_fs(fixture());
    service.allowed_encodings(AcceptEncoding::all());
    let resp = service.serve(&request).expect("serve failed");
    assert_eq!(header(&resp, HeaderName::ContentEncoding), None);
    assert_eq!(header(&resp, HeaderName::ContentLength), Some(b"5".as_slice()));
}

#[test]
fn gzip_sibling_needs_server_policy() {
    let mut request = req(Method::Get, "/a.txt");
    request.accept_encoding = Some(b"gzip".to_vec());
    let resp = serve_one(fixture(), request);
    assert_eq!(header(&resp, HeaderName::ContentEncoding), None);
    assert_eq!(header(&resp, HeaderName::ContentLength), Some(b"5".as_slice()));
}

#[test]
fn head_has_length_but_no_body() {
    let mut resp = serve_one(fixture(), req(Method::Head, "/a.txt"));
    assert_eq!(resp.status, 200);
    assert_eq!(header(&resp, HeaderName::ContentLength), Some(b"5".as_slice()));
    assert_eq!(drain(&mut resp.body), Vec::<u8>::new());
}

#[test]
fn single_range_mid_file() {
    let mut request = req(Method::Get, "/a.txt");
    request.range = Some(b"bytes=1-3".to_vec());
    let mut resp = serve_one(fixture(), request);
    assert_eq!(resp.status, 206);
    assert_eq!(header(&resp, HeaderName::ContentRange), Some(b"bytes 1-3/5".as_slice()));
    assert_eq!(header(&resp, HeaderName::ContentLength), Some(b"3".as_slice()));
    assert_eq!(drain(&mut resp.body), b"ell".to_vec());
}

#[test]
fn multi_range_is_multipart_with_exact_length() {
    let mut request = req(Method::Get, "/style.css");
    request.range = Some(b"bytes=0-9,20-29".to_vec());
    let mut resp = serve_one(fixture(), request);
    assert_eq!(resp.status, 206);
    let ct = header(&resp, HeaderName::ContentType).expect("no content type").to_vec();
    let prefix = b"multipart/byteranges; boundary=";
    assert_eq!(&ct[..prefix.len()], prefix.as_slice());
    let boundary = ct[prefix.len()..].to_vec();
    assert_eq!(boundary.len(), 60);
    let declared: Vec<u8> = header(&resp, HeaderName::ContentLength).expect("no length").to_vec();
    let body = drain(&mut resp.body);
    assert_eq!(declared, format!("{}", body.len()).into_bytes());
    let text = body.clone();
    let find = |needle: &[u8]| text.windows(needle.len()).any(|w| w == needle);
    assert!(find(b"Content-Range: 0-9/40"));
    assert!(find(b"Content-Range: 20-29/40"));
    assert!(find(b"0123456789"));
    assert!(find(b"klmnopqrst"));
    let mut closing = b"\r\n--".to_vec();
    closing.extend(boundary.clone());
    closing.extend(b"--\r\n");
    assert!(body.ends_with(&closing));
    let mut first = b"--".to_vec();
    first.extend(boundary);
    first.extend(b"\r\n");
    assert!(body.starts_with(&first));
}

#[test]
fn traversal_never_escapes_the_root() {
    let resp = serve_one(fixture(), req(Method::Get, "/../../etc/passwd"));
    assert_eq!(resp.status, 404);
    let requested = RequestedPath::resolve(b"/../../etc/passwd");
    let sanitized: Vec<Vec<u8>> = requested.sanitized;
    assert_eq!(sanitized, vec![b"etc".to_vec(), b"passwd".to_vec()]);
}

#[test]
fn sanitize_drops_dots_and_is_idempotent() {
    let requested = RequestedPath::resolve(b"a/./b/../c//d/");
    assert!(requested.is_dir_request);
    assert_eq!(requested.sanitized, vec![b"a".to_vec(), b"c".to_vec(), b"d".to_vec()]);
    let again = RequestedPath::resolve(b"a/c/d");
    assert_eq!(again.sanitized, requested.sanitized);
}

#[test]
fn percent_decoding_applies_before_sanitizing() {
    let requested = RequestedPath::resolve(b"/%61%2e%74%78%74");
    assert_eq!(requested.sanitized, vec![b"a.txt".to_vec()]);
}

#[test]
fn unknown_method_is_bad_request() {
    let resp = serve_one(fixture(), req(Method::Other, "/a.txt"));
    assert_eq!(resp.status, 400);
}

#[test]
fn missing_file_is_not_found() {
    let resp = serve_one(fixture(), req(Method::Get, "/nope.txt"));
    assert_eq!(resp.status, 404);
}

#[test]
fn dir_request_on_file_is_not_found() {
    let resp = serve_one(fixture(), req(Method::Get, "/a.txt/"));
    assert_eq!(resp.status, 404);
}

#[test]
fn accept_encoding_parsing_recognizes_tokens() {
    let ae = AcceptEncoding::from_header_value(b"gzip, br;q=0.8 , zstd");
    assert!(ae.gzip && ae.br && ae.zstd);
    let ae = AcceptEncoding::from_header_value(b"identity, deflate");
    assert!(!ae.gzip && !ae.br && !ae.zstd);
    let ae = AcceptEncoding::from_header_value(b" br ");
    assert!(ae.br && !ae.gzip && !ae.zstd);
    let ae = AcceptEncoding::from_header_value(b"gzip\xffbr");
    assert!(!ae.gzip && !ae.br && !ae.zstd);
}

#[test]
fn encoding_token_round_trip() {
    for e in [Encoding::Gzip, Encoding::Br, Encoding::Zstd] {
        let token = e.to_header_value();
        let ae = AcceptEncoding::from_header_value(&token);
        assert_eq!(ae.gzip, e == Encoding::Gzip);
        assert_eq!(ae.br, e == Encoding::Br);
        assert_eq!(ae.zstd, e == Encoding::Zstd);
    }
}

#[test]
fn intersection_is_a_subset_of_both() {
    let a = AcceptEncoding { gzip: true, br: false, zstd: true };
    let b = AcceptEncoding { gzip: false, br: true, zstd: true };
    let c = a.bitand(b);
    assert!(!c.gzip && !c.br && c.zstd);
}

#[test]
fn sibling_precedence_prefers_zstd_then_br_then_gzip() {
    let mut fs = fixture();
    fs.add(comps("a.txtzst"), b"Z".to_vec(), mtime_2020());
    fs.add(comps("a.txt.br"), b"BR".to_vec(), mtime_2020());
    let mut request = req(Method::Get, "/a.txt");
    request.accept_encoding = Some(b"gzip, br, zstd".to_vec());
    let mut service = Static::from_memory_fs(fs);
    service.allowed_encodings(AcceptEncoding::all());
    let resp = service.serve(&request).expect("serve failed");
    assert_eq!(header(&resp, HeaderName::ContentEncoding), Some(b"zstd".as_slice()));

    let mut fs = fixture();
    fs.add(comps("a.txt.br"), b"BR".to_vec(), mtime_2020());
    let mut service = Static::from_memory_fs(fs);
    service.allowed_encodings(AcceptEncoding::all());
    let resp = service.serve(&request).expect("serve failed");
    assert_eq!(header(&resp, HeaderName::ContentEncoding), Some(b"br".as_slice()));

    let mut service = Static::from_memory_fs(fixture());
    service.allowed_encodings(AcceptEncoding::all());
    let resp = service.serve(&request).expect("serve failed");
    assert_eq!(header(&resp, HeaderName::ContentEncoding), Some(b"gzip".as_slice()));
}

#[test]
fn weak_etag_is_stable_and_matches_if_range() {
    let resp1 = serve_one(fixture(), req(Method::Get, "/a.txt"));
    let resp2 = serve_one(fixture(), req(Method::Get, "/a.txt"));
    let etag1 = header(&resp1, HeaderName::ETag).expect("no etag").to_vec();
    let etag2 = header(&resp2, HeaderName::ETag).expect("no etag").to_vec();
    assert_eq!(etag1, etag2);
    assert_eq!(etag1, b"w/\"5-5e0be100.0\"".to_vec());

    let mut request = req(Method::Get, "/a.txt");
    request.range = Some(b"bytes=1-3".to_vec());
    request.if_range = Some(etag1);
    let resp = serve_one(fixture(), request);
    assert_eq!(resp.status, 206);

    let mut request = req(Method::Get, "/a.txt");
    request.range = Some(b"bytes=1-3".to_vec());
    request.if_range = Some(b"w/\"nonsense\"".to_vec());
    let resp = serve_one(fixture(), request);
    assert_eq!(resp.status, 200);
}

#[test]
fn if_range_accepts_the_http_date() {
    let resp = serve_one(fixture(), req(Method::Get, "/a.txt"));
    let date = header(&resp, HeaderName::LastModified).expect("no date").to_vec();
    assert_eq!(date, b"Wed, 01 Jan 2020 00:00:00 GMT".to_vec());
    let mut request = req(Method::Get, "/a.txt");
    request.range = Some(b"bytes=1-3".to_vec());
    request.if_range = Some(date);
    let resp = serve_one(fixture(), request);
    assert_eq!(resp.status, 206);
}

#[test]
fn cache_headers_emit_cache_control() {
    let mut service = Static::from_memory_fs(fixture());
    service.cache_headers(Some(3600));
    let resp = service.serve(&req(Method::Get, "/a.txt")).expect("serve failed");
    assert_eq!(header(&resp, HeaderName::CacheControl), Some(b"public, max-age=3600".as_slice()));
}

#[test]
fn decimal_and_hex_rendering() {
    assert_eq!(u64_to_dec(0), b"0".to_vec());
    assert_eq!(u64_to_dec(10), b"10".to_vec());
    assert_eq!(u64_to_dec(18446744073709551615), b"18446744073709551615".to_vec());
    assert_eq!(u64_to_hex(0), b"0".to_vec());
    assert_eq!(u64_to_hex(255), b"ff".to_vec());
    assert_eq!(u64_to_hex(1577836800), b"5e0be100".to_vec());
}

#[test]
fn compute_length_counts_the_produced_bytes() {
    let file = MemFile { data: b"0123456789abcdefghij".to_vec(), pos: 0 };
    let ranges = vec![
        HttpRange { start: 0, length: 4 },
        HttpRange { start: 10, length: 5 },
    ];
    let boundary = b"b123456789012345678901234567890123456789012345678901234567B".to_vec();
    let mut stream = FileBytesStreamMultiRange::new(file, ranges, boundary, 20);
    stream.set_content_type(b"text/plain".to_vec());
    let declared = stream.compute_length();
    let mut produced: u64 = 0;
    let mut bytes: Vec<u8> = Vec::new();
    loop {
        match stream.next_chunk() {
            Ok(Some(chunk)) => {
                produced += chunk.len() as u64;
                bytes.extend(chunk);
            },
            Ok(None) => break,
            Err(_) => panic!("stream error"),
        }
    }
    assert_eq!(declared, produced);
    // Once the closing boundary is out, the stream stays quiet.
    assert!(matches!(stream.next_chunk(), Ok(None)));
    assert!(matches!(stream.next_chunk(), Ok(None)));
    let find = |needle: &[u8]| bytes.windows(needle.len()).any(|w| w == needle);
    assert!(find(b"Content-Range: 0-3/20"));
    assert!(find(b"Content-Range: 10-14/20"));
    assert!(find(b"Content-Type: text/plain"));
    assert!(find(b"0123"));
    assert!(find(b"abcde"));
}

#[test]
fn javascript_gets_a_charset() {
    let mut fs = fixture();
    fs.add(comps("app.js"), b"x=1".to_vec(), mtime_2020());
    let resp = serve_one(fs, req(Method::Get, "/app.js"));
    let ct = header(&resp, HeaderName::ContentType).expect("no content type");
    let ct = String::from_utf8(ct.to_vec()).expect("bad ct");
    assert!(ct.contains("javascript"));
    assert!(ct.ends_with("; charset=utf-8"));
}

#[test]
fn validators_are_emitted_for_trusted_mtimes_only() {
    let mut fs = MemoryFs::new();
    fs.add(comps("young.txt"), b"y".to_vec(), Some(UnixTime { secs: 1, nanos: 0 }));
    fs.add(comps("old.txt"), b"o".to_vec(), mtime_2020());
    let resp = serve_one(fs, req(Method::Get, "/young.txt"));
    assert_eq!(header(&resp, HeaderName::ETag), None);
    assert_eq!(header(&resp, HeaderName::LastModified), None);
    assert_eq!(header(&resp, HeaderName::AcceptRanges), None);
}

#[test]
fn if_modified_since_needs_a_trusted_mtime() {
    let mut fs = MemoryFs::new();
    fs.add(comps("young.txt"), b"y".to_vec(), Some(UnixTime { secs: 1, nanos: 0 }));
    let mut request = req(Method::Get, "/young.txt");
    request.if_modified_since = Some(b"Sun, 06 Nov 1994 08:49:37 GMT".to_vec());
    let resp = serve_one(fs, request);
    assert_eq!(resp.status, 200);
}

#[test]
fn unparsable_if_modified_since_is_ignored() {
    let mut request = req(Method::Get, "/a.txt");
    request.if_modified_since = Some(b"not a date".to_vec());
    let resp = serve_one(fixture(), request);
    assert_eq!(resp.status, 200);
}

#[test]
fn garbage_range_header_is_ignored() {
    let mut request = req(Method::Get, "/a.txt");
    request.range = Some(b"lines=1-3".to_vec());
    let resp = serve_one(fixture(), request);
    assert_eq!(resp.status, 200);
    assert_eq!(header(&resp, HeaderName::ContentLength), Some(b"5".as_slice()));
}

#[test]
fn etag_includes_nanoseconds_in_hex() {
    let file = ResolvedFile {
        handle: MemFile { data: b"z".to_vec(), pos: 0 },
        path: comps("z.bin"),
        size: 1,
        modified: Some(UnixTime { secs: 1577836800, nanos: 255 }),
        content_type: None,
        encoding: None,
    };
    let builder = FileResponseBuilder::new();
    let resp = builder.build(file);
    assert_eq!(resp.status, 200);
    assert_eq!(header(&resp, HeaderName::ETag), Some(b"w/\"1-5e0be100.ff\"".as_slice()));
    assert_eq!(header(&resp, HeaderName::AcceptRanges), Some(b"bytes".as_slice()));
}

#[test]
fn range_stream_reads_exactly_its_window() {
    let file = MemFile { data: b"abcdefgh".to_vec(), pos: 0 };
    let mut stream = FileBytesStreamRange::new(file, HttpRange { start: 6, length: 2 });
    let mut out = Vec::new();
    loop {
        match stream.next_chunk() {
            Ok(Some(chunk)) => out.extend(chunk),
            Ok(None) => break,
            Err(_) => panic!("stream error"),
        }
    }
    assert_eq!(out, b"gh".to_vec());
}
