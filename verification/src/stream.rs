//! The streaming body engine: full, single-range, and multi-range streams.
//!
//! Each stream is an explicit state machine over a file handle, emitting the
//! response body as a finite sequence of chunks. Its specification says
//! exactly which bytes are still to come (`output`), and each emitted chunk
//! peels a prefix off that sequence.
use vstd::prelude::*;

use crate::bytestr::{dec_of, lit, lit_bytes, push_all, u64_to_dec};
use crate::range::HttpRange;
use crate::vfs::{FileAccess, VfsError};

verus! {

/// The bytes a cursor at `pos` with a byte budget of `rem` can still yield
/// from content `c`.
pub open spec fn window(c: Seq<u8>, pos: int, rem: int) -> Seq<u8> {
    if pos <= c.len() {
        if rem <= c.len() - pos {
            c.subrange(pos, pos + rem)
        } else {
            c.subrange(pos, c.len() as int)
        }
    } else {
        Seq::empty()
    }
}

/// A stream of the remaining bytes of a handle, up to a byte budget.
pub struct FileBytesStream<F> {
    pub file: F,
    pub remaining: u64,
}

impl<F: FileAccess> FileBytesStream<F> {
    /// The bytes this stream will still emit.
    pub open spec fn output(&self) -> Seq<u8> {
        window(self.file.content(), self.file.pos() as int, self.remaining as int)
    }

    /// A stream over the whole rest of a handle.
    pub fn new(file: F) -> (r: Self)
        ensures
            r.file == file,
            r.remaining == u64::MAX,
    {
        FileBytesStream { file, remaining: u64::MAX }
    }

    /// A stream over at most `limit` bytes of a handle.
    pub fn new_with_limit(file: F, limit: u64) -> (r: Self)
        ensures
            r.file == file,
            r.remaining == limit,
    {
        FileBytesStream { file, remaining: limit }
    }

    /// The next chunk, or `None` at the end of the stream.
    pub fn next_chunk(&mut self) -> (r: Result<Option<Vec<u8>>, VfsError>)
        ensures
            final(self).file.content() == old(self).file.content(),
            match r {
                Ok(Some(buf)) => {
                    &&& buf@.len() > 0
                    &&& old(self).output() == buf@ + final(self).output()
                    &&& buf@ == old(self).output().take(buf@.len() as int)
                    &&& final(self).remaining == old(self).remaining - buf@.len()
                    &&& final(self).file.pos() == old(self).file.pos() + buf@.len()
                },
                Ok(None) => {
                    &&& old(self).output().len() == 0
                    &&& final(self).output().len() == 0
                    &&& final(self).file.pos() == old(self).file.pos()
                    &&& final(self).remaining == old(self).remaining
                },
                Err(_) => final(self).file.pos() == old(self).file.pos()
                    && final(self).remaining == old(self).remaining,
            },
    {
        let ghost c = self.file.content();
        let ghost p = self.file.pos();
        let ghost rem = self.remaining as int;
        match self.file.read(self.remaining) {
            Ok(buf) => {
                if buf.len() == 0 {
                    Ok(None)
                } else {
                    proof {
                        assert(p < c.len() && rem > 0);
                        assert(buf@.len() <= rem);
                        assert(window(c, p as int, rem) =~= buf@ + window(
                            c,
                            p + buf@.len() as int,
                            rem - buf@.len(),
                        ));
                        assert(buf@ =~= window(c, p as int, rem).take(buf@.len() as int));
                    }
                    self.remaining = self.remaining - buf.len() as u64;
                    Ok(Some(buf))
                }
            },
            Err(e) => Err(e),
        }
    }
}

/// Where a seeking stream stands: before its seek, or reading after it.
#[derive(PartialEq, Eq, Structural)]
pub enum FileSeekState {
    NeedSeek,
    Reading,
}

/// A stream over one byte range of a handle: seek first, then a limited read.
pub struct FileBytesStreamRange<F> {
    pub file_stream: FileBytesStream<F>,
    pub seek_state: FileSeekState,
    pub start_offset: u64,
}

impl<F: FileAccess> FileBytesStreamRange<F> {
    /// The bytes this stream will still emit.
    pub open spec fn output(&self) -> Seq<u8> {
        match self.seek_state {
            FileSeekState::NeedSeek => window(
                self.file_stream.file.content(),
                self.start_offset as int,
                self.file_stream.remaining as int,
            ),
            FileSeekState::Reading => self.file_stream.output(),
        }
    }

    /// A stream over one parsed range of a handle.
    pub fn new(file: F, range: HttpRange) -> (r: Self)
        ensures
            r.file_stream.file == file,
            r.file_stream.remaining == range.length,
            r.seek_state is NeedSeek,
            r.start_offset == range.start,
            r.output() == window(file.content(), range.start as int, range.length as int),
    {
        FileBytesStreamRange {
            file_stream: FileBytesStream::new_with_limit(file, range.length),
            seek_state: FileSeekState::NeedSeek,
            start_offset: range.start,
        }
    }

    /// A stream that starts exhausted, reconfigured part by part.
    fn without_initial_range(file: F) -> (r: Self)
        ensures
            r.file_stream.file == file,
            r.file_stream.remaining == 0,
            r.seek_state is NeedSeek,
            r.start_offset == 0,
            r.output().len() == 0,
    {
        FileBytesStreamRange {
            file_stream: FileBytesStream::new_with_limit(file, 0),
            seek_state: FileSeekState::NeedSeek,
            start_offset: 0,
        }
    }

    /// The next chunk, or `None` at the end of the range.
    pub fn next_chunk(&mut self) -> (r: Result<Option<Vec<u8>>, VfsError>)
        ensures
            final(self).file_stream.file.content() == old(self).file_stream.file.content(),
            final(self).start_offset == old(self).start_offset,
            old(self).seek_state is Reading ==> final(self).seek_state is Reading,
            match r {
                Ok(Some(buf)) => {
                    &&& buf@.len() > 0
                    &&& old(self).output() == buf@ + final(self).output()
                    &&& buf@ == old(self).output().take(buf@.len() as int)
                    &&& final(self).seek_state is Reading
                    &&& final(self).file_stream.remaining == old(self).file_stream.remaining
                        - buf@.len()
                    &&& final(self).file_stream.file.pos() == (match old(self).seek_state {
                        FileSeekState::NeedSeek => old(self).start_offset as nat,
                        FileSeekState::Reading => old(self).file_stream.file.pos(),
                    }) + buf@.len()
                },
                Ok(None) => {
                    &&& old(self).output().len() == 0
                    &&& final(self).output().len() == 0
                    &&& final(self).file_stream.remaining == old(self).file_stream.remaining
                    &&& (final(self).seek_state is Reading ==> final(self).file_stream.file.pos()
                        == (match old(self).seek_state {
                        FileSeekState::NeedSeek => old(self).start_offset as nat,
                        FileSeekState::Reading => old(self).file_stream.file.pos(),
                    }))
                },
                Err(_) => {
                    &&& final(self).file_stream.remaining == old(self).file_stream.remaining
                    &&& (final(self).seek_state is Reading ==> final(self).file_stream.file.pos()
                        == (match old(self).seek_state {
                        FileSeekState::NeedSeek => old(self).start_offset as nat,
                        FileSeekState::Reading => old(self).file_stream.file.pos(),
                    }))
                },
            },
    {
        if matches!(self.seek_state, FileSeekState::NeedSeek) {
            match self.file_stream.file.seek_start(self.start_offset) {
                Ok(_) => {
                    self.seek_state = FileSeekState::Reading;
                },
                Err(e) => {
                    return Err(e);
                },
            }
        }
        self.file_stream.next_chunk()
    }
}

/// The carriage-return line-feed pair that frames multipart headers.
pub open spec fn crlf() -> Seq<u8> {
    seq![13u8, 10u8]
}

/// The two dashes before a boundary.
pub open spec fn dashes() -> Seq<u8> {
    seq![45u8, 45u8]
}

/// The header emitted before one part of a multipart body. The leading line
/// break is present on every part but the first; the content-type line is
/// present unless the type is empty.
pub open spec fn part_header(
    boundary: Seq<u8>,
    ct: Seq<u8>,
    range: HttpRange,
    is_first: bool,
    file_length: u64,
) -> Seq<u8> {
    (if is_first {
        Seq::empty()
    } else {
        crlf()
    }) + dashes() + boundary + crlf() + lit_bytes("Content-Range: ") + dec_of(range.start)
        + seq![45u8] + dec_of((range.start + range.length - 1) as u64) + seq![47u8] + dec_of(
        file_length,
    ) + crlf() + (if ct.len() == 0 {
        Seq::empty()
    } else {
        lit_bytes("Content-Type: ") + ct + crlf()
    }) + crlf()
}

/// The closing boundary chunk of a multipart body.
pub open spec fn end_header(boundary: Seq<u8>) -> Seq<u8> {
    crlf() + dashes() + boundary + dashes() + crlf()
}

/// Render the header before one part.
pub fn render_multipart_header(
    boundary: &Vec<u8>,
    content_type: &Vec<u8>,
    range: HttpRange,
    is_first: bool,
    file_length: u64,
) -> (r: Vec<u8>)
    requires
        range.length >= 1,
        range.start + range.length <= file_length,
    ensures
        r@ == part_header(boundary@, content_type@, range, is_first, file_length),
{
    proof {
        reveal_strlit("Content-Range: ");
        reveal_strlit("Content-Type: ");
    }
    let mut v: Vec<u8> = Vec::new();
    if !is_first {
        v.push(13);
        v.push(10);
    }
    v.push(45);
    v.push(45);
    push_all(&mut v, boundary.as_slice());
    v.push(13);
    v.push(10);
    let cr = lit("Content-Range: ");
    push_all(&mut v, cr.as_slice());
    let start_dec = u64_to_dec(range.start);
    push_all(&mut v, start_dec.as_slice());
    v.push(45);
    let end_dec = u64_to_dec(range.start + range.length - 1);
    push_all(&mut v, end_dec.as_slice());
    v.push(47);
    let total_dec = u64_to_dec(file_length);
    push_all(&mut v, total_dec.as_slice());
    v.push(13);
    v.push(10);
    if content_type.len() > 0 {
        let ctl = lit("Content-Type: ");
        push_all(&mut v, ctl.as_slice());
        push_all(&mut v, content_type.as_slice());
        v.push(13);
        v.push(10);
    }
    v.push(13);
    v.push(10);
    proof {
        assert(v@ =~= part_header(boundary@, content_type@, range, is_first, file_length));
    }
    v
}

/// Render the closing boundary chunk.
pub fn render_multipart_header_end(boundary: &Vec<u8>) -> (r: Vec<u8>)
    ensures
        r@ == end_header(boundary@),
{
    let mut v: Vec<u8> = Vec::new();
    v.push(13);
    v.push(10);
    v.push(45);
    v.push(45);
    push_all(&mut v, boundary.as_slice());
    v.push(45);
    v.push(45);
    v.push(13);
    v.push(10);
    proof {
        assert(v@ =~= end_header(boundary@));
    }
    v
}

/// The bytes still to come from the parts at `i` onward: each part's header
/// and its slice of the file, then the closing boundary.
pub open spec fn rest_parts(
    ranges: Seq<HttpRange>,
    i: int,
    is_first: bool,
    boundary: Seq<u8>,
    ct: Seq<u8>,
    file_length: u64,
    content: Seq<u8>,
) -> Seq<u8>
    decreases ranges.len() - i,
{
    if i < 0 || i >= ranges.len() {
        end_header(boundary)
    } else {
        part_header(boundary, ct, ranges[i], is_first, file_length) + window(
            content,
            ranges[i].start as int,
            ranges[i].length as int,
        ) + rest_parts(ranges, i + 1, false, boundary, ct, file_length, content)
    }
}

/// The byte count of the parts at `i` onward, assuming each part yields
/// exactly its range's length.
pub open spec fn parts_len(
    ranges: Seq<HttpRange>,
    i: int,
    is_first: bool,
    boundary: Seq<u8>,
    ct: Seq<u8>,
    file_length: u64,
) -> int
    decreases ranges.len() - i,
{
    if i < 0 || i >= ranges.len() {
        end_header(boundary).len() as int
    } else {
        part_header(boundary, ct, ranges[i], is_first, file_length).len() + ranges[i].length
            + parts_len(ranges, i + 1, false, boundary, ct, file_length)
    }
}

/// A stream over several ranges of one handle, framed as
/// `multipart/byteranges`.
pub struct FileBytesStreamMultiRange<F> {
    pub file_range: FileBytesStreamRange<F>,
    pub ranges: Vec<HttpRange>,
    pub next_index: usize,
    pub is_first_boundary: bool,
    pub completed: bool,
    pub boundary: Vec<u8>,
    pub content_type: Vec<u8>,
    pub file_length: u64,
}

impl<F: FileAccess> FileBytesStreamMultiRange<F> {
    /// The handle's content.
    pub open spec fn content(&self) -> Seq<u8> {
        self.file_range.file_stream.file.content()
    }

    /// Well-formed: the length snapshot matches the content, every range fits
    /// it, and the inner stream's budget lies within the content.
    pub open spec fn wf(&self) -> bool {
        &&& self.file_length == self.content().len()
        &&& crate::range::ranges_fit(self.ranges@, self.file_length)
        &&& forall|i: int| 0 <= i < self.ranges@.len() ==> (#[trigger] self.ranges@[i]).length
            >= 1
        &&& self.next_index <= self.ranges@.len()
        &&& match self.file_range.seek_state {
            FileSeekState::NeedSeek => self.file_range.start_offset
                + self.file_range.file_stream.remaining <= self.content().len(),
            FileSeekState::Reading => self.file_range.file_stream.file.pos()
                + self.file_range.file_stream.remaining <= self.content().len(),
        }
    }

    /// The bytes this stream will still emit.
    pub open spec fn output(&self) -> Seq<u8> {
        if self.completed {
            Seq::empty()
        } else {
            self.file_range.output() + rest_parts(
                self.ranges@,
                self.next_index as int,
                self.is_first_boundary,
                self.boundary@,
                self.content_type@,
                self.file_length,
                self.content(),
            )
        }
    }

    /// A multipart stream over parsed ranges, with an empty content type.
    pub fn new(file: F, ranges: Vec<HttpRange>, boundary: Vec<u8>, file_length: u64) -> (r: Self)
        ensures
            r.file_range.file_stream.file == file,
            r.file_range.file_stream.remaining == 0,
            r.file_range.seek_state is NeedSeek,
            r.file_range.start_offset == 0,
            r.ranges == ranges,
            r.boundary == boundary,
            r.file_length == file_length,
            r.next_index == 0,
            r.is_first_boundary,
            !r.completed,
            r.content_type@.len() == 0,
            r.output() == rest_parts(
                ranges@,
                0,
                true,
                boundary@,
                Seq::<u8>::empty(),
                file_length,
                file.content(),
            ),
    {
        let r = FileBytesStreamMultiRange {
            file_range: FileBytesStreamRange::without_initial_range(file),
            ranges,
            next_index: 0,
            is_first_boundary: true,
            completed: false,
            boundary,
            content_type: Vec::new(),
            file_length,
        };
        proof {
            assert(r.file_range.output() + rest_parts(
                r.ranges@,
                0,
                true,
                r.boundary@,
                r.content_type@,
                r.file_length,
                r.content(),
            ) =~= rest_parts(
                r.ranges@,
                0,
                true,
                r.boundary@,
                Seq::<u8>::empty(),
                r.file_length,
                r.content(),
            ));
            assert(r.content_type@ =~= Seq::<u8>::empty());
        }
        r
    }

    /// Set the content type named in each part header.
    pub fn set_content_type(&mut self, content_type: Vec<u8>)
        ensures
            *final(self) == (FileBytesStreamMultiRange { content_type, ..*old(self) }),
    {
        self.content_type = content_type;
    }

    /// The exact byte count of the multipart body that is still to come.
    pub fn compute_length(&self) -> (r: u64)
        requires
            self.wf(),
            parts_len(
                self.ranges@,
                self.next_index as int,
                self.is_first_boundary,
                self.boundary@,
                self.content_type@,
                self.file_length,
            ) <= u64::MAX,
    ensures
        r == parts_len(
            self.ranges@,
            self.next_index as int,
            self.is_first_boundary,
            self.boundary@,
            self.content_type@,
            self.file_length,
        ),
    {
        match self.try_compute_length() {
            Some(v) => v,
            None => {
                proof {
                    assert(false);
                }
                0
            },
        }
    }

    /// The byte count of the multipart body, unless it overflows.
    pub fn try_compute_length(&self) -> (r: Option<u64>)
        requires
            self.wf(),
            self.next_index <= self.ranges@.len(),
        ensures
            ({
                let total = parts_len(
                    self.ranges@,
                    self.next_index as int,
                    self.is_first_boundary,
                    self.boundary@,
                    self.content_type@,
                    self.file_length,
                );
                match r {
                    Some(v) => v == total,
                    None => total > u64::MAX,
                }
            }),
    {
        parts_total(
            &self.ranges,
            self.next_index,
            self.is_first_boundary,
            &self.boundary,
            &self.content_type,
            self.file_length,
        )
    }

    /// The next chunk, or `None` once the closing boundary has been sent.
    ///
    /// A completed stream stays completed and answers `None` forever; each
    /// part header, and the closing boundary, is emitted as one atomic chunk.
    pub fn next_chunk(&mut self) -> (r: Result<Option<Vec<u8>>, VfsError>)
        requires
            old(self).wf(),
        ensures
            final(self).wf(),
            final(self).content() == old(self).content(),
            old(self).completed ==> r == Ok::<Option<Vec<u8>>, VfsError>(None) && *final(self)
                == *old(self),
            !old(self).completed && old(self).file_range.file_stream.remaining == 0 ==> ({
                if old(self).next_index == old(self).ranges@.len() {
                    &&& (r matches Ok(b) && b matches Some(buf) && buf@ == end_header(
                        old(self).boundary@,
                    ))
                    &&& final(self).completed
                } else {
                    &&& (r matches Ok(b) && b matches Some(buf) && buf@ == part_header(
                        old(self).boundary@,
                        old(self).content_type@,
                        old(self).ranges@[old(self).next_index as int],
                        old(self).is_first_boundary,
                        old(self).file_length,
                    ))
                    &&& !final(self).completed
                    &&& final(self).next_index == old(self).next_index + 1
                }
            }),
            match r {
                Ok(Some(buf)) => buf@.len() > 0 && old(self).output() == buf@
                    + final(self).output(),
                Ok(None) => old(self).output().len() == 0 && *final(self) == *old(self),
                Err(_) => true,
            },
    {
        if self.completed {
            return Ok(None);
        }
        if self.file_stream_remaining() == 0 {
            proof {
                lemma_inner_output_len(&self.file_range, self.content().len() as int);
            }
            if self.next_index == self.ranges.len() {
                self.completed = true;
                let out = render_multipart_header_end(&self.boundary);
                proof {
                    assert(old(self).output() =~= out@ + self.output());
                }
                return Ok(Some(out));
            }
            let range = self.ranges[self.next_index];
            self.next_index = self.next_index + 1;
            self.file_range.seek_state = FileSeekState::NeedSeek;
            self.file_range.start_offset = range.start;
            self.file_range.file_stream.remaining = range.length;
            let cur_is_first = self.is_first_boundary;
            self.is_first_boundary = false;
            let header = render_multipart_header(
                &self.boundary,
                &self.content_type,
                range,
                cur_is_first,
                self.file_length,
            );
            proof {
                assert(old(self).output() =~= header@ + self.output());
            }
            return Ok(Some(header));
        }
        proof {
            lemma_inner_output_len(&self.file_range, self.content().len() as int);
        }
        let inner = self.file_range.next_chunk();
        match inner {
            Ok(Some(buf)) => {
                proof {
                    assert(old(self).output() =~= buf@ + self.output());
                }
                Ok(Some(buf))
            },
            Ok(None) => {
                proof {
                    assert(false);
                }
                Ok(None)
            },
            Err(e) => Err(e),
        }
    }

    /// The inner stream's remaining byte budget.
    fn file_stream_remaining(&self) -> (r: u64)
        ensures
            r == self.file_range.file_stream.remaining,
    {
        self.file_range.file_stream.remaining
    }
}

/// Under the well-formedness budget bound, the inner range stream's output
/// length is exactly its remaining budget.
proof fn lemma_inner_output_len<F: FileAccess>(s: &FileBytesStreamRange<F>, clen: int)
    requires
        clen == s.file_stream.file.content().len(),
        match s.seek_state {
            FileSeekState::NeedSeek => s.start_offset + s.file_stream.remaining <= clen,
            FileSeekState::Reading => s.file_stream.file.pos() + s.file_stream.remaining
                <= clen,
        },
    ensures
        s.output().len() == s.file_stream.remaining,
{
}

/// The byte count of the parts at `lo` onward, unless it overflows.
pub fn parts_total(
    ranges: &Vec<HttpRange>,
    lo: usize,
    is_first: bool,
    boundary: &Vec<u8>,
    ct: &Vec<u8>,
    file_length: u64,
) -> (r: Option<u64>)
    requires
        lo <= ranges@.len(),
        forall|i: int| 0 <= i < ranges@.len() ==> (#[trigger] ranges@[i]).length >= 1
            && ranges@[i].start + ranges@[i].length <= file_length,
    ensures
        ({
            let total = parts_len(ranges@, lo as int, is_first, boundary@, ct@, file_length);
            match r {
                Some(v) => v == total,
                None => total > u64::MAX,
            }
        }),
{
    let end = render_multipart_header_end(boundary);
    let mut total: u64 = end.len() as u64;
    let n = ranges.len();
    let mut j: usize = n;
    while j > lo
        invariant
            lo <= j <= n,
            n == ranges@.len(),
            forall|i: int| 0 <= i < ranges@.len() ==> (#[trigger] ranges@[i]).length >= 1
                && ranges@[i].start + ranges@[i].length <= file_length,
            total == parts_len(ranges@, j as int, false, boundary@, ct@, file_length),
            is_first && lo < n ==> j > lo,
        decreases j,
    {
        j -= 1;
        let rg = ranges[j];
        let first_flag = is_first && j == lo;
        let hdr = render_multipart_header(boundary, ct, rg, first_flag, file_length);
        let step = match total.checked_add(hdr.len() as u64) {
            Some(t1) => t1.checked_add(rg.length),
            None => None,
        };
        match step {
            Some(t2) => {
                if first_flag {
                    // The loop ends right after the first part.
                    return Some(t2);
                }
                total = t2;
            },
            None => {
                proof {
                    lemma_parts_len_mono(
                        ranges@,
                        j as int,
                        lo as int,
                        is_first,
                        boundary@,
                        ct@,
                        file_length,
                    );
                }
                return None;
            },
        }
    }
    Some(total)
}

/// The byte count from an earlier part on is at least the byte count from a
/// later part on, and a part's own bytes push it strictly past the tail.
proof fn lemma_parts_len_mono(
    ranges: Seq<HttpRange>,
    j: int,
    lo: int,
    first_lo: bool,
    boundary: Seq<u8>,
    ct: Seq<u8>,
    file_length: u64,
)
    requires
        0 <= lo <= j < ranges.len(),
    ensures
        parts_len(ranges, j, first_lo && lo == j, boundary, ct, file_length) <= parts_len(
            ranges,
            lo,
            first_lo,
            boundary,
            ct,
            file_length,
        ),
    decreases j - lo,
{
    if lo < j {
        lemma_parts_len_mono(ranges, j, lo + 1, false, boundary, ct, file_length);
    }
}

/// Under well-formedness, the bytes still to come from the parts number
/// exactly their computed length.
pub proof fn lemma_rest_parts_len(
    ranges: Seq<HttpRange>,
    i: int,
    is_first: bool,
    boundary: Seq<u8>,
    ct: Seq<u8>,
    file_length: u64,
    content: Seq<u8>,
)
    requires
        file_length == content.len(),
        crate::range::ranges_fit(ranges, file_length),
        forall|k: int| 0 <= k < ranges.len() ==> (#[trigger] ranges[k]).length >= 1,
    ensures
        rest_parts(ranges, i, is_first, boundary, ct, file_length, content).len() == parts_len(
            ranges,
            i,
            is_first,
            boundary,
            ct,
            file_length,
        ),
    decreases ranges.len() - i,
{
    if 0 <= i < ranges.len() {
        lemma_rest_parts_len(ranges, i + 1, false, boundary, ct, file_length, content);
        assert(ranges[i].start + ranges[i].length <= content.len());
        assert(window(content, ranges[i].start as int, ranges[i].length as int).len()
            == ranges[i].length);
    }
}

} // verus!
