//! The `Range` request header, parsed against a file size.
//!
//! Parsing distinguishes three outcomes: a list of satisfiable ranges
//! (normalized to absolute start and length), "no overlap" (every requested
//! range starts past the end), and a syntactically invalid header.
use vstd::prelude::*;

verus! {

/// One satisfiable byte range: absolute start offset and length.
#[derive(Clone, Copy, Debug, PartialEq, Eq, Structural)]
pub struct HttpRange {
    pub start: u64,
    pub length: u64,
}

/// The three outcomes of parsing a `Range` header.
pub enum RangesParsed {
    Valid(Vec<HttpRange>),
    NoOverlap,
    Invalid,
}

/// The outcomes, at the specification level.
pub enum RangesParsedSpec {
    Valid(Seq<HttpRange>),
    NoOverlap,
    Invalid,
}

/// The specification view of a parse outcome.
pub open spec fn ranges_view(r: &RangesParsed) -> RangesParsedSpec {
    match r {
        RangesParsed::Valid(v) => RangesParsedSpec::Valid(v@),
        RangesParsed::NoOverlap => RangesParsedSpec::NoOverlap,
        RangesParsed::Invalid => RangesParsedSpec::Invalid,
    }
}

/// What the range parser answers for a header value and a file size.
pub uninterp spec fn range_parse(header: Seq<u8>, size: u64) -> RangesParsedSpec;

/// Every range a successful parse yields fits the file it was checked
/// against: it ends within the size, and is non-empty whenever the file is.
pub open spec fn ranges_fit(v: Seq<HttpRange>, size: u64) -> bool {
    forall|i: int| 0 <= i < v.len() ==> (#[trigger] v[i]).start + v[i].length <= size && (size
        > 0 ==> v[i].length >= 1)
}

/// Relies on `http_range::HttpRange::parse_bytes`: the outcome is a function
/// of the header bytes and the size alone, and its source checks each
/// accepted range against the size (capping the end and dropping or
/// normalizing empty ones, so a range can only be empty when the size is 0).
#[verifier::external_body]
pub(crate) fn parse_ranges(header: &[u8], size: u64) -> (r: RangesParsed)
    ensures
        ranges_view(&r) == range_parse(header@, size),
        ranges_view(&r) matches RangesParsedSpec::Valid(v) ==> ranges_fit(v, size),
{
    match http_range::HttpRange::parse_bytes(header, size) {
        Ok(v) => RangesParsed::Valid(
            v.into_iter().map(|r| HttpRange { start: r.start, length: r.length }).collect(),
        ),
        Err(http_range::HttpRangeParseError::NoOverlap) => RangesParsed::NoOverlap,
        Err(http_range::HttpRangeParseError::InvalidRange) => RangesParsed::Invalid,
    }
}

} // verus!
