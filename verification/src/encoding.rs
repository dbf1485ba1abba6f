//! Content encodings and the `Accept-Encoding` request header.
//!
//! The header grammar recognized here: the value splits on `,`; each token is
//! cut at the first `;` and trimmed; exactly `gzip`, `br` and `zstd` are
//! recognized and any other token is ignored.
use vstd::prelude::*;

use crate::bytestr::{find_byte, find_spec, lit, lit_bytes, trim, trim_spec};

verus! {

/// A pre-compressed representation a response can be served in.
#[derive(Clone, Copy, Debug, PartialEq, Eq, Structural)]
pub enum Encoding {
    Gzip,
    Br,
    Zstd,
}

/// The token a `Content-Encoding` header carries for an encoding.
pub open spec fn encoding_name(e: Encoding) -> Seq<u8> {
    match e {
        Encoding::Gzip => lit_bytes("gzip"),
        Encoding::Br => lit_bytes("br"),
        Encoding::Zstd => lit_bytes("zstd"),
    }
}

impl Encoding {
    /// The value of the `Content-Encoding` header for this encoding.
    pub fn to_header_value(&self) -> (r: Vec<u8>)
        ensures
            r@ == encoding_name(*self),
    {
        match self {
            Encoding::Gzip => {
                proof {
                    reveal_strlit("gzip");
                }
                lit("gzip")
            },
            Encoding::Br => {
                proof {
                    reveal_strlit("br");
                }
                lit("br")
            },
            Encoding::Zstd => {
                proof {
                    reveal_strlit("zstd");
                }
                lit("zstd")
            },
        }
    }
}

/// Which encodings a party (server policy or client offer) accepts.
#[derive(Clone, Copy, Debug, PartialEq, Eq, Structural)]
pub struct AcceptEncoding {
    pub gzip: bool,
    pub br: bool,
    pub zstd: bool,
}

/// Intersection of two sets of accepted encodings.
pub open spec fn spec_and(a: AcceptEncoding, b: AcceptEncoding) -> AcceptEncoding {
    AcceptEncoding { gzip: a.gzip && b.gzip, br: a.br && b.br, zstd: a.zstd && b.zstd }
}

/// One set of accepted encodings allows no more than another.
pub open spec fn subset_of(a: AcceptEncoding, b: AcceptEncoding) -> bool {
    &&& (a.gzip ==> b.gzip)
    &&& (a.br ==> b.br)
    &&& (a.zstd ==> b.zstd)
}

/// A header value the HTTP layer exposes as text: visible ASCII or tab.
pub open spec fn header_value_ok(s: Seq<u8>) -> bool {
    forall|i: int| 0 <= i < s.len() ==> (32 <= #[trigger] s[i] < 127 || s[i] == 9)
}

/// The flags a single header token contributes.
pub open spec fn token_flags(t: Seq<u8>) -> AcceptEncoding {
    let name = match find_spec(t, 59) {
        Some(i) => trim_spec(t.take(i)),
        None => trim_spec(t),
    };
    AcceptEncoding {
        gzip: name == lit_bytes("gzip"),
        br: name == lit_bytes("br"),
        zstd: name == lit_bytes("zstd"),
    }
}

/// Union of two sets of accepted encodings.
pub open spec fn spec_or(a: AcceptEncoding, b: AcceptEncoding) -> AcceptEncoding {
    AcceptEncoding { gzip: a.gzip || b.gzip, br: a.br || b.br, zstd: a.zstd || b.zstd }
}

/// The flags of a whole comma-separated header value.
pub open spec fn parse_tokens(s: Seq<u8>) -> AcceptEncoding
    decreases s.len(),
{
    match find_spec(s, 44) {
        Some(i) => if 0 <= i < s.len() {
            spec_or(token_flags(s.take(i)), parse_tokens(s.skip(i + 1)))
        } else {
            token_flags(s)
        },
        None => token_flags(s),
    }
}

/// What `Accept-Encoding` offers: nothing if the value is not header text,
/// else the union of its recognized tokens.
pub open spec fn parse_accept_encoding(s: Seq<u8>) -> AcceptEncoding {
    if header_value_ok(s) {
        parse_tokens(s)
    } else {
        AcceptEncoding { gzip: false, br: false, zstd: false }
    }
}

impl AcceptEncoding {
    /// Every encoding accepted.
    pub fn all() -> (r: Self)
        ensures
            r == (AcceptEncoding { gzip: true, br: true, zstd: true }),
    {
        AcceptEncoding { gzip: true, br: true, zstd: true }
    }

    /// No encoding accepted.
    pub fn none() -> (r: Self)
        ensures
            r == (AcceptEncoding { gzip: false, br: false, zstd: false }),
    {
        AcceptEncoding { gzip: false, br: false, zstd: false }
    }

    /// Intersect with another set of accepted encodings.
    pub fn bitand(self, rhs: Self) -> (r: Self)
        ensures
            r == spec_and(self, rhs),
            subset_of(r, self),
            subset_of(r, rhs),
    {
        AcceptEncoding { gzip: self.gzip && rhs.gzip, br: self.br && rhs.br, zstd: self.zstd && rhs.zstd }
    }

    /// Parse an `Accept-Encoding` header value.
    pub fn from_header_value(value: &[u8]) -> (r: Self)
        ensures
            r == parse_accept_encoding(value@),
    {
        let mut i: usize = 0;
        while i < value.len()
            invariant
                i <= value@.len(),
                forall|j: int| 0 <= j < i ==> (32 <= #[trigger] value@[j] < 127 || value@[j] == 9),
            decreases value@.len() - i,
        {
            let b = value[i];
            if !(b >= 32 && b < 127 || b == 9) {
                return AcceptEncoding { gzip: false, br: false, zstd: false };
            }
            i += 1;
        }
        parse_value(value)
    }
}

/// The flags of one token: the part before any `;`, trimmed, compared with
/// the three known names.
fn one_token(t: &[u8]) -> (r: AcceptEncoding)
    ensures
        r == token_flags(t@),
{
    let cut: &[u8] = match find_byte(t, 59) {
        Some(i) => {
            proof {
                crate::bytestr::lemma_find_spec(t@, 59);
                assert(t@.subrange(0, i as int) =~= t@.take(i as int));
            }
            vstd::slice::slice_subrange(t, 0, i)
        },
        None => t,
    };
    let name = trim(cut);
    proof {
        reveal_strlit("gzip");
        reveal_strlit("br");
        reveal_strlit("zstd");
    }
    let gzip = crate::bytestr::bytes_eq(name, lit("gzip").as_slice());
    let br = crate::bytestr::bytes_eq(name, lit("br").as_slice());
    let zstd = crate::bytestr::bytes_eq(name, lit("zstd").as_slice());
    AcceptEncoding { gzip, br, zstd }
}

/// Fold the comma-separated tokens of a header value.
fn parse_value(s: &[u8]) -> (r: AcceptEncoding)
    ensures
        r == parse_tokens(s@),
    decreases s@.len(),
{
    match find_byte(s, 44) {
        Some(i) => {
            proof {
                crate::bytestr::lemma_find_spec(s@, 44);
                assert(find_spec(s@, 44) == Some(i as int));
                assert((i as int) < s@.len());
            }
            let n = s.len();
            let head = one_token(vstd::slice::slice_subrange(s, 0, i));
            let rest = parse_value(vstd::slice::slice_subrange(s, i + 1, n));
            proof {
                assert(s@.subrange(0, i as int) =~= s@.take(i as int));
                assert(s@.subrange(i + 1 as int, s@.len() as int) =~= s@.skip(i + 1));
            }
            AcceptEncoding {
                gzip: head.gzip || rest.gzip,
                br: head.br || rest.br,
                zstd: head.zstd || rest.zstd,
            }
        },
        None => one_token(s),
    }
}

/// Re-serializing any single recognized token and parsing it again yields
/// exactly that token's flag: the round trip is lossless.
pub proof fn lemma_encoding_round_trip(e: Encoding)
    ensures
        parse_accept_encoding(encoding_name(e)) == (AcceptEncoding {
            gzip: e is Gzip,
            br: e is Br,
            zstd: e is Zstd,
        }),
{
    reveal_strlit("gzip");
    reveal_strlit("br");
    reveal_strlit("zstd");
    let n = encoding_name(e);
    assert(header_value_ok(n)) by {
        assert(forall|i: int| 0 <= i < n.len() ==> 32 <= #[trigger] n[i] < 127);
    }
    assert(find_spec(n, 44) is None && find_spec(n, 59) is None) by {
        crate::bytestr::lemma_find_spec(n, 44);
        crate::bytestr::lemma_find_spec(n, 59);
    }
    assert(trim_spec(n) == n) by {
        assert(!crate::bytestr::is_blank(n[0]));
        assert(!crate::bytestr::is_blank(n[n.len() - 1]));
    }
    match e {
        Encoding::Gzip => {
            assert(n != lit_bytes("br")) by {
                assert(n.len() != lit_bytes("br").len());
            }
            assert(n != lit_bytes("zstd")) by {
                assert(n[0] != lit_bytes("zstd")[0]);
            }
        },
        Encoding::Br => {
            assert(n != lit_bytes("gzip")) by {
                assert(n.len() != lit_bytes("gzip").len());
            }
            assert(n != lit_bytes("zstd")) by {
                assert(n.len() != lit_bytes("zstd").len());
            }
        },
        Encoding::Zstd => {
            assert(n != lit_bytes("gzip")) by {
                assert(n[0] != lit_bytes("gzip")[0]);
            }
            assert(n != lit_bytes("br")) by {
                assert(n.len() != lit_bytes("br").len());
            }
        },
    }
}

} // verus!
