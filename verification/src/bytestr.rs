//! Byte-string helpers shared by the whole library.
//!
//! Header values, paths and body chunks are all byte vectors; this module
//! holds the spec-level vocabulary for them (literals, decimal and
//! hexadecimal rendering, searching and trimming) together with verified
//! executable counterparts.
use vstd::prelude::*;

verus! {

/// The bytes of an ASCII string, character by character.
pub open spec fn lit_bytes(s: &str) -> Seq<u8> {
    Seq::new(s@.len(), |i: int| s@[i] as u8)
}

/// Turn an ASCII string (usually a literal) into its byte vector.
pub fn lit(s: &str) -> (r: Vec<u8>)
    requires
        vstd::string::is_ascii(s),
    ensures
        r@ == lit_bytes(s),
{
    proof {
        vstd::string::is_ascii_spec_bytes(s);
    }
    let r = s.as_bytes_vec();
    proof {
        assert(r@ =~= lit_bytes(s));
    }
    r
}

/// Compare two byte slices for equality.
pub fn bytes_eq(a: &[u8], b: &[u8]) -> (r: bool)
    ensures
        r <==> a@ == b@,
{
    if a.len() != b.len() {
        proof {
            assert(a@ != b@);
        }
        return false;
    }
    let mut i: usize = 0;
    while i < a.len()
        invariant
            i <= a.len(),
            a@.len() == b@.len(),
            forall|j: int| 0 <= j < i ==> a@[j] == b@[j],
        decreases a.len() - i,
    {
        if a[i] != b[i] {
            return false;
        }
        i += 1;
    }
    proof {
        assert(a@ =~= b@);
    }
    true
}

/// Append all bytes of a slice to a vector.
pub fn push_all(v: &mut Vec<u8>, s: &[u8])
    ensures
        final(v)@ == old(v)@ + s@,
{
    let ghost orig = v@;
    let mut i: usize = 0;
    while i < s.len()
        invariant
            i <= s.len(),
            v@ == orig + s@.subrange(0, i as int),
        decreases s.len() - i,
    {
        v.push(s[i]);
        proof {
            assert(v@ =~= orig + s@.subrange(0, i + 1 as int));
        }
        i += 1;
    }
    proof {
        assert(s@.subrange(0, s@.len() as int) =~= s@);
    }
}

/// Decimal rendering of an unsigned number, most significant digit first.
pub open spec fn dec_of(n: u64) -> Seq<u8>
    decreases n,
{
    if n < 10 {
        seq![(48 + n) as u8]
    } else {
        dec_of((n / 10) as u64).push((48 + n % 10) as u8)
    }
}

/// Render a number in decimal, as `Display` would.
pub fn u64_to_dec(n: u64) -> (r: Vec<u8>)
    ensures
        r@ == dec_of(n),
    decreases n,
{
    if n < 10 {
        let mut v: Vec<u8> = Vec::new();
        v.push(48 + n as u8);
        proof {
            assert(v@ =~= dec_of(n));
        }
        v
    } else {
        let mut v = u64_to_dec(n / 10);
        v.push(48 + (n % 10) as u8);
        v
    }
}

/// One hexadecimal digit, lower case.
pub open spec fn hex_digit(d: u64) -> u8 {
    if d < 10 {
        (48 + d) as u8
    } else {
        (87 + d) as u8
    }
}

/// Hexadecimal rendering of an unsigned number, lower case, no prefix.
pub open spec fn hex_of(n: u64) -> Seq<u8>
    decreases n,
{
    if n < 16 {
        seq![hex_digit(n)]
    } else {
        hex_of((n / 16) as u64).push(hex_digit((n % 16) as u64))
    }
}

/// Render a number in lower-case hexadecimal, as `{:x}` would.
pub fn u64_to_hex(n: u64) -> (r: Vec<u8>)
    ensures
        r@ == hex_of(n),
    decreases n,
{
    if n < 16 {
        let d: u64 = n;
        let mut v: Vec<u8> = Vec::new();
        if d < 10 {
            v.push(48 + d as u8);
        } else {
            v.push(87 + d as u8);
        }
        proof {
            assert(v@ =~= hex_of(n));
        }
        v
    } else {
        let mut v = u64_to_hex(n / 16);
        let d: u64 = n % 16;
        if d < 10 {
            v.push(48 + d as u8);
        } else {
            v.push(87 + d as u8);
        }
        v
    }
}

/// Index of the first occurrence of a byte, if any.
pub open spec fn find_spec(s: Seq<u8>, b: u8) -> Option<int>
    decreases s.len(),
{
    if s.len() == 0 {
        None
    } else if s[0] == b {
        Some(0)
    } else {
        match find_spec(s.skip(1), b) {
            Some(i) => Some(i + 1),
            None => None,
        }
    }
}

/// What `find_spec` returns: the first index holding the byte.
pub proof fn lemma_find_spec(s: Seq<u8>, b: u8)
    ensures
        match find_spec(s, b) {
            Some(i) => 0 <= i < s.len() && s[i] == b && forall|j: int| 0 <= j < i ==> s[j] != b,
            None => forall|j: int| 0 <= j < s.len() ==> s[j] != b,
        },
    decreases s.len(),
{
    if s.len() > 0 && s[0] != b {
        lemma_find_spec(s.skip(1), b);
        assert forall|j: int| 0 <= j < s.len() implies (find_spec(s, b) matches None ==> s[j] != b)
            && (find_spec(s, b) matches Some(i) && j < i ==> s[j] != b) by {
            if 0 < j < s.len() {
                assert(s.skip(1)[j - 1] == s[j]);
            }
        }
    }
}

/// Find the first occurrence of a byte in a slice.
pub fn find_byte(s: &[u8], b: u8) -> (r: Option<usize>)
    ensures
        match r {
            Some(i) => find_spec(s@, b) == Some(i as int),
            None => find_spec(s@, b) == None::<int>,
        },
{
    proof {
        lemma_find_spec(s@, b);
    }
    let mut i: usize = 0;
    while i < s.len()
        invariant
            i <= s.len(),
            forall|j: int| 0 <= j < i ==> s@[j] != b,
        decreases s.len() - i,
    {
        if s[i] == b {
            proof {
                lemma_find_unique(s@, b, i as int);
            }
            return Some(i);
        }
        i += 1;
    }
    None
}

/// The characterization of `lemma_find_spec` pins the result down.
pub proof fn lemma_find_unique(s: Seq<u8>, b: u8, i: int)
    requires
        0 <= i < s.len(),
        s[i] == b,
        forall|j: int| 0 <= j < i ==> s[j] != b,
    ensures
        find_spec(s, b) == Some(i),
{
    lemma_find_spec(s, b);
    match find_spec(s, b) {
        Some(k) => {
            if k < i {
                assert(s[k] == b);
            } else if k > i {
                assert(s[i] != b);
            }
        },
        None => {
            assert(s[i] != b);
        },
    }
}

/// Whether a byte counts as blank when header tokens are trimmed.
pub open spec fn is_blank(b: u8) -> bool {
    b == 32 || b == 9
}

/// A token with leading blanks removed.
pub open spec fn trim_front_spec(s: Seq<u8>) -> Seq<u8>
    decreases s.len(),
{
    if s.len() > 0 && is_blank(s[0]) {
        trim_front_spec(s.skip(1))
    } else {
        s
    }
}

/// A token with trailing blanks removed.
pub open spec fn trim_back_spec(s: Seq<u8>) -> Seq<u8>
    decreases s.len(),
{
    if s.len() > 0 && is_blank(s[s.len() - 1]) {
        trim_back_spec(s.take(s.len() - 1))
    } else {
        s
    }
}

/// A token with blanks removed on both sides.
pub open spec fn trim_spec(s: Seq<u8>) -> Seq<u8> {
    trim_back_spec(trim_front_spec(s))
}

fn trim_front(s: &[u8]) -> (r: &[u8])
    ensures
        r@ == trim_front_spec(s@),
    decreases s@.len(),
{
    if s.len() > 0 && (s[0] == 32 || s[0] == 9) {
        trim_front(vstd::slice::slice_subrange(s, 1, s.len()))
    } else {
        s
    }
}

fn trim_back(s: &[u8]) -> (r: &[u8])
    ensures
        r@ == trim_back_spec(s@),
    decreases s@.len(),
{
    if s.len() > 0 && (s[s.len() - 1] == 32 || s[s.len() - 1] == 9) {
        trim_back(vstd::slice::slice_subrange(s, 0, s.len() - 1))
    } else {
        s
    }
}

/// Trim blanks from both ends of a token.
pub fn trim(s: &[u8]) -> (r: &[u8])
    ensures
        r@ == trim_spec(s@),
{
    trim_back(trim_front(s))
}

} // verus!
