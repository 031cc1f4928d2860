//! Byte and text helpers shared by the modules that read names out of ROM
//! headers or build strings for the frontends.
use vstd::prelude::*;
use vstd::utf8::encode_utf8;

verus! {

/// What `String::from_utf8_lossy` decodes from `bytes`: valid UTF-8 sequences
/// become their characters and every invalid sequence becomes U+FFFD.
pub uninterp spec fn lossy_chars(bytes: Seq<u8>) -> Seq<char>;

/// All bytes are ASCII (below 0x80).
pub open spec fn all_ascii(bytes: Seq<u8>) -> bool {
    forall|i: int| 0 <= i < bytes.len() ==> bytes[i] < 0x80
}

/// The characters of ASCII bytes.
pub open spec fn ascii_chars(bytes: Seq<u8>) -> Seq<char> {
    bytes.map_values(|b: u8| b as char)
}

/// Decodes bytes as UTF-8, replacing invalid sequences.
///
/// Trusted: calls `String::from_utf8_lossy`. The contract names the result
/// and states the documented cases: valid UTF-8 is decoded as it is, so
/// ASCII bytes decode one character per byte.
#[verifier::external_body]
pub fn utf8_lossy(bytes: &[u8]) -> (s: String)
    ensures
        s@ == lossy_chars(bytes@),
        all_ascii(bytes@) ==> s@ == ascii_chars(bytes@),
        vstd::utf8::valid_utf8(bytes@) ==> s@ == vstd::utf8::decode_utf8(bytes@),
{
    String::from_utf8_lossy(bytes).into_owned()
}

/// Builds a string from ASCII bytes.
pub fn ascii_string(bytes: &[u8]) -> (s: String)
    requires
        all_ascii(bytes@),
    ensures
        s@ == ascii_chars(bytes@),
{
    utf8_lossy(bytes)
}

/// Copies `v[start..end]` into a new vector.
pub fn sub_vec(v: &[u8], start: usize, end: usize) -> (r: Vec<u8>)
    requires
        start <= end <= v.len(),
    ensures
        r@ == v@.subrange(start as int, end as int),
{
    let mut r: Vec<u8> = Vec::new();
    let mut i = start;
    while i < end
        invariant
            start <= i <= end <= v.len(),
            r@ == v@.subrange(start as int, i as int),
        decreases end - i,
    {
        r.push(v[i]);
        i = i + 1;
        assert(r@ =~= v@.subrange(start as int, i as int));
    }
    r
}

/// Whether the bytes of two strings are equal; this is exactly equality of
/// the strings.
pub fn str_eq(a: &str, b: &str) -> (r: bool)
    ensures
        r == (a@ == b@),
{
    let x = a.as_bytes();
    let y = b.as_bytes();
    proof {
        vstd::utf8::encode_utf8_decode_utf8(a@);
        vstd::utf8::encode_utf8_decode_utf8(b@);
    }
    if x.len() != y.len() {
        return false;
    }
    let mut i: usize = 0;
    while i < x.len()
        invariant
            x.len() == y.len(),
            x@ == encode_utf8(a@),
            y@ == encode_utf8(b@),
            i <= x.len(),
            forall|j: int| 0 <= j < i ==> x@[j] == y@[j],
        decreases x.len() - i,
    {
        if x[i] != y[i] {
            return false;
        }
        i = i + 1;
    }
    assert(x@ =~= y@);
    true
}

/// `s` without its leading `c`s.
pub open spec fn trim_front(s: Seq<char>, c: char) -> Seq<char>
    decreases s.len(),
{
    if s.len() > 0 && s[0] == c {
        trim_front(s.drop_first(), c)
    } else {
        s
    }
}

/// `s` without its trailing `c`s.
pub open spec fn trim_back(s: Seq<char>, c: char) -> Seq<char>
    decreases s.len(),
{
    if s.len() > 0 && s.last() == c {
        trim_back(s.drop_last(), c)
    } else {
        s
    }
}

/// Trimming the front stops at the first character that is not `c`.
pub proof fn lemma_trim_front(s: Seq<char>, c: char, lo: int)
    requires
        0 <= lo <= s.len(),
        forall|j: int| 0 <= j < lo ==> s[j] == c,
        lo == s.len() || s[lo] != c,
    ensures
        trim_front(s, c) == s.subrange(lo, s.len() as int),
    decreases lo,
{
    if lo > 0 {
        lemma_trim_front(s.drop_first(), c, lo - 1);
        assert(s.drop_first().subrange(lo - 1, s.len() - 1) =~= s.subrange(lo, s.len() as int));
    } else {
        assert(s.subrange(0, s.len() as int) =~= s);
    }
}

/// Trimming the back stops after the last character that is not `c`.
pub proof fn lemma_trim_back(s: Seq<char>, c: char, hi: int)
    requires
        0 <= hi <= s.len(),
        forall|j: int| hi <= j < s.len() ==> s[j] == c,
        hi == 0 || s[hi - 1] != c,
    ensures
        trim_back(s, c) == s.subrange(0, hi),
    decreases s.len() - hi,
{
    if hi < s.len() {
        lemma_trim_back(s.drop_last(), c, hi);
        assert(s.drop_last().subrange(0, hi) =~= s.subrange(0, hi));
    } else {
        assert(s.subrange(0, s.len() as int) =~= s);
    }
}

} // verus!
