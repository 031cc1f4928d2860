//! The ROM library's own logic: the ROM header's text fields, the cover
//! cache key, the box-art names of known games and the URL encoding of a
//! box-art name. Scanning folders, fetching and decoding images is the
//! frontend's.
use vstd::prelude::*;
use vstd::string::StrSliceExecFns;
use vstd::string::StringSliceAdditionalSpecFns;
use vstd::string::StringExecFns;
use crate::text::{all_ascii, ascii_chars, ascii_string, lemma_trim_back, lemma_trim_front, trim_back, trim_front};

verus! {

/// A printable ASCII byte (0x20 to 0x7E).
pub open spec fn printable(b: u8) -> bool {
    0x20 <= b && b < 0x7F
}

/// The printable bytes of `b`, in order.
pub open spec fn keep_printable(b: Seq<u8>) -> Seq<u8>
    decreases b.len(),
{
    if b.len() == 0 {
        Seq::empty()
    } else if printable(b.last()) {
        keep_printable(b.drop_last()).push(b.last())
    } else {
        keep_printable(b.drop_last())
    }
}

/// `k` is the position of the first zero byte of `b` (its length when there
/// is none).
pub open spec fn zero_at(b: Seq<u8>, k: int) -> bool {
    &&& 0 <= k <= b.len()
    &&& k == b.len() || b[k] == 0
    &&& forall|j: int| 0 <= j < k ==> b[j] != 0
}

/// The text of a header field: the bytes before the first zero, only the
/// printable ones, without leading and trailing spaces.
pub open spec fn field_text(b: Seq<u8>) -> Seq<char> {
    let z = choose|k: int| zero_at(b, k);
    trim_back(trim_front(ascii_chars(keep_printable(b.subrange(0, z))), ' '), ' ')
}

/// The printable ASCII text of a header field (cut at the first zero,
/// garbage dropped, spaces trimmed).
pub fn ascii_field(bytes: &[u8]) -> (r: String)
    ensures
        r@ == field_text(bytes@),
{
    let mut z: usize = 0;
    while z < bytes.len() && bytes[z] != 0
        invariant
            z <= bytes@.len(),
            forall|j: int| 0 <= j < z ==> bytes@[j] != 0,
        decreases bytes.len() - z,
    {
        z = z + 1;
    }
    proof {
        assert(zero_at(bytes@, z as int));
        let w = choose|k: int| zero_at(bytes@, k);
        if w < z {
            assert(bytes@[w] == 0);
        } else if w > z {
            assert(bytes@[z as int] != 0);
        }
    }
    let mut kept: Vec<u8> = Vec::new();
    let mut i: usize = 0;
    while i < z
        invariant
            i <= z <= bytes@.len(),
            kept@ == keep_printable(bytes@.subrange(0, i as int)),
            all_ascii(kept@),
        decreases z - i,
    {
        proof {
            assert(bytes@.subrange(0, i + 1).drop_last() =~= bytes@.subrange(0, i as int));
        }
        if 0x20 <= bytes[i] && bytes[i] < 0x7F {
            kept.push(bytes[i]);
        }
        i = i + 1;
    }
    let n = kept.len();
    let ghost d = ascii_chars(kept@);
    let mut lo: usize = 0;
    while lo < n && kept[lo] == 0x20
        invariant
            lo <= n == kept@.len() == d.len(),
            all_ascii(kept@),
            d == ascii_chars(kept@),
            forall|j: int| 0 <= j < lo ==> d[j] == ' ',
        decreases n - lo,
    {
        lo = lo + 1;
    }
    let mut hi: usize = n;
    while hi > lo && kept[hi - 1] == 0x20
        invariant
            lo <= hi <= n == kept@.len() == d.len(),
            all_ascii(kept@),
            d == ascii_chars(kept@),
            forall|j: int| hi <= j < n ==> d[j] == ' ',
        decreases hi,
    {
        hi = hi - 1;
    }
    proof {
        if lo < n {
            assert(d[lo as int] == kept@[lo as int] as char);
        }
        if hi > lo {
            assert(d[hi - 1] == kept@[hi - 1] as char);
        }
        lemma_trim_front(d, ' ', lo as int);
        let f = d.subrange(lo as int, n as int);
        assert forall|j: int| hi - lo <= j < f.len() implies f[j] == ' ' by {}
        lemma_trim_back(f, ' ', hi - lo);
        assert(f.subrange(0, hi - lo) =~= d.subrange(lo as int, hi as int));
    }
    let out = crate::text::sub_vec(kept.as_slice(), lo, hi);
    assert(ascii_chars(out@) =~= d.subrange(lo as int, hi as int));
    ascii_string(out.as_slice())
}

/// The title and game code of a ROM header (title at 0xA0, 12 bytes; code
/// at 0xAC, 4 bytes); an empty title is replaced by `stem`, the file name.
pub fn header_fields(header: &[u8], stem: &str) -> (r: (String, String))
    requires
        header@.len() >= 0xB0,
    ensures
        r.1@ == field_text(header@.subrange(0xAC, 0xB0)),
        field_text(header@.subrange(0xA0, 0xAC)).len() == 0 ==> r.0@ == stem@,
        field_text(header@.subrange(0xA0, 0xAC)).len() != 0 ==> r.0@ == field_text(header@.subrange(0xA0, 0xAC)),
{
    let t = crate::text::sub_vec(header, 0xA0, 0xAC);
    let c = crate::text::sub_vec(header, 0xAC, 0xB0);
    let title = ascii_field(t.as_slice());
    let code = ascii_field(c.as_slice());
    if title.unicode_len() == 0 {
        (String::from_str(stem), code)
    } else {
        (title, code)
    }
}

/// An ASCII letter or digit byte.
pub open spec fn alnum_byte(b: u8) -> bool {
    (0x30 <= b && b <= 0x39) || (0x61 <= b && b <= 0x7A) || (0x41 <= b && b <= 0x5A)
}

/// A byte kept as it is in a URL path (unreserved: letters, digits, `-`,
/// `.`, `_`, `~`).
pub open spec fn unreserved(b: u8) -> bool {
    alnum_byte(b) || b == 0x2D || b == 0x2E || b == 0x5F || b == 0x7E
}

/// An upper-case hexadecimal digit.
pub open spec fn hex_digit(v: int) -> u8 {
    if v < 10 {
        (0x30 + v) as u8
    } else {
        (0x41 + v - 10) as u8
    }
}

/// Percent-encoded bytes: unreserved bytes kept, others as `%XX`.
pub open spec fn percent_bytes(b: Seq<u8>) -> Seq<u8>
    decreases b.len(),
{
    if b.len() == 0 {
        Seq::empty()
    } else {
        percent_bytes(b.drop_last()) + if unreserved(b.last()) {
            seq![b.last()]
        } else {
            seq![0x25u8, hex_digit(b.last() as int / 16), hex_digit(b.last() as int % 16)]
        }
    }
}

fn hex(v: u8) -> (r: u8)
    requires
        v < 16,
    ensures
        r == hex_digit(v as int),
        r < 0x80,
{
    if v < 10 {
        0x30 + v
    } else {
        0x41 + v - 10
    }
}

/// Percent-encoding for a URL path: only unreserved characters are kept.
pub fn percent_encode(s: &str) -> (r: String)
    ensures
        r@ == ascii_chars(percent_bytes(s.spec_bytes())),
{
    let bytes = s.as_bytes();
    let mut out: Vec<u8> = Vec::new();
    let mut i: usize = 0;
    while i < bytes.len()
        invariant
            i <= bytes@.len(),
            out@ == percent_bytes(bytes@.subrange(0, i as int)),
            all_ascii(out@),
        decreases bytes.len() - i,
    {
        proof {
            assert(bytes@.subrange(0, i + 1).drop_last() =~= bytes@.subrange(0, i as int));
        }
        let b = bytes[i];
        let keep = (0x30 <= b && b <= 0x39) || (0x61 <= b && b <= 0x7A) || (0x41 <= b && b <= 0x5A) || b == 0x2D || b
            == 0x2E || b == 0x5F || b == 0x7E;
        let ghost before = out@;
        if keep {
            out.push(b);
        } else {
            out.push(0x25);
            out.push(hex(b / 16));
            out.push(hex(b % 16));
        }
        i = i + 1;
        proof {
            let piece = if unreserved(b) {
                seq![b]
            } else {
                seq![0x25u8, hex_digit(b as int / 16), hex_digit(b as int % 16)]
            };
            assert(out@ =~= before + piece);
        }
    }
    assert(bytes@.subrange(0, bytes@.len() as int) =~= bytes@);
    ascii_string(out.as_slice())
}

/// The cache key of a cover: the game code when there is one (games with
/// the same code share it), else the file name, with every character but
/// ASCII letters and digits made '_'.
pub open spec fn cache_key_of(code: Seq<char>, stem: Seq<char>) -> Seq<char> {
    let raw = if code.len() == 0 { stem } else { code };
    raw.map_values(|c: char| if crate::desktop::discovery::is_alnum(c) { c } else { '_' })
}

/// The cache key of a cover (see `cache_key_of`).
pub fn cache_key(code: &str, stem: &str) -> (r: String)
    ensures
        r@ == cache_key_of(code@, stem@),
{
    let raw = if code.unicode_len() == 0 { stem } else { code };
    let n = raw.unicode_len();
    let ghost d = cache_key_of(code@, stem@);
    let mut bytes: Vec<u8> = Vec::new();
    let mut i: usize = 0;
    while i < n
        invariant
            i <= n,
            n == raw@.len(),
            raw@ == (if code@.len() == 0 { stem@ } else { code@ }),
            d == cache_key_of(code@, stem@),
            bytes@.len() == i,
            all_ascii(bytes@),
            ascii_chars(bytes@) == d.subrange(0, i as int),
        decreases n - i,
    {
        let c = raw.get_char(i);
        let v = c as u32;
        let alnum = (0x30 <= v && v <= 0x39) || (0x61 <= v && v <= 0x7A) || (0x41 <= v && v <= 0x5A);
        proof {
            assert(alnum == crate::desktop::discovery::is_alnum(c));
            assert(d[i as int] == (if crate::desktop::discovery::is_alnum(c) { c } else { '_' }));
        }
        let b: u8 = if alnum { v as u8 } else { 0x5F };
        assert(b < 0x80 && b as char == d[i as int]);
        bytes.push(b);
        i = i + 1;
        assert(ascii_chars(bytes@) =~= d.subrange(0, i as int));
    }
    assert(d.subrange(0, n as int) =~= d);
    ascii_string(bytes.as_slice())
}

/// The libretro box-art name of a known game code.
pub open spec fn boxart_of(code: Seq<char>) -> Option<Seq<char>> {
    if code == "BPEE"@ {
        Some("Pokemon - Emerald Version (USA, Europe)"@)
    } else if code == "AXVE"@ {
        Some("Pokemon - Ruby Version (USA, Europe)"@)
    } else if code == "AXPE"@ {
        Some("Pokemon - Sapphire Version (USA, Europe)"@)
    } else if code == "BPRE"@ {
        Some("Pokemon - FireRed Version (USA, Europe)"@)
    } else if code == "BPGE"@ {
        Some("Pokemon - LeafGreen Version (USA, Europe)"@)
    } else {
        None
    }
}

/// The libretro box-art name (No-Intro) of a known game code.
pub fn boxart_name(code: &str) -> (r: Option<&'static str>)
    ensures
        r matches Some(n) ==> boxart_of(code@) == Some(n@),
        r is None ==> boxart_of(code@) is None,
{
    if crate::text::str_eq(code, "BPEE") {
        Some("Pokemon - Emerald Version (USA, Europe)")
    } else if crate::text::str_eq(code, "AXVE") {
        Some("Pokemon - Ruby Version (USA, Europe)")
    } else if crate::text::str_eq(code, "AXPE") {
        Some("Pokemon - Sapphire Version (USA, Europe)")
    } else if crate::text::str_eq(code, "BPRE") {
        Some("Pokemon - FireRed Version (USA, Europe)")
    } else if crate::text::str_eq(code, "BPGE") {
        Some("Pokemon - LeafGreen Version (USA, Europe)")
    } else {
        None
    }
}

} // verus!
