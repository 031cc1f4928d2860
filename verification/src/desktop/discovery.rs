//! Finding link partners on the LAN: the UDP announcement format and the
//! mDNS names. A host announces "AuroraGBA host on TCP port X, name Y"; a
//! browser listens and lists the hosts (the address comes from the network,
//! the TCP port from the announcement).
use vstd::prelude::*;
use vstd::string::StrSliceExecFns;
use vstd::string::StringSliceAdditionalSpecFns;
use vstd::string::StringExecFns;
use vstd::utf8::{decode_utf8, valid_utf8};
use crate::text::{ascii_chars, ascii_string, lemma_trim_back, lemma_trim_front, lossy_chars, trim_back, trim_front, utf8_lossy};

verus! {

/// The fixed UDP port where hosts announce themselves (the link uses 7777).
pub const DISCOVERY_PORT: u16 = 7778;

/// Announcement format version.
pub const VERSION: u8 = 1;

/// The longest name, in bytes, an announcement carries.
pub const MAX_NAME: usize = 64;

/// The announcement of a host: `AGBD`, the version, the TCP port
/// (little-endian), the name's length and the name (its first 64 bytes).
pub open spec fn announce_of(port: u16, name: Seq<u8>) -> Seq<u8> {
    let n = if name.len() < MAX_NAME { name.len() as int } else { MAX_NAME as int };
    seq![0x41u8, 0x47, 0x42, 0x44, VERSION, (port % 256) as u8, (port / 256) as u8, n as u8] + name.subrange(0, n)
}

/// The port and name bytes of a datagram, when it is an announcement of
/// this version whose name fits in it.
pub open spec fn announce_fields(buf: Seq<u8>) -> Option<(u16, Seq<u8>)> {
    if buf.len() >= 8 && buf[0] == 0x41 && buf[1] == 0x47 && buf[2] == 0x42 && buf[3] == 0x44 && buf[4] == VERSION
        && 8 + buf[7] as int <= buf.len() {
        Some(((buf[5] as int + buf[6] as int * 256) as u16, buf.subrange(8, 8 + buf[7] as int)))
    } else {
        None
    }
}

/// Builds the announcement packet.
pub fn encode_announce(tcp_port: u16, name: &str) -> (r: Vec<u8>)
    ensures
        r@ == announce_of(tcp_port, name.spec_bytes()),
{
    let bytes = name.as_bytes();
    let n = if bytes.len() < MAX_NAME { bytes.len() } else { MAX_NAME };
    let mut buf: Vec<u8> = Vec::new();
    buf.push(0x41);
    buf.push(0x47);
    buf.push(0x42);
    buf.push(0x44);
    buf.push(VERSION);
    buf.push((tcp_port % 256) as u8);
    buf.push((tcp_port / 256) as u8);
    buf.push(n as u8);
    let mut i: usize = 0;
    while i < n
        invariant
            i <= n <= bytes@.len(),
            n <= MAX_NAME,
            buf@ == seq![0x41u8, 0x47, 0x42, 0x44, VERSION, (tcp_port % 256) as u8, (tcp_port / 256) as u8, n as u8]
                + bytes@.subrange(0, i as int),
        decreases n - i,
    {
        buf.push(bytes[i]);
        i = i + 1;
        assert(buf@ =~= seq![0x41u8, 0x47, 0x42, 0x44, VERSION, (tcp_port % 256) as u8, (tcp_port / 256) as u8, n as u8]
            + bytes@.subrange(0, i as int));
    }
    buf
}

/// Reads an announcement: the TCP port and the name (decoded as UTF-8,
/// invalid sequences replaced), or `None` when the datagram is not ours.
pub fn decode_announce(buf: &[u8]) -> (r: Option<(u16, String)>)
    ensures
        r is None <==> announce_fields(buf@) is None,
        r matches Some((p, s)) ==> ({
            let (port, name) = announce_fields(buf@).unwrap();
            &&& p == port
            &&& s@ == lossy_chars(name)
            &&& valid_utf8(name) ==> s@ == decode_utf8(name)
        }),
{
    if buf.len() < 8 || buf[0] != 0x41 || buf[1] != 0x47 || buf[2] != 0x42 || buf[3] != 0x44 || buf[4] != VERSION {
        return None;
    }
    let port = buf[5] as u16 + buf[6] as u16 * 256;
    let n = buf[7] as usize;
    if buf.len() - 8 < n {
        return None;
    }
    let name = crate::text::sub_vec(buf, 8, 8 + n);
    Some((port, utf8_lossy(name.as_slice())))
}

/// Law of the announcement format: a name of at most 64 bytes comes back
/// with its port.
pub proof fn law_announce_round_trip(port: u16, name: Seq<u8>)
    requires
        name.len() <= MAX_NAME,
    ensures
        announce_fields(announce_of(port, name)) == Some((port, name)),
{
    let b = announce_of(port, name);
    assert(name.subrange(0, name.len() as int) =~= name);
    assert(b.subrange(8, 8 + b[7] as int) =~= name);
}

/// An ASCII letter or digit.
pub open spec fn is_alnum(c: char) -> bool {
    ('0' <= c && c <= '9') || ('a' <= c && c <= 'z') || ('A' <= c && c <= 'Z')
}

/// The name with every character but ASCII letters and digits made '-'.
pub open spec fn dashed(name: Seq<char>) -> Seq<char> {
    name.map_values(|c: char| if is_alnum(c) { c } else { '-' })
}

/// The mDNS host name of a friendly name: letters and digits kept, other
/// characters '-', leading and trailing '-' dropped ("auroragba" when
/// nothing is left), then ".local.".
pub open spec fn mdns_host_of(name: Seq<char>) -> Seq<char> {
    let t = trim_back(trim_front(dashed(name), '-'), '-');
    (if t.len() == 0 { "auroragba"@ } else { t }) + ".local."@
}

/// Makes an mDNS host name ("<name>.local.") out of a friendly name.
pub fn mdns_hostname(name: &str) -> (r: String)
    ensures
        r@ == mdns_host_of(name@),
{
    let n = name.unicode_len();
    let ghost d = dashed(name@);
    let mut bytes: Vec<u8> = Vec::new();
    let mut i: usize = 0;
    while i < n
        invariant
            i <= n,
            n == name@.len(),
            d == dashed(name@),
            bytes@.len() == i,
            crate::text::all_ascii(bytes@),
            ascii_chars(bytes@) == d.subrange(0, i as int),
        decreases n - i,
    {
        let c = name.get_char(i);
        let v = c as u32;
        let alnum = (0x30 <= v && v <= 0x39) || (0x61 <= v && v <= 0x7A) || (0x41 <= v && v <= 0x5A);
        proof {
            assert(alnum == is_alnum(c));
            assert(d[i as int] == (if is_alnum(c) { c } else { '-' }));
        }
        let b: u8 = if alnum { v as u8 } else { 0x2D };
        assert(b < 0x80 && b as char == d[i as int]);
        bytes.push(b);
        i = i + 1;
        assert(ascii_chars(bytes@) =~= d.subrange(0, i as int));
    }
    assert(d.subrange(0, n as int) =~= d);
    let mut lo: usize = 0;
    while lo < n && bytes[lo] == 0x2D
        invariant
            lo <= n == bytes@.len() == d.len(),
            crate::text::all_ascii(bytes@),
            ascii_chars(bytes@) == d,
            forall|j: int| 0 <= j < lo ==> d[j] == '-',
        decreases n - lo,
    {
        assert(ascii_chars(bytes@)[lo as int] == bytes@[lo as int] as char);
        lo = lo + 1;
    }
    if lo < n {
        assert(ascii_chars(bytes@)[lo as int] == bytes@[lo as int] as char);
    }
    let mut hi: usize = n;
    while hi > lo && bytes[hi - 1] == 0x2D
        invariant
            lo <= hi <= n == bytes@.len() == d.len(),
            crate::text::all_ascii(bytes@),
            ascii_chars(bytes@) == d,
            forall|j: int| hi <= j < n ==> d[j] == '-',
        decreases hi,
    {
        assert(ascii_chars(bytes@)[hi - 1] == bytes@[hi - 1] as char);
        hi = hi - 1;
    }
    if hi > lo {
        assert(ascii_chars(bytes@)[hi - 1] == bytes@[hi - 1] as char);
    }
    proof {
        lemma_trim_front(d, '-', lo as int);
        let f = d.subrange(lo as int, n as int);
        assert forall|j: int| hi - lo <= j < f.len() implies f[j] == '-' by {}
        lemma_trim_back(f, '-', hi - lo);
        assert(f.subrange(0, hi - lo) =~= d.subrange(lo as int, hi as int));
    }
    let mut out: Vec<u8> = Vec::new();
    if hi == lo {
        out.push(0x61);
        out.push(0x75);
        out.push(0x72);
        out.push(0x6F);
        out.push(0x72);
        out.push(0x61);
        out.push(0x67);
        out.push(0x62);
        out.push(0x61);
    } else {
        let mut k = lo;
        while k < hi
            invariant
                lo <= k <= hi <= n == bytes@.len(),
                out@ == bytes@.subrange(lo as int, k as int),
            decreases hi - k,
        {
            out.push(bytes[k]);
            k = k + 1;
            assert(out@ =~= bytes@.subrange(lo as int, k as int));
        }
        assert(ascii_chars(out@) =~= d.subrange(lo as int, hi as int));
    }
    out.push(0x2E);
    out.push(0x6C);
    out.push(0x6F);
    out.push(0x63);
    out.push(0x61);
    out.push(0x6C);
    out.push(0x2E);
    proof {
        reveal_strlit("auroragba");
        reveal_strlit(".local.");
        let t = d.subrange(lo as int, hi as int);
        assert(ascii_chars(out@) =~= (if t.len() == 0 { "auroragba"@ } else { t }) + ".local."@);
    }
    ascii_string(out.as_slice())
}

/// `k` is the position of the first '.' of `s` (its length when there is
/// none).
pub open spec fn first_dot_at(s: Seq<char>, k: int) -> bool {
    &&& 0 <= k <= s.len()
    &&& k == s.len() || s[k] == '.'
    &&& forall|j: int| 0 <= j < k ==> s[j] != '.'
}

/// The instance name of an mDNS full name: the part before the first '.'.
pub open spec fn instance_of(fullname: Seq<char>) -> Seq<char> {
    fullname.subrange(0, choose|k: int| first_dot_at(fullname, k))
}

/// The instance name of an mDNS full name ("Name._auroragba-link..." gives
/// "Name").
pub fn instance_name(fullname: &str) -> (r: String)
    ensures
        r@ == instance_of(fullname@),
{
    let n = fullname.unicode_len();
    let mut k: usize = 0;
    while k < n && fullname.get_char(k) != '.'
        invariant
            k <= n == fullname@.len(),
            forall|j: int| 0 <= j < k ==> fullname@[j] != '.',
        decreases n - k,
    {
        k = k + 1;
    }
    proof {
        assert(first_dot_at(fullname@, k as int));
        let w = choose|w: int| first_dot_at(fullname@, w);
        if w < k {
            assert(fullname@[w] == '.');
        } else if w > k {
            assert(fullname@[k as int] != '.');
        }
    }
    String::from_str(fullname.substring_char(0, k))
}

} // verus!
