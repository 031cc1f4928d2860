//! A minimal PNG encoder (RGBA, 8 bits per channel, no compression) for
//! screenshots.
//!
//! PNG wraps the pixels in a zlib stream; here the DEFLATE data is made of
//! "stored" blocks (type 00), so the stream is the raw bytes with headers.
//! CRC-32 (PNG chunks) and Adler-32 (zlib) are computed here.
use vstd::prelude::*;

verus! {

/// One bit step of the reflected CRC-32 (polynomial 0xEDB88320).
pub open spec fn crc_bit(c: u32) -> u32 {
    if c % 2 == 1 {
        (c / 2) ^ 0xEDB8_8320u32
    } else {
        c / 2
    }
}

/// `k` bit steps.
pub open spec fn crc_bits(c: u32, k: nat) -> u32
    decreases k,
{
    if k == 0 {
        c
    } else {
        crc_bits(crc_bit(c), (k - 1) as nat)
    }
}

/// The CRC register after the bytes of `data`, starting from `c`.
pub open spec fn crc_update(c: u32, data: Seq<u8>) -> u32
    decreases data.len(),
{
    if data.len() == 0 {
        c
    } else {
        crc_bits(crc_update(c, data.drop_last()) ^ (data.last() as u32), 8)
    }
}

/// CRC-32 of `data` as PNG computes it.
pub open spec fn crc32_of(data: Seq<u8>) -> u32 {
    !crc_update(0xFFFF_FFFF, data)
}

/// The Adler-32 sums (a, b) after `data`.
pub open spec fn adler_sums(data: Seq<u8>) -> (int, int)
    decreases data.len(),
{
    if data.len() == 0 {
        (1, 0)
    } else {
        let (a, b) = adler_sums(data.drop_last());
        let a2 = (a + data.last() as int) % 65521;
        (a2, (b + a2) % 65521)
    }
}

/// Adler-32 of `data` as zlib computes it: `b << 16 | a`.
pub open spec fn adler32_of(data: Seq<u8>) -> u32 {
    (adler_sums(data).1 * 0x1_0000 + adler_sums(data).0) as u32
}

/// CRC-32 (polynomial 0xEDB88320), used at the end of each PNG chunk.
pub fn crc32(data: &[u8]) -> (r: u32)
    ensures
        r == crc32_of(data@),
{
    let mut crc: u32 = 0xFFFF_FFFF;
    let mut i: usize = 0;
    while i < data.len()
        invariant
            i <= data@.len(),
            crc == crc_update(0xFFFF_FFFF, data@.subrange(0, i as int)),
        decreases data.len() - i,
    {
        proof {
            assert(data@.subrange(0, i + 1).drop_last() =~= data@.subrange(0, i as int));
        }
        let ghost start = crc ^ (data@[i as int] as u32);
        crc = crc ^ data[i] as u32;
        let mut k: u32 = 0;
        while k < 8
            invariant
                k <= 8,
                crc_bits(crc, (8 - k) as nat) == crc_bits(start, 8),
            decreases 8 - k,
        {
            crc = if crc % 2 == 1 { (crc / 2) ^ 0xEDB8_8320 } else { crc / 2 };
            k = k + 1;
        }
        i = i + 1;
    }
    proof {
        assert(data@.subrange(0, i as int) =~= data@);
    }
    !crc
}

/// Adler-32, the checksum of the zlib stream.
pub fn adler32(data: &[u8]) -> (r: u32)
    ensures
        r == adler32_of(data@),
{
    let mut a: u32 = 1;
    let mut b: u32 = 0;
    let mut i: usize = 0;
    while i < data.len()
        invariant
            i <= data@.len(),
            (a as int, b as int) == adler_sums(data@.subrange(0, i as int)),
            a < 65521 || i == 0,
            a >= 1 || i > 0,
            a < 65521,
            b < 65521,
        decreases data.len() - i,
    {
        proof {
            assert(data@.subrange(0, i + 1).drop_last() =~= data@.subrange(0, i as int));
        }
        a = (a + data[i] as u32) % 65521;
        b = (b + a) % 65521;
        i = i + 1;
    }
    proof {
        assert(data@.subrange(0, i as int) =~= data@);
    }
    b * 0x1_0000 + a
}

/// Big-endian bytes of a word.
pub open spec fn be32(v: u32) -> Seq<u8> {
    seq![(v / 0x100_0000) as u8, ((v / 0x1_0000) % 0x100) as u8, ((v / 0x100) % 0x100) as u8, (v % 0x100) as u8]
}

/// Little-endian bytes of a halfword.
pub open spec fn le16_bytes(v: u16) -> Seq<u8> {
    seq![(v % 0x100) as u8, (v / 0x100) as u8]
}

/// A PNG chunk: length (big-endian), type, data, and the CRC of type and
/// data.
pub open spec fn chunk_of(kind: Seq<u8>, data: Seq<u8>) -> Seq<u8> {
    be32((data.len() % 0x1_0000_0000) as u32) + kind + data + be32(crc32_of(kind + data))
}

/// The raw image data of the first `y` rows: each row is a filter byte 0
/// and the row's `4 * width` bytes.
pub open spec fn raw_rows(rgba: Seq<u8>, width: int, y: int) -> Seq<u8>
    decreases y,
{
    if y <= 0 {
        Seq::empty()
    } else {
        raw_rows(rgba, width, y - 1) + seq![0u8] + rgba.subrange((y - 1) * width * 4, y * width * 4)
    }
}

/// The length of the stored block that starts at `i`.
pub open spec fn block_len(n: int, i: int) -> int {
    if n - i < 0xFFFF {
        n - i
    } else {
        0xFFFF
    }
}

/// DEFLATE stored blocks of `raw` from offset `i`: each block has a header
/// byte (1 on the last block), its length and the length's complement
/// (little-endian), then up to 65535 bytes. An empty input is one empty
/// final block.
pub open spec fn stored_blocks(raw: Seq<u8>, i: int) -> Seq<u8>
    decreases raw.len() - i,
{
    let n = block_len(raw.len() as int, i);
    let last = i + n >= raw.len();
    let head = seq![if last { 1u8 } else { 0u8 }] + le16_bytes(n as u16) + le16_bytes((0xFFFF - n) as u16);
    if last || i < 0 {
        head + raw.subrange(i, i + n)
    } else {
        head + raw.subrange(i, i + n) + stored_blocks(raw, i + n)
    }
}

/// The zlib stream of `raw`: header 0x78 0x01, stored blocks, Adler-32.
pub open spec fn zlib_of(raw: Seq<u8>) -> Seq<u8> {
    seq![0x78u8, 0x01u8] + stored_blocks(raw, 0) + be32(adler32_of(raw))
}

/// The PNG file of a `width` x `height` RGBA8 image: signature, IHDR (8-bit
/// RGBA, no interlace), one IDAT, IEND.
pub open spec fn png_of(width: usize, height: usize, rgba: Seq<u8>) -> Seq<u8> {
    let ihdr = be32((width as int % 0x1_0000_0000) as u32) + be32((height as int % 0x1_0000_0000) as u32) + seq![8u8, 6, 0, 0, 0];
    seq![0x89u8, 0x50, 0x4E, 0x47, 0x0D, 0x0A, 0x1A, 0x0A]
        + chunk_of(seq![0x49u8, 0x48, 0x44, 0x52], ihdr)
        + chunk_of(seq![0x49u8, 0x44, 0x41, 0x54], zlib_of(raw_rows(rgba, width as int, height as int)))
        + chunk_of(seq![0x49u8, 0x45, 0x4E, 0x44], Seq::empty())
}

/// Appends `s[start..end]` to `out`.
fn extend(out: &mut Vec<u8>, s: &[u8], start: usize, end: usize)
    requires
        start <= end <= s@.len(),
    ensures
        final(out)@ == old(out)@ + s@.subrange(start as int, end as int),
{
    let mut i = start;
    while i < end
        invariant
            start <= i <= end <= s@.len(),
            out@ == old(out)@ + s@.subrange(start as int, i as int),
        decreases end - i,
    {
        out.push(s[i]);
        i = i + 1;
        assert(out@ =~= old(out)@ + s@.subrange(start as int, i as int));
    }
}

fn push_be32(out: &mut Vec<u8>, v: u32)
    ensures
        final(out)@ == old(out)@ + be32(v),
{
    out.push((v / 0x100_0000) as u8);
    out.push(((v / 0x1_0000) % 0x100) as u8);
    out.push(((v / 0x100) % 0x100) as u8);
    out.push((v % 0x100) as u8);
    assert(out@ =~= old(out)@ + be32(v));
}

/// Writes a PNG chunk to `out`.
fn write_chunk(out: &mut Vec<u8>, kind: &[u8; 4], data: &[u8])
    ensures
        final(out)@ == old(out)@ + chunk_of(kind@, data@),
{
    push_be32(out, (data.len() as u64 % 0x1_0000_0000) as u32);
    let mut kd: Vec<u8> = Vec::new();
    extend(&mut kd, kind, 0, 4);
    extend(&mut kd, data, 0, data.len());
    proof {
        assert(kind@.subrange(0, 4) =~= kind@);
        assert(data@.subrange(0, data@.len() as int) =~= data@);
        assert(kd@ =~= kind@ + data@);
    }
    let crc = crc32(kd.as_slice());
    extend(out, kd.as_slice(), 0, kd.len());
    proof {
        assert(kd@.subrange(0, kd@.len() as int) =~= kd@);
    }
    push_be32(out, crc);
    assert(out@ =~= old(out)@ + chunk_of(kind@, data@));
}

/// Encodes `width * height` RGBA8 pixels as a PNG file.
pub fn encode_rgba(width: usize, height: usize, rgba: &[u8]) -> (r: Vec<u8>)
    requires
        rgba@.len() == width * height * 4,
    ensures
        r@ == png_of(width, height, rgba@),
{
    let len = rgba.len();
    let mut raw: Vec<u8> = Vec::new();
    let mut y: usize = 0;
    while y < height
        invariant
            y <= height,
            len == rgba@.len(),
            rgba@.len() == width * height * 4,
            raw@ == raw_rows(rgba@, width as int, y as int),
        decreases height - y,
    {
        assert((y + 1) * (width * 4) <= width * height * 4 && width * 4 <= width * height * 4) by (nonlinear_arith)
            requires
                y < height,
        ;
        assert(y * (width * 4) + width * 4 == (y + 1) * (width * 4)) by (nonlinear_arith);
        assert(y * (width * 4) == y * width * 4 && (y + 1) * (width * 4) == (y + 1) * width * 4) by (nonlinear_arith);
        let row = width * 4;
        let start = y * row;
        raw.push(0);
        extend(&mut raw, rgba, start, start + row);
        y = y + 1;
        assert(raw@ =~= raw_rows(rgba@, width as int, y as int));
    }
    let mut zlib: Vec<u8> = Vec::new();
    zlib.push(0x78);
    zlib.push(0x01);
    let ghost target = seq![0x78u8, 0x01u8] + stored_blocks(raw@, 0);
    assert(zlib@ + stored_blocks(raw@, 0) =~= target);
    let mut i: usize = 0;
    loop
        invariant_except_break
            i <= raw@.len(),
            zlib@ + stored_blocks(raw@, i as int) == target,
        ensures
            zlib@ == target,
        decreases raw@.len() - i,
    {
        let chunk = if raw.len() - i < 0xFFFF { raw.len() - i } else { 0xFFFF };
        let is_final = i + chunk >= raw.len();
        let ghost before = zlib@;
        zlib.push(if is_final { 1 } else { 0 });
        zlib.push((chunk % 0x100) as u8);
        zlib.push((chunk / 0x100) as u8);
        zlib.push(((0xFFFF - chunk) % 0x100) as u8);
        zlib.push(((0xFFFF - chunk) / 0x100) as u8);
        extend(&mut zlib, raw.as_slice(), i, i + chunk);
        proof {
            let n = block_len(raw@.len() as int, i as int);
            assert(n == chunk);
            let head = seq![if is_final { 1u8 } else { 0u8 }] + le16_bytes(n as u16) + le16_bytes((0xFFFF - n) as u16);
            assert(zlib@ =~= before + head + raw@.subrange(i as int, i + chunk));
        }
        i = i + chunk;
        if is_final {
            assert(zlib@ =~= target);
            break;
        }
    }
    push_be32(&mut zlib, adler32(raw.as_slice()));
    let mut out: Vec<u8> = Vec::new();
    out.push(0x89);
    out.push(0x50);
    out.push(0x4E);
    out.push(0x47);
    out.push(0x0D);
    out.push(0x0A);
    out.push(0x1A);
    out.push(0x0A);
    let mut ihdr: Vec<u8> = Vec::new();
    push_be32(&mut ihdr, (width as u64 % 0x1_0000_0000) as u32);
    push_be32(&mut ihdr, (height as u64 % 0x1_0000_0000) as u32);
    ihdr.push(8);
    ihdr.push(6);
    ihdr.push(0);
    ihdr.push(0);
    ihdr.push(0);
    write_chunk(&mut out, &[0x49, 0x48, 0x44, 0x52], ihdr.as_slice());
    write_chunk(&mut out, &[0x49, 0x44, 0x41, 0x54], zlib.as_slice());
    write_chunk(&mut out, &[0x49, 0x45, 0x4E, 0x44], &[]);
    proof {
        let ih = be32((width as int % 0x1_0000_0000) as u32) + be32((height as int % 0x1_0000_0000) as u32) + seq![8u8, 6, 0, 0, 0];
        assert(ihdr@ =~= ih);
        assert(zlib@ =~= zlib_of(raw@));
    }
    assert(out@ =~= png_of(width, height, rgba@));
    out
}

} // verus!
