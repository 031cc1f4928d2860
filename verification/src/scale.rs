//! Pixel-art upscale filters (the HQx family), an alternative to the
//! post-processing shaders.
//!
//! Takes the RGBA8 framebuffer (bytes `[R, G, B, A]`) and returns an image
//! enlarged by an integer factor (2x, 3x, 4x). The magnification itself is
//! the `hqx` crate's; this module packs pixels into the `0xAARRGGBB` words
//! that `hqx` works on and unpacks the result.
use vstd::prelude::*;
use crate::text::str_eq;

verus! {

/// The selected upscale filter.
#[derive(Debug, Clone, Copy, PartialEq, Eq, Structural)]
pub enum Upscale {
    Off,
    Hq2x,
    Hq3x,
    Hq4x,
}

/// The magnification factor of a filter (1 without filter).
pub open spec fn factor_of(u: Upscale) -> usize {
    match u {
        Upscale::Off => 1,
        Upscale::Hq2x => 2,
        Upscale::Hq3x => 3,
        Upscale::Hq4x => 4,
    }
}

/// The stable key of a filter, for settings files.
pub open spec fn key_of(u: Upscale) -> Seq<char> {
    match u {
        Upscale::Off => "off"@,
        Upscale::Hq2x => "hq2x"@,
        Upscale::Hq3x => "hq3x"@,
        Upscale::Hq4x => "hq4x"@,
    }
}

/// The filter whose key is `k` (no filter for an unknown key).
pub open spec fn filter_of_key(k: Seq<char>) -> Upscale {
    if k == "hq2x"@ {
        Upscale::Hq2x
    } else if k == "hq3x"@ {
        Upscale::Hq3x
    } else if k == "hq4x"@ {
        Upscale::Hq4x
    } else {
        Upscale::Off
    }
}

/// Law of the settings keys: each filter's key leads back to the filter.
pub proof fn law_key_round_trip(u: Upscale)
    ensures
        filter_of_key(key_of(u)) == u,
{
    reveal_strlit("off");
    reveal_strlit("hq2x");
    reveal_strlit("hq3x");
    reveal_strlit("hq4x");
    assert("off"@.len() != "hq2x"@.len() && "off"@.len() != "hq3x"@.len() && "off"@.len() != "hq4x"@.len());
    assert("hq2x"@[2] != "hq3x"@[2] && "hq2x"@[2] != "hq4x"@[2] && "hq3x"@[2] != "hq4x"@[2]);
}

impl Default for Upscale {
    fn default() -> (r: Upscale)
        ensures
            r == Upscale::Off,
    {
        Upscale::Off
    }
}

impl Upscale {
    /// Every filter, in display order (no filter first).
    pub fn all() -> (r: [Upscale; 4])
        ensures
            r@ == seq![Upscale::Off, Upscale::Hq2x, Upscale::Hq3x, Upscale::Hq4x],
    {
        let r = [Upscale::Off, Upscale::Hq2x, Upscale::Hq3x, Upscale::Hq4x];
        assert(r@ =~= seq![Upscale::Off, Upscale::Hq2x, Upscale::Hq3x, Upscale::Hq4x]);
        r
    }

    /// The integer magnification factor (1 without filter).
    pub fn factor(self) -> (r: usize)
        ensures
            r == factor_of(self),
    {
        match self {
            Upscale::Off => 1,
            Upscale::Hq2x => 2,
            Upscale::Hq3x => 3,
            Upscale::Hq4x => 4,
        }
    }

    /// A display label.
    pub fn label(self) -> (r: &'static str)
        ensures
            self == Upscale::Off ==> r@ == "Nenhum"@,
            self == Upscale::Hq2x ==> r@ == "HQ2x"@,
            self == Upscale::Hq3x ==> r@ == "HQ3x"@,
            self == Upscale::Hq4x ==> r@ == "HQ4x"@,
    {
        match self {
            Upscale::Off => "Nenhum",
            Upscale::Hq2x => "HQ2x",
            Upscale::Hq3x => "HQ3x",
            Upscale::Hq4x => "HQ4x",
        }
    }

    /// The stable key for persistence.
    pub fn key(self) -> (r: &'static str)
        ensures
            r@ == key_of(self),
    {
        match self {
            Upscale::Off => "off",
            Upscale::Hq2x => "hq2x",
            Upscale::Hq3x => "hq3x",
            Upscale::Hq4x => "hq4x",
        }
    }

    /// The filter with key `s`; no filter for an unknown key.
    pub fn from_key(s: &str) -> (r: Upscale)
        ensures
            r == filter_of_key(s@),
    {
        let all = Upscale::all();
        proof {
            reveal_strlit("off");
            reveal_strlit("hq2x");
            reveal_strlit("hq3x");
            reveal_strlit("hq4x");
        }
        let mut i: usize = 0;
        while i < 4
            invariant
                i <= 4,
                all@ == seq![Upscale::Off, Upscale::Hq2x, Upscale::Hq3x, Upscale::Hq4x],
                forall|j: int| 0 <= j < i ==> key_of(all@[j]) != s@,
            decreases 4 - i,
        {
            if str_eq(all[i].key(), s) {
                proof {
                    law_key_round_trip(all@[i as int]);
                }
                return all[i];
            }
            i = i + 1;
        }
        Upscale::Off
    }

    /// The filter of an integer factor (2, 3, 4); any other value gives no
    /// filter.
    pub fn from_factor(f: i32) -> (r: Upscale)
        ensures
            r == if f == 2 {
                Upscale::Hq2x
            } else if f == 3 {
                Upscale::Hq3x
            } else if f == 4 {
                Upscale::Hq4x
            } else {
                Upscale::Off
            },
    {
        match f {
            2 => Upscale::Hq2x,
            3 => Upscale::Hq3x,
            4 => Upscale::Hq4x,
            _ => Upscale::Off,
        }
    }
}

/// What `hqx::hq2x` writes into a destination of exactly
/// `4 * width * height` pixels from a source of `width * height` pixels.
pub uninterp spec fn hq2x_pixels(src: Seq<u32>, width: u32, height: u32) -> Seq<u32>;

/// What `hqx::hq3x` writes into a destination of exactly
/// `9 * width * height` pixels.
pub uninterp spec fn hq3x_pixels(src: Seq<u32>, width: u32, height: u32) -> Seq<u32>;

/// What `hqx::hq4x` writes into a destination of exactly
/// `16 * width * height` pixels.
pub uninterp spec fn hq4x_pixels(src: Seq<u32>, width: u32, height: u32) -> Seq<u32>;

/// Trusted: calls `hqx::hq2x`. The source holds the pixels read and the
/// destination exactly the `4 * width * height` pixels written (tight
/// rows), which is where `hqx` does not panic; every destination pixel is
/// written, so the result is named as a function of the source and the
/// dimensions, and the length is kept.
#[verifier::external_body]
fn hq2x_into(src: &[u32], dest: &mut Vec<u32>, width: u32, height: u32)
    requires
        src@.len() >= width * height,
        old(dest)@.len() == 4 * width * height,
        width * 2 <= usize::MAX,
    ensures
        final(dest)@ == hq2x_pixels(src@, width, height),
        final(dest)@.len() == old(dest)@.len(),
{
    hqx::hq2x(src, dest.as_mut_slice(), width, height)
}

/// Trusted: calls `hqx::hq3x` (see `hq2x_into`; 9 pixels per source pixel).
#[verifier::external_body]
fn hq3x_into(src: &[u32], dest: &mut Vec<u32>, width: u32, height: u32)
    requires
        src@.len() >= width * height,
        old(dest)@.len() == 9 * width * height,
        width * 3 <= usize::MAX,
    ensures
        final(dest)@ == hq3x_pixels(src@, width, height),
        final(dest)@.len() == old(dest)@.len(),
{
    hqx::hq3x(src, dest.as_mut_slice(), width, height)
}

/// Trusted: calls `hqx::hq4x` (see `hq2x_into`; 16 pixels per source pixel).
#[verifier::external_body]
fn hq4x_into(src: &[u32], dest: &mut Vec<u32>, width: u32, height: u32)
    requires
        src@.len() >= width * height,
        old(dest)@.len() == 16 * width * height,
        width * 4 <= usize::MAX,
    ensures
        final(dest)@ == hq4x_pixels(src@, width, height),
        final(dest)@.len() == old(dest)@.len(),
{
    hqx::hq4x(src, dest.as_mut_slice(), width, height)
}

/// An RGBA8 pixel `[R, G, B, A]` as the word `0xAARRGGBB`.
pub open spec fn pack(r: u8, g: u8, b: u8, a: u8) -> u32 {
    (a as int * 0x100_0000 + r as int * 0x1_0000 + g as int * 0x100 + b as int) as u32
}

/// The first `n` RGBA8 pixels of `src` as `0xAARRGGBB` words.
pub open spec fn packed(src: Seq<u8>, n: int) -> Seq<u32> {
    Seq::new(n as nat, |i: int| pack(src[4 * i], src[4 * i + 1], src[4 * i + 2], src[4 * i + 3]))
}

/// Byte `k` of the RGBA8 image of `0xAARRGGBB` words.
pub open spec fn unpacked_byte(px: Seq<u32>, k: int) -> u8 {
    let w = px[k / 4];
    let c = k % 4;
    (if c == 0 {
        (w / 0x1_0000) % 256
    } else if c == 1 {
        (w / 0x100) % 256
    } else if c == 2 {
        w % 256
    } else {
        w / 0x100_0000
    }) as u8
}

/// The RGBA8 bytes of `0xAARRGGBB` words.
pub open spec fn unpacked(px: Seq<u32>) -> Seq<u8> {
    Seq::new(px.len() * 4, |k: int| unpacked_byte(px, k))
}

/// The pixels a filter produces from packed source pixels.
pub open spec fn filtered(filter: Upscale, src: Seq<u32>, w: u32, h: u32) -> Seq<u32> {
    match filter {
        Upscale::Hq2x => hq2x_pixels(src, w, h),
        Upscale::Hq3x => hq3x_pixels(src, w, h),
        Upscale::Hq4x => hq4x_pixels(src, w, h),
        Upscale::Off => src,
    }
}

/// Packs the first `n` RGBA8 pixels of `src` into `0xAARRGGBB` words.
pub fn pack_pixels(src: &[u8], n: usize) -> (r: Vec<u32>)
    requires
        4 * n <= src@.len(),
    ensures
        r@ == packed(src@, n as int),
{
    let len = src.len();
    let mut r: Vec<u32> = Vec::new();
    let mut i: usize = 0;
    while i < n
        invariant
            i <= n,
            len == src@.len(),
            4 * n <= src@.len(),
            r@ == packed(src@, i as int),
        decreases n - i,
    {
        let k = 4 * i;
        let v = src[k + 3] as u32 * 0x100_0000 + src[k] as u32 * 0x1_0000 + src[k + 1] as u32 * 0x100
            + src[k + 2] as u32;
        r.push(v);
        i = i + 1;
        assert(r@ =~= packed(src@, i as int));
    }
    r
}

/// Unpacks `0xAARRGGBB` words into RGBA8 bytes, replacing `out`.
pub fn unpack_pixels(px: &[u32], out: &mut Vec<u8>)
    requires
        px@.len() * 4 <= usize::MAX,
    ensures
        final(out)@ == unpacked(px@),
{
    out.clear();
    let mut i: usize = 0;
    while i < px.len()
        invariant
            i <= px@.len(),
            px@.len() * 4 <= usize::MAX,
            out@ == unpacked(px@).subrange(0, 4 * i as int),
        decreases px.len() - i,
    {
        let w = px[i];
        out.push(((w / 0x1_0000) % 256) as u8);
        out.push(((w / 0x100) % 256) as u8);
        out.push((w % 256) as u8);
        out.push((w / 0x100_0000) as u8);
        proof {
            assert forall|d: int| 0 <= d < 4 implies (#[trigger] ((4 * i + d) / 4)) == i && (4 * i + d) % 4 == d by {}
        }
        i = i + 1;
        assert(out@ =~= unpacked(px@).subrange(0, 4 * i as int));
    }
    assert(out@ =~= unpacked(px@));
}

/// Upscales framebuffers, reusing its intermediate buffers between frames.
pub struct Scaler {
    src_u32: Vec<u32>,
    dst_u32: Vec<u32>,
}

impl Default for Scaler {
    fn default() -> (r: Scaler) {
        Scaler::new()
    }
}

impl Scaler {
    /// Neither buffer holds anything yet.
    pub closed spec fn is_empty(self) -> bool {
        self.src_u32@.len() == 0 && self.dst_u32@.len() == 0
    }

    /// A scaler whose buffers are still empty.
    pub fn new() -> (r: Scaler)
        ensures
            r.is_empty(),
    {
        Scaler { src_u32: Vec::new(), dst_u32: Vec::new() }
    }

    /// Upscales `src` (RGBA8, `w` x `h`) by `filter` into `out` and returns
    /// the output dimensions. Without filter `src` is copied as it is.
    pub fn scale(&mut self, filter: Upscale, src: &[u8], w: usize, h: usize, out: &mut Vec<u8>) -> (r: (usize, usize))
        requires
            filter != Upscale::Off ==> {
                &&& w <= u32::MAX && h <= u32::MAX
                &&& w * h * 4 <= src@.len()
                &&& w * h * 64 <= usize::MAX
                &&& w * 4 <= usize::MAX && h * 4 <= usize::MAX
            },
        ensures
            filter == Upscale::Off ==> r == (w, h) && final(out)@ == src@,
            filter != Upscale::Off ==> r.0 == w * factor_of(filter) && r.1 == h * factor_of(filter) && final(out)@ == unpacked(
                filtered(filter, packed(src@, w * h), w as u32, h as u32),
            ),
    {
        if filter == Upscale::Off {
            out.clear();
            let mut i: usize = 0;
            while i < src.len()
                invariant
                    i <= src@.len(),
                    out@ == src@.subrange(0, i as int),
                decreases src.len() - i,
            {
                out.push(src[i]);
                i = i + 1;
                assert(out@ =~= src@.subrange(0, i as int));
            }
            assert(out@ =~= src@);
            return (w, h);
        }
        let f = filter.factor();
        assert(w * h * f * f <= w * h * 16) by (nonlinear_arith)
            requires
                1 <= f <= 4,
        ;
        assert(w * f * (h * f) == w * h * f * f) by (nonlinear_arith);
        assert(w * f <= w * 4 && h * f <= h * 4) by (nonlinear_arith)
            requires
                1 <= f <= 4,
        ;
        let ow = w * f;
        let oh = h * f;
        let n = w * h;
        self.src_u32 = pack_pixels(src, n);
        let mut dst: Vec<u32> = Vec::new();
        let cells = ow * oh;
        let mut i: usize = 0;
        while i < cells
            invariant
                i <= cells,
                dst@.len() == i,
            decreases cells - i,
        {
            dst.push(0);
            i = i + 1;
        }
        let wu = w as u32;
        let hu = h as u32;
        assert(cells == f * f * (wu as int) * (hu as int)) by (nonlinear_arith)
            requires
                cells == ow * oh,
                ow == w * f,
                oh == h * f,
                wu == w,
                hu == h,
        ;
        if f == 2 {
            assert(cells == 4 * (wu as int) * (hu as int)) by (nonlinear_arith)
                requires
                    cells == f * f * (wu as int) * (hu as int),
                    f == 2,
            ;
            hq2x_into(&self.src_u32, &mut dst, wu, hu);
        } else if f == 3 {
            assert(cells == 9 * (wu as int) * (hu as int)) by (nonlinear_arith)
                requires
                    cells == f * f * (wu as int) * (hu as int),
                    f == 3,
            ;
            hq3x_into(&self.src_u32, &mut dst, wu, hu);
        } else {
            assert(cells == 16 * (wu as int) * (hu as int)) by (nonlinear_arith)
                requires
                    cells == f * f * (wu as int) * (hu as int),
                    f == 4,
            ;
            hq4x_into(&self.src_u32, &mut dst, wu, hu);
        }
        unpack_pixels(&dst, out);
        self.dst_u32 = dst;
        (ow, oh)
    }
}

} // verus!
