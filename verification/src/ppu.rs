//! PPU: the Picture Processing Unit.
//!
//! A scanline state machine (HBlank, VBlank and VCount interrupts) and the
//! renderer: tiled backgrounds in modes 0-2 (text and affine, composed by
//! priority), bitmaps in modes 3-5, and sprites (OBJ).
//!
//! Timing (one dot is four CPU cycles): 240 dots of HDraw and 68 of HBlank
//! make 1232 cycles per scanline; 160 visible scanlines and 68 of VBlank make
//! 228 scanlines, 280 896 cycles per frame.
use vstd::prelude::*;
use crate::io::irq_bits;

verus! {

pub const CYCLES_PER_SCANLINE: u32 = 1232;
pub const HDRAW_CYCLES: u32 = 960;
pub const TOTAL_SCANLINES: u16 = 228;
pub const VISIBLE_SCANLINES: u16 = 160;

/// Width and height of the screen, and the framebuffer size (RGBA8).
pub const WIDTH: usize = 240;
pub const HEIGHT: usize = 160;
pub const FRAMEBUFFER_LEN: usize = 153_600;

pub const DISPSTAT_VBLANK_FLAG: u16 = 1;
pub const DISPSTAT_HBLANK_FLAG: u16 = 2;
pub const DISPSTAT_VCOUNT_FLAG: u16 = 4;
pub const DISPSTAT_VBLANK_IRQ: u16 = 8;
pub const DISPSTAT_HBLANK_IRQ: u16 = 0x10;
pub const DISPSTAT_VCOUNT_IRQ: u16 = 0x20;

/// Start of the OBJ tiles in VRAM, and of the OBJ palette (colour 256).
pub const OBJ_TILE_BASE: usize = 0x1_0000;
pub const OBJ_PAL_BASE: usize = 0x100;

pub struct Ppu {
    /// RGBA8 framebuffer, 240 x 160.
    pub framebuffer: Vec<u8>,
    pub dispcnt: u16,
    pub dispstat: u16,
    pub vcount: u16,
    /// BG0CNT..BG3CNT.
    pub bgcnt: [u16; 4],
    /// Text background scroll (9 bits each).
    pub bg_hofs: [u16; 4],
    pub bg_vofs: [u16; 4],
    /// Affine parameters of BG2 (index 0) and BG3 (index 1), fixed point 1.7.8.
    pub bg_pa: [i16; 2],
    pub bg_pb: [i16; 2],
    pub bg_pc: [i16; 2],
    pub bg_pd: [i16; 2],
    /// Reference points (28-bit signed, 1.19.8): register value and the
    /// internal copy advanced every scanline.
    pub bg_ref_x: [i32; 2],
    pub bg_ref_y: [i32; 2],
    pub bg_cur_x: [i32; 2],
    pub bg_cur_y: [i32; 2],
    /// Cycles into the current scanline.
    pub cycles: u32,
    /// The current scanline has entered HBlank.
    pub in_hblank: bool,
}

/// What a `tick` produced: interrupts to raise and phase events for DMA.
pub struct TickResult {
    /// IF bits to raise.
    pub irqs: u16,
    /// HBlank of a visible scanline was entered (HBlank DMA).
    pub entered_hblank: bool,
    /// VBlank was entered (scanline 160; VBlank DMA).
    pub entered_vblank: bool,
}

impl Default for TickResult {
    fn default() -> (r: TickResult)
        ensures
            r.irqs == 0 && !r.entered_hblank && !r.entered_vblank,
    {
        TickResult { irqs: 0, entered_hblank: false, entered_vblank: false }
    }
}

/// The PPU registers: everything the renderer and the timing read, without
/// the framebuffer.
#[derive(Clone, Copy)]
pub struct PpuRegs {
    pub dispcnt: u16,
    pub dispstat: u16,
    pub vcount: u16,
    pub bgcnt: [u16; 4],
    pub bg_hofs: [u16; 4],
    pub bg_vofs: [u16; 4],
    pub bg_pa: [i16; 2],
    pub bg_pb: [i16; 2],
    pub bg_pc: [i16; 2],
    pub bg_pd: [i16; 2],
    pub bg_ref_x: [i32; 2],
    pub bg_ref_y: [i32; 2],
    pub bg_cur_x: [i32; 2],
    pub bg_cur_y: [i32; 2],
    pub cycles: u32,
    pub in_hblank: bool,
}

// ───────────────────────────── colours ─────────────────────────────

/// A 5-bit component widened to 8 bits: `(v << 3) | (v >> 2)`.
pub open spec fn expand5(v: int) -> u8 {
    (v * 8 + v / 4) as u8
}

/// BGR555 to RGBA8 (opaque).
pub open spec fn rgba_of(c: u16) -> [u8; 4] {
    [expand5(c as int % 32), expand5((c as int / 32) % 32), expand5((c as int / 1024) % 32), 0xFFu8]
}

/// Little-endian halfword at `off`.
pub open spec fn le16(s: Seq<u8>, off: int) -> u16 {
    (s[off] as int + s[off + 1] as int * 256) as u16
}

/// Palette colour `idx`; black when the palette is too short.
pub open spec fn pal_color(pal: Seq<u8>, idx: int) -> [u8; 4] {
    if idx * 2 + 1 >= pal.len() {
        [0u8, 0u8, 0u8, 0xFFu8]
    } else {
        rgba_of(le16(pal, idx * 2))
    }
}

/// Converts BGR555 to RGBA8, widening each 5-bit component with
/// `(v << 3) | (v >> 2)`.
pub fn bgr555_to_rgba8(c: u16) -> (r: [u8; 4])
    ensures
        r == rgba_of(c),
{
    let r = c % 32;
    let g = (c / 32) % 32;
    let b = (c / 1024) % 32;
    [(r * 8 + r / 4) as u8, (g * 8 + g / 4) as u8, (b * 8 + b / 4) as u8, 0xFF]
}

fn read_le16(s: &[u8], off: usize) -> (r: u16)
    requires
        off + 1 < s@.len(),
    ensures
        r == le16(s@, off as int),
{
    (s[off] as u16) + (s[off + 1] as u16) * 256
}

fn palette_color(pal: &[u8], idx: usize) -> (r: [u8; 4])
    requires
        idx < 0x1_0000,
    ensures
        r == pal_color(pal@, idx as int),
{
    let off = idx * 2;
    if off + 1 >= pal.len() {
        return [0, 0, 0, 0xFF];
    }
    bgr555_to_rgba8(read_le16(pal, off))
}

// ───────────────────────────── backgrounds ─────────────────────────────

/// Width and height in pixels of a text background of size `size`.
pub open spec fn text_dims(size: int) -> (int, int) {
    if size == 0 {
        (256, 256)
    } else if size == 1 {
        (512, 256)
    } else if size == 2 {
        (256, 512)
    } else {
        (512, 512)
    }
}

/// Screen block of a map position in a text background of size `size`.
pub open spec fn text_block(size: int, map_x: int, map_y: int) -> int {
    if size == 0 {
        0
    } else if size == 1 {
        map_x / 32
    } else if size == 2 {
        map_y / 32
    } else {
        (map_y / 32) * 2 + map_x / 32
    }
}

/// Colour index of a text background at screen pixel (x, y), 0 when
/// transparent or outside VRAM.
#[verifier::opaque]
pub open spec fn text_index(p: PpuRegs, bg: int, y: int, x: int, vram: Seq<u8>) -> int {
    let cnt = p.bgcnt[bg] as int;
    let char_base = ((cnt / 4) % 4) * 0x4000;
    let is_8bpp = (cnt / 128) % 2 == 1;
    let screen_base = ((cnt / 256) % 32) * 0x800;
    let size = cnt / 0x4000;
    let (width, height) = text_dims(size);
    let hofs = p.bg_hofs[bg] as int % 512;
    let vofs = p.bg_vofs[bg] as int % 512;
    let by = (y + vofs) % height;
    let map_y = by / 8;
    let py = by % 8;
    let bx = (x + hofs) % width;
    let map_x = bx / 8;
    let entry_addr = screen_base + text_block(size, map_x, map_y) * 0x800 + ((map_y % 32) * 32 + map_x
        % 32) * 2;
    if entry_addr + 1 >= vram.len() {
        0
    } else {
        let entry = le16(vram, entry_addr) as int;
        let tile = entry % 1024;
        let hflip = (entry / 1024) % 2 == 1;
        let vflip = (entry / 2048) % 2 == 1;
        let pal_bank = entry / 4096;
        let fx = if hflip { 7 - bx % 8 } else { bx % 8 };
        let fy = if vflip { 7 - py } else { py };
        if is_8bpp {
            let addr = char_base + tile * 64 + fy * 8 + fx;
            if addr >= vram.len() {
                0
            } else {
                vram[addr] as int
            }
        } else {
            let addr = char_base + tile * 32 + fy * 4 + fx / 2;
            if addr >= vram.len() {
                0
            } else {
                let byte = vram[addr] as int;
                let nibble = if fx % 2 == 0 { byte % 16 } else { byte / 16 };
                if nibble == 0 {
                    0
                } else {
                    pal_bank * 16 + nibble
                }
            }
        }
    }
}

/// The fields of a map entry with low byte `lo` and high byte `hi`: the
/// tile number (bits 0-9), the flip bits 10 and 11, the palette bank.
proof fn lemma_entry_fields(lo: u8, hi: u8)
    ensures
        ({
            let e = lo as int + hi as int * 256;
            &&& e % 1024 == lo as int + (hi as int % 4) * 256
            &&& (e / 1024) % 2 == (hi as int / 4) % 2
            &&& (e / 2048) % 2 == (hi as int / 8) % 2
            &&& e / 4096 == hi as int / 16
        }),
{
    let e = lo as int + hi as int * 256;
    let h = hi as int;
    vstd::arithmetic::div_mod::lemma_fundamental_div_mod(h, 4);
    vstd::arithmetic::div_mod::lemma_fundamental_div_mod(h, 8);
    vstd::arithmetic::div_mod::lemma_fundamental_div_mod(h, 16);
    vstd::arithmetic::div_mod::lemma_fundamental_div_mod_converse(e, 1024, h / 4, lo as int + (h % 4) * 256);
    vstd::arithmetic::div_mod::lemma_fundamental_div_mod_converse(e, 2048, h / 8, lo as int + (h % 8) * 256);
    vstd::arithmetic::div_mod::lemma_fundamental_div_mod_converse(e, 4096, h / 16, lo as int + (h % 16) * 256);
}

/// Toggling bit 2 or bit 3 of a byte flips that bit and keeps the others.
proof fn lemma_toggle_bits(hi: u8)
    ensures
        (hi ^ 4u8) % 4 == hi % 4,
        ((hi ^ 4u8) / 4) % 2 != (hi / 4) % 2,
        ((hi ^ 4u8) / 8) % 2 == (hi / 8) % 2,
        (hi ^ 4u8) / 16 == hi / 16,
        (hi ^ 8u8) % 4 == hi % 4,
        ((hi ^ 8u8) / 4) % 2 == (hi / 4) % 2,
        ((hi ^ 8u8) / 8) % 2 != (hi / 8) % 2,
        (hi ^ 8u8) / 16 == hi / 16,
{
    assert((hi ^ 4u8) % 4 == hi % 4 && ((hi ^ 4u8) / 4) % 2 != (hi / 4) % 2 && ((hi ^ 4u8) / 8) % 2 == (hi / 8) % 2 && (hi
        ^ 4u8) / 16 == hi / 16) by (bit_vector);
    assert((hi ^ 8u8) % 4 == hi % 4 && ((hi ^ 8u8) / 4) % 2 == (hi / 4) % 2 && ((hi ^ 8u8) / 8) % 2 != (hi / 8) % 2 && (hi
        ^ 8u8) / 16 == hi / 16) by (bit_vector);
}

/// The colour index of pixel (`col`, `row`) of the tile that map entry `e`
/// names, before any flip is applied by the caller: `col` and `row` are
/// the tile coordinates read.
pub open spec fn tile_pixel(v: Seq<u8>, char_base: int, is_8bpp: bool, e: int, col: int, row: int) -> int {
    let tile = e % 1024;
    let pal_bank = e / 4096;
    if is_8bpp {
        let addr = char_base + tile * 64 + row * 8 + col;
        if addr >= v.len() {
            0
        } else {
            v[addr] as int
        }
    } else {
        let addr = char_base + tile * 32 + row * 4 + col / 2;
        if addr >= v.len() {
            0
        } else {
            let byte = v[addr] as int;
            let nibble = if col % 2 == 0 { byte % 16 } else { byte / 16 };
            if nibble == 0 {
                0
            } else {
                pal_bank * 16 + nibble
            }
        }
    }
}

/// The map entry address of screen pixel (x, y) in a 256x256 text
/// background without scrolling.
pub open spec fn plain_entry_addr(p: PpuRegs, bg: int, y: int, x: int) -> int {
    ((p.bgcnt[bg] as int / 256) % 32) * 0x800 + ((y / 8) * 32 + x / 8) * 2
}

/// A 256x256 text background without scrolling.
pub open spec fn plain_text_bg(p: PpuRegs, bg: int) -> bool {
    &&& 0 <= bg < 4
    &&& p.bgcnt[bg] < 0x4000
    &&& p.bg_hofs[bg] % 512 == 0
    &&& p.bg_vofs[bg] % 512 == 0
}

/// A pixel of a 256x256 text background without scrolling: the tile pixel
/// its map entry selects, mirrored by the entry's flip bits.
#[verifier::rlimit(60)]
#[verifier::spinoff_prover]
proof fn lemma_plain_text_index(p: PpuRegs, bg: int, y: int, x: int, v: Seq<u8>)
    requires
        plain_text_bg(p, bg),
        0 <= x < 256,
        0 <= y < 256,
        plain_entry_addr(p, bg, y, x) + 1 < v.len(),
    ensures
        ({
            let cnt = p.bgcnt[bg] as int;
            let e = le16(v, plain_entry_addr(p, bg, y, x)) as int;
            let col = if (e / 1024) % 2 == 1 { 7 - x % 8 } else { x % 8 };
            let row = if (e / 2048) % 2 == 1 { 7 - y % 8 } else { y % 8 };
            text_index(p, bg, y, x, v) == tile_pixel(v, ((cnt / 4) % 4) * 0x4000, (cnt / 128) % 2 == 1, e, col, row)
        }),
{
    reveal(text_index);
    let cnt = p.bgcnt[bg] as int;
    assert(cnt / 0x4000 == 0);
    assert(text_dims(0) == (256int, 256int));
    assert(p.bg_hofs[bg] as int % 512 == 0 && p.bg_vofs[bg] as int % 512 == 0);
    assert((x + 0) % 256 == x && (y + 0) % 256 == y);
    assert(text_block(0, x / 8, y / 8) == 0);
    assert((y / 8) % 32 == y / 8 && (x / 8) % 32 == x / 8);
    assert(((cnt / 256) % 32) * 0x800 + text_block(0, x / 8, y / 8) * 0x800 + ((y / 8 % 32) * 32 + x / 8 % 32) * 2
        == plain_entry_addr(p, bg, y, x));
}

/// Law: in a text background, bit 10 of a map entry mirrors its tile
/// horizontally and bit 11 vertically. Toggling bit 10 of the entry under
/// screen pixel (x, y) makes that pixel show what the pixel mirrored within
/// its tile column (7 - x % 8) showed before, on the same row; toggling bit
/// 11 makes it show the pixel of the mirrored row (7 - y % 8) in the same
/// column. Stated for a 256x256 background without scrolling whose map
/// entry does not lie inside the tile it names.
#[verifier::rlimit(80)]
#[verifier::spinoff_prover]
pub proof fn law_text_flip_bits(p: PpuRegs, bg: int, y: int, x: int, v: Seq<u8>)
    requires
        plain_text_bg(p, bg),
        0 <= x < 240,
        0 <= y < 256,
        v.len() == 0x1_8000,
        ({
            let cnt = p.bgcnt[bg] as int;
            let char_base = ((cnt / 4) % 4) * 0x4000;
            let ea = plain_entry_addr(p, bg, y, x);
            let tile = le16(v, ea) as int % 1024;
            &&& ea + 1 < v.len()
            &&& (ea + 1 < char_base + tile * 32 || ea + 1 >= char_base + tile * 64 + 64)
        }),
    ensures
        ({
            let ea = plain_entry_addr(p, bg, y, x);
            &&& text_index(p, bg, y, x, v.update(ea + 1, v[ea + 1] ^ 4u8)) == text_index(
                p,
                bg,
                y,
                x - x % 8 + 7 - x % 8,
                v,
            )
            &&& text_index(p, bg, y, x, v.update(ea + 1, v[ea + 1] ^ 8u8)) == text_index(
                p,
                bg,
                y - y % 8 + 7 - y % 8,
                x,
                v,
            )
        }),
{
    let cnt = p.bgcnt[bg] as int;
    let cb = ((cnt / 4) % 4) * 0x4000;
    let is8 = (cnt / 128) % 2 == 1;
    let ea = plain_entry_addr(p, bg, y, x);
    let xm = x - x % 8 + 7 - x % 8;
    let ym = y - y % 8 + 7 - y % 8;
    assert(xm / 8 == x / 8 && xm % 8 == 7 - x % 8 && 0 <= xm < 240) by {
        vstd::arithmetic::div_mod::lemma_fundamental_div_mod(x, 8);
        vstd::arithmetic::div_mod::lemma_fundamental_div_mod_converse(xm, 8, x / 8, 7 - x % 8);
    }
    assert(ym / 8 == y / 8 && ym % 8 == 7 - y % 8 && 0 <= ym < 256) by {
        vstd::arithmetic::div_mod::lemma_fundamental_div_mod(y, 8);
        vstd::arithmetic::div_mod::lemma_fundamental_div_mod_converse(ym, 8, y / 8, 7 - y % 8);
    }
    assert(plain_entry_addr(p, bg, y, xm) == ea && plain_entry_addr(p, bg, ym, x) == ea);
    let lo = v[ea];
    let hi = v[ea + 1];
    lemma_entry_fields(lo, hi);
    lemma_entry_fields(lo, hi ^ 4u8);
    lemma_entry_fields(lo, hi ^ 8u8);
    lemma_toggle_bits(hi);
    let v4 = v.update(ea + 1, hi ^ 4u8);
    let v8 = v.update(ea + 1, hi ^ 8u8);
    let e = le16(v, ea) as int;
    let e4 = le16(v4, ea) as int;
    let e8 = le16(v8, ea) as int;
    assert(e == lo as int + hi as int * 256);
    assert(e4 == lo as int + (hi ^ 4u8) as int * 256);
    assert(e8 == lo as int + (hi ^ 8u8) as int * 256);
    lemma_plain_text_index(p, bg, y, x, v4);
    lemma_plain_text_index(p, bg, y, xm, v);
    lemma_plain_text_index(p, bg, y, x, v8);
    lemma_plain_text_index(p, bg, ym, x, v);
    lemma_tile_pixel_same(v, v4, cb, is8, e, e4, ea + 1);
    lemma_tile_pixel_same(v, v8, cb, is8, e, e8, ea + 1);
}

/// Two VRAM images that differ at one byte outside the tile, and two map
/// entries naming the same tile and palette bank, give the same tile pixels.
proof fn lemma_tile_pixel_same(v: Seq<u8>, w: Seq<u8>, cb: int, is8: bool, e: int, e2: int, at: int)
    requires
        0 <= cb,
        0 <= e,
        0 <= e2,
        v.len() == w.len(),
        0 <= at < v.len(),
        forall|i: int| 0 <= i < v.len() && i != at ==> v[i] == w[i],
        e % 1024 == e2 % 1024,
        e / 4096 == e2 / 4096,
        at < cb + (e % 1024) * 32 || at >= cb + (e % 1024) * 64 + 64,
    ensures
        forall|col: int, row: int|
            0 <= col < 8 && 0 <= row < 8 ==> #[trigger] tile_pixel(w, cb, is8, e2, col, row) == tile_pixel(
                v,
                cb,
                is8,
                e,
                col,
                row,
            ),
{
}

/// Texture coordinate after `n` steps of `step` from `start` (wrapping).
pub open spec fn affine_walk(start: i32, step: i32, n: nat) -> i32
    decreases n,
{
    if n == 0 {
        start
    } else {
        vstd::wrapping::i32_specs::wrapping_add(affine_walk(start, step, (n - 1) as nat), step)
    }
}

/// Colour index of an affine background (always 8 bpp) at the texture
/// point (tex_x, tex_y), 1.19.8 fixed point.
#[verifier::opaque]
pub open spec fn affine_index_at(p: PpuRegs, bg: int, tex_x: i32, tex_y: i32, vram: Seq<u8>) -> int {
    let cnt = p.bgcnt[bg] as int;
    let char_base = ((cnt / 4) % 4) * 0x4000;
    let screen_base = ((cnt / 256) % 32) * 0x800;
    let wrap = (cnt / 0x2000) % 2 == 1;
    let size = cnt / 0x4000;
    let dim = if size == 0 { 128int } else if size == 1 { 256 } else if size == 2 { 512 } else { 1024 };
    let sx = tex_x as int / 256;
    let sy = tex_y as int / 256;
    if !wrap && (sx < 0 || sy < 0 || sx >= dim || sy >= dim) {
        0
    } else {
        let mx = sx % dim;
        let my = sy % dim;
        let entry_addr = screen_base + (my / 8) * (dim / 8) + mx / 8;
        if entry_addr >= vram.len() {
            0
        } else {
            let addr = char_base + vram[entry_addr] as int * 64 + (my % 8) * 8 + mx % 8;
            if addr >= vram.len() {
                0
            } else {
                vram[addr] as int
            }
        }
    }
}

/// Colour index of an affine background at screen column x: the texture
/// point starts at the internal reference and moves by (PA, PC) per column.
pub open spec fn affine_index(p: PpuRegs, bg: int, x: int, vram: Seq<u8>) -> int {
    let k = bg - 2;
    affine_index_at(
        p,
        bg,
        affine_walk(p.bg_cur_x[k], p.bg_pa[k] as i32, x as nat),
        affine_walk(p.bg_cur_y[k], p.bg_pc[k] as i32, x as nat),
        vram,
    )
}

/// Colour index of background `bg` at pixel (x, y), text or affine.
pub open spec fn bg_index(p: PpuRegs, bg: int, affine: bool, y: int, x: int, vram: Seq<u8>) -> int {
    if affine {
        affine_index(p, bg, x, vram)
    } else {
        text_index(p, bg, y, x, vram)
    }
}

/// Whether background `bg` is affine in mode `mode`.
pub open spec fn bg_is_affine(mode: int, bg: int) -> bool {
    (mode == 1 && bg == 2) || (mode == 2 && (bg == 2 || bg == 3))
}

/// Line colour and priority at column x after the first `n` of the 16
/// painting steps. Step `s` paints priority `3 - s / 4` with background
/// `3 - s % 4`, so the backmost layers come first and the last painted
/// (priority 0, BG0) ends in front.
pub open spec fn painted_bgs(p: PpuRegs, y: int, x: int, vram: Seq<u8>, pal: Seq<u8>, n: int) -> ([u8; 4], u8)
    decreases n,
{
    if n <= 0 {
        (pal_color(pal, 0), 4u8)
    } else {
        let s = n - 1;
        let prio = 3 - s / 4;
        let bg = 3 - s % 4;
        let prev = painted_bgs(p, y, x, vram, pal, n - 1);
        let mode = p.dispcnt as int % 8;
        let idx = bg_index(p, bg, bg_is_affine(mode, bg), y, x, vram);
        if (p.dispcnt as int / pow2_8(bg)) % 2 == 1 && p.bgcnt[bg] as int % 4 == prio && idx != 0 {
            (pal_color(pal, idx), prio as u8)
        } else {
            prev
        }
    }
}

/// `2^(8 + bg)`: the DISPCNT enable bit of background `bg`.
pub open spec fn pow2_8(bg: int) -> int {
    if bg == 0 { 0x100 } else if bg == 1 { 0x200 } else if bg == 2 { 0x400 } else { 0x800 }
}

// ───────────────────────────── bitmap modes ─────────────────────────────

/// Bitmap modes: the colour and priority at (x, y), `None` where the
/// backdrop shows.
pub open spec fn bitmap_pixel(p: PpuRegs, y: int, x: int, vram: Seq<u8>, pal: Seq<u8>) -> Option<([u8; 4], u8)> {
    let mode = p.dispcnt as int % 8;
    let prio = (p.bgcnt[2] as int % 4) as u8;
    let frame = if (p.dispcnt as int / 16) % 2 == 1 { 0xA000int } else { 0 };
    if (p.dispcnt as int / 0x400) % 2 == 0 {
        None
    } else if mode == 3 {
        let off = (y * 240 + x) * 2;
        if off + 1 >= vram.len() {
            None
        } else {
            Some((rgba_of(le16(vram, off)), prio))
        }
    } else if mode == 4 {
        let off = frame + y * 240 + x;
        if off >= vram.len() || vram[off] == 0 {
            None
        } else {
            Some((pal_color(pal, vram[off] as int), prio))
        }
    } else if mode == 5 {
        let off = frame + (y * 160 + x) * 2;
        if y >= 128 || x >= 160 || off + 1 >= vram.len() {
            None
        } else {
            Some((rgba_of(le16(vram, off)), prio))
        }
    } else {
        None
    }
}

/// Background layers of the line at column x: colour and priority before
/// sprites (4 is the backdrop).
pub open spec fn layer_pixel(p: PpuRegs, y: int, x: int, vram: Seq<u8>, pal: Seq<u8>) -> ([u8; 4], u8) {
    let mode = p.dispcnt as int % 8;
    if mode <= 2 {
        painted_bgs(p, y, x, vram, pal, 16)
    } else {
        match bitmap_pixel(p, y, x, vram, pal) {
            Some(cp) => cp,
            None => (pal_color(pal, 0), 4u8),
        }
    }
}

/// Column `c` of a line after a layer pass: painted with `col` and `p` when
/// the pass reached it (`done`) and the layer is opaque there (`idx != 0`),
/// else as before.
pub open spec fn painted_at(
    line: Seq<[u8; 4]>,
    prio: Seq<u8>,
    line0: Seq<[u8; 4]>,
    prio0: Seq<u8>,
    c: int,
    idx: int,
    col: [u8; 4],
    p: u8,
    done: bool,
) -> bool {
    if done && idx != 0 {
        line[c] == col && prio[c] == p
    } else {
        line[c] == line0[c] && prio[c] == prio0[c]
    }
}

impl Ppu {
    /// The registers of this PPU.
    pub open spec fn regs(&self) -> PpuRegs {
        PpuRegs {
            dispcnt: self.dispcnt,
            dispstat: self.dispstat,
            vcount: self.vcount,
            bgcnt: self.bgcnt,
            bg_hofs: self.bg_hofs,
            bg_vofs: self.bg_vofs,
            bg_pa: self.bg_pa,
            bg_pb: self.bg_pb,
            bg_pc: self.bg_pc,
            bg_pd: self.bg_pd,
            bg_ref_x: self.bg_ref_x,
            bg_ref_y: self.bg_ref_y,
            bg_cur_x: self.bg_cur_x,
            bg_cur_y: self.bg_cur_y,
            cycles: self.cycles,
            in_hblank: self.in_hblank,
        }
    }

    /// The framebuffer has the size of the screen.
    pub open spec fn wf(&self) -> bool {
        &&& self.framebuffer@.len() == FRAMEBUFFER_LEN
        &&& self.vcount < TOTAL_SCANLINES
        &&& self.cycles < CYCLES_PER_SCANLINE
    }

    /// Power-on state: identity affine matrices, everything else zero.
    pub fn new() -> (r: Ppu)
        ensures
            r.wf(),
            r.framebuffer@ == Seq::new(FRAMEBUFFER_LEN as nat, |i: int| 0u8),
            r.dispcnt == 0 && r.dispstat == 0 && r.vcount == 0,
            r.bgcnt@ == seq![0u16, 0, 0, 0],
            r.bg_hofs@ == seq![0u16, 0, 0, 0] && r.bg_vofs@ == seq![0u16, 0, 0, 0],
            r.bg_pa@ == seq![0x100i16, 0x100] && r.bg_pd@ == seq![0x100i16, 0x100],
            r.bg_pb@ == seq![0i16, 0] && r.bg_pc@ == seq![0i16, 0],
            r.bg_ref_x@ == seq![0i32, 0] && r.bg_ref_y@ == seq![0i32, 0],
            r.bg_cur_x@ == seq![0i32, 0] && r.bg_cur_y@ == seq![0i32, 0],
            r.cycles == 0 && !r.in_hblank,
    {
        let mut fb: Vec<u8> = Vec::new();
        let mut i: usize = 0;
        while i < FRAMEBUFFER_LEN
            invariant
                i <= FRAMEBUFFER_LEN,
                fb@ == Seq::new(i as nat, |j: int| 0u8),
            decreases FRAMEBUFFER_LEN - i,
        {
            fb.push(0);
            i = i + 1;
            assert(fb@ =~= Seq::new(i as nat, |j: int| 0u8));
        }
        let r = Ppu {
            framebuffer: fb,
            dispcnt: 0,
            dispstat: 0,
            vcount: 0,
            bgcnt: [0; 4],
            bg_hofs: [0; 4],
            bg_vofs: [0; 4],
            bg_pa: [0x100; 2],
            bg_pb: [0; 2],
            bg_pc: [0; 2],
            bg_pd: [0x100; 2],
            bg_ref_x: [0; 2],
            bg_ref_y: [0; 2],
            bg_cur_x: [0; 2],
            bg_cur_y: [0; 2],
            cycles: 0,
            in_hblank: false,
        };
        assert(r.bgcnt@ =~= seq![0u16, 0, 0, 0]);
        assert(r.bg_hofs@ =~= seq![0u16, 0, 0, 0]);
        assert(r.bg_vofs@ =~= seq![0u16, 0, 0, 0]);
        assert(r.bg_pa@ =~= seq![0x100i16, 0x100]);
        assert(r.bg_pd@ =~= seq![0x100i16, 0x100]);
        assert(r.bg_pb@ =~= seq![0i16, 0]);
        assert(r.bg_pc@ =~= seq![0i16, 0]);
        assert(r.bg_ref_x@ =~= seq![0i32, 0]);
        assert(r.bg_ref_y@ =~= seq![0i32, 0]);
        assert(r.bg_cur_x@ =~= seq![0i32, 0]);
        assert(r.bg_cur_y@ =~= seq![0i32, 0]);
        r
    }

    /// Paints text background `bg` over the line: every opaque pixel takes
    /// the background's colour and priority `p`.
    fn render_text_bg(&self, bg: usize, y: usize, p: u8, vram: &[u8], pal: &[u8], line: &mut [[u8; 4]; 240], prio: &mut [u8; 240])
        requires
            bg < 4,
            y < 160,
        ensures
            forall|x: int|
                #![trigger final(line)@[x]]
                0 <= x < 240 ==> painted_at(
                    final(line)@,
                    final(prio)@,
                    old(line)@,
                    old(prio)@,
                    x,
                    text_index(self.regs(), bg as int, y as int, x, vram@),
                    pal_color(pal@, text_index(self.regs(), bg as int, y as int, x, vram@)),
                    p,
                    true,
                ),
    {
        let cnt = self.bgcnt[bg];
        let char_base = (((cnt / 4) % 4) as usize) * 0x4000;
        let is_8bpp = (cnt / 128) % 2 == 1;
        let screen_base = (((cnt / 256) % 32) as usize) * 0x800;
        let size = cnt / 0x4000;
        let (width, height): (usize, usize) = if size == 0 {
            (256, 256)
        } else if size == 1 {
            (512, 256)
        } else if size == 2 {
            (256, 512)
        } else {
            (512, 512)
        };
        let hofs = (self.bg_hofs[bg] % 512) as usize;
        let vofs = (self.bg_vofs[bg] % 512) as usize;
        let by = (y + vofs) % height;
        let map_y = by / 8;
        let py = by % 8;
        let mut x: usize = 0;
        while x < 240
            invariant
                bg < 4,
                y < 160,
                x <= 240,
                cnt == self.bgcnt[bg as int],
                char_base == ((cnt / 4) % 4) as int * 0x4000,
                is_8bpp == ((cnt / 128) % 2 == 1),
                screen_base == ((cnt / 256) % 32) as int * 0x800,
                size == cnt / 0x4000,
                (width as int, height as int) == text_dims(size as int),
                hofs == self.bg_hofs[bg as int] % 512,
                vofs == self.bg_vofs[bg as int] % 512,
                by == (y + vofs) % (height as int),
                map_y == by / 8,
                py == by % 8,
                forall|c: int|
                    #![trigger text_index(self.regs(), bg as int, y as int, c, vram@)]
                    0 <= c < 240 ==> painted_at(
                        line@,
                        prio@,
                        old(line)@,
                        old(prio)@,
                        c,
                        text_index(self.regs(), bg as int, y as int, c, vram@),
                        pal_color(pal@, text_index(self.regs(), bg as int, y as int, c, vram@)),
                        p,
                        c < x,
                    ),
            decreases 240 - x,
        {
            let idx = self.text_pixel_index(bg, x, map_y, py, by, char_base, is_8bpp, screen_base, size, width, hofs, vram);
            assert(idx == text_index(self.regs(), bg as int, y as int, x as int, vram@));
            if idx != 0 {
                line[x] = palette_color(pal, idx);
                prio[x] = p;
            }
            x = x + 1;
        }
    }

    /// The colour index of one text-background pixel (see `text_index`).
    #[verifier::rlimit(60)]
    fn text_pixel_index(
        &self,
        bg: usize,
        x: usize,
        map_y: usize,
        py: usize,
        by: usize,
        char_base: usize,
        is_8bpp: bool,
        screen_base: usize,
        size: u16,
        width: usize,
        hofs: usize,
        vram: &[u8],
    ) -> (r: usize)
        requires
            bg < 4,
            x < 240,
            size == self.bgcnt[bg as int] / 0x4000,
            char_base == ((self.bgcnt[bg as int] / 4) % 4) as int * 0x4000,
            is_8bpp == ((self.bgcnt[bg as int] / 128) % 2 == 1),
            screen_base == ((self.bgcnt[bg as int] / 256) % 32) as int * 0x800,
            width == text_dims(size as int).0,
            hofs == self.bg_hofs[bg as int] % 512,
            by < 512,
            map_y == by / 8,
            py == by % 8,
        ensures
            r < 0x1_0000,
            forall|y: int|
                by == (y + self.bg_vofs[bg as int] % 512) % text_dims(size as int).1 ==> r
                    == text_index(self.regs(), bg as int, y, x as int, vram@),
    {
        reveal(text_index);
        let bx = (x + hofs) % width;
        let map_x = bx / 8;
        let sb: usize = if size == 0 {
            0
        } else if size == 1 {
            map_x / 32
        } else if size == 2 {
            map_y / 32
        } else {
            (map_y / 32) * 2 + map_x / 32
        };
        let tx = map_x % 32;
        let ty = map_y % 32;
        let entry_addr = screen_base + sb * 0x800 + (ty * 32 + tx) * 2;
        if entry_addr + 1 >= vram.len() {
            return 0;
        }
        let entry = read_le16(vram, entry_addr);
        let tile = (entry % 1024) as usize;
        let hflip = (entry / 1024) % 2 == 1;
        let vflip = (entry / 2048) % 2 == 1;
        let pal_bank = (entry / 4096) as usize;
        let fx = if hflip { 7 - bx % 8 } else { bx % 8 };
        let fy = if vflip { 7 - py } else { py };
        if is_8bpp {
            let addr = char_base + tile * 64 + fy * 8 + fx;
            if addr >= vram.len() {
                return 0;
            }
            vram[addr] as usize
        } else {
            let addr = char_base + tile * 32 + fy * 4 + fx / 2;
            if addr >= vram.len() {
                return 0;
            }
            let byte = vram[addr];
            let nibble = (if fx % 2 == 0 { byte % 16 } else { byte / 16 }) as usize;
            if nibble == 0 {
                return 0;
            }
            pal_bank * 16 + nibble
        }
    }

    /// Paints affine background `bg` (2 or 3) over the line.
    fn render_affine_bg(&self, bg: usize, p: u8, vram: &[u8], pal: &[u8], line: &mut [[u8; 4]; 240], prio: &mut [u8; 240])
        requires
            bg == 2 || bg == 3,
        ensures
            forall|x: int|
                #![trigger final(line)@[x]]
                0 <= x < 240 ==> painted_at(
                    final(line)@,
                    final(prio)@,
                    old(line)@,
                    old(prio)@,
                    x,
                    affine_index(self.regs(), bg as int, x, vram@),
                    pal_color(pal@, affine_index(self.regs(), bg as int, x, vram@)),
                    p,
                    true,
                ),
    {
        let k = bg - 2;
        let pa = self.bg_pa[k] as i32;
        let pc = self.bg_pc[k] as i32;
        let mut tex_x = self.bg_cur_x[k];
        let mut tex_y = self.bg_cur_y[k];
        let mut x: usize = 0;
        while x < 240
            invariant
                bg == 2 || bg == 3,
                k == bg - 2,
                x <= 240,
                pa == self.bg_pa[k as int] as i32,
                pc == self.bg_pc[k as int] as i32,
                tex_x == affine_walk(self.bg_cur_x[k as int], pa, x as nat),
                tex_y == affine_walk(self.bg_cur_y[k as int], pc, x as nat),
                forall|c: int|
                    #![trigger affine_index(self.regs(), bg as int, c, vram@)]
                    0 <= c < 240 ==> painted_at(
                        line@,
                        prio@,
                        old(line)@,
                        old(prio)@,
                        c,
                        affine_index(self.regs(), bg as int, c, vram@),
                        pal_color(pal@, affine_index(self.regs(), bg as int, c, vram@)),
                        p,
                        c < x,
                    ),
            decreases 240 - x,
        {
            let idx = self.affine_pixel_index(bg, tex_x, tex_y, vram);
            assert(idx == affine_index(self.regs(), bg as int, x as int, vram@));
            if idx != 0 {
                line[x] = palette_color(pal, idx);
                prio[x] = p;
            }
            tex_x = tex_x.wrapping_add(pa);
            tex_y = tex_y.wrapping_add(pc);
            x = x + 1;
        }
    }

    /// The colour index of one affine-background pixel at texture point
    /// (tex_x, tex_y) in 1.19.8 fixed point.
    #[verifier::rlimit(80)]
    #[verifier::spinoff_prover]
    fn affine_pixel_index(&self, bg: usize, tex_x: i32, tex_y: i32, vram: &[u8]) -> (r: usize)
        requires
            bg == 2 || bg == 3,
        ensures
            r < 256,
            r == affine_index_at(self.regs(), bg as int, tex_x, tex_y, vram@),
    {
        reveal(affine_index_at);
        let cnt = self.bgcnt[bg];
        let char_base = (((cnt / 4) % 4) as usize) * 0x4000;
        let screen_base = (((cnt / 256) % 32) as usize) * 0x800;
        let wrap = (cnt / 0x2000) % 2 == 1;
        let size = cnt / 0x4000;
        let dim: u64 = if size == 0 { 128 } else if size == 1 { 256 } else if size == 2 { 512 } else { 1024 };
        // Offsetting by 2^31 makes the coordinates non-negative; the integer
        // part is then a plain division, shifted by 2^23 (a multiple of dim).
        let qx: u64 = ((tex_x as i64) + 0x8000_0000) as u64 / 256;
        let qy: u64 = ((tex_y as i64) + 0x8000_0000) as u64 / 256;
        assert(qx == tex_x as int / 256 + 0x80_0000);
        assert(qy == tex_y as int / 256 + 0x80_0000);
        let (mx, my): (u64, u64) = if wrap {
            (qx % dim, qy % dim)
        } else {
            if qx < 0x80_0000 || qy < 0x80_0000 || qx >= 0x80_0000 + dim || qy >= 0x80_0000 + dim {
                return 0;
            }
            (qx - 0x80_0000, qy - 0x80_0000)
        };
        proof {
            let d = dim as int;
            assert(0x80_0000int == d * (0x80_0000int / d));
            if wrap {
                vstd::arithmetic::div_mod::lemma_mod_multiples_vanish(0x80_0000int / d, tex_x as int / 256, d);
                vstd::arithmetic::div_mod::lemma_mod_multiples_vanish(0x80_0000int / d, tex_y as int / 256, d);
            }
            assert(mx == (tex_x as int / 256) % d);
            assert(my == (tex_y as int / 256) % d);
        }
        assert((my / 8) * (dim / 8) <= 128 * 128) by (nonlinear_arith)
            requires
                my / 8 <= 128,
                dim / 8 <= 128,
        ;
        let entry_addr = screen_base + ((my / 8) * (dim / 8) + mx / 8) as usize;
        if entry_addr >= vram.len() {
            return 0;
        }
        let addr = char_base + (vram[entry_addr] as usize) * 64 + ((my % 8) * 8 + mx % 8) as usize;
        if addr >= vram.len() {
            return 0;
        }
        vram[addr] as usize
    }

    /// Paints the enabled backgrounds of a tiled mode from back to front:
    /// priority 3 down to 0, and within one priority BG3 down to BG0.
    fn render_bgs(&self, y: usize, vram: &[u8], pal: &[u8], line: &mut [[u8; 4]; 240], prio: &mut [u8; 240])
        requires
            y < 160,
            self.dispcnt % 8 <= 2,
            forall|x: int| 0 <= x < 240 ==> old(line)@[x] == pal_color(pal@, 0) && old(prio)@[x] == 4,
        ensures
            forall|x: int|
                0 <= x < 240 ==> (#[trigger] final(line)@[x], final(prio)@[x]) == painted_bgs(
                    self.regs(),
                    y as int,
                    x,
                    vram@,
                    pal@,
                    16,
                ),
    {
        let mode = self.dispcnt % 8;
        let mut s: usize = 0;
        while s < 16
            invariant
                s <= 16,
                y < 160,
                mode == self.dispcnt % 8,
                forall|x: int|
                    0 <= x < 240 ==> (line@[x], prio@[x]) == #[trigger] painted_bgs(
                        self.regs(),
                        y as int,
                        x,
                        vram@,
                        pal@,
                        s as int,
                    ),
            decreases 16 - s,
        {
            let p = (3 - s / 4) as u8;
            let bg = 3 - s % 4;
            let bit: u16 = if bg == 0 { 0x100 } else if bg == 1 { 0x200 } else if bg == 2 { 0x400 } else { 0x800 };
            let affine = (mode == 1 && bg == 2) || (mode == 2 && (bg == 2 || bg == 3));
            let ghost line0 = line@;
            let ghost prio0 = prio@;
            let on = (self.dispcnt / bit) % 2 == 1 && (self.bgcnt[bg] % 4) as u8 == p;
            if on {
                if affine {
                    self.render_affine_bg(bg, p, vram, pal, line, prio);
                } else {
                    self.render_text_bg(bg, y, p, vram, pal, line, prio);
                }
            }
            proof {
                assert forall|x: int| 0 <= x < 240 implies (line@[x], prio@[x]) == #[trigger] painted_bgs(
                    self.regs(),
                    y as int,
                    x,
                    vram@,
                    pal@,
                    s + 1,
                ) by {
                    assert((line0[x], prio0[x]) == painted_bgs(self.regs(), y as int, x, vram@, pal@, s as int));
                    let idx = bg_index(self.regs(), bg as int, affine, y as int, x, vram@);
                    if on {
                        if affine {
                            assert(painted_at(line@, prio@, line0, prio0, x, affine_index(self.regs(), bg as int, x, vram@), pal_color(pal@, affine_index(self.regs(), bg as int, x, vram@)), p, true));
                        } else {
                            assert(painted_at(line@, prio@, line0, prio0, x, text_index(self.regs(), bg as int, y as int, x, vram@), pal_color(pal@, text_index(self.regs(), bg as int, y as int, x, vram@)), p, true));
                        }
                    }
                }
            }
            s = s + 1;
        }
    }
}


// ───────────────────────────── sprites ─────────────────────────────

/// Width and height of a sprite by shape and size.
pub open spec fn sprite_dims(shape: int, size: int) -> (int, int) {
    if shape == 0 {
        if size == 0 { (8, 8) } else if size == 1 { (16, 16) } else if size == 2 { (32, 32) } else { (64, 64) }
    } else if shape == 1 {
        if size == 0 { (16, 8) } else if size == 1 { (32, 8) } else if size == 2 { (32, 16) } else { (64, 32) }
    } else if shape == 2 {
        if size == 0 { (8, 16) } else if size == 1 { (8, 32) } else if size == 2 { (16, 32) } else { (32, 64) }
    } else {
        (8, 8)
    }
}

/// A halfword read as signed.
pub open spec fn signed16(v: u16) -> int {
    if v >= 0x8000 { v as int - 0x1_0000 } else { v as int }
}

/// Colour of one sprite texel, `None` when transparent (index 0) or outside
/// VRAM. Tiles are mapped linearly by the sprite's width (1D) or in a grid
/// of 32 (2D); 8 bpp tiles take two 32-byte slots.
pub open spec fn sprite_texel(
    vram: Seq<u8>,
    pal: Seq<u8>,
    tile_base: int,
    is_8bpp: bool,
    pal_bank: int,
    one_d: bool,
    w: int,
    tex_x: int,
    tex_y: int,
) -> Option<[u8; 4]> {
    let row_tiles = if one_d { w / 8 } else { 32 };
    let step = if is_8bpp { 2int } else { 1 };
    let tile_id = tile_base + ((tex_y / 8) * row_tiles + tex_x / 8) * step;
    let px = tex_x % 8;
    let py = tex_y % 8;
    if is_8bpp {
        let addr = OBJ_TILE_BASE + tile_id * 32 + py * 8 + px;
        if addr >= vram.len() || vram[addr] == 0 {
            None
        } else {
            Some(pal_color(pal, OBJ_PAL_BASE + vram[addr] as int))
        }
    } else {
        let addr = OBJ_TILE_BASE + tile_id * 32 + py * 4 + px / 2;
        if addr >= vram.len() {
            None
        } else {
            let byte = vram[addr] as int;
            let nibble = if px % 2 == 0 { byte % 16 } else { byte / 16 };
            if nibble == 0 {
                None
            } else {
                Some(pal_color(pal, OBJ_PAL_BASE + pal_bank * 16 + nibble))
            }
        }
    }
}

/// Colour and priority of sprite `i` at column `sx` of line `y`, `None` where
/// it does not cover or is transparent. The sprite's rows and columns wrap
/// at 256 and 512; affine sprites map through the matrix of their group
/// (double-size ones cover twice their size), regular ones may flip.
#[verifier::opaque]
pub open spec fn sprite_pixel(p: PpuRegs, y: int, i: int, sx: int, vram: Seq<u8>, pal: Seq<u8>, oam: Seq<u8>) -> Option<([u8; 4], u8)> {
    let attr0 = le16(oam, i * 8) as int;
    let attr1 = le16(oam, i * 8 + 2) as int;
    let attr2 = le16(oam, i * 8 + 4) as int;
    let obj_mode = (attr0 / 256) % 4;
    let affine = obj_mode == 1 || obj_mode == 3;
    let (w, h) = sprite_dims(attr0 / 0x4000, attr1 / 0x4000);
    let (bw, bh) = if obj_mode == 3 { (w * 2, h * 2) } else { (w, h) };
    let row = (y - attr0 % 256) % 256;
    let col = (sx - attr1 % 512) % 512;
    if obj_mode == 2 || row >= bh || col >= bw {
        None
    } else {
        let (tx, ty) = if affine {
            let g = ((attr1 / 512) % 32) * 0x20;
            let pa = signed16(le16(oam, g + 6));
            let pb = signed16(le16(oam, g + 0xE));
            let pc = signed16(le16(oam, g + 0x16));
            let pd = signed16(le16(oam, g + 0x1E));
            let ix = col - bw / 2;
            let iy = row - bh / 2;
            ((pa * ix + pb * iy) / 256 + w / 2, (pc * ix + pd * iy) / 256 + h / 2)
        } else {
            (
                if (attr1 / 0x1000) % 2 == 1 { w - 1 - col } else { col },
                if (attr1 / 0x2000) % 2 == 1 { h - 1 - row } else { row },
            )
        };
        if tx < 0 || ty < 0 || tx >= w || ty >= h {
            None
        } else {
            match sprite_texel(
                vram,
                pal,
                attr2 % 1024,
                (attr0 / 0x2000) % 2 == 1,
                attr2 / 0x1000,
                (p.dispcnt as int / 64) % 2 == 1,
                w,
                tx,
                ty,
            ) {
                Some(c) => Some((c, ((attr2 / 1024) % 4) as u8)),
                None => None,
            }
        }
    }
}

/// The sprite pixel at column `sx` among sprites `0..n`: the lowest OAM
/// index that covers it with an opaque texel wins.
pub open spec fn sprite_scan(p: PpuRegs, y: int, sx: int, vram: Seq<u8>, pal: Seq<u8>, oam: Seq<u8>, n: int) -> Option<([u8; 4], u8)>
    decreases n,
{
    if n <= 0 {
        None
    } else {
        let prev = sprite_scan(p, y, sx, vram, pal, oam, n - 1);
        if prev is Some {
            prev
        } else {
            sprite_pixel(p, y, n - 1, sx, vram, pal, oam)
        }
    }
}

/// The sprite buffers hold `s` at column `sx` (priority 255 when empty).
pub open spec fn obj_holds(obj: Seq<[u8; 4]>, objp: Seq<u8>, sx: int, s: Option<([u8; 4], u8)>) -> bool {
    match s {
        Some((c, pr)) => obj[sx] == c && objp[sx] == pr,
        None => objp[sx] == 255,
    }
}

/// Final colour of column x of line y.
pub open spec fn row_pixel(p: PpuRegs, y: int, x: int, vram: Seq<u8>, pal: Seq<u8>, oam: Seq<u8>) -> [u8; 4] {
    if (p.dispcnt as int / 128) % 2 == 1 {
        [0xFFu8, 0xFF, 0xFF, 0xFF]
    } else {
        let l = layer_pixel(p, y, x, vram, pal);
        if (p.dispcnt as int / 0x1000) % 2 == 1 {
            match sprite_scan(p, y, x, vram, pal, oam, 128) {
                Some((c, op)) => if op <= l.1 { c } else { l.0 },
                None => l.0,
            }
        } else {
            l.0
        }
    }
}

/// The framebuffer with row `y` replaced by the rendered line.
pub open spec fn with_row(fb: Seq<u8>, p: PpuRegs, y: int, vram: Seq<u8>, pal: Seq<u8>, oam: Seq<u8>) -> Seq<u8> {
    Seq::new(
        fb.len(),
        |i: int|
            if y * 960 <= i < y * 960 + 960 {
                row_pixel(p, y, (i - y * 960) / 4, vram, pal, oam)[(i - y * 960) % 4]
            } else {
                fb[i]
            },
    )
}

// ───────────────────────────── timing ─────────────────────────────

pub open spec fn wadd(a: i32, b: i16) -> i32 {
    vstd::wrapping::i32_specs::wrapping_add(a, b as i32)
}

/// Outcome of the phase transitions from a state: registers, framebuffer,
/// raised interrupts, HBlank-of-a-visible-line and VBlank events.
pub struct Phases {
    pub irqs: u16,
    pub entered_hblank: bool,
    pub entered_vblank: bool,
}

/// Runs every phase transition due with the accumulated cycles: entering
/// HBlank (rendering a visible line and advancing the affine references),
/// and ending a scanline (VBlank at 160, a new frame at 0 reloading the
/// affine references, and the VCount match).
pub open spec fn run_phases(p: PpuRegs, fb: Seq<u8>, ev: Phases, vram: Seq<u8>, pal: Seq<u8>, oam: Seq<u8>) -> (PpuRegs, Seq<u8>, Phases)
    decreases p.cycles * 2 + (if p.in_hblank { 0int } else { 1 }),
{
    if !p.in_hblank && p.cycles >= HDRAW_CYCLES {
        let visible = p.vcount < VISIBLE_SCANLINES;
        let fb1 = if visible { with_row(fb, p, p.vcount as int, vram, pal, oam) } else { fb };
        let ds = p.dispstat | DISPSTAT_HBLANK_FLAG;
        let p1 = PpuRegs {
            in_hblank: true,
            dispstat: ds,
            bg_cur_x: if visible { [wadd(p.bg_cur_x[0], p.bg_pb[0]), wadd(p.bg_cur_x[1], p.bg_pb[1])] } else { p.bg_cur_x },
            bg_cur_y: if visible { [wadd(p.bg_cur_y[0], p.bg_pd[0]), wadd(p.bg_cur_y[1], p.bg_pd[1])] } else { p.bg_cur_y },
            ..p
        };
        let ev1 = Phases {
            irqs: if ds & DISPSTAT_HBLANK_IRQ != 0 { ev.irqs | irq_bits::HBLANK } else { ev.irqs },
            entered_hblank: ev.entered_hblank || visible,
            ..ev
        };
        run_phases(p1, fb1, ev1, vram, pal, oam)
    } else if p.cycles >= CYCLES_PER_SCANLINE {
        let v = ((p.vcount as int + 1) % (TOTAL_SCANLINES as int)) as u16;
        let ds0 = p.dispstat & !DISPSTAT_HBLANK_FLAG;
        let ds1 = if v == VISIBLE_SCANLINES {
            ds0 | DISPSTAT_VBLANK_FLAG
        } else if v == 0 {
            ds0 & !DISPSTAT_VBLANK_FLAG
        } else {
            ds0
        };
        let vblank_irq = v == VISIBLE_SCANLINES && ds1 & DISPSTAT_VBLANK_IRQ != 0;
        let hit = v == (ds1 >> 8u16) & 0xFF;
        let ds2 = if hit { ds1 | DISPSTAT_VCOUNT_FLAG } else { ds1 & !DISPSTAT_VCOUNT_FLAG };
        let vcount_irq = hit && ds2 & DISPSTAT_VCOUNT_IRQ != 0;
        let p1 = PpuRegs {
            cycles: (p.cycles - CYCLES_PER_SCANLINE) as u32,
            in_hblank: false,
            vcount: v,
            dispstat: ds2,
            bg_cur_x: if v == 0 && v != VISIBLE_SCANLINES { p.bg_ref_x } else { p.bg_cur_x },
            bg_cur_y: if v == 0 && v != VISIBLE_SCANLINES { p.bg_ref_y } else { p.bg_cur_y },
            ..p
        };
        let i1 = if vblank_irq { ev.irqs | irq_bits::VBLANK } else { ev.irqs };
        let i2 = if vcount_irq { i1 | irq_bits::VCOUNT } else { i1 };
        let ev1 = Phases {
            irqs: i2,
            entered_vblank: ev.entered_vblank || v == VISIBLE_SCANLINES,
            ..ev
        };
        run_phases(p1, fb, ev1, vram, pal, oam)
    } else {
        (p, fb, ev)
    }
}

/// A halfword read as signed.
fn to_signed16(v: u16) -> (r: i32)
    ensures
        r == signed16(v),
        -0x8000 <= r < 0x8000,
{
    if v >= 0x8000 {
        v as i32 - 0x1_0000
    } else {
        v as i32
    }
}

/// `floor(v / 256)` for a value of at most 24 bits.
fn floor_div256(v: i32) -> (r: i32)
    requires
        -0x100_0000 <= v < 0x100_0000,
    ensures
        r == v as int / 256,
{
    let q = ((v + 0x100_0000) as u32) / 256;
    assert(q == v as int / 256 + 0x1_0000);
    q as i32 - 0x1_0000
}

proof fn lemma_affine_term(a: int, b: int)
    requires
        -0x8000 <= a < 0x8000,
        -0x80 <= b <= 0x80,
    ensures
        -0x40_0000 <= a * b <= 0x40_0000,
{
    assert(-0x40_0000 <= a * b <= 0x40_0000) by (nonlinear_arith)
        requires
            -0x8000 <= a < 0x8000,
            -0x80 <= b <= 0x80,
    ;
}

impl Ppu {
    /// Paints the bitmap of modes 3-5 (on BG2's layer) over the line.
    fn render_bitmap(&self, y: usize, vram: &[u8], pal: &[u8], line: &mut [[u8; 4]; 240], prio: &mut [u8; 240])
        requires
            y < 160,
        ensures
            forall|x: int|
                #![trigger final(line)@[x]]
                0 <= x < 240 ==> match bitmap_pixel(self.regs(), y as int, x, vram@, pal@) {
                    Some((c, pr)) => final(line)@[x] == c && final(prio)@[x] == pr,
                    None => final(line)@[x] == old(line)@[x] && final(prio)@[x] == old(prio)@[x],
                },
    {
        let mode = self.dispcnt % 8;
        let p = (self.bgcnt[2] % 4) as u8;
        let frame: usize = if (self.dispcnt / 16) % 2 == 1 { 0xA000 } else { 0 };
        let on = (self.dispcnt / 0x400) % 2 == 1;
        let mut x: usize = 0;
        while x < 240
            invariant
                x <= 240,
                y < 160,
                mode == self.dispcnt % 8,
                p == (self.bgcnt[2] % 4) as u8,
                frame == (if (self.dispcnt / 16) % 2 == 1 { 0xA000int } else { 0 }),
                on == ((self.dispcnt / 0x400) % 2 == 1),
                forall|c: int|
                    #![trigger bitmap_pixel(self.regs(), y as int, c, vram@, pal@)]
                    0 <= c < 240 ==> match bitmap_pixel(self.regs(), y as int, c, vram@, pal@) {
                        Some((col, pr)) => if c < x {
                            line@[c] == col && prio@[c] == pr
                        } else {
                            line@[c] == old(line)@[c] && prio@[c] == old(prio)@[c]
                        },
                        None => line@[c] == old(line)@[c] && prio@[c] == old(prio)@[c],
                    },
            decreases 240 - x,
        {
            let px: Option<[u8; 4]> = if !on {
                None
            } else if mode == 3 {
                let off = (y * 240 + x) * 2;
                if off + 1 >= vram.len() {
                    None
                } else {
                    Some(bgr555_to_rgba8(read_le16(vram, off)))
                }
            } else if mode == 4 {
                let off = frame + y * 240 + x;
                if off >= vram.len() || vram[off] == 0 {
                    None
                } else {
                    Some(palette_color(pal, vram[off] as usize))
                }
            } else if mode == 5 {
                if y >= 128 || x >= 160 {
                    None
                } else {
                    let off = frame + (y * 160 + x) * 2;
                    if off + 1 >= vram.len() {
                        None
                    } else {
                        Some(bgr555_to_rgba8(read_le16(vram, off)))
                    }
                }
            } else {
                None
            };
            assert(match bitmap_pixel(self.regs(), y as int, x as int, vram@, pal@) {
                Some((c, pr)) => px == Some(c) && pr == p,
                None => px is None,
            });
            match px {
                Some(c) => {
                    line[x] = c;
                    prio[x] = p;
                },
                None => {},
            }
            x = x + 1;
        }
    }

    /// Colour of one sprite texel (see `sprite_texel`).
    fn sample_sprite(
        &self,
        vram: &[u8],
        pal: &[u8],
        tile_base: usize,
        is_8bpp: bool,
        pal_bank: usize,
        one_d: bool,
        w: usize,
        tex_x: usize,
        tex_y: usize,
    ) -> (r: Option<[u8; 4]>)
        requires
            tile_base < 1024,
            pal_bank < 16,
            w <= 64,
            tex_x < 64,
            tex_y < 64,
        ensures
            r == sprite_texel(vram@, pal@, tile_base as int, is_8bpp, pal_bank as int, one_d, w as int, tex_x as int, tex_y as int),
    {
        let tile_x = tex_x / 8;
        let tile_y = tex_y / 8;
        let px = tex_x % 8;
        let py = tex_y % 8;
        let row_tiles = if one_d { w / 8 } else { 32 };
        let step: usize = if is_8bpp { 2 } else { 1 };
        assert(tile_y * row_tiles <= 8 * 32) by (nonlinear_arith)
            requires
                tile_y < 8,
                row_tiles <= 32,
        ;
        let tile_id = tile_base + (tile_y * row_tiles + tile_x) * step;
        if is_8bpp {
            let addr = OBJ_TILE_BASE + tile_id * 32 + py * 8 + px;
            if addr >= vram.len() {
                return None;
            }
            let idx = vram[addr] as usize;
            if idx == 0 {
                return None;
            }
            Some(palette_color(pal, OBJ_PAL_BASE + idx))
        } else {
            let addr = OBJ_TILE_BASE + tile_id * 32 + py * 4 + px / 2;
            if addr >= vram.len() {
                return None;
            }
            let byte = vram[addr];
            let nibble = (if px % 2 == 0 { byte % 16 } else { byte / 16 }) as usize;
            if nibble == 0 {
                return None;
            }
            Some(palette_color(pal, OBJ_PAL_BASE + pal_bank * 16 + nibble))
        }
    }

    /// Sprite `i` at column `sx` of line `y` (see `sprite_pixel`).
    #[verifier::rlimit(100)]
    #[verifier::spinoff_prover]
    fn sprite_at(&self, y: usize, i: usize, sx: usize, vram: &[u8], pal: &[u8], oam: &[u8]) -> (r: Option<([u8; 4], u8)>)
        requires
            y < 160,
            i < 128,
            sx < 240,
            oam@.len() >= 0x400,
        ensures
            r == sprite_pixel(self.regs(), y as int, i as int, sx as int, vram@, pal@, oam@),
    {
        reveal(sprite_pixel);
        let attr0 = read_le16(oam, i * 8);
        let attr1 = read_le16(oam, i * 8 + 2);
        let attr2 = read_le16(oam, i * 8 + 4);
        let obj_mode = (attr0 / 256) % 4;
        let affine = obj_mode == 1 || obj_mode == 3;
        let shape = attr0 / 0x4000;
        let size = attr1 / 0x4000;
        let (w, h): (i32, i32) = if shape == 0 {
            if size == 0 { (8, 8) } else if size == 1 { (16, 16) } else if size == 2 { (32, 32) } else { (64, 64) }
        } else if shape == 1 {
            if size == 0 { (16, 8) } else if size == 1 { (32, 8) } else if size == 2 { (32, 16) } else { (64, 32) }
        } else if shape == 2 {
            if size == 0 { (8, 16) } else if size == 1 { (8, 32) } else if size == 2 { (16, 32) } else { (32, 64) }
        } else {
            (8, 8)
        };
        let (bw, bh) = if obj_mode == 3 { (w * 2, h * 2) } else { (w, h) };
        let y0 = (attr0 % 256) as u32;
        let row = (((y as u32) + 256 - y0) % 256) as i32;
        let x0 = (attr1 % 512) as u32;
        let col = (((sx as u32) + 512 - x0) % 512) as i32;
        assert(row == (y - attr0 % 256) % 256) by {
            vstd::arithmetic::div_mod::lemma_mod_add_multiples_vanish(y - attr0 % 256, 256);
        }
        assert(col == (sx - attr1 % 512) % 512) by {
            vstd::arithmetic::div_mod::lemma_mod_add_multiples_vanish(sx - attr1 % 512, 512);
        }
        if obj_mode == 2 || row >= bh || col >= bw {
            return None;
        }
        let (tx, ty): (i32, i32) = if affine {
            let g = (((attr1 / 512) % 32) as usize) * 0x20;
            let pa = to_signed16(read_le16(oam, g + 6));
            let pb = to_signed16(read_le16(oam, g + 0xE));
            let pc = to_signed16(read_le16(oam, g + 0x16));
            let pd = to_signed16(read_le16(oam, g + 0x1E));
            let ix = col - bw / 2;
            let iy = row - bh / 2;
            proof {
                lemma_affine_term(pa as int, ix as int);
                lemma_affine_term(pb as int, iy as int);
                lemma_affine_term(pc as int, ix as int);
                lemma_affine_term(pd as int, iy as int);
            }
            let vx = pa * ix + pb * iy;
            let vy = pc * ix + pd * iy;
            (floor_div256(vx) + w / 2, floor_div256(vy) + h / 2)
        } else {
            (
                if (attr1 / 0x1000) % 2 == 1 { w - 1 - col } else { col },
                if (attr1 / 0x2000) % 2 == 1 { h - 1 - row } else { row },
            )
        };
        if tx < 0 || ty < 0 || tx >= w || ty >= h {
            return None;
        }
        let one_d = (self.dispcnt / 64) % 2 == 1;
        match self.sample_sprite(
            vram,
            pal,
            (attr2 % 1024) as usize,
            (attr0 / 0x2000) % 2 == 1,
            (attr2 / 0x1000) as usize,
            one_d,
            w as usize,
            tx as usize,
            ty as usize,
        ) {
            Some(c) => Some((c, ((attr2 / 1024) % 4) as u8)),
            None => None,
        }
    }
}


/// A sprite that does not reach line `y` covers none of its columns.
pub open spec fn sprite_misses_line(y: int, i: int, oam: Seq<u8>) -> bool {
    let attr0 = le16(oam, i * 8) as int;
    let attr1 = le16(oam, i * 8 + 2) as int;
    let obj_mode = (attr0 / 256) % 4;
    let (w, h) = sprite_dims(attr0 / 0x4000, attr1 / 0x4000);
    let bh = if obj_mode == 3 { h * 2 } else { h };
    obj_mode == 2 || (y - attr0 % 256) % 256 >= bh
}

proof fn lemma_sprite_misses(p: PpuRegs, y: int, i: int, vram: Seq<u8>, pal: Seq<u8>, oam: Seq<u8>)
    requires
        sprite_misses_line(y, i, oam),
    ensures
        forall|sx: int| #[trigger] sprite_pixel(p, y, i, sx, vram, pal, oam) is None,
{
    reveal(sprite_pixel);
}

/// Composition of the sprite buffer over the background line: a sprite
/// pixel wins when its priority is not behind the layer's.
pub open spec fn composed(l: ([u8; 4], u8), s: Option<([u8; 4], u8)>) -> ([u8; 4], u8) {
    match s {
        Some((c, op)) => if op <= l.1 { (c, op) } else { l },
        None => l,
    }
}

impl Ppu {
    /// Whether sprite `i` may reach line `y` (see `sprite_misses_line`).
    fn sprite_on_line(&self, y: usize, i: usize, oam: &[u8]) -> (r: bool)
        requires
            i < 128,
            y < 160,
            oam@.len() >= 0x400,
        ensures
            r == !sprite_misses_line(y as int, i as int, oam@),
    {
        let attr0 = read_le16(oam, i * 8);
        let attr1 = read_le16(oam, i * 8 + 2);
        let obj_mode = (attr0 / 256) % 4;
        let shape = attr0 / 0x4000;
        let size = attr1 / 0x4000;
        let h: u32 = if shape == 0 {
            if size == 0 { 8 } else if size == 1 { 16 } else if size == 2 { 32 } else { 64 }
        } else if shape == 1 {
            if size == 0 { 8 } else if size == 1 { 8 } else if size == 2 { 16 } else { 32 }
        } else if shape == 2 {
            if size == 0 { 16 } else if size == 1 { 32 } else if size == 2 { 32 } else { 64 }
        } else {
            8
        };
        let bh = if obj_mode == 3 { h * 2 } else { h };
        let y0 = (attr0 % 256) as u32;
        let row = ((y as u32) + 256 - y0) % 256;
        assert(row == (y - attr0 % 256) % 256) by {
            vstd::arithmetic::div_mod::lemma_mod_add_multiples_vanish(y - attr0 % 256, 256);
        }
        !(obj_mode == 2 || row >= bh)
    }

    /// Draws the sprites of line `y` over the background line.
    fn render_sprites(&self, y: usize, vram: &[u8], pal: &[u8], oam: &[u8], line: &mut [[u8; 4]; 240], prio: &mut [u8; 240])
        requires
            y < 160,
            oam@.len() >= 0x400,
        ensures
            forall|x: int|
                #![trigger final(line)@[x]]
                0 <= x < 240 ==> (final(line)@[x], final(prio)@[x]) == composed(
                    (old(line)@[x], old(prio)@[x]),
                    sprite_scan(self.regs(), y as int, x, vram@, pal@, oam@, 128),
                ),
    {
        let mut obj: [[u8; 4]; 240] = [[0u8; 4]; 240];
        let mut objp: [u8; 240] = [255u8; 240];
        let mut i: usize = 0;
        while i < 128
            invariant
                i <= 128,
                y < 160,
                oam@.len() >= 0x400,
                forall|c: int|
                    #![trigger sprite_scan(self.regs(), y as int, c, vram@, pal@, oam@, i as int)]
                    0 <= c < 240 ==> obj_holds(obj@, objp@, c, sprite_scan(self.regs(), y as int, c, vram@, pal@, oam@, i as int)),
            decreases 128 - i,
        {
            if self.sprite_on_line(y, i, oam) {
                let mut sx: usize = 0;
                while sx < 240
                    invariant
                        i < 128,
                        sx <= 240,
                        y < 160,
                        oam@.len() >= 0x400,
                        forall|c: int|
                            #![trigger sprite_scan(self.regs(), y as int, c, vram@, pal@, oam@, i as int)]
                            0 <= c < 240 ==> obj_holds(
                                obj@,
                                objp@,
                                c,
                                if c < sx {
                                    sprite_scan(self.regs(), y as int, c, vram@, pal@, oam@, i + 1)
                                } else {
                                    sprite_scan(self.regs(), y as int, c, vram@, pal@, oam@, i as int)
                                },
                            ),
                    decreases 240 - sx,
                {
                    proof {
                        lemma_scan_priority(self.regs(), y as int, sx as int, vram@, pal@, oam@, i as int);
                    }
                    if objp[sx] == 255 {
                        match self.sprite_at(y, i, sx, vram, pal, oam) {
                            Some((c, pr)) => {
                                obj[sx] = c;
                                objp[sx] = pr;
                            },
                            None => {},
                        }
                    }
                    sx = sx + 1;
                }
                assert forall|c: int| 0 <= c < 240 implies obj_holds(obj@, objp@, c, #[trigger] sprite_scan(self.regs(), y as int, c, vram@, pal@, oam@, i + 1)) by {
                    assert(obj_holds(obj@, objp@, c, if c < sx {
                        sprite_scan(self.regs(), y as int, c, vram@, pal@, oam@, i + 1)
                    } else {
                        sprite_scan(self.regs(), y as int, c, vram@, pal@, oam@, i as int)
                    }));
                }
            } else {
                proof {
                    lemma_sprite_misses(self.regs(), y as int, i as int, vram@, pal@, oam@);
                    assert forall|c: int| 0 <= c < 240 implies obj_holds(obj@, objp@, c, #[trigger] sprite_scan(self.regs(), y as int, c, vram@, pal@, oam@, i + 1)) by {
                        assert(sprite_pixel(self.regs(), y as int, i as int, c, vram@, pal@, oam@) is None);
                        assert(obj_holds(obj@, objp@, c, sprite_scan(self.regs(), y as int, c, vram@, pal@, oam@, i as int)));
                    }
                }
            }
            i = i + 1;
        }
        let mut x: usize = 0;
        while x < 240
            invariant
                x <= 240,
                forall|c: int|
                    #![trigger sprite_scan(self.regs(), y as int, c, vram@, pal@, oam@, 128)]
                    0 <= c < 240 ==> obj_holds(obj@, objp@, c, sprite_scan(self.regs(), y as int, c, vram@, pal@, oam@, 128)),
                forall|c: int|
                    #![trigger line@[c]]
                    0 <= c < 240 ==> (line@[c], prio@[c]) == if c < x {
                        composed(
                            (old(line)@[c], old(prio)@[c]),
                            sprite_scan(self.regs(), y as int, c, vram@, pal@, oam@, 128),
                        )
                    } else {
                        (old(line)@[c], old(prio)@[c])
                    },
            decreases 240 - x,
        {
            proof {
                lemma_scan_priority(self.regs(), y as int, x as int, vram@, pal@, oam@, 128);
                assert(obj_holds(obj@, objp@, x as int, sprite_scan(self.regs(), y as int, x as int, vram@, pal@, oam@, 128)));
            }
            if objp[x] != 255 && objp[x] <= prio[x] {
                line[x] = obj[x];
                prio[x] = objp[x];
            }
            x = x + 1;
        }
    }

    /// Renders line `y` into the framebuffer.
    fn render_scanline(&mut self, y: usize, vram: &[u8], pal: &[u8], oam: &[u8])
        requires
            old(self).framebuffer@.len() == FRAMEBUFFER_LEN,
            y < 160,
            oam@.len() >= 0x400,
        ensures
            final(self).framebuffer@.len() == FRAMEBUFFER_LEN,
            final(self).regs() == old(self).regs(),
            final(self).framebuffer@ == with_row(old(self).framebuffer@, old(self).regs(), y as int, vram@, pal@, oam@),
    {
        let ghost r = self.regs();
        let mut line: [[u8; 4]; 240] = [[0xFFu8; 4]; 240];
        if (self.dispcnt / 128) % 2 != 1 {
            let backdrop = palette_color(pal, 0);
            line = [backdrop; 240];
            let mut prio: [u8; 240] = [4u8; 240];
            assert(forall|x: int| 0 <= x < 240 ==> line@[x] == pal_color(pal@, 0) && prio@[x] == 4);
            let mode = self.dispcnt % 8;
            if mode <= 2 {
                self.render_bgs(y, vram, pal, &mut line, &mut prio);
            } else {
                self.render_bitmap(y, vram, pal, &mut line, &mut prio);
            }
            assert forall|x: int| 0 <= x < 240 implies (#[trigger] line@[x], prio@[x]) == layer_pixel(r, y as int, x, vram@, pal@) by {
                if mode > 2 {
                    match bitmap_pixel(r, y as int, x, vram@, pal@) {
                        Some(cp) => {},
                        None => {},
                    }
                }
            }
            let ghost l0 = line@;
            let ghost p0 = prio@;
            if (self.dispcnt / 0x1000) % 2 == 1 {
                self.render_sprites(y, vram, pal, oam, &mut line, &mut prio);
            }
            assert forall|x: int| 0 <= x < 240 implies #[trigger] line@[x] == row_pixel(r, y as int, x, vram@, pal@, oam@) by {
                assert((l0[x], p0[x]) == layer_pixel(r, y as int, x, vram@, pal@));
            }
        } else {
            assert forall|x: int| 0 <= x < 240 implies #[trigger] line@[x] == row_pixel(r, y as int, x, vram@, pal@, oam@) by {
            }
        }
        self.put_line(y, &line, Ghost(r), vram, pal, oam);
    }

    /// Copies a rendered line into row `y` of the framebuffer.
    fn put_line(&mut self, y: usize, line: &[[u8; 4]; 240], Ghost(r): Ghost<PpuRegs>, vram: &[u8], pal: &[u8], oam: &[u8])
        requires
            old(self).framebuffer@.len() == FRAMEBUFFER_LEN,
            y < 160,
            forall|x: int| 0 <= x < 240 ==> #[trigger] line@[x] == row_pixel(r, y as int, x, vram@, pal@, oam@),
        ensures
            final(self).framebuffer@.len() == FRAMEBUFFER_LEN,
            final(self).regs() == old(self).regs(),
            final(self).framebuffer@ == with_row(old(self).framebuffer@, r, y as int, vram@, pal@, oam@),
    {
        let base = y * 960;
        let mut x: usize = 0;
        while x < 240
            invariant
                x <= 240,
                y < 160,
                base == y * 960,
                self.framebuffer@.len() == FRAMEBUFFER_LEN,
                self.regs() == old(self).regs(),
                forall|x: int| 0 <= x < 240 ==> #[trigger] line@[x] == row_pixel(r, y as int, x, vram@, pal@, oam@),
                forall|i: int|
                    0 <= i < FRAMEBUFFER_LEN ==> #[trigger] self.framebuffer@[i] == if base <= i < base + 4 * x {
                        row_pixel(r, y as int, (i - base) / 4, vram@, pal@, oam@)[(i - base) % 4]
                    } else {
                        old(self).framebuffer@[i]
                    },
            decreases 240 - x,
        {
            let px = line[x];
            let off = base + x * 4;
            self.framebuffer.set(off, px[0]);
            self.framebuffer.set(off + 1, px[1]);
            self.framebuffer.set(off + 2, px[2]);
            self.framebuffer.set(off + 3, px[3]);
            x = x + 1;
        }
        assert(self.framebuffer@ =~= with_row(old(self).framebuffer@, r, y as int, vram@, pal@, oam@));
    }
}

/// A filled sprite slot has the priority of a sprite (below 4), never the
/// empty marker.
proof fn lemma_scan_priority(p: PpuRegs, y: int, sx: int, vram: Seq<u8>, pal: Seq<u8>, oam: Seq<u8>, n: int)
    ensures
        sprite_scan(p, y, sx, vram, pal, oam, n) matches Some((c, pr)) ==> pr < 4,
    decreases n,
{
    reveal(sprite_pixel);
    if n > 0 {
        lemma_scan_priority(p, y, sx, vram, pal, oam, n - 1);
    }
}


/// A 28-bit reference point register sign-extended to 32 bits.
pub open spec fn sign_extend_28(v: u32) -> i32 {
    let m = v as int % 0x1000_0000;
    (if m >= 0x800_0000 { m - 0x1000_0000 } else { m }) as i32
}

fn sign_extend_28_exec(v: u32) -> (r: i32)
    ensures
        r == sign_extend_28(v),
{
    let m = v % 0x1000_0000;
    if m >= 0x800_0000 {
        m as i32 - 0x1000_0000
    } else {
        m as i32
    }
}

/// One byte of a 16-bit affine parameter replaced.
pub open spec fn with_param_byte(x: i16, lo: bool, v: u8) -> i16 {
    (if lo {
        ((x as u16) & 0xFF00u16) | (v as u16)
    } else {
        ((x as u16) & 0x00FFu16) | ((v as u16) << 8u16)
    }) as i16
}

fn set_param_byte(x: i16, lo: bool, v: u8) -> (r: i16)
    ensures
        r == with_param_byte(x, lo, v),
{
    (if lo {
        ((x as u16) & 0xFF00u16) | (v as u16)
    } else {
        ((x as u16) & 0x00FFu16) | ((v as u16) << 8u16)
    }) as i16
}

/// A 16-bit register with its low or high byte replaced.
pub open spec fn with_half(x: u16, hi: bool, v: u8) -> u16 {
    if hi {
        (x & 0x00FF) | ((v as u16) << 8u16)
    } else {
        (x & 0xFF00) | (v as u16)
    }
}

fn set_half(x: u16, hi: bool, v: u8) -> (r: u16)
    ensures
        r == with_half(x, hi, v),
{
    if hi {
        (x & 0x00FF) | ((v as u16) << 8u16)
    } else {
        (x & 0xFF00) | (v as u16)
    }
}

/// The byte that a read of PPU register offset `reg` (0x00..0x5F) returns:
/// DISPCNT, DISPSTAT, VCOUNT and BGxCNT are readable, the rest reads 0.
pub open spec fn reg_read(p: PpuRegs, reg: int) -> u8 {
    if reg == 0 {
        (p.dispcnt % 256) as u8
    } else if reg == 1 {
        (p.dispcnt / 256) as u8
    } else if reg == 4 {
        (p.dispstat % 256) as u8
    } else if reg == 5 {
        (p.dispstat / 256) as u8
    } else if reg == 6 {
        (p.vcount % 256) as u8
    } else if reg == 7 {
        (p.vcount / 256) as u8
    } else if 8 <= reg < 0x10 {
        let v = p.bgcnt[(reg - 8) / 2];
        if reg % 2 == 0 { (v % 256) as u8 } else { (v / 256) as u8 }
    } else {
        0
    }
}

impl Ppu {
    /// Reads a PPU register byte (0x04000000..0x0400005F).
    pub fn read_u8(&self, addr: u32) -> (r: u8)
        ensures
            r == reg_read(self.regs(), (addr % 256) as int),
    {
        let reg = addr % 256;
        if reg == 0 {
            (self.dispcnt % 256) as u8
        } else if reg == 1 {
            (self.dispcnt / 256) as u8
        } else if reg == 4 {
            (self.dispstat % 256) as u8
        } else if reg == 5 {
            (self.dispstat / 256) as u8
        } else if reg == 6 {
            (self.vcount % 256) as u8
        } else if reg == 7 {
            (self.vcount / 256) as u8
        } else if 8 <= reg && reg < 0x10 {
            let v = self.bgcnt[((reg - 8) / 2) as usize];
            if reg % 2 == 0 {
                (v % 256) as u8
            } else {
                (v / 256) as u8
            }
        } else {
            0
        }
    }

    /// What a register byte write does.
    pub open spec fn byte_write_effect(self, f: Ppu, addr: u32, val: u8) -> bool {
        let reg = (addr % 256) as int;
        let o = self;
        &&& f.framebuffer == o.framebuffer
        &&& f.vcount == o.vcount
        &&& f.cycles == o.cycles
        &&& f.in_hblank == o.in_hblank
        &&& (reg == 0 || reg == 1) ==> f.dispcnt == with_half(o.dispcnt, reg == 1, val)
        &&& reg != 0 && reg != 1 ==> f.dispcnt == o.dispcnt
        &&& reg == 4 ==> f.dispstat == (o.dispstat & 0xFF00) | ((val as u16) & 0xF8) | (o.dispstat & 7)
        &&& reg == 5 ==> f.dispstat == with_half(o.dispstat, true, val)
        &&& reg != 4 && reg != 5 ==> f.dispstat == o.dispstat
        &&& forall|b: int|
            0 <= b < 4 ==> #[trigger] f.bgcnt[b] == if 8 <= reg < 0x10 && b == (reg - 8) / 2 {
                with_half(o.bgcnt[b], reg % 2 == 1, val)
            } else {
                o.bgcnt[b]
            }
        &&& forall|b: int|
            0 <= b < 4 ==> #[trigger] f.bg_hofs[b] == if 0x10 <= reg < 0x20 && b == (reg - 0x10) / 4 && (reg / 2) % 2
                == 0 {
                with_half(o.bg_hofs[b], reg % 2 == 1, val)
            } else {
                o.bg_hofs[b]
            }
        &&& forall|b: int|
            0 <= b < 4 ==> #[trigger] f.bg_vofs[b] == if 0x10 <= reg < 0x20 && b == (reg - 0x10) / 4 && (reg / 2) % 2
                == 1 {
                with_half(o.bg_vofs[b], reg % 2 == 1, val)
            } else {
                o.bg_vofs[b]
            }
        &&& (reg < 0x20 || reg >= 0x40) ==> f.bg_pa == o.bg_pa && f.bg_pb == o.bg_pb && f.bg_pc == o.bg_pc && f.bg_pd
            == o.bg_pd && f.bg_ref_x == o.bg_ref_x && f.bg_ref_y == o.bg_ref_y && f.bg_cur_x == o.bg_cur_x
            && f.bg_cur_y == o.bg_cur_y
        &&& 0x20 <= reg < 0x40 ==> affine_written(o, f, (reg - 0x20) / 0x10, reg % 0x10, val)
    }

    /// Writes a PPU register byte. DISPSTAT's flag bits (0-2) and VCOUNT are
    /// read-only; scroll and affine registers are write-only.
    pub fn write_u8(&mut self, addr: u32, val: u8)
        requires
            old(self).wf(),
        ensures
            final(self).wf(),
            old(self).byte_write_effect(*final(self), addr, val),
    {
        let reg = addr % 256;
        if reg == 0 || reg == 1 {
            self.dispcnt = set_half(self.dispcnt, reg == 1, val);
        } else if reg == 4 {
            self.dispstat = (self.dispstat & 0xFF00) | ((val as u16) & 0xF8) | (self.dispstat & 7);
        } else if reg == 5 {
            self.dispstat = set_half(self.dispstat, true, val);
        } else if 8 <= reg && reg < 0x10 {
            let b = ((reg - 8) / 2) as usize;
            self.bgcnt[b] = set_half(self.bgcnt[b], reg % 2 == 1, val);
        } else if 0x10 <= reg && reg < 0x20 {
            let b = ((reg - 0x10) / 4) as usize;
            if (reg / 2) % 2 == 1 {
                self.bg_vofs[b] = set_half(self.bg_vofs[b], reg % 2 == 1, val);
            } else {
                self.bg_hofs[b] = set_half(self.bg_hofs[b], reg % 2 == 1, val);
            }
        } else if 0x20 <= reg && reg < 0x40 {
            self.write_affine_reg(((reg - 0x20) / 0x10) as usize, reg % 0x10, val);
        }
    }

    /// Writes one byte of an affine register of BG2 (k = 0) or BG3 (k = 1):
    /// PA, PB, PC, PD (two bytes each), then the 28-bit reference points X
    /// and Y (four bytes each), which also reset the internal copies.
    fn write_affine_reg(&mut self, k: usize, off: u32, val: u8)
        requires
            old(self).wf(),
            k < 2,
            off < 0x10,
        ensures
            final(self).wf(),
            final(self).framebuffer == old(self).framebuffer,
            final(self).dispcnt == old(self).dispcnt,
            final(self).dispstat == old(self).dispstat,
            final(self).vcount == old(self).vcount,
            final(self).bgcnt == old(self).bgcnt,
            final(self).bg_hofs == old(self).bg_hofs,
            final(self).bg_vofs == old(self).bg_vofs,
            final(self).cycles == old(self).cycles,
            final(self).in_hblank == old(self).in_hblank,
            affine_written(*old(self), *final(self), k as int, off as int, val),
    {
        if off < 8 {
            let lo = off % 2 == 0;
            if off / 2 == 0 {
                self.bg_pa[k] = set_param_byte(self.bg_pa[k], lo, val);
            } else if off / 2 == 1 {
                self.bg_pb[k] = set_param_byte(self.bg_pb[k], lo, val);
            } else if off / 2 == 2 {
                self.bg_pc[k] = set_param_byte(self.bg_pc[k], lo, val);
            } else {
                self.bg_pd[k] = set_param_byte(self.bg_pd[k], lo, val);
            }
        } else if off < 0xC {
            let raw = crate::dma::set_byte(self.bg_ref_x[k] as u32, (off - 8) as usize, val);
            self.bg_ref_x[k] = sign_extend_28_exec(raw);
            self.bg_cur_x[k] = self.bg_ref_x[k];
        } else {
            let raw = crate::dma::set_byte(self.bg_ref_y[k] as u32, (off - 0xC) as usize, val);
            self.bg_ref_y[k] = sign_extend_28_exec(raw);
            self.bg_cur_y[k] = self.bg_ref_y[k];
        }
    }
}

/// The affine registers of `f` are those of `o` after a byte write at offset
/// `off` of background block `k`.
pub open spec fn affine_written(o: Ppu, f: Ppu, k: int, off: int, val: u8) -> bool {
    let other = 1 - k;
    &&& f.bg_pa[k] == if off / 2 == 0 { with_param_byte(o.bg_pa[k], off % 2 == 0, val) } else { o.bg_pa[k] }
    &&& f.bg_pb[k] == if off / 2 == 1 { with_param_byte(o.bg_pb[k], off % 2 == 0, val) } else { o.bg_pb[k] }
    &&& f.bg_pc[k] == if off / 2 == 2 { with_param_byte(o.bg_pc[k], off % 2 == 0, val) } else { o.bg_pc[k] }
    &&& f.bg_pd[k] == if off / 2 == 3 { with_param_byte(o.bg_pd[k], off % 2 == 0, val) } else { o.bg_pd[k] }
    &&& 8 <= off < 0xC ==> f.bg_ref_x[k] == sign_extend_28(crate::dma::with_byte(o.bg_ref_x[k] as u32, off - 8, val))
        && f.bg_cur_x[k] == f.bg_ref_x[k]
    &&& !(8 <= off < 0xC) ==> f.bg_ref_x[k] == o.bg_ref_x[k] && f.bg_cur_x[k] == o.bg_cur_x[k]
    &&& 0xC <= off ==> f.bg_ref_y[k] == sign_extend_28(crate::dma::with_byte(o.bg_ref_y[k] as u32, off - 0xC, val))
        && f.bg_cur_y[k] == f.bg_ref_y[k]
    &&& off < 0xC ==> f.bg_ref_y[k] == o.bg_ref_y[k] && f.bg_cur_y[k] == o.bg_cur_y[k]
    &&& f.bg_pa[other] == o.bg_pa[other] && f.bg_pb[other] == o.bg_pb[other]
    &&& f.bg_pc[other] == o.bg_pc[other] && f.bg_pd[other] == o.bg_pd[other]
    &&& f.bg_ref_x[other] == o.bg_ref_x[other] && f.bg_ref_y[other] == o.bg_ref_y[other]
    &&& f.bg_cur_x[other] == o.bg_cur_x[other] && f.bg_cur_y[other] == o.bg_cur_y[other]
}


impl Ppu {
    /// `f` is `o` advanced by `cycles` CPU cycles over the given memories,
    /// rendering each visible line as its HBlank begins, and `r` reports the
    /// interrupts to raise and whether HBlank (of a visible line) or VBlank
    /// was entered.
    pub open spec fn ticked(
        o: Ppu,
        f: Ppu,
        cycles: u32,
        vram: Seq<u8>,
        pal: Seq<u8>,
        oam: Seq<u8>,
        r: TickResult,
    ) -> bool {
        let start = PpuRegs { cycles: (o.cycles + cycles) as u32, ..o.regs() };
        let (p, fb, ev) = run_phases(
            start,
            o.framebuffer@,
            Phases { irqs: 0, entered_hblank: false, entered_vblank: false },
            vram,
            pal,
            oam,
        );
        &&& f.wf()
        &&& f.regs() == p
        &&& f.framebuffer@ == fb
        &&& r.irqs == ev.irqs
        &&& r.entered_hblank == ev.entered_hblank
        &&& r.entered_vblank == ev.entered_vblank
    }

    /// Advances `cycles` CPU cycles, rendering each visible line as its
    /// HBlank begins. Returns the interrupts to raise and whether HBlank (of
    /// a visible line) or VBlank was entered.
    pub fn tick(&mut self, cycles: u32, vram: &[u8], pal: &[u8], oam: &[u8]) -> (r: TickResult)
        requires
            old(self).wf(),
            cycles <= u32::MAX - CYCLES_PER_SCANLINE,
            oam@.len() >= 0x400,
        ensures
            final(self).wf(),
            Ppu::ticked(*old(self), *final(self), cycles, vram@, pal@, oam@, r),
    {
        let mut res = TickResult { irqs: 0, entered_hblank: false, entered_vblank: false };
        self.cycles = self.cycles + cycles;
        let ghost target = run_phases(
            self.regs(),
            self.framebuffer@,
            Phases { irqs: 0, entered_hblank: false, entered_vblank: false },
            vram@,
            pal@,
            oam@,
        );
        while (!self.in_hblank && self.cycles >= HDRAW_CYCLES) || self.cycles >= CYCLES_PER_SCANLINE
            invariant
                self.framebuffer@.len() == FRAMEBUFFER_LEN,
                self.vcount < TOTAL_SCANLINES,
                oam@.len() >= 0x400,
                run_phases(
                    self.regs(),
                    self.framebuffer@,
                    Phases { irqs: res.irqs, entered_hblank: res.entered_hblank, entered_vblank: res.entered_vblank },
                    vram@,
                    pal@,
                    oam@,
                ) == target,
            decreases self.cycles * 2 + (if self.in_hblank { 0int } else { 1 }),
        {
            let ghost p0 = self.regs();
            let ghost fb0 = self.framebuffer@;
            let ghost ev0 = Phases { irqs: res.irqs, entered_hblank: res.entered_hblank, entered_vblank: res.entered_vblank };
            if !self.in_hblank && self.cycles >= HDRAW_CYCLES {
                let visible = self.vcount < VISIBLE_SCANLINES;
                if visible {
                    let y = self.vcount as usize;
                    self.render_scanline(y, vram, pal, oam);
                    self.bg_cur_x[0] = self.bg_cur_x[0].wrapping_add(self.bg_pb[0] as i32);
                    self.bg_cur_x[1] = self.bg_cur_x[1].wrapping_add(self.bg_pb[1] as i32);
                    self.bg_cur_y[0] = self.bg_cur_y[0].wrapping_add(self.bg_pd[0] as i32);
                    self.bg_cur_y[1] = self.bg_cur_y[1].wrapping_add(self.bg_pd[1] as i32);
                    res.entered_hblank = true;
                }
                self.in_hblank = true;
                self.dispstat = self.dispstat | DISPSTAT_HBLANK_FLAG;
                if self.dispstat & DISPSTAT_HBLANK_IRQ != 0 {
                    res.irqs = res.irqs | irq_bits::HBLANK;
                }
                proof {
                    let ds = p0.dispstat | DISPSTAT_HBLANK_FLAG;
                    let p1 = PpuRegs {
                        in_hblank: true,
                        dispstat: ds,
                        bg_cur_x: if visible { [wadd(p0.bg_cur_x[0], p0.bg_pb[0]), wadd(p0.bg_cur_x[1], p0.bg_pb[1])] } else { p0.bg_cur_x },
                        bg_cur_y: if visible { [wadd(p0.bg_cur_y[0], p0.bg_pd[0]), wadd(p0.bg_cur_y[1], p0.bg_pd[1])] } else { p0.bg_cur_y },
                        ..p0
                    };
                    if visible {
                        assert(self.bg_cur_x =~= p1.bg_cur_x);
                        assert(self.bg_cur_y =~= p1.bg_cur_y);
                    }
                    assert(self.regs() == p1);
                }
            } else {
                self.cycles = self.cycles - CYCLES_PER_SCANLINE;
                self.in_hblank = false;
                self.dispstat = self.dispstat & !DISPSTAT_HBLANK_FLAG;
                self.vcount = (self.vcount + 1) % TOTAL_SCANLINES;
                if self.vcount == VISIBLE_SCANLINES {
                    self.dispstat = self.dispstat | DISPSTAT_VBLANK_FLAG;
                    res.entered_vblank = true;
                    if self.dispstat & DISPSTAT_VBLANK_IRQ != 0 {
                        res.irqs = res.irqs | irq_bits::VBLANK;
                    }
                } else if self.vcount == 0 {
                    self.dispstat = self.dispstat & !DISPSTAT_VBLANK_FLAG;
                    self.bg_cur_x[0] = self.bg_ref_x[0];
                    self.bg_cur_x[1] = self.bg_ref_x[1];
                    self.bg_cur_y[0] = self.bg_ref_y[0];
                    self.bg_cur_y[1] = self.bg_ref_y[1];
                }
                let target_line = (self.dispstat >> 8u16) & 0xFF;
                if self.vcount == target_line {
                    self.dispstat = self.dispstat | DISPSTAT_VCOUNT_FLAG;
                    if self.dispstat & DISPSTAT_VCOUNT_IRQ != 0 {
                        res.irqs = res.irqs | irq_bits::VCOUNT;
                    }
                } else {
                    self.dispstat = self.dispstat & !DISPSTAT_VCOUNT_FLAG;
                }
                proof {
                    if self.vcount == 0 {
                        assert(self.bg_cur_x =~= p0.bg_ref_x);
                        assert(self.bg_cur_y =~= p0.bg_ref_y);
                    }
                }
            }
        }
        res
    }
}


/// Law: one scanline's worth of cycles, counted from the drawing part of a
/// line, moves to the same point of the next line (wrapping after 228).
pub proof fn law_one_scanline(p: PpuRegs, fb: Seq<u8>, ev: Phases, vram: Seq<u8>, pal: Seq<u8>, oam: Seq<u8>)
    requires
        CYCLES_PER_SCANLINE <= p.cycles < CYCLES_PER_SCANLINE + HDRAW_CYCLES,
        !p.in_hblank,
        p.vcount < TOTAL_SCANLINES,
    ensures
        ({
            let (q, f, e) = run_phases(p, fb, ev, vram, pal, oam);
            &&& q.vcount == (p.vcount + 1) % (TOTAL_SCANLINES as int)
            &&& q.cycles == p.cycles - CYCLES_PER_SCANLINE
            &&& !q.in_hblank
            &&& f.len() == fb.len()
        }),
{
    reveal_with_fuel(run_phases, 3);
}

} // verus!
