//! Decoding third-generation Pokémon sprites straight from the ROM, so the
//! frontends can show the hunt's target without shipping any image.
//!
//! The graphics tables are found by their shape: tables indexed by species
//! hold entries of 8 bytes with a valid ROM pointer and a tag equal to a base
//! plus the index. Front sprites are `{ptr, size, tag}` (tag at +6) and
//! palettes `{ptr, tag, pad}` (tag at +4). Each front sprite is 64x64 4bpp
//! tiles, LZ77-compressed; each palette 16 BGR555 colours, LZ77-compressed.
use vstd::prelude::*;
use crate::ppu::{bgr555_to_rgba8, rgba_of};

verus! {

/// A decoded sprite in RGBA8 (colour 0 is transparent, alpha 0).
pub struct Sprite {
    pub width: usize,
    pub height: usize,
    pub rgba: Vec<u8>,
}

/// ROM offsets of the three graphics tables.
#[derive(Debug, Clone, Copy)]
pub struct RomGfx {
    pub front_table: usize,
    pub normal_pal_table: usize,
    pub shiny_pal_table: usize,
}

/// Front sprites are 64x64.
pub const PIC_DIM: usize = 64;

/// The ROM offset of a cartridge pointer (0x08xxxxxx or 0x09xxxxxx) that
/// lies inside a ROM of `rom_len` bytes.
pub open spec fn ptr_off(ptr: u32, rom_len: int) -> Option<int> {
    if 0x0800_0000 <= ptr < 0x0A00_0000 && (ptr as int % 0x200_0000) < rom_len {
        Some(ptr as int % 0x200_0000)
    } else {
        None
    }
}

/// Converts a cartridge pointer to an offset in the ROM.
pub fn ptr_to_off(ptr: u32, rom_len: usize) -> (r: Option<usize>)
    ensures
        r matches Some(o) ==> ptr_off(ptr, rom_len as int) == Some(o as int),
        r is None ==> ptr_off(ptr, rom_len as int) is None,
{
    if 0x0800_0000 <= ptr && ptr < 0x0A00_0000 {
        let off = (ptr % 0x200_0000) as usize;
        if off < rom_len {
            Some(off)
        } else {
            None
        }
    } else {
        None
    }
}

/// Little-endian word at `off`, when the four bytes are inside `s`.
pub open spec fn word_le(s: Seq<u8>, off: int) -> Option<u32> {
    if 0 <= off && off + 4 <= s.len() {
        Some((s[off] as int + s[off + 1] as int * 0x100 + s[off + 2] as int * 0x1_0000 + s[off + 3] as int
            * 0x100_0000) as u32)
    } else {
        None
    }
}

/// Little-endian halfword at `off`, when the two bytes are inside `s`.
pub open spec fn half_le(s: Seq<u8>, off: int) -> Option<u16> {
    if 0 <= off && off + 2 <= s.len() {
        Some((s[off] as int + s[off + 1] as int * 0x100) as u16)
    } else {
        None
    }
}

fn rd_u32(rom: &[u8], off: usize) -> (r: Option<u32>)
    ensures
        r == word_le(rom@, off as int),
{
    if off > rom.len() || rom.len() - off < 4 {
        return None;
    }
    let v = rom[off] as u32 + rom[off + 1] as u32 * 0x100 + rom[off + 2] as u32 * 0x1_0000 + rom[off + 3] as u32
        * 0x100_0000;
    Some(v)
}

fn rd_u16(rom: &[u8], off: usize) -> (r: Option<u16>)
    ensures
        r == half_le(rom@, off as int),
{
    if off > rom.len() || rom.len() - off < 2 {
        return None;
    }
    Some(rom[off] as u16 + rom[off + 1] as u16 * 0x100)
}

/// Entry `i` of the table at `table` has a valid pointer and the tag
/// `base + i` (16-bit wrapping) at `tag_off`.
pub open spec fn entry_ok(rom: Seq<u8>, table: int, tag_off: int, base: u16, i: int) -> bool {
    let e = table + i * 8;
    &&& word_le(rom, e) matches Some(p) && ptr_off(p, rom.len() as int) is Some
    &&& half_le(rom, e + tag_off) == Some(((base as int + i) % 0x1_0000) as u16)
}

/// How many consecutive entries from `table` (stride 8, at most `max`) have
/// a valid pointer and a linear tag `tag[i] == tag[0] + i`. Sprite tables
/// and the normal palette start the tag at 0, the shiny palette at 500.
fn linear_run(rom: &[u8], table: usize, tag_off: usize, max: usize) -> (r: usize)
    requires
        tag_off <= 8,
        max <= 600,
    ensures
        r <= max,
        half_le(rom@, table + tag_off) matches Some(base) ==> {
            &&& forall|i: int| 0 <= i < r ==> entry_ok(rom@, table as int, tag_off as int, base, i)
            &&& r < max ==> !entry_ok(rom@, table as int, tag_off as int, base, r as int)
        },
        half_le(rom@, table + tag_off) is None ==> r == 0,
{
    let n = rom.len();
    if table > usize::MAX - tag_off {
        return 0;
    }
    let base = match rd_u16(rom, table + tag_off) {
        Some(b) => b,
        None => {
            return 0;
        },
    };
    let mut i: usize = 0;
    while i < max
        invariant
            i <= max <= 600,
            tag_off <= 8,
            half_le(rom@, table + tag_off) == Some(base),
            n == rom@.len(),
            forall|j: int| 0 <= j < i ==> entry_ok(rom@, table as int, tag_off as int, base, j),
        decreases max - i,
    {
        if table > usize::MAX - i * 8 - tag_off {
            return i;
        }
        let e = table + i * 8;
        let ok_ptr = match rd_u32(rom, e) {
            Some(p) => ptr_to_off(p, rom.len()).is_some(),
            None => false,
        };
        if !ok_ptr {
            return i;
        }
        proof {
            assert(((base as int + (i % 0x1_0000) as int) % 0x1_0000) == ((base as int + i) % 0x1_0000)) by {
                vstd::arithmetic::div_mod::lemma_add_mod_noop(base as int, i as int, 0x1_0000);
                vstd::arithmetic::div_mod::lemma_mod_twice(i as int, 0x1_0000);
                vstd::arithmetic::div_mod::lemma_add_mod_noop(base as int, (i % 0x1_0000) as int, 0x1_0000);
            }
        }
        if rd_u16(rom, e + tag_off) != Some(base.wrapping_add((i % 0x1_0000) as u16)) {
            return i;
        }
        i = i + 1;
    }
    max
}

/// The mask of flag bit `bit` (most significant first).
pub open spec fn bit_mask(bit: int) -> int {
    if bit == 0 { 0x80 } else if bit == 1 { 0x40 } else if bit == 2 { 0x20 } else if bit == 3 { 0x10 }
    else if bit == 4 { 8 } else if bit == 5 { 4 } else if bit == 6 { 2 } else { 1 }
}

/// Block `bit` of a flag byte is a back reference.
pub open spec fn flag_bit(flags: u8, bit: int) -> bool {
    (flags as int / bit_mask(bit)) % 2 == 1
}

/// A back reference: up to `n` bytes copied from `disp` back, one at a
/// time; it stops where the distance reaches before the start.
pub open spec fn lz_copy(out: Seq<u8>, disp: int, n: nat) -> Seq<u8>
    decreases n,
{
    if n == 0 || out.len() < disp {
        out
    } else {
        lz_copy(out.push(out[out.len() - disp]), disp, (n - 1) as nat)
    }
}

/// One block at `off`: a literal byte, or a back reference of two bytes
/// (length - 3 in the high nibble, distance - 1 in the other 12 bits).
/// `None` when the input ends.
pub open spec fn lz_block(rom: Seq<u8>, out: Seq<u8>, off: int, reference: bool) -> Option<(Seq<u8>, int)> {
    if !reference {
        if 0 <= off < rom.len() {
            Some((out.push(rom[off]), off + 1))
        } else {
            None
        }
    } else if 0 <= off && off + 1 < rom.len() {
        let b0 = rom[off] as int;
        let b1 = rom[off + 1] as int;
        Some((lz_copy(out, (b0 % 16) * 256 + b1 + 1, (b0 / 16 + 3) as nat), off + 2))
    } else {
        None
    }
}

/// The blocks of one flag byte, from block `bit` on, until the output
/// reaches `size`.
pub open spec fn lz_group(rom: Seq<u8>, size: int, out: Seq<u8>, off: int, flags: u8, bit: int) -> Option<(Seq<u8>, int)>
    decreases 8 - bit,
{
    if bit >= 8 || out.len() >= size {
        Some((out, off))
    } else {
        match lz_block(rom, out, off, flag_bit(flags, bit)) {
            None => None,
            Some((o, f)) => lz_group(rom, size, o, f, flags, bit + 1),
        }
    }
}

pub proof fn lemma_group_advances(rom: Seq<u8>, size: int, out: Seq<u8>, off: int, flags: u8, bit: int)
    requires
        0 <= off <= rom.len(),
    ensures
        lz_group(rom, size, out, off, flags, bit) matches Some((o, f)) ==> off <= f <= rom.len(),
    decreases 8 - bit,
{
    if !(bit >= 8 || out.len() >= size) {
        match lz_block(rom, out, off, flag_bit(flags, bit)) {
            None => {},
            Some((o, f)) => {
                lemma_group_advances(rom, size, o, f, flags, bit + 1);
            },
        }
    }
}

/// Flag bytes and their blocks from `off` until the output reaches `size`.
pub open spec fn lz_loop(rom: Seq<u8>, size: int, out: Seq<u8>, off: int) -> Option<Seq<u8>>
    decreases rom.len() - off,
{
    if out.len() >= size {
        Some(out)
    } else if off < 0 || off >= rom.len() {
        None
    } else {
        match lz_group(rom, size, out, off + 1, rom[off], 0) {
            None => None,
            Some((o, f)) => {
                proof {
                    lemma_group_advances(rom, size, out, off + 1, rom[off], 0);
                }
                lz_loop(rom, size, o, f)
            },
        }
    }
}

/// What an LZ77 stream in the BIOS format at `off` decompresses to: a
/// header word with type 1 in bits 4-7 and the output size in bits 8-31,
/// then blocks. `None` for another type or an input that ends early.
pub open spec fn lz77_spec(rom: Seq<u8>, off: int) -> Option<Seq<u8>> {
    match word_le(rom, off) {
        None => None,
        Some(h) => if (h / 16) % 16 != 1 {
            None
        } else {
            lz_loop(rom, (h / 256) as int, Seq::empty(), off + 4)
        },
    }
}

fn copy_back(out: &mut Vec<u8>, disp: usize, length: usize)
    requires
        disp >= 1,
    ensures
        final(out)@ == lz_copy(old(out)@, disp as int, length as nat),
{
    let mut j: usize = 0;
    while j < length && out.len() >= disp
        invariant
            disp >= 1,
            j <= length,
            lz_copy(out@, disp as int, (length - j) as nat) == lz_copy(old(out)@, disp as int, length as nat),
        decreases length - j,
    {
        let byte = out[out.len() - disp];
        out.push(byte);
        j = j + 1;
    }
}

/// One block (see `lz_block`).
fn lz_read_block(rom: &[u8], out: &mut Vec<u8>, off: usize, reference: bool) -> (r: Option<usize>)
    ensures
        r matches Some(f) ==> lz_block(rom@, old(out)@, off as int, reference) == Some((final(out)@, f as int)),
        r is None ==> lz_block(rom@, old(out)@, off as int, reference) is None,
{
    if !reference {
        if off >= rom.len() {
            return None;
        }
        out.push(rom[off]);
        Some(off + 1)
    } else {
        if off >= rom.len() || rom.len() - off < 2 {
            return None;
        }
        let b0 = rom[off] as usize;
        let b1 = rom[off + 1] as usize;
        copy_back(out, (b0 % 16) * 256 + b1 + 1, b0 / 16 + 3);
        Some(off + 2)
    }
}

/// Decompresses an LZ77 stream in the BIOS format (see `lz77_spec`).
pub fn lz77_decompress(rom: &[u8], off: usize) -> (r: Option<Vec<u8>>)
    ensures
        r matches Some(v) ==> lz77_spec(rom@, off as int) == Some(v@),
        r is None ==> lz77_spec(rom@, off as int) is None,
{
    let n = rom.len();
    let header = match rd_u32(rom, off) {
        Some(h) => h,
        None => {
            return None;
        },
    };
    if (header / 16) % 16 != 1 {
        return None;
    }
    let out_size = (header / 256) as usize;
    let mut pos = off + 4;
    let mut out: Vec<u8> = Vec::new();
    let ghost whole = lz_loop(rom@, out_size as int, Seq::empty(), pos as int);
    while out.len() < out_size
        invariant
            pos <= rom@.len(),
            lz_loop(rom@, out_size as int, out@, pos as int) == whole,
            whole == lz77_spec(rom@, off as int),
        decreases rom@.len() - pos,
    {
        if pos >= rom.len() {
            return None;
        }
        let flags = rom[pos];
        let ghost g_out = out@;
        let ghost g_off = pos + 1;
        proof {
            lemma_group_advances(rom@, out_size as int, out@, pos + 1, flags, 0);
        }
        pos = pos + 1;
        let mut bit: usize = 0;
        while bit < 8 && out.len() < out_size
            invariant
                bit <= 8,
                g_off <= pos <= rom@.len(),
                lz_group(rom@, out_size as int, out@, pos as int, flags, bit as int) == lz_group(
                    rom@,
                    out_size as int,
                    g_out,
                    g_off,
                    flags,
                    0,
                ),
                1 <= g_off <= rom@.len(),
                rom@[g_off - 1] == flags,
                g_out.len() < out_size,
                lz_loop(rom@, out_size as int, g_out, g_off - 1) == whole,
                whole == lz77_spec(rom@, off as int),
            decreases 8 - bit,
        {
            let mask: u8 = if bit == 0 { 0x80 } else if bit == 1 { 0x40 } else if bit == 2 { 0x20 } else if bit == 3 {
                0x10
            } else if bit == 4 { 8 } else if bit == 5 { 4 } else if bit == 6 { 2 } else { 1 };
            let reference = (flags / mask) % 2 == 1;
            match lz_read_block(rom, &mut out, pos, reference) {
                None => {
                    return None;
                },
                Some(f) => {
                    pos = f;
                },
            }
            bit = bit + 1;
        }
    }
    Some(out)
}

/// The table at `table` starts with at least `k` entries that have a valid
/// pointer and a linear tag at `tag_off`.
pub open spec fn table_run(rom: Seq<u8>, table: int, tag_off: int, k: int) -> bool {
    half_le(rom, table + tag_off) matches Some(base) && forall|i: int|
        0 <= i < k ==> entry_ok(rom, table, tag_off, base, i)
}

/// The least number of entries a species table has.
pub const MIN_TABLE: usize = 350;

/// The length of the run at `table` counted on from entry `i`: up to the
/// first entry that is not in line, at most `max`.
pub open spec fn run_from(rom: Seq<u8>, table: int, tag_off: int, base: u16, i: int, max: int) -> int
    decreases max - i,
{
    if i >= max {
        max
    } else if entry_ok(rom, table, tag_off, base, i) {
        run_from(rom, table, tag_off, base, i + 1, max)
    } else {
        i
    }
}

/// The number of entries in line at `table` (see `linear_run`).
pub open spec fn run_len(rom: Seq<u8>, table: int, tag_off: int, max: int) -> int {
    match half_le(rom, table + tag_off) {
        Some(base) => run_from(rom, table, tag_off, base, 0, max),
        None => 0,
    }
}

proof fn lemma_run_from(rom: Seq<u8>, table: int, tag_off: int, base: u16, i: int, r: int, max: int)
    requires
        0 <= i <= r <= max,
        forall|j: int| i <= j < r ==> entry_ok(rom, table, tag_off, base, j),
        r < max ==> !entry_ok(rom, table, tag_off, base, r),
    ensures
        run_from(rom, table, tag_off, base, i, max) == r,
    decreases r - i,
{
    if i < r {
        lemma_run_from(rom, table, tag_off, base, i + 1, r, max);
    }
}

/// What `linear_run` counts is `run_len`.
proof fn lemma_run_len(rom: Seq<u8>, table: int, tag_off: int, max: int, r: int)
    requires
        0 <= r <= max,
        half_le(rom, table + tag_off) matches Some(base) ==> {
            &&& forall|i: int| 0 <= i < r ==> entry_ok(rom, table, tag_off, base, i)
            &&& r < max ==> !entry_ok(rom, table, tag_off, base, r)
        },
        half_le(rom, table + tag_off) is None ==> r == 0,
    ensures
        r == run_len(rom, table, tag_off, max),
{
    match half_le(rom, table + tag_off) {
        Some(base) => lemma_run_from(rom, table, tag_off, base, 0, r, max),
        None => {},
    }
}

/// `h` moved past a table of `r` entries (saturating at the top address).
pub open spec fn skip_table(h: int, r: int) -> int {
    if h + r * 8 > usize::MAX { usize::MAX as int } else { h + r * 8 }
}

/// The tables the scan finds from offset `h` on, in order: sprite tables
/// (at least 350 entries in line with the tag at +6) and palette tables
/// (tag at +4, with their first tag). The scan moves in steps of 4 bytes
/// and jumps over each table found.
pub open spec fn scan(rom: Seq<u8>, h: int) -> (Seq<usize>, Seq<(usize, u16)>)
    decreases (if h < rom.len() { rom.len() - h } else { 0 }),
{
    if h < 0 || h >= usize::MAX || !(h < rom.len() && rom.len() - h > 8) {
        (seq![], seq![])
    } else {
        let r6 = run_len(rom, h, 6, 600);
        if r6 >= MIN_TABLE {
            let rest = scan(rom, skip_table(h, r6));
            (seq![h as usize] + rest.0, rest.1)
        } else {
            let r4 = run_len(rom, h, 4, 600);
            if r4 >= MIN_TABLE {
                let base = match half_le(rom, h + 4) {
                    Some(b) => b,
                    None => 0u16,
                };
                let rest = scan(rom, skip_table(h, r4));
                (rest.0, seq![(h as usize, base)] + rest.1)
            } else {
                scan(rom, h + 4)
            }
        }
    }
}

/// The first palette table whose first tag is 0 (`zero`) or is not.
pub open spec fn first_pal(pals: Seq<(usize, u16)>, zero: bool) -> Option<usize>
    decreases pals.len(),
{
    if pals.len() == 0 {
        None
    } else if (pals[0].1 == 0) == zero {
        Some(pals[0].0)
    } else {
        first_pal(pals.drop_first(), zero)
    }
}

/// The tables `locate` picks: the first sprite table, the first palette
/// table starting at tag 0, and the first starting elsewhere (else the
/// normal one); none without a sprite table or a normal palette table.
pub open spec fn located(rom: Seq<u8>) -> Option<RomGfx> {
    let (pics, pals) = scan(rom, 0);
    if pics.len() == 0 {
        None
    } else {
        match first_pal(pals, true) {
            None => None,
            Some(n) => Some(
                RomGfx {
                    front_table: pics[0],
                    normal_pal_table: n,
                    shiny_pal_table: match first_pal(pals, false) {
                        Some(x) => x,
                        None => n,
                    },
                },
            ),
        }
    }
}

impl RomGfx {
    /// Finds the graphics tables by scanning the ROM (in steps of 4 bytes,
    /// jumping over each table found) for runs of at least 350 species
    /// entries: sprite tables (tag at +6) and palette tables (tag at +4).
    /// The front sprites are the first sprite table; the normal palettes
    /// the first palette table whose tags start at 0; the shiny palettes the
    /// first whose tags start elsewhere (the normal ones when there is
    /// none).
    pub fn locate(rom: &[u8]) -> (r: Option<RomGfx>)
        ensures
            r == located(rom@),
            r matches Some(g) ==> {
                &&& table_run(rom@, g.front_table as int, 6, MIN_TABLE as int)
                &&& table_run(rom@, g.normal_pal_table as int, 4, MIN_TABLE as int)
                &&& half_le(rom@, g.normal_pal_table + 4) == Some(0u16)
                &&& table_run(rom@, g.shiny_pal_table as int, 4, MIN_TABLE as int)
            },
    {
        let mut pic_tables: Vec<usize> = Vec::new();
        let mut pal_tables: Vec<(usize, u16)> = Vec::new();
        let mut h: usize = 0;
        while h < rom.len() && rom.len() - h > 8
            invariant
                forall|j: int| 0 <= j < pic_tables@.len() ==> table_run(rom@, #[trigger] pic_tables@[j] as int, 6, MIN_TABLE as int),
                forall|j: int|
                    0 <= j < pal_tables@.len() ==> table_run(rom@, (#[trigger] pal_tables@[j]).0 as int, 4, MIN_TABLE as int)
                        && half_le(rom@, pal_tables@[j].0 + 4) == Some(pal_tables@[j].1),
                pic_tables@ + scan(rom@, h as int).0 == scan(rom@, 0).0,
                pal_tables@ + scan(rom@, h as int).1 == scan(rom@, 0).1,
            decreases usize::MAX - h,
        {
            let ghost s0 = scan(rom@, h as int);
            let r6 = linear_run(rom, h, 6, 600);
            proof {
                lemma_run_len(rom@, h as int, 6, 600, r6 as int);
            }
            if r6 >= MIN_TABLE {
                pic_tables.push(h);
                h = h.saturating_add(r6 * 8);
            } else {
                let r4 = linear_run(rom, h, 4, 600);
                proof {
                    lemma_run_len(rom@, h as int, 4, 600, r4 as int);
                }
                if r4 >= MIN_TABLE {
                    let base = match rd_u16(rom, h + 4) {
                        Some(b) => b,
                        None => 0,
                    };
                    pal_tables.push((h, base));
                    h = h.saturating_add(r4 * 8);
                } else {
                    h = h + 4;
                }
            }
        }
        if pic_tables.len() == 0 {
            return None;
        }
        let front_table = pic_tables[0];
        assert(pal_tables@.skip(0) =~= pal_tables@);
        let mut normal: Option<usize> = None;
        let mut shiny: Option<usize> = None;
        let mut i: usize = 0;
        while i < pal_tables.len()
            invariant
                i <= pal_tables@.len(),
                pal_tables@ == scan(rom@, 0).1,
                normal is Some ==> normal == first_pal(pal_tables@, true),
                normal is None ==> first_pal(pal_tables@, true) == first_pal(pal_tables@.skip(i as int), true),
                shiny is Some ==> shiny == first_pal(pal_tables@, false),
                shiny is None ==> first_pal(pal_tables@, false) == first_pal(pal_tables@.skip(i as int), false),
                forall|j: int|
                    0 <= j < pal_tables@.len() ==> table_run(rom@, (#[trigger] pal_tables@[j]).0 as int, 4, MIN_TABLE as int)
                        && half_le(rom@, pal_tables@[j].0 + 4) == Some(pal_tables@[j].1),
                normal matches Some(o) ==> table_run(rom@, o as int, 4, MIN_TABLE as int) && half_le(rom@, o + 4)
                    == Some(0u16),
                shiny matches Some(o) ==> table_run(rom@, o as int, 4, MIN_TABLE as int),
            decreases pal_tables.len() - i,
        {
            let (o, b) = pal_tables[i];
            proof {
                assert(pal_tables@.skip(i as int).drop_first() =~= pal_tables@.skip(i + 1));
            }
            if b == 0 && normal.is_none() {
                normal = Some(o);
            }
            if b != 0 && shiny.is_none() {
                shiny = Some(o);
            }
            i = i + 1;
        }
        match normal {
            None => None,
            Some(n) => {
                let s = match shiny {
                    Some(x) => x,
                    None => n,
                };
                Some(RomGfx { front_table, normal_pal_table: n, shiny_pal_table: s })
            },
        }
    }
}

/// The palette index of pixel (x, y) of a 64x64 sprite stored as 8x8 tiles
/// of 4 bits per pixel, row by row (low nibble first); 0 where the tile
/// data ends.
pub open spec fn pixel_index(tiles: Seq<u8>, x: int, y: int) -> int {
    let addr = ((y / 8) * 8 + x / 8) * 32 + (y % 8) * 4 + (x % 8) / 2;
    if addr < tiles.len() {
        if x % 2 == 0 {
            tiles[addr] as int % 16
        } else {
            tiles[addr] as int / 16
        }
    } else {
        0
    }
}

/// The little-endian colour `idx` of a palette.
pub open spec fn pal_entry(pal: Seq<u8>, idx: int) -> u16 {
    (pal[idx * 2] as int + pal[idx * 2 + 1] as int * 256) as u16
}

/// Byte `k` of the RGBA8 image of a sprite: index 0 transparent (all 0),
/// other indices the palette colour, opaque.
pub open spec fn sprite_byte(tiles: Seq<u8>, pal: Seq<u8>, k: int) -> u8 {
    let idx = pixel_index(tiles, (k / 4) % 64, (k / 4) / 64);
    if idx == 0 {
        0
    } else {
        rgba_of(pal_entry(pal, idx))@[k % 4]
    }
}

/// The front sprite of `species`: the pointers of its entries in the
/// sprite and palette tables lead to LZ77 streams of the tiles and of at
/// least 16 colours.
pub open spec fn front_sprite(g: RomGfx, rom: Seq<u8>, species: u16, shiny: bool) -> Option<Seq<u8>> {
    let i = species as int;
    let pal_table = if shiny { g.shiny_pal_table } else { g.normal_pal_table };
    match (word_le(rom, g.front_table + i * 8), word_le(rom, pal_table + i * 8)) {
        (Some(pic_ptr), Some(pal_ptr)) => match (ptr_off(pic_ptr, rom.len() as int), ptr_off(pal_ptr, rom.len() as int)) {
            (Some(pic_off), Some(pal_off)) => match (lz77_spec(rom, pic_off), lz77_spec(rom, pal_off)) {
                (Some(tiles), Some(pal)) => if pal.len() >= 32 {
                    Some(Seq::new((PIC_DIM * PIC_DIM * 4) as nat, |k: int| sprite_byte(tiles, pal, k)))
                } else {
                    None
                },
                _ => None,
            },
            _ => None,
        },
        _ => None,
    }
}

/// Renders the 64x64 sprite from its tiles and palette.
fn render_sprite(tiles: &Vec<u8>, pal: &Vec<u8>) -> (r: Vec<u8>)
    requires
        pal@.len() >= 32,
    ensures
        r@ == Seq::new((PIC_DIM * PIC_DIM * 4) as nat, |k: int| sprite_byte(tiles@, pal@, k)),
{
    let mut colors: Vec<[u8; 4]> = Vec::new();
    let mut c: usize = 0;
    while c < 16
        invariant
            c <= 16,
            pal@.len() >= 32,
            colors@.len() == c,
            forall|j: int| 0 <= j < c ==> colors@[j] == rgba_of(pal_entry(pal@, j)),
        decreases 16 - c,
    {
        let lo = pal[c * 2] as u16;
        let hi = pal[c * 2 + 1] as u16;
        colors.push(bgr555_to_rgba8(lo + hi * 256));
        c = c + 1;
    }
    let ghost target = Seq::new((PIC_DIM * PIC_DIM * 4) as nat, |k: int| sprite_byte(tiles@, pal@, k));
    let mut rgba: Vec<u8> = Vec::new();
    let mut p: usize = 0;
    while p < PIC_DIM * PIC_DIM
        invariant
            p <= PIC_DIM * PIC_DIM,
            colors@.len() == 16,
            forall|j: int| 0 <= j < 16 ==> colors@[j] == rgba_of(pal_entry(pal@, j)),
            target == Seq::new((PIC_DIM * PIC_DIM * 4) as nat, |k: int| sprite_byte(tiles@, pal@, k)),
            rgba@ == target.subrange(0, p * 4),
        decreases PIC_DIM * PIC_DIM - p,
    {
        let x = p % PIC_DIM;
        let y = p / PIC_DIM;
        let addr = ((y / 8) * 8 + x / 8) * 32 + (y % 8) * 4 + (x % 8) / 2;
        let idx: usize = if addr < tiles.len() {
            if x % 2 == 0 {
                (tiles[addr] % 16) as usize
            } else {
                (tiles[addr] / 16) as usize
            }
        } else {
            0
        };
        proof {
            assert forall|d: int| 0 <= d < 4 implies (#[trigger] ((p * 4 + d) / 4)) == p && (p * 4 + d) % 4 == d by {}
            assert(idx == pixel_index(tiles@, x as int, y as int));
        }
        if idx == 0 {
            rgba.push(0);
            rgba.push(0);
            rgba.push(0);
            rgba.push(0);
        } else {
            let col = colors[idx];
            rgba.push(col[0]);
            rgba.push(col[1]);
            rgba.push(col[2]);
            rgba.push(col[3]);
        }
        p = p + 1;
        assert(rgba@ =~= target.subrange(0, p * 4));
    }
    assert(rgba@ =~= target);
    rgba
}

impl RomGfx {
    /// Decodes the front sprite of a species (internal index); `shiny`
    /// picks the shiny palette instead of the normal one.
    pub fn decode_front(&self, rom: &[u8], species: u16, shiny: bool) -> (r: Option<Sprite>)
        ensures
            r matches Some(s) ==> s.width == PIC_DIM && s.height == PIC_DIM && front_sprite(*self, rom@, species, shiny)
                == Some(s.rgba@),
            r is None ==> front_sprite(*self, rom@, species, shiny) is None,
    {
        let n = rom.len();
        let i = species as usize;
        let pal_table = if shiny { self.shiny_pal_table } else { self.normal_pal_table };
        if self.front_table > usize::MAX - i * 8 || pal_table > usize::MAX - i * 8 {
            return None;
        }
        let pic_ptr = match rd_u32(rom, self.front_table + i * 8) {
            Some(p) => p,
            None => {
                return None;
            },
        };
        let pal_ptr = match rd_u32(rom, pal_table + i * 8) {
            Some(p) => p,
            None => {
                return None;
            },
        };
        let pic_off = match ptr_to_off(pic_ptr, rom.len()) {
            Some(o) => o,
            None => {
                return None;
            },
        };
        let pal_off = match ptr_to_off(pal_ptr, rom.len()) {
            Some(o) => o,
            None => {
                return None;
            },
        };
        let tiles = match lz77_decompress(rom, pic_off) {
            Some(t) => t,
            None => {
                return None;
            },
        };
        let pal = match lz77_decompress(rom, pal_off) {
            Some(t) => t,
            None => {
                return None;
            },
        };
        if pal.len() < 32 {
            return None;
        }
        let rgba = render_sprite(&tiles, &pal);
        Some(Sprite { width: PIC_DIM, height: PIC_DIM, rgba })
    }
}

} // verus!
