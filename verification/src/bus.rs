//! The GBA memory bus.
//!
//! Routes reads and writes by the region nibble (address bits 24-27):
//!
//! | Nibble | Region                 | Size      |
//! |--------|------------------------|-----------|
//! | 0x0    | BIOS                   | 16 KB     |
//! | 0x2    | EWRAM (on board)       | 256 KB    |
//! | 0x3    | IWRAM (on chip)        | 32 KB     |
//! | 0x4    | I/O registers          | 1 KB      |
//! | 0x5    | Palette RAM            | 1 KB      |
//! | 0x6    | VRAM                   | 96 KB     |
//! | 0x7    | OAM                    | 1 KB      |
//! | 0x8-D  | Game Pak ROM (mirrors) | up to 32 MB |
//! | 0xE-F  | Game Pak backup        | 64 KB     |
use vstd::prelude::*;
use crate::apu::Apu;
use crate::cartridge::Cartridge;
use crate::dma::{Dma, DmaChannel, Timing, DMA_BASE, DMA_END};
use crate::io::Io;
use crate::ppu::Ppu;
use crate::rtc::{GPIO_DATA, GPIO_END};

verus! {

pub const EWRAM_LEN: usize = 0x4_0000;
pub const IWRAM_LEN: usize = 0x8000;
pub const PALETTE_LEN: usize = 0x400;
pub const VRAM_LEN: usize = 0x1_8000;
pub const OAM_LEN: usize = 0x400;

/// Region nibble of an address.
pub open spec fn region(addr: u32) -> u32 {
    (addr / 0x100_0000) % 16
}

/// VRAM is 96 KB mirrored in 128 KB windows folded 64K + 32K + 32K.
pub open spec fn vram_off(addr: u32) -> int {
    let a = addr as int % 0x2_0000;
    if a < 0x1_0000 { a } else { 0x1_0000 + a % 0x8000 }
}

#[verifier::spinoff_prover]
fn vram_offset(addr: u32) -> (r: usize)
    ensures
        r == vram_off(addr),
        r < VRAM_LEN,
        r % 2 == (addr % 2) as int,
{
    let a = (addr % 0x2_0000) as usize;
    if a < 0x1_0000 {
        a
    } else {
        0x1_0000 + a % 0x8000
    }
}

/// Offset of an address inside the cartridge ROM window.
pub open spec fn rom_off(addr: u32) -> int {
    addr as int % 0x200_0000
}

/// Whether an aligned address is a 16-bit serial register (SIOMULTI0-3,
/// SIOCNT, SIOMLT_SEND, RCNT), which take atomic halfword writes.
pub open spec fn sio_halfword(a: u32) -> bool {
    (crate::sio::SIOMULTI0_ADDR <= a <= crate::sio::SIOMLT_SEND_ADDR) || a == crate::sio::RCNT_ADDR
}

/// `b` goes through `s1`, `s2`, `s3` to `f` by the four byte stores of
/// `val` at `a`.. in little-endian order.
pub open spec fn word_bytes(b: Bus, s1: Bus, s2: Bus, s3: Bus, f: Bus, a: u32, val: u32) -> bool {
    &&& b.byte_written(s1, a, (val % 256) as u8)
    &&& s1.byte_written(s2, (a + 1) as u32, ((val / 0x100) % 256) as u8)
    &&& s2.byte_written(s3, (a + 2) as u32, ((val / 0x1_0000) % 256) as u8)
    &&& s3.byte_written(f, (a + 3) as u32, (val / 0x100_0000) as u8)
}

/// A word store at `a` goes as two halfwords (serial registers and video
/// memory) rather than as four bytes.
pub open spec fn word_by_halves(a: u32) -> bool {
    let rg = region(a);
    (rg == 4 && sio_halfword(a)) || rg == 5 || rg == 6 || rg == 7
}

fn sio_reg(a: u32) -> (r: bool)
    ensures
        r == sio_halfword(a),
{
    (crate::sio::SIOMULTI0_ADDR <= a && a <= crate::sio::SIOMLT_SEND_ADDR) || a == crate::sio::RCNT_ADDR
}

/// Byte `i` of `s`, or 0 past its end (open bus).
pub open spec fn byte_or_zero(s: Seq<u8>, i: int) -> u8 {
    if 0 <= i < s.len() { s[i] } else { 0 }
}

fn get_or_zero(s: &[u8], i: usize) -> (r: u8)
    ensures
        r == byte_or_zero(s@, i as int),
{
    if i < s.len() {
        s[i]
    } else {
        0
    }
}

/// Little-endian halfword and word of a byte sequence.
pub open spec fn le16(s: Seq<u8>, o: int) -> u16 {
    (s[o] as int + s[o + 1] as int * 0x100) as u16
}

pub open spec fn le32(s: Seq<u8>, o: int) -> u32 {
    (s[o] as int + s[o + 1] as int * 0x100 + s[o + 2] as int * 0x1_0000 + s[o + 3] as int * 0x100_0000) as u32
}

fn read16_at(s: &[u8], o: usize) -> (r: u16)
    requires
        o + 1 < s@.len(),
    ensures
        r == le16(s@, o as int),
{
    s[o] as u16 + (s[o + 1] as u16) * 0x100
}

fn read32_at(s: &[u8], o: usize) -> (r: u32)
    requires
        o + 3 < s@.len(),
    ensures
        r == le32(s@, o as int),
{
    s[o] as u32 + (s[o + 1] as u32) * 0x100 + (s[o + 2] as u32) * 0x1_0000 + (s[o + 3] as u32) * 0x100_0000
}

/// The value of a DMA register byte.
pub open spec fn dma_byte(d: Dma, addr: u32) -> u8 {
    let off = addr - DMA_BASE;
    let ch = d.channels[off / 12];
    let k = off % 12;
    if k < 4 {
        ((ch.sad as int / crate::dma::pow256(k)) % 256) as u8
    } else if k < 8 {
        ((ch.dad as int / crate::dma::pow256(k - 4)) % 256) as u8
    } else if k == 8 {
        (ch.count % 256) as u8
    } else if k == 9 {
        (ch.count / 256) as u8
    } else if k == 10 {
        (ch.control % 256) as u8
    } else {
        (ch.control / 256) as u8
    }
}

/// An even offset stays even and leaves room for a halfword.
proof fn lemma_align2(a: int, m: int)
    requires
        0 <= a,
        a % 2 == 0,
        m > 0,
        m % 2 == 0,
    ensures
        (a % m) % 2 == 0,
        a % m + 1 < m,
{
    vstd::arithmetic::div_mod::lemma_mod_mod(a, 2, m / 2);
    vstd::arithmetic::div_mod::lemma_mod_pos_bound(a, m);
}

/// An aligned offset stays aligned and leaves room for a word.
proof fn lemma_align(a: int, m: int)
    requires
        0 <= a,
        a % 4 == 0,
        m > 0,
        m % 4 == 0,
    ensures
        (a % m) % 4 == 0,
        a % m + 3 < m,
{
    vstd::arithmetic::div_mod::lemma_mod_mod(a, 4, m / 4);
    vstd::arithmetic::div_mod::lemma_mod_pos_bound(a, m);
}

pub struct Bus {
    /// BIOS image (the built-in high-level BIOS by default).
    pub bios: Vec<u8>,
    /// SWI calls are handled by the built-in high-level BIOS.
    pub hle_bios: bool,
    pub ewram: Vec<u8>,
    pub iwram: Vec<u8>,
    pub io: Io,
    pub dma: Dma,
    pub ppu: Ppu,
    pub apu: Apu,
    pub palette: Vec<u8>,
    pub vram: Vec<u8>,
    pub oam: Vec<u8>,
    pub cartridge: Cartridge,
}

/// A zero-filled vector of `n` bytes.
pub fn zeroed_bytes(n: usize) -> (r: Vec<u8>)
    ensures
        r@ == Seq::new(n as nat, |i: int| 0u8),
{
    let mut v: Vec<u8> = Vec::new();
    let mut i: usize = 0;
    while i < n
        invariant
            i <= n,
            v@ == Seq::new(i as nat, |j: int| 0u8),
        decreases n - i,
    {
        v.push(0);
        i = i + 1;
        assert(v@ =~= Seq::new(i as nat, |j: int| 0u8));
    }
    v
}

/// What running channel `n` does: an enabled channel moves its units one by
/// one (`dma_moves`), then ends reloaded (repeat) or switched off and
/// requests its interrupt when asked; a disabled one changes nothing.
pub open spec fn channel_ran(o: Bus, f: Bus, n: int) -> bool {
    let ch = o.dma.channels[n];
    &&& ch.is_enabled() ==> f.dma.channels[n] == dma_finished(ch, n)
    &&& ch.is_enabled() && (ch.control / 0x4000) % 2 == 1 ==> f.io.iflag & dma_irq_bit(n) == dma_irq_bit(n)
    &&& !ch.is_enabled() ==> f == o
    &&& ch.is_enabled() ==> exists|t: Seq<Bus>| #[trigger] dma_moves(t, ch) && t.len() == ch.int_count + 1 && t[0] == o
        && dma_closed(t[ch.int_count as int], f, n, ch)
}

/// A unit of `unit` bytes moved from `s` to `d`: read (outside the EEPROM
/// window) and stored.
#[verifier::opaque]
pub open spec fn unit_moved(b: Bus, f: Bus, s: u32, d: u32, unit: u32) -> bool {
    if unit == 4 {
        !(region((s - s % 4) as u32) == 0xD && b.cartridge.save_type == crate::cartridge::SaveType::Eeprom)
            ==> b.word_written(f, (d - d % 4) as u32, b.word_at((s - s % 4) as u32))
    } else {
        !(region((s - s % 2) as u32) == 0xD && b.cartridge.save_type == crate::cartridge::SaveType::Eeprom)
            ==> b.half_written(f, (d - d % 2) as u32, b.half_at((s - s % 2) as u32))
    }
}

/// `t` runs through the units of channel `ch`'s transfer: unit `k` moves
/// from the source and to the destination pointers advanced `k` units.
pub open spec fn dma_moves(t: Seq<Bus>, ch: DmaChannel) -> bool {
    forall|k: int| 0 <= k < t.len() - 1 ==> #[trigger] dma_unit(t[k], t[k + 1], ch, k)
}

/// Unit `k` of channel `ch`'s transfer moved from `b` to `f`.
pub open spec fn dma_unit(b: Bus, f: Bus, ch: DmaChannel, k: int) -> bool {
    let unit: u32 = if (ch.control / 0x400) % 2 == 1 { 4 } else { 2 };
    unit_moved(
        b,
        f,
        dma_advanced(ch.int_src, (ch.control as int / 128) % 4, unit, k as nat),
        dma_advanced(ch.int_dst, (ch.control as int / 32) % 4, unit, k as nat),
        unit,
    )
}

/// After the units moved (bus `b`), only channel `n`'s registers and its
/// end-of-transfer interrupt request change.
pub open spec fn dma_closed(b: Bus, f: Bus, n: int, ch: DmaChannel) -> bool {
    &&& f == (Bus { dma: f.dma, io: Io { iflag: f.io.iflag, ..b.io }, ..b })
    &&& forall|j: int| 0 <= j < 4 && j != n ==> f.dma.channels[j] == b.dma.channels[j]
    &&& f.io.iflag == if (ch.control / 0x4000) % 2 == 1 { b.io.iflag | dma_irq_bit(n) } else { b.io.iflag }
}

/// Channel `n`'s turn in a pass for `timing`: it runs when it is enabled
/// with that timing, else nothing changes.
pub open spec fn dma_turn(o: Bus, f: Bus, n: int, timing: Timing) -> bool {
    if o.dma.channels[n].is_enabled() && crate::dma::timing_of(o.dma.channels[n].control) == timing {
        channel_ran(o, f, n)
    } else {
        f == o
    }
}

/// `f` is `b` with the timers advanced by `cycles`: each timer ticked, the
/// interrupts of those that overflowed with their interrupt enabled
/// requested, nothing else changed.
pub open spec fn timers_stepped(b: Bus, f: Bus, cycles: u32) -> bool {
    &&& f == (Bus { io: Io { timers: f.io.timers, iflag: f.io.iflag, ..b.io }, ..b })
    &&& forall|i: int| 0 <= i < 4 ==> #[trigger] f.io.timers.units[i] == crate::timer::ticked(b.io.timers.units@, cycles, i)
    &&& f.io.iflag == b.io.iflag | crate::timer::timer_irqs(b.io.timers.units@, cycles)
}

/// All four timers ticked by `cycles`.
pub open spec fn all_ticked(ts: Seq<crate::timer::Timer>, cycles: u32) -> Seq<crate::timer::Timer> {
    Seq::new(4, |i: int| crate::timer::ticked(ts, cycles, i))
}

/// Law: timer steps take effect in order and none is lost: after steps of
/// `c1` and then `c2` cycles the timers are those ticked by `c2` from the
/// timers ticked by `c1`, and the timer interrupts of both steps are
/// requested.
pub proof fn law_timer_steps_in_order(b0: Bus, b1: Bus, b2: Bus, c1: u32, c2: u32)
    requires
        timers_stepped(b0, b1, c1),
        timers_stepped(b1, b2, c2),
    ensures
        b2.io.timers.units@ == all_ticked(all_ticked(b0.io.timers.units@, c1), c2),
        b2.io.iflag == b0.io.iflag | crate::timer::timer_irqs(b0.io.timers.units@, c1) | crate::timer::timer_irqs(
            all_ticked(b0.io.timers.units@, c1),
            c2,
        ),
        b2.ewram == b0.ewram && b2.iwram == b0.iwram && b2.ppu == b0.ppu && b2.dma == b0.dma,
{
    assert(b1.io.timers.units@ =~= all_ticked(b0.io.timers.units@, c1));
    assert(b2.io.timers.units@ =~= all_ticked(b1.io.timers.units@, c2));
}

/// The four timers after ticks of each of `cs`, in order.
pub open spec fn ticked_in_turn(ts: Seq<crate::timer::Timer>, cs: Seq<u32>) -> Seq<crate::timer::Timer>
    decreases cs.len(),
{
    if cs.len() == 0 {
        ts
    } else {
        all_ticked(ticked_in_turn(ts, cs.drop_last()), cs.last())
    }
}

/// The timer interrupts requested by ticks of each of `cs`, in order.
pub open spec fn irqs_in_turn(ts: Seq<crate::timer::Timer>, cs: Seq<u32>) -> u16
    decreases cs.len(),
{
    if cs.len() == 0 {
        0
    } else {
        irqs_in_turn(ts, cs.drop_last()) | crate::timer::timer_irqs(ticked_in_turn(ts, cs.drop_last()), cs.last())
    }
}

/// Law: any number of timer steps take effect in order and none is lost:
/// after steps of `cs[0]`, `cs[1]`, ... cycles, the timers are those ticked
/// by each count in turn, the interrupts of every step are requested, and
/// nothing else on the bus has changed.
pub proof fn law_timer_steps(bs: Seq<Bus>, cs: Seq<u32>)
    requires
        bs.len() == cs.len() + 1,
        forall|i: int| 0 <= i < cs.len() ==> #[trigger] timers_stepped(bs[i], bs[i + 1], cs[i]),
    ensures
        bs.last().io.timers.units@ == ticked_in_turn(bs[0].io.timers.units@, cs),
        bs.last().io.iflag == bs[0].io.iflag | irqs_in_turn(bs[0].io.timers.units@, cs),
        bs.last() == (Bus { io: Io { timers: bs.last().io.timers, iflag: bs.last().io.iflag, ..bs[0].io }, ..bs[0] }),
    decreases cs.len(),
{
    if cs.len() == 0 {
        let x = bs[0].io.iflag;
        assert(x | 0u16 == x) by (bit_vector);
        assert(bs[0].io.timers.units@ =~= bs[0].io.timers.units@);
    } else {
        let k = cs.len() - 1;
        let pre = bs.drop_last();
        let pcs = cs.drop_last();
        assert forall|i: int| 0 <= i < pcs.len() implies #[trigger] timers_stepped(pre[i], pre[i + 1], pcs[i]) by {
            assert(timers_stepped(bs[i], bs[i + 1], cs[i]));
        }
        law_timer_steps(pre, pcs);
        assert(pre.last() == bs[k]);
        assert(timers_stepped(bs[k], bs[k + 1], cs[k]));
        assert(bs.last() == bs[k + 1]);
        assert(bs[k + 1].io.timers.units@ =~= all_ticked(bs[k].io.timers.units@, cs[k]));
        let x = bs[0].io.iflag;
        let y = irqs_in_turn(bs[0].io.timers.units@, pcs);
        let z = crate::timer::timer_irqs(bs[k].io.timers.units@, cs[k]);
        assert((x | y) | z == x | (y | z)) by (bit_vector);
    }
}

/// `f` follows from `b` by a pass of the DMA channels over the transfers
/// started by `timing`.
pub open spec fn dma_ran(b: Bus, f: Bus, timing: Timing) -> bool {
    exists|t: Seq<Bus>| #[trigger] dma_turns(t, timing) && t.len() == 5 && t[0] == b && t[4] == f
}

/// `t` is a pass over the channels in order, each taking its turn.
pub open spec fn dma_turns(t: Seq<Bus>, timing: Timing) -> bool {
    forall|i: int| 0 <= i < t.len() - 1 ==> #[trigger] dma_turn(t[i], t[i + 1], i, timing)
}

impl Bus {
    /// Memories have their sizes and the components their invariants.
    pub open spec fn wf(&self) -> bool {
        &&& self.ewram@.len() == EWRAM_LEN
        &&& self.iwram@.len() == IWRAM_LEN
        &&& self.palette@.len() == PALETTE_LEN
        &&& self.vram@.len() == VRAM_LEN
        &&& self.oam@.len() == OAM_LEN
        &&& self.ppu.wf()
        &&& self.apu.wf()
        &&& self.cartridge.wf()
    }

    /// The byte a read of `addr` returns, where no component's state is
    /// involved beyond what it holds (every region; reads have no effect).
    pub open spec fn byte_at(&self, addr: u32) -> u8 {
        let rg = region(addr);
        if rg == 0 {
            byte_or_zero(self.bios@, addr as int)
        } else if rg == 2 {
            self.ewram@[addr as int % 0x4_0000]
        } else if rg == 3 {
            self.iwram@[addr as int % 0x8000]
        } else if rg == 4 {
            if DMA_BASE <= addr < DMA_END {
                dma_byte(self.dma, addr)
            } else if addr < 0x0400_0060 {
                crate::ppu::reg_read(self.ppu.regs(), (addr % 256) as int)
            } else if addr < 0x0400_00B0 {
                self.apu.state().read(addr)
            } else {
                self.io.byte_at(addr)
            }
        } else if rg == 5 {
            self.palette@[addr as int % 0x400]
        } else if rg == 6 {
            self.vram@[vram_off(addr)]
        } else if rg == 7 {
            self.oam@[addr as int % 0x400]
        } else if 8 <= rg <= 0xD {
            let off = rom_off(addr);
            if GPIO_DATA <= off <= GPIO_END && self.cartridge.gpio.readable {
                crate::rtc::gpio_value(self.cartridge.gpio, off as u32)
            } else {
                byte_or_zero(self.cartridge.rom@, off)
            }
        } else if rg >= 0xE {
            self.cartridge.spec_read_save(addr)
        } else {
            0
        }
    }

    /// A powered-on bus: the built-in BIOS, zeroed memories, idle
    /// components and an empty cartridge slot.
    pub fn new() -> (r: Bus)
        ensures
            r.wf(),
            r.hle_bios,
            r.bios@ == crate::cpu::bios::builtin_image(),
            r.ewram@ == Seq::new(EWRAM_LEN as nat, |i: int| 0u8),
            r.iwram@ == Seq::new(IWRAM_LEN as nat, |i: int| 0u8),
            r.palette@ == Seq::new(PALETTE_LEN as nat, |i: int| 0u8),
            r.vram@ == Seq::new(VRAM_LEN as nat, |i: int| 0u8),
            r.oam@ == Seq::new(OAM_LEN as nat, |i: int| 0u8),
            r.io.ie == 0 && r.io.iflag == 0 && !r.io.ime,
            forall|i: int| 0 <= i < 4 ==> !(#[trigger] r.dma.channels[i]).is_enabled(),
            r.cartridge.rom@.len() == 0,
            r.cartridge.save_type == crate::cartridge::SaveType::NoSave,
    {
        Bus {
            bios: crate::cpu::bios::builtin_bios(),
            hle_bios: true,
            ewram: zeroed_bytes(EWRAM_LEN),
            iwram: zeroed_bytes(IWRAM_LEN),
            io: Io::new(),
            dma: Dma::new(),
            ppu: Ppu::new(),
            apu: Apu::new(),
            palette: zeroed_bytes(PALETTE_LEN),
            vram: zeroed_bytes(VRAM_LEN),
            oam: zeroed_bytes(OAM_LEN),
            cartridge: Cartridge::new(),
        }
    }

    /// Advances the timers by `cycles` and raises the interrupts of those
    /// that overflowed with their interrupt enabled.
    pub fn step_timers(&mut self, cycles: u32)
        requires
            old(self).wf(),
        ensures
            final(self).wf(),
            forall|i: int| 0 <= i < 4 ==> #[trigger] final(self).io.timers.units[i] == crate::timer::ticked(
                old(self).io.timers.units@,
                cycles,
                i,
            ),
            final(self).io.iflag == old(self).io.iflag | crate::timer::timer_irqs(old(self).io.timers.units@, cycles),
            final(self).io.ie == old(self).io.ie,
            final(self).io.ime == old(self).io.ime,
            final(self).ewram == old(self).ewram && final(self).iwram == old(self).iwram,
            final(self).vram == old(self).vram && final(self).palette == old(self).palette
                && final(self).oam == old(self).oam,
            *final(self) == (Bus {
                io: Io { timers: final(self).io.timers, iflag: final(self).io.iflag, ..old(self).io },
                ..*old(self)
            }),
            timers_stepped(*old(self), *final(self), cycles),
    {
        let t = self.io.timers.tick(cycles);
        let f0 = self.io.iflag;
        if t.irqs != 0 {
            self.io.raise(t.irqs);
        }
        proof {
            if t.irqs == 0 {
                assert(f0 | 0u16 == f0) by (bit_vector);
            }
        }
    }

    /// Reads a byte.
    pub fn read_u8(&mut self, addr: u32) -> (r: u8)
        requires
            old(self).wf(),
        ensures
            *final(self) == *old(self),
            r == old(self).byte_at(addr),
    {
        reveal(Bus::byte_at);
        let rg = (addr / 0x100_0000) % 16;
        if rg == 0 {
            get_or_zero(self.bios.as_slice(), addr as usize)
        } else if rg == 2 {
            self.ewram[(addr % 0x4_0000) as usize]
        } else if rg == 3 {
            self.iwram[(addr % 0x8000) as usize]
        } else if rg == 4 {
            if DMA_BASE <= addr && addr < DMA_END {
                self.dma.read_u8(addr)
            } else if addr < 0x0400_0060 {
                self.ppu.read_u8(addr)
            } else if addr < 0x0400_00B0 {
                self.apu.read_u8(addr)
            } else {
                self.io.read_u8(addr)
            }
        } else if rg == 5 {
            self.palette[(addr % 0x400) as usize]
        } else if rg == 6 {
            self.vram[vram_offset(addr)]
        } else if rg == 7 {
            self.oam[(addr % 0x400) as usize]
        } else if 8 <= rg && rg <= 0xD {
            let off = addr % 0x200_0000;
            if GPIO_DATA <= off && off <= GPIO_END {
                match self.cartridge.gpio.read(off) {
                    Some(v) => {
                        return v;
                    },
                    None => {},
                }
            }
            get_or_zero(self.cartridge.rom.as_slice(), off as usize)
        } else if rg >= 0xE {
            self.cartridge.read_save_u8(addr)
        } else {
            0
        }
    }

    /// The halfword a read of aligned address `a` returns (outside the
    /// EEPROM).
    pub open spec fn half_at(&self, a: u32) -> u16 {
        let rg = region(a);
        if rg == 2 {
            le16(self.ewram@, a as int % 0x4_0000)
        } else if rg == 3 {
            le16(self.iwram@, a as int % 0x8000)
        } else if rg == 5 {
            le16(self.palette@, a as int % 0x400)
        } else if rg == 6 {
            le16(self.vram@, vram_off(a))
        } else if rg == 7 {
            le16(self.oam@, a as int % 0x400)
        } else {
            (self.byte_at(a) as int + self.byte_at((a + 1) as u32) as int * 0x100) as u16
        }
    }

    /// Reads a halfword (the address is aligned down). A halfword read in
    /// region 0x0D with an EEPROM answers one serial bit.
    pub fn read_u16(&mut self, addr: u32) -> (r: u16)
        requires
            old(self).wf(),
        ensures
            final(self).wf(),
            ({
                let a = (addr - addr % 2) as u32;
                !(region(a) == 0xD && old(self).cartridge.save_type == crate::cartridge::SaveType::Eeprom) ==> *final(self)
                    == *old(self) && r == old(self).half_at(a)
            }),
    {
        let a = addr - addr % 2;
        let rg = (a / 0x100_0000) % 16;
        if rg == 2 || rg == 3 || rg == 5 || rg == 6 || rg == 7 {
            self.read_ram_u16(a)
        } else if 8 <= rg && rg <= 0xD {
            self.read_rom_u16(a)
        } else {
            let lo = self.read_u8(a) as u16;
            let hi = self.read_u8(a + 1) as u16;
            lo + hi * 256
        }
    }

    fn read_ram_u16(&self, a: u32) -> (r: u16)
        requires
            self.wf(),
            region(a) == 2 || region(a) == 3 || region(a) == 5 || region(a) == 6 || region(a) == 7,
            a % 2 == 0,
        ensures
            r == self.half_at(a),
    {
        proof {
            lemma_align2(a as int, 0x4_0000);
            lemma_align2(a as int, 0x8000);
            lemma_align2(a as int, 0x400);
        }
        let rg = (a / 0x100_0000) % 16;
        if rg == 2 {
            read16_at(self.ewram.as_slice(), (a % 0x4_0000) as usize)
        } else if rg == 3 {
            read16_at(self.iwram.as_slice(), (a % 0x8000) as usize)
        } else if rg == 5 {
            read16_at(self.palette.as_slice(), (a % 0x400) as usize)
        } else if rg == 6 {
            read16_at(self.vram.as_slice(), vram_offset(a))
        } else {
            read16_at(self.oam.as_slice(), (a % 0x400) as usize)
        }
    }

    /// A halfword of the cartridge window (0x8-0xD): ROM bytes (0 past the
    /// end), GPIO registers through the byte path, or one EEPROM bit.
    fn read_rom_u16(&mut self, a: u32) -> (r: u16)
        requires
            old(self).wf(),
            8 <= region(a) <= 0xD,
            a % 2 == 0,
        ensures
            final(self).wf(),
            !(region(a) == 0xD && old(self).cartridge.save_type == crate::cartridge::SaveType::Eeprom) ==> *final(self)
                == *old(self) && r == old(self).byte_at(a) as int + old(self).byte_at((a + 1) as u32) as int * 256,
    {
        if (a / 0x100_0000) % 16 == 0xD && self.cartridge.is_eeprom() {
            if self.cartridge.eeprom_exhausted() {
                return 1;
            }
            return self.cartridge.eeprom_read_bit() as u16;
        }
        let lo = self.read_u8(a) as u16;
        let hi = self.read_u8(a + 1) as u16;
        lo + hi * 256
    }

    /// The word a read of aligned address `a` returns (outside the EEPROM).
    pub open spec fn word_at(&self, a: u32) -> u32 {
        let rg = region(a);
        if rg == 2 {
            le32(self.ewram@, a as int % 0x4_0000)
        } else if rg == 3 {
            le32(self.iwram@, a as int % 0x8000)
        } else if rg == 5 {
            le32(self.palette@, a as int % 0x400)
        } else if rg == 6 {
            le32(self.vram@, vram_off(a))
        } else if rg == 7 {
            le32(self.oam@, a as int % 0x400)
        } else {
            (self.byte_at(a) as int + self.byte_at((a + 1) as u32) as int * 0x100 + self.byte_at((a + 2) as u32) as int
                * 0x1_0000 + self.byte_at((a + 3) as u32) as int * 0x100_0000) as u32
        }
    }

    /// Reads a word (the address is aligned down).
    pub fn read_u32(&mut self, addr: u32) -> (r: u32)
        requires
            old(self).wf(),
        ensures
            final(self).wf(),
            ({
                let a = (addr - addr % 4) as u32;
                !(region(a) == 0xD && old(self).cartridge.save_type == crate::cartridge::SaveType::Eeprom) ==> *final(self)
                    == *old(self) && r == old(self).word_at(a)
            }),
    {
        let a = addr - addr % 4;
        let rg = (a / 0x100_0000) % 16;
        if rg == 2 || rg == 3 || rg == 5 || rg == 6 || rg == 7 {
            self.read_ram_u32(a)
        } else if 8 <= rg && rg <= 0xD {
            self.read_rom_u32(a)
        } else {
            self.read_bytes_u32(a)
        }
    }

    fn read_ram_u32(&self, a: u32) -> (r: u32)
        requires
            self.wf(),
            region(a) == 2 || region(a) == 3 || region(a) == 5 || region(a) == 6 || region(a) == 7,
            a % 4 == 0,
        ensures
            r == self.word_at(a),
    {
        proof {
            lemma_align(a as int, 0x4_0000);
            lemma_align(a as int, 0x8000);
            lemma_align(a as int, 0x400);
            lemma_align(a as int, 0x2_0000);
            lemma_align(a as int % 0x2_0000, 0x8000);
        }
        let rg = (a / 0x100_0000) % 16;
        if rg == 2 {
            read32_at(self.ewram.as_slice(), (a % 0x4_0000) as usize)
        } else if rg == 3 {
            read32_at(self.iwram.as_slice(), (a % 0x8000) as usize)
        } else if rg == 5 {
            read32_at(self.palette.as_slice(), (a % 0x400) as usize)
        } else if rg == 6 {
            let o = vram_offset(a);
            read32_at(self.vram.as_slice(), o)
        } else {
            read32_at(self.oam.as_slice(), (a % 0x400) as usize)
        }
    }

    #[verifier::rlimit(60)]
    fn read_rom_u32(&mut self, a: u32) -> (r: u32)
        requires
            old(self).wf(),
            8 <= region(a) <= 0xD,
            a % 4 == 0,
        ensures
            final(self).wf(),
            !(region(a) == 0xD && old(self).cartridge.save_type == crate::cartridge::SaveType::Eeprom) ==> *final(self)
                == *old(self) && r == old(self).byte_at(a) as int + old(self).byte_at((a + 1) as u32) as int * 0x100
                + old(self).byte_at((a + 2) as u32) as int * 0x1_0000 + old(self).byte_at((a + 3) as u32) as int
                * 0x100_0000,
    {
        let lo = self.read_rom_u16(a) as u32;
        let hi = self.read_rom_u16(a + 2) as u32;
        lo + hi * 0x1_0000
    }

    fn read_bytes_u32(&mut self, a: u32) -> (r: u32)
        requires
            old(self).wf(),
            a % 4 == 0,
        ensures
            *final(self) == *old(self),
            r == old(self).byte_at(a) as int + old(self).byte_at((a + 1) as u32) as int * 0x100 + old(self).byte_at(
                (a + 2) as u32,
            ) as int * 0x1_0000 + old(self).byte_at((a + 3) as u32) as int * 0x100_0000,
    {
        let b0 = self.read_u8(a) as u32;
        let b1 = self.read_u8(a + 1) as u32;
        let b2 = self.read_u8(a + 2) as u32;
        let b3 = self.read_u8(a + 3) as u32;
        b0 + b1 * 0x100 + b2 * 0x1_0000 + b3 * 0x100_0000
    }
}


/// Address after `n` steps of a DMA pointer: control 1 decrements, 2 keeps
/// it fixed, anything else increments, by `unit` bytes (wrapping at 32 bits).
pub open spec fn dma_advanced(addr: u32, control: int, unit: u32, n: nat) -> u32 {
    if control == 1 {
        ((addr as int - n * unit as int) % 0x1_0000_0000) as u32
    } else if control == 2 {
        addr
    } else {
        ((addr as int + n * unit as int) % 0x1_0000_0000) as u32
    }
}

/// The channel registers once its transfer is done: pointers advanced over
/// the whole count, then reloaded (repeat, not immediate) or switched off.
pub open spec fn dma_finished(ch: DmaChannel, n: int) -> DmaChannel {
    let unit: u32 = if (ch.control / 0x400) % 2 == 1 { 4 } else { 2 };
    let moved = DmaChannel {
        int_src: dma_advanced(ch.int_src, (ch.control as int / 128) % 4, unit, ch.int_count as nat),
        int_dst: dma_advanced(ch.int_dst, (ch.control as int / 32) % 4, unit, ch.int_count as nat),
        ..ch
    };
    if (ch.control / 0x200) % 2 == 1 && crate::dma::timing_of(ch.control) != Timing::Immediate {
        DmaChannel {
            int_count: crate::dma::units_of(ch.count, crate::dma::masks_of(n).2),
            int_dst: if (ch.control / 32) % 4 == 3 { ch.dad & crate::dma::masks_of(n).1 } else { moved.int_dst },
            ..moved
        }
    } else {
        DmaChannel { control: (ch.control % 0x8000) as u16, ..moved }
    }
}

/// Two byte stores at aligned `a` (outside video memory, the EEPROM and the
/// serial registers) make a halfword store.
proof fn lemma_half_bytes(b0: Bus, b1: Bus, f: Bus, a: u32, lo: u8, hi: u8)
    requires
        b0.byte_written(b1, a, lo),
        b1.byte_written(f, (a + 1) as u32, hi),
        region(a) != 5 && region(a) != 6 && region(a) != 7,
        !(region(a) == 0xD && b0.cartridge.save_type == crate::cartridge::SaveType::Eeprom),
        !(region(a) == 4 && sio_halfword(a)),
        a % 2 == 0,
    ensures
        b0.half_written(f, a, (lo as int + hi as int * 256) as u16),
        b0.half_effect(f, a, (lo as int + hi as int * 256) as u16),
{
    reveal(Bus::half_effect);
    lemma_align2(a as int, 0x4_0000);
    lemma_align2(a as int, 0x8000);
    let v = (lo as int + hi as int * 256) as u16;
    assert((v % 256) as u8 == lo && (v / 256) as u8 == hi);
    lemma_byte_written_ram(b0, b1, a, lo);
    lemma_byte_written_ram(b1, f, (a + 1) as u32, hi);
    assert(region((a + 1) as u32) == region(a));
    if region(a) == 4 && a < 0x0400_0060 {
        reveal(Bus::byte_written);
        assert(a >= 0x0400_0000);
    }
}

/// Four byte stores of a word at aligned `a` in a work RAM store it.
#[verifier::rlimit(100)]
#[verifier::spinoff_prover]
proof fn lemma_word_bytes_ram(s0: Bus, s1: Bus, s2: Bus, s3: Bus, f: Bus, a: u32, val: u32)
    requires
        word_bytes(s0, s1, s2, s3, f, a, val),
        a % 4 == 0,
        !word_by_halves(a),
    ensures
        s0.word_written(f, a, val),
{
    if region(a) == 2 || region(a) == 3 {
        lemma_align(a as int, 0x4_0000);
        lemma_align(a as int, 0x8000);
        assert(region((a + 1) as u32) == region(a) && region((a + 2) as u32) == region(a) && region((a + 3) as u32)
            == region(a));
        assert(((a + 1) as u32) as int % 0x4_0000 == a as int % 0x4_0000 + 1);
        assert(((a + 2) as u32) as int % 0x4_0000 == a as int % 0x4_0000 + 2);
        assert(((a + 3) as u32) as int % 0x4_0000 == a as int % 0x4_0000 + 3);
        assert(((a + 1) as u32) as int % 0x8000 == a as int % 0x8000 + 1);
        assert(((a + 2) as u32) as int % 0x8000 == a as int % 0x8000 + 2);
        assert(((a + 3) as u32) as int % 0x8000 == a as int % 0x8000 + 3);
        lemma_byte_written_ram(s0, s1, a, (val % 256) as u8);
        lemma_byte_written_ram(s1, s2, (a + 1) as u32, ((val / 0x100) % 256) as u8);
        lemma_byte_written_ram(s2, s3, (a + 2) as u32, ((val / 0x1_0000) % 256) as u8);
        lemma_byte_written_ram(s3, f, (a + 3) as u32, (val / 0x100_0000) as u8);
    }
}

/// What a byte write does to the work RAMs.
pub proof fn lemma_byte_written_ram(b: Bus, f: Bus, addr: u32, val: u8)
    requires
        b.byte_written(f, addr, val),
    ensures
        region(addr) == 2 ==> f == (Bus { ewram: f.ewram, ..b }) && f.ewram@ == b.ewram@.update(addr as int % 0x4_0000, val),
        region(addr) == 3 ==> f == (Bus { iwram: f.iwram, ..b }) && f.iwram@ == b.iwram@.update(addr as int % 0x8000, val),
{
    reveal(Bus::byte_written);
}

/// Interrupt flag of DMA channel `n` (bits 8-11).
pub open spec fn dma_irq_bit(n: int) -> u16 {
    if n == 0 { 0x100 } else if n == 1 { 0x200 } else if n == 2 { 0x400 } else { 0x800 }
}

/// One pointer step (wrapping).
fn dma_step(addr: u32, control: u8, unit: u32) -> (r: u32)
    requires
        unit == 2 || unit == 4,
    ensures
        control == 1 ==> r == (addr as int - unit as int) % 0x1_0000_0000,
        control == 2 ==> r == addr,
        control != 1 && control != 2 ==> r == (addr as int + unit as int) % 0x1_0000_0000,
{
    if control == 1 {
        addr.wrapping_sub(unit)
    } else if control == 2 {
        addr
    } else {
        addr.wrapping_add(unit)
    }
}

proof fn lemma_advance_step(addr: u32, control: int, unit: u32, k: nat)
    requires
        unit == 2 || unit == 4,
    ensures
        control == 1 ==> dma_advanced(addr, control, unit, k + 1) == (dma_advanced(addr, control, unit, k) as int
            - unit as int) % 0x1_0000_0000,
        control == 2 ==> dma_advanced(addr, control, unit, k + 1) == dma_advanced(addr, control, unit, k),
        control != 1 && control != 2 ==> dma_advanced(addr, control, unit, k + 1) == (dma_advanced(addr, control, unit, k)
            as int + unit as int) % 0x1_0000_0000,
{
    let a = addr as int;
    let u = unit as int;
    let m = 0x1_0000_0000int;
    assert((k + 1) * u == k * u + u) by (nonlinear_arith);
    vstd::arithmetic::div_mod::lemma_sub_mod_noop(a - k * u, u, m);
    vstd::arithmetic::div_mod::lemma_add_mod_noop(a + k * u, u, m);
    vstd::arithmetic::div_mod::lemma_small_mod(u as nat, m as nat);
    vstd::arithmetic::div_mod::lemma_mod_twice(a - k * u - u, m);
    vstd::arithmetic::div_mod::lemma_mod_twice(a + k * u + u, m);
}

impl Bus {
    /// Writes a byte. Video memory takes byte writes into both bytes of the
    /// halfword (palette, BG VRAM) or ignores them (OBJ VRAM, OAM); the ROM
    /// area only takes GPIO writes. A write that turns on a DMA channel with
    /// immediate timing runs its transfer at once.
    pub fn write_u8(&mut self, addr: u32, val: u8)
        requires
            old(self).wf(),
        ensures
            final(self).wf(),
            old(self).byte_written(*final(self), addr, val),
            old(self).byte_store(*final(self), addr, val),
    {
        self.write8(addr, val, 1);
        proof {
            reveal(Bus::byte_store);
        }
    }

    /// The part of a byte store that `byte_written` leaves open: a write that
    /// turns on a DMA channel with immediate timing runs the transfer at once.
    #[verifier::opaque]
    pub open spec fn byte_store(self, f: Bus, addr: u32, val: u8) -> bool {
        self.starts_immediate(addr, val) ==> self.immediate_run(f, addr, val)
    }

    /// The parts of a halfword store at aligned `a` that `half_written`
    /// leaves open: serial registers, and elsewhere the two byte stores with
    /// any immediate DMA that they turn on.
    #[verifier::opaque]
    pub open spec fn half_store(self, f: Bus, a: u32, val: u16) -> bool {
        let rg = region(a);
        &&& self.half_effect(f, a, val)
        &&& rg != 5 && rg != 6 && rg != 7 && !(rg == 0xD && self.cartridge.save_type
            == crate::cartridge::SaveType::Eeprom) && !(rg == 4 && sio_halfword(a)) ==> self.half_runs(f, a, val)
    }

    /// The parts of a word store at aligned `a` that `word_written` leaves
    /// open: the halfword or byte stores it is made of, with any immediate
    /// DMA that they turn on.
    #[verifier::opaque]
    pub open spec fn word_store(self, f: Bus, a: u32, val: u32) -> bool {
        &&& self.word_effect(f, a, val)
        &&& !word_by_halves(a) ==> self.word_runs(f, a, val)
    }

    /// A byte write at `addr` turns on a DMA channel with immediate timing.
    #[verifier::opaque]
    pub open spec fn starts_immediate(self, addr: u32, val: u8) -> bool {
        let n = (addr - DMA_BASE) / 12;
        let k = (addr - DMA_BASE) % 12;
        &&& DMA_BASE <= addr < DMA_END
        &&& crate::dma::turns_on(self.dma.channels[n], k, val)
        &&& crate::dma::timing_of(crate::dma::written_channel(self.dma.channels[n], k, val).control) == Timing::Immediate
    }

    /// `f` follows from the DMA register write at `addr` and a run of the
    /// channel that it turned on.
    #[verifier::opaque]
    pub open spec fn immediate_run(self, f: Bus, addr: u32, val: u8) -> bool {
        exists|m: Bus|
            #[trigger] self.dma.reg_written(m.dma, addr, val) && m == (Bus { dma: m.dma, ..self }) && channel_ran(
                m,
                f,
                ((addr - DMA_BASE) / 12) as int,
            )
    }

    /// What a byte write does to each memory region. In the I/O region only
    /// the component addressed changes, as its own byte write states; a DMA
    /// control write that turns on an immediate channel also runs the
    /// transfer, which `byte_store` states.
    #[verifier::opaque]
    pub open spec fn byte_written(self, f: Bus, addr: u32, val: u8) -> bool {
        let rg = region(addr);
        if rg == 2 {
            f == Bus { ewram: f.ewram, ..self } && f.ewram@ == self.ewram@.update(addr as int % 0x4_0000, val)
        } else if rg == 3 {
            f == Bus { iwram: f.iwram, ..self } && f.iwram@ == self.iwram@.update(addr as int % 0x8000, val)
        } else if rg == 5 {
            let o = addr as int % 0x400 - addr as int % 2;
            f == Bus { palette: f.palette, ..self } && f.palette@ == self.palette@.update(o, val).update(o + 1, val)
        } else if rg == 6 {
            let o = vram_off(addr) - addr as int % 2;
            let obj_start = if self.ppu.dispcnt % 8 >= 3 { 0x1_4000int } else { 0x1_0000 };
            f == Bus { vram: f.vram, ..self } && f.vram@ == if o < obj_start {
                self.vram@.update(o, val).update(o + 1, val)
            } else {
                self.vram@
            }
        } else if rg == 0 || rg == 1 || rg == 7 {
            f == self
        } else if 8 <= rg <= 0xD {
            let off = rom_off(addr);
            f == Bus { cartridge: f.cartridge, ..self } && f.cartridge.rom == self.cartridge.rom
                && f.cartridge.save_type == self.cartridge.save_type && f.cartridge.save() == self.cartridge.save()
                && (!(GPIO_DATA <= off <= GPIO_END) ==> f.cartridge.gpio == self.cartridge.gpio)
        } else if rg >= 0xE {
            f == Bus { cartridge: f.cartridge, ..self } && f.cartridge.rom == self.cartridge.rom
                && f.cartridge.gpio == self.cartridge.gpio
        } else if DMA_BASE <= addr < DMA_END {
            let n = (addr - DMA_BASE) / 12;
            let k = (addr - DMA_BASE) % 12;
            let o = self.dma.channels[n];
            let starts = crate::dma::turns_on(o, k, val) && crate::dma::timing_of(
                crate::dma::written_channel(o, k, val).control,
            ) == Timing::Immediate;
            !starts ==> f == (Bus { dma: f.dma, ..self }) && self.dma.reg_written(f.dma, addr, val)
        } else if addr < 0x0400_0060 {
            f == Bus { ppu: f.ppu, ..self } && self.ppu.byte_write_effect(f.ppu, addr, val)
        } else if addr < 0x0400_00B0 {
            f == Bus { apu: f.apu, ..self } && self.apu.byte_write_effect(f.apu, addr, val)
        } else {
            f == Bus { io: f.io, ..self } && self.io.byte_write_effect(f.io, addr, val)
        }
    }

    #[verifier::rlimit(50)]
    #[verifier::spinoff_prover]
    fn write8(&mut self, addr: u32, val: u8, depth: u8)
        requires
            old(self).wf(),
        ensures
            final(self).wf(),
            old(self).byte_written(*final(self), addr, val),
            depth > 0 && old(self).starts_immediate(addr, val) ==> old(self).immediate_run(*final(self), addr, val),
        decreases depth, 0int,
    {
        reveal(Bus::byte_written);
        reveal(Bus::starts_immediate);
        let rg = (addr / 0x100_0000) % 16;
        if rg == 2 {
            self.ewram.set((addr % 0x4_0000) as usize, val);
        } else if rg == 3 {
            self.iwram.set((addr % 0x8000) as usize, val);
        } else if rg == 4 {
            if DMA_BASE <= addr && addr < DMA_END {
                let ghost b0 = *self;
                match self.dma.write_u8(addr, val) {
                    Some(n) => {
                        let ghost m = *self;
                        if depth > 0 && self.dma.channels[n].timing() == Timing::Immediate {
                            self.run_dma_channel(n, depth - 1);
                            proof {
                                reveal(Bus::immediate_run);
                                assert(b0.dma.reg_written(m.dma, addr, val) && m == (Bus { dma: m.dma, ..b0 }));
                            }
                        }
                    },
                    None => {},
                }
            } else if addr < 0x0400_0060 {
                self.ppu.write_u8(addr, val);
            } else if addr < 0x0400_00B0 {
                self.apu.write_u8(addr, val);
            } else {
                self.io.write_u8(addr, val);
            }
        } else if rg == 5 {
            let o = (addr % 0x400 - addr % 2) as usize;
            self.palette.set(o, val);
            self.palette.set(o + 1, val);
        } else if rg == 6 {
            let o = vram_offset(addr) - (addr % 2) as usize;
            let obj_start: usize = if self.ppu.dispcnt % 8 >= 3 { 0x1_4000 } else { 0x1_0000 };
            if o < obj_start {
                self.vram.set(o, val);
                self.vram.set(o + 1, val);
            }
        } else if 8 <= rg && rg <= 0xD {
            let off = addr % 0x200_0000;
            if GPIO_DATA <= off && off <= GPIO_END {
                self.cartridge.gpio.write(off, val);
            }
        } else if rg >= 0xE {
            self.cartridge.write_save_u8(addr, val);
        }
    }

    /// Writes a halfword (the address is aligned down). In region 0x0D with
    /// an EEPROM it pushes one command bit; serial registers take it
    /// atomically; video memory stores both bytes as they are.
    pub fn write_u16(&mut self, addr: u32, val: u16)
        requires
            old(self).wf(),
        ensures
            final(self).wf(),
            old(self).half_written(*final(self), (addr - addr % 2) as u32, val),
            old(self).half_store(*final(self), (addr - addr % 2) as u32, val),
    {
        self.write16(addr, val, 1);
        proof {
            reveal(Bus::half_store);
        }
    }

    /// The effect of a halfword store at aligned `a` on the plain memories.
    pub open spec fn half_written(self, f: Bus, a: u32, val: u16) -> bool {
        let rg = region(a);
        let lo = (val % 256) as u8;
        let hi = (val / 256) as u8;
        &&& rg == 5 ==> f == (Bus { palette: f.palette, ..self }) && f.palette@ == self.palette@.update(
            a as int % 0x400,
            lo,
        ).update(a as int % 0x400 + 1, hi)
        &&& rg == 6 ==> f == (Bus { vram: f.vram, ..self }) && f.vram@ == self.vram@.update(vram_off(a), lo).update(
            vram_off(a) + 1,
            hi,
        )
        &&& rg == 7 ==> f == (Bus { oam: f.oam, ..self }) && f.oam@ == self.oam@.update(a as int % 0x400, lo).update(
            a as int % 0x400 + 1,
            hi,
        )
        &&& rg == 0xD && self.cartridge.save_type == crate::cartridge::SaveType::Eeprom ==> f == (Bus {
            cartridge: f.cartridge,
            ..self
        }) && f.cartridge.eeprom_state() == crate::cartridge::eeprom_push(self.cartridge.eeprom_state(), (val % 2) as u8)
        &&& rg == 2 ==> f == (Bus { ewram: f.ewram, ..self }) && f.ewram@ == self.ewram@.update(a as int % 0x4_0000, lo).update(
            a as int % 0x4_0000 + 1,
            hi,
        )
        &&& rg == 3 ==> f == (Bus { iwram: f.iwram, ..self }) && f.iwram@ == self.iwram@.update(a as int % 0x8000, lo).update(
            a as int % 0x8000 + 1,
            hi,
        )
        &&& rg == 4 && a < 0x0400_0060 ==> f == (Bus { ppu: f.ppu, ..self })
    }

    /// The effect of a halfword store at aligned `a` elsewhere: a serial
    /// register takes it whole; outside video memory and the EEPROM it is two
    /// byte stores, low byte first.
    #[verifier::opaque]
    pub open spec fn half_effect(self, f: Bus, a: u32, val: u16) -> bool {
        let rg = region(a);
        let lo = (val % 256) as u8;
        let hi = (val / 256) as u8;
        &&& rg == 4 && sio_halfword(a) ==> self.sio_half_written(f, a, val)
        &&& rg != 5 && rg != 6 && rg != 7 && !(rg == 0xD && self.cartridge.save_type
            == crate::cartridge::SaveType::Eeprom) && !(rg == 4 && sio_halfword(a)) ==> exists|m: Bus|
            #[trigger] self.byte_written(m, a, lo) && m.byte_written(f, (a + 1) as u32, hi)
    }

    /// A halfword store to a serial register: taken whole by the serial port;
    /// a store to SIOCNT may start (or, with no link, at once complete) a
    /// transfer, whose completion with its interrupt enabled requests the
    /// serial interrupt.
    pub open spec fn sio_half_written(self, f: Bus, a: u32, val: u16) -> bool {
        &&& f == (Bus { io: Io { sio: f.io.sio, iflag: f.io.iflag, ..self.io }, ..self })
        &&& a == crate::sio::SIOCNT_ADDR ==> {
            let (s, irq) = crate::sio::Sio::started(crate::sio::Sio { siocnt: val, ..self.io.sio });
            &&& f.io.sio == s
            &&& f.io.iflag == if irq { self.io.iflag | crate::io::irq_bits::SERIAL } else { self.io.iflag }
        }
        &&& a != crate::sio::SIOCNT_ADDR ==> {
            &&& f.io.iflag == self.io.iflag
            &&& f.io.sio.siocnt == self.io.sio.siocnt
            &&& f.io.sio.link == self.io.sio.link
            &&& f.io.sio.read16(a) == val
        }
    }

    /// A halfword store at `a` outside video memory, the EEPROM and the
    /// serial registers, with a DMA turned on with immediate timing by either
    /// byte running at once.
    #[verifier::opaque]
    pub open spec fn half_runs(self, f: Bus, a: u32, val: u16) -> bool {
        let lo = (val % 256) as u8;
        let hi = (val / 256) as u8;
        exists|m: Bus|
            #[trigger] self.byte_written(m, a, lo) && m.byte_written(f, (a + 1) as u32, hi) && (self.starts_immediate(
                a,
                lo,
            ) ==> self.immediate_run(m, a, lo)) && (m.starts_immediate((a + 1) as u32, hi) ==> m.immediate_run(
                f,
                (a + 1) as u32,
                hi,
            ))
    }

    fn write16_video(&mut self, a: u32, lo: u8, hi: u8)
        requires
            old(self).wf(),
            region(a) == 5 || region(a) == 6 || region(a) == 7,
            a % 2 == 0,
        ensures
            final(self).wf(),
            old(self).half_written(*final(self), a, (lo as int + hi as int * 256) as u16),
            old(self).half_effect(*final(self), a, (lo as int + hi as int * 256) as u16),
    {
        proof {
            reveal(Bus::half_effect);
        }
        let rg = (a / 0x100_0000) % 16;
        proof {
            lemma_align2(a as int, 0x400);
        }
        if rg == 5 {
            let o = (a % 0x400) as usize;
            self.palette.set(o, lo);
            self.palette.set(o + 1, hi);
        } else if rg == 6 {
            let o = vram_offset(a);
            self.vram.set(o, lo);
            self.vram.set(o + 1, hi);
        } else {
            let o = (a % 0x400) as usize;
            self.oam.set(o, lo);
            self.oam.set(o + 1, hi);
        }
    }

    #[verifier::rlimit(50)]
    #[verifier::spinoff_prover]
    fn write16_bytes(&mut self, a: u32, lo: u8, hi: u8, depth: u8)
        requires
            old(self).wf(),
            region(a) != 5 && region(a) != 6 && region(a) != 7,
            !(region(a) == 0xD && old(self).cartridge.save_type == crate::cartridge::SaveType::Eeprom),
            !(region(a) == 4 && sio_halfword(a)),
            a % 2 == 0,
        ensures
            final(self).wf(),
            old(self).half_written(*final(self), a, (lo as int + hi as int * 256) as u16),
            old(self).half_effect(*final(self), a, (lo as int + hi as int * 256) as u16),
            depth > 0 ==> old(self).half_runs(*final(self), a, (lo as int + hi as int * 256) as u16),
        decreases depth, 1int,
    {
        let ghost b0 = *self;
        self.write8(a, lo, depth);
        let ghost b1 = *self;
        self.write8(a + 1, hi, depth);
        proof {
            lemma_half_bytes(b0, b1, *self, a, lo, hi);
            if depth > 0 {
                let v = (lo as int + hi as int * 256) as u16;
                assert(old(self).half_runs(*self, a, v)) by {
                    reveal(Bus::half_runs);
                    assert((v % 256) as u8 == lo && (v / 256) as u8 == hi);
                    assert(b0.byte_written(b1, a, lo) && b1.byte_written(*self, (a + 1) as u32, hi));
                }
            }
        }
    }

    fn write16(&mut self, addr: u32, val: u16, depth: u8)
        requires
            old(self).wf(),
        ensures
            final(self).wf(),
            old(self).half_written(*final(self), (addr - addr % 2) as u32, val),
            old(self).half_effect(*final(self), (addr - addr % 2) as u32, val),
            ({
                let a = (addr - addr % 2) as u32;
                let rg = region(a);
                depth > 0 && rg != 5 && rg != 6 && rg != 7 && !(rg == 0xD && old(self).cartridge.save_type
                    == crate::cartridge::SaveType::Eeprom) && !(rg == 4 && sio_halfword(a)) ==> old(self).half_runs(
                    *final(self),
                    a,
                    val,
                )
            }),
        decreases depth, 2int,
    {
        proof {
            reveal(Bus::half_effect);
        }
        let a = addr - addr % 2;
        let rg = (a / 0x100_0000) % 16;
        if rg == 0xD && self.cartridge.is_eeprom() {
            self.cartridge.eeprom_write_bit((val % 2) as u8);
            return;
        }
        if rg == 4 && sio_reg(a) {
            if self.io.sio.write_u16(a, val) {
                self.io.raise(crate::io::irq_bits::SERIAL);
            }
            return;
        }
        let lo = (val % 256) as u8;
        let hi = (val / 256) as u8;
        if rg == 5 || rg == 6 || rg == 7 {
            self.write16_video(a, lo, hi);
        } else {
            self.write16_bytes(a, lo, hi, depth);
        }
    }

    /// The effect of a word store at aligned `a` on the work RAMs.
    pub open spec fn word_written(self, f: Bus, a: u32, val: u32) -> bool {
        let rg = region(a);
        let b0 = (val % 256) as u8;
        let b1 = ((val / 0x100) % 256) as u8;
        let b2 = ((val / 0x1_0000) % 256) as u8;
        let b3 = (val / 0x100_0000) as u8;
        &&& rg == 2 ==> f == (Bus { ewram: f.ewram, ..self }) && f.ewram@ == self.ewram@.update(a as int % 0x4_0000, b0).update(
            a as int % 0x4_0000 + 1,
            b1,
        ).update(a as int % 0x4_0000 + 2, b2).update(a as int % 0x4_0000 + 3, b3)
        &&& rg == 3 ==> f == (Bus { iwram: f.iwram, ..self }) && f.iwram@ == self.iwram@.update(a as int % 0x8000, b0).update(
            a as int % 0x8000 + 1,
            b1,
        ).update(a as int % 0x8000 + 2, b2).update(a as int % 0x8000 + 3, b3)
    }

    /// The effect of a word store at aligned `a` in every region: two
    /// halfword stores (serial registers, video memory) or four byte stores,
    /// lowest address first.
    #[verifier::opaque]
    pub open spec fn word_effect(self, f: Bus, a: u32, val: u32) -> bool {
        &&& word_by_halves(a) ==> exists|m: Bus|
            #[trigger] self.half_written(m, a, (val % 0x1_0000) as u16) && m.half_written(
                f,
                (a + 2) as u32,
                (val / 0x1_0000) as u16,
            )
        &&& !word_by_halves(a) ==> exists|s1: Bus, s2: Bus, s3: Bus| #[trigger] word_bytes(self, s1, s2, s3, f, a, val)
    }

    /// A word store at `a` (outside video memory and the serial registers),
    /// with a DMA turned on with immediate timing by any of its bytes
    /// running at once.
    #[verifier::opaque]
    pub open spec fn word_runs(self, f: Bus, a: u32, val: u32) -> bool {
        let b0 = (val % 256) as u8;
        let b1 = ((val / 0x100) % 256) as u8;
        let b2 = ((val / 0x1_0000) % 256) as u8;
        let b3 = (val / 0x100_0000) as u8;
        exists|s1: Bus, s2: Bus, s3: Bus|
            #[trigger] word_bytes(self, s1, s2, s3, f, a, val) && (self.starts_immediate(a, b0) ==> self.immediate_run(
                s1,
                a,
                b0,
            )) && (s1.starts_immediate((a + 1) as u32, b1) ==> s1.immediate_run(s2, (a + 1) as u32, b1))
                && (s2.starts_immediate((a + 2) as u32, b2) ==> s2.immediate_run(s3, (a + 2) as u32, b2))
                && (s3.starts_immediate((a + 3) as u32, b3) ==> s3.immediate_run(f, (a + 3) as u32, b3))
    }

    /// Writes a word (the address is aligned down): serial registers and
    /// video memory as two halfwords, everything else as four bytes.
    pub fn write_u32(&mut self, addr: u32, val: u32)
        requires
            old(self).wf(),
        ensures
            final(self).wf(),
            old(self).word_written(*final(self), (addr - addr % 4) as u32, val),
            old(self).word_store(*final(self), (addr - addr % 4) as u32, val),
    {
        self.write32(addr, val, 1);
        proof {
            reveal(Bus::word_store);
        }
    }

    fn write32(&mut self, addr: u32, val: u32, depth: u8)
        requires
            old(self).wf(),
        ensures
            final(self).wf(),
            old(self).word_written(*final(self), (addr - addr % 4) as u32, val),
            old(self).word_effect(*final(self), (addr - addr % 4) as u32, val),
            depth > 0 && !word_by_halves((addr - addr % 4) as u32) ==> old(self).word_runs(
                *final(self),
                (addr - addr % 4) as u32,
                val,
            ),
        decreases depth, 4int,
    {
        let a = addr - addr % 4;
        let rg = (a / 0x100_0000) % 16;
        if (rg == 4 && sio_reg(a)) || rg == 5 || rg == 6 || rg == 7 {
            let ghost s0 = *self;
            self.write16(a, (val % 0x1_0000) as u16, depth);
            let ghost s1 = *self;
            self.write16(a + 2, (val / 0x1_0000) as u16, depth);
            proof {
                reveal(Bus::word_effect);
                assert(a % 2 == 0 && (a + 2) % 2 == 0);
                assert(s0.half_written(s1, a, (val % 0x1_0000) as u16));
                assert(s1.half_written(*self, (a + 2) as u32, (val / 0x1_0000) as u16));
            }
        } else {
            self.write32_bytes(a, val, depth);
        }
    }

    #[verifier::rlimit(100)]
    #[verifier::spinoff_prover]
    fn write32_bytes(&mut self, a: u32, val: u32, depth: u8)
        requires
            old(self).wf(),
            a % 4 == 0,
            !word_by_halves(a),
        ensures
            final(self).wf(),
            old(self).word_written(*final(self), a, val),
            old(self).word_effect(*final(self), a, val),
            depth > 0 && !word_by_halves(a) ==> old(self).word_runs(*final(self), a, val),
        decreases depth, 3int,
    {
        proof {
            lemma_align(a as int, 0x4_0000);
            lemma_align(a as int, 0x8000);
        }
        let ghost s0 = *self;
        self.write8(a, (val % 256) as u8, depth);
        let ghost s1 = *self;
        self.write8(a + 1, ((val / 0x100) % 256) as u8, depth);
        let ghost s2 = *self;
        self.write8(a + 2, ((val / 0x1_0000) % 256) as u8, depth);
        let ghost s3 = *self;
        self.write8(a + 3, (val / 0x100_0000) as u8, depth);
        proof {
            reveal(Bus::word_effect);
            reveal(Bus::word_runs);
            assert(word_bytes(s0, s1, s2, s3, *self, a, val));
            lemma_word_bytes_ram(s0, s1, s2, s3, *self, a, val);
        }
    }

    /// Runs every enabled channel whose timing matches `timing` (called at
    /// the start of VBlank and of HBlank).
    pub fn run_dma_timing(&mut self, timing: Timing)
        requires
            old(self).wf(),
        ensures
            final(self).wf(),
            (forall|n: int|
                0 <= n < 4 ==> !(#[trigger] old(self).dma.channels[n].is_enabled() && crate::dma::timing_of(
                    old(self).dma.channels[n].control,
                ) == timing)) ==> *final(self) == *old(self),
            exists|t: Seq<Bus>|
                #[trigger] dma_turns(t, timing) && t.len() == 5 && t[0] == *old(self) && t[4] == *final(self),
    {
        let ghost mut t = seq![*self];
        let mut n: usize = 0;
        while n < 4
            invariant
                n <= 4,
                self.wf(),
                (forall|j: int|
                    0 <= j < 4 ==> !(#[trigger] old(self).dma.channels[j].is_enabled() && crate::dma::timing_of(
                        old(self).dma.channels[j].control,
                    ) == timing)) ==> *self == *old(self),
                dma_turns(t, timing) && t.len() == n + 1 && t[0] == *old(self) && t[n as int] == *self,
            decreases 4 - n,
        {
            let ghost before = *self;
            if self.dma.channels[n].enabled() && self.dma.channels[n].timing() == timing {
                self.run_dma_channel(n, 0);
            }
            proof {
                let t0 = t;
                t = t.push(*self);
                assert(dma_turn(before, *self, n as int, timing));
                assert forall|i: int| 0 <= i < t.len() - 1 implies #[trigger] dma_turn(t[i], t[i + 1], i, timing) by {
                    if i < t0.len() - 1 {
                        assert(dma_turn(t0[i], t0[i + 1], i, timing));
                    }
                }
            }
            n = n + 1;
        }
    }

    /// Runs one complete transfer of channel `n`: copies its units between
    /// the latched pointers, reloads (repeat) or switches the channel off,
    /// and raises the channel's interrupt when asked. Transfers that enable
    /// another immediate channel do not start it.
    #[verifier::rlimit(50)]
    #[verifier::spinoff_prover]
    fn run_dma_channel(&mut self, n: usize, depth: u8)
        requires
            old(self).wf(),
            n < 4,
        ensures
            final(self).wf(),
            channel_ran(*old(self), *final(self), n as int),
        decreases depth, 6int,
    {
        let mut ch = self.dma.channels[n];
        if !ch.enabled() {
            return;
        }
        let unit = ch.unit_bytes();
        let sc = ch.src_control();
        let dc = ch.dst_control();
        let mut src = ch.int_src;
        let mut dst = ch.int_dst;
        let count = ch.int_count;
        let mut k: u32 = 0;
        let ghost mut t: Seq<Bus> = seq![*self];
        while k < count
            invariant
                k <= count,
                self.wf(),
                unit == 2 || unit == 4,
                unit == (if (ch.control / 0x400) % 2 == 1 { 4u32 } else { 2u32 }),
                sc == (ch.control / 128) % 4,
                dc == (ch.control / 32) % 4,
                src == dma_advanced(ch.int_src, sc as int, unit, k as nat),
                dst == dma_advanced(ch.int_dst, dc as int, unit, k as nat),
                t.len() == k + 1 && t[0] == *old(self) && t[k as int] == *self && dma_moves(t, ch),
            decreases count - k,
        {
            let ghost before = *self;
            self.move_unit(src, dst, unit, depth);
            proof {
                let t0 = t;
                t = t.push(*self);
                assert forall|j: int| 0 <= j < t.len() - 1 implies #[trigger] dma_unit(t[j], t[j + 1], ch, j) by {
                    if j < k {
                        assert(t[j] == t0[j] && t[j + 1] == t0[j + 1]);
                    } else {
                        assert(t[j] == before && t[j + 1] == *self);
                    }
                }
                lemma_advance_step(ch.int_src, sc as int, unit, k as nat);
                lemma_advance_step(ch.int_dst, dc as int, unit, k as nat);
            }
            src = dma_step(src, sc, unit);
            dst = dma_step(dst, dc, unit);
            k = k + 1;
        }
        let ghost moved = *self;
        let ghost ch0 = ch;
        ch.int_src = src;
        ch.int_dst = dst;
        if ch.repeat() && ch.timing() != Timing::Immediate {
            crate::dma::reload(&mut ch, n);
        } else {
            ch.control = ch.control % 0x8000;
        }
        let raise_irq = ch.irq_on_end();
        self.dma.channels[n] = ch;
        if raise_irq {
            let bit: u16 = if n == 0 { 0x100 } else if n == 1 { 0x200 } else if n == 2 { 0x400 } else { 0x800 };
            let f0 = self.io.iflag;
            self.io.raise(bit);
            assert((f0 | bit) & bit == bit) by (bit_vector);
        }
        proof {
            assert(dma_closed(moved, *self, n as int, ch0));
        }
    }

    /// Moves one DMA unit (a halfword or a word) from `src` to `dst`.
    fn move_unit(&mut self, src: u32, dst: u32, unit: u32, depth: u8)
        requires
            old(self).wf(),
            unit == 2 || unit == 4,
        ensures
            final(self).wf(),
            unit_moved(*old(self), *final(self), src, dst, unit),
        decreases depth, 5int,
    {
        proof {
            reveal(unit_moved);
        }
        if unit == 4 {
            let v = self.read_u32(src);
            self.write32(dst, v, depth);
        } else {
            let v = self.read_u16(src);
            self.write16(dst, v, depth);
        }
    }
}


/// Law: a byte written to work RAM reads back.
pub proof fn law_ram_byte_round_trip(b: Bus, f: Bus, addr: u32, val: u8)
    requires
        b.wf(),
        region(addr) == 2 || region(addr) == 3,
        b.byte_written(f, addr, val),
    ensures
        f.byte_at(addr) == val,
{
    lemma_byte_written_ram(b, f, addr, val);
    reveal(Bus::byte_at);
}

/// Law: a halfword written to work RAM or video memory reads back.
pub proof fn law_half_round_trip(b: Bus, f: Bus, a: u32, val: u16)
    requires
        b.wf(),
        a % 2 == 0,
        region(a) == 2 || region(a) == 3 || region(a) == 5 || region(a) == 6 || region(a) == 7,
        b.half_written(f, a, val),
    ensures
        f.half_at(a) == val,
{
    lemma_align2(a as int, 0x4_0000);
    lemma_align2(a as int, 0x8000);
    lemma_align2(a as int, 0x400);
    assert(vram_off(a) % 2 == 0 && vram_off(a) + 1 < VRAM_LEN) by {
        lemma_align2(a as int, 0x2_0000);
        lemma_align2(a as int % 0x2_0000, 0x8000);
    }
}

/// The memory cell a halfword at aligned `a` of a RAM region is held in:
/// the region and the offset in its memory (mirrors share a cell).
pub open spec fn half_cell(a: u32) -> (u32, int) {
    let rg = region(a);
    (rg, if rg == 2 {
        a as int % 0x4_0000
    } else if rg == 3 {
        a as int % 0x8000
    } else if rg == 6 {
        vram_off(a)
    } else {
        a as int % 0x400
    })
}

/// A RAM region: work RAM, palette RAM, VRAM or OAM.
pub open spec fn ram_region(a: u32) -> bool {
    region(a) == 2 || region(a) == 3 || region(a) == 5 || region(a) == 6 || region(a) == 7
}

/// Where a halfword lands in its memory: an even offset with room for both
/// bytes.
proof fn lemma_half_cell(a: u32)
    requires
        a % 2 == 0,
        ram_region(a),
    ensures
        half_cell(a).1 % 2 == 0,
        region(a) == 2 ==> half_cell(a).1 + 1 < 0x4_0000,
        region(a) == 3 ==> half_cell(a).1 + 1 < 0x8000,
        region(a) == 6 ==> half_cell(a).1 + 1 < VRAM_LEN,
        region(a) == 5 || region(a) == 7 ==> half_cell(a).1 + 1 < 0x400,
{
    lemma_align2(a as int, 0x4_0000);
    lemma_align2(a as int, 0x8000);
    lemma_align2(a as int, 0x400);
    assert(vram_off(a) % 2 == 0 && vram_off(a) + 1 < VRAM_LEN) by {
        lemma_align2(a as int, 0x2_0000);
        lemma_align2(a as int % 0x2_0000, 0x8000);
    }
}

/// A halfword store to one cell of a RAM region leaves the halfword of
/// every other cell as it was.
#[verifier::rlimit(50)]
#[verifier::spinoff_prover]
proof fn lemma_half_store_other(b: Bus, f: Bus, a2: u32, v2: u16, a: u32)
    requires
        b.wf(),
        a % 2 == 0,
        a2 % 2 == 0,
        ram_region(a),
        ram_region(a2),
        half_cell(a) != half_cell(a2),
        b.half_written(f, a2, v2),
    ensures
        f.wf(),
        f.half_at(a) == b.half_at(a),
{
    lemma_half_cell(a);
    lemma_half_cell(a2);
}

/// Law: a halfword stored in a RAM region reads back after any number of
/// halfword stores to other cells of RAM.
pub proof fn law_half_survives_other_stores(b: Bus, bs: Seq<Bus>, addrs: Seq<u32>, vals: Seq<u16>, a: u32, v: u16)
    requires
        b.wf(),
        a % 2 == 0,
        ram_region(a),
        bs.len() == addrs.len() + 1,
        vals.len() == addrs.len(),
        b.half_written(bs[0], a, v),
        forall|i: int|
            0 <= i < addrs.len() ==> #[trigger] bs[i].half_written(bs[i + 1], addrs[i], vals[i]) && addrs[i] % 2 == 0
                && ram_region(addrs[i]) && half_cell(addrs[i]) != half_cell(a),
    ensures
        bs.last().half_at(a) == v,
    decreases addrs.len(),
{
    if addrs.len() == 0 {
        law_half_round_trip(b, bs[0], a, v);
    } else {
        let k = addrs.len() - 1;
        let pre = bs.drop_last();
        law_half_survives_other_stores(b, pre, addrs.drop_last(), vals.drop_last(), a, v);
        lemma_half_stores_wf(b, bs, addrs, vals, a, v, k);
        assert(bs[k].half_written(bs[k + 1], addrs[k], vals[k]));
        lemma_half_store_other(bs[k], bs[k + 1], addrs[k], vals[k], a);
        assert(pre.last() == bs[k]);
    }
}

/// Every bus of a run of halfword stores to RAM is well formed.
proof fn lemma_half_stores_wf(b: Bus, bs: Seq<Bus>, addrs: Seq<u32>, vals: Seq<u16>, a: u32, v: u16, j: int)
    requires
        b.wf(),
        a % 2 == 0,
        ram_region(a),
        bs.len() == addrs.len() + 1,
        vals.len() == addrs.len(),
        b.half_written(bs[0], a, v),
        forall|i: int|
            0 <= i < addrs.len() ==> #[trigger] bs[i].half_written(bs[i + 1], addrs[i], vals[i]) && addrs[i] % 2 == 0
                && ram_region(addrs[i]) && half_cell(addrs[i]) != half_cell(a),
        0 <= j <= addrs.len(),
    ensures
        bs[j].wf(),
    decreases j,
{
    if j == 0 {
        lemma_half_cell(a);
    } else {
        let i = j - 1;
        lemma_half_stores_wf(b, bs, addrs, vals, a, v, i);
        assert(bs[i].half_written(bs[i + 1], addrs[i], vals[i]) && addrs[i] % 2 == 0 && ram_region(addrs[i]));
        lemma_half_cell(addrs[i]);
        assert(bs[i + 1] == bs[j]);
    }
}

/// Law: a word written to work RAM reads back.
pub proof fn law_word_round_trip(b: Bus, f: Bus, a: u32, val: u32)
    requires
        b.wf(),
        a % 4 == 0,
        region(a) == 2 || region(a) == 3,
        b.word_written(f, a, val),
    ensures
        f.word_at(a) == val,
{
    lemma_align(a as int, 0x4_0000);
    lemma_align(a as int, 0x8000);
}

/// The word at aligned `a` as its four bytes, little-endian, as byte reads
/// see them.
pub open spec fn bytes_word(b: Bus, a: u32) -> u32 {
    (b.byte_at(a) as int + b.byte_at((a + 1) as u32) as int * 0x100 + b.byte_at((a + 2) as u32) as int * 0x1_0000
        + b.byte_at((a + 3) as u32) as int * 0x100_0000) as u32
}

/// The four bytes of an aligned word lie in one region.
proof fn lemma_word_in_region(a: u32)
    requires
        a % 4 == 0,
    ensures
        region((a + 1) as u32) == region(a),
        region((a + 2) as u32) == region(a),
        region((a + 3) as u32) == region(a),
{
    let d = 0x100_0000int;
    lemma_align(a as int, d);
    let q = a as int / d;
    let r = a as int % d;
    vstd::arithmetic::div_mod::lemma_fundamental_div_mod(a as int, d);
    assert(a as int == q * d + r) by (nonlinear_arith)
        requires
            a as int == d * q + r,
    ;
    vstd::arithmetic::div_mod::lemma_fundamental_div_mod_converse(a as int + 1, d, q, r + 1);
    vstd::arithmetic::div_mod::lemma_fundamental_div_mod_converse(a as int + 2, d, q, r + 2);
    vstd::arithmetic::div_mod::lemma_fundamental_div_mod_converse(a as int + 3, d, q, r + 3);
}

/// Law: in work RAM and video memory a word read is the four bytes from its
/// aligned address, little-endian, as byte reads see them.
pub proof fn law_word_is_bytes(b: Bus, a: u32)
    requires
        a % 4 == 0,
        region(a) == 2 || region(a) == 3 || region(a) == 5 || region(a) == 6 || region(a) == 7,
    ensures
        b.word_at(a) == bytes_word(b, a),
{
    lemma_word_in_region(a);
    if region(a) == 2 {
        lemma_word_bytes_wram(b, a);
    } else if region(a) == 3 {
        lemma_word_bytes_iwram(b, a);
    } else if region(a) == 6 {
        lemma_word_bytes_vram(b, a);
    } else {
        lemma_word_bytes_small(b, a);
    }
}

#[verifier::spinoff_prover]
proof fn lemma_word_bytes_wram(b: Bus, a: u32)
    requires
        a % 4 == 0,
        region(a) == 2,
        region((a + 1) as u32) == 2 && region((a + 2) as u32) == 2 && region((a + 3) as u32) == 2,
    ensures
        b.word_at(a) == bytes_word(b, a),
{
    lemma_align(a as int, 0x4_0000);
    assert(((a + 1) as u32) as int % 0x4_0000 == a as int % 0x4_0000 + 1);
    assert(((a + 2) as u32) as int % 0x4_0000 == a as int % 0x4_0000 + 2);
    assert(((a + 3) as u32) as int % 0x4_0000 == a as int % 0x4_0000 + 3);
    let o = a as int % 0x4_0000;
    assert(b.byte_at(a) == b.ewram@[o]) by {
        reveal(Bus::byte_at);
    }
    assert(b.byte_at((a + 1) as u32) == b.ewram@[o + 1]) by {
        reveal(Bus::byte_at);
    }
    assert(b.byte_at((a + 2) as u32) == b.ewram@[o + 2]) by {
        reveal(Bus::byte_at);
    }
    assert(b.byte_at((a + 3) as u32) == b.ewram@[o + 3]) by {
        reveal(Bus::byte_at);
    }
}

#[verifier::spinoff_prover]
proof fn lemma_word_bytes_iwram(b: Bus, a: u32)
    requires
        a % 4 == 0,
        region(a) == 3,
        region((a + 1) as u32) == 3 && region((a + 2) as u32) == 3 && region((a + 3) as u32) == 3,
    ensures
        b.word_at(a) == bytes_word(b, a),
{
    lemma_align(a as int, 0x8000);
    assert(((a + 1) as u32) as int % 0x8000 == a as int % 0x8000 + 1);
    assert(((a + 2) as u32) as int % 0x8000 == a as int % 0x8000 + 2);
    assert(((a + 3) as u32) as int % 0x8000 == a as int % 0x8000 + 3);
    let o = a as int % 0x8000;
    assert(b.byte_at(a) == b.iwram@[o]) by {
        reveal(Bus::byte_at);
    }
    assert(b.byte_at((a + 1) as u32) == b.iwram@[o + 1]) by {
        reveal(Bus::byte_at);
    }
    assert(b.byte_at((a + 2) as u32) == b.iwram@[o + 2]) by {
        reveal(Bus::byte_at);
    }
    assert(b.byte_at((a + 3) as u32) == b.iwram@[o + 3]) by {
        reveal(Bus::byte_at);
    }
}

#[verifier::spinoff_prover]
proof fn lemma_word_bytes_vram(b: Bus, a: u32)
    requires
        a % 4 == 0,
        region(a) == 6,
        region((a + 1) as u32) == 6 && region((a + 2) as u32) == 6 && region((a + 3) as u32) == 6,
    ensures
        b.word_at(a) == bytes_word(b, a),
{
    lemma_align(a as int, 0x2_0000);
    let a2 = a as int % 0x2_0000;
    lemma_align(a2, 0x8000);
    lemma_align(a2, 0x1_0000);
    assert(((a + 1) as u32) as int % 0x2_0000 == a2 + 1);
    assert(((a + 2) as u32) as int % 0x2_0000 == a2 + 2);
    assert(((a + 3) as u32) as int % 0x2_0000 == a2 + 3);
    if a2 < 0x1_0000 {
        assert(a2 % 0x1_0000 == a2);
        assert(a2 + 3 < 0x1_0000);
    } else {
        assert((a2 + 1) % 0x8000 == a2 % 0x8000 + 1);
        assert((a2 + 2) % 0x8000 == a2 % 0x8000 + 2);
        assert((a2 + 3) % 0x8000 == a2 % 0x8000 + 3);
    }
    assert(vram_off((a + 1) as u32) == vram_off(a) + 1);
    assert(vram_off((a + 2) as u32) == vram_off(a) + 2);
    assert(vram_off((a + 3) as u32) == vram_off(a) + 3);
    let o = vram_off(a);
    assert(b.byte_at(a) == b.vram@[o]) by {
        reveal(Bus::byte_at);
    }
    assert(b.byte_at((a + 1) as u32) == b.vram@[o + 1]) by {
        reveal(Bus::byte_at);
    }
    assert(b.byte_at((a + 2) as u32) == b.vram@[o + 2]) by {
        reveal(Bus::byte_at);
    }
    assert(b.byte_at((a + 3) as u32) == b.vram@[o + 3]) by {
        reveal(Bus::byte_at);
    }
}

#[verifier::spinoff_prover]
proof fn lemma_word_bytes_small(b: Bus, a: u32)
    requires
        a % 4 == 0,
        region(a) == 5 || region(a) == 7,
        region((a + 1) as u32) == region(a) && region((a + 2) as u32) == region(a) && region((a + 3) as u32) == region(a),
    ensures
        b.word_at(a) == bytes_word(b, a),
{
    lemma_align(a as int, 0x400);
    assert(((a + 1) as u32) as int % 0x400 == a as int % 0x400 + 1);
    assert(((a + 2) as u32) as int % 0x400 == a as int % 0x400 + 2);
    assert(((a + 3) as u32) as int % 0x400 == a as int % 0x400 + 3);
    if region(a) == 5 {
        let o = a as int % 0x400;
        assert(b.byte_at(a) == b.palette@[o]) by {
            reveal(Bus::byte_at);
        }
        assert(b.byte_at((a + 1) as u32) == b.palette@[o + 1]) by {
            reveal(Bus::byte_at);
        }
        assert(b.byte_at((a + 2) as u32) == b.palette@[o + 2]) by {
            reveal(Bus::byte_at);
        }
        assert(b.byte_at((a + 3) as u32) == b.palette@[o + 3]) by {
            reveal(Bus::byte_at);
        }
    } else {
        let o = a as int % 0x400;
        assert(b.byte_at(a) == b.oam@[o]) by {
            reveal(Bus::byte_at);
        }
        assert(b.byte_at((a + 1) as u32) == b.oam@[o + 1]) by {
            reveal(Bus::byte_at);
        }
        assert(b.byte_at((a + 2) as u32) == b.oam@[o + 2]) by {
            reveal(Bus::byte_at);
        }
        assert(b.byte_at((a + 3) as u32) == b.oam@[o + 3]) by {
            reveal(Bus::byte_at);
        }
    }
}

impl Default for Bus {
    fn default() -> (r: Bus)
        ensures
            r.wf(),
    {
        Bus::new()
    }
}

} // verus!
