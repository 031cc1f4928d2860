//! DMA: Direct Memory Access, four channels.
//!
//! Each channel copies blocks of 16- or 32-bit units without the CPU.
//! Registers at 0x040000B0..0x040000DF, 12 bytes per channel: SAD (source),
//! DAD (destination), CNT_L (count), CNT_H (control). The transfer itself runs
//! in the bus, which owns the memory; this module holds the register state and
//! decodes the control word.
use vstd::prelude::*;

verus! {

/// Base address of the DMA registers.
pub const DMA_BASE: u32 = 0x0400_00B0;

/// End (exclusive) of the DMA registers.
pub const DMA_END: u32 = 0x0400_00E0;

/// When a channel fires (control bits 12-13).
#[derive(PartialEq, Eq, Clone, Copy, Debug, Structural)]
pub enum Timing {
    Immediate,
    VBlank,
    HBlank,
    Special,
}

#[derive(Clone, Copy)]
pub struct DmaChannel {
    /// Source register.
    pub sad: u32,
    /// Destination register.
    pub dad: u32,
    /// Count register (CNT_L).
    pub count: u16,
    /// Control register (CNT_H).
    pub control: u16,
    /// Source latched when the channel was enabled.
    pub int_src: u32,
    /// Destination latched when the channel was enabled.
    pub int_dst: u32,
    /// Unit count latched when the channel was enabled.
    pub int_count: u32,
}

/// Timing selected by control bits 12-13.
pub open spec fn timing_of(control: u16) -> Timing {
    let t = (control / 4096) % 4;
    if t == 0 {
        Timing::Immediate
    } else if t == 1 {
        Timing::VBlank
    } else if t == 2 {
        Timing::HBlank
    } else {
        Timing::Special
    }
}

impl DmaChannel {
    pub open spec fn is_enabled(&self) -> bool {
        self.control / 0x8000 == 1
    }

    /// A channel with every register zero.
    pub fn zeroed() -> (r: DmaChannel)
        ensures
            r.sad == 0 && r.dad == 0 && r.count == 0 && r.control == 0 && r.int_src == 0
                && r.int_dst == 0 && r.int_count == 0,
    {
        DmaChannel { sad: 0, dad: 0, count: 0, control: 0, int_src: 0, int_dst: 0, int_count: 0 }
    }

    /// Channel enabled (control bit 15).
    pub fn enabled(&self) -> (r: bool)
        ensures
            r == self.is_enabled(),
    {
        self.control / 0x8000 == 1
    }

    /// Interrupt at the end of the transfer (control bit 14).
    pub fn irq_on_end(&self) -> (r: bool)
        ensures
            r == ((self.control / 0x4000) % 2 == 1),
    {
        (self.control / 0x4000) % 2 == 1
    }

    /// Repeat mode (control bit 9).
    pub fn repeat(&self) -> (r: bool)
        ensures
            r == ((self.control / 0x200) % 2 == 1),
    {
        (self.control / 0x200) % 2 == 1
    }

    /// Unit size in bytes: 4 when control bit 10 is set, else 2.
    pub fn unit_bytes(&self) -> (r: u32)
        ensures
            r == (if (self.control / 0x400) % 2 == 1 { 4u32 } else { 2u32 }),
    {
        if (self.control / 0x400) % 2 == 1 {
            4
        } else {
            2
        }
    }

    /// When the channel fires (control bits 12-13).
    pub fn timing(&self) -> (r: Timing)
        ensures
            r == timing_of(self.control),
    {
        let t = (self.control / 4096) % 4;
        if t == 0 {
            Timing::Immediate
        } else if t == 1 {
            Timing::VBlank
        } else if t == 2 {
            Timing::HBlank
        } else {
            Timing::Special
        }
    }

    /// Destination address control (bits 5-6): 0 increment, 1 decrement,
    /// 2 fixed, 3 increment and reload.
    pub fn dst_control(&self) -> (r: u8)
        ensures
            r == (self.control / 32) % 4,
    {
        ((self.control / 32) % 4) as u8
    }

    /// Source address control (bits 7-8): 0 increment, 1 decrement, 2 fixed,
    /// 3 prohibited.
    pub fn src_control(&self) -> (r: u8)
        ensures
            r == (self.control / 128) % 4,
    {
        ((self.control / 128) % 4) as u8
    }
}

pub struct Dma {
    pub channels: [DmaChannel; 4],
}

/// Address masks (source, destination) and count mask of channel `n`.
/// DMA0 reaches internal memory only; DMA3 has 28-bit addresses and a 16-bit
/// count; DMA1 and DMA2 sit in between.
pub open spec fn masks_of(n: int) -> (u32, u32, u32) {
    if n == 0 {
        (0x07FF_FFFF, 0x07FF_FFFF, 0x3FFF)
    } else if n == 1 || n == 2 {
        (0x0FFF_FFFF, 0x07FF_FFFF, 0x3FFF)
    } else {
        (0x0FFF_FFFF, 0x0FFF_FFFF, 0xFFFF)
    }
}

/// Units a transfer moves for a count register: the masked count, where 0
/// means the largest count the channel allows.
pub open spec fn units_of(count: u16, count_mask: u32) -> u32 {
    let c = (count as u32) & count_mask;
    if c == 0 { (count_mask + 1) as u32 } else { c }
}

/// `ch` after latching its registers as channel `n`.
pub open spec fn latched(ch: DmaChannel, n: int) -> DmaChannel {
    let (sm, dm, cm) = masks_of(n);
    DmaChannel {
        int_src: ch.sad & sm,
        int_dst: ch.dad & dm,
        int_count: units_of(ch.count, cm),
        ..ch
    }
}

/// Replaces byte `k` (0 = least significant) of a word.
pub open spec fn with_byte(w: u32, k: int, v: u8) -> u32 {
    let p: int = if k == 0 { 1 } else if k == 1 { 0x100 } else if k == 2 { 0x1_0000 } else { 0x100_0000 };
    (w as int - ((w as int / p) % 256) * p + (v as int) * p) as u32
}

pub(crate) fn set_byte(w: u32, k: usize, v: u8) -> (r: u32)
    requires
        k < 4,
    ensures
        r == with_byte(w, k as int, v),
{
    let p: u32 = if k == 0 { 1 } else if k == 1 { 0x100 } else if k == 2 { 0x1_0000 } else { 0x100_0000 };
    assert(((w / p) % 256) * p <= w) by (nonlinear_arith)
        requires p > 0;
    assert(w - ((w / p) % 256) * p + (v as u32) * p <= 0xFFFF_FFFF) by (nonlinear_arith)
        requires p == 1 || p == 0x100 || p == 0x1_0000 || p == 0x100_0000, v < 256;
    w - ((w / p) % 256) * p + (v as u32) * p
}

fn channel_masks(n: usize) -> (r: (u32, u32, u32))
    ensures
        r == masks_of(n as int),
{
    if n == 0 {
        (0x07FF_FFFF, 0x07FF_FFFF, 0x3FFF)
    } else if n == 1 || n == 2 {
        (0x0FFF_FFFF, 0x07FF_FFFF, 0x3FFF)
    } else {
        (0x0FFF_FFFF, 0x0FFF_FFFF, 0xFFFF)
    }
}

/// Latches the internal source, destination and count from the registers,
/// with the address and count masks of channel `n`.
pub fn latch(ch: &mut DmaChannel, n: usize)
    ensures
        *final(ch) == latched(*old(ch), n as int),
{
    let (src_mask, dst_mask, count_mask) = channel_masks(n);
    ch.int_src = ch.sad & src_mask;
    ch.int_dst = ch.dad & dst_mask;
    let cnt = ch.count as u32 & count_mask;
    ch.int_count = if cnt == 0 { count_mask + 1 } else { cnt };
}

/// Reloads the count (and the destination, when its control is
/// increment-and-reload) for repeat mode.
pub fn reload(ch: &mut DmaChannel, n: usize)
    ensures
        final(ch).int_count == units_of(old(ch).count, masks_of(n as int).2),
        final(ch).int_dst == (if (old(ch).control / 32) % 4 == 3 {
            old(ch).dad & masks_of(n as int).1
        } else {
            old(ch).int_dst
        }),
        final(ch).sad == old(ch).sad && final(ch).dad == old(ch).dad && final(ch).count == old(
            ch,
        ).count && final(ch).control == old(ch).control && final(ch).int_src == old(ch).int_src,
{
    let (_, dst_mask, count_mask) = channel_masks(n);
    let cnt = ch.count as u32 & count_mask;
    ch.int_count = if cnt == 0 { count_mask + 1 } else { cnt };
    if ch.dst_control() == 3 {
        ch.int_dst = ch.dad & dst_mask;
    }
}

/// Channel `o` with byte `k` of its registers (source, destination, count,
/// control) replaced by `val`.
pub open spec fn written_channel(o: DmaChannel, k: int, val: u8) -> DmaChannel {
    if k < 4 {
        DmaChannel { sad: with_byte(o.sad, k, val), ..o }
    } else if k < 8 {
        DmaChannel { dad: with_byte(o.dad, k - 4, val), ..o }
    } else if k == 8 {
        DmaChannel { count: ((o.count / 256) * 256 + val) as u16, ..o }
    } else if k == 9 {
        DmaChannel { count: ((o.count % 256) + val * 256) as u16, ..o }
    } else if k == 10 {
        DmaChannel { control: ((o.control / 256) * 256 + val) as u16, ..o }
    } else {
        DmaChannel { control: ((o.control % 256) + val * 256) as u16, ..o }
    }
}

/// Writing `val` to byte `k` of channel `o` turns it on.
pub open spec fn turns_on(o: DmaChannel, k: int, val: u8) -> bool {
    k == 11 && !o.is_enabled() && written_channel(o, k, val).is_enabled()
}

impl Dma {
    /// The effect of a register byte write: the channel addressed takes the
    /// byte, and is latched when the write turns it on; the others stay.
    pub open spec fn reg_written(self, f: Dma, addr: u32, val: u8) -> bool {
        let off = addr - DMA_BASE;
        let n = off / 12;
        let k = off % 12;
        let o = self.channels[n];
        let written = written_channel(o, k, val);
        &&& forall|j: int| 0 <= j < 4 && j != n ==> f.channels[j] == self.channels[j]
        &&& f.channels[n] == (if turns_on(o, k, val) { latched(written, n) } else { written })
    }

    /// Four idle channels.
    pub fn new() -> (r: Dma)
        ensures
            forall|i: int| 0 <= i < 4 ==> !(#[trigger] r.channels[i]).is_enabled(),
    {
        let z = DmaChannel::zeroed();
        Dma { channels: [z, z, z, z] }
    }

    /// Reads a register byte. SAD and DAD are not readable on hardware; the
    /// register value is returned.
    pub fn read_u8(&self, addr: u32) -> (r: u8)
        requires
            DMA_BASE <= addr < DMA_END,
        ensures
            ({
                let off = addr - DMA_BASE;
                let ch = self.channels[off / 12];
                let k = off % 12;
                r == (if k < 4 {
                    ((ch.sad as int / pow256(k)) % 256) as u8
                } else if k < 8 {
                    ((ch.dad as int / pow256(k - 4)) % 256) as u8
                } else if k == 8 {
                    (ch.count % 256) as u8
                } else if k == 9 {
                    (ch.count / 256) as u8
                } else if k == 10 {
                    (ch.control % 256) as u8
                } else {
                    (ch.control / 256) as u8
                })
            }),
    {
        let off = (addr - DMA_BASE) as usize;
        let ch = self.channels[off / 12];
        let k = off % 12;
        if k < 4 {
            ((ch.sad / pow256_exec(k)) % 256) as u8
        } else if k < 8 {
            ((ch.dad / pow256_exec(k - 4)) % 256) as u8
        } else if k == 8 {
            (ch.count % 256) as u8
        } else if k == 9 {
            (ch.count / 256) as u8
        } else if k == 10 {
            (ch.control % 256) as u8
        } else {
            (ch.control / 256) as u8
        }
    }

    /// Writes a register byte. Returns `Some(n)` when the write turned
    /// channel `n` on (enable bit 0 to 1); the channel is then latched.
    pub fn write_u8(&mut self, addr: u32, val: u8) -> (r: Option<usize>)
        requires
            DMA_BASE <= addr < DMA_END,
        ensures
            old(self).reg_written(*final(self), addr, val),
            r == (if turns_on(old(self).channels[(addr - DMA_BASE) / 12], (addr - DMA_BASE) % 12, val) {
                Some(((addr - DMA_BASE) / 12) as usize)
            } else {
                None
            }),
    {
        let off = (addr - DMA_BASE) as usize;
        let n = off / 12;
        let k = off % 12;
        let mut ch = self.channels[n];
        let v = val as u16;
        if k < 4 {
            ch.sad = set_byte(ch.sad, k, val);
        } else if k < 8 {
            ch.dad = set_byte(ch.dad, k - 4, val);
        } else if k == 8 {
            ch.count = (ch.count / 256) * 256 + v;
        } else if k == 9 {
            ch.count = (ch.count % 256) + v * 256;
        } else if k == 10 {
            ch.control = (ch.control / 256) * 256 + v;
        } else {
            let was_enabled = ch.enabled();
            ch.control = (ch.control % 256) + v * 256;
            if !was_enabled && ch.enabled() {
                latch(&mut ch, n);
                self.channels[n] = ch;
                return Some(n);
            }
        }
        self.channels[n] = ch;
        None
    }
}

/// `256^k`.
pub open spec fn pow256(k: int) -> int {
    if k == 0 { 1 } else if k == 1 { 0x100 } else if k == 2 { 0x1_0000 } else { 0x100_0000 }
}

fn pow256_exec(k: usize) -> (r: u32)
    requires
        k < 4,
    ensures
        r == pow256(k as int),
        r > 0,
{
    if k == 0 { 1 } else if k == 1 { 0x100 } else if k == 2 { 0x1_0000 } else { 0x100_0000 }
}

impl Default for Dma {
    fn default() -> (r: Dma)
        ensures
            forall|i: int| 0 <= i < 4 ==> !(#[trigger] r.channels[i]).is_enabled(),
    {
        Dma::new()
    }
}

} // verus!
