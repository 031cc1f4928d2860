//! High-level BIOS: the built-in BIOS image and the software interrupt
//! (SWI) services run directly by the emulator.
use vstd::prelude::*;
use crate::bus::Bus;
use crate::cpu::psr::{cpsr_mode, Cpsr, CpuMode};
use crate::cpu::registers::RegisterFile;
use crate::cpu::Cpu;

verus! {

/// The six instructions of the built-in IRQ vector at 0x18: save the
/// scratch registers, call the handler whose address the game left at
/// 0x03FFFFFC, restore, and return from the interrupt.
pub open spec fn trampoline_word(k: int) -> u32 {
    if k == 0 {
        0xE92D_500F
    } else if k == 1 {
        0xE3A0_0301
    } else if k == 2 {
        0xE28F_E000
    } else if k == 3 {
        0xE510_F004
    } else if k == 4 {
        0xE8BD_500F
    } else {
        0xE25E_F004
    }
}

/// The built-in BIOS image: 16 KB of zeros with the IRQ trampoline at 0x18
/// (little-endian words).
pub open spec fn builtin_image() -> Seq<u8> {
    Seq::new(
        0x4000,
        |i: int|
            if 0x18 <= i < 0x30 {
                ((trampoline_word((i - 0x18) / 4) as int / crate::dma::pow256((i - 0x18) % 4)) % 256) as u8
            } else {
                0u8
            },
    )
}

fn trampoline_word_exec(k: usize) -> (r: u32)
    requires
        k < 6,
    ensures
        r == trampoline_word(k as int),
{
    if k == 0 {
        0xE92D_500F
    } else if k == 1 {
        0xE3A0_0301
    } else if k == 2 {
        0xE28F_E000
    } else if k == 3 {
        0xE510_F004
    } else if k == 4 {
        0xE8BD_500F
    } else {
        0xE25E_F004
    }
}

/// Builds the built-in BIOS image.
pub fn builtin_bios() -> (r: Vec<u8>)
    ensures
        r@ == builtin_image(),
{
    let mut bios = crate::bus::zeroed_bytes(0x4000);
    let mut i: usize = 0x18;
    while i < 0x30
        invariant
            0x18 <= i <= 0x30,
            bios@.len() == 0x4000,
            forall|j: int| 0 <= j < 0x4000 && !(0x18 <= j < i) ==> bios@[j] == 0,
            forall|j: int| 0x18 <= j < i ==> bios@[j] == builtin_image()[j],
        decreases 0x30 - i,
    {
        let w = trampoline_word_exec((i - 0x18) / 4);
        let k = (i - 0x18) % 4;
        let p: u32 = if k == 0 { 1 } else if k == 1 { 0x100 } else if k == 2 { 0x1_0000 } else { 0x100_0000 };
        assert(p as int == crate::dma::pow256(k as int));
        bios.set(i, ((w / p) % 256) as u8);
        i = i + 1;
    }
    assert(bios@ =~= builtin_image());
    bios
}


/// What BIOS service `comment` does, called with CPU `o` and bus `ob`
/// (see `dispatch`).
pub open spec fn bios_done(o: Cpu, f: Cpu, ob: Bus, fb: Bus, comment: u8) -> bool {
    &&& comment == 0 ==> soft_reset_done(o, f, ob, fb)
    &&& comment == 1 ==> f == o && ram_reset_done(o.reg(0), ob, fb)
    &&& comment == 2 || comment == 3 || comment == 4 || comment == 5 ==> f == (Cpu { halted: true, ..o }) && fb == ob
    &&& comment == 9 || comment == 0x0A || comment > 0x18 ==> f == o && fb == ob
    &&& 0x0E <= comment <= 0x18 ==> f == o
    &&& comment == 0x18 ==> diff16_done(o, ob, fb)
    &&& comment == 0x10 ==> f == o && unpack_done(o, ob, fb)
    &&& comment == 6 ==> div_done(o, f, o.reg(0), o.reg(1))
    &&& comment == 7 ==> div_done(o, f, o.reg(1), o.reg(0))
    &&& comment == 8 ==> f.reg(0) as int * f.reg(0) as int <= o.reg(0) as int
        && (o.reg(0) as int) < (f.reg(0) as int + 1) * (f.reg(0) as int + 1)
    &&& comment == 0x0D ==> f.reg(0) == 0xBAAE_187F
    &&& 6 <= comment <= 8 || comment == 0x0D ==> fb == ob && f == (Cpu { regs: f.regs, ..o })
        && RegisterFile::same_banks(o.regs, f.regs)
    &&& comment == 8 || comment == 0x0D ==> f.regs.regs() == o.regs.regs().update(0, f.reg(0))
    &&& comment == 0x0B || comment == 0x0C ==> f == o
    &&& comment == 0x0B ==> {
        let src = o.reg(0);
        let dst = o.reg(1);
        let ctrl = o.reg(2);
        let count = (ctrl % 0x20_0000) as nat;
        let fill = (ctrl / 0x100_0000) % 2 == 1;
        let dw = crate::cpu::arm::align4(dst);
        let dh = crate::cpu::arm::align2(dst);
        &&& (ctrl / 0x400_0000) % 2 == 1 && set_source_ok(ob, src, count, fill, 4, dw) ==> ram_written(
            ob,
            fb,
            dw,
            words_data(ob, src, count, fill),
        )
        &&& (ctrl / 0x400_0000) % 2 == 0 && set_source_ok(ob, src, count, fill, 2, dh) ==> ram_written(
            ob,
            fb,
            dh,
            halves_data(ob, src, count, fill),
        )
    }
    &&& comment == 0x0C ==> {
        let src = o.reg(0);
        let dst = o.reg(1);
        let ctrl = o.reg(2);
        let count = ((ctrl % 0x20_0000 + 7) / 8 * 8) as nat;
        let fill = (ctrl / 0x100_0000) % 2 == 1;
        set_source_ok(ob, src, count, fill, 4, crate::cpu::arm::align4(dst)) ==> ram_written(
            ob,
            fb,
            crate::cpu::arm::align4(dst),
            words_data(ob, src, count, fill),
        )
    }
    &&& comment == 0x0E ==> exists|t: Seq<Bus>|
        #[trigger] bg_run(t, o.reg(0), o.reg(1)) && t.len() == o.reg(2) + 1 && t[0] == ob
            && t[o.reg(2) as int] == fb
    &&& comment == 0x0F ==> exists|t: Seq<Bus>|
        #[trigger] obj_run(t, o.reg(0), o.reg(1), o.reg(3)) && t.len() == o.reg(2) + 1
            && t[0] == ob && t[o.reg(2) as int] == fb
    &&& comment == 0x13 && ob.cartridge.save_type != crate::cartridge::SaveType::Eeprom ==> if ob.word_at(
        crate::cpu::arm::align4(o.reg(0)),
    ) % 16 > 8 {
        fb == ob
    } else {
        output_written(ob, fb, o.reg(1), huff_output(ob, o.reg(0)))
    }
    &&& (comment == 0x11 || comment == 0x12) && plain_header(ob, o.reg(0)) ==> output_written(
        ob,
        fb,
        o.reg(1),
        lz_stream(ob, comp_size(ob, o.reg(0)) as int, seq![], addr_plus(o.reg(0), 4)),
    )
    &&& (comment == 0x14 || comment == 0x15) && plain_header(ob, o.reg(0)) ==> output_written(
        ob,
        fb,
        o.reg(1),
        rl_stream(ob, comp_size(ob, o.reg(0)) as int, seq![], addr_plus(o.reg(0), 4)),
    )
    &&& (comment == 0x16 || comment == 0x17) && plain_header(ob, o.reg(0)) ==> output_written(
        ob,
        fb,
        o.reg(1),
        diff8_series(ob, addr_plus(o.reg(0), 4), comp_size(ob, o.reg(0)) as nat),
    )
}

/// Runs a software interrupt service of the built-in BIOS. `comment` is the
/// service number (bits 23-16 in ARM, 7-0 in THUMB). Unlike a real exception
/// entry, neither the mode nor the PC changes: the service takes effect and
/// execution goes on with the next instruction. Halt, Stop and the
/// interrupt waits only halt the CPU. Services 0x09 and 0x0A (ArcTan,
/// ArcTan2) and unknown numbers leave the state as it was.
#[verifier::spinoff_prover]
pub fn dispatch(cpu: &mut Cpu, bus: &mut Bus, comment: u8)
    requires
        old(cpu).wf(),
        old(bus).wf(),
    ensures
        final(cpu).wf(),
        final(bus).wf(),
        bios_done(*old(cpu), *final(cpu), *old(bus), *final(bus), comment),
{
    if comment == 0x00 {
        soft_reset(cpu, bus);
    } else if comment == 0x01 {
        register_ram_reset(cpu, bus);
    } else if comment == 0x02 || comment == 0x03 || comment == 0x04 || comment == 0x05 {
        cpu.halted = true;
    } else if comment == 0x06 {
        let num = cpu.regs.get(0);
        let den = cpu.regs.get(1);
        do_div(cpu, num, den);
    } else if comment == 0x07 {
        let den = cpu.regs.get(0);
        let num = cpu.regs.get(1);
        do_div(cpu, num, den);
    } else if comment == 0x08 {
        let v = cpu.regs.get(0);
        cpu.regs.set(0, isqrt(v) % 0x1_0000);
    } else if comment == 0x0B {
        cpu_set(cpu, bus);
    } else if comment == 0x0C {
        cpu_fast_set(cpu, bus);
    } else if comment == 0x0D {
        cpu.regs.set(0, 0xBAAE_187F);
    } else if comment == 0x0E {
        bg_affine_set(cpu, bus);
    } else if comment == 0x0F {
        obj_affine_set(cpu, bus);
    } else if comment == 0x10 {
        bit_unpack(cpu, bus);
    } else if comment == 0x11 || comment == 0x12 {
        lz77_uncomp(cpu, bus);
    } else if comment == 0x13 {
        huff_uncomp(cpu, bus);
    } else if comment == 0x14 || comment == 0x15 {
        rl_uncomp(cpu, bus);
    } else if comment == 0x16 || comment == 0x17 {
        diff_unfilter(cpu, bus, false);
    } else if comment == 0x18 {
        diff_unfilter(cpu, bus, true);
    }
}

/// The signed value of a register.
pub open spec fn sval(x: u32) -> int {
    crate::cpu::alu::signed(x)
}

/// A signed integer as a 32-bit register (two's complement).
pub open spec fn word_of(v: int) -> u32 {
    ((v % 0x1_0000_0000 + 0x1_0000_0000) % 0x1_0000_0000) as u32
}

/// Truncating division as on the hardware: the quotient rounds toward zero
/// and the remainder takes the numerator's sign (the wrapping result for
/// -2^31 / -1).
pub open spec fn trunc_div(n: int, d: int) -> int {
    if (n >= 0) == (d > 0) { magnitude(n) / magnitude(d) } else { -(magnitude(n) / magnitude(d)) }
}

/// The absolute value of an integer.
pub open spec fn magnitude(x: int) -> int {
    if x < 0 { -x } else { x }
}

/// Div's result: r0 the quotient, r1 the remainder, r3 the quotient's
/// magnitude; nothing happens for a zero denominator.
pub open spec fn div_done(o: Cpu, f: Cpu, num: u32, den: u32) -> bool {
    if den == 0 {
        f.regs.regs() == o.regs.regs()
    } else {
        let q = trunc_div(sval(num), sval(den));
        let r = sval(num) - q * sval(den);
        &&& f.reg(0) == word_of(q)
        &&& f.reg(1) == word_of(r)
        &&& f.reg(3) == (if q == 0x8000_0000 { 0x8000_0000u32 } else { word_of(magnitude(q)) })
        &&& f.reg(2) == o.reg(2)
        &&& forall|i: int| 4 <= i < 16 ==> f.reg(i) == o.reg(i)
    }
}

#[verifier::rlimit(50)]
#[verifier::spinoff_prover]
fn do_div(cpu: &mut Cpu, num: u32, den: u32)
    requires
        old(cpu).wf(),
    ensures
        final(cpu).wf(),
        div_done(*old(cpu), *final(cpu), num, den),
        final(cpu).cpsr == old(cpu).cpsr && final(cpu).halted == old(cpu).halted,
        *final(cpu) == (Cpu { regs: final(cpu).regs, ..*old(cpu) }),
        RegisterFile::same_banks(old(cpu).regs, final(cpu).regs),
{
    if den == 0 {
        return;
    }
    let n: i64 = if num >= 0x8000_0000 { num as i64 - 0x1_0000_0000 } else { num as i64 };
    let d: i64 = if den >= 0x8000_0000 { den as i64 - 0x1_0000_0000 } else { den as i64 };
    let na: i64 = if n < 0 { -n } else { n };
    let da: i64 = if d < 0 { -d } else { d };
    let qa: i64 = na / da;
    let q: i64 = if (n >= 0) == (d > 0) { qa } else { -qa };
    assert(q * d <= 0x1_0000_0000 * 0x8000_0000 && q * d >= -(0x1_0000_0000 * 0x8000_0000)) by (nonlinear_arith)
        requires
            -0x8000_0000 <= d <= 0x7FFF_FFFF,
            d != 0,
            0 <= qa <= 0x8000_0000,
            q == qa || q == -qa,
    ;
    assert(qa * da <= na) by (nonlinear_arith)
        requires
            da > 0,
            na >= 0,
            qa == na / da,
    ;
    assert(q * d == qa * da || q * d == -(qa * da)) by (nonlinear_arith)
        requires
            q == qa || q == -qa,
            d == da || d == -da,
    ;
    let r: i64 = n - q * d;
    let qw = ((q % 0x1_0000_0000 + 0x1_0000_0000) % 0x1_0000_0000) as u32;
    let rw = ((r % 0x1_0000_0000 + 0x1_0000_0000) % 0x1_0000_0000) as u32;
    let qabs: i64 = if q < 0 { -q } else { q };
    let aw = if qabs == 0x8000_0000 { 0x8000_0000u32 } else { ((qabs % 0x1_0000_0000 + 0x1_0000_0000) % 0x1_0000_0000) as u32 };
    cpu.regs.set(0, qw);
    cpu.regs.set(1, rw);
    cpu.regs.set(3, aw);
}

/// Integer square root of a word (`floor(sqrt(v))`).
pub fn isqrt(v: u32) -> (r: u32)
    ensures
        r as int * r as int <= v as int,
        (v as int) < (r as int + 1) * (r as int + 1),
        r < 0x1_0000,
{
    let mut lo: u64 = 0;
    let mut hi: u64 = 0x1_0000;
    let x = v as u64;
    while hi - lo > 1
        invariant
            lo < hi <= 0x1_0000,
            lo * lo <= x,
            x < hi * hi,
            x == v,
        decreases hi - lo,
    {
        let mid = lo + (hi - lo) / 2;
        assert(mid * mid <= 0x1_0000 * 0x1_0000) by (nonlinear_arith)
            requires
                mid <= 0x1_0000,
        ;
        if mid * mid <= x {
            lo = mid;
        } else {
            hi = mid;
        }
    }
    let r = lo as u32;
    proof {
        assert(hi == lo + 1);
    }
    r
}

/// SWI 0x00, SoftReset: clears 0x03007E00..0x03007FFF, sets up the stacks
/// as after boot and jumps to the ROM (flag byte at 0x03007FFA zero) or to
/// EWRAM.
fn soft_reset(cpu: &mut Cpu, bus: &mut Bus)
    requires
        old(cpu).wf(),
        old(bus).wf(),
    ensures
        final(cpu).wf(),
        final(bus).wf(),
        soft_reset_done(*old(cpu), *final(cpu), *old(bus), *final(bus)),
{
    let flag = bus.iwram[0x7FFA];
    zero_fill(&mut bus.iwram, 0x7E00, 0x8000);
    cpu.setup_direct_boot();
    let target: u32 = if flag == 0 { 0x0800_0000 } else { 0x0200_0000 };
    cpu.set_pc_arm(target);
    assert(0x0800_0000u32 & !3u32 == 0x0800_0000u32 && 0x0200_0000u32 & !3u32 == 0x0200_0000u32) by (bit_vector);
    assert(bus.iwram@ =~= Seq::new(0x8000, |i: int| if i >= 0x7E00 { 0u8 } else { old(bus).iwram@[i] }));
}

/// What SoftReset does: the top 0x200 bytes of IWRAM cleared and nothing
/// else on the bus; the CPU in the boot state (System mode, IRQ and FIQ
/// enabled, ARM, stacks 0x03007F00 / IRQ 0x03007FA0 / SVC 0x03007FE0, not
/// halted), jumping to the ROM, or to EWRAM when the byte at 0x03007FFA is
/// not zero.
pub open spec fn soft_reset_done(o: Cpu, f: Cpu, ob: Bus, fb: Bus) -> bool {
    &&& fb == (Bus { iwram: fb.iwram, ..ob })
    &&& fb.iwram@ == Seq::new(0x8000, |i: int| if i >= 0x7E00 { 0u8 } else { ob.iwram@[i] })
    &&& f.cpsr.0 == 0x1F
    &&& f.reg(13) == 0x0300_7F00
    &&& f.regs.banked_sp(CpuMode::Supervisor) == 0x0300_7FE0
    &&& f.regs.banked_sp(CpuMode::Irq) == 0x0300_7FA0
    &&& f.reg(15) == if ob.iwram@[0x7FFA] == 0 { 0x0800_0000u32 } else { 0x0200_0000u32 }
    &&& !f.halted
    &&& f.stats == o.stats
}

/// Zero-fills `v[start..end]`.
fn zero_fill(v: &mut Vec<u8>, start: usize, end: usize)
    requires
        start <= end <= old(v)@.len(),
    ensures
        final(v)@.len() == old(v)@.len(),
        forall|i: int| 0 <= i < final(v)@.len() ==> final(v)@[i] == if start <= i < end { 0u8 } else { old(v)@[i] },
{
    let mut i = start;
    while i < end
        invariant
            start <= i <= end <= v@.len(),
            v@.len() == old(v)@.len(),
            forall|j: int| 0 <= j < v@.len() ==> v@[j] == if start <= j < i { 0u8 } else { old(v)@[j] },
        decreases end - i,
    {
        v.set(i, 0);
        i = i + 1;
    }
}

/// What RegisterRamReset with flags `flags` does to the bus: each memory
/// whose bit is set is cleared (IWRAM below 0x7E00 only); besides those and
/// the video unit nothing changes.
pub open spec fn ram_reset_done(flags: u32, o: Bus, f: Bus) -> bool {
    &&& f == (Bus {
        ewram: f.ewram,
        iwram: f.iwram,
        palette: f.palette,
        vram: f.vram,
        oam: f.oam,
        ppu: f.ppu,
        ..o
    })
    &&& f.ewram@ == if flags % 2 == 1 { Seq::new(o.ewram@.len(), |i: int| 0u8) } else { o.ewram@ }
    &&& f.iwram@ == if (flags / 2) % 2 == 1 {
        Seq::new(o.iwram@.len(), |i: int| if i < 0x7E00 { 0u8 } else { o.iwram@[i] })
    } else {
        o.iwram@
    }
    &&& f.palette@ == if (flags / 4) % 2 == 1 { Seq::new(o.palette@.len(), |i: int| 0u8) } else { o.palette@ }
    &&& f.vram@ == if (flags / 8) % 2 == 1 { Seq::new(o.vram@.len(), |i: int| 0u8) } else { o.vram@ }
    &&& f.oam@ == if (flags / 16) % 2 == 1 { Seq::new(o.oam@.len(), |i: int| 0u8) } else { o.oam@ }
}

/// SWI 0x01, RegisterRamReset: r0 selects the memories to clear (bit 0
/// EWRAM, 1 IWRAM but its last 0x200 bytes, 2 palette, 3 VRAM, 4 OAM); the
/// display is forced blank.
fn register_ram_reset(cpu: &mut Cpu, bus: &mut Bus)
    requires
        old(cpu).wf(),
        old(bus).wf(),
    ensures
        final(cpu).wf(),
        final(bus).wf(),
        *final(cpu) == *old(cpu),
        ram_reset_done(old(cpu).reg(0), *old(bus), *final(bus)),
{
    let flags = cpu.regs.get(0);
    if flags % 2 == 1 {
        let n = bus.ewram.len();
        zero_fill(&mut bus.ewram, 0, n);
    }
    if (flags / 2) % 2 == 1 {
        zero_fill(&mut bus.iwram, 0, 0x7E00);
    }
    if (flags / 4) % 2 == 1 {
        let n = bus.palette.len();
        zero_fill(&mut bus.palette, 0, n);
    }
    if (flags / 8) % 2 == 1 {
        let n = bus.vram.len();
        zero_fill(&mut bus.vram, 0, n);
    }
    if (flags / 16) % 2 == 1 {
        let n = bus.oam.len();
        zero_fill(&mut bus.oam, 0, n);
    }
    proof {
        let o = *old(bus);
        let b = *bus;
        assert(b.ewram@ =~= if flags % 2 == 1 { Seq::new(o.ewram@.len(), |i: int| 0u8) } else { o.ewram@ });
        assert(b.iwram@ =~= if (flags / 2) % 2 == 1 {
            Seq::new(o.iwram@.len(), |i: int| if i < 0x7E00 { 0u8 } else { o.iwram@[i] })
        } else {
            o.iwram@
        });
        assert(b.palette@ =~= if (flags / 4) % 2 == 1 { Seq::new(o.palette@.len(), |i: int| 0u8) } else { o.palette@ });
        assert(b.vram@ =~= if (flags / 8) % 2 == 1 { Seq::new(o.vram@.len(), |i: int| 0u8) } else { o.vram@ });
        assert(b.oam@ =~= if (flags / 16) % 2 == 1 { Seq::new(o.oam@.len(), |i: int| 0u8) } else { o.oam@ });
    }
    bus.write_u16(0x0400_0000, 0x0080);
}

/// The bytes of a word, least significant first.
pub open spec fn word_bytes(w: u32) -> Seq<u8> {
    seq![(w % 256) as u8, ((w / 0x100) % 256) as u8, ((w / 0x1_0000) % 256) as u8, (w / 0x100_0000) as u8]
}

/// The bytes of a halfword, least significant first.
pub open spec fn half_bytes(h: u16) -> Seq<u8> {
    seq![(h % 256) as u8, (h / 256) as u8]
}

/// The address of unit `k` of a CpuSet source: `src` itself when filling,
/// else `k` units of `size` bytes further.
pub open spec fn unit_addr(src: u32, k: int, fill: bool, size: int) -> u32 {
    if fill { src } else { addr_plus(src, size * k) }
}

/// The bytes `n` words from `src` amount to (see `unit_addr`).
#[verifier::opaque]
pub open spec fn words_data(b: Bus, src: u32, n: nat, fill: bool) -> Seq<u8>
    decreases n,
{
    if n == 0 {
        seq![]
    } else {
        words_data(b, src, (n - 1) as nat, fill) + word_bytes(
            b.word_at(crate::cpu::arm::align4(unit_addr(src, n - 1, fill, 4))),
        )
    }
}

/// The bytes `n` halfwords from `src` amount to (see `unit_addr`).
#[verifier::opaque]
pub open spec fn halves_data(b: Bus, src: u32, n: nat, fill: bool) -> Seq<u8>
    decreases n,
{
    if n == 0 {
        seq![]
    } else {
        halves_data(b, src, (n - 1) as nat, fill) + half_bytes(
            b.half_at(crate::cpu::arm::align2(unit_addr(src, n - 1, fill, 2))),
        )
    }
}

/// Every source unit a CpuSet of `n` units reads (the first one at least)
/// lies outside the EEPROM window and apart from the `size * n` destination
/// bytes, so the writes do not change what is read.
pub open spec fn set_source_ok(b: Bus, src: u32, n: nat, fill: bool, size: int, dst: u32) -> bool {
    forall|k: int| 0 <= k < n || k == 0 ==> #[trigger] unit_ok(b, src, k, fill, size, dst, size * n)
}

/// Source unit `k` is read outside the EEPROM window and apart from the
/// `len` destination bytes from `dst`.
pub open spec fn unit_ok(b: Bus, src: u32, k: int, fill: bool, size: int, dst: u32, len: int) -> bool {
    let u = unit_addr(src, k, fill, size) as int;
    let a = (u - u % size) as u32;
    &&& crate::cpu::arm::plain_at(b, a)
    &&& apart(a, size, dst, len)
}

/// The `size` bytes at `a` and the `len` bytes from `dst` do not meet: they
/// lie in different regions, or, in one work RAM, at offsets that do not
/// overlap.
pub open spec fn apart(a: u32, size: int, dst: u32, len: int) -> bool {
    let rg = crate::bus::region(dst);
    let m = if rg == 2 { 0x4_0000int } else { 0x8000int };
    ||| crate::bus::region(a) != rg
    ||| (rg == 2 || rg == 3) && (a as int % m + size <= dst as int % m || dst as int % m + len <= a as int % m)
}

/// The bytes of an aligned unit share its region.
#[verifier::rlimit(50)]
#[verifier::spinoff_prover]
proof fn lemma_region_aligned(a: u32, k: int, size: int)
    requires
        size == 2 || size == 4,
        a % size as u32 == 0,
        0 <= k < size,
    ensures
        a + k < 0x1_0000_0000,
        crate::bus::region((a + k) as u32) == crate::bus::region(a),
{
    let x = a as int;
    let q = x / 0x100_0000;
    let r = x % 0x100_0000;
    vstd::arithmetic::div_mod::lemma_fundamental_div_mod(x, 0x100_0000);
    assert(r % size == 0) by (nonlinear_arith)
        requires
            x == 0x100_0000 * q + r,
            x % size == 0,
            size == 2 || size == 4,
    ;
    assert(r + k < 0x100_0000);
    vstd::arithmetic::div_mod::lemma_fundamental_div_mod_converse(x + k, 0x100_0000, q, r + k);
}

/// A write to a work RAM, palette RAM, VRAM or OAM leaves what is read from
/// other regions.
#[verifier::rlimit(50)]
#[verifier::spinoff_prover]
proof fn lemma_read_other_region(o: Bus, c: Bus, a: u32, size: int)
    requires
        size == 2 || size == 4,
        a % size as u32 == 0,
        c == (Bus { ewram: c.ewram, ..o }) && crate::bus::region(a) != 2 || c == (Bus { iwram: c.iwram, ..o })
            && crate::bus::region(a) != 3 || c == (Bus { palette: c.palette, ..o }) && crate::bus::region(a) != 5 || c
            == (Bus { vram: c.vram, ..o }) && crate::bus::region(a) != 6 || c == (Bus { oam: c.oam, ..o })
            && crate::bus::region(a) != 7,
    ensures
        size == 4 ==> c.word_at(a) == o.word_at(a),
        c.half_at(a) == o.half_at(a),
        c.cartridge == o.cartridge,
{
    reveal(Bus::byte_at);
    lemma_region_aligned(a, 1, size);
    if size == 4 {
        lemma_region_aligned(a, 2, size);
        lemma_region_aligned(a, 3, size);
    }
}

/// While a prefix of `data` is being stored from `dst`, a unit apart from
/// the destination reads as before.
#[verifier::rlimit(80)]
#[verifier::spinoff_prover]
proof fn lemma_read_apart(o: Bus, c: Bus, dst: u32, data: Seq<u8>, n: int, a: u32, size: int)
    requires
        o.wf(),
        written_prefix(o, c, dst, data, n),
        0 <= n <= data.len(),
        dst % 2 == 0,
        crate::bus::region(dst) == 2 && dst as int % 0x4_0000 + data.len() <= 0x4_0000 || crate::bus::region(dst) == 3
            && dst as int % 0x8000 + data.len() <= 0x8000,
        size == 2 || size == 4,
        a % size as u32 == 0,
        apart(a, size, dst, data.len() as int),
    ensures
        size == 4 ==> c.word_at(a) == o.word_at(a),
        c.half_at(a) == o.half_at(a),
        c.cartridge == o.cartridge,
{
    reveal(written_prefix);
    let rg = crate::bus::region(dst);
    if crate::bus::region(a) != rg {
        lemma_read_other_region(o, c, a, size);
    } else {
        let m = if rg == 2 { 0x4_0000int } else { 0x8000int };
        let off = a as int % m;
        let e = dst as int % m;
        assert((a % 0x4_0000u32) % 4 == a % 4 && (a % 0x4_0000u32) % 2 == a % 2 && (a % 0x8000u32) % 4 == a % 4 && (a
            % 0x8000u32) % 2 == a % 2) by (bit_vector);
        assert(off % size == 0 && off + size <= m);
        let mem_o = if rg == 2 { o.ewram@ } else { o.iwram@ };
        let mem_c = if rg == 2 { c.ewram@ } else { c.iwram@ };
        assert(mem_o.len() == m);
        assert(mem_c == mem_o.subrange(0, e) + data.subrange(0, n) + mem_o.subrange(e + n, m));
        assert forall|j: int| off <= j < off + size implies mem_c[j] == mem_o[j] by {
            if j < e {
                assert(mem_c[j] == mem_o.subrange(0, e)[j]);
            } else {
                assert(j >= e + n);
                assert(mem_c[j] == mem_o.subrange(e + n, m)[j - e - n]);
            }
        }
        if rg == 2 {
            assert(mem_c == c.ewram@);
        } else {
            assert(mem_c == c.iwram@);
        }
    }
}

/// Storing the next unit's bytes extends the written prefix.
#[verifier::rlimit(50)]
#[verifier::spinoff_prover]
proof fn lemma_store_unit(mem: Seq<u8>, prev: Seq<u8>, out: Seq<u8>, base: int, i: int, len: int, unit: Seq<u8>)
    requires
        mem.len() == len,
        0 <= base,
        0 <= i,
        i + unit.len() <= out.len(),
        base + out.len() <= len,
        out.subrange(i, i + unit.len()) == unit,
        prev == mem.subrange(0, base) + out.subrange(0, i) + mem.subrange(base + i, len),
    ensures
        unit.len() == 2 ==> prev.update(base + i, unit[0]).update(base + i + 1, unit[1]) == mem.subrange(0, base)
            + out.subrange(0, i + 2) + mem.subrange(base + i + 2, len),
        unit.len() == 4 ==> prev.update(base + i, unit[0]).update(base + i + 1, unit[1]).update(base + i + 2, unit[2]).update(
            base + i + 3,
            unit[3],
        ) == mem.subrange(0, base) + out.subrange(0, i + 4) + mem.subrange(base + i + 4, len),
{
    if unit.len() == 2 {
        assert(prev.update(base + i, unit[0]).update(base + i + 1, unit[1]) =~= mem.subrange(0, base) + out.subrange(
            0,
            i + 2,
        ) + mem.subrange(base + i + 2, len));
    }
    if unit.len() == 4 {
        assert(prev.update(base + i, unit[0]).update(base + i + 1, unit[1]).update(base + i + 2, unit[2]).update(
            base + i + 3,
            unit[3],
        ) =~= mem.subrange(0, base) + out.subrange(0, i + 4) + mem.subrange(base + i + 4, len));
    }
}

proof fn lemma_words_data_len(b: Bus, src: u32, n: nat, fill: bool)
    ensures
        words_data(b, src, n, fill).len() == 4 * n,
    decreases n,
{
    reveal(words_data);
    if n > 0 {
        lemma_words_data_len(b, src, (n - 1) as nat, fill);
    }
}

proof fn lemma_halves_data_len(b: Bus, src: u32, n: nat, fill: bool)
    ensures
        halves_data(b, src, n, fill).len() == 2 * n,
    decreases n,
{
    reveal(halves_data);
    if n > 0 {
        lemma_halves_data_len(b, src, (n - 1) as nat, fill);
    }
}

/// `c` is `o` with the first `n` bytes of `data` stored from `dst`, in the
/// cases `ram_written` speaks of.
#[verifier::opaque]
pub open spec fn written_prefix(o: Bus, c: Bus, dst: u32, data: Seq<u8>, n: int) -> bool {
    let rg = crate::bus::region(dst);
    let e = dst as int % 0x4_0000;
    let i = dst as int % 0x8000;
    &&& rg == 2 && dst % 2 == 0 && e + data.len() <= 0x4_0000 ==> c == (Bus { ewram: c.ewram, ..o }) && c.ewram@
        == o.ewram@.subrange(0, e) + data.subrange(0, n) + o.ewram@.subrange(e + n, 0x4_0000)
    &&& rg == 3 && dst % 2 == 0 && i + data.len() <= 0x8000 ==> c == (Bus { iwram: c.iwram, ..o }) && c.iwram@
        == o.iwram@.subrange(0, i) + data.subrange(0, n) + o.iwram@.subrange(i + n, 0x8000)
}

/// One more word of `data` stored extends the written prefix.
#[verifier::rlimit(50)]
#[verifier::spinoff_prover]
proof fn lemma_prefix_word(o: Bus, prev: Bus, c: Bus, dst: u32, data: Seq<u8>, n: int, val: u32)
    requires
        o.wf(),
        prev.wf(),
        dst % 4 == 0,
        0 <= n,
        n % 4 == 0,
        n + 4 <= data.len(),
        data.subrange(n, n + 4) == word_bytes(val),
        written_prefix(o, prev, dst, data, n),
        prev.word_written(c, (addr_plus(dst, n) - addr_plus(dst, n) % 4) as u32, val),
    ensures
        written_prefix(o, c, dst, data, n + 4),
{
    reveal(written_prefix);
    let rg = crate::bus::region(dst);
    let e = dst as int % 0x4_0000;
    let iw = dst as int % 0x8000;
    let a = addr_plus(dst, n);
    if rg == 2 && e + data.len() <= 0x4_0000 {
        lemma_window(dst, n, 0x4_0000);
        assert(a % 4 == 0) by {
            assert(dst as int == (dst as int / 0x4_0000) * 0x4_0000 + e);
        }
        lemma_store_unit(o.ewram@, prev.ewram@, data, e, n, 0x4_0000, word_bytes(val));
    }
    if rg == 3 && iw + data.len() <= 0x8000 {
        lemma_window(dst, n, 0x8000);
        assert(a % 4 == 0) by {
            assert(dst as int == (dst as int / 0x8000) * 0x8000 + iw);
        }
        lemma_store_unit(o.iwram@, prev.iwram@, data, iw, n, 0x8000, word_bytes(val));
    }
}

/// Nothing stored yet.
proof fn lemma_prefix_start(o: Bus, dst: u32, data: Seq<u8>)
    requires
        o.wf(),
    ensures
        written_prefix(o, o, dst, data, 0),
{
    reveal(written_prefix);
    assert(o.ewram@ =~= o.ewram@.subrange(0, dst as int % 0x4_0000) + data.subrange(0, 0) + o.ewram@.subrange(
        dst as int % 0x4_0000,
        0x4_0000,
    ));
    assert(o.iwram@ =~= o.iwram@.subrange(0, dst as int % 0x8000) + data.subrange(0, 0) + o.iwram@.subrange(
        dst as int % 0x8000,
        0x8000,
    ));
}

/// All of `data` stored is what `ram_written` states.
proof fn lemma_prefix_done(o: Bus, c: Bus, dst: u32, data: Seq<u8>)
    requires
        written_prefix(o, c, dst, data, data.len() as int),
    ensures
        ram_written(o, c, dst, data),
{
    reveal(written_prefix);
    assert(data.subrange(0, data.len() as int) =~= data);
}

/// Writes `count` words from `src` (or the first one repeated, `fill`) to
/// `dst` on, one unit at a time: each source word is read just before its
/// store.
#[verifier::rlimit(100)]
#[verifier::spinoff_prover]
fn copy_words(bus: &mut Bus, src: u32, dst: u32, count: u32, fill: bool)
    requires
        old(bus).wf(),
    ensures
        final(bus).wf(),
        dst % 4 == 0 && set_source_ok(*old(bus), src, count as nat, fill, 4, dst) ==> ram_written(
            *old(bus),
            *final(bus),
            dst,
            words_data(*old(bus), src, count as nat, fill),
        ),
{
    let ghost data = words_data(*old(bus), src, count as nat, fill);
    let ghost track = dst % 4 == 0 && set_source_ok(*old(bus), src, count as nat, fill, 4, dst) && (
    crate::bus::region(dst) == 2 && dst as int % 0x4_0000 + 4 * count <= 0x4_0000 || crate::bus::region(dst) == 3
        && dst as int % 0x8000 + 4 * count <= 0x8000);
    proof {
        lemma_words_data_len(*old(bus), src, count as nat, fill);
        lemma_prefix_start(*old(bus), dst, data);
        if track {
            assert(unit_ok(*old(bus), src, 0, fill, 4, dst, 4 * count));
        }
    }
    let mut s = src;
    let mut d = dst;
    let mut value = bus.read_u32(s);
    let mut k: u32 = 0;
    while k < count
        invariant
            bus.wf(),
            old(bus).wf(),
            k <= count,
            data == words_data(*old(bus), src, count as nat, fill),
            data.len() == 4 * count,
            track ==> dst % 4 == 0 && set_source_ok(*old(bus), src, count as nat, fill, 4, dst),
            track ==> crate::bus::region(dst) == 2 && dst as int % 0x4_0000 + 4 * count <= 0x4_0000 || crate::bus::region(
                dst,
            ) == 3 && dst as int % 0x8000 + 4 * count <= 0x8000,
            s == (if fill { src } else { addr_plus(src, 4 * k) }),
            d == addr_plus(dst, 4 * k),
            track && fill ==> value == old(bus).word_at((src - src % 4) as u32),
            track ==> written_prefix(*old(bus), *bus, dst, data, 4 * k),
        decreases count - k,
    {
        let ghost prev = *bus;
        if !fill {
            proof {
                if track {
                    assert(unit_ok(*old(bus), src, k as int, fill, 4, dst, 4 * count));
                    lemma_read_apart(*old(bus), *bus, dst, data, 4 * k as int, (s - s % 4) as u32, 4);
                }
            }
            value = bus.read_u32(s);
            s = s.wrapping_add(4);
        }
        proof {
            if track {
                lemma_words_prefix(*old(bus), src, count as nat, (k + 1) as nat, fill);
            }
        }
        bus.write_u32(d, value);
        proof {
            if track {
                lemma_prefix_word(*old(bus), prev, *bus, dst, data, 4 * k as int, value);
            }
        }
        d = d.wrapping_add(4);
        k = k + 1;
    }
    proof {
        if track {
            lemma_prefix_done(*old(bus), *bus, dst, data);
        }
    }
}

/// The first `m` words of a longer run are the run of `m` words, whose last
/// four bytes are word `m - 1`.
#[verifier::rlimit(50)]
#[verifier::spinoff_prover]
proof fn lemma_words_prefix(b: Bus, src: u32, n: nat, m: nat, fill: bool)
    requires
        1 <= m <= n,
    ensures
        words_data(b, src, n, fill).subrange(4 * m - 4, 4 * m as int) == word_bytes(
            b.word_at(crate::cpu::arm::align4(unit_addr(src, m - 1, fill, 4))),
        ),
    decreases n,
{
    reveal(words_data);
    lemma_words_data_len(b, src, (n - 1) as nat, fill);
    if m == n {
        assert(words_data(b, src, n, fill).subrange(4 * m - 4, 4 * m as int) =~= word_bytes(
            b.word_at(crate::cpu::arm::align4(unit_addr(src, m - 1, fill, 4))),
        ));
    } else {
        lemma_words_prefix(b, src, (n - 1) as nat, m, fill);
        assert(words_data(b, src, n, fill).subrange(4 * m - 4, 4 * m as int) =~= words_data(
            b,
            src,
            (n - 1) as nat,
            fill,
        ).subrange(4 * m - 4, 4 * m as int));
    }
}

/// The halfword counterpart of `lemma_words_prefix`.
#[verifier::rlimit(50)]
#[verifier::spinoff_prover]
proof fn lemma_halves_prefix(b: Bus, src: u32, n: nat, m: nat, fill: bool)
    requires
        1 <= m <= n,
    ensures
        halves_data(b, src, n, fill).subrange(2 * m - 2, 2 * m as int) == half_bytes(
            b.half_at(crate::cpu::arm::align2(unit_addr(src, m - 1, fill, 2))),
        ),
    decreases n,
{
    reveal(halves_data);
    lemma_halves_data_len(b, src, (n - 1) as nat, fill);
    if m == n {
        assert(halves_data(b, src, n, fill).subrange(2 * m - 2, 2 * m as int) =~= half_bytes(
            b.half_at(crate::cpu::arm::align2(unit_addr(src, m - 1, fill, 2))),
        ));
    } else {
        lemma_halves_prefix(b, src, (n - 1) as nat, m, fill);
        assert(halves_data(b, src, n, fill).subrange(2 * m - 2, 2 * m as int) =~= halves_data(
            b,
            src,
            (n - 1) as nat,
            fill,
        ).subrange(2 * m - 2, 2 * m as int));
    }
}

/// One more halfword of `data` stored extends the written prefix.
#[verifier::rlimit(50)]
#[verifier::spinoff_prover]
proof fn lemma_prefix_half(o: Bus, prev: Bus, c: Bus, dst: u32, data: Seq<u8>, n: int, val: u16)
    requires
        o.wf(),
        prev.wf(),
        dst % 2 == 0,
        0 <= n,
        n % 2 == 0,
        n + 2 <= data.len(),
        data.subrange(n, n + 2) == half_bytes(val),
        written_prefix(o, prev, dst, data, n),
        prev.half_written(c, (addr_plus(dst, n) - addr_plus(dst, n) % 2) as u32, val),
    ensures
        written_prefix(o, c, dst, data, n + 2),
{
    reveal(written_prefix);
    let rg = crate::bus::region(dst);
    let e = dst as int % 0x4_0000;
    let iw = dst as int % 0x8000;
    if rg == 2 && e + data.len() <= 0x4_0000 {
        lemma_window(dst, n, 0x4_0000);
        lemma_store_unit(o.ewram@, prev.ewram@, data, e, n, 0x4_0000, half_bytes(val));
    }
    if rg == 3 && iw + data.len() <= 0x8000 {
        lemma_window(dst, n, 0x8000);
        lemma_store_unit(o.iwram@, prev.iwram@, data, iw, n, 0x8000, half_bytes(val));
    }
}

/// Writes `count` halfwords from `src` (or the first one repeated, `fill`)
/// to `dst` on, each source halfword read just before its store.
#[verifier::rlimit(100)]
#[verifier::spinoff_prover]
fn copy_halves(bus: &mut Bus, src: u32, dst: u32, count: u32, fill: bool)
    requires
        old(bus).wf(),
    ensures
        final(bus).wf(),
        dst % 2 == 0 && set_source_ok(*old(bus), src, count as nat, fill, 2, dst) ==> ram_written(
            *old(bus),
            *final(bus),
            dst,
            halves_data(*old(bus), src, count as nat, fill),
        ),
{
    let ghost data = halves_data(*old(bus), src, count as nat, fill);
    let ghost track = dst % 2 == 0 && set_source_ok(*old(bus), src, count as nat, fill, 2, dst) && (
    crate::bus::region(dst) == 2 && dst as int % 0x4_0000 + 2 * count <= 0x4_0000 || crate::bus::region(dst) == 3
        && dst as int % 0x8000 + 2 * count <= 0x8000);
    proof {
        lemma_halves_data_len(*old(bus), src, count as nat, fill);
        lemma_prefix_start(*old(bus), dst, data);
        if track {
            assert(unit_ok(*old(bus), src, 0, fill, 2, dst, 2 * count));
        }
    }
    let mut s = src;
    let mut d = dst;
    let mut value = bus.read_u16(s);
    let mut k: u32 = 0;
    while k < count
        invariant
            bus.wf(),
            old(bus).wf(),
            k <= count,
            data == halves_data(*old(bus), src, count as nat, fill),
            data.len() == 2 * count,
            track ==> dst % 2 == 0 && set_source_ok(*old(bus), src, count as nat, fill, 2, dst),
            track ==> crate::bus::region(dst) == 2 && dst as int % 0x4_0000 + 2 * count <= 0x4_0000 || crate::bus::region(
                dst,
            ) == 3 && dst as int % 0x8000 + 2 * count <= 0x8000,
            s == (if fill { src } else { addr_plus(src, 2 * k) }),
            d == addr_plus(dst, 2 * k),
            track && fill ==> value == old(bus).half_at((src - src % 2) as u32),
            track ==> written_prefix(*old(bus), *bus, dst, data, 2 * k),
        decreases count - k,
    {
        let ghost prev = *bus;
        if !fill {
            proof {
                if track {
                    assert(unit_ok(*old(bus), src, k as int, fill, 2, dst, 2 * count));
                    lemma_read_apart(*old(bus), *bus, dst, data, 2 * k as int, (s - s % 2) as u32, 2);
                }
            }
            value = bus.read_u16(s);
            s = s.wrapping_add(2);
        }
        proof {
            if track {
                lemma_halves_prefix(*old(bus), src, count as nat, (k + 1) as nat, fill);
            }
        }
        bus.write_u16(d, value);
        proof {
            if track {
                lemma_prefix_half(*old(bus), prev, *bus, dst, data, 2 * k as int, value);
            }
        }
        d = d.wrapping_add(2);
        k = k + 1;
    }
    proof {
        if track {
            lemma_prefix_done(*old(bus), *bus, dst, data);
        }
    }
}

/// SWI 0x0B, CpuSet: copies or fills r2 bits 0-20 units (bit 26: words,
/// else halfwords; bit 24: fill with the first source unit) from r0 to r1,
/// aligned down to the unit.
#[verifier::spinoff_prover]
pub fn cpu_set(cpu: &mut Cpu, bus: &mut Bus)
    requires
        old(cpu).wf(),
        old(bus).wf(),
    ensures
        final(cpu).wf(),
        final(bus).wf(),
        *final(cpu) == *old(cpu),
        ({
            let src = old(cpu).reg(0);
            let dst = old(cpu).reg(1);
            let ctrl = old(cpu).reg(2);
            let count = (ctrl % 0x20_0000) as nat;
            let fill = (ctrl / 0x100_0000) % 2 == 1;
            let dw = crate::cpu::arm::align4(dst);
            let dh = crate::cpu::arm::align2(dst);
            &&& (ctrl / 0x400_0000) % 2 == 1 && set_source_ok(*old(bus), src, count, fill, 4, dw) ==> ram_written(
                *old(bus),
                *final(bus),
                dw,
                words_data(*old(bus), src, count, fill),
            )
            &&& (ctrl / 0x400_0000) % 2 == 0 && set_source_ok(*old(bus), src, count, fill, 2, dh) ==> ram_written(
                *old(bus),
                *final(bus),
                dh,
                halves_data(*old(bus), src, count, fill),
            )
        }),
{
    let src = cpu.regs.get(0);
    let d = cpu.regs.get(1);
    let word = (cpu.regs.get(2) / 0x400_0000) % 2 == 1;
    let dst = if word { d - d % 4 } else { d - d % 2 };
    let ctrl = cpu.regs.get(2);
    let count = ctrl % 0x20_0000;
    let fill = (ctrl / 0x100_0000) % 2 == 1;
    if word {
        copy_words(bus, src, dst, count, fill);
    } else {
        copy_halves(bus, src, dst, count, fill);
    }
}

/// SWI 0x0C, CpuFastSet: like CpuSet with words only (r1 aligned down to
/// a word), the count rounded up to a multiple of 8.
#[verifier::spinoff_prover]
pub fn cpu_fast_set(cpu: &mut Cpu, bus: &mut Bus)
    requires
        old(cpu).wf(),
        old(bus).wf(),
    ensures
        final(cpu).wf(),
        final(bus).wf(),
        *final(cpu) == *old(cpu),
        ({
            let src = old(cpu).reg(0);
            let dst = old(cpu).reg(1);
            let ctrl = old(cpu).reg(2);
            let count = ((ctrl % 0x20_0000 + 7) / 8 * 8) as nat;
            let fill = (ctrl / 0x100_0000) % 2 == 1;
            let dw = crate::cpu::arm::align4(dst);
            set_source_ok(*old(bus), src, count, fill, 4, dw) ==> ram_written(
                *old(bus),
                *final(bus),
                dw,
                words_data(*old(bus), src, count, fill),
            )
        }),
{
    let src = cpu.regs.get(0);
    let d = cpu.regs.get(1);
    let dst = d - d % 4;
    let ctrl = cpu.regs.get(2);
    let n = ctrl % 0x20_0000;
    let count = (n + 7) / 8 * 8;
    let fill = (ctrl / 0x100_0000) % 2 == 1;
    copy_words(bus, src, dst, count, fill);
}

/// Quarter-wave sine table in 1.14 fixed point: `sin(i * 2pi / 256) * 16384`
/// for i in 0..=64.
pub open spec fn sin_quarter(i: int) -> int {
    if i == 0 { 0 } else if i == 1 { 402 } else if i == 2 { 804 } else if i == 3 { 1205 }
    else if i == 4 { 1606 } else if i == 5 { 2006 } else if i == 6 { 2404 } else if i == 7 { 2801 }
    else if i == 8 { 3196 } else if i == 9 { 3590 } else if i == 10 { 3981 } else if i == 11 { 4370 }
    else if i == 12 { 4756 } else if i == 13 { 5139 } else if i == 14 { 5520 } else if i == 15 { 5897 }
    else if i == 16 { 6270 } else if i == 17 { 6639 } else if i == 18 { 7005 } else if i == 19 { 7366 }
    else if i == 20 { 7723 } else if i == 21 { 8076 } else if i == 22 { 8423 } else if i == 23 { 8765 }
    else if i == 24 { 9102 } else if i == 25 { 9434 } else if i == 26 { 9760 } else if i == 27 { 10080 }
    else if i == 28 { 10394 } else if i == 29 { 10702 } else if i == 30 { 11003 } else if i == 31 { 11297 }
    else if i == 32 { 11585 } else if i == 33 { 11866 } else if i == 34 { 12140 } else if i == 35 { 12406 }
    else if i == 36 { 12665 } else if i == 37 { 12916 } else if i == 38 { 13160 } else if i == 39 { 13395 }
    else if i == 40 { 13623 } else if i == 41 { 13842 } else if i == 42 { 14053 } else if i == 43 { 14256 }
    else if i == 44 { 14449 } else if i == 45 { 14635 } else if i == 46 { 14811 } else if i == 47 { 14978 }
    else if i == 48 { 15137 } else if i == 49 { 15286 } else if i == 50 { 15426 } else if i == 51 { 15557 }
    else if i == 52 { 15679 } else if i == 53 { 15791 } else if i == 54 { 15893 } else if i == 55 { 15986 }
    else if i == 56 { 16069 } else if i == 57 { 16143 } else if i == 58 { 16207 } else if i == 59 { 16261 }
    else if i == 60 { 16305 } else if i == 61 { 16340 } else if i == 62 { 16364 } else if i == 63 { 16379 }
    else { 16384 }
}

/// The 256-entry sine table (1.14): the quarter wave mirrored.
pub open spec fn sin_lut(a: int) -> int {
    if a < 64 {
        sin_quarter(a)
    } else if a < 128 {
        sin_quarter(128 - a)
    } else if a < 192 {
        -sin_quarter(a - 128)
    } else {
        -sin_quarter(256 - a)
    }
}

fn sin_quarter_exec(i: u32) -> (r: i32)
    requires
        i <= 64,
    ensures
        r == sin_quarter(i as int),
        0 <= r <= 16384,
{
    if i == 0 { 0 } else if i == 1 { 402 } else if i == 2 { 804 } else if i == 3 { 1205 }
    else if i == 4 { 1606 } else if i == 5 { 2006 } else if i == 6 { 2404 } else if i == 7 { 2801 }
    else if i == 8 { 3196 } else if i == 9 { 3590 } else if i == 10 { 3981 } else if i == 11 { 4370 }
    else if i == 12 { 4756 } else if i == 13 { 5139 } else if i == 14 { 5520 } else if i == 15 { 5897 }
    else if i == 16 { 6270 } else if i == 17 { 6639 } else if i == 18 { 7005 } else if i == 19 { 7366 }
    else if i == 20 { 7723 } else if i == 21 { 8076 } else if i == 22 { 8423 } else if i == 23 { 8765 }
    else if i == 24 { 9102 } else if i == 25 { 9434 } else if i == 26 { 9760 } else if i == 27 { 10080 }
    else if i == 28 { 10394 } else if i == 29 { 10702 } else if i == 30 { 11003 } else if i == 31 { 11297 }
    else if i == 32 { 11585 } else if i == 33 { 11866 } else if i == 34 { 12140 } else if i == 35 { 12406 }
    else if i == 36 { 12665 } else if i == 37 { 12916 } else if i == 38 { 13160 } else if i == 39 { 13395 }
    else if i == 40 { 13623 } else if i == 41 { 13842 } else if i == 42 { 14053 } else if i == 43 { 14256 }
    else if i == 44 { 14449 } else if i == 45 { 14635 } else if i == 46 { 14811 } else if i == 47 { 14978 }
    else if i == 48 { 15137 } else if i == 49 { 15286 } else if i == 50 { 15426 } else if i == 51 { 15557 }
    else if i == 52 { 15679 } else if i == 53 { 15791 } else if i == 54 { 15893 } else if i == 55 { 15986 }
    else if i == 56 { 16069 } else if i == 57 { 16143 } else if i == 58 { 16207 } else if i == 59 { 16261 }
    else if i == 60 { 16305 } else if i == 61 { 16340 } else if i == 62 { 16364 } else if i == 63 { 16379 }
    else { 16384 }
}

/// Sine of angle `a` (0..256 is a full turn) in 1.14 fixed point.
pub fn sin_of(a: u32) -> (r: i32)
    requires
        a < 256,
    ensures
        r == sin_lut(a as int),
        -16384 <= r <= 16384,
{
    if a < 64 {
        sin_quarter_exec(a)
    } else if a < 128 {
        sin_quarter_exec(128 - a)
    } else if a < 192 {
        -sin_quarter_exec(a - 128)
    } else {
        -sin_quarter_exec(256 - a)
    }
}

/// The affine matrix of a scale pair and angle: PA = sx cos >> 14,
/// PB = -(sx sin >> 14), PC = sy sin >> 14, PD = sy cos >> 14 (arithmetic
/// shifts, rounding toward minus infinity).
#[verifier::opaque]
pub open spec fn affine_matrix(sx: int, sy: int, angle: int) -> (int, int, int, int) {
    let s = sin_lut(angle);
    let c = sin_lut((angle + 64) % 256);
    ((sx * c) / 16384, -((sx * s) / 16384), (sy * s) / 16384, (sy * c) / 16384)
}

/// `floor(v / 16384)` for |v| <= 2^30.
fn floor_div_16384(v: i64) -> (r: i64)
    requires
        -0x4000_0000 <= v <= 0x4000_0000,
    ensures
        r == v as int / 16384,
{
    let q = ((v + 0x4000_0000) as u64) / 16384;
    assert(q == v as int / 16384 + 0x1_0000);
    q as i64 - 0x1_0000
}

fn matrix(sx: i32, sy: i32, angle: u32) -> (r: (i64, i64, i64, i64))
    requires
        -0x8000 <= sx < 0x8000,
        -0x8000 <= sy < 0x8000,
        angle < 256,
    ensures
        (r.0 as int, r.1 as int, r.2 as int, r.3 as int) == affine_matrix(sx as int, sy as int, angle as int),
        -0x8000 <= r.0 <= 0x8000 && -0x8000 <= r.1 <= 0x8000,
        -0x8000 <= r.2 <= 0x8000 && -0x8000 <= r.3 <= 0x8000,
{
    let s = sin_of(angle) as i64;
    let c = sin_of((angle + 64) % 256) as i64;
    let x = sx as i64;
    let y = sy as i64;
    assert(-0x2000_0000 <= x * c <= 0x2000_0000 && -0x2000_0000 <= x * s <= 0x2000_0000) by (nonlinear_arith)
        requires
            -0x8000 <= x < 0x8000,
            -16384 <= c <= 16384,
            -16384 <= s <= 16384,
    ;
    assert(-0x2000_0000 <= y * c <= 0x2000_0000 && -0x2000_0000 <= y * s <= 0x2000_0000) by (nonlinear_arith)
        requires
            -0x8000 <= y < 0x8000,
            -16384 <= c <= 16384,
            -16384 <= s <= 16384,
    ;
    proof {
        reveal(affine_matrix);
    }
    let pa = floor_div_16384(x * c);
    let pb = -floor_div_16384(x * s);
    let pc = floor_div_16384(y * s);
    let pd = floor_div_16384(y * c);
    assert(forall|v: int| -0x2000_0000 <= v <= 0x2000_0000 ==> -0x8000 <= #[trigger] (v / 16384) <= 0x8000);
    (pa, pb, pc, pd)
}

/// A halfword read as signed.
pub open spec fn s16_of(h: u16) -> int {
    if h >= 0x8000 { h as int - 0x1_0000 } else { h as int }
}

/// A signed halfword read from the bus.
fn read_s16(bus: &mut Bus, addr: u32) -> (r: i32)
    requires
        old(bus).wf(),
    ensures
        final(bus).wf(),
        -0x8000 <= r < 0x8000,
        crate::cpu::arm::plain_at(*old(bus), crate::cpu::arm::align2(addr)) ==> *final(bus) == *old(bus) && r
            == s16_of(old(bus).half_at(crate::cpu::arm::align2(addr))),
{
    let v = bus.read_u16(addr);
    if v >= 0x8000 {
        v as i32 - 0x1_0000
    } else {
        v as i32
    }
}

/// An i64 as a 32-bit word (two's complement).
fn to_word(v: i64) -> (r: u32)
    ensures
        r == word_of(v as int),
{
    ((v % 0x1_0000_0000 + 0x1_0000_0000) % 0x1_0000_0000) as u32
}

/// `t` runs from `t[0]` to its last state through halfword stores of
/// `vals` at `addrs`, in order.
#[verifier::opaque]
pub open spec fn half_stores(t: Seq<Bus>, addrs: Seq<u32>, vals: Seq<u16>) -> bool {
    &&& t.len() == addrs.len() + 1
    &&& vals.len() == addrs.len()
    &&& forall|i: int|
        0 <= i < addrs.len() ==> #[trigger] t[i].half_written(t[i + 1], crate::cpu::arm::align2(addrs[i]), vals[i])
}

/// Four halfword stores in a row make a `half_stores` run.
proof fn lemma_four_stores(t: Seq<Bus>, addrs: Seq<u32>, vals: Seq<u16>)
    requires
        t.len() == 5,
        addrs.len() == 4,
        vals.len() == 4,
        t[0].half_written(t[1], crate::cpu::arm::align2(addrs[0]), vals[0]),
        t[1].half_written(t[2], crate::cpu::arm::align2(addrs[1]), vals[1]),
        t[2].half_written(t[3], crate::cpu::arm::align2(addrs[2]), vals[2]),
        t[3].half_written(t[4], crate::cpu::arm::align2(addrs[3]), vals[3]),
    ensures
        half_stores(t, addrs, vals),
{
    reveal(half_stores);
    assert forall|i: int| 0 <= i < addrs.len() implies #[trigger] t[i].half_written(
        t[i + 1],
        crate::cpu::arm::align2(addrs[i]),
        vals[i],
    ) by {
        if i == 0 {
        } else if i == 1 {
        } else if i == 2 {
        } else {
        }
    }
}

/// `(d + k * s) mod 2^32`.
pub open spec fn stride_addr(d: u32, s: u32, k: int) -> u32 {
    ((d as int + k * s as int) % 0x1_0000_0000) as u32
}

/// One ObjAffineSet entry at `src`: when its three halfwords (scale X,
/// scale Y, angle in the high byte) are read outside the EEPROM window,
/// PA, PB, PC and PD go to `dst`, `dst + off`, `dst + 2 off`, `dst + 3 off`.
#[verifier::opaque]
pub open spec fn obj_entry(b: Bus, f: Bus, src: u32, dst: u32, off: u32) -> bool {
    let a0 = crate::cpu::arm::align2(src);
    let a1 = crate::cpu::arm::align2(addr_plus(src, 2));
    let a2 = crate::cpu::arm::align2(addr_plus(src, 4));
    crate::cpu::arm::plain_at(b, a0) && crate::cpu::arm::plain_at(b, a1) && crate::cpu::arm::plain_at(b, a2) ==> {
        let m = affine_matrix(s16_of(b.half_at(a0)), s16_of(b.half_at(a1)), (b.half_at(a2) / 256) as int);
        exists|t: Seq<Bus>| #[trigger] matrix_stores(t, dst, off, m) && t[0] == b && t[4] == f
    }
}

/// `t` stores the four matrix entries as halfwords at `dst` with a stride
/// of `off` bytes.
pub open spec fn matrix_stores(t: Seq<Bus>, dst: u32, off: u32, m: (int, int, int, int)) -> bool {
    half_stores(
        t,
        seq![dst, stride_addr(dst, off, 1), stride_addr(dst, off, 2), stride_addr(dst, off, 3)],
        seq![word_of(m.0) as u16, word_of(m.1) as u16, word_of(m.2) as u16, word_of(m.3) as u16],
    )
}

/// `t` is a run of ObjAffineSet entries: entry `k` reads 6 bytes further
/// than entry `k - 1` and writes `4 off` bytes further.
pub open spec fn obj_run(t: Seq<Bus>, src: u32, dst: u32, off: u32) -> bool {
    forall|k: int|
        0 <= k < t.len() - 1 ==> #[trigger] obj_entry(
            t[k],
            t[k + 1],
            addr_plus(src, 6 * k),
            stride_addr(dst, (off as int * 4 % 0x1_0000_0000) as u32, k),
            off,
        )
}

proof fn lemma_stride_next(d: u32, s: u32, k: int)
    requires
        0 <= k,
    ensures
        ((stride_addr(d, s, k) as int + s as int) % 0x1_0000_0000) as u32 == stride_addr(d, s, k + 1),
        ((addr_plus(d, k) as int + s as int) % 0x1_0000_0000) as u32 == addr_plus(d, k + s as int),
{
    vstd::arithmetic::div_mod::lemma_add_mod_noop(d as int + k * s as int, s as int, 0x1_0000_0000);
    vstd::arithmetic::div_mod::lemma_small_mod(s as nat, 0x1_0000_0000);
    vstd::arithmetic::div_mod::lemma_add_mod_noop(d as int + k, s as int, 0x1_0000_0000);
    assert(d as int + k * s as int + s as int == d as int + (k + 1) * s as int) by (nonlinear_arith);
}

/// Stores PA, PB, PC and PD (as halfwords) at `dst` with a stride of
/// `offset` bytes.
#[verifier::rlimit(50)]
#[verifier::spinoff_prover]
fn store_matrix(bus: &mut Bus, dst: u32, offset: u32, m: (i64, i64, i64, i64))
    requires
        old(bus).wf(),
    ensures
        final(bus).wf(),
        exists|t: Seq<Bus>|
            #[trigger] matrix_stores(t, dst, offset, (m.0 as int, m.1 as int, m.2 as int, m.3 as int)) && t[0]
                == *old(bus) && t[4] == *final(bus),
{
    let a1 = dst.wrapping_add(offset);
    let a2 = dst.wrapping_add(offset.wrapping_mul(2));
    let a3 = dst.wrapping_add(offset.wrapping_mul(3));
    proof {
        vstd::arithmetic::div_mod::lemma_add_mod_noop(dst as int, offset as int * 2, 0x1_0000_0000);
        vstd::arithmetic::div_mod::lemma_add_mod_noop(dst as int, offset as int * 3, 0x1_0000_0000);
        vstd::arithmetic::div_mod::lemma_small_mod(dst as nat, 0x1_0000_0000);
        assert(a1 == stride_addr(dst, offset, 1));
        assert(a2 == stride_addr(dst, offset, 2));
        assert(a3 == stride_addr(dst, offset, 3));
    }
    let v0 = to_word(m.0) as u16;
    let v1 = to_word(m.1) as u16;
    let v2 = to_word(m.2) as u16;
    let v3 = to_word(m.3) as u16;
    let ghost b0 = *bus;
    bus.write_u16(dst, v0);
    let ghost b1 = *bus;
    bus.write_u16(a1, v1);
    let ghost b2 = *bus;
    bus.write_u16(a2, v2);
    let ghost b3 = *bus;
    bus.write_u16(a3, v3);
    proof {
        let t = seq![b0, b1, b2, b3, *bus];
        let addrs = seq![dst, stride_addr(dst, offset, 1), stride_addr(dst, offset, 2), stride_addr(dst, offset, 3)];
        let vals = seq![v0, v1, v2, v3];
        lemma_four_stores(t, addrs, vals);
        assert(matrix_stores(t, dst, offset, (m.0 as int, m.1 as int, m.2 as int, m.3 as int)));
    }
}

/// One ObjAffineSet entry.
#[verifier::rlimit(50)]
#[verifier::spinoff_prover]
fn obj_affine_entry(bus: &mut Bus, src: u32, dst: u32, offset: u32)
    requires
        old(bus).wf(),
    ensures
        final(bus).wf(),
        obj_entry(*old(bus), *final(bus), src, dst, offset),
{
    let sx = read_s16(bus, src);
    let sy = read_s16(bus, src.wrapping_add(2));
    let angle = (bus.read_u16(src.wrapping_add(4)) / 256) as u32;
    let m = matrix(sx, sy, angle);
    store_matrix(bus, dst, offset, m);
    proof {
        reveal(obj_entry);
    }
}

/// SWI 0x0F, ObjAffineSet: for r2 entries of 6 bytes at r0 (scale X/Y,
/// angle), writes PA, PB, PC, PD at r1 with a stride of r3 bytes.
#[verifier::rlimit(50)]
#[verifier::spinoff_prover]
fn obj_affine_set(cpu: &mut Cpu, bus: &mut Bus)
    requires
        old(cpu).wf(),
        old(bus).wf(),
    ensures
        final(cpu).wf(),
        final(bus).wf(),
        *final(cpu) == *old(cpu),
        exists|t: Seq<Bus>|
            #[trigger] obj_run(t, old(cpu).reg(0), old(cpu).reg(1), old(cpu).reg(3)) && t.len() == old(cpu).reg(2) + 1
                && t[0] == *old(bus) && t[old(cpu).reg(2) as int] == *final(bus),
{
    let src0 = cpu.regs.get(0);
    let dst0 = cpu.regs.get(1);
    let count = cpu.regs.get(2);
    let offset = cpu.regs.get(3);
    let step = offset.wrapping_mul(4);
    let mut src = src0;
    let mut dst = dst0;
    let ghost mut t = seq![*bus];
    let mut k: u32 = 0;
    while k < count
        invariant
            bus.wf(),
            k <= count,
            step == (offset as int * 4 % 0x1_0000_0000) as u32,
            src == addr_plus(src0, 6 * k),
            dst == stride_addr(dst0, step, k as int),
            t.len() == k + 1 && t[0] == *old(bus) && t[k as int] == *bus,
            obj_run(t, src0, dst0, offset),
            *cpu == *old(cpu),
            src0 == old(cpu).reg(0) && dst0 == old(cpu).reg(1) && count == old(cpu).reg(2) && offset == old(cpu).reg(3),
        decreases count - k,
    {
        let ghost before = *bus;
        obj_affine_entry(bus, src, dst, offset);
        proof {
            let t0 = t;
            t = t.push(*bus);
            assert forall|j: int| 0 <= j < t.len() - 1 implies #[trigger] obj_entry(
                t[j],
                t[j + 1],
                addr_plus(src0, 6 * j),
                stride_addr(dst0, (offset as int * 4 % 0x1_0000_0000) as u32, j),
                offset,
            ) by {
                if j < t0.len() - 1 {
                    assert(obj_entry(
                        t0[j],
                        t0[j + 1],
                        addr_plus(src0, 6 * j),
                        stride_addr(dst0, (offset as int * 4 % 0x1_0000_0000) as u32, j),
                        offset,
                    ));
                }
            }
            lemma_stride_next(dst0, step, k as int);
            lemma_stride_next(src0, 6, 6 * k as int);
        }
        src = src.wrapping_add(6);
        dst = dst.wrapping_add(step);
        k = k + 1;
    }
    assert(obj_run(t, src0, dst0, offset) && t.len() == count + 1 && t[0] == *old(bus) && t[count as int] == *bus);
}

/// One BgAffineSet entry at `src` (centre X/Y as words, screen X/Y, scale
/// X/Y and the angle in the high byte as halfwords): when all of it is read
/// outside the EEPROM window, PA..PD go to `dst`..`dst + 6` as halfwords,
/// then the start point `centre - matrix * screen` to `dst + 8` and
/// `dst + 12` as words.
#[verifier::opaque]
pub open spec fn bg_entry(b: Bus, f: Bus, src: u32, dst: u32) -> bool {
    let w0 = crate::cpu::arm::align4(src);
    let w1 = crate::cpu::arm::align4(addr_plus(src, 4));
    let h = |k: int| crate::cpu::arm::align2(addr_plus(src, k));
    bg_plain(b, src) ==> {
        let m = affine_matrix(s16_of(b.half_at(h(12))), s16_of(b.half_at(h(14))), (b.half_at(h(16)) / 256) as int);
        let dx = s16_of(b.half_at(h(8)));
        let dy = s16_of(b.half_at(h(10)));
        let x = crate::cpu::alu::signed(b.word_at(w0)) - m.0 * dx - m.1 * dy;
        let y = crate::cpu::alu::signed(b.word_at(w1)) - m.2 * dx - m.3 * dy;
        exists|t: Seq<Bus>| #[trigger] bg_stores(t, dst, m, x, y) && t[0] == b && t[6] == f
    }
}

/// The seven reads of a BgAffineSet entry at `src` all fall outside the
/// EEPROM window.
#[verifier::opaque]
pub open spec fn bg_plain(b: Bus, src: u32) -> bool {
    let h = |k: int| crate::cpu::arm::align2(addr_plus(src, k));
    &&& crate::cpu::arm::plain_at(b, crate::cpu::arm::align4(src))
    &&& crate::cpu::arm::plain_at(b, crate::cpu::arm::align4(addr_plus(src, 4)))
    &&& crate::cpu::arm::plain_at(b, h(8))
    &&& crate::cpu::arm::plain_at(b, h(10))
    &&& crate::cpu::arm::plain_at(b, h(12))
    &&& crate::cpu::arm::plain_at(b, h(14))
    &&& crate::cpu::arm::plain_at(b, h(16))
}

/// Reads a BgAffineSet entry: centre X/Y, screen X/Y, scale X/Y, angle.
#[verifier::rlimit(50)]
fn bg_read(bus: &mut Bus, src: u32) -> (r: (i64, i64, i64, i64, i32, i32, u32))
    requires
        old(bus).wf(),
    ensures
        final(bus).wf(),
        -0x8000 <= r.2 < 0x8000 && -0x8000 <= r.3 < 0x8000,
        -0x8000 <= r.4 < 0x8000 && -0x8000 <= r.5 < 0x8000,
        -0x8000_0000 <= r.0 < 0x8000_0000 && -0x8000_0000 <= r.1 < 0x8000_0000,
        r.6 < 256,
        bg_plain(*old(bus), src) ==> {
            let h = |k: int| crate::cpu::arm::align2(addr_plus(src, k));
            &&& *final(bus) == *old(bus)
            &&& r.0 == crate::cpu::alu::signed(old(bus).word_at(crate::cpu::arm::align4(src)))
            &&& r.1 == crate::cpu::alu::signed(old(bus).word_at(crate::cpu::arm::align4(addr_plus(src, 4))))
            &&& r.2 == s16_of(old(bus).half_at(h(8)))
            &&& r.3 == s16_of(old(bus).half_at(h(10)))
            &&& r.4 == s16_of(old(bus).half_at(h(12)))
            &&& r.5 == s16_of(old(bus).half_at(h(14)))
            &&& r.6 == old(bus).half_at(h(16)) / 256
        },
{
    let ghost b = *bus;
    proof {
        reveal(bg_plain);
        assert(src.wrapping_add(4) == addr_plus(src, 4));
        assert(src.wrapping_add(8) == addr_plus(src, 8));
        assert(src.wrapping_add(10) == addr_plus(src, 10));
        assert(src.wrapping_add(12) == addr_plus(src, 12));
        assert(src.wrapping_add(14) == addr_plus(src, 14));
        assert(src.wrapping_add(16) == addr_plus(src, 16));
    }
    let w0 = bus.read_u32(src);
    assert(bg_plain(b, src) ==> *bus == b && w0 == b.word_at(crate::cpu::arm::align4(src)));
    let w1 = bus.read_u32(src.wrapping_add(4));
    assert(bg_plain(b, src) ==> *bus == b && w1 == b.word_at(crate::cpu::arm::align4(addr_plus(src, 4))));
    let dispx = read_s16(bus, src.wrapping_add(8));
    assert(bg_plain(b, src) ==> *bus == b);
    let dispy = read_s16(bus, src.wrapping_add(10));
    assert(bg_plain(b, src) ==> *bus == b);
    let sx = read_s16(bus, src.wrapping_add(12));
    assert(bg_plain(b, src) ==> *bus == b);
    let sy = read_s16(bus, src.wrapping_add(14));
    assert(bg_plain(b, src) ==> *bus == b);
    let a = bus.read_u16(src.wrapping_add(16));
    assert(bg_plain(b, src) ==> *bus == b);
    (signed_word(w0) as i64, signed_word(w1) as i64, dispx as i64, dispy as i64, sx, sy, (a / 256) as u32)
}

/// `c - p * x - q * y`, for a 32-bit signed `c` and 16-bit factors.
fn start_point(c: i64, p: i64, q: i64, x: i64, y: i64) -> (r: i64)
    requires
        -0x8000_0000 <= c < 0x8000_0000,
        -0x8000 <= p <= 0x8000 && -0x8000 <= q <= 0x8000,
        -0x8000 <= x < 0x8000 && -0x8000 <= y < 0x8000,
    ensures
        r == c - p * x - q * y,
{
    assert(-0x4000_0000 <= p * x <= 0x4000_0000 && -0x4000_0000 <= q * y <= 0x4000_0000) by (nonlinear_arith)
        requires
            -0x8000 <= p <= 0x8000,
            -0x8000 <= q <= 0x8000,
            -0x8000 <= x < 0x8000,
            -0x8000 <= y < 0x8000,
    ;
    c - p * x - q * y
}

/// `t` stores the matrix as halfwords at `dst`.. and the start point as
/// words at `dst + 8` and `dst + 12`.
pub open spec fn bg_stores(t: Seq<Bus>, dst: u32, m: (int, int, int, int), x: int, y: int) -> bool {
    &&& t.len() == 7
    &&& matrix_stores(t.take(5), dst, 2, m)
    &&& t[4].word_written(t[5], crate::cpu::arm::align4(addr_plus(dst, 8)), word_of(x))
    &&& t[5].word_written(t[6], crate::cpu::arm::align4(addr_plus(dst, 12)), word_of(y))
}

/// `t` is a run of BgAffineSet entries, 20 bytes apart in the source and 16
/// in the destination.
pub open spec fn bg_run(t: Seq<Bus>, src: u32, dst: u32) -> bool {
    forall|k: int| 0 <= k < t.len() - 1 ==> #[trigger] bg_entry(t[k], t[k + 1], addr_plus(src, 20 * k), stride_addr(dst, 16, k))
}

/// One BgAffineSet entry.
#[verifier::rlimit(50)]
#[verifier::spinoff_prover]
fn bg_affine_entry(bus: &mut Bus, src: u32, dst: u32)
    requires
        old(bus).wf(),
    ensures
        final(bus).wf(),
        bg_entry(*old(bus), *final(bus), src, dst),
{
    let (cx, cy, dispx, dispy, sx, sy, angle) = bg_read(bus, src);
    let (pa, pb, pc, pd) = matrix(sx, sy, angle);
    let ghost b0 = *bus;
    store_matrix(bus, dst, 2, (pa, pb, pc, pd));
    let ghost b4 = *bus;
    let start_x = start_point(cx, pa, pb, dispx, dispy);
    let start_y = start_point(cy, pc, pd, dispx, dispy);
    bus.write_u32(dst.wrapping_add(8), to_word(start_x));
    let ghost b5 = *bus;
    bus.write_u32(dst.wrapping_add(12), to_word(start_y));
    proof {
        reveal(bg_entry);
        assert(dst.wrapping_add(8) == addr_plus(dst, 8));
        assert(dst.wrapping_add(12) == addr_plus(dst, 12));
        let m = (pa as int, pb as int, pc as int, pd as int);
        let t4 = choose|t: Seq<Bus>| #[trigger] matrix_stores(t, dst, 2, m) && t[0] == b0 && t[4] == b4;
        reveal(half_stores);
        assert(t4.len() == 5);
        let t = t4.push(b5).push(*bus);
        assert(t.take(5) =~= t4);
        assert(t[4] == b4 && t[5] == b5 && t[6] == *bus);
        assert(bg_stores(t, dst, m, start_x as int, start_y as int));
    }
}

/// SWI 0x0E, BgAffineSet: for r2 entries of 20 bytes at r0 (centre X/Y,
/// screen X/Y, scale X/Y, angle), writes 16 bytes at r1: PA, PB, PC, PD and
/// the start point `centre - matrix * screen`.
#[verifier::rlimit(50)]
#[verifier::spinoff_prover]
fn bg_affine_set(cpu: &mut Cpu, bus: &mut Bus)
    requires
        old(cpu).wf(),
        old(bus).wf(),
    ensures
        final(cpu).wf(),
        final(bus).wf(),
        *final(cpu) == *old(cpu),
        exists|t: Seq<Bus>|
            #[trigger] bg_run(t, old(cpu).reg(0), old(cpu).reg(1)) && t.len() == old(cpu).reg(2) + 1 && t[0]
                == *old(bus) && t[old(cpu).reg(2) as int] == *final(bus),
{
    let src0 = cpu.regs.get(0);
    let dst0 = cpu.regs.get(1);
    let count = cpu.regs.get(2);
    let mut src = src0;
    let mut dst = dst0;
    let ghost mut t = seq![*bus];
    let mut k: u32 = 0;
    while k < count
        invariant
            bus.wf(),
            k <= count,
            src == addr_plus(src0, 20 * k),
            dst == stride_addr(dst0, 16, k as int),
            t.len() == k + 1 && t[0] == *old(bus) && t[k as int] == *bus,
            bg_run(t, src0, dst0),
            *cpu == *old(cpu),
            src0 == old(cpu).reg(0) && dst0 == old(cpu).reg(1) && count == old(cpu).reg(2),
        decreases count - k,
    {
        bg_affine_entry(bus, src, dst);
        proof {
            let t0 = t;
            t = t.push(*bus);
            assert forall|j: int| 0 <= j < t.len() - 1 implies #[trigger] bg_entry(
                t[j],
                t[j + 1],
                addr_plus(src0, 20 * j),
                stride_addr(dst0, 16, j),
            ) by {
                if j < t0.len() - 1 {
                    assert(bg_entry(t0[j], t0[j + 1], addr_plus(src0, 20 * j), stride_addr(dst0, 16, j)));
                }
            }
            lemma_stride_next(dst0, 16, k as int);
            lemma_stride_next(src0, 20, 20 * k as int);
        }
        src = src.wrapping_add(20);
        dst = dst.wrapping_add(16);
        k = k + 1;
    }
    assert(bg_run(t, src0, dst0) && t.len() == count + 1 && t[0] == *old(bus) && t[count as int] == *bus);
}

/// The header word of compressed data at `src` is not read from the EEPROM
/// window (whose reads shift out bits).
pub open spec fn plain_header(b: Bus, src: u32) -> bool {
    !(crate::bus::region((src - src % 4) as u32) == 0xD && b.cartridge.save_type == crate::cartridge::SaveType::Eeprom)
}

/// The decompressed size in the header word at `src` (bits 8-31).
pub open spec fn comp_size(b: Bus, src: u32) -> u32 {
    b.word_at((src - src % 4) as u32) / 256
}

/// `a + k` with the 32-bit address wrapping.
pub open spec fn addr_plus(a: u32, k: int) -> u32 {
    ((a as int + k) % 0x1_0000_0000) as u32
}

/// The `n` bytes of memory from `a` on.
pub open spec fn mem_bytes(b: Bus, a: u32, n: nat) -> Seq<u8> {
    Seq::new(n, |k: int| b.byte_at(addr_plus(a, k)))
}

/// The run-length stream at `src`, appended to `out` until it holds `size`
/// bytes: a flag with bit 7 set repeats the next byte (flag & 0x7F) + 3
/// times; clear, it copies the next (flag & 0x7F) + 1 bytes.
pub open spec fn rl_stream(b: Bus, size: int, out: Seq<u8>, src: u32) -> Seq<u8>
    decreases (if size > out.len() { size - out.len() } else { 0 }),
{
    if out.len() >= size {
        out
    } else {
        let flag = b.byte_at(src);
        if flag >= 0x80 {
            let byte = b.byte_at(addr_plus(src, 1));
            rl_stream(b, size, out + Seq::new((flag % 0x80 + 3) as nat, |k: int| byte), addr_plus(src, 2))
        } else {
            let n = (flag % 0x80 + 1) as nat;
            rl_stream(b, size, out + mem_bytes(b, addr_plus(src, 1), n), addr_plus(src, 1 + n as int))
        }
    }
}

/// Law: run-length literal blocks are copied through. A block whose flag
/// `f` is below 0x80 gives exactly the `f + 1` bytes after the flag, and
/// the next flag is read right after them: one literal block of `n1`
/// bytes decompresses to those bytes, and two literal blocks of `n1` and
/// `n2` bytes decompress to the concatenation of their bytes. A run block
/// with flag `0x80 + r` gives its one data byte `r + 3` times.
pub proof fn law_rl_blocks(b: Bus, src: u32, n1: int, n2: int)
    requires
        1 <= n1 <= 128,
        1 <= n2 <= 128,
    ensures
        b.byte_at(src) as int == n1 - 1 ==> rl_stream(b, n1, seq![], src) == mem_bytes(b, addr_plus(src, 1), n1 as nat),
        b.byte_at(src) as int == n1 - 1 && b.byte_at(addr_plus(src, 1 + n1)) as int == n2 - 1 ==> rl_stream(
            b,
            n1 + n2,
            seq![],
            src,
        ) == mem_bytes(b, addr_plus(src, 1), n1 as nat) + mem_bytes(b, addr_plus(src, 2 + n1), n2 as nat),
        n1 <= 125 && b.byte_at(src) as int == 0x80 + n1 - 1 ==> rl_stream(b, n1 + 2, seq![], src) == Seq::new(
            (n1 + 2) as nat,
            |k: int| b.byte_at(addr_plus(src, 1)),
        ),
{
    let e: Seq<u8> = seq![];
    if b.byte_at(src) as int == n1 - 1 {
        let m1 = mem_bytes(b, addr_plus(src, 1), n1 as nat);
        assert(e + m1 =~= m1);
        let s2 = addr_plus(src, 1 + n1);
        assert(rl_stream(b, n1, e, src) == rl_stream(b, n1, e + m1, s2));
        assert(rl_stream(b, n1, m1, s2) == m1);
        if b.byte_at(s2) as int == n2 - 1 {
            let m2 = mem_bytes(b, addr_plus(s2, 1), n2 as nat);
            assert(rl_stream(b, n1 + n2, e, src) == rl_stream(b, n1 + n2, m1, s2));
            assert(rl_stream(b, n1 + n2, m1, s2) == rl_stream(b, n1 + n2, m1 + m2, addr_plus(s2, 1 + n2)));
            assert(rl_stream(b, n1 + n2, m1 + m2, addr_plus(s2, 1 + n2)) == m1 + m2);
            assert(addr_plus(s2, 1) == addr_plus(src, 2 + n1)) by {
                vstd::arithmetic::div_mod::lemma_add_mod_noop(src as int + 1 + n1, 1, 0x1_0000_0000);
                vstd::arithmetic::div_mod::lemma_mod_twice(1, 0x1_0000_0000);
            }
        }
    }
    if n1 <= 125 && b.byte_at(src) as int == 0x80 + n1 - 1 {
        let byte = b.byte_at(addr_plus(src, 1));
        let run = Seq::new((n1 + 2) as nat, |k: int| byte);
        assert(e + run =~= run);
        assert(rl_stream(b, n1 + 2, e, src) == rl_stream(b, n1 + 2, run, addr_plus(src, 2)));
    }
}

/// Reads the 4-byte header of the compressed formats: the size of the
/// decompressed data is bits 8-31.
fn read_comp_header(bus: &mut Bus, src: u32) -> (r: u32)
    requires
        old(bus).wf(),
    ensures
        final(bus).wf(),
        r < 0x100_0000,
        plain_header(*old(bus), src) ==> *final(bus) == *old(bus) && r == comp_size(*old(bus), src),
{
    let header = bus.read_u32(src);
    header / 256
}

/// `f` is `b` with `data` stored from `dst`, for an even destination in a
/// work RAM where the data fits.
pub open spec fn ram_written(b: Bus, f: Bus, dst: u32, data: Seq<u8>) -> bool {
    let rg = crate::bus::region(dst);
    let e = dst as int % 0x4_0000;
    let i = dst as int % 0x8000;
    &&& rg == 2 && dst % 2 == 0 && e + data.len() <= 0x4_0000 ==> f == (Bus { ewram: f.ewram, ..b }) && f.ewram@
        == b.ewram@.subrange(0, e) + data + b.ewram@.subrange(e + data.len(), 0x4_0000)
    &&& rg == 3 && dst % 2 == 0 && i + data.len() <= 0x8000 ==> f == (Bus { iwram: f.iwram, ..b }) && f.iwram@
        == b.iwram@.subrange(0, i) + data + b.iwram@.subrange(i + data.len(), 0x8000)
}

/// `f` is `b` with `data` stored from `dst`, for an even destination in a
/// work RAM where the data fits, or, for data of even length (stored as
/// halfwords), in palette RAM, VRAM (below its mirror) or OAM.
pub open spec fn output_written(b: Bus, f: Bus, dst: u32, data: Seq<u8>) -> bool {
    let rg = crate::bus::region(dst);
    let e = dst as int % 0x4_0000;
    let i = dst as int % 0x8000;
    let p = dst as int % 0x400;
    let v = dst as int % 0x2_0000;
    let even = dst % 2 == 0 && data.len() % 2 == 0;
    &&& rg == 2 && dst % 2 == 0 && e + data.len() <= 0x4_0000 ==> f == (Bus { ewram: f.ewram, ..b }) && f.ewram@
        == b.ewram@.subrange(0, e) + data + b.ewram@.subrange(e + data.len(), 0x4_0000)
    &&& rg == 3 && dst % 2 == 0 && i + data.len() <= 0x8000 ==> f == (Bus { iwram: f.iwram, ..b }) && f.iwram@
        == b.iwram@.subrange(0, i) + data + b.iwram@.subrange(i + data.len(), 0x8000)
    &&& rg == 5 && even && p + data.len() <= 0x400 ==> f == (Bus { palette: f.palette, ..b }) && f.palette@
        == b.palette@.subrange(0, p) + data + b.palette@.subrange(p + data.len(), 0x400)
    &&& rg == 6 && even && v + data.len() <= 0x1_8000 ==> f == (Bus { vram: f.vram, ..b }) && f.vram@
        == b.vram@.subrange(0, v) + data + b.vram@.subrange(v + data.len(), 0x1_8000)
    &&& rg == 7 && even && p + data.len() <= 0x400 ==> f == (Bus { oam: f.oam, ..b }) && f.oam@
        == b.oam@.subrange(0, p) + data + b.oam@.subrange(p + data.len(), 0x400)
}

/// Storing the next two output bytes extends the written prefix.
proof fn lemma_store_pair(mem: Seq<u8>, prev: Seq<u8>, out: Seq<u8>, base: int, i: int, len: int)
    requires
        mem.len() == len,
        0 <= base,
        0 <= i,
        i + 2 <= out.len(),
        base + out.len() <= len,
        prev == mem.subrange(0, base) + out.subrange(0, i) + mem.subrange(base + i, len),
    ensures
        prev.update(base + i, out[i]).update(base + i + 1, out[i + 1]) == mem.subrange(0, base) + out.subrange(0, i + 2)
            + mem.subrange(base + i + 2, len),
{
    assert(prev.update(base + i, out[i]).update(base + i + 1, out[i + 1]) =~= mem.subrange(0, base) + out.subrange(
        0,
        i + 2,
    ) + mem.subrange(base + i + 2, len));
}

/// Storing the last output byte completes the written data.
proof fn lemma_store_last(mem: Seq<u8>, prev: Seq<u8>, out: Seq<u8>, base: int, len: int)
    requires
        mem.len() == len,
        0 <= base,
        1 <= out.len(),
        base + out.len() <= len,
        prev == mem.subrange(0, base) + out.subrange(0, out.len() - 1) + mem.subrange(base + out.len() - 1, len),
    ensures
        prev.update(base + out.len() - 1, out[out.len() - 1]) == mem.subrange(0, base) + out + mem.subrange(
            base + out.len(),
            len,
        ),
{
    assert(prev.update(base + out.len() - 1, out[out.len() - 1]) =~= mem.subrange(0, base) + out + mem.subrange(
        base + out.len(),
        len,
    ));
}

/// An offset inside the window of `dst` keeps the region and moves the
/// offset in the window.
#[verifier::rlimit(50)]
#[verifier::spinoff_prover]
proof fn lemma_window(dst: u32, i: int, size: int)
    requires
        size == 0x4_0000 || size == 0x8000 || size == 0x2_0000 || size == 0x400,
        0 <= i,
        dst as int % size + i < size,
    ensures
        dst + i < 0x1_0000_0000,
        crate::bus::region((dst + i) as u32) == crate::bus::region(dst),
        (dst + i) as int % size == dst as int % size + i,
{
    let x = dst as int;
    let y = x + i;
    let r = x % size;
    let q = x / size;
    let k = 0x100_0000int / size;
    assert(size * k == 0x100_0000);
    vstd::arithmetic::div_mod::lemma_fundamental_div_mod(x, size);
    assert(x == q * size + r) by (nonlinear_arith)
        requires
            x == size * q + r,
    ;
    vstd::arithmetic::div_mod::lemma_fundamental_div_mod_converse(y, size, q, r + i);
    vstd::arithmetic::div_mod::lemma_div_denominator(x, size, k);
    vstd::arithmetic::div_mod::lemma_div_denominator(y, size, k);
    let m = 0x1_0000_0000int / size;
    assert(size * m == 0x1_0000_0000);
    assert(q < m) by (nonlinear_arith)
        requires
            x == q * size + r,
            0 <= r,
            x < 0x1_0000_0000,
            size * m == 0x1_0000_0000,
            size > 0,
    ;
    assert(y < 0x1_0000_0000) by (nonlinear_arith)
        requires
            y == q * size + r + i,
            r + i < size,
            q < m,
            size * m == 0x1_0000_0000,
            size > 0,
    ;
}

/// Writes decompressed output in halfwords (video memory does not take byte
/// writes), with a last byte write for an odd length.
#[verifier::rlimit(50)]
#[verifier::spinoff_prover]
fn write_output(bus: &mut Bus, dst: u32, out: &Vec<u8>)
    requires
        old(bus).wf(),
    ensures
        final(bus).wf(),
        output_written(*old(bus), *final(bus), dst, out@),
{
    let ghost rg = crate::bus::region(dst);
    let ghost e = dst as int % 0x4_0000;
    let ghost iw = dst as int % 0x8000;
    let ghost ew_case = rg == 2 && dst % 2 == 0 && e + out@.len() <= 0x4_0000;
    let ghost iw_case = rg == 3 && dst % 2 == 0 && iw + out@.len() <= 0x8000;
    let ghost p = dst as int % 0x400;
    let ghost v = dst as int % 0x2_0000;
    let ghost even = dst % 2 == 0 && out@.len() % 2 == 0;
    let ghost pal_case = rg == 5 && even && p + out@.len() <= 0x400;
    let ghost vram_case = rg == 6 && even && v + out@.len() <= 0x1_8000;
    let ghost oam_case = rg == 7 && even && p + out@.len() <= 0x400;
    let mut i: usize = 0;
    while out.len() - i >= 2
        invariant
            bus.wf(),
            old(bus).wf(),
            i <= out.len(),
            i % 2 == 0,
            rg == crate::bus::region(dst),
            e == dst as int % 0x4_0000,
            iw == dst as int % 0x8000,
            ew_case == (rg == 2 && dst % 2 == 0 && e + out@.len() <= 0x4_0000),
            iw_case == (rg == 3 && dst % 2 == 0 && iw + out@.len() <= 0x8000),
            ew_case ==> *bus == (Bus { ewram: bus.ewram, ..*old(bus) }) && bus.ewram@ == old(bus).ewram@.subrange(0, e)
                + out@.subrange(0, i as int) + old(bus).ewram@.subrange(e + i, 0x4_0000),
            iw_case ==> *bus == (Bus { iwram: bus.iwram, ..*old(bus) }) && bus.iwram@ == old(bus).iwram@.subrange(0, iw)
                + out@.subrange(0, i as int) + old(bus).iwram@.subrange(iw + i, 0x8000),
            p == dst as int % 0x400 && v == dst as int % 0x2_0000,
            even == (dst % 2 == 0 && out@.len() % 2 == 0),
            pal_case == (rg == 5 && even && p + out@.len() <= 0x400),
            vram_case == (rg == 6 && even && v + out@.len() <= 0x1_8000),
            oam_case == (rg == 7 && even && p + out@.len() <= 0x400),
            pal_case ==> *bus == (Bus { palette: bus.palette, ..*old(bus) }) && bus.palette@ == old(bus).palette@.subrange(
                0,
                p,
            ) + out@.subrange(0, i as int) + old(bus).palette@.subrange(p + i, 0x400),
            vram_case ==> *bus == (Bus { vram: bus.vram, ..*old(bus) }) && bus.vram@ == old(bus).vram@.subrange(0, v)
                + out@.subrange(0, i as int) + old(bus).vram@.subrange(v + i, 0x1_8000),
            oam_case ==> *bus == (Bus { oam: bus.oam, ..*old(bus) }) && bus.oam@ == old(bus).oam@.subrange(0, p)
                + out@.subrange(0, i as int) + old(bus).oam@.subrange(p + i, 0x400),
        decreases out.len() - i,
    {
        let hw = out[i] as u16 + (out[i + 1] as u16) * 256;
        let a = dst.wrapping_add(i as u32);
        let ghost prev = *bus;
        proof {
            if ew_case {
                lemma_window(dst, i as int, 0x4_0000);
                assert((a - a % 2) as u32 == a);
            }
            if iw_case {
                lemma_window(dst, i as int, 0x8000);
                assert((a - a % 2) as u32 == a);
            }
            if pal_case || oam_case {
                lemma_window(dst, i as int, 0x400);
                assert((a - a % 2) as u32 == a);
            }
            if vram_case {
                lemma_window(dst, i as int, 0x2_0000);
                assert((a - a % 2) as u32 == a);
                assert(crate::bus::vram_off(a) == v + i);
            }
        }
        bus.write_u16(a, hw);
        proof {
            assert(((hw % 256) as u8) == out@[i as int]);
            assert(((hw / 256) as u8) == out@[i + 1]);
            if ew_case {
                lemma_store_pair(old(bus).ewram@, prev.ewram@, out@, e, i as int, 0x4_0000);
            }
            if iw_case {
                lemma_store_pair(old(bus).iwram@, prev.iwram@, out@, iw, i as int, 0x8000);
            }
            if pal_case {
                lemma_store_pair(old(bus).palette@, prev.palette@, out@, p, i as int, 0x400);
            }
            if vram_case {
                lemma_store_pair(old(bus).vram@, prev.vram@, out@, v, i as int, 0x1_8000);
            }
            if oam_case {
                lemma_store_pair(old(bus).oam@, prev.oam@, out@, p, i as int, 0x400);
            }
        }
        i = i + 2;
    }
    if i < out.len() {
        let a = dst.wrapping_add(i as u32);
        let ghost prev = *bus;
        proof {
            reveal(Bus::byte_written);
            if ew_case {
                lemma_window(dst, i as int, 0x4_0000);
            }
            if iw_case {
                lemma_window(dst, i as int, 0x8000);
            }
        }
        bus.write_u8(a, out[i]);
        proof {
            reveal(Bus::byte_written);
            if ew_case {
                lemma_store_last(old(bus).ewram@, prev.ewram@, out@, e, 0x4_0000);
            }
            if iw_case {
                lemma_store_last(old(bus).iwram@, prev.iwram@, out@, iw, 0x8000);
            }
        }
    } else {
        proof {
            assert(out@.subrange(0, i as int) =~= out@);
        }
    }
}

/// Up to `n` bytes appended to `out`, each copied from `disp` bytes back;
/// it stops where the distance reaches before the start.
pub open spec fn back_copy(out: Seq<u8>, disp: int, n: nat) -> Seq<u8>
    decreases n,
{
    if n == 0 || out.len() < disp {
        out
    } else {
        back_copy(out.push(out[out.len() - disp]), disp, (n - 1) as nat)
    }
}

proof fn lemma_back_copy_len(out: Seq<u8>, disp: int, n: nat)
    ensures
        out.len() <= back_copy(out, disp, n).len() <= out.len() + n,
    decreases n,
{
    if !(n == 0 || out.len() < disp) {
        lemma_back_copy_len(out.push(out[out.len() - disp]), disp, (n - 1) as nat);
    }
}

/// Appends up to `length` bytes copied from `disp` bytes back, stopping
/// when the distance reaches before the start.
fn copy_back(out: &mut Vec<u8>, disp: usize, length: usize)
    requires
        disp >= 1,
    ensures
        final(out)@ == back_copy(old(out)@, disp as int, length as nat),
        old(out)@.len() <= final(out)@.len() <= old(out)@.len() + length,
{
    let mut j: usize = 0;
    while j < length && out.len() >= disp
        invariant
            disp >= 1,
            j <= length,
            out@.len() == old(out)@.len() + j,
            back_copy(out@, disp as int, (length - j) as nat) == back_copy(old(out)@, disp as int, length as nat),
        decreases length - j,
    {
        let byte = out[out.len() - disp];
        out.push(byte);
        j = j + 1;
    }
}

/// The bit of a flag byte that marks block `bit` (MSB first).
pub open spec fn lz_mask(bit: int) -> u8 {
    if bit == 0 {
        0x80
    } else if bit == 1 {
        0x40
    } else if bit == 2 {
        0x20
    } else if bit == 3 {
        0x10
    } else if bit == 4 {
        8
    } else if bit == 5 {
        4
    } else if bit == 6 {
        2
    } else {
        1
    }
}

/// One LZ77 block at `src`: a literal byte, or a back reference of two
/// bytes (length - 3 in the high nibble, distance - 1 in the other 12
/// bits). Returns the output and the next source address.
pub open spec fn lz_unit(b: Bus, out: Seq<u8>, src: u32, reference: bool) -> (Seq<u8>, u32) {
    if !reference {
        (out.push(b.byte_at(src)), addr_plus(src, 1))
    } else {
        let b0 = b.byte_at(src) as int;
        let b1 = b.byte_at(addr_plus(src, 1)) as int;
        (back_copy(out, (b0 % 16) * 256 + b1 + 1, (b0 / 16 + 3) as nat), addr_plus(src, 2))
    }
}

/// The blocks of one flag byte, from block `bit` on, until the output
/// holds `size` bytes.
#[verifier::opaque]
pub open spec fn lz_group_at(b: Bus, size: int, out: Seq<u8>, src: u32, flags: u8, bit: int) -> (Seq<u8>, u32)
    decreases 8 - bit,
{
    if bit >= 8 || out.len() >= size {
        (out, src)
    } else {
        let (o, f) = lz_unit(b, out, src, (flags / lz_mask(bit)) % 2 == 1);
        lz_group_at(b, size, o, f, flags, bit + 1)
    }
}

/// The LZ77 stream at `src` appended to `out`: flag bytes and their blocks
/// until the output holds `size` bytes, or until a flag byte's blocks add
/// nothing.
#[verifier::opaque]
pub open spec fn lz_stream(b: Bus, size: int, out: Seq<u8>, src: u32) -> Seq<u8>
    decreases (if size > out.len() { size - out.len() } else { 0 }),
{
    if out.len() >= size {
        out
    } else {
        let (o, f) = lz_group_at(b, size, out, addr_plus(src, 1), b.byte_at(src), 0);
        if o.len() <= out.len() {
            o
        } else {
            lz_stream(b, size, o, f)
        }
    }
}

/// SWI 0x11/0x12, LZ77UnComp: r0 the compressed data, r1 the destination.
/// Each flag byte (MSB first) marks a literal byte (0) or a back reference
/// (1) of 3-18 bytes at distance 1-4096. A reference before the start
/// copies nothing; a flag group that yields no byte at all ends the block.
/// Runs the blocks of one flag byte from `src` (see `lz_group_at`) and
/// returns the next source address.
fn lz_group_exec(bus: &mut Bus, out: &mut Vec<u8>, start: u32, flags: u8, size: usize) -> (r: u32)
    requires
        old(bus).wf(),
        old(out)@.len() < size < 0x100_0000,
    ensures
        *final(bus) == *old(bus),
        (final(out)@, r) == lz_group_at(*old(bus), size as int, old(out)@, start, flags, 0),
        old(out)@.len() <= final(out)@.len() < size + 18,
{
    reveal(lz_group_at);
    let mut src = start;
    let mut bit: u32 = 0;
    while bit < 8 && out.len() < size
        invariant
            bus.wf(),
            *bus == *old(bus),
            bit <= 8,
            old(out)@.len() <= out@.len() < size + 18,
            size < 0x100_0000,
            lz_group_at(*bus, size as int, out@, src, flags, bit as int) == lz_group_at(
                *bus,
                size as int,
                old(out)@,
                start,
                flags,
                0,
            ),
        decreases 8 - bit,
    {
        reveal(lz_group_at);
        let mask: u8 = if bit == 0 { 0x80 } else if bit == 1 { 0x40 } else if bit == 2 { 0x20 } else if bit == 3 {
            0x10
        } else if bit == 4 { 8 } else if bit == 5 { 4 } else if bit == 6 { 2 } else { 1 };
        assert(mask == lz_mask(bit as int));
        if (flags / mask) % 2 == 0 {
            out.push(bus.read_u8(src));
            src = src.wrapping_add(1);
        } else {
            let b0 = bus.read_u8(src) as usize;
            let b1 = bus.read_u8(src.wrapping_add(1)) as usize;
            src = src.wrapping_add(2);
            copy_back(out, (b0 % 16) * 256 + b1 + 1, b0 / 16 + 3);
        }
        bit = bit + 1;
    }
    src
}

/// SWI 0x11/0x12, LZ77UnComp: r0 the compressed data, r1 the destination.
/// Each flag byte (MSB first) marks a literal byte (0) or a back reference
/// (1) of 3-18 bytes at distance 1-4096. A reference before the start
/// copies nothing; a flag group that yields no byte at all ends the block.
#[verifier::rlimit(50)]
#[verifier::spinoff_prover]
pub fn lz77_uncomp(cpu: &mut Cpu, bus: &mut Bus)
    requires
        old(cpu).wf(),
        old(bus).wf(),
    ensures
        final(cpu).wf(),
        final(bus).wf(),
        *final(cpu) == *old(cpu),
        plain_header(*old(bus), old(cpu).reg(0)) ==> output_written(
            *old(bus),
            *final(bus),
            old(cpu).reg(1),
            lz_stream(*old(bus), comp_size(*old(bus), old(cpu).reg(0)) as int, seq![], addr_plus(old(cpu).reg(0), 4)),
        ),
{
    let src0 = cpu.regs.get(0);
    let dst = cpu.regs.get(1);
    let out_size = read_comp_header(bus, src0) as usize;
    let ghost plain = plain_header(*old(bus), src0);
    let ghost b0 = *bus;
    proof {
        if plain {
            assert(comp_size(*old(bus), src0) == out_size);
        }
    }
    let mut src = src0.wrapping_add(4);
    let mut out: Vec<u8> = Vec::new();
    while out.len() < out_size
        invariant
            *cpu == *old(cpu),
            cpu.wf(),
            bus.wf(),
            *bus == b0,
            src0 == old(cpu).reg(0),
            dst == old(cpu).reg(1),
            plain == plain_header(*old(bus), src0),
            plain ==> b0 == *old(bus) && comp_size(*old(bus), src0) == out_size,
            out@.len() < out_size + 18,
            out_size < 0x100_0000,
            lz_stream(b0, out_size as int, out@, src) == lz_stream(b0, out_size as int, seq![], addr_plus(src0, 4)),
        decreases out_size + 18 - out@.len(),
    {
        let ghost s_prev = src;
        let ghost g_out = out@;
        let flags = bus.read_u8(src);
        let start = out.len();
        src = lz_group_exec(bus, &mut out, src.wrapping_add(1), flags, out_size);
        proof {
            reveal(lz_stream);
            assert(lz_stream(b0, out_size as int, g_out, s_prev) == if out@.len() <= g_out.len() {
                out@
            } else {
                lz_stream(b0, out_size as int, out@, src)
            });
        }
        if out.len() == start {
            write_output(bus, dst, &out);
            return;
        }
    }
    proof {
        reveal(lz_stream);
        assert(lz_stream(b0, out_size as int, out@, src) == out@);
    }
    write_output(bus, dst, &out);
}

/// SWI 0x14/0x15, RLUnComp: a flag byte with bit 7 set repeats the next byte
/// (flag & 0x7F) + 3 times; clear, copies (flag & 0x7F) + 1 literal bytes.
#[verifier::rlimit(50)]
#[verifier::spinoff_prover]
pub fn rl_uncomp(cpu: &mut Cpu, bus: &mut Bus)
    requires
        old(cpu).wf(),
        old(bus).wf(),
    ensures
        final(cpu).wf(),
        final(bus).wf(),
        *final(cpu) == *old(cpu),
        plain_header(*old(bus), old(cpu).reg(0)) ==> output_written(
            *old(bus),
            *final(bus),
            old(cpu).reg(1),
            rl_stream(*old(bus), comp_size(*old(bus), old(cpu).reg(0)) as int, seq![], addr_plus(old(cpu).reg(0), 4)),
        ),
{
    let src0 = cpu.regs.get(0);
    let dst = cpu.regs.get(1);
    let out_size = read_comp_header(bus, src0) as usize;
    let ghost plain = plain_header(*old(bus), src0);
    let ghost b0 = *bus;
    let mut src = src0.wrapping_add(4);
    let mut out: Vec<u8> = Vec::new();
    while out.len() < out_size
        invariant
            bus.wf(),
            out@.len() < out_size + 0x100,
            out_size < 0x100_0000,
            *bus == b0,
            rl_stream(b0, out_size as int, out@, src) == rl_stream(b0, out_size as int, seq![], addr_plus(src0, 4)),
        decreases out_size + 0x100 - out@.len(),
    {
        let ghost out0 = out@;
        let ghost s0 = src;
        let flag = bus.read_u8(src);
        src = src.wrapping_add(1);
        if flag >= 0x80 {
            let length = (flag % 0x80) as usize + 3;
            let byte = bus.read_u8(src);
            src = src.wrapping_add(1);
            let mut j: usize = 0;
            while j < length
                invariant
                    j <= length <= 0x82,
                    out@ == out0 + Seq::new(j as nat, |k: int| byte),
                    out0.len() < out_size,
                    out_size < 0x100_0000,
                decreases length - j,
            {
                out.push(byte);
                j = j + 1;
                assert(out@ =~= out0 + Seq::new(j as nat, |k: int| byte));
            }
        } else {
            let length = (flag % 0x80) as usize + 1;
            let mut j: usize = 0;
            let ghost s1 = src;
            while j < length
                invariant
                    bus.wf(),
                    j <= length <= 0x80,
                    *bus == b0,
                    out@ == out0 + mem_bytes(b0, s1, j as nat),
                    src == addr_plus(s1, j as int),
                    out0.len() < out_size,
                    out_size < 0x100_0000,
                decreases length - j,
            {
                out.push(bus.read_u8(src));
                src = src.wrapping_add(1);
                j = j + 1;
                assert(out@ =~= out0 + mem_bytes(b0, s1, j as nat));
            }
        }
    }
    proof {
        if plain {
            assert(comp_size(*old(bus), src0) == out_size);
        }
    }
    write_output(bus, dst, &out);
}

/// The decoder's state between two bits: the bytes so far, the pending
/// symbol bits and their count, the current node's address and value.
pub type HuffState = (Seq<u8>, u32, u32, u32, u8);

/// One bit of the Huffman stream: from the node at `s.3` (value `s.4`),
/// the bit picks a child at `align2(node) + (node & 0x3F) * 2 + 2 + bit`;
/// when the node's flag for that side (bit 7 for 0, bit 6 for 1) is set the
/// child is a symbol of `db` bits, packed LSB first into bytes, and the walk
/// goes back to the root at `tb + 1`.
#[verifier::opaque]
pub open spec fn huff_bit(b: Bus, tb: u32, db: u32, s: HuffState, bit: u32) -> HuffState {
    let node_off = s.3;
    let node = s.4;
    let offset = ((node % 64) as u32 + 1) * 2;
    let base = addr_plus(addr_plus(crate::cpu::arm::align2(node_off), offset as int), bit as int);
    let next = b.byte_at(base);
    let leaf = if bit == 1 { (node / 0x40) % 2 == 1 } else { (node / 0x80) % 2 == 1 };
    if leaf {
        let p = s.1 | ((next as u32) << s.2);
        let pb = (s.2 + db) as u32;
        let root = addr_plus(tb, 1);
        if pb >= 8 {
            (s.0.push((p % 256) as u8), p / 256, (pb - 8) as u32, root, b.byte_at(root))
        } else {
            (s.0, p, pb, root, b.byte_at(root))
        }
    } else {
        (s.0, s.1, s.2, base, next)
    }
}

/// The bits `i - 1` down to 0 of `word`, stopping once `size` bytes are out.
#[verifier::opaque]
pub open spec fn huff_word(b: Bus, tb: u32, db: u32, size: int, s: HuffState, word: u32, i: u32) -> HuffState
    decreases i,
{
    if i == 0 || s.0.len() >= size {
        s
    } else {
        let i1 = (i - 1) as u32;
        huff_word(b, tb, db, size, huff_bit(b, tb, db, s, (word >> i1) % 2), word, i1)
    }
}

/// At most `n` words of the stream from `bs`, stopping once `size` bytes
/// are out.
#[verifier::opaque]
pub open spec fn huff_words(b: Bus, tb: u32, db: u32, size: int, s: HuffState, bs: u32, n: nat) -> HuffState
    decreases n,
{
    if n == 0 || s.0.len() >= size {
        s
    } else {
        let word = b.word_at(crate::cpu::arm::align4(bs));
        huff_words(b, tb, db, size, huff_word(b, tb, db, size, s, word, 32), addr_plus(bs, 4), (n - 1) as nat)
    }
}

/// What HuffUnComp decodes from the data at `src` (header word, tree
/// size byte, tree, bitstream), with at most 64 words per output byte.
pub open spec fn huff_output(b: Bus, src: u32) -> Seq<u8> {
    let header = b.word_at(crate::cpu::arm::align4(src));
    let db = header % 16;
    let size = header / 256;
    let tb = addr_plus(src, 4);
    let tree_size = (b.byte_at(tb) + 1) * 2;
    let root = addr_plus(tb, 1);
    let s0: HuffState = (seq![], 0, 0, root, b.byte_at(root));
    huff_words(b, tb, db, size as int, s0, addr_plus(tb, tree_size as int), (size * 64 + 64) as nat).0
}

/// Reads the stream word at `bs` and decodes it: one step of `huff_words`.
#[verifier::rlimit(50)]
#[verifier::spinoff_prover]
fn huff_fetch(
    bus: &mut Bus,
    tree_base: u32,
    data_bits: u32,
    out_size: usize,
    out: &mut Vec<u8>,
    st: (u32, u32, u32, u8),
    bs: u32,
    Ghost(rem): Ghost<nat>,
) -> (r: (u32, u32, u32, u8))
    requires
        old(bus).wf(),
        st.0 < 0x1_0000,
        st.1 < 8,
        data_bits <= 8,
        old(out)@.len() < out_size,
        rem > 0,
    ensures
        final(bus).wf(),
        r.0 < 0x1_0000,
        r.1 < 8,
        final(out)@.len() <= out_size,
        old(bus).cartridge.save_type != crate::cartridge::SaveType::Eeprom ==> *final(bus) == *old(bus) && huff_words(
            *old(bus),
            tree_base,
            data_bits,
            out_size as int,
            (old(out)@, st.0, st.1, st.2, st.3),
            bs,
            rem,
        ) == huff_words(
            *old(bus),
            tree_base,
            data_bits,
            out_size as int,
            (final(out)@, r.0, r.1, r.2, r.3),
            addr_plus(bs, 4),
            (rem - 1) as nat,
        ),
{
    let ghost b0 = *bus;
    let ghost s_in: HuffState = (out@, st.0, st.1, st.2, st.3);
    let word = bus.read_u32(bs);
    let r = huff_word_run(bus, tree_base, data_bits, out_size, out, st, word);
    proof {
        reveal_with_fuel(huff_words, 1);
    }
    r
}

/// SWI 0x13, HuffUnComp: a Huffman bitstream of symbols of header bits 0-3
/// (4 or 8 in practice; wider ones produce nothing), the tree after the
/// header, read in 32-bit words MSB first. A stream that keeps missing the
/// leaves ends after 64 words per output byte.
/// One bit of the Huffman stream, as `huff_bit` states it.
#[verifier::rlimit(50)]
#[verifier::spinoff_prover]
fn huff_step(
    bus: &mut Bus,
    tree_base: u32,
    data_bits: u32,
    out: &mut Vec<u8>,
    st: (u32, u32, u32, u8),
    b: u32,
) -> (r: (u32, u32, u32, u8))
    requires
        old(bus).wf(),
        st.0 < 0x1_0000,
        st.1 < 8,
        data_bits <= 8,
        b < 2,
    ensures
        *final(bus) == *old(bus),
        r.0 < 0x1_0000,
        r.1 < 8,
        final(out)@.len() <= old(out)@.len() + 1,
        huff_bit(*old(bus), tree_base, data_bits, (old(out)@, st.0, st.1, st.2, st.3), b) == (
            final(out)@,
            r.0,
            r.1,
            r.2,
            r.3,
        ),
{
    let (mut pending, mut pending_bits, mut node_off, mut node) = st;
    proof {
        reveal(huff_bit);
    }
    let offset = ((node % 64) as u32 + 1) * 2;
    let aligned = node_off - node_off % 2;
    let child = aligned.wrapping_add(offset);
    let base = child.wrapping_add(b);
    proof {
        assert(aligned == crate::cpu::arm::align2(node_off));
        assert(child == addr_plus(aligned, offset as int));
        assert(base == addr_plus(child, b as int));
    }
    let next = bus.read_u8(base);
    let leaf = if b == 1 { (node / 0x40) % 2 == 1 } else { (node / 0x80) % 2 == 1 };
    if leaf {
        let n = next as u32;
        let pb = pending_bits;
        let p0 = pending;
        assert((p0 | (n << pb)) < 0x1_0000) by (bit_vector)
            requires
                p0 < 0x1_0000,
                n < 256,
                pb < 8,
        ;
        pending = pending | (n << pending_bits);
        pending_bits = pending_bits + data_bits;
        if pending_bits >= 8 {
            out.push((pending % 256) as u8);
            pending = pending / 256;
            pending_bits = pending_bits - 8;
        }
        node_off = tree_base.wrapping_add(1);
        proof {
            assert(node_off == addr_plus(tree_base, 1));
        }
        node = bus.read_u8(node_off);
    } else {
        node_off = base;
        node = next;
    }
    (pending, pending_bits, node_off, node)
}

/// The 32 bits of one stream word, MSB first, as `huff_word` states it.
#[verifier::rlimit(50)]
#[verifier::spinoff_prover]
fn huff_word_run(
    bus: &mut Bus,
    tree_base: u32,
    data_bits: u32,
    out_size: usize,
    out: &mut Vec<u8>,
    st: (u32, u32, u32, u8),
    word: u32,
) -> (r: (u32, u32, u32, u8))
    requires
        old(bus).wf(),
        st.0 < 0x1_0000,
        st.1 < 8,
        data_bits <= 8,
        old(out)@.len() <= out_size,
    ensures
        *final(bus) == *old(bus),
        r.0 < 0x1_0000,
        r.1 < 8,
        final(out)@.len() <= out_size,
        huff_word(*old(bus), tree_base, data_bits, out_size as int, (old(out)@, st.0, st.1, st.2, st.3), word, 32) == (
            final(out)@,
            r.0,
            r.1,
            r.2,
            r.3,
        ),
{
    let ghost b0 = *bus;
    let ghost s0: HuffState = (out@, st.0, st.1, st.2, st.3);
    let mut cur = st;
    let mut i: u32 = 32;
    while i > 0 && out.len() < out_size
        invariant
            bus.wf(),
            *bus == b0,
            out@.len() <= out_size,
            cur.0 < 0x1_0000,
            cur.1 < 8,
            data_bits <= 8,
            i <= 32,
            huff_word(b0, tree_base, data_bits, out_size as int, (out@, cur.0, cur.1, cur.2, cur.3), word, i)
                == huff_word(b0, tree_base, data_bits, out_size as int, s0, word, 32),
        decreases i,
    {
        let ghost s_in: HuffState = (out@, cur.0, cur.1, cur.2, cur.3);
        let ghost i_in = i;
        i = i - 1;
        let b = (word >> i) % 2;
        cur = huff_step(bus, tree_base, data_bits, out, cur, b);
        proof {
            reveal_with_fuel(huff_word, 1);
            assert(huff_word(b0, tree_base, data_bits, out_size as int, s_in, word, i_in) == huff_word(
                b0,
                tree_base,
                data_bits,
                out_size as int,
                (out@, cur.0, cur.1, cur.2, cur.3),
                word,
                i,
            ));
        }
    }
    proof {
        reveal_with_fuel(huff_word, 1);
    }
    cur
}

/// SWI 0x13, HuffUnComp: a Huffman bitstream of symbols of header bits 0-3
/// (4 or 8 in practice; wider ones produce nothing), the tree after the
/// header, read in 32-bit words MSB first. A stream that keeps missing the
/// leaves ends after 64 words per output byte.
#[verifier::rlimit(50)]
#[verifier::spinoff_prover]
fn huff_uncomp(cpu: &mut Cpu, bus: &mut Bus)
    requires
        old(cpu).wf(),
        old(bus).wf(),
    ensures
        final(cpu).wf(),
        final(bus).wf(),
        *final(cpu) == *old(cpu),
        old(bus).cartridge.save_type != crate::cartridge::SaveType::Eeprom ==> if old(bus).word_at(
            crate::cpu::arm::align4(old(cpu).reg(0)),
        ) % 16 > 8 {
            *final(bus) == *old(bus)
        } else {
            output_written(*old(bus), *final(bus), old(cpu).reg(1), huff_output(*old(bus), old(cpu).reg(0)))
        },
{
    let ghost b0 = *bus;
    let ghost plain = b0.cartridge.save_type != crate::cartridge::SaveType::Eeprom;
    let src = cpu.regs.get(0);
    let dst = cpu.regs.get(1);
    let header = bus.read_u32(src);
    let data_bits = header % 16;
    let out_size = (header / 256) as usize;
    if data_bits > 8 {
        return;
    }
    let tree_base = src.wrapping_add(4);
    let tree_size = (bus.read_u8(tree_base) as u32 + 1) * 2;
    let mut bitstream = tree_base.wrapping_add(tree_size);
    let mut out: Vec<u8> = Vec::new();
    let root = tree_base.wrapping_add(1);
    let mut cur: (u32, u32, u32, u8) = (0, 0, root, bus.read_u8(root));
    let max_words: u64 = out_size as u64 * 64 + 64;
    let mut words: u64 = 0;
    let ghost size = out_size as int;
    proof {
        assert(tree_base == addr_plus(src, 4));
        assert(root == addr_plus(tree_base, 1));
        assert(bitstream == addr_plus(tree_base, tree_size as int));
        if plain {
            assert(huff_output(b0, src) == huff_words(
                b0,
                tree_base,
                data_bits,
                size,
                (out@, cur.0, cur.1, cur.2, cur.3),
                bitstream,
                max_words as nat,
            ).0);
        }
    }
    while out.len() < out_size && words < max_words
        invariant
            bus.wf(),
            out@.len() <= out_size,
            cur.0 < 0x1_0000,
            cur.1 < 8,
            data_bits <= 8,
            words <= max_words,
            plain == (b0.cartridge.save_type != crate::cartridge::SaveType::Eeprom),
            plain ==> *bus == b0,
            plain ==> huff_words(b0, tree_base, data_bits, size, (out@, cur.0, cur.1, cur.2, cur.3), bitstream, (
            max_words - words) as nat).0 == huff_output(b0, src),
            size == out_size,
        decreases max_words - words,
    {
        let ghost bs_in = bitstream;
        let ghost s_in: HuffState = (out@, cur.0, cur.1, cur.2, cur.3);
        let ghost rem = (max_words - words) as nat;
        cur = huff_fetch(bus, tree_base, data_bits, out_size, &mut out, cur, bitstream, Ghost(rem));
        bitstream = bitstream.wrapping_add(4);
        words = words + 1;
        proof {
            assert(bitstream == addr_plus(bs_in, 4));
        }
    }
    proof {
        reveal_with_fuel(huff_words, 1);
        if plain {
            let s_end: HuffState = (out@, cur.0, cur.1, cur.2, cur.3);
            assert(huff_words(b0, tree_base, data_bits, size, s_end, bitstream, (max_words - words) as nat) == s_end);
        }
    }
    write_output(bus, dst, &out);
}

/// BitUnPack's output state: the pending bits, their count and the next
/// destination address.
pub type UnpackState = (u64, u32, u32);

/// `x` divided by `m`, `u` times.
pub open spec fn shift_down(x: u32, m: u32, u: nat) -> u32
    decreases u,
{
    if u == 0 {
        x
    } else {
        if m == 0 { 0 } else { shift_down(x, m, (u - 1) as nat) / m }
    }
}

/// Unit `u` of `byte` (units of `m` values, lowest first), widened: plus
/// `offset` when it is not zero or `zf` is set, else zero.
pub open spec fn unit_value(byte: u8, m: u32, u: nat, offset: u32, zf: bool) -> u64 {
    let unit = if m == 0 { 0 } else { shift_down(byte as u32, m, u) % m };
    let unit: u32 = unit;
    if unit != 0 || zf {
        (unit + offset) as u64
    } else {
        0
    }
}

/// The pending bits once `v` is put above them.
pub open spec fn unit_bits(st: UnpackState, v: u64) -> u64 {
    st.0 | (v << (st.1 as u64))
}

/// The state after one widened unit `v` of `dw` bits: a full word leaves
/// for the destination and the address moves on by 4.
pub open spec fn unit_next(st: UnpackState, v: u64, dw: u32) -> UnpackState {
    let bits = unit_bits(st, v);
    let c = st.1 + dw;
    if c >= 32 {
        (bits / 0x1_0000_0000, (c - 32) as u32, addr_plus(st.2, 4))
    } else {
        (bits, c as u32, st.2)
    }
}

/// The memory effect of one unit: the low word of the pending bits is
/// stored when it fills up, else nothing changes.
pub open spec fn unit_store(b: Bus, f: Bus, st: UnpackState, v: u64, dw: u32) -> bool {
    if st.1 + dw >= 32 {
        b.word_written(f, crate::cpu::arm::align4(st.2), (unit_bits(st, v) % 0x1_0000_0000) as u32)
    } else {
        f == b
    }
}

/// Unit `u` of `byte` taken from bus `b` and state `st` to `f` and `st2`.
pub open spec fn unit_step(
    b: Bus,
    f: Bus,
    st: UnpackState,
    st2: UnpackState,
    byte: u8,
    m: u32,
    u: nat,
    offset: u32,
    zf: bool,
    dw: u32,
) -> bool {
    let v = unit_value(byte, m, u, offset, zf);
    st2 == unit_next(st, v, dw) && unit_store(b, f, st, v, dw)
}

/// The `n` units of one source byte, from bus `b` and state `st` to `f`
/// and `st2`.
pub open spec fn byte_step(
    b: Bus,
    f: Bus,
    st: UnpackState,
    st2: UnpackState,
    byte: u8,
    m: u32,
    n: nat,
    offset: u32,
    zf: bool,
    dw: u32,
) -> bool {
    exists|t: Seq<Bus>, s: Seq<UnpackState>|
        #![trigger t.len(), s.len()]
        t.len() == n + 1 && s.len() == n + 1 && t[0] == b && s[0] == st && t[n as int] == f && s[n as int] == st2
            && forall|u: int| 0 <= u < n ==> #[trigger] unit_step(t[u], t[u + 1], s[u], s[u + 1], byte, m, u as nat, offset, zf, dw)
}

/// `t` and `s` run through the source bytes from `src`, each read from the
/// bus as it stands when its turn comes.
pub open spec fn unpack_run(t: Seq<Bus>, s: Seq<UnpackState>, src: u32, m: u32, n: nat, data: u32, dw: u32) -> bool {
    let offset = unpack_offset(data);
    let zf = unpack_zero(data);
    &&& t.len() == s.len()
    &&& forall|k: int|
        0 <= k < t.len() - 1 ==> #[trigger] byte_step(
            t[k],
            t[k + 1],
            s[k],
            s[k + 1],
            t[k].byte_at(addr_plus(src, k)),
            m,
            n,
            offset,
            zf,
            dw,
        )
}

/// The offset of BitUnPack's info block: bits 0-30 of its data word.
pub open spec fn unpack_offset(data: u32) -> u32 {
    data % 0x8000_0000
}

/// The zero flag of BitUnPack's info block: bit 31 of its data word.
pub open spec fn unpack_zero(data: u32) -> bool {
    data >= 0x8000_0000
}

/// The number of values of a `sw`-bit source unit (1 for widths above 8,
/// which leave no unit in a byte).
pub open spec fn unit_mod(sw: u32) -> u32 {
    if sw <= 8 {
        vstd::arithmetic::power2::pow2(sw as nat) as u32
    } else {
        1
    }
}

/// The two reads of BitUnPack's info block that are not bytes fall
/// outside the EEPROM window.
pub open spec fn info_plain(b: Bus, info: u32) -> bool {
    crate::cpu::arm::plain_at(b, crate::cpu::arm::align2(info)) && crate::cpu::arm::plain_at(
        b,
        crate::cpu::arm::align4(addr_plus(info, 4)),
    )
}

/// Reads BitUnPack's info block: source length, source width, destination
/// width and the data word.
#[verifier::rlimit(50)]
fn unpack_info(bus: &mut Bus, info: u32) -> (r: (u32, u32, u32, u32))
    requires
        old(bus).wf(),
    ensures
        final(bus).wf(),
        r.0 < 0x1_0000 && r.1 < 256 && r.2 < 256,
        info_plain(*old(bus), info) ==> *final(bus) == *old(bus) && r == (
            old(bus).half_at(crate::cpu::arm::align2(info)) as u32,
            old(bus).byte_at(addr_plus(info, 2)) as u32,
            old(bus).byte_at(addr_plus(info, 3)) as u32,
            old(bus).word_at(crate::cpu::arm::align4(addr_plus(info, 4))),
        ),
{
    proof {
        assert(info.wrapping_add(2) == addr_plus(info, 2));
        assert(info.wrapping_add(3) == addr_plus(info, 3));
        assert(info.wrapping_add(4) == addr_plus(info, 4));
    }
    let src_len = bus.read_u16(info) as u32;
    let src_width = bus.read_u8(info.wrapping_add(2)) as u32;
    let dst_width = bus.read_u8(info.wrapping_add(3)) as u32;
    let data = bus.read_u32(info.wrapping_add(4));
    (src_len, src_width, dst_width, data)
}

/// The last, partly filled word, stored when any bits are pending.
pub open spec fn unpack_flush(b: Bus, f: Bus, st: UnpackState) -> bool {
    if st.1 > 0 {
        b.word_written(f, crate::cpu::arm::align4(st.2), (st.0 % 0x1_0000_0000) as u32)
    } else {
        f == b
    }
}

/// The units of one source byte.
#[verifier::rlimit(50)]
#[verifier::spinoff_prover]
fn unpack_byte(
    bus: &mut Bus,
    byte: u32,
    st: (u64, u32, u32),
    src_mod: u32,
    units: u32,
    offset: u32,
    zero_flag: bool,
    dst_width: u32,
) -> (r: (u64, u32, u32))
    requires
        old(bus).wf(),
        byte < 256,
        st.1 < 32,
        dst_width <= 32,
        units <= 8,
        units > 0 ==> src_mod >= 2,
        offset < 0x8000_0000,
    ensures
        final(bus).wf(),
        r.1 < 32,
        byte_step(*old(bus), *final(bus), st, r, byte as u8, src_mod, units as nat, offset, zero_flag, dst_width),
{
    let (mut out_bits, mut out_count, mut dst_addr) = st;
    let ghost mut t: Seq<Bus> = seq![*bus];
    let ghost mut s: Seq<UnpackState> = seq![st];
    let mut u: u32 = 0;
    let mut rest = byte;
    while u < units
        invariant
            bus.wf(),
            u <= units <= 8,
            out_count < 32,
            dst_width <= 32,
            units > 0 ==> src_mod >= 2,
            offset < 0x8000_0000,
            rest < 256,
            byte < 256,
            rest == shift_down(byte, src_mod, u as nat),
            t.len() == u + 1 && s.len() == u + 1,
            t[0] == *old(bus) && s[0] == st,
            t[u as int] == *bus && s[u as int] == (out_bits, out_count, dst_addr),
            forall|j: int|
                0 <= j < u ==> #[trigger] unit_step(
                    t[j],
                    t[j + 1],
                    s[j],
                    s[j + 1],
                    byte as u8,
                    src_mod,
                    j as nat,
                    offset,
                    zero_flag,
                    dst_width,
                ),
        decreases units - u,
    {
        let ghost st_in: UnpackState = (out_bits, out_count, dst_addr);
        let ghost b_in = *bus;
        let unit = rest % src_mod;
        rest = rest / src_mod;
        let value: u64 = if unit != 0 || zero_flag { unit as u64 + offset as u64 } else { 0 };
        proof {
            assert((byte as u8) as u32 == byte);
            assert(src_mod != 0);
            assert(unit == shift_down(byte, src_mod, u as nat) % src_mod);
            assert(rest == shift_down(byte, src_mod, (u + 1) as nat));
            assert(value == unit_value(byte as u8, src_mod, u as nat, offset, zero_flag));
        }
        out_bits = out_bits | (value << (out_count as u64));
        out_count = out_count + dst_width;
        if out_count >= 32 {
            bus.write_u32(dst_addr, (out_bits % 0x1_0000_0000) as u32);
            dst_addr = dst_addr.wrapping_add(4);
            out_bits = out_bits / 0x1_0000_0000;
            out_count = out_count - 32;
        }
        proof {
            assert(unit_step(b_in, *bus, st_in, (out_bits, out_count, dst_addr), byte as u8, src_mod, u as nat, offset, zero_flag, dst_width));
            let t0 = t;
            let s0 = s;
            t = t.push(*bus);
            s = s.push((out_bits, out_count, dst_addr));
            assert forall|j: int| 0 <= j < u + 1 implies #[trigger] unit_step(
                t[j],
                t[j + 1],
                s[j],
                s[j + 1],
                byte as u8,
                src_mod,
                j as nat,
                offset,
                zero_flag,
                dst_width,
            ) by {
                if j < u {
                    assert(t[j] == t0[j] && t[j + 1] == t0[j + 1] && s[j] == s0[j] && s[j + 1] == s0[j + 1]);
                }
            }
        }
        u = u + 1;
    }
    proof {
        assert(t.len() == units + 1 && s.len() == units + 1);
    }
    (out_bits, out_count, dst_addr)
}

/// Unpacks `src_len` bytes from `src0` to `dst` and stores the last,
/// partly filled word.
#[verifier::rlimit(50)]
#[verifier::spinoff_prover]
fn unpack_all(
    bus: &mut Bus,
    src0: u32,
    dst: u32,
    src_len: u32,
    src_mod: u32,
    units: u32,
    data: u32,
    dst_width: u32,
)
    requires
        old(bus).wf(),
        dst_width <= 32,
        units <= 8,
        units > 0 ==> src_mod >= 2,
    ensures
        final(bus).wf(),
        exists|t: Seq<Bus>, s: Seq<UnpackState>|
            #[trigger] unpack_run(t, s, src0, src_mod, units as nat, data, dst_width) && t.len() == src_len + 1 && t[0]
                == *old(bus) && s[0] == (0u64, 0u32, dst) && unpack_flush(t[src_len as int], *final(bus), s[src_len as int]),
{
    let offset = data % 0x8000_0000;
    let zero_flag = data >= 0x8000_0000;
    let mut src = src0;
    let mut st: (u64, u32, u32) = (0, 0, dst);
    assert(offset == unpack_offset(data) && zero_flag == unpack_zero(data));
    let ghost mut t: Seq<Bus> = seq![*bus];
    let ghost mut s: Seq<UnpackState> = seq![st];
    let mut k: u32 = 0;
    while k < src_len
        invariant
            bus.wf(),
            k <= src_len,
            st.1 < 32,
            dst_width <= 32,
            units <= 8,
            units > 0 ==> src_mod >= 2,
            offset < 0x8000_0000,
            src == addr_plus(src0, k as int),
            t.len() == k + 1 && s.len() == k + 1,
            t[k as int] == *bus && s[k as int] == st,
            t[0] == *old(bus),
            s[0] == (0u64, 0u32, dst),
            unpack_run(t, s, src0, src_mod, units as nat, data, dst_width),
            offset == unpack_offset(data),
            zero_flag == unpack_zero(data),
        decreases src_len - k,
    {
        let ghost b_in = *bus;
        let ghost st_in = st;
        let byte8 = bus.read_u8(src);
        let byte = byte8 as u32;
        src = src.wrapping_add(1);
        st = unpack_byte(bus, byte, st, src_mod, units, offset, zero_flag, dst_width);
        proof {
            assert(byte as u8 == byte8);
            assert(byte8 == b_in.byte_at(addr_plus(src0, k as int)));
            let t0 = t;
            let s0 = s;
            t = t.push(*bus);
            s = s.push(st);
            assert(t[k as int] == b_in && t[k + 1] == *bus && s[k as int] == st_in && s[k + 1] == st);
            assert forall|j: int| 0 <= j < t.len() - 1 implies #[trigger] byte_step(
                t[j],
                t[j + 1],
                s[j],
                s[j + 1],
                t[j].byte_at(addr_plus(src0, j)),
                src_mod,
                units as nat,
                offset,
                zero_flag,
                dst_width,
            ) by {
                if j < k {
                    assert(t[j] == t0[j] && t[j + 1] == t0[j + 1] && s[j] == s0[j] && s[j + 1] == s0[j + 1]);
                    assert(byte_step(
                        t0[j],
                        t0[j + 1],
                        s0[j],
                        s0[j + 1],
                        t0[j].byte_at(addr_plus(src0, j)),
                        src_mod,
                        units as nat,
                        unpack_offset(data),
                        unpack_zero(data),
                        dst_width,
                    ));
                }
            }
            lemma_stride_next(src0, 1, k as int);
        }
        k = k + 1;
    }
    let ghost b_end = *bus;
    if st.1 > 0 {
        bus.write_u32(st.2, (st.0 % 0x1_0000_0000) as u32);
    }
    proof {
        assert(unpack_flush(b_end, *bus, st));
        assert(unpack_run(t, s, src0, src_mod, units as nat, data, dst_width));
    }
}

/// What BitUnPack does with the registers of `o`: when the info block's
/// halfword and word reads lie outside the EEPROM window, a source width of
/// 0 or a destination width above 32 writes nothing; otherwise the source
/// bytes are unpacked one by one (`unpack_run`) and the last partial word
/// stored (`unpack_flush`).
pub open spec fn unpack_done(o: Cpu, b: Bus, f: Bus) -> bool {
    let info = o.reg(2);
    let len = b.half_at(crate::cpu::arm::align2(info));
    let sw = b.byte_at(addr_plus(info, 2)) as u32;
    let dw = b.byte_at(addr_plus(info, 3)) as u32;
    let data = b.word_at(crate::cpu::arm::align4(addr_plus(info, 4)));
    info_plain(b, info) ==> if sw == 0 || dw > 32 {
        f == b
    } else {
        exists|t: Seq<Bus>, s: Seq<UnpackState>|
            #[trigger] unpack_run(t, s, o.reg(0), unit_mod(sw), (8u32 / sw) as nat, data, dw) && t.len() == len + 1
                && t[0] == b && s[0] == (0u64, 0u32, o.reg(1)) && unpack_flush(t[len as int], f, s[len as int])
    }
}

/// SWI 0x10, BitUnPack: widens the units of r2's info block (source length,
/// source width, destination width, offset with the zero flag in bit 31)
/// from r0 to r1, packed into words. A source width of 0 or a destination
/// width above 32 writes nothing.
#[verifier::rlimit(50)]
#[verifier::spinoff_prover]
fn bit_unpack(cpu: &mut Cpu, bus: &mut Bus)
    requires
        old(cpu).wf(),
        old(bus).wf(),
    ensures
        final(cpu).wf(),
        final(bus).wf(),
        *final(cpu) == *old(cpu),
        unpack_done(*old(cpu), *old(bus), *final(bus)),
{
    let src0 = cpu.regs.get(0);
    let dst = cpu.regs.get(1);
    let info = cpu.regs.get(2);
    let ghost b0 = *bus;
    let (src_len, src_width, dst_width, data) = unpack_info(bus, info);
    let ghost b1 = *bus;
    if src_width == 0 || dst_width > 32 {
        return;
    }
    let units = 8 / src_width;
    let src_mod: u32 = if src_width <= 8 { crate::cpu::arm::pow2_exec(src_width) } else { 1 };
    proof {
        assert(units > 0 ==> src_width <= 8) by (nonlinear_arith)
            requires
                units == 8u32 / src_width,
                src_width >= 1,
        ;
        if src_width <= 8 {
            vstd::arithmetic::power2::lemma2_to64();
            vstd::arithmetic::power2::lemma_pow2_strictly_increases(0, src_width as nat);
        }
        assert(src_mod == unit_mod(src_width));
    }
    unpack_all(bus, src0, dst, src_len, src_mod, units, data, dst_width);
    proof {
        if info_plain(b0, info) {
            assert(b1 == b0);
            assert(src_len == b0.half_at(crate::cpu::arm::align2(info)));
            assert(units as nat == (8u32 / src_width) as nat);
            let sw = b0.byte_at(addr_plus(info, 2)) as u32;
            assert(sw == src_width);
            let w = choose|t: Seq<Bus>, s: Seq<UnpackState>|
                #[trigger] unpack_run(t, s, src0, src_mod, units as nat, data, dst_width) && t.len() == src_len + 1
                    && t[0] == b1 && s[0] == (0u64, 0u32, dst) && unpack_flush(t[src_len as int], *bus, s[src_len as int]);
            assert(unpack_run(w.0, w.1, src0, unit_mod(sw), (8u32 / sw) as nat, data, dst_width));
            let len = b0.half_at(crate::cpu::arm::align2(info));
            assert(src0 == old(cpu).reg(0) && dst == old(cpu).reg(1));
            assert(w.0.len() == len + 1);
            assert(w.0[0] == b0);
            assert(w.1[0] == (0u64, 0u32, old(cpu).reg(1)));
            assert(unpack_flush(w.0[len as int], *bus, w.1[len as int]));
        }
    }
}

/// The running sum (mod 256) of the first `k` bytes from `src`.
pub open spec fn diff8_acc(b: Bus, src: u32, k: nat) -> u8
    decreases k,
{
    if k == 0 {
        0
    } else {
        ((diff8_acc(b, src, (k - 1) as nat) as int + b.byte_at(addr_plus(src, k - 1)) as int) % 256) as u8
    }
}

/// The 8-bit series rebuilt from `n` differences at `src`.
pub open spec fn diff8_series(b: Bus, src: u32, n: nat) -> Seq<u8> {
    Seq::new(n, |k: int| diff8_acc(b, src, (k + 1) as nat))
}

proof fn lemma_diff8_series_push(b: Bus, src: u32, k: nat)
    ensures
        diff8_series(b, src, k + 1) == diff8_series(b, src, k).push(diff8_acc(b, src, k + 1)),
{
    assert(diff8_series(b, src, k + 1) =~= diff8_series(b, src, k).push(diff8_acc(b, src, k + 1)));
}

/// The 8-bit series of `n` differences at `src`.
#[verifier::rlimit(50)]
#[verifier::spinoff_prover]
fn diff8_build(bus: &mut Bus, src: u32, n: usize) -> (r: Vec<u8>)
    requires
        old(bus).wf(),
    ensures
        *final(bus) == *old(bus),
        r@ == diff8_series(*old(bus), src, n as nat),
{
    let mut acc: u8 = 0;
    let mut out: Vec<u8> = Vec::new();
    let mut a = src;
    let mut k: usize = 0;
    while k < n
        invariant
            bus.wf(),
            *bus == *old(bus),
            k <= n,
            a == addr_plus(src, k as int),
            acc == diff8_acc(*bus, src, k as nat),
            out@ == diff8_series(*bus, src, k as nat),
        decreases n - k,
    {
        let v = bus.read_u8(a);
        acc = ((acc as u16 + v as u16) % 256) as u8;
        a = a.wrapping_add(1);
        out.push(acc);
        proof {
            lemma_diff8_series_push(*bus, src, k as nat);
        }
        k = k + 1;
    }
    out
}

/// The running sum (mod 2^16) of the first `k` halfwords from `src`.
pub open spec fn diff16_acc(b: Bus, src: u32, k: nat) -> u16
    decreases k,
{
    if k == 0 {
        0
    } else {
        ((diff16_acc(b, src, (k - 1) as nat) as int + b.half_at(
            crate::cpu::arm::align2(addr_plus(src, 2 * (k - 1))),
        ) as int) % 0x1_0000) as u16
    }
}

/// The bytes of the 16-bit series rebuilt from the differences at `src`
/// for `n` output bytes: `(n + 1) / 2` halfwords, low byte first.
#[verifier::opaque]
pub open spec fn diff16_series(b: Bus, src: u32, n: nat) -> Seq<u8> {
    Seq::new(
        2 * ((n + 1) / 2),
        |j: int|
            {
                let h = diff16_acc(b, src, (j / 2 + 1) as nat);
                if j % 2 == 0 {
                    (h % 256) as u8
                } else {
                    (h / 256) as u8
                }
            },
    )
}

/// Every one of the `m` source halfwords of a 16-bit unfilter lies outside
/// the EEPROM window and apart from the `2 * m` destination bytes, so the
/// stores do not change what is read.
#[verifier::opaque]
pub open spec fn diff16_source_ok(b: Bus, src: u32, m: nat, dst: u32) -> bool {
    forall|k: int|
        0 <= k < m ==> {
            let a = #[trigger] crate::cpu::arm::align2(addr_plus(src, 2 * k));
            crate::cpu::arm::plain_at(b, a) && apart(a, 2, dst, 2 * m as int)
        }
}

/// The destination of `len` output bytes from even `dst` is a window that
/// `output_written` speaks of.
pub open spec fn out_fits(dst: u32, len: int) -> bool {
    let rg = crate::bus::region(dst);
    &&& dst % 2 == 0
    &&& len % 2 == 0
    &&& {
        ||| rg == 2 && dst as int % 0x4_0000 + len <= 0x4_0000
        ||| rg == 3 && dst as int % 0x8000 + len <= 0x8000
        ||| rg == 5 && dst as int % 0x400 + len <= 0x400
        ||| rg == 6 && dst as int % 0x2_0000 + len <= 0x1_8000
        ||| rg == 7 && dst as int % 0x400 + len <= 0x400
    }
}

/// `c` is `b` with the first `n` bytes of `data` stored from `dst`, in the
/// cases `output_written` speaks of.
#[verifier::opaque]
pub open spec fn out_prefix(b: Bus, c: Bus, dst: u32, data: Seq<u8>, n: int) -> bool {
    let rg = crate::bus::region(dst);
    let e = dst as int % 0x4_0000;
    let i = dst as int % 0x8000;
    let p = dst as int % 0x400;
    let v = dst as int % 0x2_0000;
    let even = dst % 2 == 0 && data.len() % 2 == 0;
    &&& rg == 2 && dst % 2 == 0 && e + data.len() <= 0x4_0000 ==> c == (Bus { ewram: c.ewram, ..b }) && c.ewram@
        == b.ewram@.subrange(0, e) + data.subrange(0, n) + b.ewram@.subrange(e + n, 0x4_0000)
    &&& rg == 3 && dst % 2 == 0 && i + data.len() <= 0x8000 ==> c == (Bus { iwram: c.iwram, ..b }) && c.iwram@
        == b.iwram@.subrange(0, i) + data.subrange(0, n) + b.iwram@.subrange(i + n, 0x8000)
    &&& rg == 5 && even && p + data.len() <= 0x400 ==> c == (Bus { palette: c.palette, ..b }) && c.palette@
        == b.palette@.subrange(0, p) + data.subrange(0, n) + b.palette@.subrange(p + n, 0x400)
    &&& rg == 6 && even && v + data.len() <= 0x1_8000 ==> c == (Bus { vram: c.vram, ..b }) && c.vram@
        == b.vram@.subrange(0, v) + data.subrange(0, n) + b.vram@.subrange(v + n, 0x1_8000)
    &&& rg == 7 && even && p + data.len() <= 0x400 ==> c == (Bus { oam: c.oam, ..b }) && c.oam@
        == b.oam@.subrange(0, p) + data.subrange(0, n) + b.oam@.subrange(p + n, 0x400)
}

/// Nothing stored yet.
proof fn lemma_out_prefix_start(o: Bus, dst: u32, data: Seq<u8>)
    requires
        o.wf(),
    ensures
        out_prefix(o, o, dst, data, 0),
{
    reveal(out_prefix);
    let e = dst as int % 0x4_0000;
    let i = dst as int % 0x8000;
    let p = dst as int % 0x400;
    let v = dst as int % 0x2_0000;
    assert(o.ewram@ =~= o.ewram@.subrange(0, e) + data.subrange(0, 0) + o.ewram@.subrange(e, 0x4_0000));
    assert(o.iwram@ =~= o.iwram@.subrange(0, i) + data.subrange(0, 0) + o.iwram@.subrange(i, 0x8000));
    assert(o.palette@ =~= o.palette@.subrange(0, p) + data.subrange(0, 0) + o.palette@.subrange(p, 0x400));
    assert(o.oam@ =~= o.oam@.subrange(0, p) + data.subrange(0, 0) + o.oam@.subrange(p, 0x400));
    if v <= 0x1_8000 {
        assert(o.vram@ =~= o.vram@.subrange(0, v) + data.subrange(0, 0) + o.vram@.subrange(v, 0x1_8000));
    }
}

/// All of `data` stored is what `output_written` states.
proof fn lemma_out_prefix_done(o: Bus, c: Bus, dst: u32, data: Seq<u8>)
    requires
        out_prefix(o, c, dst, data, data.len() as int),
    ensures
        output_written(o, c, dst, data),
{
    reveal(out_prefix);
    assert(data.subrange(0, data.len() as int) =~= data);
}

/// One more halfword of `data` stored extends the stored prefix.
#[verifier::rlimit(80)]
#[verifier::spinoff_prover]
proof fn lemma_out_prefix_half(o: Bus, prev: Bus, c: Bus, dst: u32, data: Seq<u8>, n: int, val: u16)
    requires
        o.wf(),
        out_fits(dst, data.len() as int),
        0 <= n,
        n % 2 == 0,
        n + 2 <= data.len(),
        data[n] == (val % 256) as u8,
        data[n + 1] == (val / 256) as u8,
        out_prefix(o, prev, dst, data, n),
        prev.half_written(c, addr_plus(dst, n), val),
    ensures
        out_prefix(o, c, dst, data, n + 2),
{
    reveal(out_prefix);
    let rg = crate::bus::region(dst);
    let a = addr_plus(dst, n);
    if rg == 2 {
        lemma_window(dst, n, 0x4_0000);
        lemma_store_pair(o.ewram@, prev.ewram@, data, dst as int % 0x4_0000, n, 0x4_0000);
    } else if rg == 3 {
        lemma_window(dst, n, 0x8000);
        lemma_store_pair(o.iwram@, prev.iwram@, data, dst as int % 0x8000, n, 0x8000);
    } else if rg == 5 {
        lemma_window(dst, n, 0x400);
        lemma_store_pair(o.palette@, prev.palette@, data, dst as int % 0x400, n, 0x400);
    } else if rg == 6 {
        lemma_window(dst, n, 0x2_0000);
        assert(crate::bus::vram_off(a) == dst as int % 0x2_0000 + n);
        lemma_store_pair(o.vram@, prev.vram@, data, dst as int % 0x2_0000, n, 0x1_8000);
    } else {
        lemma_window(dst, n, 0x400);
        lemma_store_pair(o.oam@, prev.oam@, data, dst as int % 0x400, n, 0x400);
    }
}

/// While output is being stored, a source halfword apart from the
/// destination reads as before.
#[verifier::rlimit(80)]
#[verifier::spinoff_prover]
proof fn lemma_out_prefix_read(o: Bus, c: Bus, dst: u32, data: Seq<u8>, n: int, a: u32)
    requires
        o.wf(),
        out_fits(dst, data.len() as int),
        0 <= n <= data.len(),
        out_prefix(o, c, dst, data, n),
        a % 2 == 0,
        apart(a, 2, dst, data.len() as int),
    ensures
        c.half_at(a) == o.half_at(a),
        c.cartridge == o.cartridge,
{
    reveal(out_prefix);
    let rg = crate::bus::region(dst);
    if rg == 2 || rg == 3 {
        assert(written_prefix(o, c, dst, data, n)) by {
            reveal(written_prefix);
        }
        lemma_read_apart(o, c, dst, data, n, a, 2);
    } else {
        lemma_read_other_region(o, c, a, 2);
    }
}

/// What Diff16bitUnFilter (SWI 0x18) does to memory: with a readable
/// header, a destination window that holds the output and source halfwords
/// apart from it, the rebuilt series is stored from r1 as halfwords.
pub open spec fn diff16_done(o: Cpu, ob: Bus, fb: Bus) -> bool {
    let src = o.reg(0);
    let dst = o.reg(1);
    let s = addr_plus(src, 4);
    let n = comp_size(ob, src) as nat;
    let m = (n + 1) / 2;
    plain_header(ob, src) && out_fits(dst, 2 * m as int) && diff16_source_ok(ob, s, m, dst) ==> output_written(
        ob,
        fb,
        dst,
        diff16_series(ob, s, n),
    )
}

/// An even offset from an even address keeps it even.
proof fn lemma_window_even(d: u32, w: int)
    requires
        d % 2 == 0,
        w >= 0,
        w % 2 == 0,
    ensures
        addr_plus(d, w) % 2 == 0,
        (addr_plus(d, w) - addr_plus(d, w) % 2) as u32 == addr_plus(d, w),
{
    let x = d as int + w;
    vstd::arithmetic::div_mod::lemma_fundamental_div_mod(x, 0x1_0000_0000);
    assert((x % 0x1_0000_0000) % 2 == 0) by (nonlinear_arith)
        requires
            x == 0x1_0000_0000 * (x / 0x1_0000_0000) + x % 0x1_0000_0000,
            x % 2 == 0,
    ;
}

/// One halfword of Diff16bitUnFilter: the source halfword at `src` added to
/// `acc`, the sum stored at `dst` and returned.
#[verifier::rlimit(100)]
#[verifier::spinoff_prover]
fn unfilter16_step(
    bus: &mut Bus,
    src: u32,
    dst: u32,
    acc: u16,
    Ghost(o): Ghost<Bus>,
    Ghost(s0): Ghost<u32>,
    Ghost(d0): Ghost<u32>,
    Ghost(data): Ghost<Seq<u8>>,
    Ghost(n): Ghost<nat>,
    Ghost(m): Ghost<nat>,
    Ghost(h): Ghost<int>,
    Ghost(track): Ghost<bool>,
) -> (r: u16)
    requires
        old(bus).wf(),
        o.wf(),
        0 <= h < m,
        data.len() == 2 * m,
        src == addr_plus(s0, 2 * h),
        dst == addr_plus(d0, 2 * h),
        track ==> out_fits(d0, 2 * m as int) && diff16_source_ok(o, s0, m, d0),
        data == diff16_series(o, s0, n),
        m == (n + 1) / 2,
        track ==> acc == diff16_acc(o, s0, h as nat),
        track ==> out_prefix(o, *old(bus), d0, data, 2 * h),
    ensures
        final(bus).wf(),
        track ==> r == diff16_acc(o, s0, (h + 1) as nat),
        track ==> out_prefix(o, *final(bus), d0, data, 2 * h + 2),
{
    let ghost prev = *bus;
    let ghost a = (src - src % 2) as u32;
    proof {
        if track {
            lemma_diff16_source(o, s0, m, d0, h);
            lemma_out_prefix_read(o, *bus, d0, data, 2 * h, a);
        }
    }
    let v = bus.read_u16(src);
    let r = acc.wrapping_add(v);
    proof {
        if track {
            lemma_diff16_step(o, s0, n, h);
            lemma_window_even(d0, 2 * h);
        }
    }
    bus.write_u16(dst, r);
    proof {
        if track {
            lemma_out_prefix_half(o, prev, *bus, d0, data, 2 * h, r);
        }
    }
    r
}

/// Diff16bitUnFilter's loop: each halfword of the series is added up and
/// stored as it is computed.
#[verifier::rlimit(100)]
#[verifier::spinoff_prover]
fn unfilter16(bus: &mut Bus, src: u32, dst: u32, out_size: usize)
    requires
        old(bus).wf(),
        out_size < 0x100_0000,
    ensures
        final(bus).wf(),
        out_fits(dst, 2 * ((out_size as nat + 1) / 2) as int) && diff16_source_ok(
            *old(bus),
            src,
            (out_size as nat + 1) / 2,
            dst,
        ) ==> output_written(*old(bus), *final(bus), dst, diff16_series(*old(bus), src, out_size as nat)),
{
    let mut src = src;
    let mut dst = dst;
    let ghost o = *old(bus);
    let ghost s0 = src;
    let ghost d0 = dst;
    let ghost data = diff16_series(o, s0, out_size as nat);
    let ghost m = (out_size as nat + 1) / 2;
    let ghost track = out_fits(d0, 2 * m as int) && diff16_source_ok(o, s0, m, d0);
    proof {
        lemma_out_prefix_start(o, d0, data);
        lemma_diff16_len(o, s0, out_size as nat);
    }
    let mut acc: u16 = 0;
    let mut written: usize = 0;
    let ghost mut h: int = 0;
    while written < out_size
        invariant
            bus.wf(),
            o.wf(),
            out_size < 0x100_0000,
            written == 2 * h,
            0 <= h <= m,
            m == (out_size as nat + 1) / 2,
            h < m ==> written < out_size,
            h == m ==> written >= out_size,
            data.len() == 2 * m,
            track ==> out_fits(d0, 2 * m as int) && diff16_source_ok(o, s0, m, d0),
            data == diff16_series(o, s0, out_size as nat),
            src == addr_plus(s0, written as int),
            dst == addr_plus(d0, written as int),
            track ==> acc == diff16_acc(o, s0, h as nat),
            track ==> out_prefix(o, *bus, d0, data, written as int),
        decreases m - h,
    {
        acc = unfilter16_step(bus, src, dst, acc, Ghost(o), Ghost(s0), Ghost(d0), Ghost(data), Ghost(out_size as nat), Ghost(m), Ghost(h), Ghost(track));
        proof {
            lemma_addr_plus_step(s0, written as int, 2);
            lemma_addr_plus_step(d0, written as int, 2);
        }
        src = src.wrapping_add(2);
        dst = dst.wrapping_add(2);
        written = written + 2;
        proof {
            h = h + 1;
        }
    }
    proof {
        if track {
            lemma_out_prefix_done(o, *bus, d0, data);
        }
    }
}

/// Stepping an address by `d` after `w` is stepping it by `w + d`.
proof fn lemma_addr_plus_step(a: u32, w: int, d: int)
    requires
        w >= 0,
        d >= 0,
    ensures
        addr_plus(addr_plus(a, w), d) == addr_plus(a, w + d),
{
    vstd::arithmetic::div_mod::lemma_add_mod_noop(a as int + w, d, 0x1_0000_0000);
    vstd::arithmetic::div_mod::lemma_mod_twice(d, 0x1_0000_0000);
}

/// Halfword `k` of the 16-bit series: its running sum, low byte first, the
/// sum one step on from the last.
proof fn lemma_diff16_step(b: Bus, src: u32, n: nat, k: int)
    requires
        0 <= k < (n + 1) / 2,
    ensures
        diff16_series(b, src, n).len() == 2 * ((n + 1) / 2),
        diff16_series(b, src, n)[2 * k] == (diff16_acc(b, src, (k + 1) as nat) % 256) as u8,
        diff16_series(b, src, n)[2 * k + 1] == (diff16_acc(b, src, (k + 1) as nat) / 256) as u8,
        diff16_acc(b, src, (k + 1) as nat) == ((diff16_acc(b, src, k as nat) as int + b.half_at(
            crate::cpu::arm::align2(addr_plus(src, 2 * k)),
        ) as int) % 0x1_0000) as u16,
{
    reveal(diff16_series);
    assert((2 * k) / 2 == k && (2 * k) % 2 == 0 && (2 * k + 1) / 2 == k && (2 * k + 1) % 2 == 1);
}

/// The length of the 16-bit series.
proof fn lemma_diff16_len(b: Bus, src: u32, n: nat)
    ensures
        diff16_series(b, src, n).len() == 2 * ((n + 1) / 2),
{
    reveal(diff16_series);
}

/// Source halfword `k` of a 16-bit unfilter whose sources are fit.
proof fn lemma_diff16_source(b: Bus, src: u32, m: nat, dst: u32, k: int)
    requires
        diff16_source_ok(b, src, m, dst),
        0 <= k < m,
    ensures
        crate::cpu::arm::plain_at(b, crate::cpu::arm::align2(addr_plus(src, 2 * k))),
        apart(crate::cpu::arm::align2(addr_plus(src, 2 * k)), 2, dst, 2 * m as int),
{
    reveal(diff16_source_ok);
}

/// SWI 0x16-0x18, Diff8bitUnFilter / Diff16bitUnFilter: rebuilds a series
/// from its successive differences (`wide`: 16-bit units, written as they
/// are computed).
#[verifier::rlimit(50)]
#[verifier::spinoff_prover]
pub fn diff_unfilter(cpu: &mut Cpu, bus: &mut Bus, wide: bool)
    requires
        old(cpu).wf(),
        old(bus).wf(),
    ensures
        final(cpu).wf(),
        final(bus).wf(),
        *final(cpu) == *old(cpu),
        !wide && plain_header(*old(bus), old(cpu).reg(0)) ==> output_written(
            *old(bus),
            *final(bus),
            old(cpu).reg(1),
            diff8_series(*old(bus), addr_plus(old(cpu).reg(0), 4), comp_size(*old(bus), old(cpu).reg(0)) as nat),
        ),
        wide ==> diff16_done(*old(cpu), *old(bus), *final(bus)),
{
    let src0 = cpu.regs.get(0);
    let mut dst = cpu.regs.get(1);
    let out_size = read_comp_header(bus, src0) as usize;
    let mut src = src0.wrapping_add(4);
    if wide {
        unfilter16(bus, src, dst, out_size);
    } else {
        let out = diff8_build(bus, src, out_size);
        write_output(bus, dst, &out);
    }
}

impl Cpu {
    /// The state the BIOS leaves at boot ("direct boot"): banked stack
    /// pointers 0x03007FE0 (SVC), 0x03007FA0 (IRQ), 0x03007F00 (System),
    /// System mode with IRQ and FIQ enabled, ARM state, not halted. The PC is
    /// left to the caller.
    pub fn setup_direct_boot(&mut self)
        requires
            old(self).wf(),
        ensures
            final(self).wf(),
            final(self).cpsr.0 == 0x1F,
            cpsr_mode(final(self).cpsr.0) == CpuMode::System,
            final(self).reg(13) == 0x0300_7F00,
            final(self).reg(15) == old(self).reg(15),
            final(self).regs.banked_sp(CpuMode::Supervisor) == 0x0300_7FE0,
            final(self).regs.banked_sp(CpuMode::Irq) == 0x0300_7FA0,
            !final(self).halted,
            final(self).stats == old(self).stats,
    {
        let ghost o0 = self.regs;
        self.regs.switch_mode(CpuMode::Supervisor);
        let ghost o1 = self.regs;
        proof {
            RegisterFile::lemma_switched(o0, o1, CpuMode::Supervisor);
        }
        self.regs.set(13, 0x0300_7FE0);
        let ghost o2 = self.regs;
        self.regs.switch_mode(CpuMode::Irq);
        let ghost o3 = self.regs;
        proof {
            RegisterFile::lemma_switched(o2, o3, CpuMode::Irq);
            RegisterFile::lemma_switched_banks(o2, o3, CpuMode::Irq);
        }
        self.regs.set(13, 0x0300_7FA0);
        let ghost o4 = self.regs;
        self.regs.switch_mode(CpuMode::System);
        proof {
            RegisterFile::lemma_switched(o4, self.regs, CpuMode::System);
            RegisterFile::lemma_switched_banks(o4, self.regs, CpuMode::System);
        }
        self.regs.set(13, 0x0300_7F00);
        self.cpsr = Cpsr(0x1F);
        self.halted = false;
    }
}

/// A word read as signed.
fn signed_word(x: u32) -> (r: i32)
    ensures
        r == crate::cpu::alu::signed(x),
{
    if x >= 0x8000_0000 {
        (x as i64 - 0x1_0000_0000) as i32
    } else {
        x as i32
    }
}

} // verus!
