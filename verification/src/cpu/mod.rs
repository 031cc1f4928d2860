//! The ARM7TDMI processor: register file, status register, ALU and the ARM
//! and THUMB instruction sets.
//!
//! A three-stage pipeline (fetch, decode, execute) is modelled by its visible
//! effect: while an ARM instruction executes, the PC reads 8 bytes ahead (two
//! 4-byte instructions prefetched); in THUMB state 4 bytes ahead.
use vstd::prelude::*;
use crate::bus::Bus;
use crate::cpu::alu::bit;
use crate::cpu::psr::{cpsr_mode, spsr_slot, Cpsr, CpuMode, PsrFlags};
use crate::cpu::registers::RegisterFile;

pub mod alu;
pub mod arm;
pub mod bios;
pub mod condition;
pub mod psr;
pub mod registers;
pub mod thumb;

verus! {

/// Counters for smoke testing.
pub struct CpuStats {
    pub arm_executed: u64,
    pub thumb_executed: u64,
    pub arm_unimplemented: u64,
    pub thumb_unimplemented: u64,
    /// The last unimplemented opcodes (pc, instruction, THUMB), at most 32.
    pub recent_unimplemented: Vec<(u32, u32, bool)>,
}

impl CpuStats {
    pub fn new() -> (r: CpuStats)
        ensures
            r.arm_executed == 0 && r.thumb_executed == 0 && r.arm_unimplemented == 0 && r.thumb_unimplemented == 0,
            r.recent_unimplemented@.len() == 0,
    {
        CpuStats {
            arm_executed: 0,
            thumb_executed: 0,
            arm_unimplemented: 0,
            thumb_unimplemented: 0,
            recent_unimplemented: Vec::new(),
        }
    }

    /// Counts an unimplemented opcode and keeps it while fewer than 32 are
    /// kept.
    pub fn record_unimpl(&mut self, pc: u32, instr: u32, thumb: bool)
        ensures
            thumb ==> final(self).thumb_unimplemented == sat_inc(old(self).thumb_unimplemented)
                && final(self).arm_unimplemented == old(self).arm_unimplemented,
            !thumb ==> final(self).arm_unimplemented == sat_inc(old(self).arm_unimplemented)
                && final(self).thumb_unimplemented == old(self).thumb_unimplemented,
            final(self).recent_unimplemented@ == if old(self).recent_unimplemented@.len() < 32 {
                old(self).recent_unimplemented@.push((pc, instr, thumb))
            } else {
                old(self).recent_unimplemented@
            },
            final(self).arm_executed == old(self).arm_executed,
            final(self).thumb_executed == old(self).thumb_executed,
    {
        if thumb {
            self.thumb_unimplemented = self.thumb_unimplemented.saturating_add(1);
        } else {
            self.arm_unimplemented = self.arm_unimplemented.saturating_add(1);
        }
        if self.recent_unimplemented.len() < 32 {
            self.recent_unimplemented.push((pc, instr, thumb));
        }
    }
}

/// A counter incremented, saturating at its maximum.
pub open spec fn sat_inc(x: u64) -> u64 {
    if x == u64::MAX { x } else { (x + 1) as u64 }
}

pub struct Cpu {
    pub regs: RegisterFile,
    pub cpsr: Cpsr,
    /// Banked SPSRs (FIQ, IRQ, SVC, ABT, UND).
    pub spsr: [Cpsr; 5],
    /// Set by an instruction that branched: the PC already holds the target.
    pub branched: bool,
    /// Halted by SWI Halt or IntrWait: sleeps until IE & IF != 0.
    pub halted: bool,
    pub stats: CpuStats,
}

/// The status word on entering an exception: mode set, ARM state, IRQs
/// masked; the flags are kept.
pub open spec fn exception_cpsr(w: u32, m: CpuMode) -> u32 {
    let with_mode = (w & !0x1Fu32) | crate::cpu::psr::mode_bits(m);
    (with_mode & !(1u32 << 5u32)) | (1u32 << 7u32)
}

/// The counters and the halt state are kept (everything an instruction
/// other than SWI leaves alone besides registers, status and memory).
pub open spec fn keeps(o: Cpu, f: Cpu) -> bool {
    f.stats == o.stats && f.halted == o.halted
}

/// `pc + k` with the 32-bit address wrapping.
pub open spec fn pc_plus(pc: u32, k: int) -> u32 {
    ((pc as int + k) % 0x1_0000_0000) as u32
}

/// `m` is `o` with an instruction fetched: the PC reads `ahead` (the
/// pipeline's view while the instruction executes) and the counter of its
/// instruction set is incremented.
pub open spec fn fetched(o: Cpu, m: Cpu, ahead: u32, thumb: bool) -> bool {
    &&& m.regs.regs() == o.regs.regs().update(15, ahead)
    &&& RegisterFile::same_banks(o.regs, m.regs)
    &&& m.cpsr == o.cpsr
    &&& m.spsr == o.spsr
    &&& m.halted == o.halted
    &&& m.branched == o.branched
    &&& m.stats.arm_executed == if thumb { o.stats.arm_executed } else { sat_inc(o.stats.arm_executed) }
    &&& m.stats.thumb_executed == if thumb { sat_inc(o.stats.thumb_executed) } else { o.stats.thumb_executed }
    &&& m.stats.arm_unimplemented == o.stats.arm_unimplemented
    &&& m.stats.thumb_unimplemented == o.stats.thumb_unimplemented
    &&& m.stats.recent_unimplemented == o.stats.recent_unimplemented
}

/// `f` is `e` once its instruction retires: unless it branched, the PC
/// moves on to `next`; the branch mark is cleared.
pub open spec fn retired(e: Cpu, f: Cpu, next: u32) -> bool {
    &&& f.regs.regs() == if e.branched { e.regs.regs() } else { e.regs.regs().update(15, next) }
    &&& RegisterFile::same_banks(e.regs, f.regs)
    &&& f.cpsr == e.cpsr
    &&& f.spsr == e.spsr
    &&& f.halted == e.halted
    &&& f.stats == e.stats
    &&& !f.branched
}

/// One ARM instruction from `o`: the word at the PC (fetched outside the
/// EEPROM window) is executed with the PC reading 8 ahead, and the PC then
/// moves on by 4 unless the instruction branched.
pub open spec fn arm_step(o: Cpu, f: Cpu, ob: Bus, fb: Bus) -> bool {
    let pc = o.reg(15);
    let a = crate::cpu::arm::align4(pc);
    crate::cpu::arm::plain_at(ob, a) ==> exists|m: Cpu, e: Cpu|
        #[trigger] crate::cpu::arm::arm_exec_post(m, e, ob, fb, ob.word_at(a)) && fetched(o, m, pc_plus(pc, 8), false)
            && retired(e, f, pc_plus(pc, 4))
}

/// One THUMB instruction from `o`: the halfword at the PC (fetched outside
/// the EEPROM window) is executed with the PC reading 4 ahead, and the PC
/// then moves on by 2 unless the instruction branched.
pub open spec fn thumb_step(o: Cpu, f: Cpu, ob: Bus, fb: Bus) -> bool {
    let pc = o.reg(15);
    let a = crate::cpu::arm::align2(pc);
    crate::cpu::arm::plain_at(ob, a) ==> exists|m: Cpu, e: Cpu|
        #[trigger] crate::cpu::thumb::thumb_exec_post(m, e, ob, fb, ob.half_at(a) as u32) && fetched(
            o,
            m,
            pc_plus(pc, 4),
            true,
        ) && retired(e, f, pc_plus(pc, 2))
}

/// One step of the CPU from `o` (bus `ob`) to `f` (bus `fb`): a halted CPU
/// with no enabled interrupt requested sleeps; a requested interrupt that IME
/// and the CPSR let through is taken (IRQ mode, vector 0x18, LR = PC + 4,
/// nothing counted); otherwise the CPU wakes and runs one instruction of its
/// state.
pub open spec fn cpu_step(o: Cpu, f: Cpu, ob: Bus, fb: Bus) -> bool {
    let pending = (ob.io.ie & ob.io.iflag) != 0;
    let asleep = o.halted && !pending;
    let irq = ob.io.ime && pending && !bit(o.cpsr.0, 7);
    &&& asleep ==> f == o && fb == ob
    &&& !asleep && irq ==> {
        &&& !f.halted
        &&& f.reg(15) == 0x18
        &&& f.reg(14) == (o.reg(15) as int + 4) % 0x1_0000_0000
        &&& f.cpsr.0 == exception_cpsr(o.cpsr.0, CpuMode::Irq)
        &&& f.spsr@ == o.spsr@.update(1, o.cpsr)
        &&& f.stats == o.stats
        &&& fb == ob
    }
    &&& !asleep && !irq ==> ({
        let awake = Cpu { halted: false, ..o };
        if bit(o.cpsr.0, 5) {
            thumb_step(awake, f, ob, fb)
        } else {
            arm_step(awake, f, ob, fb)
        }
    })
}

impl Cpu {
    /// Register `i` as software sees it now.
    pub open spec fn reg(&self, i: int) -> u32 {
        self.regs.regs()[i]
    }

    /// The register file shows the bank of the CPSR's mode.
    pub open spec fn wf(&self) -> bool {
        &&& self.regs.regs().len() == 16
        &&& self.regs.mode() == cpsr_mode(self.cpsr.0)
    }

    /// Reset state: Supervisor mode, IRQ and FIQ masked, ARM state, PC 0;
    /// every register (Supervisor's R13 and R14 included) zero, the five
    /// SPSRs 0xDF, the counters zero.
    pub fn new() -> (r: Cpu)
        ensures
            r.wf(),
            r.cpsr.0 == 0xD3,
            r.reg(15) == 0,
            forall|i: int| 0 <= i < 16 ==> r.reg(i) == 0,
            forall|i: int| 0 <= i < 5 ==> r.spsr[i].0 == 0xDF,
            !r.halted && !r.branched,
            r.stats.arm_executed == 0 && r.stats.thumb_executed == 0,
            r.stats.arm_unimplemented == 0 && r.stats.thumb_unimplemented == 0,
            r.stats.recent_unimplemented@.len() == 0,
    {
        let mut cpu = Cpu {
            regs: RegisterFile::new(),
            cpsr: Cpsr::new(),
            spsr: [Cpsr::new(); 5],
            branched: false,
            halted: false,
            stats: CpuStats::new(),
        };
        cpu.cpsr = Cpsr(0x13 | 0x80 | 0x40);
        assert(0x13u32 | 0x80u32 | 0x40u32 == 0xD3u32) by (bit_vector);
        let ghost o = cpu.regs;
        cpu.regs.switch_mode(CpuMode::Supervisor);
        proof {
            RegisterFile::lemma_switched(o, cpu.regs, CpuMode::Supervisor);
            RegisterFile::lemma_switched_zero(o, cpu.regs, CpuMode::Supervisor);
            assert(cpsr_mode(0xD3) == CpuMode::Supervisor);
        }
        cpu.regs.set_pc(0);
        cpu
    }

    /// The SPSR of the current mode (`None` in User and System mode).
    pub fn current_spsr(&self) -> (r: Option<Cpsr>)
        ensures
            r == match spsr_slot(cpsr_mode(self.cpsr.0)) {
                Some(i) => Some(self.spsr[i as int]),
                None => None,
            },
    {
        match self.cpsr.mode().spsr_index() {
            Some(i) => Some(self.spsr[i]),
            None => None,
        }
    }

    /// ARM branch: the target aligned to 4, marked as taken.
    pub fn set_pc_arm(&mut self, target: u32)
        requires
            old(self).wf(),
        ensures
            final(self).wf(),
            final(self).regs.regs() == old(self).regs.regs().update(15, target & !3u32),
            final(self).branched,
            final(self).cpsr == old(self).cpsr && final(self).spsr == old(self).spsr,
            final(self).halted == old(self).halted,
            final(self).stats == old(self).stats,
            RegisterFile::same_banks(old(self).regs, final(self).regs),
    {
        self.regs.set_pc(target & !3u32);
        self.branched = true;
    }

    /// THUMB branch: the target aligned to 2, marked as taken.
    pub fn set_pc_thumb(&mut self, target: u32)
        requires
            old(self).wf(),
        ensures
            final(self).wf(),
            final(self).regs.regs() == old(self).regs.regs().update(15, target & !1u32),
            final(self).branched,
            final(self).cpsr == old(self).cpsr && final(self).spsr == old(self).spsr,
            final(self).halted == old(self).halted,
            final(self).stats == old(self).stats,
            RegisterFile::same_banks(old(self).regs, final(self).regs),
    {
        self.regs.set_pc(target & !1u32);
        self.branched = true;
    }

    /// Enters the exception of mode `m` with vector `vector`: the CPSR goes
    /// to the mode's SPSR, the mode's bank becomes visible, LR takes
    /// `return_addr` and the PC the vector.
    pub(crate) fn enter_exception(&mut self, m: CpuMode, vector: u32, return_addr: u32)
        requires
            old(self).wf(),
            m == CpuMode::Irq || m == CpuMode::Supervisor,
        ensures
            final(self).wf(),
            final(self).cpsr.0 == exception_cpsr(old(self).cpsr.0, m),
            cpsr_mode(final(self).cpsr.0) == m,
            final(self).spsr@ == old(self).spsr@.update(spsr_slot(m).unwrap() as int, old(self).cpsr),
            final(self).reg(14) == return_addr,
            final(self).reg(15) == vector & !3u32,
            final(self).branched,
            final(self).halted == old(self).halted,
            final(self).stats == old(self).stats,
    {
        let old_cpsr = self.cpsr;
        self.cpsr.set_mode(m);
        self.cpsr.set_flag(PsrFlags::T, false);
        self.cpsr.set_flag(PsrFlags::I, true);
        proof {
            crate::bits::lemma_u32_single_bits();
            crate::bits::lemma_u32_facts();
            lemma_exception_mode(old_cpsr.0, m);
        }
        let ghost o = self.regs;
        self.regs.switch_mode(m);
        proof {
            RegisterFile::lemma_switched(o, self.regs, m);
        }
        match m.spsr_index() {
            Some(idx) => {
                self.spsr[idx] = old_cpsr;
            },
            None => {},
        }
        self.regs.set_lr(return_addr);
        self.set_pc_arm(vector);
    }

    /// IRQ entry: LR_irq = PC + 4 (the PC points at the next instruction
    /// here; the trampoline returns with `SUBS PC, LR, #4`), PC = 0x18.
    fn enter_irq(&mut self)
        requires
            old(self).wf(),
        ensures
            final(self).wf(),
            final(self).cpsr.0 == exception_cpsr(old(self).cpsr.0, CpuMode::Irq),
            final(self).spsr@ == old(self).spsr@.update(1, old(self).cpsr),
            final(self).reg(14) == (old(self).reg(15) as int + 4) % 0x1_0000_0000,
            final(self).reg(15) == 0x18,
            final(self).halted == old(self).halted,
            final(self).stats == old(self).stats,
            !final(self).branched,
    {
        let return_addr = self.regs.pc().wrapping_add(4);
        self.enter_exception(CpuMode::Irq, 0x18, return_addr);
        self.branched = false;
        assert(0x18u32 & !3u32 == 0x18u32) by (bit_vector);
    }

    /// Runs one step: a halted CPU sleeps until an enabled interrupt is
    /// requested; a pending IRQ that the CPSR lets through is taken before
    /// the next instruction; otherwise one ARM or THUMB instruction runs.
    /// Returns the cycles used (one per step).
    pub fn step(&mut self, bus: &mut Bus) -> (r: u32)
        requires
            old(self).wf(),
            old(bus).wf(),
        ensures
            final(self).wf(),
            final(bus).wf(),
            r == 1,
            cpu_step(*old(self), *final(self), *old(bus), *final(bus)),
    {
        if self.halted {
            if bus.io.halt_condition_met() {
                self.halted = false;
            } else {
                return 1;
            }
        }
        if bus.io.irq_pending() && !self.cpsr.irq_disabled() {
            self.enter_irq();
            return 1;
        }
        if self.cpsr.thumb() {
            self.step_thumb(bus)
        } else {
            self.step_arm(bus)
        }
    }

    fn step_arm(&mut self, bus: &mut Bus) -> (r: u32)
        requires
            old(self).wf(),
            old(bus).wf(),
        ensures
            final(self).wf(),
            final(bus).wf(),
            r == 1,
            !final(self).branched,
            arm_step(*old(self), *final(self), *old(bus), *final(bus)),
    {
        let ghost o = *self;
        let ghost ob = *bus;
        let exec_pc = self.regs.pc();
        let instr = bus.read_u32(exec_pc);
        self.stats.arm_executed = self.stats.arm_executed.saturating_add(1);
        self.regs.set_pc(exec_pc.wrapping_add(8));
        let ghost m = *self;
        let ghost bm = *bus;
        proof {
            assert(fetched(o, m, pc_plus(exec_pc, 8), false));
        }
        arm::execute(self, bus, instr);
        let ghost e = *self;
        if !self.branched {
            self.regs.set_pc(exec_pc.wrapping_add(4));
        }
        self.branched = false;
        proof {
            assert(retired(e, *self, pc_plus(exec_pc, 4)));
            if crate::cpu::arm::plain_at(ob, crate::cpu::arm::align4(exec_pc)) {
                assert(bm == ob && instr == ob.word_at(crate::cpu::arm::align4(exec_pc)));
                assert(crate::cpu::arm::arm_exec_post(m, e, ob, *bus, ob.word_at(crate::cpu::arm::align4(exec_pc))));
            }
        }
        1
    }

    fn step_thumb(&mut self, bus: &mut Bus) -> (r: u32)
        requires
            old(self).wf(),
            old(bus).wf(),
        ensures
            final(self).wf(),
            final(bus).wf(),
            r == 1,
            !final(self).branched,
            thumb_step(*old(self), *final(self), *old(bus), *final(bus)),
    {
        let ghost o = *self;
        let ghost ob = *bus;
        let exec_pc = self.regs.pc();
        let instr = bus.read_u16(exec_pc);
        self.stats.thumb_executed = self.stats.thumb_executed.saturating_add(1);
        self.regs.set_pc(exec_pc.wrapping_add(4));
        let ghost m = *self;
        let ghost bm = *bus;
        proof {
            assert(fetched(o, m, pc_plus(exec_pc, 4), true));
        }
        thumb::execute(self, bus, instr);
        let ghost e = *self;
        if !self.branched {
            self.regs.set_pc(exec_pc.wrapping_add(2));
        }
        self.branched = false;
        proof {
            assert(retired(e, *self, pc_plus(exec_pc, 2)));
            if crate::cpu::arm::plain_at(ob, crate::cpu::arm::align2(exec_pc)) {
                assert(bm == ob && instr == ob.half_at(crate::cpu::arm::align2(exec_pc)));
                assert(crate::cpu::thumb::thumb_exec_post(
                    m,
                    e,
                    ob,
                    *bus,
                    ob.half_at(crate::cpu::arm::align2(exec_pc)) as u32,
                ));
            }
        }
        1
    }
}

/// The status word built on exception entry is in the exception's mode.
proof fn lemma_exception_mode(w: u32, m: CpuMode)
    requires
        m == CpuMode::Irq || m == CpuMode::Supervisor,
    ensures
        cpsr_mode(exception_cpsr(w, m)) == m,
{
    let b = crate::cpu::psr::mode_bits(m);
    let x = exception_cpsr(w, m);
    assert(x % 32 == b) by (bit_vector)
        requires
            x == ((((w & !0x1Fu32) | b) & !(1u32 << 5u32)) | (1u32 << 7u32)),
            b == 0x12 || b == 0x13,
    ;
}

impl Default for Cpu {
    fn default() -> (r: Cpu)
        ensures
            r.wf(),
    {
        Cpu::new()
    }
}

} // verus!
