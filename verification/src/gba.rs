//! The whole console: CPU and bus, stepped together, plus the serial-link
//! controls the host drives.
use vstd::prelude::*;
use crate::apu::Apu;
use crate::bus::{dma_ran, Bus};
use crate::cpu::Cpu;
use crate::dma::Timing;
use crate::io::Io;
use crate::ppu::{Ppu, TickResult};
use crate::sio::Mode;

verus! {

/// Cycles in one frame (228 scanlines of 1232 cycles).
pub const CYCLES_PER_FRAME: u32 = 280_896;

/// A complete emulator instance.
pub struct Gba {
    pub cpu: Cpu,
    pub bus: Bus,
}

/// The stages of one step from `o` to `f` through the buses `b1`..`b6`:
/// the CPU steps (`cpu_step`), then the sound unit, the timers and the video
/// unit advance by the one cycle used (the video unit reporting `r`), the
/// VBlank and HBlank DMAs run when the video unit entered those periods, and
/// the video interrupts and the keypad interrupt (when its condition holds)
/// are requested.
pub open spec fn step_stages(o: Gba, f: Gba, b1: Bus, b2: Bus, b3: Bus, b4: Bus, b5: Bus, b6: Bus, r: TickResult) -> bool {
    let key: u16 = if crate::joypad::keypad_irq(b6.io.joypad.keyinput, b6.io.joypad.keycnt) {
        crate::io::irq_bits::KEYPAD
    } else {
        0
    };
    &&& crate::cpu::cpu_step(o.cpu, f.cpu, o.bus, b1)
    &&& b2 == (Bus { apu: b2.apu, ..b1 }) && Apu::ticked(b1.apu, b2.apu, 1)
    &&& b3 == (Bus { io: Io { timers: b3.io.timers, iflag: b3.io.iflag, ..b2.io }, ..b2 })
    &&& forall|i: int| 0 <= i < 4 ==> #[trigger] b3.io.timers.units[i] == crate::timer::ticked(b2.io.timers.units@, 1, i)
    &&& b3.io.iflag == b2.io.iflag | crate::timer::timer_irqs(b2.io.timers.units@, 1)
    &&& b4 == (Bus { ppu: b4.ppu, ..b3 }) && Ppu::ticked(b3.ppu, b4.ppu, 1, b3.vram@, b3.palette@, b3.oam@, r)
    &&& if r.entered_vblank { dma_ran(b4, b5, Timing::VBlank) } else { b5 == b4 }
    &&& if r.entered_hblank { dma_ran(b5, b6, Timing::HBlank) } else { b6 == b5 }
    &&& f.bus == (Bus { io: Io { iflag: b6.io.iflag | (r.irqs | key), ..b6.io }, ..b6 })
}

/// What one step does: `step_stages` through some intermediate buses. In
/// particular a halted CPU with no enabled interrupt requested stays as it
/// is, and an interrupt that the CPSR lets through is taken (IRQ mode, vector
/// 0x18, return address in LR).
pub open spec fn step_post(o: Gba, f: Gba) -> bool {
    let pending = (o.bus.io.ie & o.bus.io.iflag) != 0;
    &&& f.wf()
    &&& exists|b1: Bus, b2: Bus, b3: Bus, b4: Bus, b5: Bus, b6: Bus, r: TickResult|
        #[trigger] step_stages(o, f, b1, b2, b3, b4, b5, b6, r)
    &&& o.cpu.halted && !pending ==> f.cpu == o.cpu
    &&& !(o.cpu.halted && !pending) && o.bus.io.ime && pending && !crate::cpu::alu::bit(o.cpu.cpsr.0, 7) ==> {
        &&& !f.cpu.halted
        &&& f.cpu.reg(15) == 0x18
        &&& f.cpu.reg(14) == (o.cpu.reg(15) as int + 4) % 0x1_0000_0000
        &&& f.cpu.cpsr.0 == crate::cpu::exception_cpsr(o.cpu.cpsr.0, crate::cpu::psr::CpuMode::Irq)
        &&& f.cpu.spsr@ == o.cpu.spsr@.update(1, o.cpu.cpsr)
    }
}

/// `t` is a run of steps from `t[0]`: each state follows from the one
/// before it as `step_post` states.
pub open spec fn step_trace(t: Seq<Gba>) -> bool {
    forall|i: int| 0 <= i < t.len() - 1 ==> #[trigger] step_post(t[i], t[i + 1])
}

/// `f` follows from `o` by `n` steps, each as `step_post` states.
pub open spec fn steps(o: Gba, f: Gba, n: nat) -> bool {
    exists|t: Seq<Gba>| #[trigger] step_trace(t) && t.len() == n + 1 && t[0] == o && t[n as int] == f
}

/// A transfer started: SIOCNT's START bit set, the pending start taken,
/// the data registers and the CPU kept.
pub open spec fn transfer_begun(o: Gba, f: Gba) -> bool {
    &&& f.bus.io.sio.siocnt == o.bus.io.sio.siocnt | crate::sio::START
    &&& !f.bus.io.sio.link.pending_start
    &&& f.bus.io.sio.siomulti == o.bus.io.sio.siomulti
    &&& f.cpu == o.cpu
}

/// A multi-player transfer completed with `data` (outside multi-player mode
/// nothing changes): the data in ID order, START cleared, the serial
/// interrupt requested when enabled.
pub open spec fn transfer_completed(o: Gba, f: Gba, data: [u16; 4]) -> bool {
    &&& o.bus.io.sio.spec_mode() == Mode::Multi ==> {
        &&& f.bus.io.sio.siomulti == data
        &&& f.bus.io.sio.siocnt == o.bus.io.sio.siocnt & !crate::sio::START
        &&& f.bus.io.iflag == if o.bus.io.sio.siocnt & crate::sio::IRQ_ENABLE != 0 {
            o.bus.io.iflag | crate::io::irq_bits::SERIAL
        } else {
            o.bus.io.iflag
        }
    }
    &&& o.bus.io.sio.spec_mode() != Mode::Multi ==> f.bus.io.sio.siomulti == o.bus.io.sio.siomulti
        && f.bus.io.sio.siocnt == o.bus.io.sio.siocnt && f.bus.io.iflag == o.bus.io.iflag
    &&& f.cpu == o.cpu
}

impl Gba {
    /// CPU and bus agree with their invariants.
    pub open spec fn wf(&self) -> bool {
        self.cpu.wf() && self.bus.wf()
    }

    /// A powered-on console with no cartridge: the CPU at reset, the bus
    /// with the built-in BIOS and zeroed memories.
    pub fn new() -> (r: Gba)
        ensures
            r.wf(),
            r.cpu.cpsr.0 == 0xD3,
            r.cpu.reg(15) == 0,
            r.bus.hle_bios,
            r.bus.cartridge.rom@.len() == 0,
    {
        Gba { cpu: Cpu::new(), bus: Bus::new() }
    }

    /// Inserts a ROM: the cartridge takes it and detects its backup type.
    pub fn load_rom(&mut self, rom: Vec<u8>)
        requires
            old(self).wf(),
        ensures
            final(self).wf(),
            final(self).bus.cartridge.rom@ == rom@,
            final(self).bus.cartridge.save_type == crate::cartridge::detected_save_type(rom@),
            final(self).cpu == old(self).cpu,
    {
        self.bus.cartridge.load(rom);
    }

    /// Power cycle: CPU, memories and devices start over while the cartridge
    /// (ROM and backup memory) stays; the CPU is left as the BIOS leaves it,
    /// at the ROM entry point.
    pub fn reset(&mut self)
        requires
            old(self).wf(),
        ensures
            final(self).wf(),
            final(self).bus.cartridge == old(self).bus.cartridge,
            final(self).cpu.reg(15) == 0x0800_0000,
            final(self).cpu.reg(13) == 0x0300_7F00,
            final(self).cpu.cpsr.0 == 0x1F,
            !final(self).cpu.halted,
            final(self).bus.ewram@ == Seq::new(crate::bus::EWRAM_LEN as nat, |i: int| 0u8),
            final(self).bus.iwram@ == Seq::new(crate::bus::IWRAM_LEN as nat, |i: int| 0u8),
            final(self).bus.palette@ == Seq::new(crate::bus::PALETTE_LEN as nat, |i: int| 0u8),
            final(self).bus.vram@ == Seq::new(crate::bus::VRAM_LEN as nat, |i: int| 0u8),
            final(self).bus.oam@ == Seq::new(crate::bus::OAM_LEN as nat, |i: int| 0u8),
            final(self).bus.io.ie == 0 && final(self).bus.io.iflag == 0 && !final(self).bus.io.ime,
    {
        let mut fresh = Bus::new();
        std::mem::swap(&mut fresh.cartridge, &mut self.bus.cartridge);
        self.bus = fresh;
        self.cpu = Cpu::new();
        self.cpu.setup_direct_boot();
        self.cpu.regs.set_pc(0x0800_0000);
    }

    /// Runs one instruction (or one halted cycle), then advances the sound
    /// unit, the timers and the video unit by the cycles used, runs the
    /// VBlank and HBlank DMAs that the video unit triggered and requests the
    /// video and keypad interrupts. Returns the cycles used.
    pub fn step(&mut self) -> (r: u32)
        requires
            old(self).wf(),
        ensures
            final(self).wf(),
            r == 1,
            step_post(*old(self), *final(self)),
    {
        let ghost o = *self;
        let cycles = self.cpu.step(&mut self.bus);
        let ghost b1 = self.bus;
        self.bus.apu.tick(cycles);
        let ghost b2 = self.bus;
        self.bus.step_timers(cycles);
        let ghost b3 = self.bus;
        let res = self.bus.ppu.tick(cycles, &self.bus.vram, &self.bus.palette, &self.bus.oam);
        let ghost b4 = self.bus;
        if res.entered_vblank {
            self.bus.run_dma_timing(Timing::VBlank);
        }
        let ghost b5 = self.bus;
        if res.entered_hblank {
            self.bus.run_dma_timing(Timing::HBlank);
        }
        let ghost b6 = self.bus;
        let key_irq: u16 = if self.bus.io.joypad.irq_pending() { crate::io::irq_bits::KEYPAD } else { 0 };
        let all = res.irqs | key_irq;
        if all != 0 {
            self.bus.io.raise(all);
        } else {
            let f0 = self.bus.io.iflag;
            assert(f0 | 0u16 == f0) by (bit_vector);
        }
        proof {
            assert(b2 == (Bus { apu: b2.apu, ..b1 }));
            assert(b4 == (Bus { ppu: b4.ppu, ..b3 }));
            assert(self.bus == (Bus { io: Io { iflag: b6.io.iflag | (res.irqs | key_irq), ..b6.io }, ..b6 }));
            assert(step_stages(o, *self, b1, b2, b3, b4, b5, b6, res));
        }
        cycles
    }

    /// Runs one frame's worth of cycles.
    pub fn run_frame(&mut self)
        requires
            old(self).wf(),
        ensures
            final(self).wf(),
            steps(*old(self), *final(self), CYCLES_PER_FRAME as nat),
    {
        let mut cycles: u32 = 0;
        let ghost mut trace = seq![*self];
        while cycles < CYCLES_PER_FRAME
            invariant
                self.wf(),
                cycles <= CYCLES_PER_FRAME,
                trace.len() == cycles + 1 && step_trace(trace) && trace[0] == *old(self) && trace[cycles as int] == *self,
            decreases CYCLES_PER_FRAME - cycles,
        {
            let ghost before = *self;
            cycles = cycles + self.step();
            proof {
                let t0 = trace;
                trace = trace.push(*self);
                assert forall|i: int| 0 <= i < trace.len() - 1 implies #[trigger] step_post(trace[i], trace[i + 1]) by {
                    if i < t0.len() - 1 {
                        assert(step_post(t0[i], t0[i + 1]));
                    }
                }
            }
        }
    }

    /// Runs until `target` cycles have passed (stopping after the
    /// instruction that reaches it) and returns the cycles run.
    pub fn run_cycles(&mut self, target: u32) -> (r: u32)
        requires
            old(self).wf(),
        ensures
            final(self).wf(),
            r == target,
            steps(*old(self), *final(self), target as nat),
    {
        let mut cycles: u32 = 0;
        let ghost mut trace = seq![*self];
        while cycles < target
            invariant
                self.wf(),
                cycles <= target,
                trace.len() == cycles + 1 && step_trace(trace) && trace[0] == *old(self) && trace[cycles as int] == *self,
            decreases target - cycles,
        {
            let ghost before = *self;
            cycles = cycles + self.step();
            proof {
                let t0 = trace;
                trace = trace.push(*self);
                assert forall|i: int| 0 <= i < trace.len() - 1 implies #[trigger] step_post(trace[i], trace[i + 1]) by {
                    if i < t0.len() - 1 {
                        assert(step_post(t0[i], t0[i + 1]));
                    }
                }
            }
        }
        cycles
    }

    /// Runs until the game arms a multi-player transfer (the master wrote
    /// START) or `target` cycles have passed, whichever comes first; checks
    /// before the first step as well. Returns the cycles run and whether a
    /// transfer is armed.
    pub fn run_until_transfer(&mut self, target: u32) -> (r: (u32, bool))
        requires
            old(self).wf(),
        ensures
            final(self).wf(),
            old(self).bus.io.sio.link.pending_start ==> r == (0u32, true) && *final(self) == *old(self),
            r.1 == final(self).bus.io.sio.link.pending_start,
            r.0 <= target,
            !r.1 ==> r.0 == target,
            steps(*old(self), *final(self), r.0 as nat),
    {
        if self.bus.io.sio.link.pending_start {
            proof {
                let t = seq![*self];
                assert(step_trace(t));
                assert(t.len() == 0 + 1 && t[0] == *old(self) && t[0] == *self);
            }
            return (0, true);
        }
        let mut cycles: u32 = 0;
        let ghost mut trace = seq![*self];
        while cycles < target
            invariant
                self.wf(),
                cycles <= target,
                !self.bus.io.sio.link.pending_start,
                !old(self).bus.io.sio.link.pending_start,
                trace.len() == cycles + 1 && step_trace(trace) && trace[0] == *old(self) && trace[cycles as int] == *self,
            decreases target - cycles,
        {
            let ghost before = *self;
            cycles = cycles + self.step();
            proof {
                let t0 = trace;
                trace = trace.push(*self);
                assert forall|i: int| 0 <= i < trace.len() - 1 implies #[trigger] step_post(trace[i], trace[i + 1]) by {
                    if i < t0.len() - 1 {
                        assert(step_post(t0[i], t0[i + 1]));
                    }
                }
            }
            if self.bus.io.sio.link.pending_start {
                proof {
                    assert(step_trace(trace) && trace.len() == cycles + 1 && trace[0] == *old(self)
                        && trace[cycles as int] == *self);
                }
                return (cycles, true);
            }
        }
        (cycles, false)
    }

    /// Turns the link session on or off; `id` 0 is the parent (it drives
    /// the clock). The partner starts as not ready.
    pub fn link_configure(&mut self, active: bool, id: u8)
        ensures
            old(self).wf() ==> final(self).wf(),
            final(self).bus.io.sio.link.active == active,
            final(self).bus.io.sio.link.id == id,
            !final(self).bus.io.sio.link.partner_ready,
            final(self).bus.io.sio.link.pending_start == old(self).bus.io.sio.link.pending_start,
            final(self).cpu == old(self).cpu,
            final(self).bus.io.sio.siocnt == old(self).bus.io.sio.siocnt,
    {
        self.bus.io.sio.link.active = active;
        self.bus.io.sio.link.id = id;
        self.bus.io.sio.link.partner_ready = false;
    }

    /// Mirrors the partner's "ready" (in multi-player mode): the SD bit the
    /// local game reads in SIOCNT.
    pub fn link_set_partner_ready(&mut self, ready: bool)
        ensures
            old(self).wf() ==> final(self).wf(),
            final(self).bus.io.sio.link == (crate::sio::LinkState {
                partner_ready: ready,
                ..old(self).bus.io.sio.link
            }),
            final(self).bus.io.sio.siocnt == old(self).bus.io.sio.siocnt,
            final(self).cpu == old(self).cpu,
    {
        self.bus.io.sio.link.partner_ready = ready;
    }

    /// The local state for a link quantum: in multi-player mode, start
    /// pending, value to send.
    pub fn link_status(&self) -> (r: (bool, bool, u16))
        ensures
            r == (
                self.bus.io.sio.spec_mode() == Mode::Multi,
                self.bus.io.sio.link.pending_start,
                self.bus.io.sio.siomlt_send,
            ),
    {
        let sio = &self.bus.io.sio;
        (sio.in_multi(), sio.link.pending_start, sio.send_value())
    }

    /// The raw serial registers as the game wrote them: (SIOCNT,
    /// SIOMLT_SEND, RCNT).
    pub fn link_regs(&self) -> (r: (u16, u16, u16))
        ensures
            r == (self.bus.io.sio.siocnt, self.bus.io.sio.siomlt_send, self.bus.io.sio.rcnt),
    {
        let sio = &self.bus.io.sio;
        (sio.siocnt, sio.siomlt_send, sio.rcnt)
    }

    /// The interrupt state: (IE, IME on, IF).
    pub fn link_irq_state(&self) -> (r: (u16, bool, u16))
        ensures
            r == (self.bus.io.ie, self.bus.io.ime, self.bus.io.iflag),
    {
        (self.bus.io.ie, self.bus.io.ime, self.bus.io.iflag)
    }

    /// Start of a multi-player transfer: the busy bit lights on every unit
    /// and the pending start is taken.
    pub fn link_begin_transfer(&mut self)
        ensures
            old(self).wf() ==> final(self).wf(),
            transfer_begun(*old(self), *final(self)),
    {
        self.bus.io.sio.begin_transfer();
    }

    /// End of a multi-player transfer: the data land in ID order, busy
    /// clears and the serial interrupt is requested if the game enabled it.
    /// Nothing happens outside multi-player mode.
    pub fn link_complete_multi(&mut self, data: [u16; 4])
        ensures
            old(self).wf() ==> final(self).wf(),
            transfer_completed(*old(self), *final(self), data),
    {
        if self.bus.io.sio.complete_multi(data) {
            self.bus.io.raise(crate::io::irq_bits::SERIAL);
        }
    }
}

impl Default for Gba {
    fn default() -> (r: Gba)
        ensures
            r.wf(),
    {
        Gba::new()
    }
}

} // verus!
