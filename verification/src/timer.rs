//! The four timers of the GBA.
//!
//! Each timer has a 16-bit counter that counts at the rate of its prescaler
//! (1, 64, 256 or 1024 cycles per step) or, in cascade mode, once per overflow
//! of the previous timer. On overflow the counter is reloaded from the reload
//! register. Registers: counter/reload at 0x04000100 + 4*i, control at
//! 0x04000102 + 4*i.
use vstd::prelude::*;

verus! {

/// Cycles per counter step for each prescaler setting.
pub open spec fn prescaler_of(control: u16) -> u32 {
    let k = control % 4;
    if k == 0 {
        1
    } else if k == 1 {
        64
    } else if k == 2 {
        256
    } else {
        1024
    }
}

#[derive(Clone, Copy)]
pub struct Timer {
    pub counter: u16,
    pub reload: u16,
    pub control: u16,
    /// Cycles accumulated toward the next prescaler step.
    pub cycles: u32,
}

/// Counter and number of overflows after `n` steps from `counter`: every
/// step adds one, and stepping past 0xFFFF reloads the counter instead.
pub open spec fn advance(counter: u16, reload: u16, n: nat) -> (u16, nat)
    decreases n,
{
    if n == 0 {
        (counter, 0)
    } else {
        let (c, k) = advance(counter, reload, (n - 1) as nat);
        if c == 0xFFFF {
            (reload, k + 1)
        } else {
            ((c + 1) as u16, k)
        }
    }
}

impl Timer {
    pub open spec fn is_enabled(self) -> bool {
        self.control & 0x80 != 0
    }

    pub open spec fn is_cascade(self) -> bool {
        self.control & 0x04 != 0
    }

    pub open spec fn is_irq_enabled(self) -> bool {
        self.control & 0x40 != 0
    }

    /// Timer enabled (control bit 7).
    pub fn enabled(self) -> (r: bool)
        ensures
            r == self.is_enabled(),
    {
        self.control & 0x80 != 0
    }

    /// Cascade mode (control bit 2).
    pub fn cascade(self) -> (r: bool)
        ensures
            r == self.is_cascade(),
    {
        self.control & 0x04 != 0
    }

    /// Overflow interrupt enabled (control bit 6).
    pub fn irq_enable(self) -> (r: bool)
        ensures
            r == self.is_irq_enabled(),
    {
        self.control & 0x40 != 0
    }

    /// Cycles per step for the prescaler setting (control bits 0-1).
    pub fn prescaler(self) -> (r: u32)
        ensures
            r == prescaler_of(self.control),
    {
        proof {
            crate::bits::lemma_u16_single_bits();
        }
        let k = self.control & 3;
        if k == 0 {
            1
        } else if k == 1 {
            64
        } else if k == 2 {
            256
        } else {
            1024
        }
    }
}

pub struct Timers {
    pub units: [Timer; 4],
}

/// Result of a tick: interrupts to raise and the number of overflows of
/// timers 0 and 1 (which feed Direct Sound).
pub struct TimerTick {
    pub irqs: u16,
    pub snd_overflows: [u32; 2],
}

/// Interrupt flags raised by a tick: timer `i` contributes bit `3 + i` when it
/// overflowed with its interrupt enabled.
pub open spec fn timer_irqs(ts: Seq<Timer>, cycles: u32) -> u16 {
    let f = |i: int, b: u16| if overflows(ts, cycles, i) > 0 && ts[i].is_irq_enabled() { b } else { 0u16 };
    f(0, 0x08u16) | f(1, 0x10u16) | f(2, 0x20u16) | f(3, 0x40u16)
}

/// Counter steps that timer `t` takes when `cycles` elapse and the previous
/// timer overflowed `prev` times.
pub open spec fn steps_of(t: Timer, i: int, cycles: u32, prev: nat) -> nat {
    if t.is_cascade() && i > 0 {
        prev
    } else {
        (((t.cycles + cycles) % 0x1_0000_0000) / (prescaler_of(t.control) as int)) as nat
    }
}

/// Overflows of timer `i` when the timers `ts` are ticked by `cycles`.
pub open spec fn overflows(ts: Seq<Timer>, cycles: u32, i: int) -> nat
    decreases i,
    when 0 <= i
{
    let prev: nat = if i == 0 { 0 } else { overflows(ts, cycles, i - 1) };
    if !ts[i].is_enabled() {
        0
    } else {
        advance(ts[i].counter, ts[i].reload, steps_of(ts[i], i, cycles, prev)).1
    }
}

/// Timer `i` after `ts` is ticked by `cycles`.
pub open spec fn ticked(ts: Seq<Timer>, cycles: u32, i: int) -> Timer {
    let t = ts[i];
    let prev: nat = if i == 0 { 0 } else { overflows(ts, cycles, i - 1) };
    if !t.is_enabled() {
        t
    } else {
        let (c, _) = advance(t.counter, t.reload, steps_of(t, i, cycles, prev));
        if t.is_cascade() && i > 0 {
            Timer { counter: c, ..t }
        } else {
            let total = (t.cycles + cycles) % 0x1_0000_0000;
            Timer { counter: c, cycles: (total % (prescaler_of(t.control) as int)) as u32, ..t }
        }
    }
}

/// Counts `n` steps of one counter.
fn run_steps(counter: u16, reload: u16, n: u32) -> (r: (u16, u32))
    ensures
        r.0 == advance(counter, reload, n as nat).0,
        r.1 == advance(counter, reload, n as nat).1,
{
    let mut c = counter;
    let mut k: u32 = 0;
    let mut done: u32 = 0;
    while done < n
        invariant
            done <= n,
            c == advance(counter, reload, done as nat).0,
            k == advance(counter, reload, done as nat).1,
            k <= done,
        decreases n - done,
    {
        if c == 0xFFFF {
            c = reload;
            k = k + 1;
        } else {
            c = c + 1;
        }
        done = done + 1;
    }
    (c, k)
}

impl Timers {
    /// All timers stopped and zeroed.
    pub fn new() -> (r: Timers)
        ensures
            forall|i: int|
                0 <= i < 4 ==> r.units[i].counter == 0 && r.units[i].reload == 0
                    && r.units[i].control == 0 && r.units[i].cycles == 0,
    {
        let z = Timer { counter: 0, reload: 0, control: 0, cycles: 0 };
        Timers { units: [z, z, z, z] }
    }

    /// Ticks timer `i` alone, given the overflow count of the previous timer.
    fn tick_one(&mut self, i: usize, cycles: u32, prev: u32) -> (count: u32)
        requires
            i < 4,
        ensures
            forall|j: int| 0 <= j < 4 && j != i ==> final(self).units[j] == old(self).units[j],
            ({
                let t = old(self).units[i as int];
                let ov: nat = if !t.is_enabled() { 0 } else { advance(t.counter, t.reload, steps_of(t, i as int, cycles, prev as nat)).1 };
                &&& count == ov
                &&& final(self).units[i as int] == (if !t.is_enabled() {
                    t
                } else if t.is_cascade() && i > 0 {
                    Timer { counter: advance(t.counter, t.reload, steps_of(t, i as int, cycles, prev as nat)).0, ..t }
                } else {
                    Timer {
                        counter: advance(t.counter, t.reload, steps_of(t, i as int, cycles, prev as nat)).0,
                        cycles: (((t.cycles + cycles) % 0x1_0000_0000) % (prescaler_of(t.control) as int)) as u32,
                        ..t
                    }
                })
            }),
    {
        let t = self.units[i];
        if !t.enabled() {
            return 0;
        }
        if t.cascade() && i > 0 {
            let (c, k) = run_steps(t.counter, t.reload, prev);
            self.units[i] = Timer { counter: c, ..t };
            k
        } else {
            let total = t.cycles.wrapping_add(cycles);
            let step = t.prescaler();
            let n = total / step;
            let (c, k) = run_steps(t.counter, t.reload, n);
            self.units[i] = Timer { counter: c, cycles: total % step, ..t };
            k
        }
    }

    /// Advances every timer by `cycles` CPU cycles. Each enabled timer steps
    /// by its prescaler (or, in cascade mode, once per overflow of the previous
    /// timer) and reloads on overflow. Returns the interrupt flags of the
    /// timers that overflowed with their interrupt enabled, and the overflow
    /// counts of timers 0 and 1.
    pub fn tick(&mut self, cycles: u32) -> (r: TimerTick)
        ensures
            forall|i: int| 0 <= i < 4 ==> #[trigger] final(self).units[i] == ticked(old(self).units@, cycles, i),
            r.irqs == timer_irqs(old(self).units@, cycles),
            r.snd_overflows[0] == overflows(old(self).units@, cycles, 0),
            r.snd_overflows[1] == overflows(old(self).units@, cycles, 1),
    {
        let ghost ts = self.units@;
        let mut counts: [u32; 4] = [0, 0, 0, 0];
        let mut prev: u32 = 0;
        let mut i: usize = 0;
        while i < 4
            invariant
                0 <= i <= 4,
                ts.len() == 4,
                forall|j: int| i <= j < 4 ==> self.units[j] == ts[j],
                forall|j: int| 0 <= j < i ==> #[trigger] self.units[j] == ticked(ts, cycles, j),
                forall|j: int| 0 <= j < i ==> #[trigger] counts[j] == overflows(ts, cycles, j),
                i > 0 ==> prev == overflows(ts, cycles, i - 1),
                i == 0 ==> prev == 0,
            decreases 4 - i,
        {
            let k = self.tick_one(i, cycles, prev);
            counts[i] = k;
            prev = k;
            i = i + 1;
        }
        let a: u16 = if counts[0] > 0 && self.units[0].irq_enable() { 0x08 } else { 0 };
        let b: u16 = if counts[1] > 0 && self.units[1].irq_enable() { 0x10 } else { 0 };
        let c: u16 = if counts[2] > 0 && self.units[2].irq_enable() { 0x20 } else { 0 };
        let d: u16 = if counts[3] > 0 && self.units[3].irq_enable() { 0x40 } else { 0 };
        let irqs = a | b | c | d;
        proof {
            assert(self.units[0].control == ts[0].control);
            assert(self.units[1].control == ts[1].control);
            assert(self.units[2].control == ts[2].control);
            assert(self.units[3].control == ts[3].control);
        }
        TimerTick { irqs, snd_overflows: [counts[0], counts[1]] }
    }

    /// Reads a byte of the timer registers (counter, then control).
    pub fn read_u8(&self, addr: u32) -> (r: u8)
        requires
            0x0400_0100 <= addr < 0x0400_0110,
        ensures
            ({
                let t = self.units[(addr - 0x0400_0100) / 4];
                let f = (addr - 0x0400_0100) % 4;
                r == (if f == 0 {
                    (t.counter % 256) as u8
                } else if f == 1 {
                    (t.counter / 256) as u8
                } else if f == 2 {
                    (t.control % 256) as u8
                } else {
                    (t.control / 256) as u8
                })
            }),
    {
        let offset = (addr - 0x0400_0100) as usize;
        let idx = offset / 4;
        let field = offset % 4;
        let t = self.units[idx];
        if field == 0 {
            (t.counter % 256) as u8
        } else if field == 1 {
            (t.counter / 256) as u8
        } else if field == 2 {
            (t.control % 256) as u8
        } else {
            (t.control / 256) as u8
        }
    }

    /// What a byte write at `addr` does: the counter address writes the
    /// reload register; a control write that turns the timer on loads the
    /// counter from the reload value; the other timers are kept.
    pub open spec fn byte_written(self, f: Timers, addr: u32, val: u8) -> bool {
        let idx = (addr - 0x0400_0100) / 4;
        let fl = (addr - 0x0400_0100) % 4;
        let o = self.units[idx];
        let n = f.units[idx];
        &&& forall|j: int| 0 <= j < 4 && j != idx ==> f.units[j] == self.units[j]
        &&& fl == 0 ==> n == Timer { reload: ((o.reload / 256) * 256 + val) as u16, ..o }
        &&& fl == 1 ==> n == Timer { reload: ((o.reload % 256) + val * 256) as u16, ..o }
        &&& fl == 2 ==> n.control == ((o.control / 256) * 256 + val) as u16 && n.reload == o.reload && if !o.is_enabled()
            && n.is_enabled() {
            n.counter == o.reload && n.cycles == 0
        } else {
            n.counter == o.counter && n.cycles == o.cycles
        }
        &&& fl == 3 ==> n == Timer { control: ((o.control % 256) + val * 256) as u16, ..o }
    }

    /// Writes a halfword as two byte writes (low byte first). At an even
    /// address that is the whole reload register, or the whole control
    /// register (turning the timer on loads the counter).
    pub fn write_u16(&mut self, addr: u32, val: u16)
        requires
            0x0400_0100 <= addr < 0x0400_010F,
        ensures
            exists|m: Timers|
                #[trigger] old(self).byte_written(m, addr, (val % 256) as u8) && m.byte_written(
                    *final(self),
                    (addr + 1) as u32,
                    (val / 256) as u8,
                ),
            ({
                let idx = (addr - 0x0400_0100) / 4;
                let fl = (addr - 0x0400_0100) % 4;
                let o = old(self).units[idx];
                let n = final(self).units[idx];
                &&& fl == 0 || fl == 2 ==> forall|j: int| 0 <= j < 4 && j != idx ==> final(self).units[j] == old(self).units[j]
                &&& fl == 0 ==> n == Timer { reload: val, ..o }
                &&& fl == 2 ==> n.control == val && n.reload == o.reload && if !o.is_enabled() && val & 0x80 != 0 {
                    n.counter == o.reload && n.cycles == 0
                } else {
                    n.counter == o.counter && n.cycles == o.cycles
                }
            }),
    {
        let ghost o = *self;
        self.write_u8(addr, (val % 256) as u8);
        let ghost m = *self;
        self.write_u8(addr + 1, (val / 256) as u8);
        proof {
            let lo = (val % 256) as u8;
            let c: u16 = o.units[((addr - 0x0400_0100) / 4) as int].control;
            let v: u16 = val;
            assert((((c / 256) * 256 + v % 256) as u16) & 0x80u16 != 0 <==> v & 0x80u16 != 0) by (bit_vector);
            assert(o.byte_written(m, addr, lo));
        }
    }

    /// Writes a byte (see `byte_written`).
    pub fn write_u8(&mut self, addr: u32, val: u8)
        requires
            0x0400_0100 <= addr < 0x0400_0110,
        ensures
            old(self).byte_written(*final(self), addr, val),
    {
        let offset = (addr - 0x0400_0100) as usize;
        let idx = offset / 4;
        let field = offset % 4;
        let t = self.units[idx];
        let v = val as u16;
        if field == 0 {
            self.units[idx] = Timer { reload: (t.reload / 256) * 256 + v, ..t };
        } else if field == 1 {
            self.units[idx] = Timer { reload: (t.reload % 256) + v * 256, ..t };
        } else if field == 2 {
            let prev_enabled = t.enabled();
            let mut n = Timer { control: (t.control / 256) * 256 + v, ..t };
            if !prev_enabled && n.enabled() {
                n.counter = t.reload;
                n.cycles = 0;
            }
            self.units[idx] = n;
        } else {
            self.units[idx] = Timer { control: (t.control % 256) + v * 256, ..t };
        }
    }
}

impl Default for Timers {
    fn default() -> (r: Timers)
        ensures
            forall|i: int|
                0 <= i < 4 ==> r.units[i].counter == 0 && r.units[i].reload == 0
                    && r.units[i].control == 0 && r.units[i].cycles == 0,
    {
        Timers::new()
    }
}

} // verus!
