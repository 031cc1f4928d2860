//! APU: the GBA's sound unit, with the four PSG channels inherited from the
//! Game Boy: (1) square wave with frequency sweep, (2) square wave, (3) wave
//! (32 programmable 4-bit samples), (4) noise (15- or 7-bit LFSR).
//!
//! The channels run at 4.194304 MHz (CPU cycles / 4). A 512 Hz frame
//! sequencer drives length (256 Hz), envelope (64 Hz) and sweep (128 Hz). The
//! output is resampled to [`OUTPUT_RATE`] into a buffer that the frontend
//! drains to the sound card, interleaved left, right.
use vstd::prelude::*;

verus! {

/// Sound registers: 0x04000060..0x040000A8.
pub const SOUND_BASE: u32 = 0x0400_0060;
pub const SOUND_END: u32 = 0x0400_00A8;

/// Output sample rate.
pub const OUTPUT_RATE: u32 = 32_768;

/// APU clock: CPU clock / 4.
pub const APU_CLOCK: u32 = 4_194_304;

/// APU cycles per output sample.
pub const CYCLES_PER_SAMPLE: u32 = 128;

/// APU cycles per frame-sequencer step (512 Hz).
pub const SEQ_PERIOD: u32 = 8192;

/// The duty pattern: whether step `step` (0..8) of duty `duty` is high
/// (12.5 %, 25 %, 50 %, 75 %).
pub open spec fn duty_high(duty: u8, step: u8) -> bool {
    if duty == 0 {
        step == 7
    } else if duty == 1 {
        step == 0 || step == 7
    } else if duty == 2 {
        step == 0 || step >= 5
    } else {
        1 <= step <= 6
    }
}

fn duty_high_exec(duty: u8, step: u8) -> (r: bool)
    ensures
        r == duty_high(duty, step),
{
    if duty == 0 {
        step == 7
    } else if duty == 1 {
        step == 0 || step == 7
    } else if duty == 2 {
        step == 0 || step >= 5
    } else {
        1 <= step && step <= 6
    }
}

#[derive(Clone, Copy)]
pub struct Envelope {
    /// Initial volume (0..15).
    pub initial: u8,
    /// Volume rises (else falls).
    pub add: bool,
    /// Sequencer steps between changes (0 stops it).
    pub period: u8,
    pub volume: u8,
    pub timer: u8,
}

impl Envelope {
    pub open spec fn wf(self) -> bool {
        self.initial <= 15 && self.volume <= 15 && self.period <= 7
    }

    pub open spec fn triggered(self) -> Envelope {
        Envelope { volume: self.initial, timer: self.period, ..self }
    }

    pub open spec fn clocked(self) -> Envelope {
        if self.period == 0 {
            self
        } else {
            let t = if self.timer > 0 { (self.timer - 1) as u8 } else { self.timer };
            if t == 0 {
                let v = if self.add && self.volume < 15 {
                    (self.volume + 1) as u8
                } else if !self.add && self.volume > 0 {
                    (self.volume - 1) as u8
                } else {
                    self.volume
                };
                Envelope { timer: self.period, volume: v, ..self }
            } else {
                Envelope { timer: t, ..self }
            }
        }
    }

    pub fn zeroed() -> (r: Envelope)
        ensures
            r.wf(),
            r == (Envelope { initial: 0, add: false, period: 0, volume: 0, timer: 0 }),
    {
        Envelope { initial: 0, add: false, period: 0, volume: 0, timer: 0 }
    }

    fn trigger(&mut self)
        requires
            old(self).wf(),
        ensures
            final(self).wf(),
            *final(self) == old(self).triggered(),
    {
        self.volume = self.initial;
        self.timer = self.period;
    }

    fn clock(&mut self)
        requires
            old(self).wf(),
        ensures
            final(self).wf(),
            *final(self) == old(self).clocked(),
    {
        if self.period == 0 {
            return;
        }
        if self.timer > 0 {
            self.timer = self.timer - 1;
        }
        if self.timer == 0 {
            self.timer = self.period;
            if self.add && self.volume < 15 {
                self.volume = self.volume + 1;
            } else if !self.add && self.volume > 0 {
                self.volume = self.volume - 1;
            }
        }
    }

    /// Envelope register (NRx2): bits 0-2 period, bit 3 direction, bits 4-7
    /// initial volume.
    pub open spec fn written(self, val: u8) -> Envelope {
        Envelope { period: val % 8, add: (val / 8) % 2 == 1, initial: val / 16, ..self }
    }

    fn write(&mut self, val: u8)
        requires
            old(self).wf(),
        ensures
            final(self).wf(),
            *final(self) == old(self).written(val),
    {
        self.period = val % 8;
        self.add = (val / 8) % 2 == 1;
        self.initial = val / 16;
    }

    /// With volume 0 and falling, the channel's DAC is off.
    pub open spec fn dac_off(self) -> bool {
        self.initial == 0 && !self.add
    }
}

/// A square channel (the sweep fields are used by channel 1 only).
#[derive(Clone, Copy)]
pub struct Square {
    pub on: bool,
    pub duty: u8,
    pub duty_step: u8,
    /// 11-bit frequency.
    pub freq: u16,
    pub timer: u16,
    /// Length counter (0..64).
    pub length: u16,
    pub length_on: bool,
    pub env: Envelope,
    pub sweep_period: u8,
    pub sweep_neg: bool,
    pub sweep_shift: u8,
    pub sweep_timer: u8,
    pub sweep_enabled: bool,
    pub sweep_shadow: u16,
}

impl Square {
    pub open spec fn wf(self) -> bool {
        &&& self.env.wf()
        &&& self.duty <= 3
        &&& self.duty_step < 8
        &&& self.freq <= 0x7FF
        &&& self.sweep_shadow <= 0x7FF
        &&& self.sweep_shift <= 7
        &&& self.sweep_period <= 7
        &&& self.length <= 64
    }

    pub open spec fn zero() -> Square {
        Square {
            on: false,
            duty: 0,
            duty_step: 0,
            freq: 0,
            timer: 0,
            length: 0,
            length_on: false,
            env: Envelope { initial: 0, add: false, period: 0, volume: 0, timer: 0 },
            sweep_period: 0,
            sweep_neg: false,
            sweep_shift: 0,
            sweep_timer: 0,
            sweep_enabled: false,
            sweep_shadow: 0,
        }
    }

    pub fn zeroed() -> (r: Square)
        ensures
            r.wf(),
            r == Square::zero(),
    {
        Square {
            on: false,
            duty: 0,
            duty_step: 0,
            freq: 0,
            timer: 0,
            length: 0,
            length_on: false,
            env: Envelope::zeroed(),
            sweep_period: 0,
            sweep_neg: false,
            sweep_shift: 0,
            sweep_timer: 0,
            sweep_enabled: false,
            sweep_shadow: 0,
        }
    }

    /// Timer reload: `(2048 - freq) * 4` APU cycles per duty step.
    pub open spec fn period_of(self) -> u16 {
        ((2048 - self.freq) * 4) as u16
    }

    fn period(&self) -> (r: u16)
        requires
            self.wf(),
        ensures
            r == self.period_of(),
    {
        (2048 - self.freq) * 4
    }

    pub open spec fn ticked(self) -> Square {
        if self.timer == 0 {
            Square { timer: self.period_of(), duty_step: ((self.duty_step + 1) % 8) as u8, ..self }
        } else {
            Square { timer: (self.timer - 1) as u16, ..self }
        }
    }

    fn tick(&mut self)
        requires
            old(self).wf(),
        ensures
            final(self).wf(),
            *final(self) == old(self).ticked(),
    {
        if self.timer == 0 {
            self.timer = self.period();
            self.duty_step = (self.duty_step + 1) % 8;
        } else {
            self.timer = self.timer - 1;
        }
    }

    /// Output: +volume on a high duty step, -volume on a low one, 0 when off.
    pub open spec fn sample_of(self) -> int {
        if !self.on {
            0
        } else if duty_high(self.duty, self.duty_step) {
            self.env.volume as int
        } else {
            -(self.env.volume as int)
        }
    }

    fn sample(&self) -> (r: i8)
        requires
            self.wf(),
        ensures
            r == self.sample_of(),
    {
        if !self.on {
            return 0;
        }
        if duty_high_exec(self.duty, self.duty_step) {
            self.env.volume as i8
        } else {
            -(self.env.volume as i8)
        }
    }

    pub open spec fn length_clocked(self) -> Square {
        if self.length_on && self.length > 0 {
            let l = (self.length - 1) as u16;
            Square { length: l, on: if l == 0 { false } else { self.on }, ..self }
        } else {
            self
        }
    }

    fn clock_length(&mut self)
        requires
            old(self).wf(),
        ensures
            final(self).wf(),
            *final(self) == old(self).length_clocked(),
    {
        if self.length_on && self.length > 0 {
            self.length = self.length - 1;
            if self.length == 0 {
                self.on = false;
            }
        }
    }

    fn clock_envelope(&mut self)
        requires
            old(self).wf(),
        ensures
            final(self).wf(),
            *final(self) == (Square { env: old(self).env.clocked(), ..*old(self) }),
    {
        self.env.clock();
    }

    /// The next sweep frequency: shadow plus or minus shadow >> shift.
    pub open spec fn sweep_next(self) -> u16 {
        let delta = (self.sweep_shadow >> self.sweep_shift) as u16;
        if self.sweep_neg {
            vstd::wrapping::u16_specs::wrapping_sub(self.sweep_shadow, delta)
        } else {
            (self.sweep_shadow + delta) as u16
        }
    }

    fn sweep_calc(&self) -> (r: u16)
        requires
            self.wf(),
        ensures
            r == self.sweep_next(),
    {
        let shadow = self.sweep_shadow;
        let sh = self.sweep_shift;
        let delta = shadow >> sh;
        assert(delta <= shadow) by (bit_vector)
            requires
                delta == shadow >> sh,
                sh <= 7,
        ;
        if self.sweep_neg {
            self.sweep_shadow.wrapping_sub(delta)
        } else {
            self.sweep_shadow + delta
        }
    }

    pub open spec fn sweep_clocked(self) -> Square {
        if !self.sweep_enabled || self.sweep_period == 0 {
            self
        } else {
            let t = if self.sweep_timer > 0 { (self.sweep_timer - 1) as u8 } else { self.sweep_timer };
            if t == 0 {
                let s = Square { sweep_timer: self.sweep_period, ..self };
                let n = s.sweep_next();
                if n <= 2047 && s.sweep_shift > 0 {
                    Square { sweep_shadow: n, freq: n, ..s }
                } else if n > 2047 {
                    Square { on: false, ..s }
                } else {
                    s
                }
            } else {
                Square { sweep_timer: t, ..self }
            }
        }
    }

    fn clock_sweep(&mut self)
        requires
            old(self).wf(),
        ensures
            final(self).wf(),
            *final(self) == old(self).sweep_clocked(),
    {
        if !self.sweep_enabled || self.sweep_period == 0 {
            return;
        }
        if self.sweep_timer > 0 {
            self.sweep_timer = self.sweep_timer - 1;
        }
        if self.sweep_timer == 0 {
            self.sweep_timer = self.sweep_period;
            let n = self.sweep_calc();
            if n <= 2047 && self.sweep_shift > 0 {
                self.sweep_shadow = n;
                self.freq = n;
            } else if n > 2047 {
                self.on = false;
            }
        }
    }

    pub open spec fn triggered(self) -> Square {
        let s = Square {
            on: true,
            length: if self.length == 0 { 64 } else { self.length },
            timer: self.period_of(),
            env: self.env.triggered(),
            sweep_shadow: self.freq,
            sweep_timer: if self.sweep_period > 0 { self.sweep_period } else { 8 },
            sweep_enabled: self.sweep_period > 0 || self.sweep_shift > 0,
            ..self
        };
        if self.env.dac_off() {
            Square { on: false, ..s }
        } else {
            s
        }
    }

    fn trigger(&mut self)
        requires
            old(self).wf(),
        ensures
            final(self).wf(),
            *final(self) == old(self).triggered(),
    {
        self.on = true;
        if self.length == 0 {
            self.length = 64;
        }
        self.timer = self.period();
        self.env.trigger();
        self.sweep_shadow = self.freq;
        self.sweep_timer = if self.sweep_period > 0 { self.sweep_period } else { 8 };
        self.sweep_enabled = self.sweep_period > 0 || self.sweep_shift > 0;
        if self.env.initial == 0 && !self.env.add {
            self.on = false;
        }
    }

    /// A write to register field `field`: 0 sweep (NR10), 1 duty and length,
    /// 2 envelope, 3 frequency low, 4 frequency high, length enable, trigger.
    pub open spec fn written(self, field: u8, val: u8) -> Square {
        if field == 0 {
            Square { sweep_shift: val % 8, sweep_neg: (val / 8) % 2 == 1, sweep_period: (val / 16) % 8, ..self }
        } else if field == 1 {
            Square { length: (64 - val % 64) as u16, duty: val / 64, ..self }
        } else if field == 2 {
            let e = self.env.written(val);
            Square { env: e, on: if e.dac_off() { false } else { self.on }, ..self }
        } else if field == 3 {
            Square { freq: ((self.freq / 256) * 256 + val as int) as u16, ..self }
        } else if field == 4 {
            let s = Square {
                freq: ((self.freq % 256) + (val % 8) as int * 256) as u16,
                length_on: (val / 64) % 2 == 1,
                ..self
            };
            if val >= 0x80 { s.triggered() } else { s }
        } else {
            self
        }
    }

    fn write_reg(&mut self, field: u8, val: u8)
        requires
            old(self).wf(),
        ensures
            final(self).wf(),
            *final(self) == old(self).written(field, val),
    {
        if field == 0 {
            self.sweep_shift = val % 8;
            self.sweep_neg = (val / 8) % 2 == 1;
            self.sweep_period = (val / 16) % 8;
        } else if field == 1 {
            self.length = 64 - (val % 64) as u16;
            self.duty = val / 64;
        } else if field == 2 {
            self.env.write(val);
            if self.env.initial == 0 && !self.env.add {
                self.on = false;
            }
        } else if field == 3 {
            self.freq = (self.freq / 256) * 256 + val as u16;
        } else if field == 4 {
            self.freq = (self.freq % 256) + ((val % 8) as u16) * 256;
            self.length_on = (val / 64) % 2 == 1;
            if val >= 0x80 {
                self.trigger();
            }
        }
    }
}

/// The wave channel.
#[derive(Clone, Copy)]
pub struct Wave {
    pub on: bool,
    pub dac_on: bool,
    pub freq: u16,
    pub timer: u16,
    /// Sample position (0..31).
    pub pos: u8,
    pub volume_code: u8,
    pub length: u16,
    pub length_on: bool,
    /// 32 samples of 4 bits.
    pub ram: [u8; 16],
}

impl Wave {
    pub open spec fn wf(self) -> bool {
        self.freq <= 0x7FF && self.pos < 32 && self.volume_code <= 3 && self.length <= 256
    }

    /// Everything zero, the wave RAM included.
    pub open spec fn is_zero(self) -> bool {
        &&& !self.on && !self.dac_on && !self.length_on
        &&& self.freq == 0 && self.timer == 0 && self.pos == 0 && self.volume_code == 0 && self.length == 0
        &&& forall|i: int| 0 <= i < 16 ==> self.ram[i] == 0
    }

    pub fn zeroed() -> (r: Wave)
        ensures
            r.wf(),
            r.is_zero(),
    {
        Wave {
            on: false,
            dac_on: false,
            freq: 0,
            timer: 0,
            pos: 0,
            volume_code: 0,
            length: 0,
            length_on: false,
            ram: [0u8; 16],
        }
    }

    pub open spec fn period_of(self) -> u16 {
        ((2048 - self.freq) * 2) as u16
    }

    pub open spec fn ticked(self) -> Wave {
        if self.timer == 0 {
            Wave { timer: self.period_of(), pos: ((self.pos + 1) % 32) as u8, ..self }
        } else {
            Wave { timer: (self.timer - 1) as u16, ..self }
        }
    }

    fn tick(&mut self)
        requires
            old(self).wf(),
        ensures
            final(self).wf(),
            *final(self) == old(self).ticked(),
    {
        if self.timer == 0 {
            self.timer = (2048 - self.freq) * 2;
            self.pos = (self.pos + 1) % 32;
        } else {
            self.timer = self.timer - 1;
        }
    }

    /// Output: the current 4-bit sample shifted by the volume code (mute,
    /// 100 %, 50 %, 25 %), centred by subtracting 7; 0 when off.
    pub open spec fn sample_of(self) -> int {
        if !self.on || !self.dac_on {
            0
        } else {
            let byte = self.ram[(self.pos / 2) as int] as int;
            let nib = if self.pos % 2 == 0 { byte / 16 } else { byte % 16 };
            let div = if self.volume_code == 0 { 16int } else if self.volume_code == 1 { 1 } else if self.volume_code == 2 { 2 } else { 4 };
            nib / div - 7
        }
    }

    fn sample(&self) -> (r: i8)
        requires
            self.wf(),
        ensures
            r == self.sample_of(),
    {
        if !self.on || !self.dac_on {
            return 0;
        }
        let byte = self.ram[(self.pos / 2) as usize];
        let nib = if self.pos % 2 == 0 { byte / 16 } else { byte % 16 };
        let div: u8 = if self.volume_code == 0 { 16 } else if self.volume_code == 1 { 1 } else if self.volume_code == 2 { 2 } else { 4 };
        (nib / div) as i8 - 7
    }

    pub open spec fn length_clocked(self) -> Wave {
        if self.length_on && self.length > 0 {
            let l = (self.length - 1) as u16;
            Wave { length: l, on: if l == 0 { false } else { self.on }, ..self }
        } else {
            self
        }
    }

    fn clock_length(&mut self)
        requires
            old(self).wf(),
        ensures
            final(self).wf(),
            *final(self) == old(self).length_clocked(),
    {
        if self.length_on && self.length > 0 {
            self.length = self.length - 1;
            if self.length == 0 {
                self.on = false;
            }
        }
    }

    pub open spec fn triggered(self) -> Wave {
        Wave {
            on: self.dac_on,
            length: if self.length == 0 { 256 } else { self.length },
            timer: self.period_of(),
            pos: 0,
            ..self
        }
    }

    /// A write to register field `field`: 0 DAC (NR30), 1 length, 2 volume,
    /// 3 frequency low, 4 frequency high, length enable, trigger.
    pub open spec fn written(self, field: u8, val: u8) -> Wave {
        if field == 0 {
            Wave { dac_on: val >= 0x80, ..self }
        } else if field == 1 {
            Wave { length: (256 - val as int) as u16, ..self }
        } else if field == 2 {
            Wave { volume_code: (val / 32) % 4, ..self }
        } else if field == 3 {
            Wave { freq: ((self.freq / 256) * 256 + val as int) as u16, ..self }
        } else if field == 4 {
            let w = Wave {
                freq: ((self.freq % 256) + (val % 8) as int * 256) as u16,
                length_on: (val / 64) % 2 == 1,
                ..self
            };
            if val >= 0x80 { w.triggered() } else { w }
        } else {
            self
        }
    }

    fn write_reg(&mut self, field: u8, val: u8)
        requires
            old(self).wf(),
        ensures
            final(self).wf(),
            *final(self) == old(self).written(field, val),
    {
        if field == 0 {
            self.dac_on = val >= 0x80;
        } else if field == 1 {
            self.length = 256 - val as u16;
        } else if field == 2 {
            self.volume_code = (val / 32) % 4;
        } else if field == 3 {
            self.freq = (self.freq / 256) * 256 + val as u16;
        } else if field == 4 {
            self.freq = (self.freq % 256) + ((val % 8) as u16) * 256;
            self.length_on = (val / 64) % 2 == 1;
            if val >= 0x80 {
                self.on = self.dac_on;
                if self.length == 0 {
                    self.length = 256;
                }
                self.timer = (2048 - self.freq) * 2;
                self.pos = 0;
            }
        }
    }
}

/// The noise channel.
#[derive(Clone, Copy)]
pub struct Noise {
    pub on: bool,
    pub env: Envelope,
    pub length: u16,
    pub length_on: bool,
    pub lfsr: u16,
    pub width7: bool,
    pub divisor_code: u8,
    pub shift: u8,
    pub timer: u32,
}

impl Noise {
    pub open spec fn wf(self) -> bool {
        self.env.wf() && self.divisor_code <= 7 && self.shift <= 15 && self.length <= 64
    }

    pub open spec fn zero() -> Noise {
        Noise {
            on: false,
            env: Envelope { initial: 0, add: false, period: 0, volume: 0, timer: 0 },
            length: 0,
            length_on: false,
            lfsr: 0,
            width7: false,
            divisor_code: 0,
            shift: 0,
            timer: 0,
        }
    }

    pub fn zeroed() -> (r: Noise)
        ensures
            r.wf(),
            r == Noise::zero(),
    {
        Noise {
            on: false,
            env: Envelope::zeroed(),
            length: 0,
            length_on: false,
            lfsr: 0,
            width7: false,
            divisor_code: 0,
            shift: 0,
            timer: 0,
        }
    }

    /// Timer reload: divisor (8, 16, 32, ..., 112) shifted by the clock shift.
    pub open spec fn period_of(self) -> u32 {
        let d: int = if self.divisor_code == 0 { 8 } else { self.divisor_code as int * 16 };
        (d * vstd::arithmetic::power2::pow2(self.shift as nat)) as u32
    }

    fn period(&self) -> (r: u32)
        requires
            self.wf(),
        ensures
            r == self.period_of(),
    {
        let d: u32 = if self.divisor_code == 0 { 8 } else { self.divisor_code as u32 * 16 };
        let mut r = d;
        let mut k: u8 = 0;
        proof {
            vstd::arithmetic::power2::lemma2_to64();
        }
        while k < self.shift
            invariant
                k <= self.shift <= 15,
                d <= 112,
                r == d * vstd::arithmetic::power2::pow2(k as nat),
            decreases self.shift - k,
        {
            proof {
                vstd::arithmetic::power2::lemma_pow2_unfold((k + 1) as nat);
                vstd::arithmetic::power2::lemma_pow2_strictly_increases(k as nat, 15);
                vstd::arithmetic::power2::lemma2_to64();
                assert(d * vstd::arithmetic::power2::pow2(k as nat) <= 112 * 0x8000) by (nonlinear_arith)
                    requires
                        d <= 112,
                        vstd::arithmetic::power2::pow2(k as nat) <= 0x8000,
                ;
                assert(d * vstd::arithmetic::power2::pow2((k + 1) as nat) == 2 * (d * vstd::arithmetic::power2::pow2(k as nat))) by (nonlinear_arith)
                    requires
                        vstd::arithmetic::power2::pow2((k + 1) as nat) == 2 * vstd::arithmetic::power2::pow2(k as nat),
                ;
            }
            r = r * 2;
            k = k + 1;
        }
        r
    }

    /// One LFSR step: the XOR of bits 0 and 1 enters at bit 14 (and at bit 6
    /// in 7-bit mode).
    pub open spec fn lfsr_next(self) -> u16 {
        let bit = (self.lfsr ^ (self.lfsr >> 1u16)) & 1u16;
        let l = (self.lfsr >> 1u16) | (bit << 14u16);
        if self.width7 { (l & !(1u16 << 6u16)) | (bit << 6u16) } else { l }
    }

    pub open spec fn ticked(self) -> Noise {
        if self.timer == 0 {
            Noise { timer: self.period_of(), lfsr: self.lfsr_next(), ..self }
        } else {
            Noise { timer: (self.timer - 1) as u32, ..self }
        }
    }

    fn tick(&mut self)
        requires
            old(self).wf(),
        ensures
            final(self).wf(),
            *final(self) == old(self).ticked(),
    {
        if self.timer == 0 {
            self.timer = self.period();
            let bit = (self.lfsr ^ (self.lfsr >> 1u16)) & 1u16;
            self.lfsr = (self.lfsr >> 1u16) | (bit << 14u16);
            if self.width7 {
                self.lfsr = (self.lfsr & !(1u16 << 6u16)) | (bit << 6u16);
            }
        } else {
            self.timer = self.timer - 1;
        }
    }

    /// Output: +volume when LFSR bit 0 is clear, -volume when set, 0 when off.
    pub open spec fn sample_of(self) -> int {
        if !self.on {
            0
        } else if self.lfsr % 2 == 0 {
            self.env.volume as int
        } else {
            -(self.env.volume as int)
        }
    }

    fn sample(&self) -> (r: i8)
        requires
            self.wf(),
        ensures
            r == self.sample_of(),
    {
        if !self.on {
            return 0;
        }
        if self.lfsr % 2 == 0 {
            self.env.volume as i8
        } else {
            -(self.env.volume as i8)
        }
    }

    pub open spec fn length_clocked(self) -> Noise {
        if self.length_on && self.length > 0 {
            let l = (self.length - 1) as u16;
            Noise { length: l, on: if l == 0 { false } else { self.on }, ..self }
        } else {
            self
        }
    }

    fn clock_length(&mut self)
        requires
            old(self).wf(),
        ensures
            final(self).wf(),
            *final(self) == old(self).length_clocked(),
    {
        if self.length_on && self.length > 0 {
            self.length = self.length - 1;
            if self.length == 0 {
                self.on = false;
            }
        }
    }

    fn clock_envelope(&mut self)
        requires
            old(self).wf(),
        ensures
            final(self).wf(),
            *final(self) == (Noise { env: old(self).env.clocked(), ..*old(self) }),
    {
        self.env.clock();
    }

    pub open spec fn triggered(self) -> Noise {
        let n = Noise {
            on: true,
            length: if self.length == 0 { 64 } else { self.length },
            lfsr: 0x7FFF,
            timer: self.period_of(),
            env: self.env.triggered(),
            ..self
        };
        if self.env.dac_off() {
            Noise { on: false, ..n }
        } else {
            n
        }
    }

    fn trigger(&mut self)
        requires
            old(self).wf(),
        ensures
            final(self).wf(),
            *final(self) == old(self).triggered(),
    {
        self.on = true;
        if self.length == 0 {
            self.length = 64;
        }
        self.lfsr = 0x7FFF;
        self.timer = self.period();
        self.env.trigger();
        if self.env.initial == 0 && !self.env.add {
            self.on = false;
        }
    }

    /// A write to register field `field`: 0 length (NR41), 1 envelope,
    /// 2 clock shift, width and divisor, 3 length enable and trigger.
    pub open spec fn written(self, field: u8, val: u8) -> Noise {
        if field == 0 {
            Noise { length: (64 - val % 64) as u16, ..self }
        } else if field == 1 {
            let e = self.env.written(val);
            Noise { env: e, on: if e.dac_off() { false } else { self.on }, ..self }
        } else if field == 2 {
            Noise { shift: val / 16, width7: (val / 8) % 2 == 1, divisor_code: val % 8, ..self }
        } else if field == 3 {
            let n = Noise { length_on: (val / 64) % 2 == 1, ..self };
            if val >= 0x80 { n.triggered() } else { n }
        } else {
            self
        }
    }

    fn write_reg(&mut self, field: u8, val: u8)
        requires
            old(self).wf(),
        ensures
            final(self).wf(),
            *final(self) == old(self).written(field, val),
    {
        if field == 0 {
            self.length = 64 - (val % 64) as u16;
        } else if field == 1 {
            self.env.write(val);
            if self.env.initial == 0 && !self.env.add {
                self.on = false;
            }
        } else if field == 2 {
            self.shift = val / 16;
            self.width7 = (val / 8) % 2 == 1;
            self.divisor_code = val % 8;
        } else if field == 3 {
            self.length_on = (val / 64) % 2 == 1;
            if val >= 0x80 {
                self.trigger();
            }
        }
    }
}


/// The APU state other than the output buffer.
#[derive(Clone, Copy)]
pub struct ApuCore {
    pub enabled: bool,
    pub cnt_l: u16,
    pub cnt_h: u16,
    pub bias: u16,
    pub ch1: Square,
    pub ch2: Square,
    pub ch3: Wave,
    pub ch4: Noise,
    pub seq_cycles: u32,
    pub seq_step: u8,
    pub sample_cycles: u32,
    pub cpu_frac: u32,
}

pub struct Apu {
    /// Master enable (SOUNDCNT_X bit 7).
    pub enabled: bool,
    /// SOUNDCNT_L (0x80): PSG volume and panning.
    pub cnt_l: u16,
    /// SOUNDCNT_H (0x82).
    pub cnt_h: u16,
    /// SOUNDBIAS (0x88).
    pub bias: u16,
    pub ch1: Square,
    pub ch2: Square,
    pub ch3: Wave,
    pub ch4: Noise,
    /// APU cycles into the current sequencer step.
    pub seq_cycles: u32,
    pub seq_step: u8,
    /// APU cycles into the current output sample.
    pub sample_cycles: u32,
    /// CPU cycles not yet consumed (the CPU runs at 4 x the APU clock).
    pub cpu_frac: u32,
    /// Output samples, interleaved left, right.
    pub buffer: Vec<i16>,
}

impl ApuCore {
    pub open spec fn wf(self) -> bool {
        &&& self.ch1.wf() && self.ch2.wf() && self.ch3.wf() && self.ch4.wf()
        &&& self.seq_cycles < SEQ_PERIOD
        &&& self.seq_step < 8
        &&& self.sample_cycles < CYCLES_PER_SAMPLE
        &&& self.cpu_frac < 4
    }

    /// The frame sequencer step: length on even steps, sweep on steps 2 and
    /// 6, envelopes on step 7.
    pub open spec fn sequenced(self) -> ApuCore {
        let st = self.seq_step;
        let even = st % 2 == 0;
        let c1 = if even { self.ch1.length_clocked() } else { self.ch1 };
        let c2 = if even { self.ch2.length_clocked() } else { self.ch2 };
        let c3 = if even { self.ch3.length_clocked() } else { self.ch3 };
        let c4 = if even { self.ch4.length_clocked() } else { self.ch4 };
        let c1 = if st == 2 || st == 6 { c1.sweep_clocked() } else { c1 };
        let c1 = if st == 7 { Square { env: c1.env.clocked(), ..c1 } } else { c1 };
        let c2 = if st == 7 { Square { env: c2.env.clocked(), ..c2 } } else { c2 };
        let c4 = if st == 7 { Noise { env: c4.env.clocked(), ..c4 } } else { c4 };
        ApuCore { ch1: c1, ch2: c2, ch3: c3, ch4: c4, seq_step: ((st + 1) % 8) as u8, ..self }
    }

    /// Sum of the channels routed to one side (enable bits `en`).
    pub open spec fn side_sum(self, en: int) -> int {
        (if en % 2 == 1 { self.ch1.sample_of() } else { 0 }) + (if (en / 2) % 2 == 1 {
            self.ch2.sample_of()
        } else {
            0
        }) + (if (en / 4) % 2 == 1 { self.ch3.sample_of() } else { 0 }) + (if (en / 8) % 2 == 1 {
            self.ch4.sample_of()
        } else {
            0
        })
    }

    /// The mixed output: each side's routed channels, scaled by (volume + 1)
    /// * 80 and clamped to 16 bits; silence when the master is off.
    pub open spec fn mixed(self) -> (i16, i16) {
        if !self.enabled {
            (0, 0)
        } else {
            let vol_r = self.cnt_l as int % 8;
            let vol_l = (self.cnt_l as int / 16) % 8;
            let en_r = (self.cnt_l as int / 256) % 16;
            let en_l = (self.cnt_l as int / 4096) % 16;
            (clamp16(self.side_sum(en_l) * (vol_l + 1) * 80), clamp16(self.side_sum(en_r) * (vol_r + 1) * 80))
        }
    }

    /// One APU cycle: every channel ticks, the sequencer and the resampler
    /// advance; returns the sample pair produced, if any.
    pub open spec fn cycled(self) -> (ApuCore, Option<(i16, i16)>) {
        let a = ApuCore {
            ch1: self.ch1.ticked(),
            ch2: self.ch2.ticked(),
            ch3: self.ch3.ticked(),
            ch4: self.ch4.ticked(),
            ..self
        };
        let b = if a.seq_cycles + 1 >= SEQ_PERIOD {
            ApuCore { seq_cycles: 0, ..a }.sequenced()
        } else {
            ApuCore { seq_cycles: (a.seq_cycles + 1) as u32, ..a }
        };
        if b.sample_cycles + 1 >= CYCLES_PER_SAMPLE {
            let c = ApuCore { sample_cycles: 0, ..b };
            (c, Some(c.mixed()))
        } else {
            (ApuCore { sample_cycles: (b.sample_cycles + 1) as u32, ..b }, None)
        }
    }

    /// `n` APU cycles: the state after them and the samples they produced.
    pub open spec fn run(self, n: nat) -> (ApuCore, Seq<i16>)
        decreases n,
    {
        if n == 0 {
            (self, Seq::empty())
        } else {
            let (a, out) = self.run((n - 1) as nat);
            let (b, smp) = a.cycled();
            match smp {
                Some((l, r)) => (b, out.push(l).push(r)),
                None => (b, out),
            }
        }
    }

    /// A byte read of a sound register.
    pub open spec fn read(self, addr: u32) -> u8 {
        if addr == 0x0400_0080 {
            (self.cnt_l % 256) as u8
        } else if addr == 0x0400_0081 {
            (self.cnt_l / 256) as u8
        } else if addr == 0x0400_0082 {
            (self.cnt_h % 256) as u8
        } else if addr == 0x0400_0083 {
            (self.cnt_h / 256) as u8
        } else if addr == 0x0400_0084 {
            ((if self.enabled { 0x80int } else { 0 }) + (if self.ch1.on { 1int } else { 0 }) + (if self.ch2.on {
                2int
            } else {
                0
            }) + (if self.ch3.on { 4int } else { 0 }) + (if self.ch4.on { 8int } else { 0 })) as u8
        } else if addr == 0x0400_0088 {
            (self.bias % 256) as u8
        } else if addr == 0x0400_0089 {
            (self.bias / 256) as u8
        } else if 0x0400_0090 <= addr <= 0x0400_009F {
            self.ch3.ram[addr - 0x0400_0090]
        } else {
            0
        }
    }

    /// The state after a byte write to a sound register. With the master off
    /// only SOUNDCNT_X and the wave RAM answer; turning the master off resets
    /// every channel.
    pub open spec fn written(self, addr: u32, val: u8) -> ApuCore {
        let wave_ram = 0x0400_0090 <= addr <= 0x0400_009F;
        if !self.enabled && addr != 0x0400_0084 && !wave_ram {
            self
        } else if addr == 0x0400_0060 {
            ApuCore { ch1: self.ch1.written(0, val), ..self }
        } else if addr == 0x0400_0062 {
            ApuCore { ch1: self.ch1.written(1, val), ..self }
        } else if addr == 0x0400_0063 {
            ApuCore { ch1: self.ch1.written(2, val), ..self }
        } else if addr == 0x0400_0064 {
            ApuCore { ch1: self.ch1.written(3, val), ..self }
        } else if addr == 0x0400_0065 {
            ApuCore { ch1: self.ch1.written(4, val), ..self }
        } else if addr == 0x0400_0068 {
            ApuCore { ch2: self.ch2.written(1, val), ..self }
        } else if addr == 0x0400_0069 {
            ApuCore { ch2: self.ch2.written(2, val), ..self }
        } else if addr == 0x0400_006C {
            ApuCore { ch2: self.ch2.written(3, val), ..self }
        } else if addr == 0x0400_006D {
            ApuCore { ch2: self.ch2.written(4, val), ..self }
        } else if addr == 0x0400_0070 {
            ApuCore { ch3: self.ch3.written(0, val), ..self }
        } else if addr == 0x0400_0072 {
            ApuCore { ch3: self.ch3.written(1, val), ..self }
        } else if addr == 0x0400_0073 {
            ApuCore { ch3: self.ch3.written(2, val), ..self }
        } else if addr == 0x0400_0074 {
            ApuCore { ch3: self.ch3.written(3, val), ..self }
        } else if addr == 0x0400_0075 {
            ApuCore { ch3: self.ch3.written(4, val), ..self }
        } else if addr == 0x0400_0078 {
            ApuCore { ch4: self.ch4.written(0, val), ..self }
        } else if addr == 0x0400_0079 {
            ApuCore { ch4: self.ch4.written(1, val), ..self }
        } else if addr == 0x0400_007C {
            ApuCore { ch4: self.ch4.written(2, val), ..self }
        } else if addr == 0x0400_007D {
            ApuCore { ch4: self.ch4.written(3, val), ..self }
        } else if addr == 0x0400_0080 || addr == 0x0400_0081 {
            ApuCore { cnt_l: half_written(self.cnt_l, addr == 0x0400_0081, val), ..self }
        } else if addr == 0x0400_0082 || addr == 0x0400_0083 {
            ApuCore { cnt_h: half_written(self.cnt_h, addr == 0x0400_0083, val), ..self }
        } else if addr == 0x0400_0088 || addr == 0x0400_0089 {
            ApuCore { bias: half_written(self.bias, addr == 0x0400_0089, val), ..self }
        } else {
            self
        }
    }
}

/// A 16-bit register with its low or high byte replaced.
pub open spec fn half_written(x: u16, hi: bool, v: u8) -> u16 {
    if hi {
        ((x as int % 256) + v as int * 256) as u16
    } else {
        ((x as int / 256) * 256 + v as int) as u16
    }
}

fn set_half(x: u16, hi: bool, v: u8) -> (r: u16)
    ensures
        r == half_written(x, hi, v),
{
    if hi {
        (x % 256) + (v as u16) * 256
    } else {
        (x / 256) * 256 + v as u16
    }
}

/// Clamped to the range of `i16`.
pub open spec fn clamp16(v: int) -> i16 {
    (if v < -32768 { -32768 } else if v > 32767 { 32767 } else { v }) as i16
}

impl Apu {
    pub open spec fn state(&self) -> ApuCore {
        ApuCore {
            enabled: self.enabled,
            cnt_l: self.cnt_l,
            cnt_h: self.cnt_h,
            bias: self.bias,
            ch1: self.ch1,
            ch2: self.ch2,
            ch3: self.ch3,
            ch4: self.ch4,
            seq_cycles: self.seq_cycles,
            seq_step: self.seq_step,
            sample_cycles: self.sample_cycles,
            cpu_frac: self.cpu_frac,
        }
    }

    pub open spec fn wf(&self) -> bool {
        self.state().wf()
    }

    /// Power-on state: master off, every channel silent, no samples.
    pub fn new() -> (r: Apu)
        ensures
            r.wf(),
            !r.enabled && r.cnt_l == 0 && r.cnt_h == 0 && r.bias == 0,
            r.ch1 == Square::zero() && r.ch2 == Square::zero() && r.ch3.is_zero() && r.ch4 == Noise::zero(),
            r.seq_cycles == 0 && r.seq_step == 0 && r.sample_cycles == 0 && r.cpu_frac == 0,
            r.buffer@.len() == 0,
    {
        Apu {
            enabled: false,
            cnt_l: 0,
            cnt_h: 0,
            bias: 0,
            ch1: Square::zeroed(),
            ch2: Square::zeroed(),
            ch3: Wave::zeroed(),
            ch4: Noise::zeroed(),
            seq_cycles: 0,
            seq_step: 0,
            sample_cycles: 0,
            cpu_frac: 0,
            buffer: Vec::new(),
        }
    }

    /// Reads a sound register byte: SOUNDCNT_L/H, SOUNDCNT_X (master bit and
    /// channel status), SOUNDBIAS and the wave RAM; other bytes read 0.
    pub fn read_u8(&self, addr: u32) -> (r: u8)
        ensures
            r == self.state().read(addr),
    {
        if addr == 0x0400_0080 {
            (self.cnt_l % 256) as u8
        } else if addr == 0x0400_0081 {
            (self.cnt_l / 256) as u8
        } else if addr == 0x0400_0082 {
            (self.cnt_h % 256) as u8
        } else if addr == 0x0400_0083 {
            (self.cnt_h / 256) as u8
        } else if addr == 0x0400_0084 {
            let mut v: u8 = 0;
            if self.enabled {
                v = v + 0x80;
            }
            if self.ch1.on {
                v = v + 1;
            }
            if self.ch2.on {
                v = v + 2;
            }
            if self.ch3.on {
                v = v + 4;
            }
            if self.ch4.on {
                v = v + 8;
            }
            v
        } else if addr == 0x0400_0088 {
            (self.bias % 256) as u8
        } else if addr == 0x0400_0089 {
            (self.bias / 256) as u8
        } else if 0x0400_0090 <= addr && addr <= 0x0400_009F {
            self.ch3.ram[(addr - 0x0400_0090) as usize]
        } else {
            0
        }
    }

    /// What a register byte write does.
    pub open spec fn byte_write_effect(self, f: Apu, addr: u32, val: u8) -> bool {
        let wave = 0x0400_0090 <= addr <= 0x0400_009F;
        &&& f.buffer == self.buffer
        &&& addr == 0x0400_0084 ==> f.enabled == (val >= 0x80)
        &&& addr == 0x0400_0084 && self.enabled && val < 0x80 ==> f.ch1 == Square::zero() && f.ch2 == Square::zero()
            && f.ch3.is_zero() && f.ch4 == Noise::zero()
        &&& addr == 0x0400_0084 && !(self.enabled && val < 0x80) ==> f.ch1 == self.ch1 && f.ch2 == self.ch2 && f.ch3
            == self.ch3 && f.ch4 == self.ch4
        &&& addr == 0x0400_0084 ==> f.cnt_l == self.cnt_l && f.cnt_h == self.cnt_h && f.bias == self.bias
        &&& wave ==> f.ch3.ram@ == self.ch3.ram@.update(addr - 0x0400_0090, val) && (ApuCore {
            ch3: Wave { ram: self.ch3.ram, ..f.ch3 },
            ..f.state()
        }) == self.state()
        &&& addr != 0x0400_0084 && !wave ==> f.state() == self.state().written(addr, val)
        &&& f.seq_cycles == self.seq_cycles && f.seq_step == self.seq_step && f.sample_cycles == self.sample_cycles
            && f.cpu_frac == self.cpu_frac
    }

    /// Writes a sound register byte.
    pub fn write_u8(&mut self, addr: u32, val: u8)
        requires
            old(self).wf(),
        ensures
            final(self).wf(),
            old(self).byte_write_effect(*final(self), addr, val),
    {
        if addr == 0x0400_0084 {
            let was = self.enabled;
            self.enabled = val >= 0x80;
            if was && !self.enabled {
                self.ch1 = Square::zeroed();
                self.ch2 = Square::zeroed();
                self.ch3 = Wave::zeroed();
                self.ch4 = Noise::zeroed();
            }
            return;
        }
        if 0x0400_0090 <= addr && addr <= 0x0400_009F {
            self.ch3.ram[(addr - 0x0400_0090) as usize] = val;
            return;
        }
        if !self.enabled {
            return;
        }
        if addr == 0x0400_0060 {
            self.ch1.write_reg(0, val);
        } else if addr == 0x0400_0062 {
            self.ch1.write_reg(1, val);
        } else if addr == 0x0400_0063 {
            self.ch1.write_reg(2, val);
        } else if addr == 0x0400_0064 {
            self.ch1.write_reg(3, val);
        } else if addr == 0x0400_0065 {
            self.ch1.write_reg(4, val);
        } else if addr == 0x0400_0068 {
            self.ch2.write_reg(1, val);
        } else if addr == 0x0400_0069 {
            self.ch2.write_reg(2, val);
        } else if addr == 0x0400_006C {
            self.ch2.write_reg(3, val);
        } else if addr == 0x0400_006D {
            self.ch2.write_reg(4, val);
        } else if addr == 0x0400_0070 {
            self.ch3.write_reg(0, val);
        } else if addr == 0x0400_0072 {
            self.ch3.write_reg(1, val);
        } else if addr == 0x0400_0073 {
            self.ch3.write_reg(2, val);
        } else if addr == 0x0400_0074 {
            self.ch3.write_reg(3, val);
        } else if addr == 0x0400_0075 {
            self.ch3.write_reg(4, val);
        } else if addr == 0x0400_0078 {
            self.ch4.write_reg(0, val);
        } else if addr == 0x0400_0079 {
            self.ch4.write_reg(1, val);
        } else if addr == 0x0400_007C {
            self.ch4.write_reg(2, val);
        } else if addr == 0x0400_007D {
            self.ch4.write_reg(3, val);
        } else if addr == 0x0400_0080 || addr == 0x0400_0081 {
            self.cnt_l = set_half(self.cnt_l, addr == 0x0400_0081, val);
        } else if addr == 0x0400_0082 || addr == 0x0400_0083 {
            self.cnt_h = set_half(self.cnt_h, addr == 0x0400_0083, val);
        } else if addr == 0x0400_0088 || addr == 0x0400_0089 {
            self.bias = set_half(self.bias, addr == 0x0400_0089, val);
        }
    }

    fn step_sequencer(&mut self)
        requires
            old(self).wf(),
        ensures
            final(self).wf(),
            final(self).state() == old(self).state().sequenced(),
            final(self).buffer == old(self).buffer,
    {
        let st = self.seq_step;
        if st % 2 == 0 {
            self.ch1.clock_length();
            self.ch2.clock_length();
            self.ch3.clock_length();
            self.ch4.clock_length();
        }
        if st == 2 || st == 6 {
            self.ch1.clock_sweep();
        }
        if st == 7 {
            self.ch1.clock_envelope();
            self.ch2.clock_envelope();
            self.ch4.clock_envelope();
        }
        self.seq_step = (st + 1) % 8;
    }

    /// Sum of the channels selected by the enable bits `en`.
    fn side(&self, en: u16) -> (r: i32)
        requires
            self.wf(),
            en < 16,
        ensures
            r == self.state().side_sum(en as int),
            -64 <= r <= 64,
    {
        let mut v: i32 = 0;
        if en % 2 == 1 {
            v = v + self.ch1.sample() as i32;
        }
        if (en / 2) % 2 == 1 {
            v = v + self.ch2.sample() as i32;
        }
        if (en / 4) % 2 == 1 {
            v = v + self.ch3.sample() as i32;
        }
        if (en / 8) % 2 == 1 {
            v = v + self.ch4.sample() as i32;
        }
        v
    }

    fn mix(&self) -> (r: (i16, i16))
        requires
            self.wf(),
        ensures
            r == self.state().mixed(),
    {
        if !self.enabled {
            return (0, 0);
        }
        let vol_r = (self.cnt_l % 8) as i32;
        let vol_l = ((self.cnt_l / 16) % 8) as i32;
        let l = self.side(((self.cnt_l / 4096) % 16) as u16);
        let r = self.side(((self.cnt_l / 256) % 16) as u16);
        assert(l * (vol_l + 1) * 80 <= 64 * 8 * 80 && l * (vol_l + 1) * 80 >= -64 * 8 * 80) by (nonlinear_arith)
            requires
                -64 <= l <= 64,
                0 <= vol_l < 8,
        ;
        assert(r * (vol_r + 1) * 80 <= 64 * 8 * 80 && r * (vol_r + 1) * 80 >= -64 * 8 * 80) by (nonlinear_arith)
            requires
                -64 <= r <= 64,
                0 <= vol_r < 8,
        ;
        let lv = l * (vol_l + 1) * 80;
        let rv = r * (vol_r + 1) * 80;
        (clamp_i16(lv), clamp_i16(rv))
    }

    /// `f` is `o` advanced by `cpu_cycles` CPU cycles: a quarter as many APU
    /// cycles run (the remainder carried), and their samples are appended to
    /// the buffer.
    pub open spec fn ticked(o: Apu, f: Apu, cpu_cycles: u32) -> bool {
        let total = cpu_cycles + o.cpu_frac;
        let start = ApuCore { cpu_frac: (total % 4) as u32, ..o.state() };
        let (c, out) = start.run((total / 4) as nat);
        &&& f.wf()
        &&& f.state() == c
        &&& f.buffer@ == o.buffer@ + out
    }

    /// Advances `cpu_cycles` CPU cycles (a quarter as many APU cycles, the
    /// remainder carried), appending the samples produced to the buffer.
    pub fn tick(&mut self, cpu_cycles: u32)
        requires
            old(self).wf(),
            cpu_cycles <= u32::MAX - 4,
        ensures
            final(self).wf(),
            Apu::ticked(*old(self), *final(self), cpu_cycles),
    {
        let total = cpu_cycles + self.cpu_frac;
        let n = total / 4;
        self.cpu_frac = total % 4;
        let ghost start = self.state();
        let ghost buf0 = self.buffer@;
        let mut k: u32 = 0;
        while k < n
            invariant
                k <= n,
                self.wf(),
                ({
                    let (c, out) = start.run(k as nat);
                    &&& self.state() == c
                    &&& self.buffer@ == buf0 + out
                }),
            decreases n - k,
        {
            let ghost before = self.state();
            self.ch1.tick();
            self.ch2.tick();
            self.ch3.tick();
            self.ch4.tick();
            if self.seq_cycles + 1 >= SEQ_PERIOD {
                self.seq_cycles = 0;
                self.step_sequencer();
            } else {
                self.seq_cycles = self.seq_cycles + 1;
            }
            if self.sample_cycles + 1 >= CYCLES_PER_SAMPLE {
                self.sample_cycles = 0;
                let (l, r) = self.mix();
                self.buffer.push(l);
                self.buffer.push(r);
            } else {
                self.sample_cycles = self.sample_cycles + 1;
            }
            proof {
                let (c, out) = start.run(k as nat);
                assert(before.cycled().0 == self.state());
                match before.cycled().1 {
                    Some((l, r)) => {
                        assert(self.buffer@ =~= buf0 + out.push(l).push(r));
                    },
                    None => {},
                }
            }
            k = k + 1;
        }
    }

    /// Removes and returns every sample produced so far.
    pub fn drain(&mut self) -> (r: Vec<i16>)
        ensures
            r@ == old(self).buffer@,
            final(self).buffer@.len() == 0,
            final(self).state() == old(self).state(),
    {
        let mut out: Vec<i16> = Vec::new();
        std::mem::swap(&mut out, &mut self.buffer);
        out
    }
}

fn clamp_i16(v: i32) -> (r: i16)
    ensures
        r == clamp16(v as int),
{
    if v < -32768 {
        -32768
    } else if v > 32767 {
        32767
    } else {
        v as i16
    }
}

impl Default for Apu {
    fn default() -> (r: Apu)
        ensures
            r.wf(),
            !r.enabled,
            r.buffer@.len() == 0,
    {
        Apu::new()
    }
}

/// Law: the resampler emits one left/right pair every `CYCLES_PER_SAMPLE`
/// APU cycles: `n` cycles from a state `sample_cycles` into its period
/// produce `2 * ((sample_cycles + n) / CYCLES_PER_SAMPLE)` samples and leave
/// `(sample_cycles + n) % CYCLES_PER_SAMPLE` cycles into the next.
pub proof fn law_samples_per_cycles(s: ApuCore, n: nat)
    requires
        s.sample_cycles < CYCLES_PER_SAMPLE,
    ensures
        s.run(n).1.len() == 2 * ((s.sample_cycles + n) / CYCLES_PER_SAMPLE as int),
        s.run(n).0.sample_cycles == (s.sample_cycles + n) % CYCLES_PER_SAMPLE as int,
        s.run(n).0.cpu_frac == s.cpu_frac,
    decreases n,
{
    if n > 0 {
        law_samples_per_cycles(s, (n - 1) as nat);
        let a = s.run((n - 1) as nat).0;
        let m = s.sample_cycles + n - 1;
        assert(a.sample_cycles == m % 128);
        assert((m + 1) / 128 == m / 128 + if m % 128 + 1 == 128 { 1int } else { 0 }) by {
            vstd::arithmetic::div_mod::lemma_fundamental_div_mod(m, 128);
            if m % 128 + 1 == 128 {
                vstd::arithmetic::div_mod::lemma_fundamental_div_mod_converse(m + 1, 128, m / 128 + 1, 0);
            } else {
                vstd::arithmetic::div_mod::lemma_fundamental_div_mod_converse(m + 1, 128, m / 128, m % 128 + 1);
            }
        }
        assert((m + 1) % 128 == if m % 128 + 1 == 128 { 0 } else { m % 128 + 1 }) by {
            vstd::arithmetic::div_mod::lemma_fundamental_div_mod(m, 128);
            if m % 128 + 1 == 128 {
                vstd::arithmetic::div_mod::lemma_fundamental_div_mod_converse(m + 1, 128, m / 128 + 1, 0);
            } else {
                vstd::arithmetic::div_mod::lemma_fundamental_div_mod_converse(m + 1, 128, m / 128, m % 128 + 1);
            }
        }
    }
}

/// The total of a run of CPU cycle counts.
pub open spec fn cycles_total(cs: Seq<u32>) -> int
    decreases cs.len(),
{
    if cs.len() == 0 {
        0
    } else {
        cycles_total(cs.drop_last()) + cs.last()
    }
}

/// One step of a run of the sound unit: a tick of `c` CPU cycles, or a
/// register byte write (counted as no cycles).
pub open spec fn apu_step(o: Apu, f: Apu, c: u32) -> bool {
    ||| Apu::ticked(o, f, c)
    ||| c == 0 && exists|addr: u32, val: u8| #[trigger] o.byte_write_effect(f, addr, val)
}

/// Law: from a fresh sound unit (empty buffer, no cycle carried, at the
/// start of a sample period), ticks of `cs[0]`, `cs[1]`, ... CPU cycles,
/// with any register writes between them, buffer exactly `2 * (C / 512)`
/// samples, `C` their total: one left/right pair per 512 CPU cycles, none
/// lost to the split into ticks.
pub proof fn law_samples_buffered(aps: Seq<Apu>, cs: Seq<u32>)
    requires
        aps.len() == cs.len() + 1,
        aps[0].wf(),
        aps[0].buffer@.len() == 0,
        aps[0].cpu_frac == 0,
        aps[0].sample_cycles == 0,
        forall|i: int| 0 <= i < cs.len() ==> #[trigger] apu_step(aps[i], aps[i + 1], cs[i]),
    ensures
        aps.last().buffer@.len() == 2 * (cycles_total(cs) / 512),
        aps.last().cpu_frac == cycles_total(cs) % 4,
        aps.last().sample_cycles == (cycles_total(cs) / 4) % 128,
    decreases cs.len(),
{
    if cs.len() > 0 {
        let k = cs.len() - 1;
        let pre = aps.drop_last();
        let pcs = cs.drop_last();
        assert forall|i: int| 0 <= i < pcs.len() implies #[trigger] apu_step(pre[i], pre[i + 1], pcs[i]) by {
            assert(apu_step(aps[i], aps[i + 1], cs[i]));
        }
        law_samples_buffered(pre, pcs);
        let o = aps[k];
        assert(pre.last() == o);
        assert(apu_step(o, aps[k + 1], cs[k]));
        if !Apu::ticked(o, aps[k + 1], cs[k]) {
            let (addr, val) = choose|addr: u32, val: u8| #[trigger] o.byte_write_effect(aps[k + 1], addr, val);
            assert(o.byte_write_effect(aps[k + 1], addr, val));
            assert(cycles_total(cs) == cycles_total(pcs));
            return;
        }
        let st = cycles_total(pcs);
        let c = cs[k] as int;
        let total = c + o.cpu_frac;
        let start = ApuCore { cpu_frac: (total % 4) as u32, ..o.state() };
        law_samples_per_cycles(start, (total / 4) as nat);
        let q = st / 4;
        let n = total / 4;
        assert(cycles_total(cs) == st + c);
        assert(st >= 0) by {
            lemma_total_nonneg(pcs);
        }
        assert((st + c) / 4 == q + n && (st + c) % 4 == total % 4) by {
            vstd::arithmetic::div_mod::lemma_fundamental_div_mod(st, 4);
            vstd::arithmetic::div_mod::lemma_fundamental_div_mod(total, 4);
            vstd::arithmetic::div_mod::lemma_fundamental_div_mod_converse(st + c, 4, q + n, total % 4);
        }
        assert((q + n) / 128 == q / 128 + (q % 128 + n) / 128 && (q + n) % 128 == (q % 128 + n) % 128) by {
            vstd::arithmetic::div_mod::lemma_fundamental_div_mod(q, 128);
            vstd::arithmetic::div_mod::lemma_fundamental_div_mod(q % 128 + n, 128);
            vstd::arithmetic::div_mod::lemma_fundamental_div_mod_converse(
                q + n,
                128,
                q / 128 + (q % 128 + n) / 128,
                (q % 128 + n) % 128,
            );
        }
        assert((st + c) / 512 == ((st + c) / 4) / 128) by {
            vstd::arithmetic::div_mod::lemma_div_denominator(st + c, 4, 128);
        }
        assert(st / 512 == q / 128) by {
            vstd::arithmetic::div_mod::lemma_div_denominator(st, 4, 128);
        }
    }
}

/// A total of cycle counts is not negative.
proof fn lemma_total_nonneg(cs: Seq<u32>)
    ensures
        cycles_total(cs) >= 0,
    decreases cs.len(),
{
    if cs.len() > 0 {
        lemma_total_nonneg(cs.drop_last());
    }
}

/// Law: the two sides of the mix are routed independently. The left sample
/// is silent when SOUNDCNT_L bits 12-15 route no channel to it, and the
/// right one when bits 8-11 route none; and the left sample depends on
/// SOUNDCNT_L only through bits 4-6 (left volume) and 12-15 (left routing),
/// the right one only through bits 0-2 and 8-11, so a channel routed to one
/// side only never reaches the other.
pub proof fn law_mix_sides_routed_apart(s: ApuCore, cnt2: u16)
    ensures
        (s.cnt_l / 4096) % 16 == 0 ==> s.mixed().0 == 0,
        (s.cnt_l / 256) % 16 == 0 ==> s.mixed().1 == 0,
        (cnt2 / 16) % 8 == (s.cnt_l / 16) % 8 && (cnt2 / 4096) % 16 == (s.cnt_l / 4096) % 16 ==> (ApuCore {
            cnt_l: cnt2,
            ..s
        }).mixed().0 == s.mixed().0,
        cnt2 % 8 == s.cnt_l % 8 && (cnt2 / 256) % 16 == (s.cnt_l / 256) % 16 ==> (ApuCore { cnt_l: cnt2, ..s }).mixed().1
            == s.mixed().1,
{
    assert(s.side_sum(0) == 0);
}

} // verus!
