//! CPSR: the Current Program Status Register.
//!
//! Layout (high bits to low bits):
//!   31 30 29 28  27 .. 8   7 6 5  4 3 2 1 0
//!   N  Z  C  V   (reserved) I F T  M[4..0]
//!
//! N negative, Z zero, C carry, V signed overflow, I IRQ disable, F FIQ
//! disable, T THUMB state, M processor mode.
use vstd::prelude::*;
use crate::bits::lemma_u32_single_bits;
use crate::cpu::alu::bit;

verus! {

/// The single-bit fields of the CPSR.
#[derive(Debug, Clone, Copy, PartialEq, Eq, Structural)]
pub enum PsrFlags {
    N,
    Z,
    C,
    V,
    I,
    F,
    T,
}

/// Bit position of each flag in the status register.
pub open spec fn flag_index(f: PsrFlags) -> u32 {
    match f {
        PsrFlags::N => 31,
        PsrFlags::Z => 30,
        PsrFlags::C => 29,
        PsrFlags::V => 28,
        PsrFlags::I => 7,
        PsrFlags::F => 6,
        PsrFlags::T => 5,
    }
}

impl PsrFlags {
    /// Bit position of the flag.
    pub fn index(self) -> (r: u32)
        ensures
            r == flag_index(self),
            r < 32,
    {
        match self {
            PsrFlags::N => 31,
            PsrFlags::Z => 30,
            PsrFlags::C => 29,
            PsrFlags::V => 28,
            PsrFlags::I => 7,
            PsrFlags::F => 6,
            PsrFlags::T => 5,
        }
    }

    /// The flag as a one-bit mask.
    pub fn bits(self) -> (r: u32)
        ensures
            r == 1u32 << flag_index(self),
    {
        1u32 << self.index()
    }
}

/// Processor modes of the ARM7TDMI (field M[4:0] of the CPSR).
#[derive(Debug, Clone, Copy, PartialEq, Eq, Structural)]
pub enum CpuMode {
    User,
    Fiq,
    Irq,
    Supervisor,
    Abort,
    Undefined,
    System,
}

/// The 5-bit encoding of each mode.
pub open spec fn mode_bits(m: CpuMode) -> u32 {
    match m {
        CpuMode::User => 0x10,
        CpuMode::Fiq => 0x11,
        CpuMode::Irq => 0x12,
        CpuMode::Supervisor => 0x13,
        CpuMode::Abort => 0x17,
        CpuMode::Undefined => 0x1B,
        CpuMode::System => 0x1F,
    }
}

/// The mode that the five low bits of `bits` select, if any.
pub open spec fn mode_of_bits(bits: u32) -> Option<CpuMode> {
    let m = bits % 32;
    if m == 0x10 {
        Some(CpuMode::User)
    } else if m == 0x11 {
        Some(CpuMode::Fiq)
    } else if m == 0x12 {
        Some(CpuMode::Irq)
    } else if m == 0x13 {
        Some(CpuMode::Supervisor)
    } else if m == 0x17 {
        Some(CpuMode::Abort)
    } else if m == 0x1B {
        Some(CpuMode::Undefined)
    } else if m == 0x1F {
        Some(CpuMode::System)
    } else {
        None
    }
}

/// Slot of the mode in the bank of saved status registers (User and System have
/// none).
pub open spec fn spsr_slot(m: CpuMode) -> Option<usize> {
    match m {
        CpuMode::Fiq => Some(0usize),
        CpuMode::Irq => Some(1usize),
        CpuMode::Supervisor => Some(2usize),
        CpuMode::Abort => Some(3usize),
        CpuMode::Undefined => Some(4usize),
        CpuMode::User | CpuMode::System => None,
    }
}

impl CpuMode {
    /// Decodes the mode field (five low bits); `None` for an invalid encoding.
    pub fn from_bits(bits: u32) -> (r: Option<CpuMode>)
        ensures
            r == mode_of_bits(bits),
    {
        proof {
            crate::bits::lemma_u32_facts();
        }
        let m = bits & 0x1F;
        if m == 0x10 {
            Some(CpuMode::User)
        } else if m == 0x11 {
            Some(CpuMode::Fiq)
        } else if m == 0x12 {
            Some(CpuMode::Irq)
        } else if m == 0x13 {
            Some(CpuMode::Supervisor)
        } else if m == 0x17 {
            Some(CpuMode::Abort)
        } else if m == 0x1B {
            Some(CpuMode::Undefined)
        } else if m == 0x1F {
            Some(CpuMode::System)
        } else {
            None
        }
    }

    /// The 5-bit encoding of the mode.
    pub fn bits(self) -> (r: u32)
        ensures
            r == mode_bits(self),
            r < 32,
    {
        match self {
            CpuMode::User => 0x10,
            CpuMode::Fiq => 0x11,
            CpuMode::Irq => 0x12,
            CpuMode::Supervisor => 0x13,
            CpuMode::Abort => 0x17,
            CpuMode::Undefined => 0x1B,
            CpuMode::System => 0x1F,
        }
    }

    /// Index in the bank of saved status registers (User/System have none).
    pub fn spsr_index(self) -> (r: Option<usize>)
        ensures
            r == spsr_slot(self),
    {
        match self {
            CpuMode::Fiq => Some(0),
            CpuMode::Irq => Some(1),
            CpuMode::Supervisor => Some(2),
            CpuMode::Abort => Some(3),
            CpuMode::Undefined => Some(4),
            CpuMode::User | CpuMode::System => None,
        }
    }
}

/// Every mode decodes back from its own encoding.
pub proof fn law_mode_bits_round_trip(m: CpuMode)
    ensures
        mode_of_bits(mode_bits(m)) == Some(m),
        mode_bits(m) < 32,
{
}

/// A status word with bit `i` set to `b`.
pub open spec fn with_flag(w: u32, i: u32, b: bool) -> u32 {
    if b {
        w | (1u32 << i)
    } else {
        w & !(1u32 << i)
    }
}

/// Typed wrapper around the raw CPSR word.
#[derive(Debug, Clone, Copy)]
pub struct Cpsr(pub u32);

/// The mode a status word is in (System when the field holds no valid mode).
pub open spec fn cpsr_mode(w: u32) -> CpuMode {
    match mode_of_bits(w) {
        Some(m) => m,
        None => CpuMode::System,
    }
}

impl Cpsr {
    /// Reset value: System mode, IRQ and FIQ disabled, ARM state.
    pub fn new() -> (r: Cpsr)
        ensures
            r.0 == 0xDF,
    {
        Cpsr(0xDF)
    }

    /// Negative flag (bit 31).
    pub fn n(self) -> (r: bool)
        ensures
            r == bit(self.0, 31),
    {
        (self.0 >> 31) & 1 != 0
    }

    /// Zero flag (bit 30).
    pub fn z(self) -> (r: bool)
        ensures
            r == bit(self.0, 30),
    {
        (self.0 >> 30) & 1 != 0
    }

    /// Carry flag (bit 29).
    pub fn c(self) -> (r: bool)
        ensures
            r == bit(self.0, 29),
    {
        (self.0 >> 29) & 1 != 0
    }

    /// Overflow flag (bit 28).
    pub fn v(self) -> (r: bool)
        ensures
            r == bit(self.0, 28),
    {
        (self.0 >> 28) & 1 != 0
    }

    /// THUMB state (bit 5).
    pub fn thumb(self) -> (r: bool)
        ensures
            r == bit(self.0, 5),
    {
        (self.0 >> 5) & 1 != 0
    }

    /// IRQ disabled (bit 7).
    pub fn irq_disabled(self) -> (r: bool)
        ensures
            r == bit(self.0, 7),
    {
        (self.0 >> 7) & 1 != 0
    }

    /// Sets or clears one flag, leaving every other bit as it was.
    pub fn set_flag(&mut self, f: PsrFlags, value: bool)
        ensures
            bit(final(self).0, flag_index(f)) == value,
            forall|j: u32| j < 32 && j != flag_index(f) ==> bit(final(self).0, j) == bit(old(self).0, j),
            final(self).0 == (if value {
                old(self).0 | (1u32 << flag_index(f))
            } else {
                old(self).0 & !(1u32 << flag_index(f))
            }),
    {
        proof {
            lemma_u32_single_bits();
        }
        let b = f.bits();
        if value {
            self.0 = self.0 | b;
        } else {
            self.0 = self.0 & !b;
        }
    }

    /// N and Z from a result: N is its bit 31, Z tells whether it is 0. Other
    /// bits are kept.
    pub fn set_nz(&mut self, result: u32)
        ensures
            final(self).0 == with_flag(with_flag(old(self).0, 31, result >= 0x8000_0000), 30, result == 0),
            bit(final(self).0, 31) == (result >= 0x8000_0000),
            bit(final(self).0, 30) == (result == 0),
            forall|j: u32| j < 30 ==> bit(final(self).0, j) == bit(old(self).0, j),
    {
        proof {
            lemma_u32_single_bits();
        }
        self.set_flag(PsrFlags::N, result >= 0x8000_0000);
        self.set_flag(PsrFlags::Z, result == 0);
    }

    /// The current mode (System when the mode field is invalid).
    pub fn mode(self) -> (r: CpuMode)
        ensures
            r == cpsr_mode(self.0),
    {
        match CpuMode::from_bits(self.0) {
            Some(m) => m,
            None => CpuMode::System,
        }
    }

    /// Replaces the mode field, leaving the flag bits as they were.
    pub fn set_mode(&mut self, mode: CpuMode)
        ensures
            cpsr_mode(final(self).0) == mode,
            final(self).0 % 32 == mode_bits(mode),
            forall|j: u32| 5 <= j < 32 ==> bit(final(self).0, j) == bit(old(self).0, j),
            final(self).0 == (old(self).0 & !0x1Fu32) | mode_bits(mode),
    {
        proof {
            lemma_u32_single_bits();
            crate::bits::lemma_u32_facts();
        }
        let b = mode.bits();
        self.0 = (self.0 & !0x1F) | b;
        proof {
            assert((self.0 & 0x1Fu32) == b);
        }
    }
}

} // verus!
