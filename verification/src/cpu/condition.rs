//! The sixteen ARM condition codes (the four high bits of an instruction).
use vstd::prelude::*;
use crate::cpu::alu::{bit, signed, spec_sub};
use crate::cpu::psr::Cpsr;

verus! {

/// Condition codes (cond[3:0] of an ARM instruction).
#[derive(Debug, Clone, Copy, PartialEq, Eq, Structural)]
pub enum Condition {
    /// Z set: equal.
    Eq,
    /// Z clear: not equal.
    Ne,
    /// C set: unsigned higher or same.
    Cs,
    /// C clear: unsigned lower.
    Cc,
    /// N set: negative.
    Mi,
    /// N clear: positive or zero.
    Pl,
    /// V set: overflow.
    Vs,
    /// V clear: no overflow.
    Vc,
    /// C set and Z clear: unsigned higher.
    Hi,
    /// C clear or Z set: unsigned lower or same.
    Ls,
    /// N equals V: signed greater or equal.
    Ge,
    /// N differs from V: signed less than.
    Lt,
    /// Z clear and N equals V: signed greater than.
    Gt,
    /// Z set or N differs from V: signed less or equal.
    Le,
    /// Always.
    Al,
    /// Never.
    Nv,
}

/// The condition selected by the four low bits of `b`.
pub open spec fn condition_of(b: u32) -> Condition {
    let k = b % 16;
    if k == 0 { Condition::Eq }
    else if k == 1 { Condition::Ne }
    else if k == 2 { Condition::Cs }
    else if k == 3 { Condition::Cc }
    else if k == 4 { Condition::Mi }
    else if k == 5 { Condition::Pl }
    else if k == 6 { Condition::Vs }
    else if k == 7 { Condition::Vc }
    else if k == 8 { Condition::Hi }
    else if k == 9 { Condition::Ls }
    else if k == 10 { Condition::Ge }
    else if k == 11 { Condition::Lt }
    else if k == 12 { Condition::Gt }
    else if k == 13 { Condition::Le }
    else if k == 14 { Condition::Al }
    else { Condition::Nv }
}

/// Whether a condition holds for the flags of a status word.
pub open spec fn holds(c: Condition, w: u32) -> bool {
    let n = bit(w, 31);
    let z = bit(w, 30);
    let cf = bit(w, 29);
    let v = bit(w, 28);
    match c {
        Condition::Eq => z,
        Condition::Ne => !z,
        Condition::Cs => cf,
        Condition::Cc => !cf,
        Condition::Mi => n,
        Condition::Pl => !n,
        Condition::Vs => v,
        Condition::Vc => !v,
        Condition::Hi => cf && !z,
        Condition::Ls => !cf || z,
        Condition::Ge => n == v,
        Condition::Lt => n != v,
        Condition::Gt => !z && n == v,
        Condition::Le => z || n != v,
        Condition::Al => true,
        Condition::Nv => false,
    }
}

impl Condition {
    /// Decodes a condition from the four low bits of `b`.
    pub fn from_bits(b: u32) -> (r: Condition)
        ensures
            r == condition_of(b),
    {
        proof {
            crate::bits::lemma_u32_facts();
        }
        let k = b & 0xF;
        if k == 0 { Condition::Eq }
        else if k == 1 { Condition::Ne }
        else if k == 2 { Condition::Cs }
        else if k == 3 { Condition::Cc }
        else if k == 4 { Condition::Mi }
        else if k == 5 { Condition::Pl }
        else if k == 6 { Condition::Vs }
        else if k == 7 { Condition::Vc }
        else if k == 8 { Condition::Hi }
        else if k == 9 { Condition::Ls }
        else if k == 10 { Condition::Ge }
        else if k == 11 { Condition::Lt }
        else if k == 12 { Condition::Gt }
        else if k == 13 { Condition::Le }
        else if k == 14 { Condition::Al }
        else { Condition::Nv }
    }

    /// Evaluates the condition against the flags of `cpsr`.
    pub fn evaluate(self, cpsr: Cpsr) -> (r: bool)
        ensures
            r == holds(self, cpsr.0),
    {
        let n = cpsr.n();
        let z = cpsr.z();
        let c = cpsr.c();
        let v = cpsr.v();
        match self {
            Condition::Eq => z,
            Condition::Ne => !z,
            Condition::Cs => c,
            Condition::Cc => !c,
            Condition::Mi => n,
            Condition::Pl => !n,
            Condition::Vs => v,
            Condition::Vc => !v,
            Condition::Hi => c && !z,
            Condition::Ls => !c || z,
            Condition::Ge => n == v,
            Condition::Lt => n != v,
            Condition::Gt => !z && (n == v),
            Condition::Le => z || (n != v),
            Condition::Al => true,
            Condition::Nv => false,
        }
    }
}

/// Law: after a comparison of `a` with `b` (the status word holding the
/// flags of `a - b`: N and Z from the difference, C set when nothing is
/// borrowed, V on signed overflow), each comparison condition holds exactly
/// when its relation between `a` and `b` does: unsigned for EQ, NE, CS, CC,
/// HI and LS, signed for GE, LT, GT and LE.
pub proof fn law_conditions_after_compare(a: u32, b: u32, w: u32)
    requires
        bit(w, 31) == (spec_sub(a, b).value >= 0x8000_0000),
        bit(w, 30) == (spec_sub(a, b).value == 0),
        bit(w, 29) == spec_sub(a, b).carry,
        bit(w, 28) == spec_sub(a, b).overflow,
    ensures
        holds(Condition::Eq, w) == (a == b),
        holds(Condition::Ne, w) == (a != b),
        holds(Condition::Cs, w) == (a >= b),
        holds(Condition::Cc, w) == (a < b),
        holds(Condition::Hi, w) == (a > b),
        holds(Condition::Ls, w) == (a <= b),
        holds(Condition::Ge, w) == (signed(a) >= signed(b)),
        holds(Condition::Lt, w) == (signed(a) < signed(b)),
        holds(Condition::Gt, w) == (signed(a) > signed(b)),
        holds(Condition::Le, w) == (signed(a) <= signed(b)),
{
    let d = a as int - b as int;
    let v = spec_sub(a, b).value;
    assert(v as int == if d >= 0 { d } else { d + 0x1_0000_0000 });
    assert((v == 0) == (a == b));
    let sd = signed(a) - signed(b);
    assert(spec_sub(a, b).overflow == (sd < -0x8000_0000 || sd > 0x7FFF_FFFF));
    assert((v >= 0x8000_0000) != spec_sub(a, b).overflow <==> sd < 0);
}

} // verus!
