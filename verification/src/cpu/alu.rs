//! ALU helpers: the barrel shifter and the flag computation used by data
//! processing instructions in both ARM and THUMB state.
use vstd::prelude::*;
use crate::bits::lemma_u32_facts;

verus! {

/// Result of a shift: the value and the carry-out (which feeds the C flag when
/// a logical instruction sets flags).
#[derive(Debug, Clone, Copy)]
pub struct ShiftOut {
    pub value: u32,
    pub carry: bool,
}

/// The four shift kinds of the barrel shifter.
#[derive(Debug, Clone, Copy, PartialEq, Eq, Structural)]
pub enum ShiftKind {
    /// Logical shift left.
    Lsl,
    /// Logical shift right.
    Lsr,
    /// Arithmetic shift right (keeps the sign).
    Asr,
    /// Rotate right.
    Ror,
}

/// The shift kind selected by the two low bits of `b`.
pub open spec fn shift_kind_of(b: u32) -> ShiftKind {
    let k = b % 4;
    if k == 0 {
        ShiftKind::Lsl
    } else if k == 1 {
        ShiftKind::Lsr
    } else if k == 2 {
        ShiftKind::Asr
    } else {
        ShiftKind::Ror
    }
}

impl ShiftKind {
    /// Decodes the 2-bit shift type field (only the two low bits matter).
    pub fn from_bits(b: u32) -> (r: ShiftKind)
        ensures
            r == shift_kind_of(b),
    {
        proof {
            lemma_u32_facts();
        }
        let k = b & 3;
        if k == 0 {
            ShiftKind::Lsl
        } else if k == 1 {
            ShiftKind::Lsr
        } else if k == 2 {
            ShiftKind::Asr
        } else {
            ShiftKind::Ror
        }
    }
}

/// Bit `i` of `v` (0 = least significant).
pub open spec fn bit(v: u32, i: u32) -> bool {
    (v >> i) & 1 != 0
}

/// Rotation of `v` to the right by `n` places, `0 < n < 32`.
pub open spec fn rotr(v: u32, n: u32) -> u32 {
    (v >> n) | (v << ((32 - n) as u32))
}

/// Arithmetic shift right of `v` by `n` places, `0 < n < 32`: the vacated high
/// bits are copies of bit 31.
pub open spec fn asr_value(v: u32, n: u32) -> u32 {
    if v >= 0x8000_0000 {
        (v >> n) | !(0xFFFF_FFFFu32 >> n)
    } else {
        v >> n
    }
}

/// Logical shift left, ARM semantics (shift amounts of 32 and above included).
pub open spec fn spec_lsl(v: u32, amt: u32, carry_in: bool) -> ShiftOut {
    if amt == 0 {
        ShiftOut { value: v, carry: carry_in }
    } else if amt < 32 {
        ShiftOut { value: v << amt, carry: bit(v, (32 - amt) as u32) }
    } else if amt == 32 {
        ShiftOut { value: 0, carry: bit(v, 0) }
    } else {
        ShiftOut { value: 0, carry: false }
    }
}

/// Logical shift right. In the immediate form an amount of 0 encodes 32.
pub open spec fn spec_lsr(v: u32, amt: u32, carry_in: bool, imm_form: bool) -> ShiftOut {
    let e = if amt == 0 && imm_form { 32 } else { amt };
    if e == 0 {
        ShiftOut { value: v, carry: carry_in }
    } else if e < 32 {
        ShiftOut { value: v >> e, carry: bit(v, (e - 1) as u32) }
    } else if e == 32 {
        ShiftOut { value: 0, carry: bit(v, 31) }
    } else {
        ShiftOut { value: 0, carry: false }
    }
}

/// Arithmetic shift right. In the immediate form an amount of 0 encodes 32;
/// amounts of 32 and above fill the word with the sign bit.
pub open spec fn spec_asr(v: u32, amt: u32, carry_in: bool, imm_form: bool) -> ShiftOut {
    let e = if amt == 0 && imm_form { 32 } else { amt };
    if e == 0 {
        ShiftOut { value: v, carry: carry_in }
    } else if e < 32 {
        ShiftOut { value: asr_value(v, e), carry: bit(v, (e - 1) as u32) }
    } else {
        ShiftOut {
            value: if bit(v, 31) { 0xFFFF_FFFF } else { 0 },
            carry: bit(v, 31),
        }
    }
}

/// Rotate right. In the immediate form an amount of 0 encodes RRX (rotate right
/// by one through the carry flag); in the register form a non-zero multiple of
/// 32 leaves the value and copies bit 31 to the carry.
pub open spec fn spec_ror(v: u32, amt: u32, carry_in: bool, imm_form: bool) -> ShiftOut {
    if amt == 0 && imm_form {
        ShiftOut {
            value: (v >> 1) | (if carry_in { 0x8000_0000u32 } else { 0u32 }),
            carry: bit(v, 0),
        }
    } else if amt == 0 {
        ShiftOut { value: v, carry: carry_in }
    } else if amt % 32 == 0 {
        ShiftOut { value: v, carry: bit(v, 31) }
    } else {
        ShiftOut {
            value: rotr(v, amt % 32),
            carry: bit(v, ((amt % 32) - 1) as u32),
        }
    }
}

/// What the barrel shifter produces for each shift kind.
pub open spec fn spec_barrel_shift(
    kind: ShiftKind,
    value: u32,
    amount: u32,
    carry_in: bool,
    imm_form: bool,
) -> ShiftOut {
    match kind {
        ShiftKind::Lsl => spec_lsl(value, amount, carry_in),
        ShiftKind::Lsr => spec_lsr(value, amount, carry_in, imm_form),
        ShiftKind::Asr => spec_asr(value, amount, carry_in, imm_form),
        ShiftKind::Ror => spec_ror(value, amount, carry_in, imm_form),
    }
}

fn bit_of(v: u32, i: u32) -> (r: bool)
    requires
        i < 32,
    ensures
        r == bit(v, i),
{
    (v >> i) & 1 != 0
}

/// Rotates `v` right by `n` places (`n < 32`; 0 leaves it unchanged).
pub fn rotate_right(v: u32, n: u32) -> (r: u32)
    requires
        n < 32,
    ensures
        n == 0 ==> r == v,
        n > 0 ==> r == rotr(v, n),
{
    if n == 0 {
        v
    } else {
        (v >> n) | (v << (32 - n))
    }
}

/// Applies the barrel shifter to `value` by `amount` places.
///
/// `carry_in` is the current C flag, used when the shift produces no carry of
/// its own (such as LSL #0). `imm_form` tells the immediate encoding from the
/// register encoding: it changes what an amount of 0 means for LSR, ASR and ROR.
pub fn barrel_shift(
    kind: ShiftKind,
    value: u32,
    amount: u32,
    carry_in: bool,
    imm_form: bool,
) -> (r: ShiftOut)
    ensures
        r == spec_barrel_shift(kind, value, amount, carry_in, imm_form),
{
    match kind {
        ShiftKind::Lsl => lsl(value, amount, carry_in),
        ShiftKind::Lsr => lsr(value, amount, carry_in, imm_form),
        ShiftKind::Asr => asr(value, amount, carry_in, imm_form),
        ShiftKind::Ror => ror(value, amount, carry_in, imm_form),
    }
}

fn lsl(v: u32, amt: u32, carry_in: bool) -> (r: ShiftOut)
    ensures
        r == spec_lsl(v, amt, carry_in),
{
    if amt == 0 {
        ShiftOut { value: v, carry: carry_in }
    } else if amt < 32 {
        ShiftOut { value: v << amt, carry: bit_of(v, 32 - amt) }
    } else if amt == 32 {
        ShiftOut { value: 0, carry: bit_of(v, 0) }
    } else {
        ShiftOut { value: 0, carry: false }
    }
}

fn lsr(v: u32, amt: u32, carry_in: bool, imm_form: bool) -> (r: ShiftOut)
    ensures
        r == spec_lsr(v, amt, carry_in, imm_form),
{
    let effective = if amt == 0 && imm_form { 32 } else { amt };
    if effective == 0 {
        ShiftOut { value: v, carry: carry_in }
    } else if effective < 32 {
        ShiftOut { value: v >> effective, carry: bit_of(v, effective - 1) }
    } else if effective == 32 {
        ShiftOut { value: 0, carry: bit_of(v, 31) }
    } else {
        ShiftOut { value: 0, carry: false }
    }
}

fn asr(v: u32, amt: u32, carry_in: bool, imm_form: bool) -> (r: ShiftOut)
    ensures
        r == spec_asr(v, amt, carry_in, imm_form),
{
    proof {
        lemma_u32_facts();
    }
    let effective = if amt == 0 && imm_form { 32 } else { amt };
    if effective == 0 {
        ShiftOut { value: v, carry: carry_in }
    } else if effective < 32 {
        let value = if v >= 0x8000_0000 {
            (v >> effective) | !(0xFFFF_FFFFu32 >> effective)
        } else {
            v >> effective
        };
        ShiftOut { value, carry: bit_of(v, effective - 1) }
    } else {
        let neg = bit_of(v, 31);
        ShiftOut { value: if neg { 0xFFFF_FFFF } else { 0 }, carry: neg }
    }
}

fn ror(v: u32, amt: u32, carry_in: bool, imm_form: bool) -> (r: ShiftOut)
    ensures
        r == spec_ror(v, amt, carry_in, imm_form),
{
    if amt == 0 && imm_form {
        return rrx(v, carry_in);
    }
    if amt == 0 {
        return ShiftOut { value: v, carry: carry_in };
    }
    let a = amt % 32;
    if a == 0 {
        return ShiftOut { value: v, carry: bit_of(v, 31) };
    }
    ShiftOut { value: rotate_right(v, a), carry: bit_of(v, a - 1) }
}

/// RRX: rotate right by one with C entering bit 31.
fn rrx(v: u32, carry_in: bool) -> (r: ShiftOut)
    ensures
        r == spec_ror(v, 0, carry_in, true),
{
    let carry_out = bit_of(v, 0);
    let cin: u32 = if carry_in { 0x8000_0000 } else { 0 };
    ShiftOut { value: (v >> 1) | cin, carry: carry_out }
}

// ───────────────────── ALU arithmetic ─────────────────────

/// Result of an addition or subtraction with its C and V flags.
#[derive(Debug, Clone, Copy)]
pub struct ArithOut {
    pub value: u32,
    pub carry: bool,
    pub overflow: bool,
}

/// The signed value of a 32-bit word (two's complement).
pub open spec fn signed(x: u32) -> int {
    if x >= 0x8000_0000 {
        x - 0x1_0000_0000
    } else {
        x as int
    }
}

/// True when `v` lies outside the range of a signed 32-bit word.
pub open spec fn out_of_i32(v: int) -> bool {
    v < -0x8000_0000 || v > 0x7FFF_FFFF
}

/// `a + b + c` computed in 32 bits: the value wraps, C is the unsigned carry
/// out and V the signed overflow.
pub open spec fn spec_adc(a: u32, b: u32, c: bool) -> ArithOut {
    let cin: int = if c { 1 } else { 0 };
    ArithOut {
        value: ((a + b + cin) % 0x1_0000_0000) as u32,
        carry: a + b + cin > 0xFFFF_FFFF,
        overflow: out_of_i32(signed(a) + signed(b) + cin),
    }
}

/// `a - b` computed in 32 bits. The C flag follows the ARM convention: it is
/// NOT borrow, so it is set exactly when `a >= b`.
pub open spec fn spec_sub(a: u32, b: u32) -> ArithOut {
    ArithOut {
        value: ((a - b + 0x1_0000_0000) % 0x1_0000_0000) as u32,
        carry: a >= b,
        overflow: out_of_i32(signed(a) - signed(b)),
    }
}

fn signed_of(x: u32) -> (r: i64)
    ensures
        r == signed(x),
{
    if x >= 0x8000_0000 {
        x as i64 - 0x1_0000_0000
    } else {
        x as i64
    }
}

/// `a + b` with flags.
pub fn add_with_flags(a: u32, b: u32) -> (r: ArithOut)
    ensures
        r == spec_adc(a, b, false),
{
    adc_with_flags(a, b, false)
}

/// `a + b + carry_in` with flags.
pub fn adc_with_flags(a: u32, b: u32, carry_in: bool) -> (r: ArithOut)
    ensures
        r == spec_adc(a, b, carry_in),
{
    let cin: u64 = if carry_in { 1 } else { 0 };
    let sum: u64 = a as u64 + b as u64 + cin;
    let value = (sum % 0x1_0000_0000) as u32;
    let carry = sum > 0xFFFF_FFFF;
    let s: i64 = signed_of(a) + signed_of(b) + cin as i64;
    let overflow = s < -0x8000_0000 || s > 0x7FFF_FFFF;
    ArithOut { value, carry, overflow }
}

/// `a - b` with flags (C = NOT borrow).
pub fn sub_with_flags(a: u32, b: u32) -> (r: ArithOut)
    ensures
        r == spec_sub(a, b),
{
    let value = ((a as u64 + 0x1_0000_0000 - b as u64) % 0x1_0000_0000) as u32;
    let s: i64 = signed_of(a) - signed_of(b);
    ArithOut { value, carry: a >= b, overflow: s < -0x8000_0000 || s > 0x7FFF_FFFF }
}

/// SBC: `a - b - NOT C`, computed as `a + NOT b + C`.
pub fn sbc_with_flags(a: u32, b: u32, carry_in: bool) -> (r: ArithOut)
    ensures
        r == spec_adc(a, (0xFFFF_FFFF - b) as u32, carry_in),
{
    proof {
        lemma_u32_facts();
    }
    adc_with_flags(a, !b, carry_in)
}

} // verus!
