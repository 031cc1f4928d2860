//! ARM (32-bit) instruction decoder and executor: branches, data
//! processing with the barrel shifter, PSR transfer, multiplies, single,
//! halfword and block data transfer, swap and SWI.
use vstd::prelude::*;
use crate::bus::Bus;
use crate::cpu::alu::{
    adc_with_flags, add_with_flags, barrel_shift, bit, rotate_right, rotr, sbc_with_flags, shift_kind_of,
    spec_adc, spec_barrel_shift, spec_sub, sub_with_flags, ArithOut, ShiftKind,
};
use crate::cpu::condition::{condition_of, holds, Condition};
use crate::cpu::psr::{cpsr_mode, spsr_slot, with_flag, Cpsr, CpuMode, PsrFlags};
use crate::cpu::registers::RegisterFile;
use crate::cpu::Cpu;

verus! {

/// Bits `[lo, lo + width)` of an instruction.
pub open spec fn field(instr: u32, lo: nat, width: nat) -> u32 {
    ((instr as int / vstd::arithmetic::power2::pow2(lo) as int) % vstd::arithmetic::power2::pow2(width) as int) as u32
}

/// Bit `i` of an instruction is set.
pub open spec fn flag(instr: u32, i: nat) -> bool {
    field(instr, i, 1) == 1
}

/// `2^k` for the bit positions used by the decoder.
pub(crate) fn pow2_exec(k: u32) -> (r: u32)
    requires
        k < 32,
    ensures
        r == vstd::arithmetic::power2::pow2(k as nat),
        r >= 1,
{
    let mut r: u32 = 1;
    let mut i: u32 = 0;
    proof {
        vstd::arithmetic::power2::lemma2_to64();
    }
    while i < k
        invariant
            i <= k < 32,
            r == vstd::arithmetic::power2::pow2(i as nat),
            r >= 1,
        decreases k - i,
    {
        proof {
            vstd::arithmetic::power2::lemma2_to64();
            vstd::arithmetic::power2::lemma_pow2_unfold((i + 1) as nat);
            vstd::arithmetic::power2::lemma_pow2_strictly_increases(i as nat, 31);
        }
        r = r * 2;
        i = i + 1;
    }
    r
}

/// Bits `[lo, lo + width)` of `instr`.
pub fn bits_of(instr: u32, lo: u32, width: u32) -> (r: u32)
    requires
        lo < 32,
        1 <= width <= 24,
    ensures
        r == field(instr, lo as nat, width as nat),
        r < vstd::arithmetic::power2::pow2(width as nat),
        width == 1 ==> r < 2,
        width == 2 ==> r < 4,
        width == 3 ==> r < 8,
        width == 4 ==> r < 16,
        width == 5 ==> r < 32,
        width == 7 ==> r < 128,
        width == 8 ==> r < 256,
        width == 11 ==> r < 0x800,
        width == 12 ==> r < 0x1000,
        width == 16 ==> r < 0x1_0000,
        width == 24 ==> r < 0x100_0000,
{
    proof {
        vstd::arithmetic::power2::lemma2_to64();
    }
    let d = pow2_exec(lo);
    let m = pow2_exec(width);
    (instr / d) % m
}

/// Whether bit `i` of `instr` is set.
pub fn bit_of(instr: u32, i: u32) -> (r: bool)
    requires
        i < 32,
    ensures
        r == flag(instr, i as nat),
{
    bits_of(instr, i, 1) == 1
}

/// The value and carry of the second operand of a data-processing
/// instruction: a rotated 8-bit immediate (carry from bit 31 when rotated,
/// else the C flag) or Rm through the barrel shifter (shift amount from an
/// immediate or the low byte of Rs; with a register amount, a PC operand
/// reads 4 bytes further).
pub open spec fn operand2(cpu: Cpu, instr: u32) -> (u32, bool) {
    let c = bit(cpu.cpsr.0, 29);
    if flag(instr, 25) {
        let rot = field(instr, 8, 4) * 2;
        let v = if rot == 0 { field(instr, 0, 8) } else { rotr(field(instr, 0, 8), rot as u32) };
        (v, if rot == 0 { c } else { bit(v, 31) })
    } else {
        let rm = field(instr, 0, 4);
        let by_reg = flag(instr, 4);
        let rm_val = if by_reg && rm == 15 {
            ((cpu.reg(15) as int + 4) % 0x1_0000_0000) as u32
        } else {
            cpu.reg(rm as int)
        };
        let amount = if by_reg { cpu.reg(field(instr, 8, 4) as int) % 256 } else { field(instr, 7, 5) };
        let out = spec_barrel_shift(shift_kind_of(field(instr, 5, 2)), rm_val, amount as u32, c, !by_reg);
        (out.value, out.carry)
    }
}

/// Opcodes with an arithmetic result (and C, V flags).
pub open spec fn is_arith(op: u32) -> bool {
    (2 <= op <= 7) || op == 10 || op == 11
}

/// Arithmetic result of opcode `op` on `a` (Rn) and `b` (operand 2).
pub open spec fn dp_arith(op: u32, a: u32, b: u32, c: bool) -> ArithOut {
    if op == 2 || op == 10 {
        spec_sub(a, b)
    } else if op == 3 {
        spec_sub(b, a)
    } else if op == 4 || op == 11 {
        spec_adc(a, b, false)
    } else if op == 5 {
        spec_adc(a, b, c)
    } else if op == 6 {
        spec_adc(a, (0xFFFF_FFFF - b) as u32, c)
    } else {
        spec_adc(b, (0xFFFF_FFFF - a) as u32, c)
    }
}

/// Logical result of opcode `op`.
pub open spec fn dp_logic(op: u32, a: u32, b: u32) -> u32 {
    if op == 0 || op == 8 {
        a & b
    } else if op == 1 || op == 9 {
        a ^ b
    } else if op == 12 {
        a | b
    } else if op == 13 {
        b
    } else if op == 14 {
        a & !b
    } else {
        !b
    }
}

/// Rn as a data-processing instruction reads it (PC + 12 with a shift by
/// register).
pub open spec fn dp_rn(cpu: Cpu, instr: u32) -> u32 {
    let rn = field(instr, 16, 4);
    if rn == 15 && !flag(instr, 25) && flag(instr, 4) {
        ((cpu.reg(15) as int + 4) % 0x1_0000_0000) as u32
    } else {
        cpu.reg(rn as int)
    }
}

/// The result value of a data-processing instruction.
pub open spec fn dp_value(cpu: Cpu, instr: u32) -> u32 {
    let op = field(instr, 21, 4);
    let a = dp_rn(cpu, instr);
    let (b, sc) = operand2(cpu, instr);
    if is_arith(op) {
        dp_arith(op, a, b, bit(cpu.cpsr.0, 29)).value
    } else {
        dp_logic(op, a, b)
    }
}

/// The status word after a data-processing instruction that sets flags:
/// N and Z from the result, C from the adder or the shifter, V from the
/// adder (logical operations keep V).
pub open spec fn dp_flags(cpu: Cpu, instr: u32) -> u32 {
    let op = field(instr, 21, 4);
    let a = dp_rn(cpu, instr);
    let (b, sc) = operand2(cpu, instr);
    let v = dp_value(cpu, instr);
    let w = with_flag(with_flag(cpu.cpsr.0, 31, v >= 0x8000_0000), 30, v == 0);
    if is_arith(op) {
        let o = dp_arith(op, a, b, bit(cpu.cpsr.0, 29));
        with_flag(with_flag(w, 29, o.carry), 28, o.overflow)
    } else {
        with_flag(w, 29, sc)
    }
}

/// Registers and status when nothing but register `rd` changed.
pub open spec fn only_reg(o: Cpu, f: Cpu, rd: int, v: u32) -> bool {
    &&& f.regs.regs() == o.regs.regs().update(rd, v)
    &&& RegisterFile::same_banks(o.regs, f.regs)
    &&& f.spsr == o.spsr
    &&& f.halted == o.halted
}

/// The instruction classes of the ARM set.
#[derive(Debug, Clone, Copy, PartialEq, Eq, Structural)]
pub enum ArmClass {
    Branch,
    BranchExchange,
    Multiply,
    MultiplyLong,
    Swap,
    HalfwordTransfer,
    PsrTransfer,
    DataProcessing,
    SingleTransfer,
    BlockTransfer,
    Swi,
    Undefined,
}

/// The class of an ARM instruction, from bits 25-27 and the bits that
/// tell apart the encodings sharing a group.
pub open spec fn arm_class(i: u32) -> ArmClass {
    let group = field(i, 25, 3);
    if group == 5 {
        ArmClass::Branch
    } else if group == 0 || group == 1 {
        if field(i, 4, 16) == 0xFFF1 && field(i, 20, 8) == 0x12 {
            ArmClass::BranchExchange
        } else if !flag(i, 25) && field(i, 24, 4) == 0 && field(i, 4, 4) == 9 {
            if !flag(i, 23) { ArmClass::Multiply } else { ArmClass::MultiplyLong }
        } else if !flag(i, 25) && field(i, 23, 5) == 2 && field(i, 20, 2) == 0 && field(i, 4, 8) == 9 {
            ArmClass::Swap
        } else if !flag(i, 25) && flag(i, 7) && flag(i, 4) && field(i, 5, 2) != 0 {
            ArmClass::HalfwordTransfer
        } else if 8 <= field(i, 21, 4) <= 11 && !flag(i, 20) {
            ArmClass::PsrTransfer
        } else {
            ArmClass::DataProcessing
        }
    } else if group == 2 || group == 3 {
        ArmClass::SingleTransfer
    } else if group == 4 {
        ArmClass::BlockTransfer
    } else if group == 7 && field(i, 24, 4) == 0xF {
        ArmClass::Swi
    } else {
        ArmClass::Undefined
    }
}

/// The effect of one ARM instruction: nothing when its condition fails,
/// else the effect of its class.
pub open spec fn arm_exec_post(o: Cpu, f: Cpu, ob: Bus, fb: Bus, instr: u32) -> bool {
    let run = holds(condition_of(instr / 0x1000_0000), o.cpsr.0);
    let c = arm_class(instr);
    &&& !run ==> f == o && fb == ob
    &&& run && c != ArmClass::Swi && c != ArmClass::Undefined ==> crate::cpu::keeps(o, f)
    &&& run && (c == ArmClass::Branch || c == ArmClass::BranchExchange || c == ArmClass::Multiply || c
        == ArmClass::MultiplyLong || c == ArmClass::PsrTransfer || c == ArmClass::DataProcessing) ==> fb == ob
    &&& run && c == ArmClass::Branch ==> branch_post(o, f, instr)
    &&& run && c == ArmClass::BranchExchange ==> bx_post(o, f, instr)
    &&& run && c == ArmClass::Multiply ==> mul_post(o, f, instr)
    &&& run && c == ArmClass::MultiplyLong ==> mull_post(o, f, instr)
    &&& run && c == ArmClass::Swap ==> swp_post(o, f, ob, fb, instr)
    &&& run && c == ArmClass::HalfwordTransfer ==> hwt_post(o, f, ob, fb, instr)
    &&& run && c == ArmClass::PsrTransfer ==> psr_post(o, f, instr)
    &&& run && c == ArmClass::DataProcessing ==> dp_post(o, f, instr)
    &&& run && c == ArmClass::SingleTransfer ==> sdt_post(o, f, ob, fb, instr)
    &&& run && c == ArmClass::BlockTransfer ==> bdt_post(o, f, ob, fb, instr)
    &&& run && c == ArmClass::Swi ==> swi_post(o, f, ob, fb, instr)
}

/// Executes one ARM instruction whose condition holds.
pub fn execute(cpu: &mut Cpu, bus: &mut Bus, instr: u32)
    requires
        old(cpu).wf(),
        old(bus).wf(),
    ensures
        final(cpu).wf(),
        final(bus).wf(),
        arm_exec_post(*old(cpu), *final(cpu), *old(bus), *final(bus), instr),
{
    let cond = Condition::from_bits(instr / 0x1000_0000);
    if !cond.evaluate(cpu.cpsr) {
        return;
    }
    let group = bits_of(instr, 25, 3);
    if group == 5 {
        exec_branch(cpu, instr);
    } else if group == 0 || group == 1 {
        exec_group_000(cpu, bus, instr);
    } else if group == 2 || group == 3 {
        exec_single_data_transfer(cpu, bus, instr);
    } else if group == 4 {
        exec_block_data_transfer(cpu, bus, instr);
    } else if group == 7 && bits_of(instr, 24, 4) == 0xF {
        exec_swi(cpu, bus, instr);
    } else {
        let pc = cpu.regs.pc().wrapping_sub(8);
        cpu.stats.record_unimpl(pc, instr, false);
    }
}

/// The effect of `exec_branch_exchange`.
pub open spec fn bx_post(o: Cpu, f: Cpu, instr: u32) -> bool {
    let target = o.reg(field(instr, 0, 4) as int);
    &&& f.cpsr.0 == with_flag(o.cpsr.0, 5, target % 2 == 1)
    &&& bit(f.cpsr.0, 5) == (target % 2 == 1)
    &&& f.reg(15) == if target % 2 == 1 { target & !1u32 } else { target & !3u32 }
    &&& f.branched
    &&& forall|i: int| 0 <= i < 15 ==> #[trigger] f.reg(i) == o.reg(i)
    &&& RegisterFile::same_banks(o.regs, f.regs)
    &&& f.spsr == o.spsr
}

/// BX Rn: branches to Rn; bit 0 of the target selects THUMB state.
#[verifier::spinoff_prover]
fn exec_branch_exchange(cpu: &mut Cpu, instr: u32)
    requires
        old(cpu).wf(),
    ensures
        final(cpu).wf(),
        crate::cpu::keeps(*old(cpu), *final(cpu)),
        bx_post(*old(cpu), *final(cpu), instr),
{
    let rn = bits_of(instr, 0, 4) as usize;
    let target = cpu.regs.get(rn);
    let thumb = target % 2 == 1;
    cpu.cpsr.set_flag(PsrFlags::T, thumb);
    proof {
        lemma_with_flag_mode(old(cpu).cpsr.0, 5, thumb);
    }
    if thumb {
        cpu.set_pc_thumb(target);
    } else {
        cpu.set_pc_arm(target);
    }
}

/// The sign-extended, word-scaled offset of a branch.
pub open spec fn branch_offset(instr: u32) -> int {
    let raw = field(instr, 0, 24) as int;
    (if raw >= 0x80_0000 { raw - 0x100_0000 } else { raw }) * 4
}

/// The effect of `exec_branch`.
pub open spec fn branch_post(o: Cpu, f: Cpu, instr: u32) -> bool {
    &&& (f.reg(15) == ((o.reg(15) as int + branch_offset(instr)) % 0x1_0000_0000) as u32 & !3u32)
    &&& (flag(instr, 24) ==> f.reg(14) == ((o.reg(15) as int - 4) % 0x1_0000_0000) as u32)
    &&& (!flag(instr, 24) ==> f.reg(14) == o.reg(14))
    &&& (f.cpsr == o.cpsr)
    &&& (f.branched)
    &&& forall|i: int| 0 <= i < 14 ==> #[trigger] f.reg(i) == o.reg(i)
    &&& RegisterFile::same_banks(o.regs, f.regs)
    &&& f.spsr == o.spsr
}

/// B and BL: PC + 8 + offset; BL puts the next instruction in LR.
#[verifier::spinoff_prover]
fn exec_branch(cpu: &mut Cpu, instr: u32)
    requires
        old(cpu).wf(),
    ensures
        final(cpu).wf(),
        crate::cpu::keeps(*old(cpu), *final(cpu)),
        branch_post(*old(cpu), *final(cpu), instr),
{
    let link = bit_of(instr, 24);
    let raw = bits_of(instr, 0, 24);
    let pc = cpu.regs.pc();
    let target = if raw >= 0x80_0000 {
        pc.wrapping_sub((0x100_0000 - raw) * 4)
    } else {
        pc.wrapping_add(raw * 4)
    };
    assert(target == ((pc as int + branch_offset(instr)) % 0x1_0000_0000) as u32);
    if link {
        cpu.regs.set_lr(pc.wrapping_sub(4));
    }
    cpu.set_pc_arm(target);
}

/// Group 000/001: BX, multiplies, halfword transfer and swap, PSR transfer
/// and data processing, told apart by bits 27-20 and 7-4.
#[verifier::spinoff_prover]
fn exec_group_000(cpu: &mut Cpu, bus: &mut Bus, instr: u32)
    requires
        old(cpu).wf(),
        old(bus).wf(),
        field(instr, 25, 3) <= 1,
    ensures
        final(cpu).wf(),
        crate::cpu::keeps(*old(cpu), *final(cpu)),
        final(bus).wf(),
        ({
            let c = arm_class(instr);
            &&& c == ArmClass::BranchExchange ==> bx_post(*old(cpu), *final(cpu), instr)
            &&& c == ArmClass::Multiply ==> mul_post(*old(cpu), *final(cpu), instr)
            &&& c == ArmClass::MultiplyLong ==> mull_post(*old(cpu), *final(cpu), instr)
            &&& c == ArmClass::Swap ==> swp_post(*old(cpu), *final(cpu), *old(bus), *final(bus), instr)
            &&& c == ArmClass::HalfwordTransfer ==> hwt_post(*old(cpu), *final(cpu), *old(bus), *final(bus), instr)
            &&& c == ArmClass::PsrTransfer ==> psr_post(*old(cpu), *final(cpu), instr)
            &&& c == ArmClass::DataProcessing ==> dp_post(*old(cpu), *final(cpu), instr)
            &&& (c == ArmClass::BranchExchange || c == ArmClass::Multiply || c == ArmClass::MultiplyLong || c
                == ArmClass::PsrTransfer || c == ArmClass::DataProcessing) ==> *final(bus) == *old(bus)
        }),
{
    let imm_operand = bit_of(instr, 25);
    if bits_of(instr, 4, 16) == 0xFFF1 && bits_of(instr, 20, 8) == 0x12 {
        exec_branch_exchange(cpu, instr);
        return;
    }
    if !imm_operand && bits_of(instr, 24, 4) == 0 && bits_of(instr, 4, 4) == 9 {
        if !bit_of(instr, 23) {
            exec_multiply(cpu, instr);
        } else {
            exec_multiply_long(cpu, instr);
        }
        return;
    }
    if !imm_operand && bits_of(instr, 23, 5) == 2 && bits_of(instr, 20, 2) == 0 && bits_of(instr, 4, 8) == 9 {
        exec_swap(cpu, bus, instr);
        return;
    }
    if !imm_operand && bit_of(instr, 7) && bit_of(instr, 4) && bits_of(instr, 5, 2) != 0 {
        exec_halfword_transfer(cpu, bus, instr);
        return;
    }
    let opcode = bits_of(instr, 21, 4);
    let set_flags = bit_of(instr, 20);
    if 8 <= opcode && opcode <= 11 && !set_flags {
        exec_psr_transfer(cpu, instr);
    } else {
        exec_data_processing(cpu, instr);
    }
}

/// The second operand (see `operand2`).
#[verifier::rlimit(50)]
#[verifier::spinoff_prover]
fn compute_operand2(cpu: &Cpu, instr: u32) -> (r: (u32, bool))
    requires
        cpu.wf(),
    ensures
        r == operand2(*cpu, instr),
{
    let carry_in = cpu.cpsr.c();
    if bit_of(instr, 25) {
        let rot = bits_of(instr, 8, 4) * 2;
        let v = rotate_right(bits_of(instr, 0, 8), rot);
        proof {
            lemma_top_bit(v);
        }
        (v, if rot == 0 { carry_in } else { v >= 0x8000_0000 })
    } else {
        let rm = bits_of(instr, 0, 4) as usize;
        let by_reg = bit_of(instr, 4);
        let rm_val = if by_reg && rm == 15 { cpu.regs.get(rm).wrapping_add(4) } else { cpu.regs.get(rm) };
        let amount = if by_reg { cpu.regs.get(bits_of(instr, 8, 4) as usize) % 256 } else { bits_of(instr, 7, 5) };
        let kind = ShiftKind::from_bits(bits_of(instr, 5, 2));
        let out = barrel_shift(kind, rm_val, amount, carry_in, !by_reg);
        (out.value, out.carry)
    }
}

/// The effect of `exec_data_processing`.
pub open spec fn dp_post(o: Cpu, f: Cpu, instr: u32) -> bool {
    let op = field(instr, 21, 4);
    let s = flag(instr, 20);
    let rd = field(instr, 12, 4);
    let v = dp_value(o, instr);
    let writes = !(8 <= op <= 11);
    &&& rd != 15 && writes ==> f.reg(rd as int) == v
    &&& rd != 15 && !writes ==> f.regs.regs() == o.regs.regs()
    &&& rd == 15 && !s && !writes ==> f == o
    &&& rd != 15 ==> f.cpsr.0 == if s { dp_flags(o, instr) } else { o.cpsr.0 }
    &&& rd != 15 ==> forall|i: int| 0 <= i < 16 && i != rd ==> f.reg(i) == o.reg(i)
    &&& rd != 15 ==> f.branched == o.branched && f.spsr == o.spsr && RegisterFile::same_banks(o.regs, f.regs)
    &&& rd == 15 && !s && writes ==> f.reg(15) == v & !3u32 && f.branched
    &&& rd == 15 && s ==> dp_return(o, f, instr)
}

/// The PC written by a branch to `v` in the state of CPSR `c`: halfword
/// aligned in THUMB state, word aligned in ARM state.
pub open spec fn pc_target(c: u32, v: u32) -> u32 {
    if bit(c, 5) {
        v & !1u32
    } else {
        v & !3u32
    }
}

/// The CPSR after an exception return: the SPSR of the current mode, or in
/// User and System mode the CPSR with the flags set.
pub open spec fn dp_return_cpsr(o: Cpu, instr: u32) -> u32 {
    match spsr_slot(cpsr_mode(o.cpsr.0)) {
        Some(i) => o.spsr[i as int].0,
        None => dp_flags(o, instr),
    }
}

/// Data processing with S and Rd = PC (exception return): in a mode with an
/// SPSR the CPSR is restored from it and the register bank of the restored
/// mode becomes visible; in User and System mode the flags are set as usual.
/// Unless the opcode is a test, the PC then takes the result, aligned for
/// the state of the new CPSR.
pub open spec fn dp_return(o: Cpu, f: Cpu, instr: u32) -> bool {
    let v = dp_value(o, instr);
    let writes = !(8 <= field(instr, 21, 4) <= 11);
    let c = dp_return_cpsr(o, instr);
    &&& f.cpsr.0 == c
    &&& f.spsr == o.spsr
    &&& f.halted == o.halted
    &&& exists|r: RegisterFile|
        #[trigger] RegisterFile::switched(o.regs, r, cpsr_mode(c)) && RegisterFile::same_banks(r, f.regs) && (if writes {
            f.regs.regs() == r.regs().update(15, pc_target(c, v)) && f.branched
        } else {
            f.regs.regs() == r.regs() && f.branched == o.branched
        })
}

/// Data processing: the sixteen ALU opcodes. With S, the flags are set; with
/// S and Rd = PC the SPSR is restored first (exception return) and the PC is
/// aligned for the restored state.
#[verifier::rlimit(60)]
#[verifier::spinoff_prover]
fn exec_data_processing(cpu: &mut Cpu, instr: u32)
    requires
        old(cpu).wf(),
    ensures
        final(cpu).wf(),
        crate::cpu::keeps(*old(cpu), *final(cpu)),
        dp_post(*old(cpu), *final(cpu), instr),
{
    let opcode = bits_of(instr, 21, 4);
    let set_flags = bit_of(instr, 20);
    let rn = bits_of(instr, 16, 4) as usize;
    let rd = bits_of(instr, 12, 4) as usize;
    let carry_in = cpu.cpsr.c();
    let (op2, shifter_carry) = compute_operand2(cpu, instr);
    let mut a = cpu.regs.get(rn);
    if rn == 15 && !bit_of(instr, 25) && bit_of(instr, 4) {
        a = a.wrapping_add(4);
    }
    let arith = (2 <= opcode && opcode <= 7) || opcode == 10 || opcode == 11;
    let (value, carry, overflow) = if arith {
        let o = if opcode == 2 || opcode == 10 {
            sub_with_flags(a, op2)
        } else if opcode == 3 {
            sub_with_flags(op2, a)
        } else if opcode == 4 || opcode == 11 {
            add_with_flags(a, op2)
        } else if opcode == 5 {
            adc_with_flags(a, op2, carry_in)
        } else if opcode == 6 {
            sbc_with_flags(a, op2, carry_in)
        } else {
            sbc_with_flags(op2, a, carry_in)
        };
        (o.value, o.carry, o.overflow)
    } else {
        let v = if opcode == 0 || opcode == 8 {
            a & op2
        } else if opcode == 1 || opcode == 9 {
            a ^ op2
        } else if opcode == 12 {
            a | op2
        } else if opcode == 13 {
            op2
        } else if opcode == 14 {
            a & !op2
        } else {
            !op2
        };
        (v, shifter_carry, false)
    };
    let writes = !(8 <= opcode && opcode <= 11);
    if set_flags {
        cpu.cpsr.set_nz(value);
        cpu.cpsr.set_flag(PsrFlags::C, carry);
        if arith {
            cpu.cpsr.set_flag(PsrFlags::V, overflow);
        }
        proof {
            lemma_dp_flags_mode(old(cpu).cpsr.0, value, carry, overflow, arith, cpu.cpsr.0);
        }
    }
    if rd == 15 && set_flags {
        let ghost r0 = cpu.regs;
        match cpu.cpsr.mode().spsr_index() {
            Some(idx) => {
                cpu.cpsr = cpu.spsr[idx];
                let m = cpu.cpsr.mode();
                let ghost o = cpu.regs;
                cpu.regs.switch_mode(m);
                proof {
                    RegisterFile::lemma_switched(o, cpu.regs, m);
                }
            },
            None => {
                proof {
                    RegisterFile::lemma_switched_self(r0);
                }
            },
        }
        let ghost r = cpu.regs;
        proof {
            assert(RegisterFile::switched(r0, r, cpsr_mode(cpu.cpsr.0)));
            assert(RegisterFile::same_banks(r, r));
        }
        if writes {
            if cpu.cpsr.thumb() {
                cpu.set_pc_thumb(value);
            } else {
                cpu.set_pc_arm(value);
            }
        }
        proof {
            let c = dp_return_cpsr(*old(cpu), instr);
            assert(cpu.cpsr.0 == c);
            assert(cpu.spsr == old(cpu).spsr);
            assert(value == dp_value(*old(cpu), instr));
            assert(RegisterFile::switched(old(cpu).regs, r, cpsr_mode(c)));
            assert(RegisterFile::same_banks(r, cpu.regs));
            assert(cpu.halted == old(cpu).halted);
            if writes {
                assert(cpu.regs.regs() == r.regs().update(15, pc_target(c, value)));
                assert(cpu.branched);
            } else {
                assert(cpu.regs.regs() == r.regs());
                assert(cpu.branched == old(cpu).branched);
            }
            let wr = !(8 <= field(instr, 21, 4) <= 11);
            assert(wr == writes);
            assert(RegisterFile::switched(old(cpu).regs, r, cpsr_mode(c)) && RegisterFile::same_banks(r, cpu.regs)
                && (if wr {
                cpu.regs.regs() == r.regs().update(15, pc_target(c, dp_value(*old(cpu), instr))) && cpu.branched
            } else {
                cpu.regs.regs() == r.regs() && cpu.branched == old(cpu).branched
            }));
            assert(dp_return(*old(cpu), *cpu, instr));
        }
    } else if writes {
        write_rd(cpu, rd, value);
    }
}

/// Writes Rd; a write to the PC is an ARM branch.
fn write_rd(cpu: &mut Cpu, rd: usize, value: u32)
    requires
        old(cpu).wf(),
        rd < 16,
    ensures
        final(cpu).wf(),
        crate::cpu::keeps(*old(cpu), *final(cpu)),
        rd != 15 ==> only_reg(*old(cpu), *final(cpu), rd as int, value) && final(cpu).cpsr == old(cpu).cpsr
            && final(cpu).branched == old(cpu).branched,
        rd == 15 ==> only_reg(*old(cpu), *final(cpu), 15, value & !3u32) && final(cpu).cpsr == old(cpu).cpsr
            && final(cpu).branched,
{
    if rd == 15 {
        cpu.set_pc_arm(value);
    } else {
        cpu.regs.set(rd, value);
    }
}


/// The effect of `exec_psr_transfer`.
pub open spec fn psr_post(o: Cpu, f: Cpu, instr: u32) -> bool {
    &&& (!flag(instr, 21) ==> only_reg(o, f, field(instr, 12, 4) as int, if flag(instr, 22) {
            match spsr_slot(cpsr_mode(o.cpsr.0)) {
                Some(i) => o.spsr[i as int].0,
                None => o.cpsr.0,
            }
        } else {
            o.cpsr.0
        }) && f.cpsr == o.cpsr)
    &&& (flag(instr, 21) && !flag(instr, 22) ==> f.cpsr.0 == msr_result(o, instr, o.cpsr.0))
    &&& (flag(instr, 21) && flag(instr, 22) ==> f.cpsr == o.cpsr && match spsr_slot(cpsr_mode(o.cpsr.0)) {
            Some(i) => f.spsr@ == o.spsr@.update(i as int, Cpsr(msr_result(o, instr, o.spsr[i as int].0))),
            None => f.spsr == o.spsr,
        })
    &&& (flag(instr, 21) && flag(instr, 22) ==> f.regs == o.regs)
    &&& (flag(instr, 21) && !flag(instr, 22) ==> f.spsr == o.spsr && RegisterFile::switched(
        o.regs,
        f.regs,
        cpsr_mode(f.cpsr.0),
    ))
    &&& f.branched == o.branched
}

/// MRS and MSR. MRS copies the CPSR or the current SPSR (the CPSR in User
/// and System mode) to Rd. MSR writes the fields selected by bits 16-19 from
/// a rotated immediate or Rm; in User mode only the flag byte of the CPSR is
/// writable.
#[verifier::spinoff_prover]
fn exec_psr_transfer(cpu: &mut Cpu, instr: u32)
    requires
        old(cpu).wf(),
    ensures
        final(cpu).wf(),
        crate::cpu::keeps(*old(cpu), *final(cpu)),
        psr_post(*old(cpu), *final(cpu), instr),
{
    let use_spsr = bit_of(instr, 22);
    let is_msr = bit_of(instr, 21);
    if !is_msr {
        let rd = bits_of(instr, 12, 4) as usize;
        let value = if use_spsr {
            match cpu.current_spsr() {
                Some(p) => p.0,
                None => cpu.cpsr.0,
            }
        } else {
            cpu.cpsr.0
        };
        cpu.regs.set(rd, value);
    } else {
        let operand = msr_operand(cpu, instr);
        let mask = msr_mask(cpu, instr);
        if use_spsr {
            match cpu.cpsr.mode().spsr_index() {
                Some(idx) => {
                    let cur = cpu.spsr[idx].0;
                    cpu.spsr[idx] = Cpsr((cur & !mask) | (operand & mask));
                },
                None => {},
            }
        } else {
            let new_val = (cpu.cpsr.0 & !mask) | (operand & mask);
            let old_mode = cpu.cpsr.mode();
            cpu.cpsr = Cpsr(new_val);
            let new_mode = cpu.cpsr.mode();
            if new_mode != old_mode {
                let ghost o = cpu.regs;
                cpu.regs.switch_mode(new_mode);
                proof {
                    RegisterFile::lemma_switched(o, cpu.regs, new_mode);
                }
            } else {
                proof {
                    RegisterFile::lemma_switched_self(cpu.regs);
                }
            }
        }
    }
}

/// The MSR source: a rotated immediate or Rm.
pub open spec fn msr_source(cpu: Cpu, instr: u32) -> u32 {
    if flag(instr, 25) {
        let rot = field(instr, 8, 4) * 2;
        if rot == 0 { field(instr, 0, 8) } else { rotr(field(instr, 0, 8), rot as u32) }
    } else {
        cpu.reg(field(instr, 0, 4) as int)
    }
}

/// The bytes an MSR writes: bits 19, 18, 17, 16 select the flag, status,
/// extension and control bytes; a CPSR write in User mode keeps only the
/// flag byte.
pub open spec fn msr_field_mask(cpu: Cpu, instr: u32) -> u32 {
    let m = (if flag(instr, 19) { 0xFF00_0000u32 } else { 0 }) | (if flag(instr, 18) { 0x00FF_0000u32 } else { 0 }) | (
    if flag(instr, 17) { 0x0000_FF00u32 } else { 0 }) | (if flag(instr, 16) { 0x0000_00FFu32 } else { 0 });
    if !flag(instr, 22) && cpsr_mode(cpu.cpsr.0) == CpuMode::User {
        m & 0xFF00_0000
    } else {
        m
    }
}

/// A status word after an MSR.
pub open spec fn msr_result(cpu: Cpu, instr: u32, cur: u32) -> u32 {
    (cur & !msr_field_mask(cpu, instr)) | (msr_source(cpu, instr) & msr_field_mask(cpu, instr))
}

fn msr_operand(cpu: &Cpu, instr: u32) -> (r: u32)
    requires
        cpu.wf(),
    ensures
        r == msr_source(*cpu, instr),
{
    if bit_of(instr, 25) {
        let rot = bits_of(instr, 8, 4) * 2;
        rotate_right(bits_of(instr, 0, 8), rot)
    } else {
        cpu.regs.get(bits_of(instr, 0, 4) as usize)
    }
}

fn msr_mask(cpu: &Cpu, instr: u32) -> (r: u32)
    ensures
        r == msr_field_mask(*cpu, instr),
{
    let f: u32 = if bit_of(instr, 19) { 0xFF00_0000u32 } else { 0 };
    let x: u32 = if bit_of(instr, 18) { 0x00FF_0000u32 } else { 0 };
    let e: u32 = if bit_of(instr, 17) { 0x0000_FF00u32 } else { 0 };
    let c: u32 = if bit_of(instr, 16) { 0x0000_00FFu32 } else { 0 };
    let mask = f | x | e | c;
    if !bit_of(instr, 22) && cpu.cpsr.mode() == CpuMode::User {
        mask & 0xFF00_0000
    } else {
        mask
    }
}

/// The effect of `exec_multiply`.
pub open spec fn mul_post(o: Cpu, f: Cpu, instr: u32) -> bool {
    let rd = field(instr, 16, 4) as int;
    let p = o.reg(field(instr, 0, 4) as int) as int * o.reg(field(instr, 8, 4) as int) as int;
    let v = ((if flag(instr, 21) { p + o.reg(field(instr, 12, 4) as int) } else { p }) % 0x1_0000_0000) as u32;
    &&& only_reg(o, f, rd, v)
    &&& f.branched == o.branched
    &&& f.cpsr.0 == if flag(instr, 20) {
        with_flag(with_flag(o.cpsr.0, 31, v >= 0x8000_0000), 30, v == 0)
    } else {
        o.cpsr.0
    }
}

/// MUL and MLA: Rd = Rm * Rs (+ Rn), 32 bits; with S, N and Z are set (C is
/// unpredictable on ARMv4 and kept).
#[verifier::spinoff_prover]
fn exec_multiply(cpu: &mut Cpu, instr: u32)
    requires
        old(cpu).wf(),
    ensures
        final(cpu).wf(),
        crate::cpu::keeps(*old(cpu), *final(cpu)),
        mul_post(*old(cpu), *final(cpu), instr),
{
    let accumulate = bit_of(instr, 21);
    let set_flags = bit_of(instr, 20);
    let rd = bits_of(instr, 16, 4) as usize;
    let rn = bits_of(instr, 12, 4) as usize;
    let rs = bits_of(instr, 8, 4) as usize;
    let rm = bits_of(instr, 0, 4) as usize;
    let a = cpu.regs.get(rm);
    let b = cpu.regs.get(rs);
    let mut result = a.wrapping_mul(b);
    if accumulate {
        let c = cpu.regs.get(rn);
        proof {
            vstd::arithmetic::div_mod::lemma_add_mod_noop(a as int * b as int, c as int, 0x1_0000_0000);
            vstd::arithmetic::div_mod::lemma_small_mod(c as nat, 0x1_0000_0000);
            vstd::arithmetic::div_mod::lemma_mod_twice(a as int * b as int, 0x1_0000_0000);
        }
        result = result.wrapping_add(c);
    }
    cpu.regs.set(rd, result);
    if set_flags {
        cpu.cpsr.set_nz(result);
        proof {
            lemma_with_flag_mode(old(cpu).cpsr.0, 31, result >= 0x8000_0000);
            lemma_with_flag_mode(with_flag(old(cpu).cpsr.0, 31, result >= 0x8000_0000), 30, result == 0);
        }
    }
}

/// The 64-bit result of a long multiply of `a` and `b` (signed or
/// unsigned), plus `hi:lo` when accumulating, modulo 2^64.
pub open spec fn long_value(a: u32, b: u32, hi: u32, lo: u32, signed_mul: bool, accumulate: bool) -> int {
    let p = if signed_mul { crate::cpu::alu::signed(a) * crate::cpu::alu::signed(b) } else { a as int * b as int };
    let acc = hi as int * 0x1_0000_0000 + lo as int;
    (if accumulate { p + acc } else { p }) % 0x1_0000_0000_0000_0000
}

/// The 64-bit product of a long multiply on the registers it names.
pub open spec fn long_product(cpu: Cpu, instr: u32) -> int {
    long_value(
        cpu.reg(field(instr, 0, 4) as int),
        cpu.reg(field(instr, 8, 4) as int),
        cpu.reg(field(instr, 16, 4) as int),
        cpu.reg(field(instr, 12, 4) as int),
        flag(instr, 22),
        flag(instr, 21),
    )
}

fn long_mul(a: u32, b: u32, hi: u32, lo: u32, signed_mul: bool, accumulate: bool) -> (r: u64)
    ensures
        r == long_value(a, b, hi, lo, signed_mul, accumulate),
{
    let sa: i128 = if a >= 0x8000_0000 { a as i128 - 0x1_0000_0000 } else { a as i128 };
    let sb: i128 = if b >= 0x8000_0000 { b as i128 - 0x1_0000_0000 } else { b as i128 };
    assert(-0x4000_0000_0000_0000 <= sa * sb <= 0x4000_0000_0000_0000) by (nonlinear_arith)
        requires
            -0x8000_0000 <= sa <= 0x7FFF_FFFF,
            -0x8000_0000 <= sb <= 0x7FFF_FFFF,
    ;
    assert(0 <= (a as i128) * (b as i128) < 0x1_0000_0000 * 0x1_0000_0000) by (nonlinear_arith)
        requires
            0 <= a < 0x1_0000_0000,
            0 <= b < 0x1_0000_0000,
    ;
    let p: i128 = if signed_mul { sa * sb } else { (a as i128) * (b as i128) };
    let acc: i128 = (hi as i128) * 0x1_0000_0000 + lo as i128;
    let total: i128 = if accumulate { p + acc } else { p };
    let m: i128 = 0x1_0000_0000_0000_0000;
    let r = (total + m) % m;
    proof {
        vstd::arithmetic::div_mod::lemma_add_mod_noop(total as int, m as int, m as int);
        vstd::arithmetic::div_mod::lemma_mod_self_0(m as int);
        vstd::arithmetic::div_mod::lemma_mod_twice(total as int, m as int);
    }
    r as u64
}

/// The effect of `exec_multiply_long`.
pub open spec fn mull_post(o: Cpu, f: Cpu, instr: u32) -> bool {
    let p = long_product(o, instr);
    let lo = field(instr, 12, 4) as int;
    let hi = field(instr, 16, 4) as int;
    &&& f.reg(hi) == p / 0x1_0000_0000
    &&& hi != lo ==> f.reg(lo) == p % 0x1_0000_0000
    &&& forall|i: int| 0 <= i < 16 && i != lo && i != hi ==> f.reg(i) == o.reg(i)
    &&& f.branched == o.branched
    &&& RegisterFile::same_banks(o.regs, f.regs)
    &&& f.spsr == o.spsr
    &&& f.cpsr.0 == if flag(instr, 20) {
        with_flag(with_flag(o.cpsr.0, 31, p >= 0x8000_0000_0000_0000), 30, p == 0)
    } else {
        o.cpsr.0
    }
}

/// UMULL, UMLAL, SMULL, SMLAL: RdHi:RdLo = Rm * Rs (+ RdHi:RdLo); with S,
/// N from bit 63 and Z when the 64-bit result is 0.
#[verifier::spinoff_prover]
fn exec_multiply_long(cpu: &mut Cpu, instr: u32)
    requires
        old(cpu).wf(),
    ensures
        final(cpu).wf(),
        crate::cpu::keeps(*old(cpu), *final(cpu)),
        mull_post(*old(cpu), *final(cpu), instr),
{
    let signed_mul = bit_of(instr, 22);
    let accumulate = bit_of(instr, 21);
    let set_flags = bit_of(instr, 20);
    let rd_hi = bits_of(instr, 16, 4) as usize;
    let rd_lo = bits_of(instr, 12, 4) as usize;
    let rs = bits_of(instr, 8, 4) as usize;
    let rm = bits_of(instr, 0, 4) as usize;
    let r = long_mul(cpu.regs.get(rm), cpu.regs.get(rs), cpu.regs.get(rd_hi), cpu.regs.get(rd_lo), signed_mul, accumulate);
    let lo = (r % 0x1_0000_0000) as u32;
    let hi = (r / 0x1_0000_0000) as u32;
    cpu.regs.set(rd_lo, lo);
    cpu.regs.set(rd_hi, hi);
    if set_flags {
        cpu.cpsr.set_flag(PsrFlags::N, r >= 0x8000_0000_0000_0000);
        cpu.cpsr.set_flag(PsrFlags::Z, r == 0);
        proof {
            lemma_with_flag_mode(old(cpu).cpsr.0, 31, r >= 0x8000_0000_0000_0000);
            lemma_with_flag_mode(with_flag(old(cpu).cpsr.0, 31, r >= 0x8000_0000_0000_0000), 30, r == 0);
        }
    }
}

/// `base + off` or `base - off`, wrapping.
pub open spec fn offset_addr(base: u32, off: u32, up: bool) -> u32 {
    (if up { (base as int + off as int) % 0x1_0000_0000 } else { (base as int - off as int + 0x1_0000_0000) % 0x1_0000_0000 }) as u32
}

fn apply_offset(base: u32, off: u32, up: bool) -> (r: u32)
    ensures
        r == offset_addr(base, off, up),
{
    if up {
        base.wrapping_add(off)
    } else {
        base.wrapping_sub(off)
    }
}

/// The offset of LDR/STR: a 12-bit immediate, or Rm shifted by an immediate.
pub open spec fn sdt_offset(cpu: Cpu, instr: u32) -> u32 {
    if !flag(instr, 25) {
        field(instr, 0, 12)
    } else {
        spec_barrel_shift(
            shift_kind_of(field(instr, 5, 2)),
            cpu.reg(field(instr, 0, 4) as int),
            field(instr, 7, 5),
            bit(cpu.cpsr.0, 29),
            true,
        ).value
    }
}

/// The word an LDR at `addr` loads from the aligned word `w`: rotated right
/// by the misalignment.
pub open spec fn loaded_word(w: u32, addr: u32) -> u32 {
    if addr % 4 == 0 { w } else { rotr(w, ((addr % 4) * 8) as u32) }
}

/// A load of the aligned word or halfword holding `addr` does not read the
/// EEPROM window (whose reads shift out bits).
pub open spec fn plain_at(b: Bus, a: u32) -> bool {
    !(crate::bus::region(a) == 0xD && b.cartridge.save_type == crate::cartridge::SaveType::Eeprom)
}

/// The word-aligned address holding `addr`.
pub open spec fn align4(addr: u32) -> u32 {
    (addr - addr % 4) as u32
}

/// The halfword-aligned address holding `addr`.
pub open spec fn align2(addr: u32) -> u32 {
    (addr - addr % 2) as u32
}

/// What an LDRH at `addr` gives: the aligned halfword, rotated by 8 when
/// `addr` is odd.
pub open spec fn loaded_half(b: Bus, addr: u32) -> u32 {
    let h = b.half_at(align2(addr)) as u32;
    if addr % 2 == 1 { rotr(h, 8) } else { h }
}

/// The value an STR of register `rd` stores: the register, or PC + 12 (the
/// pipelined PC plus 4) for R15.
pub open spec fn stored_value(cpu: Cpu, rd: int) -> u32 {
    if rd == 15 { ((cpu.reg(15) as int + 4) % 0x1_0000_0000) as u32 } else { cpu.reg(rd) }
}

/// The effect of `exec_single_data_transfer`.
pub open spec fn sdt_post(o: Cpu, f: Cpu, ob: Bus, fb: Bus, instr: u32) -> bool {
    let rn = field(instr, 16, 4) as int;
    let rd = field(instr, 12, 4) as int;
    let load = flag(instr, 20);
    let byte = flag(instr, 22);
    let final_addr = offset_addr(o.reg(rn), sdt_offset(o, instr), flag(instr, 23));
    let addr = if flag(instr, 24) { final_addr } else { o.reg(rn) };
    let a = (addr - addr % 4) as u32;
    let plain = !(crate::bus::region(a) == 0xD && ob.cartridge.save_type
        == crate::cartridge::SaveType::Eeprom);
    &&& (!flag(instr, 24) || flag(instr, 21)) && !(load && rd == rn) && rn != 15 ==> f.reg(rn)
        == final_addr
    &&& load && byte ==> fb == ob
    &&& load && byte && rd != 15 ==> f.reg(rd) == ob.byte_at(addr) as u32
    &&& load && !byte && plain ==> fb == ob
    &&& load && !byte && plain && rd != 15 ==> f.reg(rd) == loaded_word(ob.word_at(a), addr)
    &&& !load && byte ==> ob.byte_written(fb, addr, (stored_value(o, rd) % 256) as u8)
    &&& !load && !byte ==> ob.word_written(fb, a, stored_value(o, rd))
    &&& sdt_regs(o, f, ob, instr)
}

/// The register side of LDR/STR: the CPSR, the SPSRs, the banks and every
/// register but the loaded Rd and the written-back Rn are kept; a load into
/// the PC or a writeback to it is an ARM branch.
pub open spec fn sdt_regs(o: Cpu, f: Cpu, ob: Bus, instr: u32) -> bool {
    let rn = field(instr, 16, 4) as int;
    let rd = field(instr, 12, 4) as int;
    let load = flag(instr, 20);
    let byte = flag(instr, 22);
    let final_addr = offset_addr(o.reg(rn), sdt_offset(o, instr), flag(instr, 23));
    let addr = if flag(instr, 24) { final_addr } else { o.reg(rn) };
    let a = (addr - addr % 4) as u32;
    let plain = !(crate::bus::region(a) == 0xD && ob.cartridge.save_type
        == crate::cartridge::SaveType::Eeprom);
    let wb = (!flag(instr, 24) || flag(instr, 21)) && !(load && rd == rn);
    &&& f.cpsr == o.cpsr
    &&& f.spsr == o.spsr
    &&& f.halted == o.halted
    &&& RegisterFile::same_banks(o.regs, f.regs)
    &&& forall|i: int| 0 <= i < 16 && !(load && i == rd) && !(wb && i == rn) ==> #[trigger] f.reg(i) == o.reg(i)
    &&& wb && rn == 15 ==> f.reg(15) == final_addr & !3u32 && f.branched
    &&& load && rd == 15 && byte ==> f.reg(15) == (ob.byte_at(addr) as u32) & !3u32 && f.branched
    &&& load && rd == 15 && !byte && plain ==> f.reg(15) == loaded_word(ob.word_at(a), addr) & !3u32 && f.branched
    &&& !(load && rd == 15) && !(wb && rn == 15) ==> f.branched == o.branched
}

/// LDR/STR (word and byte), pre- or post-indexed, up or down, with
/// writeback. An unaligned word load rotates the aligned word; STR of the PC
/// stores PC + 12.
#[verifier::rlimit(50)]
#[verifier::spinoff_prover]
fn exec_single_data_transfer(cpu: &mut Cpu, bus: &mut Bus, instr: u32)
    requires
        old(cpu).wf(),
        old(bus).wf(),
    ensures
        final(cpu).wf(),
        crate::cpu::keeps(*old(cpu), *final(cpu)),
        final(bus).wf(),
        sdt_post(*old(cpu), *final(cpu), *old(bus), *final(bus), instr),
{
    let pre = bit_of(instr, 24);
    let up = bit_of(instr, 23);
    let byte = bit_of(instr, 22);
    let writeback = bit_of(instr, 21);
    let load = bit_of(instr, 20);
    let rn = bits_of(instr, 16, 4) as usize;
    let rd = bits_of(instr, 12, 4) as usize;
    let offset = if !bit_of(instr, 25) {
        bits_of(instr, 0, 12)
    } else {
        let kind = ShiftKind::from_bits(bits_of(instr, 5, 2));
        let v = cpu.regs.get(bits_of(instr, 0, 4) as usize);
        barrel_shift(kind, v, bits_of(instr, 7, 5), cpu.cpsr.c(), true).value
    };
    let base = cpu.regs.get(rn);
    let final_addr = apply_offset(base, offset, up);
    let addr = if pre { final_addr } else { base };
    if load {
        let value = if byte {
            bus.read_u8(addr) as u32
        } else {
            let v = bus.read_u32(addr);
            rotate_right(v, (addr % 4) * 8)
        };
        write_rd(cpu, rd, value);
    } else {
        let mut value = cpu.regs.get(rd);
        if rd == 15 {
            value = value.wrapping_add(4);
        }
        if byte {
            bus.write_u8(addr, (value % 256) as u8);
        } else {
            bus.write_u32(addr, value);
        }
    }
    if (!pre || writeback) && !(load && rd == rn) {
        if rn == 15 {
            cpu.set_pc_arm(final_addr);
        } else {
            cpu.regs.set(rn, final_addr);
        }
    }
}

/// A byte sign-extended to 32 bits.
pub open spec fn sext8(b: u8) -> u32 {
    if b >= 0x80 { (b as int + 0xFFFF_FF00) as u32 } else { b as u32 }
}

/// A halfword sign-extended to 32 bits.
pub open spec fn sext16(h: u16) -> u32 {
    if h >= 0x8000 { (h as int + 0xFFFF_0000) as u32 } else { h as u32 }
}

fn sign_extend8(b: u8) -> (r: u32)
    ensures
        r == sext8(b),
{
    if b >= 0x80 {
        b as u32 + 0xFFFF_FF00
    } else {
        b as u32
    }
}

fn sign_extend16(h: u16) -> (r: u32)
    ensures
        r == sext16(h),
{
    if h >= 0x8000 {
        h as u32 + 0xFFFF_0000
    } else {
        h as u32
    }
}

/// The effect of `exec_halfword_transfer`.
pub open spec fn hwt_post(o: Cpu, f: Cpu, ob: Bus, fb: Bus, instr: u32) -> bool {
    let rn = field(instr, 16, 4) as int;
    let rd = field(instr, 12, 4) as int;
    let load = flag(instr, 20);
    let sh = field(instr, 5, 2);
    let off = if flag(instr, 22) {
        field(instr, 8, 4) * 16 + field(instr, 0, 4)
    } else {
        o.reg(field(instr, 0, 4) as int) as int
    };
    let final_addr = offset_addr(o.reg(rn), off as u32, flag(instr, 23));
    let addr = if flag(instr, 24) { final_addr } else { o.reg(rn) };
    &&& (!flag(instr, 24) || flag(instr, 21)) && !(load && rd == rn) ==> f.reg(rn) == final_addr
    &&& load && sh == 1 && plain_at(ob, align2(addr)) ==> fb == ob && (rd != 15 ==> f.reg(rd) == loaded_half(ob, addr))
    &&& load && (sh == 2 || (sh == 3 && addr % 2 == 1)) ==> fb == ob && (rd != 15 ==> f.reg(rd) == sext8(
        ob.byte_at(addr),
    ))
    &&& load && sh == 3 && addr % 2 == 0 && plain_at(ob, addr) ==> fb == ob && (rd != 15 ==> f.reg(rd) == sext16(
        ob.half_at(addr),
    ))
    &&& !load && sh == 1 ==> ob.half_written(fb, align2(addr), (o.reg(rd) % 0x1_0000) as u16)
    &&& !load && sh != 1 ==> fb == ob
    &&& f.cpsr == o.cpsr
    &&& f.spsr == o.spsr
    &&& RegisterFile::same_banks(o.regs, f.regs)
    &&& forall|i: int|
        0 <= i < 16 && !(load && i == rd) && !((!flag(instr, 24) || flag(instr, 21)) && !(load && rd == rn) && i
            == rn) ==> #[trigger] f.reg(i) == o.reg(i)
    &&& f.branched == (o.branched || (load && rd == 15))
}

/// LDRH/STRH, LDRSB, LDRSH. An odd LDRH rotates the halfword by 8; an odd
/// LDRSH loads a signed byte.
#[verifier::rlimit(50)]
#[verifier::spinoff_prover]
fn exec_halfword_transfer(cpu: &mut Cpu, bus: &mut Bus, instr: u32)
    requires
        old(cpu).wf(),
        old(bus).wf(),
    ensures
        final(cpu).wf(),
        crate::cpu::keeps(*old(cpu), *final(cpu)),
        final(bus).wf(),
        hwt_post(*old(cpu), *final(cpu), *old(bus), *final(bus), instr),
{
    let pre = bit_of(instr, 24);
    let up = bit_of(instr, 23);
    let imm = bit_of(instr, 22);
    let writeback = bit_of(instr, 21);
    let load = bit_of(instr, 20);
    let rn = bits_of(instr, 16, 4) as usize;
    let rd = bits_of(instr, 12, 4) as usize;
    let sh = bits_of(instr, 5, 2);
    let offset = if imm {
        bits_of(instr, 8, 4) * 16 + bits_of(instr, 0, 4)
    } else {
        cpu.regs.get(bits_of(instr, 0, 4) as usize)
    };
    let base = cpu.regs.get(rn);
    let final_addr = apply_offset(base, offset, up);
    let addr = if pre { final_addr } else { base };
    if load {
        let value: u32 = if sh == 1 {
            let v = bus.read_u16(addr) as u32;
            if addr % 2 == 1 { rotate_right(v, 8) } else { v }
        } else if sh == 2 {
            sign_extend8(bus.read_u8(addr))
        } else if addr % 2 == 1 {
            sign_extend8(bus.read_u8(addr))
        } else {
            sign_extend16(bus.read_u16(addr))
        };
        write_rd(cpu, rd, value);
    } else if sh == 1 {
        let v = cpu.regs.get(rd);
        bus.write_u16(addr, (v % 0x1_0000) as u16);
    }
    if (!pre || writeback) && !(load && rd == rn) {
        cpu.regs.set(rn, final_addr);
    }
}

/// The effect of `exec_swap`.
pub open spec fn swp_post(o: Cpu, f: Cpu, ob: Bus, fb: Bus, instr: u32) -> bool {
    let addr = o.reg(field(instr, 16, 4) as int);
    let rd = field(instr, 12, 4) as int;
    let src = o.reg(field(instr, 0, 4) as int);
    &&& flag(instr, 22) ==> ob.byte_written(fb, addr, (src % 256) as u8) && (rd != 15 ==> only_reg(
        o,
        f,
        rd,
        ob.byte_at(addr) as u32,
    ))
    &&& !flag(instr, 22) && plain_at(ob, align4(addr)) ==> ob.word_written(fb, align4(addr), src) && (rd != 15
        ==> only_reg(o, f, rd, loaded_word(ob.word_at(align4(addr)), addr)))
    &&& f.cpsr == o.cpsr
    &&& rd != 15 ==> f.branched == o.branched
    &&& rd == 15 && flag(instr, 22) ==> only_reg(o, f, 15, (ob.byte_at(addr) as u32) & !3u32) && f.branched
    &&& rd == 15 && !flag(instr, 22) && plain_at(ob, align4(addr)) ==> only_reg(
        o,
        f,
        15,
        loaded_word(ob.word_at(align4(addr)), addr) & !3u32,
    ) && f.branched
}

/// SWP and SWPB: Rd takes the old memory value and memory takes Rm, read
/// before the write (so Rd may equal Rm).
#[verifier::rlimit(50)]
#[verifier::spinoff_prover]
fn exec_swap(cpu: &mut Cpu, bus: &mut Bus, instr: u32)
    requires
        old(cpu).wf(),
        old(bus).wf(),
    ensures
        final(cpu).wf(),
        crate::cpu::keeps(*old(cpu), *final(cpu)),
        final(bus).wf(),
        swp_post(*old(cpu), *final(cpu), *old(bus), *final(bus), instr),
{
    let byte = bit_of(instr, 22);
    let rn = bits_of(instr, 16, 4) as usize;
    let rd = bits_of(instr, 12, 4) as usize;
    let rm = bits_of(instr, 0, 4) as usize;
    let addr = cpu.regs.get(rn);
    let src = cpu.regs.get(rm);
    if byte {
        let old_val = bus.read_u8(addr) as u32;
        bus.write_u8(addr, (src % 256) as u8);
        write_rd(cpu, rd, old_val);
    } else {
        let v = bus.read_u32(addr);
        let old_val = rotate_right(v, (addr % 4) * 8);
        bus.write_u32(addr, src);
        write_rd(cpu, rd, old_val);
    }
}

/// Number of registers in a 16-bit list.
pub open spec fn list_count(list: u32) -> int
    decreases list,
{
    if list == 0 { 0 } else { (list % 2) as int + list_count(list / 2) }
}

pub(crate) fn count_list(list: u32) -> (r: u32)
    requires
        list < 0x1_0000,
    ensures
        r == list_count(list),
        r <= 16,
{
    let mut n: u32 = 0;
    let mut l = list;
    let mut k: u32 = 0;
    proof {
        vstd::arithmetic::power2::lemma2_to64();
    }
    while l > 0
        invariant
            n + list_count(l) == list_count(list),
            l < vstd::arithmetic::power2::pow2((16 - k) as nat),
            k <= 16,
            n <= k,
        decreases l,
    {
        proof {
            vstd::arithmetic::power2::lemma2_to64();
            vstd::arithmetic::power2::lemma_pow2_unfold((16 - k) as nat);
            if k == 16 {
                assert(l < 1);
            }
        }
        n = n + l % 2;
        l = l / 2;
        k = k + 1;
    }
    n
}

/// How many registers of `list` come before register `k`.
pub open spec fn bits_below(list: u32, k: int) -> int
    decreases k,
{
    if k <= 0 { 0 } else { bits_below(list, k - 1) + if flag(list, (k - 1) as nat) { 1int } else { 0 } } 
}

/// The lowest address of a block transfer of `n` registers from `base`.
pub open spec fn block_start(base: u32, n: int, up: bool, pre: bool) -> u32 {
    let low = if up { base } else { offset_addr(base, (n * 4) as u32, false) };
    if up == pre { ((low as int + 4) % 0x1_0000_0000) as u32 } else { low }
}

/// The address register `k` of `list` is transferred at.
pub open spec fn block_slot(start: u32, list: u32, k: int) -> u32 {
    ((start as int + 4 * bits_below(list, k)) % 0x1_0000_0000) as u32
}

/// No register of `list` is loaded from the EEPROM window.
pub open spec fn block_plain(bus: Bus, start: u32, list: u32) -> bool {
    forall|k: int|
        0 <= k < 16 && #[trigger] flag(list, k as nat) ==> !(crate::bus::region(
            (block_slot(start, list, k) - block_slot(start, list, k) % 4) as u32,
        ) == 0xD && bus.cartridge.save_type == crate::cartridge::SaveType::Eeprom)
}

fn block_start_exec(base: u32, n: u32, up: bool, pre: bool) -> (r: u32)
    requires
        n <= 16,
    ensures
        r == block_start(base, n as int, up, pre),
{
    let low = if up { base } else { apply_offset(base, n * 4, false) };
    if up == pre { low.wrapping_add(4) } else { low }
}

/// The word an STM stores for register `i`: `store_rn` in place of the base
/// register when given, PC + 12 for R15, else the register.
pub open spec fn stored_reg(o: Cpu, i: int, rn: int, store_rn: Option<u32>) -> u32 {
    if i == rn && store_rn is Some {
        store_rn.unwrap()
    } else if i == 15 {
        ((o.reg(15) as int + 4) % 0x1_0000_0000) as u32
    } else {
        o.reg(i)
    }
}

/// Register `i`'s turn of an STM: stored at its slot when listed.
pub open spec fn block_store(b: Bus, f: Bus, o: Cpu, list: u32, start: u32, i: int, rn: int, store_rn: Option<u32>) -> bool {
    if flag(list, i as nat) {
        let a = block_slot(start, list, i);
        b.word_written(f, (a - a % 4) as u32, stored_reg(o, i, rn, store_rn))
    } else {
        f == b
    }
}

/// `t` runs through the sixteen turns of an STM of `list` from `start`.
pub open spec fn block_stores(t: Seq<Bus>, o: Cpu, list: u32, start: u32, rn: int, store_rn: Option<u32>) -> bool {
    &&& t.len() == 17
    &&& forall|i: int| 0 <= i < 16 ==> #[trigger] block_store(t[i], t[i + 1], o, list, start, i, rn, store_rn)
}

/// The CPU side kept by a block transfer step: status, SPSRs, banks,
/// counters and halt state.
pub open spec fn block_frame(o: Cpu, f: Cpu) -> bool {
    &&& f.cpsr == o.cpsr
    &&& f.spsr == o.spsr
    &&& RegisterFile::same_banks(o.regs, f.regs)
    &&& crate::cpu::keeps(o, f)
}

/// Transfers register `i` at `addr`: a load writes it (R15 as a branch); a
/// store writes it (R15 as PC + 12), or `store_rn` in place of the base
/// register's value.
#[verifier::rlimit(50)]
#[verifier::spinoff_prover]
fn transfer_reg(cpu: &mut Cpu, bus: &mut Bus, i: usize, addr: u32, load: bool, rn: usize, store_rn: Option<u32>)
    requires
        old(cpu).wf(),
        old(bus).wf(),
        i < 16,
    ensures
        final(cpu).wf(),
        final(bus).wf(),
        block_frame(*old(cpu), *final(cpu)),
        ({
            let a = (addr - addr % 4) as u32;
            load && !(crate::bus::region(a) == 0xD && old(bus).cartridge.save_type == crate::cartridge::SaveType::Eeprom)
                ==> *final(bus) == *old(bus) && final(cpu).reg(i as int) == if i == 15 {
                    old(bus).word_at(a) & !3u32
                } else {
                    old(bus).word_at(a)
                }
        }),
        load ==> forall|k: int| 0 <= k < 16 && k != i ==> #[trigger] final(cpu).reg(k) == old(cpu).reg(k),
        load ==> final(cpu).branched == (old(cpu).branched || i == 15),
        !load ==> *final(cpu) == *old(cpu),
        !load ==> old(bus).word_written(
            *final(bus),
            (addr - addr % 4) as u32,
            stored_reg(*old(cpu), i as int, rn as int, store_rn),
        ),
{
    if load {
        let v = bus.read_u32(addr);
        if i == 15 {
            cpu.set_pc_arm(v);
        } else {
            cpu.regs.set(i, v);
        }
    } else {
        let mut v = cpu.regs.get(i);
        if i == 15 {
            v = v.wrapping_add(4);
        }
        if i == rn {
            match store_rn {
                Some(b) => {
                    v = b;
                },
                None => {},
            }
        }
        bus.write_u32(addr, v);
    }
}

/// Transfers the registers of `list` in ascending order at consecutive
/// words from `start`.
#[verifier::rlimit(80)]
#[verifier::spinoff_prover]
pub(crate) fn transfer_list(cpu: &mut Cpu, bus: &mut Bus, list: u32, start: u32, load: bool, rn: usize, store_rn: Option<u32>)
    requires
        old(cpu).wf(),
        old(bus).wf(),
        rn < 16,
    ensures
        final(cpu).wf(),
        final(bus).wf(),
        block_frame(*old(cpu), *final(cpu)),
        load && block_plain(*old(bus), start, list) ==> {
            &&& *final(bus) == *old(bus)
            &&& forall|k: int|
                0 <= k < 16 && #[trigger] flag(list, k as nat) ==> final(cpu).reg(k) == block_loaded(
                    *old(bus),
                    start,
                    list,
                    k,
                )
        },
        load ==> forall|k: int| 0 <= k < 16 && !flag(list, k as nat) ==> #[trigger] final(cpu).reg(k) == old(cpu).reg(k),
        load ==> final(cpu).branched == (old(cpu).branched || flag(list, 15)),
        !load ==> *final(cpu) == *old(cpu),
        !load ==> exists|t: Seq<Bus>|
            #[trigger] block_stores(t, *old(cpu), list, start, rn as int, store_rn) && t[0] == *old(bus) && t[16]
                == *final(bus),
{
    let ghost plain = block_plain(*old(bus), start, list);
    let ghost mut t: Seq<Bus> = seq![*bus];
    let mut addr = start;
    let mut i: usize = 0;
    while i < 16
        invariant
            i <= 16,
            rn < 16,
            cpu.wf(),
            bus.wf(),
            addr == block_slot(start, list, i as int),
            plain == block_plain(*old(bus), start, list),
            block_frame(*old(cpu), *cpu),
            load && plain ==> *bus == *old(bus),
            load && plain ==> forall|k: int|
                0 <= k < i && #[trigger] flag(list, k as nat) ==> cpu.reg(k) == block_loaded(*old(bus), start, list, k),
            load ==> forall|k: int|
                0 <= k < 16 && !(k < i && flag(list, k as nat)) ==> #[trigger] cpu.reg(k) == old(cpu).reg(k),
            load ==> cpu.branched == (old(cpu).branched || (i > 15 && flag(list, 15))),
            !load ==> *cpu == *old(cpu),
            !load ==> t.len() == i + 1 && t[0] == *old(bus) && t[i as int] == *bus && forall|j: int|
                0 <= j < i ==> #[trigger] block_store(t[j], t[j + 1], *old(cpu), list, start, j, rn as int, store_rn),
        decreases 16 - i,
    {
        let ghost before = *cpu;
        let ghost b0 = *bus;
        if bit_of(list, i as u32) {
            transfer_reg(cpu, bus, i, addr, load, rn, store_rn);
            addr = addr.wrapping_add(4);
        }
        proof {
            assert(bits_below(list, i as int + 1) == bits_below(list, i as int) + if flag(list, i as nat) { 1int } else { 0 });
            if !load {
                let t0 = t;
                t = t.push(*bus);
                assert(block_store(b0, *bus, *old(cpu), list, start, i as int, rn as int, store_rn));
                assert forall|j: int| 0 <= j < i + 1 implies #[trigger] block_store(
                    t[j],
                    t[j + 1],
                    *old(cpu),
                    list,
                    start,
                    j,
                    rn as int,
                    store_rn,
                ) by {
                    if j < i {
                        assert(t[j] == t0[j] && t[j + 1] == t0[j + 1]);
                    }
                }
            }
        }
        i = i + 1;
    }
    proof {
        if !load {
            assert(block_stores(t, *old(cpu), list, start, rn as int, store_rn));
        }
    }
}

/// The word an LDM loads for register `k` (R15 aligned as a branch target).
pub open spec fn block_loaded(b: Bus, start: u32, list: u32, k: int) -> u32 {
    let a = block_slot(start, list, k);
    let w = b.word_at((a - a % 4) as u32);
    if k == 15 {
        w & !3u32
    } else {
        w
    }
}

/// Bit 15 of a 16-bit register list is set exactly when the list is at
/// least 0x8000.
proof fn lemma_top_of_list(list: u32)
    requires
        list < 0x1_0000,
    ensures
        flag(list, 15) == (list >= 0x8000),
{
    vstd::arithmetic::power2::lemma2_to64();
}

/// The effect of `exec_block_data_transfer`.
pub open spec fn bdt_post(o: Cpu, f: Cpu, ob: Bus, fb: Bus, instr: u32) -> bool {
    let rn = field(instr, 16, 4) as int;
    let raw = field(instr, 0, 16);
    let list: u32 = if raw == 0 { 0x8000 } else { raw };
    let n = if raw == 0 { 16 } else { list_count(raw) };
    let load = flag(instr, 20);
    let final_addr = offset_addr(o.reg(rn), (n * 4) as u32, flag(instr, 23));
    let start = block_start(o.reg(rn), n, flag(instr, 23), flag(instr, 24));
    let restore = load && flag(instr, 22) && flag(list, 15);
    let wb = flag(instr, 21) && !(load && raw != 0 && flag(list, rn as nat)) && !(restore && rn == 15);
    let store_rn: Option<u32> = if flag(instr, 21) && (list as int) % (vstd::arithmetic::power2::pow2(rn as nat) as int) != 0 {
        Some(final_addr)
    } else {
        None
    };
    &&& wb && rn != 15 && (!restore || rn < 8) ==> f.reg(rn) == final_addr
    &&& wb && rn == 15 ==> f.reg(15) == final_addr & !3u32
    &&& f.branched == (o.branched || (load && flag(list, 15)) || (wb && rn == 15))
    &&& load && block_plain(ob, start, list) ==> fb == ob
    &&& load && !restore && block_plain(ob, start, list) ==> forall|k: int|
        0 <= k < 16 && #[trigger] flag(list, k as nat) && !(wb && k == rn) ==> f.reg(k) == block_loaded(ob, start, list, k)
    &&& load && restore && block_plain(ob, start, list) ==> forall|k: int|
        (0 <= k < 8 || k == 15) && #[trigger] flag(list, k as nat) && !(wb && k == rn) ==> f.reg(k) == block_loaded(
            ob,
            start,
            list,
            k,
        )
    &&& !restore ==> forall|k: int|
        0 <= k < 16 && !(load && flag(list, k as nat)) && !(wb && k == rn) ==> #[trigger] f.reg(k) == o.reg(k)
    &&& !restore ==> block_frame(o, f)
    &&& restore ==> crate::cpu::keeps(o, f) && f.spsr == o.spsr && match spsr_slot(cpsr_mode(o.cpsr.0)) {
        Some(i) => f.cpsr == o.spsr[i as int],
        None => f.cpsr == o.cpsr,
    }
    &&& !load ==> stm_done(o, ob, fb, list, start, rn, store_rn)
}

/// The memory side of an STM of `list` from `start`: a run of its sixteen
/// register turns from `ob` to `fb`.
pub open spec fn stm_done(o: Cpu, ob: Bus, fb: Bus, list: u32, start: u32, rn: int, store_rn: Option<u32>) -> bool {
    exists|t: Seq<Bus>| #[trigger] block_stores(t, o, list, start, rn, store_rn) && t[0] == ob && t[16] == fb
}

/// LDM/STM. Registers go in ascending order to ascending addresses; the
/// lowest address is the base (IA), base + 4 (IB), base - 4n + 4 (DB) or
/// base - 4n (DA). An empty list transfers R15 and moves the base by 0x40.
/// STM with the base in the list, but not as its lowest register, stores the
/// written-back base. LDM with S and R15 restores the CPSR from the SPSR.
#[verifier::rlimit(100)]
#[verifier::spinoff_prover]
fn exec_block_data_transfer(cpu: &mut Cpu, bus: &mut Bus, instr: u32)
    requires
        old(cpu).wf(),
        old(bus).wf(),
    ensures
        final(cpu).wf(),
        crate::cpu::keeps(*old(cpu), *final(cpu)),
        final(bus).wf(),
        bdt_post(*old(cpu), *final(cpu), *old(bus), *final(bus), instr),
{
    let pre = bit_of(instr, 24);
    let up = bit_of(instr, 23);
    let psr_or_user = bit_of(instr, 22);
    let writeback = bit_of(instr, 21);
    let load = bit_of(instr, 20);
    let rn = bits_of(instr, 16, 4) as usize;
    let raw_list = bits_of(instr, 0, 16);
    let empty = raw_list == 0;
    let list = if empty { 0x8000u32 } else { raw_list };
    let count = if empty { 16 } else { count_list(raw_list) };
    let base = cpu.regs.get(rn);
    let final_addr = apply_offset(base, count * 4, up);
    let addr = block_start_exec(base, count, up, pre);
    let restore_cpsr = load && psr_or_user && list >= 0x8000;
    proof {
        lemma_top_of_list(list);
    }
    let lowest_is_rn = list % pow2_exec(rn as u32) == 0;
    let store_rn: Option<u32> = if writeback && !lowest_is_rn { Some(final_addr) } else { None };
    transfer_list(cpu, bus, list, addr, load, rn, store_rn);
    let ghost c1 = *cpu;
    let wb = writeback && !(load && !empty && bit_of(list, rn as u32)) && !(restore_cpsr && rn == 15);
    if wb {
        if rn == 15 {
            cpu.set_pc_arm(final_addr);
        } else {
            cpu.regs.set(rn, final_addr);
        }
    }
    proof {
        assert forall|k: int|
            0 <= k < 16 && !(load && flag(list, k as nat)) && !(wb && k == rn) implies #[trigger] cpu.reg(k) == old(
            cpu,
        ).reg(k) by {
            assert(cpu.reg(k) == c1.reg(k));
        }
    }
    if restore_cpsr {
        match cpu.cpsr.mode().spsr_index() {
            Some(idx) => {
                cpu.cpsr = cpu.spsr[idx];
                let m = cpu.cpsr.mode();
                let ghost o = cpu.regs;
                cpu.regs.switch_mode(m);
                proof {
                    RegisterFile::lemma_switched(o, cpu.regs, m);
                }
            },
            None => {},
        }
    }
    proof {
        let o = *old(cpu);
        let f = *cpu;
        let ob = *old(bus);
        let fb = *bus;
        let rnn = rn as int;
        let n = if raw_list == 0 { 16 } else { list_count(raw_list) };
        let start = block_start(o.reg(rnn), n, flag(instr, 23), flag(instr, 24));
        let restore = load && flag(instr, 22) && flag(list, 15);
        assert(restore == restore_cpsr);
        assert(start == addr);
        assert(final_addr == offset_addr(o.reg(rnn), (n * 4) as u32, flag(instr, 23)));
        assert(f.branched == (o.branched || (load && flag(list, 15)) || (wb && rnn == 15)));
        assert(load && block_plain(ob, start, list) ==> fb == ob);
        assert(!restore ==> block_frame(o, f));
        let srn: Option<u32> = if flag(instr, 21) && (list as int) % (vstd::arithmetic::power2::pow2(rnn as nat) as int)
            != 0 {
            Some(final_addr)
        } else {
            None
        };
        assert(srn == store_rn);
        assert(!load ==> stm_done(o, ob, fb, list, start, rnn, srn));
        assert(wb && rnn != 15 && (!restore || rnn < 8) ==> f.reg(rnn) == final_addr);
        assert(wb && rnn == 15 ==> f.reg(15) == final_addr & !3u32);
        assert(load && !restore && block_plain(ob, start, list) ==> forall|k: int|
            0 <= k < 16 && #[trigger] flag(list, k as nat) && !(wb && k == rnn) ==> f.reg(k) == block_loaded(
                ob,
                start,
                list,
                k,
            ));
        assert(load && restore && block_plain(ob, start, list) ==> forall|k: int|
            (0 <= k < 8 || k == 15) && #[trigger] flag(list, k as nat) && !(wb && k == rnn) ==> f.reg(k)
                == block_loaded(ob, start, list, k));
        assert(restore ==> crate::cpu::keeps(o, f) && f.spsr == o.spsr && match spsr_slot(cpsr_mode(o.cpsr.0)) {
            Some(i) => f.cpsr == o.spsr[i as int],
            None => f.cpsr == o.cpsr,
        });
        assert(!restore ==> forall|k: int|
            0 <= k < 16 && !(load && flag(list, k as nat)) && !(wb && k == rnn) ==> #[trigger] f.reg(k) == o.reg(k));
        assert(list == (if field(instr, 0, 16) == 0 { 0x8000u32 } else { field(instr, 0, 16) }));
        assert(rnn == field(instr, 16, 4) as int);
        assert(raw_list == field(instr, 0, 16));
        assert(wb == (flag(instr, 21) && !(load && field(instr, 0, 16) != 0 && flag(list, rnn as nat)) && !(restore
            && rnn == 15)));
        assert(load == flag(instr, 20));
        assert(bdt_post(o, f, ob, fb, instr));
    }
}

/// The effect of `exec_swi`.
pub open spec fn swi_post(o: Cpu, f: Cpu, ob: Bus, fb: Bus, instr: u32) -> bool {
    &&& (!ob.hle_bios ==> {
            &&& f.reg(15) == 8
            &&& f.reg(14) == ((o.reg(15) as int - 4 + 0x1_0000_0000) % 0x1_0000_0000)
            &&& cpsr_mode(f.cpsr.0) == CpuMode::Supervisor
            &&& f.spsr@ == o.spsr@.update(2, o.cpsr)
            &&& fb == ob
        })
    &&& (ob.hle_bios ==> crate::cpu::bios::bios_done(o, f, ob, fb, field(instr, 16, 8) as u8))
}

/// SWI: with the built-in BIOS the service runs at once and execution goes
/// on with the next instruction; otherwise Supervisor mode is entered at
/// vector 0x08 with LR = the next instruction.
#[verifier::spinoff_prover]
fn exec_swi(cpu: &mut Cpu, bus: &mut Bus, instr: u32)
    requires
        old(cpu).wf(),
        old(bus).wf(),
    ensures
        final(cpu).wf(),
        final(bus).wf(),
        swi_post(*old(cpu), *final(cpu), *old(bus), *final(bus), instr),
{
    if bus.hle_bios {
        let comment = bits_of(instr, 16, 8) as u8;
        crate::cpu::bios::dispatch(cpu, bus, comment);
        return;
    }
    let return_addr = cpu.regs.pc().wrapping_sub(4);
    cpu.enter_exception(CpuMode::Supervisor, 8, return_addr);
    assert(8u32 & !3u32 == 8) by (bit_vector);
}

/// Bit 31 of a word tells whether it is at least 2^31.
pub proof fn lemma_top_bit(v: u32)
    ensures
        bit(v, 31) == (v >= 0x8000_0000),
{
    assert(((v >> 31u32) & 1u32 != 0) == (v >= 0x8000_0000)) by (bit_vector);
}

/// Setting a flag at bit 5 or above keeps the mode field.
pub proof fn lemma_with_flag_mode(w: u32, i: u32, b: bool)
    requires
        5 <= i < 32,
    ensures
        with_flag(w, i, b) % 32 == w % 32,
        cpsr_mode(with_flag(w, i, b)) == cpsr_mode(w),
{
    assert((w | (1u32 << i)) % 32 == w % 32) by (bit_vector)
        requires
            5 <= i < 32,
    ;
    assert((w & !(1u32 << i)) % 32 == w % 32) by (bit_vector)
        requires
            5 <= i < 32,
    ;
}

/// The flag updates of a data-processing instruction keep the mode.
proof fn lemma_dp_flags_mode(w: u32, v: u32, c: bool, o: bool, arith: bool, f: u32)
    requires
        f == if arith {
            with_flag(with_flag(with_flag(with_flag(w, 31, v >= 0x8000_0000), 30, v == 0), 29, c), 28, o)
        } else {
            with_flag(with_flag(with_flag(w, 31, v >= 0x8000_0000), 30, v == 0), 29, c)
        },
    ensures
        cpsr_mode(f) == cpsr_mode(w),
{
    let w1 = with_flag(w, 31, v >= 0x8000_0000);
    let w2 = with_flag(w1, 30, v == 0);
    let w3 = with_flag(w2, 29, c);
    lemma_with_flag_mode(w, 31, v >= 0x8000_0000);
    lemma_with_flag_mode(w1, 30, v == 0);
    lemma_with_flag_mode(w2, 29, c);
    lemma_with_flag_mode(w3, 28, o);
}

} // verus!
