//! THUMB (16-bit) instruction decoder and executor: the nineteen formats,
//! dispatched by the high bits and refined by further bits.
use vstd::prelude::*;
use crate::bus::Bus;
use crate::cpu::alu::{
    adc_with_flags, add_with_flags, barrel_shift, bit, rotate_right, rotr, sbc_with_flags, shift_kind_of, spec_adc,
    spec_barrel_shift, spec_sub, sub_with_flags, ArithOut, ShiftKind,
};
use crate::cpu::arm::{align2, align4, bit_of, bits_below, bits_of, block_slot, field, flag, list_count, lemma_with_flag_mode, loaded_half, only_reg, plain_at};
use crate::cpu::condition::{condition_of, holds, Condition};
use crate::cpu::psr::{cpsr_mode, with_flag, CpuMode, PsrFlags};
use crate::cpu::registers::RegisterFile;
use crate::cpu::Cpu;

verus! {

/// The nineteen THUMB instruction formats.
#[derive(Debug, Clone, Copy, PartialEq, Eq, Structural)]
pub enum ThumbFormat {
    /// LSL/LSR/ASR by an immediate.
    MoveShifted,
    /// ADD/SUB with a register or a 3-bit immediate.
    AddSub,
    /// MOV/CMP/ADD/SUB with an 8-bit immediate.
    ImmOp,
    /// The register-register ALU operations.
    Alu,
    /// Operations on high registers and BX.
    HiReg,
    /// PC-relative load.
    PcLoad,
    /// Load/store with a register offset.
    LoadStoreReg,
    /// Sign-extended byte/halfword load and halfword store.
    LoadStoreSignExt,
    /// Load/store with a 5-bit immediate offset.
    LoadStoreImm,
    /// Halfword load/store with an immediate offset.
    LoadStoreHalf,
    /// SP-relative load/store.
    SpLoadStore,
    /// ADD Rd, PC/SP, #imm.
    LoadAddress,
    /// ADD SP, #imm.
    AddSp,
    /// PUSH/POP.
    PushPop,
    /// LDMIA/STMIA.
    MultiLoadStore,
    /// Conditional branch.
    CondBranch,
    /// Software interrupt.
    Swi,
    /// Unconditional branch.
    Branch,
    /// Long branch with link (either half).
    LongBranchLink,
}

/// The format of a THUMB instruction, from its high bits: bits 15-13 pick a
/// group, and further bits refine it.
pub open spec fn format_of(i: u32) -> ThumbFormat {
    let top = field(i, 13, 3);
    if top == 0 {
        if field(i, 11, 2) == 3 { ThumbFormat::AddSub } else { ThumbFormat::MoveShifted }
    } else if top == 1 {
        ThumbFormat::ImmOp
    } else if top == 2 {
        if field(i, 10, 6) == 0x10 {
            ThumbFormat::Alu
        } else if field(i, 10, 6) == 0x11 {
            ThumbFormat::HiReg
        } else if field(i, 11, 5) == 0x09 {
            ThumbFormat::PcLoad
        } else if flag(i, 9) {
            ThumbFormat::LoadStoreSignExt
        } else {
            ThumbFormat::LoadStoreReg
        }
    } else if top == 3 {
        ThumbFormat::LoadStoreImm
    } else if top == 4 {
        if !flag(i, 12) { ThumbFormat::LoadStoreHalf } else { ThumbFormat::SpLoadStore }
    } else if top == 5 {
        if !flag(i, 12) {
            ThumbFormat::LoadAddress
        } else if field(i, 8, 4) == 0 {
            ThumbFormat::AddSp
        } else {
            ThumbFormat::PushPop
        }
    } else if top == 6 {
        if !flag(i, 12) {
            ThumbFormat::MultiLoadStore
        } else if field(i, 8, 4) == 0xF {
            ThumbFormat::Swi
        } else {
            ThumbFormat::CondBranch
        }
    } else {
        if !flag(i, 12) { ThumbFormat::Branch } else { ThumbFormat::LongBranchLink }
    }
}

/// Decodes a THUMB instruction to its format; a function of the bits only.
pub fn decode(instr: u16) -> (r: ThumbFormat)
    ensures
        r == format_of(instr as u32),
{
    let i = instr as u32;
    let top = bits_of(i, 13, 3);
    if top == 0 {
        if bits_of(i, 11, 2) == 3 { ThumbFormat::AddSub } else { ThumbFormat::MoveShifted }
    } else if top == 1 {
        ThumbFormat::ImmOp
    } else if top == 2 {
        let b10 = bits_of(i, 10, 6);
        if b10 == 0x10 {
            ThumbFormat::Alu
        } else if b10 == 0x11 {
            ThumbFormat::HiReg
        } else if bits_of(i, 11, 5) == 0x09 {
            ThumbFormat::PcLoad
        } else if bit_of(i, 9) {
            ThumbFormat::LoadStoreSignExt
        } else {
            ThumbFormat::LoadStoreReg
        }
    } else if top == 3 {
        ThumbFormat::LoadStoreImm
    } else if top == 4 {
        if !bit_of(i, 12) { ThumbFormat::LoadStoreHalf } else { ThumbFormat::SpLoadStore }
    } else if top == 5 {
        if !bit_of(i, 12) {
            ThumbFormat::LoadAddress
        } else if bits_of(i, 8, 4) == 0 {
            ThumbFormat::AddSp
        } else {
            ThumbFormat::PushPop
        }
    } else if top == 6 {
        if !bit_of(i, 12) {
            ThumbFormat::MultiLoadStore
        } else if bits_of(i, 8, 4) == 0xF {
            ThumbFormat::Swi
        } else {
            ThumbFormat::CondBranch
        }
    } else {
        if !bit_of(i, 12) { ThumbFormat::Branch } else { ThumbFormat::LongBranchLink }
    }
}

/// The effect of `fmt1_move_shifted` on the CPU.
pub open spec fn fmt1_post(o: Cpu, f: Cpu, i: u32) -> bool {
    let out = spec_barrel_shift(
        shift_kind_of(field(i, 11, 2)),
        o.reg(field(i, 3, 3) as int),
        field(i, 6, 5),
        bit(o.cpsr.0, 29),
        true,
    );
    &&& only_reg(o, f, field(i, 0, 3) as int, out.value)
    &&& f.cpsr.0 == with_flag(
        with_flag(with_flag(o.cpsr.0, 31, out.value >= 0x8000_0000), 30, out.value == 0),
        29,
        out.carry,
    )
}

/// The effect of `fmt2_add_sub` on the CPU.
pub open spec fn fmt2_post(o: Cpu, f: Cpu, i: u32) -> bool {
    let b = if flag(i, 10) { field(i, 6, 3) } else { o.reg(field(i, 6, 3) as int) };
    let a = o.reg(field(i, 3, 3) as int);
    let res = if flag(i, 9) { spec_sub(a, b) } else { spec_adc(a, b, false) };
    &&& only_reg(o, f, field(i, 0, 3) as int, res.value)
    &&& f.cpsr.0 == with_flag(
        with_flag(with_flag(with_flag(o.cpsr.0, 31, res.value >= 0x8000_0000), 30, res.value == 0), 29, res.carry),
        28,
        res.overflow,
    )
}

/// The status word `w` with N and Z set from `v`.
pub open spec fn nz_of(w: u32, v: u32) -> u32 {
    with_flag(with_flag(w, 31, v >= 0x8000_0000), 30, v == 0)
}

/// The status word `w` with N, Z and C set from an arithmetic result.
pub open spec fn nzcv_of(w: u32, r: ArithOut) -> u32 {
    with_flag(with_flag(nz_of(w, r.value), 29, r.carry), 28, r.overflow)
}

/// The effect of `fmt3_mcas_imm` on the CPU: MOV sets N and Z; CMP, ADD and
/// SUB set N, Z, C and V from the sum or difference; CMP writes no register.
pub open spec fn fmt3_post(o: Cpu, f: Cpu, i: u32) -> bool {
    let op = field(i, 11, 2);
    let rd = field(i, 8, 3) as int;
    let imm = field(i, 0, 8);
    let a = o.reg(rd);
    let r = if op == 2 { spec_adc(a, imm, false) } else { spec_sub(a, imm) };
    &&& op == 0 ==> only_reg(o, f, rd, imm) && f.cpsr.0 == nz_of(o.cpsr.0, imm)
    &&& op == 1 ==> f.regs == o.regs && f.cpsr.0 == nzcv_of(o.cpsr.0, r)
    &&& op >= 2 ==> only_reg(o, f, rd, r.value) && f.cpsr.0 == nzcv_of(o.cpsr.0, r)
}

/// The arithmetic result of ALU operation `op` (ADC, SBC, NEG, CMP, CMN).
pub open spec fn fmt4_arith(op: u32, a: u32, b: u32, c: bool) -> ArithOut {
    if op == 5 {
        spec_adc(a, b, c)
    } else if op == 6 {
        spec_adc(a, (0xFFFF_FFFF - b) as u32, c)
    } else if op == 9 {
        spec_sub(0, b)
    } else if op == 0xA {
        spec_sub(a, b)
    } else {
        spec_adc(a, b, false)
    }
}

/// The value of logical ALU operation `op` (AND, EOR, TST, ORR, MUL, BIC, MVN).
pub open spec fn fmt4_logic(op: u32, a: u32, b: u32) -> u32 {
    if op == 0 || op == 8 {
        a & b
    } else if op == 1 {
        a ^ b
    } else if op == 0xC {
        a | b
    } else if op == 0xD {
        ((a as int * b as int) % 0x1_0000_0000) as u32
    } else if op == 0xE {
        a & !b
    } else {
        !b
    }
}

/// The effect of `fmt4_alu` on the CPU. Shifts (LSL, LSR, ASR, ROR by the
/// low byte of Rs) set N, Z and C from the shifter; ADC, SBC, NEG, CMP and
/// CMN set N, Z, C and V; the logical operations and MUL set N and Z. TST,
/// CMP and CMN write no register.
pub open spec fn fmt4_post(o: Cpu, f: Cpu, i: u32) -> bool {
    let op = field(i, 6, 4);
    let rd = field(i, 0, 3) as int;
    let a = o.reg(rd);
    let b = o.reg(field(i, 3, 3) as int);
    let c = bit(o.cpsr.0, 29);
    let kind = if op == 2 {
        ShiftKind::Lsl
    } else if op == 3 {
        ShiftKind::Lsr
    } else if op == 4 {
        ShiftKind::Asr
    } else {
        ShiftKind::Ror
    };
    let sh = spec_barrel_shift(kind, a, b % 256, c, false);
    let r = fmt4_arith(op, a, b, c);
    let v = fmt4_logic(op, a, b);
    &&& (op == 2 || op == 3 || op == 4 || op == 7) ==> only_reg(o, f, rd, sh.value) && f.cpsr.0 == with_flag(
        nz_of(o.cpsr.0, sh.value),
        29,
        sh.carry,
    )
    &&& (op == 5 || op == 6 || op == 9) ==> only_reg(o, f, rd, r.value) && f.cpsr.0 == nzcv_of(o.cpsr.0, r)
    &&& (op == 0xA || op == 0xB) ==> f.regs == o.regs && f.cpsr.0 == nzcv_of(o.cpsr.0, r)
    &&& (op == 0 || op == 1 || op >= 0xC) ==> only_reg(o, f, rd, v) && f.cpsr.0 == nz_of(o.cpsr.0, v)
    &&& op == 8 ==> f.regs == o.regs && f.cpsr.0 == nz_of(o.cpsr.0, v)
}

/// The effect of `fmt5_hi_reg` on the CPU. ADD and MOV write Rd (the PC as
/// a THUMB branch) and keep the flags; CMP sets N, Z, C and V and writes no
/// register; BX branches to Rs, in THUMB state when its bit 0 is set.
pub open spec fn fmt5_post(o: Cpu, f: Cpu, i: u32) -> bool {
    let op = field(i, 8, 2);
    let rs = field(i, 3, 3) + if flag(i, 6) { 8int } else { 0 };
    let rd = field(i, 0, 3) + if flag(i, 7) { 8int } else { 0 };
    let b = o.reg(rs);
    let a = o.reg(rd);
    let v = if op == 0 { ((a as int + b as int) % 0x1_0000_0000) as u32 } else { b };
    &&& (op == 0 || op == 2) && rd != 15 ==> only_reg(o, f, rd, v) && f.cpsr == o.cpsr && f.branched == o.branched
    &&& (op == 0 || op == 2) && rd == 15 ==> only_reg(o, f, 15, v & !1u32) && f.cpsr == o.cpsr && f.branched
    &&& op == 1 ==> f.regs == o.regs && f.cpsr.0 == nzcv_of(o.cpsr.0, spec_sub(a, b)) && f.branched == o.branched
    &&& op == 3 ==> {
        &&& f.cpsr.0 == with_flag(o.cpsr.0, 5, b % 2 == 1)
        &&& f.regs.regs() == o.regs.regs().update(15, if b % 2 == 1 { b & !1u32 } else { b & !3u32 })
        &&& f.branched
    }
}

/// The effect of `fmt12_load_address` on the CPU.
pub open spec fn fmt12_post(o: Cpu, f: Cpu, i: u32) -> bool {
    let base = if flag(i, 11) { o.reg(13) } else { o.reg(15) & !2u32 };
    only_reg(o, f, field(i, 8, 3) as int, ((base as int + field(i, 0, 8) * 4) % 0x1_0000_0000) as u32)
}

/// The effect of `fmt13_add_to_sp` on the CPU.
pub open spec fn fmt13_post(o: Cpu, f: Cpu, i: u32) -> bool {
    let off = field(i, 0, 7) * 4;
    let sp = o.reg(13) as int;
    only_reg(o, f, 13, (if flag(i, 7) { (sp - off + 0x1_0000_0000) % 0x1_0000_0000 } else { (sp + off) % 0x1_0000_0000 }) as u32)
}

/// The register list of a PUSH: R0-R7 from bits 0-7, and LR (bit 14)
/// when bit 8 is set.
pub open spec fn push_list(i: u32) -> u32 {
    (field(i, 0, 8) + if flag(i, 8) { 0x4000int } else { 0 }) as u32
}

/// The effect of `fmt14_push_pop`. PUSH stores the listed registers, and LR
/// when bit 8 is set, in ascending order at ascending words ending just below
/// SP, and SP moves down by that many words. POP loads them from SP up (PC
/// for bit 8, after the others, as a branch) and moves SP up.
pub open spec fn fmt14_post(o: Cpu, f: Cpu, ob: Bus, fb: Bus, i: u32) -> bool {
    let list = field(i, 0, 8);
    let extra = flag(i, 8);
    let n = crate::cpu::arm::list_count(list) + if extra { 1int } else { 0 };
    let sp = o.reg(13);
    let start = ((sp as int - 4 * n + 0x1_0000_0000) % 0x1_0000_0000) as u32;
    let pc_at = align4(((sp as int + 4 * crate::cpu::arm::list_count(list)) % 0x1_0000_0000) as u32);
    &&& f.cpsr == o.cpsr
    &&& !flag(i, 11) ==> {
        &&& only_reg(o, f, 13, start)
        &&& f.branched == o.branched
        &&& crate::cpu::arm::stm_done(o, ob, fb, push_list(i), start, 13, None)
    }
    &&& flag(i, 11) ==> {
        &&& f.reg(13) == ((sp as int + 4 * n) % 0x1_0000_0000) as u32
        &&& forall|k: int|
            0 <= k < 16 && !(k < 8 && flag(list, k as nat)) && k != 13 && !(extra && k == 15) ==> #[trigger] f.reg(k)
                == o.reg(k)
        &&& f.branched == (o.branched || extra)
    }
    &&& flag(i, 11) && crate::cpu::arm::block_plain(ob, sp, list) && (extra ==> plain_at(ob, pc_at)) ==> {
        &&& fb == ob
        &&& forall|k: int|
            0 <= k < 8 && #[trigger] flag(list, k as nat) ==> f.reg(k) == crate::cpu::arm::block_loaded(ob, sp, list, k)
        &&& extra ==> f.reg(15) == ob.word_at(pc_at) & !1u32
    }
}

/// The effect of `fmt15_multi_load_store`. An empty list loads the PC (as a
/// branch) or stores PC + 2 at Rb; a list of registers goes in ascending
/// order to ascending words from Rb, an STM storing the written-back Rb in
/// place of Rb when Rb is listed but not lowest. Rb moves up by the words
/// transferred (0x40 for an empty list), unless an LDM loaded it.
pub open spec fn fmt15_post(o: Cpu, f: Cpu, ob: Bus, fb: Bus, i: u32) -> bool {
    let rb = field(i, 8, 3) as int;
    let list = field(i, 0, 8);
    let load = flag(i, 11);
    let base = o.reg(rb);
    let final_addr = ((base as int + 4 * crate::cpu::arm::list_count(list)) % 0x1_0000_0000) as u32;
    let store_rn: Option<u32> = if (list as int) % (vstd::arithmetic::power2::pow2(rb as nat) as int) != 0 {
        Some(final_addr)
    } else {
        None
    };
    &&& f.cpsr == o.cpsr
    &&& list == 0 && load ==> {
        &&& f.reg(rb) == ((base as int + 0x40) % 0x1_0000_0000) as u32
        &&& forall|k: int| 0 <= k < 16 && k != rb && k != 15 ==> #[trigger] f.reg(k) == o.reg(k)
        &&& f.branched
        &&& plain_at(ob, align4(base)) ==> fb == ob && f.reg(15) == ob.word_at(align4(base)) & !1u32
    }
    &&& list == 0 && !load ==> {
        &&& only_reg(o, f, rb, ((base as int + 0x40) % 0x1_0000_0000) as u32)
        &&& f.branched == o.branched
        &&& ob.word_written(fb, align4(base), ((o.reg(15) as int + 2) % 0x1_0000_0000) as u32)
    }
    &&& list != 0 ==> {
        &&& f.branched == o.branched
        &&& !(load && flag(list, rb as nat)) ==> f.reg(rb) == final_addr
        &&& forall|k: int|
            0 <= k < 16 && k != rb && !(load && flag(list, k as nat)) ==> #[trigger] f.reg(k) == o.reg(k)
        &&& load && crate::cpu::arm::block_plain(ob, base, list) ==> fb == ob && forall|k: int|
            0 <= k < 8 && #[trigger] flag(list, k as nat) ==> f.reg(k) == crate::cpu::arm::block_loaded(ob, base, list, k)
        &&& !load ==> crate::cpu::arm::stm_done(o, ob, fb, list, base, rb, store_rn)
    }
}

/// The effect of `fmt16_conditional_branch` on the CPU.
pub open spec fn fmt16_post(o: Cpu, f: Cpu, i: u32) -> bool {
    let raw = field(i, 0, 8) as int;
    let off = (if raw >= 0x80 { raw - 0x100 } else { raw }) * 2;
    &&& holds(condition_of(field(i, 8, 4)), o.cpsr.0) ==> f.reg(15) == ((o.reg(15) as int
        + off + 0x1_0000_0000) % 0x1_0000_0000) as u32 & !1u32 && f.branched
    &&& !holds(condition_of(field(i, 8, 4)), o.cpsr.0) ==> f == o
}

/// The effect of `fmt17_swi`: the built-in BIOS service of the comment
/// byte, or entry to Supervisor mode at vector 0x08.
pub open spec fn fmt17_post(o: Cpu, f: Cpu, ob: Bus, fb: Bus, i: u32) -> bool {
    &&& !ob.hle_bios ==> {
        &&& f.reg(15) == 8
        &&& f.reg(14) == ((o.reg(15) as int - 2 + 0x1_0000_0000) % 0x1_0000_0000)
        &&& cpsr_mode(f.cpsr.0) == CpuMode::Supervisor
        &&& f.spsr@ == o.spsr@.update(2, o.cpsr)
        &&& fb == ob
    }
    &&& ob.hle_bios ==> crate::cpu::bios::bios_done(o, f, ob, fb, field(i, 0, 8) as u8)
}

/// The effect of `fmt18_unconditional_branch` on the CPU.
pub open spec fn fmt18_post(o: Cpu, f: Cpu, i: u32) -> bool {
    let raw = field(i, 0, 11) as int;
    let off = (if raw >= 0x400 { raw - 0x800 } else { raw }) * 2;
    &&& f.reg(15) == ((o.reg(15) as int + off + 0x1_0000_0000) % 0x1_0000_0000) as u32 & !1u32
    &&& f.branched
}

/// The effect of `fmt19_long_branch_link` on the CPU.
pub open spec fn fmt19_post(o: Cpu, f: Cpu, i: u32) -> bool {
    let raw = field(i, 0, 11) as int;
    let hi = if raw >= 0x400 { raw - 0x800 } else { raw };
    &&& !flag(i, 11) ==> only_reg(o, f, 14, ((o.reg(15) as int + hi * 0x1000 + 0x1_0000_0000) % 0x1_0000_0000) as u32)
    &&& flag(i, 11) ==> f.reg(15) == ((o.reg(14) as int + raw * 2) % 0x1_0000_0000) as u32 & !1u32 && f.reg(14)
        == ((o.reg(15) as int - 2 + 0x1_0000_0000) % 0x1_0000_0000) as u32 | 1u32
}

/// What a THUMB instruction other than SWI keeps: the SPSRs, the register
/// banks, the counters and the halt state.
pub open spec fn thumb_frame(o: Cpu, f: Cpu) -> bool {
    &&& f.spsr == o.spsr
    &&& RegisterFile::same_banks(o.regs, f.regs)
    &&& crate::cpu::keeps(o, f)
}

/// The effect of one THUMB instruction, by its format.
pub open spec fn thumb_exec_post(o: Cpu, f: Cpu, ob: Bus, fb: Bus, instr: u32) -> bool {
    let f_ = format_of(instr);
    &&& f_ != ThumbFormat::Swi ==> thumb_frame(o, f)
    &&& (f_ == ThumbFormat::MoveShifted || f_ == ThumbFormat::AddSub || f_ == ThumbFormat::ImmOp || f_
        == ThumbFormat::Alu || f_ == ThumbFormat::PcLoad || f_ == ThumbFormat::LoadStoreReg || f_
        == ThumbFormat::LoadStoreSignExt || f_ == ThumbFormat::LoadStoreImm || f_ == ThumbFormat::LoadStoreHalf || f_
        == ThumbFormat::SpLoadStore || f_ == ThumbFormat::LoadAddress || f_ == ThumbFormat::AddSp) ==> f.branched
        == o.branched
    &&& (f_ == ThumbFormat::MoveShifted || f_ == ThumbFormat::AddSub || f_ == ThumbFormat::ImmOp || f_
        == ThumbFormat::Alu || f_ == ThumbFormat::HiReg || f_ == ThumbFormat::LoadAddress || f_ == ThumbFormat::AddSp
        || f_ == ThumbFormat::CondBranch || f_ == ThumbFormat::Branch || f_ == ThumbFormat::LongBranchLink) ==> fb
        == ob
    &&& (f_ == ThumbFormat::PcLoad || f_ == ThumbFormat::LoadStoreReg || f_ == ThumbFormat::LoadStoreSignExt || f_
        == ThumbFormat::LoadStoreImm || f_ == ThumbFormat::LoadStoreHalf || f_ == ThumbFormat::SpLoadStore || f_
        == ThumbFormat::LoadAddress || f_ == ThumbFormat::AddSp || f_ == ThumbFormat::CondBranch || f_
        == ThumbFormat::Branch || f_ == ThumbFormat::LongBranchLink) ==> f.cpsr == o.cpsr
    &&& f_ == ThumbFormat::MoveShifted ==> fmt1_post(o, f, instr)
    &&& f_ == ThumbFormat::AddSub ==> fmt2_post(o, f, instr)
    &&& f_ == ThumbFormat::ImmOp ==> fmt3_post(o, f, instr)
    &&& f_ == ThumbFormat::Alu ==> fmt4_post(o, f, instr)
    &&& f_ == ThumbFormat::HiReg ==> fmt5_post(o, f, instr)
    &&& f_ == ThumbFormat::PcLoad ==> fmt6_post(o, f, ob, fb, instr)
    &&& f_ == ThumbFormat::LoadStoreReg ==> fmt7_post(o, f, ob, fb, instr)
    &&& f_ == ThumbFormat::LoadStoreSignExt ==> fmt8_post(o, f, ob, fb, instr)
    &&& f_ == ThumbFormat::LoadStoreImm ==> fmt9_post(o, f, ob, fb, instr)
    &&& f_ == ThumbFormat::LoadStoreHalf ==> fmt10_post(o, f, ob, fb, instr)
    &&& f_ == ThumbFormat::SpLoadStore ==> fmt11_post(o, f, ob, fb, instr)
    &&& f_ == ThumbFormat::LoadAddress ==> fmt12_post(o, f, instr)
    &&& f_ == ThumbFormat::AddSp ==> fmt13_post(o, f, instr)
    &&& f_ == ThumbFormat::PushPop ==> fmt14_post(o, f, ob, fb, instr)
    &&& f_ == ThumbFormat::MultiLoadStore ==> fmt15_post(o, f, ob, fb, instr)
    &&& f_ == ThumbFormat::CondBranch ==> fmt16_post(o, f, instr)
    &&& f_ == ThumbFormat::Swi ==> fmt17_post(o, f, ob, fb, instr)
    &&& f_ == ThumbFormat::Branch ==> fmt18_post(o, f, instr)
    &&& f_ == ThumbFormat::LongBranchLink ==> fmt19_post(o, f, instr)
}

/// Executes one THUMB instruction: decodes its format and runs its handler.
pub fn execute(cpu: &mut Cpu, bus: &mut Bus, instr: u16)
    requires
        old(cpu).wf(),
        old(bus).wf(),
    ensures
        final(cpu).wf(),
        final(bus).wf(),
        thumb_exec_post(*old(cpu), *final(cpu), *old(bus), *final(bus), instr as u32),
{
    let i = instr as u32;
    match decode(instr) {
        ThumbFormat::MoveShifted => fmt1_move_shifted(cpu, i),
        ThumbFormat::AddSub => fmt2_add_sub(cpu, i),
        ThumbFormat::ImmOp => fmt3_mcas_imm(cpu, i),
        ThumbFormat::Alu => fmt4_alu(cpu, i),
        ThumbFormat::HiReg => fmt5_hi_reg(cpu, i),
        ThumbFormat::PcLoad => fmt6_pc_relative_load(cpu, bus, i),
        ThumbFormat::LoadStoreReg => fmt7_load_store_reg_offset(cpu, bus, i),
        ThumbFormat::LoadStoreSignExt => fmt8_load_store_sign_ext(cpu, bus, i),
        ThumbFormat::LoadStoreImm => fmt9_load_store_imm_offset(cpu, bus, i),
        ThumbFormat::LoadStoreHalf => fmt10_load_store_halfword(cpu, bus, i),
        ThumbFormat::SpLoadStore => fmt11_sp_relative(cpu, bus, i),
        ThumbFormat::LoadAddress => fmt12_load_address(cpu, i),
        ThumbFormat::AddSp => fmt13_add_to_sp(cpu, i),
        ThumbFormat::PushPop => fmt14_push_pop(cpu, bus, i),
        ThumbFormat::MultiLoadStore => fmt15_multi_load_store(cpu, bus, i),
        ThumbFormat::CondBranch => fmt16_conditional_branch(cpu, i),
        ThumbFormat::Swi => fmt17_swi(cpu, bus, i),
        ThumbFormat::Branch => fmt18_unconditional_branch(cpu, i),
        ThumbFormat::LongBranchLink => fmt19_long_branch_link(cpu, i),
    }
}

/// Sets N and Z from `v` and then C (and V when given); the mode is kept.
fn set_flags(cpu: &mut Cpu, v: u32, c: bool, ov: Option<bool>)
    requires
        old(cpu).wf(),
    ensures
        final(cpu).wf(),
        final(cpu).regs == old(cpu).regs,
        final(cpu).spsr == old(cpu).spsr,
        final(cpu).halted == old(cpu).halted,
        final(cpu).branched == old(cpu).branched,
        final(cpu).stats == old(cpu).stats,
        final(cpu).cpsr.0 == match ov {
            Some(o) => with_flag(
                with_flag(with_flag(with_flag(old(cpu).cpsr.0, 31, v >= 0x8000_0000), 30, v == 0), 29, c),
                28,
                o,
            ),
            None => with_flag(with_flag(with_flag(old(cpu).cpsr.0, 31, v >= 0x8000_0000), 30, v == 0), 29, c),
        },
{
    let w0 = cpu.cpsr.0;
    cpu.cpsr.set_nz(v);
    let w1 = cpu.cpsr.0;
    cpu.cpsr.set_flag(PsrFlags::C, c);
    let w2 = cpu.cpsr.0;
    proof {
        lemma_with_flag_mode(w0, 31, v >= 0x8000_0000);
        lemma_with_flag_mode(with_flag(w0, 31, v >= 0x8000_0000), 30, v == 0);
        lemma_with_flag_mode(w1, 29, c);
    }
    match ov {
        Some(o) => {
            cpu.cpsr.set_flag(PsrFlags::V, o);
            proof {
                lemma_with_flag_mode(w2, 28, o);
            }
        },
        None => {},
    }
}

/// Format 1: LSL, LSR, ASR by a 5-bit immediate, with flags.
#[verifier::spinoff_prover]
fn fmt1_move_shifted(cpu: &mut Cpu, i: u32)
    requires
        old(cpu).wf(),
    ensures
        final(cpu).wf(),
        thumb_frame(*old(cpu), *final(cpu)),
        final(cpu).branched == old(cpu).branched,
        fmt1_post(*old(cpu), *final(cpu), i),
{
    let kind = ShiftKind::from_bits(bits_of(i, 11, 2));
    let v = cpu.regs.get(bits_of(i, 3, 3) as usize);
    let out = barrel_shift(kind, v, bits_of(i, 6, 5), cpu.cpsr.c(), true);
    cpu.regs.set(bits_of(i, 0, 3) as usize, out.value);
    set_flags(cpu, out.value, out.carry, None);
}

/// Format 2: ADD/SUB of a register or a 3-bit immediate, with flags.
#[verifier::spinoff_prover]
fn fmt2_add_sub(cpu: &mut Cpu, i: u32)
    requires
        old(cpu).wf(),
    ensures
        final(cpu).wf(),
        thumb_frame(*old(cpu), *final(cpu)),
        final(cpu).branched == old(cpu).branched,
        fmt2_post(*old(cpu), *final(cpu), i),
{
    let b = if bit_of(i, 10) { bits_of(i, 6, 3) } else { cpu.regs.get(bits_of(i, 6, 3) as usize) };
    let a = cpu.regs.get(bits_of(i, 3, 3) as usize);
    let o = if bit_of(i, 9) { sub_with_flags(a, b) } else { add_with_flags(a, b) };
    cpu.regs.set(bits_of(i, 0, 3) as usize, o.value);
    set_flags(cpu, o.value, o.carry, Some(o.overflow));
}

/// Format 3: MOV, CMP, ADD, SUB with an 8-bit immediate.
#[verifier::spinoff_prover]
fn fmt3_mcas_imm(cpu: &mut Cpu, i: u32)
    requires
        old(cpu).wf(),
    ensures
        final(cpu).wf(),
        thumb_frame(*old(cpu), *final(cpu)),
        final(cpu).branched == old(cpu).branched,
        fmt3_post(*old(cpu), *final(cpu), i),
{
    let op = bits_of(i, 11, 2);
    let rd = bits_of(i, 8, 3) as usize;
    let imm = bits_of(i, 0, 8);
    let a = cpu.regs.get(rd);
    if op == 0 {
        cpu.regs.set(rd, imm);
        let w0 = cpu.cpsr.0;
        cpu.cpsr.set_nz(imm);
        proof {
            lemma_with_flag_mode(w0, 31, imm >= 0x8000_0000);
            lemma_with_flag_mode(with_flag(w0, 31, imm >= 0x8000_0000), 30, imm == 0);
        }
    } else if op == 1 {
        let o = sub_with_flags(a, imm);
        set_flags(cpu, o.value, o.carry, Some(o.overflow));
    } else if op == 2 {
        let o = add_with_flags(a, imm);
        cpu.regs.set(rd, o.value);
        set_flags(cpu, o.value, o.carry, Some(o.overflow));
    } else {
        let o = sub_with_flags(a, imm);
        cpu.regs.set(rd, o.value);
        set_flags(cpu, o.value, o.carry, Some(o.overflow));
    }
}

/// Format 4: the sixteen register ALU operations (shifts by register set C
/// from the shifter; MUL keeps C and V).
#[verifier::spinoff_prover]
fn fmt4_alu(cpu: &mut Cpu, i: u32)
    requires
        old(cpu).wf(),
    ensures
        final(cpu).wf(),
        thumb_frame(*old(cpu), *final(cpu)),
        final(cpu).branched == old(cpu).branched,
        fmt4_post(*old(cpu), *final(cpu), i),
{
    let op = bits_of(i, 6, 4);
    let rd = bits_of(i, 0, 3) as usize;
    let a = cpu.regs.get(rd);
    let b = cpu.regs.get(bits_of(i, 3, 3) as usize);
    let c_in = cpu.cpsr.c();
    if op == 2 || op == 3 || op == 4 || op == 7 {
        let kind = if op == 2 {
            ShiftKind::Lsl
        } else if op == 3 {
            ShiftKind::Lsr
        } else if op == 4 {
            ShiftKind::Asr
        } else {
            ShiftKind::Ror
        };
        let out = barrel_shift(kind, a, b % 256, c_in, false);
        cpu.regs.set(rd, out.value);
        set_flags(cpu, out.value, out.carry, None);
    } else if op == 5 || op == 6 || op == 9 || op == 0xA || op == 0xB {
        let o = if op == 5 {
            adc_with_flags(a, b, c_in)
        } else if op == 6 {
            sbc_with_flags(a, b, c_in)
        } else if op == 9 {
            sub_with_flags(0, b)
        } else if op == 0xA {
            sub_with_flags(a, b)
        } else {
            add_with_flags(a, b)
        };
        if op != 0xA && op != 0xB {
            cpu.regs.set(rd, o.value);
        }
        set_flags(cpu, o.value, o.carry, Some(o.overflow));
    } else {
        let v = if op == 0 || op == 8 {
            a & b
        } else if op == 1 {
            a ^ b
        } else if op == 0xC {
            a | b
        } else if op == 0xD {
            a.wrapping_mul(b)
        } else if op == 0xE {
            a & !b
        } else {
            !b
        };
        if op != 8 {
            cpu.regs.set(rd, v);
        }
        let w0 = cpu.cpsr.0;
        cpu.cpsr.set_nz(v);
        proof {
            lemma_with_flag_mode(w0, 31, v >= 0x8000_0000);
            lemma_with_flag_mode(with_flag(w0, 31, v >= 0x8000_0000), 30, v == 0);
        }
    }
}

/// Format 5: ADD, CMP, MOV on high registers, and BX.
#[verifier::spinoff_prover]
fn fmt5_hi_reg(cpu: &mut Cpu, i: u32)
    requires
        old(cpu).wf(),
    ensures
        final(cpu).wf(),
        thumb_frame(*old(cpu), *final(cpu)),
        fmt5_post(*old(cpu), *final(cpu), i),
{
    let op = bits_of(i, 8, 2);
    let rs = (bits_of(i, 3, 3) + if bit_of(i, 6) { 8 } else { 0 }) as usize;
    let rd = (bits_of(i, 0, 3) + if bit_of(i, 7) { 8 } else { 0 }) as usize;
    let b = cpu.regs.get(rs);
    let a = cpu.regs.get(rd);
    if op == 0 {
        let v = a.wrapping_add(b);
        if rd == 15 {
            cpu.set_pc_thumb(v);
        } else {
            cpu.regs.set(rd, v);
        }
    } else if op == 1 {
        let o = sub_with_flags(a, b);
        set_flags(cpu, o.value, o.carry, Some(o.overflow));
    } else if op == 2 {
        if rd == 15 {
            cpu.set_pc_thumb(b);
        } else {
            cpu.regs.set(rd, b);
        }
    } else {
        let thumb = b % 2 == 1;
        let w0 = cpu.cpsr.0;
        cpu.cpsr.set_flag(PsrFlags::T, thumb);
        proof {
            lemma_with_flag_mode(w0, 5, thumb);
        }
        if thumb {
            cpu.set_pc_thumb(b);
        } else {
            cpu.set_pc_arm(b);
        }
    }
}

/// The effect of a word or byte load/store of register `rd` at `addr`.
pub open spec fn word_byte_transfer(o: Cpu, f: Cpu, ob: Bus, fb: Bus, load: bool, byte: bool, rd: int, addr: u32) -> bool {
    &&& load && byte ==> fb == ob && only_reg(o, f, rd, ob.byte_at(addr) as u32)
    &&& load && !byte && plain_at(ob, align4(addr)) ==> fb == ob && only_reg(
        o,
        f,
        rd,
        crate::cpu::arm::loaded_word(ob.word_at(align4(addr)), addr),
    )
    &&& !load && byte ==> f == o && ob.byte_written(fb, addr, (o.reg(rd) % 256) as u8)
    &&& !load && !byte ==> f == o && ob.word_written(fb, align4(addr), o.reg(rd))
}

/// A word load with the ARM rotation of unaligned addresses.
fn load_word(bus: &mut Bus, addr: u32) -> (r: u32)
    requires
        old(bus).wf(),
    ensures
        final(bus).wf(),
        plain_at(*old(bus), align4(addr)) ==> *final(bus) == *old(bus) && r == crate::cpu::arm::loaded_word(
            old(bus).word_at(align4(addr)),
            addr,
        ),
{
    let v = bus.read_u32(addr);
    rotate_right(v, (addr % 4) * 8)
}

/// The effect of `fmt6_pc_relative_load`.
pub open spec fn fmt6_post(o: Cpu, f: Cpu, ob: Bus, fb: Bus, i: u32) -> bool {
    let addr = ((align4(o.reg(15)) as int + field(i, 0, 8) * 4) % 0x1_0000_0000) as u32;
    plain_at(ob, addr) ==> fb == ob && only_reg(o, f, field(i, 8, 3) as int, ob.word_at(addr))
}

/// Format 6: LDR Rd, [PC + imm8 * 4] (the PC aligned to 4).
#[verifier::rlimit(50)]
#[verifier::spinoff_prover]
fn fmt6_pc_relative_load(cpu: &mut Cpu, bus: &mut Bus, i: u32)
    requires
        old(cpu).wf(),
        old(bus).wf(),
    ensures
        final(cpu).wf(),
        thumb_frame(*old(cpu), *final(cpu)),
        final(cpu).cpsr == old(cpu).cpsr,
        final(cpu).branched == old(cpu).branched,
        final(bus).wf(),
        fmt6_post(*old(cpu), *final(cpu), *old(bus), *final(bus), i),
{
    let rd = bits_of(i, 8, 3) as usize;
    let pc = cpu.regs.pc();
    let base = pc - pc % 4;
    let k = bits_of(i, 0, 8) * 4;
    let addr = base.wrapping_add(k);
    assert(addr as int == (base as int + k as int) % 0x1_0000_0000);
    assert(addr % 4 == 0) by (nonlinear_arith)
        requires
            base % 4 == 0,
            k % 4 == 0,
            addr as int == (base as int + k as int) % 0x1_0000_0000,
    ;
    let v = bus.read_u32(addr);
    cpu.regs.set(rd, v);
}

/// The effect of `fmt7_load_store_reg_offset`.
pub open spec fn fmt7_post(o: Cpu, f: Cpu, ob: Bus, fb: Bus, i: u32) -> bool {
    let addr = ((o.reg(field(i, 3, 3) as int) as int + o.reg(field(i, 6, 3) as int) as int) % 0x1_0000_0000) as u32;
    word_byte_transfer(o, f, ob, fb, flag(i, 11), flag(i, 10), field(i, 0, 3) as int, addr)
}

/// Format 7: LDR/STR/LDRB/STRB with a register offset.
#[verifier::rlimit(50)]
#[verifier::spinoff_prover]
fn fmt7_load_store_reg_offset(cpu: &mut Cpu, bus: &mut Bus, i: u32)
    requires
        old(cpu).wf(),
        old(bus).wf(),
    ensures
        final(cpu).wf(),
        thumb_frame(*old(cpu), *final(cpu)),
        final(cpu).cpsr == old(cpu).cpsr,
        final(cpu).branched == old(cpu).branched,
        final(bus).wf(),
        fmt7_post(*old(cpu), *final(cpu), *old(bus), *final(bus), i),
{
    let load = bit_of(i, 11);
    let byte = bit_of(i, 10);
    let rd = bits_of(i, 0, 3) as usize;
    let addr = cpu.regs.get(bits_of(i, 3, 3) as usize).wrapping_add(cpu.regs.get(bits_of(i, 6, 3) as usize));
    if load {
        let v = if byte { bus.read_u8(addr) as u32 } else { load_word(bus, addr) };
        cpu.regs.set(rd, v);
    } else {
        let v = cpu.regs.get(rd);
        if byte {
            bus.write_u8(addr, (v % 256) as u8);
        } else {
            bus.write_u32(addr, v);
        }
    }
}

/// The effect of `fmt8_load_store_sign_ext`: STRH, LDRH, LDRSB (and LDRSH
/// at an odd address), LDRSH.
pub open spec fn fmt8_post(o: Cpu, f: Cpu, ob: Bus, fb: Bus, i: u32) -> bool {
    let h = flag(i, 11);
    let s = flag(i, 10);
    let rd = field(i, 0, 3) as int;
    let addr = ((o.reg(field(i, 3, 3) as int) as int + o.reg(field(i, 6, 3) as int) as int) % 0x1_0000_0000) as u32;
    &&& !s && !h ==> f == o && ob.half_written(fb, align2(addr), (o.reg(rd) % 0x1_0000) as u16)
    &&& !s && h && plain_at(ob, align2(addr)) ==> fb == ob && only_reg(o, f, rd, loaded_half(ob, addr))
    &&& s && (!h || addr % 2 == 1) ==> fb == ob && only_reg(o, f, rd, crate::cpu::arm::sext8(ob.byte_at(addr)))
    &&& s && h && addr % 2 == 0 && plain_at(ob, addr) ==> fb == ob && only_reg(
        o,
        f,
        rd,
        crate::cpu::arm::sext16(ob.half_at(addr)),
    )
}

/// Format 8: STRH, LDRH, LDRSB, LDRSH with a register offset.
#[verifier::rlimit(50)]
#[verifier::spinoff_prover]
fn fmt8_load_store_sign_ext(cpu: &mut Cpu, bus: &mut Bus, i: u32)
    requires
        old(cpu).wf(),
        old(bus).wf(),
    ensures
        final(cpu).wf(),
        thumb_frame(*old(cpu), *final(cpu)),
        final(cpu).cpsr == old(cpu).cpsr,
        final(cpu).branched == old(cpu).branched,
        final(bus).wf(),
        fmt8_post(*old(cpu), *final(cpu), *old(bus), *final(bus), i),
{
    let h = bit_of(i, 11);
    let s = bit_of(i, 10);
    let rd = bits_of(i, 0, 3) as usize;
    let addr = cpu.regs.get(bits_of(i, 3, 3) as usize).wrapping_add(cpu.regs.get(bits_of(i, 6, 3) as usize));
    if !s && !h {
        let v = cpu.regs.get(rd);
        bus.write_u16(addr, (v % 0x1_0000) as u16);
        return;
    }
    let v = if !s {
        let w = bus.read_u16(addr) as u32;
        if addr % 2 == 1 { rotate_right(w, 8) } else { w }
    } else if !h || addr % 2 == 1 {
        let b = bus.read_u8(addr);
        if b >= 0x80 { b as u32 + 0xFFFF_FF00 } else { b as u32 }
    } else {
        let w = bus.read_u16(addr);
        if w >= 0x8000 { w as u32 + 0xFFFF_0000 } else { w as u32 }
    };
    cpu.regs.set(rd, v);
}

/// The effect of `fmt9_load_store_imm_offset`.
pub open spec fn fmt9_post(o: Cpu, f: Cpu, ob: Bus, fb: Bus, i: u32) -> bool {
    let byte = flag(i, 12);
    let off = if byte { field(i, 6, 5) as int } else { field(i, 6, 5) * 4 };
    let addr = ((o.reg(field(i, 3, 3) as int) as int + off) % 0x1_0000_0000) as u32;
    word_byte_transfer(o, f, ob, fb, flag(i, 11), byte, field(i, 0, 3) as int, addr)
}

/// Format 9: LDR/STR (offset imm5 * 4) and LDRB/STRB (offset imm5).
#[verifier::rlimit(50)]
#[verifier::spinoff_prover]
fn fmt9_load_store_imm_offset(cpu: &mut Cpu, bus: &mut Bus, i: u32)
    requires
        old(cpu).wf(),
        old(bus).wf(),
    ensures
        final(cpu).wf(),
        thumb_frame(*old(cpu), *final(cpu)),
        final(cpu).cpsr == old(cpu).cpsr,
        final(cpu).branched == old(cpu).branched,
        final(bus).wf(),
        fmt9_post(*old(cpu), *final(cpu), *old(bus), *final(bus), i),
{
    let byte = bit_of(i, 12);
    let load = bit_of(i, 11);
    let imm5 = bits_of(i, 6, 5);
    let rd = bits_of(i, 0, 3) as usize;
    let offset = if byte { imm5 } else { imm5 * 4 };
    let addr = cpu.regs.get(bits_of(i, 3, 3) as usize).wrapping_add(offset);
    if load {
        let v = if byte { bus.read_u8(addr) as u32 } else { load_word(bus, addr) };
        cpu.regs.set(rd, v);
    } else {
        let v = cpu.regs.get(rd);
        if byte {
            bus.write_u8(addr, (v % 256) as u8);
        } else {
            bus.write_u32(addr, v);
        }
    }
}

/// The effect of `fmt10_load_store_halfword`.
pub open spec fn fmt10_post(o: Cpu, f: Cpu, ob: Bus, fb: Bus, i: u32) -> bool {
    let rd = field(i, 0, 3) as int;
    let addr = ((o.reg(field(i, 3, 3) as int) as int + field(i, 6, 5) * 2) % 0x1_0000_0000) as u32;
    &&& flag(i, 11) && plain_at(ob, align2(addr)) ==> fb == ob && only_reg(o, f, rd, loaded_half(ob, addr))
    &&& !flag(i, 11) ==> f == o && ob.half_written(fb, align2(addr), (o.reg(rd) % 0x1_0000) as u16)
}

/// Format 10: LDRH/STRH with offset imm5 * 2.
#[verifier::rlimit(50)]
#[verifier::spinoff_prover]
fn fmt10_load_store_halfword(cpu: &mut Cpu, bus: &mut Bus, i: u32)
    requires
        old(cpu).wf(),
        old(bus).wf(),
    ensures
        final(cpu).wf(),
        thumb_frame(*old(cpu), *final(cpu)),
        final(cpu).cpsr == old(cpu).cpsr,
        final(cpu).branched == old(cpu).branched,
        final(bus).wf(),
        fmt10_post(*old(cpu), *final(cpu), *old(bus), *final(bus), i),
{
    let load = bit_of(i, 11);
    let rd = bits_of(i, 0, 3) as usize;
    let addr = cpu.regs.get(bits_of(i, 3, 3) as usize).wrapping_add(bits_of(i, 6, 5) * 2);
    if load {
        let w = bus.read_u16(addr) as u32;
        cpu.regs.set(rd, if addr % 2 == 1 { rotate_right(w, 8) } else { w });
    } else {
        let v = cpu.regs.get(rd);
        bus.write_u16(addr, (v % 0x1_0000) as u16);
    }
}

/// The effect of `fmt11_sp_relative`.
pub open spec fn fmt11_post(o: Cpu, f: Cpu, ob: Bus, fb: Bus, i: u32) -> bool {
    let addr = ((o.reg(13) as int + field(i, 0, 8) * 4) % 0x1_0000_0000) as u32;
    word_byte_transfer(o, f, ob, fb, flag(i, 11), false, field(i, 8, 3) as int, addr)
}

/// Format 11: LDR/STR relative to SP (offset imm8 * 4).
#[verifier::rlimit(50)]
#[verifier::spinoff_prover]
fn fmt11_sp_relative(cpu: &mut Cpu, bus: &mut Bus, i: u32)
    requires
        old(cpu).wf(),
        old(bus).wf(),
    ensures
        final(cpu).wf(),
        thumb_frame(*old(cpu), *final(cpu)),
        final(cpu).cpsr == old(cpu).cpsr,
        final(cpu).branched == old(cpu).branched,
        final(bus).wf(),
        fmt11_post(*old(cpu), *final(cpu), *old(bus), *final(bus), i),
{
    let load = bit_of(i, 11);
    let rd = bits_of(i, 8, 3) as usize;
    let addr = cpu.regs.sp().wrapping_add(bits_of(i, 0, 8) * 4);
    if load {
        let v = load_word(bus, addr);
        cpu.regs.set(rd, v);
    } else {
        let v = cpu.regs.get(rd);
        bus.write_u32(addr, v);
    }
}

/// Format 12: Rd = SP + imm8 * 4, or (PC with bit 1 cleared) + imm8 * 4.
#[verifier::spinoff_prover]
fn fmt12_load_address(cpu: &mut Cpu, i: u32)
    requires
        old(cpu).wf(),
    ensures
        final(cpu).wf(),
        thumb_frame(*old(cpu), *final(cpu)),
        final(cpu).cpsr == old(cpu).cpsr,
        final(cpu).branched == old(cpu).branched,
        fmt12_post(*old(cpu), *final(cpu), i),
{
    let base = if bit_of(i, 11) { cpu.regs.sp() } else { cpu.regs.pc() & !2u32 };
    let rd = bits_of(i, 8, 3) as usize;
    let v = base.wrapping_add(bits_of(i, 0, 8) * 4);
    assert(v == ((base as int + field(i, 0, 8) * 4) % 0x1_0000_0000) as u32);
    cpu.regs.set(rd, v);
}

/// Format 13: SP = SP +/- imm7 * 4.
#[verifier::spinoff_prover]
fn fmt13_add_to_sp(cpu: &mut Cpu, i: u32)
    requires
        old(cpu).wf(),
    ensures
        final(cpu).wf(),
        thumb_frame(*old(cpu), *final(cpu)),
        final(cpu).cpsr == old(cpu).cpsr,
        final(cpu).branched == old(cpu).branched,
        fmt13_post(*old(cpu), *final(cpu), i),
{
    let offset = bits_of(i, 0, 7) * 4;
    let sp = cpu.regs.sp();
    let v = if bit_of(i, 7) { sp.wrapping_sub(offset) } else { sp.wrapping_add(offset) };
    assert(v == (if flag(i, 7) { (sp - offset + 0x1_0000_0000) % 0x1_0000_0000 } else { (sp + offset) % 0x1_0000_0000 }));
    cpu.regs.set(13, v);
}

/// Format 14: PUSH (R0-R7 and optionally LR, lowest register at the lowest
/// address, SP decremented first) and POP (R0-R7 and optionally the PC).
fn fmt14_push_pop(cpu: &mut Cpu, bus: &mut Bus, i: u32)
    requires
        old(cpu).wf(),
        old(bus).wf(),
    ensures
        final(cpu).wf(),
        thumb_frame(*old(cpu), *final(cpu)),
        final(bus).wf(),
        fmt14_post(*old(cpu), *final(cpu), *old(bus), *final(bus), i),
{
    if bit_of(i, 11) {
        pop_regs(cpu, bus, i);
    } else {
        push_regs(cpu, bus, i);
    }
}

/// POP of format 14.
#[verifier::rlimit(100)]
#[verifier::spinoff_prover]
fn pop_regs(cpu: &mut Cpu, bus: &mut Bus, i: u32)
    requires
        old(cpu).wf(),
        old(bus).wf(),
        flag(i, 11),
    ensures
        final(cpu).wf(),
        thumb_frame(*old(cpu), *final(cpu)),
        final(bus).wf(),
        fmt14_post(*old(cpu), *final(cpu), *old(bus), *final(bus), i),
{
    let extra = bit_of(i, 8);
    let list = bits_of(i, 0, 8);
    let count = crate::cpu::arm::count_list(list);
    let n = count + if extra { 1 } else { 0 };
    let sp0 = cpu.regs.sp();
    proof {
        lemma_byte_list_high(list);
    }
    let pc_addr = sp0.wrapping_add(count * 4);
    crate::cpu::arm::transfer_list(cpu, bus, list, sp0, true, 13, None);
    let ghost c1 = *cpu;
    if extra {
        let pc = bus.read_u32(pc_addr);
        cpu.set_pc_thumb(pc);
    }
    let ghost c2 = *cpu;
    cpu.regs.set(13, sp0.wrapping_add(n * 4));
    proof {
        assert forall|k: int|
            0 <= k < 16 && !(k < 8 && flag(list, k as nat)) && k != 13 && !(extra && k == 15) implies #[trigger] cpu.reg(k)
            == old(cpu).reg(k) by {
            assert(cpu.reg(k) == c2.reg(k));
            assert(c2.reg(k) == c1.reg(k));
        }
        assert(forall|k: int| 0 <= k < 8 && #[trigger] flag(list, k as nat) ==> cpu.reg(k) == c1.reg(k));
        let o = *old(cpu);
        let f = *cpu;
        let ob = *old(bus);
        let fb = *bus;
        let pc_at = align4(((sp0 as int + 4 * crate::cpu::arm::list_count(list)) % 0x1_0000_0000) as u32);
        assert(pc_addr == ((sp0 as int + 4 * crate::cpu::arm::list_count(list)) % 0x1_0000_0000) as u32);
        if crate::cpu::arm::block_plain(ob, sp0, list) && (extra ==> plain_at(ob, pc_at)) {
            assert(fb == ob);
            if extra {
                assert(f.reg(15) == ob.word_at(pc_at) & !1u32);
            }
        }
        assert(f.reg(13) == ((sp0 as int + 4 * n) % 0x1_0000_0000) as u32);
        assert(f.branched == (o.branched || extra));
        assert(f.cpsr == o.cpsr);
    }
}

/// A list of R0-R7 has no higher register.
proof fn lemma_byte_list_high(list: u32)
    requires
        list < 256,
    ensures
        forall|k: nat| 8 <= k < 32 ==> !#[trigger] flag(list, k),
{
    assert forall|k: nat| 8 <= k < 32 implies !#[trigger] flag(list, k) by {
        vstd::arithmetic::power2::lemma2_to64();
        if k > 8 {
            vstd::arithmetic::power2::lemma_pow2_strictly_increases(8, k);
        }
        assert(list as int / vstd::arithmetic::power2::pow2(k) as int == 0) by (nonlinear_arith)
            requires
                list < 256,
                vstd::arithmetic::power2::pow2(k) >= 256,
        ;
    }
}

/// PUSH of format 14.
#[verifier::rlimit(80)]
#[verifier::spinoff_prover]
fn push_regs(cpu: &mut Cpu, bus: &mut Bus, i: u32)
    requires
        old(cpu).wf(),
        old(bus).wf(),
        !flag(i, 11),
    ensures
        final(cpu).wf(),
        thumb_frame(*old(cpu), *final(cpu)),
        final(bus).wf(),
        fmt14_post(*old(cpu), *final(cpu), *old(bus), *final(bus), i),
{
    let extra = bit_of(i, 8);
    let list = bits_of(i, 0, 8);
    let count = crate::cpu::arm::count_list(list);
    let n = count + if extra { 1 } else { 0 };
    let start = cpu.regs.sp().wrapping_sub(n * 4);
    let full = if extra { list + 0x4000 } else { list };
    assert(full == push_list(i));
    crate::cpu::arm::transfer_list(cpu, bus, full, start, false, 13, None);
    cpu.regs.set(13, start);
}

/// Format 15: LDMIA/STMIA Rb! with R0-R7. An empty list transfers R15 and
/// moves Rb by 0x40; STM of Rb, not lowest in the list, stores the
/// written-back value; LDM of a list with Rb keeps the loaded value.
#[verifier::rlimit(50)]
#[verifier::spinoff_prover]
fn fmt15_multi_load_store(cpu: &mut Cpu, bus: &mut Bus, i: u32)
    requires
        old(cpu).wf(),
        old(bus).wf(),
    ensures
        final(cpu).wf(),
        thumb_frame(*old(cpu), *final(cpu)),
        final(bus).wf(),
        fmt15_post(*old(cpu), *final(cpu), *old(bus), *final(bus), i),
{
    let load = bit_of(i, 11);
    let rb = bits_of(i, 8, 3) as usize;
    let list = bits_of(i, 0, 8);
    let addr = cpu.regs.get(rb);
    if list == 0 {
        if load {
            let v = bus.read_u32(addr);
            cpu.set_pc_thumb(v);
        } else {
            let v = cpu.regs.pc().wrapping_add(2);
            bus.write_u32(addr, v);
        }
        cpu.regs.set(rb, addr.wrapping_add(0x40));
        return;
    }
    proof {
        vstd::arithmetic::power2::lemma2_to64();
        assert(!flag(list, 15));
    }
    let final_addr = addr.wrapping_add(crate::cpu::arm::count_list(list) * 4);
    let below = list % crate::cpu::arm::pow2_exec(rb as u32);
    let store_rn: Option<u32> = if below != 0 { Some(final_addr) } else { None };
    crate::cpu::arm::transfer_list(cpu, bus, list, addr, load, rb, store_rn);
    let ghost c1 = *cpu;
    if !(load && bit_of(list, rb as u32)) {
        cpu.regs.set(rb, final_addr);
    }
    proof {
        assert forall|k: int| 0 <= k < 16 && k != rb && !(load && flag(list, k as nat)) implies #[trigger] cpu.reg(k)
            == old(cpu).reg(k) by {
            assert(cpu.reg(k) == c1.reg(k));
        }
    }
}

/// Format 16: B<cond> with an 8-bit signed offset times 2.
#[verifier::spinoff_prover]
fn fmt16_conditional_branch(cpu: &mut Cpu, i: u32)
    requires
        old(cpu).wf(),
    ensures
        final(cpu).wf(),
        thumb_frame(*old(cpu), *final(cpu)),
        final(cpu).cpsr == old(cpu).cpsr,
        fmt16_post(*old(cpu), *final(cpu), i),
{
    let cond = Condition::from_bits(bits_of(i, 8, 4));
    if !cond.evaluate(cpu.cpsr) {
        return;
    }
    let raw = bits_of(i, 0, 8);
    let pc = cpu.regs.pc();
    let target = if raw >= 0x80 { pc.wrapping_sub((0x100 - raw) * 2) } else { pc.wrapping_add(raw * 2) };
    assert(target == ((pc as int + (if raw >= 0x80 { raw - 0x100 } else { raw as int }) * 2 + 0x1_0000_0000)
        % 0x1_0000_0000) as u32);
    cpu.set_pc_thumb(target);
}

/// Format 17: SWI with the service number in bits 0-7 (see the ARM SWI).
#[verifier::spinoff_prover]
fn fmt17_swi(cpu: &mut Cpu, bus: &mut Bus, i: u32)
    requires
        old(cpu).wf(),
        old(bus).wf(),
    ensures
        final(cpu).wf(),
        final(bus).wf(),
        fmt17_post(*old(cpu), *final(cpu), *old(bus), *final(bus), i),
{
    if bus.hle_bios {
        crate::cpu::bios::dispatch(cpu, bus, bits_of(i, 0, 8) as u8);
        return;
    }
    let return_addr = cpu.regs.pc().wrapping_sub(2);
    cpu.enter_exception(CpuMode::Supervisor, 8, return_addr);
    assert(8u32 & !3u32 == 8) by (bit_vector);
}

/// Format 18: B with an 11-bit signed offset times 2.
#[verifier::spinoff_prover]
fn fmt18_unconditional_branch(cpu: &mut Cpu, i: u32)
    requires
        old(cpu).wf(),
    ensures
        final(cpu).wf(),
        thumb_frame(*old(cpu), *final(cpu)),
        final(cpu).cpsr == old(cpu).cpsr,
        fmt18_post(*old(cpu), *final(cpu), i),
{
    let raw = bits_of(i, 0, 11);
    let pc = cpu.regs.pc();
    let target = if raw >= 0x400 { pc.wrapping_sub((0x800 - raw) * 2) } else { pc.wrapping_add(raw * 2) };
    cpu.set_pc_thumb(target);
}

/// Format 19: BL in two halves. The first sets LR = PC + (offset << 12)
/// (signed); the second branches to LR + offset * 2 and sets LR to the next
/// instruction with bit 0 set.
#[verifier::spinoff_prover]
fn fmt19_long_branch_link(cpu: &mut Cpu, i: u32)
    requires
        old(cpu).wf(),
    ensures
        final(cpu).wf(),
        thumb_frame(*old(cpu), *final(cpu)),
        final(cpu).cpsr == old(cpu).cpsr,
        fmt19_post(*old(cpu), *final(cpu), i),
{
    let raw = bits_of(i, 0, 11);
    if !bit_of(i, 11) {
        let pc = cpu.regs.pc();
        let lr = if raw >= 0x400 { pc.wrapping_sub((0x800 - raw) * 0x1000) } else { pc.wrapping_add(raw * 0x1000) };
        cpu.regs.set_lr(lr);
    } else {
        let target = cpu.regs.lr().wrapping_add(raw * 2);
        let return_addr = cpu.regs.pc().wrapping_sub(2) | 1u32;
        cpu.regs.set_lr(return_addr);
        cpu.set_pc_thumb(target);
    }
}

/// A listed register comes before every higher register of the list.
proof fn lemma_bits_below_grows(list: u32, j: int, k: int)
    requires
        0 <= j < k,
    ensures
        bits_below(list, j) <= bits_below(list, k),
        flag(list, j as nat) ==> bits_below(list, j) + 1 <= bits_below(list, k),
    decreases k - j,
{
    if j + 1 < k {
        lemma_bits_below_grows(list, j + 1, k);
    }
}

/// Bit `j + 1` of `list` is bit `j` of `list / 2`.
proof fn lemma_flag_half(list: u32, j: nat)
    ensures
        flag(list, j + 1) == flag((list / 2) as u32, j),
        flag(list, 0) == (list % 2 == 1),
{
    vstd::arithmetic::power2::lemma_pow2_unfold(j + 1);
    vstd::arithmetic::power2::lemma_pow2_pos(j);
    vstd::arithmetic::div_mod::lemma_div_denominator(list as int, 2, vstd::arithmetic::power2::pow2(j) as int);
    vstd::arithmetic::power2::lemma2_to64();
}

/// Counting the registers below `k` starts with bit 0 and goes on with
/// the higher bits shifted down.
proof fn lemma_bits_below_half(list: u32, k: int)
    requires
        k >= 1,
    ensures
        bits_below(list, k) == (if flag(list, 0) { 1int } else { 0 }) + bits_below((list / 2) as u32, k - 1),
    decreases k,
{
    if k > 1 {
        lemma_bits_below_half(list, k - 1);
        lemma_flag_half(list, (k - 2) as nat);
        assert(((k - 2) as nat + 1) as nat == (k - 1) as nat);
        assert(bits_below(list, k) == bits_below(list, k - 1) + if flag(list, (k - 1) as nat) { 1int } else { 0 });
        assert(bits_below((list / 2) as u32, k - 1) == bits_below((list / 2) as u32, k - 2) + if flag(
            (list / 2) as u32,
            (k - 2) as nat,
        ) {
            1int
        } else {
            0
        });
    } else {
        assert(bits_below(list, 1) == bits_below(list, 0) + if flag(list, 0) { 1int } else { 0 });
    }
}

/// The registers of a list below `2^k` are those below register `k`.
proof fn lemma_count_is_bits_below(list: u32, k: nat)
    requires
        list < vstd::arithmetic::power2::pow2(k),
    ensures
        list_count(list) == bits_below(list, k as int),
    decreases k,
{
    if k == 0 {
        vstd::arithmetic::power2::lemma2_to64();
        assert(list == 0);
    } else {
        vstd::arithmetic::power2::lemma_pow2_unfold(k);
        lemma_count_is_bits_below((list / 2) as u32, (k - 1) as nat);
        lemma_bits_below_half(list, k as int);
        lemma_flag_half(list, 0);
    }
}

/// A stack of `n` words from `start` (stored at the word-aligned
/// addresses) lies in one work RAM window.
pub open spec fn stack_in_ram(start: u32, n: int) -> bool {
    stack_window(align4(start), n)
}

/// `n` words from aligned `s` lie in one work RAM window.
pub open spec fn stack_window(s: u32, n: int) -> bool {
    &&& s % 4 == 0
    &&& crate::bus::region(s) == 2 && s as int % 0x4_0000 + 4 * n <= 0x4_0000 || crate::bus::region(s) == 3
        && s as int % 0x8000 + 4 * n <= 0x8000
}

/// The size of the work RAM window of region `rg`.
pub open spec fn window_of(rg: u32) -> int {
    if rg == 2 { 0x4_0000 } else { 0x8000 }
}

/// Word `b` of a stack in a work RAM: no wrap, the same region, the offset
/// `4 * b` further on.
proof fn lemma_stack_word(start: u32, n: int, b: int)
    requires
        stack_window(start, n),
        0 <= b < n,
    ensures
        start + 4 * b < 0x1_0000_0000,
        crate::bus::region((start + 4 * b) as u32) == crate::bus::region(start),
        (start + 4 * b) as int % window_of(crate::bus::region(start)) == start as int % window_of(
            crate::bus::region(start),
        ) + 4 * b,
        (start + 4 * b) as u32 % 4 == 0,
{
    let d = (4 * b) as u32;
    if crate::bus::region(start) == 2 {
        assert(start % 0x4_0000 + d < 0x4_0000 && start % 4 == 0 && d % 4 == 0 ==> start + d >= start && (
        start + d) as u32 / 0x100_0000 == start / 0x100_0000 && (start + d) as u32 % 0x4_0000 == start % 0x4_0000 + d
            && (start + d) as u32 % 4 == 0) by (bit_vector);
    } else {
        assert(start % 0x8000 + d < 0x8000 && start % 4 == 0 && d % 4 == 0 ==> start + d >= start && (start + d) as u32
            / 0x100_0000 == start / 0x100_0000 && (start + d) as u32 % 0x8000 == start % 0x8000 + d && (start + d) as u32
            % 4 == 0) by (bit_vector);
    }
}

/// A word stored at one aligned address of a work RAM leaves the words at
/// other aligned addresses of that RAM as they were.
proof fn lemma_word_written_other(b: Bus, f: Bus, a: u32, a2: u32, v: u32)
    requires
        b.wf(),
        crate::bus::region(a) == 2 || crate::bus::region(a) == 3,
        crate::bus::region(a2) == crate::bus::region(a),
        a % 4 == 0,
        a2 % 4 == 0,
        b.word_written(f, a, v),
    ensures
        f.wf(),
        a as int % window_of(crate::bus::region(a)) != a2 as int % window_of(crate::bus::region(a)) ==> f.word_at(a2)
            == b.word_at(a2),
        f.word_at(a) == v,
{
    crate::bus::law_word_round_trip(b, f, a, v);
    assert((a % 0x4_0000u32) % 4 == 0 && (a2 % 0x4_0000u32) % 4 == 0 && (a % 0x8000u32) % 4 == 0 && (a2 % 0x8000u32)
        % 4 == 0) by (bit_vector)
        requires
            a % 4 == 0,
            a2 % 4 == 0,
    ;
}

/// The slot of a listed register of a stack in a work RAM.
#[verifier::spinoff_prover]
proof fn lemma_slot_in_stack(list: u32, start: u32, k: int)
    requires
        list < 256,
        stack_in_ram(start, list_count(list)),
        0 <= k < 16,
        flag(list, k as nat),
    ensures
        0 <= bits_below(list, k) < list_count(list),
        align4(block_slot(start, list, k)) == align4(start) + 4 * bits_below(list, k),
        crate::bus::region(align4(block_slot(start, list, k))) == crate::bus::region(align4(start)),
        align4(block_slot(start, list, k)) as int % window_of(crate::bus::region(align4(start))) == align4(start) as int
            % window_of(crate::bus::region(align4(start))) + 4 * bits_below(list, k),
        align4(block_slot(start, list, k)) % 4 == 0,
{
    assert(list < vstd::arithmetic::power2::pow2(16)) by {
        vstd::arithmetic::power2::lemma2_to64();
    }
    lemma_count_is_bits_below(list, 16);
    lemma_bits_below_grows(list, k, 16);
    lemma_bits_below_nonneg(list, k);
    let s = align4(start);
    let b = bits_below(list, k);
    lemma_stack_word(s, list_count(list), b);
    assert(s + 4 * b + 4 <= 0x1_0000_0000) by {
        assert((s + 4 * b) as u32 % 4 == 0);
    }
    let r = start % 4;
    assert(start == s + r);
    assert(block_slot(start, list, k) == start + 4 * b);
    assert((s + 4 * b + r) % 4 == r) by {
        vstd::arithmetic::div_mod::lemma_fundamental_div_mod(s + 4 * b, 4);
        vstd::arithmetic::div_mod::lemma_fundamental_div_mod_converse(s + 4 * b + r, 4, (s + 4 * b) / 4, r as int);
    }
}

/// No list has fewer than no registers below `k`.
proof fn lemma_bits_below_nonneg(list: u32, k: int)
    ensures
        bits_below(list, k) >= 0,
    decreases k,
{
    if k > 0 {
        lemma_bits_below_nonneg(list, k - 1);
    }
}

/// The turns of a PUSH trace keep the bus well formed, and each stored
/// register stays in its slot to the end.
#[verifier::spinoff_prover]
proof fn lemma_push_trace(t: Seq<Bus>, o: Cpu, list: u32, start: u32, j: int)
    requires
        crate::cpu::arm::block_stores(t, o, list, start, 13, None),
        t[0].wf(),
        list < 256,
        stack_in_ram(start, list_count(list)),
        0 <= j <= 16,
    ensures
        t[j].wf(),
        forall|k: int|
            0 <= k < j && #[trigger] flag(list, k as nat) ==> t[j].word_at(align4(block_slot(start, list, k))) == o.reg(k),
    decreases j,
{
    if j > 0 {
        lemma_push_trace(t, o, list, start, j - 1);
        let i = j - 1;
        assert(crate::cpu::arm::block_store(t[i], t[i + 1], o, list, start, i, 13, None));
        if flag(list, i as nat) {
            lemma_byte_list_high(list);
            lemma_slot_in_stack(list, start, i);
            let a = align4(block_slot(start, list, i));
            assert(i < 8);
            assert(crate::cpu::arm::stored_reg(o, i, 13, None) == o.reg(i));
            assert(t[i].word_written(t[j], a, o.reg(i)));
            lemma_word_written_other(t[i], t[j], a, a, o.reg(i));
            assert forall|k: int| 0 <= k < j && #[trigger] flag(list, k as nat) implies t[j].word_at(
                align4(block_slot(start, list, k)),
            ) == o.reg(k) by {
                if k < i {
                    lemma_bits_below_grows(list, k, i);
                    lemma_slot_in_stack(list, start, k);
                    lemma_word_written_other(t[i], t[j], a, align4(block_slot(start, list, k)), o.reg(i));
                }
            }
        }
    }
}

/// Law: a PUSH of registers of R0-R7 and then a POP of as many registers
/// of R0-R7, with the stack in a work RAM (SP aligned or not: the words
/// go to the aligned addresses), gives the popped registers, in ascending
/// order, the pushed values in ascending order, and SP its value from
/// before the PUSH.
pub proof fn law_push_pop_round_trip(o: Cpu, m: Cpu, f: Cpu, ob: Bus, mb: Bus, fb: Bus, push: u32, pop: u32)
    requires
        o.wf(),
        ob.wf(),
        !flag(push, 11) && !flag(push, 8),
        flag(pop, 11) && !flag(pop, 8),
        fmt14_post(o, m, ob, mb, push),
        fmt14_post(m, f, mb, fb, pop),
        list_count(field(pop, 0, 8)) == list_count(field(push, 0, 8)),
        stack_in_ram(
            ((o.reg(13) as int - 4 * list_count(field(push, 0, 8)) + 0x1_0000_0000) % 0x1_0000_0000) as u32,
            list_count(field(push, 0, 8)),
        ),
    ensures
        f.reg(13) == o.reg(13),
        forall|k1: int, k2: int|
            0 <= k1 < 8 && 0 <= k2 < 8 && #[trigger] flag(field(push, 0, 8), k1 as nat) && #[trigger] flag(
                field(pop, 0, 8),
                k2 as nat,
            ) && bits_below(field(push, 0, 8), k1) == bits_below(field(pop, 0, 8), k2) ==> f.reg(k2) == o.reg(k1),
{
    let l1 = field(push, 0, 8);
    let l2 = field(pop, 0, 8);
    let n = list_count(l1);
    let start = ((o.reg(13) as int - 4 * n + 0x1_0000_0000) % 0x1_0000_0000) as u32;
    assert(l1 < 256 && l2 < 256) by {
        vstd::arithmetic::power2::lemma2_to64();
    }
    assert(push_list(push) == l1);
    let t = choose|t: Seq<Bus>| #[trigger] crate::cpu::arm::block_stores(t, o, l1, start, 13, None) && t[0] == ob
        && t[16] == mb;
    lemma_push_trace(t, o, l1, start, 16);
    assert(m.reg(13) == start);
    assert(list_count(l2) + 0 == n);
    assert(crate::cpu::arm::block_plain(mb, start, l2)) by {
        assert forall|k: int| 0 <= k < 16 && #[trigger] flag(l2, k as nat) implies !(crate::bus::region(
            (block_slot(start, l2, k) - block_slot(start, l2, k) % 4) as u32,
        ) == 0xD && mb.cartridge.save_type == crate::cartridge::SaveType::Eeprom) by {
            lemma_slot_in_stack(l2, start, k);
        }
    }
    assert forall|k1: int, k2: int|
        0 <= k1 < 8 && 0 <= k2 < 8 && #[trigger] flag(l1, k1 as nat) && #[trigger] flag(l2, k2 as nat) && bits_below(
            l1,
            k1,
        ) == bits_below(l2, k2) implies f.reg(k2) == o.reg(k1) by {
        lemma_slot_in_stack(l2, start, k2);
        lemma_slot_in_stack(l1, start, k1);
        assert(block_slot(start, l2, k2) == block_slot(start, l1, k1));
        assert(f.reg(k2) == crate::cpu::arm::block_loaded(mb, start, l2, k2));
    }
    let x = o.reg(13) as int;
    assert(l1 < vstd::arithmetic::power2::pow2(16)) by {
        vstd::arithmetic::power2::lemma2_to64();
    }
    lemma_count_is_bits_below(l1, 16);
    lemma_bits_below_nonneg(l1, 16);
    assert(0 <= 4 * n <= 0x4_0000);
    if x >= 4 * n {
        vstd::arithmetic::div_mod::lemma_fundamental_div_mod_converse(x - 4 * n + 0x1_0000_0000, 0x1_0000_0000, 1, x - 4 * n);
        assert(start == x - 4 * n);
    } else {
        vstd::arithmetic::div_mod::lemma_fundamental_div_mod_converse(x - 4 * n + 0x1_0000_0000, 0x1_0000_0000, 0, x - 4 * n + 0x1_0000_0000);
        assert(start == x - 4 * n + 0x1_0000_0000);
    }
}

} // verus!
