use auroragba::bus::Bus;
use auroragba::cpu::psr::{CpuMode, PsrFlags};
use auroragba::cpu::Cpu;
use auroragba::cpu::thumb::{decode, ThumbFormat};

fn make_gba_with_rom(rom_words: &[u32]) -> (Cpu, Bus) {
    let mut bus = Bus::new();
    for (i, w) in rom_words.iter().enumerate() {
        bus.write_u32(0x0200_0000 + (i as u32) * 4, *w);
    }
    let mut cpu = Cpu::new();
    cpu.regs.set_pc(0x0200_0000);
    (cpu, bus)
}

#[test]
fn branch_forward_unconditional() {
    let b = 0xEA_00_00_00;
    let (mut cpu, mut bus) = make_gba_with_rom(&[b]);
    cpu.step(&mut bus);
    assert_eq!(cpu.regs.pc(), 0x0200_0008, "PC must point at the instruction plus 8");
}

#[test]
fn branch_link_saves_lr() {
    let bl = 0xEB_00_00_00;
    let (mut cpu, mut bus) = make_gba_with_rom(&[bl]);
    cpu.step(&mut bus);
    assert_eq!(cpu.regs.lr(), 0x0200_0004);
}


#[test]
fn mov_immediate() {
    let (mut cpu, mut bus) = make_gba_with_rom(&[0xE3A0_0008]);
    cpu.step(&mut bus);
    assert_eq!(cpu.regs.get(0), 8);
}

#[test]
fn add_immediate() {
    let (mut cpu, mut bus) = make_gba_with_rom(&[0xE280_1005]);
    cpu.regs.set(0, 10);
    cpu.step(&mut bus);
    assert_eq!(cpu.regs.get(1), 15);
}

#[test]
fn subs_sets_flags_negative_and_borrow() {
    let (mut cpu, mut bus) = make_gba_with_rom(&[0xE250_0001]);
    cpu.regs.set(0, 0);
    cpu.step(&mut bus);
    assert_eq!(cpu.regs.get(0), 0xFFFF_FFFF);
    assert!(cpu.cpsr.n());
    assert!(!cpu.cpsr.z());
    assert!(!cpu.cpsr.c());
}

#[test]
fn cmp_equal_sets_zero() {
    let (mut cpu, mut bus) = make_gba_with_rom(&[0xE350_0005]);
    cpu.regs.set(0, 5);
    cpu.step(&mut bus);
    assert!(cpu.cpsr.z());
    assert!(!cpu.cpsr.n());
    assert!(cpu.cpsr.c());
    assert_eq!(cpu.regs.get(0), 5, "CMP must not write Rd");
}

#[test]
fn movs_lsl_sets_carry() {
    let (mut cpu, mut bus) = make_gba_with_rom(&[0xE1B0_0081]);
    cpu.regs.set(1, 0x8000_0000);
    cpu.step(&mut bus);
    assert_eq!(cpu.regs.get(0), 0);
    assert!(cpu.cpsr.z());
    assert!(cpu.cpsr.c(), "LSL #1 of bit 31 must set C");
}

#[test]
fn orr_immediate() {
    let (mut cpu, mut bus) = make_gba_with_rom(&[0xE380_00FF]);
    cpu.regs.set(0, 0xFF00);
    cpu.step(&mut bus);
    assert_eq!(cpu.regs.get(0), 0xFFFF);
}

#[test]
fn mrs_reads_cpsr() {
    let (mut cpu, mut bus) = make_gba_with_rom(&[0xE10F_0000]);
    cpu.step(&mut bus);
    assert_eq!(cpu.regs.get(0), cpu.cpsr.0);
}


#[test]
fn mul_basic() {
    let (mut cpu, mut bus) = make_gba_with_rom(&[0xE000_0291]);
    cpu.regs.set(1, 7);
    cpu.regs.set(2, 6);
    cpu.step(&mut bus);
    assert_eq!(cpu.regs.get(0), 42);
}

#[test]
fn mla_accumulates() {
    let (mut cpu, mut bus) = make_gba_with_rom(&[0xE020_3291]);
    cpu.regs.set(1, 5);
    cpu.regs.set(2, 6);
    cpu.regs.set(3, 7);
    cpu.step(&mut bus);
    assert_eq!(cpu.regs.get(0), 37);
}

#[test]
fn umull_basic() {
    let (mut cpu, mut bus) = make_gba_with_rom(&[0xE081_0392]);
    cpu.regs.set(2, 0xFFFF_FFFF);
    cpu.regs.set(3, 2);
    cpu.step(&mut bus);
    assert_eq!(cpu.regs.get(0), 0xFFFF_FFFE);
    assert_eq!(cpu.regs.get(1), 0x0000_0001);
}


#[test]
fn str_then_ldr_roundtrip() {
    let (mut cpu, mut bus) = make_gba_with_rom(&[0xE580_1004, 0xE590_2004]);
    cpu.regs.set(0, 0x0300_0000);
    cpu.regs.set(1, 0xDEAD_BEEF);
    cpu.step(&mut bus);
    cpu.step(&mut bus);
    assert_eq!(cpu.regs.get(2), 0xDEAD_BEEF);
}

#[test]
fn strb_then_ldrb() {
    let (mut cpu, mut bus) = make_gba_with_rom(&[0xE5C0_1000, 0xE5D0_2000]);
    cpu.regs.set(0, 0x0300_0010);
    cpu.regs.set(1, 0xAB);
    cpu.step(&mut bus);
    cpu.step(&mut bus);
    assert_eq!(cpu.regs.get(2), 0xAB);
}

#[test]
fn ldr_unaligned_rotates() {
    let (mut cpu, mut bus) = make_gba_with_rom(&[0xE580_1000, 0xE590_2001]);
    cpu.regs.set(0, 0x0300_0020);
    cpu.regs.set(1, 0x1234_5678);
    cpu.step(&mut bus);
    cpu.step(&mut bus);
    assert_eq!(cpu.regs.get(2), 0x7812_3456);
}


#[test]
fn strh_then_ldrh() {
    let (mut cpu, mut bus) = make_gba_with_rom(&[0xE1C0_10B0, 0xE1D0_20B0]);
    cpu.regs.set(0, 0x0300_0030);
    cpu.regs.set(1, 0xFFFF_BEEF);
    cpu.step(&mut bus);
    cpu.step(&mut bus);
    assert_eq!(cpu.regs.get(2), 0x0000_BEEF);
}

#[test]
fn ldrsb_sign_extends() {
    let (mut cpu, mut bus) = make_gba_with_rom(&[0xE5C0_1000, 0xE1D0_20D0]);
    cpu.regs.set(0, 0x0300_0040);
    cpu.regs.set(1, 0xFF);
    cpu.step(&mut bus);
    cpu.step(&mut bus);
    assert_eq!(cpu.regs.get(2), 0xFFFF_FFFF);
}


#[test]
fn stmia_then_ldmia() {
    let (mut cpu, mut bus) = make_gba_with_rom(&[0xE8A0_000E, 0xE8B0_0070]);
    cpu.regs.set(0, 0x0300_0080);
    cpu.regs.set(1, 0x1111);
    cpu.regs.set(2, 0x2222);
    cpu.regs.set(3, 0x3333);
    cpu.step(&mut bus);
    assert_eq!(cpu.regs.get(0), 0x0300_008C);
    cpu.regs.set(0, 0x0300_0080);
    cpu.step(&mut bus);
    assert_eq!(cpu.regs.get(4), 0x1111);
    assert_eq!(cpu.regs.get(5), 0x2222);
    assert_eq!(cpu.regs.get(6), 0x3333);
    assert_eq!(cpu.regs.get(0), 0x0300_008C);
}

#[test]
fn ldm_empty_list_loads_pc_and_adds_0x40() {
    let (mut cpu, mut bus) = make_gba_with_rom(&[0xE8B0_0000]);
    cpu.regs.set(0, 0x0300_0000);
    bus.write_u32(0x0300_0000, 0x0800_1234);
    cpu.step(&mut bus);
    assert_eq!(cpu.regs.pc(), 0x0800_1234, "R15 loaded from the base address");
    assert_eq!(cpu.regs.get(0), 0x0300_0040, "Rn += 0x40");
}

#[test]
fn stm_base_in_list_not_lowest_stores_writeback() {
    let (mut cpu, mut bus) = make_gba_with_rom(&[0xE921_000F]);
    cpu.regs.set(0, 0xA);
    cpu.regs.set(1, 0x0300_0040);
    cpu.regs.set(2, 0xC);
    cpu.regs.set(3, 0xD);
    cpu.step(&mut bus);
    let final_base = 0x0300_0040u32 - 0x10;
    assert_eq!(cpu.regs.get(1), final_base, "r1 written back");
    assert_eq!(bus.read_u32(final_base), 0xA, "r0 (lowest) unchanged");
    assert_eq!(bus.read_u32(final_base + 4), final_base, "r1 stores the written-back value");
    assert_eq!(bus.read_u32(final_base + 8), 0xC);
    assert_eq!(bus.read_u32(final_base + 12), 0xD);
}


#[test]
fn swp_word_exchanges() {
    let (mut cpu, mut bus) = make_gba_with_rom(&[0xE100_2091]);
    cpu.regs.set(0, 0x0300_0040);
    cpu.regs.set(1, 0xCAFE_BABE);
    bus.write_u32(0x0300_0040, 0x1234_5678);
    cpu.step(&mut bus);
    assert_eq!(cpu.regs.get(2), 0x1234_5678, "Rd gets the old value");
    assert_eq!(bus.read_u32(0x0300_0040), 0xCAFE_BABE, "memory gets Rm");
}

#[test]
fn swpb_byte_exchanges() {
    let (mut cpu, mut bus) = make_gba_with_rom(&[0xE140_2091]);
    cpu.regs.set(0, 0x0300_0050);
    cpu.regs.set(1, 0xAB);
    bus.write_u8(0x0300_0050, 0xCD);
    cpu.step(&mut bus);
    assert_eq!(cpu.regs.get(2), 0xCD, "Rd gets the old byte");
    assert_eq!(bus.read_u8(0x0300_0050), 0xAB, "memory gets the byte of Rm");
}

#[test]
fn swp_same_reg_swaps_with_memory() {
    let (mut cpu, mut bus) = make_gba_with_rom(&[0xE100_1091]);
    cpu.regs.set(0, 0x0300_0060);
    cpu.regs.set(1, 0x1111_2222);
    bus.write_u32(0x0300_0060, 0xAAAA_BBBB);
    cpu.step(&mut bus);
    assert_eq!(cpu.regs.get(1), 0xAAAA_BBBB);
    assert_eq!(bus.read_u32(0x0300_0060), 0x1111_2222);
}


#[test]
fn swi_enters_supervisor_mode() {
    let (mut cpu, mut bus) = make_gba_with_rom(&[0xEF00_0000]);
    bus.hle_bios = false;
    cpu.step(&mut bus);
    assert_eq!(cpu.regs.pc(), 0x08);
    assert_eq!(cpu.cpsr.mode(), CpuMode::Supervisor);
    assert_eq!(cpu.regs.lr(), 0x0200_0004);
}

#[test]
fn hle_swi_div() {
    let (mut cpu, mut bus) = make_gba_with_rom(&[0xEF06_0000]);
    cpu.regs.set(0, 10);
    cpu.regs.set(1, 3);
    cpu.step(&mut bus);
    assert_eq!(cpu.regs.get(0), 3, "quotient");
    assert_eq!(cpu.regs.get(1), 1, "remainder");
    assert_eq!(cpu.regs.get(3), 3, "|quotient|");
    assert_eq!(cpu.regs.pc(), 0x0200_0004, "goes on with the next instruction");
    assert_eq!(cpu.cpsr.mode(), CpuMode::Supervisor, "the mode stays");
}

#[test]
fn hle_swi_halt_then_wakes_on_irq() {
    let (mut cpu, mut bus) = make_gba_with_rom(&[0xEF02_0000, 0xE320_F000]);
    cpu.step(&mut bus);
    assert!(cpu.halted);

    let pc = cpu.regs.pc();
    cpu.step(&mut bus);
    assert!(cpu.halted);
    assert_eq!(cpu.regs.pc(), pc);

    bus.io.ie = 0x0001;
    bus.io.iflag = 0x0001;
    bus.io.ime = true;
    cpu.cpsr.set_flag(PsrFlags::I, false);
    cpu.step(&mut bus);
    assert!(!cpu.halted);
    assert_eq!(cpu.regs.pc(), 0x18);
}


fn make_gba_thumb(words: &[u16]) -> (Cpu, Bus) {
    let mut bus = Bus::new();
    for (i, w) in words.iter().enumerate() {
        bus.write_u16(0x0200_0000 + (i as u32) * 2, *w);
    }
    let mut cpu = Cpu::new();
    cpu.cpsr.set_flag(PsrFlags::T, true);
    cpu.regs.set_pc(0x0200_0000);
    (cpu, bus)
}

#[test]
fn thumb_mov_imm() {
    let (mut cpu, mut bus) = make_gba_thumb(&[0x202A]);
    cpu.step(&mut bus);
    assert_eq!(cpu.regs.get(0), 42);
}

#[test]
fn thumb_add_reg() {
    let (mut cpu, mut bus) = make_gba_thumb(&[0x1842]);
    cpu.regs.set(0, 10);
    cpu.regs.set(1, 20);
    cpu.step(&mut bus);
    assert_eq!(cpu.regs.get(2), 30);
}

#[test]
fn thumb_lsl_imm() {
    let (mut cpu, mut bus) = make_gba_thumb(&[0x0101]);
    cpu.regs.set(0, 0xAB);
    cpu.step(&mut bus);
    assert_eq!(cpu.regs.get(1), 0xAB0);
}

#[test]
fn thumb_bx_to_arm() {
    let (mut cpu, mut bus) = make_gba_thumb(&[0x4700]);
    cpu.regs.set(0, 0x0200_0100);
    cpu.step(&mut bus);
    assert!(!cpu.cpsr.thumb(), "must be in ARM state now");
    assert_eq!(cpu.regs.pc(), 0x0200_0100);
}

#[test]
fn thumb_push_pop() {
    let (mut cpu, mut bus) = make_gba_thumb(&[0xB403, 0xBC0C]);
    cpu.regs.set(13, 0x0300_7F00);
    cpu.regs.set(0, 0xAAAA);
    cpu.regs.set(1, 0xBBBB);
    cpu.step(&mut bus);
    cpu.step(&mut bus);
    assert_eq!(cpu.regs.get(2), 0xAAAA);
    assert_eq!(cpu.regs.get(3), 0xBBBB);
    assert_eq!(cpu.regs.get(13), 0x0300_7F00);
}

#[test]
fn thumb_unconditional_branch() {
    let (mut cpu, mut bus) = make_gba_thumb(&[0xE002]);
    cpu.step(&mut bus);
    assert_eq!(cpu.regs.pc(), 0x0200_0008);
}


#[test]
fn irq_dispatches_to_vector() {
    let (mut cpu, mut bus) = make_gba_with_rom(&[0xE320_F000]);
    bus.io.ime = true;
    bus.io.ie = 0x0008;
    bus.io.iflag = 0x0008;
    cpu.cpsr.set_flag(PsrFlags::I, false);

    cpu.step(&mut bus);
    assert_eq!(cpu.regs.pc(), 0x18);
    assert_eq!(cpu.cpsr.mode(), CpuMode::Irq);
    assert!(cpu.cpsr.irq_disabled(), "the I bit is set on exception entry");
}

#[test]
fn irq_blocked_when_cpsr_i_set() {
    let (mut cpu, mut bus) = make_gba_with_rom(&[0xE320_F000]);
    bus.io.ime = true;
    bus.io.ie = 0x0001;
    bus.io.iflag = 0x0001;
    cpu.cpsr.set_flag(PsrFlags::I, true);
    cpu.step(&mut bus);
    assert_ne!(cpu.regs.pc(), 0x18, "no IRQ with I set");
}

#[test]
fn branch_condition_false_skips() {
    let beq = 0x0A_00_00_00;
    let (mut cpu, mut bus) = make_gba_with_rom(&[beq]);
    assert!(!cpu.cpsr.z());
    cpu.step(&mut bus);
    assert_eq!(cpu.regs.pc(), 0x0200_0004);
}

#[test]
fn thumb_decode_picks_each_format() {
    assert_eq!(decode(0x0048), ThumbFormat::MoveShifted); // LSL r0, r1, #1
    assert_eq!(decode(0x1888), ThumbFormat::AddSub); // ADD r0, r1, r2
    assert_eq!(decode(0x2005), ThumbFormat::ImmOp); // MOV r0, #5
    assert_eq!(decode(0x4048), ThumbFormat::Alu); // EOR r0, r1
    assert_eq!(decode(0x4770), ThumbFormat::HiReg); // BX lr
    assert_eq!(decode(0x4801), ThumbFormat::PcLoad); // LDR r0, [pc, #4]
    assert_eq!(decode(0x5088), ThumbFormat::LoadStoreReg); // STR r0, [r1, r2]
    assert_eq!(decode(0x5E88), ThumbFormat::LoadStoreSignExt); // LDSH r0, [r1, r2]
    assert_eq!(decode(0x6808), ThumbFormat::LoadStoreImm); // LDR r0, [r1]
    assert_eq!(decode(0x8808), ThumbFormat::LoadStoreHalf); // LDRH r0, [r1]
    assert_eq!(decode(0x9001), ThumbFormat::SpLoadStore); // STR r0, [sp, #4]
    assert_eq!(decode(0xA001), ThumbFormat::LoadAddress); // ADD r0, pc, #4
    assert_eq!(decode(0xB082), ThumbFormat::AddSp); // SUB sp, #8
    assert_eq!(decode(0xB510), ThumbFormat::PushPop); // PUSH {r4, lr}
    assert_eq!(decode(0xC103), ThumbFormat::MultiLoadStore); // STMIA r1!, {r0, r1}
    assert_eq!(decode(0xD0FE), ThumbFormat::CondBranch); // BEQ .
    assert_eq!(decode(0xDF05), ThumbFormat::Swi); // SWI 5
    assert_eq!(decode(0xE7FE), ThumbFormat::Branch); // B .
    assert_eq!(decode(0xF000), ThumbFormat::LongBranchLink); // BL (high half)
    assert_eq!(decode(0xF800), ThumbFormat::LongBranchLink); // BL (low half)
}

#[test]
fn ldmia_loads_registers_from_ascending_words() {
    // LDMIA r0, {r1, r2}
    let (mut cpu, mut bus) = make_gba_with_rom(&[0xE890_0006]);
    bus.write_u32(0x0200_0100, 0x1111_1111);
    bus.write_u32(0x0200_0104, 0x2222_2222);
    cpu.regs.set(0, 0x0200_0100);
    cpu.step(&mut bus);
    assert_eq!(cpu.regs.get(1), 0x1111_1111);
    assert_eq!(cpu.regs.get(2), 0x2222_2222);
    assert_eq!(cpu.regs.get(0), 0x0200_0100, "no writeback without W");
}

#[test]
fn str_pre_indexed_stores_and_ldr_rotates_unaligned() {
    // STR r1, [r0, #4]! ; LDR r2, [r0, #1]
    let (mut cpu, mut bus) = make_gba_with_rom(&[0xE5A0_1004, 0xE590_2001]);
    cpu.regs.set(0, 0x0200_0200);
    cpu.regs.set(1, 0xAABB_CCDD);
    cpu.step(&mut bus);
    assert_eq!(bus.read_u32(0x0200_0204), 0xAABB_CCDD);
    assert_eq!(cpu.regs.get(0), 0x0200_0204, "writeback of the pre-indexed address");
    cpu.step(&mut bus);
    assert_eq!(cpu.regs.get(2), 0xDDAA_BBCC, "the aligned word rotated right by 8");
}

#[test]
fn thumb_str_then_ldrh_with_immediate_offsets() {
    // STR r1, [r0, #4] ; LDRH r2, [r0, #6]
    let (mut cpu, mut bus) = make_gba_thumb(&[0x6041, 0x88C2]);
    cpu.regs.set(0, 0x0200_0300);
    cpu.regs.set(1, 0x1234_5678);
    cpu.step(&mut bus);
    assert_eq!(bus.read_u32(0x0200_0304), 0x1234_5678);
    cpu.step(&mut bus);
    assert_eq!(cpu.regs.get(2), 0x1234, "upper halfword of the stored word");
}

#[test]
fn reset_state_of_a_new_cpu() {
    let cpu = Cpu::new();
    assert_eq!(cpu.cpsr.0, 0xD3);
    assert_eq!(cpu.regs.sp(), 0);
    assert_eq!(cpu.regs.lr(), 0);
    for i in 0..5 {
        assert_eq!(cpu.spsr[i].0, 0xDF);
    }
    assert_eq!(cpu.stats.arm_executed, 0);
    assert_eq!(cpu.stats.thumb_executed, 0);
    assert!(cpu.stats.recent_unimplemented.is_empty());
}

#[test]
fn subs_pc_lr_returns_from_irq() {
    // The IRQ is taken at the first step; SUBS PC, LR, #4 at 0x18 returns.
    let (mut cpu, mut bus) = make_gba_with_rom(&[0xE1A0_0000, 0xE1A0_0000]);
    bus.io.ime = true;
    bus.io.ie = 0x0001;
    bus.io.iflag = 0x0001;
    cpu.cpsr.set_flag(PsrFlags::I, false);
    let before = cpu.cpsr.0;
    cpu.step(&mut bus);
    assert_eq!(cpu.regs.pc(), 0x18);
    assert_eq!(cpu.cpsr.mode(), CpuMode::Irq);
    // The handler's return, SUBS PC, LR, #4, run from work RAM in IRQ mode.
    let (mut c2, mut b2) = make_gba_with_rom(&[0xE25E_F004]);
    c2.cpsr = cpu.cpsr;
    c2.spsr = cpu.spsr;
    let lr = cpu.regs.lr();
    let pc0 = c2.regs.pc();
    c2.regs.switch_mode(CpuMode::Irq);
    c2.regs.set_pc(pc0);
    c2.regs.set_lr(lr);
    c2.step(&mut b2);
    assert_eq!(c2.cpsr.0, before, "the CPSR comes back from SPSR_irq");
    assert_eq!(c2.regs.pc(), 0x0200_0000, "LR - 4: the interrupted instruction");
}

#[test]
fn thumb_push_lr_then_pop_pc() {
    // PUSH {r0, lr}; POP {r1, pc}
    let (mut cpu, mut bus) = make_gba_thumb(&[0xB501, 0xBD02]);
    cpu.regs.set(13, 0x0300_7F00);
    cpu.regs.set(0, 0x1234);
    cpu.regs.set_lr(0x0200_0101);
    cpu.step(&mut bus);
    assert_eq!(cpu.regs.get(13), 0x0300_7EF8);
    assert_eq!(bus.read_u32(0x0300_7EF8), 0x1234);
    assert_eq!(bus.read_u32(0x0300_7EFC), 0x0200_0101);
    cpu.step(&mut bus);
    assert_eq!(cpu.regs.get(1), 0x1234);
    assert_eq!(cpu.regs.get(13), 0x0300_7F00);
    assert_eq!(cpu.regs.pc(), 0x0200_0100);
    assert!(cpu.cpsr.thumb());
}

#[test]
fn thumb_lsr_by_register_sets_carry() {
    // LSR r0, r1
    let (mut cpu, mut bus) = make_gba_thumb(&[0x40C8]);
    cpu.regs.set(0, 3);
    cpu.regs.set(1, 1);
    cpu.step(&mut bus);
    assert_eq!(cpu.regs.get(0), 1);
    assert!(cpu.cpsr.c());
    assert!(!cpu.cpsr.z());
}

#[test]
fn thumb_adc_adds_carry() {
    // ADC r0, r1 with C set
    let (mut cpu, mut bus) = make_gba_thumb(&[0x4148]);
    cpu.cpsr.set_flag(PsrFlags::C, true);
    cpu.regs.set(0, 1);
    cpu.regs.set(1, 2);
    cpu.step(&mut bus);
    assert_eq!(cpu.regs.get(0), 4);
    assert!(!cpu.cpsr.c());
}

#[test]
fn thumb_cmp_high_registers_sets_zero() {
    // CMP r8, r9
    let (mut cpu, mut bus) = make_gba_thumb(&[0x45C8]);
    cpu.regs.set(8, 5);
    cpu.regs.set(9, 5);
    cpu.step(&mut bus);
    assert!(cpu.cpsr.z());
    assert!(cpu.cpsr.c());
    assert_eq!(cpu.regs.get(8), 5);
}

#[test]
fn thumb_stmia_base_not_lowest_stores_writeback() {
    // STMIA r1!, {r0, r1}
    let (mut cpu, mut bus) = make_gba_thumb(&[0xC103]);
    cpu.regs.set(0, 0xA);
    cpu.regs.set(1, 0x0300_0040);
    cpu.step(&mut bus);
    assert_eq!(cpu.regs.get(1), 0x0300_0048);
    assert_eq!(bus.read_u32(0x0300_0040), 0xA);
    assert_eq!(bus.read_u32(0x0300_0044), 0x0300_0048);
}

#[test]
fn setup_direct_boot_banks_stack_pointers() {
    let mut cpu = Cpu::new();
    cpu.regs.set_pc(0x0800_0000);
    cpu.setup_direct_boot();
    assert_eq!(cpu.regs.pc(), 0x0800_0000);
    assert_eq!(cpu.regs.sp(), 0x0300_7F00);
    cpu.regs.switch_mode(CpuMode::Irq);
    assert_eq!(cpu.regs.sp(), 0x0300_7FA0);
    cpu.regs.switch_mode(CpuMode::Supervisor);
    assert_eq!(cpu.regs.sp(), 0x0300_7FE0);
}

#[test]
fn tst_with_rd_field_leaves_registers() {
    // TST r1, r2 with bits 12-15 naming r3
    let (mut cpu, mut bus) = make_gba_with_rom(&[0xE111_3002]);
    cpu.regs.set(1, 1);
    cpu.regs.set(2, 2);
    cpu.regs.set(3, 0x77);
    cpu.step(&mut bus);
    assert!(cpu.cpsr.z());
    assert_eq!(cpu.regs.get(3), 0x77);
    assert_eq!(cpu.regs.pc(), 0x0200_0004);
}
