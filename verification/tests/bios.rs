use auroragba::bus::Bus;
use auroragba::cpu::bios::{cpu_fast_set, cpu_set, diff_unfilter, dispatch, isqrt, lz77_uncomp, rl_uncomp, sin_of};
use auroragba::cpu::Cpu;

const SRC: u32 = 0x0200_0000;
const DST: u32 = 0x0200_1000;

fn put(bus: &mut Bus, addr: u32, bytes: &[u8]) {
    for (i, b) in bytes.iter().enumerate() {
        bus.write_u8(addr + i as u32, *b);
    }
}

fn setup(src_bytes: &[u8]) -> (Cpu, Bus) {
    let mut bus = Bus::new();
    let cpu = Cpu::new();
    put(&mut bus, SRC, src_bytes);
    (cpu, bus)
}

#[test]
fn lz77_literal_and_backref() {
    let mut data = vec![0x10, 0x04, 0x00, 0x00];
    data.extend_from_slice(&[0x40, 0x41, 0x00, 0x00]);
    let (mut cpu, mut bus) = setup(&data);
    cpu.regs.set(0, SRC);
    cpu.regs.set(1, DST);
    lz77_uncomp(&mut cpu, &mut bus);
    let out: Vec<u8> = (0..4).map(|i| bus.read_u8(DST + i)).collect();
    assert_eq!(out, vec![0x41, 0x41, 0x41, 0x41]);
}

#[test]
fn rle_compressed_run() {
    let mut data = vec![0x30, 0x05, 0x00, 0x00];
    data.extend_from_slice(&[0x82, 0x58]);
    let (mut cpu, mut bus) = setup(&data);
    cpu.regs.set(0, SRC);
    cpu.regs.set(1, DST);
    rl_uncomp(&mut cpu, &mut bus);
    let out: Vec<u8> = (0..5).map(|i| bus.read_u8(DST + i)).collect();
    assert_eq!(out, vec![0x58; 5]);
}

#[test]
fn lz77_to_vram_preserves_distinct_bytes() {
    const VRAM: u32 = 0x0600_0000;
    let mut data = vec![0x10, 0x04, 0x00, 0x00];
    data.extend_from_slice(&[0x00, 0x11, 0x22, 0x33, 0x44]);
    let (mut cpu, mut bus) = setup(&data);
    cpu.regs.set(0, SRC);
    cpu.regs.set(1, VRAM);
    lz77_uncomp(&mut cpu, &mut bus);
    let out: Vec<u8> = (0..4).map(|i| bus.read_u8(VRAM + i)).collect();
    assert_eq!(out, vec![0x11, 0x22, 0x33, 0x44], "bytes corrupted by a byte write to VRAM");
}

#[test]
fn cpu_set_copy_halfwords() {
    let (mut cpu, mut bus) = setup(&[]);
    for i in 0..4u32 {
        bus.write_u16(SRC + i * 2, 0x1000 + i as u16);
    }
    cpu.regs.set(0, SRC);
    cpu.regs.set(1, DST);
    cpu.regs.set(2, 4);
    cpu_set(&mut cpu, &mut bus);
    for i in 0..4u32 {
        assert_eq!(bus.read_u16(DST + i * 2), 0x1000 + i as u16);
    }
}

#[test]
fn cpu_set_fill_word() {
    let (mut cpu, mut bus) = setup(&[]);
    bus.write_u32(SRC, 0xDEAD_BEEF);
    cpu.regs.set(0, SRC);
    cpu.regs.set(1, DST);
    cpu.regs.set(2, 3 | (1 << 24) | (1 << 26));
    cpu_set(&mut cpu, &mut bus);
    for i in 0..3u32 {
        assert_eq!(bus.read_u32(DST + i * 4), 0xDEAD_BEEF);
    }
}

#[test]
fn diff8_unfilter_accumulates() {
    let mut data = vec![0x00, 0x04, 0x00, 0x00];
    data.extend_from_slice(&[10, 5, 0xFE, 1]);
    let (mut cpu, mut bus) = setup(&data);
    cpu.regs.set(0, SRC);
    cpu.regs.set(1, DST);
    diff_unfilter(&mut cpu, &mut bus, false);
    let out: Vec<u8> = (0..4).map(|i| bus.read_u8(DST + i)).collect();
    assert_eq!(out, vec![10, 15, 13, 14]);
}

#[test]
fn cpu_fast_set_copies_blocks_of_eight_words() {
    let (mut cpu, mut bus) = setup(&[]);
    for i in 0..8u32 {
        bus.write_u32(SRC + i * 4, 0x5000_0000 + i);
    }
    cpu.regs.set(0, SRC);
    cpu.regs.set(1, DST);
    cpu.regs.set(2, 3);
    cpu_fast_set(&mut cpu, &mut bus);
    for i in 0..8u32 {
        assert_eq!(bus.read_u32(DST + i * 4), 0x5000_0000 + i);
    }
}

#[test]
fn integer_square_roots() {
    assert_eq!(isqrt(0), 0);
    assert_eq!(isqrt(15), 3);
    assert_eq!(isqrt(16), 4);
    assert_eq!(isqrt(0xFFFF_FFFF), 0xFFFF);
}

#[test]
fn sine_table_quarter_points() {
    assert_eq!(sin_of(0), 0);
    assert_eq!(sin_of(64), 16384);
    assert_eq!(sin_of(128), 0);
    assert_eq!(sin_of(192), -16384);
}

#[test]
fn bit_unpack_widens_one_bit_units() {
    const INFO: u32 = 0x0200_0800;
    let (mut cpu, mut bus) = setup(&[0b0000_0101]);
    put(&mut bus, INFO, &[0x01, 0x00, 0x01, 0x08, 0x00, 0x00, 0x00, 0x00]);
    cpu.regs.set(0, SRC);
    cpu.regs.set(1, DST);
    cpu.regs.set(2, INFO);
    dispatch(&mut cpu, &mut bus, 0x10);
    assert_eq!(bus.read_u32(DST), 0x0001_0001);
    assert_eq!(bus.read_u32(DST + 4), 0);
}

#[test]
fn bit_unpack_adds_offset_with_zero_flag() {
    const INFO: u32 = 0x0200_0800;
    let (mut cpu, mut bus) = setup(&[0b0000_0101]);
    put(&mut bus, INFO, &[0x01, 0x00, 0x01, 0x08, 0x02, 0x00, 0x00, 0x80]);
    cpu.regs.set(0, SRC);
    cpu.regs.set(1, DST);
    cpu.regs.set(2, INFO);
    dispatch(&mut cpu, &mut bus, 0x10);
    assert_eq!(bus.read_u32(DST), 0x0203_0203);
    assert_eq!(bus.read_u32(DST + 4), 0x0202_0202);
}

#[test]
fn bit_unpack_zero_source_width_writes_nothing() {
    const INFO: u32 = 0x0200_0800;
    let (mut cpu, mut bus) = setup(&[0xFF]);
    bus.write_u32(DST, 0x1234_5678);
    put(&mut bus, INFO, &[0x01, 0x00, 0x00, 0x08, 0x00, 0x00, 0x00, 0x00]);
    cpu.regs.set(0, SRC);
    cpu.regs.set(1, DST);
    cpu.regs.set(2, INFO);
    dispatch(&mut cpu, &mut bus, 0x10);
    assert_eq!(bus.read_u32(DST), 0x1234_5678);
}

#[test]
fn huffman_two_leaf_tree() {
    let data = [
        0x28, 0x04, 0x00, 0x00, // 8-bit symbols, 4 bytes out
        0x01, 0xC0, 0x41, 0x42, // tree: size byte, root with two leaves
        0x00, 0x00, 0x00, 0x60, // bits 0, 1, 1, 0
    ];
    let (mut cpu, mut bus) = setup(&data);
    cpu.regs.set(0, SRC);
    cpu.regs.set(1, DST);
    dispatch(&mut cpu, &mut bus, 0x13);
    let out: Vec<u8> = (0..4).map(|i| bus.read_u8(DST + i)).collect();
    assert_eq!(out, vec![0x41, 0x42, 0x42, 0x41]);
}

#[test]
fn bg_affine_set_unit_scale() {
    let data = [
        0x00, 0x10, 0x00, 0x00, // centre x 0x1000
        0x00, 0x20, 0x00, 0x00, // centre y 0x2000
        0x02, 0x00, 0x03, 0x00, // screen x 2, y 3
        0x00, 0x01, 0x00, 0x01, // scale 1.0, 1.0
        0x00, 0x00, // angle 0
    ];
    let (mut cpu, mut bus) = setup(&data);
    cpu.regs.set(0, SRC);
    cpu.regs.set(1, DST);
    cpu.regs.set(2, 1);
    dispatch(&mut cpu, &mut bus, 0x0E);
    assert_eq!(bus.read_u16(DST), 0x100);
    assert_eq!(bus.read_u16(DST + 2), 0);
    assert_eq!(bus.read_u16(DST + 4), 0);
    assert_eq!(bus.read_u16(DST + 6), 0x100);
    assert_eq!(bus.read_u32(DST + 8), 0x0E00);
    assert_eq!(bus.read_u32(DST + 12), 0x1D00);
}

#[test]
fn cpu_set_copies_exactly_n_words_and_keeps_registers() {
    let (mut cpu, mut bus) = setup(&[]);
    for i in 0..3u32 {
        bus.write_u32(SRC + i * 4, 0x0101_0101 * (i + 1));
    }
    bus.write_u32(DST + 8, 0x5555_5555);
    cpu.regs.set(0, SRC);
    cpu.regs.set(1, DST);
    cpu.regs.set(2, 2 | (1 << 26));
    dispatch(&mut cpu, &mut bus, 0x0B);
    assert_eq!(bus.read_u32(DST), 0x0101_0101);
    assert_eq!(bus.read_u32(DST + 4), 0x0202_0202);
    assert_eq!(bus.read_u32(DST + 8), 0x5555_5555, "only n units are stored");
    assert_eq!(cpu.regs.get(0), SRC);
    assert_eq!(cpu.regs.get(1), DST);
    assert_eq!(cpu.regs.get(2), 2 | (1 << 26));
}

#[test]
fn diff16_unfilter_accumulates_halfwords() {
    // Header: size 6 bytes; differences 0x0100, 0xFFFF, 0x0010.
    let data = vec![0x00, 0x06, 0x00, 0x00, 0x00, 0x01, 0xFF, 0xFF, 0x10, 0x00];
    let (mut cpu, mut bus) = setup(&data);
    cpu.regs.set(0, SRC);
    cpu.regs.set(1, DST);
    bus.write_u16(DST + 6, 0x7777);
    dispatch(&mut cpu, &mut bus, 0x18);
    assert_eq!(bus.read_u16(DST), 0x0100);
    assert_eq!(bus.read_u16(DST + 2), 0x00FF);
    assert_eq!(bus.read_u16(DST + 4), 0x010F);
    assert_eq!(bus.read_u16(DST + 6), 0x7777, "only the series is stored");
    assert_eq!(cpu.regs.get(0), SRC);
}

#[test]
fn diff16_unfilter_into_vram() {
    let data = vec![0x00, 0x04, 0x00, 0x00, 0x34, 0x12, 0x01, 0x00];
    let (mut cpu, mut bus) = setup(&data);
    cpu.regs.set(0, SRC);
    cpu.regs.set(1, 0x0600_0000);
    dispatch(&mut cpu, &mut bus, 0x18);
    assert_eq!(bus.read_u16(0x0600_0000), 0x1234);
    assert_eq!(bus.read_u16(0x0600_0002), 0x1235);
}

#[test]
fn cpu_set_aligns_the_destination_down() {
    let (mut cpu, mut bus) = setup(&[]);
    bus.write_u32(SRC, 0xCAFE_F00D);
    cpu.regs.set(0, SRC);
    cpu.regs.set(1, DST + 3);
    cpu.regs.set(2, 1 | (1 << 26));
    cpu_set(&mut cpu, &mut bus);
    assert_eq!(bus.read_u32(DST), 0xCAFE_F00D);
    assert_eq!(bus.read_u32(DST + 4), 0);
}

#[test]
fn unknown_and_arctan_services_change_nothing() {
    let (mut cpu, mut bus) = setup(&[]);
    cpu.regs.set(0, 0x1234);
    dispatch(&mut cpu, &mut bus, 0x09);
    dispatch(&mut cpu, &mut bus, 0x2A);
    assert_eq!(cpu.regs.get(0), 0x1234);
    assert!(!cpu.halted);
    dispatch(&mut cpu, &mut bus, 0x02);
    assert!(cpu.halted);
    assert_eq!(cpu.regs.get(0), 0x1234);
}
