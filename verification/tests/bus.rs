use auroragba::bus::Bus;

const DMA0_SAD: u32 = 0x0400_00B0;
const DMA0_DAD: u32 = 0x0400_00B4;
const DMA0_CNT_L: u32 = 0x0400_00B8;
const DMA0_CNT_H: u32 = 0x0400_00BA;

const SRC: u32 = 0x0200_0000;
const DST: u32 = 0x0200_1000;

/// Sets up channel 0 and starts an immediate transfer with `control`.
fn setup_immediate_dma(bus: &mut Bus, count: u16, control: u16) {
    bus.write_u32(DMA0_SAD, SRC);
    bus.write_u32(DMA0_DAD, DST);
    bus.write_u16(DMA0_CNT_L, count);
    bus.write_u16(DMA0_CNT_H, control);
}

#[test]
fn dma_immediate_word_copy() {
    let mut bus = Bus::new();
    for i in 0..4u32 {
        bus.write_u32(SRC + i * 4, 0x1100_0000 + i);
    }
    setup_immediate_dma(&mut bus, 4, (1 << 15) | (1 << 10));
    for i in 0..4u32 {
        assert_eq!(bus.read_u32(DST + i * 4), 0x1100_0000 + i);
    }
    assert!(!bus.dma.channels[0].enabled());
}

#[test]
fn dma_immediate_halfword_copy() {
    let mut bus = Bus::new();
    for i in 0..6u32 {
        bus.write_u16(SRC + i * 2, 0xA000 + i as u16);
    }
    setup_immediate_dma(&mut bus, 6, 1 << 15);
    for i in 0..6u32 {
        assert_eq!(bus.read_u16(DST + i * 2), 0xA000 + i as u16);
    }
}

#[test]
fn dma_fixed_source_fill() {
    let mut bus = Bus::new();
    bus.write_u32(SRC, 0xCAFE_F00D);
    setup_immediate_dma(&mut bus, 3, (1 << 15) | (1 << 10) | (2 << 7));
    for i in 0..3u32 {
        assert_eq!(bus.read_u32(DST + i * 4), 0xCAFE_F00D);
    }
}

#[test]
fn strb_to_palette_duplicates_halfword() {
    let mut bus = Bus::new();
    bus.write_u8(0x0500_0000, 0xAB);
    assert_eq!(bus.read_u16(0x0500_0000), 0xABAB);
    bus.write_u8(0x0500_0003, 0xCD);
    assert_eq!(bus.read_u16(0x0500_0002), 0xCDCD);
}

#[test]
fn strb_to_oam_is_ignored() {
    let mut bus = Bus::new();
    bus.write_u16(0x0700_0000, 0x1234);
    bus.write_u8(0x0700_0000, 0xFF);
    assert_eq!(bus.read_u16(0x0700_0000), 0x1234);
}

#[test]
fn strh_to_palette_is_not_duplicated() {
    let mut bus = Bus::new();
    bus.write_u16(0x0500_0000, 0x1234);
    assert_eq!(bus.read_u16(0x0500_0000), 0x1234);
}

#[test]
fn strb_to_obj_vram_is_ignored_in_tile_mode() {
    let mut bus = Bus::new();
    bus.ppu.dispcnt = 0;
    bus.write_u8(0x0601_0000, 0xEE);
    assert_eq!(bus.vram[0x10000], 0x00);
    bus.write_u8(0x0600_0000, 0xEE);
    assert_eq!(bus.read_u16(0x0600_0000), 0xEEEE);
}

#[test]
fn dma_irq_on_end_raises_flag() {
    let mut bus = Bus::new();
    bus.write_u32(SRC, 0);
    setup_immediate_dma(&mut bus, 1, (1 << 15) | (1 << 10) | (1 << 14));
    assert!(bus.io.iflag & (1 << 8) != 0);
}

#[test]
fn work_ram_word_reads_back_little_endian() {
    let mut bus = Bus::new();
    bus.write_u32(0x0300_0010, 0x1234_5678);
    assert_eq!(bus.read_u8(0x0300_0010), 0x78);
    assert_eq!(bus.read_u8(0x0300_0013), 0x12);
    assert_eq!(bus.read_u16(0x0300_0012), 0x1234);
    assert_eq!(bus.read_u32(0x0300_0010), 0x1234_5678);
}

#[test]
fn work_ram_mirrors_across_its_region() {
    let mut bus = Bus::new();
    bus.write_u8(0x0200_0005, 0x5A);
    assert_eq!(bus.read_u8(0x0204_0005), 0x5A);
    bus.write_u8(0x0300_0007, 0xA5);
    assert_eq!(bus.read_u8(0x0300_8007), 0xA5);
}

#[test]
fn word_reads_are_their_bytes_in_ram_and_palette() {
    let mut bus = Bus::new();
    for (i, b) in [0x11u8, 0x22, 0x33, 0x44].iter().enumerate() {
        bus.write_u8(0x0200_0010 + i as u32, *b);
    }
    assert_eq!(bus.read_u32(0x0200_0010), 0x4433_2211);
    assert_eq!(bus.read_u32(0x0200_0013), 0x4433_2211, "the address is aligned down");
    bus.write_u16(0x0500_0000, 0x1234);
    bus.write_u16(0x0500_0002, 0x5678);
    assert_eq!(bus.read_u32(0x0500_0000), 0x5678_1234);
    assert_eq!(bus.read_u8(0x0500_0001), 0x12);
}

#[test]
fn timer_steps_accumulate_in_order() {
    let mut bus = Bus::new();
    bus.write_u16(0x0400_0102, 0x0080);
    bus.step_timers(10);
    bus.step_timers(20);
    assert_eq!(bus.read_u16(0x0400_0100), 30);
}

#[test]
fn many_timer_steps_request_every_overflow() {
    // Timer 0 reloads at 0xFFF0 with its interrupt enabled; four steps of
    // 0x10 cycles overflow it four times.
    let mut bus = Bus::new();
    bus.write_u16(0x0400_0100, 0xFFF0);
    bus.write_u16(0x0400_0102, 0x00C0);
    for _ in 0..4 {
        bus.step_timers(0x10);
    }
    assert_eq!(bus.read_u16(0x0400_0100), 0xFFF0);
    assert_eq!(bus.io.iflag & 0x08, 0x08);
    bus.io.iflag = 0;
    bus.step_timers(5);
    assert_eq!(bus.read_u16(0x0400_0100), 0xFFF5);
    assert_eq!(bus.io.iflag, 0);
}

#[test]
fn halfword_survives_stores_to_other_cells() {
    let mut bus = Bus::new();
    bus.write_u16(0x0500_0000, 0x1234);
    bus.write_u16(0x0500_0002, 0x5678);
    bus.write_u16(0x0200_0000, 0x0001);
    bus.write_u16(0x0600_0000, 0x0002);
    assert_eq!(bus.read_u16(0x0500_0000), 0x1234);
    bus.write_u16(0x0500_0400, 0x9999);
    assert_eq!(bus.read_u16(0x0500_0000), 0x9999, "the mirror is the same cell");
}
