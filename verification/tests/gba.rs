use auroragba::cartridge::SaveType;
use auroragba::gba::Gba;

fn rom_with_loop() -> Vec<u8> {
    let mut rom = vec![0u8; 0x200];
    rom[0..4].copy_from_slice(&[0xFE, 0xFF, 0xFF, 0xEA]);
    rom[0xAC..0xB0].copy_from_slice(b"TEST");
    rom[0x100..0x106].copy_from_slice(b"SRAM_V");
    rom
}

#[test]
fn reset_keeps_the_cartridge_and_boots_the_rom() {
    let mut gba = Gba::new();
    gba.load_rom(rom_with_loop());
    assert_eq!(gba.bus.cartridge.save_type, SaveType::Sram);
    gba.bus.write_u8(0x0E00_0050, 0x7E);
    gba.bus.write_u8(0x0200_0000, 0x11);
    gba.reset();
    assert_eq!(gba.cpu.regs.pc(), 0x0800_0000);
    assert_eq!(gba.bus.read_u8(0x0E00_0050), 0x7E, "the backup survives");
    assert_eq!(gba.bus.read_u8(0x0200_0000), 0, "work RAM is cleared");
    assert_eq!(gba.bus.cartridge.game_code(), "TEST");
}

#[test]
fn run_cycles_runs_exactly_the_target() {
    let mut gba = Gba::new();
    gba.load_rom(rom_with_loop());
    gba.reset();
    assert_eq!(gba.run_cycles(1000), 1000);
    assert_eq!(gba.cpu.regs.pc(), 0x0800_0000, "the ROM loops on itself");
}

#[test]
fn a_frame_reaches_vblank_and_comes_back() {
    let mut gba = Gba::new();
    gba.load_rom(rom_with_loop());
    gba.reset();
    gba.run_frame();
    assert_eq!(gba.bus.ppu.vcount, 0);
}

#[test]
fn link_register_accessors() {
    let mut gba = Gba::new();
    gba.link_configure(true, 1);
    gba.link_set_partner_ready(true);
    let (multi, pending, send) = gba.link_status();
    assert!(!multi);
    assert!(!pending);
    assert_eq!(send, 0);
    assert_eq!(gba.link_irq_state(), (0, false, 0));
    let (cnt, _, _) = gba.link_regs();
    assert_eq!(cnt, gba.bus.io.sio.siocnt);
}

#[test]
fn reset_clears_video_memory() {
    let mut gba = Gba::new();
    gba.load_rom(rom_with_loop());
    gba.bus.write_u16(0x0500_0000, 0x7FFF);
    gba.bus.write_u16(0x0600_0000, 0x1234);
    gba.bus.write_u16(0x0700_0000, 0x00FF);
    gba.reset();
    assert_eq!(gba.bus.read_u16(0x0500_0000), 0);
    assert_eq!(gba.bus.read_u16(0x0600_0000), 0);
    assert_eq!(gba.bus.read_u16(0x0700_0000), 0);
}
