use auroragba::bus::Bus;
use auroragba::cartridge::{Cartridge, SaveType, FLASH_ID_128K, FLASH_ID_64K};

fn cart_with(t: SaveType) -> Cartridge {
    Cartridge::with_save_type(t)
}

fn ee_write_bits(c: &mut Cartridge, value: u128, nbits: usize) {
    for i in (0..nbits).rev() {
        c.eeprom_write_bit(((value >> i) & 1) as u8);
    }
}

fn ee_write_block(c: &mut Cartridge, addr: u128, data: u64, addr_bits: usize) {
    ee_write_bits(c, 0b10, 2);
    ee_write_bits(c, addr, addr_bits);
    ee_write_bits(c, data as u128, 64);
    c.eeprom_write_bit(0);
    let _ = c.eeprom_read_bit();
}

fn ee_read_block(c: &mut Cartridge, addr: u128, addr_bits: usize) -> u64 {
    ee_write_bits(c, 0b11, 2);
    ee_write_bits(c, addr, addr_bits);
    c.eeprom_write_bit(0);
    let mut v = 0u64;
    for k in 0..68 {
        let b = c.eeprom_read_bit();
        if k >= 4 {
            v = (v << 1) | b as u64;
        }
    }
    v
}

#[test]
fn eeprom_8k_round_trip() {
    let mut c = cart_with(SaveType::Eeprom);
    ee_write_block(&mut c, 0x2A, 0x0123_4567_89AB_CDEF, 14);
    assert_eq!(c.eeprom.addr_bits, 14, "8 KB size detected");
    assert!(c.dirty);
    assert_eq!(ee_read_block(&mut c, 0x2A, 14), 0x0123_4567_89AB_CDEF);
    assert_eq!(ee_read_block(&mut c, 0x2B, 14), u64::MAX);
}

#[test]
fn eeprom_512b_detects_6bit_address() {
    let mut c = cart_with(SaveType::Eeprom);
    ee_write_block(&mut c, 0x05, 0xDEAD_BEEF_CAFE_F00D, 6);
    assert_eq!(c.eeprom.addr_bits, 6, "512 B size detected");
    assert_eq!(ee_read_block(&mut c, 0x05, 6), 0xDEAD_BEEF_CAFE_F00D);
}

#[test]
fn eeprom_distinct_blocks() {
    let mut c = cart_with(SaveType::Eeprom);
    ee_write_block(&mut c, 0x00, 0x1111_1111_1111_1111, 14);
    ee_write_block(&mut c, 0x10, 0x2222_2222_2222_2222, 14);
    assert_eq!(ee_read_block(&mut c, 0x00, 14), 0x1111_1111_1111_1111);
    assert_eq!(ee_read_block(&mut c, 0x10, 14), 0x2222_2222_2222_2222);
}

#[test]
fn eeprom_routes_through_bus() {
    let mut bus = Bus::new();
    bus.cartridge = cart_with(SaveType::Eeprom);
    let send = |bus: &mut Bus, v: u128, n: usize| {
        for i in (0..n).rev() {
            bus.write_u16(0x0D00_0000, ((v >> i) & 1) as u16);
        }
    };
    send(&mut bus, 0b10, 2);
    send(&mut bus, 0x07, 14);
    send(&mut bus, 0xA5A5_5A5A_0F0F_F0F0u64 as u128, 64);
    bus.write_u16(0x0D00_0000, 0);
    let _ = bus.read_u16(0x0D00_0000);
    send(&mut bus, 0b11, 2);
    send(&mut bus, 0x07, 14);
    bus.write_u16(0x0D00_0000, 0);
    let mut v = 0u64;
    for k in 0..68 {
        let b = (bus.read_u16(0x0D00_0000) & 1) as u64;
        if k >= 4 {
            v = (v << 1) | b;
        }
    }
    assert_eq!(v, 0xA5A5_5A5A_0F0F_F0F0);
}

fn unlock_cmd(c: &mut Cartridge, cmd: u8) {
    c.write_save_u8(0x5555, 0xAA);
    c.write_save_u8(0x2AAA, 0x55);
    c.write_save_u8(0x5555, cmd);
}

#[test]
fn sram_reads_back_what_was_written() {
    let mut c = cart_with(SaveType::Sram);
    c.write_save_u8(0x10, 0x42);
    assert_eq!(c.read_save_u8(0x10), 0x42);
    assert!(c.dirty);
}

#[test]
fn sram_mirrors_above_32k() {
    let mut c = cart_with(SaveType::Sram);
    c.write_save_u8(0x0000, 0xAB);
    assert_eq!(c.read_save_u8(0x8000), 0xAB);
}

#[test]
fn flash_chip_id_mode() {
    let mut c = cart_with(SaveType::Flash64K);
    unlock_cmd(&mut c, 0x90);
    assert_eq!(c.read_save_u8(0), FLASH_ID_64K.0);
    assert_eq!(c.read_save_u8(1), FLASH_ID_64K.1);
    c.write_save_u8(0x5555, 0xF0);
    assert_eq!(c.read_save_u8(0), 0xFF);
}

#[test]
fn flash_program_byte() {
    let mut c = cart_with(SaveType::Flash64K);
    unlock_cmd(&mut c, 0xA0);
    c.write_save_u8(0x1234, 0x7E);
    assert_eq!(c.read_save_u8(0x1234), 0x7E);
    assert!(c.dirty);
}

#[test]
fn flash_sector_erase() {
    let mut c = cart_with(SaveType::Flash64K);
    unlock_cmd(&mut c, 0xA0);
    c.write_save_u8(0x2500, 0x11);
    assert_eq!(c.read_save_u8(0x2500), 0x11);

    unlock_cmd(&mut c, 0x80);
    c.write_save_u8(0x5555, 0xAA);
    c.write_save_u8(0x2AAA, 0x55);
    c.write_save_u8(0x2500, 0x30);
    assert_eq!(c.read_save_u8(0x2500), 0xFF);
}

#[test]
fn flash_chip_erase() {
    let mut c = cart_with(SaveType::Flash64K);
    unlock_cmd(&mut c, 0xA0);
    c.write_save_u8(0x4000, 0x99);

    unlock_cmd(&mut c, 0x80);
    c.write_save_u8(0x5555, 0xAA);
    c.write_save_u8(0x2AAA, 0x55);
    c.write_save_u8(0x5555, 0x10);
    assert_eq!(c.read_save_u8(0x4000), 0xFF);
}

#[test]
fn flash_128k_bank_switch() {
    let mut c = cart_with(SaveType::Flash128K);
    unlock_cmd(&mut c, 0xA0);
    c.write_save_u8(0x0100, 0xA1);

    unlock_cmd(&mut c, 0xB0);
    c.write_save_u8(0x0000, 0x01);
    unlock_cmd(&mut c, 0xA0);
    c.write_save_u8(0x0100, 0xB2);
    assert_eq!(c.read_save_u8(0x0100), 0xB2);

    unlock_cmd(&mut c, 0xB0);
    c.write_save_u8(0x0000, 0x00);
    assert_eq!(c.read_save_u8(0x0100), 0xA1);
}

#[test]
fn flash_128k_reports_128k_id() {
    let mut c = cart_with(SaveType::Flash128K);
    unlock_cmd(&mut c, 0x90);
    assert_eq!(c.read_save_u8(0), FLASH_ID_128K.0);
    assert_eq!(c.read_save_u8(1), FLASH_ID_128K.1);
}

#[test]
fn load_backup_rejects_wrong_size() {
    let mut c = cart_with(SaveType::Flash64K);
    assert!(!c.load_backup(&[0u8; 100]));
    assert!(c.load_backup(&[0xAAu8; 0x1_0000]));
    assert_eq!(c.read_save_u8(0x50), 0xAA);
}

#[test]
fn header_title_and_code() {
    let mut rom = vec![0u8; 0x200];
    rom[0xA0..0xA7].copy_from_slice(b"POKEMON");
    rom[0xAC..0xB0].copy_from_slice(b"BPEE");
    let mut c = Cartridge::new();
    c.load(rom);
    assert_eq!(c.title(), "POKEMON");
    assert_eq!(c.game_code(), "BPEE");
    assert_eq!(c.save_type, SaveType::NoSave);
    assert!(!c.has_save());
}

#[test]
fn load_detects_flash_marker() {
    let mut rom = vec![0u8; 0x400];
    rom[0x300..0x30A].copy_from_slice(b"FLASH1M_V1");
    let mut c = Cartridge::new();
    c.load(rom);
    assert_eq!(c.save_type, SaveType::Flash128K);
    assert_eq!(c.backup_bytes().len(), 0x2_0000);
    assert!(c.backup_bytes().iter().all(|&b| b == 0xFF));
}
