use auroragba::ppu::bgr555_to_rgba8;
use auroragba::shiny::gfx::{lz77_decompress, ptr_to_off, RomGfx};

#[test]
fn lz77_decompresses_literals_and_backref() {
    let mut data = vec![0x10u8, 5, 0, 0];
    data.push(0x00);
    data.extend_from_slice(b"ABCDE");
    let out = lz77_decompress(&data, 0).unwrap();
    assert_eq!(&out, b"ABCDE");
}

#[test]
fn lz77_backreference_repeats() {
    let mut data = vec![0x10u8, 4, 0, 0];
    data.push(0b0100_0000);
    data.push(b'A');
    data.push(0x00);
    data.push(0x00);
    let out = lz77_decompress(&data, 0).unwrap();
    assert_eq!(&out, b"AAAA");
}

#[test]
fn bgr555_pure_red() {
    assert_eq!(bgr555_to_rgba8(0x001F), [0xFF, 0, 0, 0xFF]);
}

#[test]
fn lz77_rejects_other_types_and_short_input() {
    assert!(lz77_decompress(&[0x30, 4, 0, 0, 0x80, 0x41], 0).is_none());
    assert!(lz77_decompress(&[0x10, 4, 0], 0).is_none());
    assert!(lz77_decompress(&[0x10, 4, 0, 0, 0x00, 0x41], 0).is_none());
}

#[test]
fn cartridge_pointers_map_to_offsets() {
    assert_eq!(ptr_to_off(0x0800_0010, 0x100), Some(0x10));
    assert_eq!(ptr_to_off(0x0900_0010, 0x0200_0000), Some(0x0100_0010));
    assert_eq!(ptr_to_off(0x0800_0200, 0x100), None);
    assert_eq!(ptr_to_off(0x0200_0000, 0x100), None);
}

#[test]
fn locate_finds_nothing_in_an_empty_rom() {
    assert!(RomGfx::locate(&[0u8; 0x1000]).is_none());
}

/// A ROM with a sprite table, a normal and a shiny palette table of 350
/// species each, species 1 drawn with a one-pixel sprite.
fn synthetic_rom() -> Vec<u8> {
    let n = 350usize;
    let pics = 0x100usize;
    let pals = pics + n * 8;
    let shiny = pals + n * 8;
    let data = shiny + n * 8;
    let mut rom = vec![0u8; data + 0x100];
    let ptr = (0x0800_0000 + data) as u32;
    for i in 0..n {
        let e = pics + i * 8;
        rom[e..e + 4].copy_from_slice(&ptr.to_le_bytes());
        rom[e + 6..e + 8].copy_from_slice(&(i as u16).to_le_bytes());
        let e = pals + i * 8;
        rom[e..e + 4].copy_from_slice(&(ptr + 0x40).to_le_bytes());
        rom[e + 4..e + 6].copy_from_slice(&(i as u16).to_le_bytes());
        let e = shiny + i * 8;
        rom[e..e + 4].copy_from_slice(&(ptr + 0x40).to_le_bytes());
        rom[e + 4..e + 6].copy_from_slice(&(500 + i as u16).to_le_bytes());
        rom[e + 6] = 0xAA;
    }
    // Tiles: one literal byte 0x01 (pixel (0,0) uses colour 1).
    rom[data..data + 6].copy_from_slice(&[0x10, 1, 0, 0, 0x00, 0x01]);
    // Palette: 32 literal bytes, colour 1 = pure red.
    let mut pal = vec![0x10u8, 32, 0, 0];
    let mut bytes = vec![0u8; 32];
    bytes[2] = 0x1F;
    for chunk in bytes.chunks(8) {
        pal.push(0x00);
        pal.extend_from_slice(chunk);
    }
    rom[data + 0x40..data + 0x40 + pal.len()].copy_from_slice(&pal);
    rom
}

#[test]
fn locate_and_decode_a_synthetic_sprite() {
    let rom = synthetic_rom();
    let g = RomGfx::locate(&rom).expect("tables should be found");
    assert_eq!(g.front_table, 0x100);
    assert_eq!(g.normal_pal_table, 0x100 + 350 * 8);
    assert_eq!(g.shiny_pal_table, 0x100 + 700 * 8);
    let s = g.decode_front(&rom, 1, false).expect("sprite should decode");
    assert_eq!((s.width, s.height), (64, 64));
    assert_eq!(s.rgba.len(), 64 * 64 * 4);
    assert_eq!(&s.rgba[0..4], &[0xFF, 0, 0, 0xFF]);
    assert_eq!(&s.rgba[4..8], &[0, 0, 0, 0]);
}
