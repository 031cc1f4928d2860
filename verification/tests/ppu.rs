use auroragba::io::irq_bits;
use auroragba::ppu::{
    bgr555_to_rgba8, Ppu, CYCLES_PER_SCANLINE, DISPSTAT_HBLANK_FLAG, DISPSTAT_VBLANK_FLAG, DISPSTAT_VBLANK_IRQ,
    HDRAW_CYCLES,
};

fn dummy_mem() -> (Vec<u8>, Vec<u8>, Vec<u8>) {
    (vec![0u8; 0x18000], vec![0u8; 0x400], vec![0u8; 0x400])
}

#[test]
fn vcount_increments_each_scanline() {
    let mut p = Ppu::new();
    let (v, pal, oam) = dummy_mem();
    p.tick(CYCLES_PER_SCANLINE, &v, &pal, &oam);
    assert_eq!(p.vcount, 1);
    p.tick(CYCLES_PER_SCANLINE * 3, &v, &pal, &oam);
    assert_eq!(p.vcount, 4);
}

#[test]
fn vblank_irq_fires_at_scanline_160_when_enabled() {
    let mut p = Ppu::new();
    let (v, pal, oam) = dummy_mem();
    p.dispstat |= DISPSTAT_VBLANK_IRQ;
    let mut total_irqs = 0u16;
    for _ in 0..160 {
        total_irqs |= p.tick(CYCLES_PER_SCANLINE, &v, &pal, &oam).irqs;
    }
    assert_eq!(p.vcount, 160);
    assert!(total_irqs & irq_bits::VBLANK != 0);
    assert!(p.dispstat & DISPSTAT_VBLANK_FLAG != 0);
}

#[test]
fn frame_completes_in_280896_cycles() {
    let mut p = Ppu::new();
    let (v, pal, oam) = dummy_mem();
    p.tick(228 * CYCLES_PER_SCANLINE, &v, &pal, &oam);
    assert_eq!(p.vcount, 0);
}

#[test]
fn hblank_flag_during_hblank_window() {
    let mut p = Ppu::new();
    let (v, pal, oam) = dummy_mem();
    p.tick(HDRAW_CYCLES + 10, &v, &pal, &oam);
    assert!(p.dispstat & DISPSTAT_HBLANK_FLAG != 0);
    p.tick(CYCLES_PER_SCANLINE - HDRAW_CYCLES, &v, &pal, &oam);
    assert!(p.dispstat & DISPSTAT_HBLANK_FLAG == 0);
}

#[test]
fn bgr555_red_is_pure_red() {
    let c = bgr555_to_rgba8(0x001F);
    assert_eq!(c, [0xFF, 0, 0, 0xFF]);
}

#[test]
fn mode3_renders_red_pixel() {
    let mut p = Ppu::new();
    p.dispcnt = 3 | (1 << 10);
    let mut v = vec![0u8; 0x18000];
    v[0] = 0x1F;
    v[1] = 0x00;
    let pal = vec![0u8; 0x400];
    let oam = vec![0u8; 0x400];
    p.tick(CYCLES_PER_SCANLINE, &v, &pal, &oam);
    assert_eq!(p.framebuffer[0..4], [0xFF, 0, 0, 0xFF]);
}

#[test]
fn mode0_text_bg_renders_tile_pixel() {
    let mut p = Ppu::new();
    let mut v = vec![0u8; 0x18000];
    let mut pal = vec![0u8; 0x400];

    p.dispcnt = 0x0100;
    p.bgcnt[0] = 1 << 8;

    let entry: u16 = 1 << 12;
    v[0x800] = entry as u8;
    v[0x801] = (entry >> 8) as u8;

    v[0] = 0x01;

    let color: u16 = 0x03E0;
    pal[17 * 2] = color as u8;
    pal[17 * 2 + 1] = (color >> 8) as u8;

    let oam = vec![0u8; 0x400];
    p.tick(CYCLES_PER_SCANLINE, &v, &pal, &oam);
    assert_eq!(p.framebuffer[0..4], [0, 0xFF, 0, 0xFF]);
}

#[test]
fn bg_priority_higher_covers_lower() {
    let mut p = Ppu::new();
    let mut v = vec![0u8; 0x18000];
    let mut pal = vec![0u8; 0x400];

    p.dispcnt = 0x0300;
    p.bgcnt[0] = 1 | (1 << 8);
    p.bgcnt[1] = 2 << 8;

    v[0] = 0x01;
    v[0x0800] = 0x00;
    v[0x0801] = 0x00;
    let entry_bg1: u16 = 2 << 12;
    v[0x1000] = entry_bg1 as u8;
    v[0x1001] = (entry_bg1 >> 8) as u8;

    pal[2] = 0x1F;
    let blue: u16 = 0x7C00;
    pal[33 * 2] = blue as u8;
    pal[33 * 2 + 1] = (blue >> 8) as u8;

    let oam = vec![0u8; 0x400];
    p.tick(CYCLES_PER_SCANLINE, &v, &pal, &oam);
    assert_eq!(p.framebuffer[0..4], [0, 0, 0xFF, 0xFF]);
}

#[test]
fn sprite_renders_over_backdrop() {
    let mut p = Ppu::new();
    let mut v = vec![0u8; 0x18000];
    let mut pal = vec![0u8; 0x400];
    let oam = vec![0u8; 0x400];

    p.dispcnt = (1 << 12) | (1 << 6);

    v[0x10000] = 0x01;

    let yellow: u16 = 0x03FF;
    pal[257 * 2] = yellow as u8;
    pal[257 * 2 + 1] = (yellow >> 8) as u8;

    p.tick(CYCLES_PER_SCANLINE, &v, &pal, &oam);
    assert_eq!(p.framebuffer[0..4], bgr555_to_rgba8(yellow));
}
