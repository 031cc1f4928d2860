use auroragba::apu::Apu;

/// Master on, every channel routed to both sides at full volume.
fn apu_on() -> Apu {
    let mut a = Apu::new();
    a.write_u8(0x0400_0084, 0x80);
    a.write_u8(0x0400_0080, 0x77);
    a.write_u8(0x0400_0081, 0xFF);
    a
}

#[test]
fn master_disable_blocks_channel_writes() {
    let mut a = Apu::new();
    a.write_u8(0x0400_0060, 0xFF);
    a.write_u8(0x0400_0084, 0x80);
    assert_eq!(a.ch1.sweep_shift, 0);
}

#[test]
fn square_trigger_turns_channel_on() {
    let mut a = apu_on();
    a.write_u8(0x0400_0063, 0xF0);
    a.write_u8(0x0400_0064, 0x00);
    a.write_u8(0x0400_0065, 0x80);
    assert!(a.ch1.on);
    assert_eq!(a.ch1.env.volume, 15);
}

#[test]
fn square_dac_off_when_volume_zero_and_no_add() {
    let mut a = apu_on();
    a.write_u8(0x0400_0063, 0x00);
    a.write_u8(0x0400_0065, 0x80);
    assert!(!a.ch1.on, "a DAC that is off must not turn the channel on");
}

#[test]
fn square_produces_alternating_waveform() {
    let mut a = apu_on();
    a.write_u8(0x0400_0062, 0x80);
    a.write_u8(0x0400_0063, 0xF0);
    a.write_u8(0x0400_0064, 0x00);
    a.write_u8(0x0400_0065, 0x87);
    a.tick(200_000);
    let drained = a.buffer.clone();
    assert!(drained.iter().any(|&s| s > 0));
    assert!(drained.iter().any(|&s| s < 0));
}

#[test]
fn length_counter_silences_channel() {
    let mut a = apu_on();
    a.write_u8(0x0400_0062, 0x3F);
    a.write_u8(0x0400_0063, 0xF0);
    a.write_u8(0x0400_0065, 0xC0);
    assert!(a.ch1.on);
    a.tick(100_000);
    assert!(!a.ch1.on, "the length counter should have silenced the channel");
}

#[test]
fn noise_lfsr_advances() {
    let mut a = apu_on();
    a.write_u8(0x0400_0079, 0xF0);
    a.write_u8(0x0400_007C, 0x00);
    a.write_u8(0x0400_007D, 0x80);
    assert!(a.ch4.on);
    let before = a.ch4.lfsr;
    a.tick(1000);
    assert_ne!(a.ch4.lfsr, before, "the noise LFSR should advance");
}

#[test]
fn wave_outputs_from_ram() {
    let mut a = apu_on();
    for i in 0..16 {
        a.write_u8(0x0400_0090 + i, 0xF0);
    }
    a.write_u8(0x0400_0070, 0x80);
    a.write_u8(0x0400_0073, 0x20);
    a.write_u8(0x0400_0075, 0x80);
    assert!(a.ch3.on);
    a.tick(100_000);
    assert!(a.buffer.iter().any(|&s| s != 0), "the wave channel should make sound");
}

#[test]
fn drain_takes_the_samples_out() {
    let mut a = apu_on();
    a.write_u8(0x0400_0063, 0xF0);
    a.write_u8(0x0400_0065, 0x87);
    a.tick(10_000);
    let n = a.buffer.len();
    assert!(n > 0);
    let out = a.drain();
    assert_eq!(out.len(), n);
    assert!(a.buffer.is_empty());
}

#[test]
fn ticks_in_pieces_buffer_one_pair_per_512_cycles() {
    let mut a = Apu::new();
    a.tick(300);
    a.tick(301);
    a.tick(499);
    // 1100 CPU cycles in all: two pairs, whatever the split.
    assert_eq!(a.drain().len(), 4);
    assert!(a.drain().is_empty());
    a.tick(1);
    assert_eq!(a.drain().len(), 0);
}

#[test]
fn register_writes_between_ticks_lose_no_samples() {
    let mut a = Apu::new();
    a.tick(400);
    a.write_u8(0x0400_0084, 0x80);
    a.write_u8(0x0400_0062, 0xF0);
    a.tick(200);
    a.write_u8(0x0400_0084, 0x00);
    a.tick(436);
    // 1036 CPU cycles in all: two pairs.
    assert_eq!(a.drain().len(), 4);
    assert!(a.drain().is_empty());
}
