use auroragba::rtc::{datetime_bcd, datetime_bcd_at, reverse_bits, Gpio, GPIO_CONTROL, GPIO_DATA, GPIO_DIRECTION};

/// Sends a command byte (MSB first) clocking SCK with CS active.
fn send_command(g: &mut Gpio, byte: u8) {
    g.write(GPIO_CONTROL, 1);
    g.write(GPIO_DIRECTION, 0x07);
    g.write(GPIO_DATA, 0x04);
    for i in (0..8).rev() {
        let sio = (byte >> i) & 1;
        g.write(GPIO_DATA, 0x04 | (sio << 1));
        g.write(GPIO_DATA, 0x05 | (sio << 1));
    }
}

/// Reads a byte (LSB first) clocking SCK with SIO as an input.
fn read_byte(g: &mut Gpio) -> u8 {
    g.write(GPIO_DIRECTION, 0x05);
    let mut byte = 0u8;
    for i in 0..8 {
        g.write(GPIO_DATA, 0x04);
        g.write(GPIO_DATA, 0x05);
        let bit = (g.read(GPIO_DATA).unwrap() >> 1) & 1;
        byte |= bit << i;
    }
    byte
}

#[test]
fn status_read_has_no_power_failure() {
    let mut g = Gpio::default();
    send_command(&mut g, 0x63);
    let status = read_byte(&mut g);
    assert_eq!(status & 0x80, 0, "the power-failure bit must be clear");
}

#[test]
fn datetime_is_valid_bcd() {
    let dt = datetime_bcd();
    assert_eq!(dt.len(), 7);
    assert!(dt[1] >= 0x01 && dt[1] <= 0x12);
    assert!(dt[2] >= 0x01 && dt[2] <= 0x31);
    assert!(dt[4] <= 0x23);
}

#[test]
fn datetime_of_a_known_instant() {
    // 2001-09-09 01:46:40 UTC, a Sunday.
    let dt = datetime_bcd_at(1_000_000_000);
    assert_eq!(dt, vec![0x01, 0x09, 0x09, 0, 0x01, 0x46, 0x40]);
}

#[test]
fn unix_epoch_is_a_thursday() {
    let dt = datetime_bcd_at(0);
    assert_eq!(dt, vec![0x70, 0x01, 0x01, 4, 0x00, 0x00, 0x00]);
}

#[test]
fn reversing_bits_twice_is_identity() {
    assert_eq!(reverse_bits(0x01), 0x80);
    assert_eq!(reverse_bits(reverse_bits(0xA6)), 0xA6);
}

#[test]
fn gpio_is_write_only_until_enabled() {
    let g = Gpio::default();
    assert_eq!(g.read(GPIO_DATA), None);
}
