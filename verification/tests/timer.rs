use auroragba::io::irq_bits;
use auroragba::timer::Timers;

#[test]
fn timer_increments_with_prescaler_1() {
    let mut t = Timers::new();
    t.write_u16(0x0400_0102, 0x0080);
    let irq = t.tick(100).irqs;
    assert_eq!(irq, 0);
    assert_eq!(t.units[0].counter, 100);
}

#[test]
fn timer_overflow_raises_irq() {
    let mut t = Timers::new();
    t.write_u16(0x0400_0100, 0xFFFE);
    t.write_u16(0x0400_0102, 0x00C0);
    let irq = t.tick(3).irqs;
    assert!(irq & irq_bits::TIMER0 != 0, "TIMER0 interrupt on overflow");
    assert_eq!(t.units[0].counter, 0xFFFF);
}

#[test]
fn timer_cascade_only_increments_on_overflow_of_previous() {
    let mut t = Timers::new();
    t.write_u16(0x0400_0100, 0xFFFE);
    t.write_u16(0x0400_0102, 0x0080);
    t.write_u16(0x0400_0104, 0x0000);
    t.write_u16(0x0400_0106, 0x0084);
    t.tick(3);
    assert_eq!(t.units[1].counter, 1);
}

#[test]
fn timer_prescaler_64_counts_every_64_cycles() {
    let mut t = Timers::new();
    t.write_u16(0x0400_0102, 0x0081);
    t.tick(63);
    assert_eq!(t.units[0].counter, 0);
    t.tick(1);
    assert_eq!(t.units[0].counter, 1);
}
