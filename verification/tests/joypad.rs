use auroragba::joypad::{Button, Joypad};

#[test]
fn buttons_are_active_low() {
    let mut j = Joypad::new();
    assert_eq!(j.keyinput(), 0x03FF, "all released at reset");
    j.set_button(Button::A, true);
    assert_eq!(j.keyinput() & 1, 0, "A pressed clears bit 0");
    j.set_button(Button::A, false);
    assert_eq!(j.keyinput() & 1, 1, "A released sets bit 0");
}

#[test]
fn keypad_irq_or_condition() {
    let mut j = Joypad::new();
    j.keycnt = (1 << 14) | (1 << 0);
    assert!(!j.irq_pending());
    j.set_button(Button::A, true);
    assert!(j.irq_pending());
}

#[test]
fn keypad_irq_and_condition() {
    let mut j = Joypad::new();
    j.keycnt = (1 << 14) | (1 << 15) | (1 << 0) | (1 << 1);
    j.set_button(Button::A, true);
    assert!(!j.irq_pending(), "A alone is not enough in AND mode");
    j.set_button(Button::B, true);
    assert!(j.irq_pending(), "A and B fire");
}
