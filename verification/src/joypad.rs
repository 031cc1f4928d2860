//! Joypad: the button state (KEYINPUT) and the keypad interrupt control
//! (KEYCNT).
//!
//! KEYINPUT (0x04000130, read-only): bits 0-9, active low (0 = pressed).
//! KEYCNT (0x04000132): key mask (bits 0-9), IRQ enable (bit 14) and
//! condition (bit 15: 0 = any key of the mask, 1 = all keys of the mask).
use vstd::prelude::*;
use crate::cpu::alu::bit;

verus! {

/// GBA buttons, in the order of the KEYINPUT bits.
#[derive(Clone, Copy, Debug, PartialEq, Eq, Structural)]
pub enum Button {
    A,
    B,
    Select,
    Start,
    Right,
    Left,
    Up,
    Down,
    R,
    L,
}

/// Bit position of a button in KEYINPUT.
pub open spec fn button_index(b: Button) -> u32 {
    match b {
        Button::A => 0,
        Button::B => 1,
        Button::Select => 2,
        Button::Start => 3,
        Button::Right => 4,
        Button::Left => 5,
        Button::Up => 6,
        Button::Down => 7,
        Button::R => 8,
        Button::L => 9,
    }
}

impl Button {
    /// Bit position of the button in KEYINPUT.
    pub fn index(self) -> (r: u32)
        ensures
            r == button_index(self),
    {
        match self {
            Button::A => 0,
            Button::B => 1,
            Button::Select => 2,
            Button::Start => 3,
            Button::Right => 4,
            Button::Left => 5,
            Button::Up => 6,
            Button::Down => 7,
            Button::R => 8,
            Button::L => 9,
        }
    }
}

/// Whether the keypad interrupt condition holds for the given registers.
pub open spec fn keypad_irq(keyinput: u16, keycnt: u16) -> bool {
    let mask = keycnt & 0x03FF;
    let pressed = (!keyinput) & 0x03FF;
    if keycnt & 0x4000 == 0 || mask == 0 {
        false
    } else if keycnt & 0x8000 != 0 {
        (pressed & mask) == mask
    } else {
        (pressed & mask) != 0
    }
}

#[derive(Clone, Copy, PartialEq, Eq, Structural)]
pub struct Joypad {
    /// Button state, active low: 1 = released, 0 = pressed.
    pub keyinput: u16,
    pub keycnt: u16,
}

impl Joypad {
    /// Every button released, keypad interrupt off.
    pub fn new() -> (r: Joypad)
        ensures
            r.keyinput == 0x03FF,
            r.keycnt == 0,
    {
        Joypad { keyinput: 0x03FF, keycnt: 0 }
    }

    /// Presses or releases one button; the other bits are kept.
    pub fn set_button(&mut self, button: Button, pressed: bool)
        ensures
            bit(final(self).keyinput as u32, button_index(button)) == !pressed,
            forall|j: u32|
                j < 16 && j != button_index(button) ==> #[trigger] bit(final(self).keyinput as u32, j) == bit(
                    old(self).keyinput as u32,
                    j,
                ),
            final(self).keycnt == old(self).keycnt,
            final(self).keyinput == if pressed {
                old(self).keyinput & !(1u16 << (button_index(button) as u16))
            } else {
                old(self).keyinput | (1u16 << (button_index(button) as u16))
            },
    {
        proof {
            crate::bits::lemma_u32_single_bits();
            crate::bits::lemma_u16_bits();
        }
        let i = button.index();
        let b: u16 = 1u16 << (i as u16);
        let ghost old_k = self.keyinput;
        if pressed {
            self.keyinput = self.keyinput & !b;
            proof {
                assert((old_k & !(1u16 << (i as u16))) as u32 == (old_k as u32) & !(1u32 << i)) by {
                    crate::bits::lemma_u16_bits();
                }
            }
        } else {
            self.keyinput = self.keyinput | b;
            proof {
                assert((old_k | (1u16 << (i as u16))) as u32 == (old_k as u32) | (1u32 << i)) by {
                    crate::bits::lemma_u16_bits();
                }
            }
        }
    }

    /// The KEYINPUT register.
    pub fn keyinput(&self) -> (r: u16)
        ensures
            r == self.keyinput,
    {
        self.keyinput
    }

    /// Whether the keypad interrupt condition holds now.
    pub fn irq_pending(&self) -> (r: bool)
        ensures
            r == keypad_irq(self.keyinput, self.keycnt),
    {
        if self.keycnt & 0x4000 == 0 {
            return false;
        }
        let mask = self.keycnt & 0x03FF;
        if mask == 0 {
            return false;
        }
        let pressed = (!self.keyinput) & 0x03FF;
        if self.keycnt & 0x8000 != 0 {
            (pressed & mask) == mask
        } else {
            (pressed & mask) != 0
        }
    }
}

impl Default for Joypad {
    fn default() -> (r: Joypad)
        ensures
            r.keyinput == 0x03FF,
            r.keycnt == 0,
    {
        Joypad::new()
    }
}

} // verus!
