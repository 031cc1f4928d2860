//! Interrupt flags (IE and IF share the layout).
use vstd::prelude::*;

verus! {

pub const VBLANK: u16 = 1;
pub const HBLANK: u16 = 2;
pub const VCOUNT: u16 = 4;
pub const TIMER0: u16 = 8;
pub const TIMER1: u16 = 0x10;
pub const TIMER2: u16 = 0x20;
pub const TIMER3: u16 = 0x40;
pub const SERIAL: u16 = 0x80;
pub const DMA0: u16 = 0x100;
pub const DMA1: u16 = 0x200;
pub const DMA2: u16 = 0x400;
pub const DMA3: u16 = 0x800;
pub const KEYPAD: u16 = 0x1000;
pub const GAMEPAK: u16 = 0x2000;

} // verus!
