//! AuroraGBA: a Game Boy Advance emulation core with verified contracts.
//!
//! The crate holds the whole emulation logic (CPU, memory bus, video, sound,
//! DMA, timers, serial link, cartridge backup memory) together with the
//! Shiny Hunter automation and a few frontend helpers (PNG encoding, upscale
//! filter selection, link wire format). It does no I/O of its own.
use vstd::prelude::*;

pub mod apu;
pub mod bits;
pub mod bus;
pub mod cartridge;
pub mod cpu;
pub mod desktop;
pub mod dma;
pub mod gba;
pub mod io;
pub mod joypad;
pub mod link;
pub mod ppu;
pub mod rtc;
pub mod scale;
pub mod shiny;
pub mod sio;
pub mod text;
pub mod timer;

verus! {

/// Native horizontal resolution of the GBA screen.
pub const SCREEN_WIDTH: usize = 240;

/// Native vertical resolution of the GBA screen.
pub const SCREEN_HEIGHT: usize = 160;

/// Main clock frequency of the GBA in Hz.
pub const CLOCK_HZ: u32 = 16_777_216;

} // verus!
