# AuroraGBA

A Game Boy Advance emulation core whose logic is verified with Verus, plus a
small headless frontend.

## Layout

- `src/` — the verified library (`auroragba`):
  - `cpu/` — ARM7TDMI: register banks, PSR, ALU and barrel shifter, the ARM
    and THUMB instruction sets (each class or format with the effect it has
    on registers and memory), and the high-level BIOS services (division,
    square root, CpuSet, affine set-up, LZ77 / run-length / difference
    decompression).
  - `bus.rs`, `dma.rs`, `timer.rs`, `io.rs`, `joypad.rs`, `sio.rs` — the
    memory map and its devices; reads have no effect, and each store states
    what it changes.
  - `ppu.rs`, `apu.rs` — video (text, affine and bitmap backgrounds
    and sprites) and sound.
  - `cartridge.rs`, `rtc.rs` — ROM, SRAM / Flash / EEPROM backup memory and
    the real-time clock.
  - `gba.rs`, `link.rs` — the whole console and the link-cable protocol
    (wire format, handshake and the decisions of each round).
  - `shiny/` — the Shiny Hunter: Gen III Pokémon data, game profiles, the
    hunting loop and sprite extraction from the ROM.
  - `scale.rs`, `desktop/` — frontend helpers: upscale filters, shader
    selection, PNG encoding, LAN discovery packets, ROM library fields.
- `tests/` — the test suite.
- `app/` — the headless program: file and network I/O around the library.

Laws that relate several functions (read-after-write of memory and backup
media, a halfword kept through stores to other cells, timer steps taken in
order, a THUMB PUSH undone by a POP, one sample pair per 512 CPU cycles,
wire-format and key round trips, one scanline per 1232 cycles) are public
proof functions named `law_*`.
