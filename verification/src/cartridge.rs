//! Cartridge: the ROM and its backup memory (SRAM, Flash or EEPROM).
//!
//! The region 0x0E000000..0x0E00FFFF maps the backup memory. Three kinds:
//!   - SRAM (32 KB): plain byte access.
//!   - Flash (64 KB or 128 KB): command sequences (erase, program, chip ID,
//!     bank switch). Pokémon generation 3 uses it.
//!   - EEPROM (8 KB): bit-serial protocol through DMA in region 0x0D.
//!
//! The physical backup bytes always live in one buffer, so a `.sav` file is
//! just that buffer. The Flash and EEPROM machines hold only volatile state.
use vstd::prelude::*;
use crate::rtc::Gpio;
use crate::text::{lossy_chars, utf8_lossy};

verus! {

#[derive(Clone, Copy, PartialEq, Eq, Structural, Debug)]
pub enum SaveType {
    NoSave,
    Sram,
    Flash64K,
    Flash128K,
    Eeprom,
}

/// (maker, device) reported in chip-ID mode by the 64 KB Flash (Panasonic).
pub const FLASH_ID_64K: (u8, u8) = (0x32, 0x1B);

/// (maker, device) reported in chip-ID mode by the 128 KB Flash (Sanyo).
pub const FLASH_ID_128K: (u8, u8) = (0x62, 0x13);

/// Size in bytes of the backup memory of each kind.
pub open spec fn save_len(t: SaveType) -> nat {
    match t {
        SaveType::NoSave => 0,
        SaveType::Sram => 0x8000,
        SaveType::Flash64K => 0x1_0000,
        SaveType::Flash128K => 0x2_0000,
        SaveType::Eeprom => 0x2000,
    }
}

fn save_len_exec(t: SaveType) -> (r: usize)
    ensures
        r == save_len(t),
{
    match t {
        SaveType::NoSave => 0,
        SaveType::Sram => 0x8000,
        SaveType::Flash64K => 0x1_0000,
        SaveType::Flash128K => 0x2_0000,
        SaveType::Eeprom => 0x2000,
    }
}

/// Volatile state of the Flash command machine.
///
/// Commands arrive as writes: `AA` to 0x5555, `55` to 0x2AAA, then the
/// command at 0x5555: 0x90 chip-ID mode, 0xF0 leave it, 0x80 erase preamble
/// (then another unlock and 0x10 chip / 0x30 sector), 0xA0 program one byte,
/// 0xB0 bank switch (next write at 0x0000 selects the bank; 128 KB only).
#[derive(Clone, Copy)]
pub struct Flash {
    /// Active 64 KB bank (0 or 1).
    pub bank: usize,
    /// Unlock phase: 0 idle, 1 saw AA, 2 saw 55.
    pub phase: u8,
    pub id_mode: bool,
    pub erase_armed: bool,
    pub write_armed: bool,
    pub bank_armed: bool,
    /// The chip has two banks (128 KB).
    pub bank_switchable: bool,
    /// (maker, device) reported in chip-ID mode.
    pub id: (u8, u8),
}

/// Volatile state of the EEPROM serial machine.
///
/// Each halfword written to region 0x0D pushes one command bit; each halfword
/// read pulls one. Read: `11`, address (6 or 14 bits), `0`; then 4 dummy bits
/// and 64 data bits (MSB first). Write: `10`, address, 64 data bits, `0`; then
/// the "ready" bit (always 1 here). The address width is learned from the
/// length of the first command.
#[derive(Clone, Copy)]
pub struct Eeprom {
    /// Address bits: 0 not yet known, 6 for 512 B, 14 for 8 KB.
    pub addr_bits: u8,
    /// Command bits received (MSB first); at most 2 + 14 + 64 + 1 = 81.
    pub buffer: u128,
    pub buffer_len: u8,
    /// The game is pulling bits.
    pub reading: bool,
    /// The current read is the "ready" bit after a write.
    pub status_poll: bool,
    /// The 64 data bits being sent.
    pub read_value: u64,
    /// Position in the read sequence (4 dummy bits, then 64 data bits).
    pub read_pos: u8,
}

pub open spec fn flash_idle(bank_switchable: bool, id: (u8, u8)) -> Flash {
    Flash {
        bank: 0,
        phase: 0,
        id_mode: false,
        erase_armed: false,
        write_armed: false,
        bank_armed: false,
        bank_switchable,
        id,
    }
}

pub open spec fn eeprom_idle(addr_bits: u8) -> Eeprom {
    Eeprom {
        addr_bits,
        buffer: 0,
        buffer_len: 0,
        reading: false,
        status_poll: false,
        read_value: 0,
        read_pos: 0,
    }
}

/// The Flash configuration that goes with a save type.
pub open spec fn flash_for(t: SaveType) -> Flash {
    match t {
        SaveType::Flash64K => flash_idle(false, FLASH_ID_64K),
        SaveType::Flash128K => flash_idle(true, FLASH_ID_128K),
        _ => flash_idle(false, (0, 0)),
    }
}

/// A byte read from the Flash: the chip ID in ID mode at offsets 0 and 1,
/// else the byte of the active bank.
pub open spec fn flash_read(f: Flash, data: Seq<u8>, addr: u32) -> u8 {
    let a = (addr % 0x1_0000) as int;
    if f.id_mode && a == 0 {
        f.id.0
    } else if f.id_mode && a == 1 {
        f.id.1
    } else {
        data[f.bank * 0x1_0000 + a]
    }
}

/// First byte of the 4 KB sector that holds offset `a`.
pub open spec fn sector_base(f: Flash, a: int) -> int {
    f.bank * 0x1_0000 + (a / 0x1000) * 0x1000
}

/// `data` with `[base, base + n)` set to 0xFF.
pub open spec fn erased(data: Seq<u8>, base: int, n: int) -> Seq<u8> {
    Seq::new(data.len(), |i: int| if base <= i < base + n { 0xFFu8 } else { data[i] })
}

/// Effect of a command byte written after the unlock sequence:
/// (new state, new data, whether the backup changed).
pub open spec fn flash_command(f: Flash, data: Seq<u8>, a: int, val: u8) -> (Flash, Seq<u8>, bool) {
    if val == 0x90 && a == 0x5555 {
        (Flash { id_mode: true, ..f }, data, false)
    } else if val == 0xF0 && a == 0x5555 {
        (Flash { id_mode: false, ..f }, data, false)
    } else if val == 0x80 && a == 0x5555 {
        (Flash { erase_armed: true, ..f }, data, false)
    } else if val == 0xA0 && a == 0x5555 {
        (Flash { write_armed: true, ..f }, data, false)
    } else if val == 0xB0 && a == 0x5555 && f.bank_switchable {
        (Flash { bank_armed: true, ..f }, data, false)
    } else if val == 0x10 && a == 0x5555 && f.erase_armed {
        (Flash { erase_armed: false, ..f }, erased(data, 0, data.len() as int), true)
    } else if val == 0x30 && f.erase_armed {
        (Flash { erase_armed: false, ..f }, erased(data, sector_base(f, a), 0x1000), true)
    } else {
        (f, data, false)
    }
}

/// Effect of one write to the Flash region: (new state, new data, whether
/// the backup changed).
pub open spec fn flash_write(f: Flash, data: Seq<u8>, addr: u32, val: u8) -> (Flash, Seq<u8>, bool) {
    let a = (addr % 0x1_0000) as int;
    if f.write_armed {
        (Flash { write_armed: false, phase: 0, ..f }, data.update(f.bank * 0x1_0000 + a, val), true)
    } else if f.bank_armed {
        (
            Flash {
                bank: if a == 0 { (val % 2) as usize } else { f.bank },
                bank_armed: false,
                phase: 0,
                ..f
            },
            data,
            false,
        )
    } else if f.phase == 0 && a == 0x5555 && val == 0xAA {
        (Flash { phase: 1, ..f }, data, false)
    } else if f.phase == 1 && a == 0x2AAA && val == 0x55 {
        (Flash { phase: 2, ..f }, data, false)
    } else if f.phase == 2 {
        let (g, d, w) = flash_command(f, data, a, val);
        (Flash { phase: 0, ..g }, d, w)
    } else {
        (Flash { id_mode: if val == 0xF0 { false } else { f.id_mode }, phase: 0, ..f }, data, false)
    }
}

/// Whether the bank and the backup size fit together.
pub open spec fn flash_fits(f: Flash, len: nat) -> bool {
    &&& f.bank <= 1
    &&& f.phase <= 2
    &&& (f.bank_armed ==> f.bank_switchable)
    &&& (f.bank_switchable ==> len == 0x2_0000)
    &&& (!f.bank_switchable ==> f.bank == 0 && len >= 0x1_0000)
}

/// The EEPROM state after one command bit is pushed.
pub open spec fn eeprom_push(e: Eeprom, bit: u8) -> Eeprom {
    let e0 = if e.reading { eeprom_idle(e.addr_bits) } else { e };
    if e0.buffer_len < 81 {
        Eeprom {
            buffer: (e0.buffer << 1u128) | ((bit % 2) as u128),
            buffer_len: (e0.buffer_len + 1) as u8,
            ..e0
        }
    } else {
        e0
    }
}

/// Mask of the `n` low bits.
pub open spec fn low_mask(n: u8) -> u128 {
    ((1u128 << n) - 1) as u128
}

/// First byte of the 8-byte block `block` in a backup of `len` bytes.
pub open spec fn block_base(block: u128, len: nat) -> int {
    (block % (len / 8) as u128) as int * 8
}

/// Big-endian value of the eight bytes at `b`.
pub open spec fn be_u64(s: Seq<u8>, b: int) -> u64 {
    (s[b] as int * 0x100_0000_0000_0000 + s[b + 1] as int * 0x1_0000_0000_0000 + s[b + 2] as int
        * 0x100_0000_0000 + s[b + 3] as int * 0x1_0000_0000 + s[b + 4] as int * 0x100_0000
        + s[b + 5] as int * 0x1_0000 + s[b + 6] as int * 0x100 + s[b + 7] as int) as u64
}

/// Byte `k` (0 = most significant) of `x`.
pub open spec fn be_byte(x: u64, k: int) -> u8 {
    ((x >> ((56 - 8 * k) as u64)) & 0xFF) as u8
}

/// `s` with the eight bytes at `b` replaced by the big-endian bytes of `x`.
pub open spec fn be_stored(s: Seq<u8>, b: int, x: u64) -> Seq<u8> {
    Seq::new(s.len(), |i: int| if b <= i < b + 8 { be_byte(x, i - b) } else { s[i] })
}

/// The value read from block `block`, or 0 when there is no backup.
pub open spec fn eeprom_load(data: Seq<u8>, block: u128) -> u64 {
    if data.len() == 0 {
        0
    } else {
        be_u64(data, block_base(block, data.len()))
    }
}

/// The backup after block `block` is written with `x`.
pub open spec fn eeprom_store(data: Seq<u8>, block: u128, x: u64) -> Seq<u8> {
    if data.len() == 0 {
        data
    } else {
        be_stored(data, block_base(block, data.len()), x)
    }
}

/// Decoding of the buffered command on the first read after it:
/// (new state, new data, whether the backup changed).
pub open spec fn eeprom_decode(e: Eeprom, data: Seq<u8>) -> (Eeprom, Seq<u8>, bool) {
    let len = e.buffer_len;
    let buf = e.buffer;
    if len < 2 {
        (Eeprom { status_poll: true, ..e }, data, false)
    } else {
        let cmd = (buf >> ((len - 2) as u128)) & 3u128;
        if cmd == 3 {
            let n: u8 = if e.addr_bits != 0 { e.addr_bits } else { (len - 3) as u8 };
            let n: u8 = if e.addr_bits == 0 && len < 3 { 0 } else { n };
            let block = (buf >> 1u128) & low_mask(n);
            (
                Eeprom {
                    addr_bits: n,
                    read_pos: 0,
                    read_value: eeprom_load(data, block),
                    status_poll: false,
                    ..e
                },
                data,
                false,
            )
        } else if cmd == 2 {
            let n: u8 = if e.addr_bits != 0 {
                e.addr_bits
            } else if len < 67 {
                0
            } else {
                (len - 67) as u8
            };
            let block = (buf >> 65u128) & low_mask(n);
            let x = (buf >> 1u128) as u64;
            (
                Eeprom { addr_bits: n, read_pos: 0, status_poll: true, ..e },
                eeprom_store(data, block, x),
                true,
            )
        } else {
            (Eeprom { read_pos: 0, status_poll: true, ..e }, data, false)
        }
    }
}

/// The state in which the next read bit is answered: decoded if the game
/// was still writing.
pub open spec fn eeprom_reading(e: Eeprom, data: Seq<u8>) -> (Eeprom, Seq<u8>, bool) {
    if e.reading {
        (e, data, false)
    } else {
        let (d, s, w) = eeprom_decode(e, data);
        (Eeprom { reading: true, ..d }, s, w)
    }
}

/// The bit answered in state `e` (already reading).
pub open spec fn eeprom_bit(e: Eeprom) -> u8 {
    if e.status_poll {
        1
    } else if e.read_pos < 4 {
        0
    } else {
        ((e.read_value >> ((63 - (e.read_pos - 4)) as u64)) & 1) as u8
    }
}

/// Trailing zero bytes removed.
pub open spec fn trim_zeros(s: Seq<u8>) -> Seq<u8>
    decreases s.len(),
{
    if s.len() > 0 && s.last() == 0 {
        trim_zeros(s.drop_last())
    } else {
        s
    }
}

/// `needle` occurs somewhere in `hay`.
pub open spec fn has_window(hay: Seq<u8>, needle: Seq<u8>) -> bool {
    exists|i: int| 0 <= i && i + needle.len() <= hay.len() && #[trigger] hay.subrange(i, i + needle.len()) == needle
}

pub open spec fn marker_eeprom() -> Seq<u8> {
    seq![0x45u8, 0x45, 0x50, 0x52, 0x4F, 0x4D, 0x5F, 0x56]
}

pub open spec fn marker_sram() -> Seq<u8> {
    seq![0x53u8, 0x52, 0x41, 0x4D, 0x5F, 0x56]
}

pub open spec fn marker_flash1m() -> Seq<u8> {
    seq![0x46u8, 0x4C, 0x41, 0x53, 0x48, 0x31, 0x4D, 0x5F, 0x56]
}

pub open spec fn marker_flash512() -> Seq<u8> {
    seq![0x46u8, 0x4C, 0x41, 0x53, 0x48, 0x35, 0x31, 0x32, 0x5F, 0x56]
}

pub open spec fn marker_flash() -> Seq<u8> {
    seq![0x46u8, 0x4C, 0x41, 0x53, 0x48, 0x5F, 0x56]
}

/// Save type by the library marker strings in the ROM, in the order in
/// which they are tried ("FLASH1M_V" before "FLASH_V").
pub open spec fn detected_save_type(rom: Seq<u8>) -> SaveType {
    if has_window(rom, marker_eeprom()) {
        SaveType::Eeprom
    } else if has_window(rom, marker_sram()) {
        SaveType::Sram
    } else if has_window(rom, marker_flash1m()) {
        SaveType::Flash128K
    } else if has_window(rom, marker_flash512()) {
        SaveType::Flash64K
    } else if has_window(rom, marker_flash()) {
        SaveType::Flash64K
    } else {
        SaveType::NoSave
    }
}

pub struct Cartridge {
    pub rom: Vec<u8>,
    pub save_type: SaveType,
    /// Physical backup bytes (the `.sav` file).
    pub save_data: Vec<u8>,
    pub flash: Flash,
    pub eeprom: Eeprom,
    /// Cartridge GPIO and RTC (present on RSE, harmless elsewhere).
    pub gpio: Gpio,
    /// Set on every write to the backup; the frontend saves when it is set.
    pub dirty: bool,
}

impl Cartridge {
    /// The backup bytes.
    pub open spec fn save(&self) -> Seq<u8> {
        self.save_data@
    }

    pub open spec fn flash_state(&self) -> Flash {
        self.flash
    }

    pub open spec fn eeprom_state(&self) -> Eeprom {
        self.eeprom
    }

    /// The backup has the size of its kind and the machines fit it.
    pub open spec fn wf(&self) -> bool {
        &&& self.save_data@.len() == save_len(self.save_type)
        &&& (self.save_type == SaveType::Flash64K || self.save_type == SaveType::Flash128K)
            ==> flash_fits(self.flash, self.save_data@.len())
        &&& self.eeprom.read_pos <= 68
        &&& self.eeprom.buffer_len <= 81
        &&& self.eeprom.addr_bits <= 81
    }

    /// The byte a read of the backup region returns.
    pub open spec fn spec_read_save(&self, addr: u32) -> u8 {
        match self.save_type {
            SaveType::Sram => self.save()[(addr % 0x8000) as int],
            SaveType::Flash64K | SaveType::Flash128K => flash_read(
                self.flash_state(),
                self.save(),
                addr,
            ),
            _ => 0xFF,
        }
    }

    /// A cartridge with no ROM and no backup.
    pub fn new() -> (r: Cartridge)
        ensures
            r.wf(),
            r.rom@.len() == 0,
            r.save_type == SaveType::NoSave,
            r.save().len() == 0,
            !r.dirty,
            r.flash_state() == flash_for(SaveType::NoSave),
            r.eeprom_state() == eeprom_idle(0),
            r.gpio.data == 0 && r.gpio.direction == 0 && !r.gpio.readable && r.gpio.rtc.is_reset(),
    {
        Cartridge {
            rom: Vec::new(),
            save_type: SaveType::NoSave,
            save_data: Vec::new(),
            flash: Flash {
                bank: 0,
                phase: 0,
                id_mode: false,
                erase_armed: false,
                write_armed: false,
                bank_armed: false,
                bank_switchable: false,
                id: (0, 0),
            },
            eeprom: Eeprom {
                addr_bits: 0,
                buffer: 0,
                buffer_len: 0,
                reading: false,
                status_poll: false,
                read_value: 0,
                read_pos: 0,
            },
            gpio: Gpio::new(),
            dirty: false,
        }
    }

    /// A cartridge without ROM whose backup of the given kind is erased
    /// (all 0xFF), as `load` leaves it.
    pub fn with_save_type(save_type: SaveType) -> (r: Cartridge)
        ensures
            r.wf(),
            r.rom@.len() == 0,
            r.save_type == save_type,
            r.save() == Seq::new(save_len(save_type), |i: int| 0xFFu8),
            r.flash_state() == flash_for(save_type),
            r.eeprom_state() == eeprom_idle(0),
            !r.dirty,
    {
        let mut c = Cartridge::new();
        c.install_backup(save_type);
        c
    }

    /// Allocates the erased backup of the given kind and resets the machines.
    fn install_backup(&mut self, save_type: SaveType)
        ensures
            final(self).wf(),
            final(self).rom == old(self).rom,
            final(self).gpio == old(self).gpio,
            final(self).save_type == save_type,
            final(self).save() == Seq::new(save_len(save_type), |i: int| 0xFFu8),
            final(self).flash_state() == flash_for(save_type),
            final(self).eeprom_state() == eeprom_idle(0),
            !final(self).dirty,
    {
        let n = save_len_exec(save_type);
        let mut data: Vec<u8> = Vec::new();
        let mut i: usize = 0;
        while i < n
            invariant
                i <= n,
                data@ == Seq::new(i as nat, |j: int| 0xFFu8),
            decreases n - i,
        {
            data.push(0xFF);
            i = i + 1;
            assert(data@ =~= Seq::new(i as nat, |j: int| 0xFFu8));
        }
        let (switchable, id) = match save_type {
            SaveType::Flash64K => (false, FLASH_ID_64K),
            SaveType::Flash128K => (true, FLASH_ID_128K),
            _ => (false, (0u8, 0u8)),
        };
        self.save_type = save_type;
        self.save_data = data;
        self.flash = Flash {
            bank: 0,
            phase: 0,
            id_mode: false,
            erase_armed: false,
            write_armed: false,
            bank_armed: false,
            bank_switchable: switchable,
            id,
        };
        self.eeprom = Eeprom {
            addr_bits: 0,
            buffer: 0,
            buffer_len: 0,
            reading: false,
            status_poll: false,
            read_value: 0,
            read_pos: 0,
        };
        self.dirty = false;
    }

    /// Inserts a ROM: detects the backup kind from the ROM's marker strings
    /// and allocates an erased backup of that kind.
    pub fn load(&mut self, rom: Vec<u8>)
        ensures
            final(self).wf(),
            final(self).rom@ == rom@,
            final(self).save_type == detected_save_type(rom@),
            final(self).save() == Seq::new(save_len(final(self).save_type), |i: int| 0xFFu8),
            final(self).flash_state() == flash_for(final(self).save_type),
            final(self).eeprom_state() == eeprom_idle(0),
            !final(self).dirty,
    {
        let t = detect_save_type(rom.as_slice());
        self.rom = rom;
        self.install_backup(t);
    }

    /// Title from the header (offset 0xA0, 12 bytes) without trailing NULs;
    /// empty when the ROM is shorter than the header.
    pub fn title(&self) -> (r: String)
        ensures
            self.rom@.len() < 0xAC ==> r@.len() == 0,
            self.rom@.len() >= 0xAC ==> r@ == lossy_chars(trim_zeros(self.rom@.subrange(0xA0, 0xAC))),
    {
        if self.rom.len() < 0xAC {
            return String::new();
        }
        header_text(self.rom.as_slice(), 0xA0, 0xAC)
    }

    /// Four-letter game code (header offset 0xAC), which identifies the game
    /// (e.g. "BPEE" is Pokémon Emerald); empty when the ROM is too short.
    pub fn game_code(&self) -> (r: String)
        ensures
            self.rom@.len() < 0xB0 ==> r@.len() == 0,
            self.rom@.len() >= 0xB0 ==> r@ == lossy_chars(trim_zeros(self.rom@.subrange(0xAC, 0xB0))),
    {
        if self.rom.len() < 0xB0 {
            return String::new();
        }
        header_text(self.rom.as_slice(), 0xAC, 0xB0)
    }

    /// Reads the backup region (0x0E/0x0F). Without SRAM or Flash it is
    /// open bus (0xFF).
    pub fn read_save_u8(&self, addr: u32) -> (r: u8)
        requires
            self.wf(),
        ensures
            r == self.spec_read_save(addr),
    {
        match self.save_type {
            SaveType::Sram => self.save_data[(addr % 0x8000) as usize],
            SaveType::Flash64K | SaveType::Flash128K => {
                let a = (addr % 0x1_0000) as usize;
                if self.flash.id_mode && a == 0 {
                    self.flash.id.0
                } else if self.flash.id_mode && a == 1 {
                    self.flash.id.1
                } else {
                    self.save_data[self.flash.bank * 0x1_0000 + a]
                }
            },
            _ => 0xFF,
        }
    }

    /// Writes the backup region. SRAM stores the byte (32 KB, mirrored);
    /// Flash runs its command machine; other kinds ignore the write.
    pub fn write_save_u8(&mut self, addr: u32, val: u8)
        requires
            old(self).wf(),
        ensures
            final(self).wf(),
            final(self).rom == old(self).rom,
            final(self).gpio == old(self).gpio,
            final(self).save_type == old(self).save_type,
            final(self).eeprom_state() == old(self).eeprom_state(),
            old(self).save_type == SaveType::Sram ==> final(self).save() == old(self).save().update(
                (addr % 0x8000) as int,
                val,
            ) && final(self).dirty && final(self).flash_state() == old(self).flash_state(),
            (old(self).save_type == SaveType::Flash64K || old(self).save_type
                == SaveType::Flash128K) ==> ({
                let (f, d, w) = flash_write(old(self).flash_state(), old(self).save(), addr, val);
                &&& final(self).flash_state() == f
                &&& final(self).save() == d
                &&& final(self).dirty == (old(self).dirty || w)
            }),
            (old(self).save_type == SaveType::NoSave || old(self).save_type == SaveType::Eeprom)
                ==> final(self).save() == old(self).save() && final(self).dirty == old(self).dirty
                && final(self).flash_state() == old(self).flash_state(),
    {
        match self.save_type {
            SaveType::Sram => {
                let idx = (addr % 0x8000) as usize;
                self.save_data.set(idx, val);
                self.dirty = true;
            },
            SaveType::Flash64K | SaveType::Flash128K => {
                self.flash_write(addr, val);
            },
            _ => {},
        }
    }

    fn flash_write(&mut self, addr: u32, val: u8)
        requires
            old(self).wf(),
            old(self).save_type == SaveType::Flash64K || old(self).save_type == SaveType::Flash128K,
        ensures
            final(self).wf(),
            final(self).rom == old(self).rom,
            final(self).gpio == old(self).gpio,
            final(self).save_type == old(self).save_type,
            final(self).eeprom_state() == old(self).eeprom_state(),
            ({
                let (f, d, w) = flash_write(old(self).flash_state(), old(self).save(), addr, val);
                &&& final(self).flash_state() == f
                &&& final(self).save() == d
                &&& final(self).dirty == (old(self).dirty || w)
            }),
    {
        let a = addr % 0x1_0000;
        if self.flash.write_armed {
            let idx = self.flash.bank * 0x1_0000 + a as usize;
            self.save_data.set(idx, val);
            self.flash.write_armed = false;
            self.flash.phase = 0;
            self.dirty = true;
            return;
        }
        if self.flash.bank_armed {
            if a == 0 {
                self.flash.bank = (val % 2) as usize;
            }
            self.flash.bank_armed = false;
            self.flash.phase = 0;
            return;
        }
        if self.flash.phase == 0 && a == 0x5555 && val == 0xAA {
            self.flash.phase = 1;
        } else if self.flash.phase == 1 && a == 0x2AAA && val == 0x55 {
            self.flash.phase = 2;
        } else if self.flash.phase == 2 {
            self.flash_command(a, val);
            self.flash.phase = 0;
        } else {
            if val == 0xF0 {
                self.flash.id_mode = false;
            }
            self.flash.phase = 0;
        }
    }

    fn flash_command(&mut self, a: u32, val: u8)
        requires
            old(self).wf(),
            old(self).save_type == SaveType::Flash64K || old(self).save_type == SaveType::Flash128K,
            a < 0x1_0000,
        ensures
            final(self).wf(),
            final(self).rom == old(self).rom,
            final(self).gpio == old(self).gpio,
            final(self).save_type == old(self).save_type,
            final(self).eeprom_state() == old(self).eeprom_state(),
            ({
                let (f, d, w) = flash_command(old(self).flash_state(), old(self).save(), a as int, val);
                &&& final(self).flash_state() == f
                &&& final(self).save() == d
                &&& final(self).dirty == (old(self).dirty || w)
            }),
    {
        if val == 0x90 && a == 0x5555 {
            self.flash.id_mode = true;
        } else if val == 0xF0 && a == 0x5555 {
            self.flash.id_mode = false;
        } else if val == 0x80 && a == 0x5555 {
            self.flash.erase_armed = true;
        } else if val == 0xA0 && a == 0x5555 {
            self.flash.write_armed = true;
        } else if val == 0xB0 && a == 0x5555 && self.flash.bank_switchable {
            self.flash.bank_armed = true;
        } else if val == 0x10 && a == 0x5555 && self.flash.erase_armed {
            let n = self.save_data.len();
            fill_ff(&mut self.save_data, 0, n);
            self.flash.erase_armed = false;
            self.dirty = true;
        } else if val == 0x30 && self.flash.erase_armed {
            let base = self.flash.bank * 0x1_0000 + ((a / 0x1000) * 0x1000) as usize;
            fill_ff(&mut self.save_data, base, base + 0x1000);
            self.flash.erase_armed = false;
            self.dirty = true;
        }
    }

    /// Backup bytes for the `.sav` file; empty when the game does not save.
    pub fn backup_bytes(&self) -> (r: &[u8])
        ensures
            r@ == self.save(),
    {
        self.save_data.as_slice()
    }

    /// Loads a `.sav` file. Accepted only when the game has a backup and the
    /// size matches it; then the backup is replaced and not dirty.
    pub fn load_backup(&mut self, bytes: &[u8]) -> (ok: bool)
        requires
            old(self).wf(),
        ensures
            final(self).wf(),
            ok == (old(self).save().len() != 0 && bytes@.len() == old(self).save().len()),
            ok ==> final(self).save() == bytes@ && !final(self).dirty,
            !ok ==> final(self).save() == old(self).save() && final(self).dirty == old(self).dirty,
            final(self).save_type == old(self).save_type,
            final(self).rom == old(self).rom,
            final(self).gpio == old(self).gpio,
            final(self).flash_state() == old(self).flash_state(),
            final(self).eeprom_state() == old(self).eeprom_state(),
    {
        if self.save_data.len() != 0 && bytes.len() == self.save_data.len() {
            self.save_data = crate::text::sub_vec(bytes, 0, bytes.len());
            assert(self.save_data@ =~= bytes@);
            self.dirty = false;
            true
        } else {
            false
        }
    }

    /// Whether the game has backup memory.
    pub fn has_save(&self) -> (r: bool)
        ensures
            r == (self.save_type != SaveType::NoSave),
    {
        self.save_type != SaveType::NoSave
    }

    /// Whether the backup is an EEPROM (the bus routes region 0x0D here).
    pub fn is_eeprom(&self) -> (r: bool)
        ensures
            r == (self.save_type == SaveType::Eeprom),
    {
        self.save_type == SaveType::Eeprom
    }

    /// Address width the EEPROM learned (0 while unknown).
    pub fn eeprom_addr_bits(&self) -> (r: u8)
        ensures
            r == self.eeprom_state().addr_bits,
    {
        self.eeprom.addr_bits
    }

    /// Receives one command bit (bit 0 of a halfword written to region 0x0D).
    /// A write right after reads starts a new command.
    pub fn eeprom_write_bit(&mut self, bit: u8)
        requires
            old(self).wf(),
        ensures
            final(self).wf(),
            final(self).eeprom_state() == eeprom_push(old(self).eeprom_state(), bit),
            final(self).save() == old(self).save(),
            final(self).dirty == old(self).dirty,
            final(self).save_type == old(self).save_type,
            final(self).rom == old(self).rom,
            final(self).gpio == old(self).gpio,
            final(self).flash_state() == old(self).flash_state(),
    {
        if self.eeprom.reading {
            self.eeprom = Eeprom {
                addr_bits: self.eeprom.addr_bits,
                buffer: 0,
                buffer_len: 0,
                reading: false,
                status_poll: false,
                read_value: 0,
                read_pos: 0,
            };
        }
        if self.eeprom.buffer_len < 81 {
            self.eeprom.buffer = (self.eeprom.buffer << 1u128) | ((bit % 2) as u128);
            self.eeprom.buffer_len = self.eeprom.buffer_len + 1;
        }
    }

    /// Whether every bit of the current read has been pulled (4 dummy bits
    /// and 64 data bits); a further read has no bit to answer.
    pub fn eeprom_exhausted(&self) -> (r: bool)
        ensures
            r == (self.eeprom_state().reading && !self.eeprom_state().status_poll
                && self.eeprom_state().read_pos >= 68),
    {
        self.eeprom.reading && !self.eeprom.status_poll && self.eeprom.read_pos >= 68
    }

    /// Answers one bit (bit 0 of a halfword read from region 0x0D). The first
    /// read after a command decodes it: a read command loads the addressed
    /// block, a write command stores its 64 bits and then answers "ready".
    pub fn eeprom_read_bit(&mut self) -> (r: u8)
        requires
            old(self).wf(),
            !(old(self).eeprom_state().reading && !old(self).eeprom_state().status_poll
                && old(self).eeprom_state().read_pos >= 68),
        ensures
            final(self).wf(),
            ({
                let (e, d, w) = eeprom_reading(old(self).eeprom_state(), old(self).save());
                &&& r == eeprom_bit(e)
                &&& final(self).save() == d
                &&& final(self).dirty == (old(self).dirty || w)
                &&& final(self).eeprom_state() == if !e.status_poll && e.read_pos < 68 {
                    Eeprom { read_pos: (e.read_pos + 1) as u8, ..e }
                } else {
                    e
                }
            }),
            final(self).save_type == old(self).save_type,
            final(self).rom == old(self).rom,
            final(self).gpio == old(self).gpio,
            final(self).flash_state() == old(self).flash_state(),
    {
        if !self.eeprom.reading {
            self.eeprom_decode();
            self.eeprom.reading = true;
        }
        if self.eeprom.status_poll {
            return 1;
        }
        let b: u8 = if self.eeprom.read_pos < 4 {
            0
        } else {
            let idx = self.eeprom.read_pos - 4;
            ((self.eeprom.read_value >> ((63 - idx) as u64)) & 1) as u8
        };
        if self.eeprom.read_pos < 68 {
            self.eeprom.read_pos = self.eeprom.read_pos + 1;
        }
        b
    }

    fn eeprom_decode(&mut self)
        requires
            old(self).wf(),
        ensures
            final(self).wf(),
            ({
                let (e, d, w) = eeprom_decode(old(self).eeprom_state(), old(self).save());
                &&& final(self).eeprom_state() == e
                &&& final(self).save() == d
                &&& final(self).dirty == (old(self).dirty || w)
            }),
            final(self).save_type == old(self).save_type,
            final(self).rom == old(self).rom,
            final(self).gpio == old(self).gpio,
            final(self).flash_state() == old(self).flash_state(),
    {
        let len = self.eeprom.buffer_len;
        if len < 2 {
            self.eeprom.status_poll = true;
            return;
        }
        let buf = self.eeprom.buffer;
        let cmd = (buf >> ((len - 2) as u128)) & 3u128;
        self.eeprom.read_pos = 0;
        if cmd == 3 {
            let n: u8 = if self.eeprom.addr_bits != 0 {
                self.eeprom.addr_bits
            } else if len < 3 {
                0
            } else {
                len - 3
            };
            self.eeprom.addr_bits = n;
            let block = (buf >> 1u128) & block_mask(n);
            self.eeprom.read_value = self.load_block(block);
            self.eeprom.status_poll = false;
        } else if cmd == 2 {
            let n: u8 = if self.eeprom.addr_bits != 0 {
                self.eeprom.addr_bits
            } else if len < 67 {
                0
            } else {
                len - 67
            };
            self.eeprom.addr_bits = n;
            let x = (buf >> 1u128) as u64;
            let block = (buf >> 65u128) & block_mask(n);
            self.store_block(block, x);
            self.dirty = true;
            self.eeprom.status_poll = true;
        } else {
            self.eeprom.status_poll = true;
        }
    }

    /// Reads the 8-byte block `block` as a big-endian value.
    fn load_block(&self, block: u128) -> (r: u64)
        requires
            self.wf(),
        ensures
            r == eeprom_load(self.save(), block),
    {
        let len = self.save_data.len();
        if len == 0 {
            return 0;
        }
        let base = ((block % ((len / 8) as u128)) as usize) * 8;
        let s = self.save_data.as_slice();
        let r = be_join(s[base], s[base + 1], s[base + 2], s[base + 3], s[base + 4], s[base + 5], s[base + 6], s[base + 7]);
        r
    }

    /// Writes `x` big-endian into the 8-byte block `block`.
    fn store_block(&mut self, block: u128, x: u64)
        requires
            old(self).wf(),
        ensures
            final(self).wf(),
            final(self).save() == eeprom_store(old(self).save(), block, x),
            final(self).eeprom_state() == old(self).eeprom_state(),
            final(self).flash_state() == old(self).flash_state(),
            final(self).save_type == old(self).save_type,
            final(self).rom == old(self).rom,
            final(self).gpio == old(self).gpio,
            final(self).dirty == old(self).dirty,
    {
        let len = self.save_data.len();
        if len == 0 {
            return;
        }
        let base = ((block % ((len / 8) as u128)) as usize) * 8;
        store_be(&mut self.save_data, base, x);
    }
}

/// Mask of the `n` low bits of a 128-bit word.
fn block_mask(n: u8) -> (r: u128)
    requires
        n < 128,
    ensures
        r == low_mask(n),
{
    assert(1u128 << n >= 1) by (bit_vector)
        requires
            n < 128,
    ;
    (1u128 << n) - 1
}

/// The big-endian value of eight bytes.
fn be_join(b0: u8, b1: u8, b2: u8, b3: u8, b4: u8, b5: u8, b6: u8, b7: u8) -> (r: u64)
    ensures
        r == (b0 as int * 0x100_0000_0000_0000 + b1 as int * 0x1_0000_0000_0000 + b2 as int
            * 0x100_0000_0000 + b3 as int * 0x1_0000_0000 + b4 as int * 0x100_0000 + b5 as int
            * 0x1_0000 + b6 as int * 0x100 + b7 as int),
{
    let mut v: u64 = 0;
    v = v * 256 + b0 as u64;
    v = v * 256 + b1 as u64;
    v = v * 256 + b2 as u64;
    v = v * 256 + b3 as u64;
    v = v * 256 + b4 as u64;
    v = v * 256 + b5 as u64;
    v = v * 256 + b6 as u64;
    v = v * 256 + b7 as u64;
    v
}

/// Writes the big-endian bytes of `x` at `v[base..base + 8]`.
fn store_be(v: &mut Vec<u8>, base: usize, x: u64)
    requires
        base + 8 <= old(v)@.len(),
    ensures
        final(v)@ == be_stored(old(v)@, base as int, x),
{
    let mut k: usize = 0;
    while k < 8
        invariant
            k <= 8,
            base + 8 <= v.len(),
            v@.len() == old(v)@.len(),
            forall|i: int| 0 <= i < v@.len() && !(base <= i < base + k) ==> v@[i] == old(v)@[i],
            forall|i: int| base <= i < base + k ==> v@[i] == be_byte(x, i - base),
        decreases 8 - k,
    {
        let byte = ((x >> ((56 - 8 * k) as u64)) & 0xFF) as u8;
        v.set(base + k, byte);
        k = k + 1;
    }
    assert(v@ =~= be_stored(old(v)@, base as int, x));
}

/// Sets `v[start..end]` to 0xFF.
fn fill_ff(v: &mut Vec<u8>, start: usize, end: usize)
    requires
        start <= end <= old(v)@.len(),
    ensures
        final(v)@ == erased(old(v)@, start as int, end - start),
{
    let mut i = start;
    while i < end
        invariant
            start <= i <= end <= v@.len(),
            v@.len() == old(v)@.len(),
            forall|j: int| 0 <= j < v@.len() && !(start <= j < i) ==> v@[j] == old(v)@[j],
            forall|j: int| start <= j < i ==> v@[j] == 0xFF,
        decreases end - i,
    {
        v.set(i, 0xFF);
        i = i + 1;
    }
    assert(v@ =~= erased(old(v)@, start as int, end - start));
}

/// Header text: `rom[start..end]` without trailing NUL bytes, decoded.
fn header_text(rom: &[u8], start: usize, end: usize) -> (r: String)
    requires
        start <= end <= rom@.len(),
    ensures
        r@ == lossy_chars(trim_zeros(rom@.subrange(start as int, end as int))),
{
    let mut e = end;
    while e > start && rom[e - 1] == 0
        invariant
            start <= e <= end <= rom@.len(),
            trim_zeros(rom@.subrange(start as int, e as int)) == trim_zeros(
                rom@.subrange(start as int, end as int),
            ),
        decreases e,
    {
        assert(rom@.subrange(start as int, e as int).drop_last() =~= rom@.subrange(start as int, e - 1));
        e = e - 1;
    }
    let bytes = crate::text::sub_vec(rom, start, e);
    proof {
        let s = rom@.subrange(start as int, e as int);
        assert(trim_zeros(s) == s);
    }
    utf8_lossy(bytes.as_slice())
}

/// Whether `needle` occurs in `hay`.
fn has_marker(hay: &[u8], needle: &[u8]) -> (r: bool)
    requires
        needle@.len() > 0,
    ensures
        r == has_window(hay@, needle@),
{
    let n = needle.len();
    if hay.len() < n {
        return false;
    }
    let last = hay.len() - n;
    let mut i: usize = 0;
    while i <= last
        invariant
            n == needle@.len(),
            last + n == hay.len(),
            i <= last + 1,
            forall|j: int| 0 <= j < i ==> #[trigger] hay@.subrange(j, j + n) != needle@,
        decreases last + 1 - i,
    {
        let mut k: usize = 0;
        let mut same = true;
        while k < n
            invariant
                k <= n,
                n == needle@.len(),
                i + n <= hay.len(),
                same == (forall|t: int| 0 <= t < k ==> hay@[i + t] == #[trigger] needle@[t]),
            decreases n - k,
        {
            if hay[i + k] != needle[k] {
                same = false;
            }
            k = k + 1;
        }
        if same {
            assert(hay@.subrange(i as int, i + n) =~= needle@);
            return true;
        }
        assert(hay@.subrange(i as int, i + n) != needle@) by {
            let t = choose|t: int| 0 <= t < n && hay@[i + t] != needle@[t];
            assert(hay@.subrange(i as int, i + n)[t] != needle@[t]);
        }
        i = i + 1;
    }
    assert forall|j: int| 0 <= j && j + needle@.len() <= hay@.len() implies #[trigger] hay@.subrange(j, j + needle@.len()) != needle@ by {
        assert(j < i);
    }
    false
}

/// Detects the backup kind from the library marker strings in the ROM.
fn detect_save_type(rom: &[u8]) -> (r: SaveType)
    ensures
        r == detected_save_type(rom@),
{
    let eeprom: [u8; 8] = [0x45, 0x45, 0x50, 0x52, 0x4F, 0x4D, 0x5F, 0x56];
    let sram: [u8; 6] = [0x53, 0x52, 0x41, 0x4D, 0x5F, 0x56];
    let flash1m: [u8; 9] = [0x46, 0x4C, 0x41, 0x53, 0x48, 0x31, 0x4D, 0x5F, 0x56];
    let flash512: [u8; 10] = [0x46, 0x4C, 0x41, 0x53, 0x48, 0x35, 0x31, 0x32, 0x5F, 0x56];
    let flash: [u8; 7] = [0x46, 0x4C, 0x41, 0x53, 0x48, 0x5F, 0x56];
    assert(eeprom@ =~= marker_eeprom());
    assert(sram@ =~= marker_sram());
    assert(flash1m@ =~= marker_flash1m());
    assert(flash512@ =~= marker_flash512());
    assert(flash@ =~= marker_flash());
    if has_marker(rom, eeprom.as_slice()) {
        SaveType::Eeprom
    } else if has_marker(rom, sram.as_slice()) {
        SaveType::Sram
    } else if has_marker(rom, flash1m.as_slice()) {
        SaveType::Flash128K
    } else if has_marker(rom, flash512.as_slice()) {
        SaveType::Flash64K
    } else if has_marker(rom, flash.as_slice()) {
        SaveType::Flash64K
    } else {
        SaveType::NoSave
    }
}


/// The four writes that program one Flash byte: unlock, 0xA0, then the byte.
pub open spec fn flash_program(f: Flash, d: Seq<u8>, addr: u32, val: u8) -> (Flash, Seq<u8>, bool) {
    let (f1, d1, w1) = flash_write(f, d, 0x5555, 0xAA);
    let (f2, d2, w2) = flash_write(f1, d1, 0x2AAA, 0x55);
    let (f3, d3, w3) = flash_write(f2, d2, 0x5555, 0xA0);
    flash_write(f3, d3, addr, val)
}

/// Law: programming a byte into an idle Flash stores it, the change is
/// reported, and a read of that address (outside chip-ID mode) returns it.
pub proof fn law_flash_program_reads_back(f: Flash, d: Seq<u8>, addr: u32, val: u8)
    requires
        flash_fits(f, d.len()),
        f.phase == 0,
        !f.write_armed,
        !f.bank_armed,
        !f.id_mode,
    ensures
        ({
            let (g, e, w) = flash_program(f, d, addr, val);
            &&& w
            &&& flash_read(g, e, addr) == val
            &&& flash_fits(g, e.len())
            &&& e.len() == d.len()
        }),
{
}

/// The writes that erase the 4 KB sector holding `addr`: unlock, 0x80,
/// unlock, then 0x30 at an address of the sector.
pub open spec fn flash_sector_erase(f: Flash, d: Seq<u8>, addr: u32) -> (Flash, Seq<u8>, bool) {
    let (f1, d1, w1) = flash_write(f, d, 0x5555, 0xAA);
    let (f2, d2, w2) = flash_write(f1, d1, 0x2AAA, 0x55);
    let (f3, d3, w3) = flash_write(f2, d2, 0x5555, 0x80);
    let (f4, d4, w4) = flash_write(f3, d3, 0x5555, 0xAA);
    let (f5, d5, w5) = flash_write(f4, d4, 0x2AAA, 0x55);
    flash_write(f5, d5, addr, 0x30)
}

/// Law: erasing a sector makes every byte of it read 0xFF and leaves the
/// other bytes as they were.
pub proof fn law_flash_sector_erase(f: Flash, d: Seq<u8>, addr: u32, other: u32)
    requires
        flash_fits(f, d.len()),
        f.phase == 0,
        !f.write_armed,
        !f.bank_armed,
        !f.id_mode,
    ensures
        ({
            let (g, e, w) = flash_sector_erase(f, d, addr);
            &&& w
            &&& (other % 0x1_0000) / 0x1000 == (addr % 0x1_0000) / 0x1000 ==> flash_read(g, e, other) == 0xFF
            &&& (other % 0x1_0000) / 0x1000 != (addr % 0x1_0000) / 0x1000 ==> flash_read(g, e, other)
                == flash_read(f, d, other)
        }),
{
}

/// Law: a block written to the EEPROM reads back as the same 64-bit value.
pub proof fn law_eeprom_store_load(data: Seq<u8>, block: u128, x: u64)
    requires
        data.len() == 0x2000,
    ensures
        eeprom_load(eeprom_store(data, block, x), block) == x,
        eeprom_store(data, block, x).len() == data.len(),
{
    let b = block_base(block, data.len());
    assert(0 <= b && b + 8 <= 0x2000) by {
        assert(block % 1024u128 < 1024);
    }
    let s = eeprom_store(data, block, x);
    assert(s[b] == be_byte(x, 0));
    assert(s[b + 1] == be_byte(x, 1));
    assert(s[b + 2] == be_byte(x, 2));
    assert(s[b + 3] == be_byte(x, 3));
    assert(s[b + 4] == be_byte(x, 4));
    assert(s[b + 5] == be_byte(x, 5));
    assert(s[b + 6] == be_byte(x, 6));
    assert(s[b + 7] == be_byte(x, 7));
    lemma_be_bytes_join(x);
}

/// Joining the eight big-endian bytes of `x` gives `x`.
proof fn lemma_be_bytes_join(x: u64)
    ensures
        be_byte(x, 0) as int * 0x100_0000_0000_0000 + be_byte(x, 1) as int * 0x1_0000_0000_0000
            + be_byte(x, 2) as int * 0x100_0000_0000 + be_byte(x, 3) as int * 0x1_0000_0000
            + be_byte(x, 4) as int * 0x100_0000 + be_byte(x, 5) as int * 0x1_0000 + be_byte(x, 6)
            as int * 0x100 + be_byte(x, 7) as int == x,
{
    assert(((x >> 56u64) & 0xFF) as u8 as int * 0x100_0000_0000_0000 + ((x >> 48u64) & 0xFF) as u8
        as int * 0x1_0000_0000_0000 + ((x >> 40u64) & 0xFF) as u8 as int * 0x100_0000_0000 + ((x
        >> 32u64) & 0xFF) as u8 as int * 0x1_0000_0000 + ((x >> 24u64) & 0xFF) as u8 as int
        * 0x100_0000 + ((x >> 16u64) & 0xFF) as u8 as int * 0x1_0000 + ((x >> 8u64) & 0xFF) as u8
        as int * 0x100 + ((x >> 0u64) & 0xFF) as u8 as int == x) by (bit_vector);
}

impl Default for Cartridge {
    fn default() -> (r: Cartridge)
        ensures
            r.wf(),
            r.rom@.len() == 0,
            r.save_type == SaveType::NoSave,
    {
        Cartridge::new()
    }
}

} // verus!
