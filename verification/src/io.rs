//! I/O registers kept outside the video, sound and DMA blocks: interrupt
//! control (IE, IF, IME), timers, keypad and the serial port.
use vstd::prelude::*;
use crate::joypad::Joypad;
use crate::sio::Sio;
use crate::timer::Timers;

pub mod irq_bits;

verus! {

pub const IE_ADDR: u32 = 0x0400_0200;
pub const IF_ADDR: u32 = 0x0400_0202;
pub const IME_ADDR: u32 = 0x0400_0208;
pub const KEYINPUT_ADDR: u32 = 0x0400_0130;
pub const KEYCNT_ADDR: u32 = 0x0400_0132;

pub struct Io {
    /// Interrupt Enable.
    pub ie: u16,
    /// Interrupt Flag (requests); writing a 1 clears the bit.
    pub iflag: u16,
    /// Interrupt Master Enable.
    pub ime: bool,
    pub timers: Timers,
    pub joypad: Joypad,
    pub sio: Sio,
}

/// Whether `addr` lies in the serial register block.
pub open spec fn is_sio_addr(addr: u32) -> bool {
    (0x0400_0120 <= addr < 0x0400_012C) || addr == 0x0400_0134 || addr == 0x0400_0135
}

impl Io {
    /// The byte that a read of `addr` returns: timers, serial port, keypad
    /// and interrupt control; unmapped bytes read 0.
    pub open spec fn byte_at(&self, addr: u32) -> u8 {
        if 0x0400_0100 <= addr < 0x0400_0110 {
            let t = self.timers.units[(addr - 0x0400_0100) / 4];
            let f = (addr - 0x0400_0100) % 4;
            if f == 0 {
                (t.counter % 256) as u8
            } else if f == 1 {
                (t.counter / 256) as u8
            } else if f == 2 {
                (t.control % 256) as u8
            } else {
                (t.control / 256) as u8
            }
        } else if is_sio_addr(addr) {
            if addr % 2 == 0 {
                (self.sio.read16((addr - addr % 2) as u32) % 256) as u8
            } else {
                (self.sio.read16((addr - addr % 2) as u32) / 256) as u8
            }
        } else if addr == KEYINPUT_ADDR {
            (self.joypad.keyinput % 256) as u8
        } else if addr == KEYINPUT_ADDR + 1 {
            (self.joypad.keyinput / 256) as u8
        } else if addr == KEYCNT_ADDR {
            (self.joypad.keycnt % 256) as u8
        } else if addr == KEYCNT_ADDR + 1 {
            (self.joypad.keycnt / 256) as u8
        } else if addr == IE_ADDR {
            (self.ie % 256) as u8
        } else if addr == IE_ADDR + 1 {
            (self.ie / 256) as u8
        } else if addr == IF_ADDR {
            (self.iflag % 256) as u8
        } else if addr == IF_ADDR + 1 {
            (self.iflag / 256) as u8
        } else if addr == IME_ADDR {
            if self.ime { 1 } else { 0 }
        } else {
            0
        }
    }

    /// Interrupts off, every peripheral reset.
    pub fn new() -> (r: Io)
        ensures
            r.ie == 0 && r.iflag == 0 && !r.ime,
            r.joypad.keyinput == 0x03FF && r.joypad.keycnt == 0,
            forall|i: int|
                0 <= i < 4 ==> r.timers.units[i].counter == 0 && r.timers.units[i].reload == 0
                    && r.timers.units[i].control == 0 && r.timers.units[i].cycles == 0,
            r.sio.rcnt == 0 && r.sio.siocnt == 0 && r.sio.siomlt_send == 0 && !r.sio.link.active
                && !r.sio.link.pending_start && !r.sio.link.partner_ready && r.sio.link.id == 0,
            forall|i: int| 0 <= i < 4 ==> r.sio.siomulti[i] == 0,
    {
        Io {
            ie: 0,
            iflag: 0,
            ime: false,
            timers: Timers::new(),
            joypad: Joypad::new(),
            sio: Sio::new(),
        }
    }

    /// Reads one byte of an I/O register of this block; unmapped bytes read 0.
    pub fn read_u8(&self, addr: u32) -> (r: u8)
        ensures
            r == self.byte_at(addr),
            addr == IE_ADDR ==> r == self.ie % 256,
            addr == IE_ADDR + 1 ==> r == self.ie / 256,
            addr == IF_ADDR ==> r == self.iflag % 256,
            addr == IF_ADDR + 1 ==> r == self.iflag / 256,
            addr == IME_ADDR ==> r == (if self.ime { 1u8 } else { 0u8 }),
            addr == KEYINPUT_ADDR ==> r == self.joypad.keyinput % 256,
            addr == KEYINPUT_ADDR + 1 ==> r == self.joypad.keyinput / 256,
            addr == KEYCNT_ADDR ==> r == self.joypad.keycnt % 256,
            addr == KEYCNT_ADDR + 1 ==> r == self.joypad.keycnt / 256,
    {
        if 0x0400_0100 <= addr && addr < 0x0400_0110 {
            self.timers.read_u8(addr)
        } else if (0x0400_0120 <= addr && addr < 0x0400_012C) || addr == 0x0400_0134 || addr
            == 0x0400_0135 {
            self.sio.read_u8(addr)
        } else if addr == KEYINPUT_ADDR {
            (self.joypad.keyinput % 256) as u8
        } else if addr == KEYINPUT_ADDR + 1 {
            (self.joypad.keyinput / 256) as u8
        } else if addr == KEYCNT_ADDR {
            (self.joypad.keycnt % 256) as u8
        } else if addr == KEYCNT_ADDR + 1 {
            (self.joypad.keycnt / 256) as u8
        } else if addr == IE_ADDR {
            (self.ie % 256) as u8
        } else if addr == IE_ADDR + 1 {
            (self.ie / 256) as u8
        } else if addr == IF_ADDR {
            (self.iflag % 256) as u8
        } else if addr == IF_ADDR + 1 {
            (self.iflag / 256) as u8
        } else if addr == IME_ADDR {
            if self.ime {
                1
            } else {
                0
            }
        } else {
            0
        }
    }

    /// What a register byte write does.
    pub open spec fn byte_write_effect(self, f: Io, addr: u32, val: u8) -> bool {
        &&& addr == IE_ADDR ==> f.ie == (self.ie / 256) * 256 + val
        &&& addr == IE_ADDR + 1 ==> f.ie == (self.ie % 256) + val * 256
        &&& addr == IF_ADDR ==> f.iflag == self.iflag & !(val as u16)
        &&& addr == IF_ADDR + 1 ==> f.iflag == self.iflag & !(((val as u16) * 256) as u16)
        &&& addr == IME_ADDR ==> f.ime == (val % 2 == 1)
        &&& addr == KEYCNT_ADDR ==> f.joypad.keycnt == (self.joypad.keycnt / 256) * 256 + val
        &&& addr == KEYCNT_ADDR + 1 ==> f.joypad.keycnt == (self.joypad.keycnt % 256) + val * 256
        &&& addr != IF_ADDR && addr != IF_ADDR + 1 && !is_sio_addr(addr) ==> f.iflag == self.iflag
        &&& addr != IE_ADDR && addr != IE_ADDR + 1 ==> f.ie == self.ie
        &&& addr != IME_ADDR ==> f.ime == self.ime
        &&& f.joypad.keyinput == self.joypad.keyinput
        &&& 0x0400_0100 <= addr < 0x0400_0110 ==> self.timers.byte_written(f.timers, addr, val)
        &&& !(0x0400_0100 <= addr < 0x0400_0110) ==> f.timers == self.timers
        &&& !is_sio_addr(addr) ==> f.sio == self.sio
    }

    /// Writes one byte of an I/O register of this block. IF is
    /// write-one-to-clear; a serial write that completes a transfer with its
    /// interrupt enabled raises the serial interrupt.
    pub fn write_u8(&mut self, addr: u32, val: u8)
        ensures
            old(self).byte_write_effect(*final(self), addr, val),
    {
        if 0x0400_0100 <= addr && addr < 0x0400_0110 {
            self.timers.write_u8(addr, val);
        } else if (0x0400_0120 <= addr && addr < 0x0400_012C) || addr == 0x0400_0134 || addr
            == 0x0400_0135 {
            if self.sio.write_u8(addr, val) {
                self.raise(irq_bits::SERIAL);
            }
        } else if addr == KEYCNT_ADDR {
            self.joypad.keycnt = (self.joypad.keycnt / 256) * 256 + val as u16;
        } else if addr == KEYCNT_ADDR + 1 {
            self.joypad.keycnt = (self.joypad.keycnt % 256) + (val as u16) * 256;
        } else if addr == IE_ADDR {
            self.ie = (self.ie / 256) * 256 + val as u16;
        } else if addr == IE_ADDR + 1 {
            self.ie = (self.ie % 256) + (val as u16) * 256;
        } else if addr == IF_ADDR {
            self.iflag = self.iflag & !(val as u16);
        } else if addr == IF_ADDR + 1 {
            self.iflag = self.iflag & !((val as u16) * 256);
        } else if addr == IME_ADDR {
            self.ime = val % 2 == 1;
        }
    }

    /// An interrupt is pending and the master enable lets it through.
    pub fn irq_pending(&self) -> (r: bool)
        ensures
            r == (self.ime && (self.ie & self.iflag) != 0),
    {
        self.ime && (self.ie & self.iflag) != 0
    }

    /// The condition that ends a Halt: some enabled interrupt is requested,
    /// whatever the master enable.
    pub fn halt_condition_met(&self) -> (r: bool)
        ensures
            r == ((self.ie & self.iflag) != 0),
    {
        (self.ie & self.iflag) != 0
    }

    /// Requests the interrupts in `flag` (they fire only if IE and IME allow).
    pub fn raise(&mut self, flag: u16)
        ensures
            *final(self) == (Io { iflag: old(self).iflag | flag, ..*old(self) }),
    {
        self.iflag = self.iflag | flag;
    }
}

impl Default for Io {
    fn default() -> (r: Io)
        ensures
            r.ie == 0 && r.iflag == 0 && !r.ime,
    {
        Io::new()
    }
}

} // verus!
