//! Serial I/O: the link cable.
//!
//! Without a partner the registers behave as on a GBA with no cable:
//!   - Multi-player: SI and SD read 0 (we are the parent and "not all ready").
//!     A start completes at once: our own data echoes in SIOMULTI0 and the
//!     absent partners read 0xFFFF (line high); busy clears; the serial IRQ is
//!     requested when enabled.
//!   - Normal (8/32-bit) with internal clock: completes at once reading the line
//!     high (0xFF / 0xFFFFFFFF).
//!   - Normal with external clock, UART and general-purpose mode: nobody drives
//!     the clock and the transfer never completes (busy stays set).
//!
//! With a link session active (another instance on the other end) the
//! multi-player registers show the session instead: bits 4-5 of SIOCNT read our
//! ID, SI reads 1 on a child, SD reads whether the partner is ready, and a
//! start written by the parent stays pending until the host exchanges the data
//! and calls [`Sio::complete_multi`].
use vstd::prelude::*;

verus! {

pub const SIOMULTI0_ADDR: u32 = 0x0400_0120;
pub const SIOCNT_ADDR: u32 = 0x0400_0128;
pub const SIOMLT_SEND_ADDR: u32 = 0x0400_012A;
pub const RCNT_ADDR: u32 = 0x0400_0134;

/// Start/busy bit of SIOCNT.
pub const START: u16 = 0x80;

/// IRQ enable bit of SIOCNT.
pub const IRQ_ENABLE: u16 = 0x4000;

/// Effective serial mode (RCNT + SIOCNT).
#[derive(PartialEq, Eq, Debug, Clone, Copy, Structural)]
pub enum Mode {
    Normal8,
    Normal32,
    Multi,
    Uart,
    /// RCNT bit 15 set (general-purpose or JOY bus): SIOCNT is inert.
    GeneralPurpose,
}

/// State of a link session driven by the host.
#[derive(Clone, Copy)]
pub struct LinkState {
    /// A session is active.
    pub active: bool,
    /// Our ID on the cable: 0 = parent (drives the clock).
    pub id: u8,
    /// The partner is in multi-player mode.
    pub partner_ready: bool,
    /// The parent's game wrote START and the host has not exchanged it yet.
    pub pending_start: bool,
}

pub struct Sio {
    pub rcnt: u16,
    pub siocnt: u16,
    /// SIOMULTI0-3; in 32-bit normal mode [0]/[1] are SIODATA32.
    pub siomulti: [u16; 4],
    /// SIOMLT_SEND; in 8-bit normal mode it is SIODATA8.
    pub siomlt_send: u16,
    pub link: LinkState,
}

/// Mode selected by RCNT and SIOCNT.
pub open spec fn mode_of(rcnt: u16, siocnt: u16) -> Mode {
    if rcnt >= 0x8000 {
        Mode::GeneralPurpose
    } else {
        let m = (siocnt / 4096) % 4;
        if m == 0 {
            Mode::Normal8
        } else if m == 1 {
            Mode::Normal32
        } else if m == 2 {
            Mode::Multi
        } else {
            Mode::Uart
        }
    }
}

/// Whether `addr` names one of the serial registers kept by [`Sio`].
pub open spec fn is_sio_reg(addr: u32) -> bool {
    addr == SIOMULTI0_ADDR || addr == SIOMULTI0_ADDR + 2 || addr == SIOMULTI0_ADDR + 4 || addr
        == SIOMULTI0_ADDR + 6 || addr == SIOCNT_ADDR || addr == SIOMLT_SEND_ADDR || addr
        == RCNT_ADDR
}

impl Sio {
    pub open spec fn spec_mode(&self) -> Mode {
        mode_of(self.rcnt, self.siocnt)
    }

    /// The SIOCNT value a read returns.
    pub open spec fn siocnt_read(&self) -> u16 {
        if self.spec_mode() == Mode::Multi {
            if self.link.active {
                ((self.siocnt & !0x3Cu16) | (((self.link.id % 4) as u16) << 4u16) | (if self.link.id
                    != 0 {
                    4u16
                } else {
                    0u16
                }) | (if self.link.partner_ready {
                    8u16
                } else {
                    0u16
                })) as u16
            } else {
                self.siocnt & !0x0Cu16
            }
        } else {
            self.siocnt
        }
    }

    /// The halfword a read of `addr` returns.
    pub open spec fn read16(&self, addr: u32) -> u16 {
        if addr == SIOMULTI0_ADDR {
            self.siomulti[0]
        } else if addr == SIOMULTI0_ADDR + 2 {
            self.siomulti[1]
        } else if addr == SIOMULTI0_ADDR + 4 {
            self.siomulti[2]
        } else if addr == SIOMULTI0_ADDR + 6 {
            self.siomulti[3]
        } else if addr == SIOCNT_ADDR {
            self.siocnt_read()
        } else if addr == SIOMLT_SEND_ADDR {
            self.siomlt_send
        } else if addr == RCNT_ADDR {
            self.rcnt
        } else {
            0
        }
    }

    /// The halfword stored at `addr`, without the line-state bits of a read.
    pub open spec fn stored16(&self, addr: u32) -> u16 {
        if addr == SIOCNT_ADDR {
            self.siocnt
        } else {
            self.read16(addr)
        }
    }

    /// What a write that sets START does to the state, and whether it requests
    /// the serial interrupt.
    pub open spec fn started(s: Sio) -> (Sio, bool) {
        if s.siocnt & START == 0 {
            (s, false)
        } else {
            match s.spec_mode() {
                Mode::Multi => if s.link.active {
                    (Sio { link: LinkState { pending_start: s.link.id == 0, ..s.link }, ..s }, false)
                } else {
                    (
                        Sio {
                            siomulti: [s.siomlt_send, 0xFFFF, 0xFFFF, 0xFFFF],
                            siocnt: s.siocnt & !START,
                            ..s
                        },
                        s.siocnt & IRQ_ENABLE != 0,
                    )
                },
                Mode::Normal8 => if s.siocnt % 2 == 1 {
                    (
                        Sio {
                            siomlt_send: ((s.siomlt_send / 256) * 256 + 0xFF) as u16,
                            siocnt: s.siocnt & !START,
                            ..s
                        },
                        s.siocnt & IRQ_ENABLE != 0,
                    )
                } else {
                    (s, false)
                },
                Mode::Normal32 => if s.siocnt % 2 == 1 {
                    (
                        Sio {
                            siomulti: [0xFFFF, 0xFFFF, s.siomulti[2], s.siomulti[3]],
                            siocnt: s.siocnt & !START,
                            ..s
                        },
                        s.siocnt & IRQ_ENABLE != 0,
                    )
                } else {
                    (s, false)
                },
                _ => (s, false),
            }
        }
    }

    /// Registers zero, no link session.
    pub fn new() -> (r: Sio)
        ensures
            r.rcnt == 0 && r.siocnt == 0 && r.siomlt_send == 0 && !r.link.active
                && !r.link.pending_start && !r.link.partner_ready && r.link.id == 0,
            forall|i: int| 0 <= i < 4 ==> r.siomulti[i] == 0,
    {
        Sio {
            rcnt: 0,
            siocnt: 0,
            siomulti: [0; 4],
            siomlt_send: 0,
            link: LinkState { active: false, id: 0, partner_ready: false, pending_start: false },
        }
    }

    /// The effective serial mode.
    pub fn mode(&self) -> (r: Mode)
        ensures
            r == self.spec_mode(),
    {
        if self.rcnt >= 0x8000 {
            return Mode::GeneralPurpose;
        }
        let m = (self.siocnt / 4096) % 4;
        if m == 0 {
            Mode::Normal8
        } else if m == 1 {
            Mode::Normal32
        } else if m == 2 {
            Mode::Multi
        } else {
            Mode::Uart
        }
    }

    /// Reads one byte of a serial register.
    pub fn read_u8(&self, addr: u32) -> (r: u8)
        ensures
            r == (if addr % 2 == 0 {
                (self.read16((addr - addr % 2) as u32) % 256) as u8
            } else {
                (self.read16((addr - addr % 2) as u32) / 256) as u8
            }),
    {
        let v = self.read_u16(addr - addr % 2);
        if addr % 2 == 0 {
            (v % 256) as u8
        } else {
            (v / 256) as u8
        }
    }

    fn read_siocnt(&self) -> (r: u16)
        ensures
            r == self.siocnt_read(),
    {
        if self.mode() == Mode::Multi {
            if self.link.active {
                let id_bits: u16 = ((self.link.id % 4) as u16) << 4u16;
                let si: u16 = if self.link.id != 0 { 4 } else { 0 };
                let sd: u16 = if self.link.partner_ready { 8 } else { 0 };
                (self.siocnt & !0x3Cu16) | id_bits | si | sd
            } else {
                self.siocnt & !0x0Cu16
            }
        } else {
            self.siocnt
        }
    }

    /// Reads a serial register halfword as the game sees it.
    pub fn read_u16(&self, addr: u32) -> (r: u16)
        ensures
            r == self.read16(addr),
    {
        if addr == SIOMULTI0_ADDR {
            self.siomulti[0]
        } else if addr == SIOMULTI0_ADDR + 2 {
            self.siomulti[1]
        } else if addr == SIOMULTI0_ADDR + 4 {
            self.siomulti[2]
        } else if addr == SIOMULTI0_ADDR + 6 {
            self.siomulti[3]
        } else if addr == SIOCNT_ADDR {
            self.read_siocnt()
        } else if addr == SIOMLT_SEND_ADDR {
            self.siomlt_send
        } else if addr == RCNT_ADDR {
            self.rcnt
        } else {
            0
        }
    }

    fn stored_u16(&self, addr: u32) -> (r: u16)
        ensures
            r == self.stored16(addr),
    {
        if addr == SIOCNT_ADDR {
            self.siocnt
        } else {
            self.read_u16(addr)
        }
    }

    /// Byte write: read-modify-write of the stored halfword, then a halfword
    /// write, so a partial write never starts a transfer with a stale other
    /// byte. Returns whether the serial interrupt must be raised.
    pub fn write_u8(&mut self, addr: u32, val: u8) -> (irq: bool)
        ensures
            ({
                let base = (addr - addr % 2) as u32;
                let cur = old(self).stored16(base);
                let new: u16 = if addr % 2 == 0 {
                    ((cur / 256) * 256 + val) as u16
                } else {
                    ((cur % 256) + val * 256) as u16
                };
                &&& base == SIOCNT_ADDR ==> (*final(self), irq) == Sio::started(Sio { siocnt: new, ..*old(self) })
                &&& base != SIOCNT_ADDR ==> !irq && final(self).siocnt == old(self).siocnt && final(self).link
                    == old(self).link
                &&& is_sio_reg(base) && base != SIOCNT_ADDR ==> final(self).read16(base) == new
                &&& !is_sio_reg(base) ==> final(self).siomulti == old(self).siomulti && final(self).rcnt
                    == old(self).rcnt && final(self).siomlt_send == old(self).siomlt_send
            }),
    {
        let base = addr - addr % 2;
        let cur = self.stored_u16(base);
        let new = if addr % 2 == 0 {
            (cur / 256) * 256 + val as u16
        } else {
            (cur % 256) + (val as u16) * 256
        };
        self.write_u16(base, new)
    }

    /// Atomic halfword write (STRH, the documented way to program the serial
    /// port). Returns whether a transfer completed with its interrupt enabled,
    /// in which case the caller raises the serial interrupt.
    pub fn write_u16(&mut self, addr: u32, val: u16) -> (irq: bool)
        ensures
            addr == SIOCNT_ADDR ==> (*final(self), irq) == Sio::started(
                Sio { siocnt: val, ..*old(self) },
            ),
            addr != SIOCNT_ADDR ==> !irq && final(self).siocnt == old(self).siocnt
                && final(self).link == old(self).link,
            is_sio_reg(addr) && addr != SIOCNT_ADDR ==> final(self).read16(addr) == val,
            !is_sio_reg(addr) ==> final(self).siomulti == old(self).siomulti && final(self).rcnt
                == old(self).rcnt && final(self).siomlt_send == old(self).siomlt_send,
    {
        if addr == SIOMULTI0_ADDR {
            self.siomulti[0] = val;
        } else if addr == SIOMULTI0_ADDR + 2 {
            self.siomulti[1] = val;
        } else if addr == SIOMULTI0_ADDR + 4 {
            self.siomulti[2] = val;
        } else if addr == SIOMULTI0_ADDR + 6 {
            self.siomulti[3] = val;
        } else if addr == SIOCNT_ADDR {
            self.siocnt = val;
            return self.maybe_complete_transfer();
        } else if addr == SIOMLT_SEND_ADDR {
            self.siomlt_send = val;
        } else if addr == RCNT_ADDR {
            self.rcnt = val;
        }
        false
    }

    fn maybe_complete_transfer(&mut self) -> (irq: bool)
        ensures
            (*final(self), irq) == Sio::started(*old(self)),
    {
        proof {
            crate::bits::lemma_u16_single_bits();
        }
        if self.siocnt & START == 0 {
            return false;
        }
        match self.mode() {
            Mode::Multi => {
                if self.link.active {
                    self.link.pending_start = self.link.id == 0;
                    return false;
                }
                self.siomulti = [self.siomlt_send, 0xFFFF, 0xFFFF, 0xFFFF];
            },
            Mode::Normal8 => {
                if self.siocnt % 2 == 1 {
                    self.siomlt_send = (self.siomlt_send / 256) * 256 + 0xFF;
                } else {
                    return false;
                }
            },
            Mode::Normal32 => {
                if self.siocnt % 2 == 1 {
                    self.siomulti = [0xFFFF, 0xFFFF, self.siomulti[2], self.siomulti[3]];
                } else {
                    return false;
                }
            },
            _ => {
                return false;
            },
        }
        self.siocnt = self.siocnt & !START;
        self.siocnt & IRQ_ENABLE != 0
    }

    /// In multi-player mode.
    pub fn in_multi(&self) -> (r: bool)
        ensures
            r == (self.spec_mode() == Mode::Multi),
    {
        self.mode() == Mode::Multi
    }

    /// The value this unit sends in a transfer (SIOMLT_SEND).
    pub fn send_value(&self) -> (r: u16)
        ensures
            r == self.siomlt_send,
    {
        self.siomlt_send
    }

    /// Start of a multi-player transfer: the busy bit lights on every unit and
    /// the pending start is taken.
    pub fn begin_transfer(&mut self)
        ensures
            final(self).siocnt == old(self).siocnt | START,
            !final(self).link.pending_start,
            final(self).link.active == old(self).link.active,
            final(self).link.id == old(self).link.id,
            final(self).link.partner_ready == old(self).link.partner_ready,
            final(self).siomulti == old(self).siomulti,
            final(self).siomlt_send == old(self).siomlt_send,
            final(self).rcnt == old(self).rcnt,
    {
        self.siocnt = self.siocnt | START;
        self.link.pending_start = false;
    }

    /// End of a multi-player transfer: stores the data in ID order, clears
    /// busy and returns whether the serial interrupt is enabled. Outside
    /// multi-player mode nothing changes and `false` is returned.
    pub fn complete_multi(&mut self, data: [u16; 4]) -> (irq: bool)
        ensures
            old(self).spec_mode() == Mode::Multi ==> final(self).siomulti == data
                && final(self).siocnt == old(self).siocnt & !START && irq == (old(self).siocnt
                & IRQ_ENABLE != 0) && !final(self).link.pending_start && final(self).siomlt_send
                == old(self).siomlt_send && final(self).rcnt == old(self).rcnt,
            old(self).spec_mode() != Mode::Multi ==> !irq && final(self).siomulti == old(
                self,
            ).siomulti && final(self).siocnt == old(self).siocnt && final(self).link == old(
                self,
            ).link,
            final(self).link.active == old(self).link.active,
            final(self).link.id == old(self).link.id,
            final(self).link.partner_ready == old(self).link.partner_ready,
    {
        proof {
            crate::bits::lemma_u16_single_bits();
        }
        if self.mode() != Mode::Multi {
            return false;
        }
        self.siomulti = data;
        self.siocnt = self.siocnt & !START;
        self.link.pending_start = false;
        self.siocnt & IRQ_ENABLE != 0
    }
}

impl Default for Sio {
    fn default() -> (r: Sio)
        ensures
            r.rcnt == 0 && r.siocnt == 0 && r.siomlt_send == 0 && !r.link.active
                && !r.link.pending_start,
            forall|i: int| 0 <= i < 4 ==> r.siomulti[i] == 0,
    {
        Sio::new()
    }
}

} // verus!
