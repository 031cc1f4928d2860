//! Cartridge GPIO and the Seiko S-3511A real-time clock behind it.
//!
//! Some cartridges (Pokémon RSE) carry a GPIO chip wired to an RTC, mapped in
//! the ROM area: 0x080000C4 data (4 pins), 0x080000C6 direction (1 = output),
//! 0x080000C8 control (bit 0: registers readable, else reads return ROM).
//! Pins: bit 0 = SCK (clock), bit 1 = SIO (serial data), bit 2 = CS.
//!
//! Serial protocol: raising CS starts a command byte (MSB first, high nibble
//! 0x6), then N data bytes (LSB first), read or write by bit 0 of the command.
//! Commands: 0 reset, 1 control/status, 2 date and time (7 bytes), 3 time
//! (3 bytes).
use vstd::prelude::*;

verus! {

/// Offsets of the GPIO registers inside the ROM space.
pub const GPIO_DATA: u32 = 0xC4;
pub const GPIO_DIRECTION: u32 = 0xC6;
pub const GPIO_CONTROL: u32 = 0xC8;
pub const GPIO_END: u32 = 0xC9;

#[derive(Clone, Copy, PartialEq, Eq, Structural)]
pub enum Phase {
    Idle,
    Command,
    Data,
}

pub struct Rtc {
    pub sck: bool,
    pub cs: bool,
    pub sio_out: u8,
    pub phase: Phase,
    /// Bits moved in the current byte.
    pub bits: u8,
    /// Byte being assembled (command or written data).
    pub byte_buf: u8,
    /// The current command reads.
    pub reading: bool,
    pub out_bytes: Vec<u8>,
    pub out_index: usize,
    /// Bytes of the current register.
    pub expected: usize,
    /// Control register.
    pub status: u8,
}

pub struct Gpio {
    pub data: u8,
    pub direction: u8,
    pub readable: bool,
    pub rtc: Rtc,
}

/// The value of GPIO register `off` when the registers are readable.
pub open spec fn gpio_value(g: Gpio, off: u32) -> u8 {
    if off == GPIO_DATA {
        g.data % 16
    } else if off == GPIO_DIRECTION {
        g.direction % 16
    } else if off == GPIO_CONTROL {
        1u8
    } else {
        0u8
    }
}

impl Rtc {
    /// The clock as powered on: lines low, no command, no data, status 0.
    pub open spec fn is_reset(self) -> bool {
        &&& !self.sck && !self.cs && self.sio_out == 0
        &&& self.phase == Phase::Idle
        &&& self.bits == 0 && self.byte_buf == 0 && !self.reading
        &&& self.out_bytes@.len() == 0 && self.out_index == 0 && self.expected == 0 && self.status == 0
    }
}

impl Gpio {
    /// GPIO in its power-on state (not readable, every pin an input).
    pub fn new() -> (r: Gpio)
        ensures
            r.data == 0 && r.direction == 0 && !r.readable,
            r.rtc.is_reset(),
    {
        Gpio {
            data: 0,
            direction: 0,
            readable: false,
            rtc: Rtc {
                sck: false,
                cs: false,
                sio_out: 0,
                phase: Phase::Idle,
                bits: 0,
                byte_buf: 0,
                reading: false,
                out_bytes: Vec::new(),
                out_index: 0,
                expected: 0,
                status: 0,
            },
        }
    }

    /// Reads a GPIO register. `None` when the control register has not made
    /// them readable: the bus then returns the ROM byte.
    pub fn read(&self, off: u32) -> (r: Option<u8>)
        ensures
            !self.readable ==> r.is_none(),
            self.readable ==> r == Some(
                if off == GPIO_DATA {
                    self.data % 16
                } else if off == GPIO_DIRECTION {
                    self.direction % 16
                } else if off == GPIO_CONTROL {
                    1u8
                } else {
                    0u8
                },
            ),
    {
        if !self.readable {
            return None;
        }
        Some(
            if off == GPIO_DATA {
                self.data % 16
            } else if off == GPIO_DIRECTION {
                self.direction % 16
            } else if off == GPIO_CONTROL {
                1
            } else {
                0
            },
        )
    }

    /// Writes a GPIO register. A data write drives the RTC pins; when SIO is an
    /// input, its bit reads what the RTC presents.
    pub fn write(&mut self, off: u32, val: u8)
        ensures
            off == GPIO_DIRECTION ==> final(self).direction == val % 16 && final(self).data == old(self).data && final(self).readable == old(self).readable,
            off == GPIO_CONTROL ==> final(self).readable == (val % 2 == 1) && final(self).data == old(self).data && final(self).direction == old(self).direction,
            off == GPIO_DATA ==> final(self).data < 16 && final(self).direction == old(self).direction && final(self).readable == old(self).readable,
            off != GPIO_DATA && off != GPIO_DIRECTION && off != GPIO_CONTROL ==> final(self).data
                == old(self).data && final(self).direction == old(self).direction && final(self).readable == old(self).readable,
    {
        if off == GPIO_DATA {
            let out = val % 16;
            let sio_in = self.rtc.clock(out);
            let mut d = out & self.direction;
            if self.direction & 0x02 == 0 {
                d = (d & !0x02u8) | ((sio_in & 1) << 1u8);
            }
            self.data = d % 16;
        } else if off == GPIO_DIRECTION {
            self.direction = val % 16;
        } else if off == GPIO_CONTROL {
            self.readable = val % 2 == 1;
        }
    }
}

impl Default for Gpio {
    fn default() -> (r: Gpio)
        ensures
            r.data == 0 && r.direction == 0 && !r.readable,
    {
        Gpio::new()
    }
}

/// A command byte as sent, or bit-reversed when it arrived LSB first (the
/// fixed code 0x6 in the low nibble).
pub open spec fn command_of(raw: u8) -> u8 {
    if (raw >> 4u8) == 0x6 {
        raw
    } else if (raw & 0x0F) == 0x6 {
        rev8(raw)
    } else {
        raw
    }
}

/// A byte with its bit order reversed.
pub open spec fn rev8(b: u8) -> u8 {
    (((b & 1) << 7u8) | ((b & 2) << 5u8) | ((b & 4) << 3u8) | ((b & 8) << 1u8) | ((b & 16) >> 1u8) | ((b
        & 32) >> 3u8) | ((b & 64) >> 5u8) | ((b & 128) >> 7u8)) as u8
}

/// Reverses the bit order of a byte.
pub fn reverse_bits(b: u8) -> (r: u8)
    ensures
        r == rev8(b),
{
    ((b & 1) << 7u8) | ((b & 2) << 5u8) | ((b & 4) << 3u8) | ((b & 8) << 1u8) | ((b & 16) >> 1u8) | ((b
        & 32) >> 3u8) | ((b & 64) >> 5u8) | ((b & 128) >> 7u8)
}

impl Rtc {
    /// Processes a write to the pins and returns the bit the RTC drives on
    /// SIO. A rising CS starts a command, a falling CS ends it; a rising SCK
    /// with CS high moves one bit.
    pub fn clock(&mut self, pins: u8) -> (r: u8)
        requires
            pins < 16,
        ensures
            final(self).cs == (pins & 4 != 0),
            final(self).sck == (pins & 1 != 0),
            r == final(self).sio_out,
    {
        let new_cs = pins & 0x04 != 0;
        let new_sck = pins & 0x01 != 0;
        let sio_cpu = (pins >> 1u8) & 1;

        if !self.cs && new_cs {
            self.phase = Phase::Command;
            self.bits = 0;
            self.byte_buf = 0;
        } else if self.cs && !new_cs {
            self.phase = Phase::Idle;
        }
        self.cs = new_cs;

        if new_cs && !self.sck && new_sck {
            match self.phase {
                Phase::Command => {
                    self.byte_buf = (self.byte_buf << 1u8) | sio_cpu;
                    if self.bits < 7 {
                        self.bits = self.bits + 1;
                    } else {
                        let b = self.byte_buf;
                        self.begin_command(b);
                        self.bits = 0;
                        self.byte_buf = 0;
                    }
                },
                Phase::Data => {
                    if self.reading {
                        if self.out_index < self.out_bytes.len() {
                            let byte = self.out_bytes[self.out_index];
                            let sh = if self.bits < 8 { self.bits } else { 7 };
                            self.sio_out = (byte >> sh) & 1;
                            if self.bits < 7 {
                                self.bits = self.bits + 1;
                            } else {
                                self.bits = 0;
                                self.out_index = self.out_index + 1;
                            }
                        }
                    } else {
                        let sh = if self.bits < 8 { self.bits } else { 7 };
                        self.byte_buf = self.byte_buf | (sio_cpu << sh);
                        if self.bits < 7 {
                            self.bits = self.bits + 1;
                        } else {
                            let b = self.byte_buf;
                            self.store_byte(b);
                            self.bits = 0;
                            self.byte_buf = 0;
                        }
                    }
                },
                Phase::Idle => {},
            }
        }
        self.sck = new_sck;
        self.sio_out
    }

    fn begin_command(&mut self, raw: u8)
        ensures
            ({
                let o = *old(self);
                let f = *final(self);
                let cmd = command_of(raw);
                let reg = (cmd >> 1u8) & 0x07;
                let reading = cmd & 1 != 0;
                &&& f.cs == o.cs && f.sck == o.sck && f.sio_out == o.sio_out
                &&& f.reading == reading && f.bits == 0 && f.byte_buf == 0 && f.out_index == 0
                &&& reg == 0 ==> f.status == 0 && f.phase == Phase::Idle && f.expected == o.expected
                    && f.out_bytes == o.out_bytes
                &&& reg != 0 ==> f.status == o.status
                &&& reg == 1 ==> f.expected == 1 && f.phase == Phase::Data && if reading {
                    f.out_bytes@ == seq![o.status & 0x7F]
                } else {
                    f.out_bytes == o.out_bytes
                }
                &&& reg == 2 ==> f.expected == 7 && f.phase == Phase::Data && if reading {
                    f.out_bytes@.len() == 7
                } else {
                    f.out_bytes == o.out_bytes
                }
                &&& reg == 3 ==> f.expected == 3 && f.phase == Phase::Data && if reading {
                    f.out_bytes@.len() == 3
                } else {
                    f.out_bytes == o.out_bytes
                }
                &&& reg >= 4 ==> f.phase == Phase::Idle && f.expected == o.expected && f.out_bytes == o.out_bytes
            }),
    {
        let cmd = if (raw >> 4u8) == 0x6 {
            raw
        } else if (raw & 0x0F) == 0x6 {
            reverse_bits(raw)
        } else {
            raw
        };
        let reg = (cmd >> 1u8) & 0x07;
        self.reading = cmd & 1 != 0;
        self.bits = 0;
        self.byte_buf = 0;
        self.out_index = 0;
        if reg == 0 {
            self.status = 0;
            self.phase = Phase::Idle;
        } else if reg == 1 {
            self.expected = 1;
            self.phase = Phase::Data;
            if self.reading {
                let mut v: Vec<u8> = Vec::new();
                v.push(self.status & 0x7F);
                self.out_bytes = v;
            }
        } else if reg == 2 {
            self.expected = 7;
            self.phase = Phase::Data;
            if self.reading {
                self.out_bytes = datetime_bcd();
            }
        } else if reg == 3 {
            self.expected = 3;
            self.phase = Phase::Data;
            if self.reading {
                let dt = datetime_bcd();
                let mut v: Vec<u8> = Vec::new();
                v.push(dt[4]);
                v.push(dt[5]);
                v.push(dt[6]);
                self.out_bytes = v;
            }
        } else {
            self.phase = Phase::Idle;
        }
    }

    fn store_byte(&mut self, byte: u8)
        ensures
            ({
                let o = *old(self);
                let idx: usize = if o.out_index < usize::MAX { (o.out_index + 1) as usize } else { o.out_index };
                *final(self) == (Rtc {
                    status: if o.expected == 1 { byte } else { o.status },
                    out_index: idx,
                    phase: if idx >= o.expected { Phase::Idle } else { o.phase },
                    ..o
                })
            }),
    {
        if self.expected == 1 {
            self.status = byte;
        }
        if self.out_index < usize::MAX {
            self.out_index = self.out_index + 1;
        }
        if self.out_index >= self.expected {
            self.phase = Phase::Idle;
        }
    }
}

/// Bounds of the year-of-era step of the civil-date algorithm: for a day of
/// the era below 146097 the year of the era is at most 399 and the day of that
/// year lies in 0..=365.
proof fn lemma_year_of_era(doe: int)
    requires
        0 <= doe < 146_097,
    ensures
        ({
            let yoe = (doe - doe / 1460 + doe / 36_524 - doe / 146_096) / 365;
            &&& 0 <= yoe <= 399
            &&& 365 * yoe + yoe / 4 - yoe / 100 <= doe
            &&& doe - (365 * yoe + yoe / 4 - yoe / 100) <= 365
        }),
{
    let yoe = (doe - doe / 1460 + doe / 36_524 - doe / 146_096) / 365;
    assert(0 <= yoe <= 399) by (nonlinear_arith)
        requires
            0 <= doe < 146_097,
            yoe == (doe - doe / 1460 + doe / 36_524 - doe / 146_096) / 365,
    ;
    assert(365 * yoe + yoe / 4 - yoe / 100 <= doe) by (nonlinear_arith)
        requires
            0 <= doe < 146_097,
            yoe == (doe - doe / 1460 + doe / 36_524 - doe / 146_096) / 365,
    ;
    assert(doe - (365 * yoe + yoe / 4 - yoe / 100) <= 365) by (nonlinear_arith)
        requires
            0 <= doe < 146_097,
            yoe == (doe - doe / 1460 + doe / 36_524 - doe / 146_096) / 365,
    ;
}

/// Bounds of the month step: for a day of the (March-based) year in 0..=365
/// the month index is at most 11 and the day of the month is 1..=31.
proof fn lemma_month_of_year(doy: int)
    requires
        0 <= doy <= 365,
    ensures
        ({
            let mp = (5 * doy + 2) / 153;
            &&& 0 <= mp <= 11
            &&& (153 * mp + 2) / 5 <= doy
            &&& doy - (153 * mp + 2) / 5 + 1 <= 31
        }),
{
    let mp = (5 * doy + 2) / 153;
    assert(0 <= mp <= 11 && (153 * mp + 2) / 5 <= doy && doy - (153 * mp + 2) / 5 + 1 <= 31)
        by (nonlinear_arith)
        requires
            0 <= doy <= 365,
            mp == (5 * doy + 2) / 153,
    ;
}

/// The proleptic Gregorian date (year, month 1..=12, day 1..=31) of the day
/// `days` days after 1970-01-01: days are counted in 400-year eras of
/// 146097 days from 0000-03-01, years start in March, and January and
/// February belong to the following year.
#[verifier::opaque]
pub open spec fn civil_date(days: int) -> (int, int, int) {
    let z = days + 719_468;
    let era = z / 146_097;
    let doe = z % 146_097;
    let yoe = (doe - doe / 1460 + doe / 36_524 - doe / 146_096) / 365;
    let doy = doe - (365 * yoe + yoe / 4 - yoe / 100);
    let mp = (5 * doy + 2) / 153;
    let day = doy - (153 * mp + 2) / 5 + 1;
    let month = if mp < 10 { mp + 3 } else { mp - 9 };
    let year = yoe + era * 400 + (if month <= 2 { 1int } else { 0int });
    (year, month, day)
}

/// Year within the century, month (1..=12) and day (1..=31) of the date
/// `days` days after 1970-01-01.
fn civil_from_days(days: u64) -> (r: (u64, u64, u64))
    requires
        days < 0x1_0000_0000_0000,
    ensures
        r.0 < 100,
        1 <= r.1 <= 12,
        1 <= r.2 <= 31,
        r.0 == civil_date(days as int).0 % 100,
        r.1 == civil_date(days as int).1,
        r.2 == civil_date(days as int).2,
{
    let z: u64 = days + 719_468;
    let doe: u64 = z % 146_097;
    let yoe: u64 = (doe - doe / 1460 + doe / 36_524 - doe / 146_096) / 365;
    proof {
        lemma_year_of_era(doe as int);
    }
    // The era contributes a multiple of 400 years, so only the year of the era
    // decides the year within the century.
    let yy_era: u64 = yoe % 100;
    let doy: u64 = doe - (365 * yoe + yoe / 4 - yoe / 100);
    let mp: u64 = (5 * doy + 2) / 153;
    proof {
        lemma_month_of_year(doy as int);
    }
    let d: u64 = doy - (153 * mp + 2) / 5 + 1;
    let month: u64 = if mp < 10 { mp + 3 } else { mp - 9 };
    let yy: u64 = if month <= 2 { (yy_era + 1) % 100 } else { yy_era };
    proof {
        reveal(civil_date);
        let era = (days + 719_468) / 146_097;
        let k: int = if month <= 2 { 1int } else { 0int };
        let y = yoe as int;
        assert((y + era * 400 + k) % 100 == (y % 100 + k) % 100) by {
            assert(y + era * 400 + k == 100 * (era * 4) + (y + k)) by (nonlinear_arith);
            vstd::arithmetic::div_mod::lemma_mod_multiples_vanish(era * 4, y + k, 100);
            vstd::arithmetic::div_mod::lemma_add_mod_noop(y, k, 100);
            vstd::arithmetic::div_mod::lemma_small_mod(k as nat, 100);
        }
        assert(yy == civil_date(days as int).0 % 100);
    }
    (yy, month, d)
}

/// The BCD encoding of a number below 100.
pub open spec fn bcd_of(v: int) -> u8 {
    ((v / 10) * 16 + v % 10) as u8
}

fn bcd(v: u64) -> (r: u8)
    requires
        v < 100,
    ensures
        r == bcd_of(v as int),
{
    ((v / 10) * 16 + v % 10) as u8
}

/// Seconds since the Unix epoch on the host clock (0 when the clock reads a
/// time before the epoch).
///
/// Trusted: calls `std::time::SystemTime::now` and `duration_since`. Nothing
/// is stated of the value: it is the time of the call.
#[verifier::external_body]
fn host_unix_seconds() -> u64 {
    std::time::SystemTime::now()
        .duration_since(std::time::UNIX_EPOCH)
        .map(|d| d.as_secs())
        .unwrap_or(0)
}

/// The seven BCD bytes of the date and time `secs` seconds after
/// 1970-01-01 00:00:00: year within the century, month, day, day of the week
/// (0 = Sunday, plain binary), hour, minute, second.
pub open spec fn datetime_bytes(secs: int) -> Seq<u8> {
    let days = secs / 86_400;
    let tod = secs % 86_400;
    let date = civil_date(days);
    seq![
        bcd_of(date.0 % 100),
        bcd_of(date.1),
        bcd_of(date.2),
        ((days + 4) % 7) as u8,
        bcd_of(tod / 3600),
        bcd_of((tod % 3600) / 60),
        bcd_of(tod % 60),
    ]
}

/// The host date and time as seven BCD bytes: year, month, day, day of the
/// week, hour, minute, second (S-3511A format, 24-hour mode).
pub fn datetime_bcd() -> (r: Vec<u8>)
    ensures
        exists|secs: u64| r@ == #[trigger] datetime_bytes(secs as int),
{
    let secs = host_unix_seconds();
    let r = datetime_bcd_at(secs);
    assert(r@ == datetime_bytes(secs as int));
    r
}

/// The date and time `secs` seconds after 1970-01-01 00:00:00 as seven BCD
/// bytes (year, month, day, day of the week with 0 = Sunday, hour, minute,
/// second).
pub fn datetime_bcd_at(secs: u64) -> (r: Vec<u8>)
    ensures
        r@ == datetime_bytes(secs as int),
        0x01 <= r[1] <= 0x12,
        0x01 <= r[2] <= 0x31,
        r[4] <= 0x23,
{
    let days = secs / 86_400;
    let tod = secs % 86_400;
    let h = tod / 3600;
    let mi = (tod % 3600) / 60;
    let s = tod % 60;

    let (yy, month, d) = civil_from_days(days);
    let wd: u64 = (days % 7 + 4) % 7;
    proof {
        vstd::arithmetic::div_mod::lemma_add_mod_noop(days as int, 4, 7);
        vstd::arithmetic::div_mod::lemma_small_mod(4, 7);
    }

    let mut v: Vec<u8> = Vec::new();
    v.push(bcd(yy));
    v.push(bcd(month));
    v.push(bcd(d));
    v.push(wd as u8);
    v.push(bcd(h));
    v.push(bcd(mi));
    v.push(bcd(s));
    assert(v@ =~= datetime_bytes(secs as int));
    v
}

} // verus!
