//! Shiny Hunter: automates hunting shiny Pokémon in the third-generation
//! games (Ruby, Sapphire, Emerald).
//!
//! A `GameProfile` says where a game keeps its Pokémon; the `Hunter` drives
//! the loop: reset, advance to the encounter, read the target's PID, check
//! the shiny formula, repeat. Shininess depends on the player's TID/SID
//! (read from the leader of the player's party) and on the target's PID: the
//! target's slot is addressed exactly, so a shiny in the player's party never
//! confuses the reading.
use vstd::prelude::*;
use crate::bus::Bus;
use crate::gba::Gba;
use crate::io::Io;
use crate::joypad::{button_index, Button, Joypad};
use crate::shiny::games::{base_of, cursor_value, GameProfile, HuntMethod, TargetDef};

pub mod games;
pub mod gfx;

verus! {

/// The raw value of the shiny formula: `PID_hi ^ PID_lo ^ TID ^ SID`.
pub open spec fn shiny_formula(pid: u32, tid: u16, sid: u16) -> u16 {
    ((pid / 0x1_0000) as u16) ^ ((pid % 0x1_0000) as u16) ^ tid ^ sid
}

/// Law: the trainer IDs enter the shiny value by exclusive or. Changing
/// the IDs changes the value by exactly the exclusive or of the old and new
/// IDs; equal TID and SID cancel out; and with both zero the value is the
/// exclusive or of the PID's two halves.
pub proof fn law_shiny_ids_xor(pid: u32, tid: u16, sid: u16, tid2: u16, sid2: u16)
    ensures
        shiny_formula(pid, tid, sid) ^ shiny_formula(pid, tid2, sid2) == tid ^ sid ^ tid2 ^ sid2,
        shiny_formula(pid, tid, tid) == shiny_formula(pid, 0, 0),
        shiny_formula(pid, 0, 0) == ((pid >> 16) ^ (pid & 0xFFFF)) as u16,
        shiny_formula(pid, tid, sid) ^ tid ^ sid == shiny_formula(pid, 0, 0),
{
    let hi = (pid / 0x1_0000) as u16;
    let lo = (pid % 0x1_0000) as u16;
    assert(((pid / 0x1_0000) as u16) == (pid >> 16) as u16 && ((pid % 0x1_0000) as u16) == (pid & 0xFFFF) as u16)
        by (bit_vector);
    assert(((pid / 0x1_0000) as u16 ^ (pid % 0x1_0000) as u16 ^ 0u16 ^ 0u16) == ((pid >> 16) ^ (pid & 0xFFFF)) as u16)
        by (bit_vector);
    assert((hi ^ lo ^ tid ^ sid) ^ (hi ^ lo ^ tid2 ^ sid2) == tid ^ sid ^ tid2 ^ sid2) by (bit_vector);
    assert(hi ^ lo ^ tid ^ tid == hi ^ lo ^ 0u16 ^ 0u16) by (bit_vector);
    assert((hi ^ lo ^ tid ^ sid) ^ tid ^ sid == hi ^ lo ^ 0u16 ^ 0u16) by (bit_vector);
}

/// Third-generation shiny test: the formula's value is below 8.
pub fn is_shiny_gen3(pid: u32, tid: u16, sid: u16) -> (r: bool)
    ensures
        r == (shiny_formula(pid, tid, sid) < 8),
{
    shiny_value(pid, tid, sid) < 8
}

/// The raw value of the shiny formula (below 8 means shiny); the frontends
/// show how close an attempt came.
pub fn shiny_value(pid: u32, tid: u16, sid: u16) -> (r: u16)
    ensures
        r == shiny_formula(pid, tid, sid),
{
    let pid_hi = (pid / 0x1_0000) as u16;
    let pid_lo = (pid % 0x1_0000) as u16;
    pid_hi ^ pid_lo ^ tid ^ sid
}

/// The order of the four substructures (Growth 0, Attacks 1, EVs 2, Misc 3)
/// for `PID % 24`, as they lie in memory.
pub open spec fn order_row(row: int) -> Seq<u8> {
    if row == 0 { seq![0u8, 1, 2, 3] }
    else if row == 1 { seq![0u8, 1, 3, 2] }
    else if row == 2 { seq![0u8, 2, 1, 3] }
    else if row == 3 { seq![0u8, 2, 3, 1] }
    else if row == 4 { seq![0u8, 3, 1, 2] }
    else if row == 5 { seq![0u8, 3, 2, 1] }
    else if row == 6 { seq![1u8, 0, 2, 3] }
    else if row == 7 { seq![1u8, 0, 3, 2] }
    else if row == 8 { seq![1u8, 2, 0, 3] }
    else if row == 9 { seq![1u8, 2, 3, 0] }
    else if row == 10 { seq![1u8, 3, 0, 2] }
    else if row == 11 { seq![1u8, 3, 2, 0] }
    else if row == 12 { seq![2u8, 0, 1, 3] }
    else if row == 13 { seq![2u8, 0, 3, 1] }
    else if row == 14 { seq![2u8, 1, 0, 3] }
    else if row == 15 { seq![2u8, 1, 3, 0] }
    else if row == 16 { seq![2u8, 3, 0, 1] }
    else if row == 17 { seq![2u8, 3, 1, 0] }
    else if row == 18 { seq![3u8, 0, 1, 2] }
    else if row == 19 { seq![3u8, 0, 2, 1] }
    else if row == 20 { seq![3u8, 1, 0, 2] }
    else if row == 21 { seq![3u8, 1, 2, 0] }
    else if row == 22 { seq![3u8, 2, 0, 1] }
    else { seq![3u8, 2, 1, 0] }
}

/// The order of the four substructures for `PID % 24 == row`.
pub fn substruct_order(row: u32) -> (r: [u8; 4])
    requires
        row < 24,
    ensures
        r@ == order_row(row as int),
{
    let r: [u8; 4] = if row == 0 { [0, 1, 2, 3] }
    else if row == 1 { [0, 1, 3, 2] }
    else if row == 2 { [0, 2, 1, 3] }
    else if row == 3 { [0, 2, 3, 1] }
    else if row == 4 { [0, 3, 1, 2] }
    else if row == 5 { [0, 3, 2, 1] }
    else if row == 6 { [1, 0, 2, 3] }
    else if row == 7 { [1, 0, 3, 2] }
    else if row == 8 { [1, 2, 0, 3] }
    else if row == 9 { [1, 2, 3, 0] }
    else if row == 10 { [1, 3, 0, 2] }
    else if row == 11 { [1, 3, 2, 0] }
    else if row == 12 { [2, 0, 1, 3] }
    else if row == 13 { [2, 0, 3, 1] }
    else if row == 14 { [2, 1, 0, 3] }
    else if row == 15 { [2, 1, 3, 0] }
    else if row == 16 { [2, 3, 0, 1] }
    else if row == 17 { [2, 3, 1, 0] }
    else if row == 18 { [3, 0, 1, 2] }
    else if row == 19 { [3, 0, 2, 1] }
    else if row == 20 { [3, 1, 0, 2] }
    else if row == 21 { [3, 1, 2, 0] }
    else if row == 22 { [3, 2, 0, 1] }
    else { [3, 2, 1, 0] };
    assert(r@ =~= order_row(row as int));
    r
}

/// The index of the first 0 in `s` (its length when there is none).
pub open spec fn first_zero(s: Seq<u8>) -> int
    decreases s.len(),
{
    if s.len() == 0 {
        0
    } else if s[0] == 0 {
        0
    } else {
        1 + first_zero(s.drop_first())
    }
}

proof fn lemma_first_zero(s: Seq<u8>, r: int)
    requires
        0 <= r < s.len(),
        s[r] == 0,
        forall|j: int| 0 <= j < r ==> s[j] != 0,
    ensures
        first_zero(s) == r,
    decreases r,
{
    if r > 0 {
        lemma_first_zero(s.drop_first(), r - 1);
    }
}

/// Where the Growth substructure lies for `PID % 24 == row`.
fn growth_slot(row: u32) -> (r: usize)
    requires
        row < 24,
    ensures
        r == first_zero(order_row(row as int)),
        r < 4,
{
    let order = substruct_order(row);
    let mut i: usize = 0;
    while i < 3 && order[i] != 0
        invariant
            i <= 3,
            order@ == order_row(row as int),
            forall|j: int| 0 <= j < i ==> order@[j] != 0,
        decreases 3 - i,
    {
        i = i + 1;
    }
    proof {
        if order@[i as int] != 0 {
            assert(i == 3);
            assert(order@[3] == 0 || row < 24 && order_row(row as int)[3] == 0 || order_row(row as int).contains(0u8));
        }
        lemma_first_zero(order@, i as int);
    }
    i
}

/// A third-generation Pokémon read from RAM.
#[derive(Debug, Clone, Copy)]
pub struct Gen3Mon {
    /// Personality value (in the clear, offset 0x00).
    pub pid: u32,
    /// OT ID: TID in the low 16 bits, SID in the high (offset 0x04).
    pub otid: u32,
    /// Internal species index, from the decrypted Growth substructure.
    pub species: u16,
    /// The checksum matches and the PID is not 0: real, fresh data.
    pub valid: bool,
}

impl Gen3Mon {
    pub fn tid(&self) -> (r: u16)
        ensures
            r == self.otid % 0x1_0000,
    {
        (self.otid % 0x1_0000) as u16
    }

    pub fn sid(&self) -> (r: u16)
        ensures
            r == self.otid / 0x1_0000,
    {
        (self.otid / 0x1_0000) as u16
    }
}

/// The word a 32-bit read of `a` returns.
#[verifier::opaque]
pub open spec fn word32(bus: Bus, a: u32) -> u32 {
    bus.word_at((a - a % 4) as u32)
}

/// The halfword a 16-bit read of `a` returns.
#[verifier::opaque]
pub open spec fn half16(bus: Bus, a: u32) -> u16 {
    bus.half_at((a - a % 2) as u32)
}

/// The `i`-th decrypted word of the Pokémon at `base`: the stored word XOR
/// `PID ^ OTID`.
pub open spec fn mon_word(bus: Bus, base: u32, i: int) -> u32 {
    word32(bus, (base + 0x20 + 4 * i) as u32) ^ (word32(bus, base) ^ word32(bus, (base + 4) as u32))
}

/// The sum of the 16-bit halves of the words.
pub open spec fn halves_sum(ws: Seq<u32>) -> int
    decreases ws.len(),
{
    if ws.len() == 0 {
        0
    } else {
        halves_sum(ws.drop_last()) + ws.last() % 0x1_0000 + ws.last() / 0x1_0000
    }
}

/// The twelve decrypted words of the Pokémon at `base`.
pub open spec fn mon_words(bus: Bus, base: u32) -> Seq<u32> {
    Seq::new(12, |i: int| mon_word(bus, base, i))
}

/// The Pokémon stored at `base`: PID and OT ID in the clear; species the
/// first halfword of the Growth substructure; valid when the PID is not 0
/// and the halfword sum of the decrypted words matches the checksum at
/// offset 0x1C.
pub open spec fn mon_at(bus: Bus, base: u32) -> Gen3Mon {
    let pid = word32(bus, base);
    let ws = mon_words(bus, base);
    let slot = first_zero(order_row(pid as int % 24));
    Gen3Mon {
        pid,
        otid: word32(bus, (base + 4) as u32),
        species: (ws[3 * slot] % 0x1_0000) as u16,
        valid: pid != 0 && halves_sum(ws) % 0x1_0000 == half16(bus, (base + 0x1C) as u32),
    }
}

/// The 0x50 bytes of a Pokémon at `base` lie below the cartridge's backup
/// region, so reading them has no effect.
pub open spec fn plain_mon_addr(base: u32) -> bool {
    base as int + 0x50 <= 0x0D00_0000
}

/// One word read from the bus; below the backup region the read has no
/// effect.
fn read_word(bus: &mut Bus, a: u32) -> (r: u32)
    requires
        old(bus).wf(),
    ensures
        final(bus).wf(),
        a as int + 4 <= 0x0D00_0000 ==> r == word32(*old(bus), a) && *final(bus) == *old(bus),
{
    proof {
        reveal(word32);
        assert(a as int + 4 <= 0x0D00_0000 ==> crate::bus::region((a - a % 4) as u32) < 0xD);
    }
    bus.read_u32(a)
}

/// One halfword read from the bus; below the backup region the read has no
/// effect.
fn read_half(bus: &mut Bus, a: u32) -> (r: u16)
    requires
        old(bus).wf(),
    ensures
        final(bus).wf(),
        a as int + 2 <= 0x0D00_0000 ==> r == half16(*old(bus), a) && *final(bus) == *old(bus),
{
    proof {
        reveal(half16);
        assert(a as int + 2 <= 0x0D00_0000 ==> crate::bus::region((a - a % 2) as u32) < 0xD);
    }
    bus.read_u16(a)
}

/// The twelve stored words from `base + 0x20`, each XORed with `key`.
fn read_words(bus: &mut Bus, base: u32, key: u32) -> (ws: Vec<u32>)
    requires
        old(bus).wf(),
        base <= 0xFFFF_FF00,
    ensures
        final(bus).wf(),
        ws@.len() == 12,
        plain_mon_addr(base) ==> *final(bus) == *old(bus) && forall|j: int|
            0 <= j < 12 ==> ws@[j] == word32(*old(bus), (base + 0x20 + 4 * j) as u32) ^ key,
{
    let mut ws: Vec<u32> = Vec::new();
    let mut i: u32 = 0;
    while i < 12
        invariant
            bus.wf(),
            i <= 12,
            base <= 0xFFFF_FF00,
            ws@.len() == i,
            plain_mon_addr(base) ==> *bus == *old(bus),
            plain_mon_addr(base) ==> forall|j: int|
                0 <= j < i ==> ws@[j] == word32(*old(bus), (base + 0x20 + 4 * j) as u32) ^ key,
        decreases 12 - i,
    {
        let enc = read_word(bus, base + 0x20 + i * 4);
        ws.push(enc ^ key);
        i = i + 1;
    }
    ws
}

/// The halfword sum of the words, truncated to 16 bits.
fn checksum(ws: &Vec<u32>) -> (r: u16)
    ensures
        r == halves_sum(ws@) % 0x1_0000,
{
    let mut sum: u32 = 0;
    let mut i: usize = 0;
    while i < ws.len()
        invariant
            i <= ws@.len(),
            sum == halves_sum(ws@.subrange(0, i as int)) % 0x1_0000_0000,
        decreases ws.len() - i,
    {
        proof {
            assert(ws@.subrange(0, i + 1).drop_last() =~= ws@.subrange(0, i as int));
        }
        sum = sum.wrapping_add(ws[i] % 0x1_0000).wrapping_add(ws[i] / 0x1_0000);
        i = i + 1;
    }
    proof {
        assert(ws@.subrange(0, i as int) =~= ws@);
        vstd::arithmetic::div_mod::lemma_mod_mod(halves_sum(ws@), 0x1_0000, 0x1_0000);
    }
    (sum % 0x1_0000) as u16
}

/// Reads and decrypts the Pokémon at `base`. The PID and OT ID are stored
/// in the clear; the following 48 bytes are four 12-byte substructures,
/// each word XORed with `PID ^ OTID`, in the order `PID % 24` gives.
pub fn read_mon(gba: &mut Gba, base: u32) -> (r: Gen3Mon)
    requires
        old(gba).wf(),
        base <= 0xFFFF_FF00,
    ensures
        final(gba).wf(),
        final(gba).cpu == old(gba).cpu,
        plain_mon_addr(base) ==> r == mon_at(old(gba).bus, base) && *final(gba) == *old(gba),
{
    let pid = read_word(&mut gba.bus, base);
    let otid = read_word(&mut gba.bus, base + 4);
    let stored_checksum = read_half(&mut gba.bus, base + 0x1C);
    let key = pid ^ otid;
    let words = read_words(&mut gba.bus, base, key);
    proof {
        if plain_mon_addr(base) {
            assert(words@ =~= mon_words(old(gba).bus, base));
        }
    }
    let valid = pid != 0 && checksum(&words) == stored_checksum;
    let slot = growth_slot(pid % 24);
    let species = (words[slot * 3] % 0x1_0000) as u16;
    Gen3Mon { pid, otid, species, valid }
}

/// One hunt frame from `o` to `f`: with the CPU as it was (only inputs and
/// work RAM adjusted), the console runs a whole frame.
pub open spec fn frame_ran(o: Gba, f: Gba) -> bool {
    exists|g: Gba| #[trigger] crate::gba::steps(g, f, crate::gba::CYCLES_PER_FRAME as nat) && g.cpu == o.cpu
}

/// `t` is a run of hunt frames.
pub open spec fn frame_trace(t: Seq<Gba>) -> bool {
    forall|i: int| 0 <= i < t.len() - 1 ==> #[trigger] frame_ran(t[i], t[i + 1])
}

/// `f` follows from `o` by `n` hunt frames.
pub open spec fn frames_ran(o: Gba, f: Gba, n: nat) -> bool {
    exists|t: Seq<Gba>| #[trigger] frame_trace(t) && t.len() == n + 1 && t[0] == o && t[n as int] == f
}

/// `f` is `g` with the A button released.
pub open spec fn a_released(g: Gba, f: Gba) -> bool {
    f == (Gba {
        bus: Bus {
            io: Io {
                joypad: Joypad {
                    keyinput: g.bus.io.joypad.keyinput | (1u16 << (button_index(Button::A) as u16)),
                    ..g.bus.io.joypad
                },
                ..g.bus.io
            },
            ..g.bus
        },
        ..g
    })
}

/// `f` is `o` after a power cycle: the cartridge kept, the CPU at the ROM
/// entry point, the work RAMs cleared.
pub open spec fn restarted(o: Gba, f: Gba) -> bool {
    &&& f.bus.cartridge == o.bus.cartridge
    &&& f.cpu.reg(15) == 0x0800_0000
    &&& f.bus.ewram@ == Seq::new(crate::bus::EWRAM_LEN as nat, |i: int| 0u8)
    &&& f.bus.iwram@ == Seq::new(crate::bus::IWRAM_LEN as nat, |i: int| 0u8)
}

/// One attempt from `o`: a power cycle to `g1` for a soft-reset legendary
/// (else `g1` is `o`), then `n` hunt frames (one to an hour of them) to
/// `g2`; either the encounter was reached and A is released in `f`, or the
/// hour ran out and the attempt is not ready.
pub open spec fn attempt_ran(o: Gba, g1: Gba, g2: Gba, f: Gba, n: nat, method: HuntMethod, r: CheckResult) -> bool {
    &&& method == HuntMethod::SoftResetLegendary ==> restarted(o, g1)
    &&& method != HuntMethod::SoftResetLegendary ==> g1 == o
    &&& 1 <= n <= 3600
    &&& frames_ran(g1, g2, n)
    &&& a_released(g2, f) || (f == g2 && n == 3600 && r == CheckResult::NotReady)
}

/// Reading work RAM sees only the two work memories: two buses that agree
/// on them hold the same Pokémon at a party address.
#[verifier::rlimit(50)]
#[verifier::spinoff_prover]
proof fn lemma_mon_at_ram(b1: Bus, b2: Bus, base: u32)
    requires
        crate::shiny::games::ram_party(base),
        b1.ewram == b2.ewram,
        b1.iwram == b2.iwram,
    ensures
        mon_at(b1, base) == mon_at(b2, base),
{
    reveal(word32);
    reveal(half16);
    assert(mon_words(b1, base) =~= mon_words(b2, base));
}

/// Whether `x` occurs in `v`.
fn contains_u32(v: &Vec<u32>, x: u32) -> (r: bool)
    ensures
        r == v@.contains(x),
{
    let mut i: usize = 0;
    while i < v.len()
        invariant
            i <= v@.len(),
            forall|j: int| 0 <= j < i ==> v@[j] != x,
        decreases v.len() - i,
    {
        if v[i] == x {
            return true;
        }
        i = i + 1;
    }
    false
}

/// Forces the starter menu's selection to the target's Poké Ball, but only
/// while the task that takes the menu's input runs (its function, 8 bytes
/// before the selection byte, is one of the profile's): elsewhere, and for
/// targets that are not starters, nothing is written.
pub fn force_starter_cursor(gba: &mut Gba, profile: &GameProfile, target: &TargetDef)
    requires
        old(gba).wf(),
        profile.wf(),
    ensures
        final(gba).wf(),
        final(gba).cpu == old(gba).cpu,
        ({
            match profile.starter_menu {
                Some(m) => if target.method == HuntMethod::Starter && m.input_funcs@.contains(
                    word32(old(gba).bus, (m.cursor_addr - 8) as u32),
                ) {
                    old(gba).bus.byte_written(final(gba).bus, m.cursor_addr, cursor_value(target.cursor))
                } else {
                    *final(gba) == *old(gba)
                },
                None => *final(gba) == *old(gba),
            }
        }),
{
    if target.method != HuntMethod::Starter {
        return;
    }
    match &profile.starter_menu {
        None => {},
        Some(menu) => {
            let f = read_word(&mut gba.bus, menu.cursor_addr - 8);
            if contains_u32(&menu.input_funcs, f) {
                gba.bus.write_u8(menu.cursor_addr, target.cursor.value());
            }
        },
    }
}

/// The outcome of an encounter check.
#[derive(Debug, Clone, Copy, PartialEq, Eq, Structural)]
pub enum CheckResult {
    /// The encounter is not ready (invalid data or another species).
    NotReady,
    /// Ready, not shiny.
    NotShiny,
    /// Shiny.
    Shiny,
}

/// The frame of an attempt (counted from the reset) at which the game's RNG
/// seed is injected: after the game seeds it at boot and before the
/// encounter's PID is rolled.
pub const SEED_INJECT_FRAME: u32 = 200;

/// Half-period of the A-button tap (8 frames pressed, 8 released).
pub const MASH_PERIOD: u32 = 8;

/// One SplitMix64 state step.
pub open spec fn splitmix_next(s: u64) -> u64 {
    ((s as nat + 0x9E37_79B9_7F4A_7C15nat) % 0x1_0000_0000_0000_0000nat) as u64
}

/// The SplitMix64 output for a state.
pub open spec fn splitmix_mix(s: u64) -> u64 {
    let z1 = (((s ^ (s >> 30u64)) as nat * 0xBF58_476D_1CE4_E5B9nat) % 0x1_0000_0000_0000_0000nat) as u64;
    let z2 = (((z1 ^ (z1 >> 27u64)) as nat * 0x94D0_49BB_1331_11EBnat) % 0x1_0000_0000_0000_0000nat) as u64;
    z2 ^ (z2 >> 31u64)
}

/// The 32-bit game seed drawn from a host RNG state.
pub open spec fn seed_of(s: u64) -> u32 {
    (splitmix_mix(s) % 0x1_0000_0000) as u32
}

/// The target is ready: valid data and, when the target names a species,
/// that species.
pub open spec fn ready(m: Gen3Mon, target: TargetDef) -> bool {
    m.valid && (target.species == 0 || m.species == target.species)
}

/// Entropy for a new hunter: the system clock in nanoseconds.
///
/// Trusted: calls `SystemTime::now` and converts the time since the Unix
/// epoch to nanoseconds (0 if the clock is before the epoch). Nothing is
/// stated of the value: it depends on the time.
#[verifier::external_body]
fn host_seed() -> (r: u64) {
    match std::time::SystemTime::now().duration_since(std::time::UNIX_EPOCH) {
        Ok(d) => d.as_nanos() as u64,
        Err(_) => 0,
    }
}

/// The hunt driver; keeps the state between attempts for the frontends.
pub struct Hunter {
    pub attempts: u64,
    pub found: bool,
    /// PID read at the last check.
    pub last_pid: u32,
    /// Raw formula value at the last check (below 8 is shiny).
    pub last_shiny_value: u16,
    /// Species read at the last encounter.
    pub last_species: u16,
    /// Lowest formula value seen in this hunt (0xFFFF: none yet).
    pub best_shiny_value: u16,
    /// The attempt at which the lowest value was seen.
    pub best_attempt: u64,
    /// Frames spent in the attempt under way.
    pub frames_this_attempt: u32,
    /// The game RNG seed to inject in this attempt.
    pub pending_seed: u32,
    /// The seed of this attempt was already written.
    pub seed_injected: bool,
    /// The host RNG state (SplitMix64).
    pub rng_state: u64,
}

impl Hunter {
    /// A hunter whose host RNG starts from `seed`; the first attempt's game
    /// seed is drawn at once.
    pub fn from_seed(seed: u64) -> (r: Hunter)
        ensures
            r.attempts == 0 && !r.found && r.last_pid == 0 && r.last_species == 0,
            r.last_shiny_value == 0xFFFF && r.best_shiny_value == 0xFFFF && r.best_attempt == 0,
            r.frames_this_attempt == 0 && !r.seed_injected,
            r.rng_state == splitmix_next(seed),
            r.pending_seed == seed_of(r.rng_state),
    {
        let mut h = Hunter {
            attempts: 0,
            found: false,
            last_pid: 0,
            last_shiny_value: 0xFFFF,
            last_species: 0,
            best_shiny_value: 0xFFFF,
            best_attempt: 0,
            frames_this_attempt: 0,
            pending_seed: 0,
            seed_injected: false,
            rng_state: seed,
        };
        h.reroll_seed();
        h
    }

    /// A hunter seeded from the host clock, so that instances differ.
    pub fn new() -> (r: Hunter)
        ensures
            r.attempts == 0 && !r.found && r.last_pid == 0 && r.last_species == 0,
            r.last_shiny_value == 0xFFFF && r.best_shiny_value == 0xFFFF && r.best_attempt == 0,
            r.frames_this_attempt == 0 && !r.seed_injected,
            r.pending_seed == seed_of(r.rng_state),
    {
        Hunter::from_seed(host_seed())
    }

    /// The next host RNG value (SplitMix64).
    pub fn next_rng(&mut self) -> (r: u64)
        ensures
            *final(self) == (Hunter { rng_state: splitmix_next(old(self).rng_state), ..*old(self) }),
            r == splitmix_mix(final(self).rng_state),
    {
        self.rng_state = self.rng_state.wrapping_add(0x9E37_79B9_7F4A_7C15);
        let mut z = self.rng_state;
        z = (z ^ (z >> 30)).wrapping_mul(0xBF58_476D_1CE4_E5B9);
        z = (z ^ (z >> 27)).wrapping_mul(0x94D0_49BB_1331_11EB);
        z ^ (z >> 31)
    }

    /// Draws the game seed of the next attempt from the host RNG.
    pub fn reroll_seed(&mut self)
        ensures
            *final(self) == (Hunter {
                rng_state: splitmix_next(old(self).rng_state),
                pending_seed: seed_of(splitmix_next(old(self).rng_state)),
                seed_injected: false,
                ..*old(self)
            }),
    {
        let v = self.next_rng();
        self.pending_seed = (v % 0x1_0000_0000) as u32;
        self.seed_injected = false;
    }

    /// At the injection frame of an attempt, writes the pending seed to the
    /// game's RNG (for games whose profile gives its address), once.
    fn maybe_inject_seed(&mut self, gba: &mut Gba, profile: &GameProfile)
        requires
            old(gba).wf(),
        ensures
            final(gba).wf(),
            final(gba).cpu == old(gba).cpu,
            ({
                let fire = !old(self).seed_injected && old(self).frames_this_attempt == SEED_INJECT_FRAME
                    && profile.rng_addr is Some;
                &&& fire ==> old(gba).bus.word_written(
                    final(gba).bus,
                    (profile.rng_addr.unwrap() - profile.rng_addr.unwrap() % 4) as u32,
                    old(self).pending_seed,
                ) && *final(self) == (Hunter { seed_injected: true, ..*old(self) })
                &&& !fire ==> *final(self) == *old(self) && *final(gba) == *old(gba)
            }),
    {
        if self.seed_injected || self.frames_this_attempt != SEED_INJECT_FRAME {
            return;
        }
        match profile.rng_addr {
            Some(addr) => {
                gba.bus.write_u32(addr, self.pending_seed);
                self.seed_injected = true;
            },
            None => {},
        }
    }

    /// Power cycle (the backup memory stays), so the game goes back to the
    /// title screen; draws a new seed for the next attempt.
    pub fn soft_reset(&mut self, gba: &mut Gba)
        requires
            old(gba).wf(),
        ensures
            final(gba).wf(),
            final(gba).bus.cartridge == old(gba).bus.cartridge,
            final(gba).cpu.reg(15) == 0x0800_0000,
            restarted(*old(gba), *final(gba)),
            *final(self) == (Hunter {
                frames_this_attempt: 0,
                rng_state: splitmix_next(old(self).rng_state),
                pending_seed: seed_of(splitmix_next(old(self).rng_state)),
                seed_injected: false,
                ..*old(self)
            }),
    {
        gba.reset();
        self.frames_this_attempt = 0;
        self.reroll_seed();
    }

    /// One frame of the A-button mash: injects the seed at its frame,
    /// forces the starter selection, taps A (8 frames pressed, 8 released),
    /// runs the frame and counts it.
    fn mash_frame(&mut self, gba: &mut Gba, profile: &GameProfile, target: &TargetDef)
        requires
            old(gba).wf(),
            profile.wf(),
        ensures
            final(gba).wf(),
            final(self).frames_this_attempt == if old(self).frames_this_attempt == u32::MAX {
                u32::MAX
            } else {
                (old(self).frames_this_attempt + 1) as u32
            },
            final(self).attempts == old(self).attempts && final(self).found == old(self).found,
            final(self).best_shiny_value == old(self).best_shiny_value,
            final(self).best_attempt == old(self).best_attempt,
            final(self).last_shiny_value == old(self).last_shiny_value,
            final(self).last_pid == old(self).last_pid && final(self).last_species == old(self).last_species,
            final(self).rng_state == old(self).rng_state,
            frame_ran(*old(gba), *final(gba)),
    {
        self.maybe_inject_seed(gba, profile);
        force_starter_cursor(gba, profile, target);
        let press = (self.frames_this_attempt / MASH_PERIOD) % 2 == 0;
        gba.bus.io.joypad.set_button(Button::A, press);
        let ghost g = *gba;
        gba.run_frame();
        self.frames_this_attempt = self.frames_this_attempt.saturating_add(1);
        proof {
            assert(crate::gba::steps(g, *gba, crate::gba::CYCLES_PER_FRAME as nat) && g.cpu == old(gba).cpu);
        }
    }

    /// The encounter is ready: the target's data are valid and, if the
    /// target names a species, of that species.
    fn encounter_ready(&self, gba: &mut Gba, base: u32, target: &TargetDef) -> (r: bool)
        requires
            old(gba).wf(),
            crate::shiny::games::ram_party(base),
        ensures
            *final(gba) == *old(gba),
            r == ready(mon_at(old(gba).bus, base), *target),
    {
        let mon = read_mon(gba, base);
        mon.valid && (target.species == 0 || mon.species == target.species)
    }

    /// Releases A once the encounter is ready; the Pokémon in work RAM stay
    /// as they were.
    fn release_a(gba: &mut Gba, base: u32)
        requires
            old(gba).wf(),
            crate::shiny::games::ram_party(base),
        ensures
            final(gba).wf(),
            mon_at(final(gba).bus, base) == mon_at(old(gba).bus, base),
            *final(gba) == (Gba {
                bus: Bus {
                    io: Io {
                        joypad: Joypad {
                            keyinput: old(gba).bus.io.joypad.keyinput | (1u16 << (button_index(Button::A) as u16)),
                            ..old(gba).bus.io.joypad
                        },
                        ..old(gba).bus.io
                    },
                    ..old(gba).bus
                },
                ..*old(gba)
            }),
    {
        gba.bus.io.joypad.set_button(Button::A, false);
        proof {
            lemma_mon_at_ram(old(gba).bus, gba.bus, base);
        }
    }

    /// Runs frames mashing A until the target is ready in RAM or
    /// `max_frames` frames have run; returns whether it became ready.
    pub fn advance_to_encounter(&mut self, gba: &mut Gba, profile: &GameProfile, target: &TargetDef, max_frames: u32) -> (r: bool)
        requires
            old(gba).wf(),
            profile.wf(),
        ensures
            final(gba).wf(),
            r ==> ready(mon_at(final(gba).bus, base_of(*profile, *target)), *target),
            !r && max_frames > 0 ==> !ready(mon_at(final(gba).bus, base_of(*profile, *target)), *target),
            final(self).frames_this_attempt <= max_frames,
            final(self).attempts == old(self).attempts && final(self).found == old(self).found,
            final(self).best_shiny_value == old(self).best_shiny_value,
            final(self).best_attempt == old(self).best_attempt,
            r ==> 1 <= final(self).frames_this_attempt && exists|g: Gba|
                #[trigger] frames_ran(*old(gba), g, final(self).frames_this_attempt as nat) && a_released(g, *final(gba)),
            !r ==> final(self).frames_this_attempt == max_frames && frames_ran(*old(gba), *final(gba), max_frames as nat),
    {
        let base = profile.target_base(target);
        self.frames_this_attempt = 0;
        self.seed_injected = false;
        let mut n: u32 = 0;
        let ghost mut t: Seq<Gba> = seq![*gba];
        while n < max_frames
            invariant
                gba.wf(),
                profile.wf(),
                base == base_of(*profile, *target),
                n <= max_frames,
                self.frames_this_attempt == n,
                self.attempts == old(self).attempts && self.found == old(self).found,
                self.best_shiny_value == old(self).best_shiny_value,
                self.best_attempt == old(self).best_attempt,
                n > 0 ==> !ready(mon_at(gba.bus, base), *target),
                frame_trace(t) && t.len() == n + 1 && t[0] == *old(gba) && t[n as int] == *gba,
            decreases max_frames - n,
        {
            self.mash_frame(gba, profile, target);
            proof {
                let t0 = t;
                t = t.push(*gba);
                assert forall|i: int| 0 <= i < t.len() - 1 implies #[trigger] frame_ran(t[i], t[i + 1]) by {
                    if i < t0.len() - 1 {
                        assert(frame_ran(t0[i], t0[i + 1]));
                    }
                }
            }
            n = n + 1;
            if self.encounter_ready(gba, base, target) {
                let ghost g = *gba;
                Hunter::release_a(gba, base);
                proof {
                    assert(frame_trace(t) && t.len() == n + 1 && t[0] == *old(gba) && t[n as int] == g);
                    assert(frames_ran(*old(gba), g, n as nat));
                }
                return true;
            }
        }
        proof {
            assert(frames_ran(*old(gba), *gba, n as nat));
        }
        false
    }

    /// Checks the target against the shiny formula with the TID/SID of the
    /// leader of the player's party, and records the outcome for the
    /// frontends (last values, lowest value so far and its attempt).
    pub fn check(&mut self, gba: &mut Gba, profile: &GameProfile, target: &TargetDef) -> (r: CheckResult)
        requires
            old(gba).wf(),
            profile.wf(),
            old(self).attempts < u64::MAX,
        ensures
            *final(gba) == *old(gba),
            ({
                let m = mon_at(old(gba).bus, base_of(*profile, *target));
                let player = mon_at(old(gba).bus, profile.player_party);
                let v = shiny_formula(m.pid, (player.otid % 0x1_0000) as u16, (player.otid / 0x1_0000) as u16);
                let attempts = (old(self).attempts + 1) as u64;
                if !m.valid {
                    r == CheckResult::NotReady && *final(self) == *old(self)
                } else {
                    &&& *final(self) == (Hunter {
                        attempts,
                        last_pid: m.pid,
                        last_species: m.species,
                        last_shiny_value: v,
                        best_shiny_value: if v < old(self).best_shiny_value { v } else { old(self).best_shiny_value },
                        best_attempt: if v < old(self).best_shiny_value { attempts } else { old(self).best_attempt },
                        found: old(self).found || v < 8,
                        ..*old(self)
                    })
                    &&& r == if v < 8 { CheckResult::Shiny } else { CheckResult::NotShiny }
                }
            }),
    {
        let base = profile.target_base(target);
        let target_mon = read_mon(gba, base);
        if !target_mon.valid {
            return CheckResult::NotReady;
        }
        self.attempts = self.attempts + 1;
        let player = read_mon(gba, profile.player_party);
        let tid = player.tid();
        let sid = player.sid();
        self.last_pid = target_mon.pid;
        self.last_species = target_mon.species;
        self.last_shiny_value = shiny_value(target_mon.pid, tid, sid);
        if self.last_shiny_value < self.best_shiny_value {
            self.best_shiny_value = self.last_shiny_value;
            self.best_attempt = self.attempts;
        }
        if self.last_shiny_value < 8 {
            self.found = true;
            CheckResult::Shiny
        } else {
            CheckResult::NotShiny
        }
    }

    /// One frame of `tick`: mash, and when the encounter is ready check it
    /// (resetting unless shiny); past the timeout, reset. `None` when the
    /// attempt goes on.
    fn tick_frame(&mut self, gba: &mut Gba, profile: &GameProfile, target: &TargetDef, attempt_timeout: u32) -> (r: Option<CheckResult>)
        requires
            old(gba).wf(),
            profile.wf(),
            !old(self).found,
            old(self).attempts < u64::MAX,
        ensures
            final(gba).wf(),
            r is None ==> !final(self).found && final(self).attempts == old(self).attempts,
            r == Some(CheckResult::Shiny) ==> final(self).found,
            r != Some(CheckResult::Shiny) ==> !final(self).found,
            r == Some(CheckResult::NotReady) ==> final(self).attempts == old(self).attempts,
            r == Some(CheckResult::NotShiny) || r == Some(CheckResult::Shiny) ==> final(self).attempts == old(
                self,
            ).attempts + 1,
            ({
                let frames: u32 = if old(self).frames_this_attempt == u32::MAX {
                    u32::MAX
                } else {
                    (old(self).frames_this_attempt + 1) as u32
                };
                &&& r is None ==> !ready(mon_at(final(gba).bus, base_of(*profile, *target)), *target)
                    && final(self).frames_this_attempt == frames && frames < attempt_timeout
                &&& r == Some(CheckResult::NotReady) ==> frames >= attempt_timeout && final(self).frames_this_attempt == 0
                &&& r == Some(CheckResult::NotShiny) ==> final(self).last_shiny_value >= 8
                    && final(self).frames_this_attempt == 0
                &&& r == Some(CheckResult::Shiny) ==> final(self).last_shiny_value < 8
            }),
    {
        let base = profile.target_base(target);
        self.mash_frame(gba, profile, target);
        if self.encounter_ready(gba, base, target) {
            Hunter::release_a(gba, base);
            let result = self.check(gba, profile, target);
            if result != CheckResult::Shiny {
                self.soft_reset(gba);
            }
            return Some(result);
        }
        if self.frames_this_attempt >= attempt_timeout {
            self.soft_reset(gba);
            return Some(CheckResult::NotReady);
        }
        None
    }

    /// A non-blocking hunt step for a frontend's update: runs up to `batch`
    /// frames mashing A. When the encounter is ready it is checked: a shiny
    /// marks `found` and stops (the frontend pauses on it); otherwise the
    /// console is soft-reset for the next call. An attempt that passes
    /// `attempt_timeout` frames without an encounter is reset too.
    pub fn tick(&mut self, gba: &mut Gba, profile: &GameProfile, target: &TargetDef, batch: u32, attempt_timeout: u32) -> (r: CheckResult)
        requires
            old(gba).wf(),
            profile.wf(),
            old(self).attempts < u64::MAX,
        ensures
            final(gba).wf(),
            old(self).found ==> r == CheckResult::Shiny && *final(self) == *old(self) && *final(gba) == *old(gba),
            r == CheckResult::Shiny ==> final(self).found,
            r != CheckResult::Shiny ==> final(self).found == old(self).found,
            !old(self).found && r == CheckResult::NotReady ==> final(self).attempts == old(self).attempts,
            !old(self).found && r != CheckResult::NotReady ==> final(self).attempts == old(self).attempts + 1,
    {
        if self.found {
            return CheckResult::Shiny;
        }
        let mut n: u32 = 0;
        while n < batch
            invariant
                gba.wf(),
                profile.wf(),
                n <= batch,
                !self.found,
                !old(self).found,
                self.attempts == old(self).attempts,
                old(self).attempts < u64::MAX,
            decreases batch - n,
        {
            match self.tick_frame(gba, profile, target, attempt_timeout) {
                Some(res) => {
                    return res;
                },
                None => {},
            }
            n = n + 1;
        }
        CheckResult::NotReady
    }

    /// One whole (blocking) attempt: a reset for a legendary, the advance to
    /// the encounter (at most an hour of frames), and the check.
    pub fn try_once(&mut self, gba: &mut Gba, profile: &GameProfile, target: &TargetDef) -> (r: CheckResult)
        requires
            old(gba).wf(),
            profile.wf(),
            old(self).attempts < u64::MAX,
        ensures
            final(gba).wf(),
            r == CheckResult::Shiny ==> final(self).found,
            r != CheckResult::Shiny ==> final(self).found == old(self).found,
            r == CheckResult::NotReady ==> final(self).attempts == old(self).attempts,
            r != CheckResult::NotReady ==> final(self).attempts == old(self).attempts + 1,
            ({
                let m = mon_at(final(gba).bus, base_of(*profile, *target));
                let player = mon_at(final(gba).bus, profile.player_party);
                r == if !ready(m, *target) {
                    CheckResult::NotReady
                } else if shiny_formula(m.pid, (player.otid % 0x1_0000) as u16, (player.otid / 0x1_0000) as u16) < 8 {
                    CheckResult::Shiny
                } else {
                    CheckResult::NotShiny
                }
            }),
            exists|g1: Gba, g2: Gba, n: nat|
                #[trigger] attempt_ran(*old(gba), g1, g2, *final(gba), n, target.method, r),
    {
        let ghost g0 = *gba;
        if target.method == HuntMethod::SoftResetLegendary {
            self.soft_reset(gba);
        }
        let ghost g1 = *gba;
        if !self.advance_to_encounter(gba, profile, target, 60 * 60) {
            proof {
                assert(attempt_ran(g0, g1, *gba, *gba, 3600, target.method, CheckResult::NotReady));
            }
            return CheckResult::NotReady;
        }
        let ghost n = self.frames_this_attempt as nat;
        let ghost g2 = choose|g: Gba| #[trigger] frames_ran(g1, g, n) && a_released(g, *gba);
        let r = self.check(gba, profile, target);
        proof {
            assert(attempt_ran(g0, g1, g2, *gba, n, target.method, r));
        }
        r
    }
}

impl Default for Hunter {
    fn default() -> (r: Hunter)
        ensures
            r.attempts == 0 && !r.found,
    {
        Hunter::new()
    }
}

} // verus!
