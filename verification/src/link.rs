//! The link cable between two instances: wire format and the decisions of
//! each round, independent of the transport (the frontend moves the bytes).
//!
//! The parent (ID 0) is the master, as on the hardware: it runs the CPU until
//! the game arms a transfer (writes START) or the frame ends, and only then
//! exchanges a message. Each message carries `delta`, the cycles the master
//! ran; the child runs exactly that, mirroring the master's time. Both sides
//! complete a transfer with the values sampled in the same round, so both see
//! the same table. A partner that is not ready reads as a high line (0xFFFF).
//!
//! Wire format: an 8-byte HELLO (`AGBL`, protocol version, role, 2 reserved
//! bytes) and 12-byte messages (`seq` u32 LE, `delta` u32 LE, flags u8,
//! `send` u16 LE, one reserved byte).
use vstd::prelude::*;
use crate::gba::{steps, transfer_begun, transfer_completed, Gba};

verus! {

/// Cycles per frame: the budget of each frame of the session.
pub const FRAME_CYCLES: u32 = 280_896;

/// A short slice of cycles run with the busy bit lit, between arming and
/// completing a transfer, so that a polling game sees busy go from set to
/// clear (1/128 of a frame).
pub const BUSY_WINDOW_CYCLES: u32 = 2194;

/// Protocol version of the HELLO.
pub const PROTO_VERSION: u8 = 2;

pub const FLAG_READY: u8 = 1;
pub const FLAG_START: u8 = 2;
pub const FLAG_FRAME_END: u8 = 4;

/// One round's message. The master sets the pace: `delta` cycles it ran,
/// `start` when it armed a transfer in this round, `frame_end` on the last
/// round of its frame. `ready` tells that the sender is in multi-player mode;
/// `send` is its SIOMLT_SEND, sampled before the completion handler runs.
/// The child answers with `delta`, `start` and `frame_end` cleared.
#[derive(Clone, Copy, Debug, PartialEq, Eq, Structural)]
pub struct Msg {
    pub seq: u32,
    pub delta: u32,
    pub ready: bool,
    pub start: bool,
    pub frame_end: bool,
    pub send: u16,
}

/// The 12 bytes of a message on the wire.
pub open spec fn wire_of(m: Msg) -> Seq<u8> {
    seq![
        (m.seq % 0x100) as u8,
        ((m.seq / 0x100) % 0x100) as u8,
        ((m.seq / 0x1_0000) % 0x100) as u8,
        (m.seq / 0x100_0000) as u8,
        (m.delta % 0x100) as u8,
        ((m.delta / 0x100) % 0x100) as u8,
        ((m.delta / 0x1_0000) % 0x100) as u8,
        (m.delta / 0x100_0000) as u8,
        ((if m.ready { 1int } else { 0 }) + (if m.start { 2int } else { 0 }) + (if m.frame_end { 4int } else { 0 })) as u8,
        (m.send % 0x100) as u8,
        (m.send / 0x100) as u8,
        0u8,
    ]
}

/// The message that 12 wire bytes hold (the reserved byte and the unused
/// flag bits are ignored).
pub open spec fn msg_of(w: Seq<u8>) -> Msg {
    Msg {
        seq: (w[0] as int + w[1] as int * 0x100 + w[2] as int * 0x1_0000 + w[3] as int * 0x100_0000) as u32,
        delta: (w[4] as int + w[5] as int * 0x100 + w[6] as int * 0x1_0000 + w[7] as int * 0x100_0000) as u32,
        ready: w[8] % 2 == 1,
        start: (w[8] / 2) % 2 == 1,
        frame_end: (w[8] / 4) % 2 == 1,
        send: (w[9] as int + w[10] as int * 0x100) as u16,
    }
}

impl Msg {
    /// Encodes the message in its 12 wire bytes.
    pub fn to_wire(self) -> (r: [u8; 12])
        ensures
            r@ == wire_of(self),
    {
        let flags: u8 = (if self.ready { 1u8 } else { 0 }) + (if self.start { 2u8 } else { 0 }) + (if self.frame_end {
            4u8
        } else {
            0
        });
        let r: [u8; 12] = [
            (self.seq % 0x100) as u8,
            ((self.seq / 0x100) % 0x100) as u8,
            ((self.seq / 0x1_0000) % 0x100) as u8,
            (self.seq / 0x100_0000) as u8,
            (self.delta % 0x100) as u8,
            ((self.delta / 0x100) % 0x100) as u8,
            ((self.delta / 0x1_0000) % 0x100) as u8,
            (self.delta / 0x100_0000) as u8,
            flags,
            (self.send % 0x100) as u8,
            (self.send / 0x100) as u8,
            0,
        ];
        assert(r@ =~= wire_of(self));
        r
    }

    /// Decodes 12 wire bytes.
    pub fn from_wire(w: [u8; 12]) -> (r: Msg)
        ensures
            r == msg_of(w@),
    {
        Msg {
            seq: w[0] as u32 + w[1] as u32 * 0x100 + w[2] as u32 * 0x1_0000 + w[3] as u32 * 0x100_0000,
            delta: w[4] as u32 + w[5] as u32 * 0x100 + w[6] as u32 * 0x1_0000 + w[7] as u32 * 0x100_0000,
            ready: w[8] % 2 == 1,
            start: (w[8] / 2) % 2 == 1,
            frame_end: (w[8] / 4) % 2 == 1,
            send: w[9] as u16 + w[10] as u16 * 0x100,
        }
    }
}

/// Law of the wire format: decoding the bytes of an encoded message gives
/// the message back.
pub proof fn law_wire_round_trip(m: Msg)
    ensures
        msg_of(wire_of(m)) == m,
{
}

/// The HELLO a side sends: `AGBL`, the protocol version, its role (0 parent,
/// 1 child) and two reserved bytes.
pub fn hello(id: u8) -> (r: [u8; 8])
    ensures
        r@ == seq![0x41u8, 0x47, 0x42, 0x4C, PROTO_VERSION, id, 0, 0],
{
    let r: [u8; 8] = [0x41, 0x47, 0x42, 0x4C, PROTO_VERSION, id, 0, 0];
    assert(r@ =~= seq![0x41u8, 0x47, 0x42, 0x4C, PROTO_VERSION, id, 0, 0]);
    r
}

/// Why a session could not be set up or went on.
#[derive(Clone, Copy, Debug, PartialEq, Eq, Structural)]
pub enum LinkError {
    /// The peer is not a compatible instance (magic or version differ).
    Incompatible,
    /// Both sides claim the same role.
    SameRole,
    /// A message of another round arrived.
    OutOfPhase { expected: u32, got: u32 },
}

/// Checks the peer's HELLO against our role `id`.
pub fn check_hello(peer: [u8; 8], id: u8) -> (r: Result<(), LinkError>)
    ensures
        !(peer@[0] == 0x41 && peer@[1] == 0x47 && peer@[2] == 0x42 && peer@[3] == 0x4C && peer@[4] == PROTO_VERSION)
            ==> r == Err::<(), LinkError>(LinkError::Incompatible),
        (peer@[0] == 0x41 && peer@[1] == 0x47 && peer@[2] == 0x42 && peer@[3] == 0x4C && peer@[4] == PROTO_VERSION) ==> r
            == if peer@[5] == id {
            Err::<(), LinkError>(LinkError::SameRole)
        } else {
            Ok(())
        },
{
    if peer[0] != 0x41 || peer[1] != 0x47 || peer[2] != 0x42 || peer[3] != 0x4C || peer[4] != PROTO_VERSION {
        return Err(LinkError::Incompatible);
    }
    if peer[5] == id {
        return Err(LinkError::SameRole);
    }
    Ok(())
}

/// A master round: runs until the game arms a transfer or the frame's
/// remaining budget is spent, and builds the message of this round with the
/// cycles run, whether a transfer is armed, whether the frame ended and the
/// local state sampled now. Returns it with the new cycle total.
pub fn master_round(gba: &mut Gba, seq: u32, total: u32) -> (r: (Msg, u32))
    requires
        old(gba).wf(),
    ensures
        final(gba).wf(),
        ({
            let budget: u32 = if total >= FRAME_CYCLES { 0 } else { (FRAME_CYCLES - total) as u32 };
            let m = r.0;
            &&& m.seq == seq
            &&& m.delta <= budget
            &&& r.1 == total + m.delta
            &&& m.frame_end == (r.1 >= FRAME_CYCLES)
            &&& m.start == final(gba).bus.io.sio.link.pending_start
            &&& !m.start ==> m.delta == budget
            &&& m.ready == (final(gba).bus.io.sio.spec_mode() == crate::sio::Mode::Multi)
            &&& m.send == final(gba).bus.io.sio.siomlt_send
        }),
{
    let budget = FRAME_CYCLES.saturating_sub(total);
    let (ran, armed) = gba.run_until_transfer(budget);
    let new_total = total + ran;
    let frame_end = new_total >= FRAME_CYCLES;
    let (ready, _pending, send) = gba.link_status();
    (Msg { seq, delta: ran, ready, start: armed, frame_end, send }, new_total)
}

/// The end of a master round, once the child's reply `inc` arrived: the
/// reply must echo the round; the partner's readiness is mirrored; and if
/// the round armed a transfer, it is started, a short busy window runs and
/// it completes with the parent's value and the child's (a high line when
/// the child is not ready).
pub fn master_finish(gba: &mut Gba, out: Msg, inc: Msg) -> (r: Result<(), LinkError>)
    requires
        old(gba).wf(),
    ensures
        final(gba).wf(),
        inc.seq != out.seq ==> r == Err::<(), LinkError>(LinkError::OutOfPhase { expected: out.seq, got: inc.seq })
            && *final(gba) == *old(gba),
        inc.seq == out.seq ==> r is Ok,
        inc.seq == out.seq && !out.start ==> final(gba).bus.io.sio.link == (crate::sio::LinkState {
            partner_ready: inc.ready,
            ..old(gba).bus.io.sio.link
        }) && final(gba).cpu == old(gba).cpu,
{
    if inc.seq != out.seq {
        return Err(LinkError::OutOfPhase { expected: out.seq, got: inc.seq });
    }
    gba.link_set_partner_ready(inc.ready);
    if out.start {
        let child = if inc.ready { inc.send } else { 0xFFFF };
        complete_transfer(gba, [out.send, child, 0xFFFF, 0xFFFF]);
    }
    Ok(())
}

/// Starts a transfer, runs the busy window and completes it with `data`.
fn complete_transfer(gba: &mut Gba, data: [u16; 4])
    requires
        old(gba).wf(),
    ensures
        final(gba).wf(),
        exists|a: Gba, m: Gba|
            #![trigger transfer_begun(*old(gba), a), steps(a, m, BUSY_WINDOW_CYCLES as nat)]
            transfer_begun(*old(gba), a) && steps(a, m, BUSY_WINDOW_CYCLES as nat) && transfer_completed(
                m,
                *final(gba),
                data,
            ),
{
    gba.link_begin_transfer();
    let ghost a = *gba;
    gba.run_cycles(BUSY_WINDOW_CYCLES);
    let ghost m = *gba;
    gba.link_complete_multi(data);
    assert(transfer_begun(*old(gba), a) && steps(a, m, BUSY_WINDOW_CYCLES as nat) && transfer_completed(
        m,
        *gba,
        data,
    ));
}

/// A child round, on the master's message `inc`: it must be the expected
/// round; the child runs the master's `delta` cycles and answers with its
/// readiness and value sampled now (before any completion handler runs).
pub fn child_round(gba: &mut Gba, seq: u32, inc: Msg) -> (r: Result<Msg, LinkError>)
    requires
        old(gba).wf(),
    ensures
        final(gba).wf(),
        inc.seq != seq ==> r == Err::<Msg, LinkError>(LinkError::OutOfPhase { expected: seq, got: inc.seq })
            && *final(gba) == *old(gba),
        inc.seq == seq ==> r == Ok::<Msg, LinkError>(
            Msg {
                seq,
                delta: 0,
                ready: final(gba).bus.io.sio.spec_mode() == crate::sio::Mode::Multi,
                start: false,
                frame_end: false,
                send: final(gba).bus.io.sio.siomlt_send,
            },
        ),
{
    if inc.seq != seq {
        return Err(LinkError::OutOfPhase { expected: seq, got: inc.seq });
    }
    gba.run_cycles(inc.delta);
    let (ready, _pending, send) = gba.link_status();
    Ok(Msg { seq, delta: 0, ready, start: false, frame_end: false, send })
}

/// The end of a child round, after its answer `out` was sent: the master's
/// readiness is mirrored; if the master armed a transfer, it completes with
/// the master's value and ours. Returns whether the master's frame ended.
pub fn child_finish(gba: &mut Gba, out: Msg, inc: Msg) -> (r: bool)
    requires
        old(gba).wf(),
    ensures
        final(gba).wf(),
        r == inc.frame_end,
        !inc.start ==> final(gba).bus.io.sio.link == (crate::sio::LinkState {
            partner_ready: inc.ready,
            ..old(gba).bus.io.sio.link
        }) && final(gba).cpu == old(gba).cpu,
{
    gba.link_set_partner_ready(inc.ready);
    if inc.start {
        complete_transfer(gba, [inc.send, out.send, 0xFFFF, 0xFFFF]);
    }
    inc.frame_end
}

} // verus!
