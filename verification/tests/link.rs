use auroragba::gba::Gba;
use auroragba::link::{check_hello, child_finish, child_round, hello, master_finish, master_round, LinkError, Msg, FRAME_CYCLES};
use auroragba::sio::{RCNT_ADDR, SIOCNT_ADDR, SIOMLT_SEND_ADDR, SIOMULTI0_ADDR};

#[test]
fn wire_format_roundtrip() {
    let m = Msg { seq: 0xDEAD_BEEF, delta: 0x0004_4940, ready: true, start: false, frame_end: true, send: 0x55AA };
    assert_eq!(Msg::from_wire(m.to_wire()), m);
    let m = Msg { seq: 7, delta: 0, ready: false, start: true, frame_end: false, send: 0 };
    assert_eq!(Msg::from_wire(m.to_wire()), m);
}

#[test]
fn wire_bytes_of_a_message() {
    let m = Msg { seq: 0x0403_0201, delta: 0x0807_0605, ready: true, start: true, frame_end: true, send: 0x0B0A };
    assert_eq!(m.to_wire(), [1, 2, 3, 4, 5, 6, 7, 8, 7, 0x0A, 0x0B, 0]);
}

#[test]
fn hello_checks() {
    let h = hello(0);
    assert_eq!(&h[..4], b"AGBL");
    assert_eq!(check_hello(hello(1), 0), Ok(()));
    assert_eq!(check_hello(hello(0), 0), Err(LinkError::SameRole));
    let mut bad = hello(1);
    bad[4] = 1;
    assert_eq!(check_hello(bad, 0), Err(LinkError::Incompatible));
}

fn make_gba() -> Gba {
    let mut rom = vec![0u8; 0x200];
    rom[0..4].copy_from_slice(&[0xFE, 0xFF, 0xFF, 0xEA]);
    rom[0xAC..0xB0].copy_from_slice(b"TEST");
    let mut gba = Gba::new();
    gba.load_rom(rom);
    gba.reset();
    gba
}

fn setup_multi(gba: &mut Gba, send: u16) {
    gba.bus.write_u16(RCNT_ADDR, 0);
    gba.bus.write_u16(SIOMLT_SEND_ADDR, send);
    gba.bus.write_u16(SIOCNT_ADDR, 0b10 << 12 | 1 << 14);
}

#[test]
fn master_and_child_rounds_exchange_the_same_table() {
    let mut p = make_gba();
    let mut c = make_gba();
    p.link_configure(true, 0);
    c.link_configure(true, 1);
    setup_multi(&mut p, 0xAAAA);
    setup_multi(&mut c, 0xBBBB);
    p.bus.write_u16(SIOCNT_ADDR, 0b10 << 12 | 1 << 14 | 1 << 7);

    let (out, total) = master_round(&mut p, 0, 0);
    assert!(out.start);
    assert_eq!(out.delta, 0);
    assert_eq!(total, 0);
    assert!(!out.frame_end);
    let reply = child_round(&mut c, 0, out).unwrap();
    assert!(reply.ready);
    assert_eq!(reply.send, 0xBBBB);
    master_finish(&mut p, out, reply).unwrap();
    assert!(!child_finish(&mut c, reply, out));

    for gba in [&mut p, &mut c] {
        assert_eq!(gba.bus.read_u16(SIOMULTI0_ADDR), 0xAAAA);
        assert_eq!(gba.bus.read_u16(SIOMULTI0_ADDR + 2), 0xBBBB);
        assert_eq!(gba.bus.read_u16(SIOCNT_ADDR) & (1 << 7), 0);
    }
}

#[test]
fn child_rejects_a_round_out_of_phase() {
    let mut c = make_gba();
    let m = Msg { seq: 5, delta: 0, ready: false, start: false, frame_end: false, send: 0 };
    assert_eq!(child_round(&mut c, 4, m), Err(LinkError::OutOfPhase { expected: 4, got: 5 }));
}

#[test]
fn an_unarmed_master_round_spends_the_frame() {
    let mut p = make_gba();
    let (out, total) = master_round(&mut p, 3, 0);
    assert!(!out.start);
    assert_eq!(out.delta, FRAME_CYCLES);
    assert_eq!(total, FRAME_CYCLES);
    assert!(out.frame_end);
    assert_eq!(out.seq, 3);
}
