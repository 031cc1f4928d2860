use auroragba::sio::{Sio, IRQ_ENABLE, RCNT_ADDR, SIOCNT_ADDR, SIOMLT_SEND_ADDR, SIOMULTI0_ADDR, START};

fn w16(sio: &mut Sio, addr: u32, v: u16) -> bool {
    sio.write_u16(addr, v)
}

fn r16(sio: &Sio, addr: u32) -> u16 {
    sio.read_u8(addr) as u16 | ((sio.read_u8(addr + 1) as u16) << 8)
}

#[test]
fn registradores_guardam_o_que_foi_escrito() {
    let mut sio = Sio::default();
    w16(&mut sio, RCNT_ADDR, 0x8000);
    w16(&mut sio, SIOMLT_SEND_ADDR, 0x1234);
    assert_eq!(r16(&sio, RCNT_ADDR), 0x8000);
    assert_eq!(r16(&sio, SIOMLT_SEND_ADDR), 0x1234);
}

#[test]
fn multi_sem_parceiro_completa_com_linha_alta_e_irq() {
    let mut sio = Sio::default();
    w16(&mut sio, SIOMLT_SEND_ADDR, 0xBEEF);
    let irq = w16(&mut sio, SIOCNT_ADDR, 0b10 << 12 | IRQ_ENABLE | START);
    assert!(irq, "a transfer without a partner raises the serial interrupt");
    let cnt = r16(&sio, SIOCNT_ADDR);
    assert_eq!(cnt & START, 0, "busy clears");
    assert_eq!(cnt & 0b1100, 0, "SI and SD read 0 without a cable");
    assert_eq!(r16(&sio, SIOMULTI0_ADDR), 0xBEEF);
    assert_eq!(r16(&sio, SIOMULTI0_ADDR + 2), 0xFFFF);
    assert_eq!(r16(&sio, SIOMULTI0_ADDR + 4), 0xFFFF);
    assert_eq!(r16(&sio, SIOMULTI0_ADDR + 6), 0xFFFF);
}

#[test]
fn normal32_clock_interno_recebe_linha_alta() {
    let mut sio = Sio::default();
    w16(&mut sio, SIOMULTI0_ADDR, 0x1111);
    w16(&mut sio, SIOMULTI0_ADDR + 2, 0x2222);
    let irq = w16(&mut sio, SIOCNT_ADDR, 0b01 << 12 | 1 | START);
    assert!(!irq, "no interrupt when it is disabled");
    assert_eq!(r16(&sio, SIOCNT_ADDR) & START, 0, "busy clears");
    assert_eq!(r16(&sio, SIOMULTI0_ADDR), 0xFFFF);
    assert_eq!(r16(&sio, SIOMULTI0_ADDR + 2), 0xFFFF);
}

#[test]
fn normal_clock_externo_fica_busy_para_sempre() {
    let mut sio = Sio::default();
    let irq = w16(&mut sio, SIOCNT_ADDR, START);
    assert!(!irq);
    assert_ne!(r16(&sio, SIOCNT_ADDR) & START, 0, "an external clock never completes without a cable");
}

#[test]
fn escrita_de_byte_preserva_o_outro_byte_e_dispara_com_modo_atual() {
    let mut sio = Sio::default();
    w16(&mut sio, SIOCNT_ADDR, 0b10 << 12 | IRQ_ENABLE);
    let irq = sio.write_u8(SIOCNT_ADDR, START as u8);
    assert!(irq, "a byte write of start uses the mode already set");
    assert_eq!(r16(&sio, SIOMULTI0_ADDR + 2), 0xFFFF);
}

#[test]
fn general_purpose_inerte() {
    let mut sio = Sio::default();
    w16(&mut sio, RCNT_ADDR, 0x8000);
    let irq = w16(&mut sio, SIOCNT_ADDR, 0b10 << 12 | IRQ_ENABLE | START);
    assert!(!irq, "in general-purpose mode SIOCNT starts nothing");
    assert_ne!(r16(&sio, SIOCNT_ADDR) & START, 0);
}
