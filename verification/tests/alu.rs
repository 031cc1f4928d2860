use auroragba::cpu::alu::{adc_with_flags, add_with_flags, barrel_shift, sbc_with_flags, sub_with_flags, ShiftKind};

#[test]
fn lsl_basic() {
    let r = barrel_shift(ShiftKind::Lsl, 0x0000_00FF, 4, false, true);
    assert_eq!(r.value, 0x0000_0FF0);
    assert!(!r.carry);
}

#[test]
fn lsl_carry_out() {
    let r = barrel_shift(ShiftKind::Lsl, 0x8000_0000, 1, false, true);
    assert_eq!(r.value, 0);
    assert!(r.carry);
}

#[test]
fn lsr_imm_zero_means_32() {
    let r = barrel_shift(ShiftKind::Lsr, 0x8000_0000, 0, false, true);
    assert_eq!(r.value, 0);
    assert!(r.carry);
}

#[test]
fn asr_preserves_sign() {
    let r = barrel_shift(ShiftKind::Asr, 0x8000_0000, 1, false, true);
    assert_eq!(r.value, 0xC000_0000);
    assert!(!r.carry);
}

#[test]
fn ror_basic() {
    let r = barrel_shift(ShiftKind::Ror, 0x0000_000F, 4, false, true);
    assert_eq!(r.value, 0xF000_0000);
    assert!(r.carry);
}

#[test]
fn rrx_with_carry_in() {
    let r = barrel_shift(ShiftKind::Ror, 0x0000_0001, 0, true, true);
    assert_eq!(r.value, 0x8000_0000);
    assert!(r.carry);
}

#[test]
fn add_overflow_signed() {
    let r = add_with_flags(0x7FFF_FFFF, 1);
    assert_eq!(r.value, 0x8000_0000);
    assert!(!r.carry);
    assert!(r.overflow);
}

#[test]
fn sub_borrow_means_c_zero() {
    let r = sub_with_flags(1, 2);
    assert_eq!(r.value, 0xFFFF_FFFF);
    assert!(!r.carry);
}

#[test]
fn sub_no_borrow_c_one() {
    let r = sub_with_flags(5, 3);
    assert_eq!(r.value, 2);
    assert!(r.carry);
}

#[test]
fn shift_by_register_zero_keeps_value_and_carry() {
    let r = barrel_shift(ShiftKind::Lsl, 0x1234, 0, true, false);
    assert_eq!(r.value, 0x1234);
    assert!(r.carry);
}

#[test]
fn lsr_by_register_beyond_32_clears() {
    let r = barrel_shift(ShiftKind::Lsr, 0xFFFF_FFFF, 40, true, false);
    assert_eq!(r.value, 0);
    assert!(!r.carry);
}

#[test]
fn adc_and_sbc_use_the_carry() {
    let r = adc_with_flags(0xFFFF_FFFF, 0, true);
    assert_eq!(r.value, 0);
    assert!(r.carry);
    let r = sbc_with_flags(5, 3, false);
    assert_eq!(r.value, 1);
    assert!(r.carry);
}
