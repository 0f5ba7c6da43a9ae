use m68000::arithmetic::{abcd, shift, ShiftKind};
use m68000::instruction::Size;
use m68000::status_register::StatusRegister;

#[test]
fn abcd_adds_decimal_bytes_with_extend() {
    let mut sr = StatusRegister::from_raw(0x2700);
    sr.x = true;
    let (res, sr) = abcd(sr, 0x45, 0x67);
    assert_eq!(res, 0x13);
    assert!(sr.c && sr.x);
}

#[test]
fn abcd_below_one_hundred_has_no_carry() {
    let sr = StatusRegister::from_raw(0x2700);
    let (res, sr) = abcd(sr, 0x19, 0x29);
    assert_eq!(res, 0x48);
    assert!(!sr.c && !sr.x);
}

#[test]
fn abcd_of_99_and_1_wraps_to_zero_with_carry() {
    let sr = StatusRegister::from_raw(0x2700);
    let (res, sr) = abcd(sr, 0x99, 0x01);
    assert_eq!(res, 0x00);
    assert!(sr.c);
}

#[test]
fn logical_shift_left_multiplies_by_a_power_of_two() {
    let sr = StatusRegister::from_raw(0x2700);
    let (res, _) = shift(ShiftKind::Logical, true, Size::Byte, sr, 0x81, 3);
    assert_eq!(res, (0x81u32 * 8) % 0x100);
    let (res, _) = shift(ShiftKind::Arithmetic, true, Size::Word, sr, 0x1234, 4);
    assert_eq!(res, 0x2340);
}

#[test]
fn logical_shift_right_divides_by_a_power_of_two() {
    let sr = StatusRegister::from_raw(0x2700);
    let (res, _) = shift(ShiftKind::Logical, false, Size::Long, sr, 0x8000_0000, 31);
    assert_eq!(res, 1);
    let (res, _) = shift(ShiftKind::Logical, false, Size::Word, sr, 0xFFFF_1234, 4);
    assert_eq!(res, 0x0123);
}
