use m68000::assembler as emit;

#[test]
fn assembler_andiccr() {
    for imm in 0..=u16::MAX {
        assert_eq!(emit::andiccr(imm), [0x023C, imm & 0x00FF]);
    }
}

#[test]
fn assembler_andisr() {
    for imm in 0..=u16::MAX {
        assert_eq!(emit::andisr(imm), [0x027C, imm]);
    }
}

#[test]
fn assembler_bra() {
    assert_eq!(emit::bra(0).as_slice(), &[0x6000, 0]);
    assert_eq!(emit::bra(-10).as_slice(), &[0x6000 | -10i8 as u8 as u16]);
    assert_eq!(emit::bra(-30_000).as_slice(), &[0x6000, -30_000i16 as u16]);
}

#[test]
fn assembler_bsr() {
    assert_eq!(emit::bsr(0).as_slice(), &[0x6100, 0]);
    assert_eq!(emit::bsr(-10).as_slice(), &[0x6100 | -10i8 as u8 as u16]);
    assert_eq!(emit::bsr(-30_000).as_slice(), &[0x6100, -30_000i16 as u16]);
}

#[test]
fn assembler_eoriccr() {
    for imm in 0..=u16::MAX {
        assert_eq!(emit::eoriccr(imm), [0x0A3C, imm & 0x00FF]);
    }
}

#[test]
fn assembler_eorisr() {
    for imm in 0..=u16::MAX {
        assert_eq!(emit::eorisr(imm), [0x0A7C, imm]);
    }
}

#[test]
fn assembler_illegal() {
    assert_eq!(emit::illegal(), 0x4AFC);
}

#[test]
fn assembler_nop() {
    assert_eq!(emit::nop(), 0x4E71);
}

#[test]
fn assembler_oriccr() {
    for imm in 0..=u16::MAX {
        assert_eq!(emit::oriccr(imm), [0x003C, imm & 0x00FF]);
    }
}

#[test]
fn assembler_orisr() {
    for imm in 0..=u16::MAX {
        assert_eq!(emit::orisr(imm), [0x007C, imm]);
    }
}

#[test]
fn assembler_reset() {
    assert_eq!(emit::reset(), 0x4E70);
}

#[test]
fn assembler_rte() {
    assert_eq!(emit::rte(), 0x4E73);
}

#[test]
fn assembler_rtr() {
    assert_eq!(emit::rtr(), 0x4E77);
}

#[test]
fn assembler_rts() {
    assert_eq!(emit::rts(), 0x4E75);
}

#[test]
fn assembler_stop() {
    for sr in 0..=u16::MAX {
        assert_eq!(emit::stop(sr), [0x4E72, sr]);
    }
}

#[test]
fn assembler_trapv() {
    assert_eq!(emit::trapv(), 0x4E76);
}
