use m68000::addressing_modes::{AddressingMode as AM, BriefExtensionWord as BEW};
use m68000::assembler as emit;
use m68000::assembler::Condition as CC;
use m68000::instruction::{Direction, Size};

const ALL_DIRECTIONS: [Direction; 13] = [
    Direction::RegisterToMemory,
    Direction::MemoryToRegister,
    Direction::DstReg,
    Direction::DstEa,
    Direction::Left,
    Direction::Right,
    Direction::RegisterToUsp,
    Direction::UspToRegister,
    Direction::RegisterToRegister,
    Direction::MemoryToMemory,
    Direction::ExchangeData,
    Direction::ExchangeAddress,
    Direction::ExchangeDataAddress,
];

const SIZES: [Size; 3] = [Size::Byte, Size::Word, Size::Long];

fn get_condition(cc: u16) -> CC {
    match cc {
        0x0 => CC::T,
        0x1 => CC::F,
        0x2 => CC::HI,
        0x3 => CC::LS,
        0x4 => CC::CC,
        0x5 => CC::CS,
        0x6 => CC::NE,
        0x7 => CC::EQ,
        0x8 => CC::VC,
        0x9 => CC::VS,
        0xA => CC::PL,
        0xB => CC::MI,
        0xC => CC::GE,
        0xD => CC::LT,
        0xE => CC::GT,
        0xF => CC::LE,
        _ => panic!("Wrong cc."),
    }
}

fn size_bits(size: Size) -> u16 {
    Into::<u16>::into(size)
}

/// The opcode with the addressing mode's fields, then the mode's extension words.
fn assemble_am(opcode: u16, am: AM) -> Vec<u16> {
    let (op, ext) = am.assemble(false);
    let mut words = vec![opcode | op];
    words.extend_from_slice(&ext);
    words
}

fn assemble_move_am(opcode: u16, dst: AM, src: AM) -> Vec<u16> {
    let (dop, dext) = dst.assemble_move_dst();
    let (sop, sext) = src.assemble(false);
    let mut words = vec![opcode | dop | sop];
    words.extend_from_slice(&sext);
    words.extend_from_slice(&dext);
    words
}

/// Immediate operand instructions, bit manipulation and MOVEM: the opcode, one immediate word, then the mode's extension words.
fn immediate_assemble_am(opcode: u16, imm: u16, am: AM) -> Vec<u16> {
    let (op, ext) = am.assemble(false);
    let mut words = vec![opcode | op, imm];
    words.extend_from_slice(&ext);
    words
}

fn immediate_long_assemble_am(opcode: u16, imm: u32, am: AM) -> Vec<u16> {
    let (op, ext) = am.assemble(false);
    let mut words = vec![opcode | op, (imm >> 16) as u16, imm as u16];
    words.extend_from_slice(&ext);
    words
}

fn assemble_am_immediate(opcode: u16, data: u32, long: bool) -> Vec<u16> {
    let (op, ext) = AM::Immediate(data).assemble(long);
    let mut words = vec![opcode | op];
    words.extend_from_slice(&ext);
    words
}

fn assemble_move_am_immediate(opcode: u16, dst: AM, data: u32, long: bool) -> Vec<u16> {
    let (dop, dext) = dst.assemble_move_dst();
    let (sop, sext) = AM::Immediate(data).assemble(long);
    let mut words = vec![opcode | dop | sop];
    words.extend_from_slice(&sext);
    words.extend_from_slice(&dext);
    words
}

/// ADDI, ANDI, CMPI, EORI, ORI, SUBI
fn size_effective_address_immediate(encode: fn(Size, AM, u32) -> Vec<u16>, opcode: u16) {
    for size in SIZES {
        for imm in [1u32, 0x106, 0x1_0005, 0x100_0007] {
            let bew = BEW::new(true, 0, true, 0);
            let opcode = opcode | size_bits(size) << 6;
            let reg = imm as u8 & 7;
            let modes = [AM::Drd(reg), AM::Ari(reg), AM::Ariwpo(reg), AM::Ariwpr(reg), AM::Ariwd(reg, 0), AM::Ariwi8(reg, bew), AM::AbsShort(0xFF00), AM::AbsLong(0xFF_0000)];
            for am in modes {
                if size.is_long() {
                    assert_eq!(&encode(size, am, imm), &immediate_long_assemble_am(opcode, imm, am));
                } else {
                    let imm = if size.is_byte() { imm & 0x00FF } else { imm };
                    assert_eq!(&encode(size, am, imm), &immediate_assemble_am(opcode, imm as u16, am));
                }
            }
        }
    }
}

/// BCHG, BCLR, BSET, BTST
fn effective_address_count(encode_dynamic: fn(u8, AM) -> Vec<u16>, encode_static: fn(AM, u8) -> Vec<u16>, opcode: u16, btst: bool) {
    for reg in 0..=7u8 {
        let bew = BEW::new(true, 0, true, 0);
        let opcode_dynamic = opcode | 0x0100 | (reg as u16) << 9;
        let opcode_static = opcode | 0x0800;
        let mut modes = vec![AM::Drd(reg), AM::Ari(reg), AM::Ariwpo(reg), AM::Ariwpr(reg), AM::Ariwd(reg, 0), AM::Ariwi8(reg, bew), AM::AbsShort(0xFF00), AM::AbsLong(0xFF_0000)];
        if btst {
            modes.extend_from_slice(&[AM::Pciwd(0, 0), AM::Pciwi8(0, bew), AM::Immediate(0xFF00)]);
        }
        for am in modes {
            assert_eq!(&encode_dynamic(reg, am), &assemble_am(opcode_dynamic, am));
            assert_eq!(&encode_static(am, reg), &immediate_assemble_am(opcode_static, reg as u16, am));
        }
    }
}

/// JMP, JSR, MOVE (f) SR CCR, NBCD, PEA, TAS
fn effective_address(encode: fn(AM) -> Vec<u16>, opcode: u16, control_only: bool, pc_relative: bool, immediate: bool) {
    for reg in 0..=7u8 {
        let bew = BEW::new(true, 0, true, 0);
        let mut modes = vec![AM::Ari(reg), AM::Ariwd(reg, 0), AM::Ariwi8(reg, bew), AM::AbsShort(0xFF00), AM::AbsLong(0xFF_0000)];
        if !control_only {
            modes.extend_from_slice(&[AM::Drd(reg), AM::Ariwpo(reg), AM::Ariwpr(reg)]);
        }
        if pc_relative {
            modes.extend_from_slice(&[AM::Pciwd(0, 0), AM::Pciwi8(0, bew)]);
        }
        if immediate {
            modes.push(AM::Immediate(0xFF00));
        }
        for am in modes {
            assert_eq!(&encode(am), &assemble_am(opcode, am));
        }
    }
}

/// CLR, NEG, NEGX, NOT, TST
fn size_effective_address(encode: fn(Size, AM) -> Vec<u16>, opcode: u16) {
    for size in SIZES {
        for reg in 0..=7u8 {
            let bew = BEW::new(true, 0, true, 0);
            let opcode = opcode | size_bits(size) << 6;
            for am in [AM::Drd(reg), AM::Ari(reg), AM::Ariwpo(reg), AM::Ariwpr(reg), AM::Ariwd(reg, 0), AM::Ariwi8(reg, bew), AM::AbsShort(0xFF00), AM::AbsLong(0xFF_0000)] {
                assert_eq!(&encode(size, am), &assemble_am(opcode, am));
            }
        }
    }
}

/// CHK, DIVS, DIVU, LEA, MULS, MULU
fn register_effective_address(encode: fn(u8, AM) -> Vec<u16>, opcode: u16, lea: bool) {
    for reg in 0..=7u8 {
        let bew = BEW::new(true, 0, true, 0);
        let opcode = opcode | (reg as u16) << 9;
        let mut modes = vec![AM::Ari(reg), AM::Ariwd(reg, 0), AM::Ariwi8(reg, bew), AM::AbsShort(0xFF00), AM::AbsLong(0xFF_0000), AM::Pciwd(0, 0), AM::Pciwi8(0, bew)];
        if !lea {
            modes.extend_from_slice(&[AM::Drd(reg), AM::Ariwpo(reg), AM::Ariwpr(reg), AM::Immediate(0xFF00)]);
        }
        for am in modes {
            assert_eq!(&encode(reg, am), &assemble_am(opcode, am));
        }
    }
}

/// ADDQ, SUBQ
fn data_size_effective_address(encode: fn(u8, Size, AM) -> Vec<u16>, opcode: u16) {
    for data in 1..=8u8 {
        for size in SIZES {
            let bew = BEW::new(true, 0, true, 0);
            let reg = if data != 8 { data } else { 0 };
            let opcode = opcode | (reg as u16) << 9 | size_bits(size) << 6;
            let mut modes = vec![AM::Drd(reg), AM::Ari(reg), AM::Ariwpo(reg), AM::Ariwpr(reg), AM::Ariwd(reg, 0), AM::Ariwi8(reg, bew), AM::AbsShort(0xFF00), AM::AbsLong(0xFF_0000)];
            if !size.is_byte() {
                modes.push(AM::Ard(reg));
            }
            for am in modes {
                assert_eq!(&encode(data, size, am), &assemble_am(opcode, am));
            }
        }
    }
}

/// ADD, AND, CMP, EOR, OR, SUB
fn register_direction_size_effective_address(encode: fn(u8, Direction, Size, AM) -> Vec<u16>, opcode: u16, dirs: &[Direction], address_source: bool) {
    for reg in 0..=7u8 {
        for dir in dirs.iter().copied() {
            for size in SIZES {
                let bew = BEW::new(true, 7 - reg, true, -16);
                let opcode = opcode
                    | if dir == Direction::DstEa { 1 << 8 } else { 0 }
                    | size_bits(size) << 6
                    | (reg as u16) << 9;

                if dir == Direction::DstReg {
                    assert_eq!(encode(reg, dir, size, AM::Drd(reg)).as_slice(), &[opcode | reg as u16]);
                    if size != Size::Byte && address_source {
                        assert_eq!(encode(reg, dir, size, AM::Ard(reg)).as_slice(), &[opcode | 0x8 | reg as u16]);
                    }
                }
                for am in [AM::Ari(reg), AM::Ariwpo(reg), AM::Ariwpr(reg), AM::Ariwd(reg, 12), AM::Ariwi8(reg, bew), AM::AbsShort(0xFF00), AM::AbsLong(0xFF_0000)] {
                    assert_eq!(encode(reg, dir, size, am).as_slice(), &assemble_am(opcode, am));
                }
                if dir == Direction::DstReg {
                    assert_eq!(encode(reg, dir, size, AM::Pciwd(0, 12)).as_slice(), &assemble_am(opcode, AM::Pciwd(0, 12)));
                    assert_eq!(encode(reg, dir, size, AM::Pciwi8(0, bew)).as_slice(), &assemble_am(opcode, AM::Pciwi8(0, bew)));
                    assert_eq!(encode(reg, dir, size, AM::Immediate(16)).as_slice(), &assemble_am_immediate(opcode, 16, size.is_long()));
                }
            }
        }
    }
}

/// ADDA, CMPA, SUBA
fn register_size_effective_address(encode: fn(u8, Size, AM) -> Vec<u16>, opcode: u16) {
    for reg in 0..=7u8 {
        for size in [Size::Word, Size::Long] {
            let bew = BEW::new(true, 7 - reg, true, -16);
            let opcode = opcode | 0x00C0 | if size == Size::Long { 1 << 8 } else { 0 } | (reg as u16) << 9;
            for am in [AM::Ari(reg), AM::Ariwpo(reg), AM::Ariwpr(reg), AM::Ariwd(reg, 12), AM::Ariwi8(reg, bew), AM::AbsShort(0xFF00), AM::AbsLong(0xFF_0000), AM::Pciwd(0, 12), AM::Pciwi8(0, bew)] {
                assert_eq!(encode(reg, size, am).as_slice(), &assemble_am(opcode, am));
            }
        }
    }
}

/// ASm, LSm, ROm, ROXm
fn direction_effective_address(encode: fn(Direction, AM) -> Vec<u16>, opcode: u16) {
    for dir in [Direction::Left, Direction::Right] {
        for reg in 0..=7u8 {
            let opcode = opcode | if dir == Direction::Left { 1 << 8 } else { 0 };
            let bew = BEW::new(true, 7 - reg, true, -16);
            for am in [AM::Ari(reg), AM::Ariwpo(reg), AM::Ariwpr(reg), AM::Ariwd(reg, -13), AM::Ariwi8(reg, bew), AM::AbsShort(0x4321), AM::AbsLong(0x76543210)] {
                assert_eq!(encode(dir, am).as_slice(), &assemble_am(opcode, am));
            }
        }
    }
}

/// ASr, LSr, ROr, ROXr
fn rotation_direction_size_mode_register(encode: fn(u16, Direction, Size, bool, u16) -> u16, opcode: u16) {
    for count_reg in 0..=7u16 {
        for dir in [Direction::Left, Direction::Right] {
            for size in SIZES {
                for ir in [false, true] {
                    for reg in 0..=7u16 {
                        let opcode = opcode
                            | count_reg << 9
                            | if dir == Direction::Left { 1 << 8 } else { 0 }
                            | size_bits(size) << 6
                            | if ir { 1 << 5 } else { 0 }
                            | reg;
                        assert_eq!(encode(count_reg, dir, size, ir, reg), opcode);
                    }
                }
            }
        }
    }
}

#[test]
fn assembler_abcd() {
    for dstreg in 0..=7u8 {
        for mode in [Direction::RegisterToRegister, Direction::MemoryToMemory] {
            for srcreg in 0..=7u8 {
                let abcd = 0xC100
                    | (dstreg as u16 & 7) << 9
                    | if mode == Direction::MemoryToMemory { 1 << 3 } else { 0 }
                    | (srcreg as u16 & 7);
                assert_eq!(emit::abcd(dstreg, mode, srcreg), abcd);
            }
        }
    }
}

#[test]
fn assembler_add() {
    register_direction_size_effective_address(emit::add, 0xD000, &[Direction::DstEa, Direction::DstReg], true);
}

#[test]
fn assembler_adda() {
    register_size_effective_address(emit::adda, 0xD000);
}

#[test]
fn assembler_addi() {
    size_effective_address_immediate(emit::addi, 0x0600);
}

#[test]
fn assembler_addq() {
    data_size_effective_address(emit::addq, 0x5000);
}

#[test]
fn assembler_addx() {
    for dstreg in 0..=7u8 {
        for size in SIZES {
            for mode in [Direction::RegisterToRegister, Direction::MemoryToMemory] {
                for srcreg in 0..=7u8 {
                    let addx = 0xD100
                        | (dstreg as u16 & 7) << 9
                        | size_bits(size) << 6
                        | if mode == Direction::MemoryToMemory { 1 << 3 } else { 0 }
                        | (srcreg as u16 & 7);
                    assert_eq!(emit::addx(dstreg, size, mode, srcreg), addx);
                }
            }
        }
    }
}

#[test]
fn assembler_and() {
    register_direction_size_effective_address(emit::and, 0xC000, &[Direction::DstEa, Direction::DstReg], false);
}

#[test]
fn assembler_andi() {
    size_effective_address_immediate(emit::andi, 0x0200);
}

#[test]
fn assembler_asm() {
    direction_effective_address(emit::asm_memory, 0xE0C0);
}

#[test]
fn assembler_asr() {
    rotation_direction_size_mode_register(emit::asr, 0xE000);
}

#[test]
fn assembler_bcc() {
    for cc in 2..16u16 {
        let bcc = 0x6000 | cc << 8;
        assert_eq!(emit::bcc(get_condition(cc), 0).as_slice(), &[bcc, 0]);
        assert_eq!(emit::bcc(get_condition(cc), -10).as_slice(), &[bcc | -10i8 as u8 as u16]);
        assert_eq!(emit::bcc(get_condition(cc), -30_000).as_slice(), &[bcc, -30_000i16 as u16]);
    }
}

#[test]
fn assembler_bchg() {
    effective_address_count(emit::bchg_dynamic, emit::bchg_static, 0x0040, false);
}

#[test]
fn assembler_bclr() {
    effective_address_count(emit::bclr_dynamic, emit::bclr_static, 0x0080, false);
}

#[test]
fn assembler_bset() {
    effective_address_count(emit::bset_dynamic, emit::bset_static, 0x00C0, false);
}

#[test]
fn assembler_btst() {
    effective_address_count(emit::btst_dynamic, emit::btst_static, 0x0000, true);
}

#[test]
fn assembler_chk() {
    register_effective_address(emit::chk, 0x4180, false);
}

#[test]
fn assembler_clr() {
    size_effective_address(emit::clr, 0x4200);
}

#[test]
fn assembler_cmp() {
    let cmp = |reg: u8, _: Direction, size: Size, am: AM| emit::cmp(reg, size, am);
    register_direction_size_effective_address(cmp, 0xB000, &[Direction::DstReg], true);
}

#[test]
fn assembler_cmpa() {
    register_size_effective_address(emit::cmpa, 0xB000);
}

#[test]
fn assembler_cmpi() {
    size_effective_address_immediate(emit::cmpi, 0x0C00);
}

#[test]
fn assembler_cmpm() {
    for dstreg in 0..=7u8 {
        for size in SIZES {
            for srcreg in 0..=7u8 {
                let cmpm = 0xB108 | (dstreg as u16) << 9 | size_bits(size) << 6 | srcreg as u16;
                assert_eq!(emit::cmpm(dstreg, size, srcreg), cmpm);
            }
        }
    }
}

#[test]
fn assembler_dbcc() {
    for cc in 0..16u16 {
        for reg in 0..=7u8 {
            let dbcc = 0x50C8 | cc << 8 | reg as u16;
            assert_eq!(emit::dbcc(get_condition(cc), reg, -30_000), [dbcc, -30_000i16 as u16]);
        }
    }
}

#[test]
fn assembler_divs() {
    register_effective_address(emit::divs, 0x81C0, false);
}

#[test]
fn assembler_divu() {
    register_effective_address(emit::divu, 0x80C0, false);
}

#[test]
fn assembler_eor() {
    let eor = |reg: u8, _: Direction, size: Size, am: AM| emit::eor(reg, size, am);
    register_direction_size_effective_address(eor, 0xB000, &[Direction::DstEa], true);
}

#[test]
fn assembler_eori() {
    size_effective_address_immediate(emit::eori, 0x0A00);
}

#[test]
fn assembler_exg() {
    for rx in 0..=7u8 {
        for dir in [Direction::ExchangeData, Direction::ExchangeAddress, Direction::ExchangeDataAddress] {
            for ry in 0..=7u8 {
                let mode: u16 = if dir == Direction::ExchangeData {
                    0b01000
                } else if dir == Direction::ExchangeAddress {
                    0b01001
                } else {
                    0b10001
                };
                let exg = 0xC100 | (rx as u16) << 9 | mode << 3 | ry as u16;
                assert_eq!(emit::exg(rx, dir, ry), exg);
            }
        }
    }
}

#[test]
fn assembler_ext() {
    for word_to_long in [false, true] {
        for reg in 0..=7u8 {
            let ext = 0x4880 | if word_to_long { 1 << 6 } else { 0 } | reg as u16;
            assert_eq!(emit::ext(word_to_long, reg), ext);
        }
    }
}

#[test]
fn assembler_jmp() {
    effective_address(emit::jmp, 0x4EC0, true, true, false);
}

#[test]
fn assembler_jsr() {
    effective_address(emit::jsr, 0x4E80, true, true, false);
}

#[test]
fn assembler_lea() {
    register_effective_address(emit::lea, 0x41C0, true);
}

#[test]
fn assembler_link() {
    for reg in 0..=7u8 {
        let link = 0x4E50 | reg as u16;
        assert_eq!(emit::link(reg, -13), [link, -13i16 as u16]);
    }
}

#[test]
fn assembler_lsm() {
    direction_effective_address(emit::lsm, 0xE2C0);
}

#[test]
fn assembler_lsr() {
    rotation_direction_size_mode_register(emit::lsr, 0xE008);
}

#[test]
fn assembler_move() {
    for size in SIZES {
        for reg in 0..=7u8 {
            let bew = BEW::new(false, 7 - reg, false, 15);
            let opcode = size.into_move() << 12;
            let mut pairs = vec![
                (AM::Drd(7 - reg), AM::Drd(reg)),
                (AM::Ari(7 - reg), AM::Ari(reg)),
                (AM::Ariwd(7 - reg, 30), AM::Ariwd(reg, -30)),
                (AM::Ariwi8(7 - reg, bew), AM::Ariwi8(reg, bew)),
                (AM::AbsShort(0xFF00), AM::AbsShort(0xFF00)),
                (AM::AbsLong(0xFF_0000), AM::AbsLong(0xFF_0000)),
                (AM::Drd(7 - reg), AM::Pciwd(0, 30)),
                (AM::Drd(7 - reg), AM::Pciwi8(0, bew)),
            ];
            if !size.is_byte() {
                pairs.push((AM::Drd(7 - reg), AM::Ard(reg)));
            }
            for (dst, src) in pairs {
                assert_eq!(emit::move_(size, dst, src).as_slice(), &assemble_move_am(opcode, dst, src));
            }
            assert_eq!(emit::move_(size, AM::Drd(7 - reg), AM::Immediate(43)).as_slice(), &assemble_move_am_immediate(opcode, AM::Drd(7 - reg), 43, size.is_long()));
        }
    }
}

#[test]
fn assembler_movea() {
    for size in [Size::Word, Size::Long] {
        for reg in 0..=7u8 {
            let bew = BEW::new(false, 7 - reg, false, 15);
            let movea = 0x0040 | if size.is_word() { 3 } else { 2 } << 12 | (reg as u16) << 9;
            for am in [AM::Drd(reg), AM::Ard(reg), AM::Ari(reg), AM::Ariwd(reg, -30), AM::Ariwi8(reg, bew), AM::AbsShort(0xFF00), AM::AbsLong(0xFF_0000), AM::Pciwd(0, 30), AM::Pciwi8(0, bew)] {
                assert_eq!(emit::movea(size, reg, am).as_slice(), &assemble_am(movea, am));
            }
            assert_eq!(emit::movea(size, reg, AM::Immediate(43)).as_slice(), &assemble_am_immediate(movea, 43, size.is_long()));
        }
    }
}

#[test]
fn assembler_moveccr() {
    effective_address(emit::moveccr, 0x44C0, false, true, true);
}

#[test]
fn assembler_movefsr() {
    effective_address(emit::movefsr, 0x40C0, false, false, false);
}

#[test]
fn assembler_movesr() {
    effective_address(emit::movesr, 0x46C0, false, true, true);
}

#[test]
fn assembler_moveusp() {
    for reg in 0..=7u8 {
        for dir in [Direction::UspToRegister, Direction::RegisterToUsp] {
            let moveusp = 0x4E60 | if dir == Direction::UspToRegister { 1 << 3 } else { 0 } | reg as u16;
            assert_eq!(emit::moveusp(dir, reg), moveusp);
        }
    }
}

#[test]
fn assembler_movem() {
    for dir in [Direction::RegisterToMemory, Direction::MemoryToRegister] {
        for size in [Size::Word, Size::Long] {
            let bew = BEW::new(true, 0, true, 0);
            let movem = 0x4880 | if dir == Direction::MemoryToRegister { 1 << 10 } else { 0 } | if size.is_long() { 1 << 6 } else { 0 };
            let mut modes = vec![AM::Ari(0), AM::Ariwd(0, 12), AM::Ariwi8(0, bew), AM::AbsShort(0xFF00), AM::AbsLong(0xFF_0000)];
            if dir == Direction::MemoryToRegister {
                modes.extend_from_slice(&[AM::Ariwpo(0), AM::Pciwd(0, 12), AM::Pciwi8(0, bew)]);
            } else {
                modes.push(AM::Ariwpr(0));
            }
            for am in modes {
                assert_eq!(&emit::movem(dir, size, am, 0xFF), &immediate_assemble_am(movem, 0xFF, am));
            }
        }
    }
}

#[test]
fn assembler_movep() {
    for data in 0..=7u8 {
        for dir in [Direction::MemoryToRegister, Direction::RegisterToMemory] {
            for size in [Size::Word, Size::Long] {
                for addr in 0..=7u8 {
                    for disp in (i16::MIN..=i16::MAX).step_by(8191) {
                        let movep = 0x0108
                            | (data as u16) << 9
                            | if dir == Direction::RegisterToMemory { 1 << 7 } else { 0 }
                            | if size == Size::Long { 1 << 6 } else { 0 }
                            | addr as u16;
                        assert_eq!(emit::movep(data, dir, size, addr, disp), [movep, disp as u16]);
                    }
                }
            }
        }
    }
}

#[test]
fn assembler_moveq() {
    for reg in 0..=7u8 {
        let moveq = 0x70B3 | (reg as u16) << 9;
        assert_eq!(emit::moveq(reg, -77), moveq);
    }
}

#[test]
fn assembler_muls() {
    register_effective_address(emit::muls, 0xC1C0, false);
}

#[test]
fn assembler_mulu() {
    register_effective_address(emit::mulu, 0xC0C0, false);
}

#[test]
fn assembler_nbcd() {
    effective_address(emit::nbcd, 0x4800, false, false, false);
}

#[test]
fn assembler_neg() {
    size_effective_address(emit::neg, 0x4400);
}

#[test]
fn assembler_negx() {
    size_effective_address(emit::negx, 0x4000);
}

#[test]
fn assembler_not() {
    size_effective_address(emit::not, 0x4600);
}

#[test]
fn assembler_or() {
    register_direction_size_effective_address(emit::or, 0x8000, &[Direction::DstEa, Direction::DstReg], false);
}

#[test]
fn assembler_ori() {
    size_effective_address_immediate(emit::ori, 0x0000);
}

#[test]
fn assembler_pea() {
    effective_address(emit::pea, 0x4840, true, true, false);
}

#[test]
fn assembler_rom() {
    direction_effective_address(emit::rom, 0xE6C0);
}

#[test]
fn assembler_ror() {
    rotation_direction_size_mode_register(emit::ror, 0xE018);
}

#[test]
fn assembler_roxm() {
    direction_effective_address(emit::roxm, 0xE4C0);
}

#[test]
fn assembler_roxr() {
    rotation_direction_size_mode_register(emit::roxr, 0xE010);
}

#[test]
fn assembler_sbcd() {
    for dstreg in 0..=7u8 {
        for mode in [Direction::RegisterToRegister, Direction::MemoryToMemory] {
            for srcreg in 0..=7u8 {
                let sbcd = 0x8100 | (dstreg as u16) << 9 | if mode == Direction::MemoryToMemory { 1 << 3 } else { 0 } | srcreg as u16;
                assert_eq!(emit::sbcd(dstreg, mode, srcreg), sbcd);
            }
        }
    }
}

#[test]
fn assembler_scc() {
    for cond in 0..=0xFu16 {
        let bew = BEW::new(true, 0, true, 0);
        let scc = 0x50C0 | cond << 8;
        for am in [AM::Drd(0), AM::Ari(0), AM::Ariwd(0, -3), AM::Ariwi8(0, bew), AM::AbsShort(0xFF00), AM::AbsLong(0xFF_0000)] {
            assert_eq!(emit::scc(get_condition(cond), am).as_slice(), &assemble_am(scc, am));
        }
    }
}

#[test]
fn assembler_sub() {
    register_direction_size_effective_address(emit::sub, 0x9000, &[Direction::DstEa, Direction::DstReg], true);
}

#[test]
fn assembler_suba() {
    register_size_effective_address(emit::suba, 0x9000);
}

#[test]
fn assembler_subi() {
    size_effective_address_immediate(emit::subi, 0x0400);
}

#[test]
fn assembler_subq() {
    data_size_effective_address(emit::subq, 0x5100);
}

#[test]
fn assembler_subx() {
    for dstreg in 0..=7u8 {
        for size in SIZES {
            for mode in [Direction::RegisterToRegister, Direction::MemoryToMemory] {
                for srcreg in 0..=7u8 {
                    let subx = 0x9100
                        | (dstreg as u16) << 9
                        | size_bits(size) << 6
                        | if mode == Direction::MemoryToMemory { 1 << 3 } else { 0 }
                        | srcreg as u16;
                    assert_eq!(emit::subx(dstreg, size, mode, srcreg), subx);
                }
            }
        }
    }
}

#[test]
fn assembler_swap() {
    for reg in 0..=7u8 {
        assert_eq!(emit::swap(reg), 0x4840 | reg as u16);
    }
}

#[test]
fn assembler_tas() {
    effective_address(emit::tas, 0x4AC0, false, false, false);
}

#[test]
fn assembler_trap() {
    for t in 0..=0xFu8 {
        assert_eq!(emit::trap(t), 0x4E40 | t as u16);
    }
}

#[test]
fn assembler_tst() {
    size_effective_address(emit::tst, 0x4A00);
}

#[test]
fn assembler_unlk() {
    for reg in 0..=7u8 {
        assert_eq!(emit::unlk(reg), 0x4E58 | reg as u16);
    }
}
