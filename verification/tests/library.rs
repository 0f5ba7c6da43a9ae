use m68000::MemoryAccess;
use m68000::M68000;
use m68000::addressing_modes::{AddressingMode as AM, BriefExtensionWord as BEW};
use m68000::arithmetic;
use m68000::assembler as emit;
use m68000::assembler::Condition;
use m68000::callbacks::{ExceptionResult, GetSetResult};
use m68000::cpu_details::{CpuDetails, Mc68000, Scc68070};
use m68000::exception::{vector_priority, Exception};
use m68000::instruction::{Instruction, Operands, Size};
use m68000::isa::Isa;
use m68000::memory_access::{long_from_words, words_of_long, MemoryIter};
use m68000::status_register::StatusRegister;
use m68000::utils::{CarryingOps, IsEven, SliceAs};

#[test]
fn byte_and_word_slices_read_back_what_is_written() {
    let mut mem8 = [0xFFu8; 12];
    let mut mem16 = [0xFFFFu16; 6];

    for i in 0..4 {
        let iu8 = i as u8;
        assert_eq!(mem8[..].set_byte(i, iu8), Some(()));
        assert_eq!(mem8[..].get_byte(i), Some(iu8));
        assert_eq!(mem16[..].set_byte(i, iu8), Some(()));
        assert_eq!(mem16[..].get_byte(i), Some(iu8));
    }

    for i in (4..8).step_by(2) {
        let iu16 = i as u16;
        assert_eq!(mem8[..].set_word(i, iu16), Some(()));
        assert_eq!(mem8[..].get_word(i), Some(iu16));
        assert_eq!(mem16[..].set_word(i, iu16), Some(()));
        assert_eq!(mem16[..].get_word(i), Some(iu16));
    }

    assert_eq!(mem8[..].set_long(8, 8), Some(()));
    assert_eq!(mem8[..].get_long(8), Some(8));
    assert_eq!(mem16[..].set_long(8, 8), Some(()));
    assert_eq!(mem16[..].get_long(8), Some(8));

    assert_eq!(mem8, [0, 1, 2, 3, 0, 4, 0, 6, 0, 0, 0, 8]);
    assert_eq!(mem16, [0x0001, 0x0203, 4, 6, 0, 8]);
}

#[test]
fn slices_refuse_what_they_do_not_map() {
    let mut mem8 = [0u8; 1];
    assert_eq!(mem8[..].get_byte(1), None);
    assert_eq!(mem8[..].get_word(0), None);
    assert_eq!(mem8[..].get_long(0), None);
    assert_eq!(mem8[..].set_byte(1, 0), None);
    assert_eq!(mem8[..].set_word(0, 0), None);
    assert_eq!(mem8[..].set_long(0, 0), None);

    let mut mem16 = [0u16; 1];
    assert_eq!(mem16[..].get_byte(2), None);
    assert_eq!(mem16[..].get_word(2), None);
    assert_eq!(mem16[..].get_long(0), None);
    assert_eq!(mem16[..].set_byte(2, 0), None);
    assert_eq!(mem16[..].set_word(2, 0), None);
    assert_eq!(mem16[..].set_long(0, 0x1234_5678), None);
    assert_eq!(mem16, [0x1234]);
}

#[test]
fn memory_iterator_reads_words_and_reports_errors() {
    let mut mem = [0x1234u16, 0x5678];
    let mut iter = MemoryIter::new(&mut mem[..], 0);
    assert_eq!(iter.next_word(), Ok(0x1234));
    assert_eq!(iter.next(), Some(Ok(0x5678)));
    assert_eq!(iter.next_word(), Err(2));
    let mut odd = MemoryIter::new(&mut mem[..], 1);
    assert_eq!(odd.next_word(), Err(3));
    assert_eq!(odd.next_addr, 1);
}

#[test]
fn status_register_laws_on_values() {
    let sr = StatusRegister { t: true, s: false, interrupt_mask: 5, x: true, n: false, z: true, v: false, c: true };
    let raw: u16 = sr.into();
    assert_eq!(raw, 0x8515);
    assert_eq!(StatusRegister::from(raw), sr);

    let mut all = sr;
    all |= 0xFFFF;
    assert_eq!(Into::<u16>::into(all), 0xA71F);
    let mut toggled = sr;
    toggled ^= 0xFFFF;
    assert_eq!(Into::<u16>::into(toggled), !0x8515u16 & 0xA71F);

    for cc in 0..16u8 {
        assert_eq!(sr.condition(cc ^ 1), !sr.condition(cc));
    }
    assert_eq!(StatusRegister::default(), StatusRegister::from(0x2700));
}

#[test]
fn arithmetic_values() {
    let sr = StatusRegister::from(0);
    let (sum, flags) = arithmetic::add_values(sr, 0xFF, 0x01, Size::Byte, false);
    assert_eq!(sum, 0);
    assert!(flags.z && flags.c && flags.x && !flags.v);
    let (back, _) = arithmetic::sub_values(flags, sum, 0x01, Size::Byte, false, false);
    assert_eq!(back, 0xFF);

    let (sum, flags) = arithmetic::add_values(sr, 0x7FFF, 0x0001, Size::Word, false);
    assert_eq!(sum, 0x8000);
    assert!(flags.v && flags.n && !flags.c);

    let (diff, flags) = arithmetic::sub_values(sr, 0, 1, Size::Long, false, true);
    assert_eq!(diff, 0xFFFF_FFFF);
    assert!(flags.c && !flags.x && flags.n);

    let (res, flags) = arithmetic::abcd(StatusRegister::from(0x10), 0x19, 0x28);
    assert_eq!(res, 0x48);
    assert!(!flags.c);
    let (res, flags) = arithmetic::sbcd(sr, 0x01, 0x10);
    assert_eq!(res, 0x09);
    assert!(!flags.c);

    let (res, _) = arithmetic::mulu(sr, 0xFFFF, 0xFFFF);
    assert_eq!(res, 0xFFFE_0001);
    let (res, _) = arithmetic::muls(sr, 0xFFFF, 0x0002);
    assert_eq!(res, 0xFFFF_FFFE);
    let (res, flags) = arithmetic::divu(sr, 0x0001, 0x0001_0000);
    assert_eq!(res, 0x0001_0000);
    assert!(flags.v);
    let (res, flags) = arithmetic::divu(sr, 0x0002, 0x0001_0000);
    assert_eq!(res, 0x8000);
    assert!(!flags.v && flags.n && !flags.z && !flags.c);
    let (res, _) = arithmetic::divs(sr, 0xFFFD, 7);
    assert_eq!(res, (1 << 16) | 0xFFFE);
}

#[test]
fn rotations_come_back() {
    let sr = StatusRegister::from(0);
    for count in 0..40u8 {
        let (left, _) = arithmetic::shift(arithmetic::ShiftKind::Rotate, true, Size::Word, sr, 0x8421, count);
        let (back, _) = arithmetic::shift(arithmetic::ShiftKind::Rotate, false, Size::Word, sr, left, count);
        assert_eq!(back, 0x8421);
    }
    let (res, flags) = arithmetic::shift(arithmetic::ShiftKind::Rotate, true, Size::Byte, sr, 0x81, 1);
    assert_eq!(res, 0x03);
    assert!(flags.c);
    let (res, flags) = arithmetic::shift(arithmetic::ShiftKind::Arithmetic, false, Size::Byte, sr, 0x80, 2);
    assert_eq!(res, 0xE0);
    assert!(!flags.c && flags.n);
    let (res, flags) = arithmetic::shift(arithmetic::ShiftKind::Logical, true, Size::Long, sr, 0x8000_0001, 1);
    assert_eq!(res, 2);
    assert!(flags.c && flags.x);
}

#[test]
fn carrying_operations() {
    assert_eq!(255u8.unsigned_carrying_add(1, false), (0, true));
    assert_eq!(255u8.unsigned_carrying_add(0, true), (0, true));
    assert_eq!(127u8.signed_carrying_add(1, false), (-128, true));
    assert_eq!(0u8.unsigned_borrowing_sub(1, true), (254, true));
    assert_eq!(0x8000u16.signed_borrowing_sub(1, false), (0x7FFF, true));
    assert_eq!(0xFFFF_FFFFu32.unsigned_carrying_add(1, false), (0, true));
}

#[test]
fn evenness_and_word_slices() {
    assert!(4u32.is_even());
    assert!(!5u32.is_even());
    assert_eq!(6u32.even(), Ok(6));
    assert_eq!(7u32.even(), Err(3));
    assert_eq!(7usize.even(), Err(3));

    let words = [0x1234u16, 0x5678, 0x9ABC];
    assert_eq!((&words[..]).u32_be(), 0x1234_5678);
    assert_eq!((&words[1..]).i32_be_sized(Size::Word), 0x5678);
    assert_eq!((&words[2..]).i32_be_sized(Size::Word), 0x9ABCu16 as i16 as i32);
    assert_eq!((&words[2..]).i32_be_sized(Size::Byte), 0xBCu8 as i8 as i32);
    let mut rest = &words[..];
    assert_eq!(rest.get_next_word(), 0x1234);
    assert_eq!(rest, &[0x5678, 0x9ABC]);
}

#[test]
fn addressing_modes_assemble_and_decode() {
    let bew = BEW::new(true, 3, true, -2);
    for am in [AM::Drd(1), AM::Ard(2), AM::Ari(3), AM::Ariwpo(4), AM::Ariwpr(5), AM::Ariwd(6, -4),
               AM::Ariwi8(0, bew), AM::AbsShort(0xFF00), AM::AbsLong(0x00FF_0000), AM::Immediate(0x1234)] {
        let (op, ext) = am.assemble(false);
        let mode = (op >> 3) & 7;
        let reg = (op & 7) as u8;
        let mut words = ext.clone();
        words.push(0);
        let mut iter = MemoryIter::new(&mut words[..], 0);
        assert_eq!(AM::from_memory(mode, reg, Some(Size::Word), &mut iter), Ok(am));
    }
    let (op, ext) = AM::Immediate(0x1234_5678).assemble(true);
    assert_eq!(op, 0b111_100);
    assert_eq!(ext, vec![0x1234, 0x5678]);
}

#[test]
fn instructions_decode_what_the_assembler_emits() {
    let mut words = vec![emit::moveq(3, -2), emit::swap(4), emit::trap(9), emit::ext(true, 1)];
    words.extend(emit::link(6, -8));
    let mut iter = MemoryIter::new(&mut words[..], 0);

    let op = iter.next_word().unwrap();
    let moveq = Instruction::from_opcode(op, 0, &mut iter).unwrap();
    assert_eq!(moveq.operands, Operands::RegisterData(3, -2));
    assert_eq!(Isa::from(op), Isa::Moveq);

    let op = iter.next_word().unwrap();
    assert_eq!(Instruction::from_opcode(op, 2, &mut iter).unwrap().operands, Operands::Register(4));
    let op = iter.next_word().unwrap();
    assert_eq!(Instruction::from_opcode(op, 4, &mut iter).unwrap().operands, Operands::Vector(9));
    let op = iter.next_word().unwrap();
    assert_eq!(Instruction::from_opcode(op, 6, &mut iter).unwrap().operands, Operands::OpmodeRegister(3, 1));
    let op = iter.next_word().unwrap();
    assert_eq!(Instruction::from_opcode(op, 8, &mut iter).unwrap().operands, Operands::RegisterDisplacement(6, -8));
    assert_eq!(Isa::from(0x4AFC), Isa::Illegal);
    assert_eq!(Isa::from(0xFFFF), Isa::Unknown);
}

#[test]
fn exception_priorities_and_cpu_details() {
    assert_eq!(vector_priority(0), 5);
    assert_eq!(vector_priority(2), 4);
    assert_eq!(vector_priority(9), 3);
    assert_eq!(vector_priority(27), 2);
    assert_eq!(vector_priority(8), 1);
    assert_eq!(vector_priority(32), 0);
    assert!(Exception::from(32).processed_before(&Exception::from(3)));
    assert_eq!(Mc68000::vector_execution_time(32), 34);
    assert_eq!(Mc68000::MOVEQ, 4);
    assert_eq!(Scc68070::MOVEQ, 7);
}

#[test]
fn registers_and_stack_pointers() {
    let mut cpu = M68000::<Mc68000>::new_no_reset();
    cpu.regs.sr = StatusRegister::from(0x2700);
    cpu.sp_mut(0x1234);
    assert_eq!(cpu.regs.ssp, 0x1234);
    assert_eq!(cpu.sp(), 0x1234);
    cpu.a_mut(7, 0x4000);
    assert_eq!(cpu.a(7), 0x4000);
    cpu.a_mut(2, 0x55);
    assert_eq!(cpu.regs.a[2], 0x55);
    cpu.regs.d[0] = 0x1122_3344;
    cpu.d_byte(0, 0xAA);
    assert_eq!(cpu.regs.d[0], 0x1122_33AA);
    cpu.d_word(0, 0xBBCC);
    assert_eq!(cpu.regs.d[0], 0x1122_BBCC);
}

#[test]
fn c_interface_values() {
    assert_eq!(ExceptionResult::from_result((12, Some(32))), ExceptionResult { cycles: 12, exception: 32 });
    assert_eq!(ExceptionResult::from_result((4, None)), ExceptionResult { cycles: 4, exception: 0 });

    let ok = GetSetResult { data: 0x1234_5678, exception: 0 };
    assert_eq!(ok.byte(), Some(0x78));
    assert_eq!(ok.word(), Some(0x5678));
    assert_eq!(ok.long(), Some(0x1234_5678));
    assert_eq!(ok.written(), Some(()));
    let err = GetSetResult { data: 0x1234_5678, exception: 2 };
    assert_eq!(err.byte(), None);
    assert_eq!(err.long(), None);
    assert_eq!(err.written(), None);
    assert_eq!(GetSetResult::from_word(Ok(0xBEEF)), GetSetResult { data: 0xBEEF, exception: 0 });
    assert_eq!(GetSetResult::from_word(Err(3)), GetSetResult { data: 0, exception: 3 });
}

#[test]
fn move_and_single_operand_instructions_decode_back() {
    let cases = [
        (Size::Long, AM::Ariwd(2, -4), AM::AbsLong(0x0012_3456)),
        (Size::Word, AM::Ariwpr(7), AM::Immediate(0xBEEF)),
        (Size::Byte, AM::Drd(3), AM::Ariwpo(1)),
        (Size::Word, AM::AbsShort(0x8000), AM::Pciwd(2, 0x10)),
    ];
    for (size, dst, src) in cases {
        let mut words = emit::move_(size, dst, src);
        let mut iter = MemoryIter::new(&mut words[..], 0);
        let inst = Instruction::from_memory(&mut iter).unwrap();
        assert_eq!(Isa::from(inst.opcode), Isa::Move);
        assert_eq!(inst.operands, Operands::SizeEffectiveAddressEffectiveAddress(size, dst, src));
    }

    for (words, isa) in [(emit::clr(Size::Byte, AM::Ari(5)), Isa::Clr), (emit::neg(Size::Long, AM::AbsShort(0x10)), Isa::Neg),
                         (emit::tst(Size::Word, AM::Drd(0)), Isa::Tst), (emit::not(Size::Long, AM::Ariwd(3, 8)), Isa::Not)] {
        let mut words = words;
        let mut iter = MemoryIter::new(&mut words[..], 0);
        let inst = Instruction::from_memory(&mut iter).unwrap();
        assert_eq!(Isa::from(inst.opcode), isa);
    }
}

#[test]
fn branches_decode_back() {
    let mut words = emit::bra(-10);
    words.extend(emit::bcc(Condition::NE, 300));
    words.extend(emit::bsr(0));
    let mut iter = MemoryIter::new(&mut words[..], 0);
    let bra = Instruction::from_memory(&mut iter).unwrap();
    assert_eq!((Isa::from(bra.opcode), bra.operands), (Isa::Bra, Operands::Displacement(-10)));
    let bne = Instruction::from_memory(&mut iter).unwrap();
    assert_eq!((Isa::from(bne.opcode), bne.operands), (Isa::Bcc, Operands::ConditionDisplacement(6, 300)));
    let bsr = Instruction::from_memory(&mut iter).unwrap();
    assert_eq!((Isa::from(bsr.opcode), bsr.operands), (Isa::Bsr, Operands::Displacement(0)));
    assert_eq!(iter.next_addr, 10);
}

#[test]
fn longs_split_into_big_endian_words() {
    assert_eq!(long_from_words(0x1234, 0xABCD), 0x1234_ABCD);
    assert_eq!(words_of_long(0x1234_ABCD), (0x1234, 0xABCD));
    assert_eq!(long_from_words(0xFFFF, 0), 0xFFFF_0000);
}
