use m68000::M68000;
use m68000::addressing_modes::AddressingMode as AM;
use m68000::cpu_details::{Mc68000, Scc68070};
use m68000::instruction::{Direction, Size};
use m68000::status_register::StatusRegister;

/// A core in supervisor mode, its stack pointer at 0x800, and a 4 KiB byte memory.
fn supervisor_core() -> (M68000<Mc68000>, Vec<u8>) {
    let mut cpu = M68000::<Mc68000>::new_no_reset();
    cpu.regs.sr = StatusRegister::from(0x2700);
    cpu.regs.ssp = 0x800;
    (cpu, vec![0u8; 0x1000])
}

fn long_at(mem: &[u8], addr: usize) -> u32 {
    u32::from_be_bytes([mem[addr], mem[addr + 1], mem[addr + 2], mem[addr + 3]])
}

#[test]
fn movem_saves_and_restores_registers() {
    let (mut cpu, mut mem) = supervisor_core();
    cpu.regs.d[0] = 1;
    cpu.regs.d[1] = 2;
    cpu.regs.a[0] = 0x1234_5678;
    // MOVEM.L D0-D1/A0,-(A7): in predecrement mode bit 15 is D0 and bit 0 is A7.
    assert!(cpu.execute_movem(&mut mem[..], Direction::RegisterToMemory, Size::Long, AM::Ariwpr(7), 0xC080).is_ok());
    assert_eq!(cpu.regs.ssp, 0x800 - 12);
    assert_eq!(long_at(&mem, 0x7F4), 1);
    assert_eq!(long_at(&mem, 0x7F8), 2);
    assert_eq!(long_at(&mem, 0x7FC), 0x1234_5678);

    // MOVEM.L (A7)+,D2-D3/A1.
    assert!(cpu.execute_movem(&mut mem[..], Direction::MemoryToRegister, Size::Long, AM::Ariwpo(7), 0x020C).is_ok());
    assert_eq!(cpu.regs.d[2], 1);
    assert_eq!(cpu.regs.d[3], 2);
    assert_eq!(cpu.regs.a[1], 0x1234_5678);
    assert_eq!(cpu.regs.ssp, 0x800);

    // MOVEM.W sign-extends the words it loads.
    mem[0x300] = 0x80;
    assert!(cpu.execute_movem(&mut mem[..], Direction::MemoryToRegister, Size::Word, AM::AbsShort(0x300), 0x0001).is_ok());
    assert_eq!(cpu.regs.d[0], 0xFFFF_8000);
}

#[test]
fn movep_spreads_bytes() {
    let (mut cpu, mut mem) = supervisor_core();
    cpu.regs.d[0] = 0x1122_3344;
    cpu.regs.a[0] = 0x200;
    assert!(cpu.execute_movep(&mut mem[..], 0, Direction::RegisterToMemory, Size::Long, 0, 0).is_ok());
    assert_eq!([mem[0x200], mem[0x202], mem[0x204], mem[0x206]], [0x11, 0x22, 0x33, 0x44]);
    assert_eq!(mem[0x201], 0);

    cpu.regs.d[1] = 0xFFFF_0000;
    assert!(cpu.execute_movep(&mut mem[..], 1, Direction::MemoryToRegister, Size::Word, 0, 2).is_ok());
    assert_eq!(cpu.regs.d[1], 0xFFFF_2233);
}

#[test]
fn link_and_unlk_build_and_drop_a_frame() {
    let (mut cpu, mut mem) = supervisor_core();
    cpu.regs.a[6] = 0xABCD;
    assert_eq!(cpu.execute_link(&mut mem[..], 6, -8), Ok(16));
    assert_eq!(cpu.regs.a[6], 0x7FC);
    assert_eq!(cpu.regs.ssp, 0x7F4);
    assert_eq!(long_at(&mem, 0x7FC), 0xABCD);
    assert_eq!(cpu.execute_unlk(&mut mem[..], 6), Ok(12));
    assert_eq!(cpu.regs.a[6], 0xABCD);
    assert_eq!(cpu.regs.ssp, 0x800);
}

#[test]
fn jsr_and_rts() {
    let (mut cpu, mut mem) = supervisor_core();
    cpu.regs.pc = 0x404;
    assert!(cpu.execute_jsr(&mut mem[..], AM::AbsShort(0x600)).is_ok());
    assert_eq!(cpu.regs.pc, 0x600);
    assert_eq!(cpu.regs.ssp, 0x7FC);
    assert_eq!(long_at(&mem, 0x7FC), 0x404);
    assert_eq!(cpu.execute_rts(&mut mem[..]), Ok(16));
    assert_eq!(cpu.regs.pc, 0x404);
    assert_eq!(cpu.regs.ssp, 0x800);
}

#[test]
fn dbcc_counts_down_to_minus_one() {
    let (mut cpu, _) = supervisor_core();
    cpu.regs.d[1] = 0xAAAA_0001;
    cpu.regs.pc = 0x404;
    assert_eq!(cpu.execute_dbcc(0x402, 1, 1, -4), Ok(10));
    assert_eq!(cpu.regs.d[1], 0xAAAA_0000);
    assert_eq!(cpu.regs.pc, 0x3FE);
    cpu.regs.pc = 0x404;
    assert_eq!(cpu.execute_dbcc(0x402, 1, 1, -4), Ok(14));
    assert_eq!(cpu.regs.d[1], 0xAAAA_FFFF);
    assert_eq!(cpu.regs.pc, 0x404);
    // The condition true does nothing.
    assert_eq!(cpu.execute_dbcc(0x402, 0, 1, -4), Ok(12));
    assert_eq!(cpu.regs.d[1], 0xAAAA_FFFF);
}

#[test]
fn scc_and_bit_operations() {
    let (mut cpu, mut mem) = supervisor_core();
    cpu.regs.sr.z = false;
    cpu.regs.d[0] = 0x1234_5600;
    assert!(cpu.execute_scc(&mut mem[..], 6, AM::Drd(0)).is_ok());
    assert_eq!(cpu.regs.d[0], 0x1234_56FF);
    assert!(cpu.execute_scc(&mut mem[..], 7, AM::Drd(0)).is_ok());
    assert_eq!(cpu.regs.d[0], 0x1234_5600);

    // Static BSET #3,D2 (bit 8 of the opcode clear).
    cpu.current_opcode = 0x08C2;
    cpu.regs.d[2] = 0;
    assert!(cpu.execute_bset(&mut mem[..], AM::Drd(2), 3).is_ok());
    assert_eq!(cpu.regs.d[2], 8);
    assert!(cpu.regs.sr.z);
    // Dynamic BCHG D3,D2 (bit 8 set), the bit number modulo 32.
    cpu.current_opcode = 0x0742;
    cpu.regs.d[3] = 35;
    assert!(cpu.execute_bchg(&mut mem[..], AM::Drd(2), 3).is_ok());
    assert_eq!(cpu.regs.d[2], 0);
    assert!(!cpu.regs.sr.z);
    // BCLR #9,(0x100).W on a byte in memory: the bit number modulo 8.
    cpu.current_opcode = 0x08B8;
    mem[0x100] = 0xFF;
    assert!(cpu.execute_bclr(&mut mem[..], AM::AbsShort(0x100), 9).is_ok());
    assert_eq!(mem[0x100], 0xFD);
    assert!(!cpu.regs.sr.z);
}

#[test]
fn shifts_and_rotations_of_registers() {
    let (mut cpu, _) = supervisor_core();
    cpu.regs.d[0] = 0x0000_0040;
    assert!(cpu.execute_asr(1, Direction::Left, Size::Byte, 0, 0).is_ok());
    assert_eq!(cpu.regs.d[0], 0x80);
    assert!(cpu.regs.sr.v && cpu.regs.sr.n && !cpu.regs.sr.c);

    cpu.regs.d[1] = 0x8000_0001;
    assert!(cpu.execute_ror(1, Direction::Right, Size::Long, 0, 1).is_ok());
    assert_eq!(cpu.regs.d[1], 0xC000_0000);
    assert!(cpu.regs.sr.c);

    // LSR.W D2,D3 with a count of 4 in D2.
    cpu.regs.d[2] = 4;
    cpu.regs.d[3] = 0xFFFF_1234;
    assert!(cpu.execute_lsr(2, Direction::Right, Size::Word, 1, 3).is_ok());
    assert_eq!(cpu.regs.d[3], 0xFFFF_0123);
    assert!(!cpu.regs.sr.c && !cpu.regs.sr.n);

    // ROXL.B #1 with X set.
    cpu.regs.sr.x = true;
    cpu.regs.d[4] = 0x80;
    assert!(cpu.execute_roxr(1, Direction::Left, Size::Byte, 0, 4).is_ok());
    assert_eq!(cpu.regs.d[4], 0x01);
    assert!(cpu.regs.sr.x && cpu.regs.sr.c);
}

#[test]
fn bcd_and_multiplications() {
    let (mut cpu, mut mem) = supervisor_core();
    cpu.regs.sr.x = false;
    cpu.regs.d[0] = 0x45;
    cpu.regs.d[1] = 0x38;
    assert!(cpu.execute_abcd(&mut mem[..], 0, Direction::RegisterToRegister, 1).is_ok());
    assert_eq!(cpu.regs.d[0], 0x83);

    // ABCD -(A1),-(A0) on bytes in memory.
    cpu.regs.sr.x = false;
    cpu.regs.a[0] = 0x101;
    cpu.regs.a[1] = 0x201;
    mem[0x100] = 0x19;
    mem[0x200] = 0x01;
    assert!(cpu.execute_abcd(&mut mem[..], 0, Direction::MemoryToMemory, 1).is_ok());
    assert_eq!(mem[0x100], 0x20);
    assert_eq!((cpu.regs.a[0], cpu.regs.a[1]), (0x100, 0x200));

    mem[0x300] = 0xFF;
    mem[0x301] = 0xFE;
    cpu.regs.d[2] = 3;
    assert!(cpu.execute_muls(&mut mem[..], 2, AM::AbsShort(0x300)).is_ok());
    assert_eq!(cpu.regs.d[2], (-6i32) as u32);
    assert!(cpu.regs.sr.n);

    cpu.regs.d[3] = 100;
    assert!(cpu.execute_divs(&mut mem[..], 3, AM::AbsShort(0x300)).is_ok());
    assert_eq!(cpu.regs.d[3], (-50i16 as u16) as u32);
}

#[test]
fn addx_and_cmpm_on_memory() {
    let (mut cpu, mut mem) = supervisor_core();
    cpu.regs.sr.x = true;
    cpu.regs.sr.z = true;
    cpu.regs.a[0] = 0x104;
    cpu.regs.a[1] = 0x204;
    mem[0x100..0x104].copy_from_slice(&[0, 0, 0, 1]);
    mem[0x200..0x204].copy_from_slice(&[0, 0, 0, 2]);
    // ADDX.L -(A1),-(A0): (A0) = (A0) + (A1) + X.
    assert!(cpu.execute_addx(&mut mem[..], 0, Size::Long, Direction::MemoryToMemory, 1).is_ok());
    assert_eq!(long_at(&mem, 0x100), 4);
    assert_eq!((cpu.regs.a[0], cpu.regs.a[1]), (0x100, 0x200));
    assert!(!cpu.regs.sr.z && !cpu.regs.sr.x);

    // CMPM.L (A1)+,(A0)+ compares (A0) with (A1).
    assert!(cpu.execute_cmpm(&mut mem[..], 0, Size::Long, 1).is_ok());
    assert_eq!((cpu.regs.a[0], cpu.regs.a[1]), (0x104, 0x204));
    assert!(!cpu.regs.sr.z && !cpu.regs.sr.n && !cpu.regs.sr.c);
}

#[test]
fn each_exception_of_the_instructions() {
    let (mut cpu, mut mem) = supervisor_core();
    // CHK: the register out of bounds.
    cpu.regs.d[0] = 5;
    assert_eq!(cpu.execute_chk(&mut mem[..], 0, AM::Immediate(3)), Err(6));
    assert!(cpu.execute_chk(&mut mem[..], 0, AM::Immediate(7)).is_ok());
    // TRAPV with V set.
    cpu.regs.sr.v = true;
    assert_eq!(cpu.execute_trapv(), Err(7));
    // Zero divide.
    assert_eq!(cpu.execute_divu(&mut mem[..], 0, AM::Immediate(0)), Err(5));
    // Illegal operands, illegal and unknown instructions.
    assert_eq!(cpu.execute_swap(8), Err(4));
    assert_eq!(cpu.execute_illegal(), Err(4));
    assert_eq!(cpu.execute_unknown_instruction(), Err(4));
    // Address and access errors.
    assert_eq!(cpu.execute_move(&mut mem[..], Size::Word, AM::Drd(1), AM::AbsShort(0x101)), Err(3));
    assert_eq!(cpu.execute_move(&mut mem[..], Size::Long, AM::Drd(1), AM::AbsLong(0x10_0000)), Err(2));
    // TRAP #n.
    assert_eq!(cpu.execute_trap(3), Err(35));
    // Privilege violation in user mode.
    cpu.regs.sr.s = false;
    assert_eq!(cpu.execute_orisr(0x0700), Err(8));
    assert_eq!(cpu.execute_stop(0x2700), Err(8));
}

#[test]
fn rte_restores_the_status_register_and_checks_the_format() {
    let (mut cpu, mut mem) = supervisor_core();
    // SR then PC on the stack.
    mem[0x7FA..0x800].copy_from_slice(&[0x00, 0x1F, 0x00, 0x00, 0x05, 0x00]);
    cpu.regs.ssp = 0x7FA;
    cpu.regs.usp = 0x900;
    assert_eq!(cpu.execute_rte(&mut mem[..]), Ok(20));
    assert_eq!(cpu.regs.pc, 0x500);
    assert_eq!(cpu.regs.sr, StatusRegister::from(0x001F));
    assert_eq!(cpu.regs.ssp, 0x800);
    assert_eq!(cpu.sp(), 0x900);

    // The SCC68070 reads a format word, and refuses an unknown format.
    let mut scc = M68000::<Scc68070>::new_no_reset();
    scc.regs.sr = StatusRegister::from(0x2700);
    scc.regs.ssp = 0x7F8;
    mem[0x7F8..0x800].copy_from_slice(&[0x27, 0x00, 0x00, 0x00, 0x05, 0x00, 0x30, 0x00]);
    assert_eq!(scc.execute_rte(&mut mem[..]), Err(14));
}
