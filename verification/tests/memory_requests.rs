use m68000::M68000;
use m68000::cpu_details::Mc68000;
use m68000::exception::{Exception, ACCESS_ERROR};
use m68000::instruction::{Direction, Size};
use m68000::addressing_modes::AddressingMode;

#[test]
fn first_interpreter_call_loads_ssp_and_pc_from_the_reset_vectors() {
    let mut cpu = M68000::<Mc68000>::new();
    let mut mem: [u16; 0x90] = [0; 0x90];
    mem[0] = 0x0000;
    mem[1] = 0x1000; // initial SSP
    mem[2] = 0x0000;
    mem[3] = 0x0100; // initial PC
    mem[0x80] = 0x4E71; // NOP at 0x100
    let (_, exception) = cpu.interpreter_exception(&mut mem[..]);
    assert_eq!(exception, None);
    assert_eq!(cpu.regs.ssp, 0x1000);
    assert_eq!(cpu.regs.pc, 0x102);
    assert!(cpu.regs.sr.s);
    assert!(!cpu.regs.sr.t);
    assert_eq!(cpu.regs.sr.interrupt_mask, 7);
}

#[test]
fn refused_opcode_fetch_leaves_pc_past_the_word() {
    let mut cpu = M68000::<Mc68000>::new_no_reset();
    cpu.regs.pc = 0x10;
    let mut mem: [u16; 8] = [0x4E71; 8];
    let r = cpu.interpreter_exception(&mut mem[..]);
    assert_eq!(r, (0, Some(ACCESS_ERROR)));
    assert_eq!(cpu.regs.pc, 0x12);
}

#[test]
fn refused_extension_word_leaves_pc_past_that_word() {
    let mut cpu = M68000::<Mc68000>::new_no_reset();
    cpu.regs.pc = 0x0E;
    let mut mem: [u16; 8] = [0x4E71; 8];
    mem[7] = 0x303C; // MOVE.W #imm,D0, its immediate word at 0x10 is not mapped
    let r = cpu.interpreter_exception(&mut mem[..]);
    assert_eq!(r, (0, Some(ACCESS_ERROR)));
    assert_eq!(cpu.regs.pc, 0x12);
    assert_eq!(cpu.regs.d[0], 0);
}

#[test]
fn get_next_word_on_unmapped_memory_is_an_access_error() {
    let mut cpu = M68000::<Mc68000>::new_no_reset();
    cpu.regs.pc = 4;
    let mut mem: [u16; 3] = [0x1111, 0x2222, 0x3333];
    assert_eq!(cpu.get_next_word(&mut mem[..]), Ok(0x3333));
    assert_eq!(cpu.regs.pc, 6);
    assert_eq!(cpu.get_next_word(&mut mem[..]), Err(ACCESS_ERROR));
    assert_eq!(cpu.regs.pc, 8);
}

#[test]
fn movep_long_to_memory_stores_every_other_byte() {
    let mut cpu = M68000::<Mc68000>::new_no_reset();
    cpu.regs.d[1] = 0x1234_5678;
    cpu.regs.set_a(2, 0x10);
    let mut mem: [u8; 0x20] = [0; 0x20];
    assert!(cpu.execute_movep(&mut mem[..], 1, Direction::RegisterToMemory, Size::Long, 2, 1).is_ok());
    assert_eq!(&mem[0x11..0x18], &[0x12, 0, 0x34, 0, 0x56, 0, 0x78]);
    assert_eq!(mem[0x10], 0);
}

#[test]
fn movep_word_from_memory_keeps_the_high_word() {
    let mut cpu = M68000::<Mc68000>::new_no_reset();
    cpu.regs.d[3] = 0xAAAA_BBBB;
    cpu.regs.set_a(0, 0x4);
    let mut mem: [u8; 0x10] = [0; 0x10];
    mem[4] = 0x12;
    mem[6] = 0x34;
    assert!(cpu.execute_movep(&mut mem[..], 3, Direction::MemoryToRegister, Size::Word, 0, 0).is_ok());
    assert_eq!(cpu.regs.d[3], 0xAAAA_1234);
}

#[test]
fn movep_to_unmapped_memory_is_an_access_error() {
    let mut cpu = M68000::<Mc68000>::new_no_reset();
    cpu.regs.d[0] = 0x1234_5678;
    cpu.regs.set_a(1, 0x0C);
    let mut mem: [u8; 0x10] = [0; 0x10];
    assert_eq!(cpu.execute_movep(&mut mem[..], 0, Direction::RegisterToMemory, Size::Long, 1, 0), Err(ACCESS_ERROR));
    assert_eq!(mem[0x0C], 0x12);
    assert_eq!(mem[0x0E], 0x34);
}

#[test]
fn exception_whose_vector_is_unmapped_is_dropped() {
    let mut cpu = M68000::<Mc68000>::new_no_reset();
    cpu.regs.ssp = 0x10;
    cpu.regs.pc = 0x1234;
    cpu.exception(Exception::from(32u8));
    let mut mem: [u16; 8] = [0; 8];
    let time = cpu.process_pending_exceptions(&mut mem[..]);
    assert_eq!(time, 0);
    assert_eq!(cpu.exceptions.len(), 0);
    assert_eq!(cpu.regs.ssp, 0x0A);
    assert_eq!(cpu.regs.pc, 0x1234);
    assert_eq!(mem[6], 0x0000);
    assert_eq!(mem[7], 0x1234);
}

#[test]
fn movem_stops_at_the_refused_transfer() {
    let mut cpu = M68000::<Mc68000>::new_no_reset();
    cpu.regs.d[0] = 0x1111;
    cpu.regs.d[1] = 0x2222;
    cpu.regs.set_a(0, 0x0C);
    let mut mem: [u16; 7] = [0; 7];
    let r = cpu.execute_movem(&mut mem[..], Direction::RegisterToMemory, Size::Word, AddressingMode::Ari(0), 0b11);
    assert_eq!(r, Err(ACCESS_ERROR));
    assert_eq!(mem[6], 0x1111);
}
