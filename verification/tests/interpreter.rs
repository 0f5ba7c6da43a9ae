use m68000::M68000;
use m68000::addressing_modes::AddressingMode as AM;
use m68000::assembler as emit;
use m68000::cpu_details::Mc68000;
use m68000::exception::Exception;
use m68000::instruction::{Direction, Operands, Size};

/// Writes big-endian words in a byte memory.
fn load(mem: &mut [u8], addr: usize, words: &[u16]) {
    for (i, w) in words.iter().enumerate() {
        mem[addr + 2 * i] = (w >> 8) as u8;
        mem[addr + 2 * i + 1] = *w as u8;
    }
}

/// A memory whose reset vector sets SSP to 0x1000 and PC to 0x400.
fn reset_memory() -> Vec<u8> {
    let mut mem = vec![0u8; 0x2000];
    load(&mut mem, 0, &[0x0000, 0x1000, 0x0000, 0x0400]);
    mem
}

#[test]
fn reset_then_register_instructions() {
    let mut mem = reset_memory();
    let mut program = vec![emit::moveq(0, 5), emit::moveq(1, -3)];
    program.extend(emit::add(0, Direction::DstReg, Size::Long, AM::Drd(1)));
    program.push(emit::swap(0));
    program.push(emit::exg(0, Direction::ExchangeData, 1));
    load(&mut mem, 0x400, &program);

    let mut cpu = M68000::<Mc68000>::new();
    cpu.interpreter(&mut mem[..]);
    assert_eq!(cpu.regs.ssp, 0x1000);
    assert!(cpu.regs.sr.s);
    assert_eq!(cpu.regs.sr.interrupt_mask, 7);
    assert_eq!(cpu.regs.d[0], 5);
    assert_eq!(cpu.regs.pc, 0x402);

    assert_eq!(cpu.interpreter(&mut mem[..]), 4);
    assert_eq!(cpu.regs.d[1], 0xFFFF_FFFD);
    assert!(cpu.regs.sr.n);

    assert_eq!(cpu.interpreter(&mut mem[..]), 8);
    assert_eq!(cpu.regs.d[0], 2);
    assert!(cpu.regs.sr.c && cpu.regs.sr.x && !cpu.regs.sr.n && !cpu.regs.sr.z && !cpu.regs.sr.v);

    assert_eq!(cpu.interpreter(&mut mem[..]), 4);
    assert_eq!(cpu.regs.d[0], 0x0002_0000);
    assert!(!cpu.regs.sr.c && cpu.regs.sr.x);

    assert_eq!(cpu.interpreter(&mut mem[..]), 6);
    assert_eq!(cpu.regs.d[0], 0xFFFF_FFFD);
    assert_eq!(cpu.regs.d[1], 0x0002_0000);
    assert_eq!(cpu.regs.pc, 0x40A);
}

#[test]
fn trap_goes_to_its_handler_and_rte_comes_back() {
    let mut mem = reset_memory();
    load(&mut mem, 0x80, &[0x0000, 0x0500]);
    load(&mut mem, 0x400, &[emit::trap(0), emit::nop()]);
    load(&mut mem, 0x500, &[emit::moveq(3, 7), emit::rte()]);

    let mut cpu = M68000::<Mc68000>::new();
    cpu.interpreter(&mut mem[..]);
    assert_eq!(cpu.regs.pc, 0x402);
    assert_eq!(cpu.exceptions.len(), 1);
    assert_eq!(cpu.exceptions[0].vector, 32);

    cpu.interpreter(&mut mem[..]);
    assert_eq!(cpu.regs.d[3], 7);
    assert_eq!(cpu.regs.pc, 0x502);
    assert_eq!(cpu.regs.ssp, 0x1000 - 6);
    assert!(cpu.exceptions.is_empty());

    cpu.interpreter(&mut mem[..]);
    assert_eq!(cpu.regs.pc, 0x402);
    assert_eq!(cpu.regs.ssp, 0x1000);
}

#[test]
fn cycle_until_exception_stops_on_trap() {
    let mut mem = reset_memory();
    load(&mut mem, 0x400, &[emit::moveq(0, 1), emit::moveq(1, 2), emit::trap(15), emit::nop()]);

    let mut cpu = M68000::<Mc68000>::new();
    let (_, exception) = cpu.cycle_until_exception(&mut mem[..], 10_000);
    assert_eq!(exception, Some(47));
    assert_eq!(cpu.regs.d[0], 1);
    assert_eq!(cpu.regs.d[1], 2);
    assert_eq!(cpu.regs.pc, 0x406);
}

#[test]
fn division_by_zero_raises_its_exception() {
    let mut mem = reset_memory();
    let mut program = vec![emit::moveq(0, 100), emit::moveq(1, 0)];
    program.extend(emit::divu(0, AM::Drd(1)));
    load(&mut mem, 0x400, &program);

    let mut cpu = M68000::<Mc68000>::new();
    cpu.interpreter(&mut mem[..]);
    cpu.interpreter(&mut mem[..]);
    let (_, exception) = cpu.interpreter_exception(&mut mem[..]);
    assert_eq!(exception, Some(5));
    assert_eq!(cpu.regs.d[0], 100);
}

#[test]
fn divu_gives_quotient_and_remainder() {
    let mut mem = reset_memory();
    let mut program = vec![emit::moveq(0, 100), emit::moveq(1, 7)];
    program.extend(emit::divu(0, AM::Drd(1)));
    load(&mut mem, 0x400, &program);

    let mut cpu = M68000::<Mc68000>::new();
    for _ in 0..3 {
        cpu.interpreter(&mut mem[..]);
    }
    assert_eq!(cpu.regs.d[0], (2 << 16) | 14);
    assert!(cpu.exceptions.is_empty());
}

#[test]
fn word_access_at_odd_address_is_an_address_error() {
    let mut mem = reset_memory();
    let mut program = emit::move_(Size::Word, AM::Drd(2), AM::AbsShort(0x0801));
    program.push(emit::nop());
    load(&mut mem, 0x400, &program);

    let mut cpu = M68000::<Mc68000>::new();
    let (_, exception) = cpu.interpreter_exception(&mut mem[..]);
    assert_eq!(exception, Some(3));
}

#[test]
fn memory_operands_read_and_write_big_endian() {
    let mut mem = reset_memory();
    load(&mut mem, 0x800, &[0x1234, 0x5678]);
    let mut program = emit::move_(Size::Long, AM::Drd(2), AM::AbsShort(0x0800));
    program.extend(emit::move_(Size::Word, AM::AbsShort(0x0900), AM::Drd(2)));
    program.extend(emit::addq(1, Size::Byte, AM::AbsShort(0x0900)));
    load(&mut mem, 0x400, &program);

    let mut cpu = M68000::<Mc68000>::new();
    for _ in 0..3 {
        cpu.interpreter(&mut mem[..]);
    }
    assert_eq!(cpu.regs.d[2], 0x1234_5678);
    assert_eq!(&mem[0x900..0x902], &[0x57, 0x78]);
    assert!(cpu.exceptions.is_empty());
}

#[test]
fn privileged_instruction_in_user_mode() {
    let mut mem = reset_memory();
    let mut program = emit::andisr(0x00FF).to_vec();
    program.extend(emit::orisr(0x0700));
    load(&mut mem, 0x400, &program);

    let mut cpu = M68000::<Mc68000>::new();
    cpu.interpreter(&mut mem[..]);
    assert!(!cpu.regs.sr.s);
    let (_, exception) = cpu.interpreter_exception(&mut mem[..]);
    assert_eq!(exception, Some(8));
}

#[test]
fn pending_exceptions_are_kept_sorted_and_unique() {
    let mut cpu = M68000::<Mc68000>::new_no_reset();
    cpu.exception(Exception::from(32));
    cpu.exception(Exception::from(3));
    cpu.exception(Exception::from(32));
    cpu.exception(Exception::from(4));
    assert_eq!(cpu.exceptions.len(), 3);
    let vectors: Vec<u8> = cpu.exceptions.iter().map(|e| e.vector).collect();
    assert_eq!(vectors, vec![32, 4, 3]);
}

#[test]
fn stopped_core_does_nothing() {
    let mut mem = reset_memory();
    load(&mut mem, 0x400, &emit::stop(0x2700));

    let mut cpu = M68000::<Mc68000>::new();
    cpu.interpreter(&mut mem[..]);
    assert!(cpu.stop);
    let pc = cpu.regs.pc;
    assert_eq!(cpu.interpreter(&mut mem[..]), 0);
    assert_eq!(cpu.regs.pc, pc);
}

#[test]
fn unified_interpreter_reports_the_instructions_it_executes() {
    let mut mem = reset_memory();
    load(&mut mem, 0x400, &[emit::moveq(0, 5), emit::nop(), emit::nop()]);

    let mut cpu = M68000::<Mc68000>::new();
    let (_, reported) = cpu.interpreter_unified::<true, _>(&mut mem[..]);
    let (pc, inst) = reported.unwrap();
    assert_eq!(pc, 0x400);
    assert_eq!(inst.opcode, emit::moveq(0, 5));
    assert_eq!(inst.operands, Operands::RegisterData(0, 5));
    assert_eq!(cpu.regs.d[0], 5);

    let (cycles, reported) = cpu.interpreter_unified::<false, _>(&mut mem[..]);
    assert!(reported.is_none());
    assert_eq!(cycles, 4);

    let (cycles, reported, exception) = cpu.interpreter_exception_unified::<true, _>(&mut mem[..]);
    assert_eq!(cycles, 4);
    assert_eq!(reported.map(|(pc, _)| pc), Some(0x404));
    assert_eq!(exception, None);
}

#[test]
fn masked_interrupts_stay_pending() {
    let mut mem = reset_memory();
    load(&mut mem, 27 * 4, &[0x0000, 0x0500]);
    load(&mut mem, 0x400, &[emit::nop(), emit::nop(), emit::nop()]);
    load(&mut mem, 0x500, &[emit::nop(), emit::nop()]);

    let mut cpu = M68000::<Mc68000>::new();
    cpu.interpreter(&mut mem[..]);
    cpu.exception(Exception::from(27));
    cpu.interpreter(&mut mem[..]);
    assert_eq!(cpu.exceptions.len(), 1);
    assert_eq!(cpu.regs.pc, 0x404);

    cpu.regs.sr.interrupt_mask = 2;
    cpu.interpreter(&mut mem[..]);
    assert!(cpu.exceptions.is_empty());
    assert_eq!(cpu.regs.sr.interrupt_mask, 3);
    assert_eq!(cpu.regs.pc, 0x502);
}

#[test]
fn interrupts_wake_a_stopped_core_unless_masked() {
    let mut mem = reset_memory();
    load(&mut mem, 27 * 4, &[0x0000, 0x0500]);
    load(&mut mem, 0x400, &emit::stop(0x2200));
    load(&mut mem, 0x500, &[emit::nop(), emit::nop()]);

    let mut cpu = M68000::<Mc68000>::new();
    cpu.interpreter(&mut mem[..]);
    assert!(cpu.stop);
    assert_eq!(cpu.regs.sr.interrupt_mask, 2);

    cpu.exception(Exception::from(26));
    assert!(cpu.stop);
    assert_eq!(cpu.interpreter(&mut mem[..]), 0);
    assert_eq!(cpu.regs.pc, 0x404);

    cpu.exception(Exception::from(27));
    assert!(!cpu.stop);
    cpu.interpreter(&mut mem[..]);
    assert_eq!(cpu.regs.sr.interrupt_mask, 3);
    assert_eq!(cpu.regs.pc, 0x502);
    let vectors: Vec<u8> = cpu.exceptions.iter().map(|e| e.vector).collect();
    assert_eq!(vectors, vec![26]);
}
