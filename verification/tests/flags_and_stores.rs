use m68000::M68000;
use m68000::cached_interpreter_flat_block::CachedInterpreterFlatBlock;
use m68000::addressing_modes::AddressingMode as AM;
use m68000::cpu_details::{CpuDetails, Mc68000};
use m68000::exception::ADDRESS_ERROR;
use m68000::instruction::{Direction, Size};
use m68000::utils::bits;

#[test]
fn divu_quotient_of_0x8000_fits() {
    let mut cpu = M68000::<Mc68000>::new_no_reset();
    cpu.regs.d[0] = 0x0001_0000;
    cpu.regs.d[1] = 2;
    let mut mem: [u16; 1] = [0];
    assert!(cpu.execute_divu(&mut mem[..], 0, AM::Drd(1)).is_ok());
    assert_eq!(cpu.regs.d[0], 0x0000_8000);
    assert!(!cpu.regs.sr.v);
    assert!(!cpu.regs.sr.c);
    assert!(!cpu.regs.sr.z);
    assert!(cpu.regs.sr.n);
}

#[test]
fn divu_overflow_keeps_destination() {
    let mut cpu = M68000::<Mc68000>::new_no_reset();
    cpu.regs.d[0] = 0x0010_0000;
    cpu.regs.d[1] = 1;
    let mut mem: [u16; 1] = [0];
    assert!(cpu.execute_divu(&mut mem[..], 0, AM::Drd(1)).is_ok());
    assert!(cpu.regs.sr.v);
    assert!(!cpu.regs.sr.c);
    assert_eq!(cpu.regs.d[0], 0x0010_0000);
}

#[test]
fn divs_overflow_keeps_destination() {
    let mut cpu = M68000::<Mc68000>::new_no_reset();
    cpu.regs.d[0] = 0x0001_0000;
    cpu.regs.d[1] = 1;
    let mut mem: [u16; 1] = [0];
    assert!(cpu.execute_divs(&mut mem[..], 0, AM::Drd(1)).is_ok());
    assert!(cpu.regs.sr.v);
    assert!(!cpu.regs.sr.c);
    assert_eq!(cpu.regs.d[0], 0x0001_0000);
}

#[test]
fn divs_negative_quotient() {
    let mut cpu = M68000::<Mc68000>::new_no_reset();
    cpu.regs.d[0] = 7;
    cpu.regs.d[1] = 0xFFFE;
    let mut mem: [u16; 1] = [0];
    assert!(cpu.execute_divs(&mut mem[..], 0, AM::Drd(1)).is_ok());
    assert_eq!(cpu.regs.d[0], 0x0001_FFFD);
    assert!(cpu.regs.sr.n && !cpu.regs.sr.v && !cpu.regs.sr.z);
}

#[test]
fn ori_to_ccr_cannot_enter_supervisor_mode() {
    let mut cpu = M68000::<Mc68000>::new_no_reset();
    cpu.regs.sr.s = false;
    cpu.regs.sr.interrupt_mask = 0;
    assert_eq!(cpu.execute_oriccr(0xA71F), Ok(Mc68000::ORICCR));
    assert!(!cpu.regs.sr.s);
    assert!(!cpu.regs.sr.t);
    assert_eq!(cpu.regs.sr.interrupt_mask, 0);
    assert!(cpu.regs.sr.x && cpu.regs.sr.n && cpu.regs.sr.z && cpu.regs.sr.v && cpu.regs.sr.c);
}

#[test]
fn eori_to_ccr_keeps_the_system_byte() {
    let mut cpu = M68000::<Mc68000>::new_no_reset();
    cpu.regs.sr.s = true;
    cpu.regs.sr.interrupt_mask = 7;
    cpu.regs.sr.z = true;
    assert_eq!(cpu.execute_eoriccr(0xA714), Ok(Mc68000::EORICCR));
    assert!(cpu.regs.sr.s);
    assert!(!cpu.regs.sr.t);
    assert_eq!(cpu.regs.sr.interrupt_mask, 7);
    assert!(cpu.regs.sr.x && !cpu.regs.sr.n && !cpu.regs.sr.z && !cpu.regs.sr.v && !cpu.regs.sr.c);
}

#[test]
fn abcd_with_decimal_carry_keeps_zero_flag() {
    let mut cpu = M68000::<Mc68000>::new_no_reset();
    cpu.regs.d[0] = 0x1234_5650;
    cpu.regs.d[1] = 0x50;
    cpu.regs.sr.x = false;
    cpu.regs.sr.z = true;
    let mut mem: [u16; 1] = [0];
    assert_eq!(cpu.execute_abcd(&mut mem[..], 0, Direction::RegisterToRegister, 1), Ok(Mc68000::ABCD_REG));
    assert_eq!(cpu.regs.d[0], 0x1234_5600);
    assert_eq!(cpu.regs.d[1], 0x50);
    assert!(cpu.regs.sr.c && cpu.regs.sr.x);
    assert!(cpu.regs.sr.z);
}

#[test]
fn abcd_non_zero_result_clears_zero_flag() {
    let mut cpu = M68000::<Mc68000>::new_no_reset();
    cpu.regs.d[0] = 0x19;
    cpu.regs.d[1] = 0x28;
    cpu.regs.sr.x = true;
    cpu.regs.sr.z = true;
    let mut mem: [u16; 1] = [0];
    assert!(cpu.execute_abcd(&mut mem[..], 0, Direction::RegisterToRegister, 1).is_ok());
    assert_eq!(cpu.regs.d[0], 0x48);
    assert!(!cpu.regs.sr.c && !cpu.regs.sr.z);
}

#[test]
fn bits_over_the_whole_word() {
    assert_eq!(bits(0xBEEF, 0, 15), 0xBEEF);
    assert_eq!(bits(0xBEEF, 3, 5), (0xBEEF >> 3) & 7);
    assert_eq!(bits(0x8000, 15, 15), 1);
}

#[test]
fn address_register_writes_keep_the_other_stack_pointer() {
    let mut cpu = M68000::<Mc68000>::new_no_reset();
    cpu.regs.sr.s = true;
    cpu.regs.usp = 0x100;
    cpu.regs.ssp = 0x200;
    cpu.a_mut(7, 0x300);
    assert_eq!(cpu.regs.ssp, 0x300);
    assert_eq!(cpu.regs.usp, 0x100);
    cpu.a_mut(3, 0x44);
    assert_eq!(cpu.a(3), 0x44);
    assert_eq!(cpu.regs.ssp, 0x300);
    assert_eq!(cpu.regs.usp, 0x100);
    cpu.regs.sr.s = false;
    cpu.a_mut(7, 0x500);
    assert_eq!(cpu.regs.usp, 0x500);
    assert_eq!(cpu.regs.ssp, 0x300);
}

#[test]
fn odd_program_counter_is_an_address_error() {
    let mut cpu = M68000::<Mc68000>::new_no_reset();
    cpu.regs.pc = 0x401;
    let before = cpu.regs;
    let mut mem = vec![0u8; 0x800];
    assert_eq!(cpu.interpreter_exception(&mut mem[..]), (0, Some(ADDRESS_ERROR)));
    assert_eq!(cpu.regs, before);
}

#[test]
fn movem_predecrement_stores_the_low_word() {
    let mut cpu = M68000::<Mc68000>::new_no_reset();
    cpu.regs.d[0] = 0x1234_5678;
    cpu.regs.a[0] = 8;
    let mut mem: [u16; 4] = [0; 4];
    assert!(cpu.execute_movem(&mut mem[..], Direction::RegisterToMemory, Size::Word, AM::Ariwpr(0), 0x8000).is_ok());
    assert_eq!(mem, [0, 0, 0, 0x5678]);
    assert_eq!(cpu.regs.a[0], 6);
}

#[test]
fn add_to_memory_stores_the_sum() {
    let mut cpu = M68000::<Mc68000>::new_no_reset();
    cpu.regs.d[0] = 0x0000_0003;
    cpu.regs.a[1] = 2;
    let mut mem: [u16; 2] = [0, 0x0005];
    assert!(cpu.execute_add(&mut mem[..], 0, Direction::DstEa, Size::Word, AM::Ari(1)).is_ok());
    assert_eq!(mem, [0, 0x0008]);
    assert_eq!(cpu.regs.a[1], 2);
}

#[test]
fn clr_of_memory_predecrements_then_stores_zero() {
    let mut cpu = M68000::<Mc68000>::new_no_reset();
    cpu.regs.a[2] = 4;
    let mut mem: [u16; 2] = [0xFFFF, 0xFFFF];
    assert!(cpu.execute_clr(&mut mem[..], Size::Word, AM::Ariwpr(2)).is_ok());
    assert_eq!(mem, [0xFFFF, 0]);
    assert_eq!(cpu.regs.a[2], 2);
    assert!(cpu.regs.sr.z);
}

#[test]
fn flat_block_stops_after_writing_into_itself() {
    let cpu = M68000::<Mc68000>::new_no_reset();
    let mut ci = CachedInterpreterFlatBlock::new(cpu, 16, 1, 0xF);
    // MOVEQ #1,D0 ; MOVE.W D0,$0000.W ; MOVEQ #2,D1 ; RTS
    let mut mem: [u16; 8] = [0x7001, 0x31C0, 0x0000, 0x7202, 0x4E75, 0, 0, 0];
    let r = ci.cached_interpreter_exception(&mut mem[..]);
    assert_eq!(r.1, None);
    assert_eq!(mem[0], 0x0001);
    assert_eq!(ci.m68000.regs.d[0], 1);
    assert_eq!(ci.m68000.regs.d[1], 0);
    assert_eq!(ci.m68000.regs.pc, 6);
}

#[test]
fn movem_to_registers_sign_extends_words() {
    let mut cpu = M68000::<Mc68000>::new_no_reset();
    cpu.regs.a[0] = 0;
    let mut mem: [u16; 2] = [0x8001, 0x0002];
    assert!(cpu.execute_movem(&mut mem[..], Direction::MemoryToRegister, Size::Word, AM::Ariwpo(0), 0x0003).is_ok());
    assert_eq!(cpu.regs.d[0], 0xFFFF_8001);
    assert_eq!(cpu.regs.d[1], 0x0000_0002);
    assert_eq!(cpu.regs.a[0], 4);
}

#[test]
fn movem_with_empty_list_transfers_nothing() {
    let mut cpu = M68000::<Mc68000>::new_no_reset();
    cpu.regs.a[0] = 1;
    let mut mem: [u16; 2] = [0, 0];
    assert!(cpu.execute_movem(&mut mem[..], Direction::RegisterToMemory, Size::Word, AM::Ari(0), 0).is_ok());
    assert_eq!(cpu.execute_movem(&mut mem[..], Direction::RegisterToMemory, Size::Word, AM::Ari(0), 1), Err(3));
}

#[test]
fn subx_in_memory_subtracts_the_source_from_the_destination() {
    let mut cpu = M68000::<Mc68000>::new_no_reset();
    cpu.regs.a[0] = 4;
    cpu.regs.a[1] = 2;
    cpu.regs.sr.x = true;
    let mut mem: [u16; 2] = [0x0010, 0x0003];
    assert!(cpu.execute_subx(&mut mem[..], 1, Size::Word, Direction::MemoryToMemory, 0).is_ok());
    assert_eq!(mem, [0x000C, 0x0003]);
    assert_eq!(cpu.regs.a[0], 2);
    assert_eq!(cpu.regs.a[1], 0);
}
