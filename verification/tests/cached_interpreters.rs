use m68000::{M68000, Registers};
use m68000::addressing_modes::AddressingMode as AM;
use m68000::assembler as emit;
use m68000::assembler::Condition;
use m68000::cached_interpreter_flat_block::CachedInterpreterFlatBlock;
use m68000::cached_interpreter_single_block::CachedInterpreterSingleBlock;
use m68000::cached_interpreter_trie_block::CachedInterpreterTrieBlock;
use m68000::cpu_details::Mc68000;
use m68000::instruction::{Direction, Size};

fn load(mem: &mut [u8], addr: usize, words: &[u16]) {
    for (i, w) in words.iter().enumerate() {
        mem[addr + 2 * i] = (w >> 8) as u8;
        mem[addr + 2 * i + 1] = *w as u8;
    }
}

/// A loop that sums 10 + 9 + ... + 1 in D0, then stops.
fn loop_program() -> Vec<u8> {
    let mut mem = vec![0u8; 0x2000];
    load(&mut mem, 0, &[0x0000, 0x1000, 0x0000, 0x0400]);
    let mut program = vec![emit::moveq(0, 0), emit::moveq(1, 9)];
    // 0x404: ADD.W D1,D0 ; ADDQ.W #1,D0 ; DBRA D1,0x404
    program.extend(emit::add(0, Direction::DstReg, Size::Word, AM::Drd(1)));
    program.extend(emit::addq(1, Size::Word, AM::Drd(0)));
    program.extend(emit::dbcc(Condition::F, 1, -6));
    program.extend(emit::stop(0x2700));
    load(&mut mem, 0x400, &program);
    mem
}

fn run_plain(mem: &mut Vec<u8>, steps: usize) -> Registers {
    let mut cpu = M68000::<Mc68000>::new();
    for _ in 0..steps {
        cpu.interpreter(&mut mem[..]);
    }
    cpu.regs
}

#[test]
fn cached_interpreters_compute_what_the_interpreter_computes() {
    let mut mem = loop_program();
    let expected = run_plain(&mut mem, 100);
    assert_eq!(expected.d[0] & 0xFFFF, 55);

    let mut mem = loop_program();
    let mut single = CachedInterpreterSingleBlock::new(M68000::<Mc68000>::new(), 0x400, 0x500);
    for _ in 0..100 {
        single.cached_interpreter(&mut mem[..]);
    }
    assert_eq!(single.m68000.regs, expected);
    assert!(single.m68000.stop);

    let mut mem = loop_program();
    let mut flat = CachedInterpreterFlatBlock::new(M68000::<Mc68000>::new(), 0x1000, 1, 0xFFF);
    for _ in 0..100 {
        flat.cached_interpreter(&mut mem[..]);
    }
    assert_eq!(flat.m68000.regs, expected);

    let mut mem = loop_program();
    let mut trie = CachedInterpreterTrieBlock::new(M68000::<Mc68000>::new());
    for _ in 0..100 {
        trie.cached_interpreter(&mut mem[..]);
    }
    assert_eq!(trie.m68000.regs, expected);
}

#[test]
fn flat_block_cache_sees_code_that_was_overwritten() {
    // 0x400: MOVEQ #1,D2 ; MOVE.W D3,(0x400).W ; BRA 0x400, where D3 holds the opcode of MOVEQ #2,D2.
    let mut mem = vec![0u8; 0x2000];
    load(&mut mem, 0, &[0x0000, 0x1000, 0x0000, 0x0400]);
    let mut program = vec![emit::moveq(2, 1)];
    program.extend(emit::move_(Size::Word, AM::AbsShort(0x0400), AM::Drd(3)));
    program.extend(emit::bra(-8));
    load(&mut mem, 0x400, &program);

    let mut flat = CachedInterpreterFlatBlock::new(M68000::<Mc68000>::new_no_reset(), 0x1000, 1, 0xFFF);
    flat.m68000.regs.pc = 0x400;
    flat.m68000.regs.d[3] = emit::moveq(2, 2) as u32;
    for _ in 0..4 {
        flat.cached_interpreter(&mut mem[..]);
    }
    assert_eq!(flat.m68000.regs.d[2], 2);
}

#[test]
fn stopped_cached_interpreters_do_nothing() {
    let mut mem = loop_program();
    let mut single = CachedInterpreterSingleBlock::new(M68000::<Mc68000>::new(), 0x400, 0x500);
    single.m68000.stop = true;
    assert_eq!(single.cached_interpreter_exception(&mut mem[..]), (0, None));
    let mut flat = CachedInterpreterFlatBlock::new(M68000::<Mc68000>::new(), 0x100, 1, 0xFF);
    flat.m68000.stop = true;
    assert_eq!(flat.cached_interpreter(&mut mem[..]), 0);
    let mut trie = CachedInterpreterTrieBlock::new(M68000::<Mc68000>::new());
    trie.m68000.stop = true;
    assert_eq!(trie.cached_interpreter_exception(&mut mem[..]), (0, None));
}
