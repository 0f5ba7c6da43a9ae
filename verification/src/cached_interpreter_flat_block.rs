//! Cached interpreter with a configurable flat array for block caching.

use vstd::prelude::*;
use crate::{CpuDetails, M68000, MemoryAccess, Registers};
use crate::exception::{Exception, spec_exception};
use crate::interpreter::InterpreterResult;
use crate::interpreter_fast::{spec_fetch_failed, lemma_moved_by_wrapped_length, lemma_length_of_wrapped, spec_block_run, spec_instruction_step, spec_decoded,
    spec_instruction_length, lemma_execution_run_push, lemma_fetch_is_execution, lemma_fetched_step, spec_dispatch, spec_execution_run,
    spec_fetch_execute, spec_fetched_registers, spec_pc_moved, spec_run_after_exceptions, spec_run_outcome, spec_step_exception, spec_total_cycles, spec_with_pc};
use crate::isa::{spec_ends_block, spec_isa};
use crate::memory_access::spec_wrap32;
use crate::arithmetic::{wrapping_add32, wrapping_sub32};
use crate::instruction::Instruction;
use crate::isa::Isa;

verus! {

/// A cached instruction and its length in bytes.
pub type CachedInstruction = (Instruction, u32);

/// Cached interpreter with a configurable flat array for block caching.
///
/// Indexes in the cache are computed with `(addr as usize) >> self.address_shift & self.address_mask`.
pub struct CachedInterpreterFlatBlock<CPU: CpuDetails> {
    pub m68000: M68000<CPU>,
    /// The blocks of instructions, indexed by the address of their first instruction.
    instruction_cache: Vec<Option<Vec<CachedInstruction>>>,
    /// The number of bits to shift the address by when indexing the cache.
    address_shift: usize,
    /// The mask to apply to the address after shifting.
    address_mask: usize,
}

/// The index of an address in a flat cache.
pub open spec fn spec_flat_index(addr: u32, shift: usize, mask: usize) -> usize {
    if shift >= 32 { 0 } else { ((addr >> shift) as usize) & mask }
}

/// Whether the cache entry of the given index is one of the given addresses.
pub open spec fn spec_invalidated(addresses: Seq<u32>, k: int, shift: usize, mask: usize) -> bool {
    exists|j: int| 0 <= j < addresses.len() && spec_flat_index(#[trigger] addresses[j], shift, mask) == k
}

/// A well-formed cached block at index `k`: it is not empty, it is indexed by the address of its
/// first instruction, no instruction but the last one ends a block, and each instruction is
/// decoded at its address and cached with its length.
pub open spec fn spec_block_wf(b: Seq<CachedInstruction>, k: int, shift: usize, mask: usize) -> bool {
    &&& b.len() > 0
    &&& spec_flat_index(b[0].0.pc, shift, mask) == k
    &&& forall|j: int| 0 <= j < b.len() - 1 ==> !spec_ends_block(spec_isa((#[trigger] b[j]).0.opcode))
    &&& forall|j: int| 0 <= j < b.len() ==> spec_decoded((#[trigger] b[j]).0)
        && b[j].1 == spec_wrap32(spec_instruction_length(b[j].0.opcode))
}

/// The type of write to memory done by the last executed instruction.
pub enum MemoryWriteType {
    /// No write has been performed.
    NoWrite,
    /// A byte or word write has been done.
    ByteWord(u32),
    /// A long write has been done.
    Long(u32),
}

/// A memory access struct which remembers the memory written by the core in the last execution.
pub struct CachedMemoryAccess<'m, M: MemoryAccess + ?Sized> {
    pub memory: &'m mut M,
    pub write_type: MemoryWriteType,
}

impl<M: MemoryAccess + ?Sized> MemoryAccess for CachedMemoryAccess<'_, M> {
    fn get_byte(&mut self, addr: u32) -> (r: Option<u8>)
        ensures
            final(self).write_type == old(self).write_type,
    {
        self.memory.get_byte(addr)
    }

    fn get_word(&mut self, addr: u32) -> (r: Option<u16>)
        ensures
            final(self).write_type == old(self).write_type,
    {
        self.memory.get_word(addr)
    }

    fn get_long(&mut self, addr: u32) -> (r: Option<u32>)
        ensures
            final(self).write_type == old(self).write_type,
    {
        self.memory.get_long(addr)
    }

    fn set_byte(&mut self, addr: u32, value: u8) -> (r: Option<()>)
        ensures
            r is Some ==> final(self).write_type == MemoryWriteType::ByteWord(addr),
            r is None ==> final(self).write_type == old(self).write_type,
    {
        self.memory.set_byte(addr, value)?;
        self.write_type = MemoryWriteType::ByteWord(addr);
        Some(())
    }

    fn set_word(&mut self, addr: u32, value: u16) -> (r: Option<()>)
        ensures
            r is Some ==> final(self).write_type == MemoryWriteType::ByteWord(addr),
            r is None ==> final(self).write_type == old(self).write_type,
    {
        self.memory.set_word(addr, value)?;
        self.write_type = MemoryWriteType::ByteWord(addr);
        Some(())
    }

    fn set_long(&mut self, addr: u32, value: u32) -> (r: Option<()>)
        ensures
            r is Some ==> final(self).write_type == MemoryWriteType::Long(addr),
            r is None ==> final(self).write_type == old(self).write_type,
    {
        self.memory.set_long(addr, value)?;
        self.write_type = MemoryWriteType::Long(addr);
        Some(())
    }

    fn reset_instruction(&mut self)
        ensures
            final(self).write_type == old(self).write_type,
    {
        self.memory.reset_instruction()
    }
}

impl<CPU: CpuDetails> CachedInterpreterFlatBlock<CPU> {
    /// The core.
    pub closed spec fn cpu(&self) -> M68000<CPU> {
        self.m68000
    }

    /// The number of entries of the cache.
    pub closed spec fn cache_len(&self) -> nat {
        self.instruction_cache@.len()
    }

    /// The invariant of the cache: every cached block is well-formed for its index.
    pub closed spec fn cache_wf(&self) -> bool {
        forall|k: int| 0 <= k < self.instruction_cache@.len() ==> (#[trigger] self.instruction_cache@[k] matches Some(b)
            ==> spec_block_wf(b@, k, self.address_shift, self.address_mask))
    }

    /// The block cached at index `k`, if any.
    pub closed spec fn cache_entry(&self, k: int) -> Option<Seq<CachedInstruction>> {
        match self.instruction_cache@[k] {
            Some(b) => Some(b@),
            None => None,
        }
    }

    /// The index in the cache of a block starting at `addr`.
    pub closed spec fn index_of(&self, addr: u32) -> int {
        spec_flat_index(addr, self.address_shift, self.address_mask) as int
    }

    /// Creates a new cached interpreter with the given cache size (number of addresses).
    ///
    /// Note that addresses are always even, so feel free to add one to your shift count if you want.
    /// You must adapt your mask and buffer size if you do so.
    pub fn new(m68000: M68000<CPU>, size: usize, shift: usize, mask: usize) -> (r: Self)
        ensures
            r.cpu() == m68000,
            r.cache_len() == size,
            r.cache_wf(),
    {
        let mut instruction_cache: Vec<Option<Vec<CachedInstruction>>> = Vec::new();
        let mut i: usize = 0;
        while i < size
            invariant
                i <= size,
                instruction_cache@.len() == i,
                forall|k: int| 0 <= k < i ==> #[trigger] instruction_cache@[k] == None::<Vec<CachedInstruction>>,
            decreases size - i,
        {
            instruction_cache.push(None);
            i = i + 1;
        }
        CachedInterpreterFlatBlock { m68000, instruction_cache, address_shift: shift, address_mask: mask }
    }

    /// Converts the given address to its instruction cache index.
    fn get_cache_index(&self, addr: u32) -> (r: usize)
        ensures
            r == spec_flat_index(addr, self.address_shift, self.address_mask),
    {
        if self.address_shift >= 32 { 0 } else { ((addr >> self.address_shift) as usize) & self.address_mask }
    }

    /// Empties the cache entries of the given addresses.
    fn invalidate_cache(&mut self, addresses: &Vec<u32>)
        ensures
            final(self).m68000 == old(self).m68000,
            final(self).cache_len() == old(self).cache_len(),
            final(self).address_shift == old(self).address_shift,
            final(self).address_mask == old(self).address_mask,
            forall|k: int| 0 <= k < old(self).instruction_cache@.len() ==> #[trigger] final(self).instruction_cache@[k] == (
                if spec_invalidated(addresses@, k, old(self).address_shift, old(self).address_mask) { None } else { old(self).instruction_cache@[k] }),
    {
        let mut i: usize = 0;
        while i < addresses.len()
            invariant
                self.m68000 == old(self).m68000,
                self.instruction_cache@.len() == old(self).instruction_cache@.len(),
                self.address_shift == old(self).address_shift,
                self.address_mask == old(self).address_mask,
                i <= addresses.len(),
                forall|k: int| 0 <= k < old(self).instruction_cache@.len() ==> #[trigger] self.instruction_cache@[k] == (
                    if spec_invalidated(addresses@.take(i as int), k, self.address_shift, self.address_mask) { None } else { old(self).instruction_cache@[k] }),
            decreases addresses.len() - i,
        {
            proof {
                assert(addresses@.take(i + 1) =~= addresses@.take(i as int).push(addresses@[i as int]));
            }
            let ghost before = self.instruction_cache@;
            let index = self.get_cache_index(addresses[i]);
            if index < self.instruction_cache.len() {
                self.instruction_cache.set(index, None);
            }
            proof {
                let prev = addresses@.take(i as int);
                let next = addresses@.take(i + 1);
                assert forall|k: int| 0 <= k < old(self).instruction_cache@.len() implies #[trigger] self.instruction_cache@[k] == (
                    if spec_invalidated(next, k, self.address_shift, self.address_mask) { None } else { old(self).instruction_cache@[k] }) by {
                    if spec_invalidated(prev, k, self.address_shift, self.address_mask) {
                        let j = choose|j: int| 0 <= j < prev.len() && spec_flat_index(#[trigger] prev[j], self.address_shift, self.address_mask) == k;
                        assert(next[j] == prev[j]);
                    }
                    if k == index as int {
                        assert(next[i as int] == addresses@[i as int]);
                    }
                    if spec_invalidated(next, k, self.address_shift, self.address_mask) && k != index as int {
                        let j = choose|j: int| 0 <= j < next.len() && spec_flat_index(#[trigger] next[j], self.address_shift, self.address_mask) == k;
                        assert(j < i);
                        assert(prev[j] == next[j]);
                    }
                }
            }
            i = i + 1;
        }
        proof {
            assert(addresses@.take(i as int) =~= addresses@);
        }
    }

    /// Runs the cached interpreter loop once, adding the exception that occured to the pending exceptions.
    ///
    /// Returns the number of cycles executed.
    pub fn cached_interpreter<M: MemoryAccess + ?Sized>(&mut self, memory: &mut M) -> (r: usize)
        requires
            old(self).cpu().wf(),
            old(self).cache_wf(),
        ensures
            final(self).cpu().wf(),
            final(self).cache_wf(),
            old(self).cpu().stop ==> r == 0 && final(self).cpu().regs == old(self).cpu().regs,
            !old(self).cpu().stop && old(self).cpu().pending().len() == 0 ==>
                exists|regs: Seq<Registers>, steps: Seq<(usize, Option<u8>)>, e: Option<u8>|
                    #![trigger spec_run_outcome(regs, steps, final(self).cpu().regs, (r, e))]
                    spec_execution_run::<CPU>(regs, steps) && regs[0] == old(self).cpu().regs
                    && spec_run_outcome(regs, steps, final(self).cpu().regs, (r, e))
                    && (e matches Some(v) ==> final(self).cpu().pending().contains(spec_exception(v))),
    {
        let (cycles, exception) = self.cached_interpreter_exception(memory);
        let ghost regs1 = self.m68000.regs;
        if let Some(e) = exception {
            self.m68000.exception(crate::exception::Exception::from(e));
        }
        proof {
            if !old(self).m68000.stop && old(self).m68000.pending().len() == 0 {
                let (regs, steps) = choose|regs: Seq<Registers>, steps: Seq<(usize, Option<u8>)>|
                    #[trigger] spec_execution_run::<CPU>(regs, steps) && regs[0] == old(self).m68000.regs
                    && spec_run_outcome(regs, steps, regs1, (cycles, exception));
                assert(self.m68000.regs == regs1);
                if let Some(e) = exception {
                    assert(self.m68000.pending().to_set().contains(spec_exception(e)));
                    assert(self.m68000.pending().contains(spec_exception(e)));
                }
                assert(spec_run_outcome(regs, steps, self.m68000.regs, (cycles, exception)));
            }
        }
        cycles
    }

    /// Runs the instructions of a cached block in their order until one raises an exception, adding
    /// the addresses they write to to `invalidated_addresses`. Runs nothing when exceptions are pending.
    ///
    /// Returns the number of cycles executed and the exception that occured if any.
    fn run_block<M: MemoryAccess + ?Sized>(m68000: &mut M68000<CPU>, cached_memory: &mut CachedMemoryAccess<M>, block: &Vec<CachedInstruction>,
        invalidated_addresses: &mut Vec<u32>) -> (r: (usize, Option<u8>))
        requires
            old(m68000).wf(),
            block@.len() > 0,
            forall|j: int| 0 <= j < block@.len() ==> spec_decoded((#[trigger] block@[j]).0)
                && block@[j].1 == spec_wrap32(spec_instruction_length(block@[j].0.opcode)),
        ensures
            final(m68000).wf(),
            forall|e: Exception| final(m68000).pending().contains(e) ==> old(m68000).pending().contains(e),
            final(m68000).fetches == old(m68000).fetches,
            old(m68000).exceptions@.len() > 0 ==> r == (0usize, None::<u8>) && final(m68000).regs == old(m68000).regs
                && final(m68000).exceptions@ == old(m68000).exceptions@,
            old(m68000).exceptions@.len() == 0 ==> final(m68000).exceptions@.len() == 0
                && exists|regs: Seq<Registers>, steps: Seq<(usize, Option<u8>)>|
                    #[trigger] spec_block_run::<CPU>(regs, steps, block@) && spec_execution_run::<CPU>(regs, steps)
                    && regs[0] == old(m68000).regs && regs.last() == final(m68000).regs
                    && r == (spec_total_cycles(steps), steps.last().1)
                    && spec_run_outcome(regs, steps, final(m68000).regs, r),
    {
        if m68000.exceptions.len() > 0 {
            return (0, None);
        }
        let mut cycle_count: usize = 0;
        let ghost mut regs_seq: Seq<Registers> = seq![m68000.regs];
        let ghost mut steps_seq: Seq<(usize, Option<u8>)> = Seq::empty();
        let mut i: usize = 0;
        while i < block.len()
            invariant
                m68000.wf(),
                m68000.exceptions@.len() == 0,
                forall|e: Exception| m68000.pending().contains(e) ==> old(m68000).pending().contains(e),
                old(m68000).exceptions@.len() == 0,
                m68000.fetches == old(m68000).fetches,
                block@.len() > 0,
                forall|j: int| 0 <= j < block@.len() ==> spec_decoded((#[trigger] block@[j]).0)
                    && block@[j].1 == spec_wrap32(spec_instruction_length(block@[j].0.opcode)),
                spec_execution_run::<CPU>(regs_seq, steps_seq),
                regs_seq[0] == old(m68000).regs && regs_seq.last() == m68000.regs,
                cycle_count == spec_total_cycles(steps_seq),
                steps_seq.len() == i,
                i <= block@.len(),
                forall|k: int| 0 <= k < steps_seq.len() ==> (#[trigger] steps_seq[k]).1 is None,
                forall|k: int| 0 <= k < steps_seq.len() ==> #[trigger] spec_instruction_step::<CPU>(regs_seq[k], regs_seq[k + 1], steps_seq[k], block@[k].0),
            decreases block.len() - i,
        {
            let ghost before = m68000.regs;
            let (instruction, length) = block[i];
            m68000.regs.pc = wrapping_add32(m68000.regs.pc, length);
            proof {
                assert(block@[i as int] == (instruction, length));
                lemma_moved_by_wrapped_length(before, spec_instruction_length(instruction.opcode));
                assert(m68000.regs == spec_fetched_registers(before, instruction.opcode));
            }
            let (cycles, exception) = m68000.execute_instruction(cached_memory, &instruction);
            proof {
                let res = choose|res: InterpreterResult| #[trigger] spec_dispatch::<CPU>(spec_fetched_registers(before, instruction.opcode),
                    instruction.opcode, m68000.regs, spec_isa(instruction.opcode), instruction, res)
                    && exception == spec_step_exception(res, before.sr.t, instruction.opcode)
                    && cycles == (match res { Ok(c) => c, Err(_) => 0usize });
                lemma_fetched_step::<CPU>(before, m68000.regs, (cycles, exception), instruction, res);
                assert(spec_instruction_step::<CPU>(before, m68000.regs, (cycles, exception), instruction));
                let prev_regs = regs_seq;
                let prev_steps = steps_seq;
                lemma_execution_run_push::<CPU>(regs_seq, steps_seq, m68000.regs, (cycles, exception));
                regs_seq = regs_seq.push(m68000.regs);
                steps_seq = steps_seq.push((cycles, exception));
                assert forall|k: int| 0 <= k < steps_seq.len() implies #[trigger] spec_instruction_step::<CPU>(regs_seq[k], regs_seq[k + 1], steps_seq[k], block@[k].0) by {
                    if k < prev_steps.len() {
                        assert(regs_seq[k] == prev_regs[k] && regs_seq[k + 1] == prev_regs[k + 1] && steps_seq[k] == prev_steps[k]);
                    }
                }
            }
            cycle_count = cycle_count.saturating_add(cycles);
            match cached_memory.write_type {
                MemoryWriteType::ByteWord(addr) => {
                    invalidated_addresses.push(addr);
                },
                MemoryWriteType::Long(addr) => {
                    invalidated_addresses.push(addr);
                    invalidated_addresses.push(wrapping_add32(addr, 2));
                },
                MemoryWriteType::NoWrite => {},
            }
            cached_memory.write_type = MemoryWriteType::NoWrite;
            if exception.is_some() {
                proof {
                    assert(spec_run_outcome(regs_seq, steps_seq, m68000.regs, (cycle_count, exception)));
                    assert(spec_block_run::<CPU>(regs_seq, steps_seq, block@));
                }
                return (cycle_count, exception);
            }
            i = i + 1;
        }
        proof {
            assert(steps_seq[steps_seq.len() - 1].1 is None);
            assert(spec_run_outcome(regs_seq, steps_seq, m68000.regs, (cycle_count, None::<u8>)));
            assert(spec_block_run::<CPU>(regs_seq, steps_seq, block@));
        }
        (cycle_count, None)
    }

    /// Runs the cached interpreter loop once: executes the cached block at the program counter, or
    /// decodes, executes and caches a new block.
    ///
    /// Returns the number of cycles executed and the exception that occured if any.
    #[verifier::rlimit(80)]
    #[verifier::spinoff_prover]
    pub fn cached_interpreter_exception<M: MemoryAccess + ?Sized>(&mut self, memory: &mut M) -> (r: (usize, Option<u8>))
        requires
            old(self).cpu().wf(),
            old(self).cache_wf(),
        ensures
            final(self).cpu().wf(),
            final(self).cache_wf(),
            old(self).cpu().stop ==> r == (0usize, None::<u8>) && *final(self) == *old(self),
            forall|e: Exception| final(self).cpu().pending().contains(e) ==> old(self).cpu().pending().contains(e),
            final(self).cache_len() == old(self).cache_len(),
            forall|k: int| 0 <= k < final(self).cache_len() && #[trigger] final(self).cache_entry(k) != old(self).cache_entry(k)
                && !old(self).cpu().stop && old(self).cpu().pending().len() == 0 && final(self).cache_entry(k) is Some
                ==> k == old(self).index_of(old(self).cpu().regs.pc) && final(self).cache_entry(k)->0[0].0.pc == old(self).cpu().regs.pc,
            forall|k: int, l: int| 0 <= k < final(self).cache_len() && 0 <= l < final(self).cache_len()
                && #[trigger] final(self).cache_entry(k) != old(self).cache_entry(k) && final(self).cache_entry(k) is Some
                && #[trigger] final(self).cache_entry(l) != old(self).cache_entry(l) && final(self).cache_entry(l) is Some ==> k == l,
            !old(self).cpu().stop && old(self).cpu().pending().len() == 0 ==>
                exists|regs: Seq<Registers>, steps: Seq<(usize, Option<u8>)>|
                    #[trigger] spec_execution_run::<CPU>(regs, steps) && regs[0] == old(self).cpu().regs
                    && spec_run_outcome(regs, steps, final(self).cpu().regs, r),
            !old(self).cpu().stop && old(self).cpu().pending().len() == 0 && old(self).index_of(old(self).cpu().regs.pc) < old(self).cache_len()
                && old(self).cache_entry(old(self).index_of(old(self).cpu().regs.pc)) is Some
                ==> final(self).cpu().fetches == old(self).cpu().fetches,
            !old(self).cpu().stop && old(self).cpu().pending().len() == 0 && old(self).index_of(old(self).cpu().regs.pc) < old(self).cache_len()
                && old(self).cache_entry(old(self).index_of(old(self).cpu().regs.pc)) is Some ==>
                exists|regs: Seq<Registers>, steps: Seq<(usize, Option<u8>)>|
                    #[trigger] spec_block_run::<CPU>(regs, steps, old(self).cache_entry(old(self).index_of(old(self).cpu().regs.pc))->0)
                    && regs[0] == old(self).cpu().regs
                    && regs.last() == final(self).cpu().regs && r == (spec_total_cycles(steps), steps.last().1),
            !old(self).cpu().stop && old(self).cpu().pending().len() == 0 && old(self).index_of(old(self).cpu().regs.pc) < old(self).cache_len()
                && old(self).cache_entry(old(self).index_of(old(self).cpu().regs.pc)) is None ==>
                (final(self).cpu().fetches@.len() > old(self).cpu().fetches@.len()
                    && final(self).cpu().fetches@[old(self).cpu().fetches@.len() as int].0 == old(self).cpu().regs.pc)
                || (final(self).cpu().fetches == old(self).cpu().fetches && r.0 == 0
                    && spec_fetch_failed(old(self).cpu().regs.pc, r.1, old(self).cpu().refused@, final(self).cpu().refused@, final(self).cpu().regs.pc)),
            !old(self).cpu().stop ==>
                exists|regs: Seq<Registers>, steps: Seq<(usize, Option<u8>)>|
                    #[trigger] spec_execution_run::<CPU>(regs, steps) && regs[0].d == old(self).cpu().regs.d
                    && spec_run_after_exceptions(regs, steps, final(self).cpu().regs, r, final(self).cpu().pending().len() > 0),
    {
        if self.m68000.stop {
            return (0, None);
        }
        let ghost law = old(self).m68000.exceptions@.len() == 0;
        let mut cycle_count: usize = 0;
        if self.m68000.exceptions.len() > 0 {
            cycle_count = self.m68000.process_pending_exceptions(memory);
        }
        let ghost mid = self.m68000.regs;
        let ghost law1 = self.m68000.exceptions@.len() == 0;
        let cache_index = self.get_cache_index(self.m68000.regs.pc);
        if cache_index >= self.instruction_cache.len() {
            let ghost before = self.m68000.regs;
            let r = self.m68000.interpreter_exception(memory);
            let total = (cycle_count.saturating_add(r.0), r.1);
            proof {
                if law {
                    lemma_fetch_is_execution::<CPU>(before, self.m68000.regs, r);
                    let s0 = Seq::<(usize, Option<u8>)>::empty();
                    if spec_run_outcome(seq![before], s0, self.m68000.regs, r) {
                        assert(spec_execution_run::<CPU>(seq![before], s0));
                    } else {
                        assert(spec_execution_run::<CPU>(seq![before, self.m68000.regs], seq![r]));
                    }
                    assert(total == r);
                }
                let (m2, step) = choose|m2: Registers, step: (usize, Option<u8>)| m2.d == before.d
                    && #[trigger] spec_fetch_execute::<CPU>(m2, self.m68000.regs, step) && r.1 == step.1 && r.0 >= step.0;
                lemma_fetch_is_execution::<CPU>(m2, self.m68000.regs, step);
                let s0 = Seq::<(usize, Option<u8>)>::empty();
                if spec_run_outcome(seq![m2], s0, self.m68000.regs, step) {
                    assert(spec_execution_run::<CPU>(seq![m2], s0));
                    assert(spec_run_after_exceptions(seq![m2], s0, self.m68000.regs, total, self.m68000.pending().len() > 0));
                } else {
                    assert(spec_execution_run::<CPU>(seq![m2, self.m68000.regs], seq![step]));
                    assert(spec_total_cycles(seq![step]) == step.0) by {
                        assert(seq![step].drop_last() =~= Seq::<(usize, Option<u8>)>::empty());
                    }
                    assert(spec_run_after_exceptions(seq![m2, self.m68000.regs], seq![step], self.m68000.regs, total, self.m68000.pending().len() > 0));
                }
            }
            return total;
        }
        let (cycles, exception) = if self.instruction_cache[cache_index].is_some() {
            self.run_cached(memory, cache_index)
        } else {
            self.run_uncached(memory, cache_index)
        };
        proof {
            if law {
                assert(cycle_count == 0);
                assert(cycle_count.saturating_add(cycles) == cycles);
            }
            if !law1 {
                let s0 = Seq::<(usize, Option<u8>)>::empty();
                assert(spec_execution_run::<CPU>(seq![mid], s0));
                assert(spec_run_after_exceptions(seq![mid], s0, self.m68000.regs, (cycle_count.saturating_add(cycles), exception), self.m68000.pending().len() > 0));
            } else {
                let (regs, steps) = choose|regs: Seq<Registers>, steps: Seq<(usize, Option<u8>)>|
                    #[trigger] spec_execution_run::<CPU>(regs, steps) && regs[0] == mid
                    && spec_run_outcome(regs, steps, self.m68000.regs, (cycles, exception));
                assert(spec_run_after_exceptions(regs, steps, self.m68000.regs, (cycle_count.saturating_add(cycles), exception), self.m68000.pending().len() > 0));
            }
        }
        (cycle_count.saturating_add(cycles), exception)
    }

    /// Runs the block cached at the given index, then empties the cache entries written to.
    fn run_cached<M: MemoryAccess + ?Sized>(&mut self, memory: &mut M, cache_index: usize) -> (r: (usize, Option<u8>))
        requires
            old(self).cpu().wf(),
            old(self).cache_wf(),
            cache_index < old(self).cache_len(),
            cache_index as int == old(self).index_of(old(self).cpu().regs.pc),
            old(self).cache_entry(cache_index as int) is Some,
        ensures
            final(self).cpu().wf(),
            final(self).cache_wf(),
            forall|e: Exception| final(self).cpu().pending().contains(e) ==> old(self).cpu().pending().contains(e),
            final(self).cache_len() == old(self).cache_len(),
            final(self).index_of(old(self).cpu().regs.pc) == old(self).index_of(old(self).cpu().regs.pc),
            forall|k: int| 0 <= k < final(self).cache_len() && #[trigger] final(self).cache_entry(k) != old(self).cache_entry(k)
                ==> final(self).cache_entry(k) is None,
            final(self).cpu().fetches == old(self).cpu().fetches,
            old(self).cpu().pending().len() > 0 ==> r == (0usize, None::<u8>) && final(self).cpu().regs == old(self).cpu().regs
                && final(self).cpu().pending() == old(self).cpu().pending(),
            old(self).cpu().pending().len() == 0 ==> exists|regs: Seq<Registers>, steps: Seq<(usize, Option<u8>)>|
                #[trigger] spec_block_run::<CPU>(regs, steps, old(self).cache_entry(cache_index as int)->0)
                && spec_execution_run::<CPU>(regs, steps)
                && regs[0] == old(self).cpu().regs && regs.last() == final(self).cpu().regs
                && r == (spec_total_cycles(steps), steps.last().1)
                && spec_run_outcome(regs, steps, final(self).cpu().regs, r),
    {
        let mut cached_memory = CachedMemoryAccess { memory, write_type: MemoryWriteType::NoWrite };
        let mut invalidated_addresses: Vec<u32> = Vec::new();
        let nothing_pending = self.m68000.exceptions.len() == 0;
        let ghost entry = self.instruction_cache@[cache_index as int];
        proof {
            assert(self.instruction_cache@[cache_index as int] matches Some(b)
                ==> spec_block_wf(b@, cache_index as int, self.address_shift, self.address_mask));
        }
        let (cycles, exception) = match &self.instruction_cache[cache_index] {
            Some(block) => {
                proof {
                    assert(old(self).cache_entry(cache_index as int) == Some(block@));
                }
                let r = Self::run_block(&mut self.m68000, &mut cached_memory, block, &mut invalidated_addresses);
                proof {
                    if nothing_pending {
                        let (regs, steps) = choose|regs: Seq<Registers>, steps: Seq<(usize, Option<u8>)>|
                            #[trigger] spec_block_run::<CPU>(regs, steps, block@) && spec_execution_run::<CPU>(regs, steps)
                            && regs[0] == old(self).m68000.regs && regs.last() == self.m68000.regs
                            && r == (spec_total_cycles(steps), steps.last().1)
                            && spec_run_outcome(regs, steps, self.m68000.regs, r);
                        assert(spec_block_run::<CPU>(regs, steps, old(self).cache_entry(cache_index as int)->0));
                    }
                }
                r
            },
            None => (0, None),
        };
        if exception.is_some() || !nothing_pending {
            return (cycles, exception);
        }
        self.invalidate_cache(&invalidated_addresses);
        proof {
            assert forall|k: int| 0 <= k < self.instruction_cache@.len() implies
                (#[trigger] self.instruction_cache@[k] matches Some(b) ==> spec_block_wf(b@, k, self.address_shift, self.address_mask)) by {
                assert(old(self).instruction_cache@[k] matches Some(b) ==> spec_block_wf(b@, k, self.address_shift, self.address_mask));
            }
            assert forall|k: int| 0 <= k < self.cache_len() && #[trigger] self.cache_entry(k) != old(self).cache_entry(k)
                implies self.cache_entry(k) is None by {
            }
        }
        (cycles, exception)
    }

    /// Decodes, executes and caches a new block at the given index.
    fn run_uncached<M: MemoryAccess + ?Sized>(&mut self, memory: &mut M, cache_index: usize) -> (r: (usize, Option<u8>))
        requires
            old(self).cpu().wf(),
            old(self).cache_wf(),
            cache_index < old(self).cache_len(),
            cache_index as int == old(self).index_of(old(self).cpu().regs.pc),
            old(self).cache_entry(cache_index as int) is None,
        ensures
            final(self).cpu().wf(),
            final(self).cache_wf(),
            forall|e: Exception| final(self).cpu().pending().contains(e) ==> old(self).cpu().pending().contains(e),
            final(self).cache_len() == old(self).cache_len(),
            final(self).index_of(old(self).cpu().regs.pc) == old(self).index_of(old(self).cpu().regs.pc),
            forall|k: int| 0 <= k < final(self).cache_len() && #[trigger] final(self).cache_entry(k) != old(self).cache_entry(k)
                && final(self).cache_entry(k) is Some ==> k == cache_index && final(self).cache_entry(k)->0[0].0.pc == old(self).cpu().regs.pc,
            old(self).cpu().pending().len() > 0 ==> r == (0usize, None::<u8>) && final(self).cpu().regs == old(self).cpu().regs
                && final(self).cpu().pending() == old(self).cpu().pending() && final(self).cpu().fetches == old(self).cpu().fetches,
            old(self).cpu().pending().len() == 0 ==> (exists|regs: Seq<Registers>, steps: Seq<(usize, Option<u8>)>|
                    #[trigger] spec_execution_run::<CPU>(regs, steps) && regs[0] == old(self).cpu().regs
                    && spec_run_outcome(regs, steps, final(self).cpu().regs, r))
                && ((final(self).cpu().fetches@.len() > old(self).cpu().fetches@.len()
                    && final(self).cpu().fetches@[old(self).cpu().fetches@.len() as int].0 == old(self).cpu().regs.pc)
                    || (final(self).cpu().fetches == old(self).cpu().fetches && r.0 == 0
                    && spec_fetch_failed(old(self).cpu().regs.pc, r.1, old(self).cpu().refused@, final(self).cpu().refused@, final(self).cpu().regs.pc))),
    {
        let mut cached_memory = CachedMemoryAccess { memory, write_type: MemoryWriteType::NoWrite };
        let mut invalidated_addresses: Vec<u32> = Vec::new();
        let (cycles, exception, built) = Self::build_block(&mut self.m68000, &mut cached_memory, &mut invalidated_addresses);
        match built {
            Some(block) => {
                self.invalidate_cache(&invalidated_addresses);
                self.instruction_cache.set(cache_index, Some(block));
                proof {
                    assert forall|k: int| 0 <= k < self.instruction_cache@.len() implies
                        (#[trigger] self.instruction_cache@[k] matches Some(b) ==> spec_block_wf(b@, k, self.address_shift, self.address_mask)) by {
                        assert(old(self).instruction_cache@[k] matches Some(b) ==> spec_block_wf(b@, k, self.address_shift, self.address_mask));
                    }
                }
                (cycles, None)
            },
            None => (cycles, exception),
        }
    }

    /// Decodes and executes the instructions from the program counter until one ends a block, adding
    /// the addresses they write to to `invalidated_addresses`. Returns the number of cycles executed,
    /// the exception that occured if any, and the block to cache: none when exceptions are pending,
    /// when an exception occured or when an instruction wrote into the block.
    fn build_block<M: MemoryAccess + ?Sized>(m68000: &mut M68000<CPU>, cached_memory: &mut CachedMemoryAccess<M>,
        invalidated_addresses: &mut Vec<u32>) -> (r: (usize, Option<u8>, Option<Vec<CachedInstruction>>))
        requires
            old(m68000).wf(),
        ensures
            final(m68000).wf(),
            forall|e: Exception| final(m68000).pending().contains(e) ==> old(m68000).pending().contains(e),
            old(m68000).exceptions@.len() > 0 ==> r.0 == 0 && r.1 is None && r.2 is None && final(m68000).regs == old(m68000).regs
                && final(m68000).exceptions@ == old(m68000).exceptions@ && final(m68000).fetches == old(m68000).fetches,
            old(m68000).exceptions@.len() == 0 ==> final(m68000).exceptions@.len() == 0
                && (exists|regs: Seq<Registers>, steps: Seq<(usize, Option<u8>)>|
                    #[trigger] spec_execution_run::<CPU>(regs, steps) && regs[0] == old(m68000).regs
                    && spec_run_outcome(regs, steps, final(m68000).regs, (r.0, r.1)))
                && ((final(m68000).fetches@.len() > old(m68000).fetches@.len()
                    && final(m68000).fetches@[old(m68000).fetches@.len() as int].0 == old(m68000).regs.pc)
                    || (final(m68000).fetches == old(m68000).fetches && r.0 == 0
                    && spec_fetch_failed(old(m68000).regs.pc, r.1, old(m68000).refused@, final(m68000).refused@, final(m68000).regs.pc))),
            r.2 matches Some(b) ==> r.1 is None && b@.len() > 0 && b@[0].0.pc == old(m68000).regs.pc
                && (forall|j: int| 0 <= j < b@.len() - 1 ==> !spec_ends_block(spec_isa((#[trigger] b@[j]).0.opcode)))
                && (forall|j: int| 0 <= j < b@.len() ==> spec_decoded((#[trigger] b@[j]).0)
                    && b@[j].1 == spec_wrap32(spec_instruction_length(b@[j].0.opcode))),
    {
        if m68000.exceptions.len() > 0 {
            return (0, None, None);
        }
        let mut cycle_count: usize = 0;
        let ghost mut regs_seq: Seq<Registers> = seq![m68000.regs];
        let ghost mut steps_seq: Seq<(usize, Option<u8>)> = Seq::empty();
        let mut block: Vec<CachedInstruction> = Vec::new();
        let start_pc = m68000.regs.pc;
        let mut steps: usize = 0;
        while steps < usize::MAX
            invariant_except_break
                forall|j: int| 0 <= j < block@.len() ==> !spec_ends_block(spec_isa((#[trigger] block@[j]).0.opcode)),
            invariant
                m68000.wf(),
                m68000.exceptions@.len() == 0,
                old(m68000).exceptions@.len() == 0,
                forall|e: Exception| m68000.pending().contains(e) ==> old(m68000).pending().contains(e),
                start_pc == old(m68000).regs.pc,
                steps > 0 ==> block@.len() > 0,
                block@.len() == 0 ==> m68000.regs.pc == start_pc && m68000.fetches == old(m68000).fetches && m68000.refused == old(m68000).refused,
                block@.len() > 0 ==> block@[0].0.pc == start_pc && m68000.fetches@.len() > old(m68000).fetches@.len()
                    && m68000.fetches@[old(m68000).fetches@.len() as int].0 == start_pc,
                forall|j: int| 0 <= j < block@.len() ==> spec_decoded((#[trigger] block@[j]).0)
                    && block@[j].1 == spec_wrap32(spec_instruction_length(block@[j].0.opcode)),
                spec_execution_run::<CPU>(regs_seq, steps_seq),
                regs_seq[0] == old(m68000).regs && regs_seq.last() == m68000.regs,
                cycle_count == spec_total_cycles(steps_seq),
                steps_seq.len() == block@.len(),
                forall|k: int| 0 <= k < steps_seq.len() ==> (#[trigger] steps_seq[k]).1 is None,
            ensures
                block@.len() > 0,
                block@[0].0.pc == start_pc,
                forall|j: int| 0 <= j < block@.len() - 1 ==> !spec_ends_block(spec_isa((#[trigger] block@[j]).0.opcode)),
                forall|j: int| 0 <= j < block@.len() ==> spec_decoded((#[trigger] block@[j]).0)
                    && block@[j].1 == spec_wrap32(spec_instruction_length(block@[j].0.opcode)),
                m68000.wf(),
                m68000.exceptions@.len() == 0,
                forall|e: Exception| m68000.pending().contains(e) ==> old(m68000).pending().contains(e),
                m68000.fetches@.len() > old(m68000).fetches@.len() && m68000.fetches@[old(m68000).fetches@.len() as int].0 == start_pc,
                spec_execution_run::<CPU>(regs_seq, steps_seq),
                regs_seq[0] == old(m68000).regs && regs_seq.last() == m68000.regs,
                cycle_count == spec_total_cycles(steps_seq),
                steps_seq.len() == block@.len(),
                forall|k: int| 0 <= k < steps_seq.len() ==> (#[trigger] steps_seq[k]).1 is None,
            decreases usize::MAX - steps,
        {
            steps = steps + 1;
            let ghost before = m68000.regs;
            let pc = m68000.regs.pc;
            let instruction = match m68000.get_next_instruction(cached_memory) {
                Ok(i) => i,
                Err(e) => {
                    proof {
                        assert(m68000.regs == spec_with_pc(before, m68000.regs.pc));
                        if steps_seq.len() > 0 {
                            assert(steps_seq[steps_seq.len() - 1].1 is None);
                        }
                        assert(spec_run_outcome(regs_seq, steps_seq, m68000.regs, (cycle_count, Some(e))));
                    }
                    return (cycle_count, Some(e), None);
                },
            };
            let length = wrapping_sub32(m68000.regs.pc, pc);
            proof {
                assert(m68000.regs == spec_fetched_registers(before, instruction.opcode));
                lemma_length_of_wrapped(pc, spec_instruction_length(instruction.opcode));
            }
            let (cycles, exception) = m68000.execute_instruction(cached_memory, &instruction);
            proof {
                let res = choose|res: InterpreterResult| #[trigger] spec_dispatch::<CPU>(spec_fetched_registers(before, instruction.opcode),
                    instruction.opcode, m68000.regs, spec_isa(instruction.opcode), instruction, res)
                    && exception == spec_step_exception(res, before.sr.t, instruction.opcode)
                    && cycles == (match res { Ok(c) => c, Err(_) => 0usize });
                lemma_fetched_step::<CPU>(before, m68000.regs, (cycles, exception), instruction, res);
                lemma_execution_run_push::<CPU>(regs_seq, steps_seq, m68000.regs, (cycles, exception));
                regs_seq = regs_seq.push(m68000.regs);
                steps_seq = steps_seq.push((cycles, exception));
            }
            cycle_count = cycle_count.saturating_add(cycles);
            proof {
                assert(spec_run_outcome(regs_seq, steps_seq, m68000.regs, (cycle_count, exception)));
            }
            match cached_memory.write_type {
                MemoryWriteType::ByteWord(addr) => {
                    invalidated_addresses.push(addr);
                    if addr >= start_pc && addr < m68000.regs.pc {
                        return (cycle_count, exception, None);
                    }
                },
                MemoryWriteType::Long(addr) => {
                    invalidated_addresses.push(addr);
                    let addr2 = wrapping_add32(addr, 2);
                    invalidated_addresses.push(addr2);
                    if addr >= start_pc && addr2 < m68000.regs.pc {
                        return (cycle_count, exception, None);
                    }
                },
                MemoryWriteType::NoWrite => {},
            }
            cached_memory.write_type = MemoryWriteType::NoWrite;
            if exception.is_some() {
                return (cycle_count, exception, None);
            }
            block.push((instruction, length));
            if Isa::from(instruction.opcode).ends_block() {
                break;
            }
        }
        proof {
            assert(steps_seq[steps_seq.len() - 1].1 is None);
            assert(spec_run_outcome(regs_seq, steps_seq, m68000.regs, (cycle_count, None::<u8>)));
        }
        (cycle_count, None, Some(block))
    }
}

} // verus!
