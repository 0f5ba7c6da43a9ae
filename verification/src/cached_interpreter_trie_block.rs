//! Cached interpreter with a trie for block caching.

use vstd::prelude::*;
use crate::{CpuDetails, M68000, MemoryAccess, Registers};
use crate::exception::{Exception, spec_exception};
use crate::interpreter::InterpreterResult;
use crate::interpreter_fast::{spec_fetch_failed, lemma_execution_run_push, lemma_fetched_step, lemma_length_of_wrapped, lemma_moved_by_wrapped_length, spec_block_run,
    spec_decoded, spec_dispatch, spec_execution_run, spec_instruction_length, spec_instruction_step, spec_run_after_exceptions,
    spec_fetched_registers, spec_run_outcome, spec_step_exception, spec_total_cycles, spec_with_pc};
use crate::memory_access::spec_wrap32;
use crate::isa::spec_isa;
use crate::arithmetic::{wrapping_add32, wrapping_sub32};
use crate::instruction::Instruction;
use crate::isa::Isa;

verus! {

/// The number of bits of the address that index a subcache.
pub const SUBCACHE_BITS: u32 = 12;
/// The number of entries of a subcache.
pub const SUBCACHE_SIZE: usize = 0x1000;
/// The number of subcaches: the 31 bits of an even address, but those of the subcache.
pub const CACHE_SIZE: usize = 0x8_0000;

/// A block of cached instructions, each with its length in bytes.
pub type Block = Vec<(Instruction, u32)>;

/// The index of the subcache of an address.
pub open spec fn spec_cache_index(addr: u32) -> usize {
    ((addr / 0x2000) % 0x8_0000) as usize
}

/// The index of an address in its subcache.
pub open spec fn spec_subcache_index(addr: u32) -> usize {
    ((addr / 2) % 0x1000) as usize
}

/// Converts the given address to its instruction cache index.
fn cache_index(addr: u32) -> (r: usize)
    ensures
        r == spec_cache_index(addr),
        r < CACHE_SIZE,
{
    ((addr / 0x2000) % 0x8_0000) as usize
}

/// Converts the given address to its index in the subcache.
fn subcache_index(addr: u32) -> (r: usize)
    ensures
        r == spec_subcache_index(addr),
        r < SUBCACHE_SIZE,
{
    ((addr / 2) % 0x1000) as usize
}

/// A well-formed cached block: not empty, each instruction decoded at its address and cached with
/// its length.
pub open spec fn spec_trie_block_wf(b: Seq<(Instruction, u32)>) -> bool {
    &&& b.len() > 0
    &&& forall|j: int| 0 <= j < b.len() ==> spec_decoded((#[trigger] b[j]).0)
        && b[j].1 == spec_wrap32(spec_instruction_length(b[j].0.opcode))
}

/// Every block of the subcache is well-formed.
pub open spec fn spec_blocks_not_empty(sub: Seq<Option<Block>>) -> bool {
    forall|j: int| 0 <= j < sub.len() ==> (#[trigger] sub[j] matches Some(b) ==> spec_trie_block_wf(b@))
}

/// The subcache and the index in it of every address cover the even addresses one to one: the
/// subcache holds the bits above the lowest 13, the index the 12 bits above the lowest one.
pub proof fn lemma_trie_indices(addr: u32)
    ensures
        spec_cache_index(addr) < CACHE_SIZE,
        spec_subcache_index(addr) < SUBCACHE_SIZE,
        spec_cache_index(addr) as int * 0x2000 + spec_subcache_index(addr) as int * 2 == addr as int - addr as int % 2,
        ((spec_cache_index(addr) as u32) << 13u32) | ((spec_subcache_index(addr) as u32) << 1u32) == addr & !1u32,
{
    assert((addr / 0x2000) < 0x8_0000) by (bit_vector);
    assert(((((addr / 0x2000) % 0x8_0000) as u32) << 13u32) | ((((addr / 2) % 0x1000) as u32) << 1u32) == addr & !1u32) by (bit_vector);
    assert((addr / 0x2000) * 0x2000 + ((addr / 2) % 0x1000) * 2 == addr - addr % 2) by (bit_vector);
    vstd::arithmetic::div_mod::lemma_small_mod((addr / 0x2000) as nat, 0x8_0000);
}

/// Cached interpreter with a trie look-up table: a subcache of blocks for each range of 0x2000 bytes.
pub struct CachedInterpreterTrieBlock<CPU: CpuDetails> {
    pub m68000: M68000<CPU>,
    /// Each element is a subrow for each PC value.
    instruction_cache: Vec<Option<Vec<Option<Block>>>>,
}

impl<CPU: CpuDetails> CachedInterpreterTrieBlock<CPU> {
    /// The core.
    pub closed spec fn cpu(&self) -> M68000<CPU> {
        self.m68000
    }

    /// The block cached for the given address, if any.
    pub closed spec fn block_at(&self, addr: u32) -> Option<Seq<(Instruction, u32)>> {
        match self.instruction_cache@[spec_cache_index(addr) as int] {
            Some(sub) => match sub@[spec_subcache_index(addr) as int] {
                Some(b) => Some(b@),
                None => None,
            },
            None => None,
        }
    }

    /// The cache holds one entry for each subcache, each subcache holds one entry per even address,
    /// and every cached block is well-formed.
    pub closed spec fn wf_cache(&self) -> bool {
        &&& self.instruction_cache@.len() == CACHE_SIZE
        &&& forall|i: int| 0 <= i < CACHE_SIZE ==> (#[trigger] self.instruction_cache@[i] matches Some(sub) ==>
            sub@.len() == SUBCACHE_SIZE && spec_blocks_not_empty(sub@))
    }

    /// Creates a new cached interpreter with an empty cache.
    pub fn new(m68000: M68000<CPU>) -> (r: Self)
        ensures
            r.cpu() == m68000,
            r.wf_cache(),
    {
        let mut instruction_cache: Vec<Option<Vec<Option<Block>>>> = Vec::new();
        let mut i: usize = 0;
        while i < CACHE_SIZE
            invariant
                i <= CACHE_SIZE,
                instruction_cache@.len() == i,
                forall|k: int| 0 <= k < i ==> #[trigger] instruction_cache@[k] is None,
            decreases CACHE_SIZE - i,
        {
            instruction_cache.push(None);
            i = i + 1;
        }
        CachedInterpreterTrieBlock { m68000, instruction_cache }
    }

    /// Runs the cached interpreter loop once, adding the exception that occured to the pending exceptions.
    ///
    /// Returns the number of cycles executed.
    pub fn cached_interpreter<M: MemoryAccess + ?Sized>(&mut self, memory: &mut M) -> (r: usize)
        requires
            old(self).cpu().wf(),
            old(self).wf_cache(),
        ensures
            final(self).cpu().wf(),
            final(self).wf_cache(),
            old(self).cpu().stop ==> r == 0 && final(self).cpu().regs == old(self).cpu().regs,
            !old(self).cpu().stop && old(self).cpu().pending().len() == 0 ==>
                exists|regs: Seq<Registers>, steps: Seq<(usize, Option<u8>)>, e: Option<u8>|
                    #![trigger spec_run_outcome(regs, steps, final(self).cpu().regs, (r, e))]
                    spec_execution_run::<CPU>(regs, steps) && regs[0] == old(self).cpu().regs
                    && spec_run_outcome(regs, steps, final(self).cpu().regs, (r, e))
                    && (e matches Some(v) ==> final(self).cpu().pending().contains(spec_exception(v))),
    {
        let (cycles, exception) = self.cached_interpreter_exception(memory);
        let ghost regs1 = self.m68000.regs;
        if let Some(e) = exception {
            self.m68000.exception(crate::exception::Exception::from(e));
        }
        proof {
            if !old(self).m68000.stop && old(self).m68000.pending().len() == 0 {
                let (regs, steps) = choose|regs: Seq<Registers>, steps: Seq<(usize, Option<u8>)>|
                    #[trigger] spec_execution_run::<CPU>(regs, steps) && regs[0] == old(self).m68000.regs
                    && spec_run_outcome(regs, steps, regs1, (cycles, exception));
                assert(self.m68000.regs == regs1);
                if let Some(e) = exception {
                    assert(self.m68000.pending().to_set().contains(spec_exception(e)));
                    assert(self.m68000.pending().contains(spec_exception(e)));
                }
                assert(spec_run_outcome(regs, steps, self.m68000.regs, (cycles, exception)));
            }
        }
        cycles
    }

    /// Returns a new subcache whose blocks are all empty.
    fn empty_subcache() -> (r: Vec<Option<Block>>)
        ensures
            r@.len() == SUBCACHE_SIZE,
            spec_blocks_not_empty(r@),
            forall|k: int| 0 <= k < r@.len() ==> #[trigger] r@[k] is None,
    {
        let mut sub: Vec<Option<Block>> = Vec::new();
        let mut i: usize = 0;
        while i < SUBCACHE_SIZE
            invariant
                i <= SUBCACHE_SIZE,
                sub@.len() == i,
                forall|k: int| 0 <= k < i ==> #[trigger] sub@[k] is None,
            decreases SUBCACHE_SIZE - i,
        {
            sub.push(None);
            i = i + 1;
        }
        sub
    }

    /// Runs the cached interpreter loop once: executes the cached block at the program counter, or
    /// decodes, executes and caches a new block.
    ///
    /// Returns the number of cycles executed and the exception that occured if any.
    pub fn cached_interpreter_exception<M: MemoryAccess + ?Sized>(&mut self, memory: &mut M) -> (r: (usize, Option<u8>))
        requires
            old(self).cpu().wf(),
            old(self).wf_cache(),
        ensures
            final(self).cpu().wf(),
            final(self).wf_cache(),
            old(self).cpu().stop ==> r == (0usize, None::<u8>) && *final(self) == *old(self),
            forall|e: Exception| final(self).cpu().pending().contains(e) ==> old(self).cpu().pending().contains(e),
            !old(self).cpu().stop && old(self).cpu().pending().len() == 0 ==>
                exists|regs: Seq<Registers>, steps: Seq<(usize, Option<u8>)>|
                    #[trigger] spec_execution_run::<CPU>(regs, steps) && regs[0] == old(self).cpu().regs
                    && spec_run_outcome(regs, steps, final(self).cpu().regs, r),
            !old(self).cpu().stop && old(self).cpu().pending().len() == 0 && old(self).block_at(old(self).cpu().regs.pc) is Some ==>
                final(self).cpu().fetches == old(self).cpu().fetches
                && exists|regs: Seq<Registers>, steps: Seq<(usize, Option<u8>)>|
                    #[trigger] spec_block_run::<CPU>(regs, steps, old(self).block_at(old(self).cpu().regs.pc)->0)
                    && regs[0] == old(self).cpu().regs && regs.last() == final(self).cpu().regs
                    && r == (spec_total_cycles(steps), steps.last().1),
            !old(self).cpu().stop && old(self).cpu().pending().len() == 0 && old(self).block_at(old(self).cpu().regs.pc) is None ==>
                (final(self).cpu().fetches@.len() > old(self).cpu().fetches@.len()
                    && final(self).cpu().fetches@[old(self).cpu().fetches@.len() as int].0 == old(self).cpu().regs.pc)
                || (final(self).cpu().fetches == old(self).cpu().fetches && r.0 == 0
                    && spec_fetch_failed(old(self).cpu().regs.pc, r.1, old(self).cpu().refused@, final(self).cpu().refused@, final(self).cpu().regs.pc)),
            !old(self).cpu().stop && old(self).cpu().pending().len() == 0 ==> forall|a: u32|
                #[trigger] final(self).block_at(a) != old(self).block_at(a) ==> spec_cache_index(a) == spec_cache_index(old(self).cpu().regs.pc)
                    && spec_subcache_index(a) == spec_subcache_index(old(self).cpu().regs.pc)
                    && final(self).block_at(a) is Some && final(self).block_at(a)->0[0].0.pc == old(self).cpu().regs.pc,
            !old(self).cpu().stop ==>
                exists|regs: Seq<Registers>, steps: Seq<(usize, Option<u8>)>|
                    #[trigger] spec_execution_run::<CPU>(regs, steps) && regs[0].d == old(self).cpu().regs.d
                    && spec_run_after_exceptions(regs, steps, final(self).cpu().regs, r, final(self).cpu().pending().len() > 0),
    {
        if self.m68000.stop {
            return (0, None);
        }
        let ghost law = old(self).m68000.exceptions@.len() == 0;
        let mut cycle_count: usize = 0;
        if self.m68000.exceptions.len() > 0 {
            cycle_count = self.m68000.process_pending_exceptions(memory);
        }
        let ghost mid = self.m68000.regs;
        let ghost law1 = self.m68000.exceptions@.len() == 0;
        let pc = self.m68000.regs.pc;
        let index = cache_index(pc);
        let sub_index = subcache_index(pc);
        let cached = match &self.instruction_cache[index] {
            Some(sub) => sub[sub_index].is_some(),
            None => false,
        };
        let (cycles, exception) = if cached {
            self.run_cached(memory, index, sub_index)
        } else {
            self.run_uncached(memory, index, sub_index)
        };
        proof {
            if law {
                assert(cycle_count.saturating_add(cycles) == cycles);
            }
            if !law1 {
                let s0 = Seq::<(usize, Option<u8>)>::empty();
                assert(spec_execution_run::<CPU>(seq![mid], s0));
                assert(spec_run_after_exceptions(seq![mid], s0, self.m68000.regs, (cycle_count.saturating_add(cycles), exception), self.m68000.pending().len() > 0));
            } else {
                let (regs, steps) = choose|regs: Seq<Registers>, steps: Seq<(usize, Option<u8>)>|
                    #[trigger] spec_execution_run::<CPU>(regs, steps) && regs[0] == mid
                    && spec_run_outcome(regs, steps, self.m68000.regs, (cycles, exception));
                assert(spec_run_after_exceptions(regs, steps, self.m68000.regs, (cycle_count.saturating_add(cycles), exception), self.m68000.pending().len() > 0));
            }
        }
        (cycle_count.saturating_add(cycles), exception)
    }

    /// Runs the block cached for the program counter, at the given indexes.
    fn run_cached<M: MemoryAccess + ?Sized>(&mut self, memory: &mut M, index: usize, sub_index: usize) -> (r: (usize, Option<u8>))
        requires
            old(self).cpu().wf(),
            old(self).wf_cache(),
            index == spec_cache_index(old(self).cpu().regs.pc),
            sub_index == spec_subcache_index(old(self).cpu().regs.pc),
            old(self).block_at(old(self).cpu().regs.pc) is Some,
        ensures
            final(self).cpu().wf(),
            *final(self) == (CachedInterpreterTrieBlock { m68000: final(self).m68000, ..*old(self) }),
            forall|e: Exception| final(self).cpu().pending().contains(e) ==> old(self).cpu().pending().contains(e),
            final(self).cpu().fetches == old(self).cpu().fetches,
            old(self).cpu().pending().len() > 0 ==> r == (0usize, None::<u8>) && final(self).cpu().regs == old(self).cpu().regs
                && final(self).cpu().pending() == old(self).cpu().pending(),
            old(self).cpu().pending().len() == 0 ==> exists|regs: Seq<Registers>, steps: Seq<(usize, Option<u8>)>|
                #[trigger] spec_block_run::<CPU>(regs, steps, old(self).block_at(old(self).cpu().regs.pc)->0)
                && spec_execution_run::<CPU>(regs, steps)
                && regs[0] == old(self).cpu().regs && regs.last() == final(self).cpu().regs
                && r == (spec_total_cycles(steps), steps.last().1)
                && spec_run_outcome(regs, steps, final(self).cpu().regs, r),
    {
        let nothing_pending = self.m68000.exceptions.len() == 0;
        proof {
            assert(self.instruction_cache@[index as int] matches Some(sub) ==> sub@.len() == SUBCACHE_SIZE && spec_blocks_not_empty(sub@));
        }
        match &self.instruction_cache[index] {
            Some(sub) => match &sub[sub_index] {
                Some(block) => {
                    proof {
                        assert(sub@[sub_index as int] matches Some(b) ==> spec_trie_block_wf(b@));
                        assert(old(self).block_at(old(self).cpu().regs.pc) == Some(block@));
                    }
                    let r = Self::run_block(&mut self.m68000, memory, block);
                    proof {
                        if nothing_pending {
                            let (regs, steps) = choose|regs: Seq<Registers>, steps: Seq<(usize, Option<u8>)>|
                                #[trigger] spec_block_run::<CPU>(regs, steps, block@) && spec_execution_run::<CPU>(regs, steps)
                                && regs[0] == old(self).m68000.regs && regs.last() == self.m68000.regs
                                && r == (spec_total_cycles(steps), steps.last().1)
                                && spec_run_outcome(regs, steps, self.m68000.regs, r);
                            assert(spec_block_run::<CPU>(regs, steps, old(self).block_at(old(self).cpu().regs.pc)->0));
                        }
                    }
                    r
                },
                None => (0, None),
            },
            None => (0, None),
        }
    }

    /// Decodes, executes and caches a new block for the program counter, at the given indexes.
    fn run_uncached<M: MemoryAccess + ?Sized>(&mut self, memory: &mut M, index: usize, sub_index: usize) -> (r: (usize, Option<u8>))
        requires
            old(self).cpu().wf(),
            old(self).wf_cache(),
            index == spec_cache_index(old(self).cpu().regs.pc),
            sub_index == spec_subcache_index(old(self).cpu().regs.pc),
            old(self).block_at(old(self).cpu().regs.pc) is None,
        ensures
            final(self).cpu().wf(),
            final(self).wf_cache(),
            forall|e: Exception| final(self).cpu().pending().contains(e) ==> old(self).cpu().pending().contains(e),
            forall|a: u32| #[trigger] final(self).block_at(a) != old(self).block_at(a) ==> spec_cache_index(a) == index
                && spec_subcache_index(a) == sub_index
                && final(self).block_at(a) is Some && final(self).block_at(a)->0[0].0.pc == old(self).cpu().regs.pc,
            old(self).cpu().pending().len() > 0 ==> r == (0usize, None::<u8>) && final(self).cpu().regs == old(self).cpu().regs
                && final(self).cpu().pending() == old(self).cpu().pending() && final(self).cpu().fetches == old(self).cpu().fetches,
            old(self).cpu().pending().len() == 0 ==> (exists|regs: Seq<Registers>, steps: Seq<(usize, Option<u8>)>|
                    #[trigger] spec_execution_run::<CPU>(regs, steps) && regs[0] == old(self).cpu().regs
                    && spec_run_outcome(regs, steps, final(self).cpu().regs, r))
                && ((final(self).cpu().fetches@.len() > old(self).cpu().fetches@.len()
                    && final(self).cpu().fetches@[old(self).cpu().fetches@.len() as int].0 == old(self).cpu().regs.pc)
                    || (final(self).cpu().fetches == old(self).cpu().fetches && r.0 == 0
                    && spec_fetch_failed(old(self).cpu().regs.pc, r.1, old(self).cpu().refused@, final(self).cpu().refused@, final(self).cpu().regs.pc))),
    {
        let (cycles, exception, built) = Self::build_block(&mut self.m68000, memory);
        match built {
            Some(block) => {
                let mut taken: Option<Vec<Option<Block>>> = None;
                std::mem::swap(&mut taken, &mut self.instruction_cache[index]);
                let mut sub = match taken {
                    Some(sub) => sub,
                    None => Self::empty_subcache(),
                };
                proof {
                    assert(old(self).instruction_cache@[index as int] matches Some(s) ==> s@.len() == SUBCACHE_SIZE && spec_blocks_not_empty(s@));
                }
                let ghost before_sub = sub@;
                sub.set(sub_index, Some(block));
                self.instruction_cache.set(index, Some(sub));
                proof {
                    assert forall|j: int| 0 <= j < sub@.len() implies (#[trigger] sub@[j] matches Some(b) ==> spec_trie_block_wf(b@)) by {
                        if j != sub_index as int {
                            assert(before_sub[j] == sub@[j]);
                        }
                    }
                    assert forall|i: int| 0 <= i < CACHE_SIZE implies (#[trigger] self.instruction_cache@[i] matches Some(s) ==>
                        s@.len() == SUBCACHE_SIZE && spec_blocks_not_empty(s@)) by {
                        if i != index as int {
                            assert(self.instruction_cache@[i] == old(self).instruction_cache@[i]);
                        }
                    }
                    assert forall|a: u32| #[trigger] self.block_at(a) != old(self).block_at(a) implies spec_cache_index(a) == index
                        && spec_subcache_index(a) == sub_index
                        && self.block_at(a) is Some && self.block_at(a)->0[0].0.pc == old(self).cpu().regs.pc by {
                        if spec_cache_index(a) != index {
                            assert(self.instruction_cache@[spec_cache_index(a) as int] == old(self).instruction_cache@[spec_cache_index(a) as int]);
                        } else if spec_subcache_index(a) != sub_index {
                            lemma_trie_indices(a);
                            assert(sub@[spec_subcache_index(a) as int] == before_sub[spec_subcache_index(a) as int]);
                            if old(self).instruction_cache@[index as int] is None {
                                assert(before_sub[spec_subcache_index(a) as int] is None);
                            } else {
                                assert(old(self).instruction_cache@[index as int]->0@ == before_sub);
                            }
                        }
                    }
                }
                (cycles, None)
            },
            None => (cycles, exception),
        }
    }

    /// Runs the instructions of a cached block in their order until one raises an exception.
    /// Runs nothing when exceptions are pending.
    ///
    /// Returns the number of cycles executed and the exception that occured if any.
    fn run_block<M: MemoryAccess + ?Sized>(m68000: &mut M68000<CPU>, memory: &mut M, block: &Block) -> (r: (usize, Option<u8>))
        requires
            old(m68000).wf(),
            spec_trie_block_wf(block@),
        ensures
            final(m68000).wf(),
            forall|e: Exception| final(m68000).pending().contains(e) ==> old(m68000).pending().contains(e),
            final(m68000).fetches == old(m68000).fetches,
            old(m68000).exceptions@.len() > 0 ==> r == (0usize, None::<u8>) && final(m68000).regs == old(m68000).regs
                && final(m68000).exceptions@ == old(m68000).exceptions@,
            old(m68000).exceptions@.len() == 0 ==> final(m68000).exceptions@.len() == 0
                && exists|regs: Seq<Registers>, steps: Seq<(usize, Option<u8>)>|
                    #[trigger] spec_block_run::<CPU>(regs, steps, block@) && spec_execution_run::<CPU>(regs, steps)
                    && regs[0] == old(m68000).regs && regs.last() == final(m68000).regs
                    && r == (spec_total_cycles(steps), steps.last().1)
                    && spec_run_outcome(regs, steps, final(m68000).regs, r),
    {
        if m68000.exceptions.len() > 0 {
            return (0, None);
        }
        let mut cycle_count: usize = 0;
        let ghost mut regs_seq: Seq<Registers> = seq![m68000.regs];
        let ghost mut steps_seq: Seq<(usize, Option<u8>)> = Seq::empty();
        let mut i: usize = 0;
        while i < block.len()
            invariant
                m68000.wf(),
                m68000.exceptions@.len() == 0,
                old(m68000).exceptions@.len() == 0,
                forall|e: Exception| m68000.pending().contains(e) ==> old(m68000).pending().contains(e),
                m68000.fetches == old(m68000).fetches,
                spec_trie_block_wf(block@),
                spec_execution_run::<CPU>(regs_seq, steps_seq),
                regs_seq[0] == old(m68000).regs && regs_seq.last() == m68000.regs,
                cycle_count == spec_total_cycles(steps_seq),
                steps_seq.len() == i,
                i <= block@.len(),
                forall|k: int| 0 <= k < steps_seq.len() ==> (#[trigger] steps_seq[k]).1 is None,
                forall|k: int| 0 <= k < steps_seq.len() ==> #[trigger] spec_instruction_step::<CPU>(regs_seq[k], regs_seq[k + 1], steps_seq[k], block@[k].0),
            decreases block.len() - i,
        {
            let ghost before = m68000.regs;
            let (instruction, length) = block[i];
            m68000.regs.pc = wrapping_add32(m68000.regs.pc, length);
            proof {
                assert(block@[i as int] == (instruction, length));
                lemma_moved_by_wrapped_length(before, spec_instruction_length(instruction.opcode));
                assert(m68000.regs == spec_fetched_registers(before, instruction.opcode));
            }
            let (cycles, exception) = m68000.execute_instruction(memory, &instruction);
            proof {
                let res = choose|res: InterpreterResult| #[trigger] spec_dispatch::<CPU>(spec_fetched_registers(before, instruction.opcode),
                    instruction.opcode, m68000.regs, spec_isa(instruction.opcode), instruction, res)
                    && exception == spec_step_exception(res, before.sr.t, instruction.opcode)
                    && cycles == (match res { Ok(c) => c, Err(_) => 0usize });
                lemma_fetched_step::<CPU>(before, m68000.regs, (cycles, exception), instruction, res);
                assert(spec_instruction_step::<CPU>(before, m68000.regs, (cycles, exception), instruction));
                let prev_regs = regs_seq;
                let prev_steps = steps_seq;
                lemma_execution_run_push::<CPU>(regs_seq, steps_seq, m68000.regs, (cycles, exception));
                regs_seq = regs_seq.push(m68000.regs);
                steps_seq = steps_seq.push((cycles, exception));
                assert forall|k: int| 0 <= k < steps_seq.len() implies #[trigger] spec_instruction_step::<CPU>(regs_seq[k], regs_seq[k + 1], steps_seq[k], block@[k].0) by {
                    if k < prev_steps.len() {
                        assert(regs_seq[k] == prev_regs[k] && regs_seq[k + 1] == prev_regs[k + 1] && steps_seq[k] == prev_steps[k]);
                    }
                }
            }
            cycle_count = cycle_count.saturating_add(cycles);
            if exception.is_some() {
                proof {
                    assert(spec_run_outcome(regs_seq, steps_seq, m68000.regs, (cycle_count, exception)));
                    assert(spec_block_run::<CPU>(regs_seq, steps_seq, block@));
                }
                return (cycle_count, exception);
            }
            i = i + 1;
        }
        proof {
            assert(steps_seq[steps_seq.len() - 1].1 is None);
            assert(spec_run_outcome(regs_seq, steps_seq, m68000.regs, (cycle_count, None::<u8>)));
            assert(spec_block_run::<CPU>(regs_seq, steps_seq, block@));
        }
        (cycle_count, None)
    }

    /// Decodes and executes the instructions from the program counter until one ends a block.
    /// Returns the number of cycles executed, the exception that occured if any, and the block to
    /// cache: none when exceptions are pending or when an exception occured.
    fn build_block<M: MemoryAccess + ?Sized>(m68000: &mut M68000<CPU>, memory: &mut M) -> (r: (usize, Option<u8>, Option<Block>))
        requires
            old(m68000).wf(),
        ensures
            final(m68000).wf(),
            forall|e: Exception| final(m68000).pending().contains(e) ==> old(m68000).pending().contains(e),
            old(m68000).exceptions@.len() > 0 ==> r.0 == 0 && r.1 is None && r.2 is None && final(m68000).regs == old(m68000).regs
                && final(m68000).exceptions@ == old(m68000).exceptions@ && final(m68000).fetches == old(m68000).fetches,
            old(m68000).exceptions@.len() == 0 ==> final(m68000).exceptions@.len() == 0
                && (exists|regs: Seq<Registers>, steps: Seq<(usize, Option<u8>)>|
                    #[trigger] spec_execution_run::<CPU>(regs, steps) && regs[0] == old(m68000).regs
                    && spec_run_outcome(regs, steps, final(m68000).regs, (r.0, r.1)))
                && ((final(m68000).fetches@.len() > old(m68000).fetches@.len()
                    && final(m68000).fetches@[old(m68000).fetches@.len() as int].0 == old(m68000).regs.pc)
                    || (final(m68000).fetches == old(m68000).fetches && r.0 == 0
                    && spec_fetch_failed(old(m68000).regs.pc, r.1, old(m68000).refused@, final(m68000).refused@, final(m68000).regs.pc))),
            r.2 matches Some(b) ==> r.1 is None && spec_trie_block_wf(b@) && b@[0].0.pc == old(m68000).regs.pc,
    {
        if m68000.exceptions.len() > 0 {
            return (0, None, None);
        }
        let mut cycle_count: usize = 0;
        let ghost mut regs_seq: Seq<Registers> = seq![m68000.regs];
        let ghost mut steps_seq: Seq<(usize, Option<u8>)> = Seq::empty();
        let mut block: Block = Vec::new();
        let start_pc = m68000.regs.pc;
        let mut steps: usize = 0;
        while steps < usize::MAX
            invariant
                m68000.wf(),
                m68000.exceptions@.len() == 0,
                old(m68000).exceptions@.len() == 0,
                forall|e: Exception| m68000.pending().contains(e) ==> old(m68000).pending().contains(e),
                start_pc == old(m68000).regs.pc,
                steps > 0 ==> block@.len() > 0,
                block@.len() == 0 ==> m68000.regs.pc == start_pc && m68000.fetches == old(m68000).fetches && m68000.refused == old(m68000).refused,
                block@.len() > 0 ==> block@[0].0.pc == start_pc && m68000.fetches@.len() > old(m68000).fetches@.len()
                    && m68000.fetches@[old(m68000).fetches@.len() as int].0 == start_pc,
                forall|j: int| 0 <= j < block@.len() ==> spec_decoded((#[trigger] block@[j]).0)
                    && block@[j].1 == spec_wrap32(spec_instruction_length(block@[j].0.opcode)),
                spec_execution_run::<CPU>(regs_seq, steps_seq),
                regs_seq[0] == old(m68000).regs && regs_seq.last() == m68000.regs,
                cycle_count == spec_total_cycles(steps_seq),
                steps_seq.len() == block@.len(),
                forall|k: int| 0 <= k < steps_seq.len() ==> (#[trigger] steps_seq[k]).1 is None,
            ensures
                block@.len() > 0,
            decreases usize::MAX - steps,
        {
            steps = steps + 1;
            let ghost before = m68000.regs;
            let pc = m68000.regs.pc;
            let instruction = match m68000.get_next_instruction(memory) {
                Ok(i) => i,
                Err(e) => {
                    proof {
                        assert(m68000.regs == spec_with_pc(before, m68000.regs.pc));
                        if steps_seq.len() > 0 {
                            assert(steps_seq[steps_seq.len() - 1].1 is None);
                        }
                        assert(spec_run_outcome(regs_seq, steps_seq, m68000.regs, (cycle_count, Some(e))));
                    }
                    return (cycle_count, Some(e), None);
                },
            };
            let length = wrapping_sub32(m68000.regs.pc, pc);
            proof {
                assert(m68000.regs == spec_fetched_registers(before, instruction.opcode));
                lemma_length_of_wrapped(pc, spec_instruction_length(instruction.opcode));
            }
            let (cycles, exception) = m68000.execute_instruction(memory, &instruction);
            proof {
                let res = choose|res: InterpreterResult| #[trigger] spec_dispatch::<CPU>(spec_fetched_registers(before, instruction.opcode),
                    instruction.opcode, m68000.regs, spec_isa(instruction.opcode), instruction, res)
                    && exception == spec_step_exception(res, before.sr.t, instruction.opcode)
                    && cycles == (match res { Ok(c) => c, Err(_) => 0usize });
                lemma_fetched_step::<CPU>(before, m68000.regs, (cycles, exception), instruction, res);
                lemma_execution_run_push::<CPU>(regs_seq, steps_seq, m68000.regs, (cycles, exception));
                regs_seq = regs_seq.push(m68000.regs);
                steps_seq = steps_seq.push((cycles, exception));
            }
            cycle_count = cycle_count.saturating_add(cycles);
            if exception.is_some() {
                proof {
                    assert(spec_run_outcome(regs_seq, steps_seq, m68000.regs, (cycle_count, exception)));
                }
                return (cycle_count, exception, None);
            }
            block.push((instruction, length));
            if Isa::from(instruction.opcode).ends_block() {
                break;
            }
        }
        proof {
            assert(steps_seq[steps_seq.len() - 1].1 is None);
            assert(spec_run_outcome(regs_seq, steps_seq, m68000.regs, (cycle_count, None::<u8>)));
        }
        (cycle_count, None, Some(block))
    }
}

} // verus!
