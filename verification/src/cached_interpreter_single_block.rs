//! Cached interpreter with a single block to store all the cached instructions.

use vstd::prelude::*;
use crate::{CpuDetails, M68000, MemoryAccess, Registers};
use crate::arithmetic::{spec_wrap, wrapping_add32, wrapping_sub32};
use crate::exception::{ADDRESS_ERROR, Exception};
use crate::instruction::{Instruction, Size, spec_extension_count};
use crate::interpreter_fast::{spec_fetch_failed, spec_decoded, spec_fetch_execute, spec_instruction_step};
use crate::memory_access::spec_wrap32;

verus! {

/// Cached interpreter with a single block to store all the cached instructions (non-invalidating).
pub struct CachedInterpreterSingleBlock<CPU: CpuDetails> {
    pub m68000: M68000<CPU>,
    /// Indexed with (the program counter - the beginning of the range) >> 1: the cached instruction
    /// and its length in bytes, or `None` when it has not been cached yet.
    instruction_cache: Vec<Option<(Instruction, u32)>>,
    /// The first address of the cachable range.
    cache_begin: u32,
}

/// The index in the cache of the instruction at the given address.
pub open spec fn spec_single_index(addr: u32, begin: u32) -> int {
    (spec_wrap(addr - begin, Size::Long) / 2) as int
}

/// A cache entry at the given index: empty, or an instruction decoded at an even address of that
/// index, whose length takes the program counter past its extension words.
pub open spec fn spec_single_entry_wf(entry: Option<(Instruction, u32)>, index: int, begin: u32) -> bool {
    entry matches Some((i, length)) ==> i.pc % 2 == 0 && spec_single_index(i.pc, begin) == index && spec_decoded(i)
        && spec_wrap(i.pc + length, Size::Long) == spec_wrap32(i.pc + 2 * (1 + spec_extension_count(i.opcode)))
}

/// Two even addresses with the same index are the same address.
proof fn lemma_single_index_unique(x: u32, y: u32, begin: u32)
    requires
        x % 2 == 0,
        y % 2 == 0,
        spec_single_index(x, begin) == spec_single_index(y, begin),
    ensures
        x == y,
{
    let m: int = 0x1_0000_0000;
    let wx = (x - begin) % m;
    let wy = (y - begin) % m;
    assert(wx % 2 == (x - begin) % 2) by {
        vstd::arithmetic::div_mod::lemma_mod_mod(x - begin, 2, 0x8000_0000);
    }
    assert(wy % 2 == (y - begin) % 2) by {
        vstd::arithmetic::div_mod::lemma_mod_mod(y - begin, 2, 0x8000_0000);
    }
    assert(wx == wy);
    vstd::arithmetic::div_mod::lemma_fundamental_div_mod(x - begin, m);
    vstd::arithmetic::div_mod::lemma_fundamental_div_mod(y - begin, m);
}

/// Adding the wrapped difference of two addresses to the first one gives the second one.
proof fn lemma_wrap_difference(a: u32, b: u32)
    ensures
        spec_wrap(a + spec_wrap(b - a, Size::Long), Size::Long) == b,
{
    let m: int = 0x1_0000_0000;
    vstd::arithmetic::div_mod::lemma_add_mod_noop(a as int, b - a, m);
    vstd::arithmetic::div_mod::lemma_small_mod(a as nat, m as nat);
    vstd::arithmetic::div_mod::lemma_small_mod(b as nat, m as nat);
    vstd::arithmetic::div_mod::lemma_mod_twice(b - a, m);
    vstd::arithmetic::div_mod::lemma_add_mod_noop(a as int, (b - a) % m, m);
}

impl<CPU: CpuDetails> CachedInterpreterSingleBlock<CPU> {
    /// The invariant of the cache: each cached instruction is an instruction of its index, with
    /// its length.
    pub closed spec fn cache_wf(&self) -> bool {
        forall|k: int| 0 <= k < self.instruction_cache@.len() ==>
            #[trigger] spec_single_entry_wf(self.instruction_cache@[k], k, self.cache_begin)
    }

    /// The core.
    pub closed spec fn cpu(&self) -> M68000<CPU> {
        self.m68000
    }

    /// The number of entries of the cache.
    pub closed spec fn cache_len(&self) -> nat {
        self.instruction_cache@.len()
    }

    /// The instruction cached for the given address.
    pub closed spec fn cached_instruction(&self, addr: u32) -> Instruction {
        self.instruction_cache@[spec_single_index(addr, self.cache_begin)].unwrap().0
    }

    /// Whether the instruction at the given address is cached.
    pub closed spec fn has_instruction(&self, addr: u32) -> bool {
        let k = spec_single_index(addr, self.cache_begin);
        k < self.instruction_cache@.len() && self.instruction_cache@[k] is Some
    }

    /// Creates a new cached interpreter with the addresses from `begin` (inclusive) to `end` (exclusive) as cachable.
    pub fn new(m68000: M68000<CPU>, begin: u32, end: u32) -> (r: Self)
        ensures
            r.cpu() == m68000,
            r.cache_len() == spec_wrap(end - begin, Size::Long) / 2,
            r.cache_wf(),
    {
        let size = (wrapping_sub32(end, begin) / 2) as usize;
        let mut instruction_cache: Vec<Option<(Instruction, u32)>> = Vec::new();
        let mut i: usize = 0;
        while i < size
            invariant
                i <= size,
                instruction_cache@.len() == i,
                forall|k: int| 0 <= k < i ==> #[trigger] instruction_cache@[k] == None::<(Instruction, u32)>,
            decreases size - i,
        {
            instruction_cache.push(None);
            i = i + 1;
        }
        CachedInterpreterSingleBlock { m68000, instruction_cache, cache_begin: begin }
    }

    /// Runs the cached interpreter loop once, adding the exception that occured to the pending exceptions.
    ///
    /// Returns the number of cycles executed.
    pub fn cached_interpreter<M: MemoryAccess + ?Sized>(&mut self, memory: &mut M) -> (r: usize)
        requires
            old(self).cpu().wf(),
            old(self).cache_wf(),
        ensures
            final(self).cpu().wf(),
            final(self).cache_wf(),
            old(self).cpu().stop ==> r == 0 && final(self).cpu().regs == old(self).cpu().regs,
            !old(self).cpu().stop ==> exists|mid: Registers, step: (usize, Option<u8>)| mid.d == old(self).cpu().regs.d
                && #[trigger] spec_fetch_execute::<CPU>(mid, final(self).cpu().regs, step) && r >= step.0,
    {
        let (cycles, exception) = self.cached_interpreter_exception(memory);
        let ghost regs1 = self.m68000.regs;
        if let Some(e) = exception {
            self.m68000.exception(crate::exception::Exception::from(e));
        }
        proof {
            if !old(self).m68000.stop {
                let (mid, step) = choose|mid: Registers, step: (usize, Option<u8>)| mid.d == old(self).m68000.regs.d
                    && #[trigger] spec_fetch_execute::<CPU>(mid, regs1, step) && exception == step.1 && cycles >= step.0;
                assert(spec_fetch_execute::<CPU>(mid, self.m68000.regs, step));
            }
        }
        cycles
    }

    /// Runs the cached interpreter loop once: executes the instruction at the program counter,
    /// decoding and caching it first if it is in the cachable range and not cached yet.
    ///
    /// Returns the number of cycles executed and the exception that occured if any.
    pub fn cached_interpreter_exception<M: MemoryAccess + ?Sized>(&mut self, memory: &mut M) -> (r: (usize, Option<u8>))
        requires
            old(self).cpu().wf(),
            old(self).cache_wf(),
        ensures
            final(self).cpu().wf(),
            final(self).cache_wf(),
            old(self).cpu().stop ==> r == (0usize, None::<u8>) && *final(self) == *old(self),
            final(self).cache_len() == old(self).cache_len(),
            forall|e: Exception| final(self).cpu().pending().contains(e) ==> old(self).cpu().pending().contains(e),
            !old(self).cpu().stop && old(self).cpu().pending().len() == 0 ==>
                spec_fetch_execute::<CPU>(old(self).cpu().regs, final(self).cpu().regs, r),
            !old(self).cpu().stop && old(self).cpu().pending().len() == 0 && old(self).cpu().regs.pc % 2 == 1 ==>
                r == (0usize, Some(ADDRESS_ERROR)) && final(self).cpu().regs == old(self).cpu().regs,
            !old(self).cpu().stop && old(self).cpu().pending().len() == 0 && old(self).has_instruction(old(self).cpu().regs.pc)
                ==> final(self).cpu().fetches == old(self).cpu().fetches,
            !old(self).cpu().stop && old(self).cpu().pending().len() == 0 && !old(self).has_instruction(old(self).cpu().regs.pc)
                ==> final(self).cpu().fetches@ == old(self).cpu().fetches@.push((old(self).cpu().regs.pc, final(self).cpu().fetches@.last().1))
                || (final(self).cpu().fetches == old(self).cpu().fetches && r.0 == 0
                    && spec_fetch_failed(old(self).cpu().regs.pc, r.1, old(self).cpu().refused@, final(self).cpu().refused@, final(self).cpu().regs.pc)),
            !old(self).cpu().stop && old(self).cpu().pending().len() == 0 && old(self).cpu().regs.pc % 2 == 0
                && old(self).has_instruction(old(self).cpu().regs.pc) ==> spec_instruction_step::<CPU>(old(self).cpu().regs,
                    final(self).cpu().regs, r, old(self).cached_instruction(old(self).cpu().regs.pc)),
            !old(self).cpu().stop ==> exists|mid: Registers, step: (usize, Option<u8>)| mid.d == old(self).cpu().regs.d
                && #[trigger] spec_fetch_execute::<CPU>(mid, final(self).cpu().regs, step) && r.1 == step.1 && r.0 >= step.0,
    {
        if self.m68000.stop {
            return (0, None);
        }
        let mut cycle_count: usize = 0;
        if self.m68000.exceptions.len() > 0 {
            cycle_count = self.m68000.process_pending_exceptions(memory);
        }
        if self.m68000.regs.pc % 2 == 1 {
            proof {
                assert(spec_fetch_execute::<CPU>(self.m68000.regs, self.m68000.regs, (0usize, Some(ADDRESS_ERROR))));
            }
            return (cycle_count, Some(ADDRESS_ERROR));
        }
        let cache_index = (wrapping_sub32(self.m68000.regs.pc, self.cache_begin) / 2) as usize;
        let ghost before = self.m68000.regs;
        let (cycles, exception) = if cache_index < self.instruction_cache.len() {
            let instruction = match self.instruction_cache[cache_index] {
                Some((instruction, length)) => {
                    proof {
                        assert(spec_single_entry_wf(self.instruction_cache@[cache_index as int], cache_index as int, self.cache_begin));
                        lemma_single_index_unique(instruction.pc, before.pc, self.cache_begin);
                    }
                    self.m68000.regs.pc = wrapping_add32(self.m68000.regs.pc, length);
                    instruction
                },
                None => {
                    let pc = self.m68000.regs.pc;
                    let instruction = match self.m68000.get_next_instruction(memory) {
                        Ok(i) => i,
                        Err(e) => {
                            proof {
                                assert(spec_fetch_execute::<CPU>(before, self.m68000.regs, (0usize, Some(e))));
                            }
                            return (cycle_count, Some(e));
                        },
                    };
                    let length = wrapping_sub32(self.m68000.regs.pc, pc);
                    proof {
                        lemma_wrap_difference(pc, self.m68000.regs.pc);
                    }
                    self.instruction_cache.set(cache_index, Some((instruction, length)));
                    proof {
                        assert forall|k: int| 0 <= k < self.instruction_cache@.len() implies
                            #[trigger] spec_single_entry_wf(self.instruction_cache@[k], k, self.cache_begin) by {
                            if k != cache_index as int {
                                assert(spec_single_entry_wf(old(self).instruction_cache@[k], k, self.cache_begin));
                            }
                        }
                    }
                    instruction
                },
            };
            proof {
                assert(self.m68000.regs == crate::interpreter_fast::spec_fetched_registers(before, instruction.opcode));
            }
            let step = self.m68000.execute_instruction(memory, &instruction);
            proof {
                assert(spec_fetch_execute::<CPU>(before, self.m68000.regs, step));
                assert(spec_instruction_step::<CPU>(before, self.m68000.regs, step, instruction));
            }
            step
        } else {
            self.m68000.interpreter_exception(memory)
        };
        (cycle_count.saturating_add(cycles), exception)
    }
}

} // verus!
