//! The interpreter loop that can also report the instruction it executes.

use vstd::prelude::*;
use crate::{CpuDetails, M68000, MemoryAccess};
use crate::exception::{Exception, spec_exception};
use crate::instruction::Instruction;
use crate::interpreter_fast::{spec_fetch_execute, spec_fetched_registers, spec_interpreter_step};

verus! {

impl<CPU: CpuDetails> M68000<CPU> {
    /// Runs the interpreter loop once and reports the next instruction if `DIS` is set.
    ///
    /// Returns the cycle count necessary to execute it, and when `DIS` is set, the address of the
    /// instruction and the instruction itself. An exception that occured is added to the pending exceptions.
    ///
    /// See [Self::interpreter] for the potential caveat.
    pub fn interpreter_unified<const DIS: bool, M: MemoryAccess + ?Sized>(&mut self, memory: &mut M) -> (r: (usize, Option<(u32, Instruction)>))
        requires
            old(self).wf(),
        ensures
            final(self).wf(),
            old(self).stop ==> r == (0usize, None::<(u32, Instruction)>) && final(self).regs == old(self).regs
                && final(self).exceptions@ == old(self).exceptions@,
            !DIS ==> r.1 is None,
            r.1 matches Some((pc, inst)) ==> inst.pc == pc,
            !old(self).stop ==> exists|v: Option<u8>| #[trigger] spec_interpreter_step::<CPU>(old(self).regs, final(self).regs, (r.0, v))
                && (v matches Some(e) ==> final(self).pending().contains(spec_exception(e))),
    {
        let (cycles, instruction, exception) = self.interpreter_exception_unified::<DIS, M>(memory);
        let ghost regs1 = self.regs;
        if let Some(e) = exception {
            self.exception(Exception::from(e));
        }
        proof {
            if !old(self).stop {
                assert(self.regs == regs1);
                assert(spec_interpreter_step::<CPU>(old(self).regs, self.regs, (cycles, exception)));
                if let Some(e) = exception {
                    assert(self.pending().to_set().contains(spec_exception(e)));
                    assert(self.pending().contains(spec_exception(e)));
                }
            }
        }
        let r = (cycles, instruction);
        proof {
            if !old(self).stop {
                assert(spec_interpreter_step::<CPU>(old(self).regs, self.regs, (r.0, exception)));
            }
        }
        r
    }

    /// Runs the interpreter loop once and reports the next instruction if `DIS` is set.
    ///
    /// Returns the cycle count necessary to execute it, when `DIS` is set the address of the
    /// instruction that has been executed and the instruction itself, and the vector of the exception
    /// that occured during the execution if any. No instruction is reported when none has been read.
    ///
    /// To process the returned exception, call [M68000::exception].
    ///
    /// See [Self::interpreter_exception] for the potential caveat.
    pub fn interpreter_exception_unified<const DIS: bool, M: MemoryAccess + ?Sized>(&mut self, memory: &mut M) -> (r: (usize, Option<(u32, Instruction)>, Option<u8>))
        requires
            old(self).wf(),
        ensures
            final(self).wf(),
            old(self).stop ==> r == (0usize, None::<(u32, Instruction)>, None::<u8>) && final(self).regs == old(self).regs
                && final(self).exceptions@ == old(self).exceptions@ && final(self).stop,
            !DIS ==> r.1 is None,
            r.1 matches Some((pc, inst)) ==> inst.pc == pc && final(self).current_opcode == inst.opcode,
            forall|e: Exception| final(self).pending().contains(e) ==> old(self).pending().contains(e),
            !old(self).stop && old(self).pending().len() == 0 ==> spec_fetch_execute::<CPU>(old(self).regs, final(self).regs, (r.0, r.2)),
            !old(self).stop ==> spec_interpreter_step::<CPU>(old(self).regs, final(self).regs, (r.0, r.2)),
    {
        if self.stop {
            return (0, None, None);
        }
        let mut cycle_count: usize = 0;
        if self.exceptions.len() > 0 {
            cycle_count = self.process_pending_exceptions(memory);
        }
        let pc = self.regs.pc;
        let ghost before = self.regs;
        let instruction = match self.get_next_instruction(memory) {
            Ok(i) => i,
            Err(e) => {
                proof {
                    assert(spec_fetch_execute::<CPU>(before, self.regs, (0usize, Some(e))));
                }
                return (cycle_count, None, Some(e));
            },
        };
        proof {
            assert(self.regs == spec_fetched_registers(before, instruction.opcode));
        }
        let (cycles, exception) = self.execute_instruction(memory, &instruction);
        proof {
            assert(spec_fetch_execute::<CPU>(before, self.regs, (cycles, exception)));
        }
        let reported = if DIS { Some((pc, instruction)) } else { None };
        (cycle_count.saturating_add(cycles), reported, exception)
    }
}

} // verus!
