//! Motorola 68000 interpreter and assembler (code emitter).
//!
//! This library emulates the common user and supervisor instructions of the M68k ISA.
//! It is configurable to behave like the given CPU type, changing the instruction's execution
//! times and exception handling.
//!
//! The memory map is application-dependant: the user implements the [MemoryAccess] trait on
//! their memory structure and passes it to the core on each instruction execution.

use vstd::prelude::*;
use core::marker::PhantomData;

pub mod addressing_modes;
pub mod arithmetic;
pub mod assembler;
pub mod callbacks;
pub mod cached_interpreter_flat_block;
pub mod cached_interpreter_single_block;
pub mod cached_interpreter_trie_block;
pub mod cpu_details;
pub mod exception;
pub mod fastmem;
pub mod instruction;
pub mod interpreter;
pub mod interpreter_fast;
pub mod interpreter_unified;
pub mod isa;
pub mod memory_access;
pub mod status_register;
pub mod utils;

pub use cpu_details::{CpuDetails, StackFormat};
pub use memory_access::MemoryAccess;
use exception::{Exception, Vector, spec_exception_lt, spec_masked};
use status_register::StatusRegister;
use instruction::Size;

verus! {

/// M68000 registers.
#[derive(Clone, Copy, Debug, PartialEq, Eq)]
pub struct Registers {
    /// Data registers.
    pub d: [u32; 8],
    /// Address registers.
    pub a: [u32; 7],
    /// User Stack Pointer.
    pub usp: u32,
    /// System Stack Pointer.
    pub ssp: u32,
    /// Status Register.
    pub sr: StatusRegister,
    /// Program Counter.
    pub pc: u32,
}

/// The low byte of `old` replaced by `value`.
pub open spec fn spec_byte_into(old: u32, value: u8) -> u32 {
    ((old / 0x100) * 0x100 + value as int) as u32
}

/// The low word of `old` replaced by `value`.
pub open spec fn spec_word_into(old: u32, value: u16) -> u32 {
    ((old / 0x1_0000) * 0x1_0000 + value as int) as u32
}

impl Registers {
    /// The active stack pointer: SSP in supervisor mode, USP in user mode.
    pub open spec fn spec_sp(self) -> u32 {
        if self.sr.s { self.ssp } else { self.usp }
    }

    /// Address register `reg`, register 7 being the active stack pointer.
    pub open spec fn spec_a(self, reg: u8) -> u32
        recommends
            reg <= 7,
    {
        if reg < 7 { self.a[reg as int] } else { self.spec_sp() }
    }

    /// Returns the stack pointer, SSP if in supervisor mode, USP if in user mode.
    pub fn sp(&self) -> (r: u32)
        ensures
            r == self.spec_sp(),
    {
        if self.sr.s { self.ssp } else { self.usp }
    }

    /// Sets the active stack pointer.
    pub fn set_sp(&mut self, value: u32)
        ensures
            final(self).sr == old(self).sr,
            final(self).d == old(self).d,
            final(self).a == old(self).a,
            final(self).pc == old(self).pc,
            final(self).spec_sp() == value,
            old(self).sr.s ==> final(self).usp == old(self).usp,
            !old(self).sr.s ==> final(self).ssp == old(self).ssp,
    {
        if self.sr.s { self.ssp = value; } else { self.usp = value; }
    }

    /// Returns an address register, register 7 being the active stack pointer.
    pub fn a(&self, reg: u8) -> (r: u32)
        requires
            reg <= 7,
        ensures
            r == self.spec_a(reg),
    {
        if reg < 7 { self.a[reg as usize] } else { self.sp() }
    }

    /// Sets an address register, register 7 being the active stack pointer.
    pub fn set_a(&mut self, reg: u8, value: u32)
        requires
            reg <= 7,
        ensures
            final(self).spec_a(reg) == value,
            final(self).d == old(self).d,
            final(self).sr == old(self).sr,
            final(self).pc == old(self).pc,
            forall|r: u8| r <= 7 && r != reg ==> final(self).spec_a(r) == old(self).spec_a(r),
            reg < 7 ==> final(self).usp == old(self).usp && final(self).ssp == old(self).ssp,
            reg == 7 ==> final(self).a == old(self).a,
            reg == 7 && old(self).sr.s ==> final(self).usp == old(self).usp,
            reg == 7 && !old(self).sr.s ==> final(self).ssp == old(self).ssp,
    {
        if reg < 7 { self.a[reg as usize] = value; } else { self.set_sp(value); }
    }

    /// Sets the lower 8-bits of the given data register to the given value.
    /// The higher 24-bits remains untouched.
    pub fn d_byte(&mut self, reg: u8, value: u8)
        requires
            reg <= 7,
        ensures
            final(self).d@ == old(self).d@.update(reg as int, spec_byte_into(old(self).d[reg as int], value)),
            final(self).a == old(self).a,
            final(self).usp == old(self).usp,
            final(self).ssp == old(self).ssp,
            final(self).sr == old(self).sr,
            final(self).pc == old(self).pc,
    {
        let old_value = self.d[reg as usize];
        self.d[reg as usize] = (old_value / 0x100) * 0x100 + value as u32;
    }

    /// Sets the lower 16-bits of the given data register to the given value.
    /// The higher 16-bits remains untouched.
    pub fn d_word(&mut self, reg: u8, value: u16)
        requires
            reg <= 7,
        ensures
            final(self).d@ == old(self).d@.update(reg as int, spec_word_into(old(self).d[reg as int], value)),
            final(self).a == old(self).a,
            final(self).usp == old(self).usp,
            final(self).ssp == old(self).ssp,
            final(self).sr == old(self).sr,
            final(self).pc == old(self).pc,
    {
        let old_value = self.d[reg as usize];
        self.d[reg as usize] = (old_value / 0x1_0000) * 0x1_0000 + value as u32;
    }
}

/// Whether the registers hold their initial values: all zero, and the status register at 0x2700.
pub open spec fn spec_initial_registers(r: Registers) -> bool {
    &&& r.d@ == seq![0u32, 0, 0, 0, 0, 0, 0, 0]
    &&& r.a@ == seq![0u32, 0, 0, 0, 0, 0, 0]
    &&& r.usp == 0
    &&& r.ssp == 0
    &&& r.sr == status_register::spec_from_raw(0x2700)
    &&& r.pc == 0
}

impl Default for Registers {
    fn default() -> (r: Self)
        ensures
            spec_initial_registers(r),
    {
        let d: [u32; 8] = [0, 0, 0, 0, 0, 0, 0, 0];
        let a: [u32; 7] = [0, 0, 0, 0, 0, 0, 0];
        assert(d@ =~= seq![0u32, 0, 0, 0, 0, 0, 0, 0]);
        assert(a@ =~= seq![0u32, 0, 0, 0, 0, 0, 0]);
        Registers { d, a, usp: 0, ssp: 0, sr: StatusRegister::default(), pc: 0 }
    }
}

/// Whether a sequence of exceptions is strictly increasing in processing order (so holds no duplicate).
pub open spec fn spec_sorted_exceptions(s: Seq<Exception>) -> bool {
    forall|i: int, j: int| 0 <= i < j < s.len() ==> spec_exception_lt(#[trigger] s[i], #[trigger] s[j])
}

/// A M68000 core.
pub struct M68000<CPU: CpuDetails> {
    /// The registers of the CPU.
    pub regs: Registers,

    /// The opcode of the instruction currently executing. Stored because it is an information of the long exception stack frame.
    pub current_opcode: u16,
    /// True if the CPU is stopped (after a STOP instruction), false to switch back to normal instruction execution.
    pub stop: bool,
    /// The pending exceptions, in processing order. Low priority are popped first (MC68000UM 6.2.3 Multiple Exceptions).
    pub exceptions: Vec<Exception>,
    /// The details of the emulated CPU.
    pub _cpu: PhantomData<CPU>,
    /// The stores the core made so far that the memory accepted: address, value and size, in order.
    pub stores: Ghost<Seq<(u32, u32, Size)>>,
    /// The instructions the core decoded from memory so far, in order: the address of each and the
    /// words the memory answered there.
    pub fetches: Ghost<Seq<(u32, Seq<u16>)>>,
    /// The operands the core read from memory so far that the memory answered: address, value and
    /// size, in order.
    pub loads: Ghost<Seq<(u32, u32, Size)>>,
    /// The requests the memory refused so far: address and size, in order.
    pub refused: Ghost<Seq<(u32, Size)>>,
}

impl<CPU: CpuDetails> M68000<CPU> {
    /// The pending exceptions, in the order they will be processed.
    pub open spec fn pending(&self) -> Seq<Exception> {
        self.exceptions@
    }

    /// The invariant of the core: the pending exceptions are kept sorted and without duplicates.
    pub open spec fn wf(&self) -> bool {
        spec_sorted_exceptions(self.pending())
    }

    /// Creates a new M68000 core.
    ///
    /// The created core has a [Reset vector](crate::exception::Vector::ResetSspPc) pushed, so that the first call to an interpreter method
    /// will first fetch the reset vectors, then will execute the first instruction.
    pub fn new() -> (r: Self)
        ensures
            r.wf(),
            spec_initial_registers(r.regs),
            !r.stop,
            r.pending() == seq![exception::spec_exception(0)],
    {
        let mut cpu = Self::new_no_reset();
        cpu.exceptions.push(Exception::from(Vector::ResetSspPc));
        assert(cpu.pending() =~= seq![exception::spec_exception(0)]);
        cpu
    }

    /// [Self::new] but without the initial reset, so you can initialize the core as you want.
    pub fn new_no_reset() -> (r: Self)
        ensures
            r.wf(),
            spec_initial_registers(r.regs),
            !r.stop,
            r.pending() == Seq::<Exception>::empty(),
            r.current_opcode == 0xFFFF,
            r.stores@ == Seq::<(u32, u32, Size)>::empty(),
            r.fetches@ == Seq::<(u32, Seq<u16>)>::empty(),
            r.loads@ == Seq::<(u32, u32, Size)>::empty(),
            r.refused@ == Seq::<(u32, Size)>::empty(),
    {
        Self {
            regs: Registers::default(),
            current_opcode: 0xFFFF,
            stop: false,
            exceptions: Vec::new(),
            _cpu: PhantomData,
            stores: Ghost(Seq::empty()),
            fetches: Ghost(Seq::empty()),
            loads: Ghost(Seq::empty()),
            refused: Ghost(Seq::empty()),
        }
    }

    /// Requests the core to process the given exception.
    ///
    /// The exception is added to the pending exceptions, unless the same one is already pending.
    /// It will be processed on the next call to an interpreter method. An exception that is not an
    /// interrupt masked by the interrupt mask wakes a core stopped by the STOP instruction.
    pub fn exception(&mut self, ex: Exception)
        requires
            old(self).wf(),
        ensures
            final(self).wf(),
            final(self).pending().to_set() == old(self).pending().to_set().insert(ex),
            final(self).regs == old(self).regs,
            final(self).stop == (old(self).stop && spec_masked(ex, old(self).regs.sr.interrupt_mask)),
            final(self).fetches == old(self).fetches && final(self).stores == old(self).stores
                && final(self).loads == old(self).loads && final(self).refused == old(self).refused,
    {
        if !(25 <= ex.vector && ex.vector <= 30 && ex.vector - 24 <= self.regs.sr.interrupt_mask) {
            self.stop = false;
        }
        let len = self.exceptions.len();
        let mut i: usize = 0;
        while i < len && self.exceptions[i].processed_before(&ex)
            invariant
                len == self.exceptions.len(),
                i <= len,
                forall|k: int| 0 <= k < i ==> spec_exception_lt(#[trigger] self.exceptions@[k], ex),
            decreases len - i,
        {
            i += 1;
        }
        if i < len && self.exceptions[i] == ex {
            proof {
                assert(self.exceptions@.to_set().insert(ex) =~= self.exceptions@.to_set());
            }
            return;
        }
        let ghost before = self.exceptions@;
        self.exceptions.insert(i, ex);
        proof {
            let after = self.exceptions@;
            assert(after =~= before.subrange(0, i as int).push(ex) + before.subrange(i as int, before.len() as int));
            assert forall|a: int, b: int| 0 <= a < b < after.len() implies spec_exception_lt(#[trigger] after[a], #[trigger] after[b]) by {
                if b < i {
                } else if b == i {
                } else if a == i {
                    assert(after[b] == before[b - 1]);
                    if i < len {
                        assert(!spec_exception_lt(before[i as int], ex));
                        assert(before[i as int] != ex);
                        if b - 1 > i {
                            assert(spec_exception_lt(before[i as int], before[b - 1]));
                        }
                    }
                } else if a < i {
                    assert(after[b] == before[b - 1]);
                    assert(spec_exception_lt(before[a], before[b - 1]));
                } else {
                    assert(after[a] == before[a - 1]);
                    assert(after[b] == before[b - 1]);
                }
            }
            assert(after.to_set() =~= before.to_set().insert(ex)) by {
                assert forall|e: Exception| after.to_set().contains(e) <==> before.to_set().insert(ex).contains(e) by {
                    if after.to_set().contains(e) {
                        let k = choose|k: int| 0 <= k < after.len() && after[k] == e;
                        if k < i {
                            assert(before[k] == e);
                        } else if k > i {
                            assert(before[k - 1] == e);
                        }
                    }
                    if before.to_set().contains(e) {
                        let k = choose|k: int| 0 <= k < before.len() && before[k] == e;
                        if k < i {
                            assert(after[k] == e);
                        } else {
                            assert(after[k + 1] == e);
                        }
                    }
                    if e == ex {
                        assert(after[i as int] == ex);
                    }
                }
            }
        }
    }

    /// Sets the lower 8-bits of the given data register to the given value.
    /// The higher 24-bits remains untouched.
    pub fn d_byte(&mut self, reg: u8, value: u8)
        requires
            reg <= 7,
        ensures
            final(self).regs.d@ == old(self).regs.d@.update(reg as int, spec_byte_into(old(self).regs.d[reg as int], value)),
            final(self).regs.a == old(self).regs.a,
            final(self).regs.usp == old(self).regs.usp,
            final(self).regs.ssp == old(self).regs.ssp,
            final(self).regs.sr == old(self).regs.sr,
            final(self).regs.pc == old(self).regs.pc,
            final(self).pending() == old(self).pending(),
            final(self).stop == old(self).stop,
    {
        self.regs.d_byte(reg, value);
    }

    /// Sets the lower 16-bits of the given data register to the given value.
    /// The higher 16-bits remains untouched.
    pub fn d_word(&mut self, reg: u8, value: u16)
        requires
            reg <= 7,
        ensures
            final(self).regs.d@ == old(self).regs.d@.update(reg as int, spec_word_into(old(self).regs.d[reg as int], value)),
            final(self).regs.a == old(self).regs.a,
            final(self).regs.usp == old(self).regs.usp,
            final(self).regs.ssp == old(self).regs.ssp,
            final(self).regs.sr == old(self).regs.sr,
            final(self).regs.pc == old(self).regs.pc,
            final(self).pending() == old(self).pending(),
            final(self).stop == old(self).stop,
    {
        self.regs.d_word(reg, value);
    }

    /// Returns an address register.
    pub fn a(&self, reg: u8) -> (r: u32)
        requires
            reg <= 7,
        ensures
            r == self.regs.spec_a(reg),
    {
        self.regs.a(reg)
    }

    /// Sets an address register, register 7 being the active stack pointer.
    pub fn a_mut(&mut self, reg: u8, value: u32)
        requires
            reg <= 7,
        ensures
            final(self).regs.spec_a(reg) == value,
            final(self).regs.d == old(self).regs.d,
            final(self).regs.sr == old(self).regs.sr,
            final(self).regs.pc == old(self).regs.pc,
            forall|r: u8| r <= 7 && r != reg ==> final(self).regs.spec_a(r) == old(self).regs.spec_a(r),
            reg < 7 ==> final(self).regs.usp == old(self).regs.usp && final(self).regs.ssp == old(self).regs.ssp,
            reg == 7 ==> final(self).regs.a == old(self).regs.a,
            reg == 7 && old(self).regs.sr.s ==> final(self).regs.usp == old(self).regs.usp,
            reg == 7 && !old(self).regs.sr.s ==> final(self).regs.ssp == old(self).regs.ssp,
            final(self).pending() == old(self).pending(),
            final(self).stop == old(self).stop,
    {
        self.regs.set_a(reg, value);
    }

    /// Returns the stack pointer, SSP if in supervisor mode, USP if in user mode.
    pub fn sp(&self) -> (r: u32)
        ensures
            r == self.regs.spec_sp(),
    {
        self.regs.sp()
    }

    /// Sets the stack pointer, SSP if in supervisor mode, USP if in user mode.
    pub fn sp_mut(&mut self, value: u32)
        ensures
            final(self).regs.spec_sp() == value,
            final(self).regs.sr == old(self).regs.sr,
            final(self).regs.d == old(self).regs.d,
            final(self).regs.a == old(self).regs.a,
            final(self).regs.pc == old(self).regs.pc,
            old(self).regs.sr.s ==> final(self).regs.usp == old(self).regs.usp,
            !old(self).regs.sr.s ==> final(self).regs.ssp == old(self).regs.ssp,
            final(self).pending() == old(self).pending(),
            final(self).stop == old(self).stop,
    {
        self.regs.set_sp(value);
    }
}


/// The pending exceptions of a well formed core are all different: requesting an exception that
/// is already pending does not queue it twice.
pub proof fn lemma_pending_distinct<CPU: CpuDetails>(cpu: M68000<CPU>)
    requires
        cpu.wf(),
    ensures
        cpu.pending().no_duplicates(),
{
    assert forall|i: int, j: int| 0 <= i < cpu.pending().len() && 0 <= j < cpu.pending().len() && i != j
        implies cpu.pending()[i] != cpu.pending()[j] by {
        if i < j {
            assert(spec_exception_lt(cpu.pending()[i], cpu.pending()[j]));
        } else {
            assert(spec_exception_lt(cpu.pending()[j], cpu.pending()[i]));
        }
    }
}

} // verus!
