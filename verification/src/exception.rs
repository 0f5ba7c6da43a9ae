//! Exception vectors and the priority of pending exceptions.

use vstd::prelude::*;
use crate::{CpuDetails, M68000, MemoryAccess, Registers, StackFormat, spec_sorted_exceptions};
use crate::status_register::{StatusRegister, spec_to_raw};
use crate::instruction::Size;
use crate::memory_access::spec_wrap32;

verus! {

/// Vector number of the Access (bus) Error exception.
pub const ACCESS_ERROR: u8 = 2;
/// Vector number of the Address Error exception.
pub const ADDRESS_ERROR: u8 = 3;
/// Vector number of the Illegal Instruction exception.
pub const ILLEGAL_INSTRUCTION: u8 = 4;
/// Vector number of the Zero Divide exception.
pub const ZERO_DIVIDE: u8 = 5;
/// Vector number of the CHK Instruction exception.
pub const CHK_INSTRUCTION: u8 = 6;
/// Vector number of the TRAPV Instruction exception.
pub const TRAPV_INSTRUCTION: u8 = 7;
/// Vector number of the Privilege Violation exception.
pub const PRIVILEGE_VIOLATION: u8 = 8;
/// Vector number of the Trace exception.
pub const TRACE: u8 = 9;
/// Vector number of the Format Error exception.
pub const FORMAT_ERROR: u8 = 14;
/// Vector number of the first TRAP instruction vector (TRAP #0).
pub const TRAP_0: u8 = 32;

/// Exception vectors of the 68000.
///
/// The vector number of a variant is given by [Vector::code].
#[derive(Clone, Copy, Debug, PartialEq, Eq, Structural)]
pub enum Vector {
    /// Reset vector (initial SSP at address 0 and initial PC at address 4).
    ResetSspPc,
    AccessError,
    AddressError,
    IllegalInstruction,
    ZeroDivide,
    ChkInstruction,
    TrapVInstruction,
    PrivilegeViolation,
    Trace,
    LineAEmulator,
    LineFEmulator,
    FormatError,
    UninitializedInterrupt,
    SpuriousInterrupt,
    Level1Interrupt,
    Level2Interrupt,
    Level3Interrupt,
    Level4Interrupt,
    Level5Interrupt,
    Level6Interrupt,
    Level7Interrupt,
    Trap0Instruction,
}

/// The vector number of each exception vector.
pub open spec fn spec_vector_code(v: Vector) -> u8 {
    match v {
        Vector::ResetSspPc => 0,
        Vector::AccessError => 2,
        Vector::AddressError => 3,
        Vector::IllegalInstruction => 4,
        Vector::ZeroDivide => 5,
        Vector::ChkInstruction => 6,
        Vector::TrapVInstruction => 7,
        Vector::PrivilegeViolation => 8,
        Vector::Trace => 9,
        Vector::LineAEmulator => 10,
        Vector::LineFEmulator => 11,
        Vector::FormatError => 14,
        Vector::UninitializedInterrupt => 15,
        Vector::SpuriousInterrupt => 24,
        Vector::Level1Interrupt => 25,
        Vector::Level2Interrupt => 26,
        Vector::Level3Interrupt => 27,
        Vector::Level4Interrupt => 28,
        Vector::Level5Interrupt => 29,
        Vector::Level6Interrupt => 30,
        Vector::Level7Interrupt => 31,
        Vector::Trap0Instruction => 32,
    }
}

impl Vector {
    /// Returns the vector number.
    pub fn code(self) -> (r: u8)
        ensures
            r == spec_vector_code(self),
    {
        match self {
            Vector::ResetSspPc => 0,
            Vector::AccessError => 2,
            Vector::AddressError => 3,
            Vector::IllegalInstruction => 4,
            Vector::ZeroDivide => 5,
            Vector::ChkInstruction => 6,
            Vector::TrapVInstruction => 7,
            Vector::PrivilegeViolation => 8,
            Vector::Trace => 9,
            Vector::LineAEmulator => 10,
            Vector::LineFEmulator => 11,
            Vector::FormatError => 14,
            Vector::UninitializedInterrupt => 15,
            Vector::SpuriousInterrupt => 24,
            Vector::Level1Interrupt => 25,
            Vector::Level2Interrupt => 26,
            Vector::Level3Interrupt => 27,
            Vector::Level4Interrupt => 28,
            Vector::Level5Interrupt => 29,
            Vector::Level6Interrupt => 30,
            Vector::Level7Interrupt => 31,
            Vector::Trap0Instruction => 32,
        }
    }
}

/// Whether the vector is one of the autovectored interrupts (spurious and levels 1 to 7).
pub open spec fn spec_is_interrupt(vector: u8) -> bool {
    24 <= vector <= 31
}

/// The priority of an exception vector, following the exception groups of the MC68000 user's manual
/// (6.2.3 Multiple Exceptions). A higher number is a higher priority:
/// - 5: reset;
/// - 4: access and address errors (group 0);
/// - 3: trace (group 1);
/// - 2: interrupts (group 1);
/// - 1: illegal instruction, line A and F, privilege violation, format error (group 1);
/// - 0: TRAP, TRAPV, CHK, zero divide and any other vector (group 2).
pub open spec fn spec_vector_priority(vector: u8) -> u8 {
    if vector == 0 {
        5
    } else if vector == 2 || vector == 3 {
        4
    } else if vector == 9 {
        3
    } else if spec_is_interrupt(vector) {
        2
    } else if vector == 4 || vector == 8 || vector == 10 || vector == 11 || vector == 14 {
        1
    } else {
        0
    }
}

/// Returns the priority of the given exception vector.
pub fn vector_priority(vector: u8) -> (r: u8)
    ensures
        r == spec_vector_priority(vector),
{
    if vector == 0 {
        5
    } else if vector == 2 || vector == 3 {
        4
    } else if vector == 9 {
        3
    } else if 24 <= vector && vector <= 31 {
        2
    } else if vector == 4 || vector == 8 || vector == 10 || vector == 11 || vector == 14 {
        1
    } else {
        0
    }
}

/// An exception waiting to be processed by the core.
#[derive(Clone, Copy, Debug, PartialEq, Eq, Structural)]
pub struct Exception {
    /// The vector number of the exception.
    pub vector: u8,
    /// Its priority, see [vector_priority]. Low priority exceptions are processed first,
    /// so that the highest priority handler is the first to execute.
    pub priority: u8,
}

/// The exception made of a vector number, with the vector's priority.
pub open spec fn spec_exception(vector: u8) -> Exception {
    Exception { vector, priority: spec_vector_priority(vector) }
}

/// The order in which pending exceptions are processed: by priority, then by vector number.
pub open spec fn spec_exception_lt(a: Exception, b: Exception) -> bool {
    a.priority < b.priority || (a.priority == b.priority && a.vector < b.vector)
}

impl Exception {
    /// Returns whether `self` is processed before `other`.
    pub fn processed_before(&self, other: &Exception) -> (r: bool)
        ensures
            r == spec_exception_lt(*self, *other),
    {
        self.priority < other.priority || (self.priority == other.priority && self.vector < other.vector)
    }
}

impl From<u8> for Exception {
    fn from(vector: u8) -> (r: Exception) {
        Exception { vector, priority: vector_priority(vector) }
    }
}

impl vstd::std_specs::convert::FromSpecImpl<u8> for Exception {
    open spec fn obeys_from_spec() -> bool {
        true
    }

    open spec fn from_spec(vector: u8) -> Exception {
        spec_exception(vector)
    }
}

impl From<Vector> for Exception {
    fn from(vector: Vector) -> (r: Exception) {
        let v = vector.code();
        Exception { vector: v, priority: vector_priority(v) }
    }
}

impl vstd::std_specs::convert::FromSpecImpl<Vector> for Exception {
    open spec fn obeys_from_spec() -> bool {
        true
    }

    open spec fn from_spec(vector: Vector) -> Exception {
        spec_exception(spec_vector_code(vector))
    }
}


/// Whether a pending exception waits: an interrupt whose level (1 to 6) is not above the interrupt mask.
/// Level 7 and the spurious interrupt are always accepted.
pub open spec fn spec_masked(ex: Exception, mask: u8) -> bool {
    25 <= ex.vector <= 30 && ex.vector - 24 <= mask
}

/// The interrupt mask once the exception of the given vector is processed: 7 for the reset, the
/// level of an interrupt, else unchanged.
pub open spec fn spec_next_mask(vector: u8, mask: u8) -> u8 {
    if vector == 0 {
        7
    } else if 25 <= vector <= 31 {
        (vector - 24) as u8
    } else {
        mask
    }
}

/// The exceptions that stay pending once the given ones are processed in order from the given
/// interrupt mask, the processing of the exception at index `fail` failing (none fails when no
/// exception is processed at that index): the interrupts masked when their turn comes, and every
/// exception after a failure.
pub open spec fn spec_still_pending(ps: Seq<Exception>, mask: u8, fail: int) -> Seq<Exception>
    decreases ps.len(),
{
    if ps.len() == 0 {
        Seq::empty()
    } else if spec_masked(ps[0], mask) {
        seq![ps[0]] + spec_still_pending(ps.drop_first(), mask, fail - 1)
    } else if fail == 0 {
        ps.drop_first()
    } else {
        spec_still_pending(ps.drop_first(), spec_next_mask(ps[0].vector, mask), fail - 1)
    }
}

/// What processing an exception may change of a core: its registers, and the stores, the loads
/// and the refused requests it made.
pub type ExceptionState = (Registers, Seq<(u32, u32, Size)>, Seq<(u32, u32, Size)>, Seq<(u32, Size)>);

/// The registers and memory requests of a core.
pub open spec fn spec_exception_state<CPU: CpuDetails>(cpu: M68000<CPU>) -> ExceptionState {
    (cpu.regs, cpu.stores@, cpu.loads@, cpu.refused@)
}

/// Processing the exception of the given vector, from the first state to the second, with the
/// given result: the status register enters the supervisor mode without trace, with the interrupt
/// mask of the exception; the reset loads the SSP and the PC from the longs at 0 and 4; any other
/// exception stacks the program counter and the status register (and first the format word with
/// the SCC68070 stack format) and loads the PC from the long at 4 times the vector; an Access Error
/// comes of a refused request, the vector read included.
pub open spec fn spec_exception_effect<CPU: CpuDetails>(b: ExceptionState, vector: u8, a: ExceptionState, r: Result<usize, u8>) -> bool {
    &&& a.0.d == b.0.d
    &&& a.0.a == b.0.a
    &&& r matches Err(e) ==> e == ACCESS_ERROR || e == ADDRESS_ERROR
    &&& a.0.sr == (StatusRegister {
            s: true,
            t: false,
            interrupt_mask: spec_next_mask(vector, b.0.sr.interrupt_mask),
            ..b.0.sr
        })
    &&& vector == 0 ==> a.0.usp == b.0.usp && a.1 == b.1
    &&& vector == 0 && r is Ok ==> r == Ok::<usize, u8>(CPU::VECTOR_RESET)
        && a.2 == b.2.push((0u32, a.0.ssp, Size::Long)).push((4u32, a.0.pc, Size::Long))
    &&& vector != 0 && r is Ok ==> r == Ok::<usize, u8>(CPU::spec_vector_time(vector)) && a.0.usp == b.0.usp
        && a.2 == b.2.push(((vector as u32 * 4) as u32, a.0.pc, Size::Long))
    &&& vector != 0 && r is Ok && CPU::STACK_FORMAT == StackFormat::MC68000 ==>
        a.0.ssp == spec_wrap32(b.0.ssp - 6)
        && a.1 == b.1.push((spec_wrap32(b.0.ssp - 4), b.0.pc, Size::Long))
            .push((spec_wrap32(b.0.ssp - 6), spec_to_raw(b.0.sr) as u32, Size::Word))
    &&& vector != 0 && r is Ok && CPU::STACK_FORMAT == StackFormat::SCC68070 ==>
        a.0.ssp == spec_wrap32(b.0.ssp - 8)
        && a.1 == b.1.push((spec_wrap32(b.0.ssp - 2), (vector as u32 * 4) as u32, Size::Word))
            .push((spec_wrap32(b.0.ssp - 6), b.0.pc, Size::Long))
            .push((spec_wrap32(b.0.ssp - 8), spec_to_raw(b.0.sr) as u32, Size::Word))
    &&& r == Err::<usize, u8>(ACCESS_ERROR) ==> a.3 == b.3.push(a.3.last())
    &&& r != Err::<usize, u8>(ACCESS_ERROR) ==> a.3 == b.3
}

/// One pending exception at its turn: processed from the first state to the second with the given
/// result, or left as it is with no result.
pub open spec fn spec_pending_step<CPU: CpuDetails>(e: Exception, processed: bool, b: ExceptionState, a: ExceptionState,
    res: Option<Result<usize, u8>>) -> bool {
    if processed {
        res matches Some(r) && spec_exception_effect::<CPU>(b, e.vector, a, r)
    } else {
        res is None && a == b
    }
}

/// Whether the exception at index `k` is processed at its turn, from the given state: it comes no
/// later than the failed one and is not an interrupt masked by the interrupt mask.
pub open spec fn spec_turn_processed(e: Exception, k: int, fail: int, st: ExceptionState) -> bool {
    k <= fail && !spec_masked(e, st.0.sr.interrupt_mask)
}

/// The pending exceptions `ps` taken in order through the states `sts`, with the results `res`:
/// the exception at index `k` is processed unless it is an interrupt masked by the interrupt mask
/// of its turn or an exception after the one at index `fail`, whose processing is the one that
/// failed (none failed when `fail` is past the last index).
pub open spec fn spec_pending_run<CPU: CpuDetails>(ps: Seq<Exception>, fail: int, sts: Seq<ExceptionState>,
    res: Seq<Option<Result<usize, u8>>>) -> bool {
    &&& 0 <= fail
    &&& sts.len() == ps.len() + 1
    &&& res.len() == ps.len()
    &&& forall|k: int| 0 <= k < ps.len() ==> #[trigger] spec_pending_step::<CPU>(ps[k],
            spec_turn_processed(ps[k], k, fail, sts[k]), sts[k], sts[k + 1], res[k])
    &&& forall|k: int| 0 <= k < ps.len() ==> ((#[trigger] res[k]) matches Some(Err(_)) <==> k == fail)
}

/// The time that the processed exceptions took, added without going past `usize::MAX`.
pub open spec fn spec_pending_time(res: Seq<Option<Result<usize, u8>>>) -> usize
    decreases res.len(),
{
    if res.len() == 0 {
        0
    } else {
        spec_pending_time(res.drop_last()).saturating_add(match res.last() {
            Some(Ok(t)) => t,
            _ => 0usize,
        })
    }
}

impl<CPU: CpuDetails> M68000<CPU> {
    /// Processes an exception: saves the status register, enters the supervisor mode (clearing
    /// trace, and raising the interrupt mask to the level of an interrupt), stacks the program
    /// counter and the status register (and before them the format word with the SCC68070 stack
    /// format), and jumps to the address read in the exception vector.
    ///
    /// The reset vector instead loads the SSP and the PC from addresses 0 and 4.
    ///
    /// Returns the time it took, or the vector of the access or address error that occured.
    #[verifier::rlimit(40)]
    #[verifier::spinoff_prover]
    pub fn process_exception<M: MemoryAccess + ?Sized>(&mut self, memory: &mut M, vector: u8) -> (r: Result<usize, u8>)
        ensures
            final(self).exceptions@ == old(self).exceptions@,
            final(self).stop == old(self).stop,
            final(self).current_opcode == old(self).current_opcode,
            final(self).fetches == old(self).fetches,
            final(self).regs.d == old(self).regs.d,
            r matches Err(e) ==> e == ACCESS_ERROR || e == ADDRESS_ERROR,
            r is Ok ==> final(self).regs.sr.s && !final(self).regs.sr.t,
            vector == 0 && r is Ok ==> r == Ok::<usize, u8>(CPU::VECTOR_RESET) && final(self).regs.sr.interrupt_mask == 7,
            25 <= vector <= 31 && r is Ok ==> final(self).regs.sr.interrupt_mask == vector - 24,
            vector != 0 && !(25 <= vector <= 31) && r is Ok ==> final(self).regs.sr.interrupt_mask == old(self).regs.sr.interrupt_mask,
            vector != 0 && r is Ok && CPU::STACK_FORMAT == StackFormat::MC68000 ==>
                final(self).regs.ssp == crate::arithmetic::spec_wrap(old(self).regs.ssp - 6, crate::instruction::Size::Long),
            vector != 0 && r is Ok ==> final(self).regs.usp == old(self).regs.usp,
            vector != 0 && r is Ok && CPU::STACK_FORMAT == StackFormat::SCC68070 ==>
                final(self).regs.ssp == crate::arithmetic::spec_wrap(old(self).regs.ssp - 8, crate::instruction::Size::Long),
            final(self).regs.a == old(self).regs.a,
            final(self).regs.sr == (StatusRegister {
                s: true,
                t: false,
                interrupt_mask: if vector == 0 { 7 } else if 25 <= vector <= 31 { (vector - 24) as u8 } else { old(self).regs.sr.interrupt_mask },
                ..old(self).regs.sr
            }),
            vector == 0 ==> final(self).regs.usp == old(self).regs.usp,
            vector != 0 && r is Ok ==> r == Ok::<usize, u8>(CPU::spec_vector_time(vector)),
            vector == 0 ==> final(self).stores == old(self).stores,
            vector != 0 && r is Ok && CPU::STACK_FORMAT == StackFormat::MC68000 ==> final(self).stores@ == old(self).stores@
                .push((spec_wrap32(old(self).regs.ssp - 4), old(self).regs.pc, Size::Long))
                .push((spec_wrap32(old(self).regs.ssp - 6), spec_to_raw(old(self).regs.sr) as u32, Size::Word)),
            vector != 0 && r is Ok && CPU::STACK_FORMAT == StackFormat::SCC68070 ==> final(self).stores@ == old(self).stores@
                .push((spec_wrap32(old(self).regs.ssp - 2), (vector as u32 * 4) as u32, Size::Word))
                .push((spec_wrap32(old(self).regs.ssp - 6), old(self).regs.pc, Size::Long))
                .push((spec_wrap32(old(self).regs.ssp - 8), spec_to_raw(old(self).regs.sr) as u32, Size::Word)),
            vector == 0 && r is Ok ==> final(self).loads@ == old(self).loads@.push((0u32, final(self).regs.ssp, Size::Long))
                .push((4u32, final(self).regs.pc, Size::Long)),
            vector != 0 && r is Ok ==> final(self).loads@ == old(self).loads@.push(((vector as u32 * 4) as u32, final(self).regs.pc, Size::Long)),
            r == Err::<usize, u8>(ACCESS_ERROR) ==> final(self).refused@.len() == old(self).refused@.len() + 1,
            r != Err::<usize, u8>(ACCESS_ERROR) ==> final(self).refused == old(self).refused,
            vector == 0 && r == Err::<usize, u8>(ACCESS_ERROR) ==> final(self).refused@.last() == (0u32, Size::Long)
                || final(self).refused@.last() == (4u32, Size::Long),
            vector != 0 && r == Err::<usize, u8>(ACCESS_ERROR) && final(self).stores@.len() == old(self).stores@.len()
                + (if CPU::STACK_FORMAT == StackFormat::SCC68070 { 3int } else { 2int }) ==> final(self).refused@.last() == ((vector as u32 * 4) as u32, Size::Long),
            spec_exception_effect::<CPU>(spec_exception_state(*old(self)), vector, spec_exception_state(*final(self)), r),
    {
        if vector == 0 {
            self.regs.sr.t = false;
            self.regs.sr.s = true;
            self.regs.sr.interrupt_mask = 7;
            let ssp = match self.read_memory(memory, 0, Size::Long) {
                Some(v) => v,
                None => { return Err(ACCESS_ERROR); },
            };
            self.regs.ssp = ssp;
            self.regs.pc = match self.read_memory(memory, 4, Size::Long) {
                Some(v) => v,
                None => { return Err(ACCESS_ERROR); },
            };
            return Ok(CPU::VECTOR_RESET);
        }
        let sr = self.regs.sr.to_raw();
        self.regs.sr.s = true;
        self.regs.sr.t = false;
        if 25 <= vector && vector <= 31 {
            self.regs.sr.interrupt_mask = vector - 24;
        }
        if CPU::STACK_FORMAT == StackFormat::SCC68070 {
            self.push_word(memory, vector as u16 * 4)?;
        }
        let pc = self.regs.pc;
        self.push_long(memory, pc)?;
        self.push_word(memory, sr)?;
        self.regs.pc = match self.read_memory(memory, vector as u32 * 4, Size::Long) {
            Some(v) => v,
            None => { return Err(ACCESS_ERROR); },
        };
        Ok(CPU::vector_execution_time(vector))
    }

    /// Processes the pending exceptions, the lowest priority first so that the handler of the highest
    /// priority one executes first. An interrupt whose level is not above the interrupt mask stays
    /// pending. An exception whose processing fails is dropped, and the ones after it stay pending.
    ///
    /// Returns the time it took.
    pub fn process_pending_exceptions<M: MemoryAccess + ?Sized>(&mut self, memory: &mut M) -> (r: usize)
        requires
            old(self).wf(),
        ensures
            final(self).wf(),
            final(self).stop == old(self).stop,
            final(self).current_opcode == old(self).current_opcode,
            final(self).fetches == old(self).fetches,
            forall|e: Exception| final(self).pending().contains(e) ==> old(self).pending().contains(e),
            final(self).regs.d == old(self).regs.d,
            old(self).pending().len() == 0 ==> r == 0 && final(self).regs == old(self).regs && final(self).pending() == old(self).pending(),
            old(self).regs.sr.interrupt_mask <= 7 ==> forall|e: Exception| #[trigger] old(self).pending().contains(e)
                && spec_masked(e, old(self).regs.sr.interrupt_mask) ==> final(self).pending().contains(e),
            old(self).regs.sr.interrupt_mask <= 7 ==> old(self).regs.sr.interrupt_mask <= final(self).regs.sr.interrupt_mask <= 7,
            exists|fail: int| final(self).pending() == #[trigger] spec_still_pending(old(self).pending(), old(self).regs.sr.interrupt_mask, fail),
            exists|fail: int, sts: Seq<ExceptionState>, res: Seq<Option<Result<usize, u8>>>|
                #[trigger] spec_pending_run::<CPU>(old(self).pending(), fail, sts, res)
                && sts[0] == spec_exception_state(*old(self)) && sts.last() == spec_exception_state(*final(self))
                && final(self).pending() == spec_still_pending(old(self).pending(), old(self).regs.sr.interrupt_mask, fail)
                && r == spec_pending_time(res),
    {
        let ghost mask0 = self.regs.sr.interrupt_mask;
        let mut pending: Vec<Exception> = Vec::new();
        std::mem::swap(&mut pending, &mut self.exceptions);
        let mut kept: Vec<Exception> = Vec::new();
        let mut total: usize = 0;
        let mut failed = false;
        let mut i: usize = 0;
        let ghost mut last: int = -1;
        let ghost mut fail_at: int = pending@.len() as int;
        let ghost mut sts: Seq<ExceptionState> = seq![spec_exception_state(*self)];
        let ghost mut res: Seq<Option<Result<usize, u8>>> = Seq::empty();
        proof {
            assert(pending@.skip(0) =~= pending@);
            assert forall|f: int| 0 <= f implies #[trigger] spec_still_pending(pending@, mask0, f)
                == kept@ + spec_still_pending(pending@.skip(0), self.regs.sr.interrupt_mask, f) by {
                assert(kept@ + spec_still_pending(pending@, mask0, f) =~= spec_still_pending(pending@, mask0, f));
            }
        }
        while i < pending.len()
            invariant
                i <= pending.len(),
                pending@ == old(self).exceptions@,
                spec_sorted_exceptions(pending@),
                spec_sorted_exceptions(kept@),
                -1 <= last < i,
                kept.len() > 0 ==> last >= 0 && kept@.last() == pending@[last],
                forall|k: int| 0 <= k < kept.len() ==> #[trigger] pending@.contains(kept@[k]),
                self.stop == old(self).stop,
                self.current_opcode == old(self).current_opcode,
                self.fetches == old(self).fetches,
                self.regs.d == old(self).regs.d,
                i == 0 ==> self.regs == old(self).regs && total == 0,
                pending.len() == 0 ==> kept@ == Seq::<Exception>::empty(),
                old(self).regs.sr.interrupt_mask <= 7 ==> old(self).regs.sr.interrupt_mask <= self.regs.sr.interrupt_mask <= 7,
                old(self).regs.sr.interrupt_mask <= 7 ==> forall|k: int| 0 <= k < i && spec_masked(#[trigger] pending@[k], old(self).regs.sr.interrupt_mask)
                    ==> kept@.contains(pending@[k]),
                mask0 == old(self).regs.sr.interrupt_mask,
                !failed ==> forall|f: int| i <= f ==> #[trigger] spec_still_pending(pending@, mask0, f)
                    == kept@ + spec_still_pending(pending@.skip(i as int), self.regs.sr.interrupt_mask, f - i),
                failed ==> spec_still_pending(pending@, mask0, fail_at) == kept@ + pending@.skip(i as int),
                !failed ==> fail_at == pending@.len(),
                failed ==> 0 <= fail_at < i,
                sts.len() == i + 1,
                res.len() == i,
                sts[0] == spec_exception_state(*old(self)),
                sts.last() == spec_exception_state(*self),
                total == spec_pending_time(res),
                forall|k: int| 0 <= k < i ==> #[trigger] spec_pending_step::<CPU>(pending@[k],
                    spec_turn_processed(pending@[k], k, fail_at, sts[k]), sts[k], sts[k + 1], res[k]),
                forall|k: int| 0 <= k < i ==> ((#[trigger] res[k]) matches Some(Err(_)) <==> (failed && k == fail_at)),
            decreases pending.len() - i,
        {
            let ghost ps = pending@.skip(i as int);
            let ghost mask_i = self.regs.sr.interrupt_mask;
            let ghost kept_i = kept@;
            let ghost failed_i = failed;
            let ghost sts_i = sts;
            let ghost res_i = res;
            let ghost fail_i = fail_at;
            proof {
                assert(ps[0] == pending@[i as int]);
                assert(ps.drop_first() =~= pending@.skip(i + 1));
            }
            let ex = pending[i];
            if failed || (25 <= ex.vector && ex.vector <= 30 && ex.vector - 24 <= self.regs.sr.interrupt_mask) {
                proof {
                    if kept.len() > 0 {
                        assert(spec_exception_lt(pending@[last], pending@[i as int]));
                    }
                    assert(pending@.contains(pending@[i as int]));
                }
                let ghost kept_before = kept@;
                kept.push(ex);
                proof {
                    assert(kept@.last() == ex);
                    if old(self).regs.sr.interrupt_mask <= 7 {
                        assert forall|k: int| 0 <= k < i && spec_masked(#[trigger] pending@[k], old(self).regs.sr.interrupt_mask) implies kept@.contains(pending@[k]) by {
                            let w = choose|w: int| 0 <= w < kept_before.len() && kept_before[w] == pending@[k];
                            assert(kept@[w] == pending@[k]);
                        }
                    }
                    assert(kept@[kept@.len() - 1] == pending@[i as int]);
                    last = i as int;
                    res = res.push(None);
                    sts = sts.push(spec_exception_state(*self));
                    assert(res.drop_last() =~= res_i);
                    assert forall|a: int, b: int| 0 <= a < b < kept.len() implies spec_exception_lt(#[trigger] kept@[a], #[trigger] kept@[b]) by {
                        if b < kept.len() - 1 {
                        } else if a < kept.len() - 2 {
                            assert(spec_exception_lt(kept@[a], kept@[kept.len() - 2]));
                        }
                    }
                }
            } else {
                proof {
                    if old(self).regs.sr.interrupt_mask <= 7 {
                        assert(!spec_masked(pending@[i as int], old(self).regs.sr.interrupt_mask));
                    }
                }
                let processed = self.process_exception(memory, ex.vector);
                match processed {
                    Ok(t) => { total = total.saturating_add(t); },
                    Err(_) => { failed = true; },
                }
                proof {
                    res = res.push(Some(processed));
                    sts = sts.push(spec_exception_state(*self));
                    assert(res.drop_last() =~= res_i);
                    if failed {
                        fail_at = i as int;
                    }
                }
            }
            proof {
                if failed_i {
                    let f = choose|f: int| #[trigger] spec_still_pending(pending@, mask0, f) == kept_i + ps;
                    assert(kept@ + pending@.skip(i + 1) =~= kept_i + ps);
                    assert(spec_still_pending(pending@, mask0, f) == kept@ + pending@.skip(i + 1));
                } else if spec_masked(ex, mask_i) {
                    assert forall|f: int| i + 1 <= f implies #[trigger] spec_still_pending(pending@, mask0, f)
                        == kept@ + spec_still_pending(pending@.skip(i + 1), self.regs.sr.interrupt_mask, f - (i + 1)) by {
                        assert(spec_still_pending(pending@, mask0, f) == kept_i + spec_still_pending(ps, mask_i, f - i));
                        assert(kept@ + spec_still_pending(pending@.skip(i + 1), mask_i, f - (i + 1))
                            =~= kept_i + (seq![ex] + spec_still_pending(pending@.skip(i + 1), mask_i, f - (i + 1))));
                    }
                } else if failed {
                    assert(spec_still_pending(ps, mask_i, 0) == pending@.skip(i + 1));
                    assert(spec_still_pending(pending@, mask0, i as int) == kept@ + pending@.skip(i + 1));
                } else {
                    assert(self.regs.sr.interrupt_mask == spec_next_mask(ex.vector, mask_i));
                    assert forall|f: int| i + 1 <= f implies #[trigger] spec_still_pending(pending@, mask0, f)
                        == kept@ + spec_still_pending(pending@.skip(i + 1), self.regs.sr.interrupt_mask, f - (i + 1)) by {
                        assert(spec_still_pending(pending@, mask0, f) == kept_i + spec_still_pending(ps, mask_i, f - i));
                    }
                }
            }
            proof {
                assert forall|k: int| 0 <= k < i + 1 implies #[trigger] spec_pending_step::<CPU>(pending@[k],
                    spec_turn_processed(pending@[k], k, fail_at, sts[k]), sts[k], sts[k + 1], res[k]) by {
                    if k < i {
                        assert(spec_pending_step::<CPU>(pending@[k], spec_turn_processed(pending@[k], k, fail_i, sts_i[k]), sts_i[k], sts_i[k + 1], res_i[k]));
                        assert(sts[k] == sts_i[k] && sts[k + 1] == sts_i[k + 1] && res[k] == res_i[k]);
                    } else {
                        assert(sts[k] == sts_i.last());
                    }
                }
                assert forall|k: int| 0 <= k < i + 1 implies ((#[trigger] res[k]) matches Some(Err(_)) <==> (failed && k == fail_at)) by {
                    if k < i {
                        assert(res[k] == res_i[k]);
                    }
                }
            }
            i = i + 1;
        }
        proof {
            if !failed {
                assert(pending@.skip(i as int) =~= Seq::<Exception>::empty());
                assert(spec_still_pending(pending@, mask0, i as int) == kept@ + spec_still_pending(pending@.skip(i as int), self.regs.sr.interrupt_mask, 0));
                assert(kept@ + Seq::<Exception>::empty() =~= kept@);
            } else {
                assert(kept@ + pending@.skip(i as int) =~= kept@);
            }
            assert(spec_still_pending(pending@, mask0, fail_at) == kept@);
            assert(spec_pending_run::<CPU>(pending@, fail_at, sts, res));
        }
        self.exceptions = kept;
        proof {
            assert(sts.last() == spec_exception_state(*self));
        }
        total
    }
}


/// The reset that a new core has pending is processed at its turn, whatever the interrupt mask;
/// when its processing succeeds it took the reset time, loaded the SSP and the PC from the longs at
/// 0 and 4, in that order, stored nothing, and left the core in supervisor mode without trace and
/// with the interrupt mask at 7.
pub proof fn lemma_reset_processing<CPU: CpuDetails>(fail: int, sts: Seq<ExceptionState>, res: Seq<Option<Result<usize, u8>>>)
    requires
        spec_pending_run::<CPU>(seq![spec_exception(0)], fail, sts, res),
    ensures
        res[0] is Some,
        res[0] matches Some(Ok(t)) ==> t == CPU::VECTOR_RESET
            && sts[1].2 == sts[0].2.push((0u32, sts[1].0.ssp, Size::Long)).push((4u32, sts[1].0.pc, Size::Long))
            && sts[1].1 == sts[0].1 && sts[1].0.sr.s && !sts[1].0.sr.t && sts[1].0.sr.interrupt_mask == 7,
        res[0] matches Some(Err(e)) ==> e == ACCESS_ERROR || e == ADDRESS_ERROR,
{
    let ps = seq![spec_exception(0)];
    assert(spec_pending_step::<CPU>(ps[0], spec_turn_processed(ps[0], 0, fail, sts[0]), sts[0], sts[1], res[0]));
}

/// The order in which pending exceptions are processed is a strict total order: no exception
/// comes before itself, the order is transitive, and of two different exceptions one comes first.
pub proof fn lemma_processing_order(a: Exception, b: Exception, c: Exception)
    ensures
        !spec_exception_lt(a, a),
        spec_exception_lt(a, b) ==> !spec_exception_lt(b, a),
        spec_exception_lt(a, b) && spec_exception_lt(b, c) ==> spec_exception_lt(a, c),
        a != b ==> spec_exception_lt(a, b) || spec_exception_lt(b, a),
{
}

} // verus!
