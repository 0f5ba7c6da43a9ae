//! The interpreter loop: fetch, decode and execute instructions, and process exceptions.

use vstd::prelude::*;
use crate::{CpuDetails, M68000, MemoryAccess, Registers};
use crate::arithmetic::{wrapping_add32, spec_wrap, spec_logic_sr};
use crate::arithmetic::{ShiftKind, spec_low, spec_merge, spec_sign_extend};
use crate::exception::{Exception, ExceptionState, spec_exception_state, spec_pending_run, ACCESS_ERROR, ADDRESS_ERROR, ILLEGAL_INSTRUCTION, PRIVILEGE_VIOLATION, TRACE, TRAP_0, TRAPV_INSTRUCTION, spec_exception};
use crate::instruction::{Direction, Instruction, Operands, Size, spec_decode, spec_extension_count};
use crate::interpreter::{InterpreterResult, spec_refusal, SR_UPPER_MASK, spec_control_time, spec_d_sr_set, spec_is_control, spec_operand_dispatch, spec_other_a_kept,
    spec_shift_count, spec_shift_register_effect, spec_time_mul};
use crate::status_register::{StatusRegister, spec_and_raw, spec_condition, spec_from_raw, spec_or_ccr, spec_or_raw, spec_xor_ccr, spec_xor_raw};
use crate::isa::{Isa, spec_is_privileged, spec_isa};
use crate::addressing_modes::AddressingMode;
use crate::arithmetic::{spec_modulus, spec_signed};
use crate::assembler::{spec_register_effective_address, spec_register_size_mode_register, spec_rotation_direction_size_mode_register,
    lemma_decode_multiply_divide, lemma_decode_moveusp, lemma_decode_shift_register, lemma_decode_extended_arithmetic};
use crate::memory_access::{MemoryIter, spec_a_set, spec_ea_address, spec_same_state, spec_wrap32, spec_wrapping_add};

verus! {

/// The instruction and exception of one step of the interpreter: the trace exception follows an
/// instruction that succeeded when the trace bit was set before it, unless it is privileged.
pub open spec fn spec_step_exception(r: InterpreterResult, trace: bool, opcode: u16) -> Option<u8> {
    match r {
        Ok(_) => if trace && !spec_is_privileged(spec_isa(opcode)) { Some(TRACE) } else { None },
        Err(e) => Some(e),
    }
}

/// A register shift or rotation of the given kind, with valid registers: its effect on the registers,
/// and its time, from the base time of its size and the time per shifted bit.
pub open spec fn spec_shift_dispatch(old: Registers, new: Registers, kind: ShiftKind, rot: u8, dir: Direction, size: Size, mode: u8, reg: u8,
    time_long: usize, time_byte_word: usize, time_count: usize, r: InterpreterResult) -> bool {
    rot <= 7 && reg <= 7 ==> spec_shift_register_effect(old, new, kind, rot, dir, size, mode, reg)
        && r == Ok::<usize, u8>((if size == Size::Long { time_long } else { time_byte_word }).saturating_add(
            spec_time_mul(time_count, spec_shift_count(old, rot, mode) as usize)))
}

/// A status register operation of the supervisor: a Privilege Violation that changes nothing in user
/// mode, else the given status register and time.
pub open spec fn spec_privileged_sr(old: Registers, new: Registers, sr: StatusRegister, time: usize, r: InterpreterResult) -> bool {
    if old.sr.s {
        r == Ok::<usize, u8>(time) && new == (Registers { sr: sr, ..old })
    } else {
        r == Err::<usize, u8>(PRIVILEGE_VIOLATION) && new == old
    }
}

/// EXG with valid registers: the two registers exchanged, every other register kept.
pub open spec fn spec_exg_effect(old: Registers, new: Registers, rx: u8, mode: Direction, ry: u8) -> bool {
    &&& new.sr == old.sr && new.pc == old.pc
    &&& mode == Direction::ExchangeData ==>
        new.d@ == old.d@.update(rx as int, old.d[ry as int]).update(ry as int, old.d[rx as int])
        && new.a == old.a && new.usp == old.usp && new.ssp == old.ssp
    &&& mode == Direction::ExchangeAddress ==>
        new.spec_a(rx) == old.spec_a(ry) && new.spec_a(ry) == old.spec_a(rx)
        && new.d == old.d && spec_other_a_kept(old, new, rx, ry)
    &&& mode != Direction::ExchangeData && mode != Direction::ExchangeAddress ==>
        new.spec_a(ry) == old.d[rx as int] && new.d@ == old.d@.update(rx as int, old.spec_a(ry))
        && spec_other_a_kept(old, new, ry, ry)
}

/// EXT: the sign-extended value of a data register, its low byte to a word (`mode` 2) or its low word
/// to a long.
pub open spec fn spec_ext_value(old_d: u32, mode: u8) -> u32 {
    if mode == 2 {
        spec_merge(old_d, spec_low(spec_sign_extend(spec_low(old_d, Size::Byte), Size::Byte), Size::Word), Size::Word)
    } else {
        spec_sign_extend(spec_low(old_d, Size::Word), Size::Word)
    }
}

/// DBcc with a valid condition and register: nothing when the condition is true, else the low word
/// of the register decremented and a branch to `pc + disp` unless it became -1.
pub open spec fn spec_dbcc_effect<CPU: CpuDetails>(old: Registers, new: Registers, pc: u32, cc: u8, reg: u8, disp: i16, r: InterpreterResult) -> bool {
    if spec_condition(old.sr, cc) {
        r == Ok::<usize, u8>(CPU::DBCC_TRUE) && new == old
    } else {
        let counter = spec_wrap(old.d[reg as int] - 1, Size::Word);
        &&& new.d@ == old.d@.update(reg as int, spec_merge(old.d[reg as int], counter, Size::Word))
        &&& new.a == old.a && new.usp == old.usp && new.ssp == old.ssp && new.sr == old.sr
        &&& counter != 0xFFFF ==> r == Ok::<usize, u8>(CPU::DBCC_FALSE_BRANCH) && new.pc == spec_wrap(pc + disp, Size::Long)
        &&& counter == 0xFFFF ==> r == Ok::<usize, u8>(CPU::DBCC_FALSE_NO_BRANCH) && new.pc == old.pc
    }
}

/// What executing a decoded instruction gives: the effect on the registers, and the result, of the
/// execution method of its instruction, `old` and `opcode` being the registers and the opcode it
/// starts from. The instructions whose whole effect lies in the registers are written here, the
/// others in [spec_operand_dispatch].
pub open spec fn spec_dispatch<CPU: CpuDetails>(old: Registers, opcode: u16, new: Registers, isa: Isa, instruction: Instruction, r: InterpreterResult) -> bool {
    match (isa, instruction.operands) {
        (Isa::Unknown, Operands::NoOperands) => r == Err::<usize, u8>(ILLEGAL_INSTRUCTION),
        (Isa::Illegal, Operands::NoOperands) => r == Err::<usize, u8>(ILLEGAL_INSTRUCTION),
        (Isa::Nop, Operands::NoOperands) => r == Ok::<usize, u8>(CPU::NOP) && new == old,
        (Isa::Trap, Operands::Vector(v)) => v <= 15 ==> r == Err::<usize, u8>((TRAP_0 + v) as u8),
        (Isa::Moveq, Operands::RegisterData(reg, data)) => reg <= 7 ==> r == Ok::<usize, u8>(CPU::MOVEQ)
            && spec_d_sr_set(old, new, reg, spec_wrap(data as int, Size::Long),
                StatusRegister { n: data < 0, z: data == 0, v: false, c: false, ..old.sr }),
        (Isa::Swap, Operands::Register(reg)) => reg <= 7 ==> r == Ok::<usize, u8>(CPU::SWAP) && ({
            let old_d = old.d[reg as int];
            let value = ((old_d % 0x1_0000) * 0x1_0000 + old_d / 0x1_0000) as u32;
            spec_d_sr_set(old, new, reg, value, spec_logic_sr(old.sr, value, Size::Long))
        }),
        (Isa::Bra, Operands::Displacement(disp)) =>
            new == (Registers { pc: spec_wrap(spec_wrap(instruction.pc + 2, Size::Long) + disp, Size::Long), ..old })
            && r == Ok::<usize, u8>(if opcode % 0x100 == 0 { CPU::BRA_WORD } else { CPU::BRA_BYTE }),
        (Isa::Andiccr, Operands::Immediate(imm)) => r == Ok::<usize, u8>(CPU::ANDICCR)
            && new == (Registers { sr: spec_and_raw(old.sr, SR_UPPER_MASK | imm), ..old }),
        (Isa::Oriccr, Operands::Immediate(imm)) => r == Ok::<usize, u8>(CPU::ORICCR)
            && new == (Registers { sr: spec_or_ccr(old.sr, imm), ..old }),
        (Isa::Jmp, Operands::EffectiveAddress(am)) => spec_is_control(am) ==> r == Ok::<usize, u8>(spec_control_time(am,
                CPU::JMP_ARI, CPU::JMP_ARIWD, CPU::JMP_ARIWI8, CPU::JMP_ABSSHORT, CPU::JMP_ABSLONG, CPU::JMP_PCIWD, CPU::JMP_PCIWI8))
            && new == (Registers { pc: spec_ea_address(old, am, None), ..old }),
        (Isa::Lea, Operands::RegisterEffectiveAddress(reg, am)) => reg <= 7 && spec_is_control(am) ==> r == Ok::<usize, u8>(spec_control_time(am,
                CPU::LEA_ARI, CPU::LEA_ARIWD, CPU::LEA_ARIWI8, CPU::LEA_ABSSHORT, CPU::LEA_ABSLONG, CPU::LEA_PCIWD, CPU::LEA_PCIWI8))
            && spec_a_set(old, new, reg, spec_ea_address(old, am, None)),
        (Isa::Eoriccr, Operands::Immediate(imm)) => r == Ok::<usize, u8>(CPU::EORICCR)
            && new == (Registers { sr: spec_xor_ccr(old.sr, imm), ..old }),
        (Isa::Andisr, Operands::Immediate(imm)) => spec_privileged_sr(old, new, spec_and_raw(old.sr, imm), CPU::ANDISR, r),
        (Isa::Orisr, Operands::Immediate(imm)) => spec_privileged_sr(old, new, spec_or_raw(old.sr, imm), CPU::ORISR, r),
        (Isa::Eorisr, Operands::Immediate(imm)) => spec_privileged_sr(old, new, spec_xor_raw(old.sr, imm), CPU::EORISR, r),
        (Isa::Stop, Operands::Immediate(imm)) => spec_privileged_sr(old, new, spec_from_raw(imm), CPU::STOP, r),
        (Isa::Reset, Operands::NoOperands) => new == old
            && r == (if old.sr.s { Ok::<usize, u8>(CPU::RESET) } else { Err::<usize, u8>(PRIVILEGE_VIOLATION) }),
        (Isa::Exg, Operands::RegisterOpmodeRegister(rx, mode, ry)) => rx <= 7 && ry <= 7 ==> r == Ok::<usize, u8>(CPU::EXG)
            && spec_exg_effect(old, new, rx, mode, ry),
        (Isa::Ext, Operands::OpmodeRegister(mode, reg)) => reg <= 7 ==> r == Ok::<usize, u8>(CPU::EXT) && ({
            let value = spec_ext_value(old.d[reg as int], mode);
            spec_d_sr_set(old, new, reg, value, spec_logic_sr(old.sr, value, Size::Long))
        }),
        (Isa::Moveusp, Operands::DirectionRegister(dir, reg)) => reg <= 7 ==> (if old.sr.s {
                r == Ok::<usize, u8>(CPU::MOVEUSP) && (if dir == Direction::UspToRegister {
                    spec_a_set(old, new, reg, old.usp)
                } else {
                    new == (Registers { usp: old.spec_a(reg), ..old })
                })
            } else {
                r == Err::<usize, u8>(PRIVILEGE_VIOLATION) && new == old
            }),
        (Isa::Dbcc, Operands::ConditionRegisterDisplacement(cc, reg, disp)) => cc < 16 && reg <= 7 ==>
            spec_dbcc_effect::<CPU>(old, new, spec_wrap(instruction.pc + 2, Size::Long), cc, reg, disp, r),
        (Isa::Asr, Operands::RotationDirectionSizeModeRegister(rot, dir, size, mode, reg)) =>
            spec_shift_dispatch(old, new, ShiftKind::Arithmetic, rot, dir, size, mode, reg, CPU::ASR_L, CPU::ASR_BW, CPU::ASR_COUNT, r),
        (Isa::Lsr, Operands::RotationDirectionSizeModeRegister(rot, dir, size, mode, reg)) =>
            spec_shift_dispatch(old, new, ShiftKind::Logical, rot, dir, size, mode, reg, CPU::LSR_L, CPU::LSR_BW, CPU::LSR_COUNT, r),
        (Isa::Ror, Operands::RotationDirectionSizeModeRegister(rot, dir, size, mode, reg)) =>
            spec_shift_dispatch(old, new, ShiftKind::Rotate, rot, dir, size, mode, reg, CPU::ROR_L, CPU::ROR_BW, CPU::ROR_COUNT, r),
        (Isa::Roxr, Operands::RotationDirectionSizeModeRegister(rot, dir, size, mode, reg)) =>
            spec_shift_dispatch(old, new, ShiftKind::RotateExtend, rot, dir, size, mode, reg, CPU::ROXR_L, CPU::ROXR_BW, CPU::ROXR_COUNT, r),
        (Isa::Trapv, Operands::NoOperands) => r == (if old.sr.v { Err::<usize, u8>(TRAPV_INSTRUCTION) } else { Ok::<usize, u8>(CPU::TRAPV_NO_TRAP) }),
        (Isa::Bcc, Operands::ConditionDisplacement(cc, disp)) => cc < 16 ==> (if spec_condition(old.sr, cc) {
                r == Ok::<usize, u8>(CPU::BCC_BRANCH)
                && new == (Registers { pc: spec_wrap(spec_wrap(instruction.pc + 2, Size::Long) + disp, Size::Long), ..old })
            } else {
                new == old
                && r == Ok::<usize, u8>(if opcode % 0x100 == 0 { CPU::BCC_NO_BRANCH_WORD } else { CPU::BCC_NO_BRANCH_BYTE })
            }),
        _ => spec_operand_dispatch::<CPU>(old, opcode, new, isa, instruction, r),
    }
}

/// The registers once the instruction of the given opcode at the program counter is fetched: the
/// program counter is past it and its extension words.
pub open spec fn spec_fetched_registers(regs: Registers, opcode: u16) -> Registers {
    spec_pc_moved(regs, spec_instruction_length(opcode))
}

/// An instruction decoded at its address: its operands are those that its opcode and the extension
/// words following it give.
pub open spec fn spec_decoded(inst: Instruction) -> bool {
    exists|ws: Seq<u16>| ws.len() == spec_extension_count(inst.opcode)
        && #[trigger] spec_decode(inst.opcode, spec_wrapping_add(inst.pc, 2), ws) == inst.operands
}

/// The instruction decoded from the words that the memory answered at its address, in order: its
/// opcode is the first of them, and its operands are those that the opcode and the words after it
/// give.
pub open spec fn spec_fetched_as(inst: Instruction, words: Seq<u16>) -> bool {
    &&& words.len() == 1 + spec_extension_count(inst.opcode)
    &&& inst.opcode == words[0]
    &&& inst.operands == spec_decode(words[0], spec_wrapping_add(inst.pc, 2), words.subrange(1, words.len() as int))
}

/// The address of the word `n` words past `pc`.
pub open spec fn spec_word_address(pc: u32, n: nat) -> u32 {
    spec_wrap32(pc + 2 * n)
}

/// An instruction fetch at `pc` that the memory refused: one word was refused, at `pc` or at the
/// address of a word after it, and the program counter is past that word.
pub open spec fn spec_fetch_refused(pc: u32, before: Seq<(u32, Size)>, after: Seq<(u32, Size)>, new_pc: u32) -> bool {
    exists|n: nat| after == before.push((#[trigger] spec_word_address(pc, n), Size::Word))
        && new_pc == spec_wrapping_add(spec_word_address(pc, n), 2)
}

/// An instruction fetch at `pc` that failed with the exception `e`: an Address Error when `pc` is
/// odd, with no request refused, and otherwise an Access Error on a word that the memory refused.
pub open spec fn spec_fetch_failed(pc: u32, e: Option<u8>, before: Seq<(u32, Size)>, after: Seq<(u32, Size)>, new_pc: u32) -> bool {
    if pc % 2 == 1 {
        e == Some(ADDRESS_ERROR) && after == before
    } else {
        e == Some(ACCESS_ERROR) && spec_fetch_refused(pc, before, after, new_pc)
    }
}

/// The length in bytes of the instruction of the given opcode, with its extension words.
pub open spec fn spec_instruction_length(opcode: u16) -> int {
    (2 * (1 + spec_extension_count(opcode))) as int
}

/// One step of the interpreter with no exception pending: either fetching the instruction at the
/// program counter failed, with an Address Error that changes nothing when the program counter is
/// odd and an Access Error that changes no register but the program counter otherwise, or the
/// instruction fetched there (at an even address) was executed by the execution method of its
/// instruction, the cycles and exception being those of the execution.
pub open spec fn spec_fetch_execute<CPU: CpuDetails>(old: Registers, new: Registers, r: (usize, Option<u8>)) -> bool {
    ||| r.0 == 0 && new == (Registers { pc: new.pc, ..old }) && (if old.pc % 2 == 1 {
            r.1 == Some(ADDRESS_ERROR) && new == old
        } else {
            r.1 == Some(ACCESS_ERROR)
        })
    ||| old.pc % 2 == 0 && exists|inst: Instruction, res: InterpreterResult|
        inst.pc == old.pc && spec_decoded(inst)
        && #[trigger] spec_dispatch::<CPU>(spec_fetched_registers(old, inst.opcode), inst.opcode, new, spec_isa(inst.opcode), inst, res)
        && r.1 == spec_step_exception(res, old.sr.t, inst.opcode)
        && r.0 == (match res { Ok(c) => c, Err(_) => 0usize })
}

/// One call of the interpreter, from the first registers to the second: the pending exceptions are
/// processed, which keeps the data registers, then one instruction is fetched and executed; `c.1` is
/// the exception of the fetch and execution, and `c.0` counts the cycles of both.
pub open spec fn spec_interpreter_step<CPU: CpuDetails>(before: Registers, after: Registers, c: (usize, Option<u8>)) -> bool {
    exists|mid: Registers, step: (usize, Option<u8>)| mid.d == before.d
        && #[trigger] spec_fetch_execute::<CPU>(mid, after, step) && c.1 == step.1 && c.0 >= step.0
}

/// Successive calls of the interpreter: the call `steps[k]` goes from `regs[k]` to `regs[k + 1]`.
pub open spec fn spec_interpreter_run<CPU: CpuDetails>(regs: Seq<Registers>, steps: Seq<(usize, Option<u8>)>) -> bool {
    &&& regs.len() == steps.len() + 1
    &&& forall|k: int| 0 <= k < steps.len() ==> #[trigger] spec_interpreter_step::<CPU>(regs[k], regs[k + 1], steps[k])
}

/// The cycles of successive steps, added without going past `usize::MAX`.
pub open spec fn spec_total_cycles(steps: Seq<(usize, Option<u8>)>) -> usize
    decreases steps.len(),
{
    if steps.len() == 0 {
        0
    } else {
        spec_total_cycles(steps.drop_last()).saturating_add(steps.last().0)
    }
}

/// Each step started while the cycles of the steps before it were fewer than `cycles`.
pub open spec fn spec_started_below(steps: Seq<(usize, Option<u8>)>, cycles: usize) -> bool {
    forall|k: int| 0 <= k < steps.len() ==> #[trigger] spec_total_cycles(steps.take(k)) < cycles
}

/// A step started below the cycle count keeps the steps started below it.
proof fn lemma_started_below_push(steps: Seq<(usize, Option<u8>)>, c: (usize, Option<u8>), cycles: usize)
    requires
        spec_started_below(steps, cycles),
        spec_total_cycles(steps) < cycles,
    ensures
        spec_started_below(steps.push(c), cycles),
{
    let s2 = steps.push(c);
    assert forall|k: int| 0 <= k < s2.len() implies #[trigger] spec_total_cycles(s2.take(k)) < cycles by {
        if k < steps.len() {
            assert(s2.take(k) =~= steps.take(k));
        } else {
            assert(s2.take(k) =~= steps);
        }
    }
}

/// The exception of the last of successive steps, if any.
pub open spec fn spec_last_exception(steps: Seq<(usize, Option<u8>)>) -> Option<u8> {
    if steps.len() == 0 { None } else { steps.last().1 }
}

/// The registers with the given program counter.
pub open spec fn spec_with_pc(regs: Registers, pc: u32) -> Registers {
    Registers { pc: pc, ..regs }
}

/// The registers once the program counter is moved forward by the given length.
pub open spec fn spec_pc_moved(regs: Registers, length: int) -> Registers {
    spec_with_pc(regs, spec_wrap32(regs.pc + length))
}

/// One execution of a decoded instruction, from the first registers to the second: the program
/// counter moves past the instruction by its length, then the execution method of its instruction
/// runs; `c` holds the cycles and the exception of the execution.
pub open spec fn spec_execute_step<CPU: CpuDetails>(before: Registers, after: Registers, c: (usize, Option<u8>)) -> bool {
    exists|inst: Instruction, res: InterpreterResult| spec_decoded(inst)
        && #[trigger] spec_dispatch::<CPU>(spec_fetched_registers(before, inst.opcode), inst.opcode, after, spec_isa(inst.opcode), inst, res)
        && c.1 == spec_step_exception(res, before.sr.t, inst.opcode)
        && c.0 == (match res { Ok(n) => n, Err(_) => 0usize })
}

/// One execution of the given instruction, from the first registers to the second: the program
/// counter moves past the instruction by its length, then the execution method of its instruction
/// runs; `c` holds the cycles and the exception of the execution.
pub open spec fn spec_instruction_step<CPU: CpuDetails>(before: Registers, after: Registers, c: (usize, Option<u8>), inst: Instruction) -> bool {
    exists|res: InterpreterResult|
        #[trigger] spec_dispatch::<CPU>(spec_fetched_registers(before, inst.opcode), inst.opcode, after, spec_isa(inst.opcode), inst, res)
        && c.1 == spec_step_exception(res, before.sr.t, inst.opcode)
        && c.0 == (match res { Ok(n) => n, Err(_) => 0usize })
}

/// A run of the instructions of a cached block, in their order: execution `k` runs instruction
/// `block[k]` from `regs[k]` to `regs[k + 1]`, and the run stops after the first exception or at
/// the end of the block.
pub open spec fn spec_block_run<CPU: CpuDetails>(regs: Seq<Registers>, steps: Seq<(usize, Option<u8>)>, block: Seq<(Instruction, u32)>) -> bool {
    &&& regs.len() == steps.len() + 1
    &&& 0 < steps.len() <= block.len()
    &&& forall|k: int| 0 <= k < steps.len() ==> #[trigger] spec_instruction_step::<CPU>(regs[k], regs[k + 1], steps[k], block[k].0)
    &&& forall|k: int| 0 <= k < steps.len() - 1 ==> (#[trigger] steps[k]).1 is None
    &&& steps.len() < block.len() ==> steps.last().1 is Some
}

/// Successive executions of decoded instructions: the execution `steps[k]` goes from `regs[k]` to
/// `regs[k + 1]`.
pub open spec fn spec_execution_run<CPU: CpuDetails>(regs: Seq<Registers>, steps: Seq<(usize, Option<u8>)>) -> bool {
    &&& regs.len() == steps.len() + 1
    &&& forall|k: int| 0 <= k < steps.len() ==> #[trigger] spec_execute_step::<CPU>(regs[k], regs[k + 1], steps[k])
}

/// How a run of executions ends in the registers `end` with the result `r`: the result counts the
/// cycles of the run, in which no execution but the last raises an exception; either the run is not
/// empty and the result holds the exception of its last execution, or fetching the next instruction
/// failed: an Address Error that changes nothing at an odd address, else an Access Error that
/// changes no register but the program counter.
pub open spec fn spec_run_outcome(regs: Seq<Registers>, steps: Seq<(usize, Option<u8>)>, end: Registers, r: (usize, Option<u8>)) -> bool {
    &&& r.0 == spec_total_cycles(steps)
    &&& forall|k: int| 0 <= k < steps.len() - 1 ==> (#[trigger] steps[k]).1 is None
    &&& {
        ||| steps.len() > 0 && r.1 == steps.last().1 && end == regs.last()
        ||| (steps.len() > 0 ==> steps.last().1 is None) && end == spec_with_pc(regs.last(), end.pc)
            && (if regs.last().pc % 2 == 1 { r.1 == Some(ADDRESS_ERROR) && end == regs.last() } else { r.1 == Some(ACCESS_ERROR) })
    }
}

/// How a run of executions that may follow the processing of pending exceptions ends: as
/// [spec_run_outcome] says, within the cycles of the result (the processing takes the rest), or
/// without any execution because exceptions are still pending.
pub open spec fn spec_run_after_exceptions(regs: Seq<Registers>, steps: Seq<(usize, Option<u8>)>, end: Registers, r: (usize, Option<u8>), pending: bool) -> bool {
    ||| spec_total_cycles(steps) <= r.0 && spec_run_outcome(regs, steps, end, (spec_total_cycles(steps), r.1))
    ||| steps.len() == 0 && r.1 is None && end == regs[0] && pending
}

/// The execution of a fetched instruction is an execution step.
pub proof fn lemma_fetched_step<CPU: CpuDetails>(before: Registers, after: Registers, r: (usize, Option<u8>), inst: Instruction, res: InterpreterResult)
    requires
        spec_decoded(inst),
        spec_dispatch::<CPU>(spec_fetched_registers(before, inst.opcode), inst.opcode, after, spec_isa(inst.opcode), inst, res),
        r.1 == spec_step_exception(res, before.sr.t, inst.opcode),
        r.0 == (match res { Ok(c) => c, Err(_) => 0usize }),
    ensures
        spec_execute_step::<CPU>(before, after, r),
{
}

/// Moving the program counter by an instruction length taken modulo 2^32 is moving it by the length.
pub proof fn lemma_moved_by_wrapped_length(regs: Registers, length: int)
    requires
        length >= 0,
    ensures
        spec_pc_moved(regs, spec_wrap32(length) as int) == spec_pc_moved(regs, length),
{
    let m: int = 0x1_0000_0000;
    vstd::arithmetic::div_mod::lemma_add_mod_noop(regs.pc as int, length, m);
    vstd::arithmetic::div_mod::lemma_small_mod(regs.pc as nat, m as nat);
    vstd::arithmetic::div_mod::lemma_mod_twice(length, m);
    vstd::arithmetic::div_mod::lemma_add_mod_noop(regs.pc as int, length % m, m);
}

/// The wrapped difference between the address past an instruction and its address is its length
/// modulo 2^32.
pub proof fn lemma_length_of_wrapped(pc: u32, length: int)
    requires
        length >= 0,
    ensures
        spec_wrap(spec_wrap32(pc + length) - pc, Size::Long) == spec_wrap32(length),
{
    let m: int = 0x1_0000_0000;
    vstd::arithmetic::div_mod::lemma_sub_mod_noop(pc + length, pc as int, m);
    vstd::arithmetic::div_mod::lemma_small_mod(pc as nat, m as nat);
    vstd::arithmetic::div_mod::lemma_mod_twice(pc + length, m);
    vstd::arithmetic::div_mod::lemma_sub_mod_noop((pc + length) % m, pc as int, m);
    assert((pc + length) - pc == length);
}

/// Running a cached instruction that was decoded at the program counter is a step that fetching and
/// executing the instruction at the program counter can take: a cached interpreter executing such
/// an instruction does what the interpreter does once the instruction is fetched.
pub proof fn lemma_cached_step_is_fetch_execute<CPU: CpuDetails>(before: Registers, after: Registers, c: (usize, Option<u8>), inst: Instruction)
    requires
        spec_instruction_step::<CPU>(before, after, c, inst),
        spec_decoded(inst),
        inst.pc == before.pc,
        before.pc % 2 == 0,
    ensures
        spec_fetch_execute::<CPU>(before, after, c),
{
}

/// A single execution step is a run, with its own outcome.
proof fn lemma_single_step_run<CPU: CpuDetails>(before: Registers, after: Registers, r: (usize, Option<u8>))
    requires
        spec_execute_step::<CPU>(before, after, r),
    ensures
        spec_execution_run::<CPU>(seq![before, after], seq![r]),
        spec_run_outcome(seq![before, after], seq![r], after, r),
{
    let rs = seq![before, after];
    let ss = seq![r];
    assert(spec_execute_step::<CPU>(rs[0], rs[1], ss[0]));
    assert(ss.drop_last() =~= Seq::<(usize, Option<u8>)>::empty());
    assert(spec_total_cycles(Seq::<(usize, Option<u8>)>::empty()) == 0);
    assert(spec_total_cycles(ss) == 0usize.saturating_add(r.0));
    assert(ss.last() == r && rs.last() == after);
}

/// A fetch and execution is either a failed fetch or an execution of the fetched instruction.
pub proof fn lemma_fetch_is_execution<CPU: CpuDetails>(before: Registers, after: Registers, r: (usize, Option<u8>))
    requires
        spec_fetch_execute::<CPU>(before, after, r),
    ensures
        spec_run_outcome(seq![before], Seq::empty(), after, r)
        || (spec_execute_step::<CPU>(before, after, r)
            && spec_execution_run::<CPU>(seq![before, after], seq![r]) && spec_run_outcome(seq![before, after], seq![r], after, r)),
{
    if r.0 == 0 && after == (Registers { pc: after.pc, ..before }) && (if before.pc % 2 == 1 {
        r.1 == Some(ADDRESS_ERROR) && after == before } else { r.1 == Some(ACCESS_ERROR) }) {
        assert(spec_run_outcome(seq![before], Seq::<(usize, Option<u8>)>::empty(), after, r));
    } else {
        let (inst, res) = choose|inst: Instruction, res: InterpreterResult|
            inst.pc == before.pc && spec_decoded(inst)
            && #[trigger] spec_dispatch::<CPU>(spec_fetched_registers(before, inst.opcode), inst.opcode, after, spec_isa(inst.opcode), inst, res)
            && r.1 == spec_step_exception(res, before.sr.t, inst.opcode)
            && r.0 == (match res { Ok(c) => c, Err(_) => 0usize });
        lemma_fetched_step::<CPU>(before, after, r, inst, res);
        lemma_single_step_run::<CPU>(before, after, r);
    }
}

/// Extending a run of executions by one.
pub proof fn lemma_execution_run_push<CPU: CpuDetails>(regs: Seq<Registers>, steps: Seq<(usize, Option<u8>)>, next: Registers, c: (usize, Option<u8>))
    requires
        spec_execution_run::<CPU>(regs, steps),
        spec_execute_step::<CPU>(regs.last(), next, c),
    ensures
        spec_execution_run::<CPU>(regs.push(next), steps.push(c)),
        spec_total_cycles(steps.push(c)) == spec_total_cycles(steps).saturating_add(c.0),
        regs.push(next).last() == next,
        regs.push(next)[0] == regs[0],
        steps.push(c).last() == c,
        forall|k: int| 0 <= k < steps.len() ==> #[trigger] steps.push(c)[k] == steps[k],
{
    let r2 = regs.push(next);
    let s2 = steps.push(c);
    assert forall|k: int| 0 <= k < s2.len() implies #[trigger] spec_execute_step::<CPU>(r2[k], r2[k + 1], s2[k]) by {
        if k < steps.len() {
            assert(r2[k] == regs[k] && r2[k + 1] == regs[k + 1] && s2[k] == steps[k]);
        } else {
            assert(r2[k] == regs.last() && r2[k + 1] == next && s2[k] == c);
        }
    }
    assert(s2.drop_last() =~= steps);
}

/// Extending a run by one step.
proof fn lemma_run_push<CPU: CpuDetails>(regs: Seq<Registers>, steps: Seq<(usize, Option<u8>)>, next: Registers, c: (usize, Option<u8>))
    requires
        spec_interpreter_run::<CPU>(regs, steps),
        spec_interpreter_step::<CPU>(regs.last(), next, c),
    ensures
        spec_interpreter_run::<CPU>(regs.push(next), steps.push(c)),
        spec_total_cycles(steps.push(c)) == spec_total_cycles(steps).saturating_add(c.0),
        regs.push(next).last() == next,
        regs.push(next)[0] == regs[0],
{
    let r2 = regs.push(next);
    let s2 = steps.push(c);
    assert forall|k: int| 0 <= k < s2.len() implies #[trigger] spec_interpreter_step::<CPU>(r2[k], r2[k + 1], s2[k]) by {
        if k < steps.len() {
            assert(r2[k] == regs[k] && r2[k + 1] == regs[k + 1] && s2[k] == steps[k]);
        } else {
            assert(r2[k] == regs.last() && r2[k + 1] == next && s2[k] == c);
        }
    }
    assert(s2.drop_last() =~= steps);
}

impl<CPU: CpuDetails> M68000<CPU> {
    /// Executes the operands of an instruction with the execution method of its instruction.
    /// Operands that do not match the instruction are an Illegal Instruction.
    fn execute_operands<M: MemoryAccess + ?Sized>(&mut self, memory: &mut M, isa: Isa, instruction: &Instruction) -> (r: InterpreterResult)
        ensures
            spec_refusal(*old(self), *final(self), r),
            final(self).exceptions@ == old(self).exceptions@,
            final(self).current_opcode == old(self).current_opcode,
            final(self).fetches == old(self).fetches,
            isa != Isa::Stop ==> final(self).stop == old(self).stop,
            spec_dispatch::<CPU>(old(self).regs, old(self).current_opcode, final(self).regs, isa, *instruction, r),
    {
        match isa {
            Isa::Unknown | Isa::Abcd | Isa::Add | Isa::Adda | Isa::Addi | Isa::Addq | Isa::Addx | Isa::And => self.execute_group_0(memory, isa, instruction),
            Isa::Andi | Isa::Andiccr | Isa::Andisr | Isa::Asm | Isa::Asr | Isa::Bcc | Isa::Bchg | Isa::Bclr => self.execute_group_1(memory, isa, instruction),
            Isa::Bra | Isa::Bset | Isa::Bsr | Isa::Btst | Isa::Chk | Isa::Clr | Isa::Cmp | Isa::Cmpa => self.execute_group_2(memory, isa, instruction),
            Isa::Cmpi | Isa::Cmpm | Isa::Dbcc | Isa::Divs | Isa::Divu | Isa::Eor | Isa::Eori | Isa::Eoriccr => self.execute_group_3(memory, isa, instruction),
            Isa::Eorisr | Isa::Exg | Isa::Ext | Isa::Illegal | Isa::Jmp | Isa::Jsr | Isa::Lea | Isa::Link => self.execute_group_4(memory, isa, instruction),
            Isa::Lsm | Isa::Lsr | Isa::Move | Isa::Movea | Isa::Moveccr | Isa::Movefsr | Isa::Movesr | Isa::Moveusp => self.execute_group_5(memory, isa, instruction),
            Isa::Movem | Isa::Movep | Isa::Moveq | Isa::Muls | Isa::Mulu | Isa::Nbcd | Isa::Neg | Isa::Negx => self.execute_group_6(memory, isa, instruction),
            Isa::Nop | Isa::Not | Isa::Or | Isa::Ori | Isa::Oriccr | Isa::Orisr | Isa::Pea | Isa::Reset => self.execute_group_7(memory, isa, instruction),
            Isa::Rom | Isa::Ror | Isa::Roxm | Isa::Roxr | Isa::Rte | Isa::Rtr | Isa::Rts | Isa::Sbcd => self.execute_group_8(memory, isa, instruction),
            Isa::Scc | Isa::Stop | Isa::Sub | Isa::Suba | Isa::Subi | Isa::Subq | Isa::Subx | Isa::Swap => self.execute_group_9(memory, isa, instruction),
            Isa::Tas | Isa::Trap | Isa::Trapv | Isa::Tst | Isa::Unlk => self.execute_group_10(memory, isa, instruction),
        }
    }

    /// Executes the operands of one of Unknown, Abcd, Add, Adda, Addi, Addq, Addx, And.
    fn execute_group_0<M: MemoryAccess + ?Sized>(&mut self, memory: &mut M, isa: Isa, instruction: &Instruction) -> (r: InterpreterResult)
        requires
            isa == Isa::Unknown || isa == Isa::Abcd || isa == Isa::Add || isa == Isa::Adda || isa == Isa::Addi || isa == Isa::Addq || isa == Isa::Addx || isa == Isa::And,
        ensures
            spec_refusal(*old(self), *final(self), r),
            final(self).exceptions@ == old(self).exceptions@,
            final(self).current_opcode == old(self).current_opcode,
            final(self).fetches == old(self).fetches,
            isa != Isa::Stop ==> final(self).stop == old(self).stop,
            spec_dispatch::<CPU>(old(self).regs, old(self).current_opcode, final(self).regs, isa, *instruction, r),
    {
        let pc = wrapping_add32(instruction.pc, 2);
        match (isa, instruction.operands) {
            (Isa::Unknown, Operands::NoOperands) => self.execute_unknown_instruction(),
            (Isa::Abcd, Operands::RegisterSizeModeRegister(rx, _, mode, ry)) => self.execute_abcd(memory, rx, mode, ry),
            (Isa::Add, Operands::RegisterDirectionSizeEffectiveAddress(reg, dir, size, am)) => self.execute_add(memory, reg, dir, size, am),
            (Isa::Adda, Operands::RegisterSizeEffectiveAddress(reg, size, am)) => self.execute_adda(memory, reg, size, am),
            (Isa::Addi, Operands::SizeEffectiveAddressImmediate(size, am, imm)) => self.execute_addi(memory, size, am, imm),
            (Isa::Addq, Operands::DataSizeEffectiveAddress(imm, size, am)) => self.execute_addq(memory, imm, size, am),
            (Isa::Addx, Operands::RegisterSizeModeRegister(rx, size, mode, ry)) => self.execute_addx(memory, rx, size, mode, ry),
            (Isa::And, Operands::RegisterDirectionSizeEffectiveAddress(reg, dir, size, am)) => self.execute_and(memory, reg, dir, size, am),
            _ => Err(ILLEGAL_INSTRUCTION),
        }
    }

    /// Executes the operands of one of Andi, Andiccr, Andisr, Asm, Asr, Bcc, Bchg, Bclr.
    fn execute_group_1<M: MemoryAccess + ?Sized>(&mut self, memory: &mut M, isa: Isa, instruction: &Instruction) -> (r: InterpreterResult)
        requires
            isa == Isa::Andi || isa == Isa::Andiccr || isa == Isa::Andisr || isa == Isa::Asm || isa == Isa::Asr || isa == Isa::Bcc || isa == Isa::Bchg || isa == Isa::Bclr,
        ensures
            spec_refusal(*old(self), *final(self), r),
            final(self).exceptions@ == old(self).exceptions@,
            final(self).current_opcode == old(self).current_opcode,
            final(self).fetches == old(self).fetches,
            isa != Isa::Stop ==> final(self).stop == old(self).stop,
            spec_dispatch::<CPU>(old(self).regs, old(self).current_opcode, final(self).regs, isa, *instruction, r),
    {
        let pc = wrapping_add32(instruction.pc, 2);
        match (isa, instruction.operands) {
            (Isa::Andi, Operands::SizeEffectiveAddressImmediate(size, am, imm)) => self.execute_andi(memory, size, am, imm),
            (Isa::Andiccr, Operands::Immediate(imm)) => self.execute_andiccr(imm),
            (Isa::Andisr, Operands::Immediate(imm)) => self.execute_andisr(imm),
            (Isa::Asm, Operands::DirectionEffectiveAddress(dir, am)) => self.execute_asm(memory, dir, am),
            (Isa::Asr, Operands::RotationDirectionSizeModeRegister(rot, dir, size, mode, reg)) => self.execute_asr(rot, dir, size, mode, reg),
            (Isa::Bcc, Operands::ConditionDisplacement(cc, disp)) => self.execute_bcc(pc, cc, disp),
            (Isa::Bchg, Operands::EffectiveAddressCount(am, count)) => self.execute_bchg(memory, am, count),
            (Isa::Bclr, Operands::EffectiveAddressCount(am, count)) => self.execute_bclr(memory, am, count),
            _ => Err(ILLEGAL_INSTRUCTION),
        }
    }

    /// Executes the operands of one of Bra, Bset, Bsr, Btst, Chk, Clr, Cmp, Cmpa.
    fn execute_group_2<M: MemoryAccess + ?Sized>(&mut self, memory: &mut M, isa: Isa, instruction: &Instruction) -> (r: InterpreterResult)
        requires
            isa == Isa::Bra || isa == Isa::Bset || isa == Isa::Bsr || isa == Isa::Btst || isa == Isa::Chk || isa == Isa::Clr || isa == Isa::Cmp || isa == Isa::Cmpa,
        ensures
            spec_refusal(*old(self), *final(self), r),
            final(self).exceptions@ == old(self).exceptions@,
            final(self).current_opcode == old(self).current_opcode,
            final(self).fetches == old(self).fetches,
            isa != Isa::Stop ==> final(self).stop == old(self).stop,
            spec_dispatch::<CPU>(old(self).regs, old(self).current_opcode, final(self).regs, isa, *instruction, r),
    {
        let pc = wrapping_add32(instruction.pc, 2);
        match (isa, instruction.operands) {
            (Isa::Bra, Operands::Displacement(disp)) => self.execute_bra(pc, disp),
            (Isa::Bset, Operands::EffectiveAddressCount(am, count)) => self.execute_bset(memory, am, count),
            (Isa::Bsr, Operands::Displacement(disp)) => self.execute_bsr(memory, pc, disp),
            (Isa::Btst, Operands::EffectiveAddressCount(am, count)) => self.execute_btst(memory, am, count),
            (Isa::Chk, Operands::RegisterEffectiveAddress(reg, am)) => self.execute_chk(memory, reg, am),
            (Isa::Clr, Operands::SizeEffectiveAddress(size, am)) => self.execute_clr(memory, size, am),
            (Isa::Cmp, Operands::RegisterDirectionSizeEffectiveAddress(reg, _, size, am)) => self.execute_cmp(memory, reg, size, am),
            (Isa::Cmpa, Operands::RegisterSizeEffectiveAddress(reg, size, am)) => self.execute_cmpa(memory, reg, size, am),
            _ => Err(ILLEGAL_INSTRUCTION),
        }
    }

    /// Executes the operands of one of Cmpi, Cmpm, Dbcc, Divs, Divu, Eor, Eori, Eoriccr.
    fn execute_group_3<M: MemoryAccess + ?Sized>(&mut self, memory: &mut M, isa: Isa, instruction: &Instruction) -> (r: InterpreterResult)
        requires
            isa == Isa::Cmpi || isa == Isa::Cmpm || isa == Isa::Dbcc || isa == Isa::Divs || isa == Isa::Divu || isa == Isa::Eor || isa == Isa::Eori || isa == Isa::Eoriccr,
        ensures
            spec_refusal(*old(self), *final(self), r),
            final(self).exceptions@ == old(self).exceptions@,
            final(self).current_opcode == old(self).current_opcode,
            final(self).fetches == old(self).fetches,
            isa != Isa::Stop ==> final(self).stop == old(self).stop,
            spec_dispatch::<CPU>(old(self).regs, old(self).current_opcode, final(self).regs, isa, *instruction, r),
    {
        let pc = wrapping_add32(instruction.pc, 2);
        match (isa, instruction.operands) {
            (Isa::Cmpi, Operands::SizeEffectiveAddressImmediate(size, am, imm)) => self.execute_cmpi(memory, size, am, imm),
            (Isa::Cmpm, Operands::RegisterSizeRegister(ax, size, ay)) => self.execute_cmpm(memory, ax, size, ay),
            (Isa::Dbcc, Operands::ConditionRegisterDisplacement(cc, reg, disp)) => self.execute_dbcc(pc, cc, reg, disp),
            (Isa::Divs, Operands::RegisterEffectiveAddress(reg, am)) => self.execute_divs(memory, reg, am),
            (Isa::Divu, Operands::RegisterEffectiveAddress(reg, am)) => self.execute_divu(memory, reg, am),
            (Isa::Eor, Operands::RegisterDirectionSizeEffectiveAddress(reg, _, size, am)) => self.execute_eor(memory, reg, size, am),
            (Isa::Eori, Operands::SizeEffectiveAddressImmediate(size, am, imm)) => self.execute_eori(memory, size, am, imm),
            (Isa::Eoriccr, Operands::Immediate(imm)) => self.execute_eoriccr(imm),
            _ => Err(ILLEGAL_INSTRUCTION),
        }
    }

    /// Executes the operands of one of Eorisr, Exg, Ext, Illegal, Jmp, Jsr, Lea, Link.
    fn execute_group_4<M: MemoryAccess + ?Sized>(&mut self, memory: &mut M, isa: Isa, instruction: &Instruction) -> (r: InterpreterResult)
        requires
            isa == Isa::Eorisr || isa == Isa::Exg || isa == Isa::Ext || isa == Isa::Illegal || isa == Isa::Jmp || isa == Isa::Jsr || isa == Isa::Lea || isa == Isa::Link,
        ensures
            spec_refusal(*old(self), *final(self), r),
            final(self).exceptions@ == old(self).exceptions@,
            final(self).current_opcode == old(self).current_opcode,
            final(self).fetches == old(self).fetches,
            isa != Isa::Stop ==> final(self).stop == old(self).stop,
            spec_dispatch::<CPU>(old(self).regs, old(self).current_opcode, final(self).regs, isa, *instruction, r),
    {
        let pc = wrapping_add32(instruction.pc, 2);
        match (isa, instruction.operands) {
            (Isa::Eorisr, Operands::Immediate(imm)) => self.execute_eorisr(imm),
            (Isa::Exg, Operands::RegisterOpmodeRegister(rx, dir, ry)) => self.execute_exg(rx, dir, ry),
            (Isa::Ext, Operands::OpmodeRegister(mode, reg)) => self.execute_ext(mode, reg),
            (Isa::Illegal, Operands::NoOperands) => self.execute_illegal(),
            (Isa::Jmp, Operands::EffectiveAddress(am)) => self.execute_jmp(am),
            (Isa::Jsr, Operands::EffectiveAddress(am)) => self.execute_jsr(memory, am),
            (Isa::Lea, Operands::RegisterEffectiveAddress(reg, am)) => self.execute_lea(reg, am),
            (Isa::Link, Operands::RegisterDisplacement(reg, disp)) => self.execute_link(memory, reg, disp),
            _ => Err(ILLEGAL_INSTRUCTION),
        }
    }

    /// Executes the operands of one of Lsm, Lsr, Move, Movea, Moveccr, Movefsr, Movesr, Moveusp.
    fn execute_group_5<M: MemoryAccess + ?Sized>(&mut self, memory: &mut M, isa: Isa, instruction: &Instruction) -> (r: InterpreterResult)
        requires
            isa == Isa::Lsm || isa == Isa::Lsr || isa == Isa::Move || isa == Isa::Movea || isa == Isa::Moveccr || isa == Isa::Movefsr || isa == Isa::Movesr || isa == Isa::Moveusp,
        ensures
            spec_refusal(*old(self), *final(self), r),
            final(self).exceptions@ == old(self).exceptions@,
            final(self).current_opcode == old(self).current_opcode,
            final(self).fetches == old(self).fetches,
            isa != Isa::Stop ==> final(self).stop == old(self).stop,
            spec_dispatch::<CPU>(old(self).regs, old(self).current_opcode, final(self).regs, isa, *instruction, r),
    {
        let pc = wrapping_add32(instruction.pc, 2);
        match (isa, instruction.operands) {
            (Isa::Lsm, Operands::DirectionEffectiveAddress(dir, am)) => self.execute_lsm(memory, dir, am),
            (Isa::Lsr, Operands::RotationDirectionSizeModeRegister(rot, dir, size, mode, reg)) => self.execute_lsr(rot, dir, size, mode, reg),
            (Isa::Move, Operands::SizeEffectiveAddressEffectiveAddress(size, dst, src)) => self.execute_move(memory, size, dst, src),
            (Isa::Movea, Operands::SizeRegisterEffectiveAddress(size, reg, am)) => self.execute_movea(memory, size, reg, am),
            (Isa::Moveccr, Operands::EffectiveAddress(am)) => self.execute_moveccr(memory, am),
            (Isa::Movefsr, Operands::EffectiveAddress(am)) => self.execute_movefsr(memory, am),
            (Isa::Movesr, Operands::EffectiveAddress(am)) => self.execute_movesr(memory, am),
            (Isa::Moveusp, Operands::DirectionRegister(dir, reg)) => self.execute_moveusp(dir, reg),
            _ => Err(ILLEGAL_INSTRUCTION),
        }
    }

    /// Executes the operands of one of Movem, Movep, Moveq, Muls, Mulu, Nbcd, Neg, Negx.
    fn execute_group_6<M: MemoryAccess + ?Sized>(&mut self, memory: &mut M, isa: Isa, instruction: &Instruction) -> (r: InterpreterResult)
        requires
            isa == Isa::Movem || isa == Isa::Movep || isa == Isa::Moveq || isa == Isa::Muls || isa == Isa::Mulu || isa == Isa::Nbcd || isa == Isa::Neg || isa == Isa::Negx,
        ensures
            spec_refusal(*old(self), *final(self), r),
            final(self).exceptions@ == old(self).exceptions@,
            final(self).current_opcode == old(self).current_opcode,
            final(self).fetches == old(self).fetches,
            isa != Isa::Stop ==> final(self).stop == old(self).stop,
            spec_dispatch::<CPU>(old(self).regs, old(self).current_opcode, final(self).regs, isa, *instruction, r),
    {
        let pc = wrapping_add32(instruction.pc, 2);
        match (isa, instruction.operands) {
            (Isa::Movem, Operands::DirectionSizeEffectiveAddressList(dir, size, am, list)) => self.execute_movem(memory, dir, size, am, list),
            (Isa::Movep, Operands::RegisterDirectionSizeRegisterDisplacement(dreg, dir, size, areg, disp)) => self.execute_movep(memory, dreg, dir, size, areg, disp),
            (Isa::Moveq, Operands::RegisterData(reg, data)) => self.execute_moveq(reg, data),
            (Isa::Muls, Operands::RegisterEffectiveAddress(reg, am)) => self.execute_muls(memory, reg, am),
            (Isa::Mulu, Operands::RegisterEffectiveAddress(reg, am)) => self.execute_mulu(memory, reg, am),
            (Isa::Nbcd, Operands::EffectiveAddress(am)) => self.execute_nbcd(memory, am),
            (Isa::Neg, Operands::SizeEffectiveAddress(size, am)) => self.execute_neg(memory, size, am),
            (Isa::Negx, Operands::SizeEffectiveAddress(size, am)) => self.execute_negx(memory, size, am),
            _ => Err(ILLEGAL_INSTRUCTION),
        }
    }

    /// Executes the operands of one of Nop, Not, Or, Ori, Oriccr, Orisr, Pea, Reset.
    fn execute_group_7<M: MemoryAccess + ?Sized>(&mut self, memory: &mut M, isa: Isa, instruction: &Instruction) -> (r: InterpreterResult)
        requires
            isa == Isa::Nop || isa == Isa::Not || isa == Isa::Or || isa == Isa::Ori || isa == Isa::Oriccr || isa == Isa::Orisr || isa == Isa::Pea || isa == Isa::Reset,
        ensures
            spec_refusal(*old(self), *final(self), r),
            final(self).exceptions@ == old(self).exceptions@,
            final(self).current_opcode == old(self).current_opcode,
            final(self).fetches == old(self).fetches,
            isa != Isa::Stop ==> final(self).stop == old(self).stop,
            spec_dispatch::<CPU>(old(self).regs, old(self).current_opcode, final(self).regs, isa, *instruction, r),
    {
        let pc = wrapping_add32(instruction.pc, 2);
        match (isa, instruction.operands) {
            (Isa::Nop, Operands::NoOperands) => self.execute_nop(),
            (Isa::Not, Operands::SizeEffectiveAddress(size, am)) => self.execute_not(memory, size, am),
            (Isa::Or, Operands::RegisterDirectionSizeEffectiveAddress(reg, dir, size, am)) => self.execute_or(memory, reg, dir, size, am),
            (Isa::Ori, Operands::SizeEffectiveAddressImmediate(size, am, imm)) => self.execute_ori(memory, size, am, imm),
            (Isa::Oriccr, Operands::Immediate(imm)) => self.execute_oriccr(imm),
            (Isa::Orisr, Operands::Immediate(imm)) => self.execute_orisr(imm),
            (Isa::Pea, Operands::EffectiveAddress(am)) => self.execute_pea(memory, am),
            (Isa::Reset, Operands::NoOperands) => self.execute_reset(memory),
            _ => Err(ILLEGAL_INSTRUCTION),
        }
    }

    /// Executes the operands of one of Rom, Ror, Roxm, Roxr, Rte, Rtr, Rts, Sbcd.
    fn execute_group_8<M: MemoryAccess + ?Sized>(&mut self, memory: &mut M, isa: Isa, instruction: &Instruction) -> (r: InterpreterResult)
        requires
            isa == Isa::Rom || isa == Isa::Ror || isa == Isa::Roxm || isa == Isa::Roxr || isa == Isa::Rte || isa == Isa::Rtr || isa == Isa::Rts || isa == Isa::Sbcd,
        ensures
            spec_refusal(*old(self), *final(self), r),
            final(self).exceptions@ == old(self).exceptions@,
            final(self).current_opcode == old(self).current_opcode,
            final(self).fetches == old(self).fetches,
            isa != Isa::Stop ==> final(self).stop == old(self).stop,
            spec_dispatch::<CPU>(old(self).regs, old(self).current_opcode, final(self).regs, isa, *instruction, r),
    {
        let pc = wrapping_add32(instruction.pc, 2);
        match (isa, instruction.operands) {
            (Isa::Rom, Operands::DirectionEffectiveAddress(dir, am)) => self.execute_rom(memory, dir, am),
            (Isa::Ror, Operands::RotationDirectionSizeModeRegister(rot, dir, size, mode, reg)) => self.execute_ror(rot, dir, size, mode, reg),
            (Isa::Roxm, Operands::DirectionEffectiveAddress(dir, am)) => self.execute_roxm(memory, dir, am),
            (Isa::Roxr, Operands::RotationDirectionSizeModeRegister(rot, dir, size, mode, reg)) => self.execute_roxr(rot, dir, size, mode, reg),
            (Isa::Rte, Operands::NoOperands) => self.execute_rte(memory),
            (Isa::Rtr, Operands::NoOperands) => self.execute_rtr(memory),
            (Isa::Rts, Operands::NoOperands) => self.execute_rts(memory),
            (Isa::Sbcd, Operands::RegisterSizeModeRegister(ry, _, mode, rx)) => self.execute_sbcd(memory, ry, mode, rx),
            _ => Err(ILLEGAL_INSTRUCTION),
        }
    }

    /// Executes the operands of one of Scc, Stop, Sub, Suba, Subi, Subq, Subx, Swap.
    fn execute_group_9<M: MemoryAccess + ?Sized>(&mut self, memory: &mut M, isa: Isa, instruction: &Instruction) -> (r: InterpreterResult)
        requires
            isa == Isa::Scc || isa == Isa::Stop || isa == Isa::Sub || isa == Isa::Suba || isa == Isa::Subi || isa == Isa::Subq || isa == Isa::Subx || isa == Isa::Swap,
        ensures
            spec_refusal(*old(self), *final(self), r),
            final(self).exceptions@ == old(self).exceptions@,
            final(self).current_opcode == old(self).current_opcode,
            final(self).fetches == old(self).fetches,
            isa != Isa::Stop ==> final(self).stop == old(self).stop,
            spec_dispatch::<CPU>(old(self).regs, old(self).current_opcode, final(self).regs, isa, *instruction, r),
    {
        let pc = wrapping_add32(instruction.pc, 2);
        match (isa, instruction.operands) {
            (Isa::Scc, Operands::ConditionEffectiveAddress(cc, am)) => self.execute_scc(memory, cc, am),
            (Isa::Stop, Operands::Immediate(imm)) => self.execute_stop(imm),
            (Isa::Sub, Operands::RegisterDirectionSizeEffectiveAddress(reg, dir, size, am)) => self.execute_sub(memory, reg, dir, size, am),
            (Isa::Suba, Operands::RegisterSizeEffectiveAddress(reg, size, am)) => self.execute_suba(memory, reg, size, am),
            (Isa::Subi, Operands::SizeEffectiveAddressImmediate(size, am, imm)) => self.execute_subi(memory, size, am, imm),
            (Isa::Subq, Operands::DataSizeEffectiveAddress(imm, size, am)) => self.execute_subq(memory, imm, size, am),
            (Isa::Subx, Operands::RegisterSizeModeRegister(ry, size, mode, rx)) => self.execute_subx(memory, ry, size, mode, rx),
            (Isa::Swap, Operands::Register(reg)) => self.execute_swap(reg),
            _ => Err(ILLEGAL_INSTRUCTION),
        }
    }

    /// Executes the operands of one of Tas, Trap, Trapv, Tst, Unlk.
    fn execute_group_10<M: MemoryAccess + ?Sized>(&mut self, memory: &mut M, isa: Isa, instruction: &Instruction) -> (r: InterpreterResult)
        requires
            isa == Isa::Tas || isa == Isa::Trap || isa == Isa::Trapv || isa == Isa::Tst || isa == Isa::Unlk,
        ensures
            spec_refusal(*old(self), *final(self), r),
            final(self).exceptions@ == old(self).exceptions@,
            final(self).current_opcode == old(self).current_opcode,
            final(self).fetches == old(self).fetches,
            isa != Isa::Stop ==> final(self).stop == old(self).stop,
            spec_dispatch::<CPU>(old(self).regs, old(self).current_opcode, final(self).regs, isa, *instruction, r),
    {
        let pc = wrapping_add32(instruction.pc, 2);
        match (isa, instruction.operands) {
            (Isa::Tas, Operands::EffectiveAddress(am)) => self.execute_tas(memory, am),
            (Isa::Trap, Operands::Vector(v)) => self.execute_trap(v),
            (Isa::Trapv, Operands::NoOperands) => self.execute_trapv(),
            (Isa::Tst, Operands::SizeEffectiveAddress(size, am)) => self.execute_tst(memory, size, am),
            (Isa::Unlk, Operands::Register(reg)) => self.execute_unlk(memory, reg),
            _ => Err(ILLEGAL_INSTRUCTION),
        }
    }

    /// Executes the given decoded instruction, whose extension words have already been read (the
    /// program counter is past it).
    ///
    /// Returns the execution time and the vector of the exception that occured if any, the Trace
    /// exception following an instruction executed with the trace bit set, unless it is privileged.
    pub fn execute_instruction<M: MemoryAccess + ?Sized>(&mut self, memory: &mut M, instruction: &Instruction) -> (r: (usize, Option<u8>))
        ensures
            final(self).exceptions@ == old(self).exceptions@,
            final(self).current_opcode == instruction.opcode,
            final(self).fetches == old(self).fetches,
            spec_isa(instruction.opcode) != Isa::Stop ==> final(self).stop == old(self).stop,
            r.1 matches Some(e) && e != TRACE ==> r.0 == 0,
            r.1 == Some(ACCESS_ERROR) ==> final(self).refused@ == old(self).refused@.push(final(self).refused@.last()),
            r.1 != Some(ACCESS_ERROR) ==> final(self).refused == old(self).refused,
            exists|res: InterpreterResult| #[trigger] spec_dispatch::<CPU>(old(self).regs, instruction.opcode, final(self).regs,
                spec_isa(instruction.opcode), *instruction, res)
                && r.1 == spec_step_exception(res, old(self).regs.sr.t, instruction.opcode)
                && r.0 == (match res { Ok(c) => c, Err(_) => 0usize }),
    {
        self.current_opcode = instruction.opcode;
        let isa = Isa::from(instruction.opcode);
        let trace = self.regs.sr.t;
        let res = self.execute_operands(memory, isa, instruction);
        proof {
            assert(spec_dispatch::<CPU>(old(self).regs, instruction.opcode, self.regs, isa, *instruction, res));
        }
        match res {
            Ok(cycles) => (cycles, if trace && !isa.is_privileged() { Some(TRACE) } else { None }),
            Err(e) => (0, Some(e)),
        }
    }

    /// Returns the instruction at the current program counter and advances the program counter past it.
    ///
    /// If an error occurs when reading the instruction, the Err variant contains the exception vector.
    pub fn get_next_instruction<M: MemoryAccess + ?Sized>(&mut self, memory: &mut M) -> (r: Result<Instruction, u8>)
        ensures
            final(self).exceptions@ == old(self).exceptions@,
            final(self).stop == old(self).stop,
            final(self).current_opcode == old(self).current_opcode,
            final(self).stores == old(self).stores,
            r matches Ok(i) ==> final(self).fetches@ == old(self).fetches@.push((old(self).regs.pc, final(self).fetches@.last().1))
                && spec_fetched_as(i, final(self).fetches@.last().1),
            r is Err ==> final(self).fetches == old(self).fetches,
            r == Err::<Instruction, u8>(ACCESS_ERROR) ==> spec_fetch_refused(old(self).regs.pc, old(self).refused@, final(self).refused@, final(self).regs.pc),
            r != Err::<Instruction, u8>(ACCESS_ERROR) ==> final(self).refused == old(self).refused,
            final(self).loads == old(self).loads,
            final(self).regs.d == old(self).regs.d,
            final(self).regs.a == old(self).regs.a,
            final(self).regs.sr == old(self).regs.sr,
            final(self).regs.usp == old(self).regs.usp,
            final(self).regs.ssp == old(self).regs.ssp,
            r matches Ok(i) ==> i.pc == old(self).regs.pc && spec_decoded(i)
                && final(self).regs.pc == spec_wrap32(old(self).regs.pc + 2 * (1 + spec_extension_count(i.opcode))),
            r matches Err(e) ==> e == ACCESS_ERROR || e == ADDRESS_ERROR,
            r matches Err(e) ==> (e == ADDRESS_ERROR) == (old(self).regs.pc % 2 == 1),
            old(self).regs.pc % 2 == 1 ==> r == Err::<Instruction, u8>(ADDRESS_ERROR) && final(self).regs == old(self).regs,
    {
        let pc = self.regs.pc;
        let mut iter = MemoryIter::new(memory, pc);
        let instruction = Instruction::from_memory(&mut iter);
        proof {
            if let Ok(i) = instruction {
                let ws = iter.read@.subrange(1, iter.read@.len() as int);
                assert(spec_decode(i.opcode, spec_wrapping_add(i.pc, 2), ws) == i.operands);
            }
        }
        self.regs.pc = iter.next_addr;
        match instruction {
            Ok(_) => {
                self.fetches = Ghost(self.fetches@.push((pc, iter.read@)));
            },
            Err(e) => {
                if e == ACCESS_ERROR {
                    proof {
                        let n = iter.read@.len();
                        assert(iter.refused@ == Some(spec_word_address(pc, n)));
                    }
                    self.refused = Ghost(self.refused@.push((iter.refused@->0, Size::Word)));
                }
            },
        }
        instruction
    }

    /// Runs the interpreter loop once, returning the cycle count necessary to execute it
    /// and the vector of the exception that occured during the execution if any.
    ///
    /// To process the returned exception, call [M68000::exception].
    ///
    /// If the CPU is stopped, returns (0, None).
    ///
    /// This method may or may not execute any instruction.
    /// For example, if an Access Error occurs during instruction fetch, the exception is returned and no instruction is executed.
    pub fn interpreter_exception<M: MemoryAccess + ?Sized>(&mut self, memory: &mut M) -> (r: (usize, Option<u8>))
        requires
            old(self).wf(),
        ensures
            final(self).wf(),
            old(self).stop ==> r == (0usize, None::<u8>) && final(self).regs == old(self).regs
                && final(self).exceptions@ == old(self).exceptions@ && final(self).stop && final(self).stores == old(self).stores,
            forall|e: Exception| final(self).pending().contains(e) ==> old(self).pending().contains(e),
            !old(self).stop && old(self).pending().len() == 0 ==> spec_fetch_execute::<CPU>(old(self).regs, final(self).regs, r),
            !old(self).stop && old(self).pending().len() == 0 && old(self).regs.pc % 2 == 1 ==>
                r == (0usize, Some(ADDRESS_ERROR)) && final(self).regs == old(self).regs && final(self).exceptions@ == old(self).exceptions@,
            !old(self).stop ==> spec_interpreter_step::<CPU>(old(self).regs, final(self).regs, r),
            !old(self).stop && old(self).pending().len() == 0 ==> final(self).fetches@ == old(self).fetches@.push((old(self).regs.pc, final(self).fetches@.last().1))
                || (final(self).fetches == old(self).fetches && r.0 == 0
                    && spec_fetch_failed(old(self).regs.pc, r.1, old(self).refused@, final(self).refused@, final(self).regs.pc)),
            !old(self).stop && old(self).pending().len() == 0 && r.1 == Some(ACCESS_ERROR)
                ==> final(self).refused@ == old(self).refused@.push(final(self).refused@.last()),
            !old(self).stop && old(self).pending().len() == 0 && r.1 != Some(ACCESS_ERROR) ==> final(self).refused == old(self).refused,
            !old(self).stop ==> exists|fail: int, sts: Seq<ExceptionState>, res: Seq<Option<Result<usize, u8>>>|
                #[trigger] spec_pending_run::<CPU>(old(self).pending(), fail, sts, res)
                && sts[0] == spec_exception_state(*old(self))
                && (final(self).fetches@ == old(self).fetches@.push((sts.last().0.pc, final(self).fetches@.last().1))
                    || (final(self).fetches == old(self).fetches && r.1 is Some)),
    {
        if self.stop {
            return (0, None);
        }
        let mut cycle_count: usize = 0;
        if self.exceptions.len() > 0 {
            cycle_count = self.process_pending_exceptions(memory);
        } else {
            proof {
                assert(spec_pending_run::<CPU>(old(self).pending(), 0, seq![spec_exception_state(*old(self))], Seq::empty()));
            }
        }
        let ghost before = self.regs;
        let instruction = match self.get_next_instruction(memory) {
            Ok(i) => i,
            Err(e) => {
                proof {
                    assert(spec_fetch_execute::<CPU>(before, self.regs, (0usize, Some(e))));
                }
                return (cycle_count, Some(e));
            },
        };
        let ghost fetched = self.regs;
        proof {
            assert(fetched == spec_fetched_registers(before, instruction.opcode));
        }
        let (cycles, exception) = self.execute_instruction(memory, &instruction);
        proof {
            assert(spec_fetch_execute::<CPU>(before, self.regs, (cycles, exception)));
        }
        (cycle_count.saturating_add(cycles), exception)
    }

    /// Runs the interpreter loop once, returning the cycle count necessary to execute it.
    /// An exception that occured is added to the pending exceptions.
    ///
    /// If the CPU is stopped, returns 0.
    pub fn interpreter<M: MemoryAccess + ?Sized>(&mut self, memory: &mut M) -> (r: usize)
        requires
            old(self).wf(),
        ensures
            final(self).wf(),
            old(self).stop ==> r == 0 && final(self).regs == old(self).regs && final(self).exceptions@ == old(self).exceptions@
                && final(self).stop,
            !old(self).stop && old(self).pending().len() == 0 ==> exists|step: (usize, Option<u8>)|
                #[trigger] spec_fetch_execute::<CPU>(old(self).regs, final(self).regs, step) && r == step.0,
            !old(self).stop ==> exists|v: Option<u8>| #[trigger] spec_interpreter_step::<CPU>(old(self).regs, final(self).regs, (r, v))
                && (v matches Some(e) ==> final(self).pending().contains(spec_exception(e))),
            !old(self).stop ==> exists|fail: int, sts: Seq<ExceptionState>, res: Seq<Option<Result<usize, u8>>>|
                #[trigger] spec_pending_run::<CPU>(old(self).pending(), fail, sts, res)
                && sts[0] == spec_exception_state(*old(self))
                && (final(self).fetches@ == old(self).fetches@.push((sts.last().0.pc, final(self).fetches@.last().1))
                    || final(self).fetches == old(self).fetches),
    {
        let (cycles, exception) = self.interpreter_exception(memory);
        let ghost fetches1 = self.fetches@;
        let ghost regs1 = self.regs;
        if let Some(e) = exception {
            self.exception(Exception::from(e));
        }
        proof {
            assert(self.regs == regs1);
            assert(self.fetches@ == fetches1);
            if !old(self).stop && old(self).pending().len() == 0 {
                assert(spec_fetch_execute::<CPU>(old(self).regs, self.regs, (cycles, exception)));
            }
            if !old(self).stop {
                assert(spec_interpreter_step::<CPU>(old(self).regs, self.regs, (cycles, exception)));
                if let Some(e) = exception {
                    assert(self.pending().to_set().contains(spec_exception(e)));
                }
            }
        }
        cycles
    }

    /// Runs the CPU for **at least** the given number of cycles (or until the core stops).
    ///
    /// Returns the number of cycles actually executed (the requested number when the core stops).
    ///
    /// If you ask to execute 4 cycles but the next instruction takes 6 cycles to execute, it will be executed
    /// and 6 is returned. It is the caller's responsibility to handle the extra cycles.
    /// The loop gives up after `usize::MAX` steps that executed no cycle.
    pub fn cycle<M: MemoryAccess + ?Sized>(&mut self, memory: &mut M, cycles: usize) -> (r: usize)
        requires
            old(self).wf(),
        ensures
            final(self).wf(),
            final(self).stop ==> r == cycles,
            cycles == 0 ==> r == 0 && *final(self) == *old(self),
            old(self).stop ==> r == cycles && final(self).regs == old(self).regs && final(self).exceptions@ == old(self).exceptions@,
            !old(self).stop ==> exists|regs: Seq<Registers>, steps: Seq<(usize, Option<u8>)>|
                #[trigger] spec_interpreter_run::<CPU>(regs, steps) && regs[0] == old(self).regs && regs.last() == final(self).regs
                && (cycles > 0 ==> steps.len() > 0)
                && spec_started_below(steps, cycles)
                && (final(self).stop || spec_total_cycles(steps) >= cycles || steps.len() == usize::MAX)
                && (!final(self).stop ==> r == spec_total_cycles(steps)),
    {
        let mut total: usize = 0;
        let mut steps: usize = 0;
        let ghost mut regs_seq: Seq<Registers> = seq![self.regs];
        let ghost mut steps_seq: Seq<(usize, Option<u8>)> = Seq::empty();
        while total < cycles && steps < usize::MAX
            invariant
                self.wf(),
                old(self).stop ==> steps == 0 && *self == *old(self),
                cycles == 0 ==> steps == 0,
                steps == 0 ==> total == 0 && *self == *old(self),
                !old(self).stop ==> spec_interpreter_run::<CPU>(regs_seq, steps_seq) && regs_seq[0] == old(self).regs
                    && regs_seq.last() == self.regs && steps_seq.len() == steps && !self.stop,
                total == spec_total_cycles(steps_seq),
                !old(self).stop ==> spec_started_below(steps_seq, cycles),
            decreases usize::MAX - steps,
        {
            let ghost before = self.regs;
            let c = self.interpreter(memory);
            proof {
                if !old(self).stop {
                    let v = choose|v: Option<u8>| #[trigger] spec_interpreter_step::<CPU>(before, self.regs, (c, v))
                        && (v matches Some(e) ==> self.pending().contains(spec_exception(e)));
                    lemma_run_push::<CPU>(regs_seq, steps_seq, self.regs, (c, v));
                    lemma_started_below_push(steps_seq, (c, v), cycles);
                    regs_seq = regs_seq.push(self.regs);
                    steps_seq = steps_seq.push((c, v));
                }
            }
            total = total.saturating_add(c);
            steps = steps + 1;
            if self.stop {
                proof {
                    if !old(self).stop {
                        assert(spec_interpreter_run::<CPU>(regs_seq, steps_seq));
                    }
                }
                return cycles;
            }
        }
        proof {
            if !old(self).stop {
                assert(spec_interpreter_run::<CPU>(regs_seq, steps_seq));
            }
        }
        if self.stop {
            return cycles;
        }
        total
    }

    /// Runs the CPU until either an exception occurs or **at least** the given number cycles have been executed.
    ///
    /// Returns the number of cycles actually executed, and the exception that occured if any.
    /// The loop gives up after `usize::MAX` steps.
    pub fn cycle_until_exception<M: MemoryAccess + ?Sized>(&mut self, memory: &mut M, cycles: usize) -> (r: (usize, Option<u8>))
        requires
            old(self).wf(),
        ensures
            final(self).wf(),
            cycles == 0 ==> r == (0usize, None::<u8>) && *final(self) == *old(self),
            old(self).stop ==> r == (0usize, None::<u8>) && final(self).regs == old(self).regs
                && final(self).exceptions@ == old(self).exceptions@,
            !old(self).stop ==> exists|regs: Seq<Registers>, steps: Seq<(usize, Option<u8>)>|
                #[trigger] spec_interpreter_run::<CPU>(regs, steps) && regs[0] == old(self).regs && regs.last() == final(self).regs
                && (forall|k: int| 0 <= k < steps.len() - 1 ==> (#[trigger] steps[k]).1 is None)
                && r == (spec_total_cycles(steps), spec_last_exception(steps))
                && (cycles > 0 ==> steps.len() > 0)
                && spec_started_below(steps, cycles)
                && (r.1 is Some || final(self).stop || r.0 >= cycles || steps.len() == usize::MAX),
            forall|e: Exception| final(self).pending().contains(e) ==> old(self).pending().contains(e),
    {
        let mut total: usize = 0;
        let mut steps: usize = 0;
        let ghost mut regs_seq: Seq<Registers> = seq![self.regs];
        let ghost mut steps_seq: Seq<(usize, Option<u8>)> = Seq::empty();
        while total < cycles && steps < usize::MAX
            invariant
                self.wf(),
                old(self).stop ==> steps == 0 && *self == *old(self),
                cycles == 0 ==> steps == 0,
                steps == 0 ==> total == 0 && *self == *old(self),
                !old(self).stop ==> spec_interpreter_run::<CPU>(regs_seq, steps_seq) && regs_seq[0] == old(self).regs
                    && regs_seq.last() == self.regs && steps_seq.len() == steps && !self.stop,
                total == spec_total_cycles(steps_seq),
                forall|k: int| 0 <= k < steps_seq.len() ==> (#[trigger] steps_seq[k]).1 is None,
                !old(self).stop ==> spec_started_below(steps_seq, cycles),
                forall|e: Exception| self.pending().contains(e) ==> old(self).pending().contains(e),
            decreases usize::MAX - steps,
        {
            let ghost before = self.regs;
            let (c, v) = self.interpreter_exception(memory);
            proof {
                if !old(self).stop {
                    lemma_run_push::<CPU>(regs_seq, steps_seq, self.regs, (c, v));
                    lemma_started_below_push(steps_seq, (c, v), cycles);
                    assert forall|k: int| 0 <= k < steps_seq.len() implies (#[trigger] steps_seq.push((c, v))[k]).1 is None by {
                        assert(steps_seq.push((c, v))[k] == steps_seq[k]);
                    }
                    regs_seq = regs_seq.push(self.regs);
                    steps_seq = steps_seq.push((c, v));
                }
            }
            total = total.saturating_add(c);
            steps = steps + 1;
            if v.is_some() || self.stop {
                proof {
                    if !old(self).stop {
                        assert(spec_interpreter_run::<CPU>(regs_seq, steps_seq));
                    }
                }
                return (total, v);
            }
        }
        proof {
            if !old(self).stop {
                assert(spec_interpreter_run::<CPU>(regs_seq, steps_seq));
                if steps_seq.len() > 0 {
                    assert(steps_seq[steps_seq.len() - 1].1 is None);
                }
            }
        }
        (total, None)
    }

    /// Runs until an exception or STOP instruction occurs.
    ///
    /// Returns the number of cycles executed and the exception that occured.
    /// If exception is None, this means the CPU has executed a STOP instruction (or is stopped).
    /// The loop gives up after `usize::MAX` steps.
    pub fn loop_until_exception_stop<M: MemoryAccess + ?Sized>(&mut self, memory: &mut M) -> (r: (usize, Option<u8>))
        requires
            old(self).wf(),
        ensures
            final(self).wf(),
            old(self).stop ==> r == (0usize, None::<u8>) && final(self).regs == old(self).regs
                && final(self).exceptions@ == old(self).exceptions@,
            !old(self).stop ==> exists|regs: Seq<Registers>, steps: Seq<(usize, Option<u8>)>|
                #[trigger] spec_interpreter_run::<CPU>(regs, steps) && regs[0] == old(self).regs && regs.last() == final(self).regs
                && steps.len() > 0
                && (forall|k: int| 0 <= k < steps.len() - 1 ==> (#[trigger] steps[k]).1 is None)
                && r == (spec_total_cycles(steps), spec_last_exception(steps))
                && (r.1 is Some || final(self).stop || steps.len() == usize::MAX),
            forall|e: Exception| final(self).pending().contains(e) ==> old(self).pending().contains(e),
    {
        let mut total_cycles: usize = 0;
        let mut steps: usize = 0;
        let ghost mut regs_seq: Seq<Registers> = seq![self.regs];
        let ghost mut steps_seq: Seq<(usize, Option<u8>)> = Seq::empty();
        while steps < usize::MAX
            invariant
                self.wf(),
                steps == 0 ==> total_cycles == 0 && self.stop == old(self).stop,
                old(self).stop ==> steps == 0 && *self == *old(self),
                !old(self).stop ==> spec_interpreter_run::<CPU>(regs_seq, steps_seq) && regs_seq[0] == old(self).regs
                    && regs_seq.last() == self.regs && steps_seq.len() == steps && !self.stop,
                total_cycles == spec_total_cycles(steps_seq),
                forall|k: int| 0 <= k < steps_seq.len() ==> (#[trigger] steps_seq[k]).1 is None,
                forall|e: Exception| self.pending().contains(e) ==> old(self).pending().contains(e),
            decreases usize::MAX - steps,
        {
            let (cycles, vector) = self.interpreter_exception(memory);
            proof {
                if !old(self).stop {
                    lemma_run_push::<CPU>(regs_seq, steps_seq, self.regs, (cycles, vector));
                    assert forall|k: int| 0 <= k < steps_seq.len() implies (#[trigger] steps_seq.push((cycles, vector))[k]).1 is None by {
                        assert(steps_seq.push((cycles, vector))[k] == steps_seq[k]);
                    }
                    regs_seq = regs_seq.push(self.regs);
                    steps_seq = steps_seq.push((cycles, vector));
                }
            }
            total_cycles = total_cycles.saturating_add(cycles);
            steps = steps + 1;
            if vector.is_some() || self.stop {
                proof {
                    if !old(self).stop {
                        assert(spec_interpreter_run::<CPU>(regs_seq, steps_seq));
                    }
                }
                return (total_cycles, vector);
            }
        }
        proof {
            if !old(self).stop {
                assert(spec_interpreter_run::<CPU>(regs_seq, steps_seq));
                assert(steps_seq[steps_seq.len() - 1].1 is None);
            }
        }
        (total_cycles, None)
    }
}

/// The instruction decoded at `pc` from the given words.
pub open spec fn spec_decoded_at(pc: u32, w: Seq<u16>) -> Instruction {
    Instruction { opcode: w[0], pc, operands: spec_decode(w[0], spec_wrapping_add(pc, 2), w.subrange(1, w.len() as int)) }
}

/// Executing the MULU (or MULS) that the assembler emits between two data registers multiplies
/// their low words, unsigned (or signed), into the whole destination register, the other data
/// registers being kept.
pub proof fn lemma_execute_multiply_registers<CPU: CpuDetails>(signed: bool, dst: u8, src: u8, pc: u32,
    old: Registers, new: Registers, r: InterpreterResult)
    requires
        dst <= 7,
        src <= 7,
        ({
            let w = spec_register_effective_address(0b1100, dst as u16, if signed { 0b111 } else { 0b011 }, AddressingMode::Drd(src));
            spec_dispatch::<CPU>(old, w[0], new, spec_isa(w[0]), spec_decoded_at(pc, w), r)
        }),
    ensures
        r is Ok,
        !signed ==> new.d[dst as int] == (old.d[src as int] % 0x1_0000) * (old.d[dst as int] % 0x1_0000),
        signed ==> new.d[dst as int] == spec_wrap(spec_signed(old.d[src as int] as int, Size::Word)
            * spec_signed(old.d[dst as int] as int, Size::Word), Size::Long),
        forall|k: int| 0 <= k < 8 && k != dst ==> new.d[k] == old.d[k],
        new.a == old.a && new.pc == old.pc,
{
    let am = AddressingMode::Drd(src);
    lemma_decode_multiply_divide(dst, am, spec_wrapping_add(pc, 2));
    let v = spec_wrap(old.d[src as int] as int, Size::Word);
    assert(v as u16 == v);
    let a = old.d[src as int] % 0x1_0000;
    let b = old.d[dst as int] % 0x1_0000;
    assert(v == a);
    assert(0 <= a * b <= 0xFFFF * 0xFFFF) by (nonlinear_arith)
        requires 0 <= a <= 0xFFFF, 0 <= b <= 0xFFFF;
    assert(crate::arithmetic::spec_mulu(v as u16, old.d[dst as int]) == a * b);
}

/// Executing the MOVE USP that the assembler emits copies, in supervisor mode, the address
/// register to the user stack pointer, or the user stack pointer to the address register; in user
/// mode it is a Privilege Violation that changes nothing.
pub proof fn lemma_execute_move_usp<CPU: CpuDetails>(dir: Direction, reg: u8, pc: u32, old: Registers, new: Registers, r: InterpreterResult)
    requires
        dir == Direction::UspToRegister || dir == Direction::RegisterToUsp,
        reg <= 7,
        ({
            let op = (0x4E60 + (if dir == Direction::UspToRegister { 8u16 } else { 0 }) + reg as u16) as u16;
            spec_dispatch::<CPU>(old, op, new, spec_isa(op), spec_decoded_at(pc, seq![op]), r)
        }),
    ensures
        old.sr.s && dir == Direction::RegisterToUsp ==> r is Ok && new.usp == old.spec_a(reg)
            && new.d == old.d && new.a == old.a && new.ssp == old.ssp && new.sr == old.sr && new.pc == old.pc,
        old.sr.s && dir == Direction::UspToRegister ==> r is Ok && new.spec_a(reg) == old.usp && new.d == old.d,
        !old.sr.s ==> r == Err::<usize, u8>(PRIVILEGE_VIOLATION) && new == old,
{
    let op = (0x4E60 + (if dir == Direction::UspToRegister { 8u16 } else { 0 }) + reg as u16) as u16;
    lemma_decode_moveusp(dir, reg, spec_wrapping_add(pc, 2), seq![op].subrange(1, 1));
}

/// Executing the ROXL or ROXR by one bit that the assembler emits for a data register rotates, by
/// one bit, the value made of X above the low part of the register of the size; C is the new X and
/// the rest of the register is kept.
pub proof fn lemma_execute_rotate_extend_one<CPU: CpuDetails>(dir: Direction, size: Size, reg: u8, pc: u32,
    old: Registers, new: Registers, r: InterpreterResult)
    requires
        dir == Direction::Left || dir == Direction::Right,
        reg <= 7,
        ({
            let op = spec_rotation_direction_size_mode_register(0b1110, 1, dir, size, 0, 2, reg as u16);
            spec_dispatch::<CPU>(old, op, new, spec_isa(op), spec_decoded_at(pc, seq![op]), r)
        }),
    ensures
        ({
            let m = spec_modulus(size);
            let before = (if old.sr.x { m } else { 0 }) + spec_low(old.d[reg as int], size);
            let after = (if new.sr.x { m } else { 0 }) + spec_low(new.d[reg as int], size);
            &&& dir == Direction::Right ==> after == before / 2 + (before % 2) * m
            &&& dir == Direction::Left ==> after == (before * 2) % (2 * m) + before / m
            &&& new.sr.c == new.sr.x
            &&& new.d[reg as int] as int / m == old.d[reg as int] as int / m
            &&& r is Ok
        }),
{
    let op = spec_rotation_direction_size_mode_register(0b1110, 1, dir, size, 0, 2, reg as u16);
    lemma_decode_shift_register(2, 1, dir, size, 0, reg, spec_wrapping_add(pc, 2), seq![op].subrange(1, 1));
    let left = dir == Direction::Left;
    let k = ShiftKind::RotateExtend;
    let data = spec_low(old.d[reg as int], size);
    let st = crate::arithmetic::spec_shift_start(k, data, size, old.sr);
    assert(spec_shift_count(old, 1, 0) == 1);
    assert(st.0 == data) by {
        vstd::arithmetic::div_mod::lemma_small_mod(data as nat, spec_modulus(size) as nat);
    }
    reveal_with_fuel(crate::arithmetic::spec_shift_steps, 2);
    crate::arithmetic::lemma_shift_step_meaning(k, left, size, st);
    let res = crate::arithmetic::spec_shift_result(k, left, size, old.sr, data, 1);
    crate::arithmetic::lemma_shift_steps_fit(k, left, size, st, 1);
    crate::arithmetic::lemma_low_of_merge(old.d[reg as int], res, size);
}

/// Executing the SBCD that the assembler emits between two data registers holding BCD bytes gives
/// the destination the BCD byte of its decimal value less the source and X, modulo 100, the rest of
/// the register being kept; C and X tell a borrow.
pub proof fn lemma_execute_sbcd_registers<CPU: CpuDetails>(dst: u8, src: u8, pc: u32, old: Registers, new: Registers, r: InterpreterResult)
    requires
        dst <= 7,
        src <= 7,
        crate::arithmetic::spec_is_bcd(spec_low(old.d[dst as int], Size::Byte) as u8),
        crate::arithmetic::spec_is_bcd(spec_low(old.d[src as int], Size::Byte) as u8),
        ({
            let op = spec_register_size_mode_register(0b1000, dst, Size::Byte, 0, Direction::RegisterToRegister, src);
            spec_dispatch::<CPU>(old, op, new, spec_isa(op), spec_decoded_at(pc, seq![op]), r)
        }),
    ensures
        ({
            let d = crate::arithmetic::spec_bcd_value(spec_low(old.d[dst as int], Size::Byte) as u8);
            let s = crate::arithmetic::spec_bcd_value(spec_low(old.d[src as int], Size::Byte) as u8);
            let x: int = if old.sr.x { 1 } else { 0 };
            &&& r is Ok
            &&& spec_low(new.d[dst as int], Size::Byte) == crate::arithmetic::spec_to_bcd((d - s - x + 200) % 100)
            &&& new.sr.c == (s + x > d) && new.sr.x == new.sr.c
            &&& new.d[dst as int] as int / 0x100 == old.d[dst as int] as int / 0x100
        }),
{
    let op = spec_register_size_mode_register(0b1000, dst, Size::Byte, 0, Direction::RegisterToRegister, src);
    lemma_decode_extended_arithmetic(8, dst, Size::Byte, Direction::RegisterToRegister, src, spec_wrapping_add(pc, 2), seq![op].subrange(1, 1));
    let sb = spec_low(old.d[src as int], Size::Byte) as u8;
    let db = spec_low(old.d[dst as int], Size::Byte) as u8;
    assert(sb as u32 == spec_low(old.d[src as int], Size::Byte) && db as u32 == spec_low(old.d[dst as int], Size::Byte));
    crate::arithmetic::lemma_sbcd_is_decimal_subtraction(old.sr, sb, db);
    let res = crate::arithmetic::spec_sbcd_result(old.sr, sb, db);
    assert(0 <= res < 0x100);
    crate::arithmetic::lemma_low_of_merge(old.d[dst as int], res as u32, Size::Byte);
}

} // verus!
