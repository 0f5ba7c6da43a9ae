//! Execution of the instructions.
//!
//! Each `execute_*` method executes one instruction on the core and returns its execution time,
//! or the vector of the exception it raised.

use vstd::prelude::*;
use crate::{CpuDetails, M68000, MemoryAccess, Registers, StackFormat};
use crate::addressing_modes::{AddressingMode, EffectiveAddress};
use crate::arithmetic::{divs, divu, muls, mulu, signed, spec_divs, spec_divs_sr, spec_divu, spec_divu_sr, spec_muls, spec_mulu, spec_signed, abcd, add_displacement, sbcd, spec_abcd_full, spec_abcd_sr, spec_sbcd_result, spec_sbcd_sr, BinaryOp, ShiftKind, UnaryOp, shift, spec_shift_result, spec_shift_sr, add_values, logic_sr, spec_logic_sr, spec_unary, unary, binary, low, merge, sign_extend, spec_add_result, spec_add_sr, spec_binary, spec_fits, spec_low,
    spec_merge, spec_sign_extend, spec_sub_result, spec_sub_sr, spec_wrap, sub_values, wrapping_add32, wrapping_sub32};
use crate::exception::{ACCESS_ERROR, ADDRESS_ERROR, CHK_INSTRUCTION, ZERO_DIVIDE, FORMAT_ERROR, ILLEGAL_INSTRUCTION, PRIVILEGE_VIOLATION, TRAPV_INSTRUCTION, TRAP_0};
use crate::instruction::{Direction, Instruction, Operands, Size, spec_size_bytes};
use crate::isa::Isa;
use crate::memory_access::{wrapping_add, wrapping_sub};
use crate::memory_access::{spec_ea_time, spec_long_access_time, spec_a_set, spec_d_set, spec_direct_operand, spec_direct_write, spec_ea_address, spec_ea_post, spec_immediate_time, spec_is_memory, spec_same_state, spec_wrap32};
use crate::utils::{bit, spec_bit};
use crate::status_register::{StatusRegister, spec_and_raw, spec_condition, spec_from_raw, spec_or_ccr, spec_or_raw, spec_set_ccr, spec_to_raw, spec_xor_ccr, spec_xor_raw};

verus! {

/// Returns the execution time on success, an exception vector on error.
pub type InterpreterResult = Result<usize, u8>;

/// The bits of the status register that ANDI to CCR keeps.
pub const SR_UPPER_MASK: u16 = 0xA700;

/// `new` is `old` with data register `reg` set to `value` and the status register set to `sr`.
pub open spec fn spec_d_sr_set(old: Registers, new: Registers, reg: u8, value: u32, sr: StatusRegister) -> bool {
    &&& new.d@ == old.d@.update(reg as int, value)
    &&& new.a == old.a
    &&& new.usp == old.usp
    &&& new.ssp == old.ssp
    &&& new.sr == sr
    &&& new.pc == old.pc
}

/// The registers after `Dn op src` is stored in `Dn` (CMP leaves `Dn`).
pub open spec fn spec_binary_to_reg(old: Registers, new: Registers, op: BinaryOp, reg: u8, size: Size, src: u32) -> bool {
    let dst = old.d[reg as int];
    let (res, sr) = spec_binary(op, old.sr, spec_wrap(dst as int, size), src, size);
    spec_d_sr_set(old, new, reg, if op == BinaryOp::Cmp { dst } else { spec_merge(dst, res, size) }, sr)
}

/// An instruction keeps the pending exceptions, the current opcode and the decoded addresses.
pub open spec fn spec_keeps_pending<CPU: CpuDetails>(old: M68000<CPU>, new: M68000<CPU>) -> bool {
    new.exceptions@ == old.exceptions@ && new.current_opcode == old.current_opcode && new.fetches == old.fetches
}

/// The errors of an instruction that only accesses memory through its operands.
pub open spec fn spec_access_error(r: InterpreterResult) -> bool {
    r matches Err(e) ==> e == ACCESS_ERROR || e == ADDRESS_ERROR
}

/// The exceptions of an instruction whose memory operand is at `addr`: an Address Error exactly
/// when a word or long operand is at an odd address, and an Access Error only with the request the
/// memory refused there recorded; no refused request otherwise.
pub open spec fn spec_operand_errors<CPU: CpuDetails>(old: M68000<CPU>, new: M68000<CPU>, r: InterpreterResult, addr: u32, size: Size) -> bool {
    &&& r == Err::<usize, u8>(ADDRESS_ERROR) <==> size != Size::Byte && addr % 2 == 1
    &&& r == Err::<usize, u8>(ACCESS_ERROR) ==> new.refused@ == old.refused@.push((addr, size))
    &&& r != Err::<usize, u8>(ACCESS_ERROR) ==> new.refused == old.refused
}

/// The requests an instruction had refused: an Access Error comes of exactly one request that the
/// memory refused, recorded last; with any other outcome no request was refused.
pub open spec fn spec_refusal<CPU: CpuDetails>(old: M68000<CPU>, new: M68000<CPU>, r: InterpreterResult) -> bool {
    &&& r == Err::<usize, u8>(ACCESS_ERROR) ==> new.refused@ == old.refused@.push(new.refused@.last())
    &&& r != Err::<usize, u8>(ACCESS_ERROR) ==> new.refused == old.refused
}

/// The exceptions of an instruction between two predecremented memory operands (ADDX, SUBX,
/// ABCD, SBCD), the source being read first: an Address Error when a word or long source is at an
/// odd address, and only when one of the two operands is; an Access Error only with the request the
/// memory refused at one of the two operands recorded; none between registers.
pub open spec fn spec_pair_errors<CPU: CpuDetails>(old: M68000<CPU>, new: M68000<CPU>, r: InterpreterResult, dst: u8, src: u8, size: Size, mem: bool) -> bool {
    let src_addr = spec_ea_address(old.regs, AddressingMode::Ariwpr(src), Some(size));
    &&& !mem ==> r is Ok && new.refused == old.refused
    &&& mem && size != Size::Byte && src_addr % 2 == 1 ==> r == Err::<usize, u8>(ADDRESS_ERROR)
    &&& mem && r == Err::<usize, u8>(ADDRESS_ERROR) ==> size != Size::Byte && (src_addr % 2 == 1 || exists|mid: Registers|
        #[trigger] spec_ea_post(old.regs, mid, AddressingMode::Ariwpr(src), Some(size))
        && spec_ea_address(mid, AddressingMode::Ariwpr(dst), Some(size)) % 2 == 1)
    &&& mem && r == Err::<usize, u8>(ACCESS_ERROR) ==> new.refused@ == old.refused@.push((src_addr, size)) || exists|mid: Registers|
        #[trigger] spec_ea_post(old.regs, mid, AddressingMode::Ariwpr(src), Some(size))
        && new.refused@ == old.refused@.push((spec_ea_address(mid, AddressingMode::Ariwpr(dst), Some(size)), size))
    &&& r != Err::<usize, u8>(ACCESS_ERROR) ==> new.refused == old.refused
}

/// The exceptions of an instruction with one operand given by an addressing mode: those of its
/// memory operand, none for a register or immediate data.
pub open spec fn spec_ea_errors<CPU: CpuDetails>(old: M68000<CPU>, new: M68000<CPU>, r: InterpreterResult, am: AddressingMode, size: Size) -> bool {
    &&& spec_is_memory(am) ==> spec_operand_errors(old, new, r, spec_ea_address(old.regs, am, Some(size)), size)
    &&& !spec_is_memory(am) ==> r is Ok && new.refused == old.refused
}

/// What `Dn op <ea>` stored in `Dn` does: exactly the operation when the operand is a register or
/// immediate data; with a memory operand, the operation on some value read, after the addressing
/// mode's side effect.
pub open spec fn spec_binary_to_reg_effect<CPU: CpuDetails>(old: M68000<CPU>, new: M68000<CPU>, r: InterpreterResult, op: BinaryOp, reg: u8, size: Size, am: AddressingMode, time: usize) -> bool {
    &&& spec_same_state(old, new)
    &&& spec_binary_to_reg_step::<CPU>(old.regs, new.regs, r, op, reg, size, am, time)
    &&& spec_ea_errors(old, new, r, am, size)
    &&& spec_is_memory(am) && r is Ok ==> r == Ok::<usize, u8>(spec_read_modify_write_time::<CPU>(time, am, size, false))
        && exists|mid: Registers, src: u32|
            spec_fits(src, size) && #[trigger] spec_ea_post(old.regs, mid, am, Some(size)) && #[trigger] spec_binary_to_reg(mid, new.regs, op, reg, size, src)
            && new.loads@ == old.loads@.push((spec_ea_address(old.regs, am, Some(size)), src, size))
}

/// The effect of `reg op <ea>` stored in a data register on the registers.
pub open spec fn spec_binary_to_reg_step<CPU: CpuDetails>(old: Registers, new: Registers, r: InterpreterResult, op: BinaryOp, reg: u8, size: Size, am: AddressingMode, time: usize) -> bool {
    &&& spec_access_error(r)
    &&& spec_direct_operand(old, am, size) matches Some(src) ==> r == Ok::<usize, u8>(
            if am is Immediate { time.saturating_add(spec_immediate_time::<CPU>(size)) } else { time })
        && spec_binary_to_reg(old, new, op, reg, size, src)
    &&& spec_is_memory(am) && r is Ok ==> exists|mid: Registers, src: u32|
        spec_fits(src, size) && #[trigger] spec_ea_post(old, mid, am, Some(size)) && #[trigger] spec_binary_to_reg(mid, new, op, reg, size, src)
}

/// What `<ea> op src` stored in `<ea>` does (CMP only sets the condition codes): exactly the
/// operation when the operand is a data register; with a memory operand, the condition codes of the
/// operation on some value read, after the addressing mode's side effect.
pub open spec fn spec_binary_to_ea_effect<CPU: CpuDetails>(old: M68000<CPU>, new: M68000<CPU>, r: InterpreterResult, op: BinaryOp, src: u32, size: Size, am: AddressingMode, time: usize) -> bool {
    &&& spec_same_state(old, new)
    &&& spec_binary_to_ea_step(old.regs, new.regs, r, op, src, size, am, time)
    &&& spec_binary_to_ea_store(old, new, r, op, src, size, am)
    &&& spec_ea_errors(old, new, r, am, size)
    &&& spec_is_memory(am) && r is Ok ==> r == Ok::<usize, u8>(spec_read_modify_write_time::<CPU>(time, am, size, op != BinaryOp::Cmp))
}

/// The time of an instruction that reads a memory operand and, if `write`, writes the result back:
/// the calculation of its address, and 4 more cycles for each long access.
pub open spec fn spec_read_modify_write_time<CPU: CpuDetails>(time: usize, am: AddressingMode, size: Size, write: bool) -> usize {
    let read = spec_long_access_time(time.saturating_add(spec_ea_time::<CPU>(am)), size);
    if write { spec_long_access_time(read, size) } else { read }
}

/// What `<ea> op src` stores: nothing for a register, for CMP or on an exception; otherwise the
/// result, computed from the operand read, at the address of the operand.
pub open spec fn spec_binary_to_ea_store<CPU: CpuDetails>(old: M68000<CPU>, new: M68000<CPU>, r: InterpreterResult, op: BinaryOp, src: u32, size: Size, am: AddressingMode) -> bool {
    &&& !(spec_is_memory(am) && op != BinaryOp::Cmp && r is Ok) ==> new.stores == old.stores
    &&& spec_is_memory(am) && op != BinaryOp::Cmp && r is Ok ==> exists|mid: Registers, dst: u32|
        spec_fits(dst, size) && #[trigger] spec_ea_post(old.regs, mid, am, Some(size))
        && new.regs == Registers { sr: #[trigger] spec_binary(op, mid.sr, dst, src, size).1, ..mid }
        && new.stores@ == old.stores@.push((spec_ea_address(old.regs, am, Some(size)), spec_binary(op, mid.sr, dst, src, size).0, size))
        && new.loads@ == old.loads@.push((spec_ea_address(old.regs, am, Some(size)), dst, size))
}

/// The effect of a shift or rotation by one bit of a memory word: the address register of the
/// operand is updated, the flags come from the word read, and the result is stored at its address.
pub open spec fn spec_shift_memory_effect<CPU: CpuDetails>(old: M68000<CPU>, new: M68000<CPU>, r: InterpreterResult, kind: ShiftKind, dir: Direction, am: AddressingMode) -> bool {
    &&& r is Err ==> new.stores == old.stores
    &&& r is Ok ==> exists|mid: Registers, data: u32| spec_fits(data, Size::Word) && #[trigger] spec_ea_post(old.regs, mid, am, Some(Size::Word))
        && new.regs == (Registers { sr: #[trigger] spec_shift_sr(kind, spec_is_left(dir), Size::Word, mid.sr, data, 1), ..mid })
        && new.stores@ == old.stores@.push((spec_ea_address(old.regs, am, Some(Size::Word)),
            spec_shift_result(kind, spec_is_left(dir), Size::Word, mid.sr, data, 1), Size::Word))
}

/// The effect of `<ea> op src` stored in `<ea>` on the registers.
pub open spec fn spec_binary_to_ea_step(old: Registers, new: Registers, r: InterpreterResult, op: BinaryOp, src: u32, size: Size, am: AddressingMode, time: usize) -> bool {
    &&& spec_access_error(r)
    &&& am matches AddressingMode::Drd(d) ==> r == Ok::<usize, u8>(time) && spec_binary_to_reg(old, new, op, d, size, src)
    &&& spec_is_memory(am) && r is Ok ==> exists|mid: Registers, dst: u32|
        spec_fits(dst, size) && #[trigger] spec_ea_post(old, mid, am, Some(size))
        && new == Registers { sr: #[trigger] spec_binary(op, mid.sr, dst, src, size).1, ..mid }
}


/// The operands of a binary operation between a data register and an effective address are valid:
/// the effective address is a memory location when it is the destination, and an address register
/// is not accessed as a byte.
pub open spec fn spec_binary_operands_valid(reg: u8, size: Size, am: AddressingMode, to_ea: bool) -> bool {
    &&& reg <= 7
    &&& am.spec_wf()
    &&& !(am is Ard && size == Size::Byte)
    &&& to_ea ==> spec_is_memory(am)
}

/// Returns whether the operands of a binary operation are valid.
fn binary_operands_valid(reg: u8, size: Size, am: AddressingMode, to_ea: bool) -> (r: bool)
    ensures
        r == spec_binary_operands_valid(reg, size, am, to_ea),
{
    reg <= 7 && am.is_wf() && !(am.is_ard() && size == Size::Byte) && (!to_ea || am.is_memory())
}

/// An effective address that is read then written: a data register or a memory location.
pub open spec fn spec_ea_operand_valid(am: AddressingMode) -> bool {
    am.spec_wf() && (am is Drd || spec_is_memory(am))
}

/// Returns whether an effective address can be read then written.
fn ea_operand_valid(am: AddressingMode) -> (r: bool)
    ensures
        r == spec_ea_operand_valid(am),
{
    am.is_wf() && (am.is_drd() || am.is_memory())
}

/// The data of ADDQ and SUBQ: 1 to 8, 0 meaning 8.
pub open spec fn spec_quick(imm: u8) -> int {
    if imm == 0 { 8 } else { imm as int }
}

/// The operand of ADDQ and SUBQ is a data or address register or a memory location,
/// and an address register is not accessed as a byte.
pub open spec fn spec_quick_operand_valid(size: Size, am: AddressingMode) -> bool {
    &&& am.spec_wf()
    &&& am is Drd || am is Ard || spec_is_memory(am)
    &&& !(am is Ard && size == Size::Byte)
}

/// Returns whether the operand of ADDQ and SUBQ is valid.
fn quick_operand_valid(size: Size, am: AddressingMode) -> (r: bool)
    ensures
        r == spec_quick_operand_valid(size, am),
{
    am.is_wf() && (am.is_drd() || am.is_ard() || am.is_memory()) && !(am.is_ard() && size == Size::Byte)
}

/// What a single operand operation on `<ea>` does: exactly the operation on a data register; with
/// a memory operand, the condition codes of the operation on some value read, after the
/// addressing mode's side effect.
pub open spec fn spec_unary_effect<CPU: CpuDetails>(old: M68000<CPU>, new: M68000<CPU>, r: InterpreterResult, op: UnaryOp, size: Size, am: AddressingMode, time: usize) -> bool {
    &&& spec_same_state(old, new)
    &&& spec_unary_step(old.regs, new.regs, r, op, size, am, time)
    &&& spec_unary_store(old, new, r, op, size, am)
    &&& spec_ea_errors(old, new, r, am, size)
}

/// What a single operand operation stores: nothing for a register, for TST or on an exception;
/// otherwise the result, computed from the operand read (0 for CLR), at the address of the operand.
pub open spec fn spec_unary_store<CPU: CpuDetails>(old: M68000<CPU>, new: M68000<CPU>, r: InterpreterResult, op: UnaryOp, size: Size, am: AddressingMode) -> bool {
    &&& !(spec_is_memory(am) && op != UnaryOp::Tst && r is Ok) ==> new.stores == old.stores
    &&& spec_is_memory(am) && op != UnaryOp::Tst && r is Ok ==> exists|mid: Registers, data: u32|
        spec_fits(data, size) && #[trigger] spec_ea_post(old.regs, mid, am, Some(size))
        && new.regs == Registers { sr: #[trigger] spec_unary(op, mid.sr, data, size).1, ..mid }
        && (op == UnaryOp::Clr ==> data == 0)
        && new.stores@ == old.stores@.push((spec_ea_address(old.regs, am, Some(size)), spec_unary(op, mid.sr, data, size).0, size))
        && (op != UnaryOp::Clr ==> new.loads@ == old.loads@.push((spec_ea_address(old.regs, am, Some(size)), data, size)))
}

/// The effect of a single operand operation on the registers.
pub open spec fn spec_unary_step(old: Registers, new: Registers, r: InterpreterResult, op: UnaryOp, size: Size, am: AddressingMode, time: usize) -> bool {
    &&& spec_access_error(r)
    &&& am matches AddressingMode::Drd(d) ==> r == Ok::<usize, u8>(time) && ({
        let dv = old.d[d as int];
        let (res, sr) = spec_unary(op, old.sr, spec_low(dv, size), size);
        spec_d_sr_set(old, new, d, if op == UnaryOp::Tst { dv } else { spec_merge(dv, res, size) }, sr)
    })
    &&& spec_is_memory(am) && r is Ok ==> exists|mid: Registers, data: u32|
        spec_fits(data, size) && #[trigger] spec_ea_post(old, mid, am, Some(size))
        && new == Registers { sr: #[trigger] spec_unary(op, mid.sr, data, size).1, ..mid }
}

/// The execution time of an instruction depending on whether its operand is long and in a register.
pub open spec fn spec_single_operand_time(is_long: bool, in_register: bool, regbw: usize, regl: usize, membw: usize, meml: usize) -> usize {
    if in_register {
        if is_long { regl } else { regbw }
    } else {
        if is_long { meml } else { membw }
    }
}

/// Returns the execution time of an instruction depending on whether its operand is long and in a register.
fn single_operand_time(is_long: bool, in_register: bool, regbw: usize, regl: usize, membw: usize, meml: usize) -> (r: usize)
    ensures
        r == spec_single_operand_time(is_long, in_register, regbw, regl, membw, meml),
{
    if in_register {
        if is_long { regl } else { regbw }
    } else {
        if is_long { meml } else { membw }
    }
}

/// The operands of MOVE: a source that can be read at the size, and a data register or memory destination.
pub open spec fn spec_move_valid(size: Size, amdst: AddressingMode, amsrc: AddressingMode) -> bool {
    &&& amsrc.spec_wf()
    &&& !(amsrc is Ard && size == Size::Byte)
    &&& spec_ea_operand_valid(amdst)
}

/// Returns whether the operands of MOVE are valid.
fn move_valid(size: Size, amdst: AddressingMode, amsrc: AddressingMode) -> (r: bool)
    ensures
        r == spec_move_valid(size, amdst, amsrc),
{
    amsrc.is_wf() && !(amsrc.is_ard() && size == Size::Byte) && ea_operand_valid(amdst)
}

/// The count of a register shift or rotate: 1 to 8 given in the instruction (0 meaning 8) in `mode` 0,
/// or data register `rot` modulo 64 in `mode` 1.
pub open spec fn spec_shift_count(regs: Registers, rot: u8, mode: u8) -> nat {
    if mode == 1 { (regs.d[rot as int] % 64) as nat } else if rot == 0 { 8 } else { rot as nat }
}

/// The registers after a shift or rotate of data register `reg`.
pub open spec fn spec_shift_register_effect(old: Registers, new: Registers, kind: ShiftKind, rot: u8, dir: Direction, size: Size, mode: u8, reg: u8) -> bool {
    let count = spec_shift_count(old, rot, mode);
    let data = spec_low(old.d[reg as int], size);
    let left = dir == Direction::Left;
    spec_d_sr_set(old, new, reg, spec_merge(old.d[reg as int], spec_shift_result(kind, left, size, old.sr, data, count), size),
        spec_shift_sr(kind, left, size, old.sr, data, count))
}

/// Whether a direction is to the left.
pub open spec fn spec_is_left(dir: Direction) -> bool {
    dir == Direction::Left
}

/// `t * n`, saturated to the largest `usize`.
pub open spec fn spec_time_mul(t: usize, n: usize) -> usize {
    if t * n > usize::MAX { usize::MAX } else { (t * n) as usize }
}

/// Returns `t * n`, saturated to the largest `usize`.
fn time_mul(t: usize, n: usize) -> (r: usize)
    ensures
        r == spec_time_mul(t, n),
{
    match t.checked_mul(n) {
        Some(v) => v,
        None => usize::MAX,
    }
}

/// 2 to the power of `j`.
pub open spec fn spec_pow2_16(j: int) -> int {
    vstd::arithmetic::power2::pow2(j as nat) as int
}

/// The number of bits set in a word.
pub open spec fn spec_popcount(v: u16) -> nat
    decreases v,
{
    if v == 0 { 0 } else { (v % 2) as nat + spec_popcount(v / 2) }
}

/// Returns the number of bits set in a word.
fn count_ones(v: u16) -> (r: u32)
    ensures
        r == spec_popcount(v),
{
    let mut bits = v;
    let mut n: u32 = 0;
    proof {
        lemma_popcount_bound(v);
    }
    while bits != 0
        invariant
            n + spec_popcount(bits) == spec_popcount(v),
            spec_popcount(v) <= v,
        decreases bits,
    {
        n = n + bits as u32 % 2;
        bits = bits / 2;
    }
    n
}

/// A word has at most 16 bits set.
proof fn lemma_popcount_bound(v: u16)
    ensures
        spec_popcount(v) <= v,
    decreases v,
{
    if v != 0 {
        lemma_popcount_bound(v / 2);
    }
}

/// Dividing by 2 to the power of `i`, then by 2, is dividing by 2 to the power of `i + 1`.
proof fn lemma_shift_step(list: u16, i: u16)
    requires
        i < 16,
    ensures
        (list as int / spec_pow2_16(i as int)) / 2 == list as int / spec_pow2_16(i + 1),
        spec_pow2_16(i as int) > 0,
{
    vstd::arithmetic::power2::lemma_pow2_pos(i as nat);
    vstd::arithmetic::power2::lemma_pow2_unfold((i + 1) as nat);
    vstd::arithmetic::div_mod::lemma_div_denominator(list as int, spec_pow2_16(i as int), 2);
}

/// A word divided by 2 to the power of 16 is 0.
proof fn lemma_shift_all(list: u16)
    ensures
        list as int / spec_pow2_16(16) == 0,
{
    vstd::arithmetic::power2::lemma2_to64();
    assert(spec_pow2_16(16) == 0x1_0000);
}

/// Subtracting `gap` from an address wrapped after `n` subtractions of `gap` is the address after `n + 1`.
proof fn lemma_wrap_sub_step(a: int, n: int, gap: int)
    requires
        0 < gap <= 4,
    ensures
        (spec_wrap(a - n * gap, Size::Long) - gap + 0x1_0000_0000) % 0x1_0000_0000 == (a - (n + 1) * gap) % 0x1_0000_0000,
{
    let m: int = 0x1_0000_0000;
    let x = a - n * gap;
    vstd::arithmetic::div_mod::lemma_add_mod_noop(x, m - gap, m);
    vstd::arithmetic::div_mod::lemma_small_mod((m - gap) as nat, m as nat);
    vstd::arithmetic::div_mod::lemma_mod_add_multiples_vanish(x - gap, m);
    assert(a - (n + 1) * gap == a - n * gap - gap) by (nonlinear_arith);
}

/// Adding `gap` to an address wrapped after `n` additions of `gap` is the address after `n + 1`.
/// The byte stores of MOVEP from a data register: the bytes of `value`, the most significant first,
/// at every other address from `start`, for the first `k` of its `count` bytes.
pub open spec fn spec_movep_stores(value: u32, start: u32, count: u32, k: int) -> Seq<(u32, u32, Size)> {
    Seq::new(k as nat, |j: int| (spec_wrap(start + j * 2, Size::Long), ((value as int / spec_pow2_16(8 * (count - 1 - j))) % 0x100) as u32, Size::Byte))
}

proof fn lemma_wrap_add_step(a: int, n: int, gap: int)
    requires
        0 < gap <= 4,
    ensures
        (spec_wrap(a + n * gap, Size::Long) + gap) % 0x1_0000_0000 == (a + (n + 1) * gap) % 0x1_0000_0000,
{
    let m: int = 0x1_0000_0000;
    let x = a + n * gap;
    vstd::arithmetic::div_mod::lemma_add_mod_noop(x, gap, m);
    vstd::arithmetic::div_mod::lemma_small_mod(gap as nat, m as nat);
    assert(a + (n + 1) * gap == a + n * gap + gap) by (nonlinear_arith);
}

/// The operands of MOVEM: a word or long, and a memory addressing mode.
pub open spec fn spec_movem_valid(size: Size, am: AddressingMode) -> bool {
    size != Size::Byte && am.spec_wf() && spec_is_memory(am)
}

/// The register MOVEM stores for bit `i` of its register list: D0 to D7 then A0 to A7, the order
/// being reversed for the predecrement mode (bit 0 is A7 and bit 15 is D0).
pub open spec fn spec_movem_value(regs: Registers, i: int, predec: bool) -> u32 {
    if predec {
        if i < 8 { regs.spec_a((7 - i) as u8) } else { regs.d[15 - i] }
    } else {
        if i < 8 { regs.d[i] } else { regs.spec_a((i - 8) as u8) }
    }
}

/// The stores of MOVEM from registers to memory for the first `k` bits of its register list: one
/// per register in the list, from `start` upward, or from `start` downward for the predecrement
/// mode. A word store holds the low word of the register.
pub open spec fn spec_movem_stores(regs: Registers, list: u16, size: Size, start: u32, predec: bool, k: nat) -> Seq<(u32, u32, Size)>
    decreases k,
{
    if k == 0 {
        Seq::empty()
    } else {
        let prev = spec_movem_stores(regs, list, size, start, predec, (k - 1) as nat);
        let i = k - 1;
        if (list as int / spec_pow2_16(i)) % 2 == 1 {
            let n = prev.len();
            let v = spec_movem_value(regs, i, predec);
            let addr = if predec {
                spec_wrap(start - (n + 1) * spec_size_bytes(size), Size::Long)
            } else {
                spec_wrap(start + n * spec_size_bytes(size), Size::Long)
            };
            prev.push((addr, if size == Size::Word { v % 0x1_0000 } else { v }, size))
        } else {
            prev
        }
    }
}

/// The addresses MOVEM transfers from for the first `k` bits of its register list: one per
/// register in the list, from `start` upward.
pub open spec fn spec_movem_addresses(list: u16, size: Size, start: u32, k: nat) -> Seq<u32>
    decreases k,
{
    if k == 0 {
        Seq::empty()
    } else {
        let prev = spec_movem_addresses(list, size, start, (k - 1) as nat);
        if (list as int / spec_pow2_16(k - 1)) % 2 == 1 {
            prev.push(spec_wrap(start + prev.len() * spec_size_bytes(size), Size::Long))
        } else {
            prev
        }
    }
}

/// The transfers of MOVEM for more bits of its register list include those for fewer bits.
proof fn lemma_movem_addresses_grow(list: u16, size: Size, start: u32, j: nat, k: nat)
    requires
        j <= k,
    ensures
        spec_movem_addresses(list, size, start, j).len() <= spec_movem_addresses(list, size, start, k).len(),
    decreases k - j,
{
    if j < k {
        lemma_movem_addresses_grow(list, size, start, j, (k - 1) as nat);
    }
}

/// A word with no bit set has no bit set in any position.
proof fn lemma_popcount_zero(v: u16)
    ensures
        spec_popcount(v) == 0 ==> v == 0,
    decreases v,
{
    if v != 0 {
        lemma_popcount_zero(v / 2);
    }
}

/// The value MOVEM loads in a register from the value read: a word is sign-extended.
pub open spec fn spec_movem_loaded(v: u32, size: Size) -> u32 {
    if size == Size::Word { spec_sign_extend(v, Size::Word) } else { v }
}

/// The address of the first transfer of MOVEM: below the address register for the predecrement
/// mode, at the effective address otherwise. Every transfer address has its parity.
pub open spec fn spec_movem_start(regs: Registers, size: Size, am: AddressingMode) -> u32 {
    match am {
        AddressingMode::Ariwpr(ar) => regs.spec_a(ar),
        _ => spec_ea_address(regs, am, Some(size)),
    }
}

/// Moving an address by a multiple of an even step, modulo 2^32, keeps its parity.
proof fn lemma_wrap_parity(a: int, n: int, gap: int, sub: bool)
    requires
        gap == 2 || gap == 4,
        n >= 0,
    ensures
        spec_wrap(if sub { a - n * gap } else { a + n * gap }, Size::Long) % 2 == a % 2,
{
    let x = if sub { a - n * gap } else { a + n * gap };
    assert(x % 2 == a % 2) by (nonlinear_arith)
        requires x == (if sub { a - n * gap } else { a + n * gap }), gap == 2 || gap == 4;
    vstd::arithmetic::div_mod::lemma_mod_mod(x, 2, 0x8000_0000);
}

/// Returns whether the operands of MOVEM are valid.
fn movem_valid(size: Size, am: AddressingMode) -> (r: bool)
    ensures
        r == spec_movem_valid(size, am),
{
    size != Size::Byte && am.is_wf() && am.is_memory()
}

/// The execution time of MOVEM.
pub open spec fn spec_movem_time<CPU: CpuDetails>(dir: Direction, size: Size, am: AddressingMode, list: u16) -> usize {
    let base = match am {
        AddressingMode::Ari(_) => CPU::MOVEM_ARI,
        AddressingMode::Ariwpo(_) => CPU::MOVEM_ARIWPO,
        AddressingMode::Ariwpr(_) => CPU::MOVEM_ARIWPR,
        AddressingMode::Ariwd(_, _) => CPU::MOVEM_ARIWD,
        AddressingMode::Ariwi8(_, _) => CPU::MOVEM_ARIWI8,
        AddressingMode::AbsShort(_) => CPU::MOVEM_ABSSHORT,
        AddressingMode::AbsLong(_) => CPU::MOVEM_ABSLONG,
        AddressingMode::Pciwd(_, _) => CPU::MOVEM_PCIWD,
        _ => CPU::MOVEM_PCIWI8,
    };
    let base = if dir == Direction::MemoryToRegister { base.saturating_add(CPU::MOVEM_MTR) } else { base };
    base.saturating_add(spec_time_mul(spec_popcount(list) as usize, if size == Size::Long { CPU::MOVEM_LONG } else { CPU::MOVEM_WORD }))
}

/// The control addressing modes: those that designate an address without a size (JMP, JSR, LEA, PEA).
pub open spec fn spec_is_control(am: AddressingMode) -> bool {
    &&& am.spec_wf()
    &&& match am {
        AddressingMode::Ari(_) | AddressingMode::Ariwd(_, _) | AddressingMode::Ariwi8(_, _) | AddressingMode::AbsShort(_)
            | AddressingMode::AbsLong(_) | AddressingMode::Pciwd(_, _) | AddressingMode::Pciwi8(_, _) => true,
        _ => false,
    }
}

/// Returns whether the addressing mode is a control addressing mode.
fn is_control(am: AddressingMode) -> (r: bool)
    ensures
        r == spec_is_control(am),
{
    am.is_wf() && match am {
        AddressingMode::Ari(_) | AddressingMode::Ariwd(_, _) | AddressingMode::Ariwi8(_, _) | AddressingMode::AbsShort(_)
            | AddressingMode::AbsLong(_) | AddressingMode::Pciwd(_, _) | AddressingMode::Pciwi8(_, _) => true,
        _ => false,
    }
}

/// The execution time of an instruction that depends on its control addressing mode.
pub open spec fn spec_control_time(am: AddressingMode, ari: usize, ariwd: usize, ariwi8: usize, absshort: usize, abslong: usize, pciwd: usize, pciwi8: usize) -> usize {
    match am {
        AddressingMode::Ari(_) => ari,
        AddressingMode::Ariwd(_, _) => ariwd,
        AddressingMode::Ariwi8(_, _) => ariwi8,
        AddressingMode::AbsShort(_) => absshort,
        AddressingMode::AbsLong(_) => abslong,
        AddressingMode::Pciwd(_, _) => pciwd,
        _ => pciwi8,
    }
}

/// Returns the execution time of an instruction that depends on its control addressing mode.
fn control_time(am: AddressingMode, ari: usize, ariwd: usize, ariwi8: usize, absshort: usize, abslong: usize, pciwd: usize, pciwi8: usize) -> (r: usize)
    ensures
        r == spec_control_time(am, ari, ariwd, ariwi8, absshort, abslong, pciwd, pciwi8),
{
    match am {
        AddressingMode::Ari(_) => ari,
        AddressingMode::Ariwd(_, _) => ariwd,
        AddressingMode::Ariwi8(_, _) => ariwi8,
        AddressingMode::AbsShort(_) => absshort,
        AddressingMode::AbsLong(_) => abslong,
        AddressingMode::Pciwd(_, _) => pciwd,
        _ => pciwi8,
    }
}

/// The bit operations.
#[derive(Clone, Copy, Debug, PartialEq, Eq, Structural)]
pub enum BitOp {
    Btst,
    Bchg,
    Bclr,
    Bset,
}

/// `v` with bit `n` left, inverted, cleared or set.
pub open spec fn spec_bit_result(op: BitOp, v: u32, n: u32) -> u32 {
    match op {
        BitOp::Btst => v,
        BitOp::Bchg => v ^ (1u32 << n),
        BitOp::Bclr => v & !(1u32 << n),
        BitOp::Bset => v | (1u32 << n),
    }
}

/// Returns `v` with bit `n` left, inverted, cleared or set.
fn bit_result(op: BitOp, v: u32, n: u32) -> (r: u32)
    requires
        n < 32,
    ensures
        r == spec_bit_result(op, v, n),
{
    match op {
        BitOp::Btst => v,
        BitOp::Bchg => v ^ (1u32 << n),
        BitOp::Bclr => v & !(1u32 << n),
        BitOp::Bset => v | (1u32 << n),
    }
}

/// The bit number of a bit operation: the low byte of data register `count` when bit 8 of the
/// opcode is set, `count` itself otherwise.
pub open spec fn spec_bit_number(regs: Registers, opcode: u16, count: u8) -> u32 {
    if spec_bit(opcode, 8) { regs.d[count as int] % 0x100 } else { count as u32 }
}

/// The registers after ADDX or SUBX between memory operands: both address registers are
/// predecremented, the destination's after the source's, and the flags come from the values read.
pub open spec fn spec_extended_memory_effect(old: Registers, new: Registers, sub: bool, dst: u8, src: u8, size: Size) -> bool {
    exists|mid: Registers, last: Registers, s: u32, d: u32|
        #[trigger] spec_fits(s, size) && #[trigger] spec_fits(d, size)
        && #[trigger] spec_ea_post(old, mid, AddressingMode::Ariwpr(src), Some(size))
        && #[trigger] spec_ea_post(mid, last, AddressingMode::Ariwpr(dst), Some(size))
        && new == Registers {
            sr: if sub { spec_sub_sr(old.sr, d, s, size, true, false) } else { spec_add_sr(old.sr, d, s, size, true) },
            ..last
        }
}

/// What ADDX or SUBX reads and stores: nothing stored between registers or on an exception;
/// between memory operands, the source is read, then the destination, once each address register
/// is predecremented, and the result computed from both is stored at the address of the destination.
pub open spec fn spec_extended_store<CPU: CpuDetails>(old: M68000<CPU>, new: M68000<CPU>, r: InterpreterResult, sub: bool, dst: u8, src: u8, size: Size, mem: bool) -> bool {
    &&& !(mem && r is Ok) ==> new.stores == old.stores
    &&& mem && r is Ok ==> exists|mid: Registers, s: u32, d: u32|
        #[trigger] spec_fits(s, size) && #[trigger] spec_fits(d, size)
        && #[trigger] spec_ea_post(old.regs, mid, AddressingMode::Ariwpr(src), Some(size))
        && new.regs.sr == (if sub { spec_sub_sr(old.regs.sr, d, s, size, true, false) } else { spec_add_sr(old.regs.sr, d, s, size, true) })
        && new.stores@ == old.stores@.push((spec_ea_address(mid, AddressingMode::Ariwpr(dst), Some(size)),
            if sub { spec_sub_result(old.regs.sr, d, s, size, true) } else { spec_add_result(old.regs.sr, d, s, size, true) }, size))
        && new.loads@ == old.loads@.push((spec_ea_address(old.regs, AddressingMode::Ariwpr(src), Some(size)), s, size))
            .push((spec_ea_address(mid, AddressingMode::Ariwpr(dst), Some(size)), d, size))
}

/// The registers after ABCD or SBCD between memory operands: both address registers are
/// predecremented, the destination's after the source's, and the flags come from the bytes read.
pub open spec fn spec_bcd_memory_effect(old: Registers, new: Registers, sub: bool, dst: u8, src: u8) -> bool {
    exists|mid: Registers, last: Registers, s: u8, d: u8|
        #[trigger] spec_ea_post(old, mid, AddressingMode::Ariwpr(src), Some(Size::Byte))
        && #[trigger] spec_ea_post(mid, last, AddressingMode::Ariwpr(dst), Some(Size::Byte))
        && new == Registers { sr: #[trigger] spec_bcd_sr(sub, old.sr, s, d), ..last }
}

/// What ABCD or SBCD reads and stores: nothing stored between registers or on an exception;
/// between memory operands, the source byte is read, then the destination byte, once each address
/// register is predecremented, and their BCD result is stored at the address of the destination.
pub open spec fn spec_bcd_store<CPU: CpuDetails>(old: M68000<CPU>, new: M68000<CPU>, r: InterpreterResult, sub: bool, dst: u8, src: u8, mem: bool) -> bool {
    &&& !(mem && r is Ok) ==> new.stores == old.stores
    &&& mem && r is Ok ==> exists|mid: Registers, last: Registers, s: u8, d: u8|
        #[trigger] spec_ea_post(old.regs, mid, AddressingMode::Ariwpr(src), Some(Size::Byte))
        && #[trigger] spec_ea_post(mid, last, AddressingMode::Ariwpr(dst), Some(Size::Byte))
        && new.regs == Registers { sr: #[trigger] spec_bcd_sr(sub, old.regs.sr, s, d), ..last }
        && new.stores@ == old.stores@.push((last.spec_a(dst),
            (if sub { spec_sbcd_result(old.regs.sr, s, d) } else { spec_abcd_full(old.regs.sr, s, d) % 0x100 }) as u32, Size::Byte))
        && new.loads@ == old.loads@.push((mid.spec_a(src), s as u32, Size::Byte)).push((last.spec_a(dst), d as u32, Size::Byte))
}

/// The flags after ABCD or SBCD.
pub open spec fn spec_bcd_sr(sub: bool, sr: StatusRegister, s: u8, d: u8) -> StatusRegister {
    if sub { spec_sbcd_sr(sr, s, d) } else { spec_abcd_sr(sr, s, d) }
}

/// The registers after CMPM: both address registers are postincremented, the source's first, and
/// the flags are those of the comparison of the values read (X unchanged).
pub open spec fn spec_cmpm_effect(old: Registers, new: Registers, ax: u8, ay: u8, size: Size) -> bool {
    exists|mid: Registers, last: Registers, s: u32, d: u32|
        #[trigger] spec_fits(s, size) && #[trigger] spec_fits(d, size)
        && #[trigger] spec_ea_post(old, mid, AddressingMode::Ariwpo(ay), Some(size))
        && #[trigger] spec_ea_post(mid, last, AddressingMode::Ariwpo(ax), Some(size))
        && new == Registers { sr: spec_sub_sr(old.sr, d, s, size, false, true), ..last }
}

/// What CMPM reads: the source at its address register, then the destination at its own, each
/// postincremented after its read; the flags come from the two values read.
pub open spec fn spec_cmpm_loads<CPU: CpuDetails>(old: M68000<CPU>, new: M68000<CPU>, ax: u8, ay: u8, size: Size) -> bool {
    exists|mid: Registers, s: u32, d: u32|
        #[trigger] spec_fits(s, size) && #[trigger] spec_fits(d, size)
        && #[trigger] spec_ea_post(old.regs, mid, AddressingMode::Ariwpo(ay), Some(size))
        && new.regs.sr == spec_sub_sr(old.regs.sr, d, s, size, false, true)
        && new.loads@ == old.loads@.push((old.regs.spec_a(ay), s, size)).push((mid.spec_a(ax), d, size))
}

/// The registers after an operand is read: unchanged for a register or immediate data, and
/// moved by the postincrement or predecrement modes for memory; `v` is the value read.
pub open spec fn spec_operand_read(old: Registers, new: Registers, am: AddressingMode, size: Size, v: u32) -> bool {
    match spec_direct_operand(old, am, size) {
        Some(x) => new == old && v == x,
        None => spec_ea_post(old, new, am, Some(size)) && spec_fits(v, size),
    }
}

/// The registers after `v` is written to an operand: into the register, or the memory location
/// whose postincrement or predecrement mode moves its register.
pub open spec fn spec_operand_written(old: Registers, new: Registers, am: AddressingMode, size: Size, v: u32) -> bool {
    if am.spec_mode() <= 1 { spec_direct_write(old, new, am, size, v) } else { spec_ea_post(old, new, am, Some(size)) }
}

/// The registers after ADDA or SUBA: the operand is read, then added to or subtracted from the
/// address register as it is after the read.
pub open spec fn spec_address_arith_effect(old: Registers, new: Registers, sub: bool, reg: u8, size: Size, am: AddressingMode) -> bool {
    exists|read: Registers, v: u32|
        #[trigger] spec_operand_read(old, read, am, size, v)
        && spec_a_set(read, new, reg, spec_wrap(if sub {
            read.spec_a(reg) - spec_sign_extend(v, size)
        } else {
            read.spec_a(reg) + spec_sign_extend(v, size)
        }, Size::Long))
}

/// The registers after CMPA: the operand is read and compared with the address register as it
/// is after the read (X unchanged).
pub open spec fn spec_cmpa_effect(old: Registers, new: Registers, reg: u8, size: Size, am: AddressingMode) -> bool {
    exists|read: Registers, v: u32|
        #[trigger] spec_operand_read(old, read, am, size, v)
        && new == (Registers { sr: spec_sub_sr(read.sr, read.spec_a(reg), spec_sign_extend(v, size), Size::Long, false, true), ..read })
}

/// The registers after a bit operation on a byte in memory (or immediate data for BTST): the
/// byte is read, and Z tells whether bit `n` modulo 8 of it is clear.
pub open spec fn spec_bit_memory_effect(old: Registers, new: Registers, am: AddressingMode, n: u32) -> bool {
    exists|read: Registers, v: u32|
        #[trigger] spec_operand_read(old, read, am, Size::Byte, v)
        && new == (Registers { sr: StatusRegister { z: v & (1u32 << (n % 8)) == 0, ..old.sr }, ..read })
}

/// What a bit operation stores: for BCHG, BCLR and BSET on memory, the byte read with bit `n`
/// changed, at the address of the operand; nothing otherwise or on an exception.
pub open spec fn spec_bit_memory_store<CPU: CpuDetails>(old: M68000<CPU>, new: M68000<CPU>, r: InterpreterResult, op: BitOp, am: AddressingMode, n: u32) -> bool {
    &&& !(spec_is_memory(am) && op != BitOp::Btst && r is Ok) ==> new.stores == old.stores
    &&& spec_is_memory(am) && op != BitOp::Btst && r is Ok ==> exists|read: Registers, v: u32|
        #[trigger] spec_operand_read(old.regs, read, am, Size::Byte, v)
        && new.regs == (Registers { sr: StatusRegister { z: v & (1u32 << n) == 0, ..old.regs.sr }, ..read })
        && new.stores@ == old.stores@.push((spec_ea_address(old.regs, am, Some(Size::Byte)), spec_bit_result(op, v, n) % 0x100, Size::Byte))
}

/// Every address register but `rx` and `ry` (7 being the active stack pointer) keeps its value,
/// and so does the inactive stack pointer.
pub open spec fn spec_other_a_kept(old: Registers, new: Registers, rx: u8, ry: u8) -> bool {
    &&& forall|r: u8| r <= 7 && r != rx && r != ry ==> #[trigger] new.spec_a(r) == old.spec_a(r)
    &&& old.sr.s ==> new.usp == old.usp
    &&& !old.sr.s ==> new.ssp == old.ssp
}

impl<CPU: CpuDetails> M68000<CPU> {
    /// Performs `Dn op <ea>` and stores the result in `Dn` (CMP only sets the condition codes).
    fn binary_to_reg<M: MemoryAccess + ?Sized>(&mut self, memory: &mut M, op: BinaryOp, reg: u8, size: Size, am: AddressingMode, time: usize) -> (r: InterpreterResult)
        requires
            reg <= 7,
            am.spec_wf(),
            !(am is Ard && size == Size::Byte),
        ensures
            spec_binary_to_reg_effect(*old(self), *final(self), r, op, reg, size, am, time),
    {
        let mut exec_time = time;
        let mut ea = EffectiveAddress::new(am, Some(size));
        let src = self.get_operand(memory, &mut ea, size, &mut exec_time)?;
        let ghost mid = self.regs;
        let dst = low(self.regs.d[reg as usize], size);
        let (res, sr) = binary(op, self.regs.sr, dst, src, size);
        if op != BinaryOp::Cmp {
            let v = merge(self.regs.d[reg as usize], res, size);
            self.regs.d[reg as usize] = v;
        }
        self.regs.sr = sr;
        proof {
            assert(self.regs.sr == sr);
            assert(self.regs.a == mid.a);
            assert(self.regs.pc == mid.pc);
            if op != BinaryOp::Cmp {
                assert(self.regs.d@ == mid.d@.update(reg as int, spec_merge(mid.d[reg as int], res, size)));
            } else {
                assert(self.regs.d@ == mid.d@.update(reg as int, mid.d[reg as int]));
            }
            assert(spec_binary_to_reg(mid, self.regs, op, reg, size, src));
            if spec_is_memory(am) {
                assert(spec_ea_post(old(self).regs, mid, am, Some(size)));
                assert(self.loads@ == old(self).loads@.push((spec_ea_address(old(self).regs, am, Some(size)), src, size)));
            }
        }
        Ok(exec_time)
    }

    /// Performs `<ea> op src` and stores the result in `<ea>` (CMP only sets the condition codes).
    fn binary_to_ea<M: MemoryAccess + ?Sized>(&mut self, memory: &mut M, op: BinaryOp, src: u32, size: Size, am: AddressingMode, time: usize) -> (r: InterpreterResult)
        requires
            am.spec_wf(),
            am is Drd || spec_is_memory(am),
            spec_fits(src, size),
        ensures
            spec_binary_to_ea_effect(*old(self), *final(self), r, op, src, size, am, time),
    {
        let mut exec_time = time;
        let mut ea = EffectiveAddress::new(am, Some(size));
        let dst = self.get_operand(memory, &mut ea, size, &mut exec_time)?;
        let ghost mid = self.regs;
        let (res, sr) = binary(op, self.regs.sr, dst, src, size);
        self.regs.sr = sr;
        if op != BinaryOp::Cmp {
            self.set_operand(memory, &mut ea, size, &mut exec_time, res)?;
        }
        proof {
            if spec_is_memory(am) {
                assert(spec_ea_post(old(self).regs, mid, am, Some(size)));
                assert(self.regs == Registers { sr: spec_binary(op, mid.sr, dst, src, size).1, ..mid });
                if op != BinaryOp::Cmp {
                    assert(self.stores@ == old(self).stores@.push((spec_ea_address(old(self).regs, am, Some(size)), spec_binary(op, mid.sr, dst, src, size).0, size)));
                }
            } else {
                let d = am->Drd_0;
                assert(mid == old(self).regs);
                assert(self.regs.sr == sr);
                if op != BinaryOp::Cmp {
                    assert(self.regs.d@ == mid.d@.update(d as int, spec_merge(mid.d[d as int], res, size)));
                } else {
                    assert(self.regs.d@ == mid.d@.update(d as int, mid.d[d as int]));
                }
                assert(spec_binary_to_reg(old(self).regs, self.regs, op, d, size, src));
            }
        }
        Ok(exec_time)
    }

    /// ADD: `Dn add <ea>` into `Dn`, or `<ea> add Dn` into `<ea>`.
    pub fn execute_add<M: MemoryAccess + ?Sized>(&mut self, memory: &mut M, reg: u8, dir: Direction, size: Size, am: AddressingMode) -> (r: InterpreterResult)
        ensures
            spec_refusal(*old(self), *final(self), r),
            spec_same_state(*old(self), *final(self)),
            !spec_binary_operands_valid(reg, size, am, dir == Direction::DstEa) ==> r == Err::<usize, u8>(ILLEGAL_INSTRUCTION) && *final(self) == *old(self),
            spec_binary_operands_valid(reg, size, am, dir == Direction::DstEa) && dir == Direction::DstEa ==> spec_binary_to_ea_effect(
                *old(self), *final(self), r, BinaryOp::Add, spec_wrap(old(self).regs.d[reg as int] as int, size), size, am,
                if size == Size::Long { CPU::ADD_MEM_L } else { CPU::ADD_MEM_BW }),
            spec_binary_operands_valid(reg, size, am, dir == Direction::DstEa) && dir != Direction::DstEa ==> spec_binary_to_reg_effect(
                *old(self), *final(self), r, BinaryOp::Add, reg, size, am,
                if size == Size::Long { if am.spec_mode() <= 1 || am is Immediate { CPU::ADD_REG_L_RDIMM } else { CPU::ADD_REG_L } } else { CPU::ADD_REG_BW }),
    {
        if !binary_operands_valid(reg, size, am, dir == Direction::DstEa) {
            return Err(ILLEGAL_INSTRUCTION);
        }
        if dir == Direction::DstEa {
            let time = if size == Size::Long { CPU::ADD_MEM_L } else { CPU::ADD_MEM_BW };
            let src = low(self.regs.d[reg as usize], size);
            self.binary_to_ea(memory, BinaryOp::Add, src, size, am, time)
        } else {
            let time = if size == Size::Long {
                if am.is_dard() || am.is_immediate() { CPU::ADD_REG_L_RDIMM } else { CPU::ADD_REG_L }
            } else {
                CPU::ADD_REG_BW
            };
            self.binary_to_reg(memory, BinaryOp::Add, reg, size, am, time)
        }
    }

    /// SUB: `Dn sub <ea>` into `Dn`, or `<ea> sub Dn` into `<ea>`.
    pub fn execute_sub<M: MemoryAccess + ?Sized>(&mut self, memory: &mut M, reg: u8, dir: Direction, size: Size, am: AddressingMode) -> (r: InterpreterResult)
        ensures
            spec_refusal(*old(self), *final(self), r),
            spec_same_state(*old(self), *final(self)),
            !spec_binary_operands_valid(reg, size, am, dir == Direction::DstEa) ==> r == Err::<usize, u8>(ILLEGAL_INSTRUCTION) && *final(self) == *old(self),
            spec_binary_operands_valid(reg, size, am, dir == Direction::DstEa) && dir == Direction::DstEa ==> spec_binary_to_ea_effect(
                *old(self), *final(self), r, BinaryOp::Sub, spec_wrap(old(self).regs.d[reg as int] as int, size), size, am,
                if size == Size::Long { CPU::SUB_MEM_L } else { CPU::SUB_MEM_BW }),
            spec_binary_operands_valid(reg, size, am, dir == Direction::DstEa) && dir != Direction::DstEa ==> spec_binary_to_reg_effect(
                *old(self), *final(self), r, BinaryOp::Sub, reg, size, am,
                if size == Size::Long { if am.spec_mode() <= 1 || am is Immediate { CPU::SUB_REG_L_RDIMM } else { CPU::SUB_REG_L } } else { CPU::SUB_REG_BW }),
    {
        if !binary_operands_valid(reg, size, am, dir == Direction::DstEa) {
            return Err(ILLEGAL_INSTRUCTION);
        }
        if dir == Direction::DstEa {
            let time = if size == Size::Long { CPU::SUB_MEM_L } else { CPU::SUB_MEM_BW };
            let src = low(self.regs.d[reg as usize], size);
            self.binary_to_ea(memory, BinaryOp::Sub, src, size, am, time)
        } else {
            let time = if size == Size::Long {
                if am.is_dard() || am.is_immediate() { CPU::SUB_REG_L_RDIMM } else { CPU::SUB_REG_L }
            } else {
                CPU::SUB_REG_BW
            };
            self.binary_to_reg(memory, BinaryOp::Sub, reg, size, am, time)
        }
    }

    /// AND: `Dn and <ea>` into `Dn`, or `<ea> and Dn` into `<ea>`.
    pub fn execute_and<M: MemoryAccess + ?Sized>(&mut self, memory: &mut M, reg: u8, dir: Direction, size: Size, am: AddressingMode) -> (r: InterpreterResult)
        ensures
            spec_refusal(*old(self), *final(self), r),
            spec_same_state(*old(self), *final(self)),
            !spec_binary_operands_valid(reg, size, am, dir == Direction::DstEa) ==> r == Err::<usize, u8>(ILLEGAL_INSTRUCTION) && *final(self) == *old(self),
            spec_binary_operands_valid(reg, size, am, dir == Direction::DstEa) && dir == Direction::DstEa ==> spec_binary_to_ea_effect(
                *old(self), *final(self), r, BinaryOp::And, spec_wrap(old(self).regs.d[reg as int] as int, size), size, am,
                if size == Size::Long { CPU::AND_MEM_L } else { CPU::AND_MEM_BW }),
            spec_binary_operands_valid(reg, size, am, dir == Direction::DstEa) && dir != Direction::DstEa ==> spec_binary_to_reg_effect(
                *old(self), *final(self), r, BinaryOp::And, reg, size, am,
                if size == Size::Long { if am.spec_mode() <= 1 || am is Immediate { CPU::AND_REG_L_RDIMM } else { CPU::AND_REG_L } } else { CPU::AND_REG_BW }),
    {
        if !binary_operands_valid(reg, size, am, dir == Direction::DstEa) {
            return Err(ILLEGAL_INSTRUCTION);
        }
        if dir == Direction::DstEa {
            let time = if size == Size::Long { CPU::AND_MEM_L } else { CPU::AND_MEM_BW };
            let src = low(self.regs.d[reg as usize], size);
            self.binary_to_ea(memory, BinaryOp::And, src, size, am, time)
        } else {
            let time = if size == Size::Long {
                if am.is_dard() || am.is_immediate() { CPU::AND_REG_L_RDIMM } else { CPU::AND_REG_L }
            } else {
                CPU::AND_REG_BW
            };
            self.binary_to_reg(memory, BinaryOp::And, reg, size, am, time)
        }
    }

    /// OR: `Dn or <ea>` into `Dn`, or `<ea> or Dn` into `<ea>`.
    pub fn execute_or<M: MemoryAccess + ?Sized>(&mut self, memory: &mut M, reg: u8, dir: Direction, size: Size, am: AddressingMode) -> (r: InterpreterResult)
        ensures
            spec_refusal(*old(self), *final(self), r),
            spec_same_state(*old(self), *final(self)),
            !spec_binary_operands_valid(reg, size, am, dir == Direction::DstEa) ==> r == Err::<usize, u8>(ILLEGAL_INSTRUCTION) && *final(self) == *old(self),
            spec_binary_operands_valid(reg, size, am, dir == Direction::DstEa) && dir == Direction::DstEa ==> spec_binary_to_ea_effect(
                *old(self), *final(self), r, BinaryOp::Or, spec_wrap(old(self).regs.d[reg as int] as int, size), size, am,
                if size == Size::Long { CPU::OR_MEM_L } else { CPU::OR_MEM_BW }),
            spec_binary_operands_valid(reg, size, am, dir == Direction::DstEa) && dir != Direction::DstEa ==> spec_binary_to_reg_effect(
                *old(self), *final(self), r, BinaryOp::Or, reg, size, am,
                if size == Size::Long { if am.spec_mode() <= 1 || am is Immediate { CPU::OR_REG_L_RDIMM } else { CPU::OR_REG_L } } else { CPU::OR_REG_BW }),
    {
        if !binary_operands_valid(reg, size, am, dir == Direction::DstEa) {
            return Err(ILLEGAL_INSTRUCTION);
        }
        if dir == Direction::DstEa {
            let time = if size == Size::Long { CPU::OR_MEM_L } else { CPU::OR_MEM_BW };
            let src = low(self.regs.d[reg as usize], size);
            self.binary_to_ea(memory, BinaryOp::Or, src, size, am, time)
        } else {
            let time = if size == Size::Long {
                if am.is_dard() || am.is_immediate() { CPU::OR_REG_L_RDIMM } else { CPU::OR_REG_L }
            } else {
                CPU::OR_REG_BW
            };
            self.binary_to_reg(memory, BinaryOp::Or, reg, size, am, time)
        }
    }

    /// ADDI: `<ea> add #imm` into `<ea>`.
    pub fn execute_addi<M: MemoryAccess + ?Sized>(&mut self, memory: &mut M, size: Size, am: AddressingMode, imm: u32) -> (r: InterpreterResult)
        ensures
            spec_refusal(*old(self), *final(self), r),
            spec_same_state(*old(self), *final(self)),
            !spec_ea_operand_valid(am) ==> r == Err::<usize, u8>(ILLEGAL_INSTRUCTION) && *final(self) == *old(self),
            spec_ea_operand_valid(am) ==> spec_binary_to_ea_effect(
                *old(self), *final(self), r, BinaryOp::Add, spec_wrap(imm as int, size), size, am,
                if am is Drd {
                    if size == Size::Long { CPU::ADDI_REG_L } else { CPU::ADDI_REG_BW }
                } else {
                    if size == Size::Long { CPU::ADDI_MEM_L } else { CPU::ADDI_MEM_BW }
                }),
    {
        if !ea_operand_valid(am) {
            return Err(ILLEGAL_INSTRUCTION);
        }
        let time = if am.is_drd() {
            if size == Size::Long { CPU::ADDI_REG_L } else { CPU::ADDI_REG_BW }
        } else {
            if size == Size::Long { CPU::ADDI_MEM_L } else { CPU::ADDI_MEM_BW }
        };
        self.binary_to_ea(memory, BinaryOp::Add, low(imm, size), size, am, time)
    }

    /// SUBI: `<ea> sub #imm` into `<ea>`.
    pub fn execute_subi<M: MemoryAccess + ?Sized>(&mut self, memory: &mut M, size: Size, am: AddressingMode, imm: u32) -> (r: InterpreterResult)
        ensures
            spec_refusal(*old(self), *final(self), r),
            spec_same_state(*old(self), *final(self)),
            !spec_ea_operand_valid(am) ==> r == Err::<usize, u8>(ILLEGAL_INSTRUCTION) && *final(self) == *old(self),
            spec_ea_operand_valid(am) ==> spec_binary_to_ea_effect(
                *old(self), *final(self), r, BinaryOp::Sub, spec_wrap(imm as int, size), size, am,
                if am is Drd {
                    if size == Size::Long { CPU::SUBI_REG_L } else { CPU::SUBI_REG_BW }
                } else {
                    if size == Size::Long { CPU::SUBI_MEM_L } else { CPU::SUBI_MEM_BW }
                }),
    {
        if !ea_operand_valid(am) {
            return Err(ILLEGAL_INSTRUCTION);
        }
        let time = if am.is_drd() {
            if size == Size::Long { CPU::SUBI_REG_L } else { CPU::SUBI_REG_BW }
        } else {
            if size == Size::Long { CPU::SUBI_MEM_L } else { CPU::SUBI_MEM_BW }
        };
        self.binary_to_ea(memory, BinaryOp::Sub, low(imm, size), size, am, time)
    }

    /// ANDI: `<ea> and #imm` into `<ea>`.
    pub fn execute_andi<M: MemoryAccess + ?Sized>(&mut self, memory: &mut M, size: Size, am: AddressingMode, imm: u32) -> (r: InterpreterResult)
        ensures
            spec_refusal(*old(self), *final(self), r),
            spec_same_state(*old(self), *final(self)),
            !spec_ea_operand_valid(am) ==> r == Err::<usize, u8>(ILLEGAL_INSTRUCTION) && *final(self) == *old(self),
            spec_ea_operand_valid(am) ==> spec_binary_to_ea_effect(
                *old(self), *final(self), r, BinaryOp::And, spec_wrap(imm as int, size), size, am,
                if am is Drd {
                    if size == Size::Long { CPU::ANDI_REG_L } else { CPU::ANDI_REG_BW }
                } else {
                    if size == Size::Long { CPU::ANDI_MEM_L } else { CPU::ANDI_MEM_BW }
                }),
    {
        if !ea_operand_valid(am) {
            return Err(ILLEGAL_INSTRUCTION);
        }
        let time = if am.is_drd() {
            if size == Size::Long { CPU::ANDI_REG_L } else { CPU::ANDI_REG_BW }
        } else {
            if size == Size::Long { CPU::ANDI_MEM_L } else { CPU::ANDI_MEM_BW }
        };
        self.binary_to_ea(memory, BinaryOp::And, low(imm, size), size, am, time)
    }

    /// ORI: `<ea> or #imm` into `<ea>`.
    pub fn execute_ori<M: MemoryAccess + ?Sized>(&mut self, memory: &mut M, size: Size, am: AddressingMode, imm: u32) -> (r: InterpreterResult)
        ensures
            spec_refusal(*old(self), *final(self), r),
            spec_same_state(*old(self), *final(self)),
            !spec_ea_operand_valid(am) ==> r == Err::<usize, u8>(ILLEGAL_INSTRUCTION) && *final(self) == *old(self),
            spec_ea_operand_valid(am) ==> spec_binary_to_ea_effect(
                *old(self), *final(self), r, BinaryOp::Or, spec_wrap(imm as int, size), size, am,
                if am is Drd {
                    if size == Size::Long { CPU::ORI_REG_L } else { CPU::ORI_REG_BW }
                } else {
                    if size == Size::Long { CPU::ORI_MEM_L } else { CPU::ORI_MEM_BW }
                }),
    {
        if !ea_operand_valid(am) {
            return Err(ILLEGAL_INSTRUCTION);
        }
        let time = if am.is_drd() {
            if size == Size::Long { CPU::ORI_REG_L } else { CPU::ORI_REG_BW }
        } else {
            if size == Size::Long { CPU::ORI_MEM_L } else { CPU::ORI_MEM_BW }
        };
        self.binary_to_ea(memory, BinaryOp::Or, low(imm, size), size, am, time)
    }

    /// EORI: `<ea> eor #imm` into `<ea>`.
    pub fn execute_eori<M: MemoryAccess + ?Sized>(&mut self, memory: &mut M, size: Size, am: AddressingMode, imm: u32) -> (r: InterpreterResult)
        ensures
            spec_refusal(*old(self), *final(self), r),
            spec_same_state(*old(self), *final(self)),
            !spec_ea_operand_valid(am) ==> r == Err::<usize, u8>(ILLEGAL_INSTRUCTION) && *final(self) == *old(self),
            spec_ea_operand_valid(am) ==> spec_binary_to_ea_effect(
                *old(self), *final(self), r, BinaryOp::Eor, spec_wrap(imm as int, size), size, am,
                if am is Drd {
                    if size == Size::Long { CPU::EORI_REG_L } else { CPU::EORI_REG_BW }
                } else {
                    if size == Size::Long { CPU::EORI_MEM_L } else { CPU::EORI_MEM_BW }
                }),
    {
        if !ea_operand_valid(am) {
            return Err(ILLEGAL_INSTRUCTION);
        }
        let time = if am.is_drd() {
            if size == Size::Long { CPU::EORI_REG_L } else { CPU::EORI_REG_BW }
        } else {
            if size == Size::Long { CPU::EORI_MEM_L } else { CPU::EORI_MEM_BW }
        };
        self.binary_to_ea(memory, BinaryOp::Eor, low(imm, size), size, am, time)
    }

    /// CMPI: `<ea> cmp #imm` into `<ea>` (only the condition codes).
    pub fn execute_cmpi<M: MemoryAccess + ?Sized>(&mut self, memory: &mut M, size: Size, am: AddressingMode, imm: u32) -> (r: InterpreterResult)
        ensures
            spec_refusal(*old(self), *final(self), r),
            spec_same_state(*old(self), *final(self)),
            !spec_ea_operand_valid(am) ==> r == Err::<usize, u8>(ILLEGAL_INSTRUCTION) && *final(self) == *old(self),
            spec_ea_operand_valid(am) ==> spec_binary_to_ea_effect(
                *old(self), *final(self), r, BinaryOp::Cmp, spec_low(imm, size), size, am,
                if am is Drd {
                    if size == Size::Long { CPU::CMPI_REG_L } else { CPU::CMPI_REG_BW }
                } else {
                    if size == Size::Long { CPU::CMPI_MEM_L } else { CPU::CMPI_MEM_BW }
                }),
    {
        if !ea_operand_valid(am) {
            return Err(ILLEGAL_INSTRUCTION);
        }
        let time = if am.is_drd() {
            if size == Size::Long { CPU::CMPI_REG_L } else { CPU::CMPI_REG_BW }
        } else {
            if size == Size::Long { CPU::CMPI_MEM_L } else { CPU::CMPI_MEM_BW }
        };
        self.binary_to_ea(memory, BinaryOp::Cmp, low(imm, size), size, am, time)
    }

    /// EOR: `<ea> eor Dn` into `<ea>`.
    pub fn execute_eor<M: MemoryAccess + ?Sized>(&mut self, memory: &mut M, reg: u8, size: Size, am: AddressingMode) -> (r: InterpreterResult)
        ensures
            spec_refusal(*old(self), *final(self), r),
            spec_same_state(*old(self), *final(self)),
            !(reg <= 7 && spec_ea_operand_valid(am)) ==> r == Err::<usize, u8>(ILLEGAL_INSTRUCTION) && *final(self) == *old(self),
            reg <= 7 && spec_ea_operand_valid(am) ==> spec_binary_to_ea_effect(
                *old(self), *final(self), r, BinaryOp::Eor, spec_wrap(old(self).regs.d[reg as int] as int, size), size, am,
                if am is Drd {
                    if size == Size::Long { CPU::EOR_REG_L } else { CPU::EOR_REG_BW }
                } else {
                    if size == Size::Long { CPU::EOR_MEM_L } else { CPU::EOR_MEM_BW }
                }),
    {
        if !(reg <= 7 && ea_operand_valid(am)) {
            return Err(ILLEGAL_INSTRUCTION);
        }
        let time = if am.is_drd() {
            if size == Size::Long { CPU::EOR_REG_L } else { CPU::EOR_REG_BW }
        } else {
            if size == Size::Long { CPU::EOR_MEM_L } else { CPU::EOR_MEM_BW }
        };
        let src = low(self.regs.d[reg as usize], size);
        self.binary_to_ea(memory, BinaryOp::Eor, src, size, am, time)
    }

    /// CMP: the condition codes of `Dn - <ea>`.
    pub fn execute_cmp<M: MemoryAccess + ?Sized>(&mut self, memory: &mut M, reg: u8, size: Size, am: AddressingMode) -> (r: InterpreterResult)
        ensures
            spec_refusal(*old(self), *final(self), r),
            spec_same_state(*old(self), *final(self)),
            !spec_binary_operands_valid(reg, size, am, false) ==> r == Err::<usize, u8>(ILLEGAL_INSTRUCTION) && *final(self) == *old(self),
            spec_binary_operands_valid(reg, size, am, false) ==> spec_binary_to_reg_effect(
                *old(self), *final(self), r, BinaryOp::Cmp, reg, size, am,
                if size == Size::Long { CPU::CMP_L } else { CPU::CMP_BW }),
    {
        if !binary_operands_valid(reg, size, am, false) {
            return Err(ILLEGAL_INSTRUCTION);
        }
        let time = if size == Size::Long { CPU::CMP_L } else { CPU::CMP_BW };
        self.binary_to_reg(memory, BinaryOp::Cmp, reg, size, am, time)
    }


    /// ADDQ and SUBQ: adds or subtracts `imm` (1 to 8, 0 meaning 8) to the operand. To an address
    /// register, the whole register is changed and the condition codes are not.
    fn quick<M: MemoryAccess + ?Sized>(&mut self, memory: &mut M, sub: bool, imm: u8, size: Size, am: AddressingMode, reg_time: usize, mem_time: usize) -> (r: InterpreterResult)
        requires
            am.spec_wf(),
            am is Ard || am is Drd || spec_is_memory(am),
        ensures
            spec_refusal(*old(self), *final(self), r),
            am matches AddressingMode::Ard(a) ==> r == Ok::<usize, u8>(reg_time) && spec_same_state(*old(self), *final(self))
                && spec_a_set(old(self).regs, final(self).regs, a, spec_wrap(
                    if sub { old(self).regs.spec_a(a) - spec_quick(imm) } else { old(self).regs.spec_a(a) + spec_quick(imm) }, Size::Long)),
            !(am is Ard) ==> spec_binary_to_ea_effect(*old(self), *final(self), r, if sub { BinaryOp::Sub } else { BinaryOp::Add },
                spec_low(spec_quick(imm) as u32, size), size, am, if am is Drd { reg_time } else { mem_time }),
    {
        let data: u32 = if imm == 0 { 8 } else { imm as u32 };
        if let AddressingMode::Ard(a) = am {
            let v = self.regs.a(a);
            let n = if sub { wrapping_sub32(v, data) } else { wrapping_add32(v, data) };
            self.regs.set_a(a, n);
            return Ok(reg_time);
        }
        let time = if am.is_drd() { reg_time } else { mem_time };
        let op = if sub { BinaryOp::Sub } else { BinaryOp::Add };
        self.binary_to_ea(memory, op, low(data, size), size, am, time)
    }

    /// ADDQ: adds `imm` (1 to 8, 0 meaning 8) to the operand.
    pub fn execute_addq<M: MemoryAccess + ?Sized>(&mut self, memory: &mut M, imm: u8, size: Size, am: AddressingMode) -> (r: InterpreterResult)
        ensures
            spec_refusal(*old(self), *final(self), r),
            spec_same_state(*old(self), *final(self)),
            !spec_quick_operand_valid(size, am) ==> r == Err::<usize, u8>(ILLEGAL_INSTRUCTION) && *final(self) == *old(self),
            spec_quick_operand_valid(size, am) ==> (am matches AddressingMode::Ard(a) ==> r == Ok::<usize, u8>(
                    if size == Size::Long { CPU::ADDQ_REG_L } else { CPU::ADDQ_REG_BW })
                && spec_same_state(*old(self), *final(self))
                && spec_a_set(old(self).regs, final(self).regs, a, spec_wrap(old(self).regs.spec_a(a) + spec_quick(imm), Size::Long))),
            spec_quick_operand_valid(size, am) && !(am is Ard) ==> spec_binary_to_ea_effect(*old(self), *final(self), r, BinaryOp::Add,
                spec_low(spec_quick(imm) as u32, size), size, am,
                if am is Drd {
                    if size == Size::Long { CPU::ADDQ_REG_L } else { CPU::ADDQ_REG_BW }
                } else {
                    if size == Size::Long { CPU::ADDQ_MEM_L } else { CPU::ADDQ_MEM_BW }
                }),
    {
        if !quick_operand_valid(size, am) {
            return Err(ILLEGAL_INSTRUCTION);
        }
        let reg_time = if size == Size::Long { CPU::ADDQ_REG_L } else { CPU::ADDQ_REG_BW };
        let mem_time = if size == Size::Long { CPU::ADDQ_MEM_L } else { CPU::ADDQ_MEM_BW };
        self.quick(memory, false, imm, size, am, reg_time, mem_time)
    }

    /// SUBQ: subtracts `imm` (1 to 8, 0 meaning 8) from the operand.
    pub fn execute_subq<M: MemoryAccess + ?Sized>(&mut self, memory: &mut M, imm: u8, size: Size, am: AddressingMode) -> (r: InterpreterResult)
        ensures
            spec_refusal(*old(self), *final(self), r),
            spec_same_state(*old(self), *final(self)),
            !spec_quick_operand_valid(size, am) ==> r == Err::<usize, u8>(ILLEGAL_INSTRUCTION) && *final(self) == *old(self),
            spec_quick_operand_valid(size, am) ==> (am matches AddressingMode::Ard(a) ==> r == Ok::<usize, u8>(
                    if size == Size::Long { CPU::SUBQ_REG_L } else { CPU::SUBQ_AREG_BW })
                && spec_same_state(*old(self), *final(self))
                && spec_a_set(old(self).regs, final(self).regs, a, spec_wrap(old(self).regs.spec_a(a) - spec_quick(imm), Size::Long))),
            spec_quick_operand_valid(size, am) && !(am is Ard) ==> spec_binary_to_ea_effect(*old(self), *final(self), r, BinaryOp::Sub,
                spec_low(spec_quick(imm) as u32, size), size, am,
                if am is Drd {
                    if size == Size::Long { CPU::SUBQ_REG_L } else { CPU::SUBQ_DREG_BW }
                } else {
                    if size == Size::Long { CPU::SUBQ_MEM_L } else { CPU::SUBQ_MEM_BW }
                }),
    {
        if !quick_operand_valid(size, am) {
            return Err(ILLEGAL_INSTRUCTION);
        }
        let (reg_time, mem_time) = if am.is_ard() {
            (if size == Size::Long { CPU::SUBQ_REG_L } else { CPU::SUBQ_AREG_BW }, 0)
        } else {
            (if size == Size::Long { CPU::SUBQ_REG_L } else { CPU::SUBQ_DREG_BW }, if size == Size::Long { CPU::SUBQ_MEM_L } else { CPU::SUBQ_MEM_BW })
        };
        self.quick(memory, true, imm, size, am, reg_time, mem_time)
    }

    /// Reads the source operand of ADDA, SUBA and CMPA: a word is sign-extended to 32 bits.
    fn address_source<M: MemoryAccess + ?Sized>(&mut self, memory: &mut M, size: Size, am: AddressingMode, time: usize) -> (r: Result<(u32, usize), u8>)
        requires
            am.spec_wf(),
            size != Size::Byte,
        ensures
            r == Err::<(u32, usize), u8>(ACCESS_ERROR) ==> final(self).refused@ == old(self).refused@.push(final(self).refused@.last()),
            r != Err::<(u32, usize), u8>(ACCESS_ERROR) ==> final(self).refused == old(self).refused,
            spec_same_state(*old(self), *final(self)),
            r matches Err(e) ==> e == ACCESS_ERROR || e == ADDRESS_ERROR,
            spec_direct_operand(old(self).regs, am, size) matches Some(v) ==> r == Ok::<(u32, usize), u8>((spec_sign_extend(v, size),
                    if am is Immediate { time.saturating_add(spec_immediate_time::<CPU>(size)) } else { time }))
                && final(self).regs == old(self).regs,
            spec_is_memory(am) ==> spec_ea_post(old(self).regs, final(self).regs, am, Some(size)),
            r matches Ok((x, _)) ==> exists|v: u32| #[trigger] spec_operand_read(old(self).regs, final(self).regs, am, size, v)
                && x == spec_sign_extend(v, size),
    {
        let mut exec_time = time;
        let mut ea = EffectiveAddress::new(am, Some(size));
        let v = match self.get_operand(memory, &mut ea, size, &mut exec_time) {
            Ok(v) => v,
            Err(e) => { return Err(e); },
        };
        proof {
            assert(spec_operand_read(old(self).regs, self.regs, am, size, v));
        }
        Ok((sign_extend(v, size), exec_time))
    }

    /// ADDA and SUBA.
    fn address_arith<M: MemoryAccess + ?Sized>(&mut self, memory: &mut M, sub: bool, reg: u8, size: Size, am: AddressingMode, time: usize) -> (r: InterpreterResult)
        requires
            reg <= 7,
            am.spec_wf(),
            size != Size::Byte,
        ensures
            spec_refusal(*old(self), *final(self), r),
            spec_same_state(*old(self), *final(self)),
            spec_access_error(r),
            spec_direct_operand(old(self).regs, am, size) matches Some(v) ==> r == Ok::<usize, u8>(
                    if am is Immediate { time.saturating_add(spec_immediate_time::<CPU>(size)) } else { time })
                && spec_a_set(old(self).regs, final(self).regs, reg, spec_wrap(if sub {
                    old(self).regs.spec_a(reg) - spec_sign_extend(v, size)
                } else {
                    old(self).regs.spec_a(reg) + spec_sign_extend(v, size)
                }, Size::Long)),
            r is Ok ==> spec_address_arith_effect(old(self).regs, final(self).regs, sub, reg, size, am),
    {
        let ghost regs0 = self.regs;
        let (src, exec_time) = match self.address_source(memory, size, am, time) {
            Ok(v) => v,
            Err(e) => { return Err(e); },
        };
        let ghost read = self.regs;
        let a = self.regs.a(reg);
        let n = if sub { wrapping_sub32(a, src) } else { wrapping_add32(a, src) };
        self.regs.set_a(reg, n);
        proof {
            let v = choose|v: u32| #[trigger] spec_operand_read(regs0, read, am, size, v) && src == spec_sign_extend(v, size);
            assert(spec_operand_read(regs0, read, am, size, v));
        }
        Ok(exec_time)
    }

    /// ADDA: adds the (sign-extended) operand to an address register, leaving the condition codes.
    pub fn execute_adda<M: MemoryAccess + ?Sized>(&mut self, memory: &mut M, reg: u8, size: Size, am: AddressingMode) -> (r: InterpreterResult)
        ensures
            spec_refusal(*old(self), *final(self), r),
            spec_same_state(*old(self), *final(self)),
            !(reg <= 7 && am.spec_wf() && size != Size::Byte) ==> r == Err::<usize, u8>(ILLEGAL_INSTRUCTION) && *final(self) == *old(self),
            reg <= 7 && am.spec_wf() && size != Size::Byte ==> spec_same_state(*old(self), *final(self)) && spec_access_error(r),
            reg <= 7 && am.spec_wf() && size != Size::Byte ==> (spec_direct_operand(old(self).regs, am, size) matches Some(v) ==>
                spec_a_set(old(self).regs, final(self).regs, reg, spec_wrap(old(self).regs.spec_a(reg) + spec_sign_extend(v, size), Size::Long))
                && r is Ok),
            reg <= 7 && am.spec_wf() && size != Size::Byte && r is Ok ==> spec_address_arith_effect(old(self).regs, final(self).regs, false, reg, size, am),
    {
        if !(reg <= 7 && am.is_wf() && size != Size::Byte) {
            return Err(ILLEGAL_INSTRUCTION);
        }
        let time = if size == Size::Word {
            CPU::ADDA_WORD
        } else if am.is_dard() || am.is_immediate() {
            CPU::ADDA_LONG_RDIMM
        } else {
            CPU::ADDA_LONG
        };
        self.address_arith(memory, false, reg, size, am, time)
    }

    /// SUBA: subtracts the (sign-extended) operand from an address register, leaving the condition codes.
    pub fn execute_suba<M: MemoryAccess + ?Sized>(&mut self, memory: &mut M, reg: u8, size: Size, am: AddressingMode) -> (r: InterpreterResult)
        ensures
            spec_refusal(*old(self), *final(self), r),
            spec_same_state(*old(self), *final(self)),
            !(reg <= 7 && am.spec_wf() && size != Size::Byte) ==> r == Err::<usize, u8>(ILLEGAL_INSTRUCTION) && *final(self) == *old(self),
            reg <= 7 && am.spec_wf() && size != Size::Byte ==> spec_same_state(*old(self), *final(self)) && spec_access_error(r),
            reg <= 7 && am.spec_wf() && size != Size::Byte ==> (spec_direct_operand(old(self).regs, am, size) matches Some(v) ==>
                spec_a_set(old(self).regs, final(self).regs, reg, spec_wrap(old(self).regs.spec_a(reg) - spec_sign_extend(v, size), Size::Long))
                && r is Ok),
            reg <= 7 && am.spec_wf() && size != Size::Byte && r is Ok ==> spec_address_arith_effect(old(self).regs, final(self).regs, true, reg, size, am),
    {
        if !(reg <= 7 && am.is_wf() && size != Size::Byte) {
            return Err(ILLEGAL_INSTRUCTION);
        }
        let time = if size == Size::Word {
            CPU::SUBA_WORD
        } else if am.is_dard() || am.is_immediate() {
            CPU::SUBA_LONG_RDIMM
        } else {
            CPU::SUBA_LONG
        };
        self.address_arith(memory, true, reg, size, am, time)
    }

    /// CMPA: the condition codes of `An - <ea>`, the operand sign-extended to 32 bits.
    pub fn execute_cmpa<M: MemoryAccess + ?Sized>(&mut self, memory: &mut M, reg: u8, size: Size, am: AddressingMode) -> (r: InterpreterResult)
        ensures
            spec_refusal(*old(self), *final(self), r),
            spec_same_state(*old(self), *final(self)),
            !(reg <= 7 && am.spec_wf() && size != Size::Byte) ==> r == Err::<usize, u8>(ILLEGAL_INSTRUCTION) && *final(self) == *old(self),
            reg <= 7 && am.spec_wf() && size != Size::Byte ==> spec_same_state(*old(self), *final(self)) && spec_access_error(r),
            reg <= 7 && am.spec_wf() && size != Size::Byte ==> (spec_direct_operand(old(self).regs, am, size) matches Some(v) ==>
                final(self).regs == (Registers { sr: spec_sub_sr(old(self).regs.sr, old(self).regs.spec_a(reg), spec_sign_extend(v, size), Size::Long, false, true), ..old(self).regs })
                && r is Ok),
            reg <= 7 && am.spec_wf() && size != Size::Byte && r is Ok ==> spec_cmpa_effect(old(self).regs, final(self).regs, reg, size, am),
    {
        if !(reg <= 7 && am.is_wf() && size != Size::Byte) {
            return Err(ILLEGAL_INSTRUCTION);
        }
        let ghost regs0 = self.regs;
        let (src, exec_time) = match self.address_source(memory, size, am, CPU::CMPA) {
            Ok(v) => v,
            Err(e) => { return Err(e); },
        };
        let ghost read = self.regs;
        let (_, sr) = sub_values(self.regs.sr, self.regs.a(reg), src, Size::Long, false, true);
        self.regs.sr = sr;
        proof {
            let v = choose|v: u32| #[trigger] spec_operand_read(regs0, read, am, size, v) && src == spec_sign_extend(v, size);
            assert(spec_operand_read(regs0, read, am, size, v));
        }
        Ok(exec_time)
    }

    /// ADDX and SUBX: `Dy op Dx op X` into `Dy`, or `-(Ay) op -(Ax) op X` into `(Ay)`.
    fn extended<M: MemoryAccess + ?Sized>(&mut self, memory: &mut M, sub: bool, dst: u8, src: u8, size: Size, mem: bool, reg_time: usize, mem_time: usize) -> (r: InterpreterResult)
        requires
            dst <= 7,
            src <= 7,
        ensures
            spec_same_state(*old(self), *final(self)),
            spec_access_error(r),
            !mem ==> r == Ok::<usize, u8>(reg_time) && ({
                let s = spec_low(old(self).regs.d[src as int], size);
                let d = spec_low(old(self).regs.d[dst as int], size);
                let sr = old(self).regs.sr;
                spec_d_sr_set(old(self).regs, final(self).regs, dst,
                    spec_merge(old(self).regs.d[dst as int], if sub { spec_sub_result(sr, d, s, size, true) } else { spec_add_result(sr, d, s, size, true) }, size),
                    if sub { spec_sub_sr(sr, d, s, size, true, false) } else { spec_add_sr(sr, d, s, size, true) })
            }),
            mem && r is Ok ==> r == Ok::<usize, u8>(mem_time) && spec_extended_memory_effect(old(self).regs, final(self).regs, sub, dst, src, size),
            spec_extended_store(*old(self), *final(self), r, sub, dst, src, size, mem),
            spec_pair_errors(*old(self), *final(self), r, dst, src, size, mem),
    {
        if !mem {
            let s = low(self.regs.d[src as usize], size);
            let d = low(self.regs.d[dst as usize], size);
            let (res, sr) = if sub { sub_values(self.regs.sr, d, s, size, true, false) } else { add_values(self.regs.sr, d, s, size, true) };
            let v = merge(self.regs.d[dst as usize], res, size);
            self.regs.d[dst as usize] = v;
            self.regs.sr = sr;
            return Ok(reg_time);
        }
        let mut t: usize = 0;
        let ghost regs0 = self.regs;
        let mut src_ea = EffectiveAddress::new(AddressingMode::Ariwpr(src), Some(size));
        let s = self.get_operand(memory, &mut src_ea, size, &mut t)?;
        let ghost regs1 = self.regs;
        let mut dst_ea = EffectiveAddress::new(AddressingMode::Ariwpr(dst), Some(size));
        let d = self.get_operand(memory, &mut dst_ea, size, &mut t)?;
        let ghost regs2 = self.regs;
        let (res, sr) = if sub { sub_values(self.regs.sr, d, s, size, true, false) } else { add_values(self.regs.sr, d, s, size, true) };
        self.regs.sr = sr;
        let ghost regs3 = self.regs;
        self.set_operand(memory, &mut dst_ea, size, &mut t, res)?;
        proof {
            assert(self.regs == regs3);
            assert(spec_ea_post(regs0, regs1, AddressingMode::Ariwpr(src), Some(size)));
            assert(spec_ea_post(regs1, regs2, AddressingMode::Ariwpr(dst), Some(size)));
            assert(regs2.sr == regs0.sr);
            assert(self.stores@ == old(self).stores@.push((spec_ea_address(regs1, AddressingMode::Ariwpr(dst), Some(size)), res, size)));
            assert(self.loads@ == old(self).loads@.push((spec_ea_address(regs0, AddressingMode::Ariwpr(src), Some(size)), s, size))
                .push((spec_ea_address(regs1, AddressingMode::Ariwpr(dst), Some(size)), d, size)));
        }
        Ok(mem_time)
    }

    /// ADDX: adds the source, the destination and the extend bit.
    pub fn execute_addx<M: MemoryAccess + ?Sized>(&mut self, memory: &mut M, rx: u8, size: Size, mode: Direction, ry: u8) -> (r: InterpreterResult)
        ensures
            spec_refusal(*old(self), *final(self), r),
            spec_same_state(*old(self), *final(self)),
            !(rx <= 7 && ry <= 7) ==> r == Err::<usize, u8>(ILLEGAL_INSTRUCTION) && *final(self) == *old(self),
            rx <= 7 && ry <= 7 ==> spec_same_state(*old(self), *final(self)) && spec_access_error(r),
            rx <= 7 && ry <= 7 && mode != Direction::MemoryToMemory ==> r == Ok::<usize, u8>(if size == Size::Long { CPU::ADDX_REG_L } else { CPU::ADDX_REG_BW })
                && ({
                    let s = spec_low(old(self).regs.d[ry as int], size);
                    let d = spec_low(old(self).regs.d[rx as int], size);
                    spec_d_sr_set(old(self).regs, final(self).regs, rx,
                        spec_merge(old(self).regs.d[rx as int], spec_add_result(old(self).regs.sr, d, s, size, true), size),
                        spec_add_sr(old(self).regs.sr, d, s, size, true))
                }),
            rx <= 7 && ry <= 7 && mode == Direction::MemoryToMemory && r is Ok ==>
                r == Ok::<usize, u8>(if size == Size::Long { CPU::ADDX_MEM_L } else { CPU::ADDX_MEM_BW })
                && spec_extended_memory_effect(old(self).regs, final(self).regs, false, rx, ry, size),
            spec_extended_store(*old(self), *final(self), r, false, rx, ry, size, mode == Direction::MemoryToMemory),
            rx <= 7 && ry <= 7 ==> spec_pair_errors(*old(self), *final(self), r, rx, ry, size, mode == Direction::MemoryToMemory),
    {
        if !(rx <= 7 && ry <= 7) {
            return Err(ILLEGAL_INSTRUCTION);
        }
        let reg_time = if size == Size::Long { CPU::ADDX_REG_L } else { CPU::ADDX_REG_BW };
        let mem_time = if size == Size::Long { CPU::ADDX_MEM_L } else { CPU::ADDX_MEM_BW };
        self.extended(memory, false, rx, ry, size, mode == Direction::MemoryToMemory, reg_time, mem_time)
    }

    /// SUBX: subtracts the source and the extend bit from the destination.
    pub fn execute_subx<M: MemoryAccess + ?Sized>(&mut self, memory: &mut M, ry: u8, size: Size, mode: Direction, rx: u8) -> (r: InterpreterResult)
        ensures
            spec_refusal(*old(self), *final(self), r),
            spec_same_state(*old(self), *final(self)),
            !(rx <= 7 && ry <= 7) ==> r == Err::<usize, u8>(ILLEGAL_INSTRUCTION) && *final(self) == *old(self),
            rx <= 7 && ry <= 7 ==> spec_same_state(*old(self), *final(self)) && spec_access_error(r),
            rx <= 7 && ry <= 7 && mode != Direction::MemoryToMemory ==> r == Ok::<usize, u8>(if size == Size::Long { CPU::SUBX_REG_L } else { CPU::SUBX_REG_BW })
                && ({
                    let s = spec_low(old(self).regs.d[rx as int], size);
                    let d = spec_low(old(self).regs.d[ry as int], size);
                    spec_d_sr_set(old(self).regs, final(self).regs, ry,
                        spec_merge(old(self).regs.d[ry as int], spec_sub_result(old(self).regs.sr, d, s, size, true), size),
                        spec_sub_sr(old(self).regs.sr, d, s, size, true, false))
                }),
            rx <= 7 && ry <= 7 && mode == Direction::MemoryToMemory && r is Ok ==>
                r == Ok::<usize, u8>(if size == Size::Long { CPU::SUBX_MEM_L } else { CPU::SUBX_MEM_BW })
                && spec_extended_memory_effect(old(self).regs, final(self).regs, true, ry, rx, size),
            spec_extended_store(*old(self), *final(self), r, true, ry, rx, size, mode == Direction::MemoryToMemory),
            rx <= 7 && ry <= 7 ==> spec_pair_errors(*old(self), *final(self), r, ry, rx, size, mode == Direction::MemoryToMemory),
    {
        if !(rx <= 7 && ry <= 7) {
            return Err(ILLEGAL_INSTRUCTION);
        }
        let reg_time = if size == Size::Long { CPU::SUBX_REG_L } else { CPU::SUBX_REG_BW };
        let mem_time = if size == Size::Long { CPU::SUBX_MEM_L } else { CPU::SUBX_MEM_BW };
        self.extended(memory, true, ry, rx, size, mode == Direction::MemoryToMemory, reg_time, mem_time)
    }

    /// Performs a single operand operation on `<ea>` and stores the result in `<ea>` (TST only sets
    /// the condition codes, CLR does not read its operand).
    fn unary_ea<M: MemoryAccess + ?Sized>(&mut self, memory: &mut M, op: UnaryOp, size: Size, am: AddressingMode, time: usize) -> (r: InterpreterResult)
        requires
            spec_ea_operand_valid(am),
            op == UnaryOp::Nbcd || op == UnaryOp::Tas ==> size == Size::Byte,
        ensures
            spec_unary_effect(*old(self), *final(self), r, op, size, am, time),
    {
        let mut exec_time = time;
        let mut ea = EffectiveAddress::new(am, Some(size));
        let data = if op == UnaryOp::Clr {
            0
        } else {
            self.get_operand(memory, &mut ea, size, &mut exec_time)?
        };
        let ghost mut mid = self.regs;
        let (res, sr) = unary(op, self.regs.sr, data, size);
        if op == UnaryOp::Not || op == UnaryOp::Clr {
            self.set_operand(memory, &mut ea, size, &mut exec_time, res)?;
            proof {
                if spec_is_memory(am) {
                    mid = self.regs;
                }
            }
            self.regs.sr = sr;
        } else {
            self.regs.sr = sr;
            if op != UnaryOp::Tst {
                self.set_operand(memory, &mut ea, size, &mut exec_time, res)?;
            }
        }
        proof {
            if spec_is_memory(am) {
                assert(spec_ea_post(old(self).regs, mid, am, Some(size)));
                assert(self.regs == Registers { sr: spec_unary(op, mid.sr, data, size).1, ..mid });
                if op != UnaryOp::Tst {
                    assert(self.stores@ == old(self).stores@.push((spec_ea_address(old(self).regs, am, Some(size)), spec_unary(op, mid.sr, data, size).0, size)));
                }
            } else {
                let d = am->Drd_0;
                if op == UnaryOp::Tst {
                    assert(self.regs.d@ == old(self).regs.d@.update(d as int, old(self).regs.d[d as int]));
                } else {
                    assert(self.regs.d@ == old(self).regs.d@.update(d as int, spec_merge(old(self).regs.d[d as int], res, size)));
                }
            }
        }
        Ok(exec_time)
    }

    /// NEG: negates the operand (`0 - <ea>`).
    pub fn execute_neg<M: MemoryAccess + ?Sized>(&mut self, memory: &mut M, size: Size, am: AddressingMode) -> (r: InterpreterResult)
        ensures
            spec_refusal(*old(self), *final(self), r),
            spec_same_state(*old(self), *final(self)),
            !spec_ea_operand_valid(am) ==> r == Err::<usize, u8>(ILLEGAL_INSTRUCTION) && *final(self) == *old(self),
            spec_ea_operand_valid(am) ==> spec_unary_effect(*old(self), *final(self), r, UnaryOp::Neg, size, am,
                spec_single_operand_time(size == Size::Long, am is Drd, CPU::NEG_REG_BW, CPU::NEG_REG_L, CPU::NEG_MEM_BW, CPU::NEG_MEM_L)),
    {
        if !ea_operand_valid(am) {
            return Err(ILLEGAL_INSTRUCTION);
        }
        let time = single_operand_time(size == Size::Long, am.is_drd(), CPU::NEG_REG_BW, CPU::NEG_REG_L, CPU::NEG_MEM_BW, CPU::NEG_MEM_L);
        self.unary_ea(memory, UnaryOp::Neg, size, am, time)
    }

    /// NEGX: negates the operand with extend (`0 - <ea> - X`).
    pub fn execute_negx<M: MemoryAccess + ?Sized>(&mut self, memory: &mut M, size: Size, am: AddressingMode) -> (r: InterpreterResult)
        ensures
            spec_refusal(*old(self), *final(self), r),
            spec_same_state(*old(self), *final(self)),
            !spec_ea_operand_valid(am) ==> r == Err::<usize, u8>(ILLEGAL_INSTRUCTION) && *final(self) == *old(self),
            spec_ea_operand_valid(am) ==> spec_unary_effect(*old(self), *final(self), r, UnaryOp::Negx, size, am,
                spec_single_operand_time(size == Size::Long, am is Drd, CPU::NEGX_REG_BW, CPU::NEGX_REG_L, CPU::NEGX_MEM_BW, CPU::NEGX_MEM_L)),
    {
        if !ea_operand_valid(am) {
            return Err(ILLEGAL_INSTRUCTION);
        }
        let time = single_operand_time(size == Size::Long, am.is_drd(), CPU::NEGX_REG_BW, CPU::NEGX_REG_L, CPU::NEGX_MEM_BW, CPU::NEGX_MEM_L);
        self.unary_ea(memory, UnaryOp::Negx, size, am, time)
    }

    /// NOT: the one's complement of the operand.
    pub fn execute_not<M: MemoryAccess + ?Sized>(&mut self, memory: &mut M, size: Size, am: AddressingMode) -> (r: InterpreterResult)
        ensures
            spec_refusal(*old(self), *final(self), r),
            spec_same_state(*old(self), *final(self)),
            !spec_ea_operand_valid(am) ==> r == Err::<usize, u8>(ILLEGAL_INSTRUCTION) && *final(self) == *old(self),
            spec_ea_operand_valid(am) ==> spec_unary_effect(*old(self), *final(self), r, UnaryOp::Not, size, am,
                spec_single_operand_time(size == Size::Long, am is Drd, CPU::NOT_REG_BW, CPU::NOT_REG_L, CPU::NOT_MEM_BW, CPU::NOT_MEM_L)),
    {
        if !ea_operand_valid(am) {
            return Err(ILLEGAL_INSTRUCTION);
        }
        let time = single_operand_time(size == Size::Long, am.is_drd(), CPU::NOT_REG_BW, CPU::NOT_REG_L, CPU::NOT_MEM_BW, CPU::NOT_MEM_L);
        self.unary_ea(memory, UnaryOp::Not, size, am, time)
    }

    /// CLR: clears the operand.
    pub fn execute_clr<M: MemoryAccess + ?Sized>(&mut self, memory: &mut M, size: Size, am: AddressingMode) -> (r: InterpreterResult)
        ensures
            spec_refusal(*old(self), *final(self), r),
            spec_same_state(*old(self), *final(self)),
            !spec_ea_operand_valid(am) ==> r == Err::<usize, u8>(ILLEGAL_INSTRUCTION) && *final(self) == *old(self),
            spec_ea_operand_valid(am) ==> spec_unary_effect(*old(self), *final(self), r, UnaryOp::Clr, size, am,
                spec_single_operand_time(size == Size::Long, am is Drd, CPU::CLR_REG_BW, CPU::CLR_REG_L, CPU::CLR_MEM_BW, CPU::CLR_MEM_L)),
    {
        if !ea_operand_valid(am) {
            return Err(ILLEGAL_INSTRUCTION);
        }
        let time = single_operand_time(size == Size::Long, am.is_drd(), CPU::CLR_REG_BW, CPU::CLR_REG_L, CPU::CLR_MEM_BW, CPU::CLR_MEM_L);
        self.unary_ea(memory, UnaryOp::Clr, size, am, time)
    }

    /// TST: the condition codes of the operand.
    pub fn execute_tst<M: MemoryAccess + ?Sized>(&mut self, memory: &mut M, size: Size, am: AddressingMode) -> (r: InterpreterResult)
        ensures
            spec_refusal(*old(self), *final(self), r),
            spec_same_state(*old(self), *final(self)),
            !spec_ea_operand_valid(am) ==> r == Err::<usize, u8>(ILLEGAL_INSTRUCTION) && *final(self) == *old(self),
            spec_ea_operand_valid(am) ==> spec_unary_effect(*old(self), *final(self), r, UnaryOp::Tst, size, am,
                spec_single_operand_time(size == Size::Long, am is Drd, CPU::TST_REG_BW, CPU::TST_REG_L, CPU::TST_MEM_BW, CPU::TST_MEM_L)),
    {
        if !ea_operand_valid(am) {
            return Err(ILLEGAL_INSTRUCTION);
        }
        let time = single_operand_time(size == Size::Long, am.is_drd(), CPU::TST_REG_BW, CPU::TST_REG_L, CPU::TST_MEM_BW, CPU::TST_MEM_L);
        self.unary_ea(memory, UnaryOp::Tst, size, am, time)
    }

    /// NBCD: negates the BCD byte operand with extend.
    pub fn execute_nbcd<M: MemoryAccess + ?Sized>(&mut self, memory: &mut M, am: AddressingMode) -> (r: InterpreterResult)
        ensures
            spec_refusal(*old(self), *final(self), r),
            spec_same_state(*old(self), *final(self)),
            !spec_ea_operand_valid(am) ==> r == Err::<usize, u8>(ILLEGAL_INSTRUCTION) && *final(self) == *old(self),
            spec_ea_operand_valid(am) ==> spec_unary_effect(*old(self), *final(self), r, UnaryOp::Nbcd, Size::Byte, am,
                if am is Drd { CPU::NBCD_REG } else { CPU::NBCD_MEM }),
    {
        if !ea_operand_valid(am) {
            return Err(ILLEGAL_INSTRUCTION);
        }
        let time = if am.is_drd() { CPU::NBCD_REG } else { CPU::NBCD_MEM };
        self.unary_ea(memory, UnaryOp::Nbcd, Size::Byte, am, time)
    }

    /// TAS: tests the byte operand and sets its bit 7.
    pub fn execute_tas<M: MemoryAccess + ?Sized>(&mut self, memory: &mut M, am: AddressingMode) -> (r: InterpreterResult)
        ensures
            spec_refusal(*old(self), *final(self), r),
            spec_same_state(*old(self), *final(self)),
            !spec_ea_operand_valid(am) ==> r == Err::<usize, u8>(ILLEGAL_INSTRUCTION) && *final(self) == *old(self),
            spec_ea_operand_valid(am) ==> spec_unary_effect(*old(self), *final(self), r, UnaryOp::Tas, Size::Byte, am,
                if am is Drd { CPU::TAS_REG } else { CPU::TAS_MEM }),
    {
        if !ea_operand_valid(am) {
            return Err(ILLEGAL_INSTRUCTION);
        }
        let time = if am.is_drd() { CPU::TAS_REG } else { CPU::TAS_MEM };
        self.unary_ea(memory, UnaryOp::Tas, Size::Byte, am, time)
    }

    /// Scc: sets the byte operand to all ones if the condition is true, to zero otherwise.
    pub fn execute_scc<M: MemoryAccess + ?Sized>(&mut self, memory: &mut M, cc: u8, am: AddressingMode) -> (r: InterpreterResult)
        ensures
            spec_refusal(*old(self), *final(self), r),
            spec_same_state(*old(self), *final(self)),
            !(cc < 16 && spec_ea_operand_valid(am)) ==> r == Err::<usize, u8>(ILLEGAL_INSTRUCTION) && *final(self) == *old(self),
            cc < 16 && spec_ea_operand_valid(am) ==> spec_same_state(*old(self), *final(self)) && spec_access_error(r),
            cc < 16 && spec_ea_operand_valid(am) ==> (am matches AddressingMode::Drd(d) ==> r == Ok::<usize, u8>(
                    spec_single_operand_time(spec_condition(old(self).regs.sr, cc), true, CPU::SCC_REG_FALSE, CPU::SCC_REG_TRUE, CPU::SCC_MEM_FALSE, CPU::SCC_MEM_TRUE))
                && spec_d_set(old(self).regs, final(self).regs, d,
                    spec_merge(old(self).regs.d[d as int], if spec_condition(old(self).regs.sr, cc) { 0xFF } else { 0 }, Size::Byte))),
            cc < 16 && spec_ea_operand_valid(am) && r is Ok ==> spec_operand_written(old(self).regs, final(self).regs, am, Size::Byte,
                if spec_condition(old(self).regs.sr, cc) { 0xFF } else { 0 }),
            !spec_is_memory(am) || r is Err ==> final(self).stores == old(self).stores,
            cc < 16 && spec_ea_operand_valid(am) && spec_is_memory(am) && r is Ok ==> final(self).stores@ == old(self).stores@.push((
                spec_ea_address(old(self).regs, am, Some(Size::Byte)), if spec_condition(old(self).regs.sr, cc) { 0xFFu32 } else { 0u32 }, Size::Byte)),
    {
        if !(cc < 16 && ea_operand_valid(am)) {
            return Err(ILLEGAL_INSTRUCTION);
        }
        let condition = self.regs.sr.condition(cc);
        let mut exec_time = single_operand_time(condition, am.is_drd(), CPU::SCC_REG_FALSE, CPU::SCC_REG_TRUE, CPU::SCC_MEM_FALSE, CPU::SCC_MEM_TRUE);
        let mut ea = EffectiveAddress::new(am, Some(Size::Byte));
        let value: u32 = if condition { 0xFF } else { 0 };
        self.set_operand(memory, &mut ea, Size::Byte, &mut exec_time, value)?;
        Ok(exec_time)
    }

    /// MOVE: copies the source operand to the destination and sets the condition codes from it.
    pub fn execute_move<M: MemoryAccess + ?Sized>(&mut self, memory: &mut M, size: Size, amdst: AddressingMode, amsrc: AddressingMode) -> (r: InterpreterResult)
        ensures
            spec_refusal(*old(self), *final(self), r),
            spec_same_state(*old(self), *final(self)),
            !spec_move_valid(size, amdst, amsrc) ==> r == Err::<usize, u8>(ILLEGAL_INSTRUCTION) && *final(self) == *old(self),
            spec_move_valid(size, amdst, amsrc) ==> spec_same_state(*old(self), *final(self)) && spec_access_error(r),
            spec_move_valid(size, amdst, amsrc) ==> (spec_direct_operand(old(self).regs, amsrc, size) matches Some(v) ==>
                (amdst matches AddressingMode::Drd(d) ==> r == Ok::<usize, u8>(
                    if amsrc is Immediate { CPU::MOVE_OTHER.saturating_add(spec_immediate_time::<CPU>(size)) } else { CPU::MOVE_OTHER })
                && spec_d_sr_set(old(self).regs, final(self).regs, d, spec_merge(old(self).regs.d[d as int], v, size), spec_logic_sr(old(self).regs.sr, v, size)))),
            spec_move_valid(size, amdst, amsrc) && r is Ok ==> exists|read: Registers, written: Registers, v: u32|
                #[trigger] spec_operand_read(old(self).regs, read, amsrc, size, v)
                && #[trigger] spec_operand_written(read, written, amdst, size, v)
                && final(self).regs == (Registers { sr: spec_logic_sr(old(self).regs.sr, v, size), ..written })
                && (spec_is_memory(amdst) ==> final(self).stores@ == old(self).stores@.push((spec_ea_address(read, amdst, Some(size)), v, size))),
            !spec_is_memory(amdst) || r is Err ==> final(self).stores == old(self).stores,
    {
        if !move_valid(size, amdst, amsrc) {
            return Err(ILLEGAL_INSTRUCTION);
        }
        let mut exec_time = if amdst.is_ariwpr() { CPU::MOVE_DST_ARIWPR } else { CPU::MOVE_OTHER };
        let mut src = EffectiveAddress::new(amsrc, Some(size));
        let mut dst = EffectiveAddress::new(amdst, Some(size));
        let d = self.get_operand(memory, &mut src, size, &mut exec_time)?;
        let ghost mid = self.regs;
        proof {
            assert(spec_operand_read(old(self).regs, mid, amsrc, size, d));
        }
        self.set_operand(memory, &mut dst, size, &mut exec_time, d)?;
        let ghost written = self.regs;
        proof {
            assert(spec_operand_written(mid, written, amdst, size, d));
            assert(written.sr == old(self).regs.sr);
            if spec_is_memory(amdst) {
                assert(self.stores@ == old(self).stores@.push((spec_ea_address(mid, amdst, Some(size)), d, size)));
            }
        }
        self.regs.sr = logic_sr(self.regs.sr, d, size);
        proof {
            if amdst is Drd && spec_direct_operand(old(self).regs, amsrc, size) is Some {
                let dr = amdst->Drd_0;
                assert(mid == old(self).regs);
                assert(self.regs.d@ == old(self).regs.d@.update(dr as int, spec_merge(old(self).regs.d[dr as int], d, size)));
            }
        }
        Ok(exec_time)
    }

    /// MOVEA: copies the (sign-extended) source operand to an address register, leaving the condition codes.
    pub fn execute_movea<M: MemoryAccess + ?Sized>(&mut self, memory: &mut M, size: Size, reg: u8, am: AddressingMode) -> (r: InterpreterResult)
        ensures
            spec_refusal(*old(self), *final(self), r),
            spec_same_state(*old(self), *final(self)),
            !(reg <= 7 && am.spec_wf() && size != Size::Byte) ==> r == Err::<usize, u8>(ILLEGAL_INSTRUCTION) && *final(self) == *old(self),
            reg <= 7 && am.spec_wf() && size != Size::Byte ==> spec_same_state(*old(self), *final(self)) && spec_access_error(r),
            reg <= 7 && am.spec_wf() && size != Size::Byte ==> (spec_direct_operand(old(self).regs, am, size) matches Some(v) ==>
                r is Ok && spec_a_set(old(self).regs, final(self).regs, reg, spec_sign_extend(v, size))),
            reg <= 7 && am.spec_wf() && size != Size::Byte && r is Ok ==> exists|read: Registers, v: u32|
                #[trigger] spec_operand_read(old(self).regs, read, am, size, v)
                && spec_a_set(read, final(self).regs, reg, spec_sign_extend(v, size)),
    {
        if !(reg <= 7 && am.is_wf() && size != Size::Byte) {
            return Err(ILLEGAL_INSTRUCTION);
        }
        let ghost regs0 = self.regs;
        let (src, exec_time) = self.address_source(memory, size, am, CPU::MOVEA)?;
        let ghost read = self.regs;
        self.regs.set_a(reg, src);
        proof {
            let v = choose|v: u32| #[trigger] spec_operand_read(regs0, read, am, size, v) && src == spec_sign_extend(v, size);
            assert(spec_operand_read(regs0, read, am, size, v));
        }
        Ok(exec_time)
    }

    /// MOVEQ: sets a data register to the sign-extended byte `data`.
    pub fn execute_moveq(&mut self, reg: u8, data: i8) -> (r: InterpreterResult)
        ensures
            spec_refusal(*old(self), *final(self), r),
            spec_same_state(*old(self), *final(self)),
            reg > 7 ==> r == Err::<usize, u8>(ILLEGAL_INSTRUCTION) && *final(self) == *old(self),
            reg <= 7 ==> r == Ok::<usize, u8>(CPU::MOVEQ) && spec_same_state(*old(self), *final(self))
                && spec_d_sr_set(old(self).regs, final(self).regs, reg, spec_wrap(data as int, Size::Long),
                    StatusRegister { n: data < 0, z: data == 0, v: false, c: false, ..old(self).regs.sr }),
    {
        if reg > 7 {
            return Err(ILLEGAL_INSTRUCTION);
        }
        let v: u32 = if data < 0 { (data as i64 + 0x1_0000_0000) as u32 } else { data as u32 };
        proof {
            if data < 0 {
                vstd::arithmetic::div_mod::lemma_fundamental_div_mod_converse(data as int, 0x1_0000_0000, -1, v as int);
            } else {
                vstd::arithmetic::div_mod::lemma_fundamental_div_mod_converse(data as int, 0x1_0000_0000, 0, v as int);
            }
        }
        self.regs.d[reg as usize] = v;
        self.regs.sr = StatusRegister { n: data < 0, z: data == 0, v: false, c: false, ..self.regs.sr };
        Ok(CPU::MOVEQ)
    }

    /// EXT: sign-extends the low byte of a data register to a word (`mode` 2) or its low word to a long.
    /// N and Z are taken from the whole register.
    pub fn execute_ext(&mut self, mode: u8, reg: u8) -> (r: InterpreterResult)
        ensures
            spec_refusal(*old(self), *final(self), r),
            spec_same_state(*old(self), *final(self)),
            reg > 7 ==> r == Err::<usize, u8>(ILLEGAL_INSTRUCTION) && *final(self) == *old(self),
            reg <= 7 ==> r == Ok::<usize, u8>(CPU::EXT) && spec_same_state(*old(self), *final(self)) && ({
                let old_d = old(self).regs.d[reg as int];
                let value = if mode == 2 {
                    spec_merge(old_d, spec_low(spec_sign_extend(spec_low(old_d, Size::Byte), Size::Byte), Size::Word), Size::Word)
                } else {
                    spec_sign_extend(spec_low(old_d, Size::Word), Size::Word)
                };
                spec_d_sr_set(old(self).regs, final(self).regs, reg, value, spec_logic_sr(old(self).regs.sr, value, Size::Long))
            }),
    {
        if reg > 7 {
            return Err(ILLEGAL_INSTRUCTION);
        }
        let old_d = self.regs.d[reg as usize];
        let value = if mode == 2 {
            merge(old_d, low(sign_extend(low(old_d, Size::Byte), Size::Byte), Size::Word), Size::Word)
        } else {
            sign_extend(low(old_d, Size::Word), Size::Word)
        };
        self.regs.d[reg as usize] = value;
        self.regs.sr = logic_sr(self.regs.sr, value, Size::Long);
        Ok(CPU::EXT)
    }

    /// SWAP: exchanges the two words of a data register.
    pub fn execute_swap(&mut self, reg: u8) -> (r: InterpreterResult)
        ensures
            spec_refusal(*old(self), *final(self), r),
            spec_same_state(*old(self), *final(self)),
            reg > 7 ==> r == Err::<usize, u8>(ILLEGAL_INSTRUCTION) && *final(self) == *old(self),
            reg <= 7 ==> r == Ok::<usize, u8>(CPU::SWAP) && spec_same_state(*old(self), *final(self)) && ({
                let old_d = old(self).regs.d[reg as int];
                let value = ((old_d % 0x1_0000) * 0x1_0000 + old_d / 0x1_0000) as u32;
                spec_d_sr_set(old(self).regs, final(self).regs, reg, value, spec_logic_sr(old(self).regs.sr, value, Size::Long))
            }),
    {
        if reg > 7 {
            return Err(ILLEGAL_INSTRUCTION);
        }
        let old_d = self.regs.d[reg as usize];
        let value = (old_d % 0x1_0000) * 0x1_0000 + old_d / 0x1_0000;
        self.regs.d[reg as usize] = value;
        self.regs.sr = logic_sr(self.regs.sr, value, Size::Long);
        Ok(CPU::SWAP)
    }

    /// EXG: exchanges two data registers, two address registers, or a data and an address register.
    pub fn execute_exg(&mut self, rx: u8, mode: Direction, ry: u8) -> (r: InterpreterResult)
        ensures
            spec_refusal(*old(self), *final(self), r),
            spec_same_state(*old(self), *final(self)),
            !(rx <= 7 && ry <= 7) ==> r == Err::<usize, u8>(ILLEGAL_INSTRUCTION) && *final(self) == *old(self),
            rx <= 7 && ry <= 7 ==> r == Ok::<usize, u8>(CPU::EXG) && spec_same_state(*old(self), *final(self))
                && final(self).regs.sr == old(self).regs.sr && final(self).regs.pc == old(self).regs.pc,
            rx <= 7 && ry <= 7 && mode == Direction::ExchangeData ==>
                final(self).regs.d@ == old(self).regs.d@.update(rx as int, old(self).regs.d[ry as int]).update(ry as int, old(self).regs.d[rx as int])
                && final(self).regs.a == old(self).regs.a && final(self).regs.usp == old(self).regs.usp && final(self).regs.ssp == old(self).regs.ssp,
            rx <= 7 && ry <= 7 && mode == Direction::ExchangeAddress ==>
                final(self).regs.spec_a(rx) == old(self).regs.spec_a(ry) && final(self).regs.spec_a(ry) == old(self).regs.spec_a(rx)
                && final(self).regs.d == old(self).regs.d && spec_other_a_kept(old(self).regs, final(self).regs, rx, ry),
            rx <= 7 && ry <= 7 && mode != Direction::ExchangeData && mode != Direction::ExchangeAddress ==>
                final(self).regs.spec_a(ry) == old(self).regs.d[rx as int]
                && final(self).regs.d@ == old(self).regs.d@.update(rx as int, old(self).regs.spec_a(ry))
                && spec_other_a_kept(old(self).regs, final(self).regs, ry, ry),
    {
        if !(rx <= 7 && ry <= 7) {
            return Err(ILLEGAL_INSTRUCTION);
        }
        if mode == Direction::ExchangeData {
            let x = self.regs.d[rx as usize];
            let y = self.regs.d[ry as usize];
            self.regs.d[rx as usize] = y;
            self.regs.d[ry as usize] = x;
        } else if mode == Direction::ExchangeAddress {
            let x = self.regs.a(rx);
            let y = self.regs.a(ry);
            self.regs.set_a(ry, x);
            self.regs.set_a(rx, y);
        } else {
            let x = self.regs.d[rx as usize];
            let y = self.regs.a(ry);
            self.regs.set_a(ry, x);
            self.regs.d[rx as usize] = y;
        }
        Ok(CPU::EXG)
    }

    /// Shifts or rotates a data register by an immediate count (`mode` 0, `rot` being 1 to 8, 0 meaning 8)
    /// or by the count in data register `rot` modulo 64 (`mode` 1).
    fn shift_register(&mut self, kind: ShiftKind, rot: u8, dir: Direction, size: Size, mode: u8, reg: u8, time_bw: usize, time_l: usize, time_count: usize) -> (r: InterpreterResult)
        requires
            rot <= 7,
            reg <= 7,
        ensures
            spec_refusal(*old(self), *final(self), r),
            spec_shift_register_effect(old(self).regs, final(self).regs, kind, rot, dir, size, mode, reg),
            r == Ok::<usize, u8>((if size == Size::Long { time_l } else { time_bw }).saturating_add(
                spec_time_mul(time_count, spec_shift_count(old(self).regs, rot, mode) as usize))),
            spec_same_state(*old(self), *final(self)),
    {
        let count: u8 = if mode == 1 {
            (self.regs.d[rot as usize] % 64) as u8
        } else if rot == 0 {
            8
        } else {
            rot
        };
        let old_d = self.regs.d[reg as usize];
        let (res, sr) = shift(kind, dir == Direction::Left, size, self.regs.sr, low(old_d, size), count);
        let v = merge(old_d, res, size);
        self.regs.d[reg as usize] = v;
        self.regs.sr = sr;
        let base = if size == Size::Long { time_l } else { time_bw };
        Ok(base.saturating_add(time_mul(time_count, count as usize)))
    }

    /// Shifts or rotates a word in memory by one bit.
    fn shift_memory<M: MemoryAccess + ?Sized>(&mut self, memory: &mut M, kind: ShiftKind, dir: Direction, am: AddressingMode, time: usize) -> (r: InterpreterResult)
        requires
            am.spec_wf(),
            spec_is_memory(am),
        ensures
            spec_refusal(*old(self), *final(self), r),
            spec_same_state(*old(self), *final(self)),
            spec_access_error(r),
            spec_shift_memory_effect(*old(self), *final(self), r, kind, dir, am),
    {
        let mut exec_time = time;
        let mut ea = EffectiveAddress::new(am, Some(Size::Word));
        let data = self.get_operand(memory, &mut ea, Size::Word, &mut exec_time)?;
        let ghost mid = self.regs;
        let (res, sr) = shift(kind, dir == Direction::Left, Size::Word, self.regs.sr, data, 1);
        self.regs.sr = sr;
        self.set_operand(memory, &mut ea, Size::Word, &mut exec_time, res)?;
        proof {
            assert(spec_ea_post(old(self).regs, mid, am, Some(Size::Word)));
            assert(self.regs == Registers { sr: spec_shift_sr(kind, spec_is_left(dir), Size::Word, mid.sr, data, 1), ..mid });
            assert(self.stores@ == old(self).stores@.push((spec_ea_address(old(self).regs, am, Some(Size::Word)),
                spec_shift_result(kind, spec_is_left(dir), Size::Word, mid.sr, data, 1), Size::Word)));
        }
        Ok(exec_time)
    }

    /// ASL, ASR: arithmetic shift of a data register.
    pub fn execute_asr(&mut self, rot: u8, dir: Direction, size: Size, mode: u8, reg: u8) -> (r: InterpreterResult)
        ensures
            spec_refusal(*old(self), *final(self), r),
            spec_same_state(*old(self), *final(self)),
            !(rot <= 7 && reg <= 7) ==> r == Err::<usize, u8>(ILLEGAL_INSTRUCTION) && *final(self) == *old(self),
            rot <= 7 && reg <= 7 ==> spec_same_state(*old(self), *final(self))
                && spec_shift_register_effect(old(self).regs, final(self).regs, ShiftKind::Arithmetic, rot, dir, size, mode, reg)
                && r == Ok::<usize, u8>((if size == Size::Long { CPU::ASR_L } else { CPU::ASR_BW }).saturating_add(
                    spec_time_mul(CPU::ASR_COUNT, spec_shift_count(old(self).regs, rot, mode) as usize))),
    {
        if !(rot <= 7 && reg <= 7) {
            return Err(ILLEGAL_INSTRUCTION);
        }
        self.shift_register(ShiftKind::Arithmetic, rot, dir, size, mode, reg, CPU::ASR_BW, CPU::ASR_L, CPU::ASR_COUNT)
    }

    /// LSL, LSR: logical shift of a data register.
    pub fn execute_lsr(&mut self, rot: u8, dir: Direction, size: Size, mode: u8, reg: u8) -> (r: InterpreterResult)
        ensures
            spec_refusal(*old(self), *final(self), r),
            spec_same_state(*old(self), *final(self)),
            !(rot <= 7 && reg <= 7) ==> r == Err::<usize, u8>(ILLEGAL_INSTRUCTION) && *final(self) == *old(self),
            rot <= 7 && reg <= 7 ==> spec_same_state(*old(self), *final(self))
                && spec_shift_register_effect(old(self).regs, final(self).regs, ShiftKind::Logical, rot, dir, size, mode, reg)
                && r == Ok::<usize, u8>((if size == Size::Long { CPU::LSR_L } else { CPU::LSR_BW }).saturating_add(
                    spec_time_mul(CPU::LSR_COUNT, spec_shift_count(old(self).regs, rot, mode) as usize))),
    {
        if !(rot <= 7 && reg <= 7) {
            return Err(ILLEGAL_INSTRUCTION);
        }
        self.shift_register(ShiftKind::Logical, rot, dir, size, mode, reg, CPU::LSR_BW, CPU::LSR_L, CPU::LSR_COUNT)
    }

    /// ROL, ROR: rotation of a data register.
    pub fn execute_ror(&mut self, rot: u8, dir: Direction, size: Size, mode: u8, reg: u8) -> (r: InterpreterResult)
        ensures
            spec_refusal(*old(self), *final(self), r),
            spec_same_state(*old(self), *final(self)),
            !(rot <= 7 && reg <= 7) ==> r == Err::<usize, u8>(ILLEGAL_INSTRUCTION) && *final(self) == *old(self),
            rot <= 7 && reg <= 7 ==> spec_same_state(*old(self), *final(self))
                && spec_shift_register_effect(old(self).regs, final(self).regs, ShiftKind::Rotate, rot, dir, size, mode, reg)
                && r == Ok::<usize, u8>((if size == Size::Long { CPU::ROR_L } else { CPU::ROR_BW }).saturating_add(
                    spec_time_mul(CPU::ROR_COUNT, spec_shift_count(old(self).regs, rot, mode) as usize))),
    {
        if !(rot <= 7 && reg <= 7) {
            return Err(ILLEGAL_INSTRUCTION);
        }
        self.shift_register(ShiftKind::Rotate, rot, dir, size, mode, reg, CPU::ROR_BW, CPU::ROR_L, CPU::ROR_COUNT)
    }

    /// ROXL, ROXR: rotation with extend of a data register.
    pub fn execute_roxr(&mut self, rot: u8, dir: Direction, size: Size, mode: u8, reg: u8) -> (r: InterpreterResult)
        ensures
            spec_refusal(*old(self), *final(self), r),
            spec_same_state(*old(self), *final(self)),
            !(rot <= 7 && reg <= 7) ==> r == Err::<usize, u8>(ILLEGAL_INSTRUCTION) && *final(self) == *old(self),
            rot <= 7 && reg <= 7 ==> spec_same_state(*old(self), *final(self))
                && spec_shift_register_effect(old(self).regs, final(self).regs, ShiftKind::RotateExtend, rot, dir, size, mode, reg)
                && r == Ok::<usize, u8>((if size == Size::Long { CPU::ROXR_L } else { CPU::ROXR_BW }).saturating_add(
                    spec_time_mul(CPU::ROXR_COUNT, spec_shift_count(old(self).regs, rot, mode) as usize))),
    {
        if !(rot <= 7 && reg <= 7) {
            return Err(ILLEGAL_INSTRUCTION);
        }
        self.shift_register(ShiftKind::RotateExtend, rot, dir, size, mode, reg, CPU::ROXR_BW, CPU::ROXR_L, CPU::ROXR_COUNT)
    }

    /// ASL, ASR: arithmetic shift of a word in memory by one bit.
    pub fn execute_asm<M: MemoryAccess + ?Sized>(&mut self, memory: &mut M, dir: Direction, am: AddressingMode) -> (r: InterpreterResult)
        ensures
            spec_refusal(*old(self), *final(self), r),
            spec_same_state(*old(self), *final(self)),
            !(am.spec_wf() && spec_is_memory(am)) ==> r == Err::<usize, u8>(ILLEGAL_INSTRUCTION) && *final(self) == *old(self),
            am.spec_wf() && spec_is_memory(am) ==> spec_same_state(*old(self), *final(self)) && spec_access_error(r)
                && spec_shift_memory_effect(*old(self), *final(self), r, ShiftKind::Arithmetic, dir, am),
    {
        if !(am.is_wf() && am.is_memory()) {
            return Err(ILLEGAL_INSTRUCTION);
        }
        self.shift_memory(memory, ShiftKind::Arithmetic, dir, am, CPU::ASM)
    }

    /// LSL, LSR: logical shift of a word in memory by one bit.
    pub fn execute_lsm<M: MemoryAccess + ?Sized>(&mut self, memory: &mut M, dir: Direction, am: AddressingMode) -> (r: InterpreterResult)
        ensures
            spec_refusal(*old(self), *final(self), r),
            spec_same_state(*old(self), *final(self)),
            !(am.spec_wf() && spec_is_memory(am)) ==> r == Err::<usize, u8>(ILLEGAL_INSTRUCTION) && *final(self) == *old(self),
            am.spec_wf() && spec_is_memory(am) ==> spec_same_state(*old(self), *final(self)) && spec_access_error(r)
                && spec_shift_memory_effect(*old(self), *final(self), r, ShiftKind::Logical, dir, am),
    {
        if !(am.is_wf() && am.is_memory()) {
            return Err(ILLEGAL_INSTRUCTION);
        }
        self.shift_memory(memory, ShiftKind::Logical, dir, am, CPU::LSM)
    }

    /// ROL, ROR: rotation of a word in memory by one bit.
    pub fn execute_rom<M: MemoryAccess + ?Sized>(&mut self, memory: &mut M, dir: Direction, am: AddressingMode) -> (r: InterpreterResult)
        ensures
            spec_refusal(*old(self), *final(self), r),
            spec_same_state(*old(self), *final(self)),
            !(am.spec_wf() && spec_is_memory(am)) ==> r == Err::<usize, u8>(ILLEGAL_INSTRUCTION) && *final(self) == *old(self),
            am.spec_wf() && spec_is_memory(am) ==> spec_same_state(*old(self), *final(self)) && spec_access_error(r)
                && spec_shift_memory_effect(*old(self), *final(self), r, ShiftKind::Rotate, dir, am),
    {
        if !(am.is_wf() && am.is_memory()) {
            return Err(ILLEGAL_INSTRUCTION);
        }
        self.shift_memory(memory, ShiftKind::Rotate, dir, am, CPU::ROM)
    }

    /// ROXL, ROXR: rotation with extend of a word in memory by one bit.
    pub fn execute_roxm<M: MemoryAccess + ?Sized>(&mut self, memory: &mut M, dir: Direction, am: AddressingMode) -> (r: InterpreterResult)
        ensures
            spec_refusal(*old(self), *final(self), r),
            spec_same_state(*old(self), *final(self)),
            !(am.spec_wf() && spec_is_memory(am)) ==> r == Err::<usize, u8>(ILLEGAL_INSTRUCTION) && *final(self) == *old(self),
            am.spec_wf() && spec_is_memory(am) ==> spec_same_state(*old(self), *final(self)) && spec_access_error(r)
                && spec_shift_memory_effect(*old(self), *final(self), r, ShiftKind::RotateExtend, dir, am),
    {
        if !(am.is_wf() && am.is_memory()) {
            return Err(ILLEGAL_INSTRUCTION);
        }
        self.shift_memory(memory, ShiftKind::RotateExtend, dir, am, CPU::ROXM)
    }

    /// Returns Ok if the core is in supervisor mode, a Privilege Violation otherwise.
    fn check_supervisor(&self) -> (r: Result<(), u8>)
        ensures
            self.regs.sr.s ==> r is Ok,
            !self.regs.sr.s ==> r == Err::<(), u8>(PRIVILEGE_VIOLATION),
    {
        if self.regs.sr.s {
            Ok(())
        } else {
            Err(PRIVILEGE_VIOLATION)
        }
    }

    /// An opcode that decodes to no instruction: Illegal Instruction.
    pub fn execute_unknown_instruction(&self) -> (r: InterpreterResult)
        ensures
            r == Err::<usize, u8>(ILLEGAL_INSTRUCTION),
    {
        Err(ILLEGAL_INSTRUCTION)
    }

    /// ILLEGAL: Illegal Instruction.
    pub fn execute_illegal(&self) -> (r: InterpreterResult)
        ensures
            r == Err::<usize, u8>(ILLEGAL_INSTRUCTION),
    {
        Err(ILLEGAL_INSTRUCTION)
    }

    /// NOP.
    pub fn execute_nop(&self) -> (r: InterpreterResult)
        ensures
            r == Ok::<usize, u8>(CPU::NOP),
    {
        Ok(CPU::NOP)
    }

    /// TRAP: raises the TRAP exception of the given vector (0 to 15).
    pub fn execute_trap(&self, vector: u8) -> (r: InterpreterResult)
        ensures
            vector <= 15 ==> r == Err::<usize, u8>((TRAP_0 + vector) as u8),
            vector > 15 ==> r == Err::<usize, u8>(ILLEGAL_INSTRUCTION),
    {
        if vector > 15 {
            return Err(ILLEGAL_INSTRUCTION);
        }
        Err(TRAP_0 + vector)
    }

    /// TRAPV: raises the TRAPV exception if the overflow flag is set.
    pub fn execute_trapv(&self) -> (r: InterpreterResult)
        ensures
            self.regs.sr.v ==> r == Err::<usize, u8>(TRAPV_INSTRUCTION),
            !self.regs.sr.v ==> r == Ok::<usize, u8>(CPU::TRAPV_NO_TRAP),
    {
        if self.regs.sr.v {
            Err(TRAPV_INSTRUCTION)
        } else {
            Ok(CPU::TRAPV_NO_TRAP)
        }
    }

    /// RESET: asserts the reset line of the external devices (supervisor only).
    pub fn execute_reset<M: MemoryAccess + ?Sized>(&mut self, memory: &mut M) -> (r: InterpreterResult)
        ensures
            spec_refusal(*old(self), *final(self), r),
            spec_same_state(*old(self), *final(self)),
            *final(self) == *old(self),
            old(self).regs.sr.s ==> r == Ok::<usize, u8>(CPU::RESET),
            !old(self).regs.sr.s ==> r == Err::<usize, u8>(PRIVILEGE_VIOLATION),
    {
        self.check_supervisor()?;
        memory.reset_instruction();
        Ok(CPU::RESET)
    }

    /// STOP: loads the status register and stops the core until an exception occurs (supervisor only).
    pub fn execute_stop(&mut self, imm: u16) -> (r: InterpreterResult)
        ensures
            spec_refusal(*old(self), *final(self), r),
            spec_keeps_pending(*old(self), *final(self)),
            !old(self).regs.sr.s ==> r == Err::<usize, u8>(PRIVILEGE_VIOLATION) && *final(self) == *old(self),
            old(self).regs.sr.s ==> r == Ok::<usize, u8>(CPU::STOP)
                && final(self).regs == (Registers { sr: spec_from_raw(imm), ..old(self).regs })
                && final(self).stop
                && final(self).exceptions@ == old(self).exceptions@
                && final(self).current_opcode == old(self).current_opcode,
    {
        self.check_supervisor()?;
        self.regs.sr = StatusRegister::from_raw(imm);
        self.stop = true;
        Ok(CPU::STOP)
    }

    /// ANDI to CCR: ands the condition codes with the immediate, the upper byte of the status register being kept.
    pub fn execute_andiccr(&mut self, imm: u16) -> (r: InterpreterResult)
        ensures
            spec_refusal(*old(self), *final(self), r),
            spec_same_state(*old(self), *final(self)),
            r == Ok::<usize, u8>(CPU::ANDICCR),
            final(self).regs == (Registers { sr: spec_and_raw(old(self).regs.sr, SR_UPPER_MASK | imm), ..old(self).regs }),
    {
        self.regs.sr.and_raw(SR_UPPER_MASK | imm);
        Ok(CPU::ANDICCR)
    }

    /// ANDI to SR (supervisor only).
    pub fn execute_andisr(&mut self, imm: u16) -> (r: InterpreterResult)
        ensures
            spec_refusal(*old(self), *final(self), r),
            spec_same_state(*old(self), *final(self)),
            !old(self).regs.sr.s ==> r == Err::<usize, u8>(PRIVILEGE_VIOLATION) && *final(self) == *old(self),
            old(self).regs.sr.s ==> r == Ok::<usize, u8>(CPU::ANDISR) && spec_same_state(*old(self), *final(self))
                && final(self).regs == (Registers { sr: spec_and_raw(old(self).regs.sr, imm), ..old(self).regs }),
    {
        self.check_supervisor()?;
        self.regs.sr.and_raw(imm);
        Ok(CPU::ANDISR)
    }

    /// EORI to CCR.
    pub fn execute_eoriccr(&mut self, imm: u16) -> (r: InterpreterResult)
        ensures
            spec_refusal(*old(self), *final(self), r),
            spec_same_state(*old(self), *final(self)),
            r == Ok::<usize, u8>(CPU::EORICCR),
            final(self).regs == (Registers { sr: spec_xor_ccr(old(self).regs.sr, imm), ..old(self).regs }),
    {
        self.regs.sr.x = self.regs.sr.x != bit(imm, 4);
        self.regs.sr.n = self.regs.sr.n != bit(imm, 3);
        self.regs.sr.z = self.regs.sr.z != bit(imm, 2);
        self.regs.sr.v = self.regs.sr.v != bit(imm, 1);
        self.regs.sr.c = self.regs.sr.c != bit(imm, 0);
        Ok(CPU::EORICCR)
    }

    /// EORI to SR (supervisor only).
    pub fn execute_eorisr(&mut self, imm: u16) -> (r: InterpreterResult)
        ensures
            spec_refusal(*old(self), *final(self), r),
            spec_same_state(*old(self), *final(self)),
            !old(self).regs.sr.s ==> r == Err::<usize, u8>(PRIVILEGE_VIOLATION) && *final(self) == *old(self),
            old(self).regs.sr.s ==> r == Ok::<usize, u8>(CPU::EORISR) && spec_same_state(*old(self), *final(self))
                && final(self).regs == (Registers { sr: spec_xor_raw(old(self).regs.sr, imm), ..old(self).regs }),
    {
        self.check_supervisor()?;
        self.regs.sr.xor_raw(imm);
        Ok(CPU::EORISR)
    }

    /// ORI to CCR.
    pub fn execute_oriccr(&mut self, imm: u16) -> (r: InterpreterResult)
        ensures
            spec_refusal(*old(self), *final(self), r),
            spec_same_state(*old(self), *final(self)),
            r == Ok::<usize, u8>(CPU::ORICCR),
            final(self).regs == (Registers { sr: spec_or_ccr(old(self).regs.sr, imm), ..old(self).regs }),
    {
        self.regs.sr.x = self.regs.sr.x || bit(imm, 4);
        self.regs.sr.n = self.regs.sr.n || bit(imm, 3);
        self.regs.sr.z = self.regs.sr.z || bit(imm, 2);
        self.regs.sr.v = self.regs.sr.v || bit(imm, 1);
        self.regs.sr.c = self.regs.sr.c || bit(imm, 0);
        Ok(CPU::ORICCR)
    }

    /// ORI to SR (supervisor only).
    pub fn execute_orisr(&mut self, imm: u16) -> (r: InterpreterResult)
        ensures
            spec_refusal(*old(self), *final(self), r),
            spec_same_state(*old(self), *final(self)),
            !old(self).regs.sr.s ==> r == Err::<usize, u8>(PRIVILEGE_VIOLATION) && *final(self) == *old(self),
            old(self).regs.sr.s ==> r == Ok::<usize, u8>(CPU::ORISR) && spec_same_state(*old(self), *final(self))
                && final(self).regs == (Registers { sr: spec_or_raw(old(self).regs.sr, imm), ..old(self).regs }),
    {
        self.check_supervisor()?;
        self.regs.sr.or_raw(imm);
        Ok(CPU::ORISR)
    }

    /// MOVE to CCR: loads the condition codes from the low byte of the word operand.
    pub fn execute_moveccr<M: MemoryAccess + ?Sized>(&mut self, memory: &mut M, am: AddressingMode) -> (r: InterpreterResult)
        ensures
            spec_refusal(*old(self), *final(self), r),
            spec_same_state(*old(self), *final(self)),
            !am.spec_wf() ==> r == Err::<usize, u8>(ILLEGAL_INSTRUCTION) && *final(self) == *old(self),
            am.spec_wf() ==> spec_same_state(*old(self), *final(self)) && spec_access_error(r),
            am.spec_wf() ==> (spec_direct_operand(old(self).regs, am, Size::Word) matches Some(v) ==> r is Ok
                && final(self).regs == (Registers { sr: spec_set_ccr(old(self).regs.sr, v as u16), ..old(self).regs })),
            am.spec_wf() && r is Ok ==> exists|read: Registers, v: u32|
                #[trigger] spec_operand_read(old(self).regs, read, am, Size::Word, v)
                && final(self).regs == (Registers { sr: spec_set_ccr(old(self).regs.sr, v as u16), ..read }),
    {
        if !am.is_wf() {
            return Err(ILLEGAL_INSTRUCTION);
        }
        let mut exec_time = CPU::MOVECCR;
        let mut ea = EffectiveAddress::new(am, Some(Size::Word));
        let ccr = self.get_operand(memory, &mut ea, Size::Word, &mut exec_time)?;
        proof {
            assert(spec_operand_read(old(self).regs, self.regs, am, Size::Word, ccr));
        }
        self.regs.sr.set_ccr(ccr as u16);
        Ok(exec_time)
    }

    /// MOVE from SR: stores the status register in the word operand.
    pub fn execute_movefsr<M: MemoryAccess + ?Sized>(&mut self, memory: &mut M, am: AddressingMode) -> (r: InterpreterResult)
        ensures
            spec_refusal(*old(self), *final(self), r),
            spec_same_state(*old(self), *final(self)),
            !spec_ea_operand_valid(am) ==> r == Err::<usize, u8>(ILLEGAL_INSTRUCTION) && *final(self) == *old(self),
            spec_ea_operand_valid(am) ==> spec_same_state(*old(self), *final(self)) && spec_access_error(r),
            spec_ea_operand_valid(am) ==> (am matches AddressingMode::Drd(d) ==> r == Ok::<usize, u8>(CPU::MOVEFSR_REG)
                && spec_d_set(old(self).regs, final(self).regs, d, spec_merge(old(self).regs.d[d as int], spec_to_raw(old(self).regs.sr) as u32, Size::Word))),
            spec_ea_operand_valid(am) && r is Ok ==> spec_operand_written(old(self).regs, final(self).regs, am, Size::Word,
                spec_to_raw(old(self).regs.sr) as u32),
            !spec_is_memory(am) || r is Err ==> final(self).stores == old(self).stores,
            spec_ea_operand_valid(am) && spec_is_memory(am) && r is Ok ==> final(self).stores@ == old(self).stores@.push((
                spec_ea_address(old(self).regs, am, Some(Size::Word)), spec_to_raw(old(self).regs.sr) as u32, Size::Word)),
    {
        if !ea_operand_valid(am) {
            return Err(ILLEGAL_INSTRUCTION);
        }
        let mut exec_time = if am.is_drd() { CPU::MOVEFSR_REG } else { CPU::MOVEFSR_MEM };
        let mut ea = EffectiveAddress::new(am, Some(Size::Word));
        let sr = self.regs.sr.to_raw() as u32;
        self.set_operand(memory, &mut ea, Size::Word, &mut exec_time, sr)?;
        Ok(exec_time)
    }

    /// MOVE to SR: loads the status register from the word operand (supervisor only).
    pub fn execute_movesr<M: MemoryAccess + ?Sized>(&mut self, memory: &mut M, am: AddressingMode) -> (r: InterpreterResult)
        ensures
            spec_refusal(*old(self), *final(self), r),
            spec_same_state(*old(self), *final(self)),
            !am.spec_wf() ==> r == Err::<usize, u8>(ILLEGAL_INSTRUCTION) && *final(self) == *old(self),
            am.spec_wf() && !old(self).regs.sr.s ==> r == Err::<usize, u8>(PRIVILEGE_VIOLATION) && *final(self) == *old(self),
            am.spec_wf() ==> spec_same_state(*old(self), *final(self)),
            am.spec_wf() && old(self).regs.sr.s ==> spec_access_error(r) && (spec_direct_operand(old(self).regs, am, Size::Word) matches Some(v) ==> r is Ok
                && final(self).regs == (Registers { sr: spec_from_raw(v as u16), ..old(self).regs })),
            am.spec_wf() && r is Ok ==> exists|read: Registers, v: u32|
                #[trigger] spec_operand_read(old(self).regs, read, am, Size::Word, v)
                && final(self).regs == (Registers { sr: spec_from_raw(v as u16), ..read }),
    {
        if !am.is_wf() {
            return Err(ILLEGAL_INSTRUCTION);
        }
        self.check_supervisor()?;
        let mut exec_time = CPU::MOVESR;
        let mut ea = EffectiveAddress::new(am, Some(Size::Word));
        let sr = self.get_operand(memory, &mut ea, Size::Word, &mut exec_time)?;
        proof {
            assert(spec_operand_read(old(self).regs, self.regs, am, Size::Word, sr));
        }
        self.regs.sr = StatusRegister::from_raw(sr as u16);
        Ok(exec_time)
    }

    /// MOVE USP: copies the user stack pointer to or from an address register (supervisor only).
    pub fn execute_moveusp(&mut self, dir: Direction, reg: u8) -> (r: InterpreterResult)
        ensures
            spec_refusal(*old(self), *final(self), r),
            spec_same_state(*old(self), *final(self)),
            reg > 7 ==> r == Err::<usize, u8>(ILLEGAL_INSTRUCTION) && *final(self) == *old(self),
            reg <= 7 && !old(self).regs.sr.s ==> r == Err::<usize, u8>(PRIVILEGE_VIOLATION) && *final(self) == *old(self),
            reg <= 7 && old(self).regs.sr.s ==> r == Ok::<usize, u8>(CPU::MOVEUSP) && spec_same_state(*old(self), *final(self)),
            reg <= 7 && old(self).regs.sr.s && dir == Direction::UspToRegister ==> spec_a_set(old(self).regs, final(self).regs, reg, old(self).regs.usp),
            reg <= 7 && old(self).regs.sr.s && dir != Direction::UspToRegister ==> final(self).regs == (Registers { usp: old(self).regs.spec_a(reg), ..old(self).regs }),
    {
        if reg > 7 {
            return Err(ILLEGAL_INSTRUCTION);
        }
        self.check_supervisor()?;
        if dir == Direction::UspToRegister {
            let usp = self.regs.usp;
            self.regs.set_a(reg, usp);
        } else {
            self.regs.usp = self.regs.a(reg);
        }
        Ok(CPU::MOVEUSP)
    }

    /// MOVEM: moves the registers of `list` to or from memory.
    ///
    /// In the predecrement mode, registers are stored from A7 down to D0 (bit 0 of the list being
    /// A7), and the address register is set to the last address written. Otherwise registers go
    /// from D0 up to A7 (bit 0 being D0); a word loaded in a register is sign-extended, and in the
    /// postincrement mode the address register is set past the last address read.
    pub fn execute_movem<M: MemoryAccess + ?Sized>(&mut self, memory: &mut M, dir: Direction, size: Size, am: AddressingMode, list: u16) -> (r: InterpreterResult)
        ensures
            spec_refusal(*old(self), *final(self), r),
            spec_same_state(*old(self), *final(self)),
            !spec_movem_valid(size, am) ==> r == Err::<usize, u8>(ILLEGAL_INSTRUCTION) && *final(self) == *old(self),
            spec_movem_valid(size, am) ==> spec_same_state(*old(self), *final(self)) && spec_access_error(r),
            spec_movem_valid(size, am) && r is Ok ==> r == Ok::<usize, u8>(spec_movem_time::<CPU>(dir, size, am, list)),
            spec_movem_valid(size, am) && r is Ok ==> (am matches AddressingMode::Ariwpr(ar) ==> spec_a_set(old(self).regs, final(self).regs, ar,
                spec_wrap(old(self).regs.spec_a(ar) - spec_popcount(list) * spec_size_bytes(size), Size::Long))),
            spec_movem_valid(size, am) && r is Ok && dir == Direction::MemoryToRegister ==> (am matches AddressingMode::Ariwpo(ar) ==>
                final(self).regs.spec_a(ar) == spec_wrap(old(self).regs.spec_a(ar) + spec_popcount(list) * spec_size_bytes(size), Size::Long)),
            spec_movem_valid(size, am) && r is Ok ==> (am matches AddressingMode::Ariwpr(ar) ==> final(self).stores@
                == old(self).stores@ + spec_movem_stores(old(self).regs, list, size, old(self).regs.spec_a(ar), true, 16)),
            spec_movem_valid(size, am) && r is Ok && !(am is Ariwpr) && dir != Direction::MemoryToRegister ==> final(self).stores@
                == old(self).stores@ + spec_movem_stores(old(self).regs, list, size, spec_ea_address(old(self).regs, am, Some(size)), false, 16),
            !(am is Ariwpr) && dir == Direction::MemoryToRegister ==> final(self).stores == old(self).stores,
            r == Err::<usize, u8>(ACCESS_ERROR) ==> final(self).refused@ == old(self).refused@.push((final(self).refused@.last().0, size))
                && final(self).refused@.last().0 % 2 == 0,
            spec_movem_valid(size, am) && r == Err::<usize, u8>(ACCESS_ERROR) ==> final(self).refused@.last().0 == (if am is Ariwpr {
                    spec_wrap(spec_movem_start(old(self).regs, size, am)
                        - (final(self).stores@.len() - old(self).stores@.len() + 1) * spec_size_bytes(size), Size::Long)
                } else {
                    spec_wrap(spec_movem_start(old(self).regs, size, am) + (final(self).stores@.len() - old(self).stores@.len()
                        + final(self).loads@.len() - old(self).loads@.len()) * spec_size_bytes(size), Size::Long)
                }),
            r != Err::<usize, u8>(ACCESS_ERROR) ==> final(self).refused == old(self).refused,
            spec_movem_valid(size, am) && list == 0 ==> r == Ok::<usize, u8>(spec_movem_time::<CPU>(dir, size, am, list)),
            spec_movem_valid(size, am) ==> (r == Err::<usize, u8>(ADDRESS_ERROR)
                <==> list != 0 && spec_movem_start(old(self).regs, size, am) % 2 == 1),
            spec_movem_valid(size, am) && !(am is Ariwpr) && dir == Direction::MemoryToRegister && r is Ok ==> ({
                let start = spec_ea_address(old(self).regs, am, Some(size));
                let addrs = spec_movem_addresses(list, size, start, 16);
                let base = old(self).loads@.len();
                &&& final(self).loads@.len() == base + addrs.len()
                &&& final(self).loads@.subrange(0, base as int) == old(self).loads@
                &&& forall|j: int| 0 <= j < 8 && (list as int / spec_pow2_16(j)) % 2 == 1 ==> #[trigger] final(self).regs.d[j]
                    == spec_movem_loaded(final(self).loads@[(base + spec_movem_addresses(list, size, start, j as nat).len()) as int].1, size)
                &&& forall|j: u8| j < 8 && (list as int / spec_pow2_16(j + 8)) % 2 == 1 && am != AddressingMode::Ariwpo(j)
                    ==> #[trigger] final(self).regs.spec_a(j)
                    == spec_movem_loaded(final(self).loads@[(base + spec_movem_addresses(list, size, start, (j + 8) as nat).len()) as int].1, size)
            }),
            spec_movem_valid(size, am) && r is Ok && !(am is Ariwpr) && !(am is Ariwpo) && dir != Direction::MemoryToRegister ==>
                final(self).regs == old(self).regs,
            spec_movem_valid(size, am) && !(am is Ariwpr) && dir == Direction::MemoryToRegister ==>
                final(self).regs.sr == old(self).regs.sr && final(self).regs.pc == old(self).regs.pc
                && forall|j: int| 0 <= j < 8 && (list as int / #[trigger] spec_pow2_16(j)) % 2 == 0 ==> final(self).regs.d[j] == old(self).regs.d[j],
            spec_movem_valid(size, am) && !(am is Ariwpr) && dir == Direction::MemoryToRegister ==>
                (old(self).regs.sr.s ==> final(self).regs.usp == old(self).regs.usp)
                && (!old(self).regs.sr.s ==> final(self).regs.ssp == old(self).regs.ssp)
                && forall|j: u8| j < 8 && (list as int / spec_pow2_16(j as int + 8)) % 2 == 0 && !(am matches AddressingMode::Ariwpo(ar) && ar == j)
                    ==> #[trigger] final(self).regs.spec_a(j) == old(self).regs.spec_a(j),
    {
        if !movem_valid(size, am) {
            return Err(ILLEGAL_INSTRUCTION);
        }
        let gap = size.bytes();
        let mut exec_time: usize = 0;
        let mut ea = EffectiveAddress::new(am, Some(size));
        let ghost old_regs = self.regs;
        proof {
            vstd::arithmetic::power2::lemma2_to64();
            assert(spec_pow2_16(0) == 1);
        }
        if let AddressingMode::Ariwpr(ar) = am {
            let mut addr = self.regs.a(ar);
            proof {
                vstd::arithmetic::div_mod::lemma_small_mod(addr as nat, 0x1_0000_0000);
                assert(spec_wrap(old_regs.spec_a(ar) - 0 * gap, Size::Long) == addr);
            }
            let mut bits = list;
            let mut i: u16 = 0;
            let ghost mut n: nat = 0;
            while i < 16
                invariant
                    self.refused == old(self).refused,
                    i <= 16,
                    bits as int == list as int / spec_pow2_16(i as int),
                    n + spec_popcount(bits) == spec_popcount(list),
                    addr == spec_wrap(old_regs.spec_a(ar) - n * gap, Size::Long),
                    gap == spec_size_bytes(size),
                    spec_movem_valid(size, am),
                    size != Size::Byte,
                    ar <= 7,
                    self.regs == old_regs,
                    spec_same_state(*old(self), *self),
                    old_regs == old(self).regs,
                    am == AddressingMode::Ariwpr(ar),
                    spec_movem_stores(old_regs, list, size, old_regs.spec_a(ar), true, i as nat).len() == n,
                    self.stores@ == old(self).stores@ + spec_movem_stores(old_regs, list, size, old_regs.spec_a(ar), true, i as nat),
                    old_regs.spec_a(ar) % 2 == 1 ==> n == 0,
                    list == 0 ==> bits == 0,
                decreases 16 - i,
            {
                proof {
                    lemma_shift_step(list, i);
                }
                if bits % 2 == 1 {
                    proof {
                        lemma_wrap_sub_step(old_regs.spec_a(ar) as int, n as int, gap as int);
                    }
                    addr = wrapping_sub(addr, gap);
                    proof {
                        n = n + 1;
                        lemma_wrap_parity(old_regs.spec_a(ar) as int, n as int, gap as int, true);
                    }
                    let value = if i < 8 { self.regs.a((7 - i) as u8) } else { self.regs.d[(15 - i) as usize] };
                    if addr % 2 == 1 {
                        return Err(ADDRESS_ERROR);
                    }
                    let written = if size == Size::Word { memory.set_word(addr, (value % 0x1_0000) as u16) } else { memory.set_long(addr, value) };
                    if written.is_none() {
                        self.refused = Ghost(self.refused@.push((addr, size)));
                        return Err(ACCESS_ERROR);
                    }
                    self.stores = Ghost(self.stores@.push((addr, if size == Size::Word { value % 0x1_0000 } else { value }, size)));
                }
                proof {
                    let next = spec_movem_stores(old_regs, list, size, old_regs.spec_a(ar), true, (i + 1) as nat);
                    assert(self.stores@ =~= old(self).stores@ + next);
                }
                bits = bits / 2;
                i = i + 1;
            }
            proof {
                lemma_shift_all(list);
                lemma_popcount_zero(list);
            }
            self.regs.set_a(ar, addr);
        } else {
            let mut addr = if let AddressingMode::Ariwpo(ar) = am {
                self.regs.a(ar)
            } else {
                self.get_effective_address(&mut ea, &mut exec_time)
            };
            let ghost mid = self.regs;
            let ghost start = addr;
            let ghost mut n: nat = 0;
            let mut bits = list;
            let mut i: u16 = 0;
            proof {
                assert(self.loads@.subrange(0, old(self).loads@.len() as int) =~= old(self).loads@);
            }
            while i < 16
                invariant
                    self.refused == old(self).refused,
                    i <= 16,
                    bits as int == list as int / spec_pow2_16(i as int),
                    n + spec_popcount(bits) == spec_popcount(list),
                    addr == spec_wrap(start + n * gap, Size::Long),
                    am matches AddressingMode::Ariwpo(ar) ==> start == old_regs.spec_a(ar),
                    !(am is Ariwpr),
                    gap == spec_size_bytes(size),
                    spec_movem_valid(size, am),
                    old_regs == old(self).regs,
                    size != Size::Byte,
                    spec_same_state(*old(self), *self),
                    self.regs.sr == old_regs.sr,
                    self.regs.pc == old_regs.pc,
                    mid.sr == old_regs.sr,
                    mid.pc == old_regs.pc,
                    mid.d == old_regs.d,
                    !(am is Ariwpo) && dir != Direction::MemoryToRegister ==> self.regs == mid,
                    !(am is Ariwpo) && dir != Direction::MemoryToRegister ==> mid == old_regs,
                    forall|j: int| 0 <= j < 8 && !(j < i && (list as int / spec_pow2_16(j)) % 2 == 1) ==> #[trigger] self.regs.d[j] == old_regs.d[j],
                    dir == Direction::MemoryToRegister ==> mid == old_regs,
                    dir == Direction::MemoryToRegister && old_regs.sr.s ==> self.regs.usp == old_regs.usp,
                    dir == Direction::MemoryToRegister && !old_regs.sr.s ==> self.regs.ssp == old_regs.ssp,
                    dir == Direction::MemoryToRegister ==> forall|j: u8| j < 8 && !((j as int) + 8 < i && (list as int / spec_pow2_16(j as int + 8)) % 2 == 1)
                        ==> #[trigger] self.regs.spec_a(j) == old_regs.spec_a(j),
                    dir != Direction::MemoryToRegister ==> self.regs == old_regs,
                    !(am is Ariwpo) ==> start == spec_ea_address(old_regs, am, Some(size)),
                    dir == Direction::MemoryToRegister ==> self.stores == old(self).stores,
                    dir != Direction::MemoryToRegister ==> spec_movem_stores(old_regs, list, size, start, false, i as nat).len() == n,
                    dir != Direction::MemoryToRegister ==> self.stores@ == old(self).stores@ + spec_movem_stores(old_regs, list, size, start, false, i as nat),
                    start % 2 == 1 ==> n == 0,
                    list == 0 ==> bits == 0,
                    spec_movem_addresses(list, size, start, i as nat).len() == n,
                    dir != Direction::MemoryToRegister ==> self.loads == old(self).loads,
                    dir == Direction::MemoryToRegister ==> self.loads@.len() == old(self).loads@.len() + n,
                    dir == Direction::MemoryToRegister ==> self.loads@.subrange(0, old(self).loads@.len() as int) == old(self).loads@,
                    dir == Direction::MemoryToRegister ==> forall|j: int| 0 <= j < 8 && j < i && (list as int / spec_pow2_16(j)) % 2 == 1 ==> #[trigger] self.regs.d[j]
                        == spec_movem_loaded(self.loads@[(old(self).loads@.len() + spec_movem_addresses(list, size, start, j as nat).len()) as int].1, size),
                    dir == Direction::MemoryToRegister ==> forall|j: u8| j < 8 && (j as int) + 8 < i && (list as int / spec_pow2_16(j + 8)) % 2 == 1
                        ==> #[trigger] self.regs.spec_a(j)
                        == spec_movem_loaded(self.loads@[(old(self).loads@.len() + spec_movem_addresses(list, size, start, (j + 8) as nat).len()) as int].1, size),
                decreases 16 - i,
            {
                proof {
                    lemma_shift_step(list, i);
                }
                let ghost prev = self.regs;
                let ghost prev_loads = self.loads@;
                let ghost prev_n = n;
                let ghost prev_i = i;
                if bits % 2 == 1 {
                    proof {
                        lemma_wrap_parity(start as int, n as int, gap as int, false);
                    }
                    if addr % 2 == 1 {
                        return Err(ADDRESS_ERROR);
                    }
                    if dir == Direction::MemoryToRegister {
                        let read = if size == Size::Word {
                            match memory.get_word(addr) {
                                Some(w) => Some(w as u32),
                                None => None,
                            }
                        } else {
                            memory.get_long(addr)
                        };
                        let raw = match read {
                            Some(v) => v,
                            None => {
                                self.refused = Ghost(self.refused@.push((addr, size)));
                                proof {
                                    assert(start == spec_movem_start(old_regs, size, am));
                                    assert(self.loads@.len() - old(self).loads@.len() == n);
                                }
                                return Err(ACCESS_ERROR);
                            },
                        };
                        self.loads = Ghost(self.loads@.push((addr, raw, size)));
                        proof {
                            assert(self.loads@[(old(self).loads@.len() + prev_n) as int] == (addr, raw, size));
                        }
                        let value = if size == Size::Word { sign_extend(raw, Size::Word) } else { raw };
                        if i < 8 {
                            self.regs.d[i as usize] = value;
                        } else {
                            self.regs.set_a((i - 8) as u8, value);
                        }
                    } else {
                        let value = if i < 8 { self.regs.d[i as usize] } else { self.regs.a((i - 8) as u8) };
                        let written = if size == Size::Word { memory.set_word(addr, (value % 0x1_0000) as u16) } else { memory.set_long(addr, value) };
                        if written.is_none() {
                            self.refused = Ghost(self.refused@.push((addr, size)));
                            proof {
                                assert(start == spec_movem_start(old_regs, size, am));
                                assert(self.stores@.len() - old(self).stores@.len() == n);
                            }
                            return Err(ACCESS_ERROR);
                        }
                        self.stores = Ghost(self.stores@.push((addr, if size == Size::Word { value % 0x1_0000 } else { value }, size)));
                    }
                    proof {
                        lemma_wrap_add_step(start as int, n as int, gap as int);
                    }
                    addr = wrapping_add(addr, gap);
                    proof {
                        n = n + 1;
                    }
                }
                proof {
                    if dir != Direction::MemoryToRegister {
                        let next = spec_movem_stores(old_regs, list, size, start, false, (i + 1) as nat);
                        assert(self.stores@ =~= old(self).stores@ + next);
                    }
                    if dir == Direction::MemoryToRegister {
                        assert forall|j: u8| j < 8 && !((j as int) + 8 < i + 1 && (list as int / spec_pow2_16(j as int + 8)) % 2 == 1)
                            implies #[trigger] self.regs.spec_a(j) == old_regs.spec_a(j) by {
                            assert(prev.spec_a(j) == old_regs.spec_a(j));
                            if (j as int) + 8 == i {
                                assert(bits as int == list as int / spec_pow2_16(j as int + 8));
                            }
                        }
                    }
                }
                bits = bits / 2;
                i = i + 1;
                proof {
                    if dir == Direction::MemoryToRegister {
                        let base = old(self).loads@.len() as int;
                        assert(self.loads@.subrange(0, base) =~= old(self).loads@);
                        assert forall|j: int| 0 <= j < 8 && j < i && (list as int / spec_pow2_16(j)) % 2 == 1 implies #[trigger] self.regs.d[j]
                            == spec_movem_loaded(self.loads@[(base + spec_movem_addresses(list, size, start, j as nat).len()) as int].1, size) by {
                            if j < prev_i {
                                lemma_movem_addresses_grow(list, size, start, (j + 1) as nat, prev_i as nat);
                                assert(self.regs.d[j] == prev.d[j]);
                                assert(self.loads@[(base + spec_movem_addresses(list, size, start, j as nat).len()) as int]
                                    == prev_loads[(base + spec_movem_addresses(list, size, start, j as nat).len()) as int]);
                            }
                        }
                        assert forall|j: u8| j < 8 && (j as int) + 8 < i && (list as int / spec_pow2_16(j + 8)) % 2 == 1 implies #[trigger] self.regs.spec_a(j)
                            == spec_movem_loaded(self.loads@[(base + spec_movem_addresses(list, size, start, (j + 8) as nat).len()) as int].1, size) by {
                            if (j as int) + 8 < prev_i {
                                lemma_movem_addresses_grow(list, size, start, (j + 9) as nat, prev_i as nat);
                                assert(self.regs.spec_a(j) == prev.spec_a(j));
                                assert(self.loads@[(base + spec_movem_addresses(list, size, start, (j + 8) as nat).len()) as int]
                                    == prev_loads[(base + spec_movem_addresses(list, size, start, (j + 8) as nat).len()) as int]);
                            }
                        }
                    }
                }
            }
            proof {
                lemma_shift_all(list);
                assert(bits == 0);
                assert(spec_popcount(0) == 0);
                assert(n == spec_popcount(list));
                lemma_popcount_zero(list);
            }
            if let AddressingMode::Ariwpo(ar) = am {
                self.regs.set_a(ar, addr);
            }
        }
        let base = match am {
            AddressingMode::Ari(_) => CPU::MOVEM_ARI,
            AddressingMode::Ariwpo(_) => CPU::MOVEM_ARIWPO,
            AddressingMode::Ariwpr(_) => CPU::MOVEM_ARIWPR,
            AddressingMode::Ariwd(_, _) => CPU::MOVEM_ARIWD,
            AddressingMode::Ariwi8(_, _) => CPU::MOVEM_ARIWI8,
            AddressingMode::AbsShort(_) => CPU::MOVEM_ABSSHORT,
            AddressingMode::AbsLong(_) => CPU::MOVEM_ABSLONG,
            AddressingMode::Pciwd(_, _) => CPU::MOVEM_PCIWD,
            _ => CPU::MOVEM_PCIWI8,
        };
        let base = if dir == Direction::MemoryToRegister { base.saturating_add(CPU::MOVEM_MTR) } else { base };
        let per = if size == Size::Long { CPU::MOVEM_LONG } else { CPU::MOVEM_WORD };
        Ok(base.saturating_add(time_mul(count_ones(list) as usize, per)))
    }

    /// Bcc: branches to `pc + displacement` if the condition is true. `pc` is the address after the opcode.
    pub fn execute_bcc(&mut self, pc: u32, condition: u8, displacement: i16) -> (r: InterpreterResult)
        ensures
            spec_refusal(*old(self), *final(self), r),
            spec_same_state(*old(self), *final(self)),
            condition >= 16 ==> r == Err::<usize, u8>(ILLEGAL_INSTRUCTION) && *final(self) == *old(self),
            condition < 16 ==> spec_same_state(*old(self), *final(self)) && r is Ok,
            condition < 16 && spec_condition(old(self).regs.sr, condition) ==> r == Ok::<usize, u8>(CPU::BCC_BRANCH)
                && final(self).regs == (Registers { pc: spec_wrap(pc + displacement, Size::Long), ..old(self).regs }),
            condition < 16 && !spec_condition(old(self).regs.sr, condition) ==> final(self).regs == old(self).regs
                && r == Ok::<usize, u8>(if old(self).current_opcode % 0x100 == 0 { CPU::BCC_NO_BRANCH_WORD } else { CPU::BCC_NO_BRANCH_BYTE }),
    {
        if condition >= 16 {
            return Err(ILLEGAL_INSTRUCTION);
        }
        if self.regs.sr.condition(condition) {
            self.regs.pc = add_displacement(pc, displacement as i64);
            Ok(CPU::BCC_BRANCH)
        } else {
            Ok(if self.current_opcode % 0x100 == 0 { CPU::BCC_NO_BRANCH_WORD } else { CPU::BCC_NO_BRANCH_BYTE })
        }
    }

    /// BRA: branches to `pc + displacement`. `pc` is the address after the opcode.
    pub fn execute_bra(&mut self, pc: u32, disp: i16) -> (r: InterpreterResult)
        ensures
            spec_refusal(*old(self), *final(self), r),
            spec_same_state(*old(self), *final(self)),
            final(self).regs == (Registers { pc: spec_wrap(pc + disp, Size::Long), ..old(self).regs }),
            r == Ok::<usize, u8>(if old(self).current_opcode % 0x100 == 0 { CPU::BRA_WORD } else { CPU::BRA_BYTE }),
    {
        self.regs.pc = add_displacement(pc, disp as i64);
        Ok(if self.current_opcode % 0x100 == 0 { CPU::BRA_WORD } else { CPU::BRA_BYTE })
    }

    /// BSR: pushes the return address (the program counter) and branches to `pc + displacement`.
    pub fn execute_bsr<M: MemoryAccess + ?Sized>(&mut self, memory: &mut M, pc: u32, disp: i16) -> (r: InterpreterResult)
        ensures
            spec_refusal(*old(self), *final(self), r),
            spec_same_state(*old(self), *final(self)),
            spec_access_error(r),
            old(self).regs.spec_sp() % 2 == 1 ==> r == Err::<usize, u8>(ADDRESS_ERROR),
            r is Ok ==> r == Ok::<usize, u8>(if old(self).current_opcode % 0x100 == 0 { CPU::BSR_WORD } else { CPU::BSR_BYTE })
                && final(self).regs.pc == spec_wrap(pc + disp, Size::Long)
                && final(self).regs.spec_sp() == spec_wrap(old(self).regs.spec_sp() - 4, Size::Long),
            r is Err ==> final(self).stores == old(self).stores,
            r is Ok ==> final(self).stores@ == old(self).stores@.push((spec_wrap32(old(self).regs.spec_sp() - 4), old(self).regs.pc, Size::Long)),
    {
        let ret = self.regs.pc;
        self.push_long(memory, ret)?;
        self.regs.pc = add_displacement(pc, disp as i64);
        Ok(if self.current_opcode % 0x100 == 0 { CPU::BSR_WORD } else { CPU::BSR_BYTE })
    }

    /// DBcc: if the condition is false, decrements the low word of a data register and branches to
    /// `pc + displacement` unless it became -1.
    pub fn execute_dbcc(&mut self, pc: u32, cc: u8, reg: u8, disp: i16) -> (r: InterpreterResult)
        ensures
            spec_refusal(*old(self), *final(self), r),
            spec_same_state(*old(self), *final(self)),
            !(cc < 16 && reg <= 7) ==> r == Err::<usize, u8>(ILLEGAL_INSTRUCTION) && *final(self) == *old(self),
            cc < 16 && reg <= 7 ==> spec_same_state(*old(self), *final(self)) && r is Ok,
            cc < 16 && reg <= 7 && spec_condition(old(self).regs.sr, cc) ==> r == Ok::<usize, u8>(CPU::DBCC_TRUE) && final(self).regs == old(self).regs,
            cc < 16 && reg <= 7 && !spec_condition(old(self).regs.sr, cc) ==> ({
                let counter = spec_wrap(old(self).regs.d[reg as int] - 1, Size::Word);
                &&& final(self).regs.d@ == old(self).regs.d@.update(reg as int, spec_merge(old(self).regs.d[reg as int], counter, Size::Word))
                &&& final(self).regs.a == old(self).regs.a
                &&& final(self).regs.usp == old(self).regs.usp
                &&& final(self).regs.ssp == old(self).regs.ssp
                &&& final(self).regs.sr == old(self).regs.sr
                &&& counter != 0xFFFF ==> r == Ok::<usize, u8>(CPU::DBCC_FALSE_BRANCH) && final(self).regs.pc == spec_wrap(pc + disp, Size::Long)
                &&& counter == 0xFFFF ==> r == Ok::<usize, u8>(CPU::DBCC_FALSE_NO_BRANCH) && final(self).regs.pc == old(self).regs.pc
            }),
    {
        if !(cc < 16 && reg <= 7) {
            return Err(ILLEGAL_INSTRUCTION);
        }
        if self.regs.sr.condition(cc) {
            return Ok(CPU::DBCC_TRUE);
        }
        let old_d = self.regs.d[reg as usize];
        let counter = low(wrapping_sub32(old_d, 1), Size::Word);
        proof {
            vstd::arithmetic::div_mod::lemma_mod_mod(old_d - 1, 0x1_0000, 0x1_0000);
        }
        self.regs.d[reg as usize] = merge(old_d, counter, Size::Word);
        if counter != 0xFFFF {
            self.regs.pc = add_displacement(pc, disp as i64);
            Ok(CPU::DBCC_FALSE_BRANCH)
        } else {
            Ok(CPU::DBCC_FALSE_NO_BRANCH)
        }
    }

    /// Computes the address of a control addressing mode, for JMP, JSR, LEA and PEA.
    fn control_address(&mut self, am: AddressingMode) -> (r: u32)
        requires
            spec_is_control(am),
        ensures
            r == spec_ea_address(old(self).regs, am, None),
            final(self).regs == old(self).regs,
            spec_same_state(*old(self), *final(self)),
            final(self).stores == old(self).stores,
            final(self).refused == old(self).refused,
    {
        let mut ea = EffectiveAddress::new(am, None);
        let mut exec_time: usize = 0;
        self.get_effective_address(&mut ea, &mut exec_time)
    }

    /// JMP: jumps to the address of the operand.
    pub fn execute_jmp(&mut self, am: AddressingMode) -> (r: InterpreterResult)
        ensures
            spec_refusal(*old(self), *final(self), r),
            spec_same_state(*old(self), *final(self)),
            !spec_is_control(am) ==> r == Err::<usize, u8>(ILLEGAL_INSTRUCTION) && *final(self) == *old(self),
            spec_is_control(am) ==> r == Ok::<usize, u8>(spec_control_time(am, CPU::JMP_ARI, CPU::JMP_ARIWD, CPU::JMP_ARIWI8,
                    CPU::JMP_ABSSHORT, CPU::JMP_ABSLONG, CPU::JMP_PCIWD, CPU::JMP_PCIWI8))
                && spec_same_state(*old(self), *final(self))
                && final(self).regs == (Registers { pc: spec_ea_address(old(self).regs, am, None), ..old(self).regs }),
    {
        if !is_control(am) {
            return Err(ILLEGAL_INSTRUCTION);
        }
        self.regs.pc = self.control_address(am);
        Ok(control_time(am, CPU::JMP_ARI, CPU::JMP_ARIWD, CPU::JMP_ARIWI8, CPU::JMP_ABSSHORT, CPU::JMP_ABSLONG, CPU::JMP_PCIWD, CPU::JMP_PCIWI8))
    }

    /// JSR: pushes the return address (the program counter) and jumps to the address of the operand.
    pub fn execute_jsr<M: MemoryAccess + ?Sized>(&mut self, memory: &mut M, am: AddressingMode) -> (r: InterpreterResult)
        ensures
            spec_refusal(*old(self), *final(self), r),
            spec_same_state(*old(self), *final(self)),
            !spec_is_control(am) ==> r == Err::<usize, u8>(ILLEGAL_INSTRUCTION) && *final(self) == *old(self),
            spec_is_control(am) ==> spec_same_state(*old(self), *final(self)) && spec_access_error(r),
            spec_is_control(am) && r is Ok ==> r == Ok::<usize, u8>(spec_control_time(am, CPU::JSR_ARI, CPU::JSR_ARIWD, CPU::JSR_ARIWI8,
                    CPU::JSR_ABSSHORT, CPU::JSR_ABSLONG, CPU::JSR_PCIWD, CPU::JSR_PCIWI8))
                && final(self).regs.spec_sp() == spec_wrap(old(self).regs.spec_sp() - 4, Size::Long),
            spec_is_control(am) ==> exists|pushed: Registers|
                #[trigger] spec_a_set(old(self).regs, pushed, 7, spec_wrap32(old(self).regs.spec_sp() - 4))
                && (r is Ok ==> final(self).regs == Registers { pc: spec_ea_address(pushed, am, None), ..pushed })
                && (r is Err ==> final(self).regs == pushed),
            r is Err ==> final(self).stores == old(self).stores,
            r is Ok ==> final(self).stores@ == old(self).stores@.push((spec_wrap32(old(self).regs.spec_sp() - 4), old(self).regs.pc, Size::Long)),
    {
        if !is_control(am) {
            return Err(ILLEGAL_INSTRUCTION);
        }
        let ret = self.regs.pc;
        let ghost regs0 = self.regs;
        let pushed = self.push_long(memory, ret);
        let ghost regs1 = self.regs;
        proof {
            assert(spec_a_set(regs0, regs1, 7, spec_wrap32(regs0.spec_sp() - 4)));
        }
        pushed?;
        self.regs.pc = self.control_address(am);
        Ok(control_time(am, CPU::JSR_ARI, CPU::JSR_ARIWD, CPU::JSR_ARIWI8, CPU::JSR_ABSSHORT, CPU::JSR_ABSLONG, CPU::JSR_PCIWD, CPU::JSR_PCIWI8))
    }

    /// LEA: loads the address of the operand in an address register.
    pub fn execute_lea(&mut self, reg: u8, am: AddressingMode) -> (r: InterpreterResult)
        ensures
            spec_refusal(*old(self), *final(self), r),
            spec_same_state(*old(self), *final(self)),
            !(reg <= 7 && spec_is_control(am)) ==> r == Err::<usize, u8>(ILLEGAL_INSTRUCTION) && *final(self) == *old(self),
            reg <= 7 && spec_is_control(am) ==> r == Ok::<usize, u8>(spec_control_time(am, CPU::LEA_ARI, CPU::LEA_ARIWD, CPU::LEA_ARIWI8,
                    CPU::LEA_ABSSHORT, CPU::LEA_ABSLONG, CPU::LEA_PCIWD, CPU::LEA_PCIWI8))
                && spec_same_state(*old(self), *final(self))
                && spec_a_set(old(self).regs, final(self).regs, reg, spec_ea_address(old(self).regs, am, None)),
    {
        if !(reg <= 7 && is_control(am)) {
            return Err(ILLEGAL_INSTRUCTION);
        }
        let addr = self.control_address(am);
        self.regs.set_a(reg, addr);
        Ok(control_time(am, CPU::LEA_ARI, CPU::LEA_ARIWD, CPU::LEA_ARIWI8, CPU::LEA_ABSSHORT, CPU::LEA_ABSLONG, CPU::LEA_PCIWD, CPU::LEA_PCIWI8))
    }

    /// PEA: pushes the address of the operand.
    pub fn execute_pea<M: MemoryAccess + ?Sized>(&mut self, memory: &mut M, am: AddressingMode) -> (r: InterpreterResult)
        ensures
            spec_refusal(*old(self), *final(self), r),
            spec_same_state(*old(self), *final(self)),
            !spec_is_control(am) ==> r == Err::<usize, u8>(ILLEGAL_INSTRUCTION) && *final(self) == *old(self),
            spec_is_control(am) ==> spec_same_state(*old(self), *final(self)) && spec_access_error(r)
                && spec_a_set(old(self).regs, final(self).regs, 7, spec_wrap(old(self).regs.spec_sp() - 4, Size::Long)),
            spec_is_control(am) && r is Ok ==> r == Ok::<usize, u8>(spec_control_time(am, CPU::PEA_ARI, CPU::PEA_ARIWD, CPU::PEA_ARIWI8,
                    CPU::PEA_ABSSHORT, CPU::PEA_ABSLONG, CPU::PEA_PCIWD, CPU::PEA_PCIWI8)),
            r is Err ==> final(self).stores == old(self).stores,
            r is Ok ==> final(self).stores@ == old(self).stores@.push((spec_wrap32(old(self).regs.spec_sp() - 4), spec_ea_address(old(self).regs, am, None), Size::Long)),
    {
        if !is_control(am) {
            return Err(ILLEGAL_INSTRUCTION);
        }
        let addr = self.control_address(am);
        match self.push_long(memory, addr) {
            Ok(_) => {},
            Err(e) => { return Err(e); },
        }
        Ok(control_time(am, CPU::PEA_ARI, CPU::PEA_ARIWD, CPU::PEA_ARIWI8, CPU::PEA_ABSSHORT, CPU::PEA_ABSLONG, CPU::PEA_PCIWD, CPU::PEA_PCIWI8))
    }

    /// LINK: pushes an address register, loads it with the stack pointer, then adds the displacement to the stack pointer.
    pub fn execute_link<M: MemoryAccess + ?Sized>(&mut self, memory: &mut M, reg: u8, disp: i16) -> (r: InterpreterResult)
        ensures
            spec_refusal(*old(self), *final(self), r),
            spec_same_state(*old(self), *final(self)),
            reg > 7 ==> r == Err::<usize, u8>(ILLEGAL_INSTRUCTION) && *final(self) == *old(self),
            reg <= 7 ==> spec_same_state(*old(self), *final(self)) && spec_access_error(r),
            reg <= 7 && r is Ok ==> r == Ok::<usize, u8>(CPU::LINK)
                && final(self).regs.spec_sp() == spec_wrap(spec_wrap(old(self).regs.spec_sp() - 4, Size::Long) + disp, Size::Long),
            reg < 7 && r is Ok ==> final(self).regs.spec_a(reg) == spec_wrap(old(self).regs.spec_sp() - 4, Size::Long),
            reg <= 7 && r is Ok ==> exists|pushed: Registers, linked: Registers|
                #[trigger] spec_a_set(old(self).regs, pushed, 7, spec_wrap32(old(self).regs.spec_sp() - 4))
                && #[trigger] spec_a_set(pushed, linked, reg, pushed.spec_sp())
                && spec_a_set(linked, final(self).regs, 7, spec_wrap32(linked.spec_sp() + disp)),
            r is Err ==> final(self).stores == old(self).stores,
            r is Ok ==> final(self).stores@ == old(self).stores@.push((spec_wrap32(old(self).regs.spec_sp() - 4), old(self).regs.spec_a(reg), Size::Long)),
    {
        if reg > 7 {
            return Err(ILLEGAL_INSTRUCTION);
        }
        let value = self.regs.a(reg);
        self.push_long(memory, value)?;
        let ghost pushed = self.regs;
        let sp = self.regs.sp();
        self.regs.set_a(reg, sp);
        let ghost linked = self.regs;
        let sp = self.regs.sp();
        self.regs.set_sp(add_displacement(sp, disp as i64));
        proof {
            assert(spec_a_set(pushed, linked, reg, pushed.spec_sp()));
            assert(spec_a_set(linked, self.regs, 7, spec_wrap32(linked.spec_sp() + disp)));
        }
        Ok(CPU::LINK)
    }

    /// UNLK: loads the stack pointer with an address register, then pops the register.
    pub fn execute_unlk<M: MemoryAccess + ?Sized>(&mut self, memory: &mut M, reg: u8) -> (r: InterpreterResult)
        ensures
            spec_refusal(*old(self), *final(self), r),
            spec_same_state(*old(self), *final(self)),
            reg > 7 ==> r == Err::<usize, u8>(ILLEGAL_INSTRUCTION) && *final(self) == *old(self),
            reg <= 7 ==> spec_same_state(*old(self), *final(self)) && spec_access_error(r),
            reg <= 7 && r is Ok ==> r == Ok::<usize, u8>(CPU::UNLK),
            reg < 7 && r is Ok ==> final(self).regs.spec_sp() == spec_wrap(old(self).regs.spec_a(reg) + 4, Size::Long),
            reg <= 7 && r is Ok ==> exists|unlinked: Registers, popped: Registers, v: u32|
                #[trigger] spec_a_set(old(self).regs, unlinked, 7, old(self).regs.spec_a(reg))
                && #[trigger] spec_a_set(unlinked, popped, 7, spec_wrap32(unlinked.spec_sp() + 4))
                && #[trigger] spec_a_set(popped, final(self).regs, reg, v),
    {
        if reg > 7 {
            return Err(ILLEGAL_INSTRUCTION);
        }
        let value = self.regs.a(reg);
        let ghost regs0 = self.regs;
        self.regs.set_sp(value);
        let ghost unlinked = self.regs;
        let popped = self.pop_long(memory)?;
        let ghost after_pop = self.regs;
        self.regs.set_a(reg, popped);
        proof {
            assert(spec_a_set(regs0, unlinked, 7, regs0.spec_a(reg)));
            assert(spec_a_set(unlinked, after_pop, 7, spec_wrap32(unlinked.spec_sp() + 4)));
            assert(spec_a_set(after_pop, self.regs, reg, popped));
        }
        Ok(CPU::UNLK)
    }

    /// RTS: pops the program counter.
    pub fn execute_rts<M: MemoryAccess + ?Sized>(&mut self, memory: &mut M) -> (r: InterpreterResult)
        ensures
            spec_refusal(*old(self), *final(self), r),
            spec_same_state(*old(self), *final(self)),
            spec_access_error(r),
            r is Ok ==> r == Ok::<usize, u8>(CPU::RTS) && final(self).regs.spec_sp() == spec_wrap(old(self).regs.spec_sp() + 4, Size::Long)
                && final(self).regs.sr == old(self).regs.sr && final(self).regs.d == old(self).regs.d,
            r is Ok ==> exists|popped: Registers|
                #[trigger] spec_a_set(old(self).regs, popped, 7, spec_wrap32(old(self).regs.spec_sp() + 4))
                && final(self).regs == (Registers { pc: final(self).regs.pc, ..popped }),
    {
        self.regs.pc = self.pop_long(memory)?;
        Ok(CPU::RTS)
    }

    /// RTR: pops the condition codes (the upper byte of the status register being kept), then the program counter.
    pub fn execute_rtr<M: MemoryAccess + ?Sized>(&mut self, memory: &mut M) -> (r: InterpreterResult)
        ensures
            spec_refusal(*old(self), *final(self), r),
            spec_same_state(*old(self), *final(self)),
            spec_access_error(r),
            r is Ok ==> r == Ok::<usize, u8>(CPU::RTR) && final(self).regs.d == old(self).regs.d
                && final(self).regs.sr.t == old(self).regs.sr.t && final(self).regs.sr.s == old(self).regs.sr.s
                && final(self).regs.sr.interrupt_mask == old(self).regs.sr.interrupt_mask,
            r is Ok ==> exists|ccr_popped: Registers, pc_popped: Registers, ccr: u16|
                #[trigger] spec_a_set(old(self).regs, ccr_popped, 7, spec_wrap32(old(self).regs.spec_sp() + 2))
                && #[trigger] spec_a_set((Registers { sr: spec_set_ccr(old(self).regs.sr, ccr), ..ccr_popped }), pc_popped, 7,
                    spec_wrap32(ccr_popped.spec_sp() + 4))
                && final(self).regs == (Registers { pc: final(self).regs.pc, ..pc_popped }),
    {
        let ccr = self.pop_word(memory)?;
        let ghost ccr_popped = self.regs;
        self.regs.sr.set_ccr(ccr);
        proof {
            assert(self.regs == (Registers { sr: spec_set_ccr(old(self).regs.sr, ccr), ..ccr_popped }));
        }
        self.regs.pc = self.pop_long(memory)?;
        Ok(CPU::RTR)
    }

    /// RTE: pops the status register and the program counter (and the format word with the SCC68070
    /// stack format) (supervisor only).
    pub fn execute_rte<M: MemoryAccess + ?Sized>(&mut self, memory: &mut M) -> (r: InterpreterResult)
        ensures
            spec_refusal(*old(self), *final(self), r),
            spec_same_state(*old(self), *final(self)),
            !old(self).regs.sr.s ==> r == Err::<usize, u8>(PRIVILEGE_VIOLATION) && *final(self) == *old(self),
            old(self).regs.sr.s ==> spec_same_state(*old(self), *final(self)),
            old(self).regs.sr.s ==> (r matches Err(e) ==> e == ACCESS_ERROR || e == ADDRESS_ERROR || e == FORMAT_ERROR),
            old(self).regs.sr.s && CPU::STACK_FORMAT == StackFormat::MC68000 && r is Ok ==> r == Ok::<usize, u8>(CPU::RTE),
            old(self).regs.sr.s && r is Ok ==> final(self).regs.d == old(self).regs.d && final(self).regs.a == old(self).regs.a
                && final(self).regs.usp == old(self).regs.usp
                && (exists|w: u16| #[trigger] spec_from_raw(w) == final(self).regs.sr)
                && (CPU::STACK_FORMAT == StackFormat::MC68000 ==> final(self).regs.ssp == spec_wrap32(old(self).regs.ssp + 6))
                && (CPU::STACK_FORMAT == StackFormat::SCC68070 ==> final(self).regs.ssp == spec_wrap32(old(self).regs.ssp + 8)
                    || (final(self).regs.ssp == spec_wrap32(spec_wrap32(old(self).regs.ssp + 8) + 26) && r == Ok::<usize, u8>(CPU::RTE.saturating_add(101)))),
    {
        self.check_supervisor()?;
        let sr = self.pop_word(memory)?;
        self.regs.pc = self.pop_long(memory)?;
        proof {
            assert(self.regs.sr.s);
        }
        let mut exec_time = CPU::RTE;
        if CPU::STACK_FORMAT == StackFormat::SCC68070 {
            let format = self.pop_word(memory)?;
            if format / 0x1000 == 0xF {
                let sp = self.regs.sp();
                self.regs.set_sp(wrapping_add(sp, 26));
                exec_time = exec_time.saturating_add(101);
            } else if format / 0x1000 != 0 {
                return Err(FORMAT_ERROR);
            }
        }
        self.regs.sr = StatusRegister::from_raw(sr);
        Ok(exec_time)
    }

    /// ABCD and SBCD: `Dy op Dx op X` into `Dy`, or `-(Ay) op -(Ax) op X` into `(Ay)`, in BCD.
    fn bcd<M: MemoryAccess + ?Sized>(&mut self, memory: &mut M, sub: bool, dst: u8, src: u8, mem: bool, reg_time: usize, mem_time: usize) -> (r: InterpreterResult)
        requires
            dst <= 7,
            src <= 7,
        ensures
            spec_same_state(*old(self), *final(self)),
            spec_access_error(r),
            !mem ==> r == Ok::<usize, u8>(reg_time) && ({
                let s = spec_low(old(self).regs.d[src as int], Size::Byte) as u8;
                let d = spec_low(old(self).regs.d[dst as int], Size::Byte) as u8;
                let sr = old(self).regs.sr;
                spec_d_sr_set(old(self).regs, final(self).regs, dst,
                    spec_merge(old(self).regs.d[dst as int], (if sub { spec_sbcd_result(sr, s, d) } else { spec_abcd_full(sr, s, d) % 0x100 }) as u32, Size::Byte),
                    if sub { spec_sbcd_sr(sr, s, d) } else { spec_abcd_sr(sr, s, d) })
            }),
            mem && r is Ok ==> r == Ok::<usize, u8>(mem_time) && spec_bcd_memory_effect(old(self).regs, final(self).regs, sub, dst, src),
            spec_bcd_store(*old(self), *final(self), r, sub, dst, src, mem),
            spec_pair_errors(*old(self), *final(self), r, dst, src, Size::Byte, mem),
    {
        let ghost regs0 = self.regs;
        let ghost mut regs1 = self.regs;
        let ghost mut regs2 = self.regs;
        let (s, d) = if mem {
            let mut t: usize = 0;
            let mut src_ea = EffectiveAddress::new(AddressingMode::Ariwpr(src), Some(Size::Byte));
            let s = self.get_operand(memory, &mut src_ea, Size::Byte, &mut t)?;
            proof { regs1 = self.regs; }
            let mut dst_ea = EffectiveAddress::new(AddressingMode::Ariwpr(dst), Some(Size::Byte));
            let d = self.get_operand(memory, &mut dst_ea, Size::Byte, &mut t)?;
            proof {
                regs2 = self.regs;
                assert(spec_ea_post(regs0, regs1, AddressingMode::Ariwpr(src), Some(Size::Byte)));
                assert(spec_ea_post(regs1, regs2, AddressingMode::Ariwpr(dst), Some(Size::Byte)));
                assert(regs2.sr == regs0.sr);
                assert(spec_fits(s, Size::Byte) && spec_fits(d, Size::Byte));
            }
            (s as u8, d as u8)
        } else {
            (low(self.regs.d[src as usize], Size::Byte) as u8, low(self.regs.d[dst as usize], Size::Byte) as u8)
        };
        let (res, sr) = if sub { sbcd(self.regs.sr, s, d) } else { abcd(self.regs.sr, s, d) };
        self.regs.sr = sr;
        if mem {
            let mut t: usize = 0;
            let addr = self.regs.a(dst);
            let mut dst_ea = EffectiveAddress { mode: AddressingMode::Ari(dst), address: Some(addr), size: Some(Size::Byte) };
            let ghost regs3 = self.regs;
            self.set_operand(memory, &mut dst_ea, Size::Byte, &mut t, res as u32)?;
            proof {
                assert(self.regs == regs3);
                assert(sr == spec_bcd_sr(sub, regs0.sr, s, d));
                assert(regs3 == Registers { sr: spec_bcd_sr(sub, regs0.sr, s, d), ..regs2 });
                assert(self.stores@ == old(self).stores@.push((regs2.spec_a(dst),
                    (if sub { spec_sbcd_result(regs0.sr, s, d) } else { spec_abcd_full(regs0.sr, s, d) % 0x100 }) as u32, Size::Byte)));
            }
            Ok(mem_time)
        } else {
            let v = merge(self.regs.d[dst as usize], res as u32, Size::Byte);
            self.regs.d[dst as usize] = v;
            Ok(reg_time)
        }
    }

    /// ABCD: adds two BCD bytes and the extend bit.
    pub fn execute_abcd<M: MemoryAccess + ?Sized>(&mut self, memory: &mut M, rx: u8, mode: Direction, ry: u8) -> (r: InterpreterResult)
        ensures
            spec_refusal(*old(self), *final(self), r),
            spec_same_state(*old(self), *final(self)),
            !(rx <= 7 && ry <= 7) ==> r == Err::<usize, u8>(ILLEGAL_INSTRUCTION) && *final(self) == *old(self),
            rx <= 7 && ry <= 7 ==> spec_same_state(*old(self), *final(self)) && spec_access_error(r),
            rx <= 7 && ry <= 7 && mode != Direction::MemoryToMemory ==> r == Ok::<usize, u8>(CPU::ABCD_REG) && ({
                let s = spec_low(old(self).regs.d[ry as int], Size::Byte) as u8;
                let d = spec_low(old(self).regs.d[rx as int], Size::Byte) as u8;
                spec_d_sr_set(old(self).regs, final(self).regs, rx,
                    spec_merge(old(self).regs.d[rx as int], (spec_abcd_full(old(self).regs.sr, s, d) % 0x100) as u32, Size::Byte),
                    spec_abcd_sr(old(self).regs.sr, s, d))
            }),
            rx <= 7 && ry <= 7 && mode == Direction::MemoryToMemory && r is Ok ==> r == Ok::<usize, u8>(CPU::ABCD_MEM)
                && spec_bcd_memory_effect(old(self).regs, final(self).regs, false, rx, ry),
            spec_bcd_store(*old(self), *final(self), r, false, rx, ry, mode == Direction::MemoryToMemory),
            rx <= 7 && ry <= 7 ==> spec_pair_errors(*old(self), *final(self), r, rx, ry, Size::Byte, mode == Direction::MemoryToMemory),
    {
        if !(rx <= 7 && ry <= 7) {
            return Err(ILLEGAL_INSTRUCTION);
        }
        self.bcd(memory, false, rx, ry, mode == Direction::MemoryToMemory, CPU::ABCD_REG, CPU::ABCD_MEM)
    }

    /// SBCD: subtracts a BCD byte and the extend bit from another.
    pub fn execute_sbcd<M: MemoryAccess + ?Sized>(&mut self, memory: &mut M, ry: u8, mode: Direction, rx: u8) -> (r: InterpreterResult)
        ensures
            spec_refusal(*old(self), *final(self), r),
            spec_same_state(*old(self), *final(self)),
            !(rx <= 7 && ry <= 7) ==> r == Err::<usize, u8>(ILLEGAL_INSTRUCTION) && *final(self) == *old(self),
            rx <= 7 && ry <= 7 ==> spec_same_state(*old(self), *final(self)) && spec_access_error(r),
            rx <= 7 && ry <= 7 && mode != Direction::MemoryToMemory ==> r == Ok::<usize, u8>(CPU::SBCD_REG) && ({
                let s = spec_low(old(self).regs.d[rx as int], Size::Byte) as u8;
                let d = spec_low(old(self).regs.d[ry as int], Size::Byte) as u8;
                spec_d_sr_set(old(self).regs, final(self).regs, ry,
                    spec_merge(old(self).regs.d[ry as int], spec_sbcd_result(old(self).regs.sr, s, d) as u32, Size::Byte),
                    spec_sbcd_sr(old(self).regs.sr, s, d))
            }),
            rx <= 7 && ry <= 7 && mode == Direction::MemoryToMemory && r is Ok ==> r == Ok::<usize, u8>(CPU::SBCD_MEM)
                && spec_bcd_memory_effect(old(self).regs, final(self).regs, true, ry, rx),
            spec_bcd_store(*old(self), *final(self), r, true, ry, rx, mode == Direction::MemoryToMemory),
            rx <= 7 && ry <= 7 ==> spec_pair_errors(*old(self), *final(self), r, ry, rx, Size::Byte, mode == Direction::MemoryToMemory),
    {
        if !(rx <= 7 && ry <= 7) {
            return Err(ILLEGAL_INSTRUCTION);
        }
        self.bcd(memory, true, ry, rx, mode == Direction::MemoryToMemory, CPU::SBCD_REG, CPU::SBCD_MEM)
    }

    /// CMPM: the condition codes of `(Ax)+ - (Ay)+`.
    pub fn execute_cmpm<M: MemoryAccess + ?Sized>(&mut self, memory: &mut M, ax: u8, size: Size, ay: u8) -> (r: InterpreterResult)
        ensures
            spec_refusal(*old(self), *final(self), r),
            spec_same_state(*old(self), *final(self)),
            !(ax <= 7 && ay <= 7) ==> r == Err::<usize, u8>(ILLEGAL_INSTRUCTION) && *final(self) == *old(self),
            ax <= 7 && ay <= 7 ==> spec_same_state(*old(self), *final(self)) && spec_access_error(r),
            ax <= 7 && ay <= 7 && r is Ok ==> r == Ok::<usize, u8>(if size == Size::Long { CPU::CMPM_L } else { CPU::CMPM_BW })
                && spec_cmpm_effect(old(self).regs, final(self).regs, ax, ay, size),
            ax <= 7 && ay <= 7 && r is Ok ==> spec_cmpm_loads(*old(self), *final(self), ax, ay, size),
    {
        if !(ax <= 7 && ay <= 7) {
            return Err(ILLEGAL_INSTRUCTION);
        }
        let ghost regs0 = self.regs;
        let addry = self.ariwpo(ay, size);
        let ghost regs1 = self.regs;
        let addrx = self.ariwpo(ax, size);
        let ghost regs2 = self.regs;
        let mut t: usize = 0;
        let mut src_ea = EffectiveAddress { mode: AddressingMode::Ari(ay), address: Some(addry), size: Some(size) };
        let src = self.get_operand(memory, &mut src_ea, size, &mut t)?;
        let mut dst_ea = EffectiveAddress { mode: AddressingMode::Ari(ax), address: Some(addrx), size: Some(size) };
        let dst = self.get_operand(memory, &mut dst_ea, size, &mut t)?;
        let (_, sr) = sub_values(self.regs.sr, dst, src, size, false, true);
        self.regs.sr = sr;
        proof {
            assert(spec_ea_post(regs0, regs1, AddressingMode::Ariwpo(ay), Some(size)));
            assert(spec_ea_post(regs1, regs2, AddressingMode::Ariwpo(ax), Some(size)));
            assert(self.regs == Registers { sr: spec_sub_sr(regs0.sr, dst, src, size, false, true), ..regs2 });
            assert(self.loads@ == old(self).loads@.push((regs0.spec_a(ay), src, size)).push((regs1.spec_a(ax), dst, size)));
        }
        Ok(if size == Size::Long { CPU::CMPM_L } else { CPU::CMPM_BW })
    }

    /// BTST, BCHG, BCLR and BSET: tests bit `count` (or the bit given by data register `count` when
    /// bit 8 of the opcode is set) of a data register (modulo 32) or of a byte in memory (modulo 8),
    /// setting Z when it is clear, then leaves, inverts, clears or sets it.
    #[verifier::rlimit(80)]
    #[verifier::spinoff_prover]
    fn bit_operation<M: MemoryAccess + ?Sized>(&mut self, memory: &mut M, op: BitOp, am: AddressingMode, count: u8, time: usize) -> (r: InterpreterResult)
        requires
            spec_ea_operand_valid(am) || (op == BitOp::Btst && am.spec_wf() && !(am is Ard)),
            spec_bit(old(self).current_opcode, 8) ==> count <= 7,
        ensures
            spec_refusal(*old(self), *final(self), r),
            spec_same_state(*old(self), *final(self)),
            spec_access_error(r),
            am matches AddressingMode::Drd(d) ==> r == Ok::<usize, u8>(time) && ({
                let n = spec_bit_number(old(self).regs, old(self).current_opcode, count) % 32;
                let v = old(self).regs.d[d as int];
                spec_d_sr_set(old(self).regs, final(self).regs, d, spec_bit_result(op, v, n),
                    StatusRegister { z: v & (1u32 << n) == 0, ..old(self).regs.sr })
            }),
            !(am is Drd) && r is Ok ==> spec_bit_memory_effect(old(self).regs, final(self).regs, am,
                spec_bit_number(old(self).regs, old(self).current_opcode, count)),
            spec_bit_memory_store(*old(self), *final(self), r, op, am, spec_bit_number(old(self).regs, old(self).current_opcode, count) % 8),
    {
        let number = if bit(self.current_opcode, 8) { (self.regs.d[count as usize] % 0x100) as u8 } else { count };
        if let AddressingMode::Drd(d) = am {
            let n = (number % 32) as u32;
            let v = self.regs.d[d as usize];
            let mask: u32 = 1u32 << n;
            self.regs.sr.z = v & mask == 0;
            let res = bit_result(op, v, n);
            self.regs.d[d as usize] = res;
            Ok(time)
        } else {
            let mut exec_time = time;
            let mut ea = EffectiveAddress::new(am, Some(Size::Byte));
            let n = (number % 8) as u32;
            let v = self.get_operand(memory, &mut ea, Size::Byte, &mut exec_time)?;
            let ghost read = self.regs;
            proof {
                assert(spec_operand_read(old(self).regs, read, am, Size::Byte, v));
            }
            let mask: u32 = 1u32 << n;
            self.regs.sr.z = v & mask == 0;
            let ghost flagged = self.regs;
            if op != BitOp::Btst {
                let res = bit_result(op, v, n) % 0x100;
                self.set_operand(memory, &mut ea, Size::Byte, &mut exec_time, res)?;
            }
            proof {
                assert(self.regs == flagged);
                assert(n == spec_bit_number(old(self).regs, old(self).current_opcode, count) % 8);
                if op != BitOp::Btst && spec_is_memory(am) {
                    assert(spec_operand_read(old(self).regs, read, am, Size::Byte, v));
                    assert(self.stores@ == old(self).stores@.push((spec_ea_address(old(self).regs, am, Some(Size::Byte)), spec_bit_result(op, v, n) % 0x100, Size::Byte)));
                }
            }
            Ok(exec_time)
        }
    }

    /// BTST: tests a bit, setting Z when it is clear.
    pub fn execute_btst<M: MemoryAccess + ?Sized>(&mut self, memory: &mut M, am: AddressingMode, count: u8) -> (r: InterpreterResult)
        ensures
            spec_refusal(*old(self), *final(self), r),
            spec_same_state(*old(self), *final(self)),
            !((spec_ea_operand_valid(am) || (am.spec_wf() && !(am is Ard))) && (spec_bit(old(self).current_opcode, 8) ==> count <= 7)) ==> r == Err::<usize, u8>(ILLEGAL_INSTRUCTION) && *final(self) == *old(self),
            (spec_ea_operand_valid(am) || (am.spec_wf() && !(am is Ard))) && (spec_bit(old(self).current_opcode, 8) ==> count <= 7) ==> spec_same_state(*old(self), *final(self)) && spec_access_error(r),
            (spec_ea_operand_valid(am) || (am.spec_wf() && !(am is Ard))) && (spec_bit(old(self).current_opcode, 8) ==> count <= 7) ==> (am matches AddressingMode::Drd(d) ==> r == Ok::<usize, u8>(
                    if spec_bit(old(self).current_opcode, 8) { CPU::BTST_DYN_REG } else { CPU::BTST_STA_REG }) && ({
                let n = spec_bit_number(old(self).regs, old(self).current_opcode, count) % 32;
                let v = old(self).regs.d[d as int];
                spec_d_sr_set(old(self).regs, final(self).regs, d, spec_bit_result(BitOp::Btst, v, n),
                    StatusRegister { z: v & (1u32 << n) == 0, ..old(self).regs.sr })
            })),
            (spec_ea_operand_valid(am) || (am.spec_wf() && !(am is Ard))) && (spec_bit(old(self).current_opcode, 8) ==> count <= 7) && !(am is Drd) && r is Ok ==>
                spec_bit_memory_effect(old(self).regs, final(self).regs, am, spec_bit_number(old(self).regs, old(self).current_opcode, count)),
            spec_bit_memory_store(*old(self), *final(self), r, BitOp::Btst, am, spec_bit_number(old(self).regs, old(self).current_opcode, count) % 8),
    {
        if !((ea_operand_valid(am) || (am.is_wf() && !am.is_ard())) && (!bit(self.current_opcode, 8) || count <= 7)) {
            return Err(ILLEGAL_INSTRUCTION);
        }
        let dynamic = bit(self.current_opcode, 8);
        let time = if dynamic {
            if am.is_drd() { CPU::BTST_DYN_REG } else { CPU::BTST_DYN_MEM }
        } else {
            if am.is_drd() { CPU::BTST_STA_REG } else { CPU::BTST_STA_MEM }
        };
        self.bit_operation(memory, BitOp::Btst, am, count, time)
    }

    /// BCHG: tests a bit, then inverts it.
    pub fn execute_bchg<M: MemoryAccess + ?Sized>(&mut self, memory: &mut M, am: AddressingMode, count: u8) -> (r: InterpreterResult)
        ensures
            spec_refusal(*old(self), *final(self), r),
            spec_same_state(*old(self), *final(self)),
            !(spec_ea_operand_valid(am) && (spec_bit(old(self).current_opcode, 8) ==> count <= 7)) ==> r == Err::<usize, u8>(ILLEGAL_INSTRUCTION) && *final(self) == *old(self),
            spec_ea_operand_valid(am) && (spec_bit(old(self).current_opcode, 8) ==> count <= 7) ==> spec_same_state(*old(self), *final(self)) && spec_access_error(r),
            spec_ea_operand_valid(am) && (spec_bit(old(self).current_opcode, 8) ==> count <= 7) ==> (am matches AddressingMode::Drd(d) ==> r == Ok::<usize, u8>(
                    if spec_bit(old(self).current_opcode, 8) { CPU::BCHG_DYN_REG } else { CPU::BCHG_STA_REG }) && ({
                let n = spec_bit_number(old(self).regs, old(self).current_opcode, count) % 32;
                let v = old(self).regs.d[d as int];
                spec_d_sr_set(old(self).regs, final(self).regs, d, spec_bit_result(BitOp::Bchg, v, n),
                    StatusRegister { z: v & (1u32 << n) == 0, ..old(self).regs.sr })
            })),
            spec_ea_operand_valid(am) && (spec_bit(old(self).current_opcode, 8) ==> count <= 7) && !(am is Drd) && r is Ok ==>
                spec_bit_memory_effect(old(self).regs, final(self).regs, am, spec_bit_number(old(self).regs, old(self).current_opcode, count)),
            spec_bit_memory_store(*old(self), *final(self), r, BitOp::Bchg, am, spec_bit_number(old(self).regs, old(self).current_opcode, count) % 8),
    {
        if !(ea_operand_valid(am) && (!bit(self.current_opcode, 8) || count <= 7)) {
            return Err(ILLEGAL_INSTRUCTION);
        }
        let dynamic = bit(self.current_opcode, 8);
        let time = if dynamic {
            if am.is_drd() { CPU::BCHG_DYN_REG } else { CPU::BCHG_DYN_MEM }
        } else {
            if am.is_drd() { CPU::BCHG_STA_REG } else { CPU::BCHG_STA_MEM }
        };
        self.bit_operation(memory, BitOp::Bchg, am, count, time)
    }

    /// BCLR: tests a bit, then clears it.
    pub fn execute_bclr<M: MemoryAccess + ?Sized>(&mut self, memory: &mut M, am: AddressingMode, count: u8) -> (r: InterpreterResult)
        ensures
            spec_refusal(*old(self), *final(self), r),
            spec_same_state(*old(self), *final(self)),
            !(spec_ea_operand_valid(am) && (spec_bit(old(self).current_opcode, 8) ==> count <= 7)) ==> r == Err::<usize, u8>(ILLEGAL_INSTRUCTION) && *final(self) == *old(self),
            spec_ea_operand_valid(am) && (spec_bit(old(self).current_opcode, 8) ==> count <= 7) ==> spec_same_state(*old(self), *final(self)) && spec_access_error(r),
            spec_ea_operand_valid(am) && (spec_bit(old(self).current_opcode, 8) ==> count <= 7) ==> (am matches AddressingMode::Drd(d) ==> r == Ok::<usize, u8>(
                    if spec_bit(old(self).current_opcode, 8) { CPU::BCLR_DYN_REG } else { CPU::BCLR_STA_REG }) && ({
                let n = spec_bit_number(old(self).regs, old(self).current_opcode, count) % 32;
                let v = old(self).regs.d[d as int];
                spec_d_sr_set(old(self).regs, final(self).regs, d, spec_bit_result(BitOp::Bclr, v, n),
                    StatusRegister { z: v & (1u32 << n) == 0, ..old(self).regs.sr })
            })),
            spec_ea_operand_valid(am) && (spec_bit(old(self).current_opcode, 8) ==> count <= 7) && !(am is Drd) && r is Ok ==>
                spec_bit_memory_effect(old(self).regs, final(self).regs, am, spec_bit_number(old(self).regs, old(self).current_opcode, count)),
            spec_bit_memory_store(*old(self), *final(self), r, BitOp::Bclr, am, spec_bit_number(old(self).regs, old(self).current_opcode, count) % 8),
    {
        if !(ea_operand_valid(am) && (!bit(self.current_opcode, 8) || count <= 7)) {
            return Err(ILLEGAL_INSTRUCTION);
        }
        let dynamic = bit(self.current_opcode, 8);
        let time = if dynamic {
            if am.is_drd() { CPU::BCLR_DYN_REG } else { CPU::BCLR_DYN_MEM }
        } else {
            if am.is_drd() { CPU::BCLR_STA_REG } else { CPU::BCLR_STA_MEM }
        };
        self.bit_operation(memory, BitOp::Bclr, am, count, time)
    }

    /// BSET: tests a bit, then sets it.
    pub fn execute_bset<M: MemoryAccess + ?Sized>(&mut self, memory: &mut M, am: AddressingMode, count: u8) -> (r: InterpreterResult)
        ensures
            spec_refusal(*old(self), *final(self), r),
            spec_same_state(*old(self), *final(self)),
            !(spec_ea_operand_valid(am) && (spec_bit(old(self).current_opcode, 8) ==> count <= 7)) ==> r == Err::<usize, u8>(ILLEGAL_INSTRUCTION) && *final(self) == *old(self),
            spec_ea_operand_valid(am) && (spec_bit(old(self).current_opcode, 8) ==> count <= 7) ==> spec_same_state(*old(self), *final(self)) && spec_access_error(r),
            spec_ea_operand_valid(am) && (spec_bit(old(self).current_opcode, 8) ==> count <= 7) ==> (am matches AddressingMode::Drd(d) ==> r == Ok::<usize, u8>(
                    if spec_bit(old(self).current_opcode, 8) { CPU::BSET_DYN_REG } else { CPU::BSET_STA_REG }) && ({
                let n = spec_bit_number(old(self).regs, old(self).current_opcode, count) % 32;
                let v = old(self).regs.d[d as int];
                spec_d_sr_set(old(self).regs, final(self).regs, d, spec_bit_result(BitOp::Bset, v, n),
                    StatusRegister { z: v & (1u32 << n) == 0, ..old(self).regs.sr })
            })),
            spec_ea_operand_valid(am) && (spec_bit(old(self).current_opcode, 8) ==> count <= 7) && !(am is Drd) && r is Ok ==>
                spec_bit_memory_effect(old(self).regs, final(self).regs, am, spec_bit_number(old(self).regs, old(self).current_opcode, count)),
            spec_bit_memory_store(*old(self), *final(self), r, BitOp::Bset, am, spec_bit_number(old(self).regs, old(self).current_opcode, count) % 8),
    {
        if !(ea_operand_valid(am) && (!bit(self.current_opcode, 8) || count <= 7)) {
            return Err(ILLEGAL_INSTRUCTION);
        }
        let dynamic = bit(self.current_opcode, 8);
        let time = if dynamic {
            if am.is_drd() { CPU::BSET_DYN_REG } else { CPU::BSET_DYN_MEM }
        } else {
            if am.is_drd() { CPU::BSET_STA_REG } else { CPU::BSET_STA_MEM }
        };
        self.bit_operation(memory, BitOp::Bset, am, count, time)
    }

    /// Reads the word source operand of MULS, MULU, DIVS, DIVU and CHK.
    fn word_source<M: MemoryAccess + ?Sized>(&mut self, memory: &mut M, am: AddressingMode, time: usize) -> (r: Result<(u16, usize), u8>)
        requires
            am.spec_wf(),
        ensures
            r == Err::<(u16, usize), u8>(ACCESS_ERROR) ==> final(self).refused@ == old(self).refused@.push(final(self).refused@.last()),
            r != Err::<(u16, usize), u8>(ACCESS_ERROR) ==> final(self).refused == old(self).refused,
            spec_same_state(*old(self), *final(self)),
            r matches Err(e) ==> e == ACCESS_ERROR || e == ADDRESS_ERROR,
            spec_direct_operand(old(self).regs, am, Size::Word) matches Some(v) ==> r == Ok::<(u16, usize), u8>((v as u16,
                    if am is Immediate { time.saturating_add(spec_immediate_time::<CPU>(Size::Word)) } else { time }))
                && final(self).regs == old(self).regs,
            spec_is_memory(am) ==> spec_ea_post(old(self).regs, final(self).regs, am, Some(Size::Word)),
            r matches Ok((x, _)) ==> spec_operand_read(old(self).regs, final(self).regs, am, Size::Word, x as u32),
    {
        let mut exec_time = time;
        let mut ea = EffectiveAddress::new(am, Some(Size::Word));
        let v = match self.get_operand(memory, &mut ea, Size::Word, &mut exec_time) {
            Ok(v) => v,
            Err(e) => { return Err(e); },
        };
        proof {
            assert(spec_operand_read(old(self).regs, self.regs, am, Size::Word, v));
            assert(v < 0x1_0000);
            assert(v as u16 as u32 == v);
        }
        Ok((v as u16, exec_time))
    }

    /// MULS: signed multiplication of the low words of a data register and the operand into the data register.
    pub fn execute_muls<M: MemoryAccess + ?Sized>(&mut self, memory: &mut M, reg: u8, am: AddressingMode) -> (r: InterpreterResult)
        ensures
            spec_refusal(*old(self), *final(self), r),
            spec_same_state(*old(self), *final(self)),
            !(reg <= 7 && am.spec_wf()) ==> r == Err::<usize, u8>(ILLEGAL_INSTRUCTION) && *final(self) == *old(self),
            reg <= 7 && am.spec_wf() ==> spec_same_state(*old(self), *final(self)) && spec_access_error(r),
            reg <= 7 && am.spec_wf() ==> (spec_direct_operand(old(self).regs, am, Size::Word) matches Some(v) ==> r is Ok && ({
                let p = spec_muls(v as u16, old(self).regs.d[reg as int]);
                spec_d_sr_set(old(self).regs, final(self).regs, reg, spec_wrap(p, Size::Long),
                    StatusRegister { n: p < 0, z: p == 0, v: false, c: false, ..old(self).regs.sr })
            })),
            reg <= 7 && am.spec_wf() && r is Ok ==> exists|read: Registers, v: u32|
                #[trigger] spec_operand_read(old(self).regs, read, am, Size::Word, v) && ({
                    let p = spec_muls(v as u16, old(self).regs.d[reg as int]);
                    spec_d_sr_set(read, final(self).regs, reg, spec_wrap(p, Size::Long),
                        StatusRegister { n: p < 0, z: p == 0, v: false, c: false, ..old(self).regs.sr })
                }),
    {
        if !(reg <= 7 && am.is_wf()) {
            return Err(ILLEGAL_INSTRUCTION);
        }
        let (src, exec_time) = self.word_source(memory, am, CPU::MULS)?;
        let (res, sr) = muls(self.regs.sr, src, self.regs.d[reg as usize]);
        self.regs.d[reg as usize] = res;
        self.regs.sr = sr;
        Ok(exec_time)
    }

    /// MULU: unsigned multiplication of the low words of a data register and the operand into the data register.
    pub fn execute_mulu<M: MemoryAccess + ?Sized>(&mut self, memory: &mut M, reg: u8, am: AddressingMode) -> (r: InterpreterResult)
        ensures
            spec_refusal(*old(self), *final(self), r),
            spec_same_state(*old(self), *final(self)),
            !(reg <= 7 && am.spec_wf()) ==> r == Err::<usize, u8>(ILLEGAL_INSTRUCTION) && *final(self) == *old(self),
            reg <= 7 && am.spec_wf() ==> spec_same_state(*old(self), *final(self)) && spec_access_error(r),
            reg <= 7 && am.spec_wf() ==> (spec_direct_operand(old(self).regs, am, Size::Word) matches Some(v) ==> r is Ok && ({
                let p = spec_mulu(v as u16, old(self).regs.d[reg as int]) as u32;
                spec_d_sr_set(old(self).regs, final(self).regs, reg, p, spec_logic_sr(old(self).regs.sr, p, Size::Long))
            })),
            reg <= 7 && am.spec_wf() && r is Ok ==> exists|read: Registers, v: u32|
                #[trigger] spec_operand_read(old(self).regs, read, am, Size::Word, v) && ({
                    let p = spec_mulu(v as u16, old(self).regs.d[reg as int]) as u32;
                    spec_d_sr_set(read, final(self).regs, reg, p, spec_logic_sr(old(self).regs.sr, p, Size::Long))
                }),
    {
        if !(reg <= 7 && am.is_wf()) {
            return Err(ILLEGAL_INSTRUCTION);
        }
        let (src, exec_time) = self.word_source(memory, am, CPU::MULU)?;
        let (res, sr) = mulu(self.regs.sr, src, self.regs.d[reg as usize]);
        self.regs.d[reg as usize] = res;
        self.regs.sr = sr;
        Ok(exec_time)
    }

    /// DIVS: signed division of a data register by the word operand: quotient in the low word,
    /// remainder in the high word. A zero divisor raises the Zero Divide exception.
    pub fn execute_divs<M: MemoryAccess + ?Sized>(&mut self, memory: &mut M, reg: u8, am: AddressingMode) -> (r: InterpreterResult)
        ensures
            spec_refusal(*old(self), *final(self), r),
            spec_same_state(*old(self), *final(self)),
            !(reg <= 7 && am.spec_wf()) ==> r == Err::<usize, u8>(ILLEGAL_INSTRUCTION) && *final(self) == *old(self),
            reg <= 7 && am.spec_wf() ==> spec_same_state(*old(self), *final(self))
                && (r matches Err(e) ==> e == ACCESS_ERROR || e == ADDRESS_ERROR || e == ZERO_DIVIDE),
            reg <= 7 && am.spec_wf() ==> (spec_direct_operand(old(self).regs, am, Size::Word) matches Some(v) ==> (
                v == 0 ==> r == Err::<usize, u8>(ZERO_DIVIDE) && final(self).regs == old(self).regs) && (
                v != 0 ==> r is Ok && spec_d_sr_set(old(self).regs, final(self).regs, reg, spec_divs(v as u16, old(self).regs.d[reg as int]),
                    spec_divs_sr(old(self).regs.sr, v as u16, old(self).regs.d[reg as int])))),
            reg <= 7 && am.spec_wf() && r is Ok ==> exists|read: Registers, v: u32|
                #[trigger] spec_operand_read(old(self).regs, read, am, Size::Word, v) && v != 0
                && spec_d_sr_set(read, final(self).regs, reg, spec_divs(v as u16, old(self).regs.d[reg as int]),
                    spec_divs_sr(old(self).regs.sr, v as u16, old(self).regs.d[reg as int])),
            reg <= 7 && am.spec_wf() && r == Err::<usize, u8>(ZERO_DIVIDE) ==> spec_operand_read(old(self).regs, final(self).regs, am, Size::Word, 0),
    {
        if !(reg <= 7 && am.is_wf()) {
            return Err(ILLEGAL_INSTRUCTION);
        }
        let (src, exec_time) = match self.word_source(memory, am, CPU::DIVS) {
            Ok(v) => v,
            Err(e) => { return Err(e); },
        };
        if src == 0 {
            return Err(ZERO_DIVIDE);
        }
        let (res, sr) = divs(self.regs.sr, src, self.regs.d[reg as usize]);
        self.regs.d[reg as usize] = res;
        self.regs.sr = sr;
        Ok(exec_time)
    }

    /// DIVU: unsigned division of a data register by the word operand: quotient in the low word,
    /// remainder in the high word. A zero divisor raises the Zero Divide exception.
    pub fn execute_divu<M: MemoryAccess + ?Sized>(&mut self, memory: &mut M, reg: u8, am: AddressingMode) -> (r: InterpreterResult)
        ensures
            spec_refusal(*old(self), *final(self), r),
            spec_same_state(*old(self), *final(self)),
            !(reg <= 7 && am.spec_wf()) ==> r == Err::<usize, u8>(ILLEGAL_INSTRUCTION) && *final(self) == *old(self),
            reg <= 7 && am.spec_wf() ==> spec_same_state(*old(self), *final(self))
                && (r matches Err(e) ==> e == ACCESS_ERROR || e == ADDRESS_ERROR || e == ZERO_DIVIDE),
            reg <= 7 && am.spec_wf() ==> (spec_direct_operand(old(self).regs, am, Size::Word) matches Some(v) ==> (
                v == 0 ==> r == Err::<usize, u8>(ZERO_DIVIDE) && final(self).regs == old(self).regs) && (
                v != 0 ==> r is Ok && spec_d_sr_set(old(self).regs, final(self).regs, reg, spec_divu(v as u16, old(self).regs.d[reg as int]),
                    spec_divu_sr(old(self).regs.sr, v as u16, old(self).regs.d[reg as int])))),
            reg <= 7 && am.spec_wf() && r is Ok ==> exists|read: Registers, v: u32|
                #[trigger] spec_operand_read(old(self).regs, read, am, Size::Word, v) && v != 0
                && spec_d_sr_set(read, final(self).regs, reg, spec_divu(v as u16, old(self).regs.d[reg as int]),
                    spec_divu_sr(old(self).regs.sr, v as u16, old(self).regs.d[reg as int])),
            reg <= 7 && am.spec_wf() && r == Err::<usize, u8>(ZERO_DIVIDE) ==> spec_operand_read(old(self).regs, final(self).regs, am, Size::Word, 0),
    {
        if !(reg <= 7 && am.is_wf()) {
            return Err(ILLEGAL_INSTRUCTION);
        }
        let (src, exec_time) = match self.word_source(memory, am, CPU::DIVU) {
            Ok(v) => v,
            Err(e) => { return Err(e); },
        };
        if src == 0 {
            return Err(ZERO_DIVIDE);
        }
        let (res, sr) = divu(self.regs.sr, src, self.regs.d[reg as usize]);
        self.regs.d[reg as usize] = res;
        self.regs.sr = sr;
        Ok(exec_time)
    }

    /// CHK: raises the CHK exception if the low word of a data register is negative or greater than
    /// the operand (both signed).
    pub fn execute_chk<M: MemoryAccess + ?Sized>(&mut self, memory: &mut M, reg: u8, am: AddressingMode) -> (r: InterpreterResult)
        ensures
            spec_refusal(*old(self), *final(self), r),
            spec_same_state(*old(self), *final(self)),
            !(reg <= 7 && am.spec_wf()) ==> r == Err::<usize, u8>(ILLEGAL_INSTRUCTION) && *final(self) == *old(self),
            reg <= 7 && am.spec_wf() ==> spec_same_state(*old(self), *final(self))
                && (r matches Err(e) ==> e == ACCESS_ERROR || e == ADDRESS_ERROR || e == CHK_INSTRUCTION),
            reg <= 7 && am.spec_wf() ==> (spec_direct_operand(old(self).regs, am, Size::Word) matches Some(v) ==> final(self).regs == old(self).regs && ({
                let data = spec_signed(old(self).regs.d[reg as int] as int, Size::Word);
                let bound = spec_signed(v as int, Size::Word);
                &&& (data < 0 || data > bound) ==> r == Err::<usize, u8>(CHK_INSTRUCTION)
                &&& !(data < 0 || data > bound) ==> r == Ok::<usize, u8>(CPU::CHK_NO_TRAP.saturating_add(
                    if am is Immediate { spec_immediate_time::<CPU>(Size::Word) } else { 0 }))
            })),
            reg <= 7 && am.spec_wf() && (r is Ok || r == Err::<usize, u8>(CHK_INSTRUCTION)) ==> exists|v: u32|
                #[trigger] spec_operand_read(old(self).regs, final(self).regs, am, Size::Word, v) && ({
                    let data = spec_signed(old(self).regs.d[reg as int] as int, Size::Word);
                    (r == Err::<usize, u8>(CHK_INSTRUCTION)) == (data < 0 || data > spec_signed(v as int, Size::Word))
                }),
    {
        if !(reg <= 7 && am.is_wf()) {
            return Err(ILLEGAL_INSTRUCTION);
        }
        let (src, exec_time) = match self.word_source(memory, am, 0) {
            Ok(v) => v,
            Err(e) => { return Err(e); },
        };
        let bound = signed(src as u32, Size::Word);
        let data = signed(self.regs.d[reg as usize], Size::Word);
        if data < 0 || data > bound {
            Err(CHK_INSTRUCTION)
        } else {
            Ok(CPU::CHK_NO_TRAP.saturating_add(exec_time))
        }
    }

    /// MOVEP: moves the bytes of a data register to or from every other byte in memory, starting at
    /// `(An) + displacement`, most significant byte first.
    pub fn execute_movep<M: MemoryAccess + ?Sized>(&mut self, memory: &mut M, data: u8, dir: Direction, size: Size, addr: u8, disp: i16) -> (r: InterpreterResult)
        ensures
            spec_refusal(*old(self), *final(self), r),
            spec_same_state(*old(self), *final(self)),
            !(data <= 7 && addr <= 7 && size != Size::Byte) ==> r == Err::<usize, u8>(ILLEGAL_INSTRUCTION) && *final(self) == *old(self),
            data <= 7 && addr <= 7 && size != Size::Byte ==> spec_same_state(*old(self), *final(self))
                && (r matches Err(e) ==> e == ACCESS_ERROR),
            data <= 7 && addr <= 7 && size != Size::Byte && dir == Direction::RegisterToMemory ==> final(self).regs == old(self).regs
                && (r is Ok ==> r == Ok::<usize, u8>(if size == Size::Long { CPU::MOVEP_RTM_LONG } else { CPU::MOVEP_RTM_WORD })),
            data <= 7 && addr <= 7 && size != Size::Byte && dir != Direction::RegisterToMemory ==> final(self).regs.a == old(self).regs.a
                && final(self).regs.sr == old(self).regs.sr && final(self).regs.pc == old(self).regs.pc
                && final(self).regs.usp == old(self).regs.usp && final(self).regs.ssp == old(self).regs.ssp
                && final(self).regs.d@ == old(self).regs.d@.update(data as int, final(self).regs.d[data as int])
                && (size == Size::Word ==> final(self).regs.d[data as int] / 0x1_0000 == old(self).regs.d[data as int] / 0x1_0000)
                && (r is Ok ==> r == Ok::<usize, u8>(if size == Size::Long { CPU::MOVEP_MTR_LONG } else { CPU::MOVEP_MTR_WORD })),
            data <= 7 && addr <= 7 && size != Size::Byte && dir == Direction::RegisterToMemory && r is Ok ==> final(self).stores@
                == old(self).stores@ + spec_movep_stores(old(self).regs.d[data as int],
                    spec_wrap(old(self).regs.spec_a(addr) + disp, Size::Long), if size == Size::Word { 2 } else { 4 }, if size == Size::Word { 2 } else { 4 }),
            dir != Direction::RegisterToMemory ==> final(self).stores == old(self).stores,
            r == Err::<usize, u8>(ACCESS_ERROR) ==> final(self).refused@ == old(self).refused@.push((final(self).refused@.last().0, Size::Byte)),
            r != Err::<usize, u8>(ACCESS_ERROR) ==> final(self).refused == old(self).refused,
    {
        if !(data <= 7 && addr <= 7 && size != Size::Byte) {
            return Err(ILLEGAL_INSTRUCTION);
        }
        let count: u32 = if size == Size::Word { 2 } else { 4 };
        let mut address = add_displacement(self.regs.a(addr), disp as i64);
        let mut i: u32 = 0;
        let ghost start = address;
        if dir == Direction::RegisterToMemory {
            let value = self.regs.d[data as usize];
            while i < count
                invariant
                    i <= count,
                    count == 2 || count == 4,
                    (size == Size::Word) == (count == 2),
                    data <= 7 && addr <= 7 && size != Size::Byte,
                    self.regs == old(self).regs,
                    value == old(self).regs.d[data as int],
                    dir == Direction::RegisterToMemory,
                    start == spec_wrap(old(self).regs.spec_a(addr) + disp, Size::Long),
                    address == spec_wrap(start + i * 2, Size::Long),
                    spec_same_state(*old(self), *self),
                    self.refused == old(self).refused,
                    self.stores@ == old(self).stores@ + spec_movep_stores(value, start, count, i as int),
                decreases count - i,
            {
                let shift: u32 = 8 * (count - 1 - i);
                let byte = ((value >> shift) % 0x100) as u8;
                proof {
                    vstd::bits::lemma_u32_shr_is_div(value, shift);
                }
                let ghost stores_i = self.stores@;
                if self.write_memory(memory, address, Size::Byte, byte as u32).is_none() {
                    return Err(ACCESS_ERROR);
                }
                proof {
                    assert(self.stores@ =~= old(self).stores@ + spec_movep_stores(value, start, count, i + 1));
                    lemma_wrap_add_step(start as int, i as int, 2);
                }
                address = wrapping_add(address, 2);
                i = i + 1;
            }
            Ok(if size == Size::Long { CPU::MOVEP_RTM_LONG } else { CPU::MOVEP_RTM_WORD })
        } else {
            let mut value: u32 = if size == Size::Word { (self.regs.d[data as usize] / 0x1_0000) * 0x1_0000 } else { 0 };
            while i < count
                invariant
                    i <= count,
                    count == 2 || count == 4,
                    data <= 7 && addr <= 7 && size != Size::Byte,
                    dir != Direction::RegisterToMemory,
                    self.regs.a == old(self).regs.a,
                    self.regs.sr == old(self).regs.sr,
                    self.regs.pc == old(self).regs.pc,
                    self.regs.usp == old(self).regs.usp,
                    self.regs.ssp == old(self).regs.ssp,
                    self.regs.d@ == old(self).regs.d@.update(data as int, self.regs.d[data as int]),
                    (size == Size::Word) == (count == 2),
                    size == Size::Word ==> value / 0x1_0000 == old(self).regs.d[data as int] / 0x1_0000,
                    size == Size::Word ==> self.regs.d[data as int] / 0x1_0000 == old(self).regs.d[data as int] / 0x1_0000,
                    spec_same_state(*old(self), *self),
                    self.refused == old(self).refused,
                    self.stores == old(self).stores,
                decreases count - i,
            {
                let byte = match self.read_memory(memory, address, Size::Byte) {
                    Some(b) => b as u8,
                    None => { return Err(ACCESS_ERROR); },
                };
                let shift: u32 = 8 * (count - 1 - i);
                let ghost before = value;
                proof {
                    if count == 2 {
                        assert(shift <= 8);
                        assert((before | ((byte as u32) << shift)) / 0x1_0000 == before / 0x1_0000) by (bit_vector)
                            requires shift <= 8;
                    }
                }
                value = value | ((byte as u32) << shift);
                self.regs.d[data as usize] = value;
                address = wrapping_add(address, 2);
                i = i + 1;
            }
            Ok(if size == Size::Long { CPU::MOVEP_MTR_LONG } else { CPU::MOVEP_MTR_WORD })
        }
    }
}

/// What the execution method of each instruction that [spec_dispatch](crate::interpreter_fast::spec_dispatch)
/// does not describe itself does to the registers, when its operands are those of its instruction,
/// `old` and `opcode` being the registers and the opcode it starts from. The comparisons are in
/// [spec_compare_dispatch].
pub open spec fn spec_operand_dispatch<CPU: CpuDetails>(old: Registers, opcode: u16, new: Registers, isa: Isa, instruction: Instruction, r: InterpreterResult) -> bool {
    match (isa, instruction.operands) {
        (Isa::Abcd, Operands::RegisterSizeModeRegister(rx, _, mode, ry)) => {
            &&& !(rx <= 7 && ry <= 7) ==> r == Err::<usize, u8>(ILLEGAL_INSTRUCTION) && new == old
            &&& rx <= 7 && ry <= 7 ==> spec_access_error(r)
            &&& rx <= 7 && ry <= 7 && mode != Direction::MemoryToMemory ==> r == Ok::<usize, u8>(CPU::ABCD_REG) && ({
                let s = spec_low(old.d[ry as int], Size::Byte) as u8;
                let d = spec_low(old.d[rx as int], Size::Byte) as u8;
                spec_d_sr_set(old, new, rx,
                    spec_merge(old.d[rx as int], (spec_abcd_full(old.sr, s, d) % 0x100) as u32, Size::Byte),
                    spec_abcd_sr(old.sr, s, d))
            })
            &&& rx <= 7 && ry <= 7 && mode == Direction::MemoryToMemory && r is Ok ==> r == Ok::<usize, u8>(CPU::ABCD_MEM)
                && spec_bcd_memory_effect(old, new, false, rx, ry)
        },
        (Isa::Add, Operands::RegisterDirectionSizeEffectiveAddress(reg, dir, size, am)) => {
            &&& !spec_binary_operands_valid(reg, size, am, dir == Direction::DstEa) ==> r == Err::<usize, u8>(ILLEGAL_INSTRUCTION) && new == old
            &&& spec_binary_operands_valid(reg, size, am, dir == Direction::DstEa) && dir == Direction::DstEa ==> spec_binary_to_ea_step(old, new, r, BinaryOp::Add, spec_wrap(old.d[reg as int] as int, size), size, am,
                if size == Size::Long { CPU::ADD_MEM_L } else { CPU::ADD_MEM_BW })
            &&& spec_binary_operands_valid(reg, size, am, dir == Direction::DstEa) && dir != Direction::DstEa ==> spec_binary_to_reg_step::<CPU>(old, new, r, BinaryOp::Add, reg, size, am,
                if size == Size::Long { if am.spec_mode() <= 1 || am is Immediate { CPU::ADD_REG_L_RDIMM } else { CPU::ADD_REG_L } } else { CPU::ADD_REG_BW })
        },
        (Isa::Adda, Operands::RegisterSizeEffectiveAddress(reg, size, am)) => {
            &&& !(reg <= 7 && am.spec_wf() && size != Size::Byte) ==> r == Err::<usize, u8>(ILLEGAL_INSTRUCTION) && new == old
            &&& reg <= 7 && am.spec_wf() && size != Size::Byte ==> spec_access_error(r)
            &&& reg <= 7 && am.spec_wf() && size != Size::Byte ==> (spec_direct_operand(old, am, size) matches Some(v) ==>
                spec_a_set(old, new, reg, spec_wrap(old.spec_a(reg) + spec_sign_extend(v, size), Size::Long))
                && r is Ok)
            &&& reg <= 7 && am.spec_wf() && size != Size::Byte && r is Ok ==> spec_address_arith_effect(old, new, false, reg, size, am)
        },
        (Isa::Addi, Operands::SizeEffectiveAddressImmediate(size, am, imm)) => {
            &&& !spec_ea_operand_valid(am) ==> r == Err::<usize, u8>(ILLEGAL_INSTRUCTION) && new == old
            &&& spec_ea_operand_valid(am) ==> spec_binary_to_ea_step(old, new, r, BinaryOp::Add, spec_wrap(imm as int, size), size, am,
                if am is Drd {
                    if size == Size::Long { CPU::ADDI_REG_L } else { CPU::ADDI_REG_BW }
                } else {
                    if size == Size::Long { CPU::ADDI_MEM_L } else { CPU::ADDI_MEM_BW }
                })
        },
        (Isa::Addq, Operands::DataSizeEffectiveAddress(imm, size, am)) => {
            &&& !spec_quick_operand_valid(size, am) ==> r == Err::<usize, u8>(ILLEGAL_INSTRUCTION) && new == old
            &&& spec_quick_operand_valid(size, am) ==> (am matches AddressingMode::Ard(a) ==> r == Ok::<usize, u8>(
                    if size == Size::Long { CPU::ADDQ_REG_L } else { CPU::ADDQ_REG_BW })
                && spec_a_set(old, new, a, spec_wrap(old.spec_a(a) + spec_quick(imm), Size::Long)))
            &&& spec_quick_operand_valid(size, am) && !(am is Ard) ==> spec_binary_to_ea_step(old, new, r, BinaryOp::Add,
                spec_low(spec_quick(imm) as u32, size), size, am,
                if am is Drd {
                    if size == Size::Long { CPU::ADDQ_REG_L } else { CPU::ADDQ_REG_BW }
                } else {
                    if size == Size::Long { CPU::ADDQ_MEM_L } else { CPU::ADDQ_MEM_BW }
                })
        },
        (Isa::Addx, Operands::RegisterSizeModeRegister(rx, size, mode, ry)) => {
            &&& !(rx <= 7 && ry <= 7) ==> r == Err::<usize, u8>(ILLEGAL_INSTRUCTION) && new == old
            &&& rx <= 7 && ry <= 7 ==> spec_access_error(r)
            &&& rx <= 7 && ry <= 7 && mode != Direction::MemoryToMemory ==> r == Ok::<usize, u8>(if size == Size::Long { CPU::ADDX_REG_L } else { CPU::ADDX_REG_BW })
                && ({
                    let s = spec_low(old.d[ry as int], size);
                    let d = spec_low(old.d[rx as int], size);
                    spec_d_sr_set(old, new, rx,
                        spec_merge(old.d[rx as int], spec_add_result(old.sr, d, s, size, true), size),
                        spec_add_sr(old.sr, d, s, size, true))
                })
            &&& rx <= 7 && ry <= 7 && mode == Direction::MemoryToMemory && r is Ok ==>
                r == Ok::<usize, u8>(if size == Size::Long { CPU::ADDX_MEM_L } else { CPU::ADDX_MEM_BW })
                && spec_extended_memory_effect(old, new, false, rx, ry, size)
        },
        (Isa::And, Operands::RegisterDirectionSizeEffectiveAddress(reg, dir, size, am)) => {
            &&& !spec_binary_operands_valid(reg, size, am, dir == Direction::DstEa) ==> r == Err::<usize, u8>(ILLEGAL_INSTRUCTION) && new == old
            &&& spec_binary_operands_valid(reg, size, am, dir == Direction::DstEa) && dir == Direction::DstEa ==> spec_binary_to_ea_step(old, new, r, BinaryOp::And, spec_wrap(old.d[reg as int] as int, size), size, am,
                if size == Size::Long { CPU::AND_MEM_L } else { CPU::AND_MEM_BW })
            &&& spec_binary_operands_valid(reg, size, am, dir == Direction::DstEa) && dir != Direction::DstEa ==> spec_binary_to_reg_step::<CPU>(old, new, r, BinaryOp::And, reg, size, am,
                if size == Size::Long { if am.spec_mode() <= 1 || am is Immediate { CPU::AND_REG_L_RDIMM } else { CPU::AND_REG_L } } else { CPU::AND_REG_BW })
        },
        (Isa::Andi, Operands::SizeEffectiveAddressImmediate(size, am, imm)) => {
            &&& !spec_ea_operand_valid(am) ==> r == Err::<usize, u8>(ILLEGAL_INSTRUCTION) && new == old
            &&& spec_ea_operand_valid(am) ==> spec_binary_to_ea_step(old, new, r, BinaryOp::And, spec_wrap(imm as int, size), size, am,
                if am is Drd {
                    if size == Size::Long { CPU::ANDI_REG_L } else { CPU::ANDI_REG_BW }
                } else {
                    if size == Size::Long { CPU::ANDI_MEM_L } else { CPU::ANDI_MEM_BW }
                })
        },
        (Isa::Asm, Operands::DirectionEffectiveAddress(dir, am)) => {
            &&& !(am.spec_wf() && spec_is_memory(am)) ==> r == Err::<usize, u8>(ILLEGAL_INSTRUCTION) && new == old
            &&& am.spec_wf() && spec_is_memory(am) ==> spec_access_error(r)
                && (r is Ok ==> exists|mid: Registers, data: u32| spec_fits(data, Size::Word) && #[trigger] spec_ea_post(old, mid, am, Some(Size::Word))
                    && new == (Registers { sr: #[trigger] spec_shift_sr(ShiftKind::Arithmetic, spec_is_left(dir), Size::Word, mid.sr, data, 1), ..mid }))
        },
        (Isa::Bchg, Operands::EffectiveAddressCount(am, count)) => {
            &&& !(spec_ea_operand_valid(am) && (spec_bit(opcode, 8) ==> count <= 7)) ==> r == Err::<usize, u8>(ILLEGAL_INSTRUCTION) && new == old
            &&& spec_ea_operand_valid(am) && (spec_bit(opcode, 8) ==> count <= 7) ==> spec_access_error(r)
            &&& spec_ea_operand_valid(am) && (spec_bit(opcode, 8) ==> count <= 7) ==> (am matches AddressingMode::Drd(d) ==> r == Ok::<usize, u8>(
                    if spec_bit(opcode, 8) { CPU::BCHG_DYN_REG } else { CPU::BCHG_STA_REG }) && ({
                let n = spec_bit_number(old, opcode, count) % 32;
                let v = old.d[d as int];
                spec_d_sr_set(old, new, d, spec_bit_result(BitOp::Bchg, v, n),
                    StatusRegister { z: v & (1u32 << n) == 0, ..old.sr })
            }))
            &&& spec_ea_operand_valid(am) && (spec_bit(opcode, 8) ==> count <= 7) && !(am is Drd) && r is Ok ==>
                spec_bit_memory_effect(old, new, am, spec_bit_number(old, opcode, count))
        },
        (Isa::Bclr, Operands::EffectiveAddressCount(am, count)) => {
            &&& !(spec_ea_operand_valid(am) && (spec_bit(opcode, 8) ==> count <= 7)) ==> r == Err::<usize, u8>(ILLEGAL_INSTRUCTION) && new == old
            &&& spec_ea_operand_valid(am) && (spec_bit(opcode, 8) ==> count <= 7) ==> spec_access_error(r)
            &&& spec_ea_operand_valid(am) && (spec_bit(opcode, 8) ==> count <= 7) ==> (am matches AddressingMode::Drd(d) ==> r == Ok::<usize, u8>(
                    if spec_bit(opcode, 8) { CPU::BCLR_DYN_REG } else { CPU::BCLR_STA_REG }) && ({
                let n = spec_bit_number(old, opcode, count) % 32;
                let v = old.d[d as int];
                spec_d_sr_set(old, new, d, spec_bit_result(BitOp::Bclr, v, n),
                    StatusRegister { z: v & (1u32 << n) == 0, ..old.sr })
            }))
            &&& spec_ea_operand_valid(am) && (spec_bit(opcode, 8) ==> count <= 7) && !(am is Drd) && r is Ok ==>
                spec_bit_memory_effect(old, new, am, spec_bit_number(old, opcode, count))
        },
        (Isa::Bset, Operands::EffectiveAddressCount(am, count)) => {
            &&& !(spec_ea_operand_valid(am) && (spec_bit(opcode, 8) ==> count <= 7)) ==> r == Err::<usize, u8>(ILLEGAL_INSTRUCTION) && new == old
            &&& spec_ea_operand_valid(am) && (spec_bit(opcode, 8) ==> count <= 7) ==> spec_access_error(r)
            &&& spec_ea_operand_valid(am) && (spec_bit(opcode, 8) ==> count <= 7) ==> (am matches AddressingMode::Drd(d) ==> r == Ok::<usize, u8>(
                    if spec_bit(opcode, 8) { CPU::BSET_DYN_REG } else { CPU::BSET_STA_REG }) && ({
                let n = spec_bit_number(old, opcode, count) % 32;
                let v = old.d[d as int];
                spec_d_sr_set(old, new, d, spec_bit_result(BitOp::Bset, v, n),
                    StatusRegister { z: v & (1u32 << n) == 0, ..old.sr })
            }))
            &&& spec_ea_operand_valid(am) && (spec_bit(opcode, 8) ==> count <= 7) && !(am is Drd) && r is Ok ==>
                spec_bit_memory_effect(old, new, am, spec_bit_number(old, opcode, count))
        },
        (Isa::Bsr, Operands::Displacement(disp)) => {
            let pc = spec_wrap(instruction.pc + 2, Size::Long);
            &&& spec_access_error(r)
            &&& old.spec_sp() % 2 == 1 ==> r == Err::<usize, u8>(ADDRESS_ERROR)
            &&& r is Ok ==> r == Ok::<usize, u8>(if opcode % 0x100 == 0 { CPU::BSR_WORD } else { CPU::BSR_BYTE })
                && new.pc == spec_wrap(pc + disp, Size::Long)
                && new.spec_sp() == spec_wrap(old.spec_sp() - 4, Size::Long)
        },
        (Isa::Btst, Operands::EffectiveAddressCount(am, count)) => {
            &&& !((spec_ea_operand_valid(am) || (am.spec_wf() && !(am is Ard))) && (spec_bit(opcode, 8) ==> count <= 7)) ==> r == Err::<usize, u8>(ILLEGAL_INSTRUCTION) && new == old
            &&& (spec_ea_operand_valid(am) || (am.spec_wf() && !(am is Ard))) && (spec_bit(opcode, 8) ==> count <= 7) ==> spec_access_error(r)
            &&& (spec_ea_operand_valid(am) || (am.spec_wf() && !(am is Ard))) && (spec_bit(opcode, 8) ==> count <= 7) ==> (am matches AddressingMode::Drd(d) ==> r == Ok::<usize, u8>(
                    if spec_bit(opcode, 8) { CPU::BTST_DYN_REG } else { CPU::BTST_STA_REG }) && ({
                let n = spec_bit_number(old, opcode, count) % 32;
                let v = old.d[d as int];
                spec_d_sr_set(old, new, d, spec_bit_result(BitOp::Btst, v, n),
                    StatusRegister { z: v & (1u32 << n) == 0, ..old.sr })
            }))
            &&& (spec_ea_operand_valid(am) || (am.spec_wf() && !(am is Ard))) && (spec_bit(opcode, 8) ==> count <= 7) && !(am is Drd) && r is Ok ==>
                spec_bit_memory_effect(old, new, am, spec_bit_number(old, opcode, count))
        },
        (Isa::Chk, Operands::RegisterEffectiveAddress(reg, am)) => {
            &&& !(reg <= 7 && am.spec_wf()) ==> r == Err::<usize, u8>(ILLEGAL_INSTRUCTION) && new == old
            &&& reg <= 7 && am.spec_wf() ==> (r matches Err(e) ==> e == ACCESS_ERROR || e == ADDRESS_ERROR || e == CHK_INSTRUCTION)
            &&& reg <= 7 && am.spec_wf() ==> (spec_direct_operand(old, am, Size::Word) matches Some(v) ==> new == old && ({
                let data = spec_signed(old.d[reg as int] as int, Size::Word);
                let bound = spec_signed(v as int, Size::Word);
                &&& (data < 0 || data > bound) ==> r == Err::<usize, u8>(CHK_INSTRUCTION)
                &&& !(data < 0 || data > bound) ==> r == Ok::<usize, u8>(CPU::CHK_NO_TRAP.saturating_add(
                    if am is Immediate { spec_immediate_time::<CPU>(Size::Word) } else { 0 }))
            }))
            &&& reg <= 7 && am.spec_wf() && (r is Ok || r == Err::<usize, u8>(CHK_INSTRUCTION)) ==> exists|v: u32|
                #[trigger] spec_operand_read(old, new, am, Size::Word, v) && ({
                    let data = spec_signed(old.d[reg as int] as int, Size::Word);
                    (r == Err::<usize, u8>(CHK_INSTRUCTION)) == (data < 0 || data > spec_signed(v as int, Size::Word))
                })
        },
        (Isa::Clr, Operands::SizeEffectiveAddress(size, am)) => {
            &&& !spec_ea_operand_valid(am) ==> r == Err::<usize, u8>(ILLEGAL_INSTRUCTION) && new == old
            &&& spec_ea_operand_valid(am) ==> spec_unary_step(old, new, r, UnaryOp::Clr, size, am,
                spec_single_operand_time(size == Size::Long, am is Drd, CPU::CLR_REG_BW, CPU::CLR_REG_L, CPU::CLR_MEM_BW, CPU::CLR_MEM_L))
        },
        (Isa::Divs, Operands::RegisterEffectiveAddress(reg, am)) => {
            &&& !(reg <= 7 && am.spec_wf()) ==> r == Err::<usize, u8>(ILLEGAL_INSTRUCTION) && new == old
            &&& reg <= 7 && am.spec_wf() ==> (r matches Err(e) ==> e == ACCESS_ERROR || e == ADDRESS_ERROR || e == ZERO_DIVIDE)
            &&& reg <= 7 && am.spec_wf() ==> (spec_direct_operand(old, am, Size::Word) matches Some(v) ==> (
                v == 0 ==> r == Err::<usize, u8>(ZERO_DIVIDE) && new == old) && (
                v != 0 ==> r is Ok && spec_d_sr_set(old, new, reg, spec_divs(v as u16, old.d[reg as int]),
                    spec_divs_sr(old.sr, v as u16, old.d[reg as int]))))
            &&& reg <= 7 && am.spec_wf() && r is Ok ==> exists|read: Registers, v: u32|
                #[trigger] spec_operand_read(old, read, am, Size::Word, v) && v != 0
                && spec_d_sr_set(read, new, reg, spec_divs(v as u16, old.d[reg as int]),
                    spec_divs_sr(old.sr, v as u16, old.d[reg as int]))
            &&& reg <= 7 && am.spec_wf() && r == Err::<usize, u8>(ZERO_DIVIDE) ==> spec_operand_read(old, new, am, Size::Word, 0)
        },
        (Isa::Divu, Operands::RegisterEffectiveAddress(reg, am)) => {
            &&& !(reg <= 7 && am.spec_wf()) ==> r == Err::<usize, u8>(ILLEGAL_INSTRUCTION) && new == old
            &&& reg <= 7 && am.spec_wf() ==> (r matches Err(e) ==> e == ACCESS_ERROR || e == ADDRESS_ERROR || e == ZERO_DIVIDE)
            &&& reg <= 7 && am.spec_wf() ==> (spec_direct_operand(old, am, Size::Word) matches Some(v) ==> (
                v == 0 ==> r == Err::<usize, u8>(ZERO_DIVIDE) && new == old) && (
                v != 0 ==> r is Ok && spec_d_sr_set(old, new, reg, spec_divu(v as u16, old.d[reg as int]),
                    spec_divu_sr(old.sr, v as u16, old.d[reg as int]))))
            &&& reg <= 7 && am.spec_wf() && r is Ok ==> exists|read: Registers, v: u32|
                #[trigger] spec_operand_read(old, read, am, Size::Word, v) && v != 0
                && spec_d_sr_set(read, new, reg, spec_divu(v as u16, old.d[reg as int]),
                    spec_divu_sr(old.sr, v as u16, old.d[reg as int]))
            &&& reg <= 7 && am.spec_wf() && r == Err::<usize, u8>(ZERO_DIVIDE) ==> spec_operand_read(old, new, am, Size::Word, 0)
        },
        (Isa::Eor, Operands::RegisterDirectionSizeEffectiveAddress(reg, _, size, am)) => {
            &&& !(reg <= 7 && spec_ea_operand_valid(am)) ==> r == Err::<usize, u8>(ILLEGAL_INSTRUCTION) && new == old
            &&& reg <= 7 && spec_ea_operand_valid(am) ==> spec_binary_to_ea_step(old, new, r, BinaryOp::Eor, spec_wrap(old.d[reg as int] as int, size), size, am,
                if am is Drd {
                    if size == Size::Long { CPU::EOR_REG_L } else { CPU::EOR_REG_BW }
                } else {
                    if size == Size::Long { CPU::EOR_MEM_L } else { CPU::EOR_MEM_BW }
                })
        },
        (Isa::Eori, Operands::SizeEffectiveAddressImmediate(size, am, imm)) => {
            &&& !spec_ea_operand_valid(am) ==> r == Err::<usize, u8>(ILLEGAL_INSTRUCTION) && new == old
            &&& spec_ea_operand_valid(am) ==> spec_binary_to_ea_step(old, new, r, BinaryOp::Eor, spec_wrap(imm as int, size), size, am,
                if am is Drd {
                    if size == Size::Long { CPU::EORI_REG_L } else { CPU::EORI_REG_BW }
                } else {
                    if size == Size::Long { CPU::EORI_MEM_L } else { CPU::EORI_MEM_BW }
                })
        },
        (Isa::Jsr, Operands::EffectiveAddress(am)) => {
            &&& !spec_is_control(am) ==> r == Err::<usize, u8>(ILLEGAL_INSTRUCTION) && new == old
            &&& spec_is_control(am) ==> spec_access_error(r)
            &&& spec_is_control(am) && r is Ok ==> r == Ok::<usize, u8>(spec_control_time(am, CPU::JSR_ARI, CPU::JSR_ARIWD, CPU::JSR_ARIWI8,
                    CPU::JSR_ABSSHORT, CPU::JSR_ABSLONG, CPU::JSR_PCIWD, CPU::JSR_PCIWI8))
                && new.spec_sp() == spec_wrap(old.spec_sp() - 4, Size::Long)
            &&& spec_is_control(am) ==> exists|pushed: Registers|
                #[trigger] spec_a_set(old, pushed, 7, spec_wrap32(old.spec_sp() - 4))
                && (r is Ok ==> new == Registers { pc: spec_ea_address(pushed, am, None), ..pushed })
                && (r is Err ==> new == pushed)
        },
        (Isa::Link, Operands::RegisterDisplacement(reg, disp)) => {
            &&& reg > 7 ==> r == Err::<usize, u8>(ILLEGAL_INSTRUCTION) && new == old
            &&& reg <= 7 ==> spec_access_error(r)
            &&& reg <= 7 && r is Ok ==> r == Ok::<usize, u8>(CPU::LINK)
                && new.spec_sp() == spec_wrap(spec_wrap(old.spec_sp() - 4, Size::Long) + disp, Size::Long)
            &&& reg < 7 && r is Ok ==> new.spec_a(reg) == spec_wrap(old.spec_sp() - 4, Size::Long)
            &&& reg <= 7 && r is Ok ==> exists|pushed: Registers, linked: Registers|
                #[trigger] spec_a_set(old, pushed, 7, spec_wrap32(old.spec_sp() - 4))
                && #[trigger] spec_a_set(pushed, linked, reg, pushed.spec_sp())
                && spec_a_set(linked, new, 7, spec_wrap32(linked.spec_sp() + disp))
        },
        (Isa::Lsm, Operands::DirectionEffectiveAddress(dir, am)) => {
            &&& !(am.spec_wf() && spec_is_memory(am)) ==> r == Err::<usize, u8>(ILLEGAL_INSTRUCTION) && new == old
            &&& am.spec_wf() && spec_is_memory(am) ==> spec_access_error(r)
                && (r is Ok ==> exists|mid: Registers, data: u32| spec_fits(data, Size::Word) && #[trigger] spec_ea_post(old, mid, am, Some(Size::Word))
                    && new == (Registers { sr: #[trigger] spec_shift_sr(ShiftKind::Logical, spec_is_left(dir), Size::Word, mid.sr, data, 1), ..mid }))
        },
        (Isa::Move, Operands::SizeEffectiveAddressEffectiveAddress(size, dst, src)) => {
            let amdst = dst;
            let amsrc = src;
            &&& !spec_move_valid(size, amdst, amsrc) ==> r == Err::<usize, u8>(ILLEGAL_INSTRUCTION) && new == old
            &&& spec_move_valid(size, amdst, amsrc) ==> spec_access_error(r)
            &&& spec_move_valid(size, amdst, amsrc) ==> (spec_direct_operand(old, amsrc, size) matches Some(v) ==>
                (amdst matches AddressingMode::Drd(d) ==> r == Ok::<usize, u8>(
                    if amsrc is Immediate { CPU::MOVE_OTHER.saturating_add(spec_immediate_time::<CPU>(size)) } else { CPU::MOVE_OTHER })
                && spec_d_sr_set(old, new, d, spec_merge(old.d[d as int], v, size), spec_logic_sr(old.sr, v, size))))
            &&& spec_move_valid(size, amdst, amsrc) && r is Ok ==> exists|read: Registers, written: Registers, v: u32|
                #[trigger] spec_operand_read(old, read, amsrc, size, v)
                && #[trigger] spec_operand_written(read, written, amdst, size, v)
                && new == (Registers { sr: spec_logic_sr(old.sr, v, size), ..written })
        },
        (Isa::Movea, Operands::SizeRegisterEffectiveAddress(size, reg, am)) => {
            &&& !(reg <= 7 && am.spec_wf() && size != Size::Byte) ==> r == Err::<usize, u8>(ILLEGAL_INSTRUCTION) && new == old
            &&& reg <= 7 && am.spec_wf() && size != Size::Byte ==> spec_access_error(r)
            &&& reg <= 7 && am.spec_wf() && size != Size::Byte ==> (spec_direct_operand(old, am, size) matches Some(v) ==>
                r is Ok && spec_a_set(old, new, reg, spec_sign_extend(v, size)))
            &&& reg <= 7 && am.spec_wf() && size != Size::Byte && r is Ok ==> exists|read: Registers, v: u32|
                #[trigger] spec_operand_read(old, read, am, size, v)
                && spec_a_set(read, new, reg, spec_sign_extend(v, size))
        },
        (Isa::Moveccr, Operands::EffectiveAddress(am)) => {
            &&& !am.spec_wf() ==> r == Err::<usize, u8>(ILLEGAL_INSTRUCTION) && new == old
            &&& am.spec_wf() ==> spec_access_error(r)
            &&& am.spec_wf() ==> (spec_direct_operand(old, am, Size::Word) matches Some(v) ==> r is Ok
                && new == (Registers { sr: spec_set_ccr(old.sr, v as u16), ..old }))
            &&& am.spec_wf() && r is Ok ==> exists|read: Registers, v: u32|
                #[trigger] spec_operand_read(old, read, am, Size::Word, v)
                && new == (Registers { sr: spec_set_ccr(old.sr, v as u16), ..read })
        },
        (Isa::Movefsr, Operands::EffectiveAddress(am)) => {
            &&& !spec_ea_operand_valid(am) ==> r == Err::<usize, u8>(ILLEGAL_INSTRUCTION) && new == old
            &&& spec_ea_operand_valid(am) ==> spec_access_error(r)
            &&& spec_ea_operand_valid(am) ==> (am matches AddressingMode::Drd(d) ==> r == Ok::<usize, u8>(CPU::MOVEFSR_REG)
                && spec_d_set(old, new, d, spec_merge(old.d[d as int], spec_to_raw(old.sr) as u32, Size::Word)))
            &&& spec_ea_operand_valid(am) && r is Ok ==> spec_operand_written(old, new, am, Size::Word,
                spec_to_raw(old.sr) as u32)
        },
        (Isa::Movesr, Operands::EffectiveAddress(am)) => {
            &&& !am.spec_wf() ==> r == Err::<usize, u8>(ILLEGAL_INSTRUCTION) && new == old
            &&& am.spec_wf() && !old.sr.s ==> r == Err::<usize, u8>(PRIVILEGE_VIOLATION) && new == old
            &&& am.spec_wf() && old.sr.s ==> spec_access_error(r) && (spec_direct_operand(old, am, Size::Word) matches Some(v) ==> r is Ok
                && new == (Registers { sr: spec_from_raw(v as u16), ..old }))
            &&& am.spec_wf() && r is Ok ==> exists|read: Registers, v: u32|
                #[trigger] spec_operand_read(old, read, am, Size::Word, v)
                && new == (Registers { sr: spec_from_raw(v as u16), ..read })
        },
        (Isa::Movem, Operands::DirectionSizeEffectiveAddressList(dir, size, am, list)) => {
            &&& !spec_movem_valid(size, am) ==> r == Err::<usize, u8>(ILLEGAL_INSTRUCTION) && new == old
            &&& spec_movem_valid(size, am) ==> spec_access_error(r)
            &&& spec_movem_valid(size, am) && r is Ok ==> r == Ok::<usize, u8>(spec_movem_time::<CPU>(dir, size, am, list))
            &&& spec_movem_valid(size, am) && r is Ok ==> (am matches AddressingMode::Ariwpr(ar) ==> spec_a_set(old, new, ar,
                spec_wrap(old.spec_a(ar) - spec_popcount(list) * spec_size_bytes(size), Size::Long)))
            &&& spec_movem_valid(size, am) && r is Ok && dir == Direction::MemoryToRegister ==> (am matches AddressingMode::Ariwpo(ar) ==>
                new.spec_a(ar) == spec_wrap(old.spec_a(ar) + spec_popcount(list) * spec_size_bytes(size), Size::Long))
            &&& spec_movem_valid(size, am) && r is Ok && !(am is Ariwpr) && !(am is Ariwpo) && dir != Direction::MemoryToRegister ==>
                new == old
            &&& spec_movem_valid(size, am) && !(am is Ariwpr) && dir == Direction::MemoryToRegister ==>
                new.sr == old.sr && new.pc == old.pc
                && forall|j: int| 0 <= j < 8 && (list as int / #[trigger] spec_pow2_16(j)) % 2 == 0 ==> new.d[j] == old.d[j]
            &&& spec_movem_valid(size, am) && !(am is Ariwpr) && dir == Direction::MemoryToRegister ==>
                (old.sr.s ==> new.usp == old.usp)
                && (!old.sr.s ==> new.ssp == old.ssp)
                && forall|j: u8| j < 8 && (list as int / spec_pow2_16(j as int + 8)) % 2 == 0 && !(am matches AddressingMode::Ariwpo(ar) && ar == j)
                    ==> #[trigger] new.spec_a(j) == old.spec_a(j)
        },
        (Isa::Movep, Operands::RegisterDirectionSizeRegisterDisplacement(dreg, dir, size, areg, disp)) => {
            let data = dreg;
            let addr = areg;
            &&& !(data <= 7 && addr <= 7 && size != Size::Byte) ==> r == Err::<usize, u8>(ILLEGAL_INSTRUCTION) && new == old
            &&& data <= 7 && addr <= 7 && size != Size::Byte ==> (r matches Err(e) ==> e == ACCESS_ERROR)
            &&& data <= 7 && addr <= 7 && size != Size::Byte && dir == Direction::RegisterToMemory ==> new == old
                && (r is Ok ==> r == Ok::<usize, u8>(if size == Size::Long { CPU::MOVEP_RTM_LONG } else { CPU::MOVEP_RTM_WORD }))
            &&& data <= 7 && addr <= 7 && size != Size::Byte && dir != Direction::RegisterToMemory ==> new.a == old.a
                && new.sr == old.sr && new.pc == old.pc
                && new.usp == old.usp && new.ssp == old.ssp
                && new.d@ == old.d@.update(data as int, new.d[data as int])
                && (size == Size::Word ==> new.d[data as int] / 0x1_0000 == old.d[data as int] / 0x1_0000)
                && (r is Ok ==> r == Ok::<usize, u8>(if size == Size::Long { CPU::MOVEP_MTR_LONG } else { CPU::MOVEP_MTR_WORD }))
        },
        (Isa::Muls, Operands::RegisterEffectiveAddress(reg, am)) => {
            &&& !(reg <= 7 && am.spec_wf()) ==> r == Err::<usize, u8>(ILLEGAL_INSTRUCTION) && new == old
            &&& reg <= 7 && am.spec_wf() ==> spec_access_error(r)
            &&& reg <= 7 && am.spec_wf() ==> (spec_direct_operand(old, am, Size::Word) matches Some(v) ==> r is Ok && ({
                let p = spec_muls(v as u16, old.d[reg as int]);
                spec_d_sr_set(old, new, reg, spec_wrap(p, Size::Long),
                    StatusRegister { n: p < 0, z: p == 0, v: false, c: false, ..old.sr })
            }))
            &&& reg <= 7 && am.spec_wf() && r is Ok ==> exists|read: Registers, v: u32|
                #[trigger] spec_operand_read(old, read, am, Size::Word, v) && ({
                    let p = spec_muls(v as u16, old.d[reg as int]);
                    spec_d_sr_set(read, new, reg, spec_wrap(p, Size::Long),
                        StatusRegister { n: p < 0, z: p == 0, v: false, c: false, ..old.sr })
                })
        },
        (Isa::Mulu, Operands::RegisterEffectiveAddress(reg, am)) => {
            &&& !(reg <= 7 && am.spec_wf()) ==> r == Err::<usize, u8>(ILLEGAL_INSTRUCTION) && new == old
            &&& reg <= 7 && am.spec_wf() ==> spec_access_error(r)
            &&& reg <= 7 && am.spec_wf() ==> (spec_direct_operand(old, am, Size::Word) matches Some(v) ==> r is Ok && ({
                let p = spec_mulu(v as u16, old.d[reg as int]) as u32;
                spec_d_sr_set(old, new, reg, p, spec_logic_sr(old.sr, p, Size::Long))
            }))
            &&& reg <= 7 && am.spec_wf() && r is Ok ==> exists|read: Registers, v: u32|
                #[trigger] spec_operand_read(old, read, am, Size::Word, v) && ({
                    let p = spec_mulu(v as u16, old.d[reg as int]) as u32;
                    spec_d_sr_set(read, new, reg, p, spec_logic_sr(old.sr, p, Size::Long))
                })
        },
        (Isa::Nbcd, Operands::EffectiveAddress(am)) => {
            &&& !spec_ea_operand_valid(am) ==> r == Err::<usize, u8>(ILLEGAL_INSTRUCTION) && new == old
            &&& spec_ea_operand_valid(am) ==> spec_unary_step(old, new, r, UnaryOp::Nbcd, Size::Byte, am,
                if am is Drd { CPU::NBCD_REG } else { CPU::NBCD_MEM })
        },
        (Isa::Neg, Operands::SizeEffectiveAddress(size, am)) => {
            &&& !spec_ea_operand_valid(am) ==> r == Err::<usize, u8>(ILLEGAL_INSTRUCTION) && new == old
            &&& spec_ea_operand_valid(am) ==> spec_unary_step(old, new, r, UnaryOp::Neg, size, am,
                spec_single_operand_time(size == Size::Long, am is Drd, CPU::NEG_REG_BW, CPU::NEG_REG_L, CPU::NEG_MEM_BW, CPU::NEG_MEM_L))
        },
        (Isa::Negx, Operands::SizeEffectiveAddress(size, am)) => {
            &&& !spec_ea_operand_valid(am) ==> r == Err::<usize, u8>(ILLEGAL_INSTRUCTION) && new == old
            &&& spec_ea_operand_valid(am) ==> spec_unary_step(old, new, r, UnaryOp::Negx, size, am,
                spec_single_operand_time(size == Size::Long, am is Drd, CPU::NEGX_REG_BW, CPU::NEGX_REG_L, CPU::NEGX_MEM_BW, CPU::NEGX_MEM_L))
        },
        (Isa::Not, Operands::SizeEffectiveAddress(size, am)) => {
            &&& !spec_ea_operand_valid(am) ==> r == Err::<usize, u8>(ILLEGAL_INSTRUCTION) && new == old
            &&& spec_ea_operand_valid(am) ==> spec_unary_step(old, new, r, UnaryOp::Not, size, am,
                spec_single_operand_time(size == Size::Long, am is Drd, CPU::NOT_REG_BW, CPU::NOT_REG_L, CPU::NOT_MEM_BW, CPU::NOT_MEM_L))
        },
        (Isa::Or, Operands::RegisterDirectionSizeEffectiveAddress(reg, dir, size, am)) => {
            &&& !spec_binary_operands_valid(reg, size, am, dir == Direction::DstEa) ==> r == Err::<usize, u8>(ILLEGAL_INSTRUCTION) && new == old
            &&& spec_binary_operands_valid(reg, size, am, dir == Direction::DstEa) && dir == Direction::DstEa ==> spec_binary_to_ea_step(old, new, r, BinaryOp::Or, spec_wrap(old.d[reg as int] as int, size), size, am,
                if size == Size::Long { CPU::OR_MEM_L } else { CPU::OR_MEM_BW })
            &&& spec_binary_operands_valid(reg, size, am, dir == Direction::DstEa) && dir != Direction::DstEa ==> spec_binary_to_reg_step::<CPU>(old, new, r, BinaryOp::Or, reg, size, am,
                if size == Size::Long { if am.spec_mode() <= 1 || am is Immediate { CPU::OR_REG_L_RDIMM } else { CPU::OR_REG_L } } else { CPU::OR_REG_BW })
        },
        (Isa::Ori, Operands::SizeEffectiveAddressImmediate(size, am, imm)) => {
            &&& !spec_ea_operand_valid(am) ==> r == Err::<usize, u8>(ILLEGAL_INSTRUCTION) && new == old
            &&& spec_ea_operand_valid(am) ==> spec_binary_to_ea_step(old, new, r, BinaryOp::Or, spec_wrap(imm as int, size), size, am,
                if am is Drd {
                    if size == Size::Long { CPU::ORI_REG_L } else { CPU::ORI_REG_BW }
                } else {
                    if size == Size::Long { CPU::ORI_MEM_L } else { CPU::ORI_MEM_BW }
                })
        },
        (Isa::Pea, Operands::EffectiveAddress(am)) => {
            &&& !spec_is_control(am) ==> r == Err::<usize, u8>(ILLEGAL_INSTRUCTION) && new == old
            &&& spec_is_control(am) ==> spec_access_error(r)
                && spec_a_set(old, new, 7, spec_wrap(old.spec_sp() - 4, Size::Long))
            &&& spec_is_control(am) && r is Ok ==> r == Ok::<usize, u8>(spec_control_time(am, CPU::PEA_ARI, CPU::PEA_ARIWD, CPU::PEA_ARIWI8,
                    CPU::PEA_ABSSHORT, CPU::PEA_ABSLONG, CPU::PEA_PCIWD, CPU::PEA_PCIWI8))
        },
        (Isa::Rom, Operands::DirectionEffectiveAddress(dir, am)) => {
            &&& !(am.spec_wf() && spec_is_memory(am)) ==> r == Err::<usize, u8>(ILLEGAL_INSTRUCTION) && new == old
            &&& am.spec_wf() && spec_is_memory(am) ==> spec_access_error(r)
                && (r is Ok ==> exists|mid: Registers, data: u32| spec_fits(data, Size::Word) && #[trigger] spec_ea_post(old, mid, am, Some(Size::Word))
                    && new == (Registers { sr: #[trigger] spec_shift_sr(ShiftKind::Rotate, spec_is_left(dir), Size::Word, mid.sr, data, 1), ..mid }))
        },
        (Isa::Roxm, Operands::DirectionEffectiveAddress(dir, am)) => {
            &&& !(am.spec_wf() && spec_is_memory(am)) ==> r == Err::<usize, u8>(ILLEGAL_INSTRUCTION) && new == old
            &&& am.spec_wf() && spec_is_memory(am) ==> spec_access_error(r)
                && (r is Ok ==> exists|mid: Registers, data: u32| spec_fits(data, Size::Word) && #[trigger] spec_ea_post(old, mid, am, Some(Size::Word))
                    && new == (Registers { sr: #[trigger] spec_shift_sr(ShiftKind::RotateExtend, spec_is_left(dir), Size::Word, mid.sr, data, 1), ..mid }))
        },
        (Isa::Rte, Operands::NoOperands) => {
            &&& !old.sr.s ==> r == Err::<usize, u8>(PRIVILEGE_VIOLATION) && new == old
            &&& old.sr.s ==> (r matches Err(e) ==> e == ACCESS_ERROR || e == ADDRESS_ERROR || e == FORMAT_ERROR)
            &&& old.sr.s && CPU::STACK_FORMAT == StackFormat::MC68000 && r is Ok ==> r == Ok::<usize, u8>(CPU::RTE)
            &&& old.sr.s && r is Ok ==> new.d == old.d && new.a == old.a
                && new.usp == old.usp
                && (exists|w: u16| #[trigger] spec_from_raw(w) == new.sr)
                && (CPU::STACK_FORMAT == StackFormat::MC68000 ==> new.ssp == spec_wrap32(old.ssp + 6))
                && (CPU::STACK_FORMAT == StackFormat::SCC68070 ==> new.ssp == spec_wrap32(old.ssp + 8)
                    || (new.ssp == spec_wrap32(spec_wrap32(old.ssp + 8) + 26) && r == Ok::<usize, u8>(CPU::RTE.saturating_add(101))))
        },
        (Isa::Rtr, Operands::NoOperands) => {
            &&& spec_access_error(r)
            &&& r is Ok ==> r == Ok::<usize, u8>(CPU::RTR) && new.d == old.d
                && new.sr.t == old.sr.t && new.sr.s == old.sr.s
                && new.sr.interrupt_mask == old.sr.interrupt_mask
            &&& r is Ok ==> exists|ccr_popped: Registers, pc_popped: Registers, ccr: u16|
                #[trigger] spec_a_set(old, ccr_popped, 7, spec_wrap32(old.spec_sp() + 2))
                && #[trigger] spec_a_set((Registers { sr: spec_set_ccr(old.sr, ccr), ..ccr_popped }), pc_popped, 7,
                    spec_wrap32(ccr_popped.spec_sp() + 4))
                && new == (Registers { pc: new.pc, ..pc_popped })
        },
        (Isa::Rts, Operands::NoOperands) => {
            &&& spec_access_error(r)
            &&& r is Ok ==> r == Ok::<usize, u8>(CPU::RTS) && new.spec_sp() == spec_wrap(old.spec_sp() + 4, Size::Long)
                && new.sr == old.sr && new.d == old.d
            &&& r is Ok ==> exists|popped: Registers|
                #[trigger] spec_a_set(old, popped, 7, spec_wrap32(old.spec_sp() + 4))
                && new == (Registers { pc: new.pc, ..popped })
        },
        (Isa::Sbcd, Operands::RegisterSizeModeRegister(ry, _, mode, rx)) => {
            &&& !(rx <= 7 && ry <= 7) ==> r == Err::<usize, u8>(ILLEGAL_INSTRUCTION) && new == old
            &&& rx <= 7 && ry <= 7 ==> spec_access_error(r)
            &&& rx <= 7 && ry <= 7 && mode != Direction::MemoryToMemory ==> r == Ok::<usize, u8>(CPU::SBCD_REG) && ({
                let s = spec_low(old.d[rx as int], Size::Byte) as u8;
                let d = spec_low(old.d[ry as int], Size::Byte) as u8;
                spec_d_sr_set(old, new, ry,
                    spec_merge(old.d[ry as int], spec_sbcd_result(old.sr, s, d) as u32, Size::Byte),
                    spec_sbcd_sr(old.sr, s, d))
            })
            &&& rx <= 7 && ry <= 7 && mode == Direction::MemoryToMemory && r is Ok ==> r == Ok::<usize, u8>(CPU::SBCD_MEM)
                && spec_bcd_memory_effect(old, new, true, ry, rx)
        },
        (Isa::Scc, Operands::ConditionEffectiveAddress(cc, am)) => {
            &&& !(cc < 16 && spec_ea_operand_valid(am)) ==> r == Err::<usize, u8>(ILLEGAL_INSTRUCTION) && new == old
            &&& cc < 16 && spec_ea_operand_valid(am) ==> spec_access_error(r)
            &&& cc < 16 && spec_ea_operand_valid(am) ==> (am matches AddressingMode::Drd(d) ==> r == Ok::<usize, u8>(
                    spec_single_operand_time(spec_condition(old.sr, cc), true, CPU::SCC_REG_FALSE, CPU::SCC_REG_TRUE, CPU::SCC_MEM_FALSE, CPU::SCC_MEM_TRUE))
                && spec_d_set(old, new, d,
                    spec_merge(old.d[d as int], if spec_condition(old.sr, cc) { 0xFF } else { 0 }, Size::Byte)))
            &&& cc < 16 && spec_ea_operand_valid(am) && r is Ok ==> spec_operand_written(old, new, am, Size::Byte,
                if spec_condition(old.sr, cc) { 0xFF } else { 0 })
        },
        (Isa::Sub, Operands::RegisterDirectionSizeEffectiveAddress(reg, dir, size, am)) => {
            &&& !spec_binary_operands_valid(reg, size, am, dir == Direction::DstEa) ==> r == Err::<usize, u8>(ILLEGAL_INSTRUCTION) && new == old
            &&& spec_binary_operands_valid(reg, size, am, dir == Direction::DstEa) && dir == Direction::DstEa ==> spec_binary_to_ea_step(old, new, r, BinaryOp::Sub, spec_wrap(old.d[reg as int] as int, size), size, am,
                if size == Size::Long { CPU::SUB_MEM_L } else { CPU::SUB_MEM_BW })
            &&& spec_binary_operands_valid(reg, size, am, dir == Direction::DstEa) && dir != Direction::DstEa ==> spec_binary_to_reg_step::<CPU>(old, new, r, BinaryOp::Sub, reg, size, am,
                if size == Size::Long { if am.spec_mode() <= 1 || am is Immediate { CPU::SUB_REG_L_RDIMM } else { CPU::SUB_REG_L } } else { CPU::SUB_REG_BW })
        },
        (Isa::Suba, Operands::RegisterSizeEffectiveAddress(reg, size, am)) => {
            &&& !(reg <= 7 && am.spec_wf() && size != Size::Byte) ==> r == Err::<usize, u8>(ILLEGAL_INSTRUCTION) && new == old
            &&& reg <= 7 && am.spec_wf() && size != Size::Byte ==> spec_access_error(r)
            &&& reg <= 7 && am.spec_wf() && size != Size::Byte ==> (spec_direct_operand(old, am, size) matches Some(v) ==>
                spec_a_set(old, new, reg, spec_wrap(old.spec_a(reg) - spec_sign_extend(v, size), Size::Long))
                && r is Ok)
            &&& reg <= 7 && am.spec_wf() && size != Size::Byte && r is Ok ==> spec_address_arith_effect(old, new, true, reg, size, am)
        },
        (Isa::Subi, Operands::SizeEffectiveAddressImmediate(size, am, imm)) => {
            &&& !spec_ea_operand_valid(am) ==> r == Err::<usize, u8>(ILLEGAL_INSTRUCTION) && new == old
            &&& spec_ea_operand_valid(am) ==> spec_binary_to_ea_step(old, new, r, BinaryOp::Sub, spec_wrap(imm as int, size), size, am,
                if am is Drd {
                    if size == Size::Long { CPU::SUBI_REG_L } else { CPU::SUBI_REG_BW }
                } else {
                    if size == Size::Long { CPU::SUBI_MEM_L } else { CPU::SUBI_MEM_BW }
                })
        },
        (Isa::Subq, Operands::DataSizeEffectiveAddress(imm, size, am)) => {
            &&& !spec_quick_operand_valid(size, am) ==> r == Err::<usize, u8>(ILLEGAL_INSTRUCTION) && new == old
            &&& spec_quick_operand_valid(size, am) ==> (am matches AddressingMode::Ard(a) ==> r == Ok::<usize, u8>(
                    if size == Size::Long { CPU::SUBQ_REG_L } else { CPU::SUBQ_AREG_BW })
                && spec_a_set(old, new, a, spec_wrap(old.spec_a(a) - spec_quick(imm), Size::Long)))
            &&& spec_quick_operand_valid(size, am) && !(am is Ard) ==> spec_binary_to_ea_step(old, new, r, BinaryOp::Sub,
                spec_low(spec_quick(imm) as u32, size), size, am,
                if am is Drd {
                    if size == Size::Long { CPU::SUBQ_REG_L } else { CPU::SUBQ_DREG_BW }
                } else {
                    if size == Size::Long { CPU::SUBQ_MEM_L } else { CPU::SUBQ_MEM_BW }
                })
        },
        (Isa::Subx, Operands::RegisterSizeModeRegister(ry, size, mode, rx)) => {
            &&& !(rx <= 7 && ry <= 7) ==> r == Err::<usize, u8>(ILLEGAL_INSTRUCTION) && new == old
            &&& rx <= 7 && ry <= 7 ==> spec_access_error(r)
            &&& rx <= 7 && ry <= 7 && mode != Direction::MemoryToMemory ==> r == Ok::<usize, u8>(if size == Size::Long { CPU::SUBX_REG_L } else { CPU::SUBX_REG_BW })
                && ({
                    let s = spec_low(old.d[rx as int], size);
                    let d = spec_low(old.d[ry as int], size);
                    spec_d_sr_set(old, new, ry,
                        spec_merge(old.d[ry as int], spec_sub_result(old.sr, d, s, size, true), size),
                        spec_sub_sr(old.sr, d, s, size, true, false))
                })
            &&& rx <= 7 && ry <= 7 && mode == Direction::MemoryToMemory && r is Ok ==>
                r == Ok::<usize, u8>(if size == Size::Long { CPU::SUBX_MEM_L } else { CPU::SUBX_MEM_BW })
                && spec_extended_memory_effect(old, new, true, ry, rx, size)
        },
        (Isa::Tas, Operands::EffectiveAddress(am)) => {
            &&& !spec_ea_operand_valid(am) ==> r == Err::<usize, u8>(ILLEGAL_INSTRUCTION) && new == old
            &&& spec_ea_operand_valid(am) ==> spec_unary_step(old, new, r, UnaryOp::Tas, Size::Byte, am,
                if am is Drd { CPU::TAS_REG } else { CPU::TAS_MEM })
        },
        (Isa::Tst, Operands::SizeEffectiveAddress(size, am)) => {
            &&& !spec_ea_operand_valid(am) ==> r == Err::<usize, u8>(ILLEGAL_INSTRUCTION) && new == old
            &&& spec_ea_operand_valid(am) ==> spec_unary_step(old, new, r, UnaryOp::Tst, size, am,
                spec_single_operand_time(size == Size::Long, am is Drd, CPU::TST_REG_BW, CPU::TST_REG_L, CPU::TST_MEM_BW, CPU::TST_MEM_L))
        },
        (Isa::Unlk, Operands::Register(reg)) => {
            &&& reg > 7 ==> r == Err::<usize, u8>(ILLEGAL_INSTRUCTION) && new == old
            &&& reg <= 7 ==> spec_access_error(r)
            &&& reg <= 7 && r is Ok ==> r == Ok::<usize, u8>(CPU::UNLK)
            &&& reg < 7 && r is Ok ==> new.spec_sp() == spec_wrap(old.spec_a(reg) + 4, Size::Long)
            &&& reg <= 7 && r is Ok ==> exists|unlinked: Registers, popped: Registers, v: u32|
                #[trigger] spec_a_set(old, unlinked, 7, old.spec_a(reg))
                && #[trigger] spec_a_set(unlinked, popped, 7, spec_wrap32(unlinked.spec_sp() + 4))
                && #[trigger] spec_a_set(popped, new, reg, v)
        },
        _ => spec_compare_dispatch::<CPU>(old, new, isa, instruction, r),
    }
}

/// What the execution methods of the comparisons do to the registers, when their operands are those
/// of their instruction. Operands that do not match the instruction are an Illegal Instruction that
/// changes nothing.
pub open spec fn spec_compare_dispatch<CPU: CpuDetails>(old: Registers, new: Registers, isa: Isa, instruction: Instruction, r: InterpreterResult) -> bool {
    match (isa, instruction.operands) {
        (Isa::Cmp, Operands::RegisterDirectionSizeEffectiveAddress(reg, _, size, am)) => {
            &&& !spec_binary_operands_valid(reg, size, am, false) ==> r == Err::<usize, u8>(ILLEGAL_INSTRUCTION) && new == old
            &&& spec_binary_operands_valid(reg, size, am, false) ==> spec_binary_to_reg_step::<CPU>(old, new, r, BinaryOp::Cmp, reg, size, am,
                if size == Size::Long { CPU::CMP_L } else { CPU::CMP_BW })
        },
        (Isa::Cmpa, Operands::RegisterSizeEffectiveAddress(reg, size, am)) => {
            &&& !(reg <= 7 && am.spec_wf() && size != Size::Byte) ==> r == Err::<usize, u8>(ILLEGAL_INSTRUCTION) && new == old
            &&& reg <= 7 && am.spec_wf() && size != Size::Byte ==> spec_access_error(r)
            &&& reg <= 7 && am.spec_wf() && size != Size::Byte ==> (spec_direct_operand(old, am, size) matches Some(v) ==>
                new == (Registers { sr: spec_sub_sr(old.sr, old.spec_a(reg), spec_sign_extend(v, size), Size::Long, false, true), ..old })
                && r is Ok)
            &&& reg <= 7 && am.spec_wf() && size != Size::Byte && r is Ok ==> spec_cmpa_effect(old, new, reg, size, am)
        },
        (Isa::Cmpi, Operands::SizeEffectiveAddressImmediate(size, am, imm)) => {
            &&& !spec_ea_operand_valid(am) ==> r == Err::<usize, u8>(ILLEGAL_INSTRUCTION) && new == old
            &&& spec_ea_operand_valid(am) ==> spec_binary_to_ea_step(old, new, r, BinaryOp::Cmp, spec_low(imm, size), size, am,
                if am is Drd {
                    if size == Size::Long { CPU::CMPI_REG_L } else { CPU::CMPI_REG_BW }
                } else {
                    if size == Size::Long { CPU::CMPI_MEM_L } else { CPU::CMPI_MEM_BW }
                })
        },
        (Isa::Cmpm, Operands::RegisterSizeRegister(ax, size, ay)) => {
            &&& !(ax <= 7 && ay <= 7) ==> r == Err::<usize, u8>(ILLEGAL_INSTRUCTION) && new == old
            &&& ax <= 7 && ay <= 7 ==> spec_access_error(r)
            &&& ax <= 7 && ay <= 7 && r is Ok ==> r == Ok::<usize, u8>(if size == Size::Long { CPU::CMPM_L } else { CPU::CMPM_BW })
                && spec_cmpm_effect(old, new, ax, ay, size)
        },
        _ => r == Err::<usize, u8>(ILLEGAL_INSTRUCTION) && new == old,
    }
}

} // verus!
