//! Dynamically assemble M68000 instructions.
//!
//! The fields are as described in the M68000 Programming Reference Manual, left (high order bits) to right (low order bits).
//! Refer to it to know which values are valid for the instructions.
//! The values accepted by each function are stated in its `requires` clause.
//!
//! The shift/rotate instructions are regrouped by their destination location and not by their shift/rotate direction.
//! So [asm_memory] is the arithmetic shift with the data in memory, and [asr] is the arithmetic shift with data in register.
//! The direction is specified as a parameter in these functions.

use vstd::prelude::*;
use crate::addressing_modes::AddressingMode;
use crate::instruction::{Direction, Size, spec_size_code, spec_move_code, Operands, spec_decode, spec_exg_direction, spec_ea_reg, spec_reg9,
    spec_shift_direction, spec_size_field, spec_size_of_code, spec_x_mode};
use crate::isa::{Isa, spec_isa};
use crate::arithmetic::spec_low;
use crate::addressing_modes::{lemma_displacement_round_trip, lemma_assemble_decode};
use crate::memory_access::spec_wrapping_add;

verus! {

/// Conditions for the conditional instructions.
#[derive(Clone, Copy, Debug, PartialEq, Eq, Structural)]
pub enum Condition {
    /// True.
    T,
    /// False.
    F,
    /// High.
    HI,
    /// Lower or Same.
    LS,
    /// Carry Clear.
    CC,
    /// Carry Set.
    CS,
    /// Not Equal.
    NE,
    /// Equal.
    EQ,
    /// Overflow Clear.
    VC,
    /// Overflow Set.
    VS,
    /// Plus.
    PL,
    /// Minus.
    MI,
    /// Greater or Equal.
    GE,
    /// Less Than.
    LT,
    /// Greater Than.
    GT,
    /// Less or Equal.
    LE,
}

/// The 4-bits encoding of a condition.
pub open spec fn spec_condition_code(c: Condition) -> u16 {
    match c {
        Condition::T => 0,
        Condition::F => 1,
        Condition::HI => 2,
        Condition::LS => 3,
        Condition::CC => 4,
        Condition::CS => 5,
        Condition::NE => 6,
        Condition::EQ => 7,
        Condition::VC => 8,
        Condition::VS => 9,
        Condition::PL => 10,
        Condition::MI => 11,
        Condition::GE => 12,
        Condition::LT => 13,
        Condition::GT => 14,
        Condition::LE => 15,
    }
}

impl Condition {
    /// Returns the 4-bits encoding of the condition.
    pub fn code(self) -> (r: u16)
        ensures
            r == spec_condition_code(self),
    {
        match self {
            Condition::T => 0,
            Condition::F => 1,
            Condition::HI => 2,
            Condition::LS => 3,
            Condition::CC => 4,
            Condition::CS => 5,
            Condition::NE => 6,
            Condition::EQ => 7,
            Condition::VC => 8,
            Condition::VS => 9,
            Condition::PL => 10,
            Condition::MI => 11,
            Condition::GE => 12,
            Condition::LT => 13,
            Condition::GT => 14,
            Condition::LE => 15,
        }
    }
}

/// Modes 2, 5, 6 and 7.
pub open spec fn modes_2567() -> Seq<u8> {
    seq![2u8, 5, 6, 7]
}

/// Modes 2, 3, 4, 5, 6 and 7.
pub open spec fn modes_234567() -> Seq<u8> {
    seq![2u8, 3, 4, 5, 6, 7]
}

/// Modes 0, 2, 3, 4, 5, 6 and 7.
pub open spec fn modes_0234567() -> Seq<u8> {
    seq![0u8, 2, 3, 4, 5, 6, 7]
}

/// Modes 0, 1, 2, 3, 4, 5, 6 and 7.
pub open spec fn modes_01234567() -> Seq<u8> {
    seq![0u8, 1, 2, 3, 4, 5, 6, 7]
}

/// Sub-modes 0 and 1 of mode 7 (absolute short and long).
pub open spec fn regs_01() -> Seq<u8> {
    seq![0u8, 1]
}

/// Sub-modes 0 to 3 of mode 7 (absolute and program counter relative).
pub open spec fn regs_0123() -> Seq<u8> {
    seq![0u8, 1, 2, 3]
}

/// Sub-modes 0 to 4 of mode 7 (absolute, program counter relative and immediate).
pub open spec fn regs_01234() -> Seq<u8> {
    seq![0u8, 1, 2, 3, 4]
}

/// Appends the extension words to the instruction words.
fn append_ext(vec: &mut Vec<u16>, ext: Vec<u16>)
    ensures
        final(vec)@ == old(vec)@ + ext@,
{
    let mut ext = ext;
    vec.append(&mut ext);
}

/// The immediate words of an immediate instruction (ADDI, ANDI...).
pub open spec fn spec_immediate_words(size: Size, imm: u32) -> Seq<u16> {
    match size {
        Size::Long => seq![(imm / 0x1_0000) as u16, (imm % 0x1_0000) as u16],
        Size::Byte => seq![(imm % 0x100) as u16],
        Size::Word => seq![(imm % 0x1_0000) as u16],
    }
}

/// ADDI, ANDI, CMPI, EORI, ORI, SUBI
pub open spec fn spec_size_effective_address_immediate(bits8_15: u8, size: Size, am: AddressingMode, imm: u32) -> Seq<u16> {
    seq![((bits8_15 as u16) * 0x100 + spec_size_code(size) * 0x40 + am.spec_field()) as u16]
        + spec_immediate_words(size, imm) + am.spec_ext(size == Size::Long)
}

fn size_effective_address_immediate(bits8_15: u8, size: Size, am: AddressingMode, imm: u32) -> (r: Vec<u16>)
    requires
        am.spec_wf(),
    ensures
        r@ == spec_size_effective_address_immediate(bits8_15, size, am, imm),
{
    let mut vec = Vec::new();

    let (eafield, eaext) = am.assemble(size.is_long());
    let opcode: u16 = (bits8_15 as u16) * 0x100 + size.code() * 0x40 + eafield;
    vec.push(opcode);

    if size.is_long() {
        vec.push((imm / 0x1_0000) as u16);
        vec.push((imm % 0x1_0000) as u16);
    } else if size.is_byte() {
        vec.push((imm % 0x100) as u16);
    } else {
        vec.push((imm % 0x1_0000) as u16);
    }
    append_ext(&mut vec, eaext);

    proof {
        assert(vec@ =~= spec_size_effective_address_immediate(bits8_15, size, am, imm));
    }
    vec
}

/// static BCHG, BCLR, BSET, BTST
pub open spec fn spec_effective_address_count(bits6_15: u16, am: AddressingMode, count: u8) -> Seq<u16> {
    seq![((bits6_15 % 0x400) * 0x40 + am.spec_field()) as u16, count as u16] + am.spec_ext(false)
}

fn effective_address_count(bits6_15: u16, am: AddressingMode, count: u8) -> (r: Vec<u16>)
    requires
        am.spec_wf(),
    ensures
        r@ == spec_effective_address_count(bits6_15, am, count),
{
    let mut vec = Vec::new();

    let (eafield, eaext) = am.assemble(false);
    let opcode: u16 = (bits6_15 % 0x400) * 0x40 + eafield;
    vec.push(opcode);
    vec.push(count as u16);
    append_ext(&mut vec, eaext);

    proof {
        assert(vec@ =~= spec_effective_address_count(bits6_15, am, count));
    }
    vec
}

/// JMP, JSR, MOVE (f) SR CCR, NBCD, PEA, TAS
pub open spec fn spec_effective_address(bits6_15: u16, am: AddressingMode) -> Seq<u16> {
    seq![((bits6_15 % 0x400) * 0x40 + am.spec_field()) as u16] + am.spec_ext(false)
}

fn effective_address(bits6_15: u16, am: AddressingMode) -> (r: Vec<u16>)
    requires
        am.spec_wf(),
    ensures
        r@ == spec_effective_address(bits6_15, am),
{
    let mut vec = Vec::new();

    let (eafield, eaext) = am.assemble(false);
    let opcode: u16 = (bits6_15 % 0x400) * 0x40 + eafield;
    vec.push(opcode);
    append_ext(&mut vec, eaext);

    proof {
        assert(vec@ =~= spec_effective_address(bits6_15, am));
    }
    vec
}

/// CLR, NEG, NEGX, NOT, TST
pub open spec fn spec_size_effective_address(bits8_15: u8, size: Size, am: AddressingMode) -> Seq<u16> {
    seq![((bits8_15 as u16) * 0x100 + spec_size_code(size) * 0x40 + am.spec_field()) as u16]
        + am.spec_ext(size == Size::Long)
}

fn size_effective_address(bits8_15: u8, size: Size, am: AddressingMode) -> (r: Vec<u16>)
    requires
        am.spec_wf(),
    ensures
        r@ == spec_size_effective_address(bits8_15, size, am),
{
    let mut vec = Vec::new();

    let (eafield, eaext) = am.assemble(size.is_long());
    let opcode: u16 = (bits8_15 as u16) * 0x100 + size.code() * 0x40 + eafield;
    vec.push(opcode);
    append_ext(&mut vec, eaext);

    proof {
        assert(vec@ =~= spec_size_effective_address(bits8_15, size, am));
    }
    vec
}

/// dynamic BCHG, BCLR, BSET, BTST, CHK, DIVS, DIVU, LEA, MULS, MULU
pub open spec fn spec_register_effective_address(bits12_15: u16, reg: u16, bits6_8: u16, am: AddressingMode) -> Seq<u16> {
    seq![((bits12_15 % 0x10) * 0x1000 + (reg % 8) * 0x200 + (bits6_8 % 8) * 0x40 + am.spec_field()) as u16]
        + am.spec_ext(false)
}

fn register_effective_address(bits12_15: u16, reg: u16, bits6_8: u16, am: AddressingMode) -> (r: Vec<u16>)
    requires
        am.spec_wf(),
    ensures
        r@ == spec_register_effective_address(bits12_15, reg, bits6_8, am),
{
    let mut vec = Vec::new();

    let (eafield, eaext) = am.assemble(false);
    let opcode: u16 = (bits12_15 % 0x10) * 0x1000 + (reg % 8) * 0x200 + (bits6_8 % 8) * 0x40 + eafield;
    vec.push(opcode);
    append_ext(&mut vec, eaext);

    proof {
        assert(vec@ =~= spec_register_effective_address(bits12_15, reg, bits6_8, am));
    }
    vec
}

/// MOVE, MOVEA
pub open spec fn spec_size_effective_address_effective_address(size: Size, dst: AddressingMode, src: AddressingMode) -> Seq<u16> {
    seq![(spec_move_code(size) * 0x1000 + dst.spec_move_dst_field() + src.spec_field()) as u16]
        + src.spec_ext(size == Size::Long) + dst.spec_ext(false)
}

fn size_effective_address_effective_address(size: Size, dst: AddressingMode, src: AddressingMode) -> (r: Vec<u16>)
    requires
        dst.spec_wf(),
        src.spec_wf(),
    ensures
        r@ == spec_size_effective_address_effective_address(size, dst, src),
{
    let mut vec = Vec::new();

    let (sfield, sext) = src.assemble(size.is_long());
    let (dfield, dext) = dst.assemble_move_dst();
    let opcode: u16 = size.into_move() * 0x1000 + dfield + sfield;

    vec.push(opcode);
    append_ext(&mut vec, sext);
    append_ext(&mut vec, dext);

    proof {
        assert(vec@ =~= spec_size_effective_address_effective_address(size, dst, src));
    }
    vec
}

/// SWAP, UNLK
fn register(bits3_15: u16, reg: u8) -> (r: u16)
    requires
        bits3_15 < 0x2000,
    ensures
        r == bits3_15 * 8 + (reg as u16) % 8,
{
    bits3_15 * 8 + (reg as u16) % 8
}

/// ADDQ, SUBQ
pub open spec fn spec_data_size_effective_address(data: u8, bit8: u16, size: Size, am: AddressingMode) -> Seq<u16> {
    seq![(0x5000 + ((data as u16) % 8) * 0x200 + (bit8 % 2) * 0x100 + spec_size_code(size) * 0x40 + am.spec_field()) as u16]
        + am.spec_ext(size == Size::Long)
}

fn data_size_effective_address(data: u8, bit8: u16, size: Size, am: AddressingMode) -> (r: Vec<u16>)
    requires
        am.spec_wf(),
    ensures
        r@ == spec_data_size_effective_address(data, bit8, size, am),
{
    let mut vec = Vec::new();

    let (eafield, eaext) = am.assemble(size.is_long());
    let opcode: u16 = 0x5000 + ((data as u16) % 8) * 0x200 + (bit8 % 2) * 0x100 + size.code() * 0x40 + eafield;
    vec.push(opcode);
    append_ext(&mut vec, eaext);

    proof {
        assert(vec@ =~= spec_data_size_effective_address(data, bit8, size, am));
    }
    vec
}

/// The displacement fits in the low byte of a branch opcode.
pub open spec fn spec_short_branch(disp: i16) -> bool {
    -128 <= disp <= 127 && disp != 0
}

/// Bcc, BRA, BSR
pub open spec fn spec_condition_displacement(cond: Condition, disp: i16) -> Seq<u16> {
    let opcode = (0x6000 + spec_condition_code(cond) * 0x100) as u16;
    if spec_short_branch(disp) {
        seq![(opcode + (disp as u8) as u16) as u16]
    } else {
        seq![opcode, disp as u16]
    }
}

/// Bcc, BRA, BSR
///
/// If the displacement fits in an i8 and is not 0, 1 opcode is used, otherwise 2.
fn condition_displacement(cond: Condition, disp: i16) -> (r: Vec<u16>)
    ensures
        r@ == spec_condition_displacement(cond, disp),
{
    let mut vec = Vec::new();

    let opcode: u16 = 0x6000 + cond.code() * 0x100;

    if disp < -128 || disp > 127 || disp == 0 {
        vec.push(opcode);
        vec.push(disp as u16);
    } else {
        vec.push(opcode + (disp as u8) as u16);
    }

    proof {
        assert(vec@ =~= spec_condition_displacement(cond, disp));
    }
    vec
}

/// ADD, AND, CMP, EOR, OR, SUB
pub open spec fn spec_register_direction_size_effective_address(bits12_15: u16, reg: u8, dir: Direction, size: Size, am: AddressingMode) -> Seq<u16> {
    seq![(bits12_15 * 0x1000 + (reg as u16) * 0x200 + (if dir == Direction::DstEa { 0x100u16 } else { 0 })
        + spec_size_code(size) * 0x40 + am.spec_field()) as u16] + am.spec_ext(size == Size::Long)
}

/// ADD, AND, CMP, EOR, OR, SUB
///
/// [Direction::DstReg] or [Direction::DstEa].
fn register_direction_size_effective_address(bits12_15: u16, reg: u8, dir: Direction, size: Size, am: AddressingMode) -> (r: Vec<u16>)
    requires
        bits12_15 < 0x10,
        reg <= 7,
        am.spec_wf(),
    ensures
        r@ == spec_register_direction_size_effective_address(bits12_15, reg, dir, size, am),
{
    let mut vec = Vec::new();

    let (eafield, eaext) = am.assemble(size.is_long());
    let d: u16 = if dir == Direction::DstEa { 0x100 } else { 0 };
    let opcode: u16 = bits12_15 * 0x1000 + (reg as u16) * 0x200 + d + size.code() * 0x40 + eafield;
    vec.push(opcode);
    append_ext(&mut vec, eaext);

    proof {
        assert(vec@ =~= spec_register_direction_size_effective_address(bits12_15, reg, dir, size, am));
    }
    vec
}

/// ADDA, CMPA, SUBA
pub open spec fn spec_register_size_effective_address(bits12_15: u16, reg: u8, size: Size, am: AddressingMode) -> Seq<u16> {
    seq![(bits12_15 * 0x1000 + ((reg as u16) % 8) * 0x200 + (if size == Size::Long { 0x100u16 } else { 0 })
        + 0xC0 + am.spec_field()) as u16] + am.spec_ext(size == Size::Long)
}

fn register_size_effective_address(bits12_15: u16, reg: u8, size: Size, am: AddressingMode) -> (r: Vec<u16>)
    requires
        bits12_15 < 0x10,
        size != Size::Byte,
        am.spec_wf(),
    ensures
        r@ == spec_register_size_effective_address(bits12_15, reg, size, am),
{
    let mut vec = Vec::new();

    let (eafield, eaext) = am.assemble(size.is_long());
    let opcode: u16 = bits12_15 * 0x1000 + ((reg as u16) % 8) * 0x200 + size.into_bit() * 0x100 + 0xC0 + eafield;
    vec.push(opcode);
    append_ext(&mut vec, eaext);

    proof {
        assert(vec@ =~= spec_register_size_effective_address(bits12_15, reg, size, am));
    }
    vec
}

/// ABCD, ADDX, SBCD, SUBX
pub open spec fn spec_register_size_mode_register(bits12_15: u16, dst: u8, size: Size, bits4_5: u16, mode: Direction, src: u8) -> u16 {
    ((bits12_15 % 0x10) * 0x1000 + ((dst as u16) % 8) * 0x200 + 0x100 + spec_size_code(size) * 0x40
        + (bits4_5 % 4) * 0x10 + (if mode == Direction::MemoryToMemory { 8u16 } else { 0 }) + (src as u16) % 8) as u16
}

/// ABCD, ADDX, SBCD, SUBX
///
/// [Direction::RegisterToRegister] or [Direction::MemoryToMemory].
fn register_size_mode_register(bits12_15: u16, dst: u8, size: Size, bits4_5: u16, mode: Direction, src: u8) -> (r: u16)
    ensures
        r == spec_register_size_mode_register(bits12_15, dst, size, bits4_5, mode, src),
{
    let m: u16 = if mode == Direction::MemoryToMemory { 8 } else { 0 };
    (bits12_15 % 0x10) * 0x1000 + ((dst as u16) % 8) * 0x200 + 0x100 + size.code() * 0x40
        + (bits4_5 % 4) * 0x10 + m + (src as u16) % 8
}

/// ASm, LSm, ROm, ROXm
pub open spec fn spec_direction_effective_address(bits9_15: u16, dir: Direction, bits6_7: u16, am: AddressingMode) -> Seq<u16> {
    seq![((bits9_15 % 0x80) * 0x200 + (if dir == Direction::Left { 0x100u16 } else { 0 }) + (bits6_7 % 4) * 0x40
        + am.spec_field()) as u16] + am.spec_ext(false)
}

fn direction_effective_address(bits9_15: u16, dir: Direction, bits6_7: u16, am: AddressingMode) -> (r: Vec<u16>)
    requires
        am.spec_wf(),
    ensures
        r@ == spec_direction_effective_address(bits9_15, dir, bits6_7, am),
{
    let mut vec = Vec::new();

    let (eafield, eaext) = am.assemble(false);
    let d: u16 = if dir == Direction::Left { 0x100 } else { 0 };
    let opcode: u16 = (bits9_15 % 0x80) * 0x200 + d + (bits6_7 % 4) * 0x40 + eafield;
    vec.push(opcode);
    append_ext(&mut vec, eaext);

    proof {
        assert(vec@ =~= spec_direction_effective_address(bits9_15, dir, bits6_7, am));
    }
    vec
}

/// ASr, LSr, ROr, ROXr
pub open spec fn spec_rotation_direction_size_mode_register(bits12_15: u16, count_reg: u16, dir: Direction, size: Size, ir: u16, bits3_4: u16, reg: u16) -> u16 {
    ((bits12_15 % 0x10) * 0x1000 + (count_reg % 8) * 0x200 + (if dir == Direction::Left { 0x100u16 } else { 0 })
        + spec_size_code(size) * 0x40 + (ir % 2) * 0x20 + (bits3_4 % 4) * 8 + reg % 8) as u16
}

fn rotation_direction_size_mode_register(bits12_15: u16, count_reg: u16, dir: Direction, size: Size, ir: u16, bits3_4: u16, reg: u16) -> (r: u16)
    ensures
        r == spec_rotation_direction_size_mode_register(bits12_15, count_reg, dir, size, ir, bits3_4, reg),
{
    let d: u16 = if dir == Direction::Left { 0x100 } else { 0 };
    (bits12_15 % 0x10) * 0x1000 + (count_reg % 8) * 0x200 + d + size.code() * 0x40 + (ir % 2) * 0x20
        + (bits3_4 % 4) * 8 + reg % 8
}

/// `mode` must be [Direction::RegisterToRegister] or [Direction::MemoryToMemory].
pub fn abcd(dst: u8, mode: Direction, src: u8) -> (r: u16)
    requires
        dst <= 7,
        mode == Direction::RegisterToRegister || mode == Direction::MemoryToMemory,
        src <= 7,
    ensures
        r == spec_register_size_mode_register(0b1100, dst, Size::Byte, 0, mode, src),
{
    register_size_mode_register(0b1100, dst, Size::Byte, 0, mode, src)
}

/// `dir` must be [Direction::DstReg] or [Direction::DstEa].
pub fn add(reg: u8, dir: Direction, size: Size, am: AddressingMode) -> (r: Vec<u16>)
    requires
        reg <= 7,
        dir == Direction::DstEa || dir == Direction::DstReg,
        dir == Direction::DstEa ==> am.spec_verify(modes_234567(), regs_01()),
        dir == Direction::DstReg ==> !(am.spec_mode() == 1 && size == Size::Byte),
        dir == Direction::DstReg ==> am.spec_verify(modes_01234567(), regs_01234()),
    ensures
        r@ == spec_register_direction_size_effective_address(0b1101, reg, dir, size, am),
{
    register_direction_size_effective_address(0b1101, reg, dir, size, am)
}

/// ADDA cannot be byte sized.
pub fn adda(reg: u8, size: Size, am: AddressingMode) -> (r: Vec<u16>)
    requires
        reg <= 7,
        size != Size::Byte,
        am.spec_wf(),
    ensures
        r@ == spec_register_size_effective_address(0b1101, reg, size, am),
{
    register_size_effective_address(0b1101, reg, size, am)
}

/// Emits the opcode and the extension words of ADDI.
pub fn addi(size: Size, am: AddressingMode, imm: u32) -> (r: Vec<u16>)
    requires
        am.spec_verify(modes_0234567(), regs_01()),
    ensures
        r@ == spec_size_effective_address_immediate(0b0000_0110, size, am, imm),
{
    size_effective_address_immediate(0b0000_0110, size, am, imm)
}

/// The data of ADDQ and SUBQ, 8 being encoded as 0.
pub open spec fn spec_quick_data(data: u8) -> u8 {
    if data == 8 { 0 } else { data }
}

/// `data` must be 1 to 8.
pub fn addq(data: u8, size: Size, am: AddressingMode) -> (r: Vec<u16>)
    requires
        am.spec_verify(modes_01234567(), regs_01()),
        !(am.spec_mode() == 1 && size == Size::Byte),
        1 <= data <= 8,
    ensures
        r@ == spec_data_size_effective_address(spec_quick_data(data), 0, size, am),
{
    let data = if data == 8 { 0 } else { data };
    data_size_effective_address(data, 0, size, am)
}

/// `mode` must be [Direction::RegisterToRegister] or [Direction::MemoryToMemory].
pub fn addx(dst: u8, size: Size, mode: Direction, src: u8) -> (r: u16)
    requires
        dst <= 7,
        mode == Direction::RegisterToRegister || mode == Direction::MemoryToMemory,
        src <= 7,
    ensures
        r == spec_register_size_mode_register(0b1101, dst, size, 0, mode, src),
{
    register_size_mode_register(0b1101, dst, size, 0, mode, src)
}

/// `dir` must be [Direction::DstReg] or [Direction::DstEa].
pub fn and(reg: u8, dir: Direction, size: Size, am: AddressingMode) -> (r: Vec<u16>)
    requires
        reg <= 7,
        dir == Direction::DstEa || dir == Direction::DstReg,
        dir == Direction::DstEa ==> am.spec_verify(modes_234567(), regs_01()),
        dir == Direction::DstReg ==> am.spec_verify(modes_0234567(), regs_01234()),
    ensures
        r@ == spec_register_direction_size_effective_address(0b1100, reg, dir, size, am),
{
    register_direction_size_effective_address(0b1100, reg, dir, size, am)
}

/// Emits the opcode and the extension words of ANDI.
pub fn andi(size: Size, am: AddressingMode, imm: u32) -> (r: Vec<u16>)
    requires
        am.spec_verify(modes_0234567(), regs_01()),
    ensures
        r@ == spec_size_effective_address_immediate(0b0000_0010, size, am, imm),
{
    size_effective_address_immediate(0b0000_0010, size, am, imm)
}

/// Emits the opcode and the extension word of ANDI to CCR.
pub fn andiccr(imm: u16) -> (r: [u16; 2])
    ensures
        r@ == seq![0x023Cu16, imm % 0x100],
{
    [0x023C, imm % 0x100]
}

/// Emits the opcode and the extension word of ANDI to SR.
pub fn andisr(imm: u16) -> (r: [u16; 2])
    ensures
        r@ == seq![0x027Cu16, imm],
{
    [0x027C, imm]
}

/// Arithmetic Shift in memory (BYTE size only). `dir` must be [Direction::Left] or [Direction::Right].
pub fn asm_memory(dir: Direction, am: AddressingMode) -> (r: Vec<u16>)
    requires
        dir == Direction::Left || dir == Direction::Right,
        am.spec_verify(modes_234567(), regs_01()),
    ensures
        r@ == spec_direction_effective_address(0b1110_000, dir, 0b11, am),
{
    direction_effective_address(0b1110_000, dir, 0b11, am)
}

/// Arithmetic Shift in register. `dir` must be [Direction::Left] or [Direction::Right].
pub fn asr(count_reg: u16, dir: Direction, size: Size, reg_shift: bool, reg: u16) -> (r: u16)
    requires
        count_reg <= 7,
        dir == Direction::Left || dir == Direction::Right,
        reg <= 7,
    ensures
        r == spec_rotation_direction_size_mode_register(0b1110, count_reg, dir, size, if reg_shift { 1 } else { 0 }, 0b00, reg),
{
    rotation_direction_size_mode_register(0b1110, count_reg, dir, size, if reg_shift { 1 } else { 0 }, 0b00, reg)
}

/// If the displacement fits in an i8 and is not 0, 1 opcode is used, otherwise 2.
pub fn bcc(cond: Condition, disp: i16) -> (r: Vec<u16>)
    requires
        cond != Condition::T && cond != Condition::F,
    ensures
        r@ == spec_condition_displacement(cond, disp),
{
    condition_displacement(cond, disp)
}

/// Emits the opcode and the extension words of BCHG with the bit number in a data register.
pub fn bchg_dynamic(reg: u8, am: AddressingMode) -> (r: Vec<u16>)
    requires
        reg <= 7,
        am.spec_verify(modes_0234567(), regs_01()),
    ensures
        r@ == spec_register_effective_address(0b0000, reg as u16, 0b101, am),
{
    register_effective_address(0b0000, reg as u16, 0b101, am)
}

/// Emits the opcode and the extension words of BCHG with an immediate bit number.
pub fn bchg_static(am: AddressingMode, count: u8) -> (r: Vec<u16>)
    requires
        am.spec_verify(modes_0234567(), regs_01()),
    ensures
        r@ == spec_effective_address_count(0b0000_1000_01, am, count),
{
    effective_address_count(0b0000_1000_01, am, count)
}

/// Emits the opcode and the extension words of BCLR with the bit number in a data register.
pub fn bclr_dynamic(reg: u8, am: AddressingMode) -> (r: Vec<u16>)
    requires
        reg <= 7,
        am.spec_verify(modes_0234567(), regs_01()),
    ensures
        r@ == spec_register_effective_address(0b0000, reg as u16, 0b110, am),
{
    register_effective_address(0b0000, reg as u16, 0b110, am)
}

/// Emits the opcode and the extension words of BCLR with an immediate bit number.
pub fn bclr_static(am: AddressingMode, count: u8) -> (r: Vec<u16>)
    requires
        am.spec_verify(modes_0234567(), regs_01()),
    ensures
        r@ == spec_effective_address_count(0b0000_1000_10, am, count),
{
    effective_address_count(0b0000_1000_10, am, count)
}

/// If the displacement fits in an i8 and is not 0, 1 opcode is used, otherwise 2.
pub fn bra(disp: i16) -> (r: Vec<u16>)
    ensures
        r@ == spec_condition_displacement(Condition::T, disp),
{
    condition_displacement(Condition::T, disp)
}

/// Emits the opcode and the extension words of BSET with the bit number in a data register.
pub fn bset_dynamic(reg: u8, am: AddressingMode) -> (r: Vec<u16>)
    requires
        reg <= 7,
        am.spec_verify(modes_0234567(), regs_01()),
    ensures
        r@ == spec_register_effective_address(0b0000, reg as u16, 0b111, am),
{
    register_effective_address(0b0000, reg as u16, 0b111, am)
}

/// Emits the opcode and the extension words of BSET with an immediate bit number.
pub fn bset_static(am: AddressingMode, count: u8) -> (r: Vec<u16>)
    requires
        am.spec_verify(modes_0234567(), regs_01()),
    ensures
        r@ == spec_effective_address_count(0b0000_1000_11, am, count),
{
    effective_address_count(0b0000_1000_11, am, count)
}

/// If the displacement fits in an i8 and is not 0, 1 opcode is used, otherwise 2.
pub fn bsr(disp: i16) -> (r: Vec<u16>)
    ensures
        r@ == spec_condition_displacement(Condition::F, disp),
{
    condition_displacement(Condition::F, disp)
}

/// Emits the opcode and the extension words of BTST with the bit number in a data register.
pub fn btst_dynamic(reg: u8, am: AddressingMode) -> (r: Vec<u16>)
    requires
        reg <= 7,
        am.spec_verify(modes_0234567(), regs_01234()),
    ensures
        r@ == spec_register_effective_address(0b0000, reg as u16, 0b100, am),
{
    register_effective_address(0b0000, reg as u16, 0b100, am)
}

/// Emits the opcode and the extension words of BTST with an immediate bit number.
pub fn btst_static(am: AddressingMode, count: u8) -> (r: Vec<u16>)
    requires
        am.spec_verify(modes_0234567(), regs_01234()),
    ensures
        r@ == spec_effective_address_count(0b0000_1000_00, am, count),
{
    effective_address_count(0b0000_1000_00, am, count)
}

/// Emits the opcode and the extension words of CHK.
pub fn chk(reg: u8, am: AddressingMode) -> (r: Vec<u16>)
    requires
        reg <= 7,
        am.spec_verify(modes_0234567(), regs_01234()),
    ensures
        r@ == spec_register_effective_address(0b0100, reg as u16, 0b110, am),
{
    register_effective_address(0b0100, reg as u16, 0b110, am)
}

/// Emits the opcode and the extension words of CLR.
pub fn clr(size: Size, am: AddressingMode) -> (r: Vec<u16>)
    requires
        am.spec_verify(modes_0234567(), regs_01()),
    ensures
        r@ == spec_size_effective_address(0b0100_0010, size, am),
{
    size_effective_address(0b0100_0010, size, am)
}

/// Emits the opcode and the extension words of CMP.
pub fn cmp(reg: u8, size: Size, am: AddressingMode) -> (r: Vec<u16>)
    requires
        reg <= 7,
        !(am.spec_mode() == 1 && size == Size::Byte),
        am.spec_verify(modes_01234567(), regs_01234()),
    ensures
        r@ == spec_register_direction_size_effective_address(0b1011, reg, Direction::DstReg, size, am),
{
    register_direction_size_effective_address(0b1011, reg, Direction::DstReg, size, am)
}

/// CMPA cannot be byte sized.
pub fn cmpa(reg: u8, size: Size, am: AddressingMode) -> (r: Vec<u16>)
    requires
        reg <= 7,
        size != Size::Byte,
        am.spec_wf(),
    ensures
        r@ == spec_register_size_effective_address(0b1011, reg, size, am),
{
    register_size_effective_address(0b1011, reg, size, am)
}

/// Emits the opcode and the extension words of CMPI.
pub fn cmpi(size: Size, am: AddressingMode, imm: u32) -> (r: Vec<u16>)
    requires
        am.spec_verify(modes_0234567(), regs_01()),
    ensures
        r@ == spec_size_effective_address_immediate(0b0000_1100, size, am, imm),
{
    size_effective_address_immediate(0b0000_1100, size, am, imm)
}

/// Emits the opcode of CMPM.
pub fn cmpm(ax: u8, size: Size, ay: u8) -> (r: u16)
    requires
        ax <= 7,
        ay <= 7,
    ensures
        r == 0xB108 + ax * 0x200 + spec_size_code(size) * 0x40 + ay,
{
    0xB108 + u16::from(ax) * 0x200 + size.code() * 0x40 + u16::from(ay)
}

/// Emits the opcode and the extension word of DBcc.
pub fn dbcc(cond: Condition, reg: u8, disp: i16) -> (r: [u16; 2])
    requires
        reg <= 7,
    ensures
        r@ == seq![(0x50C8 + spec_condition_code(cond) * 0x100 + reg as u16) as u16, disp as u16],
{
    [0x50C8 + cond.code() * 0x100 + reg as u16, disp as u16]
}

/// Emits the opcode and the extension words of DIVS.
pub fn divs(reg: u8, am: AddressingMode) -> (r: Vec<u16>)
    requires
        reg <= 7,
        am.spec_verify(modes_0234567(), regs_01234()),
    ensures
        r@ == spec_register_effective_address(0b1000, reg as u16, 0b111, am),
{
    register_effective_address(0b1000, reg as u16, 0b111, am)
}

/// Emits the opcode and the extension words of DIVU.
pub fn divu(reg: u8, am: AddressingMode) -> (r: Vec<u16>)
    requires
        reg <= 7,
        am.spec_verify(modes_0234567(), regs_01234()),
    ensures
        r@ == spec_register_effective_address(0b1000, reg as u16, 0b011, am),
{
    register_effective_address(0b1000, reg as u16, 0b011, am)
}

/// Emits the opcode and the extension words of EOR.
pub fn eor(reg: u8, size: Size, am: AddressingMode) -> (r: Vec<u16>)
    requires
        reg <= 7,
        am.spec_verify(modes_0234567(), regs_01()),
    ensures
        r@ == spec_register_direction_size_effective_address(0b1011, reg, Direction::DstEa, size, am),
{
    register_direction_size_effective_address(0b1011, reg, Direction::DstEa, size, am)
}

/// Emits the opcode and the extension words of EORI.
pub fn eori(size: Size, am: AddressingMode, imm: u32) -> (r: Vec<u16>)
    requires
        am.spec_verify(modes_0234567(), regs_01()),
    ensures
        r@ == spec_size_effective_address_immediate(0b0000_1010, size, am, imm),
{
    size_effective_address_immediate(0b0000_1010, size, am, imm)
}

/// Emits the opcode and the extension word of EORI to CCR.
pub fn eoriccr(imm: u16) -> (r: [u16; 2])
    ensures
        r@ == seq![0x0A3Cu16, imm % 0x100],
{
    [0x0A3C, imm % 0x100]
}

/// Emits the opcode and the extension word of EORI to SR.
pub fn eorisr(imm: u16) -> (r: [u16; 2])
    ensures
        r@ == seq![0x0A7Cu16, imm],
{
    [0x0A7C, imm]
}

/// The opmode field of EXG.
pub open spec fn spec_exg_opmode(dir: Direction) -> u16 {
    if dir == Direction::ExchangeData { 0b01000 } else if dir == Direction::ExchangeAddress { 0b01001 } else { 0b10001 }
}

/// `dir` must be [Direction::ExchangeData], [Direction::ExchangeAddress] or [Direction::ExchangeDataAddress].
pub fn exg(rx: u8, dir: Direction, ry: u8) -> (r: u16)
    requires
        dir == Direction::ExchangeData || dir == Direction::ExchangeAddress || dir == Direction::ExchangeDataAddress,
        rx <= 7,
        ry <= 7,
    ensures
        r == 0xC100 + (rx as u16) * 0x200 + spec_exg_opmode(dir) * 8 + ry as u16,
{
    let opmode: u16 = if dir == Direction::ExchangeData {
        0b01000
    } else if dir == Direction::ExchangeAddress {
        0b01001
    } else {
        0b10001
    };
    0xC100 + (rx as u16) * 0x200 + opmode * 8 + ry as u16
}

/// `word_to_long` is true for word to long sign extension, false for byte to word sign extension.
pub fn ext(word_to_long: bool, reg: u8) -> (r: u16)
    requires
        reg <= 7,
    ensures
        r == 0x4880 + (if word_to_long { 0x40u16 } else { 0 }) + reg as u16,
{
    let w: u16 = if word_to_long { 0x40 } else { 0 };
    0x4880 + w + reg as u16
}

/// Emits the opcode of ILLEGAL.
pub fn illegal() -> (r: u16)
    ensures
        r == 0x4AFC,
{
    0x4AFC
}

/// Emits the opcode and the extension words of JMP.
pub fn jmp(am: AddressingMode) -> (r: Vec<u16>)
    requires
        am.spec_verify(modes_2567(), regs_0123()),
    ensures
        r@ == spec_effective_address(0b0100_1110_11, am),
{
    effective_address(0b0100_1110_11, am)
}

/// Emits the opcode and the extension words of JSR.
pub fn jsr(am: AddressingMode) -> (r: Vec<u16>)
    requires
        am.spec_verify(modes_2567(), regs_0123()),
    ensures
        r@ == spec_effective_address(0b0100_1110_10, am),
{
    effective_address(0b0100_1110_10, am)
}

/// Emits the opcode and the extension words of LEA.
pub fn lea(reg: u8, am: AddressingMode) -> (r: Vec<u16>)
    requires
        reg <= 7,
        am.spec_verify(modes_2567(), regs_0123()),
    ensures
        r@ == spec_register_effective_address(0b0100, reg as u16, 0b111, am),
{
    register_effective_address(0b0100, reg as u16, 0b111, am)
}

/// Emits the opcode and the extension word of LINK.
pub fn link(reg: u8, disp: i16) -> (r: [u16; 2])
    requires
        reg <= 7,
    ensures
        r@ == seq![(0x4E50 + reg as u16) as u16, disp as u16],
{
    [register(0b0100_1110_0101_0, reg), disp as u16]
}

/// Logical Shift in memory (BYTE size only). `dir` must be [Direction::Left] or [Direction::Right].
pub fn lsm(dir: Direction, am: AddressingMode) -> (r: Vec<u16>)
    requires
        dir == Direction::Left || dir == Direction::Right,
        am.spec_verify(modes_234567(), regs_01()),
    ensures
        r@ == spec_direction_effective_address(0b1110_001, dir, 0b11, am),
{
    direction_effective_address(0b1110_001, dir, 0b11, am)
}

/// Logical Shift in register. `dir` must be [Direction::Left] or [Direction::Right].
pub fn lsr(count_reg: u16, dir: Direction, size: Size, reg_shift: bool, reg: u16) -> (r: u16)
    requires
        count_reg <= 7,
        dir == Direction::Left || dir == Direction::Right,
        reg <= 7,
    ensures
        r == spec_rotation_direction_size_mode_register(0b1110, count_reg, dir, size, if reg_shift { 1 } else { 0 }, 0b01, reg),
{
    rotation_direction_size_mode_register(0b1110, count_reg, dir, size, if reg_shift { 1 } else { 0 }, 0b01, reg)
}

/// MOVE.
pub fn move_(size: Size, dst: AddressingMode, src: AddressingMode) -> (r: Vec<u16>)
    requires
        dst.spec_verify(modes_0234567(), regs_01()),
        !(src.spec_mode() == 1 && size == Size::Byte),
        src.spec_wf(),
    ensures
        r@ == spec_size_effective_address_effective_address(size, dst, src),
{
    size_effective_address_effective_address(size, dst, src)
}

/// MOVEA cannot be byte sized.
pub fn movea(size: Size, dst_reg: u8, src: AddressingMode) -> (r: Vec<u16>)
    requires
        dst_reg <= 7,
        size != Size::Byte,
        src.spec_wf(),
    ensures
        r@ == spec_size_effective_address_effective_address(size, AddressingMode::Ard(dst_reg), src),
{
    size_effective_address_effective_address(size, AddressingMode::Ard(dst_reg), src)
}

/// Emits the opcode and the extension words of MOVE to CCR.
pub fn moveccr(am: AddressingMode) -> (r: Vec<u16>)
    requires
        am.spec_verify(modes_0234567(), regs_01234()),
    ensures
        r@ == spec_effective_address(0b0100_0100_11, am),
{
    effective_address(0b0100_0100_11, am)
}

/// Emits the opcode and the extension words of MOVE from SR.
pub fn movefsr(am: AddressingMode) -> (r: Vec<u16>)
    requires
        am.spec_verify(modes_0234567(), regs_01()),
    ensures
        r@ == spec_effective_address(0b0100_0000_11, am),
{
    effective_address(0b0100_0000_11, am)
}

/// Emits the opcode and the extension words of MOVE to SR.
pub fn movesr(am: AddressingMode) -> (r: Vec<u16>)
    requires
        am.spec_verify(modes_0234567(), regs_01234()),
    ensures
        r@ == spec_effective_address(0b0100_0110_11, am),
{
    effective_address(0b0100_0110_11, am)
}

/// `dir` must be [Direction::UspToRegister] or [Direction::RegisterToUsp].
pub fn moveusp(dir: Direction, reg: u8) -> (r: u16)
    requires
        dir == Direction::UspToRegister || dir == Direction::RegisterToUsp,
        reg <= 7,
    ensures
        r == 0x4E60 + (if dir == Direction::UspToRegister { 8u16 } else { 0 }) + reg as u16,
{
    let d: u16 = if dir == Direction::UspToRegister { 8 } else { 0 };
    0x4E60 + d + reg as u16
}

/// The words of a MOVEM instruction.
pub open spec fn spec_movem(dir: Direction, size: Size, am: AddressingMode, mask: u16) -> Seq<u16> {
    seq![(0x4880 + (if dir == Direction::MemoryToRegister { 0x400u16 } else { 0 })
        + (if size == Size::Long { 0x40u16 } else { 0 }) + am.spec_field()) as u16, mask]
        + am.spec_ext(size == Size::Long)
}

/// `dir` must be [Direction::RegisterToMemory] or [Direction::MemoryToRegister]. `mask` is the raw mask list.
pub fn movem(dir: Direction, size: Size, am: AddressingMode, mask: u16) -> (r: Vec<u16>)
    requires
        dir == Direction::RegisterToMemory || dir == Direction::MemoryToRegister,
        size != Size::Byte,
        dir == Direction::MemoryToRegister ==> am.spec_verify(seq![2u8, 3, 5, 6, 7], regs_0123()),
        dir == Direction::RegisterToMemory ==> am.spec_verify(seq![2u8, 4, 5, 6, 7], regs_01()),
    ensures
        r@ == spec_movem(dir, size, am, mask),
{
    let d: u16 = if dir == Direction::MemoryToRegister { 0x400 } else { 0 };

    let mut vec = Vec::new();

    let (eafield, eaext) = am.assemble(size.is_long());
    let opcode: u16 = 0x4880 + d + size.into_bit() * 0x40 + eafield;

    vec.push(opcode);
    vec.push(mask);
    append_ext(&mut vec, eaext);

    proof {
        assert(vec@ =~= spec_movem(dir, size, am, mask));
    }
    vec
}

/// `dir` must be [Direction::MemoryToRegister] or [Direction::RegisterToMemory].
pub fn movep(data_reg: u8, dir: Direction, size: Size, addr_reg: u8, disp: i16) -> (r: [u16; 2])
    requires
        data_reg <= 7,
        dir == Direction::RegisterToMemory || dir == Direction::MemoryToRegister,
        size != Size::Byte,
        addr_reg <= 7,
    ensures
        r@ == seq![((data_reg as u16) * 0x200 + 0x108 + (if dir == Direction::RegisterToMemory { 0x80u16 } else { 0 })
            + (if size == Size::Long { 0x40u16 } else { 0 }) + addr_reg as u16) as u16, disp as u16],
{
    let d: u16 = if dir == Direction::RegisterToMemory { 0x80 } else { 0 };
    let l: u16 = if size.is_long() { 0x40 } else { 0 };
    [(data_reg as u16) * 0x200 + 0x108 + d + l + addr_reg as u16, disp as u16]
}

/// Emits the opcode of MOVEQ.
pub fn moveq(reg: u8, data: i8) -> (r: u16)
    requires
        reg <= 7,
    ensures
        r == 0x7000 + (reg as u16) * 0x200 + (data as u8) as u16,
{
    0x7000 + (reg as u16) * 0x200 + (data as u8) as u16
}

/// Emits the opcode and the extension words of MULS.
pub fn muls(reg: u8, am: AddressingMode) -> (r: Vec<u16>)
    requires
        reg <= 7,
        am.spec_verify(modes_0234567(), regs_01234()),
    ensures
        r@ == spec_register_effective_address(0b1100, reg as u16, 0b111, am),
{
    register_effective_address(0b1100, reg as u16, 0b111, am)
}

/// Emits the opcode and the extension words of MULU.
pub fn mulu(reg: u8, am: AddressingMode) -> (r: Vec<u16>)
    requires
        reg <= 7,
        am.spec_verify(modes_0234567(), regs_01234()),
    ensures
        r@ == spec_register_effective_address(0b1100, reg as u16, 0b011, am),
{
    register_effective_address(0b1100, reg as u16, 0b011, am)
}

/// Emits the opcode and the extension words of NBCD.
pub fn nbcd(am: AddressingMode) -> (r: Vec<u16>)
    requires
        am.spec_verify(modes_0234567(), regs_01()),
    ensures
        r@ == spec_effective_address(0b0100_1000_00, am),
{
    effective_address(0b0100_1000_00, am)
}

/// Emits the opcode and the extension words of NEG.
pub fn neg(size: Size, am: AddressingMode) -> (r: Vec<u16>)
    requires
        am.spec_verify(modes_0234567(), regs_01()),
    ensures
        r@ == spec_size_effective_address(0b0100_0100, size, am),
{
    size_effective_address(0b0100_0100, size, am)
}

/// Emits the opcode and the extension words of NEGX.
pub fn negx(size: Size, am: AddressingMode) -> (r: Vec<u16>)
    requires
        am.spec_verify(modes_0234567(), regs_01()),
    ensures
        r@ == spec_size_effective_address(0b0100_0000, size, am),
{
    size_effective_address(0b0100_0000, size, am)
}

/// Emits the opcode of NOP.
pub fn nop() -> (r: u16)
    ensures
        r == 0x4E71,
{
    0x4E71
}

/// Emits the opcode and the extension words of NOT.
pub fn not(size: Size, am: AddressingMode) -> (r: Vec<u16>)
    requires
        am.spec_verify(modes_0234567(), regs_01()),
    ensures
        r@ == spec_size_effective_address(0b0100_0110, size, am),
{
    size_effective_address(0b0100_0110, size, am)
}

/// `dir` must be [Direction::DstReg] or [Direction::DstEa].
pub fn or(reg: u8, dir: Direction, size: Size, am: AddressingMode) -> (r: Vec<u16>)
    requires
        reg <= 7,
        dir == Direction::DstEa || dir == Direction::DstReg,
        dir == Direction::DstEa ==> am.spec_verify(modes_234567(), regs_01()),
        dir == Direction::DstReg ==> am.spec_verify(modes_0234567(), regs_01234()),
    ensures
        r@ == spec_register_direction_size_effective_address(0b1000, reg, dir, size, am),
{
    register_direction_size_effective_address(0b1000, reg, dir, size, am)
}

/// Emits the opcode and the extension words of ORI.
pub fn ori(size: Size, am: AddressingMode, imm: u32) -> (r: Vec<u16>)
    requires
        am.spec_verify(modes_0234567(), regs_01()),
    ensures
        r@ == spec_size_effective_address_immediate(0b0000_0000, size, am, imm),
{
    size_effective_address_immediate(0b0000_0000, size, am, imm)
}

/// Emits the opcode and the extension word of ORI to CCR.
pub fn oriccr(imm: u16) -> (r: [u16; 2])
    ensures
        r@ == seq![0x003Cu16, imm % 0x100],
{
    [0x003C, imm % 0x100]
}

/// Emits the opcode and the extension word of ORI to SR.
pub fn orisr(imm: u16) -> (r: [u16; 2])
    ensures
        r@ == seq![0x007Cu16, imm],
{
    [0x007C, imm]
}

/// Emits the opcode and the extension words of PEA.
pub fn pea(am: AddressingMode) -> (r: Vec<u16>)
    requires
        am.spec_verify(modes_2567(), regs_0123()),
    ensures
        r@ == spec_effective_address(0b0100_1000_01, am),
{
    effective_address(0b0100_1000_01, am)
}

/// Emits the opcode of RESET.
pub fn reset() -> (r: u16)
    ensures
        r == 0x4E70,
{
    0x4E70
}

/// Rotate in memory (BYTE size only). `dir` must be [Direction::Left] or [Direction::Right].
pub fn rom(dir: Direction, am: AddressingMode) -> (r: Vec<u16>)
    requires
        dir == Direction::Left || dir == Direction::Right,
        am.spec_verify(modes_234567(), regs_01()),
    ensures
        r@ == spec_direction_effective_address(0b1110_011, dir, 0b11, am),
{
    direction_effective_address(0b1110_011, dir, 0b11, am)
}

/// Rotate in register. `dir` must be [Direction::Left] or [Direction::Right].
pub fn ror(count_reg: u16, dir: Direction, size: Size, reg_shift: bool, reg: u16) -> (r: u16)
    requires
        count_reg <= 7,
        dir == Direction::Left || dir == Direction::Right,
        reg <= 7,
    ensures
        r == spec_rotation_direction_size_mode_register(0b1110, count_reg, dir, size, if reg_shift { 1 } else { 0 }, 0b11, reg),
{
    rotation_direction_size_mode_register(0b1110, count_reg, dir, size, if reg_shift { 1 } else { 0 }, 0b11, reg)
}

/// Rotate with Extend in memory (BYTE size only). `dir` must be [Direction::Left] or [Direction::Right].
pub fn roxm(dir: Direction, am: AddressingMode) -> (r: Vec<u16>)
    requires
        dir == Direction::Left || dir == Direction::Right,
        am.spec_verify(modes_234567(), regs_01()),
    ensures
        r@ == spec_direction_effective_address(0b1110_010, dir, 0b11, am),
{
    direction_effective_address(0b1110_010, dir, 0b11, am)
}

/// Rotate with Extend in register. `dir` must be [Direction::Left] or [Direction::Right].
pub fn roxr(count_reg: u16, dir: Direction, size: Size, reg_shift: bool, reg: u16) -> (r: u16)
    requires
        count_reg <= 7,
        dir == Direction::Left || dir == Direction::Right,
        reg <= 7,
    ensures
        r == spec_rotation_direction_size_mode_register(0b1110, count_reg, dir, size, if reg_shift { 1 } else { 0 }, 0b10, reg),
{
    rotation_direction_size_mode_register(0b1110, count_reg, dir, size, if reg_shift { 1 } else { 0 }, 0b10, reg)
}

/// Emits the opcode of RTE.
pub fn rte() -> (r: u16)
    ensures
        r == 0x4E73,
{
    0x4E73
}

/// Emits the opcode of RTR.
pub fn rtr() -> (r: u16)
    ensures
        r == 0x4E77,
{
    0x4E77
}

/// Emits the opcode of RTS.
pub fn rts() -> (r: u16)
    ensures
        r == 0x4E75,
{
    0x4E75
}

/// `mode` must be [Direction::RegisterToRegister] or [Direction::MemoryToMemory].
pub fn sbcd(dst: u8, mode: Direction, src: u8) -> (r: u16)
    requires
        dst <= 7,
        mode == Direction::RegisterToRegister || mode == Direction::MemoryToMemory,
        src <= 7,
    ensures
        r == spec_register_size_mode_register(0b1000, dst, Size::Byte, 0, mode, src),
{
    register_size_mode_register(0b1000, dst, Size::Byte, 0, mode, src)
}

/// The words of a Scc instruction.
pub open spec fn spec_scc(cond: Condition, am: AddressingMode) -> Seq<u16> {
    seq![(0x50C0 + spec_condition_code(cond) * 0x100 + am.spec_field()) as u16] + am.spec_ext(false)
}

/// Emits the opcode and the extension words of Scc.
pub fn scc(cond: Condition, am: AddressingMode) -> (r: Vec<u16>)
    requires
        am.spec_verify(modes_0234567(), regs_01()),
    ensures
        r@ == spec_scc(cond, am),
{
    let mut vec = Vec::new();

    let (eafield, eaext) = am.assemble(false);
    let opcode: u16 = 0x50C0 + cond.code() * 0x100 + eafield;
    vec.push(opcode);
    append_ext(&mut vec, eaext);

    proof {
        assert(vec@ =~= spec_scc(cond, am));
    }
    vec
}

/// Emits the opcode and the extension word of STOP.
pub fn stop(sr: u16) -> (r: [u16; 2])
    ensures
        r@ == seq![0x4E72u16, sr],
{
    [0x4E72, sr]
}

/// `dir` must be [Direction::DstReg] or [Direction::DstEa].
pub fn sub(reg: u8, dir: Direction, size: Size, am: AddressingMode) -> (r: Vec<u16>)
    requires
        reg <= 7,
        dir == Direction::DstEa || dir == Direction::DstReg,
        dir == Direction::DstEa ==> am.spec_verify(modes_234567(), regs_01()),
        dir == Direction::DstReg ==> !(am.spec_mode() == 1 && size == Size::Byte),
        dir == Direction::DstReg ==> am.spec_verify(modes_01234567(), regs_01234()),
    ensures
        r@ == spec_register_direction_size_effective_address(0b1001, reg, dir, size, am),
{
    register_direction_size_effective_address(0b1001, reg, dir, size, am)
}

/// SUBA cannot be byte sized.
pub fn suba(reg: u8, size: Size, am: AddressingMode) -> (r: Vec<u16>)
    requires
        reg <= 7,
        size != Size::Byte,
        am.spec_wf(),
    ensures
        r@ == spec_register_size_effective_address(0b1001, reg, size, am),
{
    register_size_effective_address(0b1001, reg, size, am)
}

/// Emits the opcode and the extension words of SUBI.
pub fn subi(size: Size, am: AddressingMode, imm: u32) -> (r: Vec<u16>)
    requires
        am.spec_verify(modes_0234567(), regs_01()),
    ensures
        r@ == spec_size_effective_address_immediate(0b0000_0100, size, am, imm),
{
    size_effective_address_immediate(0b0000_0100, size, am, imm)
}

/// `data` must be 1 to 8.
pub fn subq(data: u8, size: Size, am: AddressingMode) -> (r: Vec<u16>)
    requires
        am.spec_verify(modes_01234567(), regs_01()),
        !(am.spec_mode() == 1 && size == Size::Byte),
        1 <= data <= 8,
    ensures
        r@ == spec_data_size_effective_address(spec_quick_data(data), 1, size, am),
{
    let data = if data == 8 { 0 } else { data };
    data_size_effective_address(data, 1, size, am)
}

/// `mode` must be [Direction::RegisterToRegister] or [Direction::MemoryToMemory].
pub fn subx(dst: u8, size: Size, mode: Direction, src: u8) -> (r: u16)
    requires
        dst <= 7,
        mode == Direction::RegisterToRegister || mode == Direction::MemoryToMemory,
        src <= 7,
    ensures
        r == spec_register_size_mode_register(0b1001, dst, size, 0, mode, src),
{
    register_size_mode_register(0b1001, dst, size, 0, mode, src)
}

/// Emits the opcode of SWAP.
pub fn swap(reg: u8) -> (r: u16)
    requires
        reg <= 7,
    ensures
        r == 0x4840 + reg as u16,
{
    register(0b0100_1000_0100_0, reg)
}

/// Emits the opcode and the extension words of TAS.
pub fn tas(am: AddressingMode) -> (r: Vec<u16>)
    requires
        am.spec_verify(modes_0234567(), regs_01()),
    ensures
        r@ == spec_effective_address(0b0100_1010_11, am),
{
    effective_address(0b0100_1010_11, am)
}

/// Emits the opcode of TRAP.
pub fn trap(vector: u8) -> (r: u16)
    requires
        vector <= 15,
    ensures
        r == 0x4E40 + vector as u16,
{
    0x4E40 + vector as u16
}

/// Emits the opcode of TRAPV.
pub fn trapv() -> (r: u16)
    ensures
        r == 0x4E76,
{
    0x4E76
}

/// Emits the opcode and the extension words of TST.
pub fn tst(size: Size, am: AddressingMode) -> (r: Vec<u16>)
    requires
        am.spec_verify(modes_0234567(), regs_01()),
    ensures
        r@ == spec_size_effective_address(0b0100_1010, size, am),
{
    size_effective_address(0b0100_1010, size, am)
}

/// Emits the opcode of UNLK.
pub fn unlk(reg: u8) -> (r: u16)
    requires
        reg <= 7,
    ensures
        r == 0x4E58 + reg as u16,
{
    register(0b0100_1110_0101_1, reg)
}


} // verus!

verus! {

/// The register shift and rotation encodings (ASd, LSd, ROd, ROXd) decode back: the count or
/// register, the direction, the size, the count or register flag and the data register.
pub proof fn lemma_rotation_round_trip(count_reg: u16, dir: Direction, size: Size, ir: bool, bits3_4: u16, reg: u16)
    requires
        count_reg <= 7,
        dir == Direction::Left || dir == Direction::Right,
        bits3_4 <= 3,
        reg <= 7,
    ensures
        ({
            let op = spec_rotation_direction_size_mode_register(0b1110, count_reg, dir, size, if ir { 1 } else { 0 }, bits3_4, reg);
            &&& spec_size_field(op) <= 2
            &&& spec_reg9(op) == count_reg
            &&& spec_shift_direction(op) == dir
            &&& spec_size_of_code(spec_size_field(op)) == size
            &&& (op / 0x20) % 2 == (if ir { 1u16 } else { 0u16 })
            &&& spec_ea_reg(op) == reg
        }),
{
    let d: u16 = if dir == Direction::Left { 1 } else { 0 };
    let sz = spec_size_code(size);
    let i: u16 = if ir { 1 } else { 0 };
    let op = spec_rotation_direction_size_mode_register(0b1110, count_reg, dir, size, i, bits3_4, reg);
    assert(op == (0xE000 + count_reg * 0x200 + d * 0x100 + sz * 0x40 + i * 0x20 + bits3_4 * 8 + reg) as u16);
    assert(((op / 0x40) % 4 == sz) && ((op / 0x200) % 8 == count_reg) && ((op / 0x100) % 2 == d)
        && ((op / 0x20) % 2 == i) && (op % 8 == reg)) by (bit_vector)
        requires
            count_reg <= 7, d <= 1, sz <= 2, i <= 1, bits3_4 <= 3, reg <= 7,
            op == (0xE000 + count_reg * 0x200 + d * 0x100 + sz * 0x40 + i * 0x20 + bits3_4 * 8 + reg) as u16;
}

#[verifier::spinoff_prover]
#[verifier::rlimit(40)]
proof fn lemma_decode_moveq(reg: u8, data: i8, addr: u32, ws: Seq<u16>)
    requires
        reg <= 7,
    ensures
        ({
            let op = (0x7000 + (reg as u16) * 0x200 + (data as u8) as u16) as u16;
            spec_isa(op) == Isa::Moveq && spec_decode(op, addr, ws) == Operands::RegisterData(reg, data)
        }),
{
    reveal(spec_decode);
    let b = data as u8;
    assert(b >= 0x80 ==> (b as int - 0x100) as i8 == data) by (bit_vector) requires b == data as u8;
    assert(b < 0x80 ==> b as i8 == data) by (bit_vector) requires b == data as u8;
}

#[verifier::spinoff_prover]
proof fn lemma_decode_swap_unlk(reg: u8, addr: u32, ws: Seq<u16>)
    requires
        reg <= 7,
    ensures
        ({
            let op = (0x4840 + reg as u16) as u16;
            spec_isa(op) == Isa::Swap && spec_decode(op, addr, ws) == Operands::Register(reg)
        }),
        ({
            let op = (0x4E58 + reg as u16) as u16;
            spec_isa(op) == Isa::Unlk && spec_decode(op, addr, ws) == Operands::Register(reg)
        }),
{
    reveal(spec_decode);
}

#[verifier::spinoff_prover]
proof fn lemma_decode_trap(vector: u8, addr: u32, ws: Seq<u16>)
    requires
        vector <= 15,
    ensures
        ({
            let op = (0x4E40 + vector as u16) as u16;
            spec_isa(op) == Isa::Trap && spec_decode(op, addr, ws) == Operands::Vector(vector)
        }),
{
    reveal(spec_decode);
}

#[verifier::spinoff_prover]
proof fn lemma_decode_ext(reg: u8, word_to_long: bool, addr: u32, ws: Seq<u16>)
    requires
        reg <= 7,
    ensures
        ({
            let op = (0x4880 + (if word_to_long { 0x40u16 } else { 0 }) + reg as u16) as u16;
            spec_isa(op) == Isa::Ext
                && spec_decode(op, addr, ws) == Operands::OpmodeRegister(if word_to_long { 3u8 } else { 2u8 }, reg)
        }),
{
    reveal(spec_decode);
}

#[verifier::rlimit(60)]
#[verifier::spinoff_prover]
proof fn lemma_decode_exg(reg: u8, reg2: u8, dir: Direction, addr: u32, ws: Seq<u16>)
    requires
        reg <= 7,
        reg2 <= 7,
        dir == Direction::ExchangeData || dir == Direction::ExchangeAddress || dir == Direction::ExchangeDataAddress,
    ensures
        ({
            let op = (0xC100 + (reg as u16) * 0x200 + spec_exg_opmode(dir) * 8 + reg2 as u16) as u16;
            spec_isa(op) == Isa::Exg && spec_decode(op, addr, ws) == Operands::RegisterOpmodeRegister(reg, dir, reg2)
        }),
{
    reveal(spec_decode);
    let opmode = spec_exg_opmode(dir);
    let op = (0xC100 + (reg as u16) * 0x200 + opmode * 8 + reg2 as u16) as u16;
    let r1 = reg as u16;
    let r2 = reg2 as u16;
    assert(op == 0xC100 + r1 * 0x200 + opmode * 8 + r2);
    assert(op / 0x1000 == 12 && (op / 8) % 32 == opmode && (op / 0x100) % 2 == 1 && (op / 0x200) % 8 == r1
        && op % 8 == r2 && (op / 0x40) % 4 == opmode / 8 && (op / 8) % 8 == opmode % 8) by (bit_vector)
        requires
            r1 <= 7, r2 <= 7, opmode == 8 || opmode == 9 || opmode == 17,
            op == 0xC100 + r1 * 0x200 + opmode * 8 + r2;
    assert(spec_isa(op) == Isa::Exg);
    assert(spec_exg_direction(op) == dir);
}

#[verifier::spinoff_prover]
proof fn lemma_decode_link(reg: u8, disp: i16, addr: u32)
    requires
        reg <= 7,
    ensures
        ({
            let op = (0x4E50 + reg as u16) as u16;
            spec_isa(op) == Isa::Link
                && spec_decode(op, addr, seq![disp as u16]) == Operands::RegisterDisplacement(reg, disp)
        }),
{
    reveal(spec_decode);
    lemma_displacement_round_trip(disp);
}

/// Decoding what the assembler emits for the instructions whose operands are registers, small
/// data or a displacement gives back the instruction and its operands: MOVEQ, SWAP, UNLK,
/// TRAP, EXT, EXG and LINK (whose extension word is the displacement).
#[verifier::spinoff_prover]
pub proof fn lemma_decode_assembled(reg: u8, reg2: u8, data: i8, vector: u8, word_to_long: bool, dir: Direction,
    disp: i16, addr: u32, ws: Seq<u16>)
    requires
        reg <= 7,
        reg2 <= 7,
        vector <= 15,
        dir == Direction::ExchangeData || dir == Direction::ExchangeAddress || dir == Direction::ExchangeDataAddress,
    ensures
        ({
            let op = (0x7000 + (reg as u16) * 0x200 + (data as u8) as u16) as u16;
            spec_isa(op) == Isa::Moveq && spec_decode(op, addr, ws) == Operands::RegisterData(reg, data)
        }),
        ({
            let op = (0x4840 + reg as u16) as u16;
            spec_isa(op) == Isa::Swap && spec_decode(op, addr, ws) == Operands::Register(reg)
        }),
        ({
            let op = (0x4E58 + reg as u16) as u16;
            spec_isa(op) == Isa::Unlk && spec_decode(op, addr, ws) == Operands::Register(reg)
        }),
        ({
            let op = (0x4E40 + vector as u16) as u16;
            spec_isa(op) == Isa::Trap && spec_decode(op, addr, ws) == Operands::Vector(vector)
        }),
        ({
            let op = (0x4880 + (if word_to_long { 0x40u16 } else { 0 }) + reg as u16) as u16;
            spec_isa(op) == Isa::Ext
                && spec_decode(op, addr, ws) == Operands::OpmodeRegister(if word_to_long { 3u8 } else { 2u8 }, reg)
        }),
        ({
            let op = (0xC100 + (reg as u16) * 0x200 + spec_exg_opmode(dir) * 8 + reg2 as u16) as u16;
            spec_isa(op) == Isa::Exg && spec_decode(op, addr, ws) == Operands::RegisterOpmodeRegister(reg, dir, reg2)
        }),
        ({
            let op = (0x4E50 + reg as u16) as u16;
            spec_isa(op) == Isa::Link
                && spec_decode(op, addr, seq![disp as u16]) == Operands::RegisterDisplacement(reg, disp)
        }),
{
    lemma_decode_moveq(reg, data, addr, ws);
    lemma_decode_swap_unlk(reg, addr, ws);
    lemma_decode_trap(vector, addr, ws);
    lemma_decode_ext(reg, word_to_long, addr, ws);
    lemma_decode_exg(reg, reg2, dir, addr, ws);
    lemma_decode_link(reg, disp, addr);
}


/// The instruction that the single operand instructions CLR, NEG, NEGX, NOT and TST are decoded to,
/// from the high byte of their opcode.
pub open spec fn spec_single_operand_isa(bits8_15: u8) -> Isa {
    if bits8_15 == 0x40 { Isa::Negx }
    else if bits8_15 == 0x42 { Isa::Clr }
    else if bits8_15 == 0x44 { Isa::Neg }
    else if bits8_15 == 0x46 { Isa::Not }
    else { Isa::Tst }
}

/// The instruction of a single operand opcode, from its fields.
#[verifier::rlimit(60)]
#[verifier::spinoff_prover]
proof fn lemma_single_operand_isa(op: u16, bits8_15: u8, sc: u16, m: u16, reg: u16)
    requires
        bits8_15 == 0x40 || bits8_15 == 0x42 || bits8_15 == 0x44 || bits8_15 == 0x46 || bits8_15 == 0x4A,
        sc <= 2,
        m <= 7,
        m != 1,
        reg <= 7,
        m == 7 ==> reg <= 1,
        op == (bits8_15 as u16) * 0x100 + sc * 0x40 + m * 8 + reg,
    ensures
        spec_isa(op) == spec_single_operand_isa(bits8_15),
{
    let b = bits8_15 as u16;
    assert(op / 0x1000 == 4 && (op / 0x100) % 16 == b % 16 && (op / 0x100) % 2 == 0 && (op / 0x40) % 4 == sc
        && (op / 8) % 8 == m && op % 8 == reg) by (bit_vector)
        requires
            b == 0x40 || b == 0x42 || b == 0x44 || b == 0x46 || b == 0x4A,
            sc <= 2, m <= 7, reg <= 7,
            op == b * 0x100 + sc * 0x40 + m * 8 + reg;
    assert(op / 16 != 0x4E4 && op / 8 != 0x9CA && op / 8 != 0x9CB && op / 16 != 0x4E6);
    assert(op / 8 != 0x908 && op / 8 != 0x910 && op / 8 != 0x918);
    assert(op != 0x4AFC && op != 0x4E70 && op != 0x4E71 && op != 0x4E72 && op != 0x4E73 && op != 0x4E75
        && op != 0x4E76 && op != 0x4E77);
}

/// Decoding what the assembler emits for CLR, NEG, NEGX, NOT and TST, whatever their size and
/// data alterable operand, gives back the instruction, its size and its operand, the extension
/// words of the operand being read after the opcode.
#[verifier::spinoff_prover]
pub proof fn lemma_decode_single_operand(bits8_15: u8, size: Size, am: AddressingMode, addr: u32)
    requires
        bits8_15 == 0x40 || bits8_15 == 0x42 || bits8_15 == 0x44 || bits8_15 == 0x46 || bits8_15 == 0x4A,
        am.spec_verify(modes_0234567(), regs_01()),
    ensures
        ({
            let words = spec_size_effective_address(bits8_15, size, am);
            &&& spec_isa(words[0]) == spec_single_operand_isa(bits8_15)
            &&& spec_decode(words[0], addr, words.subrange(1, words.len() as int))
                == Operands::SizeEffectiveAddress(size, am)
        }),
{
    let words = spec_size_effective_address(bits8_15, size, am);
    let op = words[0];
    let m = am.spec_mode() as u16;
    let reg = am.spec_reg_field();
    assert(modes_0234567().contains(am.spec_mode()) ==> m != 1 && m <= 7);
    if m == 7 {
        assert(regs_01().contains(reg));
    }
    assert(op == (bits8_15 as u16) * 0x100 + spec_size_code(size) * 0x40 + m * 8 + reg as u16);
    lemma_single_operand_isa(op, bits8_15, spec_size_code(size), m, reg as u16);
    assert((op / 0x40) % 4 == spec_size_code(size));
    assert((op / 8) % 8 == m);
    assert(op % 8 == reg as u16);
    assert(words.subrange(1, words.len() as int) =~= am.spec_ext(size == Size::Long));
    lemma_assemble_decode(am, size, addr);
    reveal(spec_decode);
}

/// The instruction of a MOVE opcode, from its fields.
#[verifier::rlimit(60)]
#[verifier::spinoff_prover]
proof fn lemma_move_isa(op: u16, mc: u16, dm: u16, dr: u16, sm: u16, sr: u16)
    requires
        mc == 1 || mc == 2 || mc == 3,
        dm <= 7 && dm != 1 && dr <= 7,
        dm == 7 ==> dr <= 1,
        sm <= 7 && sr <= 7,
        sm == 7 ==> sr <= 4,
        mc == 1 ==> sm != 1,
        op == mc * 0x1000 + dr * 0x200 + dm * 0x40 + sm * 8 + sr,
    ensures
        spec_isa(op) == Isa::Move,
        (op / 0x40) % 8 == dm,
        (op / 0x200) % 8 == dr,
        (op / 8) % 8 == sm,
        op % 8 == sr,
        (op / 0x1000) % 4 == mc,
{
    assert(op / 0x1000 == mc && (op / 0x40) % 8 == dm && (op / 0x200) % 8 == dr && (op / 8) % 8 == sm && op % 8 == sr
        && (op / 0x1000) % 4 == mc) by (bit_vector)
        requires
            1 <= mc <= 3, dm <= 7, dr <= 7, sm <= 7, sr <= 7,
            op == mc * 0x1000 + dr * 0x200 + dm * 0x40 + sm * 8 + sr;
}

/// Decoding what the assembler emits for MOVE gives back the instruction, its size, its destination
/// and its source: the extension words of the source come first, at `addr`, then those of the
/// destination. A program counter relative source is decoded at the address of its extension word,
/// and an immediate source that is not a long fits in a word.
#[verifier::spinoff_prover]
pub proof fn lemma_decode_move(size: Size, dst: AddressingMode, src: AddressingMode, addr: u32)
    requires
        dst.spec_verify(modes_0234567(), regs_01()),
        !(src.spec_mode() == 1 && size == Size::Byte),
        src.spec_wf(),
        src matches AddressingMode::Pciwd(pc, _) ==> pc == addr,
        src matches AddressingMode::Pciwi8(pc, _) ==> pc == addr,
        src matches AddressingMode::Immediate(imm) ==> size == Size::Long || imm < 0x1_0000,
    ensures
        ({
            let words = spec_size_effective_address_effective_address(size, dst, src);
            &&& spec_isa(words[0]) == Isa::Move
            &&& spec_decode(words[0], addr, words.subrange(1, words.len() as int))
                == Operands::SizeEffectiveAddressEffectiveAddress(size, dst, src)
        }),
{
    let words = spec_size_effective_address_effective_address(size, dst, src);
    let op = words[0];
    let dm = dst.spec_mode() as u16;
    let dr = dst.spec_reg_field() as u16;
    let sm = src.spec_mode() as u16;
    let sr = src.spec_reg_field() as u16;
    assert(modes_0234567().contains(dst.spec_mode()) ==> dm != 1 && dm <= 7);
    if dm == 7 {
        assert(regs_01().contains(dst.spec_reg_field()));
    }
    lemma_assemble_decode(src, size, addr);
    assert(op == spec_move_code(size) * 0x1000 + dr * 0x200 + dm * 0x40 + sm * 8 + sr);
    lemma_move_isa(op, spec_move_code(size), dm, dr, sm, sr);
    let n = src.spec_ext(size == Size::Long).len();
    let rest = words.subrange(1, words.len() as int);
    assert(rest.subrange(0, n as int) =~= src.spec_ext(size == Size::Long));
    assert(rest.subrange(n as int, rest.len() as int) =~= dst.spec_ext(false));
    lemma_assemble_decode(dst, size, spec_wrapping_add(addr, (2 * n) as u32));
    assert(dst.spec_ext(false) == dst.spec_ext(size == Size::Long));
    reveal(spec_decode);
}

/// Decoding what the assembler emits for MOVEA gives back the instruction, its size, its address
/// register and its source.
#[verifier::spinoff_prover]
#[verifier::rlimit(60)]
pub proof fn lemma_decode_move_address(size: Size, reg: u8, src: AddressingMode, addr: u32)
    requires
        reg <= 7,
        size != Size::Byte,
        src.spec_wf(),
        src matches AddressingMode::Pciwd(pc, _) ==> pc == addr,
        src matches AddressingMode::Pciwi8(pc, _) ==> pc == addr,
        src matches AddressingMode::Immediate(imm) ==> size == Size::Long || imm < 0x1_0000,
    ensures
        ({
            let words = spec_size_effective_address_effective_address(size, AddressingMode::Ard(reg), src);
            &&& spec_isa(words[0]) == Isa::Movea
            &&& spec_decode(words[0], addr, words.subrange(1, words.len() as int))
                == Operands::SizeRegisterEffectiveAddress(size, reg, src)
        }),
{
    let dst = AddressingMode::Ard(reg);
    let words = spec_size_effective_address_effective_address(size, dst, src);
    let op = words[0];
    let mc = spec_move_code(size);
    let dr = reg as u16;
    let sm = src.spec_mode() as u16;
    let sr = src.spec_reg_field() as u16;
    lemma_assemble_decode(src, size, addr);
    assert(mc == 2 || mc == 3);
    assert(op == mc * 0x1000 + dr * 0x200 + 0x40 + sm * 8 + sr);
    assert(op / 0x1000 == mc && (op / 0x40) % 8 == 1 && (op / 0x200) % 8 == dr && (op / 8) % 8 == sm && op % 8 == sr
        && (op / 0x1000) % 4 == mc) by (bit_vector)
        requires
            2 <= mc <= 3, dr <= 7, sm <= 7, sr <= 7,
            op == mc * 0x1000 + dr * 0x200 + 0x40 + sm * 8 + sr;
    assert(spec_isa(op) == Isa::Movea);
    assert(words.subrange(1, words.len() as int) =~= src.spec_ext(size == Size::Long));
    assert(spec_decode(op, addr, words.subrange(1, words.len() as int))
        == Operands::SizeRegisterEffectiveAddress(size, reg, src)) by {
        reveal(spec_decode);
    }
}

/// The instruction of a branch opcode of the given condition: BRA for T, BSR for F, Bcc otherwise.
pub open spec fn spec_branch_isa(cond: Condition) -> Isa {
    if cond == Condition::T { Isa::Bra } else if cond == Condition::F { Isa::Bsr } else { Isa::Bcc }
}

/// The fields of an opcode made of a line, a register in bits 9 to 11, an operation mode in bits 6
/// to 8 and an effective address.
proof fn lemma_register_ea_fields(op: u16, line: u16, reg: u16, opmode: u16, m: u16, r: u16)
    requires
        line <= 15, reg <= 7, opmode <= 7, m <= 7, r <= 7,
        op == line * 0x1000 + reg * 0x200 + opmode * 0x40 + m * 8 + r,
    ensures
        op / 0x1000 == line,
        (op / 0x200) % 8 == reg,
        (op / 0x40) % 4 == opmode % 4,
        (op / 0x100) % 2 == opmode / 4,
        (op / 8) % 8 == m,
        op % 8 == r,
{
    lemma_opcode_fields(op, line, reg, opmode / 4, opmode % 4, m, r);
}

/// The fields of an opcode: its line (bits 12 to 15), bits 9 to 11, bit 8, bits 6 and 7, bits 3 to
/// 5 and bits 0 to 2, with the groupings of them that the decoder reads.
proof fn lemma_opcode_fields(op: u16, line: u16, reg9: u16, b8: u16, sz: u16, m: u16, r: u16)
    requires
        line <= 15, reg9 <= 7, b8 <= 1, sz <= 3, m <= 7, r <= 7,
        op == line * 0x1000 + reg9 * 0x200 + b8 * 0x100 + sz * 0x40 + m * 8 + r,
    ensures
        op / 0x1000 == line,
        (op / 0x200) % 8 == reg9,
        (op / 0x100) % 2 == b8,
        (op / 0x40) % 4 == sz,
        (op / 8) % 8 == m,
        op % 8 == r,
        (op / 0x100) % 16 == reg9 * 2 + b8,
        (op / 8) % 32 == sz * 8 + m,
        (op / 8) % 2 == m % 2,
        (op / 0x40) % 2 == sz % 2,
{
    assert(op / 0x1000 == line && (op / 0x200) % 8 == reg9 && (op / 0x100) % 2 == b8 && (op / 0x40) % 4 == sz
        && (op / 8) % 8 == m && op % 8 == r && (op / 0x100) % 16 == reg9 * 2 + b8 && (op / 8) % 32 == sz * 8 + m
        && (op / 8) % 2 == m % 2 && (op / 0x40) % 2 == sz % 2) by (bit_vector)
        requires
            line <= 15, reg9 <= 7, b8 <= 1, sz <= 3, m <= 7, r <= 7,
            op == line * 0x1000 + reg9 * 0x200 + b8 * 0x100 + sz * 0x40 + m * 8 + r;
}

/// Decoding what the assembler emits for MULU, MULS, DIVU and DIVS, whatever the register and the
/// data addressing mode of the source, gives back that instruction (unsigned for MULU and DIVU,
/// signed for MULS and DIVS), the register and the source, the extension words of the source
/// being read after the opcode.
#[verifier::spinoff_prover]
pub proof fn lemma_decode_multiply_divide(reg: u8, am: AddressingMode, addr: u32)
    requires
        reg <= 7,
        am.spec_verify(modes_0234567(), regs_01234()),
        am matches AddressingMode::Pciwd(pc, _) ==> pc == addr,
        am matches AddressingMode::Pciwi8(pc, _) ==> pc == addr,
        am matches AddressingMode::Immediate(imm) ==> imm < 0x1_0000,
    ensures
        ({
            let w = spec_register_effective_address(0b1100, reg as u16, 0b011, am);
            spec_isa(w[0]) == Isa::Mulu && spec_decode(w[0], addr, w.subrange(1, w.len() as int)) == Operands::RegisterEffectiveAddress(reg, am)
        }),
        ({
            let w = spec_register_effective_address(0b1100, reg as u16, 0b111, am);
            spec_isa(w[0]) == Isa::Muls && spec_decode(w[0], addr, w.subrange(1, w.len() as int)) == Operands::RegisterEffectiveAddress(reg, am)
        }),
        ({
            let w = spec_register_effective_address(0b1000, reg as u16, 0b011, am);
            spec_isa(w[0]) == Isa::Divu && spec_decode(w[0], addr, w.subrange(1, w.len() as int)) == Operands::RegisterEffectiveAddress(reg, am)
        }),
        ({
            let w = spec_register_effective_address(0b1000, reg as u16, 0b111, am);
            spec_isa(w[0]) == Isa::Divs && spec_decode(w[0], addr, w.subrange(1, w.len() as int)) == Operands::RegisterEffectiveAddress(reg, am)
        }),
{
    lemma_decode_register_ea(0b1100, 0b011, reg, am, addr);
    lemma_decode_register_ea(0b1100, 0b111, reg, am, addr);
    lemma_decode_register_ea(0b1000, 0b011, reg, am, addr);
    lemma_decode_register_ea(0b1000, 0b111, reg, am, addr);
}

/// One of the four cases of MULU, MULS, DIVU and DIVS.
#[verifier::spinoff_prover]
proof fn lemma_decode_register_ea(line: u16, opmode: u16, reg: u8, am: AddressingMode, addr: u32)
    requires
        line == 8 || line == 12,
        opmode == 3 || opmode == 7,
        reg <= 7,
        am.spec_verify(modes_0234567(), regs_01234()),
        am matches AddressingMode::Pciwd(pc, _) ==> pc == addr,
        am matches AddressingMode::Pciwi8(pc, _) ==> pc == addr,
        am matches AddressingMode::Immediate(imm) ==> imm < 0x1_0000,
    ensures
        ({
            let w = spec_register_effective_address(line, reg as u16, opmode, am);
            &&& spec_isa(w[0]) == (if line == 12 {
                    if opmode == 3 { Isa::Mulu } else { Isa::Muls }
                } else {
                    if opmode == 3 { Isa::Divu } else { Isa::Divs }
                })
            &&& spec_decode(w[0], addr, w.subrange(1, w.len() as int)) == Operands::RegisterEffectiveAddress(reg, am)
        }),
{
    let w = spec_register_effective_address(line, reg as u16, opmode, am);
    let op = w[0];
    let m = am.spec_mode() as u16;
    let r = am.spec_reg_field() as u16;
    assert(modes_0234567().contains(am.spec_mode()) ==> m != 1 && m <= 7);
    if m == 7 {
        assert(regs_01234().contains(am.spec_reg_field()));
    }
    assert(op == line * 0x1000 + (reg as u16) * 0x200 + opmode * 0x40 + m * 8 + r);
    lemma_register_ea_fields(op, line, reg as u16, opmode, m, r);
    assert(w.subrange(1, w.len() as int) =~= am.spec_ext(false));
    lemma_assemble_decode(am, Size::Word, addr);
    reveal(spec_decode);
}

/// The ISA of a shift or rotate of a data register by its kind field: ASd, LSd, ROXd, ROd.
pub open spec fn spec_shift_register_isa(kind: u16) -> Isa {
    if kind == 0 { Isa::Asr } else if kind == 1 { Isa::Lsr } else if kind == 2 { Isa::Roxr } else { Isa::Ror }
}

/// The ISA of a shift or rotate of a memory word by its kind field: ASd, LSd, ROXd, ROd.
pub open spec fn spec_shift_memory_isa(kind: u16) -> Isa {
    if kind == 0 { Isa::Asm } else if kind == 1 { Isa::Lsm } else if kind == 2 { Isa::Roxm } else { Isa::Rom }
}

/// Decoding what the assembler emits for ASL/ASR, LSL/LSR, ROXL/ROXR and ROL/ROR on a data
/// register gives back that instruction, its count or count register, its direction, its size,
/// whether the count is in a register and the data register.
#[verifier::spinoff_prover]
pub proof fn lemma_decode_shift_register(kind: u16, count_reg: u8, dir: Direction, size: Size, ir: u8, reg: u8, addr: u32, ws: Seq<u16>)
    requires
        kind <= 3,
        count_reg <= 7,
        dir == Direction::Left || dir == Direction::Right,
        ir <= 1,
        reg <= 7,
    ensures
        ({
            let op = spec_rotation_direction_size_mode_register(0b1110, count_reg as u16, dir, size, ir as u16, kind, reg as u16);
            &&& spec_isa(op) == spec_shift_register_isa(kind)
            &&& spec_decode(op, addr, ws) == Operands::RotationDirectionSizeModeRegister(count_reg, dir, size, ir, reg)
        }),
{
    let op = spec_rotation_direction_size_mode_register(0b1110, count_reg as u16, dir, size, ir as u16, kind, reg as u16);
    let (c, d, z, i, r) = (count_reg as u16, if dir == Direction::Left { 1u16 } else { 0 }, spec_size_code(size), ir as u16, reg as u16);
    assert(op == 0xE000 + c * 0x200 + d * 0x100 + z * 0x40 + i * 0x20 + kind * 8 + r);
    assert(op / 0x1000 == 14 && (op / 0x200) % 8 == c && (op / 0x100) % 2 == d && (op / 0x40) % 4 == z
        && (op / 0x20) % 2 == i && (op / 8) % 4 == kind && op % 8 == r) by (bit_vector)
        requires
            c <= 7, d <= 1, z <= 2, i <= 1, kind <= 3, r <= 7,
            op == 0xE000 + c * 0x200 + d * 0x100 + z * 0x40 + i * 0x20 + kind * 8 + r;
    assert(spec_isa(op) == spec_shift_register_isa(kind));
    assert(spec_decode(op, addr, ws) == Operands::RotationDirectionSizeModeRegister(count_reg, dir, size, ir, reg)) by {
        reveal(spec_decode);
    }
}

/// Decoding what the assembler emits for ASL/ASR, LSL/LSR, ROXL/ROXR and ROL/ROR on a memory word
/// gives back that instruction, its direction and its memory alterable operand.
#[verifier::spinoff_prover]
pub proof fn lemma_decode_shift_memory(kind: u16, dir: Direction, am: AddressingMode, addr: u32)
    requires
        kind <= 3,
        dir == Direction::Left || dir == Direction::Right,
        am.spec_verify(modes_234567(), regs_01()),
    ensures
        ({
            let w = spec_direction_effective_address((0b1110_000 + kind) as u16, dir, 0b11, am);
            &&& spec_isa(w[0]) == spec_shift_memory_isa(kind)
            &&& spec_decode(w[0], addr, w.subrange(1, w.len() as int)) == Operands::DirectionEffectiveAddress(dir, am)
        }),
{
    let w = spec_direction_effective_address((0b1110_000 + kind) as u16, dir, 0b11, am);
    let op = w[0];
    let m = am.spec_mode() as u16;
    let r = am.spec_reg_field() as u16;
    let d: u16 = if dir == Direction::Left { 1 } else { 0 };
    assert(modes_234567().contains(am.spec_mode()) ==> 2 <= m <= 7);
    if m == 7 {
        assert(regs_01().contains(am.spec_reg_field()));
    }
    assert(op == 0xE000 + kind * 0x200 + d * 0x100 + 0xC0 + m * 8 + r);
    lemma_opcode_fields(op, 14, kind, d, 3, m, r);
    assert(w.subrange(1, w.len() as int) =~= am.spec_ext(false));
    lemma_assemble_decode(am, Size::Byte, addr);
    reveal(spec_decode);
}

/// Decoding what the assembler emits for ABCD, SBCD, ADDX and SUBX gives back that instruction,
/// its destination register, its size, its mode (data registers, or predecremented address
/// registers) and its source register.
#[verifier::spinoff_prover]
pub proof fn lemma_decode_extended_arithmetic(line: u16, dst: u8, size: Size, mode: Direction, src: u8, addr: u32, ws: Seq<u16>)
    requires
        line == 8 || line == 9 || line == 12 || line == 13,
        line == 8 || line == 12 ==> size == Size::Byte,
        dst <= 7,
        src <= 7,
        mode == Direction::RegisterToRegister || mode == Direction::MemoryToMemory,
    ensures
        ({
            let op = spec_register_size_mode_register(line, dst, size, 0, mode, src);
            &&& spec_isa(op) == (if line == 8 { Isa::Sbcd } else if line == 9 { Isa::Subx } else if line == 12 { Isa::Abcd } else { Isa::Addx })
            &&& spec_decode(op, addr, ws) == Operands::RegisterSizeModeRegister(dst, size, mode, src)
        }),
{
    let op = spec_register_size_mode_register(line, dst, size, 0, mode, src);
    let (a, z, md, b) = (dst as u16, spec_size_code(size), if mode == Direction::MemoryToMemory { 1u16 } else { 0 }, src as u16);
    assert(op == line * 0x1000 + a * 0x200 + 0x100 + z * 0x40 + md * 8 + b);
    lemma_opcode_fields(op, line, a, 1, z, md, b);
    assert(spec_isa(op) == (if line == 8 { Isa::Sbcd } else if line == 9 { Isa::Subx } else if line == 12 { Isa::Abcd } else { Isa::Addx }));
    assert(spec_decode(op, addr, ws) == Operands::RegisterSizeModeRegister(dst, size, mode, src)) by {
        reveal(spec_decode);
    }
}

/// The ISA of a two-operand instruction between a data register and an effective address, by its
/// line and direction: OR, SUB, CMP or EOR, AND, ADD.
pub open spec fn spec_register_direction_isa(line: u16, dir: Direction) -> Isa {
    if line == 8 { Isa::Or }
    else if line == 9 { Isa::Sub }
    else if line == 11 { if dir == Direction::DstEa { Isa::Eor } else { Isa::Cmp } }
    else if line == 12 { Isa::And }
    else { Isa::Add }
}

/// Decoding what the assembler emits for OR, SUB, CMP, EOR, AND and ADD between a data register and
/// an effective address gives back that instruction, the register, the direction (to the register
/// or to the effective address), the size and the effective address.
#[verifier::spinoff_prover]
#[verifier::rlimit(60)]
pub proof fn lemma_decode_register_direction(line: u16, reg: u8, dir: Direction, size: Size, am: AddressingMode, addr: u32)
    requires
        line == 8 || line == 9 || line == 11 || line == 12 || line == 13,
        reg <= 7,
        dir == Direction::DstEa || dir == Direction::DstReg,
        line == 11 && dir == Direction::DstEa ==> am.spec_verify(modes_0234567(), regs_01()),
        line != 11 && dir == Direction::DstEa ==> am.spec_verify(modes_234567(), regs_01()),
        (line == 9 || line == 11 || line == 13) && dir == Direction::DstReg ==>
            !(am.spec_mode() == 1 && size == Size::Byte) && am.spec_verify(modes_01234567(), regs_01234()),
        (line == 8 || line == 12) && dir == Direction::DstReg ==> am.spec_verify(modes_0234567(), regs_01234()),
        am matches AddressingMode::Pciwd(pc, _) ==> pc == addr,
        am matches AddressingMode::Pciwi8(pc, _) ==> pc == addr,
        am matches AddressingMode::Immediate(imm) ==> size == Size::Long || imm < 0x1_0000,
    ensures
        ({
            let w = spec_register_direction_size_effective_address(line, reg, dir, size, am);
            &&& spec_isa(w[0]) == spec_register_direction_isa(line, dir)
            &&& spec_decode(w[0], addr, w.subrange(1, w.len() as int)) == Operands::RegisterDirectionSizeEffectiveAddress(reg, dir, size, am)
        }),
{
    let w = spec_register_direction_size_effective_address(line, reg, dir, size, am);
    let op = w[0];
    let m = am.spec_mode() as u16;
    let r = am.spec_reg_field() as u16;
    let d: u16 = if dir == Direction::DstEa { 1 } else { 0 };
    let z = spec_size_code(size);
    let a = reg as u16;
    lemma_assemble_decode(am, size, addr);
    if dir == Direction::DstEa {
        if line == 11 {
            assert(modes_0234567().contains(am.spec_mode()) ==> m != 1);
        } else {
            assert(modes_234567().contains(am.spec_mode()) ==> m >= 2);
        }
        if m == 7 {
            assert(regs_01().contains(am.spec_reg_field()));
        }
    } else if line == 8 || line == 12 {
        assert(modes_0234567().contains(am.spec_mode()) ==> m != 1);
    }
    assert(op == line * 0x1000 + a * 0x200 + d * 0x100 + z * 0x40 + m * 8 + r);
    lemma_opcode_fields(op, line, a, d, z, m, r);
    assert(spec_isa(op) == spec_register_direction_isa(line, dir));
    assert(w.subrange(1, w.len() as int) =~= am.spec_ext(size == Size::Long));
    assert(spec_decode(op, addr, w.subrange(1, w.len() as int)) == Operands::RegisterDirectionSizeEffectiveAddress(reg, dir, size, am)) by {
        reveal(spec_decode);
    }
}

/// Decoding what the assembler emits for SUBA, CMPA and ADDA gives back that instruction, the
/// address register, the size (word or long) and the source.
#[verifier::spinoff_prover]
pub proof fn lemma_decode_address_arithmetic(line: u16, reg: u8, size: Size, am: AddressingMode, addr: u32)
    requires
        line == 9 || line == 11 || line == 13,
        reg <= 7,
        size != Size::Byte,
        am.spec_wf(),
        am matches AddressingMode::Pciwd(pc, _) ==> pc == addr,
        am matches AddressingMode::Pciwi8(pc, _) ==> pc == addr,
        am matches AddressingMode::Immediate(imm) ==> size == Size::Long || imm < 0x1_0000,
    ensures
        ({
            let w = spec_register_size_effective_address(line, reg, size, am);
            &&& spec_isa(w[0]) == (if line == 9 { Isa::Suba } else if line == 11 { Isa::Cmpa } else { Isa::Adda })
            &&& spec_decode(w[0], addr, w.subrange(1, w.len() as int)) == Operands::RegisterSizeEffectiveAddress(reg, size, am)
        }),
{
    let w = spec_register_size_effective_address(line, reg, size, am);
    let op = w[0];
    let m = am.spec_mode() as u16;
    let r = am.spec_reg_field() as u16;
    let l: u16 = if size == Size::Long { 1 } else { 0 };
    let a = reg as u16;
    lemma_assemble_decode(am, size, addr);
    assert(op == line * 0x1000 + a * 0x200 + l * 0x100 + 0xC0 + m * 8 + r);
    lemma_opcode_fields(op, line, a, l, 3, m, r);
    assert(spec_isa(op) == (if line == 9 { Isa::Suba } else if line == 11 { Isa::Cmpa } else { Isa::Adda }));
    assert(w.subrange(1, w.len() as int) =~= am.spec_ext(size == Size::Long));
    assert(spec_decode(op, addr, w.subrange(1, w.len() as int)) == Operands::RegisterSizeEffectiveAddress(reg, size, am)) by {
        reveal(spec_decode);
    }
}

/// The ISA of the instructions of line 4 whose one operand is an effective address, by bits 6 to
/// 15 of their opcode.
pub open spec fn spec_effective_address_isa(bits6_15: u16) -> Isa {
    if bits6_15 == 0b0100_1110_11 { Isa::Jmp }
    else if bits6_15 == 0b0100_1110_10 { Isa::Jsr }
    else if bits6_15 == 0b0100_1000_01 { Isa::Pea }
    else if bits6_15 == 0b0100_1000_00 { Isa::Nbcd }
    else if bits6_15 == 0b0100_1010_11 { Isa::Tas }
    else if bits6_15 == 0b0100_0100_11 { Isa::Moveccr }
    else if bits6_15 == 0b0100_0000_11 { Isa::Movefsr }
    else { Isa::Movesr }
}

/// Decoding what the assembler emits for JMP, JSR and PEA (control operand), NBCD, TAS and MOVE
/// from SR (data alterable operand), and MOVE to CCR and MOVE to SR (data operand) gives back
/// that instruction and its operand.
#[verifier::spinoff_prover]
#[verifier::rlimit(60)]
pub proof fn lemma_decode_effective_address(bits6_15: u16, am: AddressingMode, addr: u32)
    requires
        bits6_15 == 0b0100_1110_11 || bits6_15 == 0b0100_1110_10 || bits6_15 == 0b0100_1000_01 || bits6_15 == 0b0100_1000_00
            || bits6_15 == 0b0100_1010_11 || bits6_15 == 0b0100_0100_11 || bits6_15 == 0b0100_0000_11 || bits6_15 == 0b0100_0110_11,
        bits6_15 == 0b0100_1110_11 || bits6_15 == 0b0100_1110_10 || bits6_15 == 0b0100_1000_01 ==> am.spec_verify(modes_2567(), regs_0123()),
        bits6_15 == 0b0100_1000_00 || bits6_15 == 0b0100_1010_11 || bits6_15 == 0b0100_0000_11 ==> am.spec_verify(modes_0234567(), regs_01()),
        bits6_15 == 0b0100_0100_11 || bits6_15 == 0b0100_0110_11 ==> am.spec_verify(modes_0234567(), regs_01234()),
        am matches AddressingMode::Pciwd(pc, _) ==> pc == addr,
        am matches AddressingMode::Pciwi8(pc, _) ==> pc == addr,
        am matches AddressingMode::Immediate(imm) ==> imm < 0x1_0000,
    ensures
        ({
            let w = spec_effective_address(bits6_15, am);
            &&& spec_isa(w[0]) == spec_effective_address_isa(bits6_15)
            &&& spec_decode(w[0], addr, w.subrange(1, w.len() as int)) == Operands::EffectiveAddress(am)
        }),
{
    let w = spec_effective_address(bits6_15, am);
    let op = w[0];
    let m = am.spec_mode() as u16;
    let r = am.spec_reg_field() as u16;
    let b = bits6_15;
    lemma_assemble_decode(am, Size::Word, addr);
    if bits6_15 == 0b0100_1110_11 || bits6_15 == 0b0100_1110_10 || bits6_15 == 0b0100_1000_01 {
        assert(modes_2567().contains(am.spec_mode()) ==> m == 2 || m == 5 || m == 6 || m == 7);
        if m == 7 {
            assert(regs_0123().contains(am.spec_reg_field()));
        }
    } else if bits6_15 == 0b0100_0100_11 || bits6_15 == 0b0100_0110_11 {
        assert(modes_0234567().contains(am.spec_mode()) ==> m != 1);
        if m == 7 {
            assert(regs_01234().contains(am.spec_reg_field()));
        }
    } else {
        assert(modes_0234567().contains(am.spec_mode()) ==> m != 1);
        if m == 7 {
            assert(regs_01().contains(am.spec_reg_field()));
        }
    }
    assert(op == b * 0x40 + m * 8 + r);
    assert(op / 0x1000 == 4 && (op / 0x100) % 16 == b / 4 % 16 && (op / 0x100) % 2 == (b / 4) % 2 && (op / 0x40) % 4 == b % 4
        && (op / 8) % 8 == m && op % 8 == r) by (bit_vector)
        requires
            0x100 <= b < 0x140, m <= 7, r <= 7,
            op == b * 0x40 + m * 8 + r;
    assert(op / 16 != 0x4E4 && op / 8 != 0x9CA && op / 8 != 0x9CB && op / 16 != 0x4E6 && op / 8 != 0x908 && op / 8 != 0x910 && op / 8 != 0x918);
    assert(op != 0x4AFC && op != 0x4E70 && op != 0x4E71 && op != 0x4E72 && op != 0x4E73 && op != 0x4E75
        && op != 0x4E76 && op != 0x4E77);
    assert(spec_isa(op) == spec_effective_address_isa(bits6_15));
    assert(w.subrange(1, w.len() as int) =~= am.spec_ext(false));
    assert(spec_decode(op, addr, w.subrange(1, w.len() as int)) == Operands::EffectiveAddress(am)) by {
        reveal(spec_decode);
        if spec_effective_address_isa(bits6_15) == Isa::Pea {
            lemma_assemble_decode(am, Size::Long, addr);
        } else if spec_effective_address_isa(bits6_15) == Isa::Nbcd || spec_effective_address_isa(bits6_15) == Isa::Tas {
            lemma_assemble_decode(am, Size::Byte, addr);
        }
    }
}

/// The ISA of an instruction with immediate data and a data alterable destination, by bits 8 to 15
/// of its opcode.
pub open spec fn spec_immediate_isa(bits8_15: u8) -> Isa {
    if bits8_15 == 0x00 { Isa::Ori }
    else if bits8_15 == 0x02 { Isa::Andi }
    else if bits8_15 == 0x04 { Isa::Subi }
    else if bits8_15 == 0x06 { Isa::Addi }
    else if bits8_15 == 0x0A { Isa::Eori }
    else { Isa::Cmpi }
}

/// Decoding what the assembler emits for ORI, ANDI, SUBI, ADDI, EORI and CMPI gives back that
/// instruction, its size, its destination and its immediate data reduced to the size.
#[verifier::spinoff_prover]
#[verifier::rlimit(60)]
pub proof fn lemma_decode_immediate(bits8_15: u8, size: Size, am: AddressingMode, imm: u32, addr: u32)
    requires
        bits8_15 == 0x00 || bits8_15 == 0x02 || bits8_15 == 0x04 || bits8_15 == 0x06 || bits8_15 == 0x0A || bits8_15 == 0x0C,
        am.spec_verify(modes_0234567(), regs_01()),
    ensures
        ({
            let w = spec_size_effective_address_immediate(bits8_15, size, am, imm);
            &&& spec_isa(w[0]) == spec_immediate_isa(bits8_15)
            &&& spec_decode(w[0], addr, w.subrange(1, w.len() as int))
                == Operands::SizeEffectiveAddressImmediate(size, am, spec_low(imm, size))
        }),
{
    let w = spec_size_effective_address_immediate(bits8_15, size, am, imm);
    let op = w[0];
    let m = am.spec_mode() as u16;
    let r = am.spec_reg_field() as u16;
    let b = bits8_15 as u16;
    let z = spec_size_code(size);
    assert(modes_0234567().contains(am.spec_mode()) ==> m != 1);
    if m == 7 {
        assert(regs_01().contains(am.spec_reg_field()));
    }
    assert(op == b * 0x100 + z * 0x40 + m * 8 + r);
    assert(op / 0x1000 == 0 && (op / 0x200) % 8 == b / 2 && (op / 0x100) % 2 == 0 && (op / 0x100) % 16 == b
        && (op / 0x40) % 4 == z && (op / 8) % 8 == m && op % 8 == r) by (bit_vector)
        requires
            b <= 0x0C, b % 2 == 0, z <= 2, m <= 7, r <= 7,
            op == b * 0x100 + z * 0x40 + m * 8 + r;
    assert(op != 0x003C && op != 0x007C && op != 0x023C && op != 0x027C && op != 0x0A3C && op != 0x0A7C);
    assert(spec_isa(op) == spec_immediate_isa(bits8_15));
    let n: int = if size == Size::Long { 2 } else { 1 };
    let ws = w.subrange(1, w.len() as int);
    assert(ws.subrange(0, n) =~= spec_immediate_words(size, imm));
    assert(ws.subrange(n, ws.len() as int) =~= am.spec_ext(size == Size::Long));
    lemma_assemble_decode(am, size, spec_wrapping_add(addr, (2 * n) as u32));
    let v = crate::instruction::spec_size_effective_address_immediate(op, addr, ws);
    assert(v.2 == spec_low(imm, size)) by {
        if size == Size::Long {
            assert(((imm / 0x1_0000) as u16) as int * 0x1_0000 + ((imm % 0x1_0000) as u16) as int == imm);
        }
    }
    assert(spec_decode(op, addr, ws) == Operands::SizeEffectiveAddressImmediate(size, am, spec_low(imm, size))) by {
        reveal(spec_decode);
    }
}

/// Decoding what the assembler emits for ADDQ and SUBQ gives back that instruction, its data field
/// (8 being written 0), its size and its alterable destination.
#[verifier::spinoff_prover]
#[verifier::rlimit(60)]
pub proof fn lemma_decode_quick(data: u8, sub: bool, size: Size, am: AddressingMode, addr: u32)
    requires
        1 <= data <= 8,
        am.spec_verify(modes_01234567(), regs_01()),
        !(am.spec_mode() == 1 && size == Size::Byte),
    ensures
        ({
            let w = spec_data_size_effective_address(spec_quick_data(data), if sub { 1 } else { 0 }, size, am);
            &&& spec_isa(w[0]) == (if sub { Isa::Subq } else { Isa::Addq })
            &&& spec_decode(w[0], addr, w.subrange(1, w.len() as int))
                == Operands::DataSizeEffectiveAddress(spec_quick_data(data), size, am)
        }),
{
    let q = spec_quick_data(data);
    let w = spec_data_size_effective_address(q, if sub { 1 } else { 0 }, size, am);
    let op = w[0];
    let m = am.spec_mode() as u16;
    let r = am.spec_reg_field() as u16;
    let d = q as u16;
    let s8: u16 = if sub { 1 } else { 0 };
    let z = spec_size_code(size);
    if m == 7 {
        assert(regs_01().contains(am.spec_reg_field()));
    }
    assert(op == 0x5000 + d * 0x200 + s8 * 0x100 + z * 0x40 + m * 8 + r);
    lemma_opcode_fields(op, 5, d, s8, z, m, r);
    assert(spec_isa(op) == (if sub { Isa::Subq } else { Isa::Addq }));
    assert(w.subrange(1, w.len() as int) =~= am.spec_ext(size == Size::Long));
    lemma_assemble_decode(am, size, addr);
    assert(spec_decode(op, addr, w.subrange(1, w.len() as int)) == Operands::DataSizeEffectiveAddress(q, size, am)) by {
        reveal(spec_decode);
    }
}

/// Decoding the opcodes without operands (ILLEGAL, RESET, NOP, RTE, RTS, TRAPV, RTR) gives back
/// their instruction, and decoding what the assembler emits for the instructions with one
/// immediate word (ORI, ANDI and EORI to CCR and to SR, STOP) gives back the instruction and the
/// word, reduced to a byte for the CCR.
#[verifier::spinoff_prover]
pub proof fn lemma_decode_fixed_opcodes(imm: u16, addr: u32, ws: Seq<u16>)
    ensures
        spec_isa(0x4AFC) == Isa::Illegal && spec_decode(0x4AFC, addr, ws) == Operands::NoOperands,
        spec_isa(0x4E70) == Isa::Reset && spec_decode(0x4E70, addr, ws) == Operands::NoOperands,
        spec_isa(0x4E71) == Isa::Nop && spec_decode(0x4E71, addr, ws) == Operands::NoOperands,
        spec_isa(0x4E73) == Isa::Rte && spec_decode(0x4E73, addr, ws) == Operands::NoOperands,
        spec_isa(0x4E75) == Isa::Rts && spec_decode(0x4E75, addr, ws) == Operands::NoOperands,
        spec_isa(0x4E76) == Isa::Trapv && spec_decode(0x4E76, addr, ws) == Operands::NoOperands,
        spec_isa(0x4E77) == Isa::Rtr && spec_decode(0x4E77, addr, ws) == Operands::NoOperands,
        spec_isa(0x003C) == Isa::Oriccr && spec_decode(0x003C, addr, seq![imm % 0x100]) == Operands::Immediate(imm % 0x100),
        spec_isa(0x023C) == Isa::Andiccr && spec_decode(0x023C, addr, seq![imm % 0x100]) == Operands::Immediate(imm % 0x100),
        spec_isa(0x0A3C) == Isa::Eoriccr && spec_decode(0x0A3C, addr, seq![imm % 0x100]) == Operands::Immediate(imm % 0x100),
        spec_isa(0x007C) == Isa::Orisr && spec_decode(0x007C, addr, seq![imm]) == Operands::Immediate(imm),
        spec_isa(0x027C) == Isa::Andisr && spec_decode(0x027C, addr, seq![imm]) == Operands::Immediate(imm),
        spec_isa(0x0A7C) == Isa::Eorisr && spec_decode(0x0A7C, addr, seq![imm]) == Operands::Immediate(imm),
        spec_isa(0x4E72) == Isa::Stop && spec_decode(0x4E72, addr, seq![imm]) == Operands::Immediate(imm),
{
    reveal(spec_decode);
}

/// Decoding what the assembler emits for CHK (data source) and LEA (control source) gives back the
/// instruction, the register and the source.
#[verifier::spinoff_prover]
#[verifier::rlimit(60)]
pub proof fn lemma_decode_chk_lea(lea: bool, reg: u8, am: AddressingMode, addr: u32)
    requires
        reg <= 7,
        !lea ==> am.spec_verify(modes_0234567(), regs_01234()),
        lea ==> am.spec_verify(modes_2567(), regs_0123()),
        am matches AddressingMode::Pciwd(pc, _) ==> pc == addr,
        am matches AddressingMode::Pciwi8(pc, _) ==> pc == addr,
        am matches AddressingMode::Immediate(imm) ==> imm < 0x1_0000,
    ensures
        ({
            let w = spec_register_effective_address(0b0100, reg as u16, if lea { 0b111 } else { 0b110 }, am);
            &&& spec_isa(w[0]) == (if lea { Isa::Lea } else { Isa::Chk })
            &&& spec_decode(w[0], addr, w.subrange(1, w.len() as int)) == Operands::RegisterEffectiveAddress(reg, am)
        }),
{
    let opmode: u16 = if lea { 0b111 } else { 0b110 };
    let w = spec_register_effective_address(0b0100, reg as u16, opmode, am);
    let op = w[0];
    let m = am.spec_mode() as u16;
    let r = am.spec_reg_field() as u16;
    if lea {
        assert(modes_2567().contains(am.spec_mode()) ==> m == 2 || m == 5 || m == 6 || m == 7);
        if m == 7 {
            assert(regs_0123().contains(am.spec_reg_field()));
        }
        lemma_assemble_decode(am, Size::Long, addr);
    } else {
        assert(modes_0234567().contains(am.spec_mode()) ==> m != 1);
        if m == 7 {
            assert(regs_01234().contains(am.spec_reg_field()));
        }
        lemma_assemble_decode(am, Size::Word, addr);
    }
    assert(op == 0x4000 + (reg as u16) * 0x200 + opmode * 0x40 + m * 8 + r);
    lemma_register_ea_fields(op, 4, reg as u16, opmode, m, r);
    assert((op / 0x100) % 2 == 1);
    assert(op != 0x4AFC && op != 0x4E70 && op != 0x4E71 && op != 0x4E72 && op != 0x4E73 && op != 0x4E75
        && op != 0x4E76 && op != 0x4E77) by {
        assert(0x4AFCu16 / 0x100 == 0x4A && 0x4E70u16 / 0x100 == 0x4E);
    }
    assert(op / 16 != 0x4E4 && op / 8 != 0x9CA && op / 8 != 0x9CB && op / 16 != 0x4E6 && op / 8 != 0x908
        && op / 8 != 0x910 && op / 8 != 0x918);
    assert(spec_isa(op) == (if lea { Isa::Lea } else { Isa::Chk }));
    if lea {
        assert(w.subrange(1, w.len() as int) =~= am.spec_ext(true));
    } else {
        assert(w.subrange(1, w.len() as int) =~= am.spec_ext(false));
    }
    assert(spec_decode(op, addr, w.subrange(1, w.len() as int)) == Operands::RegisterEffectiveAddress(reg, am)) by {
        reveal(spec_decode);
    }
}

/// The ISA of a bit operation by its operation field: BTST, BCHG, BCLR, BSET.
pub open spec fn spec_bit_isa(op: u16) -> Isa {
    if op == 0 { Isa::Btst } else if op == 1 { Isa::Bchg } else if op == 2 { Isa::Bclr } else { Isa::Bset }
}

/// Decoding what the assembler emits for BTST, BCHG, BCLR and BSET with the bit number in a data
/// register gives back the instruction, its operand and that register.
#[verifier::spinoff_prover]
#[verifier::rlimit(60)]
pub proof fn lemma_decode_bit_dynamic(bop: u16, reg: u8, am: AddressingMode, addr: u32)
    requires
        bop <= 3,
        reg <= 7,
        bop == 0 ==> am.spec_verify(modes_0234567(), regs_01234()),
        bop != 0 ==> am.spec_verify(modes_0234567(), regs_01()),
        am matches AddressingMode::Pciwd(pc, _) ==> pc == addr,
        am matches AddressingMode::Pciwi8(pc, _) ==> pc == addr,
        am matches AddressingMode::Immediate(imm) ==> imm < 0x1_0000,
    ensures
        ({
            let w = spec_register_effective_address(0b0000, reg as u16, (4 + bop) as u16, am);
            &&& spec_isa(w[0]) == spec_bit_isa(bop)
            &&& spec_decode(w[0], addr, w.subrange(1, w.len() as int)) == Operands::EffectiveAddressCount(am, reg)
        }),
{
    let opmode = (4 + bop) as u16;
    let w = spec_register_effective_address(0b0000, reg as u16, opmode, am);
    let op = w[0];
    let m = am.spec_mode() as u16;
    let r = am.spec_reg_field() as u16;
    assert(modes_0234567().contains(am.spec_mode()) ==> m != 1);
    if m == 7 {
        if bop == 0 {
            assert(regs_01234().contains(am.spec_reg_field()));
        } else {
            assert(regs_01().contains(am.spec_reg_field()));
        }
    }
    assert(op == (reg as u16) * 0x200 + opmode * 0x40 + m * 8 + r);
    lemma_register_ea_fields(op, 0, reg as u16, opmode, m, r);
    assert(op != 0x003C && op != 0x007C && op != 0x023C && op != 0x027C && op != 0x0A3C && op != 0x0A7C);
    assert(spec_isa(op) == spec_bit_isa(bop));
    assert(w.subrange(1, w.len() as int) =~= am.spec_ext(false));
    if m == 0 {
        lemma_assemble_decode(am, Size::Long, addr);
    } else {
        lemma_assemble_decode(am, Size::Byte, addr);
    }
    assert(w.subrange(1, w.len() as int).subrange(0, w.len() - 1) =~= w.subrange(1, w.len() as int));
    assert(spec_decode(op, addr, w.subrange(1, w.len() as int)) == Operands::EffectiveAddressCount(am, reg)) by {
        reveal(spec_decode);
    }
}

/// Decoding what the assembler emits for CMPM gives back the instruction, its destination
/// register, its size and its source register.
#[verifier::spinoff_prover]
pub proof fn lemma_decode_compare_memory(ax: u8, size: Size, ay: u8, addr: u32, ws: Seq<u16>)
    requires
        ax <= 7,
        ay <= 7,
    ensures
        ({
            let op = (0xB108 + (ax as u16) * 0x200 + spec_size_code(size) * 0x40 + ay as u16) as u16;
            &&& spec_isa(op) == Isa::Cmpm
            &&& spec_decode(op, addr, ws) == Operands::RegisterSizeRegister(ax, size, ay)
        }),
{
    let (a, z, b) = (ax as u16, spec_size_code(size), ay as u16);
    let op = (0xB108 + a * 0x200 + z * 0x40 + b) as u16;
    lemma_opcode_fields(op, 11, a, 1, z, 1, b);
    assert(spec_isa(op) == Isa::Cmpm);
    assert(spec_decode(op, addr, ws) == Operands::RegisterSizeRegister(ax, size, ay)) by {
        reveal(spec_decode);
    }
}

/// Decoding what the assembler emits for Scc gives back the instruction, its condition code and
/// its data alterable operand.
#[verifier::spinoff_prover]
#[verifier::rlimit(60)]
pub proof fn lemma_decode_set_condition(cond: Condition, am: AddressingMode, addr: u32)
    requires
        am.spec_verify(modes_0234567(), regs_01()),
    ensures
        ({
            let w = spec_scc(cond, am);
            &&& spec_isa(w[0]) == Isa::Scc
            &&& spec_decode(w[0], addr, w.subrange(1, w.len() as int))
                == Operands::ConditionEffectiveAddress(spec_condition_code(cond) as u8, am)
        }),
{
    let w = spec_scc(cond, am);
    let op = w[0];
    let c = spec_condition_code(cond);
    let m = am.spec_mode() as u16;
    let r = am.spec_reg_field() as u16;
    assert(c <= 15);
    assert(modes_0234567().contains(am.spec_mode()) ==> m != 1);
    if m == 7 {
        assert(regs_01().contains(am.spec_reg_field()));
    }
    assert(op == 0x50C0 + c * 0x100 + m * 8 + r);
    assert(op / 0x1000 == 5 && (op / 0x100) % 16 == c && (op / 0x40) % 4 == 3 && (op / 8) % 8 == m && op % 8 == r) by (bit_vector)
        requires
            c <= 15, m <= 7, r <= 7,
            op == 0x50C0 + c * 0x100 + m * 8 + r;
    assert(spec_isa(op) == Isa::Scc);
    assert(w.subrange(1, w.len() as int) =~= am.spec_ext(false));
    lemma_assemble_decode(am, Size::Byte, addr);
    assert(spec_decode(op, addr, w.subrange(1, w.len() as int))
        == Operands::ConditionEffectiveAddress(c as u8, am)) by {
        reveal(spec_decode);
    }
}

/// Decoding what the assembler emits for DBcc gives back the instruction, its condition code, its
/// data register and its displacement.
#[verifier::spinoff_prover]
pub proof fn lemma_decode_decrement_branch(cond: Condition, reg: u8, disp: i16, addr: u32)
    requires
        reg <= 7,
    ensures
        ({
            let op = (0x50C8 + spec_condition_code(cond) * 0x100 + reg as u16) as u16;
            &&& spec_isa(op) == Isa::Dbcc
            &&& spec_decode(op, addr, seq![disp as u16])
                == Operands::ConditionRegisterDisplacement(spec_condition_code(cond) as u8, reg, disp)
        }),
{
    let c = spec_condition_code(cond);
    let rr = reg as u16;
    let op = (0x50C8 + c * 0x100 + rr) as u16;
    assert(c <= 15);
    assert(op / 0x1000 == 5 && (op / 0x100) % 16 == c && (op / 0x40) % 4 == 3 && (op / 8) % 8 == 1 && op % 8 == rr) by (bit_vector)
        requires
            c <= 15, rr <= 7,
            op == 0x50C8 + c * 0x100 + rr;
    assert(spec_isa(op) == Isa::Dbcc);
    lemma_displacement_round_trip(disp);
    assert(spec_decode(op, addr, seq![disp as u16])
        == Operands::ConditionRegisterDisplacement(c as u8, reg, disp)) by {
        reveal(spec_decode);
    }
}

/// Decoding what the assembler emits for BTST, BCHG, BCLR and BSET with an immediate bit number
/// gives back the instruction, its operand (read after the bit number word) and that number.
#[verifier::spinoff_prover]
#[verifier::rlimit(60)]
pub proof fn lemma_decode_bit_static(bop: u16, am: AddressingMode, count: u8, addr: u32)
    requires
        bop <= 3,
        bop == 0 ==> am.spec_verify(modes_0234567(), regs_0123()),
        bop != 0 ==> am.spec_verify(modes_0234567(), regs_01()),
        am matches AddressingMode::Pciwd(pc, _) ==> pc == spec_wrapping_add(addr, 2),
        am matches AddressingMode::Pciwi8(pc, _) ==> pc == spec_wrapping_add(addr, 2),
    ensures
        ({
            let w = spec_effective_address_count((0b0000_1000_00 + bop) as u16, am, count);
            &&& spec_isa(w[0]) == spec_bit_isa(bop)
            &&& spec_decode(w[0], addr, w.subrange(1, w.len() as int)) == Operands::EffectiveAddressCount(am, count)
        }),
{
    let w = spec_effective_address_count((0b0000_1000_00 + bop) as u16, am, count);
    let op = w[0];
    let m = am.spec_mode() as u16;
    let r = am.spec_reg_field() as u16;
    assert(modes_0234567().contains(am.spec_mode()) ==> m != 1);
    if m == 7 {
        if bop == 0 {
            assert(regs_0123().contains(am.spec_reg_field()));
        } else {
            assert(regs_01().contains(am.spec_reg_field()));
        }
    }
    assert(op == 0x0800 + bop * 0x40 + m * 8 + r);
    assert(op / 0x1000 == 0 && (op / 0x100) % 2 == 0 && (op / 0x100) % 16 == 8 && (op / 0x40) % 4 == bop
        && (op / 8) % 8 == m && op % 8 == r) by (bit_vector)
        requires
            bop <= 3, m <= 7, r <= 7,
            op == 0x0800 + bop * 0x40 + m * 8 + r;
    assert(op != 0x003C && op != 0x007C && op != 0x023C && op != 0x027C && op != 0x0A3C && op != 0x0A7C);
    assert(spec_isa(op) == spec_bit_isa(bop));
    let ws = w.subrange(1, w.len() as int);
    assert(ws[0] == count as u16);
    assert(ws.subrange(1, ws.len() as int) =~= am.spec_ext(false));
    if m == 0 {
        lemma_assemble_decode(am, Size::Long, spec_wrapping_add(addr, 2));
    } else {
        lemma_assemble_decode(am, Size::Byte, spec_wrapping_add(addr, 2));
    }
    assert(spec_decode(op, addr, ws) == Operands::EffectiveAddressCount(am, count)) by {
        reveal(spec_decode);
    }
}

/// Decoding what the assembler emits for MOVEP gives back the instruction, its data register, its
/// direction, its size, its address register and its displacement.
#[verifier::spinoff_prover]
pub proof fn lemma_decode_move_peripheral(data_reg: u8, dir: Direction, size: Size, addr_reg: u8, disp: i16, addr: u32)
    requires
        data_reg <= 7,
        dir == Direction::RegisterToMemory || dir == Direction::MemoryToRegister,
        size != Size::Byte,
        addr_reg <= 7,
    ensures
        ({
            let op = ((data_reg as u16) * 0x200 + 0x108 + (if dir == Direction::RegisterToMemory { 0x80u16 } else { 0 })
                + (if size == Size::Long { 0x40u16 } else { 0 }) + addr_reg as u16) as u16;
            &&& spec_isa(op) == Isa::Movep
            &&& spec_decode(op, addr, seq![disp as u16])
                == Operands::RegisterDirectionSizeRegisterDisplacement(data_reg, dir, size, addr_reg, disp)
        }),
{
    let (a, d, l, b) = (data_reg as u16, if dir == Direction::RegisterToMemory { 1u16 } else { 0 },
        if size == Size::Long { 1u16 } else { 0 }, addr_reg as u16);
    let op = (a * 0x200 + 0x108 + d * 0x80 + l * 0x40 + b) as u16;
    assert(op / 0x1000 == 0 && (op / 0x200) % 8 == a && (op / 0x100) % 2 == 1 && (op / 0x80) % 2 == d && (op / 0x40) % 2 == l
        && (op / 8) % 8 == 1 && op % 8 == b) by (bit_vector)
        requires
            a <= 7, d <= 1, l <= 1, b <= 7,
            op == a * 0x200 + 0x108 + d * 0x80 + l * 0x40 + b;
    assert(op != 0x003C && op != 0x007C && op != 0x023C && op != 0x027C && op != 0x0A3C && op != 0x0A7C);
    assert(spec_isa(op) == Isa::Movep);
    lemma_displacement_round_trip(disp);
    assert(spec_decode(op, addr, seq![disp as u16])
        == Operands::RegisterDirectionSizeRegisterDisplacement(data_reg, dir, size, addr_reg, disp)) by {
        reveal(spec_decode);
    }
}

/// Decoding what the assembler emits for MOVEM gives back the instruction, its direction, its size,
/// its effective address (read after the register list word) and its register list.
#[verifier::spinoff_prover]
#[verifier::rlimit(80)]
pub proof fn lemma_decode_move_multiple(dir: Direction, size: Size, am: AddressingMode, mask: u16, addr: u32)
    requires
        dir == Direction::RegisterToMemory || dir == Direction::MemoryToRegister,
        size != Size::Byte,
        dir == Direction::MemoryToRegister ==> am.spec_verify(seq![2u8, 3, 5, 6, 7], regs_0123()),
        dir == Direction::RegisterToMemory ==> am.spec_verify(seq![2u8, 4, 5, 6, 7], regs_01()),
        am matches AddressingMode::Pciwd(pc, _) ==> pc == spec_wrapping_add(addr, 2),
        am matches AddressingMode::Pciwi8(pc, _) ==> pc == spec_wrapping_add(addr, 2),
    ensures
        ({
            let w = spec_movem(dir, size, am, mask);
            &&& spec_isa(w[0]) == Isa::Movem
            &&& spec_decode(w[0], addr, w.subrange(1, w.len() as int)) == Operands::DirectionSizeEffectiveAddressList(dir, size, am, mask)
        }),
{
    let w = spec_movem(dir, size, am, mask);
    let op = w[0];
    let m = am.spec_mode() as u16;
    let r = am.spec_reg_field() as u16;
    let d: u16 = if dir == Direction::MemoryToRegister { 1 } else { 0 };
    let l: u16 = if size == Size::Long { 1 } else { 0 };
    if dir == Direction::MemoryToRegister {
        assert(seq![2u8, 3, 5, 6, 7].contains(am.spec_mode()) ==> m == 2 || m == 3 || m == 5 || m == 6 || m == 7);
        if m == 7 {
            assert(regs_0123().contains(am.spec_reg_field()));
        }
    } else {
        assert(seq![2u8, 4, 5, 6, 7].contains(am.spec_mode()) ==> m == 2 || m == 4 || m == 5 || m == 6 || m == 7);
        if m == 7 {
            assert(regs_01().contains(am.spec_reg_field()));
        }
    }
    assert(op == 0x4880 + d * 0x400 + l * 0x40 + m * 8 + r);
    assert(op / 0x1000 == 4 && (op / 0x100) % 16 == 8 + 4 * d && (op / 0x100) % 2 == 0 && (op / 0x400) % 2 == d
        && (op / 0x40) % 4 == 2 + l && (op / 0x40) % 2 == l && (op / 8) % 8 == m && op % 8 == r) by (bit_vector)
        requires
            d <= 1, l <= 1, m <= 7, r <= 7,
            op == 0x4880 + d * 0x400 + l * 0x40 + m * 8 + r;
    assert(op / 16 != 0x4E4 && op / 8 != 0x9CA && op / 8 != 0x9CB && op / 16 != 0x4E6 && op / 8 != 0x908
        && op / 8 != 0x910 && op / 8 != 0x918);
    assert(op != 0x4AFC && op != 0x4E70 && op != 0x4E71 && op != 0x4E72 && op != 0x4E73 && op != 0x4E75
        && op != 0x4E76 && op != 0x4E77);
    assert(spec_isa(op) == Isa::Movem);
    let ws = w.subrange(1, w.len() as int);
    assert(ws[0] == mask);
    assert(ws.subrange(1, ws.len() as int) =~= am.spec_ext(size == Size::Long));
    lemma_assemble_decode(am, size, spec_wrapping_add(addr, 2));
    assert(spec_decode(op, addr, ws) == Operands::DirectionSizeEffectiveAddressList(dir, size, am, mask)) by {
        reveal(spec_decode);
    }
}

/// Decoding what the assembler emits for MOVE USP gives back the instruction, its direction and
/// its address register.
pub proof fn lemma_decode_moveusp(dir: Direction, reg: u8, addr: u32, ws: Seq<u16>)
    requires
        dir == Direction::UspToRegister || dir == Direction::RegisterToUsp,
        reg <= 7,
    ensures
        ({
            let op = (0x4E60 + (if dir == Direction::UspToRegister { 8u16 } else { 0 }) + reg as u16) as u16;
            spec_isa(op) == Isa::Moveusp && spec_decode(op, addr, ws) == Operands::DirectionRegister(dir, reg)
        }),
{
    reveal(spec_decode);
    let d: u16 = if dir == Direction::UspToRegister { 8 } else { 0 };
    let op = (0x4E60 + d + reg as u16) as u16;
    let rr = reg as u16;
    assert(op / 0x1000 == 4 && op / 16 == 0x4E6 && (op / 8) % 2 == d / 8 && op % 8 == rr) by (bit_vector)
        requires
            d == 0 || d == 8, rr <= 7,
            op == 0x4E60 + d + rr;
    assert(op / 8 != 0x9CA && op / 8 != 0x9CB && op / 16 != 0x4E4);
    assert(op != 0x4AFC && op != 0x4E70 && op != 0x4E71 && op != 0x4E72 && op != 0x4E73 && op != 0x4E75
        && op != 0x4E76 && op != 0x4E77);
}

/// Decoding what the assembler emits for BRA, BSR and Bcc gives back the instruction and its
/// displacement, in its short form (a non-zero displacement that fits in a byte, in the opcode)
/// as in its long form (an extension word).
#[verifier::spinoff_prover]
pub proof fn lemma_decode_branch(cond: Condition, disp: i16, addr: u32)
    ensures
        ({
            let words = spec_condition_displacement(cond, disp);
            let op = words[0];
            &&& spec_isa(op) == spec_branch_isa(cond)
            &&& cond != Condition::T && cond != Condition::F ==> spec_decode(op, addr, words.subrange(1, words.len() as int))
                == Operands::ConditionDisplacement(spec_condition_code(cond) as u8, disp)
            &&& (cond == Condition::T || cond == Condition::F) ==> spec_decode(op, addr, words.subrange(1, words.len() as int))
                == Operands::Displacement(disp)
        }),
{
    let words = spec_condition_displacement(cond, disp);
    let op = words[0];
    let c = spec_condition_code(cond);
    assert(c <= 15);
    if spec_short_branch(disp) {
        let b = disp as u8;
        assert(b != 0 && (b >= 0x80 ==> (b as int - 0x100) == disp) && (b < 0x80 ==> b as int == disp)) by (bit_vector)
            requires b == disp as u8, disp != 0, -128 <= disp <= 127;
        lemma_branch_fields(op, c, b as u16);
    } else {
        lemma_displacement_round_trip(disp);
        lemma_branch_fields(op, c, 0);
        assert(words.subrange(1, words.len() as int)[0] == disp as u16);
    }
    lemma_branch_isa(op, cond);
    reveal(spec_decode);
}

/// The fields of a branch opcode.
#[verifier::spinoff_prover]
proof fn lemma_branch_fields(op: u16, c: u16, low: u16)
    requires
        c <= 15,
        low <= 0xFF,
        op == 0x6000 + c * 0x100 + low,
    ensures
        op / 0x1000 == 6,
        (op / 0x100) % 16 == c,
        op % 0x100 == low,
{
    assert(op / 0x1000 == 6 && (op / 0x100) % 16 == c && op % 0x100 == low) by (bit_vector)
        requires c <= 15, low <= 0xFF, op == 0x6000 + c * 0x100 + low;
}

/// The instruction of a branch opcode.
#[verifier::spinoff_prover]
proof fn lemma_branch_isa(op: u16, cond: Condition)
    requires
        op / 0x1000 == 6,
        (op / 0x100) % 16 == spec_condition_code(cond),
    ensures
        spec_isa(op) == spec_branch_isa(cond),
{
}

} // verus!
