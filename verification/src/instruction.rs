//! Instruction-related structs, enums and functions.
//!
//! The decoding functions return the operands.
//! They take as parameters the opcode of the instruction and an iterator over the extension words.

use vstd::prelude::*;
use vstd::std_specs::convert::FromSpecImpl;
use crate::addressing_modes::{AddressingMode, spec_extends, spec_new_words, spec_ext_count, spec_decode_am, spec_valid_ea, spec_long_of, spec_word_as_i16, word_as_i16};
use crate::isa::{Isa, spec_isa};
use crate::exception::{ACCESS_ERROR, ADDRESS_ERROR};
use crate::memory_access::{MemoryAccess, MemoryIter, spec_wrapping_add};

verus! {

/// Specify the direction of the operation.
///
/// `RegisterToMemory` and `MemoryToRegister` are used by MOVEM and MOVEP.
///
/// `DstReg` and `DstEa` are used by ADD, AND, OR and SUB.
///
/// `Left` and `Right` are used by the Shift and Rotate instructions.
///
/// `RegisterToUsp` and `UspToRegister` are used by MOVE USP.
///
/// `RegisterToRegister` and `MemoryToMemory` are used by ABCD, ADDX, SBCD and SUBX.
#[derive(Clone, Copy, Debug, PartialEq, Eq, Structural)]
pub enum Direction {
    /// Transfert from a register to memory.
    RegisterToMemory,
    /// Transfert from memory to a register.
    MemoryToRegister,
    /// Destination is a register.
    DstReg,
    /// Destination is in memory.
    DstEa,
    /// Left shift or rotation.
    Left,
    /// Right shift or rotation.
    Right,
    /// For MOVE USP only.
    RegisterToUsp,
    /// For MOVE USP only.
    UspToRegister,
    /// Register to register operation.
    RegisterToRegister,
    /// Memory to Memory operation.
    MemoryToMemory,
    /// Exchange Data Registers (EXG only).
    ExchangeData,
    /// Exchange Address Registers (EXG only).
    ExchangeAddress,
    /// Exchange Data and Address Registers (EXG only).
    ExchangeDataAddress,
}

impl Direction {
    /// Disassembles the `Left` (`"L"`) or `Right` (`"R"`) direction, other directions give an empty string.
    pub fn disassemble(self) -> (r: &'static str)
        ensures
            r@ == (if self == Direction::Left { "L"@ } else if self == Direction::Right { "R"@ } else { ""@ }),
    {
        match self {
            Direction::Left => "L",
            Direction::Right => "R",
            _ => "",
        }
    }
}

/// Size of an operation.
#[derive(Clone, Copy, Debug, PartialEq, Eq, Structural)]
pub enum Size {
    Byte,
    Word,
    Long,
}

/// The primary encoding of a size: 0, 1 or 2 for byte, word or long.
pub open spec fn spec_size_code(s: Size) -> u16 {
    match s {
        Size::Byte => 0,
        Size::Word => 1,
        Size::Long => 2,
    }
}

/// The encoding of a size in MOVE and MOVEA: 1, 3 or 2 for byte, word or long.
pub open spec fn spec_move_code(s: Size) -> u16 {
    match s {
        Size::Byte => 1,
        Size::Word => 3,
        Size::Long => 2,
    }
}

/// The number of bytes of a size.
pub open spec fn spec_size_bytes(s: Size) -> u32 {
    match s {
        Size::Byte => 1,
        Size::Word => 2,
        Size::Long => 4,
    }
}

impl Size {
    /// Returns Word when self is Byte, self otherwise.
    ///
    /// This is used in addressing modes, where byte post/pre increment
    /// increments the register by 2 instead of 1.
    pub fn as_word_long(self) -> (r: Self)
        ensures
            r == (if self == Size::Byte { Size::Word } else { self }),
    {
        if self.is_byte() {
            Size::Word
        } else {
            self
        }
    }

    /// Creates a new size from a single size bit of the operand (like MOVEM).
    ///
    /// Size bit means:
    /// - 0 => Word
    /// - 1 => Long
    pub fn from_bit(d: u16) -> (r: Self)
        requires
            d <= 1,
        ensures
            r == (if d == 0 { Size::Word } else { Size::Long }),
    {
        if d == 0 {
            Size::Word
        } else {
            Size::Long
        }
    }

    /// Returns the binary encoding of the size as used by MOVEM and EXT.
    ///
    /// - Word => 0
    /// - Long => 1
    pub fn into_bit(self) -> (r: u16)
        requires
            self != Size::Byte,
        ensures
            r == (if self == Size::Word { 0u16 } else { 1u16 }),
    {
        match self {
            Size::Word => 0,
            _ => 1,
        }
    }

    /// Creates a new size from the size bits of a MOVE or MOVEA instruction.
    ///
    /// - 1 => Byte
    /// - 3 => Word
    /// - 2 => Long
    pub fn from_move(d: u16) -> (r: Self)
        requires
            1 <= d <= 3,
        ensures
            spec_move_code(r) == d,
    {
        if d == 1 {
            Size::Byte
        } else if d == 3 {
            Size::Word
        } else {
            Size::Long
        }
    }

    /// Returns the binary encoding of the size as used by MOVE and MOVEA.
    ///
    /// - Byte => 1
    /// - Word => 3
    /// - Long => 2
    pub fn into_move(self) -> (r: u16)
        ensures
            r == spec_move_code(self),
    {
        match self {
            Size::Byte => 1,
            Size::Word => 3,
            Size::Long => 2,
        }
    }

    /// Creates a new size from the primary size bits.
    ///
    /// Size bits must be:
    /// - 0 => Byte
    /// - 1 => Word
    /// - 2 => Long
    pub fn from(d: u16) -> (r: Self)
        requires
            d <= 2,
        ensures
            spec_size_code(r) == d,
    {
        if d == 0 {
            Size::Byte
        } else if d == 1 {
            Size::Word
        } else {
            Size::Long
        }
    }

    /// Returns `0`, `1` or `2` for [Byte](Size::Byte), [Word](Size::Word) or [Long](Size::Long) respectively.
    pub fn code(self) -> (r: u16)
        ensures
            r == spec_size_code(self),
    {
        match self {
            Size::Byte => 0,
            Size::Word => 1,
            Size::Long => 2,
        }
    }

    /// Returns the number of bytes of the size.
    pub fn bytes(self) -> (r: u32)
        ensures
            r == spec_size_bytes(self),
    {
        match self {
            Size::Byte => 1,
            Size::Word => 2,
            Size::Long => 4,
        }
    }

    /// Returns true if it is Size::Byte, false otherwise.
    pub fn is_byte(self) -> (r: bool)
        ensures
            r == (self == Size::Byte),
    {
        match self {
            Size::Byte => true,
            _ => false,
        }
    }

    /// Returns true if it is Size::Word, false otherwise.
    pub fn is_word(self) -> (r: bool)
        ensures
            r == (self == Size::Word),
    {
        match self {
            Size::Word => true,
            _ => false,
        }
    }

    /// Returns true if it is Size::long, false otherwise.
    pub fn is_long(self) -> (r: bool)
        ensures
            r == (self == Size::Long),
    {
        match self {
            Size::Long => true,
            _ => false,
        }
    }

    /// Disassembles to `B`, `W` or `L`.
    pub fn disassemble(self) -> (r: &'static str)
        ensures
            r@ == (match self {
                Size::Byte => "B"@,
                Size::Word => "W"@,
                Size::Long => "L"@,
            }),
    {
        match self {
            Size::Byte => "B",
            Size::Word => "W",
            Size::Long => "L",
        }
    }
}

impl From<Size> for u16 {
    /// Returns `0`, `1` or `2` for [Byte](Size::Byte), [Word](Size::Word) or [Long](Size::Long) respectively.
    fn from(s: Size) -> (r: u16) {
        s.code()
    }
}

impl FromSpecImpl<Size> for u16 {
    open spec fn obeys_from_spec() -> bool {
        true
    }

    open spec fn from_spec(v: Size) -> u16 {
        spec_size_code(v)
    }
}

/// The size given by the primary size bits (0, 1 or 2).
pub open spec fn spec_size_of_code(d: u16) -> Size {
    if d == 0 { Size::Byte } else if d == 1 { Size::Word } else { Size::Long }
}

/// The size given by the size bits of MOVE and MOVEA (1, 3 or 2).
pub open spec fn spec_size_of_move(d: u16) -> Size {
    if d == 1 { Size::Byte } else if d == 3 { Size::Word } else { Size::Long }
}

/// The size given by a single size bit (0 or 1).
pub open spec fn spec_size_of_bit(d: u16) -> Size {
    if d == 0 { Size::Word } else { Size::Long }
}

/// Bits 0 to 2: the effective address register field.
pub open spec fn spec_ea_reg(op: u16) -> u8 {
    (op % 8) as u8
}

/// Bits 3 to 5: the effective address mode field.
pub open spec fn spec_ea_mode(op: u16) -> u16 {
    (op / 8) % 8
}

/// Bits 6 and 7: the primary size field.
pub open spec fn spec_size_field(op: u16) -> u16 {
    (op / 0x40) % 4
}

/// Bits 9 to 11: the register field of the high part of the opcode.
pub open spec fn spec_reg9(op: u16) -> u8 {
    ((op / 0x200) % 8) as u8
}

/// Bits 8 to 11: the condition field.
pub open spec fn spec_condition_field(op: u16) -> u8 {
    ((op / 0x100) % 16) as u8
}

/// Bit `n` of the opcode.
pub open spec fn spec_opcode_bit(op: u16, n: nat) -> bool {
    (op as nat / vstd::arithmetic::power2::pow2(n)) % 2 == 1
}

/// The signed value of the low byte of the opcode.
pub open spec fn spec_low_byte_i8(op: u16) -> i8 {
    let b = op % 0x100;
    if b >= 0x80 { (b - 0x100) as i8 } else { b as i8 }
}

/// The low byte of `op`, as a signed value.
fn low_byte_i8(op: u16) -> (r: i8)
    ensures
        r == spec_low_byte_i8(op),
{
    let b: u16 = op % 0x100;
    if b >= 0x80 {
        (b as i16 - 0x100) as i8
    } else {
        b as i8
    }
}

/// The opcode has valid effective address mode and register fields at bits 0 to 5.
pub open spec fn spec_valid_ea_field(op: u16) -> bool {
    spec_valid_ea(spec_ea_mode(op), spec_ea_reg(op))
}

/// Operands of an instruction.
#[derive(Clone, Copy, Debug, PartialEq, Eq, Structural)]
pub enum Operands {
    /// ILLEGAL, NOP, RESET, RTE, RTR, RTS, TRAPV
    NoOperands,
    /// ANDI/EORI/ORI CCR/SR, STOP
    Immediate(u16),
    /// ADDI, ANDI, CMPI, EORI, ORI, SUBI
    SizeEffectiveAddressImmediate(Size, AddressingMode, u32),
    /// BCHG, BCLR, BSET, BTST
    EffectiveAddressCount(AddressingMode, u8),
    /// JMP, JSR, MOVE (f) SR CCR, NBCD, PEA, TAS
    EffectiveAddress(AddressingMode),
    /// CLR, NEG, NEGX, NOT, TST
    SizeEffectiveAddress(Size, AddressingMode),
    /// CHK, DIVS, DIVU, LEA, MULS, MULU
    RegisterEffectiveAddress(u8, AddressingMode),
    /// MOVEP
    RegisterDirectionSizeRegisterDisplacement(u8, Direction, Size, u8, i16),
    /// MOVEA
    SizeRegisterEffectiveAddress(Size, u8, AddressingMode),
    /// MOVE
    SizeEffectiveAddressEffectiveAddress(Size, AddressingMode, AddressingMode),
    /// EXG
    RegisterOpmodeRegister(u8, Direction, u8),
    /// EXT
    OpmodeRegister(u8, u8),
    /// TRAP
    Vector(u8),
    /// LINK
    RegisterDisplacement(u8, i16),
    /// SWAP, UNLK
    Register(u8),
    /// MOVE USP
    DirectionRegister(Direction, u8),
    /// MOVEM
    DirectionSizeEffectiveAddressList(Direction, Size, AddressingMode, u16),
    /// ADDQ, SUBQ
    DataSizeEffectiveAddress(u8, Size, AddressingMode),
    /// Scc
    ConditionEffectiveAddress(u8, AddressingMode),
    /// DBcc
    ConditionRegisterDisplacement(u8, u8, i16),
    /// BRA, BSR
    Displacement(i16),
    /// Bcc
    ConditionDisplacement(u8, i16),
    /// MOVEQ
    RegisterData(u8, i8),
    /// ADD, AND, CMP, EOR, OR, SUB
    RegisterDirectionSizeEffectiveAddress(u8, Direction, Size, AddressingMode),
    /// ADDA, CMPA, SUBA
    RegisterSizeEffectiveAddress(u8, Size, AddressingMode),
    /// ABCD, ADDX, SBCD, SUBX
    RegisterSizeModeRegister(u8, Size, Direction, u8),
    /// CMPM
    RegisterSizeRegister(u8, Size, u8),
    /// ASm, LSm, ROm, ROXm
    DirectionEffectiveAddress(Direction, AddressingMode),
    /// ASr, LSr, ROr, ROXr
    RotationDirectionSizeModeRegister(u8, Direction, Size, u8, u8),
}

/// In the returned values, the first operand is the left-most operand in the instruction word (high-order bits).
/// The last operand is the right-most operand in the instruction word (low-order bits) or the extension words (if any).
impl Operands {
    /// ANDI/EORI/ORI CCR/SR, STOP
    pub fn immediate(self) -> (r: u16)
        requires
            self is Immediate,
        ensures
            self == ({
                let a = r;
                Operands::Immediate(a)
            }),
    {
        match self {
            Operands::Immediate(a) => a,
            _ => vstd::pervasive::unreached(),
        }
    }

    /// ADDI, ANDI, CMPI, EORI, ORI, SUBI
    pub fn size_effective_address_immediate(self) -> (r: (Size, AddressingMode, u32))
        requires
            self is SizeEffectiveAddressImmediate,
        ensures
            self == ({
                let (a, b, c) = r;
                Operands::SizeEffectiveAddressImmediate(a, b, c)
            }),
    {
        match self {
            Operands::SizeEffectiveAddressImmediate(a, b, c) => (a, b, c),
            _ => vstd::pervasive::unreached(),
        }
    }

    /// BCHG, BCLR, BSET, BTST
    pub fn effective_address_count(self) -> (r: (AddressingMode, u8))
        requires
            self is EffectiveAddressCount,
        ensures
            self == ({
                let (a, b) = r;
                Operands::EffectiveAddressCount(a, b)
            }),
    {
        match self {
            Operands::EffectiveAddressCount(a, b) => (a, b),
            _ => vstd::pervasive::unreached(),
        }
    }

    /// JMP, JSR, MOVE (f) SR CCR, NBCD, PEA, TAS
    pub fn effective_address(self) -> (r: AddressingMode)
        requires
            self is EffectiveAddress,
        ensures
            self == ({
                let a = r;
                Operands::EffectiveAddress(a)
            }),
    {
        match self {
            Operands::EffectiveAddress(a) => a,
            _ => vstd::pervasive::unreached(),
        }
    }

    /// CLR, NEG, NEGX, NOT, TST
    pub fn size_effective_address(self) -> (r: (Size, AddressingMode))
        requires
            self is SizeEffectiveAddress,
        ensures
            self == ({
                let (a, b) = r;
                Operands::SizeEffectiveAddress(a, b)
            }),
    {
        match self {
            Operands::SizeEffectiveAddress(a, b) => (a, b),
            _ => vstd::pervasive::unreached(),
        }
    }

    /// CHK, DIVS, DIVU, LEA, MULS, MULU
    pub fn register_effective_address(self) -> (r: (u8, AddressingMode))
        requires
            self is RegisterEffectiveAddress,
        ensures
            self == ({
                let (a, b) = r;
                Operands::RegisterEffectiveAddress(a, b)
            }),
    {
        match self {
            Operands::RegisterEffectiveAddress(a, b) => (a, b),
            _ => vstd::pervasive::unreached(),
        }
    }

    /// MOVEP
    pub fn register_direction_size_register_displacement(self) -> (r: (u8, Direction, Size, u8, i16))
        requires
            self is RegisterDirectionSizeRegisterDisplacement,
        ensures
            self == ({
                let (a, b, c, d, e) = r;
                Operands::RegisterDirectionSizeRegisterDisplacement(a, b, c, d, e)
            }),
    {
        match self {
            Operands::RegisterDirectionSizeRegisterDisplacement(a, b, c, d, e) => (a, b, c, d, e),
            _ => vstd::pervasive::unreached(),
        }
    }

    /// MOVEA
    pub fn size_register_effective_address(self) -> (r: (Size, u8, AddressingMode))
        requires
            self is SizeRegisterEffectiveAddress,
        ensures
            self == ({
                let (a, b, c) = r;
                Operands::SizeRegisterEffectiveAddress(a, b, c)
            }),
    {
        match self {
            Operands::SizeRegisterEffectiveAddress(a, b, c) => (a, b, c),
            _ => vstd::pervasive::unreached(),
        }
    }

    /// MOVE
    pub fn size_effective_address_effective_address(self) -> (r: (Size, AddressingMode, AddressingMode))
        requires
            self is SizeEffectiveAddressEffectiveAddress,
        ensures
            self == ({
                let (a, b, c) = r;
                Operands::SizeEffectiveAddressEffectiveAddress(a, b, c)
            }),
    {
        match self {
            Operands::SizeEffectiveAddressEffectiveAddress(a, b, c) => (a, b, c),
            _ => vstd::pervasive::unreached(),
        }
    }

    /// EXG
    pub fn register_opmode_register(self) -> (r: (u8, Direction, u8))
        requires
            self is RegisterOpmodeRegister,
        ensures
            self == ({
                let (a, b, c) = r;
                Operands::RegisterOpmodeRegister(a, b, c)
            }),
    {
        match self {
            Operands::RegisterOpmodeRegister(a, b, c) => (a, b, c),
            _ => vstd::pervasive::unreached(),
        }
    }

    /// EXT
    pub fn opmode_register(self) -> (r: (u8, u8))
        requires
            self is OpmodeRegister,
        ensures
            self == ({
                let (a, b) = r;
                Operands::OpmodeRegister(a, b)
            }),
    {
        match self {
            Operands::OpmodeRegister(a, b) => (a, b),
            _ => vstd::pervasive::unreached(),
        }
    }

    /// TRAP
    pub fn vector(self) -> (r: u8)
        requires
            self is Vector,
        ensures
            self == ({
                let a = r;
                Operands::Vector(a)
            }),
    {
        match self {
            Operands::Vector(a) => a,
            _ => vstd::pervasive::unreached(),
        }
    }

    /// LINK
    pub fn register_displacement(self) -> (r: (u8, i16))
        requires
            self is RegisterDisplacement,
        ensures
            self == ({
                let (a, b) = r;
                Operands::RegisterDisplacement(a, b)
            }),
    {
        match self {
            Operands::RegisterDisplacement(a, b) => (a, b),
            _ => vstd::pervasive::unreached(),
        }
    }

    /// SWAP, UNLK
    pub fn register(self) -> (r: u8)
        requires
            self is Register,
        ensures
            self == ({
                let a = r;
                Operands::Register(a)
            }),
    {
        match self {
            Operands::Register(a) => a,
            _ => vstd::pervasive::unreached(),
        }
    }

    /// MOVE USP
    pub fn direction_register(self) -> (r: (Direction, u8))
        requires
            self is DirectionRegister,
        ensures
            self == ({
                let (a, b) = r;
                Operands::DirectionRegister(a, b)
            }),
    {
        match self {
            Operands::DirectionRegister(a, b) => (a, b),
            _ => vstd::pervasive::unreached(),
        }
    }

    /// MOVEM
    pub fn direction_size_effective_address_list(self) -> (r: (Direction, Size, AddressingMode, u16))
        requires
            self is DirectionSizeEffectiveAddressList,
        ensures
            self == ({
                let (a, b, c, d) = r;
                Operands::DirectionSizeEffectiveAddressList(a, b, c, d)
            }),
    {
        match self {
            Operands::DirectionSizeEffectiveAddressList(a, b, c, d) => (a, b, c, d),
            _ => vstd::pervasive::unreached(),
        }
    }

    /// ADDQ, SUBQ
    pub fn data_size_effective_address(self) -> (r: (u8, Size, AddressingMode))
        requires
            self is DataSizeEffectiveAddress,
        ensures
            self == ({
                let (a, b, c) = r;
                Operands::DataSizeEffectiveAddress(a, b, c)
            }),
    {
        match self {
            Operands::DataSizeEffectiveAddress(a, b, c) => (a, b, c),
            _ => vstd::pervasive::unreached(),
        }
    }

    /// Scc
    pub fn condition_effective_address(self) -> (r: (u8, AddressingMode))
        requires
            self is ConditionEffectiveAddress,
        ensures
            self == ({
                let (a, b) = r;
                Operands::ConditionEffectiveAddress(a, b)
            }),
    {
        match self {
            Operands::ConditionEffectiveAddress(a, b) => (a, b),
            _ => vstd::pervasive::unreached(),
        }
    }

    /// DBcc
    pub fn condition_register_displacement(self) -> (r: (u8, u8, i16))
        requires
            self is ConditionRegisterDisplacement,
        ensures
            self == ({
                let (a, b, c) = r;
                Operands::ConditionRegisterDisplacement(a, b, c)
            }),
    {
        match self {
            Operands::ConditionRegisterDisplacement(a, b, c) => (a, b, c),
            _ => vstd::pervasive::unreached(),
        }
    }

    /// BRA, BSR
    pub fn displacement(self) -> (r: i16)
        requires
            self is Displacement,
        ensures
            self == ({
                let a = r;
                Operands::Displacement(a)
            }),
    {
        match self {
            Operands::Displacement(a) => a,
            _ => vstd::pervasive::unreached(),
        }
    }

    /// Bcc
    pub fn condition_displacement(self) -> (r: (u8, i16))
        requires
            self is ConditionDisplacement,
        ensures
            self == ({
                let (a, b) = r;
                Operands::ConditionDisplacement(a, b)
            }),
    {
        match self {
            Operands::ConditionDisplacement(a, b) => (a, b),
            _ => vstd::pervasive::unreached(),
        }
    }

    /// MOVEQ
    pub fn register_data(self) -> (r: (u8, i8))
        requires
            self is RegisterData,
        ensures
            self == ({
                let (a, b) = r;
                Operands::RegisterData(a, b)
            }),
    {
        match self {
            Operands::RegisterData(a, b) => (a, b),
            _ => vstd::pervasive::unreached(),
        }
    }

    /// ADD, AND, CMP, EOR, OR, SUB
    pub fn register_direction_size_effective_address(self) -> (r: (u8, Direction, Size, AddressingMode))
        requires
            self is RegisterDirectionSizeEffectiveAddress,
        ensures
            self == ({
                let (a, b, c, d) = r;
                Operands::RegisterDirectionSizeEffectiveAddress(a, b, c, d)
            }),
    {
        match self {
            Operands::RegisterDirectionSizeEffectiveAddress(a, b, c, d) => (a, b, c, d),
            _ => vstd::pervasive::unreached(),
        }
    }

    /// ADDA, CMPA, SUBA
    pub fn register_size_effective_address(self) -> (r: (u8, Size, AddressingMode))
        requires
            self is RegisterSizeEffectiveAddress,
        ensures
            self == ({
                let (a, b, c) = r;
                Operands::RegisterSizeEffectiveAddress(a, b, c)
            }),
    {
        match self {
            Operands::RegisterSizeEffectiveAddress(a, b, c) => (a, b, c),
            _ => vstd::pervasive::unreached(),
        }
    }

    /// ABCD, ADDX, SBCD, SUBX
    pub fn register_size_mode_register(self) -> (r: (u8, Size, Direction, u8))
        requires
            self is RegisterSizeModeRegister,
        ensures
            self == ({
                let (a, b, c, d) = r;
                Operands::RegisterSizeModeRegister(a, b, c, d)
            }),
    {
        match self {
            Operands::RegisterSizeModeRegister(a, b, c, d) => (a, b, c, d),
            _ => vstd::pervasive::unreached(),
        }
    }

    /// CMPM
    pub fn register_size_register(self) -> (r: (u8, Size, u8))
        requires
            self is RegisterSizeRegister,
        ensures
            self == ({
                let (a, b, c) = r;
                Operands::RegisterSizeRegister(a, b, c)
            }),
    {
        match self {
            Operands::RegisterSizeRegister(a, b, c) => (a, b, c),
            _ => vstd::pervasive::unreached(),
        }
    }

    /// ASm, LSm, ROm, ROXm
    pub fn direction_effective_address(self) -> (r: (Direction, AddressingMode))
        requires
            self is DirectionEffectiveAddress,
        ensures
            self == ({
                let (a, b) = r;
                Operands::DirectionEffectiveAddress(a, b)
            }),
    {
        match self {
            Operands::DirectionEffectiveAddress(a, b) => (a, b),
            _ => vstd::pervasive::unreached(),
        }
    }

    /// ASr, LSr, ROr, ROXr
    pub fn rotation_direction_size_mode_register(self) -> (r: (u8, Direction, Size, u8, u8))
        requires
            self is RotationDirectionSizeModeRegister,
        ensures
            self == ({
                let (a, b, c, d, e) = r;
                Operands::RotationDirectionSizeModeRegister(a, b, c, d, e)
            }),
    {
        match self {
            Operands::RotationDirectionSizeModeRegister(a, b, c, d, e) => (a, b, c, d, e),
            _ => vstd::pervasive::unreached(),
        }
    }
}

/// Reading `n1` then `n2` words reads `n1 + n2` words, the first ones first.
pub proof fn lemma_words_concat(a: Seq<u16>, b: Seq<u16>, c: Seq<u16>, n1: nat, n2: nat)
    requires
        spec_extends(a, b, n1),
        spec_extends(b, c, n2),
    ensures
        spec_extends(a, c, n1 + n2),
        spec_new_words(a, c) == spec_new_words(a, b) + spec_new_words(b, c),
{
    assert(c.subrange(0, a.len() as int) =~= b.subrange(0, a.len() as int));
    assert(spec_new_words(a, c) =~= spec_new_words(a, b) + spec_new_words(b, c));
}

/// Reading one word `w` reads the sequence made of `w`.
pub proof fn lemma_one_word(a: Seq<u16>, w: u16)
    ensures
        spec_extends(a, a.push(w), 1),
        spec_new_words(a, a.push(w)) == seq![w],
{
    assert(a.push(w).subrange(0, a.len() as int) =~= a);
    assert(spec_new_words(a, a.push(w)) =~= seq![w]);
}

/// Reading no word.
pub proof fn lemma_no_word(a: Seq<u16>)
    ensures
        spec_extends(a, a, 0),
        spec_new_words(a, a) == Seq::<u16>::empty(),
{
    assert(a.subrange(0, a.len() as int) =~= a);
    assert(spec_new_words(a, a) =~= Seq::<u16>::empty());
}

/// The number of immediate words of ADDI, ANDI, CMPI, EORI, ORI and SUBI.
pub open spec fn spec_immediate_count(op: u16) -> nat {
    if spec_size_field(op) == 2 { 2 } else { 1 }
}

/// ADDI, ANDI, CMPI, EORI, ORI, SUBI: size, effective address and immediate value decoded from the
/// opcode and its extension words `ws`, the first of which is at `addr`.
pub open spec fn spec_size_effective_address_immediate(op: u16, addr: u32, ws: Seq<u16>) -> (Size, AddressingMode, u32) {
    let size = spec_size_of_code(spec_size_field(op));
    let n = spec_immediate_count(op);
    let imm = if n == 2 { spec_long_of(ws[0], ws[1]) } else { ws[0] as u32 };
    (size, spec_decode_am(spec_ea_mode(op), spec_ea_reg(op), Some(size), spec_wrapping_add(addr, (2 * n) as u32), ws.subrange(n as int, ws.len() as int)), imm)
}

/// The number of extension words of ADDI, ANDI, CMPI, EORI, ORI and SUBI.
pub open spec fn spec_size_effective_address_immediate_count(op: u16) -> nat {
    spec_immediate_count(op) + spec_ext_count(spec_ea_mode(op), spec_ea_reg(op), Some(spec_size_of_code(spec_size_field(op))))
}

/// ANDI/EORI/ORI CCR/SR, STOP
pub fn immediate<M: MemoryAccess + ?Sized>(memory: &mut MemoryIter<M>) -> (r: Result<u16, u8>)
    ensures
        final(memory).start == old(memory).start,
        r is Ok && old(memory).spec_consistent() ==> final(memory).spec_consistent(),
            r matches Err(e) ==> e == ACCESS_ERROR || e == ADDRESS_ERROR,
            final(memory).next_addr % 2 == old(memory).next_addr % 2,
            r matches Err(e) ==> (e == ADDRESS_ERROR) == (old(memory).next_addr % 2 == 1),
            r matches Err(e) && e == ACCESS_ERROR && old(memory).spec_consistent() ==> final(memory).spec_refused_next(),
        r matches Ok(w) ==> final(memory).read@ == old(memory).read@.push(w),
{
    memory.next_word()
}

/// ADDI, ANDI, CMPI, EORI, ORI, SUBI
pub fn size_effective_address_immediate<M: MemoryAccess + ?Sized>(opcode: u16, memory: &mut MemoryIter<M>) -> (r: Result<(Size, AddressingMode, u32), u8>)
    requires
        spec_size_field(opcode) <= 2,
        spec_valid_ea_field(opcode),
    ensures
        final(memory).start == old(memory).start,
        r is Ok && old(memory).spec_consistent() ==> final(memory).spec_consistent(),
            r matches Err(e) ==> e == ACCESS_ERROR || e == ADDRESS_ERROR,
            final(memory).next_addr % 2 == old(memory).next_addr % 2,
            r matches Err(e) ==> (e == ADDRESS_ERROR) == (old(memory).next_addr % 2 == 1),
            r matches Err(e) && e == ACCESS_ERROR && old(memory).spec_consistent() ==> final(memory).spec_refused_next(),
        r matches Ok(v) ==> spec_extends(old(memory).read@, final(memory).read@, spec_size_effective_address_immediate_count(opcode))
            && v == spec_size_effective_address_immediate(opcode, old(memory).next_addr, spec_new_words(old(memory).read@, final(memory).read@)),
{
    let ghost r0 = memory.read@;
    let addr = memory.next_addr;
    let size = Size::from((opcode / 0x40) % 4);

    let imm: u32 = if size.is_long() {
        let high = memory.next_word()?;
        let low = memory.next_word()?;
        proof {
            lemma_one_word(r0, high);
            lemma_one_word(r0.push(high), low);
            lemma_words_concat(r0, r0.push(high), memory.read@, 1, 1);
        }
        (high as u32) * 0x1_0000 + low as u32
    } else {
        let w = memory.next_word()?;
        proof {
            lemma_one_word(r0, w);
        }
        w as u32
    };
    let ghost r1 = memory.read@;
    let ghost addr1 = memory.next_addr;
    assert(addr1 == spec_wrapping_add(addr, (2 * spec_immediate_count(opcode)) as u32));

    let eareg = (opcode % 8) as u8;
    let eamode = (opcode / 8) % 8;
    let am = AddressingMode::from_memory(eamode, eareg, Some(size), memory)?;
    proof {
        lemma_words_concat(r0, r1, memory.read@, spec_immediate_count(opcode), spec_ext_count(eamode, eareg, Some(size)));
        let ws = spec_new_words(r0, memory.read@);
        assert(ws.subrange(spec_immediate_count(opcode) as int, ws.len() as int) =~= spec_new_words(r1, memory.read@));
    }

    Ok((size, am, imm))
}

/// BCHG, BCLR, BSET, BTST: whether the bit number is in a data register (dynamic).
pub open spec fn spec_dynamic_bit(op: u16) -> bool {
    (op / 0x100) % 2 == 1
}

/// BCHG, BCLR, BSET, BTST: the size of the operand, long in a data register, byte in memory.
pub open spec fn spec_bit_operand_size(op: u16) -> Size {
    if spec_ea_mode(op) == 0 { Size::Long } else { Size::Byte }
}

/// BCHG, BCLR, BSET, BTST: number of extension words.
pub open spec fn spec_effective_address_count_count(op: u16) -> nat {
    (if spec_dynamic_bit(op) { 0nat } else { 1nat }) + spec_ext_count(spec_ea_mode(op), spec_ea_reg(op), Some(spec_bit_operand_size(op)))
}

/// BCHG, BCLR, BSET, BTST: the effective address and the bit number (the register number for
/// the dynamic form, the low byte of the extension word for the static form).
pub open spec fn spec_effective_address_count(op: u16, addr: u32, ws: Seq<u16>) -> (AddressingMode, u8) {
    let n: nat = if spec_dynamic_bit(op) { 0 } else { 1 };
    let count = if spec_dynamic_bit(op) { spec_reg9(op) } else { (ws[0] % 0x100) as u8 };
    (spec_decode_am(spec_ea_mode(op), spec_ea_reg(op), Some(spec_bit_operand_size(op)), spec_wrapping_add(addr, (2 * n) as u32), ws.subrange(n as int, ws.len() as int)), count)
}

/// BCHG, BCLR, BSET, BTST
pub fn effective_address_count<M: MemoryAccess + ?Sized>(opcode: u16, memory: &mut MemoryIter<M>) -> (r: Result<(AddressingMode, u8), u8>)
    requires
        spec_valid_ea_field(opcode),
    ensures
        final(memory).start == old(memory).start,
        r is Ok && old(memory).spec_consistent() ==> final(memory).spec_consistent(),
            r matches Err(e) ==> e == ACCESS_ERROR || e == ADDRESS_ERROR,
            final(memory).next_addr % 2 == old(memory).next_addr % 2,
            r matches Err(e) ==> (e == ADDRESS_ERROR) == (old(memory).next_addr % 2 == 1),
            r matches Err(e) && e == ACCESS_ERROR && old(memory).spec_consistent() ==> final(memory).spec_refused_next(),
        r matches Ok(v) ==> spec_extends(old(memory).read@, final(memory).read@, spec_effective_address_count_count(opcode))
            && v == spec_effective_address_count(opcode, old(memory).next_addr, spec_new_words(old(memory).read@, final(memory).read@)),
{
    let ghost r0 = memory.read@;
    let count: u8 = if (opcode / 0x100) % 2 == 1 {
        proof {
            lemma_no_word(r0);
        }
        ((opcode / 0x200) % 8) as u8
    } else {
        let w = memory.next_word()?;
        proof {
            lemma_one_word(r0, w);
        }
        (w % 0x100) as u8
    };
    let ghost r1 = memory.read@;
    let ghost n: nat = if spec_dynamic_bit(opcode) { 0 } else { 1 };

    let eareg = (opcode % 8) as u8;
    let eamode = (opcode / 8) % 8;
    let size = if eamode == 0 { Size::Long } else { Size::Byte };
    let am = AddressingMode::from_memory(eamode, eareg, Some(size), memory)?;
    proof {
        lemma_words_concat(r0, r1, memory.read@, n, spec_ext_count(eamode, eareg, Some(size)));
        let ws = spec_new_words(r0, memory.read@);
        assert(ws.subrange(n as int, ws.len() as int) =~= spec_new_words(r1, memory.read@));
    }

    Ok((am, count))
}

/// JMP, JSR, MOVE (f) SR CCR, NBCD, PEA, TAS: the size of the operand.
pub open spec fn spec_effective_address_size(isa: Isa) -> Option<Size> {
    if isa == Isa::Nbcd || isa == Isa::Tas {
        Some(Size::Byte)
    } else if isa == Isa::Moveccr || isa == Isa::Movefsr || isa == Isa::Movesr {
        Some(Size::Word)
    } else if isa == Isa::Pea {
        Some(Size::Long)
    } else {
        None
    }
}

/// JMP, JSR, MOVE (f) SR CCR, NBCD, PEA, TAS
pub fn effective_address<M: MemoryAccess + ?Sized>(opcode: u16, memory: &mut MemoryIter<M>) -> (r: Result<AddressingMode, u8>)
    requires
        spec_valid_ea_field(opcode),
    ensures
        final(memory).start == old(memory).start,
        r is Ok && old(memory).spec_consistent() ==> final(memory).spec_consistent(),
            r matches Err(e) ==> e == ACCESS_ERROR || e == ADDRESS_ERROR,
            final(memory).next_addr % 2 == old(memory).next_addr % 2,
            r matches Err(e) ==> (e == ADDRESS_ERROR) == (old(memory).next_addr % 2 == 1),
            r matches Err(e) && e == ACCESS_ERROR && old(memory).spec_consistent() ==> final(memory).spec_refused_next(),
        r matches Ok(am) ==> ({
            let size = spec_effective_address_size(spec_isa(opcode));
            &&& spec_extends(old(memory).read@, final(memory).read@, spec_ext_count(spec_ea_mode(opcode), spec_ea_reg(opcode), size))
            &&& am == spec_decode_am(spec_ea_mode(opcode), spec_ea_reg(opcode), size, old(memory).next_addr, spec_new_words(old(memory).read@, final(memory).read@))
        }),
{
    let isa = Isa::from(opcode);

    let size = if isa == Isa::Nbcd || isa == Isa::Tas {
        Some(Size::Byte)
    } else if isa == Isa::Moveccr || isa == Isa::Movefsr || isa == Isa::Movesr {
        Some(Size::Word)
    } else if isa == Isa::Pea {
        Some(Size::Long)
    } else {
        None
    };

    let eareg = (opcode % 8) as u8;
    let eamode = (opcode / 8) % 8;
    AddressingMode::from_memory(eamode, eareg, size, memory)
}

/// CLR, NEG, NEGX, NOT, TST
pub fn size_effective_address<M: MemoryAccess + ?Sized>(opcode: u16, memory: &mut MemoryIter<M>) -> (r: Result<(Size, AddressingMode), u8>)
    requires
        spec_size_field(opcode) <= 2,
        spec_valid_ea_field(opcode),
    ensures
        final(memory).start == old(memory).start,
        r is Ok && old(memory).spec_consistent() ==> final(memory).spec_consistent(),
            r matches Err(e) ==> e == ACCESS_ERROR || e == ADDRESS_ERROR,
            final(memory).next_addr % 2 == old(memory).next_addr % 2,
            r matches Err(e) ==> (e == ADDRESS_ERROR) == (old(memory).next_addr % 2 == 1),
            r matches Err(e) && e == ACCESS_ERROR && old(memory).spec_consistent() ==> final(memory).spec_refused_next(),
        r matches Ok(v) ==> ({
            let size = spec_size_of_code(spec_size_field(opcode));
            &&& spec_extends(old(memory).read@, final(memory).read@, spec_ext_count(spec_ea_mode(opcode), spec_ea_reg(opcode), Some(size)))
            &&& v == (size, spec_decode_am(spec_ea_mode(opcode), spec_ea_reg(opcode), Some(size), old(memory).next_addr, spec_new_words(old(memory).read@, final(memory).read@)))
        }),
{
    let eareg = (opcode % 8) as u8;
    let eamode = (opcode / 8) % 8;
    let size = Size::from((opcode / 0x40) % 4);
    let am = AddressingMode::from_memory(eamode, eareg, Some(size), memory)?;
    Ok((size, am))
}

/// CHK, DIVS, DIVU, LEA, MULS, MULU: the size of the operand.
pub open spec fn spec_register_effective_address_size(isa: Isa) -> Size {
    if isa == Isa::Lea { Size::Long } else { Size::Word }
}

/// CHK, DIVS, DIVU, LEA, MULS, MULU
pub fn register_effective_address<M: MemoryAccess + ?Sized>(opcode: u16, memory: &mut MemoryIter<M>) -> (r: Result<(u8, AddressingMode), u8>)
    requires
        spec_valid_ea_field(opcode),
    ensures
        final(memory).start == old(memory).start,
        r is Ok && old(memory).spec_consistent() ==> final(memory).spec_consistent(),
            r matches Err(e) ==> e == ACCESS_ERROR || e == ADDRESS_ERROR,
            final(memory).next_addr % 2 == old(memory).next_addr % 2,
            r matches Err(e) ==> (e == ADDRESS_ERROR) == (old(memory).next_addr % 2 == 1),
            r matches Err(e) && e == ACCESS_ERROR && old(memory).spec_consistent() ==> final(memory).spec_refused_next(),
        r matches Ok(v) ==> ({
            let size = Some(spec_register_effective_address_size(spec_isa(opcode)));
            &&& spec_extends(old(memory).read@, final(memory).read@, spec_ext_count(spec_ea_mode(opcode), spec_ea_reg(opcode), size))
            &&& v == (spec_reg9(opcode), spec_decode_am(spec_ea_mode(opcode), spec_ea_reg(opcode), size, old(memory).next_addr, spec_new_words(old(memory).read@, final(memory).read@)))
        }),
{
    let isa = Isa::from(opcode);

    let reg = ((opcode / 0x200) % 8) as u8;
    let size = if isa == Isa::Lea {
        Some(Size::Long)
    } else {
        Some(Size::Word)
    };

    let eareg = (opcode % 8) as u8;
    let eamode = (opcode / 8) % 8;
    let am = AddressingMode::from_memory(eamode, eareg, size, memory)?;
    Ok((reg, am))
}

/// MOVEP: data register, direction, size, address register and displacement.
pub open spec fn spec_register_direction_size_register_displacement(op: u16, w: u16) -> (u8, Direction, Size, u8, i16) {
    (spec_reg9(op),
     if (op / 0x80) % 2 == 1 { Direction::RegisterToMemory } else { Direction::MemoryToRegister },
     if (op / 0x40) % 2 == 1 { Size::Long } else { Size::Word },
     spec_ea_reg(op),
     spec_word_as_i16(w))
}

/// MOVEP
pub fn register_direction_size_register_displacement<M: MemoryAccess + ?Sized>(opcode: u16, memory: &mut MemoryIter<M>) -> (r: Result<(u8, Direction, Size, u8, i16), u8>)
    ensures
        final(memory).start == old(memory).start,
        r is Ok && old(memory).spec_consistent() ==> final(memory).spec_consistent(),
            r matches Err(e) ==> e == ACCESS_ERROR || e == ADDRESS_ERROR,
            final(memory).next_addr % 2 == old(memory).next_addr % 2,
            r matches Err(e) ==> (e == ADDRESS_ERROR) == (old(memory).next_addr % 2 == 1),
            r matches Err(e) && e == ACCESS_ERROR && old(memory).spec_consistent() ==> final(memory).spec_refused_next(),
        r matches Ok(v) ==> spec_extends(old(memory).read@, final(memory).read@, 1)
            && v == spec_register_direction_size_register_displacement(opcode, spec_new_words(old(memory).read@, final(memory).read@)[0]),
{
    let dreg = ((opcode / 0x200) % 8) as u8;
    let dir = if (opcode / 0x80) % 2 == 1 { Direction::RegisterToMemory } else { Direction::MemoryToRegister };
    let size = if (opcode / 0x40) % 2 == 1 { Size::Long } else { Size::Word };
    let areg = (opcode % 8) as u8;
    let ghost r0 = memory.read@;
    let w = memory.next_word()?;
    proof {
        lemma_one_word(r0, w);
    }
    let disp = word_as_i16(w);

    Ok((dreg, dir, size, areg, disp))
}

/// MOVE and MOVEA: the size given by bits 12 and 13.
pub open spec fn spec_move_size(op: u16) -> Size {
    spec_size_of_move((op / 0x1000) % 4)
}

/// MOVEA
pub fn size_register_effective_address<M: MemoryAccess + ?Sized>(opcode: u16, memory: &mut MemoryIter<M>) -> (r: Result<(Size, u8, AddressingMode), u8>)
    requires
        (opcode / 0x1000) % 4 != 0,
        spec_valid_ea_field(opcode),
    ensures
        final(memory).start == old(memory).start,
        r is Ok && old(memory).spec_consistent() ==> final(memory).spec_consistent(),
            r matches Err(e) ==> e == ACCESS_ERROR || e == ADDRESS_ERROR,
            final(memory).next_addr % 2 == old(memory).next_addr % 2,
            r matches Err(e) ==> (e == ADDRESS_ERROR) == (old(memory).next_addr % 2 == 1),
            r matches Err(e) && e == ACCESS_ERROR && old(memory).spec_consistent() ==> final(memory).spec_refused_next(),
        r matches Ok(v) ==> ({
            let size = spec_move_size(opcode);
            &&& spec_extends(old(memory).read@, final(memory).read@, spec_ext_count(spec_ea_mode(opcode), spec_ea_reg(opcode), Some(size)))
            &&& v == (size, spec_reg9(opcode), spec_decode_am(spec_ea_mode(opcode), spec_ea_reg(opcode), Some(size), old(memory).next_addr, spec_new_words(old(memory).read@, final(memory).read@)))
        }),
{
    let eareg = (opcode % 8) as u8;
    let eamode = (opcode / 8) % 8;
    let areg = ((opcode / 0x200) % 8) as u8;
    let size = Size::from_move((opcode / 0x1000) % 4);
    let am = AddressingMode::from_memory(eamode, eareg, Some(size), memory)?;

    Ok((size, areg, am))
}

/// MOVE: the destination mode field (bits 6 to 8).
pub open spec fn spec_move_dst_mode(op: u16) -> u16 {
    (op / 0x40) % 8
}

/// MOVE: size, destination and source, the source extension words coming first.
pub open spec fn spec_size_effective_address_effective_address(op: u16, addr: u32, ws: Seq<u16>) -> (Size, AddressingMode, AddressingMode) {
    let size = spec_move_size(op);
    let n = spec_ext_count(spec_ea_mode(op), spec_ea_reg(op), Some(size));
    let src = spec_decode_am(spec_ea_mode(op), spec_ea_reg(op), Some(size), addr, ws.subrange(0, n as int));
    let dst = spec_decode_am(spec_move_dst_mode(op), spec_reg9(op), Some(size), spec_wrapping_add(addr, (2 * n) as u32), ws.subrange(n as int, ws.len() as int));
    (size, dst, src)
}

/// MOVE: number of extension words.
pub open spec fn spec_size_effective_address_effective_address_count(op: u16) -> nat {
    let size = spec_move_size(op);
    spec_ext_count(spec_ea_mode(op), spec_ea_reg(op), Some(size)) + spec_ext_count(spec_move_dst_mode(op), spec_reg9(op), Some(size))
}

/// MOVE
pub fn size_effective_address_effective_address<M: MemoryAccess + ?Sized>(opcode: u16, memory: &mut MemoryIter<M>) -> (r: Result<(Size, AddressingMode, AddressingMode), u8>)
    requires
        (opcode / 0x1000) % 4 != 0,
        spec_valid_ea_field(opcode),
        spec_valid_ea(spec_move_dst_mode(opcode), spec_reg9(opcode)),
    ensures
        final(memory).start == old(memory).start,
        r is Ok && old(memory).spec_consistent() ==> final(memory).spec_consistent(),
            r matches Err(e) ==> e == ACCESS_ERROR || e == ADDRESS_ERROR,
            final(memory).next_addr % 2 == old(memory).next_addr % 2,
            r matches Err(e) ==> (e == ADDRESS_ERROR) == (old(memory).next_addr % 2 == 1),
            r matches Err(e) && e == ACCESS_ERROR && old(memory).spec_consistent() ==> final(memory).spec_refused_next(),
        r matches Ok(v) ==> spec_extends(old(memory).read@, final(memory).read@, spec_size_effective_address_effective_address_count(opcode))
            && v == spec_size_effective_address_effective_address(opcode, old(memory).next_addr, spec_new_words(old(memory).read@, final(memory).read@)),
{
    let ghost r0 = memory.read@;
    let size = Size::from_move((opcode / 0x1000) % 4);

    // First read the source operand then the destination.
    let eareg = (opcode % 8) as u8;
    let eamode = (opcode / 8) % 8;
    let src = AddressingMode::from_memory(eamode, eareg, Some(size), memory)?;
    let ghost r1 = memory.read@;

    let eamode = (opcode / 0x40) % 8;
    let eareg = ((opcode / 0x200) % 8) as u8;
    let dst = AddressingMode::from_memory(eamode, eareg, Some(size), memory)?;
    proof {
        let n1 = spec_ext_count(spec_ea_mode(opcode), spec_ea_reg(opcode), Some(size));
        lemma_words_concat(r0, r1, memory.read@, n1, spec_ext_count(eamode, eareg, Some(size)));
        let ws = spec_new_words(r0, memory.read@);
        assert(ws.subrange(0, n1 as int) =~= spec_new_words(r0, r1));
        assert(ws.subrange(n1 as int, ws.len() as int) =~= spec_new_words(r1, memory.read@));
    }

    Ok((size, dst, src))
}

/// EXG: the direction given by the opmode field.
pub open spec fn spec_exg_direction(op: u16) -> Direction {
    let opmode = (op / 8) % 32;
    if opmode == 0b01000 { Direction::ExchangeData }
    else if opmode == 0b01001 { Direction::ExchangeAddress }
    else { Direction::ExchangeDataAddress }
}

/// EXG
pub fn register_opmode_register(opcode: u16) -> (r: (u8, Direction, u8))
    ensures
        r == (spec_reg9(opcode), spec_exg_direction(opcode), spec_ea_reg(opcode)),
{
    let regl = ((opcode / 0x200) % 8) as u8;
    let opmode = (opcode / 8) % 32;
    let regr = (opcode % 8) as u8;
    let dir = if opmode == 0b01000 {
        Direction::ExchangeData
    } else if opmode == 0b01001 {
        Direction::ExchangeAddress
    } else {
        Direction::ExchangeDataAddress
    };

    (regl, dir, regr)
}

/// EXT
pub fn opmode_register(opcode: u16) -> (r: (u8, u8))
    ensures
        r == ((spec_move_dst_mode(opcode)) as u8, spec_ea_reg(opcode)),
{
    let opmode = ((opcode / 0x40) % 8) as u8;
    let reg = (opcode % 8) as u8;

    (opmode, reg)
}

/// TRAP
pub fn vector(opcode: u16) -> (r: u8)
    ensures
        r == opcode % 16,
{
    (opcode % 16) as u8
}

/// LINK
pub fn register_displacement<M: MemoryAccess + ?Sized>(opcode: u16, memory: &mut MemoryIter<M>) -> (r: Result<(u8, i16), u8>)
    ensures
        final(memory).start == old(memory).start,
        r is Ok && old(memory).spec_consistent() ==> final(memory).spec_consistent(),
            r matches Err(e) ==> e == ACCESS_ERROR || e == ADDRESS_ERROR,
            final(memory).next_addr % 2 == old(memory).next_addr % 2,
            r matches Err(e) ==> (e == ADDRESS_ERROR) == (old(memory).next_addr % 2 == 1),
            r matches Err(e) && e == ACCESS_ERROR && old(memory).spec_consistent() ==> final(memory).spec_refused_next(),
        r matches Ok(v) ==> spec_extends(old(memory).read@, final(memory).read@, 1)
            && v == (spec_ea_reg(opcode), spec_word_as_i16(spec_new_words(old(memory).read@, final(memory).read@)[0])),
{
    let reg = (opcode % 8) as u8;
    let ghost r0 = memory.read@;
    let w = memory.next_word()?;
    proof {
        lemma_one_word(r0, w);
    }
    let disp = word_as_i16(w);

    Ok((reg, disp))
}

/// SWAP, UNLK
pub fn register(opcode: u16) -> (r: u8)
    ensures
        r == spec_ea_reg(opcode),
{
    (opcode % 8) as u8
}

/// MOVE USP: the direction given by bit 3.
pub open spec fn spec_usp_direction(op: u16) -> Direction {
    if (op / 8) % 2 == 1 { Direction::UspToRegister } else { Direction::RegisterToUsp }
}

/// MOVE USP
pub fn direction_register(opcode: u16) -> (r: (Direction, u8))
    ensures
        r == (spec_usp_direction(opcode), spec_ea_reg(opcode)),
{
    let dir = if (opcode / 8) % 2 == 1 { Direction::UspToRegister } else { Direction::RegisterToUsp };
    let reg = (opcode % 8) as u8;

    (dir, reg)
}

/// MOVEM: the direction given by bit 10.
pub open spec fn spec_movem_direction(op: u16) -> Direction {
    if (op / 0x400) % 2 == 1 { Direction::MemoryToRegister } else { Direction::RegisterToMemory }
}

/// MOVEM: the size given by bit 6.
pub open spec fn spec_movem_size(op: u16) -> Size {
    spec_size_of_bit((op / 0x40) % 2)
}

/// MOVEM: direction, size, effective address and register list, the list coming first.
pub open spec fn spec_direction_size_effective_address_list(op: u16, addr: u32, ws: Seq<u16>) -> (Direction, Size, AddressingMode, u16) {
    (spec_movem_direction(op), spec_movem_size(op),
     spec_decode_am(spec_ea_mode(op), spec_ea_reg(op), Some(spec_movem_size(op)), spec_wrapping_add(addr, 2), ws.subrange(1, ws.len() as int)),
     ws[0])
}

/// MOVEM
pub fn direction_size_effective_address_list<M: MemoryAccess + ?Sized>(opcode: u16, memory: &mut MemoryIter<M>) -> (r: Result<(Direction, Size, AddressingMode, u16), u8>)
    requires
        spec_valid_ea_field(opcode),
    ensures
        final(memory).start == old(memory).start,
        r is Ok && old(memory).spec_consistent() ==> final(memory).spec_consistent(),
            r matches Err(e) ==> e == ACCESS_ERROR || e == ADDRESS_ERROR,
            final(memory).next_addr % 2 == old(memory).next_addr % 2,
            r matches Err(e) ==> (e == ADDRESS_ERROR) == (old(memory).next_addr % 2 == 1),
            r matches Err(e) && e == ACCESS_ERROR && old(memory).spec_consistent() ==> final(memory).spec_refused_next(),
        r matches Ok(v) ==> spec_extends(old(memory).read@, final(memory).read@, 1 + spec_ext_count(spec_ea_mode(opcode), spec_ea_reg(opcode), Some(spec_movem_size(opcode))))
            && v == spec_direction_size_effective_address_list(opcode, old(memory).next_addr, spec_new_words(old(memory).read@, final(memory).read@)),
{
    let ghost r0 = memory.read@;
    let list = memory.next_word()?;
    let ghost r1 = memory.read@;
    let dir = if (opcode / 0x400) % 2 == 1 { Direction::MemoryToRegister } else { Direction::RegisterToMemory };
    let size = Size::from_bit((opcode / 0x40) % 2);

    let eareg = (opcode % 8) as u8;
    let eamode = (opcode / 8) % 8;
    let am = AddressingMode::from_memory(eamode, eareg, Some(size), memory)?;
    proof {
        lemma_one_word(r0, list);
        lemma_words_concat(r0, r1, memory.read@, 1, spec_ext_count(eamode, eareg, Some(size)));
        let ws = spec_new_words(r0, memory.read@);
        assert(ws.subrange(1, ws.len() as int) =~= spec_new_words(r1, memory.read@));
    }

    Ok((dir, size, am, list))
}

/// ADDQ, SUBQ
pub fn data_size_effective_address<M: MemoryAccess + ?Sized>(opcode: u16, memory: &mut MemoryIter<M>) -> (r: Result<(u8, Size, AddressingMode), u8>)
    requires
        spec_size_field(opcode) <= 2,
        spec_valid_ea_field(opcode),
    ensures
        final(memory).start == old(memory).start,
        r is Ok && old(memory).spec_consistent() ==> final(memory).spec_consistent(),
            r matches Err(e) ==> e == ACCESS_ERROR || e == ADDRESS_ERROR,
            final(memory).next_addr % 2 == old(memory).next_addr % 2,
            r matches Err(e) ==> (e == ADDRESS_ERROR) == (old(memory).next_addr % 2 == 1),
            r matches Err(e) && e == ACCESS_ERROR && old(memory).spec_consistent() ==> final(memory).spec_refused_next(),
        r matches Ok(v) ==> ({
            let size = spec_size_of_code(spec_size_field(opcode));
            &&& spec_extends(old(memory).read@, final(memory).read@, spec_ext_count(spec_ea_mode(opcode), spec_ea_reg(opcode), Some(size)))
            &&& v == (spec_reg9(opcode), size, spec_decode_am(spec_ea_mode(opcode), spec_ea_reg(opcode), Some(size), old(memory).next_addr, spec_new_words(old(memory).read@, final(memory).read@)))
        }),
{
    let data = ((opcode / 0x200) % 8) as u8;
    let size = Size::from((opcode / 0x40) % 4);

    let eareg = (opcode % 8) as u8;
    let eamode = (opcode / 8) % 8;
    let am = AddressingMode::from_memory(eamode, eareg, Some(size), memory)?;

    Ok((data, size, am))
}

/// Scc
pub fn condition_effective_address<M: MemoryAccess + ?Sized>(opcode: u16, memory: &mut MemoryIter<M>) -> (r: Result<(u8, AddressingMode), u8>)
    requires
        spec_valid_ea_field(opcode),
    ensures
        final(memory).start == old(memory).start,
        r is Ok && old(memory).spec_consistent() ==> final(memory).spec_consistent(),
            r matches Err(e) ==> e == ACCESS_ERROR || e == ADDRESS_ERROR,
            final(memory).next_addr % 2 == old(memory).next_addr % 2,
            r matches Err(e) ==> (e == ADDRESS_ERROR) == (old(memory).next_addr % 2 == 1),
            r matches Err(e) && e == ACCESS_ERROR && old(memory).spec_consistent() ==> final(memory).spec_refused_next(),
        r matches Ok(v) ==> ({
            &&& spec_extends(old(memory).read@, final(memory).read@, spec_ext_count(spec_ea_mode(opcode), spec_ea_reg(opcode), Some(Size::Byte)))
            &&& v == (spec_condition_field(opcode), spec_decode_am(spec_ea_mode(opcode), spec_ea_reg(opcode), Some(Size::Byte), old(memory).next_addr, spec_new_words(old(memory).read@, final(memory).read@)))
        }),
{
    let condition = ((opcode / 0x100) % 16) as u8;

    let eareg = (opcode % 8) as u8;
    let eamode = (opcode / 8) % 8;
    let am = AddressingMode::from_memory(eamode, eareg, Some(Size::Byte), memory)?;

    Ok((condition, am))
}

/// DBcc
pub fn condition_register_displacement<M: MemoryAccess + ?Sized>(opcode: u16, memory: &mut MemoryIter<M>) -> (r: Result<(u8, u8, i16), u8>)
    ensures
        final(memory).start == old(memory).start,
        r is Ok && old(memory).spec_consistent() ==> final(memory).spec_consistent(),
            r matches Err(e) ==> e == ACCESS_ERROR || e == ADDRESS_ERROR,
            final(memory).next_addr % 2 == old(memory).next_addr % 2,
            r matches Err(e) ==> (e == ADDRESS_ERROR) == (old(memory).next_addr % 2 == 1),
            r matches Err(e) && e == ACCESS_ERROR && old(memory).spec_consistent() ==> final(memory).spec_refused_next(),
        r matches Ok(v) ==> spec_extends(old(memory).read@, final(memory).read@, 1)
            && v == (spec_condition_field(opcode), spec_ea_reg(opcode), spec_word_as_i16(spec_new_words(old(memory).read@, final(memory).read@)[0])),
{
    let ghost r0 = memory.read@;
    let w = memory.next_word()?;
    proof {
        lemma_one_word(r0, w);
    }
    let disp = word_as_i16(w);
    let condition = ((opcode / 0x100) % 16) as u8;
    let reg = (opcode % 8) as u8;
    Ok((condition, reg, disp))
}

/// BRA, BSR, Bcc: whether the displacement is in the extension word (the low byte is 0).
pub open spec fn spec_word_displacement(op: u16) -> bool {
    op % 0x100 == 0
}

/// BRA, BSR, Bcc: the displacement, the low byte of the opcode or the extension word.
pub open spec fn spec_displacement(op: u16, ws: Seq<u16>) -> i16 {
    if spec_word_displacement(op) { spec_word_as_i16(ws[0]) } else { spec_low_byte_i8(op) as i16 }
}

/// BRA, BSR
pub fn displacement<M: MemoryAccess + ?Sized>(opcode: u16, memory: &mut MemoryIter<M>) -> (r: Result<i16, u8>)
    ensures
        final(memory).start == old(memory).start,
        r is Ok && old(memory).spec_consistent() ==> final(memory).spec_consistent(),
            r matches Err(e) ==> e == ACCESS_ERROR || e == ADDRESS_ERROR,
            final(memory).next_addr % 2 == old(memory).next_addr % 2,
            r matches Err(e) ==> (e == ADDRESS_ERROR) == (old(memory).next_addr % 2 == 1),
            r matches Err(e) && e == ACCESS_ERROR && old(memory).spec_consistent() ==> final(memory).spec_refused_next(),
        r matches Ok(d) ==> spec_extends(old(memory).read@, final(memory).read@, if spec_word_displacement(opcode) { 1nat } else { 0nat })
            && d == spec_displacement(opcode, spec_new_words(old(memory).read@, final(memory).read@)),
{
    let ghost r0 = memory.read@;
    let mut disp = low_byte_i8(opcode) as i16;
    if disp == 0 {
        let w = memory.next_word()?;
        proof {
            lemma_one_word(r0, w);
        }
        disp = word_as_i16(w);
    } else {
        proof {
            lemma_no_word(r0);
        }
    }
    Ok(disp)
}

/// Bcc
pub fn condition_displacement<M: MemoryAccess + ?Sized>(opcode: u16, memory: &mut MemoryIter<M>) -> (r: Result<(u8, i16), u8>)
    ensures
        final(memory).start == old(memory).start,
        r is Ok && old(memory).spec_consistent() ==> final(memory).spec_consistent(),
            r matches Err(e) ==> e == ACCESS_ERROR || e == ADDRESS_ERROR,
            final(memory).next_addr % 2 == old(memory).next_addr % 2,
            r matches Err(e) ==> (e == ADDRESS_ERROR) == (old(memory).next_addr % 2 == 1),
            r matches Err(e) && e == ACCESS_ERROR && old(memory).spec_consistent() ==> final(memory).spec_refused_next(),
        r matches Ok(v) ==> spec_extends(old(memory).read@, final(memory).read@, if spec_word_displacement(opcode) { 1nat } else { 0nat })
            && v == (spec_condition_field(opcode), spec_displacement(opcode, spec_new_words(old(memory).read@, final(memory).read@))),
{
    let disp = displacement(opcode, memory)?;
    let condition = ((opcode / 0x100) % 16) as u8;
    Ok((condition, disp))
}

/// MOVEQ
pub fn register_data(opcode: u16) -> (r: (u8, i8))
    ensures
        r == (spec_reg9(opcode), spec_low_byte_i8(opcode)),
{
    let reg = ((opcode / 0x200) % 8) as u8;
    let data = low_byte_i8(opcode);

    (reg, data)
}

/// ADD, AND, CMP, EOR, OR, SUB: the direction given by bit 8.
pub open spec fn spec_dst_direction(op: u16) -> Direction {
    if (op / 0x100) % 2 == 1 { Direction::DstEa } else { Direction::DstReg }
}

/// ADD, AND, CMP, EOR, OR, SUB
pub fn register_direction_size_effective_address<M: MemoryAccess + ?Sized>(opcode: u16, memory: &mut MemoryIter<M>) -> (r: Result<(u8, Direction, Size, AddressingMode), u8>)
    requires
        spec_size_field(opcode) <= 2,
        spec_valid_ea_field(opcode),
    ensures
        final(memory).start == old(memory).start,
        r is Ok && old(memory).spec_consistent() ==> final(memory).spec_consistent(),
            r matches Err(e) ==> e == ACCESS_ERROR || e == ADDRESS_ERROR,
            final(memory).next_addr % 2 == old(memory).next_addr % 2,
            r matches Err(e) ==> (e == ADDRESS_ERROR) == (old(memory).next_addr % 2 == 1),
            r matches Err(e) && e == ACCESS_ERROR && old(memory).spec_consistent() ==> final(memory).spec_refused_next(),
        r matches Ok(v) ==> ({
            let size = spec_size_of_code(spec_size_field(opcode));
            &&& spec_extends(old(memory).read@, final(memory).read@, spec_ext_count(spec_ea_mode(opcode), spec_ea_reg(opcode), Some(size)))
            &&& v == (spec_reg9(opcode), spec_dst_direction(opcode), size, spec_decode_am(spec_ea_mode(opcode), spec_ea_reg(opcode), Some(size), old(memory).next_addr, spec_new_words(old(memory).read@, final(memory).read@)))
        }),
{
    let reg = ((opcode / 0x200) % 8) as u8;
    let dir = if (opcode / 0x100) % 2 == 1 { Direction::DstEa } else { Direction::DstReg }; // CMP and EOR ignores it
    let size = Size::from((opcode / 0x40) % 4);

    let eareg = (opcode % 8) as u8;
    let eamode = (opcode / 8) % 8;
    let am = AddressingMode::from_memory(eamode, eareg, Some(size), memory)?;

    Ok((reg, dir, size, am))
}

/// ADDA, CMPA, SUBA: the size given by bit 8.
pub open spec fn spec_address_size(op: u16) -> Size {
    spec_size_of_bit((op / 0x100) % 2)
}

/// ADDA, CMPA, SUBA
pub fn register_size_effective_address<M: MemoryAccess + ?Sized>(opcode: u16, memory: &mut MemoryIter<M>) -> (r: Result<(u8, Size, AddressingMode), u8>)
    requires
        spec_valid_ea_field(opcode),
    ensures
        final(memory).start == old(memory).start,
        r is Ok && old(memory).spec_consistent() ==> final(memory).spec_consistent(),
            r matches Err(e) ==> e == ACCESS_ERROR || e == ADDRESS_ERROR,
            final(memory).next_addr % 2 == old(memory).next_addr % 2,
            r matches Err(e) ==> (e == ADDRESS_ERROR) == (old(memory).next_addr % 2 == 1),
            r matches Err(e) && e == ACCESS_ERROR && old(memory).spec_consistent() ==> final(memory).spec_refused_next(),
        r matches Ok(v) ==> ({
            let size = spec_address_size(opcode);
            &&& spec_extends(old(memory).read@, final(memory).read@, spec_ext_count(spec_ea_mode(opcode), spec_ea_reg(opcode), Some(size)))
            &&& v == (spec_reg9(opcode), size, spec_decode_am(spec_ea_mode(opcode), spec_ea_reg(opcode), Some(size), old(memory).next_addr, spec_new_words(old(memory).read@, final(memory).read@)))
        }),
{
    let reg = ((opcode / 0x200) % 8) as u8;
    let size = Size::from_bit((opcode / 0x100) % 2);

    let eareg = (opcode % 8) as u8;
    let eamode = (opcode / 8) % 8;
    let am = AddressingMode::from_memory(eamode, eareg, Some(size), memory)?;

    Ok((reg, size, am))
}

/// ABCD, ADDX, SBCD, SUBX: the mode given by bit 3.
pub open spec fn spec_x_mode(op: u16) -> Direction {
    if (op / 8) % 2 == 1 { Direction::MemoryToMemory } else { Direction::RegisterToRegister }
}

/// ABCD, ADDX, SBCD, SUBX
pub fn register_size_mode_register(opcode: u16) -> (r: (u8, Size, Direction, u8))
    requires
        spec_size_field(opcode) <= 2,
    ensures
        r == (spec_reg9(opcode), spec_size_of_code(spec_size_field(opcode)), spec_x_mode(opcode), spec_ea_reg(opcode)),
{
    let regl = ((opcode / 0x200) % 8) as u8;
    let size = Size::from((opcode / 0x40) % 4);
    let mode = if (opcode / 8) % 2 == 1 { Direction::MemoryToMemory } else { Direction::RegisterToRegister };
    let regr = (opcode % 8) as u8;

    (regl, size, mode, regr)
}

/// CMPM
pub fn register_size_register(opcode: u16) -> (r: (u8, Size, u8))
    requires
        spec_size_field(opcode) <= 2,
    ensures
        r == (spec_reg9(opcode), spec_size_of_code(spec_size_field(opcode)), spec_ea_reg(opcode)),
{
    let regl = ((opcode / 0x200) % 8) as u8;
    let size = Size::from((opcode / 0x40) % 4);
    let regr = (opcode % 8) as u8;

    (regl, size, regr)
}

/// Shifts and rotates: the direction given by bit 8.
pub open spec fn spec_shift_direction(op: u16) -> Direction {
    if (op / 0x100) % 2 == 1 { Direction::Left } else { Direction::Right }
}

/// ASm, LSm, ROm, ROXm
pub fn direction_effective_address<M: MemoryAccess + ?Sized>(opcode: u16, memory: &mut MemoryIter<M>) -> (r: Result<(Direction, AddressingMode), u8>)
    requires
        spec_valid_ea_field(opcode),
    ensures
        final(memory).start == old(memory).start,
        r is Ok && old(memory).spec_consistent() ==> final(memory).spec_consistent(),
            r matches Err(e) ==> e == ACCESS_ERROR || e == ADDRESS_ERROR,
            final(memory).next_addr % 2 == old(memory).next_addr % 2,
            r matches Err(e) ==> (e == ADDRESS_ERROR) == (old(memory).next_addr % 2 == 1),
            r matches Err(e) && e == ACCESS_ERROR && old(memory).spec_consistent() ==> final(memory).spec_refused_next(),
        r matches Ok(v) ==> ({
            &&& spec_extends(old(memory).read@, final(memory).read@, spec_ext_count(spec_ea_mode(opcode), spec_ea_reg(opcode), Some(Size::Byte)))
            &&& v == (spec_shift_direction(opcode), spec_decode_am(spec_ea_mode(opcode), spec_ea_reg(opcode), Some(Size::Byte), old(memory).next_addr, spec_new_words(old(memory).read@, final(memory).read@)))
        }),
{
    let eareg = (opcode % 8) as u8;
    let eamode = (opcode / 8) % 8;
    let dir = if (opcode / 0x100) % 2 == 1 { Direction::Left } else { Direction::Right };
    let am = AddressingMode::from_memory(eamode, eareg, Some(Size::Byte), memory)?;

    Ok((dir, am))
}

/// ASr, LSr, ROr, ROXr
pub fn rotation_direction_size_mode_register(opcode: u16) -> (r: (u8, Direction, Size, u8, u8))
    requires
        spec_size_field(opcode) <= 2,
    ensures
        r == (spec_reg9(opcode), spec_shift_direction(opcode), spec_size_of_code(spec_size_field(opcode)), ((opcode / 0x20) % 2) as u8, spec_ea_reg(opcode)),
{
    let count = ((opcode / 0x200) % 8) as u8;
    let dir = if (opcode / 0x100) % 2 == 1 { Direction::Left } else { Direction::Right };
    let size = Size::from((opcode / 0x40) % 4);
    let mode = ((opcode / 0x20) % 2) as u8;
    let reg = (opcode % 8) as u8;

    (count, dir, size, mode, reg)
}

/// ILLEGAL, NOP, RESET, RTE, RTR, RTS, TRAPV: number of extension words.
pub open spec fn spec_count_no_operands(op: u16) -> nat {
    0
}

/// ILLEGAL, NOP, RESET, RTE, RTR, RTS, TRAPV: the operands decoded from the opcode and its extension words `ws`, the first of which is at `addr`.
pub open spec fn spec_operands_no_operands(op: u16, addr: u32, ws: Seq<u16>) -> Operands {
    Operands::NoOperands
}

/// ANDI/EORI/ORI CCR/SR, STOP: number of extension words.
pub open spec fn spec_count_immediate(op: u16) -> nat {
    1
}

/// ANDI/EORI/ORI CCR/SR, STOP: the operands decoded from the opcode and its extension words `ws`, the first of which is at `addr`.
pub open spec fn spec_operands_immediate(op: u16, addr: u32, ws: Seq<u16>) -> Operands {
    Operands::Immediate(ws[0])
}

/// ADDI, ANDI, CMPI, EORI, ORI, SUBI: number of extension words.
pub open spec fn spec_count_size_effective_address_immediate(op: u16) -> nat {
    spec_size_effective_address_immediate_count(op)
}

/// ADDI, ANDI, CMPI, EORI, ORI, SUBI: the operands decoded from the opcode and its extension words `ws`, the first of which is at `addr`.
pub open spec fn spec_operands_size_effective_address_immediate(op: u16, addr: u32, ws: Seq<u16>) -> Operands {
        let v = spec_size_effective_address_immediate(op, addr, ws);
        Operands::SizeEffectiveAddressImmediate(v.0, v.1, v.2)
    }

/// BCHG, BCLR, BSET, BTST: number of extension words.
pub open spec fn spec_count_effective_address_count(op: u16) -> nat {
    spec_effective_address_count_count(op)
}

/// BCHG, BCLR, BSET, BTST: the operands decoded from the opcode and its extension words `ws`, the first of which is at `addr`.
pub open spec fn spec_operands_effective_address_count(op: u16, addr: u32, ws: Seq<u16>) -> Operands {
        let v = spec_effective_address_count(op, addr, ws);
        Operands::EffectiveAddressCount(v.0, v.1)
    }

/// JMP, JSR, MOVE (f) SR CCR, NBCD, PEA, TAS: number of extension words.
pub open spec fn spec_count_effective_address(op: u16) -> nat {
    spec_ext_count(spec_ea_mode(op), spec_ea_reg(op), spec_effective_address_size(spec_isa(op)))
}

/// JMP, JSR, MOVE (f) SR CCR, NBCD, PEA, TAS: the operands decoded from the opcode and its extension words `ws`, the first of which is at `addr`.
pub open spec fn spec_operands_effective_address(op: u16, addr: u32, ws: Seq<u16>) -> Operands {
    Operands::EffectiveAddress(spec_decode_am(spec_ea_mode(op), spec_ea_reg(op), spec_effective_address_size(spec_isa(op)), addr, ws))
}

/// CLR, NEG, NEGX, NOT, TST: number of extension words.
pub open spec fn spec_count_size_effective_address(op: u16) -> nat {
    spec_ext_count(spec_ea_mode(op), spec_ea_reg(op), Some(spec_size_of_code(spec_size_field(op))))
}

/// CLR, NEG, NEGX, NOT, TST: the operands decoded from the opcode and its extension words `ws`, the first of which is at `addr`.
pub open spec fn spec_operands_size_effective_address(op: u16, addr: u32, ws: Seq<u16>) -> Operands {
    Operands::SizeEffectiveAddress(spec_size_of_code(spec_size_field(op)), spec_decode_am(spec_ea_mode(op), spec_ea_reg(op), Some(spec_size_of_code(spec_size_field(op))), addr, ws))
}

/// CHK, DIVS, DIVU, LEA, MULS, MULU: number of extension words.
pub open spec fn spec_count_register_effective_address(op: u16) -> nat {
    spec_ext_count(spec_ea_mode(op), spec_ea_reg(op), Some(spec_register_effective_address_size(spec_isa(op))))
}

/// CHK, DIVS, DIVU, LEA, MULS, MULU: the operands decoded from the opcode and its extension words `ws`, the first of which is at `addr`.
pub open spec fn spec_operands_register_effective_address(op: u16, addr: u32, ws: Seq<u16>) -> Operands {
    Operands::RegisterEffectiveAddress(spec_reg9(op), spec_decode_am(spec_ea_mode(op), spec_ea_reg(op), Some(spec_register_effective_address_size(spec_isa(op))), addr, ws))
}

/// MOVEP: number of extension words.
pub open spec fn spec_count_register_direction_size_register_displacement(op: u16) -> nat {
    1
}

/// MOVEP: the operands decoded from the opcode and its extension words `ws`, the first of which is at `addr`.
pub open spec fn spec_operands_register_direction_size_register_displacement(op: u16, addr: u32, ws: Seq<u16>) -> Operands {
        let v = spec_register_direction_size_register_displacement(op, ws[0]);
        Operands::RegisterDirectionSizeRegisterDisplacement(v.0, v.1, v.2, v.3, v.4)
    }

/// MOVEA: number of extension words.
pub open spec fn spec_count_size_register_effective_address(op: u16) -> nat {
    spec_ext_count(spec_ea_mode(op), spec_ea_reg(op), Some(spec_move_size(op)))
}

/// MOVEA: the operands decoded from the opcode and its extension words `ws`, the first of which is at `addr`.
pub open spec fn spec_operands_size_register_effective_address(op: u16, addr: u32, ws: Seq<u16>) -> Operands {
    Operands::SizeRegisterEffectiveAddress(spec_move_size(op), spec_reg9(op), spec_decode_am(spec_ea_mode(op), spec_ea_reg(op), Some(spec_move_size(op)), addr, ws))
}

/// MOVE: number of extension words.
pub open spec fn spec_count_size_effective_address_effective_address(op: u16) -> nat {
    spec_size_effective_address_effective_address_count(op)
}

/// MOVE: the operands decoded from the opcode and its extension words `ws`, the first of which is at `addr`.
pub open spec fn spec_operands_size_effective_address_effective_address(op: u16, addr: u32, ws: Seq<u16>) -> Operands {
        let v = spec_size_effective_address_effective_address(op, addr, ws);
        Operands::SizeEffectiveAddressEffectiveAddress(v.0, v.1, v.2)
    }

/// EXG: number of extension words.
pub open spec fn spec_count_register_opmode_register(op: u16) -> nat {
    0
}

/// EXG: the operands decoded from the opcode and its extension words `ws`, the first of which is at `addr`.
pub open spec fn spec_operands_register_opmode_register(op: u16, addr: u32, ws: Seq<u16>) -> Operands {
    Operands::RegisterOpmodeRegister(spec_reg9(op), spec_exg_direction(op), spec_ea_reg(op))
}

/// EXT: number of extension words.
pub open spec fn spec_count_opmode_register(op: u16) -> nat {
    0
}

/// EXT: the operands decoded from the opcode and its extension words `ws`, the first of which is at `addr`.
pub open spec fn spec_operands_opmode_register(op: u16, addr: u32, ws: Seq<u16>) -> Operands {
    Operands::OpmodeRegister(spec_move_dst_mode(op) as u8, spec_ea_reg(op))
}

/// TRAP: number of extension words.
pub open spec fn spec_count_vector(op: u16) -> nat {
    0
}

/// TRAP: the operands decoded from the opcode and its extension words `ws`, the first of which is at `addr`.
pub open spec fn spec_operands_vector(op: u16, addr: u32, ws: Seq<u16>) -> Operands {
    Operands::Vector((op % 16) as u8)
}

/// LINK: number of extension words.
pub open spec fn spec_count_register_displacement(op: u16) -> nat {
    1
}

/// LINK: the operands decoded from the opcode and its extension words `ws`, the first of which is at `addr`.
pub open spec fn spec_operands_register_displacement(op: u16, addr: u32, ws: Seq<u16>) -> Operands {
    Operands::RegisterDisplacement(spec_ea_reg(op), spec_word_as_i16(ws[0]))
}

/// SWAP, UNLK: number of extension words.
pub open spec fn spec_count_register(op: u16) -> nat {
    0
}

/// SWAP, UNLK: the operands decoded from the opcode and its extension words `ws`, the first of which is at `addr`.
pub open spec fn spec_operands_register(op: u16, addr: u32, ws: Seq<u16>) -> Operands {
    Operands::Register(spec_ea_reg(op))
}

/// MOVE USP: number of extension words.
pub open spec fn spec_count_direction_register(op: u16) -> nat {
    0
}

/// MOVE USP: the operands decoded from the opcode and its extension words `ws`, the first of which is at `addr`.
pub open spec fn spec_operands_direction_register(op: u16, addr: u32, ws: Seq<u16>) -> Operands {
    Operands::DirectionRegister(spec_usp_direction(op), spec_ea_reg(op))
}

/// MOVEM: number of extension words.
pub open spec fn spec_count_direction_size_effective_address_list(op: u16) -> nat {
    1 + spec_ext_count(spec_ea_mode(op), spec_ea_reg(op), Some(spec_movem_size(op)))
}

/// MOVEM: the operands decoded from the opcode and its extension words `ws`, the first of which is at `addr`.
pub open spec fn spec_operands_direction_size_effective_address_list(op: u16, addr: u32, ws: Seq<u16>) -> Operands {
        let v = spec_direction_size_effective_address_list(op, addr, ws);
        Operands::DirectionSizeEffectiveAddressList(v.0, v.1, v.2, v.3)
    }

/// ADDQ, SUBQ: number of extension words.
pub open spec fn spec_count_data_size_effective_address(op: u16) -> nat {
    spec_ext_count(spec_ea_mode(op), spec_ea_reg(op), Some(spec_size_of_code(spec_size_field(op))))
}

/// ADDQ, SUBQ: the operands decoded from the opcode and its extension words `ws`, the first of which is at `addr`.
pub open spec fn spec_operands_data_size_effective_address(op: u16, addr: u32, ws: Seq<u16>) -> Operands {
    Operands::DataSizeEffectiveAddress(spec_reg9(op), spec_size_of_code(spec_size_field(op)), spec_decode_am(spec_ea_mode(op), spec_ea_reg(op), Some(spec_size_of_code(spec_size_field(op))), addr, ws))
}

/// Scc: number of extension words.
pub open spec fn spec_count_condition_effective_address(op: u16) -> nat {
    spec_ext_count(spec_ea_mode(op), spec_ea_reg(op), Some(Size::Byte))
}

/// Scc: the operands decoded from the opcode and its extension words `ws`, the first of which is at `addr`.
pub open spec fn spec_operands_condition_effective_address(op: u16, addr: u32, ws: Seq<u16>) -> Operands {
    Operands::ConditionEffectiveAddress(spec_condition_field(op), spec_decode_am(spec_ea_mode(op), spec_ea_reg(op), Some(Size::Byte), addr, ws))
}

/// DBcc: number of extension words.
pub open spec fn spec_count_condition_register_displacement(op: u16) -> nat {
    1
}

/// DBcc: the operands decoded from the opcode and its extension words `ws`, the first of which is at `addr`.
pub open spec fn spec_operands_condition_register_displacement(op: u16, addr: u32, ws: Seq<u16>) -> Operands {
    Operands::ConditionRegisterDisplacement(spec_condition_field(op), spec_ea_reg(op), spec_word_as_i16(ws[0]))
}

/// BRA, BSR: number of extension words.
pub open spec fn spec_count_displacement(op: u16) -> nat {
    if spec_word_displacement(op) { 1nat } else { 0nat }
}

/// BRA, BSR: the operands decoded from the opcode and its extension words `ws`, the first of which is at `addr`.
pub open spec fn spec_operands_displacement(op: u16, addr: u32, ws: Seq<u16>) -> Operands {
    Operands::Displacement(spec_displacement(op, ws))
}

/// Bcc: number of extension words.
pub open spec fn spec_count_condition_displacement(op: u16) -> nat {
    if spec_word_displacement(op) { 1nat } else { 0nat }
}

/// Bcc: the operands decoded from the opcode and its extension words `ws`, the first of which is at `addr`.
pub open spec fn spec_operands_condition_displacement(op: u16, addr: u32, ws: Seq<u16>) -> Operands {
    Operands::ConditionDisplacement(spec_condition_field(op), spec_displacement(op, ws))
}

/// MOVEQ: number of extension words.
pub open spec fn spec_count_register_data(op: u16) -> nat {
    0
}

/// MOVEQ: the operands decoded from the opcode and its extension words `ws`, the first of which is at `addr`.
pub open spec fn spec_operands_register_data(op: u16, addr: u32, ws: Seq<u16>) -> Operands {
    Operands::RegisterData(spec_reg9(op), spec_low_byte_i8(op))
}

/// ADD, AND, CMP, EOR, OR, SUB: number of extension words.
pub open spec fn spec_count_register_direction_size_effective_address(op: u16) -> nat {
    spec_ext_count(spec_ea_mode(op), spec_ea_reg(op), Some(spec_size_of_code(spec_size_field(op))))
}

/// ADD, AND, CMP, EOR, OR, SUB: the operands decoded from the opcode and its extension words `ws`, the first of which is at `addr`.
pub open spec fn spec_operands_register_direction_size_effective_address(op: u16, addr: u32, ws: Seq<u16>) -> Operands {
    Operands::RegisterDirectionSizeEffectiveAddress(spec_reg9(op), spec_dst_direction(op), spec_size_of_code(spec_size_field(op)), spec_decode_am(spec_ea_mode(op), spec_ea_reg(op), Some(spec_size_of_code(spec_size_field(op))), addr, ws))
}

/// ADDA, CMPA, SUBA: number of extension words.
pub open spec fn spec_count_register_size_effective_address(op: u16) -> nat {
    spec_ext_count(spec_ea_mode(op), spec_ea_reg(op), Some(spec_address_size(op)))
}

/// ADDA, CMPA, SUBA: the operands decoded from the opcode and its extension words `ws`, the first of which is at `addr`.
pub open spec fn spec_operands_register_size_effective_address(op: u16, addr: u32, ws: Seq<u16>) -> Operands {
    Operands::RegisterSizeEffectiveAddress(spec_reg9(op), spec_address_size(op), spec_decode_am(spec_ea_mode(op), spec_ea_reg(op), Some(spec_address_size(op)), addr, ws))
}

/// ABCD, ADDX, SBCD, SUBX: number of extension words.
pub open spec fn spec_count_register_size_mode_register(op: u16) -> nat {
    0
}

/// ABCD, ADDX, SBCD, SUBX: the operands decoded from the opcode and its extension words `ws`, the first of which is at `addr`.
pub open spec fn spec_operands_register_size_mode_register(op: u16, addr: u32, ws: Seq<u16>) -> Operands {
    Operands::RegisterSizeModeRegister(spec_reg9(op), spec_size_of_code(spec_size_field(op)), spec_x_mode(op), spec_ea_reg(op))
}

/// CMPM: number of extension words.
pub open spec fn spec_count_register_size_register(op: u16) -> nat {
    0
}

/// CMPM: the operands decoded from the opcode and its extension words `ws`, the first of which is at `addr`.
pub open spec fn spec_operands_register_size_register(op: u16, addr: u32, ws: Seq<u16>) -> Operands {
    Operands::RegisterSizeRegister(spec_reg9(op), spec_size_of_code(spec_size_field(op)), spec_ea_reg(op))
}

/// ASm, LSm, ROm, ROXm: number of extension words.
pub open spec fn spec_count_direction_effective_address(op: u16) -> nat {
    spec_ext_count(spec_ea_mode(op), spec_ea_reg(op), Some(Size::Byte))
}

/// ASm, LSm, ROm, ROXm: the operands decoded from the opcode and its extension words `ws`, the first of which is at `addr`.
pub open spec fn spec_operands_direction_effective_address(op: u16, addr: u32, ws: Seq<u16>) -> Operands {
    Operands::DirectionEffectiveAddress(spec_shift_direction(op), spec_decode_am(spec_ea_mode(op), spec_ea_reg(op), Some(Size::Byte), addr, ws))
}

/// ASr, LSr, ROr, ROXr: number of extension words.
pub open spec fn spec_count_rotation_direction_size_mode_register(op: u16) -> nat {
    0
}

/// ASr, LSr, ROr, ROXr: the operands decoded from the opcode and its extension words `ws`, the first of which is at `addr`.
pub open spec fn spec_operands_rotation_direction_size_mode_register(op: u16, addr: u32, ws: Seq<u16>) -> Operands {
    Operands::RotationDirectionSizeModeRegister(spec_reg9(op), spec_shift_direction(op), spec_size_of_code(spec_size_field(op)), ((op / 0x20) % 2) as u8, spec_ea_reg(op))
}

impl Operands {
    /// ILLEGAL, NOP, RESET, RTE, RTR, RTS, TRAPV
    pub fn new_no_operands<M: MemoryAccess + ?Sized>(opcode: u16, _memory: &mut MemoryIter<M>) -> (r: Result<Self, u8>)
        ensures
            final(_memory).start == old(_memory).start,
            r is Ok && old(_memory).spec_consistent() ==> final(_memory).spec_consistent(),
            r matches Err(e) ==> e == ACCESS_ERROR || e == ADDRESS_ERROR,
            final(_memory).next_addr % 2 == old(_memory).next_addr % 2,
            r matches Err(e) ==> (e == ADDRESS_ERROR) == (old(_memory).next_addr % 2 == 1),
            r matches Err(e) && e == ACCESS_ERROR && old(_memory).spec_consistent() ==> final(_memory).spec_refused_next(),
            r matches Ok(o) ==> spec_extends(old(_memory).read@, final(_memory).read@, spec_count_no_operands(opcode))
                && o == spec_operands_no_operands(opcode, old(_memory).next_addr, spec_new_words(old(_memory).read@, final(_memory).read@)),
    {
        proof {
            lemma_no_word(_memory.read@);
        }
        Ok(Operands::NoOperands)
    }

    /// ANDI/EORI/ORI CCR/SR, STOP
    pub fn new_immediate<M: MemoryAccess + ?Sized>(opcode: u16, memory: &mut MemoryIter<M>) -> (r: Result<Self, u8>)
        ensures
            final(memory).start == old(memory).start,
            r is Ok && old(memory).spec_consistent() ==> final(memory).spec_consistent(),
            r matches Err(e) ==> e == ACCESS_ERROR || e == ADDRESS_ERROR,
            final(memory).next_addr % 2 == old(memory).next_addr % 2,
            r matches Err(e) ==> (e == ADDRESS_ERROR) == (old(memory).next_addr % 2 == 1),
            r matches Err(e) && e == ACCESS_ERROR && old(memory).spec_consistent() ==> final(memory).spec_refused_next(),
            r matches Ok(o) ==> spec_extends(old(memory).read@, final(memory).read@, spec_count_immediate(opcode))
                && o == spec_operands_immediate(opcode, old(memory).next_addr, spec_new_words(old(memory).read@, final(memory).read@)),
    {
        let ghost r0 = memory.read@;
        let w = immediate(memory)?;
        proof { lemma_one_word(r0, w); }
        Ok(Operands::Immediate(w))
    }

    /// ADDI, ANDI, CMPI, EORI, ORI, SUBI
    pub fn new_size_effective_address_immediate<M: MemoryAccess + ?Sized>(opcode: u16, memory: &mut MemoryIter<M>) -> (r: Result<Self, u8>)
        requires
            spec_size_field(opcode) <= 2,
            spec_valid_ea_field(opcode),
        ensures
            final(memory).start == old(memory).start,
            r is Ok && old(memory).spec_consistent() ==> final(memory).spec_consistent(),
            r matches Err(e) ==> e == ACCESS_ERROR || e == ADDRESS_ERROR,
            final(memory).next_addr % 2 == old(memory).next_addr % 2,
            r matches Err(e) ==> (e == ADDRESS_ERROR) == (old(memory).next_addr % 2 == 1),
            r matches Err(e) && e == ACCESS_ERROR && old(memory).spec_consistent() ==> final(memory).spec_refused_next(),
            r matches Ok(o) ==> spec_extends(old(memory).read@, final(memory).read@, spec_count_size_effective_address_immediate(opcode))
                && o == spec_operands_size_effective_address_immediate(opcode, old(memory).next_addr, spec_new_words(old(memory).read@, final(memory).read@)),
    {
        let (size, am, imm) = size_effective_address_immediate(opcode, memory)?;
        Ok(Operands::SizeEffectiveAddressImmediate(size, am, imm))
    }

    /// BCHG, BCLR, BSET, BTST
    pub fn new_effective_address_count<M: MemoryAccess + ?Sized>(opcode: u16, memory: &mut MemoryIter<M>) -> (r: Result<Self, u8>)
        requires
            spec_valid_ea_field(opcode),
        ensures
            final(memory).start == old(memory).start,
            r is Ok && old(memory).spec_consistent() ==> final(memory).spec_consistent(),
            r matches Err(e) ==> e == ACCESS_ERROR || e == ADDRESS_ERROR,
            final(memory).next_addr % 2 == old(memory).next_addr % 2,
            r matches Err(e) ==> (e == ADDRESS_ERROR) == (old(memory).next_addr % 2 == 1),
            r matches Err(e) && e == ACCESS_ERROR && old(memory).spec_consistent() ==> final(memory).spec_refused_next(),
            r matches Ok(o) ==> spec_extends(old(memory).read@, final(memory).read@, spec_count_effective_address_count(opcode))
                && o == spec_operands_effective_address_count(opcode, old(memory).next_addr, spec_new_words(old(memory).read@, final(memory).read@)),
    {
        let (am, count) = effective_address_count(opcode, memory)?;
        Ok(Operands::EffectiveAddressCount(am, count))
    }

    /// JMP, JSR, MOVE (f) SR CCR, NBCD, PEA, TAS
    pub fn new_effective_address<M: MemoryAccess + ?Sized>(opcode: u16, memory: &mut MemoryIter<M>) -> (r: Result<Self, u8>)
        requires
            spec_valid_ea_field(opcode),
        ensures
            final(memory).start == old(memory).start,
            r is Ok && old(memory).spec_consistent() ==> final(memory).spec_consistent(),
            r matches Err(e) ==> e == ACCESS_ERROR || e == ADDRESS_ERROR,
            final(memory).next_addr % 2 == old(memory).next_addr % 2,
            r matches Err(e) ==> (e == ADDRESS_ERROR) == (old(memory).next_addr % 2 == 1),
            r matches Err(e) && e == ACCESS_ERROR && old(memory).spec_consistent() ==> final(memory).spec_refused_next(),
            r matches Ok(o) ==> spec_extends(old(memory).read@, final(memory).read@, spec_count_effective_address(opcode))
                && o == spec_operands_effective_address(opcode, old(memory).next_addr, spec_new_words(old(memory).read@, final(memory).read@)),
    {
        Ok(Operands::EffectiveAddress(effective_address(opcode, memory)?))
    }

    /// CLR, NEG, NEGX, NOT, TST
    pub fn new_size_effective_address<M: MemoryAccess + ?Sized>(opcode: u16, memory: &mut MemoryIter<M>) -> (r: Result<Self, u8>)
        requires
            spec_size_field(opcode) <= 2,
            spec_valid_ea_field(opcode),
        ensures
            final(memory).start == old(memory).start,
            r is Ok && old(memory).spec_consistent() ==> final(memory).spec_consistent(),
            r matches Err(e) ==> e == ACCESS_ERROR || e == ADDRESS_ERROR,
            final(memory).next_addr % 2 == old(memory).next_addr % 2,
            r matches Err(e) ==> (e == ADDRESS_ERROR) == (old(memory).next_addr % 2 == 1),
            r matches Err(e) && e == ACCESS_ERROR && old(memory).spec_consistent() ==> final(memory).spec_refused_next(),
            r matches Ok(o) ==> spec_extends(old(memory).read@, final(memory).read@, spec_count_size_effective_address(opcode))
                && o == spec_operands_size_effective_address(opcode, old(memory).next_addr, spec_new_words(old(memory).read@, final(memory).read@)),
    {
        let (size, am) = size_effective_address(opcode, memory)?;
        Ok(Operands::SizeEffectiveAddress(size, am))
    }

    /// CHK, DIVS, DIVU, LEA, MULS, MULU
    pub fn new_register_effective_address<M: MemoryAccess + ?Sized>(opcode: u16, memory: &mut MemoryIter<M>) -> (r: Result<Self, u8>)
        requires
            spec_valid_ea_field(opcode),
        ensures
            final(memory).start == old(memory).start,
            r is Ok && old(memory).spec_consistent() ==> final(memory).spec_consistent(),
            r matches Err(e) ==> e == ACCESS_ERROR || e == ADDRESS_ERROR,
            final(memory).next_addr % 2 == old(memory).next_addr % 2,
            r matches Err(e) ==> (e == ADDRESS_ERROR) == (old(memory).next_addr % 2 == 1),
            r matches Err(e) && e == ACCESS_ERROR && old(memory).spec_consistent() ==> final(memory).spec_refused_next(),
            r matches Ok(o) ==> spec_extends(old(memory).read@, final(memory).read@, spec_count_register_effective_address(opcode))
                && o == spec_operands_register_effective_address(opcode, old(memory).next_addr, spec_new_words(old(memory).read@, final(memory).read@)),
    {
        let (reg, am) = register_effective_address(opcode, memory)?;
        Ok(Operands::RegisterEffectiveAddress(reg, am))
    }

    /// MOVEP
    pub fn new_register_direction_size_register_displacement<M: MemoryAccess + ?Sized>(opcode: u16, memory: &mut MemoryIter<M>) -> (r: Result<Self, u8>)
        ensures
            final(memory).start == old(memory).start,
            r is Ok && old(memory).spec_consistent() ==> final(memory).spec_consistent(),
            r matches Err(e) ==> e == ACCESS_ERROR || e == ADDRESS_ERROR,
            final(memory).next_addr % 2 == old(memory).next_addr % 2,
            r matches Err(e) ==> (e == ADDRESS_ERROR) == (old(memory).next_addr % 2 == 1),
            r matches Err(e) && e == ACCESS_ERROR && old(memory).spec_consistent() ==> final(memory).spec_refused_next(),
            r matches Ok(o) ==> spec_extends(old(memory).read@, final(memory).read@, spec_count_register_direction_size_register_displacement(opcode))
                && o == spec_operands_register_direction_size_register_displacement(opcode, old(memory).next_addr, spec_new_words(old(memory).read@, final(memory).read@)),
    {
        let (dreg, dir, size, areg, disp) = register_direction_size_register_displacement(opcode, memory)?;
        Ok(Operands::RegisterDirectionSizeRegisterDisplacement(dreg, dir, size, areg, disp))
    }

    /// MOVEA
    pub fn new_size_register_effective_address<M: MemoryAccess + ?Sized>(opcode: u16, memory: &mut MemoryIter<M>) -> (r: Result<Self, u8>)
        requires
            (opcode / 0x1000) % 4 != 0,
            spec_valid_ea_field(opcode),
        ensures
            final(memory).start == old(memory).start,
            r is Ok && old(memory).spec_consistent() ==> final(memory).spec_consistent(),
            r matches Err(e) ==> e == ACCESS_ERROR || e == ADDRESS_ERROR,
            final(memory).next_addr % 2 == old(memory).next_addr % 2,
            r matches Err(e) ==> (e == ADDRESS_ERROR) == (old(memory).next_addr % 2 == 1),
            r matches Err(e) && e == ACCESS_ERROR && old(memory).spec_consistent() ==> final(memory).spec_refused_next(),
            r matches Ok(o) ==> spec_extends(old(memory).read@, final(memory).read@, spec_count_size_register_effective_address(opcode))
                && o == spec_operands_size_register_effective_address(opcode, old(memory).next_addr, spec_new_words(old(memory).read@, final(memory).read@)),
    {
        let (size, areg, am) = size_register_effective_address(opcode, memory)?;
        Ok(Operands::SizeRegisterEffectiveAddress(size, areg, am))
    }

    /// MOVE
    pub fn new_size_effective_address_effective_address<M: MemoryAccess + ?Sized>(opcode: u16, memory: &mut MemoryIter<M>) -> (r: Result<Self, u8>)
        requires
            (opcode / 0x1000) % 4 != 0,
            spec_valid_ea_field(opcode),
            spec_valid_ea(spec_move_dst_mode(opcode), spec_reg9(opcode)),
        ensures
            final(memory).start == old(memory).start,
            r is Ok && old(memory).spec_consistent() ==> final(memory).spec_consistent(),
            r matches Err(e) ==> e == ACCESS_ERROR || e == ADDRESS_ERROR,
            final(memory).next_addr % 2 == old(memory).next_addr % 2,
            r matches Err(e) ==> (e == ADDRESS_ERROR) == (old(memory).next_addr % 2 == 1),
            r matches Err(e) && e == ACCESS_ERROR && old(memory).spec_consistent() ==> final(memory).spec_refused_next(),
            r matches Ok(o) ==> spec_extends(old(memory).read@, final(memory).read@, spec_count_size_effective_address_effective_address(opcode))
                && o == spec_operands_size_effective_address_effective_address(opcode, old(memory).next_addr, spec_new_words(old(memory).read@, final(memory).read@)),
    {
        let (size, dst, src) = size_effective_address_effective_address(opcode, memory)?;
        Ok(Operands::SizeEffectiveAddressEffectiveAddress(size, dst, src))
    }

    /// EXG
    pub fn new_register_opmode_register<M: MemoryAccess + ?Sized>(opcode: u16, _memory: &mut MemoryIter<M>) -> (r: Result<Self, u8>)
        ensures
            final(_memory).start == old(_memory).start,
            r is Ok && old(_memory).spec_consistent() ==> final(_memory).spec_consistent(),
            r matches Err(e) ==> e == ACCESS_ERROR || e == ADDRESS_ERROR,
            final(_memory).next_addr % 2 == old(_memory).next_addr % 2,
            r matches Err(e) ==> (e == ADDRESS_ERROR) == (old(_memory).next_addr % 2 == 1),
            r matches Err(e) && e == ACCESS_ERROR && old(_memory).spec_consistent() ==> final(_memory).spec_refused_next(),
            r matches Ok(o) ==> spec_extends(old(_memory).read@, final(_memory).read@, spec_count_register_opmode_register(opcode))
                && o == spec_operands_register_opmode_register(opcode, old(_memory).next_addr, spec_new_words(old(_memory).read@, final(_memory).read@)),
    {
        proof {
            lemma_no_word(_memory.read@);
        }
        let (regl, dir, regr) = register_opmode_register(opcode);
        Ok(Operands::RegisterOpmodeRegister(regl, dir, regr))
    }

    /// EXT
    pub fn new_opmode_register<M: MemoryAccess + ?Sized>(opcode: u16, _memory: &mut MemoryIter<M>) -> (r: Result<Self, u8>)
        ensures
            final(_memory).start == old(_memory).start,
            r is Ok && old(_memory).spec_consistent() ==> final(_memory).spec_consistent(),
            r matches Err(e) ==> e == ACCESS_ERROR || e == ADDRESS_ERROR,
            final(_memory).next_addr % 2 == old(_memory).next_addr % 2,
            r matches Err(e) ==> (e == ADDRESS_ERROR) == (old(_memory).next_addr % 2 == 1),
            r matches Err(e) && e == ACCESS_ERROR && old(_memory).spec_consistent() ==> final(_memory).spec_refused_next(),
            r matches Ok(o) ==> spec_extends(old(_memory).read@, final(_memory).read@, spec_count_opmode_register(opcode))
                && o == spec_operands_opmode_register(opcode, old(_memory).next_addr, spec_new_words(old(_memory).read@, final(_memory).read@)),
    {
        proof {
            lemma_no_word(_memory.read@);
        }
        let (opmode, reg) = opmode_register(opcode);
        Ok(Operands::OpmodeRegister(opmode, reg))
    }

    /// TRAP
    pub fn new_vector<M: MemoryAccess + ?Sized>(opcode: u16, _memory: &mut MemoryIter<M>) -> (r: Result<Self, u8>)
        ensures
            final(_memory).start == old(_memory).start,
            r is Ok && old(_memory).spec_consistent() ==> final(_memory).spec_consistent(),
            r matches Err(e) ==> e == ACCESS_ERROR || e == ADDRESS_ERROR,
            final(_memory).next_addr % 2 == old(_memory).next_addr % 2,
            r matches Err(e) ==> (e == ADDRESS_ERROR) == (old(_memory).next_addr % 2 == 1),
            r matches Err(e) && e == ACCESS_ERROR && old(_memory).spec_consistent() ==> final(_memory).spec_refused_next(),
            r matches Ok(o) ==> spec_extends(old(_memory).read@, final(_memory).read@, spec_count_vector(opcode))
                && o == spec_operands_vector(opcode, old(_memory).next_addr, spec_new_words(old(_memory).read@, final(_memory).read@)),
    {
        proof {
            lemma_no_word(_memory.read@);
        }
        Ok(Operands::Vector(vector(opcode)))
    }

    /// LINK
    pub fn new_register_displacement<M: MemoryAccess + ?Sized>(opcode: u16, memory: &mut MemoryIter<M>) -> (r: Result<Self, u8>)
        ensures
            final(memory).start == old(memory).start,
            r is Ok && old(memory).spec_consistent() ==> final(memory).spec_consistent(),
            r matches Err(e) ==> e == ACCESS_ERROR || e == ADDRESS_ERROR,
            final(memory).next_addr % 2 == old(memory).next_addr % 2,
            r matches Err(e) ==> (e == ADDRESS_ERROR) == (old(memory).next_addr % 2 == 1),
            r matches Err(e) && e == ACCESS_ERROR && old(memory).spec_consistent() ==> final(memory).spec_refused_next(),
            r matches Ok(o) ==> spec_extends(old(memory).read@, final(memory).read@, spec_count_register_displacement(opcode))
                && o == spec_operands_register_displacement(opcode, old(memory).next_addr, spec_new_words(old(memory).read@, final(memory).read@)),
    {
        let (reg, disp) = register_displacement(opcode, memory)?;
        Ok(Operands::RegisterDisplacement(reg, disp))
    }

    /// SWAP, UNLK
    pub fn new_register<M: MemoryAccess + ?Sized>(opcode: u16, _memory: &mut MemoryIter<M>) -> (r: Result<Self, u8>)
        ensures
            final(_memory).start == old(_memory).start,
            r is Ok && old(_memory).spec_consistent() ==> final(_memory).spec_consistent(),
            r matches Err(e) ==> e == ACCESS_ERROR || e == ADDRESS_ERROR,
            final(_memory).next_addr % 2 == old(_memory).next_addr % 2,
            r matches Err(e) ==> (e == ADDRESS_ERROR) == (old(_memory).next_addr % 2 == 1),
            r matches Err(e) && e == ACCESS_ERROR && old(_memory).spec_consistent() ==> final(_memory).spec_refused_next(),
            r matches Ok(o) ==> spec_extends(old(_memory).read@, final(_memory).read@, spec_count_register(opcode))
                && o == spec_operands_register(opcode, old(_memory).next_addr, spec_new_words(old(_memory).read@, final(_memory).read@)),
    {
        proof {
            lemma_no_word(_memory.read@);
        }
        Ok(Operands::Register(register(opcode)))
    }

    /// MOVE USP
    pub fn new_direction_register<M: MemoryAccess + ?Sized>(opcode: u16, _memory: &mut MemoryIter<M>) -> (r: Result<Self, u8>)
        ensures
            final(_memory).start == old(_memory).start,
            r is Ok && old(_memory).spec_consistent() ==> final(_memory).spec_consistent(),
            r matches Err(e) ==> e == ACCESS_ERROR || e == ADDRESS_ERROR,
            final(_memory).next_addr % 2 == old(_memory).next_addr % 2,
            r matches Err(e) ==> (e == ADDRESS_ERROR) == (old(_memory).next_addr % 2 == 1),
            r matches Err(e) && e == ACCESS_ERROR && old(_memory).spec_consistent() ==> final(_memory).spec_refused_next(),
            r matches Ok(o) ==> spec_extends(old(_memory).read@, final(_memory).read@, spec_count_direction_register(opcode))
                && o == spec_operands_direction_register(opcode, old(_memory).next_addr, spec_new_words(old(_memory).read@, final(_memory).read@)),
    {
        proof {
            lemma_no_word(_memory.read@);
        }
        let (dir, reg) = direction_register(opcode);
        Ok(Operands::DirectionRegister(dir, reg))
    }

    /// MOVEM
    pub fn new_direction_size_effective_address_list<M: MemoryAccess + ?Sized>(opcode: u16, memory: &mut MemoryIter<M>) -> (r: Result<Self, u8>)
        requires
            spec_valid_ea_field(opcode),
        ensures
            final(memory).start == old(memory).start,
            r is Ok && old(memory).spec_consistent() ==> final(memory).spec_consistent(),
            r matches Err(e) ==> e == ACCESS_ERROR || e == ADDRESS_ERROR,
            final(memory).next_addr % 2 == old(memory).next_addr % 2,
            r matches Err(e) ==> (e == ADDRESS_ERROR) == (old(memory).next_addr % 2 == 1),
            r matches Err(e) && e == ACCESS_ERROR && old(memory).spec_consistent() ==> final(memory).spec_refused_next(),
            r matches Ok(o) ==> spec_extends(old(memory).read@, final(memory).read@, spec_count_direction_size_effective_address_list(opcode))
                && o == spec_operands_direction_size_effective_address_list(opcode, old(memory).next_addr, spec_new_words(old(memory).read@, final(memory).read@)),
    {
        let (dir, size, am, list) = direction_size_effective_address_list(opcode, memory)?;
        Ok(Operands::DirectionSizeEffectiveAddressList(dir, size, am, list))
    }

    /// ADDQ, SUBQ
    pub fn new_data_size_effective_address<M: MemoryAccess + ?Sized>(opcode: u16, memory: &mut MemoryIter<M>) -> (r: Result<Self, u8>)
        requires
            spec_size_field(opcode) <= 2,
            spec_valid_ea_field(opcode),
        ensures
            final(memory).start == old(memory).start,
            r is Ok && old(memory).spec_consistent() ==> final(memory).spec_consistent(),
            r matches Err(e) ==> e == ACCESS_ERROR || e == ADDRESS_ERROR,
            final(memory).next_addr % 2 == old(memory).next_addr % 2,
            r matches Err(e) ==> (e == ADDRESS_ERROR) == (old(memory).next_addr % 2 == 1),
            r matches Err(e) && e == ACCESS_ERROR && old(memory).spec_consistent() ==> final(memory).spec_refused_next(),
            r matches Ok(o) ==> spec_extends(old(memory).read@, final(memory).read@, spec_count_data_size_effective_address(opcode))
                && o == spec_operands_data_size_effective_address(opcode, old(memory).next_addr, spec_new_words(old(memory).read@, final(memory).read@)),
    {
        let (data, size, am) = data_size_effective_address(opcode, memory)?;
        Ok(Operands::DataSizeEffectiveAddress(data, size, am))
    }

    /// Scc
    pub fn new_condition_effective_address<M: MemoryAccess + ?Sized>(opcode: u16, memory: &mut MemoryIter<M>) -> (r: Result<Self, u8>)
        requires
            spec_valid_ea_field(opcode),
        ensures
            final(memory).start == old(memory).start,
            r is Ok && old(memory).spec_consistent() ==> final(memory).spec_consistent(),
            r matches Err(e) ==> e == ACCESS_ERROR || e == ADDRESS_ERROR,
            final(memory).next_addr % 2 == old(memory).next_addr % 2,
            r matches Err(e) ==> (e == ADDRESS_ERROR) == (old(memory).next_addr % 2 == 1),
            r matches Err(e) && e == ACCESS_ERROR && old(memory).spec_consistent() ==> final(memory).spec_refused_next(),
            r matches Ok(o) ==> spec_extends(old(memory).read@, final(memory).read@, spec_count_condition_effective_address(opcode))
                && o == spec_operands_condition_effective_address(opcode, old(memory).next_addr, spec_new_words(old(memory).read@, final(memory).read@)),
    {
        let (condition, am) = condition_effective_address(opcode, memory)?;
        Ok(Operands::ConditionEffectiveAddress(condition, am))
    }

    /// DBcc
    pub fn new_condition_register_displacement<M: MemoryAccess + ?Sized>(opcode: u16, memory: &mut MemoryIter<M>) -> (r: Result<Self, u8>)
        ensures
            final(memory).start == old(memory).start,
            r is Ok && old(memory).spec_consistent() ==> final(memory).spec_consistent(),
            r matches Err(e) ==> e == ACCESS_ERROR || e == ADDRESS_ERROR,
            final(memory).next_addr % 2 == old(memory).next_addr % 2,
            r matches Err(e) ==> (e == ADDRESS_ERROR) == (old(memory).next_addr % 2 == 1),
            r matches Err(e) && e == ACCESS_ERROR && old(memory).spec_consistent() ==> final(memory).spec_refused_next(),
            r matches Ok(o) ==> spec_extends(old(memory).read@, final(memory).read@, spec_count_condition_register_displacement(opcode))
                && o == spec_operands_condition_register_displacement(opcode, old(memory).next_addr, spec_new_words(old(memory).read@, final(memory).read@)),
    {
        let (condition, reg, disp) = condition_register_displacement(opcode, memory)?;
        Ok(Operands::ConditionRegisterDisplacement(condition, reg, disp))
    }

    /// BRA, BSR
    pub fn new_displacement<M: MemoryAccess + ?Sized>(opcode: u16, memory: &mut MemoryIter<M>) -> (r: Result<Self, u8>)
        ensures
            final(memory).start == old(memory).start,
            r is Ok && old(memory).spec_consistent() ==> final(memory).spec_consistent(),
            r matches Err(e) ==> e == ACCESS_ERROR || e == ADDRESS_ERROR,
            final(memory).next_addr % 2 == old(memory).next_addr % 2,
            r matches Err(e) ==> (e == ADDRESS_ERROR) == (old(memory).next_addr % 2 == 1),
            r matches Err(e) && e == ACCESS_ERROR && old(memory).spec_consistent() ==> final(memory).spec_refused_next(),
            r matches Ok(o) ==> spec_extends(old(memory).read@, final(memory).read@, spec_count_displacement(opcode))
                && o == spec_operands_displacement(opcode, old(memory).next_addr, spec_new_words(old(memory).read@, final(memory).read@)),
    {
        Ok(Operands::Displacement(displacement(opcode, memory)?))
    }

    /// Bcc
    pub fn new_condition_displacement<M: MemoryAccess + ?Sized>(opcode: u16, memory: &mut MemoryIter<M>) -> (r: Result<Self, u8>)
        ensures
            final(memory).start == old(memory).start,
            r is Ok && old(memory).spec_consistent() ==> final(memory).spec_consistent(),
            r matches Err(e) ==> e == ACCESS_ERROR || e == ADDRESS_ERROR,
            final(memory).next_addr % 2 == old(memory).next_addr % 2,
            r matches Err(e) ==> (e == ADDRESS_ERROR) == (old(memory).next_addr % 2 == 1),
            r matches Err(e) && e == ACCESS_ERROR && old(memory).spec_consistent() ==> final(memory).spec_refused_next(),
            r matches Ok(o) ==> spec_extends(old(memory).read@, final(memory).read@, spec_count_condition_displacement(opcode))
                && o == spec_operands_condition_displacement(opcode, old(memory).next_addr, spec_new_words(old(memory).read@, final(memory).read@)),
    {
        let (condition, disp) = condition_displacement(opcode, memory)?;
        Ok(Operands::ConditionDisplacement(condition, disp))
    }

    /// MOVEQ
    pub fn new_register_data<M: MemoryAccess + ?Sized>(opcode: u16, _memory: &mut MemoryIter<M>) -> (r: Result<Self, u8>)
        ensures
            final(_memory).start == old(_memory).start,
            r is Ok && old(_memory).spec_consistent() ==> final(_memory).spec_consistent(),
            r matches Err(e) ==> e == ACCESS_ERROR || e == ADDRESS_ERROR,
            final(_memory).next_addr % 2 == old(_memory).next_addr % 2,
            r matches Err(e) ==> (e == ADDRESS_ERROR) == (old(_memory).next_addr % 2 == 1),
            r matches Err(e) && e == ACCESS_ERROR && old(_memory).spec_consistent() ==> final(_memory).spec_refused_next(),
            r matches Ok(o) ==> spec_extends(old(_memory).read@, final(_memory).read@, spec_count_register_data(opcode))
                && o == spec_operands_register_data(opcode, old(_memory).next_addr, spec_new_words(old(_memory).read@, final(_memory).read@)),
    {
        proof {
            lemma_no_word(_memory.read@);
        }
        let (reg, data) = register_data(opcode);
        Ok(Operands::RegisterData(reg, data))
    }

    /// ADD, AND, CMP, EOR, OR, SUB
    pub fn new_register_direction_size_effective_address<M: MemoryAccess + ?Sized>(opcode: u16, memory: &mut MemoryIter<M>) -> (r: Result<Self, u8>)
        requires
            spec_size_field(opcode) <= 2,
            spec_valid_ea_field(opcode),
        ensures
            final(memory).start == old(memory).start,
            r is Ok && old(memory).spec_consistent() ==> final(memory).spec_consistent(),
            r matches Err(e) ==> e == ACCESS_ERROR || e == ADDRESS_ERROR,
            final(memory).next_addr % 2 == old(memory).next_addr % 2,
            r matches Err(e) ==> (e == ADDRESS_ERROR) == (old(memory).next_addr % 2 == 1),
            r matches Err(e) && e == ACCESS_ERROR && old(memory).spec_consistent() ==> final(memory).spec_refused_next(),
            r matches Ok(o) ==> spec_extends(old(memory).read@, final(memory).read@, spec_count_register_direction_size_effective_address(opcode))
                && o == spec_operands_register_direction_size_effective_address(opcode, old(memory).next_addr, spec_new_words(old(memory).read@, final(memory).read@)),
    {
        let (reg, dir, size, am) = register_direction_size_effective_address(opcode, memory)?;
        Ok(Operands::RegisterDirectionSizeEffectiveAddress(reg, dir, size, am))
    }

    /// ADDA, CMPA, SUBA
    pub fn new_register_size_effective_address<M: MemoryAccess + ?Sized>(opcode: u16, memory: &mut MemoryIter<M>) -> (r: Result<Self, u8>)
        requires
            spec_valid_ea_field(opcode),
        ensures
            final(memory).start == old(memory).start,
            r is Ok && old(memory).spec_consistent() ==> final(memory).spec_consistent(),
            r matches Err(e) ==> e == ACCESS_ERROR || e == ADDRESS_ERROR,
            final(memory).next_addr % 2 == old(memory).next_addr % 2,
            r matches Err(e) ==> (e == ADDRESS_ERROR) == (old(memory).next_addr % 2 == 1),
            r matches Err(e) && e == ACCESS_ERROR && old(memory).spec_consistent() ==> final(memory).spec_refused_next(),
            r matches Ok(o) ==> spec_extends(old(memory).read@, final(memory).read@, spec_count_register_size_effective_address(opcode))
                && o == spec_operands_register_size_effective_address(opcode, old(memory).next_addr, spec_new_words(old(memory).read@, final(memory).read@)),
    {
        let (reg, size, am) = register_size_effective_address(opcode, memory)?;
        Ok(Operands::RegisterSizeEffectiveAddress(reg, size, am))
    }

    /// ABCD, ADDX, SBCD, SUBX
    pub fn new_register_size_mode_register<M: MemoryAccess + ?Sized>(opcode: u16, _memory: &mut MemoryIter<M>) -> (r: Result<Self, u8>)
        requires
            spec_size_field(opcode) <= 2,
        ensures
            final(_memory).start == old(_memory).start,
            r is Ok && old(_memory).spec_consistent() ==> final(_memory).spec_consistent(),
            r matches Err(e) ==> e == ACCESS_ERROR || e == ADDRESS_ERROR,
            final(_memory).next_addr % 2 == old(_memory).next_addr % 2,
            r matches Err(e) ==> (e == ADDRESS_ERROR) == (old(_memory).next_addr % 2 == 1),
            r matches Err(e) && e == ACCESS_ERROR && old(_memory).spec_consistent() ==> final(_memory).spec_refused_next(),
            r matches Ok(o) ==> spec_extends(old(_memory).read@, final(_memory).read@, spec_count_register_size_mode_register(opcode))
                && o == spec_operands_register_size_mode_register(opcode, old(_memory).next_addr, spec_new_words(old(_memory).read@, final(_memory).read@)),
    {
        proof {
            lemma_no_word(_memory.read@);
        }
        let (regl, size, mode, regr) = register_size_mode_register(opcode);
        Ok(Operands::RegisterSizeModeRegister(regl, size, mode, regr))
    }

    /// CMPM
    pub fn new_register_size_register<M: MemoryAccess + ?Sized>(opcode: u16, _memory: &mut MemoryIter<M>) -> (r: Result<Self, u8>)
        requires
            spec_size_field(opcode) <= 2,
        ensures
            final(_memory).start == old(_memory).start,
            r is Ok && old(_memory).spec_consistent() ==> final(_memory).spec_consistent(),
            r matches Err(e) ==> e == ACCESS_ERROR || e == ADDRESS_ERROR,
            final(_memory).next_addr % 2 == old(_memory).next_addr % 2,
            r matches Err(e) ==> (e == ADDRESS_ERROR) == (old(_memory).next_addr % 2 == 1),
            r matches Err(e) && e == ACCESS_ERROR && old(_memory).spec_consistent() ==> final(_memory).spec_refused_next(),
            r matches Ok(o) ==> spec_extends(old(_memory).read@, final(_memory).read@, spec_count_register_size_register(opcode))
                && o == spec_operands_register_size_register(opcode, old(_memory).next_addr, spec_new_words(old(_memory).read@, final(_memory).read@)),
    {
        proof {
            lemma_no_word(_memory.read@);
        }
        let (regl, size, regr) = register_size_register(opcode);
        Ok(Operands::RegisterSizeRegister(regl, size, regr))
    }

    /// ASm, LSm, ROm, ROXm
    pub fn new_direction_effective_address<M: MemoryAccess + ?Sized>(opcode: u16, memory: &mut MemoryIter<M>) -> (r: Result<Self, u8>)
        requires
            spec_valid_ea_field(opcode),
        ensures
            final(memory).start == old(memory).start,
            r is Ok && old(memory).spec_consistent() ==> final(memory).spec_consistent(),
            r matches Err(e) ==> e == ACCESS_ERROR || e == ADDRESS_ERROR,
            final(memory).next_addr % 2 == old(memory).next_addr % 2,
            r matches Err(e) ==> (e == ADDRESS_ERROR) == (old(memory).next_addr % 2 == 1),
            r matches Err(e) && e == ACCESS_ERROR && old(memory).spec_consistent() ==> final(memory).spec_refused_next(),
            r matches Ok(o) ==> spec_extends(old(memory).read@, final(memory).read@, spec_count_direction_effective_address(opcode))
                && o == spec_operands_direction_effective_address(opcode, old(memory).next_addr, spec_new_words(old(memory).read@, final(memory).read@)),
    {
        let (dir, am) = direction_effective_address(opcode, memory)?;
        Ok(Operands::DirectionEffectiveAddress(dir, am))
    }

    /// ASr, LSr, ROr, ROXr
    pub fn new_rotation_direction_size_mode_register<M: MemoryAccess + ?Sized>(opcode: u16, _memory: &mut MemoryIter<M>) -> (r: Result<Self, u8>)
        requires
            spec_size_field(opcode) <= 2,
        ensures
            final(_memory).start == old(_memory).start,
            r is Ok && old(_memory).spec_consistent() ==> final(_memory).spec_consistent(),
            r matches Err(e) ==> e == ACCESS_ERROR || e == ADDRESS_ERROR,
            final(_memory).next_addr % 2 == old(_memory).next_addr % 2,
            r matches Err(e) ==> (e == ADDRESS_ERROR) == (old(_memory).next_addr % 2 == 1),
            r matches Err(e) && e == ACCESS_ERROR && old(_memory).spec_consistent() ==> final(_memory).spec_refused_next(),
            r matches Ok(o) ==> spec_extends(old(_memory).read@, final(_memory).read@, spec_count_rotation_direction_size_mode_register(opcode))
                && o == spec_operands_rotation_direction_size_mode_register(opcode, old(_memory).next_addr, spec_new_words(old(_memory).read@, final(_memory).read@)),
    {
        proof {
            lemma_no_word(_memory.read@);
        }
        let (count, dir, size, mode, reg) = rotation_direction_size_mode_register(opcode);
        Ok(Operands::RotationDirectionSizeModeRegister(count, dir, size, mode, reg))
    }
}


/// M68000 instruction.
#[derive(Clone, Copy, Debug, PartialEq, Eq, Structural)]
pub struct Instruction {
    /// The opcode itself.
    pub opcode: u16,
    /// The address of the instruction.
    pub pc: u32,
    /// The operands.
    pub operands: Operands,
}

/// Number of extension words that follow the given opcode.
#[verifier::opaque]
pub open spec fn spec_extension_count(op: u16) -> nat {
    match spec_isa(op) {
        Isa::Unknown | Isa::Illegal | Isa::Nop | Isa::Reset | Isa::Rte | Isa::Rtr | Isa::Rts | Isa::Trapv => spec_count_no_operands(op),
        Isa::Abcd | Isa::Addx | Isa::Sbcd | Isa::Subx => spec_count_register_size_mode_register(op),
        Isa::Add | Isa::And | Isa::Cmp | Isa::Eor | Isa::Or | Isa::Sub => spec_count_register_direction_size_effective_address(op),
        Isa::Adda | Isa::Cmpa | Isa::Suba => spec_count_register_size_effective_address(op),
        Isa::Addi | Isa::Andi | Isa::Cmpi | Isa::Eori | Isa::Ori | Isa::Subi => spec_count_size_effective_address_immediate(op),
        Isa::Addq | Isa::Subq => spec_count_data_size_effective_address(op),
        Isa::Andiccr | Isa::Andisr | Isa::Eoriccr | Isa::Eorisr | Isa::Oriccr | Isa::Orisr | Isa::Stop => spec_count_immediate(op),
        Isa::Asm | Isa::Lsm | Isa::Rom | Isa::Roxm => spec_count_direction_effective_address(op),
        Isa::Asr | Isa::Lsr | Isa::Ror | Isa::Roxr => spec_count_rotation_direction_size_mode_register(op),
        Isa::Bcc => spec_count_condition_displacement(op),
        Isa::Bchg | Isa::Bclr | Isa::Bset | Isa::Btst => spec_count_effective_address_count(op),
        Isa::Bra | Isa::Bsr => spec_count_displacement(op),
        Isa::Chk | Isa::Divs | Isa::Divu | Isa::Lea | Isa::Muls | Isa::Mulu => spec_count_register_effective_address(op),
        Isa::Clr | Isa::Neg | Isa::Negx | Isa::Not | Isa::Tst => spec_count_size_effective_address(op),
        Isa::Cmpm => spec_count_register_size_register(op),
        Isa::Dbcc => spec_count_condition_register_displacement(op),
        Isa::Exg => spec_count_register_opmode_register(op),
        Isa::Ext => spec_count_opmode_register(op),
        Isa::Jmp | Isa::Jsr | Isa::Moveccr | Isa::Movefsr | Isa::Movesr | Isa::Nbcd | Isa::Pea | Isa::Tas => spec_count_effective_address(op),
        Isa::Link => spec_count_register_displacement(op),
        Isa::Move => spec_count_size_effective_address_effective_address(op),
        Isa::Movea => spec_count_size_register_effective_address(op),
        Isa::Moveusp => spec_count_direction_register(op),
        Isa::Movem => spec_count_direction_size_effective_address_list(op),
        Isa::Movep => spec_count_register_direction_size_register_displacement(op),
        Isa::Moveq => spec_count_register_data(op),
        Isa::Scc => spec_count_condition_effective_address(op),
        Isa::Swap | Isa::Unlk => spec_count_register(op),
        Isa::Trap => spec_count_vector(op),
    }
}

/// The operands of the given opcode, decoded from its extension words `ws`, the first of which is at `addr`.
#[verifier::opaque]
pub open spec fn spec_decode(op: u16, addr: u32, ws: Seq<u16>) -> Operands {
    match spec_isa(op) {
        Isa::Unknown | Isa::Illegal | Isa::Nop | Isa::Reset | Isa::Rte | Isa::Rtr | Isa::Rts | Isa::Trapv => spec_operands_no_operands(op, addr, ws),
        Isa::Abcd | Isa::Addx | Isa::Sbcd | Isa::Subx => spec_operands_register_size_mode_register(op, addr, ws),
        Isa::Add | Isa::And | Isa::Cmp | Isa::Eor | Isa::Or | Isa::Sub => spec_operands_register_direction_size_effective_address(op, addr, ws),
        Isa::Adda | Isa::Cmpa | Isa::Suba => spec_operands_register_size_effective_address(op, addr, ws),
        Isa::Addi | Isa::Andi | Isa::Cmpi | Isa::Eori | Isa::Ori | Isa::Subi => spec_operands_size_effective_address_immediate(op, addr, ws),
        Isa::Addq | Isa::Subq => spec_operands_data_size_effective_address(op, addr, ws),
        Isa::Andiccr | Isa::Andisr | Isa::Eoriccr | Isa::Eorisr | Isa::Oriccr | Isa::Orisr | Isa::Stop => spec_operands_immediate(op, addr, ws),
        Isa::Asm | Isa::Lsm | Isa::Rom | Isa::Roxm => spec_operands_direction_effective_address(op, addr, ws),
        Isa::Asr | Isa::Lsr | Isa::Ror | Isa::Roxr => spec_operands_rotation_direction_size_mode_register(op, addr, ws),
        Isa::Bcc => spec_operands_condition_displacement(op, addr, ws),
        Isa::Bchg | Isa::Bclr | Isa::Bset | Isa::Btst => spec_operands_effective_address_count(op, addr, ws),
        Isa::Bra | Isa::Bsr => spec_operands_displacement(op, addr, ws),
        Isa::Chk | Isa::Divs | Isa::Divu | Isa::Lea | Isa::Muls | Isa::Mulu => spec_operands_register_effective_address(op, addr, ws),
        Isa::Clr | Isa::Neg | Isa::Negx | Isa::Not | Isa::Tst => spec_operands_size_effective_address(op, addr, ws),
        Isa::Cmpm => spec_operands_register_size_register(op, addr, ws),
        Isa::Dbcc => spec_operands_condition_register_displacement(op, addr, ws),
        Isa::Exg => spec_operands_register_opmode_register(op, addr, ws),
        Isa::Ext => spec_operands_opmode_register(op, addr, ws),
        Isa::Jmp | Isa::Jsr | Isa::Moveccr | Isa::Movefsr | Isa::Movesr | Isa::Nbcd | Isa::Pea | Isa::Tas => spec_operands_effective_address(op, addr, ws),
        Isa::Link => spec_operands_register_displacement(op, addr, ws),
        Isa::Move => spec_operands_size_effective_address_effective_address(op, addr, ws),
        Isa::Movea => spec_operands_size_register_effective_address(op, addr, ws),
        Isa::Moveusp => spec_operands_direction_register(op, addr, ws),
        Isa::Movem => spec_operands_direction_size_effective_address_list(op, addr, ws),
        Isa::Movep => spec_operands_register_direction_size_register_displacement(op, addr, ws),
        Isa::Moveq => spec_operands_register_data(op, addr, ws),
        Isa::Scc => spec_operands_condition_effective_address(op, addr, ws),
        Isa::Swap | Isa::Unlk => spec_operands_register(op, addr, ws),
        Isa::Trap => spec_operands_vector(op, addr, ws),
    }
}

impl Instruction {
    /// Decodes the given opcode, reading its extension words from `memory`.
    ///
    /// Returns the decoded instruction.
    /// Returns Err when there was an error when reading memory (Access or Address error).
    pub fn from_opcode<M: MemoryAccess + ?Sized>(opcode: u16, pc: u32, memory: &mut MemoryIter<M>) -> (r: Result<Self, u8>)
        ensures
            final(memory).start == old(memory).start,
            r is Ok && old(memory).spec_consistent() ==> final(memory).spec_consistent(),
            r matches Err(e) ==> e == ACCESS_ERROR || e == ADDRESS_ERROR,
            final(memory).next_addr % 2 == old(memory).next_addr % 2,
            r matches Err(e) ==> (e == ADDRESS_ERROR) == (old(memory).next_addr % 2 == 1),
            r matches Err(e) && e == ACCESS_ERROR && old(memory).spec_consistent() ==> final(memory).spec_refused_next(),
            r matches Ok(i) ==> spec_extends(old(memory).read@, final(memory).read@, spec_extension_count(opcode))
                && i == (Instruction {
                    opcode,
                    pc,
                    operands: spec_decode(opcode, old(memory).next_addr, spec_new_words(old(memory).read@, final(memory).read@)),
                }),
    {
        let isa = Isa::from(opcode);
        proof {
            lemma_decoded_fields(opcode);
            reveal(spec_extension_count);
            reveal(spec_decode);
        }
        let operands = match isa {
            Isa::Unknown | Isa::Illegal | Isa::Nop | Isa::Reset | Isa::Rte | Isa::Rtr | Isa::Rts | Isa::Trapv => Operands::new_no_operands(opcode, memory)?,
            Isa::Abcd | Isa::Addx | Isa::Sbcd | Isa::Subx => Operands::new_register_size_mode_register(opcode, memory)?,
            Isa::Add | Isa::And | Isa::Cmp | Isa::Eor | Isa::Or | Isa::Sub => Operands::new_register_direction_size_effective_address(opcode, memory)?,
            Isa::Adda | Isa::Cmpa | Isa::Suba => Operands::new_register_size_effective_address(opcode, memory)?,
            Isa::Addi | Isa::Andi | Isa::Cmpi | Isa::Eori | Isa::Ori | Isa::Subi => Operands::new_size_effective_address_immediate(opcode, memory)?,
            Isa::Addq | Isa::Subq => Operands::new_data_size_effective_address(opcode, memory)?,
            Isa::Andiccr | Isa::Andisr | Isa::Eoriccr | Isa::Eorisr | Isa::Oriccr | Isa::Orisr | Isa::Stop => Operands::new_immediate(opcode, memory)?,
            Isa::Asm | Isa::Lsm | Isa::Rom | Isa::Roxm => Operands::new_direction_effective_address(opcode, memory)?,
            Isa::Asr | Isa::Lsr | Isa::Ror | Isa::Roxr => Operands::new_rotation_direction_size_mode_register(opcode, memory)?,
            Isa::Bcc => Operands::new_condition_displacement(opcode, memory)?,
            Isa::Bchg | Isa::Bclr | Isa::Bset | Isa::Btst => Operands::new_effective_address_count(opcode, memory)?,
            Isa::Bra | Isa::Bsr => Operands::new_displacement(opcode, memory)?,
            Isa::Chk | Isa::Divs | Isa::Divu | Isa::Lea | Isa::Muls | Isa::Mulu => Operands::new_register_effective_address(opcode, memory)?,
            Isa::Clr | Isa::Neg | Isa::Negx | Isa::Not | Isa::Tst => Operands::new_size_effective_address(opcode, memory)?,
            Isa::Cmpm => Operands::new_register_size_register(opcode, memory)?,
            Isa::Dbcc => Operands::new_condition_register_displacement(opcode, memory)?,
            Isa::Exg => Operands::new_register_opmode_register(opcode, memory)?,
            Isa::Ext => Operands::new_opmode_register(opcode, memory)?,
            Isa::Jmp | Isa::Jsr | Isa::Moveccr | Isa::Movefsr | Isa::Movesr | Isa::Nbcd | Isa::Pea | Isa::Tas => Operands::new_effective_address(opcode, memory)?,
            Isa::Link => Operands::new_register_displacement(opcode, memory)?,
            Isa::Move => Operands::new_size_effective_address_effective_address(opcode, memory)?,
            Isa::Movea => Operands::new_size_register_effective_address(opcode, memory)?,
            Isa::Moveusp => Operands::new_direction_register(opcode, memory)?,
            Isa::Movem => Operands::new_direction_size_effective_address_list(opcode, memory)?,
            Isa::Movep => Operands::new_register_direction_size_register_displacement(opcode, memory)?,
            Isa::Moveq => Operands::new_register_data(opcode, memory)?,
            Isa::Scc => Operands::new_condition_effective_address(opcode, memory)?,
            Isa::Swap | Isa::Unlk => Operands::new_register(opcode, memory)?,
            Isa::Trap => Operands::new_vector(opcode, memory)?,
        };
        Ok(Instruction { opcode, pc, operands })
    }

    /// Decodes the instruction at the given memory location.
    ///
    /// Returns the decoded instruction.
    /// Returns Err when there was an error when reading memory (Access or Address error).
    pub fn from_memory<M: MemoryAccess + ?Sized>(memory: &mut MemoryIter<M>) -> (r: Result<Self, u8>)
        ensures
            final(memory).start == old(memory).start,
            r is Ok && old(memory).spec_consistent() ==> final(memory).spec_consistent(),
            r matches Err(e) ==> e == ACCESS_ERROR || e == ADDRESS_ERROR,
            final(memory).next_addr % 2 == old(memory).next_addr % 2,
            r matches Err(e) ==> (e == ADDRESS_ERROR) == (old(memory).next_addr % 2 == 1),
            r matches Err(e) && e == ACCESS_ERROR && old(memory).spec_consistent() ==> final(memory).spec_refused_next(),
            old(memory).next_addr % 2 == 1 ==> r == Err::<Self, u8>(ADDRESS_ERROR)
                && final(memory).next_addr == old(memory).next_addr && final(memory).read@ == old(memory).read@,
            r matches Ok(i) ==> ({
                let before = old(memory).read@;
                let after = final(memory).read@;
                &&& spec_extends(before, after, 1 + spec_extension_count(i.opcode))
                &&& i.opcode == after[before.len() as int]
                &&& i.pc == old(memory).next_addr
                &&& i.operands == spec_decode(i.opcode, spec_wrapping_add(old(memory).next_addr, 2),
                    after.subrange(before.len() as int + 1, after.len() as int))
            }),
    {
        let pc = memory.next_addr;
        let ghost r0 = memory.read@;
        let opcode = memory.next_word()?;
        let ghost r1 = memory.read@;
        let i = Self::from_opcode(opcode, pc, memory)?;
        proof {
            let r2 = memory.read@;
            assert(r2.subrange(0, r1.len() as int) == r1);
            assert(r2[r0.len() as int] == r2.subrange(0, r1.len() as int)[r0.len() as int]);
            assert(r2.subrange(0, r0.len() as int) =~= r0);
            assert(r2.subrange(r0.len() as int + 1, r2.len() as int) =~= spec_new_words(r1, r2));
        }
        Ok(i)
    }
}


/// What the decoder guarantees of the fields of an opcode, by the instruction it decodes to.
proof fn lemma_decoded_fields(op: u16)
    ensures
        spec_isa(op) is Addi || spec_isa(op) is Andi || spec_isa(op) is Cmpi || spec_isa(op) is Eori || spec_isa(op) is Ori || spec_isa(op) is Subi || spec_isa(op) is Clr || spec_isa(op) is Neg || spec_isa(op) is Negx || spec_isa(op) is Not || spec_isa(op) is Tst || spec_isa(op) is Addq || spec_isa(op) is Subq || spec_isa(op) is Add || spec_isa(op) is And || spec_isa(op) is Cmp || spec_isa(op) is Eor || spec_isa(op) is Or || spec_isa(op) is Sub || spec_isa(op) is Abcd || spec_isa(op) is Addx || spec_isa(op) is Sbcd || spec_isa(op) is Subx || spec_isa(op) is Cmpm || spec_isa(op) is Asr || spec_isa(op) is Lsr || spec_isa(op) is Ror || spec_isa(op) is Roxr ==> spec_size_field(op) <= 2,
        spec_isa(op) is Addi || spec_isa(op) is Andi || spec_isa(op) is Cmpi || spec_isa(op) is Eori || spec_isa(op) is Ori || spec_isa(op) is Subi || spec_isa(op) is Bchg || spec_isa(op) is Bclr || spec_isa(op) is Bset || spec_isa(op) is Btst || spec_isa(op) is Jmp || spec_isa(op) is Jsr || spec_isa(op) is Moveccr || spec_isa(op) is Movefsr || spec_isa(op) is Movesr || spec_isa(op) is Nbcd || spec_isa(op) is Pea || spec_isa(op) is Tas || spec_isa(op) is Clr || spec_isa(op) is Neg || spec_isa(op) is Negx || spec_isa(op) is Not || spec_isa(op) is Tst || spec_isa(op) is Chk || spec_isa(op) is Divs || spec_isa(op) is Divu || spec_isa(op) is Lea || spec_isa(op) is Muls || spec_isa(op) is Mulu || spec_isa(op) is Movea || spec_isa(op) is Move || spec_isa(op) is Movem || spec_isa(op) is Addq || spec_isa(op) is Subq || spec_isa(op) is Scc || spec_isa(op) is Add || spec_isa(op) is And || spec_isa(op) is Cmp || spec_isa(op) is Eor || spec_isa(op) is Or || spec_isa(op) is Sub || spec_isa(op) is Adda || spec_isa(op) is Cmpa || spec_isa(op) is Suba || spec_isa(op) is Asm || spec_isa(op) is Lsm || spec_isa(op) is Rom || spec_isa(op) is Roxm ==> spec_valid_ea_field(op),
        spec_isa(op) is Move || spec_isa(op) is Movea ==> (op / 0x1000) % 4 != 0,
        spec_isa(op) is Move ==> spec_valid_ea(spec_move_dst_mode(op), spec_reg9(op)),
{
}

} // verus!
