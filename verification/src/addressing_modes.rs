//! Addressing modes and their encoding.

use vstd::prelude::*;
use crate::instruction::Size;
use crate::exception::{ACCESS_ERROR, ADDRESS_ERROR};
use crate::memory_access::{MemoryAccess, MemoryIter, spec_wrapping_add};

verus! {

/// Brief extension word used by the indexed addressing modes.
///
/// Bit 15 selects an address (1) or data (0) index register, bits 12 to 14 are the
/// register number, bit 11 selects a long (1) or word (0) index, and the low byte
/// is the signed 8-bits displacement.
#[derive(Clone, Copy, Debug, PartialEq, Eq, Structural)]
pub struct BriefExtensionWord(pub u16);

impl BriefExtensionWord {
    /// Creates a brief extension word from its fields.
    pub fn new(address: bool, reg: u8, long: bool, disp: i8) -> (r: Self)
        requires
            reg <= 7,
        ensures
            r.0 == (if address { 0x8000u16 } else { 0 }) + (reg as u16) * 0x1000 + (if long { 0x0800u16 } else { 0 }) + (disp as u8) as u16,
    {
        let a: u16 = if address { 0x8000 } else { 0 };
        let l: u16 = if long { 0x0800 } else { 0 };
        BriefExtensionWord(a + (reg as u16) * 0x1000 + l + (disp as u8) as u16)
    }

    /// Whether the index register is an address register.
    pub open spec fn spec_address(self) -> bool {
        self.0 >= 0x8000
    }

    /// The number of the index register.
    pub open spec fn spec_reg(self) -> u8 {
        ((self.0 / 0x1000) % 8) as u8
    }

    /// Whether the index register is used as a long value.
    pub open spec fn spec_long(self) -> bool {
        (self.0 / 0x0800) % 2 == 1
    }

    /// The signed 8-bits displacement.
    pub open spec fn spec_disp(self) -> int {
        let b = self.0 % 0x100;
        if b >= 0x80 { b - 0x100 } else { b as int }
    }

    /// Returns whether the index register is an address register.
    pub fn address(self) -> (r: bool)
        ensures
            r == self.spec_address(),
    {
        self.0 >= 0x8000
    }

    /// Returns the number of the index register.
    pub fn reg(self) -> (r: u8)
        ensures
            r == self.spec_reg(),
            r <= 7,
    {
        ((self.0 / 0x1000) % 8) as u8
    }

    /// Returns whether the index register is used as a long value.
    pub fn long(self) -> (r: bool)
        ensures
            r == self.spec_long(),
    {
        (self.0 / 0x0800) % 2 == 1
    }

    /// Returns the signed 8-bits displacement.
    pub fn disp(self) -> (r: i8)
        ensures
            r as int == self.spec_disp(),
    {
        let b: u16 = self.0 % 0x100;
        if b >= 0x80 {
            (b as i16 - 0x100) as i8
        } else {
            b as i8
        }
    }
}

/// Addressing modes.
#[derive(Clone, Copy, Debug, PartialEq, Eq, Structural)]
pub enum AddressingMode {
    /// Data Register Direct.
    Drd(u8),
    /// Address Register Direct.
    Ard(u8),
    /// Address Register Indirect.
    Ari(u8),
    /// Address Register Indirect With POstincrement.
    Ariwpo(u8),
    /// Address Register Indirect With PRedecrement.
    Ariwpr(u8),
    /// Address Register Indirect With Displacement (address register, displacement).
    Ariwd(u8, i16),
    /// Address Register Indirect With Index 8 (address register, brief extension word).
    Ariwi8(u8, BriefExtensionWord),
    /// Absolute Short.
    AbsShort(u16),
    /// Absolute Long.
    AbsLong(u32),
    /// Program Counter Indirect With Displacement (address of the extension word, displacement).
    Pciwd(u32, i16),
    /// Program Counter Indirect With Index 8 (address of the extension word, brief extension word).
    Pciwi8(u32, BriefExtensionWord),
    /// Immediate Data.
    Immediate(u32),
}

impl AddressingMode {
    /// The mode field of the addressing mode (0 to 7).
    pub open spec fn spec_mode(self) -> u8 {
        match self {
            AddressingMode::Drd(_) => 0,
            AddressingMode::Ard(_) => 1,
            AddressingMode::Ari(_) => 2,
            AddressingMode::Ariwpo(_) => 3,
            AddressingMode::Ariwpr(_) => 4,
            AddressingMode::Ariwd(_, _) => 5,
            AddressingMode::Ariwi8(_, _) => 6,
            _ => 7,
        }
    }

    /// The register field of the addressing mode: the register for modes 0 to 6,
    /// the sub-mode for mode 7.
    pub open spec fn spec_reg_field(self) -> u8 {
        match self {
            AddressingMode::Drd(r) => r,
            AddressingMode::Ard(r) => r,
            AddressingMode::Ari(r) => r,
            AddressingMode::Ariwpo(r) => r,
            AddressingMode::Ariwpr(r) => r,
            AddressingMode::Ariwd(r, _) => r,
            AddressingMode::Ariwi8(r, _) => r,
            AddressingMode::AbsShort(_) => 0,
            AddressingMode::AbsLong(_) => 1,
            AddressingMode::Pciwd(_, _) => 2,
            AddressingMode::Pciwi8(_, _) => 3,
            AddressingMode::Immediate(_) => 4,
        }
    }

    /// The addressing mode names a register from 0 to 7.
    pub open spec fn spec_wf(self) -> bool {
        self.spec_reg_field() <= 7
    }

    /// The 6-bits effective address field (mode then register).
    pub open spec fn spec_field(self) -> u16 {
        ((self.spec_mode() as u16) * 8 + self.spec_reg_field() as u16) as u16
    }

    /// The effective address field of a MOVE destination (register then mode, bits 6 to 11).
    pub open spec fn spec_move_dst_field(self) -> u16 {
        ((self.spec_reg_field() as u16) * 0x200 + (self.spec_mode() as u16) * 0x40) as u16
    }

    /// The extension words of the addressing mode. `long` is for a long immediate.
    pub open spec fn spec_ext(self, long: bool) -> Seq<u16> {
        match self {
            AddressingMode::Ariwd(_, d) => seq![d as u16],
            AddressingMode::Ariwi8(_, bew) => seq![bew.0],
            AddressingMode::AbsShort(a) => seq![a],
            AddressingMode::AbsLong(a) => seq![(a / 0x1_0000) as u16, (a % 0x1_0000) as u16],
            AddressingMode::Pciwd(_, d) => seq![d as u16],
            AddressingMode::Pciwi8(_, bew) => seq![bew.0],
            AddressingMode::Immediate(imm) => if long {
                seq![(imm / 0x1_0000) as u16, (imm % 0x1_0000) as u16]
            } else {
                seq![(imm % 0x1_0000) as u16]
            },
            _ => seq![],
        }
    }

    /// The addressing mode is well formed, its mode is one of `modes`, and if it is 7,
    /// its sub-mode is one of `regs`.
    pub open spec fn spec_verify(self, modes: Seq<u8>, regs: Seq<u8>) -> bool {
        &&& self.spec_wf()
        &&& modes.contains(self.spec_mode())
        &&& self.spec_mode() == 7 ==> regs.contains(self.spec_reg_field())
    }

    /// The register of the register based addressing modes (0 to 6).
    pub open spec fn spec_register(self) -> Option<u8> {
        if self.spec_mode() <= 6 { Some(self.spec_reg_field()) } else { None }
    }

    /// Returns whether the addressing mode names a register from 0 to 7.
    pub fn is_wf(&self) -> (r: bool)
        ensures
            r == self.spec_wf(),
    {
        self.reg_field() <= 7
    }

    /// Returns whether the addressing mode designates a memory location (modes 2 to 7 but immediate data).
    pub fn is_memory(&self) -> (r: bool)
        ensures
            r == (self.spec_mode() >= 2 && !(self is Immediate)),
    {
        self.mode() >= 2 && !self.is_immediate()
    }

    /// Returns true if it is Address Register Indirect With Predecrement.
    pub fn is_ariwpr(&self) -> (r: bool)
        ensures
            r == (self is Ariwpr),
    {
        match self {
            AddressingMode::Ariwpr(_) => true,
            _ => false,
        }
    }

    /// Returns the mode field (0 to 7).
    pub fn mode(&self) -> (r: u8)
        ensures
            r == self.spec_mode(),
    {
        match self {
            AddressingMode::Drd(_) => 0,
            AddressingMode::Ard(_) => 1,
            AddressingMode::Ari(_) => 2,
            AddressingMode::Ariwpo(_) => 3,
            AddressingMode::Ariwpr(_) => 4,
            AddressingMode::Ariwd(_, _) => 5,
            AddressingMode::Ariwi8(_, _) => 6,
            _ => 7,
        }
    }

    /// Returns the register field (the register for modes 0 to 6, the sub-mode for mode 7).
    pub fn reg_field(&self) -> (r: u8)
        ensures
            r == self.spec_reg_field(),
    {
        match self {
            AddressingMode::Drd(r) => *r,
            AddressingMode::Ard(r) => *r,
            AddressingMode::Ari(r) => *r,
            AddressingMode::Ariwpo(r) => *r,
            AddressingMode::Ariwpr(r) => *r,
            AddressingMode::Ariwd(r, _) => *r,
            AddressingMode::Ariwi8(r, _) => *r,
            AddressingMode::AbsShort(_) => 0,
            AddressingMode::AbsLong(_) => 1,
            AddressingMode::Pciwd(_, _) => 2,
            AddressingMode::Pciwi8(_, _) => 3,
            AddressingMode::Immediate(_) => 4,
        }
    }

    /// Returns the register of the register based addressing modes.
    pub fn register(&self) -> (r: Option<u8>)
        ensures
            r == self.spec_register(),
    {
        if self.mode() <= 6 {
            Some(self.reg_field())
        } else {
            None
        }
    }

    /// Returns true if it is Data Register Direct.
    pub fn is_drd(&self) -> (r: bool)
        ensures
            r == (self.spec_mode() == 0),
    {
        self.mode() == 0
    }

    /// Returns true if it is Address Register Direct.
    pub fn is_ard(&self) -> (r: bool)
        ensures
            r == (self.spec_mode() == 1),
    {
        self.mode() == 1
    }

    /// Returns true if it is Data or Address Register Direct.
    pub fn is_dard(&self) -> (r: bool)
        ensures
            r == (self.spec_mode() <= 1),
    {
        self.mode() <= 1
    }

    /// Returns true if it is Immediate.
    pub fn is_immediate(&self) -> (r: bool)
        ensures
            r == (self is Immediate),
    {
        match self {
            AddressingMode::Immediate(_) => true,
            _ => false,
        }
    }

    /// Assembles the addressing mode: returns the 6-bits effective address field and the extension words.
    /// `long` is for a long immediate data.
    pub fn assemble(&self, long: bool) -> (r: (u16, Vec<u16>))
        requires
            self.spec_wf(),
        ensures
            r.0 == self.spec_field(),
            r.0 < 64,
            r.1@ == self.spec_ext(long),
    {
        let field: u16 = (self.mode() as u16) * 8 + self.reg_field() as u16;
        let ext: Vec<u16> = match *self {
            AddressingMode::Ariwd(_, d) => vec![d as u16],
            AddressingMode::Ariwi8(_, bew) => vec![bew.0],
            AddressingMode::AbsShort(a) => vec![a],
            AddressingMode::AbsLong(a) => vec![(a / 0x1_0000) as u16, (a % 0x1_0000) as u16],
            AddressingMode::Pciwd(_, d) => vec![d as u16],
            AddressingMode::Pciwi8(_, bew) => vec![bew.0],
            AddressingMode::Immediate(imm) => if long {
                vec![(imm / 0x1_0000) as u16, (imm % 0x1_0000) as u16]
            } else {
                vec![(imm % 0x1_0000) as u16]
            },
            _ => Vec::new(),
        };
        proof {
            assert(ext@ =~= self.spec_ext(long));
        }
        (field, ext)
    }

    /// Assembles the addressing mode as the destination of a MOVE instruction:
    /// returns the effective address field at bits 6 to 11 and the extension words.
    pub fn assemble_move_dst(&self) -> (r: (u16, Vec<u16>))
        requires
            self.spec_wf(),
        ensures
            r.0 == self.spec_move_dst_field(),
            r.1@ == self.spec_ext(false),
    {
        let (_, ext) = self.assemble(false);
        ((self.reg_field() as u16) * 0x200 + (self.mode() as u16) * 0x40, ext)
    }

    /// Returns true if the addressing mode is well formed, its mode is one of `modes`,
    /// and if the mode is 7, its sub-mode is one of `regs`.
    pub fn verify(&self, modes: &[u8], regs: &[u8]) -> (r: bool)
        ensures
            r == self.spec_verify(modes@, regs@),
    {
        let reg = self.reg_field();
        let mode = self.mode();
        if reg > 7 {
            return false;
        }
        if !slice_contains(modes, mode) {
            return false;
        }
        if mode == 7 {
            slice_contains(regs, reg)
        } else {
            true
        }
    }
}

/// Returns whether the slice contains the value.
fn slice_contains(s: &[u8], v: u8) -> (r: bool)
    ensures
        r == s@.contains(v),
{
    let mut i: usize = 0;
    while i < s.len()
        invariant
            i <= s@.len(),
            forall|j: int| 0 <= j < i ==> s@[j] != v,
        decreases s@.len() - i,
    {
        if s[i] == v {
            return true;
        }
        i = i + 1;
    }
    false
}

/// `new` is `old` followed by `n` more words.
pub open spec fn spec_extends(old: Seq<u16>, new: Seq<u16>, n: nat) -> bool {
    &&& new.len() == old.len() + n
    &&& new.subrange(0, old.len() as int) == old
}

/// The words of `new` that follow `old`.
pub open spec fn spec_new_words(old: Seq<u16>, new: Seq<u16>) -> Seq<u16> {
    new.subrange(old.len() as int, new.len() as int)
}

/// The signed value of a 16-bits word.
pub open spec fn spec_word_as_i16(w: u16) -> i16 {
    if w >= 0x8000 { (w as int - 0x1_0000) as i16 } else { w as i16 }
}

/// Returns the signed value of a 16-bits word.
pub fn word_as_i16(w: u16) -> (r: i16)
    ensures
        r == spec_word_as_i16(w),
{
    if w >= 0x8000 {
        (w as i32 - 0x1_0000) as i16
    } else {
        w as i16
    }
}

/// A long made of a high and a low word.
pub open spec fn spec_long_of(high: u16, low: u16) -> u32 {
    (high as int * 0x1_0000 + low as int) as u32
}

/// The number of extension words of the addressing mode given by its mode and register fields.
pub open spec fn spec_ext_count(mode: u16, reg: u8, size: Option<Size>) -> nat {
    if mode <= 4 { 0 }
    else if mode <= 6 { 1 }
    else if reg == 1 { 2 }
    else if reg == 4 && size == Some(Size::Long) { 2 }
    else { 1 }
}

/// The addressing mode given by its mode and register fields and its extension words `ws`,
/// the first of which is at address `addr`.
pub open spec fn spec_decode_am(mode: u16, reg: u8, size: Option<Size>, addr: u32, ws: Seq<u16>) -> AddressingMode {
    if mode == 0 { AddressingMode::Drd(reg) }
    else if mode == 1 { AddressingMode::Ard(reg) }
    else if mode == 2 { AddressingMode::Ari(reg) }
    else if mode == 3 { AddressingMode::Ariwpo(reg) }
    else if mode == 4 { AddressingMode::Ariwpr(reg) }
    else if mode == 5 { AddressingMode::Ariwd(reg, spec_word_as_i16(ws[0])) }
    else if mode == 6 { AddressingMode::Ariwi8(reg, BriefExtensionWord(ws[0])) }
    else if reg == 0 { AddressingMode::AbsShort(ws[0]) }
    else if reg == 1 { AddressingMode::AbsLong(spec_long_of(ws[0], ws[1])) }
    else if reg == 2 { AddressingMode::Pciwd(addr, spec_word_as_i16(ws[0])) }
    else if reg == 3 { AddressingMode::Pciwi8(addr, BriefExtensionWord(ws[0])) }
    else if size == Some(Size::Long) { AddressingMode::Immediate(spec_long_of(ws[0], ws[1])) }
    else { AddressingMode::Immediate(ws[0] as u32) }
}

/// A valid pair of mode and register fields.
pub open spec fn spec_valid_ea(mode: u16, reg: u8) -> bool {
    mode < 8 && reg < 8 && (mode != 7 || reg <= 4)
}

impl AddressingMode {
    /// Decodes the addressing mode given by its mode and register fields, reading its extension
    /// words from `memory`. `size` is the size of the operation, used by the immediate mode.
    ///
    /// Returns the exception vector if an extension word could not be read.
    pub fn from_memory<M: MemoryAccess + ?Sized>(mode: u16, reg: u8, size: Option<Size>, memory: &mut MemoryIter<M>) -> (r: Result<AddressingMode, u8>)
        requires
            spec_valid_ea(mode, reg),
        ensures
            final(memory).start == old(memory).start,
            r is Ok && old(memory).spec_consistent() ==> final(memory).spec_consistent(),
            r matches Err(e) ==> e == ACCESS_ERROR || e == ADDRESS_ERROR,
            final(memory).next_addr % 2 == old(memory).next_addr % 2,
            r matches Err(e) ==> (e == ADDRESS_ERROR) == (old(memory).next_addr % 2 == 1),
            r matches Err(e) && e == ACCESS_ERROR && old(memory).spec_consistent() ==> final(memory).spec_refused_next(),
            r matches Ok(am) ==> spec_extends(old(memory).read@, final(memory).read@, spec_ext_count(mode, reg, size))
                && final(memory).next_addr == spec_wrapping_add(old(memory).next_addr, (2 * spec_ext_count(mode, reg, size)) as u32)
                && am == spec_decode_am(mode, reg, size, old(memory).next_addr, spec_new_words(old(memory).read@, final(memory).read@)),
    {
        let ghost old_read = memory.read@;
        let addr = memory.next_addr;
        let am = if mode == 0 {
            AddressingMode::Drd(reg)
        } else if mode == 1 {
            AddressingMode::Ard(reg)
        } else if mode == 2 {
            AddressingMode::Ari(reg)
        } else if mode == 3 {
            AddressingMode::Ariwpo(reg)
        } else if mode == 4 {
            AddressingMode::Ariwpr(reg)
        } else if mode == 5 {
            let w = memory.next_word()?;
            assert(spec_new_words(old_read, memory.read@) =~= seq![w]);
            AddressingMode::Ariwd(reg, word_as_i16(w))
        } else if mode == 6 {
            let w = memory.next_word()?;
            assert(spec_new_words(old_read, memory.read@) =~= seq![w]);
            AddressingMode::Ariwi8(reg, BriefExtensionWord(w))
        } else if reg == 0 {
            let w = memory.next_word()?;
            assert(spec_new_words(old_read, memory.read@) =~= seq![w]);
            AddressingMode::AbsShort(w)
        } else if reg == 1 {
            let high = memory.next_word()?;
            let low = memory.next_word()?;
            assert(spec_new_words(old_read, memory.read@) =~= seq![high, low]);
            AddressingMode::AbsLong((high as u32) * 0x1_0000 + low as u32)
        } else if reg == 2 {
            let w = memory.next_word()?;
            assert(spec_new_words(old_read, memory.read@) =~= seq![w]);
            AddressingMode::Pciwd(addr, word_as_i16(w))
        } else if reg == 3 {
            let w = memory.next_word()?;
            assert(spec_new_words(old_read, memory.read@) =~= seq![w]);
            AddressingMode::Pciwi8(addr, BriefExtensionWord(w))
        } else if size == Some(Size::Long) {
            let high = memory.next_word()?;
            let low = memory.next_word()?;
            assert(spec_new_words(old_read, memory.read@) =~= seq![high, low]);
            AddressingMode::Immediate((high as u32) * 0x1_0000 + low as u32)
        } else {
            let w = memory.next_word()?;
            assert(spec_new_words(old_read, memory.read@) =~= seq![w]);
            AddressingMode::Immediate(w as u32)
        };
        assert(memory.read@.subrange(0, old_read.len() as int) =~= old_read);
        Ok(am)
    }
}


/// An addressing mode being used by an instruction, with the address it designates once computed.
///
/// The address is computed once, so that an instruction that reads then writes its operand applies
/// the postincrement or predecrement of the addressing mode only once.
#[derive(Clone, Copy, Debug, PartialEq, Eq, Structural)]
pub struct EffectiveAddress {
    /// The addressing mode.
    pub mode: AddressingMode,
    /// The address, once computed. `None` for the register direct and immediate modes.
    pub address: Option<u32>,
    /// The size of the operation, which gives the postincrement and predecrement steps.
    pub size: Option<Size>,
}

impl EffectiveAddress {
    /// A new effective address whose address is still to be computed.
    pub fn new(mode: AddressingMode, size: Option<Size>) -> (r: Self)
        ensures
            r == (EffectiveAddress { mode, address: None, size }),
    {
        EffectiveAddress { mode, address: None, size }
    }
}


/// A 16-bits displacement survives its encoding in an extension word.
pub proof fn lemma_displacement_round_trip(d: i16)
    ensures
        spec_word_as_i16(d as u16) == d,
{
    assert((d as u16) >= 0x8000 ==> ((d as u16) as int - 0x1_0000) as i16 == d) by (bit_vector);
    assert((d as u16) < 0x8000 ==> (d as u16) as i16 == d) by (bit_vector);
}

/// Decoding the mode and register fields and the extension words that [AddressingMode::assemble]
/// gives back the addressing mode, reading exactly those extension words: for a program counter
/// relative mode, when the extension word is at the address that the mode holds; for immediate
/// data, with the size it was assembled for (a byte or word immediate fitting in a word).
pub proof fn lemma_assemble_decode(am: AddressingMode, size: Size, addr: u32)
    requires
        am.spec_wf(),
        am matches AddressingMode::Pciwd(pc, _) ==> pc == addr,
        am matches AddressingMode::Pciwi8(pc, _) ==> pc == addr,
        am matches AddressingMode::Immediate(imm) ==> size == Size::Long || imm < 0x1_0000,
    ensures
        spec_valid_ea(am.spec_mode() as u16, am.spec_reg_field()),
        am.spec_ext(size == Size::Long).len() == spec_ext_count(am.spec_mode() as u16, am.spec_reg_field(), Some(size)),
        spec_decode_am(am.spec_mode() as u16, am.spec_reg_field(), Some(size), addr, am.spec_ext(size == Size::Long)) == am,
{
    match am {
        AddressingMode::Ariwd(_, d) => lemma_displacement_round_trip(d),
        AddressingMode::Pciwd(_, d) => lemma_displacement_round_trip(d),
        _ => {},
    }
}

} // verus!
