//! ISA definition: the instructions of the M68000 and how an opcode is decoded to one of them.

use vstd::prelude::*;

verus! {

/// ISA of the M68000.
///
/// Converts a raw opcode to this enum using the [from](Self::from) method.
#[derive(Clone, Copy, Debug, PartialEq, Eq, Structural)]
pub enum Isa {
    Unknown,
    Abcd,
    Add,
    Adda,
    Addi,
    Addq,
    Addx,
    And,
    Andi,
    Andiccr,
    Andisr,
    Asm,
    Asr,
    Bcc,
    Bchg,
    Bclr,
    Bra,
    Bset,
    Bsr,
    Btst,
    Chk,
    Clr,
    Cmp,
    Cmpa,
    Cmpi,
    Cmpm,
    Dbcc,
    Divs,
    Divu,
    Eor,
    Eori,
    Eoriccr,
    Eorisr,
    Exg,
    Ext,
    Illegal,
    Jmp,
    Jsr,
    Lea,
    Link,
    Lsm,
    Lsr,
    Move,
    Movea,
    Moveccr,
    Movefsr,
    Movesr,
    Moveusp,
    Movem,
    Movep,
    Moveq,
    Muls,
    Mulu,
    Nbcd,
    Neg,
    Negx,
    Nop,
    Not,
    Or,
    Ori,
    Oriccr,
    Orisr,
    Pea,
    Reset,
    Rom,
    Ror,
    Roxm,
    Roxr,
    Rte,
    Rtr,
    Rts,
    Sbcd,
    Scc,
    Stop,
    Sub,
    Suba,
    Subi,
    Subq,
    Subx,
    Swap,
    Tas,
    Trap,
    Trapv,
    Tst,
    Unlk,
}

/// Data addressing modes: all but address register direct.
pub open spec fn spec_ea_data(m: u16, r: u16) -> bool {
    m != 1 && (m != 7 || r <= 4)
}

/// Data addressing modes: all but address register direct.
fn ea_data(m: u16, r: u16) -> (b: bool)
    ensures
        b == spec_ea_data(m, r),
{
    m != 1 && (m != 7 || r <= 4)
}

/// Data alterable addressing modes.
pub open spec fn spec_ea_dalt(m: u16, r: u16) -> bool {
    m != 1 && (m != 7 || r <= 1)
}

/// Data alterable addressing modes.
fn ea_dalt(m: u16, r: u16) -> (b: bool)
    ensures
        b == spec_ea_dalt(m, r),
{
    m != 1 && (m != 7 || r <= 1)
}

/// All the addressing modes.
pub open spec fn spec_ea_any(m: u16, r: u16) -> bool {
    m != 7 || r <= 4
}

/// All the addressing modes.
fn ea_any(m: u16, r: u16) -> (b: bool)
    ensures
        b == spec_ea_any(m, r),
{
    m != 7 || r <= 4
}

/// Control addressing modes.
pub open spec fn spec_ea_control(m: u16, r: u16) -> bool {
    m == 2 || m == 5 || m == 6 || (m == 7 && r <= 3)
}

/// Control addressing modes.
fn ea_control(m: u16, r: u16) -> (b: bool)
    ensures
        b == spec_ea_control(m, r),
{
    m == 2 || m == 5 || m == 6 || (m == 7 && r <= 3)
}

/// Memory alterable addressing modes.
pub open spec fn spec_ea_malt(m: u16, r: u16) -> bool {
    m >= 2 && (m != 7 || r <= 1)
}

/// Memory alterable addressing modes.
fn ea_malt(m: u16, r: u16) -> (b: bool)
    ensures
        b == spec_ea_malt(m, r),
{
    m >= 2 && (m != 7 || r <= 1)
}

/// Alterable addressing modes.
pub open spec fn spec_ea_alt(m: u16, r: u16) -> bool {
    m != 7 || r <= 1
}

/// Alterable addressing modes.
fn ea_alt(m: u16, r: u16) -> (b: bool)
    ensures
        b == spec_ea_alt(m, r),
{
    m != 7 || r <= 1
}

/// The instruction that the given opcode encodes.
pub open spec fn spec_isa(op: u16) -> Isa {
    let line = op / 0x1000;
    let m = (op / 8) % 8;
    let r = op % 8;
    let sz = (op / 0x40) % 4;
    let b8 = (op / 0x100) % 2;
    if line == 0 {
        if op == 0x003C { Isa::Oriccr }
        else if op == 0x007C { Isa::Orisr }
        else if op == 0x023C { Isa::Andiccr }
        else if op == 0x027C { Isa::Andisr }
        else if op == 0x0A3C { Isa::Eoriccr }
        else if op == 0x0A7C { Isa::Eorisr }
        else if b8 == 1 && m == 1 { Isa::Movep }
        else if b8 == 1 {
            if sz == 0 { if spec_ea_data(m, r) { Isa::Btst } else { Isa::Unknown } }
            else if spec_ea_dalt(m, r) { if sz == 1 { Isa::Bchg } else if sz == 2 { Isa::Bclr } else { Isa::Bset } }
            else { Isa::Unknown }
        }
        else if (op / 0x100) % 16 == 8 {
            if sz == 0 { if spec_ea_data(m, r) && !(m == 7 && r == 4) { Isa::Btst } else { Isa::Unknown } }
            else if spec_ea_dalt(m, r) { if sz == 1 { Isa::Bchg } else if sz == 2 { Isa::Bclr } else { Isa::Bset } }
            else { Isa::Unknown }
        }
        else if sz == 3 || !spec_ea_dalt(m, r) { Isa::Unknown }
        else {
            let k = (op / 0x200) % 8;
            if k == 0 { Isa::Ori }
            else if k == 1 { Isa::Andi }
            else if k == 2 { Isa::Subi }
            else if k == 3 { Isa::Addi }
            else if k == 5 { Isa::Eori }
            else if k == 6 { Isa::Cmpi }
            else { Isa::Unknown }
        }
    } else if line <= 3 {
        let dm = (op / 0x40) % 8;
        let dr = (op / 0x200) % 8;
        if line == 1 && m == 1 { Isa::Unknown }
        else if !spec_ea_any(m, r) { Isa::Unknown }
        else if dm == 1 { if line == 1 { Isa::Unknown } else { Isa::Movea } }
        else if spec_ea_dalt(dm, dr) { Isa::Move }
        else { Isa::Unknown }
    } else if line == 4 {
        if op == 0x4AFC { Isa::Illegal }
        else if op == 0x4E70 { Isa::Reset }
        else if op == 0x4E71 { Isa::Nop }
        else if op == 0x4E72 { Isa::Stop }
        else if op == 0x4E73 { Isa::Rte }
        else if op == 0x4E75 { Isa::Rts }
        else if op == 0x4E76 { Isa::Trapv }
        else if op == 0x4E77 { Isa::Rtr }
        else if op / 16 == 0x4E4 { Isa::Trap }
        else if op / 8 == 0x9CA { Isa::Link }
        else if op / 8 == 0x9CB { Isa::Unlk }
        else if op / 16 == 0x4E6 { Isa::Moveusp }
        else if op / 8 == 0x908 { Isa::Swap }
        else if op / 8 == 0x910 || op / 8 == 0x918 { Isa::Ext }
        else if b8 == 1 {
            if sz == 2 { if spec_ea_data(m, r) { Isa::Chk } else { Isa::Unknown } }
            else if sz == 3 { if spec_ea_control(m, r) { Isa::Lea } else { Isa::Unknown } }
            else { Isa::Unknown }
        }
        else {
            let k = (op / 0x100) % 16;
            if k == 0 { if sz == 3 { if spec_ea_dalt(m, r) { Isa::Movefsr } else { Isa::Unknown } } else if spec_ea_dalt(m, r) { Isa::Negx } else { Isa::Unknown } }
            else if k == 2 { if sz != 3 && spec_ea_dalt(m, r) { Isa::Clr } else { Isa::Unknown } }
            else if k == 4 { if sz == 3 { if spec_ea_data(m, r) { Isa::Moveccr } else { Isa::Unknown } } else if spec_ea_dalt(m, r) { Isa::Neg } else { Isa::Unknown } }
            else if k == 6 { if sz == 3 { if spec_ea_data(m, r) { Isa::Movesr } else { Isa::Unknown } } else if spec_ea_dalt(m, r) { Isa::Not } else { Isa::Unknown } }
            else if k == 8 {
                if sz == 0 { if spec_ea_dalt(m, r) { Isa::Nbcd } else { Isa::Unknown } }
                else if sz == 1 { if spec_ea_control(m, r) { Isa::Pea } else { Isa::Unknown } }
                else if m == 2 || m == 4 || (m >= 5 && spec_ea_control(m, r) && !(m == 7 && r >= 2)) { Isa::Movem }
                else { Isa::Unknown }
            }
            else if k == 10 { if sz == 3 { if spec_ea_dalt(m, r) { Isa::Tas } else { Isa::Unknown } } else if spec_ea_dalt(m, r) { Isa::Tst } else { Isa::Unknown } }
            else if k == 12 { if sz >= 2 && (m == 2 || m == 3 || spec_ea_control(m, r)) { Isa::Movem } else { Isa::Unknown } }
            else if k == 14 {
                if sz == 2 { if spec_ea_control(m, r) { Isa::Jsr } else { Isa::Unknown } }
                else if sz == 3 { if spec_ea_control(m, r) { Isa::Jmp } else { Isa::Unknown } }
                else { Isa::Unknown }
            }
            else { Isa::Unknown }
        }
    } else if line == 5 {
        if sz == 3 {
            if m == 1 { Isa::Dbcc } else if spec_ea_dalt(m, r) { Isa::Scc } else { Isa::Unknown }
        }
        else if spec_ea_alt(m, r) && !(m == 1 && sz == 0) { if b8 == 0 { Isa::Addq } else { Isa::Subq } }
        else { Isa::Unknown }
    } else if line == 6 {
        let c = (op / 0x100) % 16;
        if c == 0 { Isa::Bra } else if c == 1 { Isa::Bsr } else { Isa::Bcc }
    } else if line == 7 {
        if b8 == 0 { Isa::Moveq } else { Isa::Unknown }
    } else if line == 8 || line == 12 {
        if sz == 3 {
            if spec_ea_data(m, r) {
                if line == 8 { if b8 == 0 { Isa::Divu } else { Isa::Divs } }
                else { if b8 == 0 { Isa::Mulu } else { Isa::Muls } }
            } else { Isa::Unknown }
        }
        else if b8 == 1 && sz == 0 && m <= 1 { if line == 8 { Isa::Sbcd } else { Isa::Abcd } }
        else if line == 12 && b8 == 1 && ((op / 8) % 32 == 8 || (op / 8) % 32 == 9 || (op / 8) % 32 == 17) { Isa::Exg }
        else if b8 == 0 { if spec_ea_data(m, r) { if line == 8 { Isa::Or } else { Isa::And } } else { Isa::Unknown } }
        else if spec_ea_malt(m, r) { if line == 8 { Isa::Or } else { Isa::And } }
        else { Isa::Unknown }
    } else if line == 9 || line == 13 {
        if sz == 3 { if spec_ea_any(m, r) { if line == 9 { Isa::Suba } else { Isa::Adda } } else { Isa::Unknown } }
        else if b8 == 1 && m <= 1 { if line == 9 { Isa::Subx } else { Isa::Addx } }
        else if b8 == 0 { if spec_ea_any(m, r) && !(m == 1 && sz == 0) { if line == 9 { Isa::Sub } else { Isa::Add } } else { Isa::Unknown } }
        else if spec_ea_malt(m, r) { if line == 9 { Isa::Sub } else { Isa::Add } }
        else { Isa::Unknown }
    } else if line == 11 {
        if sz == 3 { if spec_ea_any(m, r) { Isa::Cmpa } else { Isa::Unknown } }
        else if b8 == 0 { if spec_ea_any(m, r) && !(m == 1 && sz == 0) { Isa::Cmp } else { Isa::Unknown } }
        else if m == 1 { Isa::Cmpm }
        else if spec_ea_dalt(m, r) { Isa::Eor }
        else { Isa::Unknown }
    } else if line == 14 {
        if sz == 3 {
            let k = (op / 0x200) % 8;
            if !spec_ea_malt(m, r) { Isa::Unknown }
            else if k == 0 { Isa::Asm }
            else if k == 1 { Isa::Lsm }
            else if k == 2 { Isa::Roxm }
            else if k == 3 { Isa::Rom }
            else { Isa::Unknown }
        } else {
            let k = (op / 8) % 4;
            if k == 0 { Isa::Asr } else if k == 1 { Isa::Lsr } else if k == 2 { Isa::Roxr } else { Isa::Ror }
        }
    } else {
        Isa::Unknown
    }
}

/// Whether an instruction is privileged (executable in supervisor mode only).
pub open spec fn spec_is_privileged(isa: Isa) -> bool {
    isa == Isa::Andisr || isa == Isa::Eorisr || isa == Isa::Movesr || isa == Isa::Moveusp || isa == Isa::Orisr || isa == Isa::Reset || isa == Isa::Rte || isa == Isa::Stop
}

/// Whether the instruction ends a block of cached instructions: it changes the flow of control or
/// the status register, or may raise an exception.
pub open spec fn spec_ends_block(isa: Isa) -> bool {
    isa == Isa::Bcc || isa == Isa::Bra || isa == Isa::Bsr || isa == Isa::Dbcc || isa == Isa::Jmp || isa == Isa::Jsr
        || isa == Isa::Rte || isa == Isa::Rtr || isa == Isa::Rts || isa == Isa::Trap || isa == Isa::Trapv
        || isa == Isa::Chk || isa == Isa::Divs || isa == Isa::Divu || isa == Isa::Illegal || isa == Isa::Unknown
        || isa == Isa::Stop || isa == Isa::Reset || isa == Isa::Andisr || isa == Isa::Eorisr || isa == Isa::Orisr
        || isa == Isa::Movesr || isa == Isa::Moveusp
}

impl Isa {
    /// Returns whether the instruction ends a block of cached instructions.
    pub fn ends_block(self) -> (r: bool)
        ensures
            r == spec_ends_block(self),
    {
        self == Isa::Bcc || self == Isa::Bra || self == Isa::Bsr || self == Isa::Dbcc || self == Isa::Jmp || self == Isa::Jsr
            || self == Isa::Rte || self == Isa::Rtr || self == Isa::Rts || self == Isa::Trap || self == Isa::Trapv
            || self == Isa::Chk || self == Isa::Divs || self == Isa::Divu || self == Isa::Illegal || self == Isa::Unknown
            || self == Isa::Stop || self == Isa::Reset || self == Isa::Andisr || self == Isa::Eorisr || self == Isa::Orisr
            || self == Isa::Movesr || self == Isa::Moveusp
    }

    /// Returns whether the instruction is privileged or not.
    ///
    /// Privileged instructions are not traced (MC68000UM 6.3.8 Tracing).
    pub fn is_privileged(self) -> (r: bool)
        ensures
            r == spec_is_privileged(self),
    {
        match self {
            Isa::Andisr => true,
            Isa::Eorisr => true,
            Isa::Movesr => true,
            Isa::Moveusp => true,
            Isa::Orisr => true,
            Isa::Reset => true,
            Isa::Rte => true,
            Isa::Stop => true,
            _ => false,
        }
    }

    /// Returns the instruction represented by the given opcode.
    pub fn from(op: u16) -> (r: Isa)
        ensures
            r == spec_isa(op),
    {
    let line: u16 = op / 0x1000;
    let m: u16 = (op / 8) % 8;
    let r: u16 = op % 8;
    let sz: u16 = (op / 0x40) % 4;
    let b8: u16 = (op / 0x100) % 2;
    if line == 0 {
        if op == 0x003C { Isa::Oriccr }
        else if op == 0x007C { Isa::Orisr }
        else if op == 0x023C { Isa::Andiccr }
        else if op == 0x027C { Isa::Andisr }
        else if op == 0x0A3C { Isa::Eoriccr }
        else if op == 0x0A7C { Isa::Eorisr }
        else if b8 == 1 && m == 1 { Isa::Movep }
        else if b8 == 1 {
            if sz == 0 { if ea_data(m, r) { Isa::Btst } else { Isa::Unknown } }
            else if ea_dalt(m, r) { if sz == 1 { Isa::Bchg } else if sz == 2 { Isa::Bclr } else { Isa::Bset } }
            else { Isa::Unknown }
        }
        else if (op / 0x100) % 16 == 8 {
            if sz == 0 { if ea_data(m, r) && !(m == 7 && r == 4) { Isa::Btst } else { Isa::Unknown } }
            else if ea_dalt(m, r) { if sz == 1 { Isa::Bchg } else if sz == 2 { Isa::Bclr } else { Isa::Bset } }
            else { Isa::Unknown }
        }
        else if sz == 3 || !ea_dalt(m, r) { Isa::Unknown }
        else {
            let k: u16 = (op / 0x200) % 8;
            if k == 0 { Isa::Ori }
            else if k == 1 { Isa::Andi }
            else if k == 2 { Isa::Subi }
            else if k == 3 { Isa::Addi }
            else if k == 5 { Isa::Eori }
            else if k == 6 { Isa::Cmpi }
            else { Isa::Unknown }
        }
    } else if line <= 3 {
        let dm: u16 = (op / 0x40) % 8;
        let dr: u16 = (op / 0x200) % 8;
        if line == 1 && m == 1 { Isa::Unknown }
        else if !ea_any(m, r) { Isa::Unknown }
        else if dm == 1 { if line == 1 { Isa::Unknown } else { Isa::Movea } }
        else if ea_dalt(dm, dr) { Isa::Move }
        else { Isa::Unknown }
    } else if line == 4 {
        if op == 0x4AFC { Isa::Illegal }
        else if op == 0x4E70 { Isa::Reset }
        else if op == 0x4E71 { Isa::Nop }
        else if op == 0x4E72 { Isa::Stop }
        else if op == 0x4E73 { Isa::Rte }
        else if op == 0x4E75 { Isa::Rts }
        else if op == 0x4E76 { Isa::Trapv }
        else if op == 0x4E77 { Isa::Rtr }
        else if op / 16 == 0x4E4 { Isa::Trap }
        else if op / 8 == 0x9CA { Isa::Link }
        else if op / 8 == 0x9CB { Isa::Unlk }
        else if op / 16 == 0x4E6 { Isa::Moveusp }
        else if op / 8 == 0x908 { Isa::Swap }
        else if op / 8 == 0x910 || op / 8 == 0x918 { Isa::Ext }
        else if b8 == 1 {
            if sz == 2 { if ea_data(m, r) { Isa::Chk } else { Isa::Unknown } }
            else if sz == 3 { if ea_control(m, r) { Isa::Lea } else { Isa::Unknown } }
            else { Isa::Unknown }
        }
        else {
            let k: u16 = (op / 0x100) % 16;
            if k == 0 { if sz == 3 { if ea_dalt(m, r) { Isa::Movefsr } else { Isa::Unknown } } else if ea_dalt(m, r) { Isa::Negx } else { Isa::Unknown } }
            else if k == 2 { if sz != 3 && ea_dalt(m, r) { Isa::Clr } else { Isa::Unknown } }
            else if k == 4 { if sz == 3 { if ea_data(m, r) { Isa::Moveccr } else { Isa::Unknown } } else if ea_dalt(m, r) { Isa::Neg } else { Isa::Unknown } }
            else if k == 6 { if sz == 3 { if ea_data(m, r) { Isa::Movesr } else { Isa::Unknown } } else if ea_dalt(m, r) { Isa::Not } else { Isa::Unknown } }
            else if k == 8 {
                if sz == 0 { if ea_dalt(m, r) { Isa::Nbcd } else { Isa::Unknown } }
                else if sz == 1 { if ea_control(m, r) { Isa::Pea } else { Isa::Unknown } }
                else if m == 2 || m == 4 || (m >= 5 && ea_control(m, r) && !(m == 7 && r >= 2)) { Isa::Movem }
                else { Isa::Unknown }
            }
            else if k == 10 { if sz == 3 { if ea_dalt(m, r) { Isa::Tas } else { Isa::Unknown } } else if ea_dalt(m, r) { Isa::Tst } else { Isa::Unknown } }
            else if k == 12 { if sz >= 2 && (m == 2 || m == 3 || ea_control(m, r)) { Isa::Movem } else { Isa::Unknown } }
            else if k == 14 {
                if sz == 2 { if ea_control(m, r) { Isa::Jsr } else { Isa::Unknown } }
                else if sz == 3 { if ea_control(m, r) { Isa::Jmp } else { Isa::Unknown } }
                else { Isa::Unknown }
            }
            else { Isa::Unknown }
        }
    } else if line == 5 {
        if sz == 3 {
            if m == 1 { Isa::Dbcc } else if ea_dalt(m, r) { Isa::Scc } else { Isa::Unknown }
        }
        else if ea_alt(m, r) && !(m == 1 && sz == 0) { if b8 == 0 { Isa::Addq } else { Isa::Subq } }
        else { Isa::Unknown }
    } else if line == 6 {
        let c: u16 = (op / 0x100) % 16;
        if c == 0 { Isa::Bra } else if c == 1 { Isa::Bsr } else { Isa::Bcc }
    } else if line == 7 {
        if b8 == 0 { Isa::Moveq } else { Isa::Unknown }
    } else if line == 8 || line == 12 {
        if sz == 3 {
            if ea_data(m, r) {
                if line == 8 { if b8 == 0 { Isa::Divu } else { Isa::Divs } }
                else { if b8 == 0 { Isa::Mulu } else { Isa::Muls } }
            } else { Isa::Unknown }
        }
        else if b8 == 1 && sz == 0 && m <= 1 { if line == 8 { Isa::Sbcd } else { Isa::Abcd } }
        else if line == 12 && b8 == 1 && ((op / 8) % 32 == 8 || (op / 8) % 32 == 9 || (op / 8) % 32 == 17) { Isa::Exg }
        else if b8 == 0 { if ea_data(m, r) { if line == 8 { Isa::Or } else { Isa::And } } else { Isa::Unknown } }
        else if ea_malt(m, r) { if line == 8 { Isa::Or } else { Isa::And } }
        else { Isa::Unknown }
    } else if line == 9 || line == 13 {
        if sz == 3 { if ea_any(m, r) { if line == 9 { Isa::Suba } else { Isa::Adda } } else { Isa::Unknown } }
        else if b8 == 1 && m <= 1 { if line == 9 { Isa::Subx } else { Isa::Addx } }
        else if b8 == 0 { if ea_any(m, r) && !(m == 1 && sz == 0) { if line == 9 { Isa::Sub } else { Isa::Add } } else { Isa::Unknown } }
        else if ea_malt(m, r) { if line == 9 { Isa::Sub } else { Isa::Add } }
        else { Isa::Unknown }
    } else if line == 11 {
        if sz == 3 { if ea_any(m, r) { Isa::Cmpa } else { Isa::Unknown } }
        else if b8 == 0 { if ea_any(m, r) && !(m == 1 && sz == 0) { Isa::Cmp } else { Isa::Unknown } }
        else if m == 1 { Isa::Cmpm }
        else if ea_dalt(m, r) { Isa::Eor }
        else { Isa::Unknown }
    } else if line == 14 {
        if sz == 3 {
            let k: u16 = (op / 0x200) % 8;
            if !ea_malt(m, r) { Isa::Unknown }
            else if k == 0 { Isa::Asm }
            else if k == 1 { Isa::Lsm }
            else if k == 2 { Isa::Roxm }
            else if k == 3 { Isa::Rom }
            else { Isa::Unknown }
        } else {
            let k: u16 = (op / 8) % 4;
            if k == 0 { Isa::Asr } else if k == 1 { Isa::Lsr } else if k == 2 { Isa::Roxr } else { Isa::Ror }
        }
    } else {
        Isa::Unknown
    }
}
}

} // verus!
