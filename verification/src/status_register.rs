//! M68000 status register.

use vstd::prelude::*;
use vstd::std_specs::convert::FromSpecImpl;
use crate::utils::{bit, bits, spec_bit, spec_bits, lemma_field_bounds};

verus! {

/// M68000 status register.
///
/// [StatusRegister::default] returns a Status Register set to 0x2700 (supervisor bit set, interrupt mask to 7).
#[derive(Clone, Copy, Debug, PartialEq, Eq, Structural)]
pub struct StatusRegister {
    /// Trace
    pub t: bool,
    /// Supervisor
    pub s: bool,
    /// Interrupt Priority Mask
    pub interrupt_mask: u8,
    /// Extend
    pub x: bool,
    /// Negate
    pub n: bool,
    /// Zero
    pub z: bool,
    /// Overflow
    pub v: bool,
    /// Carry
    pub c: bool,
}

/// The bits of the status register that exist (T, S, interrupt mask and CCR).
pub const SR_IMPLEMENTED_BITS: u16 = 0xA71F;

/// The status register decoded from its raw 16-bits value.
pub open spec fn spec_from_raw(sr: u16) -> StatusRegister {
    StatusRegister {
        t: spec_bit(sr, 15),
        s: spec_bit(sr, 13),
        interrupt_mask: spec_bits(sr, 8, 10) as u8,
        x: spec_bit(sr, 4),
        n: spec_bit(sr, 3),
        z: spec_bit(sr, 2),
        v: spec_bit(sr, 1),
        c: spec_bit(sr, 0),
    }
}

/// 1 for true, 0 for false.
pub open spec fn b16(b: bool) -> u16 {
    if b { 1 } else { 0 }
}

/// The raw 16-bits value of a status register.
pub open spec fn spec_to_raw(sr: StatusRegister) -> u16 {
    (b16(sr.t) << 15u16) | (b16(sr.s) << 13u16) | ((sr.interrupt_mask as u16) << 8u16) | (b16(sr.x) << 4u16)
        | (b16(sr.n) << 3u16) | (b16(sr.z) << 2u16) | (b16(sr.v) << 1u16) | b16(sr.c)
}

/// The value of a condition code (`cc` from 0 to 15) on the given flags.
pub open spec fn spec_condition(sr: StatusRegister, cc: u8) -> bool {
    if cc == 0 { true }
    else if cc == 1 { false }
    else if cc == 2 { !sr.c && !sr.z }
    else if cc == 3 { sr.c || sr.z }
    else if cc == 4 { !sr.c }
    else if cc == 5 { sr.c }
    else if cc == 6 { !sr.z }
    else if cc == 7 { sr.z }
    else if cc == 8 { !sr.v }
    else if cc == 9 { sr.v }
    else if cc == 10 { !sr.n }
    else if cc == 11 { sr.n }
    else if cc == 12 { sr.n == sr.v }
    else if cc == 13 { sr.n != sr.v }
    else if cc == 14 { !sr.z && sr.n == sr.v }
    else { sr.z || sr.n != sr.v }
}

/// The flags after `sr &= rhs`.
pub open spec fn spec_and_raw(sr: StatusRegister, rhs: u16) -> StatusRegister {
    StatusRegister {
        t: sr.t && spec_bit(rhs, 15),
        s: sr.s && spec_bit(rhs, 13),
        interrupt_mask: sr.interrupt_mask & (spec_bits(rhs, 8, 10) as u8),
        x: sr.x && spec_bit(rhs, 4),
        n: sr.n && spec_bit(rhs, 3),
        z: sr.z && spec_bit(rhs, 2),
        v: sr.v && spec_bit(rhs, 1),
        c: sr.c && spec_bit(rhs, 0),
    }
}

/// The flags after `sr |= rhs`.
pub open spec fn spec_or_raw(sr: StatusRegister, rhs: u16) -> StatusRegister {
    StatusRegister {
        t: sr.t || spec_bit(rhs, 15),
        s: sr.s || spec_bit(rhs, 13),
        interrupt_mask: sr.interrupt_mask | (spec_bits(rhs, 8, 10) as u8),
        x: sr.x || spec_bit(rhs, 4),
        n: sr.n || spec_bit(rhs, 3),
        z: sr.z || spec_bit(rhs, 2),
        v: sr.v || spec_bit(rhs, 1),
        c: sr.c || spec_bit(rhs, 0),
    }
}

/// The flags after ORI to CCR: X, N, Z, V and C are ORed with bits 4 to 0 of `rhs`, the system
/// byte is kept.
pub open spec fn spec_or_ccr(sr: StatusRegister, rhs: u16) -> StatusRegister {
    StatusRegister {
        x: sr.x || spec_bit(rhs, 4),
        n: sr.n || spec_bit(rhs, 3),
        z: sr.z || spec_bit(rhs, 2),
        v: sr.v || spec_bit(rhs, 1),
        c: sr.c || spec_bit(rhs, 0),
        ..sr
    }
}

/// The flags after EORI to CCR: X, N, Z, V and C are XORed with bits 4 to 0 of `rhs`, the system
/// byte is kept.
pub open spec fn spec_xor_ccr(sr: StatusRegister, rhs: u16) -> StatusRegister {
    StatusRegister {
        x: sr.x != spec_bit(rhs, 4),
        n: sr.n != spec_bit(rhs, 3),
        z: sr.z != spec_bit(rhs, 2),
        v: sr.v != spec_bit(rhs, 1),
        c: sr.c != spec_bit(rhs, 0),
        ..sr
    }
}

/// The flags after `sr ^= rhs`.
pub open spec fn spec_xor_raw(sr: StatusRegister, rhs: u16) -> StatusRegister {
    StatusRegister {
        t: sr.t != spec_bit(rhs, 15),
        s: sr.s != spec_bit(rhs, 13),
        interrupt_mask: sr.interrupt_mask ^ (spec_bits(rhs, 8, 10) as u8),
        x: sr.x != spec_bit(rhs, 4),
        n: sr.n != spec_bit(rhs, 3),
        z: sr.z != spec_bit(rhs, 2),
        v: sr.v != spec_bit(rhs, 1),
        c: sr.c != spec_bit(rhs, 0),
    }
}

/// The flags after loading the condition code register from `sr`: X, N, Z, V and C come
/// from the low bits of `sr`, the system byte is kept.
pub open spec fn spec_set_ccr(old: StatusRegister, sr: u16) -> StatusRegister {
    StatusRegister {
        x: spec_bit(sr, 4),
        n: spec_bit(sr, 3),
        z: spec_bit(sr, 2),
        v: spec_bit(sr, 1),
        c: spec_bit(sr, 0),
        ..old
    }
}

impl StatusRegister {
    /// The default raw value of 0x2700 (supervisor bit set, interrupt mask to 7).
    pub const DEFAULT: u16 = 0x2700;

    fn t(&self) -> (r: bool)
        ensures
            r == spec_condition(*self, 0),
    {
        true
    }

    fn f(&self) -> (r: bool)
        ensures
            r == spec_condition(*self, 1),
    {
        false
    }

    fn hi(&self) -> (r: bool)
        ensures
            r == spec_condition(*self, 2),
    {
        !self.c && !self.z
    }

    fn ls(&self) -> (r: bool)
        ensures
            r == spec_condition(*self, 3),
    {
        self.c || self.z
    }

    fn cc(&self) -> (r: bool)
        ensures
            r == spec_condition(*self, 4),
    {
        !self.c
    }

    fn cs(&self) -> (r: bool)
        ensures
            r == spec_condition(*self, 5),
    {
        self.c
    }

    fn ne(&self) -> (r: bool)
        ensures
            r == spec_condition(*self, 6),
    {
        !self.z
    }

    fn eq(&self) -> (r: bool)
        ensures
            r == spec_condition(*self, 7),
    {
        self.z
    }

    fn vc(&self) -> (r: bool)
        ensures
            r == spec_condition(*self, 8),
    {
        !self.v
    }

    fn vs(&self) -> (r: bool)
        ensures
            r == spec_condition(*self, 9),
    {
        self.v
    }

    fn pl(&self) -> (r: bool)
        ensures
            r == spec_condition(*self, 10),
    {
        !self.n
    }

    fn mi(&self) -> (r: bool)
        ensures
            r == spec_condition(*self, 11),
    {
        self.n
    }

    fn ge(&self) -> (r: bool)
        ensures
            r == spec_condition(*self, 12),
    {
        self.n && self.v || !self.n && !self.v
    }

    fn lt(&self) -> (r: bool)
        ensures
            r == spec_condition(*self, 13),
    {
        self.n && !self.v || !self.n && self.v
    }

    fn gt(&self) -> (r: bool)
        ensures
            r == spec_condition(*self, 14),
    {
        self.n && self.v && !self.z || !self.n && !self.v && !self.z
    }

    fn le(&self) -> (r: bool)
        ensures
            r == spec_condition(*self, 15),
    {
        self.z || self.n && !self.v || !self.n && self.v
    }

    /// Tests the given condition from the raw bits of conditional instructions.
    pub fn condition(&self, cc: u8) -> (r: bool)
        requires
            cc < 16,
        ensures
            r == spec_condition(*self, cc),
    {
        match cc {
            0 => self.t(),
            1 => self.f(),
            2 => self.hi(),
            3 => self.ls(),
            4 => self.cc(),
            5 => self.cs(),
            6 => self.ne(),
            7 => self.eq(),
            8 => self.vc(),
            9 => self.vs(),
            10 => self.pl(),
            11 => self.mi(),
            12 => self.ge(),
            13 => self.lt(),
            14 => self.gt(),
            _ => self.le(),
        }
    }

    /// Sets the CCR bits to the one's of the given status register. Supervisor bits are unchanged.
    pub fn set_ccr(&mut self, sr: u16)
        ensures
            *final(self) == spec_set_ccr(*old(self), sr),
    {
        self.x = bit(sr, 4);
        self.n = bit(sr, 3);
        self.z = bit(sr, 2);
        self.v = bit(sr, 1);
        self.c = bit(sr, 0);
    }

    /// Decodes the given raw status register value.
    pub fn from_raw(sr: u16) -> (r: Self)
        ensures
            r == spec_from_raw(sr),
    {
        proof {
            lemma_field_bounds(sr);
        }
        StatusRegister {
            t: bit(sr, 15),
            s: bit(sr, 13),
            interrupt_mask: bits(sr, 8, 10) as u8,
            x: bit(sr, 4),
            n: bit(sr, 3),
            z: bit(sr, 2),
            v: bit(sr, 1),
            c: bit(sr, 0),
        }
    }

    /// Encodes the status register to its raw value.
    pub fn to_raw(&self) -> (r: u16)
        ensures
            r == spec_to_raw(*self),
    {
        let t: u16 = if self.t { 1 } else { 0 };
        let s: u16 = if self.s { 1 } else { 0 };
        let x: u16 = if self.x { 1 } else { 0 };
        let n: u16 = if self.n { 1 } else { 0 };
        let z: u16 = if self.z { 1 } else { 0 };
        let v: u16 = if self.v { 1 } else { 0 };
        let c: u16 = if self.c { 1 } else { 0 };
        t << 15u16 | s << 13u16 | (self.interrupt_mask as u16) << 8u16 | x << 4u16 | n << 3u16 | z << 2u16 | v << 1u16 | c
    }

    /// `self &= rhs`: each flag is kept only where the corresponding bit of `rhs` is set.
    pub fn and_raw(&mut self, rhs: u16)
        ensures
            *final(self) == spec_and_raw(*old(self), rhs),
    {
        proof {
            lemma_field_bounds(rhs);
        }
        self.t = self.t && bit(rhs, 15);
        self.s = self.s && bit(rhs, 13);
        self.interrupt_mask = self.interrupt_mask & (bits(rhs, 8, 10) as u8);
        self.x = self.x && bit(rhs, 4);
        self.n = self.n && bit(rhs, 3);
        self.z = self.z && bit(rhs, 2);
        self.v = self.v && bit(rhs, 1);
        self.c = self.c && bit(rhs, 0);
    }

    /// `self |= rhs`: each flag is set where the corresponding bit of `rhs` is set.
    pub fn or_raw(&mut self, rhs: u16)
        ensures
            *final(self) == spec_or_raw(*old(self), rhs),
    {
        proof {
            lemma_field_bounds(rhs);
        }
        self.t = self.t || bit(rhs, 15);
        self.s = self.s || bit(rhs, 13);
        self.interrupt_mask = self.interrupt_mask | (bits(rhs, 8, 10) as u8);
        self.x = self.x || bit(rhs, 4);
        self.n = self.n || bit(rhs, 3);
        self.z = self.z || bit(rhs, 2);
        self.v = self.v || bit(rhs, 1);
        self.c = self.c || bit(rhs, 0);
    }

    /// `self ^= rhs`: each flag is toggled where the corresponding bit of `rhs` is set.
    pub fn xor_raw(&mut self, rhs: u16)
        ensures
            *final(self) == spec_xor_raw(*old(self), rhs),
    {
        proof {
            lemma_field_bounds(rhs);
        }
        self.t = self.t != bit(rhs, 15);
        self.s = self.s != bit(rhs, 13);
        self.interrupt_mask = self.interrupt_mask ^ (bits(rhs, 8, 10) as u8);
        self.x = self.x != bit(rhs, 4);
        self.n = self.n != bit(rhs, 3);
        self.z = self.z != bit(rhs, 2);
        self.v = self.v != bit(rhs, 1);
        self.c = self.c != bit(rhs, 0);
    }
}

impl Default for StatusRegister {
    /// Returns a Status Register set to 0x2700 (supervisor bit set, interrupt mask to 7).
    fn default() -> (r: Self)
        ensures
            r == spec_from_raw(0x2700),
    {
        StatusRegister::from_raw(StatusRegister::DEFAULT)
    }
}

impl From<u16> for StatusRegister {
    fn from(sr: u16) -> (r: Self) {
        StatusRegister::from_raw(sr)
    }
}

impl FromSpecImpl<u16> for StatusRegister {
    open spec fn obeys_from_spec() -> bool {
        true
    }

    open spec fn from_spec(v: u16) -> StatusRegister {
        spec_from_raw(v)
    }
}

impl From<StatusRegister> for u16 {
    fn from(sr: StatusRegister) -> (r: u16) {
        sr.to_raw()
    }
}

impl FromSpecImpl<StatusRegister> for u16 {
    open spec fn obeys_from_spec() -> bool {
        true
    }

    open spec fn from_spec(v: StatusRegister) -> u16 {
        spec_to_raw(v)
    }
}

impl std::ops::BitAndAssign<u16> for StatusRegister {
    fn bitand_assign(&mut self, rhs: u16) {
        self.and_raw(rhs);
    }
}

impl std::ops::BitOrAssign<u16> for StatusRegister {
    fn bitor_assign(&mut self, rhs: u16) {
        self.or_raw(rhs);
    }
}

impl std::ops::BitXorAssign<u16> for StatusRegister {
    fn bitxor_assign(&mut self, rhs: u16) {
        self.xor_raw(rhs);
    }
}

/// The mnemonic suffix of a condition code (`test` from 0 to 15), `"Unknown"` otherwise.
pub open spec fn spec_condition_mnemonic(test: u8) -> Seq<char> {
    if test == 0 { "T"@ }
    else if test == 1 { "F"@ }
    else if test == 2 { "HI"@ }
    else if test == 3 { "LS"@ }
    else if test == 4 { "CC"@ }
    else if test == 5 { "CS"@ }
    else if test == 6 { "NE"@ }
    else if test == 7 { "EQ"@ }
    else if test == 8 { "VC"@ }
    else if test == 9 { "VS"@ }
    else if test == 10 { "PL"@ }
    else if test == 11 { "MI"@ }
    else if test == 12 { "GE"@ }
    else if test == 13 { "LT"@ }
    else if test == 14 { "GT"@ }
    else if test == 15 { "LE"@ }
    else { "Unknown"@ }
}

/// Returns the mnemonic suffix of the given condition code.
pub fn disassemble_conditional_test(test: u8) -> (r: &'static str)
    ensures
        r@ == spec_condition_mnemonic(test),
{
    match test {
        0 => "T",
        1 => "F",
        2 => "HI",
        3 => "LS",
        4 => "CC",
        5 => "CS",
        6 => "NE",
        7 => "EQ",
        8 => "VC",
        9 => "VS",
        10 => "PL",
        11 => "MI",
        12 => "GE",
        13 => "LT",
        14 => "GT",
        15 => "LE",
        _ => "Unknown",
    }
}

/// Decoding the raw value of a status register and encoding it back keeps exactly the
/// implemented bits (T, S, the interrupt mask and the condition codes).
pub proof fn lemma_raw_round_trip(raw: u16)
    ensures
        spec_to_raw(spec_from_raw(raw)) == raw & SR_IMPLEMENTED_BITS,
{
    assert(
        ((if (raw >> 15u16) & 1 == 1 { 1u16 } else { 0u16 }) << 15u16)
        | ((if (raw >> 13u16) & 1 == 1 { 1u16 } else { 0u16 }) << 13u16)
        | ((((raw >> 8u16) & (((1u32 << 3u16) - 1) as u16)) as u8 as u16) << 8u16)
        | ((if (raw >> 4u16) & 1 == 1 { 1u16 } else { 0u16 }) << 4u16)
        | ((if (raw >> 3u16) & 1 == 1 { 1u16 } else { 0u16 }) << 3u16)
        | ((if (raw >> 2u16) & 1 == 1 { 1u16 } else { 0u16 }) << 2u16)
        | ((if (raw >> 1u16) & 1 == 1 { 1u16 } else { 0u16 }) << 1u16)
        | (if (raw >> 0u16) & 1 == 1 { 1u16 } else { 0u16 })
        == raw & 0xA71F
    ) by (bit_vector);
}


/// Encoding a status register and decoding it back gives the same register, for every register
/// whose interrupt mask fits its 3 bits.
pub proof fn lemma_struct_round_trip(sr: StatusRegister)
    requires
        sr.interrupt_mask < 8,
    ensures
        spec_from_raw(spec_to_raw(sr)) == sr,
{
    let t = b16(sr.t);
    let s = b16(sr.s);
    let m = sr.interrupt_mask;
    let x = b16(sr.x);
    let n = b16(sr.n);
    let z = b16(sr.z);
    let v = b16(sr.v);
    let c = b16(sr.c);
    let raw = spec_to_raw(sr);
    assert(((1u32 << 3u16) - 1) as u16 == 7) by (bit_vector);
    assert(
        ((raw >> 15u16) & 1 == 1) == (t == 1) && ((raw >> 13u16) & 1 == 1) == (s == 1)
        && ((raw >> 8u16) & 7) as u8 == m
        && ((raw >> 4u16) & 1 == 1) == (x == 1) && ((raw >> 3u16) & 1 == 1) == (n == 1)
        && ((raw >> 2u16) & 1 == 1) == (z == 1) && ((raw >> 1u16) & 1 == 1) == (v == 1)
        && ((raw >> 0u16) & 1 == 1) == (c == 1)
    ) by (bit_vector)
        requires
            raw == (t << 15u16) | (s << 13u16) | ((m as u16) << 8u16) | (x << 4u16) | (n << 3u16) | (z << 2u16)
                | (v << 1u16) | c,
            t <= 1, s <= 1, x <= 1, n <= 1, z <= 1, v <= 1, c <= 1, m < 8;
}

/// ANDing or ORing a status register with its own raw value changes nothing, XORing it with its
/// own raw value clears every bit, and ANDing it with 0 clears every bit.
pub proof fn lemma_self_operations(raw: u16, sr: StatusRegister)
    ensures
        spec_and_raw(spec_from_raw(raw), raw) == spec_from_raw(raw),
        spec_or_raw(spec_from_raw(raw), raw) == spec_from_raw(raw),
        spec_to_raw(spec_xor_raw(spec_from_raw(raw), raw)) == 0,
        spec_to_raw(spec_and_raw(sr, 0)) == 0,
{
    let m = spec_bits(raw, 8, 10) as u8;
    assert(((1u32 << 3u16) - 1) as u16 == 7) by (bit_vector);
    assert(((raw >> 8u16) & 7) as u8 & ((raw >> 8u16) & 7) as u8 == ((raw >> 8u16) & 7) as u8
        && ((raw >> 8u16) & 7) as u8 | ((raw >> 8u16) & 7) as u8 == ((raw >> 8u16) & 7) as u8
        && ((raw >> 8u16) & 7) as u8 ^ ((raw >> 8u16) & 7) as u8 == 0) by (bit_vector);
    assert(((0u16 >> 8u16) & 7) as u8 == 0 && (0u16 >> 15u16) & 1 == 0 && (0u16 >> 13u16) & 1 == 0
        && (0u16 >> 4u16) & 1 == 0 && (0u16 >> 3u16) & 1 == 0 && (0u16 >> 2u16) & 1 == 0
        && (0u16 >> 1u16) & 1 == 0 && (0u16 >> 0u16) & 1 == 0) by (bit_vector);
    assert(sr.interrupt_mask & 0 == 0) by (bit_vector);
    assert(0u8 as u16 == 0u16 && (0u16 << 8u16) == 0 && (0u16 << 15u16) == 0 && (0u16 << 13u16) == 0
        && (0u16 << 4u16) == 0 && (0u16 << 3u16) == 0 && (0u16 << 2u16) == 0 && (0u16 << 1u16) == 0
        && (0u16 | 0u16) == 0) by (bit_vector);
}

/// Setting every bit of a status register whose interrupt mask fits its 3 bits gives all the
/// implemented bits, and toggling every bit gives the complement of its implemented bits.
pub proof fn lemma_full_operations(sr: StatusRegister)
    requires
        sr.interrupt_mask < 8,
    ensures
        spec_to_raw(spec_or_raw(sr, 0xFFFF)) == SR_IMPLEMENTED_BITS,
        spec_to_raw(spec_xor_raw(sr, 0xFFFF)) == !spec_to_raw(sr) & SR_IMPLEMENTED_BITS,
{
    let t = b16(sr.t);
    let s = b16(sr.s);
    let m = sr.interrupt_mask;
    let x = b16(sr.x);
    let n = b16(sr.n);
    let z = b16(sr.z);
    let v = b16(sr.v);
    let c = b16(sr.c);
    let raw = spec_to_raw(sr);
    assert(((1u32 << 3u16) - 1) as u16 == 7) by (bit_vector);
    assert(((0xFFFFu16 >> 8u16) & 7) as u8 == 7 && (0xFFFFu16 >> 15u16) & 1 == 1 && (0xFFFFu16 >> 13u16) & 1 == 1
        && (0xFFFFu16 >> 4u16) & 1 == 1 && (0xFFFFu16 >> 3u16) & 1 == 1 && (0xFFFFu16 >> 2u16) & 1 == 1
        && (0xFFFFu16 >> 1u16) & 1 == 1 && (0xFFFFu16 >> 0u16) & 1 == 1) by (bit_vector);
    assert(m | 7 == 7 && (m ^ 7) < 8) by (bit_vector) requires m < 8;
    assert(0u16 ^ 1 == 1 && 1u16 ^ 1 == 0) by (bit_vector);
    assert(
        (1u16 << 15u16) | (1u16 << 13u16) | ((7u8 as u16) << 8u16) | (1u16 << 4u16) | (1u16 << 3u16)
            | (1u16 << 2u16) | (1u16 << 1u16) | 1u16 == 0xA71F
    ) by (bit_vector);
    assert(
        ((t ^ 1) << 15u16) | ((s ^ 1) << 13u16) | (((m ^ 7) as u16) << 8u16) | ((x ^ 1) << 4u16) | ((n ^ 1) << 3u16)
            | ((z ^ 1) << 2u16) | ((v ^ 1) << 1u16) | (c ^ 1) == !raw & 0xA71F
    ) by (bit_vector)
        requires
            raw == (t << 15u16) | (s << 13u16) | ((m as u16) << 8u16) | (x << 4u16) | (n << 3u16) | (z << 2u16)
                | (v << 1u16) | c,
            t <= 1, s <= 1, x <= 1, n <= 1, z <= 1, v <= 1, c <= 1, m < 8;
}

/// The condition codes come in complementary pairs: the condition `cc ^ 1` is true exactly when
/// the condition `cc` is false.
pub proof fn lemma_condition_pairs(sr: StatusRegister, cc: u8)
    requires
        cc < 16,
    ensures
        spec_condition(sr, cc ^ 1) == !spec_condition(sr, cc),
{
    assert(cc % 2 == 0 ==> cc ^ 1 == cc + 1) by (bit_vector);
    assert(cc % 2 == 1 ==> cc ^ 1 == cc - 1) by (bit_vector);
}

} // verus!
