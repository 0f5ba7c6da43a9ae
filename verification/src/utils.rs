//! Utility functions: bit fields, alignment checks and extended arithmetic.

use vstd::prelude::*;
use vstd::arithmetic::power2::{pow2, lemma2_to64};
use crate::instruction::Size;

verus! {

/// The mask made of the `width` low bits set.
pub open spec fn low_ones(width: u16) -> u16 {
    ((1u32 << width) - 1) as u16
}

/// The value of bits `[beg, end]` (inclusive, starting at 0) of `d`.
pub open spec fn spec_bits(d: u16, beg: u16, end: u16) -> u16 {
    (d >> beg) & low_ones((end - beg + 1) as u16)
}

/// Whether bit `b` of `d` is set.
pub open spec fn spec_bit(d: u16, b: u16) -> bool {
    (d >> b) & 1 == 1
}

/// Checks if the given bit of the given data is set.
pub fn bit(data: u16, b: u16) -> (r: bool)
    requires
        b < 16,
    ensures
        r == spec_bit(data, b),
{
    let v: u16 = (data >> b) & 1;
    assert(v <= 1) by (bit_vector)
        requires
            v == (data >> b) & 1,
    ;
    v == 1
}

/// Returns bits `[beg, end]` inclusive, starting at 0.
pub fn bits(d: u16, beg: u16, end: u16) -> (r: u16)
    requires
        beg <= end < 16,
    ensures
        r == spec_bits(d, beg, end),
{
    let width: u16 = end - beg + 1;
    assert(1u32 << width >= 1 && (((1u32 << width) - 1) as u16) == low_ones(width)) by (bit_vector)
        requires
            1 <= width <= 16,
    ;
    let mask: u16 = ((1u32 << width) - 1) as u16;
    (d >> beg) & mask
}

/// Whether a 32-bits value is even.
pub open spec fn spec_is_even(x: u32) -> bool {
    x % 2 == 0
}

/// Trait to see if an integer is even or not.
pub trait IsEven: Sized {
    /// Returns whether the value is even.
    fn is_even(self) -> bool;
    /// Returns the value if it is even, an Address Error vector otherwise.
    fn even(self) -> Result<Self, u8>;
}

impl IsEven for u32 {
    fn is_even(self) -> (r: bool)
        ensures
            r == spec_is_even(self),
    {
        self % 2 == 0
    }

    fn even(self) -> (r: Result<u32, u8>)
        ensures
            spec_is_even(self) ==> r == Ok::<u32, u8>(self),
            !spec_is_even(self) ==> r == Err::<u32, u8>(crate::exception::ADDRESS_ERROR),
    {
        if self % 2 == 0 {
            Ok(self)
        } else {
            Err(crate::exception::ADDRESS_ERROR)
        }
    }
}

impl IsEven for usize {
    fn is_even(self) -> (r: bool)
        ensures
            r == (self % 2 == 0),
    {
        self % 2 == 0
    }

    fn even(self) -> (r: Result<usize, u8>)
        ensures
            self % 2 == 0 ==> r == Ok::<usize, u8>(self),
            self % 2 == 1 ==> r == Err::<usize, u8>(crate::exception::ADDRESS_ERROR),
    {
        if self % 2 == 0 {
            Ok(self)
        } else {
            Err(crate::exception::ADDRESS_ERROR)
        }
    }
}

/// The big-endian 32-bits value of the first two words of a sequence.
pub open spec fn spec_u32_be(s: Seq<u16>) -> u32 {
    (s[0] as int * 0x1_0000 + s[1] as int) as u32
}

/// The signed value of a word or byte: the low byte (Byte), the word (Word), or the first two words (Long).
pub open spec fn spec_i32_be_sized(s: Seq<u16>, size: Size) -> int {
    match size {
        Size::Byte => signed_of((s[0] % 0x100) as int, 8),
        Size::Word => signed_of(s[0] as int, 16),
        Size::Long => signed_of(spec_u32_be(s) as int, 32),
    }
}

/// Trait that converts the first elements of slices to their big-endian integer value.
pub trait SliceAs: Sized {
    /// The words of the slice.
    spec fn spec_words(&self) -> Seq<u16>;

    /// Interprets the first elements of the slice as a big-endian 32 bits integer.
    fn u32_be(self) -> (r: u32)
        requires
            self.spec_words().len() >= 2,
        ensures
            r == spec_u32_be(self.spec_words());

    /// Casts the first elements as a signed i8, i16 or i32 depending on the size, then casts it to i32 and returns it.
    fn i32_be_sized(self, size: Size) -> (r: i32)
        requires
            self.spec_words().len() >= (if size == Size::Long { 2int } else { 1 }),
        ensures
            r == spec_i32_be_sized(self.spec_words(), size);

    /// Returns the first element of the slice then advances the slice by one element.
    fn get_next_word(&mut self) -> (r: u16)
        requires
            old(self).spec_words().len() >= 1,
        ensures
            r == old(self).spec_words()[0],
            final(self).spec_words() == old(self).spec_words().subrange(1, old(self).spec_words().len() as int);
}

impl SliceAs for &[u16] {
    open spec fn spec_words(&self) -> Seq<u16> {
        self@
    }

    fn u32_be(self) -> (r: u32) {
        (self[0] as u32) * 0x1_0000 + self[1] as u32
    }

    /// Returns `self[0] as i8 as i32` for Byte size, `self[0] as i16 as i32` for Word size or `self.u32_be() as i32` for Long size.
    fn i32_be_sized(self, size: Size) -> (r: i32) {
        proof {
            lemma2_to64();
        }
        match size {
            Size::Byte => {
                let b = self[0] % 0x100;
                if b >= 0x80 { b as i32 - 0x100 } else { b as i32 }
            },
            Size::Word => {
                let w = self[0];
                if w >= 0x8000 { w as i32 - 0x1_0000 } else { w as i32 }
            },
            Size::Long => {
                let l = self.u32_be();
                if l >= 0x8000_0000 { (l as i64 - 0x1_0000_0000) as i32 } else { l as i32 }
            },
        }
    }

    fn get_next_word(&mut self) -> (r: u16) {
        let d = self[0];
        *self = vstd::slice::slice_subrange(*self, 1, self.len());
        d
    }
}

/// The signed interpretation of an unsigned value of `bits` bits.
pub open spec fn signed_of(v: int, bits: nat) -> int {
    if v >= pow2((bits - 1) as nat) { v - pow2(bits) } else { v }
}

/// Wraps a mathematical integer into the signed range of `bits` bits.
pub open spec fn wrap_signed(v: int, bits: nat) -> int {
    ((v + pow2((bits - 1) as nat)) % (pow2(bits) as int)) - pow2((bits - 1) as nat)
}

/// Whether a mathematical integer fits the signed range of `bits` bits.
pub open spec fn fits_signed(v: int, bits: nat) -> bool {
    -(pow2((bits - 1) as nat) as int) <= v < pow2((bits - 1) as nat)
}

/// Addition and subtraction with an input carry (extend) bit, returning the wrapped
/// result and whether the exact mathematical result overflowed the type.
///
/// For unsigned types the flag is the carry (or borrow) out; for signed types it is the
/// signed overflow of the whole operation, with no intermediate overflow.
pub trait BigInt: Sized {
    /// The exact value of `self`, as a mathematical integer.
    spec fn int_value(self) -> int;

    /// The number of bits of the type.
    spec fn bit_width() -> nat;

    /// Whether the type is signed.
    spec fn is_signed() -> bool;

    /// `self + rhs + carry`, wrapped, and whether it overflowed.
    fn extended_add(self, rhs: Self, carry: bool) -> (r: (Self, bool))
        ensures
            ({
                let full = self.int_value() + rhs.int_value() + (if carry { 1int } else { 0 });
                &&& Self::is_signed() ==> r.0.int_value() == wrap_signed(full, Self::bit_width())
                &&& Self::is_signed() ==> r.1 == !fits_signed(full, Self::bit_width())
                &&& !Self::is_signed() ==> r.0.int_value() == full % (pow2(Self::bit_width()) as int)
                &&& !Self::is_signed() ==> r.1 == (full >= pow2(Self::bit_width()))
            });

    /// `self - rhs - carry`, wrapped, and whether it overflowed (borrowed).
    fn extended_sub(self, rhs: Self, carry: bool) -> (r: (Self, bool))
        ensures
            ({
                let full = self.int_value() - rhs.int_value() - (if carry { 1int } else { 0 });
                &&& Self::is_signed() ==> r.0.int_value() == wrap_signed(full, Self::bit_width())
                &&& Self::is_signed() ==> r.1 == !fits_signed(full, Self::bit_width())
                &&& !Self::is_signed() ==> r.0.int_value() == full % (pow2(Self::bit_width()) as int)
                &&& !Self::is_signed() ==> r.1 == (full < 0)
            });
}

} // verus!

verus! {

impl BigInt for u8 {
    open spec fn int_value(self) -> int {
        self as int
    }

    open spec fn bit_width() -> nat {
        8
    }

    open spec fn is_signed() -> bool {
        false
    }

    fn extended_add(self, rhs: u8, carry: bool) -> (r: (u8, bool)) {
        proof {
            lemma2_to64();
        }
        let c: u16 = if carry { 1 } else { 0 };
        let full: u16 = self as u16 + rhs as u16 + c;
        ((full % 0x100) as u8, full >= 0x100)
    }

    fn extended_sub(self, rhs: u8, carry: bool) -> (r: (u8, bool)) {
        proof {
            lemma2_to64();
        }
        let c: u16 = if carry { 1 } else { 0 };
        let sub: u16 = rhs as u16 + c;
        if self as u16 >= sub {
            ((self as u16 - sub) as u8, false)
        } else {
            ((self as u16 + 0x100 - sub) as u8, true)
        }
    }
}

impl BigInt for u16 {
    open spec fn int_value(self) -> int {
        self as int
    }

    open spec fn bit_width() -> nat {
        16
    }

    open spec fn is_signed() -> bool {
        false
    }

    fn extended_add(self, rhs: u16, carry: bool) -> (r: (u16, bool)) {
        proof {
            lemma2_to64();
        }
        let c: u32 = if carry { 1 } else { 0 };
        let full: u32 = self as u32 + rhs as u32 + c;
        ((full % 0x1_0000) as u16, full >= 0x1_0000)
    }

    fn extended_sub(self, rhs: u16, carry: bool) -> (r: (u16, bool)) {
        proof {
            lemma2_to64();
        }
        let c: u32 = if carry { 1 } else { 0 };
        let sub: u32 = rhs as u32 + c;
        if self as u32 >= sub {
            ((self as u32 - sub) as u16, false)
        } else {
            ((self as u32 + 0x1_0000 - sub) as u16, true)
        }
    }
}

impl BigInt for u32 {
    open spec fn int_value(self) -> int {
        self as int
    }

    open spec fn bit_width() -> nat {
        32
    }

    open spec fn is_signed() -> bool {
        false
    }

    fn extended_add(self, rhs: u32, carry: bool) -> (r: (u32, bool)) {
        proof {
            lemma2_to64();
        }
        let c: u64 = if carry { 1 } else { 0 };
        let full: u64 = self as u64 + rhs as u64 + c;
        ((full % 0x1_0000_0000) as u32, full >= 0x1_0000_0000)
    }

    fn extended_sub(self, rhs: u32, carry: bool) -> (r: (u32, bool)) {
        proof {
            lemma2_to64();
        }
        let c: u64 = if carry { 1 } else { 0 };
        let sub: u64 = rhs as u64 + c;
        if self as u64 >= sub {
            ((self as u64 - sub) as u32, false)
        } else {
            ((self as u64 + 0x1_0000_0000 - sub) as u32, true)
        }
    }
}

impl BigInt for i8 {
    open spec fn int_value(self) -> int {
        self as int
    }

    open spec fn bit_width() -> nat {
        8
    }

    open spec fn is_signed() -> bool {
        true
    }

    fn extended_add(self, rhs: i8, carry: bool) -> (r: (i8, bool)) {
        proof {
            lemma2_to64();
        }
        let c: i16 = if carry { 1 } else { 0 };
        let full: i16 = self as i16 + rhs as i16 + c;
        let shifted: i16 = full + 0x180;
        let wrapped: i16 = shifted % 0x100 - 0x80;
        (wrapped as i8, full < -0x80 || full >= 0x80)
    }

    fn extended_sub(self, rhs: i8, carry: bool) -> (r: (i8, bool)) {
        proof {
            lemma2_to64();
        }
        let c: i16 = if carry { 1 } else { 0 };
        let full: i16 = self as i16 - rhs as i16 - c;
        let shifted: i16 = full + 0x180;
        let wrapped: i16 = shifted % 0x100 - 0x80;
        (wrapped as i8, full < -0x80 || full >= 0x80)
    }
}

impl BigInt for i16 {
    open spec fn int_value(self) -> int {
        self as int
    }

    open spec fn bit_width() -> nat {
        16
    }

    open spec fn is_signed() -> bool {
        true
    }

    fn extended_add(self, rhs: i16, carry: bool) -> (r: (i16, bool)) {
        proof {
            lemma2_to64();
        }
        let c: i32 = if carry { 1 } else { 0 };
        let full: i32 = self as i32 + rhs as i32 + c;
        let shifted: i32 = full + 0x1_8000;
        let wrapped: i32 = shifted % 0x1_0000 - 0x8000;
        (wrapped as i16, full < -0x8000 || full >= 0x8000)
    }

    fn extended_sub(self, rhs: i16, carry: bool) -> (r: (i16, bool)) {
        proof {
            lemma2_to64();
        }
        let c: i32 = if carry { 1 } else { 0 };
        let full: i32 = self as i32 - rhs as i32 - c;
        let shifted: i32 = full + 0x1_8000;
        let wrapped: i32 = shifted % 0x1_0000 - 0x8000;
        (wrapped as i16, full < -0x8000 || full >= 0x8000)
    }
}

impl BigInt for i32 {
    open spec fn int_value(self) -> int {
        self as int
    }

    open spec fn bit_width() -> nat {
        32
    }

    open spec fn is_signed() -> bool {
        true
    }

    fn extended_add(self, rhs: i32, carry: bool) -> (r: (i32, bool)) {
        proof {
            lemma2_to64();
        }
        let c: i64 = if carry { 1 } else { 0 };
        let full: i64 = self as i64 + rhs as i64 + c;
        let shifted: i64 = full + 0x1_8000_0000;
        let wrapped: i64 = shifted % 0x1_0000_0000 - 0x8000_0000;
        (wrapped as i32, full < -0x8000_0000 || full >= 0x8000_0000)
    }

    fn extended_sub(self, rhs: i32, carry: bool) -> (r: (i32, bool)) {
        proof {
            lemma2_to64();
        }
        let c: i64 = if carry { 1 } else { 0 };
        let full: i64 = self as i64 - rhs as i64 - c;
        let shifted: i64 = full + 0x1_8000_0000;
        let wrapped: i64 = shifted % 0x1_0000_0000 - 0x8000_0000;
        (wrapped as i32, full < -0x8000_0000 || full >= 0x8000_0000)
    }
}

} // verus!

verus! {

/// Bounds of the bit fields that the instruction formats use.
pub proof fn lemma_field_bounds(x: u16)
    ensures
        spec_bits(x, 0, 2) < 8,
        spec_bits(x, 3, 5) < 8,
        spec_bits(x, 6, 8) < 8,
        spec_bits(x, 9, 11) < 8,
        spec_bits(x, 6, 7) < 4,
        spec_bits(x, 12, 13) < 4,
        spec_bits(x, 8, 11) < 16,
        spec_bits(x, 0, 3) < 16,
        spec_bits(x, 8, 10) < 8,
        spec_bits(x, 3, 7) < 32,
        spec_bits(x, 5, 5) < 2,
        spec_bits(x, 6, 6) < 2,
        spec_bits(x, 8, 8) < 2,
        spec_bits(x, 3, 3) < 2,
        spec_bits(x, 7, 7) < 2,
        spec_bits(x, 10, 10) < 2,
{
    assert(
        spec_bits(x, 0, 2) < 8 && spec_bits(x, 3, 5) < 8 && spec_bits(x, 6, 8) < 8
        && spec_bits(x, 9, 11) < 8 && spec_bits(x, 6, 7) < 4 && spec_bits(x, 12, 13) < 4
        && spec_bits(x, 8, 11) < 16 && spec_bits(x, 0, 3) < 16 && spec_bits(x, 8, 10) < 8
        && spec_bits(x, 3, 7) < 32 && spec_bits(x, 5, 5) < 2 && spec_bits(x, 6, 6) < 2
        && spec_bits(x, 8, 8) < 2 && spec_bits(x, 3, 3) < 2 && spec_bits(x, 7, 7) < 2
        && spec_bits(x, 10, 10) < 2
    ) by (bit_vector);
}


/// Integer types with a zero and the mask of their sign bit.
pub trait Integer: Copy {
    const ZERO: Self;
    const SIGN_BIT_MASK: Self;
}

impl Integer for i8 {
    const ZERO: Self = 0;
    const SIGN_BIT_MASK: Self = -0x80;
}

impl Integer for u8 {
    const ZERO: Self = 0;
    const SIGN_BIT_MASK: Self = 0x80;
}

impl Integer for i16 {
    const ZERO: Self = 0;
    const SIGN_BIT_MASK: Self = -0x8000;
}

impl Integer for u16 {
    const ZERO: Self = 0;
    const SIGN_BIT_MASK: Self = 0x8000;
}

impl Integer for i32 {
    const ZERO: Self = 0;
    const SIGN_BIT_MASK: Self = -0x8000_0000;
}

impl Integer for u32 {
    const ZERO: Self = 0;
    const SIGN_BIT_MASK: Self = 0x8000_0000;
}

/// Additions and subtractions with an input carry of unsigned values, whose results are interpreted
/// as signed (`S`) or unsigned (`U`) values of the same width. The flag of a signed result is its
/// overflow, that of an unsigned result its carry (or borrow).
pub trait CarryingOps<S, U>: Sized + Integer {
    fn signed_carrying_add(self, rhs: Self, carry: bool) -> (S, bool);
    fn unsigned_carrying_add(self, rhs: Self, carry: bool) -> (U, bool);
    fn signed_borrowing_sub(self, rhs: Self, carry: bool) -> (S, bool);
    fn unsigned_borrowing_sub(self, rhs: Self, carry: bool) -> (U, bool);
}

/// 1 for a set carry, 0 otherwise.
pub open spec fn spec_carry(carry: bool) -> int {
    if carry { 1 } else { 0 }
}

/// The signed value of the bits of an unsigned `u8`.
fn signed_u8(v: u8) -> (r: i8)
    ensures
        r as int == signed_of(v as int, 8),
{
    proof {
        lemma2_to64();
    }
    if v >= 0x80 { (v as i16 - 0x100) as i8 } else { v as i8 }
}

impl CarryingOps<i8, u8> for u8 {
    fn signed_carrying_add(self, rhs: u8, carry: bool) -> (r: (i8, bool))
        ensures
            r.0 as int == wrap_signed(signed_of(self as int, 8) + signed_of(rhs as int, 8) + spec_carry(carry), 8),
            r.1 == !fits_signed(signed_of(self as int, 8) + signed_of(rhs as int, 8) + spec_carry(carry), 8),
    {
        signed_u8(self).extended_add(signed_u8(rhs), carry)
    }

    fn unsigned_carrying_add(self, rhs: u8, carry: bool) -> (r: (u8, bool))
        ensures
            r.0 as int == (self + rhs + spec_carry(carry)) % 0x100,
            r.1 == (self + rhs + spec_carry(carry) >= 0x100),
    {
        proof {
            lemma2_to64();
        }
        self.extended_add(rhs, carry)
    }

    fn signed_borrowing_sub(self, rhs: u8, carry: bool) -> (r: (i8, bool))
        ensures
            r.0 as int == wrap_signed(signed_of(self as int, 8) - signed_of(rhs as int, 8) - spec_carry(carry), 8),
            r.1 == !fits_signed(signed_of(self as int, 8) - signed_of(rhs as int, 8) - spec_carry(carry), 8),
    {
        signed_u8(self).extended_sub(signed_u8(rhs), carry)
    }

    fn unsigned_borrowing_sub(self, rhs: u8, carry: bool) -> (r: (u8, bool))
        ensures
            r.0 as int == (self - rhs - spec_carry(carry)) % 0x100,
            r.1 == (self - rhs - spec_carry(carry) < 0),
    {
        proof {
            lemma2_to64();
        }
        self.extended_sub(rhs, carry)
    }
}

/// The signed value of the bits of an unsigned `u16`.
fn signed_u16(v: u16) -> (r: i16)
    ensures
        r as int == signed_of(v as int, 16),
{
    proof {
        lemma2_to64();
    }
    if v >= 0x8000 { (v as i32 - 0x1_0000) as i16 } else { v as i16 }
}

impl CarryingOps<i16, u16> for u16 {
    fn signed_carrying_add(self, rhs: u16, carry: bool) -> (r: (i16, bool))
        ensures
            r.0 as int == wrap_signed(signed_of(self as int, 16) + signed_of(rhs as int, 16) + spec_carry(carry), 16),
            r.1 == !fits_signed(signed_of(self as int, 16) + signed_of(rhs as int, 16) + spec_carry(carry), 16),
    {
        signed_u16(self).extended_add(signed_u16(rhs), carry)
    }

    fn unsigned_carrying_add(self, rhs: u16, carry: bool) -> (r: (u16, bool))
        ensures
            r.0 as int == (self + rhs + spec_carry(carry)) % 0x1_0000,
            r.1 == (self + rhs + spec_carry(carry) >= 0x1_0000),
    {
        proof {
            lemma2_to64();
        }
        self.extended_add(rhs, carry)
    }

    fn signed_borrowing_sub(self, rhs: u16, carry: bool) -> (r: (i16, bool))
        ensures
            r.0 as int == wrap_signed(signed_of(self as int, 16) - signed_of(rhs as int, 16) - spec_carry(carry), 16),
            r.1 == !fits_signed(signed_of(self as int, 16) - signed_of(rhs as int, 16) - spec_carry(carry), 16),
    {
        signed_u16(self).extended_sub(signed_u16(rhs), carry)
    }

    fn unsigned_borrowing_sub(self, rhs: u16, carry: bool) -> (r: (u16, bool))
        ensures
            r.0 as int == (self - rhs - spec_carry(carry)) % 0x1_0000,
            r.1 == (self - rhs - spec_carry(carry) < 0),
    {
        proof {
            lemma2_to64();
        }
        self.extended_sub(rhs, carry)
    }
}

/// The signed value of the bits of an unsigned `u32`.
fn signed_u32(v: u32) -> (r: i32)
    ensures
        r as int == signed_of(v as int, 32),
{
    proof {
        lemma2_to64();
    }
    if v >= 0x8000_0000 { (v as i64 - 0x1_0000_0000) as i32 } else { v as i32 }
}

impl CarryingOps<i32, u32> for u32 {
    fn signed_carrying_add(self, rhs: u32, carry: bool) -> (r: (i32, bool))
        ensures
            r.0 as int == wrap_signed(signed_of(self as int, 32) + signed_of(rhs as int, 32) + spec_carry(carry), 32),
            r.1 == !fits_signed(signed_of(self as int, 32) + signed_of(rhs as int, 32) + spec_carry(carry), 32),
    {
        signed_u32(self).extended_add(signed_u32(rhs), carry)
    }

    fn unsigned_carrying_add(self, rhs: u32, carry: bool) -> (r: (u32, bool))
        ensures
            r.0 as int == (self + rhs + spec_carry(carry)) % 0x1_0000_0000,
            r.1 == (self + rhs + spec_carry(carry) >= 0x1_0000_0000),
    {
        proof {
            lemma2_to64();
        }
        self.extended_add(rhs, carry)
    }

    fn signed_borrowing_sub(self, rhs: u32, carry: bool) -> (r: (i32, bool))
        ensures
            r.0 as int == wrap_signed(signed_of(self as int, 32) - signed_of(rhs as int, 32) - spec_carry(carry), 32),
            r.1 == !fits_signed(signed_of(self as int, 32) - signed_of(rhs as int, 32) - spec_carry(carry), 32),
    {
        signed_u32(self).extended_sub(signed_u32(rhs), carry)
    }

    fn unsigned_borrowing_sub(self, rhs: u32, carry: bool) -> (r: (u32, bool))
        ensures
            r.0 as int == (self - rhs - spec_carry(carry)) % 0x1_0000_0000,
            r.1 == (self - rhs - spec_carry(carry) < 0),
    {
        proof {
            lemma2_to64();
        }
        self.extended_sub(rhs, carry)
    }
}

} // verus!
