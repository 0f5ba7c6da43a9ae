//! The arithmetic and logic of the integer instructions, on values of a given [Size], and the
//! condition codes they produce.
//!
//! A value of size `s` is held in a `u32` below [spec_modulus]`(s)`.

use vstd::prelude::*;
use crate::instruction::Size;
use crate::status_register::{StatusRegister, spec_condition};

verus! {

/// 2 to the power of the number of bits of a size.
pub open spec fn spec_modulus(size: Size) -> int {
    match size {
        Size::Byte => 0x100,
        Size::Word => 0x1_0000,
        Size::Long => 0x1_0000_0000,
    }
}

/// The value of the sign bit of a size.
pub open spec fn spec_half(size: Size) -> int {
    spec_modulus(size) / 2
}

/// Whether `v` is a value of the given size.
pub open spec fn spec_fits(v: u32, size: Size) -> bool {
    (v as int) < spec_modulus(size)
}

/// The low part of `v` that the size holds.
pub open spec fn spec_wrap(v: int, size: Size) -> u32 {
    (v % spec_modulus(size)) as u32
}

/// The low part of a 32-bits value that the size holds.
pub open spec fn spec_low(v: u32, size: Size) -> u32 {
    spec_wrap(v as int, size)
}

/// Whether the sign (most significant) bit of the low part of `v` is set.
pub open spec fn spec_msb(v: int, size: Size) -> bool {
    v % spec_modulus(size) >= spec_half(size)
}

/// The signed value of the low part of `v`.
pub open spec fn spec_signed(v: int, size: Size) -> int {
    let u = v % spec_modulus(size);
    if u >= spec_half(size) { u - spec_modulus(size) } else { u }
}

/// Whether a signed value is outside the range of the size.
pub open spec fn spec_overflows(v: int, size: Size) -> bool {
    v < -spec_half(size) || v >= spec_half(size)
}

/// `old` with its low part (of the given size) replaced by `value`.
pub open spec fn spec_merge(old: u32, value: u32, size: Size) -> u32 {
    ((old as int / spec_modulus(size)) * spec_modulus(size) + value as int) as u32
}

/// The low part of a value merged into a register is that value, and the rest of the register is
/// kept.
pub proof fn lemma_low_of_merge(old: u32, value: u32, size: Size)
    requires
        spec_fits(value, size),
    ensures
        spec_low(spec_merge(old, value, size), size) == value,
        spec_merge(old, value, size) as int / spec_modulus(size) == old as int / spec_modulus(size),
{
    let m = spec_modulus(size);
    let q = old as int / m;
    vstd::arithmetic::div_mod::lemma_fundamental_div_mod(old as int, m);
    let x = q * m + value;
    assert(0 <= x < 0x1_0000_0000) by {
        if size == Size::Byte {
            assert(m == 0x100);
        } else if size == Size::Word {
            assert(m == 0x1_0000);
        } else {
            assert(m == 0x1_0000_0000);
        }
    }
    assert(spec_merge(old, value, size) as int == x);
    assert(x % m == value && x / m == q) by {
        vstd::arithmetic::div_mod::lemma_fundamental_div_mod_converse(x, m, q, value as int);
    }
}

/// 1 if the extend bit takes part in the operation, 0 otherwise.
pub open spec fn spec_x_in(sr: StatusRegister, extend: bool) -> int {
    if extend && sr.x { 1 } else { 0 }
}

/// The result of ADD, ADDI, ADDQ and ADDX: `dst + src (+ X)`.
pub open spec fn spec_add_result(sr: StatusRegister, dst: u32, src: u32, size: Size, extend: bool) -> u32 {
    spec_wrap(dst + src + spec_x_in(sr, extend), size)
}

/// The status register after ADD, ADDI, ADDQ and ADDX. With `extend` (ADDX), X takes part
/// in the sum and Z is only cleared.
pub open spec fn spec_add_sr(sr: StatusRegister, dst: u32, src: u32, size: Size, extend: bool) -> StatusRegister {
    let full = dst + src + spec_x_in(sr, extend);
    let res = spec_wrap(full, size);
    let carry = full >= spec_modulus(size);
    StatusRegister {
        x: carry,
        n: spec_msb(res as int, size),
        z: if extend { sr.z && res == 0 } else { res == 0 },
        v: spec_overflows(spec_signed(dst as int, size) + spec_signed(src as int, size) + spec_x_in(sr, extend), size),
        c: carry,
        ..sr
    }
}

/// The result of SUB, SUBI, SUBQ, SUBX, CMP and NEG: `dst - src (- X)`.
pub open spec fn spec_sub_result(sr: StatusRegister, dst: u32, src: u32, size: Size, extend: bool) -> u32 {
    spec_wrap(dst - src - spec_x_in(sr, extend), size)
}

/// After comparing two values of a size (CMP, CMPA, CMPI, CMPM, and SUB alike), each condition
/// tests what its name says of the destination against the source: EQ and NE equality, HI, LS, CC
/// (HS) and CS (LO) the unsigned order, GT, LE, GE and LT the signed order.
#[verifier::rlimit(60)]
#[verifier::spinoff_prover]
pub proof fn lemma_compare_conditions(sr: StatusRegister, dst: u32, src: u32, size: Size)
    requires
        spec_fits(dst, size),
        spec_fits(src, size),
    ensures
        ({
            let f = spec_sub_sr(sr, dst, src, size, false, true);
            let (sd, ss) = (spec_signed(dst as int, size), spec_signed(src as int, size));
            &&& spec_condition(f, 7) == (dst == src)
            &&& spec_condition(f, 6) == (dst != src)
            &&& spec_condition(f, 2) == (dst > src)
            &&& spec_condition(f, 3) == (dst <= src)
            &&& spec_condition(f, 4) == (dst >= src)
            &&& spec_condition(f, 5) == (dst < src)
            &&& spec_condition(f, 12) == (sd >= ss)
            &&& spec_condition(f, 13) == (sd < ss)
            &&& spec_condition(f, 14) == (sd > ss)
            &&& spec_condition(f, 15) == (sd <= ss)
            &&& f.x == sr.x
        }),
{
    let m = spec_modulus(size);
    let h = spec_half(size);
    assert(m == 2 * h && h >= 0x80);
    let f = spec_sub_sr(sr, dst, src, size, false, true);
    let res = spec_wrap(dst - src, size);
    let diff: int = dst - src;
    if dst >= src {
        assert(res == diff) by { vstd::arithmetic::div_mod::lemma_small_mod(diff as nat, m as nat); }
    } else {
        assert(res == diff + m) by {
            vstd::arithmetic::div_mod::lemma_fundamental_div_mod_converse(diff, m, -1, diff + m);
        }
    }
    let sd = spec_signed(dst as int, size);
    let ss = spec_signed(src as int, size);
    assert(sd == (if dst >= h { dst - m } else { dst as int })) by { vstd::arithmetic::div_mod::lemma_small_mod(dst as nat, m as nat); }
    assert(ss == (if src >= h { src - m } else { src as int })) by { vstd::arithmetic::div_mod::lemma_small_mod(src as nat, m as nat); }
    assert(f.n == (res >= h)) by { vstd::arithmetic::div_mod::lemma_small_mod(res as nat, m as nat); }
    assert(f.z == (dst == src));
    assert(f.c == (dst < src));
    assert(f.v == (sd - ss < -h || sd - ss >= h));
}

/// The status register after SUB, SUBI, SUBQ, SUBX (`extend`) and CMP (`compare`, which leaves X).
pub open spec fn spec_sub_sr(sr: StatusRegister, dst: u32, src: u32, size: Size, extend: bool, compare: bool) -> StatusRegister {
    let full = dst - src - spec_x_in(sr, extend);
    let res = spec_wrap(full, size);
    let borrow = full < 0;
    StatusRegister {
        x: if compare { sr.x } else { borrow },
        n: spec_msb(res as int, size),
        z: if extend { sr.z && res == 0 } else { res == 0 },
        v: spec_overflows(spec_signed(dst as int, size) - spec_signed(src as int, size) - spec_x_in(sr, extend), size),
        c: borrow,
        ..sr
    }
}

/// The status register after a logical operation or a move of `res`: N and Z from the result,
/// V and C cleared, X unchanged.
pub open spec fn spec_logic_sr(sr: StatusRegister, res: u32, size: Size) -> StatusRegister {
    StatusRegister {
        n: spec_msb(res as int, size),
        z: res as int % spec_modulus(size) == 0,
        v: false,
        c: false,
        ..sr
    }
}

/// The modulus of a size, as an executable value.
pub fn modulus(size: Size) -> (r: u64)
    ensures
        r == spec_modulus(size),
{
    match size {
        Size::Byte => 0x100,
        Size::Word => 0x1_0000,
        Size::Long => 0x1_0000_0000,
    }
}

/// Returns the low part of `v` that the size holds.
pub fn low(v: u32, size: Size) -> (r: u32)
    ensures
        r == spec_wrap(v as int, size),
        r == spec_low(v, size),
        spec_fits(r, size),
{
    ((v as u64) % modulus(size)) as u32
}

/// Returns whether the sign bit of `v` is set.
pub fn msb(v: u32, size: Size) -> (r: bool)
    ensures
        r == spec_msb(v as int, size),
{
    let m = modulus(size);
    (v as u64) % m >= m / 2
}

/// Returns the signed value of `v`.
pub fn signed(v: u32, size: Size) -> (r: i64)
    ensures
        r == spec_signed(v as int, size),
{
    let m = modulus(size);
    let u = (v as u64) % m;
    if u >= m / 2 { u as i64 - m as i64 } else { u as i64 }
}

/// The sign extension to 32 bits of a value of the given size.
pub open spec fn spec_sign_extend(v: u32, size: Size) -> u32 {
    spec_wrap(spec_signed(v as int, size), Size::Long)
}

/// Returns the sign extension to 32 bits of a value of the given size.
pub fn sign_extend(v: u32, size: Size) -> (r: u32)
    ensures
        r == spec_sign_extend(v, size),
{
    let sv = signed(v, size);
    let r = if sv < 0 { (sv + 0x1_0000_0000) as u32 } else { sv as u32 };
    proof {
        if sv < 0 {
            vstd::arithmetic::div_mod::lemma_fundamental_div_mod_converse(sv as int, 0x1_0000_0000, -1, r as int);
        } else {
            vstd::arithmetic::div_mod::lemma_fundamental_div_mod_converse(sv as int, 0x1_0000_0000, 0, r as int);
        }
    }
    r
}

/// Adds a signed displacement to an address, wrapping around the 32-bits address space.
pub fn add_displacement(a: u32, v: i64) -> (r: u32)
    requires
        -0x1_0000_0000 <= v <= 0x1_0000_0000,
    ensures
        r == spec_wrap(a + v, Size::Long),
{
    proof {
        vstd::arithmetic::div_mod::lemma_mod_multiples_vanish(1, a + v, 0x1_0000_0000);
    }
    ((a as i64 + v + 0x1_0000_0000) as u64 % 0x1_0000_0000) as u32
}

/// `a + b`, wrapped to 32 bits.
pub fn wrapping_add32(a: u32, b: u32) -> (r: u32)
    ensures
        r == spec_wrap(a + b, Size::Long),
{
    ((a as u64 + b as u64) % 0x1_0000_0000) as u32
}

/// `a - b`, wrapped to 32 bits.
pub fn wrapping_sub32(a: u32, b: u32) -> (r: u32)
    ensures
        r == spec_wrap(a - b, Size::Long),
{
    let r = ((a as u64 + 0x1_0000_0000 - b as u64) % 0x1_0000_0000) as u32;
    proof {
        vstd::arithmetic::div_mod::lemma_mod_multiples_vanish(1, a - b, 0x1_0000_0000);
    }
    r
}

/// Returns `old` with its low part replaced by `value`.
pub fn merge(old: u32, value: u32, size: Size) -> (r: u32)
    requires
        spec_fits(value, size),
    ensures
        r == spec_merge(old, value, size),
{
    let m = modulus(size);
    proof {
        assert((old as int / m as int) * (m as int) <= old as int) by (nonlinear_arith)
            requires
                m > 0,
        ;
        assert((old as int / m as int) * (m as int) + (m as int) <= 0x1_0000_0000) by (nonlinear_arith)
            requires
                m == 0x100 || m == 0x1_0000 || m == 0x1_0000_0000,
                old < 0x1_0000_0000,
        ;
    }
    (((old as u64) / m) * m + value as u64) as u32
}

/// Returns `dst + src (+ X)` and the status register after it.
pub fn add_values(sr: StatusRegister, dst: u32, src: u32, size: Size, extend: bool) -> (r: (u32, StatusRegister))
    requires
        spec_fits(dst, size),
        spec_fits(src, size),
    ensures
        r.0 == spec_add_result(sr, dst, src, size, extend),
        r.1 == spec_add_sr(sr, dst, src, size, extend),
        spec_fits(r.0, size),
{
    let m = modulus(size);
    let xin: u64 = if extend && sr.x { 1 } else { 0 };
    let full: u64 = dst as u64 + src as u64 + xin;
    let res = (full % m) as u32;
    let carry = full >= m;
    let sfull: i64 = signed(dst, size) + signed(src, size) + xin as i64;
    let half = (m / 2) as i64;
    let v = sfull < -half || sfull >= half;
    let n = msb(res, size);
    let z = if extend { sr.z && res == 0 } else { res == 0 };
    (res, StatusRegister { x: carry, n, z, v, c: carry, ..sr })
}

/// A difference of two values below `m` wraps to itself, or to itself plus `m` when negative.
proof fn lemma_wrap_borrow(full: int, res: int, m: int)
    requires
        m > 0,
        -m <= full < m,
        0 <= res < m,
        full < 0 ==> res == full + m,
        full >= 0 ==> res == full,
    ensures
        full % m == res,
{
    if full < 0 {
        vstd::arithmetic::div_mod::lemma_fundamental_div_mod_converse(full, m, -1, res);
    } else {
        vstd::arithmetic::div_mod::lemma_fundamental_div_mod_converse(full, m, 0, res);
    }
}

/// Returns `dst - src (- X)` and the status register after it.
#[verifier::rlimit(30)]
#[verifier::spinoff_prover]
pub fn sub_values(sr: StatusRegister, dst: u32, src: u32, size: Size, extend: bool, compare: bool) -> (r: (u32, StatusRegister))
    requires
        spec_fits(dst, size),
        spec_fits(src, size),
    ensures
        r.0 == spec_sub_result(sr, dst, src, size, extend),
        r.1 == spec_sub_sr(sr, dst, src, size, extend, compare),
        spec_fits(r.0, size),
{
    let m = modulus(size);
    let xin: u64 = if extend && sr.x { 1 } else { 0 };
    let sub: u64 = src as u64 + xin;
    let borrow = (dst as u64) < sub;
    let res = if borrow { (dst as u64 + m - sub) as u32 } else { (dst as u64 - sub) as u32 };
    proof {
        lemma_wrap_borrow(dst - src - spec_x_in(sr, extend), res as int, spec_modulus(size));
    }
    let sfull: i64 = signed(dst, size) - signed(src, size) - xin as i64;
    let half = (m / 2) as i64;
    let v = sfull < -half || sfull >= half;
    let n = msb(res, size);
    let z = if extend { sr.z && res == 0 } else { res == 0 };
    let x = if compare { sr.x } else { borrow };
    (res, StatusRegister { x, n, z, v, c: borrow, ..sr })
}

/// Returns the status register after a logical operation or a move of `res`.
pub fn logic_sr(sr: StatusRegister, res: u32, size: Size) -> (r: StatusRegister)
    ensures
        r == spec_logic_sr(sr, res, size),
{
    let n = msb(res, size);
    let z = (res as u64) % modulus(size) == 0;
    StatusRegister { n, z, v: false, c: false, ..sr }
}


/// The four families of shift and rotate instructions.
#[derive(Clone, Copy, Debug, PartialEq, Eq, Structural)]
pub enum ShiftKind {
    /// ASL, ASR.
    Arithmetic,
    /// LSL, LSR.
    Logical,
    /// ROL, ROR.
    Rotate,
    /// ROXL, ROXR.
    RotateExtend,
}

/// The state of a shift or rotate: the data, X, C and V.
pub type ShiftState = (int, bool, bool, bool);

/// One step of a shift or rotate, by one bit, of `st`.
pub open spec fn spec_shift_step(kind: ShiftKind, left: bool, size: Size, st: ShiftState) -> ShiftState {
    let (data, x, c, v) = st;
    let m = spec_modulus(size);
    let half = spec_half(size);
    if left {
        let sign = data >= half;
        let shifted = (data * 2) % m;
        match kind {
            ShiftKind::Arithmetic => (shifted, sign, sign, v || (sign != (shifted >= half))),
            ShiftKind::Logical => (shifted, sign, sign, v),
            ShiftKind::Rotate => (shifted + (if sign { 1int } else { 0 }), x, sign, v),
            ShiftKind::RotateExtend => (shifted + (if x { 1int } else { 0 }), sign, sign, v),
        }
    } else {
        let bit = data % 2 == 1;
        let shifted = data / 2;
        match kind {
            ShiftKind::Arithmetic => (shifted + (if data >= half { half } else { 0 }), bit, bit, v),
            ShiftKind::Logical => (shifted, bit, bit, v),
            ShiftKind::Rotate => (shifted + (if bit { half } else { 0 }), x, bit, v),
            ShiftKind::RotateExtend => (shifted + (if x { half } else { 0 }), bit, bit, v),
        }
    }
}

/// `count` steps of a shift or rotate from `st`.
pub open spec fn spec_shift_steps(kind: ShiftKind, left: bool, size: Size, st: ShiftState, count: nat) -> ShiftState
    decreases count,
{
    if count == 0 {
        st
    } else {
        spec_shift_step(kind, left, size, spec_shift_steps(kind, left, size, st, (count - 1) as nat))
    }
}

/// The state before the first step: V and C cleared, except C copied from X by ROXL and ROXR.
pub open spec fn spec_shift_start(kind: ShiftKind, data: u32, size: Size, sr: StatusRegister) -> ShiftState {
    (data as int % spec_modulus(size), sr.x, kind == ShiftKind::RotateExtend && sr.x, false)
}

/// The result of shifting or rotating `data` by `count` bits.
pub open spec fn spec_shift_result(kind: ShiftKind, left: bool, size: Size, sr: StatusRegister, data: u32, count: nat) -> u32 {
    spec_shift_steps(kind, left, size, spec_shift_start(kind, data, size, sr), count).0 as u32
}

/// The status register after shifting or rotating `data` by `count` bits.
pub open spec fn spec_shift_sr(kind: ShiftKind, left: bool, size: Size, sr: StatusRegister, data: u32, count: nat) -> StatusRegister {
    let (res, x, c, v) = spec_shift_steps(kind, left, size, spec_shift_start(kind, data, size, sr), count);
    StatusRegister { x, n: res >= spec_half(size), z: res == 0, v, c, ..sr }
}

/// Logical shifts, and arithmetic shifts to the left, by `count` bits in closed form: to the left
/// the data times 2 to the `count`, modulo the size; to the right (logical) the data divided by 2
/// to the `count`.
pub proof fn lemma_shift_closed_form(kind: ShiftKind, left: bool, size: Size, st: ShiftState, count: nat)
    requires
        kind == ShiftKind::Logical || (kind == ShiftKind::Arithmetic && left),
        0 <= st.0 < spec_modulus(size),
    ensures
        left ==> spec_shift_steps(kind, left, size, st, count).0 == (st.0 * vstd::arithmetic::power2::pow2(count)) % spec_modulus(size),
        !left ==> spec_shift_steps(kind, left, size, st, count).0 == st.0 / vstd::arithmetic::power2::pow2(count) as int,
    decreases count,
{
    let m = spec_modulus(size);
    vstd::arithmetic::power2::lemma_pow2_pos(count);
    if count == 0 {
        vstd::arithmetic::power2::lemma2_to64();
        vstd::arithmetic::div_mod::lemma_small_mod(st.0 as nat, m as nat);
    } else {
        let n = (count - 1) as nat;
        lemma_shift_closed_form(kind, left, size, st, n);
        lemma_shift_steps_fit(kind, left, size, st, n);
        vstd::arithmetic::power2::lemma_pow2_unfold(count);
        vstd::arithmetic::power2::lemma_pow2_pos(n);
        let p = vstd::arithmetic::power2::pow2(n) as int;
        if left {
            vstd::arithmetic::div_mod::lemma_mul_mod_noop_left(st.0 * p, 2, m);
            assert(st.0 * p * 2 == st.0 * (2 * p)) by (nonlinear_arith);
        } else {
            vstd::arithmetic::div_mod::lemma_div_denominator(st.0, p, 2);
            assert(p * 2 == 2 * p);
        }
    }
}

/// Each step keeps the data a value of the size.
pub proof fn lemma_shift_steps_fit(kind: ShiftKind, left: bool, size: Size, st: ShiftState, count: nat)
    requires
        0 <= st.0 < spec_modulus(size),
    ensures
        0 <= spec_shift_steps(kind, left, size, st, count).0 < spec_modulus(size),
    decreases count,
{
    if count > 0 {
        lemma_shift_steps_fit(kind, left, size, st, (count - 1) as nat);
    }
}

/// Shifts or rotates `data` by `count` bits, returning the result and the status register.
pub fn shift(kind: ShiftKind, left: bool, size: Size, sr: StatusRegister, data: u32, count: u8) -> (r: (u32, StatusRegister))
    ensures
        r.0 == spec_shift_result(kind, left, size, sr, data, count as nat),
        r.1 == spec_shift_sr(kind, left, size, sr, data, count as nat),
        spec_fits(r.0, size),
{
    let m = modulus(size);
    let half = m / 2;
    let mut d: u64 = (data as u64) % m;
    let mut x = sr.x;
    let mut c = kind == ShiftKind::RotateExtend && sr.x;
    let mut v = false;
    let ghost start = spec_shift_start(kind, data, size, sr);
    let mut i: u8 = 0;
    while i < count
        invariant
            m == spec_modulus(size),
            half == spec_half(size),
            i <= count,
            d < m,
            (d as int, x, c, v) == spec_shift_steps(kind, left, size, start, i as nat),
        decreases count - i,
    {
        if left {
            let sign = d >= half;
            let shifted = (d * 2) % m;
            match kind {
                ShiftKind::Arithmetic => {
                    v = v || (sign != (shifted >= half));
                    x = sign;
                    c = sign;
                    d = shifted;
                },
                ShiftKind::Logical => {
                    x = sign;
                    c = sign;
                    d = shifted;
                },
                ShiftKind::Rotate => {
                    c = sign;
                    d = shifted + if sign { 1 } else { 0 };
                },
                ShiftKind::RotateExtend => {
                    d = shifted + if x { 1 } else { 0 };
                    x = sign;
                    c = sign;
                },
            }
        } else {
            let bit = d % 2 == 1;
            let shifted = d / 2;
            match kind {
                ShiftKind::Arithmetic => {
                    d = shifted + if d >= half { half } else { 0 };
                    x = bit;
                    c = bit;
                },
                ShiftKind::Logical => {
                    d = shifted;
                    x = bit;
                    c = bit;
                },
                ShiftKind::Rotate => {
                    d = shifted + if bit { half } else { 0 };
                    c = bit;
                },
                ShiftKind::RotateExtend => {
                    d = shifted + if x { half } else { 0 };
                    x = bit;
                    c = bit;
                },
            }
        }
        i = i + 1;
    }
    let res = d as u32;
    (res, StatusRegister { x, n: d >= half, z: d == 0, v, c, ..sr })
}


/// The BCD sum of ABCD: `(src + X) + dst`, computed on 16 bits, before truncation to a byte.
pub open spec fn spec_abcd_full(sr: StatusRegister, src: u8, dst: u8) -> int {
    let s = src + (if sr.x { 1int } else { 0 });
    let low = (s % 0x10) + (dst % 0x10);
    let low = if low >= 0x0A { low + 0x06 } else { low };
    let res = low + (s - s % 0x10) % 0x100 + (dst - dst % 0x10);
    if res >= 0xA0 { res + 0x60 } else { res }
}

/// The status register after ABCD. Z is only cleared, when the result byte is not 0.
pub open spec fn spec_abcd_sr(sr: StatusRegister, src: u8, dst: u8) -> StatusRegister {
    let s = src + (if sr.x { 1int } else { 0 });
    let res = spec_abcd_full(sr, src, dst);
    let limit = (0x79 - dst) % 0x1_0000;
    StatusRegister {
        x: res >= 0x100,
        n: (res / 0x80) % 2 == 1,
        z: sr.z && res % 0x100 == 0,
        v: s > limit && s + dst < 0x80,
        c: res >= 0x100,
        ..sr
    }
}

/// Adds two BCD bytes and the extend bit, returning the result byte and the status register.
pub fn abcd(sr: StatusRegister, src: u8, dst: u8) -> (r: (u8, StatusRegister))
    ensures
        r.0 == spec_abcd_full(sr, src, dst) % 0x100,
        r.1 == spec_abcd_sr(sr, src, dst),
{
    let s: u16 = src as u16 + if sr.x { 1 } else { 0 };
    let d: u16 = dst as u16;
    let bin_res: u16 = s + d;
    let mut res: u16 = (s % 0x10) + (d % 0x10);
    if res >= 0x0A {
        res = res + 0x06;
    }
    res = res + (s - s % 0x10) % 0x100 + (d - d % 0x10);
    if res >= 0xA0 {
        res = res + 0x60;
    }
    let limit: u16 = if d <= 0x79 { 0x79 - d } else { (0x1_0079u32 - d as u32) as u16 };
    let n = (res / 0x80) % 2 == 1;
    let z = sr.z && res % 0x100 == 0;
    let v = s > limit && bin_res < 0x80;
    let c = res >= 0x100;
    ((res % 0x100) as u8, StatusRegister { x: c, n, z, v, c, ..sr })
}

/// A byte of two BCD digits.
pub open spec fn spec_is_bcd(b: u8) -> bool {
    b / 0x10 <= 9 && b % 0x10 <= 9
}

/// The decimal value of a BCD byte: its high digit the tens, its low digit the units.
pub open spec fn spec_bcd_value(b: u8) -> int {
    (b / 0x10) * 10 + b % 0x10
}

/// The BCD byte of a number below 100.
pub open spec fn spec_to_bcd(v: int) -> int {
    (v / 10) * 0x10 + v % 10
}

/// On BCD bytes, ABCD gives the BCD byte of the decimal sum of the source, the destination and X,
/// modulo 100, and sets the carry and X exactly when that sum reaches 100.
#[verifier::rlimit(60)]
#[verifier::spinoff_prover]
pub proof fn lemma_abcd_is_decimal_addition(sr: StatusRegister, src: u8, dst: u8)
    requires
        spec_is_bcd(src),
        spec_is_bcd(dst),
    ensures
        spec_abcd_full(sr, src, dst) % 0x100
            == spec_to_bcd((spec_bcd_value(src) + spec_bcd_value(dst) + (if sr.x { 1int } else { 0 })) % 100),
        spec_abcd_sr(sr, src, dst).c == (spec_bcd_value(src) + spec_bcd_value(dst) + (if sr.x { 1int } else { 0 }) >= 100),
        spec_abcd_sr(sr, src, dst).x == spec_abcd_sr(sr, src, dst).c,
        spec_abcd_sr(sr, src, dst).z == (sr.z && spec_abcd_full(sr, src, dst) % 0x100 == 0),
        spec_abcd_sr(sr, src, dst).n == (spec_abcd_full(sr, src, dst) % 0x100 >= 0x80),
{
    let full = spec_abcd_full(sr, src, dst);
    assert(full >= 0);
    assert((full / 0x80) % 2 == 1 <==> full % 0x100 >= 0x80) by {
        let q = full / 0x100;
        let b = full % 0x100;
        vstd::arithmetic::div_mod::lemma_fundamental_div_mod(full, 0x100);
        assert(full / 0x80 == 2 * q + b / 0x80) by {
            vstd::arithmetic::div_mod::lemma_fundamental_div_mod_converse(full, 0x80, 2 * q + b / 0x80, b % 0x80);
        }
    }
    let x: int = if sr.x { 1 } else { 0 };
    let (a, b, c, d) = (src / 0x10, src % 0x10, dst / 0x10, dst % 0x10);
    let s = src + x;
    assert(s % 0x10 == b + x && (s - s % 0x10) % 0x100 == 0x10 * a) by {
        assert(src == 0x10 * a + b);
    }
    assert(dst - dst % 0x10 == 0x10 * c);
    let low = b + x + d;
    if low >= 0x0A {
        lemma_bcd_digits(a + c + 1, low - 10);
    } else {
        lemma_bcd_digits(a + c, low);
    }
}

/// With tens `t` below 20 and units `u` below 10, the BCD adjustment of the byte of digits `t`
/// and `u` is the BCD byte of `10 * t + u` modulo 100, with a carry exactly when it reaches 100.
proof fn lemma_bcd_digits(t: int, u: int)
    requires
        0 <= t < 20,
        0 <= u < 10,
    ensures
        ({
            let res = 0x10 * t + u;
            let full = if res >= 0xA0 { res + 0x60 } else { res };
            &&& full % 0x100 == spec_to_bcd((10 * t + u) % 100)
            &&& (full >= 0x100) == (10 * t + u >= 100)
        }),
{
    if t >= 10 {
        assert((10 * t + u) % 100 == 10 * (t - 10) + u);
        assert((10 * (t - 10) + u) / 10 == t - 10);
        assert((0x10 * t + u + 0x60) % 0x100 == 0x10 * (t - 10) + u);
    } else {
        assert((10 * t + u) % 100 == 10 * t + u);
        assert((10 * t + u) / 10 == t);
    }
}

/// The BCD difference of SBCD: `dst - (src + X)`, computed with wrapping byte and word arithmetic.
pub open spec fn spec_sbcd_result(sr: StatusRegister, src: u8, dst: u8) -> int {
    let s = (src + (if sr.x { 1int } else { 0 })) % 0x100;
    let bin = (dst + 0x1_0000 - s) % 0x1_0000;
    let low = ((dst % 0x10) + 0x100 - (s % 0x10)) % 0x100;
    let low = if low >= 0x0A { low - 0x06 } else { low };
    let high = ((dst - dst % 0x10) + 0x100 - (s - s % 0x10)) % 0x100;
    let res = (low + high) % 0x100;
    if res >= 0xA0 || bin > 0x99 { (res + 0x100 - 0x60) % 0x100 } else { res }
}

/// On BCD bytes, SBCD gives the BCD byte of the decimal difference of the destination less the
/// source and X, modulo 100, and sets the carry and X exactly when the source and X exceed the
/// destination (a borrow).
#[verifier::rlimit(60)]
#[verifier::spinoff_prover]
pub proof fn lemma_sbcd_is_decimal_subtraction(sr: StatusRegister, src: u8, dst: u8)
    requires
        spec_is_bcd(src),
        spec_is_bcd(dst),
    ensures
        spec_sbcd_result(sr, src, dst)
            == spec_to_bcd((spec_bcd_value(dst) - spec_bcd_value(src) - (if sr.x { 1int } else { 0 }) + 200) % 100),
        spec_sbcd_sr(sr, src, dst).c == (spec_bcd_value(src) + (if sr.x { 1int } else { 0 }) > spec_bcd_value(dst)),
        spec_sbcd_sr(sr, src, dst).x == spec_sbcd_sr(sr, src, dst).c,
        spec_sbcd_sr(sr, src, dst).z == (sr.z && spec_sbcd_result(sr, src, dst) == 0),
        spec_sbcd_sr(sr, src, dst).n == (spec_sbcd_result(sr, src, dst) >= 0x80),
{
    let x: int = if sr.x { 1 } else { 0 };
    let (a, b, c, e) = (dst / 0x10, dst % 0x10, src / 0x10, src % 0x10);
    let d = e + x;
    let s = (src + x) % 0x100;
    assert(src == 0x10 * c + e && dst == 0x10 * a + b);
    assert(s == 0x10 * c + d);
    assert(s % 0x10 == d && s - s % 0x10 == 0x10 * c);
    assert(dst - dst % 0x10 == 0x10 * a);
    lemma_sbcd_digits(a as int, b as int, c as int, d);
}

/// The BCD subtraction of SBCD on the digits of the destination (`a` tens, `b` units) and of the
/// source plus X (`c` tens, `d` units, `d` being 10 when a units digit 9 meets X).
#[verifier::rlimit(60)]
#[verifier::spinoff_prover]
proof fn lemma_sbcd_digits(a: int, b: int, c: int, d: int)
    requires
        0 <= a <= 9,
        0 <= b <= 9,
        0 <= c <= 9,
        0 <= d <= 10,
    ensures
        ({
            let dst = 0x10 * a + b;
            let s = 0x10 * c + d;
            let bin = (dst + 0x1_0000 - s) % 0x1_0000;
            let low = (b + 0x100 - d) % 0x100;
            let low = if low >= 0x0A { low - 0x06 } else { low };
            let high = (0x10 * a + 0x100 - 0x10 * c) % 0x100;
            let res = (low + high) % 0x100;
            let full = if res >= 0xA0 || bin > 0x99 { (res + 0x100 - 0x60) % 0x100 } else { res };
            &&& full == spec_to_bcd((10 * a + b - (10 * c + d) + 200) % 100)
            &&& (s > dst) == (10 * c + d > 10 * a + b)
        }),
{
    let v = 10 * a + b - (10 * c + d) + 200;
    let dst = 0x10 * a + b;
    let s = 0x10 * c + d;
    let bin = (dst + 0x1_0000 - s) % 0x1_0000;
    let low0 = (b + 0x100 - d) % 0x100;
    let low = if low0 >= 0x0A { low0 - 0x06 } else { low0 };
    let high = (0x10 * a + 0x100 - 0x10 * c) % 0x100;
    let res = (low + high) % 0x100;
    let full = if res >= 0xA0 || bin > 0x99 { (res + 0x100 - 0x60) % 0x100 } else { res };
    if a > c || (a == c && b >= d) {
        assert(bin == dst - s);
    } else {
        assert(bin == dst + 0x1_0000 - s);
    }
    if b >= d {
        assert(low == b - d);
        if a >= c {
            assert(high == 0x10 * (a - c));
            assert(res == 0x10 * (a - c) + (b - d));
            assert(full == res);
            assert(v % 100 == 10 * (a - c) + (b - d));
            assert((10 * (a - c) + (b - d)) / 10 == a - c);
        } else {
            assert(high == 0x100 - 0x10 * (c - a));
            assert(res == 0x100 - 0x10 * (c - a) + (b - d));
            assert(full == 0x10 * (10 - (c - a)) + (b - d));
            assert(v % 100 == 10 * (10 - (c - a)) + (b - d));
            assert((10 * (10 - (c - a)) + (b - d)) / 10 == 10 - (c - a));
        }
    } else {
        assert(low0 == 0x100 + b - d);
        assert(low == 0xFA + b - d);
        if a > c {
            assert(high == 0x10 * (a - c));
            assert(res == 0x10 * (a - c - 1) + 10 + b - d);
            assert(full == res);
            assert(v % 100 == 10 * (a - c - 1) + (10 + b - d));
            assert((10 * (a - c - 1) + (10 + b - d)) / 10 == a - c - 1);
        } else if a == c {
            assert(high == 0);
            assert(res == 0xFA + b - d);
            assert(full == 0x10 * 9 + (10 + b - d));
            assert(v % 100 == 10 * 9 + (10 + b - d));
            assert((10 * 9 + (10 + b - d)) / 10 == 9);
        } else {
            assert(high == 0x100 - 0x10 * (c - a));
            assert(res == 0xFA + b - d - 0x10 * (c - a));
            assert(full == 0x10 * (9 - (c - a)) + (10 + b - d));
            assert(v % 100 == 10 * (9 - (c - a)) + (10 + b - d));
            assert((10 * (9 - (c - a)) + (10 + b - d)) / 10 == 9 - (c - a));
        }
    }
}

/// The status register after SBCD. Z is only cleared, when the result is not 0.
pub open spec fn spec_sbcd_sr(sr: StatusRegister, src: u8, dst: u8) -> StatusRegister {
    let s = (src + (if sr.x { 1int } else { 0 })) % 0x100;
    let bin = (dst + 0x1_0000 - s) % 0x1_0000;
    let res = spec_sbcd_result(sr, src, dst);
    StatusRegister {
        x: s > dst,
        n: res >= 0x80,
        z: sr.z && res == 0,
        v: res < 0x80 && bin > 0x99,
        c: s > dst,
        ..sr
    }
}

/// Subtracts a BCD byte and the extend bit from another, returning the result byte and the status register.
#[verifier::rlimit(80)]
#[verifier::spinoff_prover]
pub fn sbcd(sr: StatusRegister, src: u8, dst: u8) -> (r: (u8, StatusRegister))
    ensures
        r.0 == spec_sbcd_result(sr, src, dst),
        r.1 == spec_sbcd_sr(sr, src, dst),
{
    let s: u8 = ((src as u16 + if sr.x { 1 } else { 0 }) % 0x100) as u8;
    let bin_res: u16 = ((dst as u32 + 0x1_0000 - s as u32) % 0x1_0000) as u16;
    let mut res: u8 = (((dst % 0x10) as u16 + 0x100 - (s % 0x10) as u16) % 0x100) as u8;
    if res >= 0x0A {
        res = res - 0x06;
    }
    let high: u8 = (((dst - dst % 0x10) as u16 + 0x100 - (s - s % 0x10) as u16) % 0x100) as u8;
    res = ((res as u16 + high as u16) % 0x100) as u8;
    if res >= 0xA0 || bin_res > 0x99 {
        res = ((res as u16 + 0x100 - 0x60) % 0x100) as u8;
    }
    let c = s > dst;
    let n = res >= 0x80;
    let z = sr.z && res == 0;
    let v = res < 0x80 && bin_res > 0x99;
    (res, StatusRegister { x: c, n, z, v, c, ..sr })
}

/// The BCD negation of NBCD: `0 - data - X`, with wrapping byte arithmetic.
pub open spec fn spec_nbcd_result(sr: StatusRegister, data: u8) -> int {
    let res = (0x200 - data - (if sr.x { 1int } else { 0 })) % 0x100;
    let res = if res != 0 { (res + 0x100 - 0x60) % 0x100 } else { res };
    if res % 0x10 != 0 { (res + 0x100 - 0x06) % 0x100 } else { res }
}

/// The status register after NBCD. Z is only cleared, when the result is not 0.
pub open spec fn spec_nbcd_sr(sr: StatusRegister, data: u8) -> StatusRegister {
    let res = spec_nbcd_result(sr, data);
    StatusRegister {
        x: res != 0,
        n: res >= 0x80,
        z: sr.z && res == 0,
        v: res != 0 && res < 0x80 && data <= 0x80,
        c: res != 0,
        ..sr
    }
}

/// On a BCD byte, NBCD gives the BCD byte of 0 less the data and X in decimal, modulo 100, and
/// sets the carry and X exactly when that decimal result is not 0.
#[verifier::rlimit(60)]
#[verifier::spinoff_prover]
pub proof fn lemma_nbcd_is_decimal_negation(sr: StatusRegister, data: u8)
    requires
        spec_is_bcd(data),
    ensures
        spec_nbcd_result(sr, data) == spec_to_bcd((200 - spec_bcd_value(data) - (if sr.x { 1int } else { 0 })) % 100),
        spec_nbcd_sr(sr, data).c == ((spec_bcd_value(data) + (if sr.x { 1int } else { 0 })) % 100 != 0),
        spec_nbcd_sr(sr, data).x == spec_nbcd_sr(sr, data).c,
        spec_nbcd_sr(sr, data).z == (sr.z && spec_nbcd_result(sr, data) == 0),
        spec_nbcd_sr(sr, data).n == (spec_nbcd_result(sr, data) >= 0x80),
{
    let x: int = if sr.x { 1 } else { 0 };
    let (a, b) = (data / 0x10, data % 0x10);
    let e = b + x;
    assert(data == 0x10 * a + b);
    let v = 200 - (10 * a + b) - x;
    if a == 0 && e == 0 {
        assert((0x200 - data - x) % 0x100 == 0);
        assert(v % 100 == 0);
    } else {
        assert((0x200 - data - x) % 0x100 == 0x100 - 0x10 * a - e);
        assert((0x100 - 0x10 * a - e + 0x100 - 0x60) % 0x100 == 0xA0 - 0x10 * a - e);
        if e == 0 {
            assert(0xA0 - 0x10 * a == 0x10 * (10 - a));
            assert((0xA0 - 0x10 * a - e) % 0x10 == 0);
            assert(v % 100 == 10 * (10 - a));
            assert((10 * (10 - a)) / 10 == 10 - a && (10 * (10 - a)) % 10 == 0);
        } else {
            assert(0xA0 - 0x10 * a - e == 0x10 * (9 - a) + (0x10 - e));
            assert((0xA0 - 0x10 * a - e) % 0x10 == 0x10 - e);
            assert((0xA0 - 0x10 * a - e + 0x100 - 0x06) % 0x100 == 0x10 * (9 - a) + (10 - e));
            assert(v % 100 == 10 * (9 - a) + (10 - e));
            assert((10 * (9 - a) + (10 - e)) / 10 == 9 - a);
        }
    }
}

/// Negates a BCD byte and the extend bit, returning the result byte and the status register.
pub fn nbcd(sr: StatusRegister, data: u8) -> (r: (u8, StatusRegister))
    ensures
        r.0 == spec_nbcd_result(sr, data),
        r.1 == spec_nbcd_sr(sr, data),
{
    let x: u16 = if sr.x { 1 } else { 0 };
    let mut res: u16 = (0x200 - data as u16 - x) % 0x100;
    if res != 0 {
        res = (res + 0x100 - 0x60) % 0x100;
    }
    if res % 0x10 != 0 {
        res = (res + 0x100 - 0x06) % 0x100;
    }
    let c = res != 0;
    let n = res >= 0x80;
    let z = sr.z && res == 0;
    let v = res != 0 && res < 0x80 && data <= 0x80;
    (res as u8, StatusRegister { x: c, n, z, v, c, ..sr })
}

/// The 32-bits product of MULU: the low words of `src` and `dst`, unsigned.
pub open spec fn spec_mulu(src: u16, dst: u32) -> int {
    src * (dst % 0x1_0000)
}

/// Multiplies two unsigned words, returning the long result and the status register.
pub fn mulu(sr: StatusRegister, src: u16, dst: u32) -> (r: (u32, StatusRegister))
    ensures
        r.0 == spec_mulu(src, dst),
        r.1 == spec_logic_sr(sr, r.0, Size::Long),
{
    let d: u32 = dst % 0x1_0000;
    proof {
        assert(src * d <= 0xFFFF * 0xFFFF) by (nonlinear_arith)
            requires
                src <= 0xFFFF,
                d <= 0xFFFF,
        ;
    }
    let res: u32 = src as u32 * d;
    (res, logic_sr(sr, res, Size::Long))
}

/// The 32-bits product of MULS: the low words of `src` and `dst`, signed.
pub open spec fn spec_muls(src: u16, dst: u32) -> int {
    spec_signed(src as int, Size::Word) * spec_signed(dst as int, Size::Word)
}

/// Multiplies two signed words, returning the long result (two's complement) and the status register.
pub fn muls(sr: StatusRegister, src: u16, dst: u32) -> (r: (u32, StatusRegister))
    ensures
        r.0 == spec_wrap(spec_muls(src, dst), Size::Long),
        r.1 == (StatusRegister { n: spec_muls(src, dst) < 0, z: spec_muls(src, dst) == 0, v: false, c: false, ..sr }),
{
    let a: i64 = signed(src as u32, Size::Word);
    let b: i64 = signed(dst, Size::Word);
    proof {
        assert(-0x8000 * 0x8000 <= a * b <= 0x8000 * 0x8000) by (nonlinear_arith)
            requires
                -0x8000 <= a < 0x8000,
                -0x8000 <= b < 0x8000,
        ;
    }
    let res: i64 = a * b;
    let u: u32 = if res < 0 { (res + 0x1_0000_0000) as u32 } else { res as u32 };
    proof {
        if res < 0 {
            vstd::arithmetic::div_mod::lemma_fundamental_div_mod_converse(res as int, 0x1_0000_0000, -1, u as int);
        } else {
            vstd::arithmetic::div_mod::lemma_fundamental_div_mod_converse(res as int, 0x1_0000_0000, 0, u as int);
        }
    }
    (u, StatusRegister { n: res < 0, z: res == 0, v: false, c: false, ..sr })
}

/// The register after DIVU of the long `dst` by the word `src`: remainder in the high word and
/// quotient in the low word, or `dst` unchanged when the quotient does not fit in a word.
pub open spec fn spec_divu(src: u16, dst: u32) -> u32 {
    let quot = (dst as int) / (src as int);
    let rem = (dst as int) % (src as int);
    if quot > 0xFFFF { dst } else { (rem * 0x1_0000 + quot) as u32 }
}

/// The status register after DIVU: V is set when the quotient does not fit in an unsigned word,
/// N is bit 15 of the quotient and Z tells a zero quotient.
pub open spec fn spec_divu_sr(sr: StatusRegister, src: u16, dst: u32) -> StatusRegister {
    let quot = (dst as int) / (src as int);
    StatusRegister { n: (quot / 0x8000) % 2 == 1, z: quot == 0, v: quot > 0xFFFF, c: false, ..sr }
}

/// Divides a long by a non-zero word, unsigned.
pub fn divu(sr: StatusRegister, src: u16, dst: u32) -> (r: (u32, StatusRegister))
    requires
        src != 0,
    ensures
        r.0 == spec_divu(src, dst),
        r.1 == spec_divu_sr(sr, src, dst),
{
    let quot: u32 = dst / src as u32;
    let rem: u32 = dst % src as u32;
    proof {
        assert(rem < 0x1_0000);
    }
    let res: u32 = if quot > 0xFFFF { dst } else { rem * 0x1_0000 + quot };
    (res, StatusRegister { n: (quot / 0x8000) % 2 == 1, z: quot == 0, v: quot > 0xFFFF, c: false, ..sr })
}

/// The signed quotient of DIVS, rounded toward zero.
pub open spec fn spec_divs_quot(src: u16, dst: u32) -> int {
    let n = spec_signed(dst as int, Size::Long);
    let d = spec_signed(src as int, Size::Word);
    let q = vstd::math::abs(n) as int / vstd::math::abs(d) as int;
    if (n < 0) == (d < 0) { q } else { -q }
}

/// The signed remainder of DIVS, of the sign of the dividend.
pub open spec fn spec_divs_rem(src: u16, dst: u32) -> int {
    let n = spec_signed(dst as int, Size::Long);
    let d = spec_signed(src as int, Size::Word);
    let r = vstd::math::abs(n) as int % vstd::math::abs(d) as int;
    if n < 0 { -r } else { r }
}

/// The register after DIVS: remainder in the high word and quotient in the low word, or `dst`
/// unchanged when the quotient does not fit in a signed word.
pub open spec fn spec_divs(src: u16, dst: u32) -> u32 {
    if spec_overflows(spec_divs_quot(src, dst), Size::Word) {
        dst
    } else {
        (spec_wrap(spec_divs_rem(src, dst), Size::Word) * 0x1_0000 + spec_wrap(spec_divs_quot(src, dst), Size::Word)) as u32
    }
}

/// DIVU divides: when the quotient fits in a word, the low word of the result times the divisor
/// plus the high word gives back the dividend, the high word being below the divisor; otherwise
/// the register is kept and V is set.
#[verifier::rlimit(60)]
#[verifier::spinoff_prover]
pub proof fn lemma_divu_is_division(sr: StatusRegister, src: u16, dst: u32)
    requires
        src != 0,
    ensures
        dst / src as u32 <= 0xFFFF ==> ({
            let r = spec_divu(src, dst);
            &&& (r % 0x1_0000) * src + r / 0x1_0000 == dst
            &&& r / 0x1_0000 < src
            &&& !spec_divu_sr(sr, src, dst).v
        }),
        dst / src as u32 > 0xFFFF ==> spec_divu(src, dst) == dst && spec_divu_sr(sr, src, dst).v,
{
    let q = (dst as int) / (src as int);
    let rm = (dst as int) % (src as int);
    vstd::arithmetic::div_mod::lemma_fundamental_div_mod(dst as int, src as int);
    if q <= 0xFFFF {
        let r = rm * 0x1_0000 + q;
        assert(0 <= rm < src);
        assert(r < 0x1_0000_0000) by (nonlinear_arith)
            requires r == rm * 0x1_0000 + q, 0 <= rm < 0x1_0000, 0 <= q <= 0xFFFF;
        assert(spec_divu(src, dst) as int == r);
        assert(r % 0x1_0000 == q && r / 0x1_0000 == rm) by {
            vstd::arithmetic::div_mod::lemma_fundamental_div_mod_converse(r, 0x1_0000, rm, q);
        }
        assert(q * src + rm == dst) by (nonlinear_arith)
            requires dst == src * q + rm;
    }
}

/// DIVS divides toward zero: the quotient times the divisor plus the remainder gives back the
/// dividend, the remainder is smaller than the divisor and has the sign of the dividend; when the
/// quotient fits in a signed word the result holds it in its low word and the remainder in its
/// high word, otherwise the register is kept and V is set.
#[verifier::rlimit(60)]
#[verifier::spinoff_prover]
pub proof fn lemma_divs_is_division(sr: StatusRegister, src: u16, dst: u32)
    requires
        src != 0,
    ensures
        ({
            let n = spec_signed(dst as int, Size::Long);
            let d = spec_signed(src as int, Size::Word);
            let q = spec_divs_quot(src, dst);
            let rm = spec_divs_rem(src, dst);
            &&& q * d + rm == n
            &&& vstd::math::abs(rm) < vstd::math::abs(d)
            &&& rm == 0 || (rm < 0) == (n < 0)
            &&& !spec_overflows(q, Size::Word) ==> spec_signed(spec_divs(src, dst) as int % 0x1_0000, Size::Word) == q
                && spec_signed(spec_divs(src, dst) as int / 0x1_0000, Size::Word) == rm
                && !spec_divs_sr(sr, src, dst).v
            &&& spec_overflows(q, Size::Word) ==> spec_divs(src, dst) == dst && spec_divs_sr(sr, src, dst).v
        }),
{
    let n = spec_signed(dst as int, Size::Long);
    let d = spec_signed(src as int, Size::Word);
    assert(d != 0) by {
        vstd::arithmetic::div_mod::lemma_small_mod(src as nat, 0x1_0000);
    }
    let an = vstd::math::abs(n) as int;
    let ad = vstd::math::abs(d) as int;
    let qa = an / ad;
    let ra = an % ad;
    vstd::arithmetic::div_mod::lemma_fundamental_div_mod(an, ad);
    assert(an == ad * qa + ra && 0 <= ra < ad);
    let q = spec_divs_quot(src, dst);
    let rm = spec_divs_rem(src, dst);
    assert(q * d + rm == n) by (nonlinear_arith)
        requires
            an == ad * qa + ra,
            an == (if n < 0 { -n } else { n }),
            ad == (if d < 0 { -d } else { d }),
            q == (if (n < 0) == (d < 0) { qa } else { -qa }),
            rm == (if n < 0 { -ra } else { ra });
    if !spec_overflows(q, Size::Word) {
        let ql = spec_wrap(q, Size::Word) as int;
        let rl = spec_wrap(rm, Size::Word) as int;
        assert(0 <= ql < 0x1_0000 && 0 <= rl < 0x1_0000);
        let r = rl * 0x1_0000 + ql;
        assert(r < 0x1_0000_0000) by (nonlinear_arith)
            requires r == rl * 0x1_0000 + ql, 0 <= rl < 0x1_0000, 0 <= ql < 0x1_0000;
        assert(spec_divs(src, dst) as int == r);
        assert(r % 0x1_0000 == ql && r / 0x1_0000 == rl) by {
            vstd::arithmetic::div_mod::lemma_fundamental_div_mod_converse(r, 0x1_0000, rl, ql);
        }
        assert(-0x8000 <= rm < 0x8000) by {
            assert(ad <= 0x8000) by { vstd::arithmetic::div_mod::lemma_small_mod(src as nat, 0x1_0000); }
        }
        assert(spec_signed(ql, Size::Word) == q) by {
            if q < 0 {
                vstd::arithmetic::div_mod::lemma_fundamental_div_mod_converse(q, 0x1_0000, -1, q + 0x1_0000);
                vstd::arithmetic::div_mod::lemma_small_mod((q + 0x1_0000) as nat, 0x1_0000);
            } else {
                vstd::arithmetic::div_mod::lemma_small_mod(q as nat, 0x1_0000);
                vstd::arithmetic::div_mod::lemma_small_mod(ql as nat, 0x1_0000);
            }
        }
        assert(spec_signed(rl, Size::Word) == rm) by {
            if rm < 0 {
                vstd::arithmetic::div_mod::lemma_fundamental_div_mod_converse(rm, 0x1_0000, -1, rm + 0x1_0000);
                vstd::arithmetic::div_mod::lemma_small_mod((rm + 0x1_0000) as nat, 0x1_0000);
            } else {
                vstd::arithmetic::div_mod::lemma_small_mod(rm as nat, 0x1_0000);
                vstd::arithmetic::div_mod::lemma_small_mod(rl as nat, 0x1_0000);
            }
        }
    }
}

/// The status register after DIVS: V is set when the quotient does not fit in a signed word.
pub open spec fn spec_divs_sr(sr: StatusRegister, src: u16, dst: u32) -> StatusRegister {
    let quot = spec_divs_quot(src, dst);
    StatusRegister { n: quot < 0, z: quot == 0, v: spec_overflows(quot, Size::Word), c: false, ..sr }
}

/// Adding 2 to the power of 32 keeps the value modulo 0x1_0000.
proof fn lemma_shift_mod(v: int)
    ensures
        (v + 0x1_0000_0000) % 0x1_0000 == v % 0x1_0000,
{
    vstd::arithmetic::div_mod::lemma_mod_multiples_vanish(0x1_0000, v, 0x1_0000);
}

/// Divides a signed long by a non-zero signed word, rounding toward zero.
pub fn divs(sr: StatusRegister, src: u16, dst: u32) -> (r: (u32, StatusRegister))
    requires
        src != 0,
    ensures
        r.0 == spec_divs(src, dst),
        r.1 == spec_divs_sr(sr, src, dst),
{
    let n: i64 = signed(dst, Size::Long);
    let d: i64 = signed(src as u32, Size::Word);
    let an: u64 = if n < 0 { (-n) as u64 } else { n as u64 };
    let ad: u64 = if d < 0 { (-d) as u64 } else { d as u64 };
    assert((src as int) % 0x1_0000 == src as int);
    assert(d != 0);
    let q: u64 = an / ad;
    let rm: u64 = an % ad;
    proof {
        assert(q <= an) by (nonlinear_arith)
            requires
                ad >= 1,
                q == an / ad,
        ;
    }
    let quot: i64 = if (n < 0) == (d < 0) { q as i64 } else { -(q as i64) };
    let rem: i64 = if n < 0 { -(rm as i64) } else { rm as i64 };
    let qw: u32 = ((quot + 0x1_0000_0000) as u64 % 0x1_0000) as u32;
    let rw: u32 = ((rem + 0x1_0000_0000) as u64 % 0x1_0000) as u32;
    proof {
        lemma_shift_mod(quot as int);
        lemma_shift_mod(rem as int);
    }
    let overflow = quot < -0x8000 || quot >= 0x8000;
    let res: u32 = if overflow { dst } else { rw * 0x1_0000 + qw };
    (res, StatusRegister { n: quot < 0, z: quot == 0, v: overflow, c: false, ..sr })
}


/// The binary operations between a data register and an effective address.
#[derive(Clone, Copy, Debug, PartialEq, Eq, Structural)]
pub enum BinaryOp {
    Add,
    Sub,
    And,
    Or,
    Eor,
    /// Subtraction that only sets the condition codes.
    Cmp,
}

/// The result and the status register of `dst op src`. CMP gives back `dst`.
pub open spec fn spec_binary(op: BinaryOp, sr: StatusRegister, dst: u32, src: u32, size: Size) -> (u32, StatusRegister) {
    match op {
        BinaryOp::Add => (spec_add_result(sr, dst, src, size, false), spec_add_sr(sr, dst, src, size, false)),
        BinaryOp::Sub => (spec_sub_result(sr, dst, src, size, false), spec_sub_sr(sr, dst, src, size, false, false)),
        BinaryOp::Cmp => (dst, spec_sub_sr(sr, dst, src, size, false, true)),
        BinaryOp::And => (dst & src, spec_logic_sr(sr, dst & src, size)),
        BinaryOp::Or => (dst | src, spec_logic_sr(sr, dst | src, size)),
        BinaryOp::Eor => (dst ^ src, spec_logic_sr(sr, dst ^ src, size)),
    }
}

/// The bitwise operations keep values of a size.
proof fn lemma_bitwise_fits(a: u32, b: u32, size: Size)
    requires
        spec_fits(a, size),
        spec_fits(b, size),
    ensures
        spec_fits(a & b, size),
        spec_fits(a | b, size),
        spec_fits(a ^ b, size),
{
    match size {
        Size::Byte => {
            assert((a & b) < 0x100 && (a | b) < 0x100 && (a ^ b) < 0x100) by (bit_vector)
                requires
                    a < 0x100,
                    b < 0x100,
            ;
        },
        Size::Word => {
            assert((a & b) < 0x1_0000 && (a | b) < 0x1_0000 && (a ^ b) < 0x1_0000) by (bit_vector)
                requires
                    a < 0x1_0000,
                    b < 0x1_0000,
            ;
        },
        Size::Long => {},
    }
}

/// Returns the result and the status register of `dst op src`.
pub fn binary(op: BinaryOp, sr: StatusRegister, dst: u32, src: u32, size: Size) -> (r: (u32, StatusRegister))
    requires
        spec_fits(dst, size),
        spec_fits(src, size),
    ensures
        r == spec_binary(op, sr, dst, src, size),
        spec_fits(r.0, size),
{
    proof {
        lemma_bitwise_fits(dst, src, size);
    }
    match op {
        BinaryOp::Add => add_values(sr, dst, src, size, false),
        BinaryOp::Sub => sub_values(sr, dst, src, size, false, false),
        BinaryOp::Cmp => {
            let (_, sr2) = sub_values(sr, dst, src, size, false, true);
            (dst, sr2)
        },
        BinaryOp::And => (dst & src, logic_sr(sr, dst & src, size)),
        BinaryOp::Or => (dst | src, logic_sr(sr, dst | src, size)),
        BinaryOp::Eor => (dst ^ src, logic_sr(sr, dst ^ src, size)),
    }
}


/// The operations on a single operand.
#[derive(Clone, Copy, Debug, PartialEq, Eq, Structural)]
pub enum UnaryOp {
    Neg,
    Negx,
    Not,
    Clr,
    /// Only sets the condition codes.
    Tst,
    /// Byte only.
    Nbcd,
    /// Byte only: sets the condition codes of the operand, then its bit 7.
    Tas,
}

/// The result and the status register of a single operand operation. TST gives back `data`.
pub open spec fn spec_unary(op: UnaryOp, sr: StatusRegister, data: u32, size: Size) -> (u32, StatusRegister) {
    match op {
        UnaryOp::Neg => (spec_sub_result(sr, 0, data, size, false), spec_sub_sr(sr, 0, data, size, false, false)),
        UnaryOp::Negx => (spec_sub_result(sr, 0, data, size, true), spec_sub_sr(sr, 0, data, size, true, false)),
        UnaryOp::Not => ((spec_modulus(size) - 1 - data) as u32, spec_logic_sr(sr, (spec_modulus(size) - 1 - data) as u32, size)),
        UnaryOp::Clr => (0, spec_logic_sr(sr, 0, size)),
        UnaryOp::Tst => (data, spec_logic_sr(sr, data, size)),
        UnaryOp::Nbcd => (spec_nbcd_result(sr, data as u8) as u32, spec_nbcd_sr(sr, data as u8)),
        UnaryOp::Tas => ((data % 0x80 + 0x80) as u32, spec_logic_sr(sr, data, size)),
    }
}

/// Returns the result and the status register of a single operand operation.
pub fn unary(op: UnaryOp, sr: StatusRegister, data: u32, size: Size) -> (r: (u32, StatusRegister))
    requires
        spec_fits(data, size),
        op == UnaryOp::Nbcd || op == UnaryOp::Tas ==> size == Size::Byte,
    ensures
        r == spec_unary(op, sr, data, size),
        spec_fits(r.0, size),
{
    match op {
        UnaryOp::Neg => sub_values(sr, 0, data, size, false, false),
        UnaryOp::Negx => sub_values(sr, 0, data, size, true, false),
        UnaryOp::Not => {
            let res = (modulus(size) - 1 - data as u64) as u32;
            (res, logic_sr(sr, res, size))
        },
        UnaryOp::Clr => (0, logic_sr(sr, 0, size)),
        UnaryOp::Tst => (data, logic_sr(sr, data, size)),
        UnaryOp::Nbcd => {
            let (res, sr2) = nbcd(sr, data as u8);
            (res as u32, sr2)
        },
        UnaryOp::Tas => (data % 0x80 + 0x80, logic_sr(sr, data, size)),
    }
}


/// Subtracting what was added gives back the original value: `(dst + src + X) - src - X` is
/// `dst` in the given size, with or without the extend bit taking part.
pub proof fn lemma_sub_undoes_add(sr: StatusRegister, dst: u32, src: u32, size: Size, extend: bool)
    ensures
        spec_sub_result(sr, spec_add_result(sr, dst, src, size, extend), src, size, extend) == spec_low(dst, size),
{
    let m = spec_modulus(size);
    let x = spec_x_in(sr, extend);
    let sum = dst + src + x;
    let r = spec_add_result(sr, dst, src, size, extend);
    assert(r as int == sum % m);
    vstd::arithmetic::div_mod::lemma_fundamental_div_mod(sum, m);
    vstd::arithmetic::div_mod::lemma_mod_multiples_vanish(sum / m, dst as int, m);
    assert(r as int - src - x == dst - m * (sum / m));
    assert((dst - m * (sum / m)) % m == (dst as int) % m) by {
        vstd::arithmetic::div_mod::lemma_mod_multiples_vanish(-(sum / m), dst as int, m);
    }
}


/// The extend bit above the data: the value of one bit more than the size that ROXL and ROXR
/// rotate.
pub open spec fn spec_extended_value(st: ShiftState, size: Size) -> int {
    (if st.1 { spec_modulus(size) } else { 0 }) + st.0
}

/// What one step of each shift and rotate does, in arithmetic terms:
/// - LSL and ASL double the data modulo the size; LSR halves it; ASR halves its signed value,
///   rounding down; the bit shifted out goes to C and X.
/// - ROL and ROR rotate the data by one bit, the bit that goes round going to C; X is kept.
/// - ROXL and ROXR rotate the value made of X above the data by one bit, within one bit more than
///   the size; C is the new X.
#[verifier::rlimit(50)]
#[verifier::spinoff_prover]
pub proof fn lemma_shift_step_meaning(kind: ShiftKind, left: bool, size: Size, st: ShiftState)
    requires
        0 <= st.0 < spec_modulus(size),
    ensures
        0 <= spec_shift_step(kind, left, size, st).0 < spec_modulus(size),
        (kind == ShiftKind::Logical || kind == ShiftKind::Arithmetic) && left ==>
            spec_shift_step(kind, left, size, st).0 == (st.0 * 2) % spec_modulus(size)
            && spec_shift_step(kind, left, size, st).2 == (st.0 >= spec_half(size))
            && spec_shift_step(kind, left, size, st).1 == spec_shift_step(kind, left, size, st).2,
        kind == ShiftKind::Logical && !left ==> spec_shift_step(kind, left, size, st).0 == st.0 / 2
            && spec_shift_step(kind, left, size, st).2 == (st.0 % 2 == 1)
            && spec_shift_step(kind, left, size, st).1 == spec_shift_step(kind, left, size, st).2,
        kind == ShiftKind::Arithmetic && !left ==> spec_signed(spec_shift_step(kind, left, size, st).0, size) == spec_signed(st.0, size) / 2
            && spec_shift_step(kind, left, size, st).2 == (st.0 % 2 == 1)
            && spec_shift_step(kind, left, size, st).1 == spec_shift_step(kind, left, size, st).2,
        kind == ShiftKind::Rotate && left ==> spec_shift_step(kind, left, size, st).0 == (st.0 * 2) % spec_modulus(size) + st.0 / spec_half(size)
            && spec_shift_step(kind, left, size, st).2 == (st.0 >= spec_half(size)) && spec_shift_step(kind, left, size, st).1 == st.1,
        kind == ShiftKind::Rotate && !left ==> spec_shift_step(kind, left, size, st).0 == st.0 / 2 + (st.0 % 2) * spec_half(size)
            && spec_shift_step(kind, left, size, st).2 == (st.0 % 2 == 1) && spec_shift_step(kind, left, size, st).1 == st.1,
        kind == ShiftKind::RotateExtend && left ==> spec_extended_value(spec_shift_step(kind, left, size, st), size)
            == (spec_extended_value(st, size) * 2) % (2 * spec_modulus(size)) + spec_extended_value(st, size) / spec_modulus(size),
        kind == ShiftKind::RotateExtend && !left ==> spec_extended_value(spec_shift_step(kind, left, size, st), size)
            == spec_extended_value(st, size) / 2 + (spec_extended_value(st, size) % 2) * spec_modulus(size),
        kind == ShiftKind::RotateExtend ==> spec_shift_step(kind, left, size, st).2 == spec_shift_step(kind, left, size, st).1,
{
    let m = spec_modulus(size);
    let h = spec_half(size);
    let d = st.0;
    let x: int = if st.1 { 1 } else { 0 };
    assert(m == 2 * h && h >= 0x80);
    assert(d == 2 * (d / 2) + d % 2) by { vstd::arithmetic::div_mod::lemma_fundamental_div_mod(d, 2); }
    assert(0 <= d / 2 < h);
    if d < h {
        assert((d * 2) % m == d * 2) by { vstd::arithmetic::div_mod::lemma_small_mod((d * 2) as nat, m as nat); }
        assert(d / h == 0) by { vstd::arithmetic::div_mod::lemma_basic_div(d, h); }
    } else {
        assert((d * 2) % m == d * 2 - m) by {
            vstd::arithmetic::div_mod::lemma_mod_sub_multiples_vanish(d * 2, m);
            vstd::arithmetic::div_mod::lemma_small_mod((d * 2 - m) as nat, m as nat);
        }
        assert(d / h == 1) by {
            vstd::arithmetic::div_mod::lemma_fundamental_div_mod_converse(d, h, 1, d - h);
        }
    }
    let v = x * m + d;
    assert(v == 2 * (x * h + d / 2) + d % 2);
    assert(v / 2 == x * h + d / 2 && v % 2 == d % 2) by {
        vstd::arithmetic::div_mod::lemma_fundamental_div_mod_converse(v, 2, x * h + d / 2, d % 2);
    }
    assert(v / m == x && v % m == d) by {
        vstd::arithmetic::div_mod::lemma_fundamental_div_mod_converse(v, m, x, d);
    }
    assert((v * 2) % (2 * m) == d * 2) by {
        vstd::arithmetic::div_mod::lemma_fundamental_div_mod_converse(v * 2, 2 * m, x, d * 2);
    }
    if d >= h {
        let sd = d - m;
        assert(sd == 2 * (d / 2 - h) + d % 2);
        assert(sd / 2 == d / 2 - h) by {
            vstd::arithmetic::div_mod::lemma_fundamental_div_mod_converse(sd, 2, d / 2 - h, d % 2);
        }
        assert(spec_signed(d, size) == sd) by { vstd::arithmetic::div_mod::lemma_small_mod(d as nat, m as nat); }
        let r = d / 2 + h;
        assert(spec_signed(r, size) == r - m) by { vstd::arithmetic::div_mod::lemma_small_mod(r as nat, m as nat); }
    } else {
        assert(spec_signed(d, size) == d) by { vstd::arithmetic::div_mod::lemma_small_mod(d as nat, m as nat); }
        assert(spec_signed(d / 2, size) == d / 2) by { vstd::arithmetic::div_mod::lemma_small_mod((d / 2) as nat, m as nat); }
    }
    if d % 2 == 1 {
        assert((d % 2) * h == h);
    } else {
        assert((d % 2) * h == 0);
    }
    let n = spec_shift_step(kind, left, size, st);
    if kind == ShiftKind::RotateExtend {
        let nx: int = if n.1 { 1 } else { 0 };
        if left {
            assert(n.0 == (d * 2) % m + x);
            assert(nx == d / h);
            assert(spec_extended_value(n, size) == nx * m + n.0);
            assert(nx * m + (d * 2) % m == d * 2) by (nonlinear_arith)
                requires nx == d / h, m == 2 * h, d < h ==> (d * 2) % m == d * 2 && nx == 0, d >= h ==> (d * 2) % m == d * 2 - m && nx == 1;
        } else {
            assert(n.0 == d / 2 + x * h);
            assert(spec_extended_value(n, size) == (d % 2) * m + d / 2 + x * h);
        }
    }
}

/// Along the steps of a rotation without X (ROL, ROR) X is kept, and along those of any shift or
/// rotation but ASL V is kept.
proof fn lemma_shift_steps_keep(kind: ShiftKind, left: bool, size: Size, st: ShiftState, count: nat)
    ensures
        kind == ShiftKind::Rotate ==> spec_shift_steps(kind, left, size, st, count).1 == st.1,
        !(kind == ShiftKind::Arithmetic && left) ==> spec_shift_steps(kind, left, size, st, count).3 == st.3,
    decreases count,
{
    if count > 0 {
        lemma_shift_steps_keep(kind, left, size, st, (count - 1) as nat);
    }
}

/// The status register of a shift or rotate: N is the sign of the result and Z whether it is 0;
/// with a count of 0 the data is kept, X is kept, C is cleared (copied from X by ROXL and ROXR)
/// and V is cleared; otherwise C is the last bit shifted out, which X gets too except with ROL and
/// ROR, which keep X; V is cleared but by ASL.
#[verifier::rlimit(60)]
#[verifier::spinoff_prover]
pub proof fn lemma_shift_flags(kind: ShiftKind, left: bool, size: Size, sr: StatusRegister, data: u32, count: nat)
    ensures
        ({
            let r = spec_shift_result(kind, left, size, sr, data, count);
            let f = spec_shift_sr(kind, left, size, sr, data, count);
            &&& f.n == (spec_signed(r as int, size) < 0)
            &&& f.z == (r == 0)
            &&& count == 0 ==> r == spec_low(data, size) && f.x == sr.x && f.c == (kind == ShiftKind::RotateExtend && sr.x) && !f.v
            &&& count > 0 && kind != ShiftKind::Rotate ==> f.c == f.x
            &&& kind == ShiftKind::Rotate ==> f.x == sr.x
            &&& !(kind == ShiftKind::Arithmetic && left) ==> !f.v
            &&& f.s == sr.s && f.t == sr.t && f.interrupt_mask == sr.interrupt_mask
        }),
{
    let m = spec_modulus(size);
    let st = spec_shift_start(kind, data, size, sr);
    let fin = spec_shift_steps(kind, left, size, st, count);
    assert(0 <= st.0 < m);
    lemma_shift_steps_fit(kind, left, size, st, count);
    lemma_shift_steps_keep(kind, left, size, st, count);
    let r = spec_shift_result(kind, left, size, sr, data, count);
    assert(r as int == fin.0);
    assert(spec_signed(r as int, size) == (if fin.0 >= spec_half(size) { fin.0 - m } else { fin.0 })) by {
        vstd::arithmetic::div_mod::lemma_small_mod(fin.0 as nat, m as nat);
    }
    if count > 0 {
        let prev = spec_shift_steps(kind, left, size, st, (count - 1) as nat);
        lemma_shift_steps_fit(kind, left, size, st, (count - 1) as nat);
        lemma_shift_step_meaning(kind, left, size, prev);
    }
}

/// A ROXL or ROXR step followed by one in the other direction gives back the data and X.
#[verifier::rlimit(60)]
#[verifier::spinoff_prover]
proof fn lemma_rotate_extend_step_back(left: bool, size: Size, st: ShiftState)
    requires
        0 <= st.0 < spec_modulus(size),
    ensures
        spec_shift_step(ShiftKind::RotateExtend, !left, size, spec_shift_step(ShiftKind::RotateExtend, left, size, st)).0 == st.0,
        spec_shift_step(ShiftKind::RotateExtend, !left, size, spec_shift_step(ShiftKind::RotateExtend, left, size, st)).1 == st.1,
{
    let k = ShiftKind::RotateExtend;
    let m = spec_modulus(size);
    let st1 = spec_shift_step(k, left, size, st);
    let st2 = spec_shift_step(k, !left, size, st1);
    lemma_shift_step_meaning(k, left, size, st);
    lemma_shift_step_meaning(k, !left, size, st1);
    let v = spec_extended_value(st, size);
    let v1 = spec_extended_value(st1, size);
    let v2 = spec_extended_value(st2, size);
    assert(0 <= v < 2 * m);
    if left {
        let a: int = if st.1 { 1 } else { 0 };
        assert((v * 2) % (2 * m) == st.0 * 2) by {
            vstd::arithmetic::div_mod::lemma_fundamental_div_mod_converse(v * 2, 2 * m, a, st.0 * 2);
        }
        assert(v / m == a) by {
            vstd::arithmetic::div_mod::lemma_fundamental_div_mod_converse(v, m, a, st.0);
        }
        assert(v1 == st.0 * 2 + a);
        assert(v1 / 2 == st.0 && v1 % 2 == a) by {
            vstd::arithmetic::div_mod::lemma_fundamental_div_mod_converse(v1, 2, st.0, a);
        }
    } else {
        let q = v / 2;
        let r = v % 2;
        assert(v == 2 * q + r && 0 <= r < 2) by { vstd::arithmetic::div_mod::lemma_fundamental_div_mod(v, 2); }
        assert(v1 == q + r * m);
        assert(q < m);
        assert(v1 * 2 == r * (2 * m) + 2 * q) by (nonlinear_arith)
            requires v1 == q + r * m;
        assert((v1 * 2) % (2 * m) == 2 * q) by {
            vstd::arithmetic::div_mod::lemma_fundamental_div_mod_converse(v1 * 2, 2 * m, r, 2 * q);
        }
        assert(v1 / m == r) by {
            vstd::arithmetic::div_mod::lemma_fundamental_div_mod_converse(v1, m, r, q);
        }
    }
    assert(v2 == v);
    assert(0 <= st2.0 < m);
}

/// The data and X that ROXL and ROXR give depend on the data and X they start from alone.
proof fn lemma_rotate_extend_state_only(left: bool, size: Size, st1: ShiftState, st2: ShiftState, count: nat)
    requires
        st1.0 == st2.0,
        st1.1 == st2.1,
    ensures
        spec_shift_steps(ShiftKind::RotateExtend, left, size, st1, count).0
            == spec_shift_steps(ShiftKind::RotateExtend, left, size, st2, count).0,
        spec_shift_steps(ShiftKind::RotateExtend, left, size, st1, count).1
            == spec_shift_steps(ShiftKind::RotateExtend, left, size, st2, count).1,
    decreases count,
{
    if count > 0 {
        lemma_rotate_extend_state_only(left, size, st1, st2, (count - 1) as nat);
    }
}

/// `count` ROXL or ROXR steps followed by `count` in the other direction give back the data and X.
proof fn lemma_rotate_extend_steps_back(left: bool, size: Size, st: ShiftState, count: nat)
    requires
        0 <= st.0 < spec_modulus(size),
    ensures
        spec_shift_steps(ShiftKind::RotateExtend, !left, size, spec_shift_steps(ShiftKind::RotateExtend, left, size, st, count), count).0 == st.0,
        spec_shift_steps(ShiftKind::RotateExtend, !left, size, spec_shift_steps(ShiftKind::RotateExtend, left, size, st, count), count).1 == st.1,
    decreases count,
{
    let k = ShiftKind::RotateExtend;
    if count > 0 {
        let n1 = (count - 1) as nat;
        let u = spec_shift_steps(k, left, size, st, n1);
        lemma_shift_steps_fit(k, left, size, st, n1);
        let lu = spec_shift_step(k, left, size, u);
        lemma_shift_steps_peel(k, !left, size, lu, count);
        lemma_rotate_extend_step_back(left, size, u);
        lemma_rotate_extend_state_only(!left, size, spec_shift_step(k, !left, size, lu), u, n1);
        lemma_rotate_extend_steps_back(left, size, st, n1);
    }
}

/// Rotating the data through X by `count` bits in one direction (ROXL or ROXR) then by `count`
/// bits in the other direction, from the status register the first rotation left, gives back the
/// data and X.
pub proof fn lemma_rotate_extend_inverse(left: bool, size: Size, sr: StatusRegister, data: u32, count: nat)
    ensures
        ({
            let k = ShiftKind::RotateExtend;
            let r = spec_shift_result(k, left, size, sr, data, count);
            let sr1 = spec_shift_sr(k, left, size, sr, data, count);
            &&& spec_shift_result(k, !left, size, sr1, r, count) == spec_low(data, size)
            &&& spec_shift_sr(k, !left, size, sr1, r, count).x == sr.x
        }),
{
    let k = ShiftKind::RotateExtend;
    let st = spec_shift_start(k, data, size, sr);
    let mid = spec_shift_steps(k, left, size, st, count);
    lemma_shift_steps_fit(k, left, size, st, count);
    let r = spec_shift_result(k, left, size, sr, data, count);
    let sr1 = spec_shift_sr(k, left, size, sr, data, count);
    assert(r as int == mid.0);
    assert(sr1.x == mid.1);
    let st2 = spec_shift_start(k, r, size, sr1);
    assert(st2.0 == mid.0 && st2.1 == mid.1) by {
        vstd::arithmetic::div_mod::lemma_small_mod(r as nat, spec_modulus(size) as nat);
    }
    lemma_rotate_extend_state_only(!left, size, st2, mid, count);
    lemma_rotate_extend_steps_back(left, size, st, count);
}

/// `count` steps are the first step followed by `count - 1` steps.
proof fn lemma_shift_steps_peel(kind: ShiftKind, left: bool, size: Size, st: ShiftState, count: nat)
    requires
        count > 0,
    ensures
        spec_shift_steps(kind, left, size, st, count)
            == spec_shift_steps(kind, left, size, spec_shift_step(kind, left, size, st), (count - 1) as nat),
    decreases count,
{
    reveal_with_fuel(spec_shift_steps, 2);
    if count > 1 {
        lemma_shift_steps_peel(kind, left, size, st, (count - 1) as nat);
    }
}

/// The data that a rotation gives depends on the data it starts from alone.
proof fn lemma_rotate_data_only(left: bool, size: Size, st1: ShiftState, st2: ShiftState, count: nat)
    requires
        st1.0 == st2.0,
    ensures
        spec_shift_steps(ShiftKind::Rotate, left, size, st1, count).0
            == spec_shift_steps(ShiftKind::Rotate, left, size, st2, count).0,
    decreases count,
{
    if count > 0 {
        lemma_rotate_data_only(left, size, st1, st2, (count - 1) as nat);
    }
}

/// A rotation by one bit followed by one in the other direction gives back the data.
#[verifier::rlimit(40)]
#[verifier::spinoff_prover]
proof fn lemma_rotate_step_back(left: bool, size: Size, st: ShiftState)
    requires
        0 <= st.0 < spec_modulus(size),
    ensures
        spec_shift_step(ShiftKind::Rotate, !left, size, spec_shift_step(ShiftKind::Rotate, left, size, st)).0 == st.0,
{
    let d = st.0;
    let m = spec_modulus(size);
    let h = spec_half(size);
    assert(m == 2 * h && h > 0);
    if left {
        if d < h {
            assert((d * 2) % m == d * 2) by { vstd::arithmetic::div_mod::lemma_small_mod((d * 2) as nat, m as nat); }
        } else {
            assert((d * 2) % m == d * 2 - m) by {
                vstd::arithmetic::div_mod::lemma_mod_sub_multiples_vanish(d * 2, m);
                vstd::arithmetic::div_mod::lemma_small_mod((d * 2 - m) as nat, m as nat);
            }
        }
    } else {
        let bit = d % 2 == 1;
        let r = d / 2 + (if bit { h } else { 0 });
        assert(d == 2 * (d / 2) + d % 2) by { vstd::arithmetic::div_mod::lemma_fundamental_div_mod(d, 2); }
        assert(r >= h <==> bit);
        assert((r * 2) % m == 2 * (d / 2)) by {
            if bit {
                vstd::arithmetic::div_mod::lemma_mod_sub_multiples_vanish(r * 2, m);
            }
            vstd::arithmetic::div_mod::lemma_small_mod((2 * (d / 2)) as nat, m as nat);
        }
    }
}

/// `count` rotations in one direction followed by `count` in the other give back the data.
proof fn lemma_rotate_steps_back(left: bool, size: Size, st: ShiftState, count: nat)
    requires
        0 <= st.0 < spec_modulus(size),
    ensures
        spec_shift_steps(ShiftKind::Rotate, !left, size, spec_shift_steps(ShiftKind::Rotate, left, size, st, count), count).0 == st.0,
    decreases count,
{
    if count > 0 {
        let n1 = (count - 1) as nat;
        let u = spec_shift_steps(ShiftKind::Rotate, left, size, st, n1);
        lemma_shift_steps_fit(ShiftKind::Rotate, left, size, st, n1);
        let lu = spec_shift_step(ShiftKind::Rotate, left, size, u);
        lemma_shift_steps_peel(ShiftKind::Rotate, !left, size, lu, count);
        lemma_rotate_step_back(left, size, u);
        lemma_rotate_data_only(!left, size, spec_shift_step(ShiftKind::Rotate, !left, size, lu), u, n1);
        lemma_rotate_steps_back(left, size, st, n1);
    }
}

/// Rotating the data by `count` bits in one direction (ROL or ROR) then by `count` bits in the
/// other direction gives back the data, whatever the status registers.
pub proof fn lemma_rotate_inverse(left: bool, size: Size, sr: StatusRegister, sr2: StatusRegister, data: u32, count: nat)
    ensures
        spec_shift_result(ShiftKind::Rotate, !left, size, sr2,
            spec_shift_result(ShiftKind::Rotate, left, size, sr, data, count), count) == spec_low(data, size),
{
    let m = spec_modulus(size);
    let st = spec_shift_start(ShiftKind::Rotate, data, size, sr);
    let mid = spec_shift_steps(ShiftKind::Rotate, left, size, st, count);
    lemma_shift_steps_fit(ShiftKind::Rotate, left, size, st, count);
    let r = spec_shift_result(ShiftKind::Rotate, left, size, sr, data, count);
    assert(r as int == mid.0);
    let st2 = spec_shift_start(ShiftKind::Rotate, r, size, sr2);
    assert(st2.0 == mid.0);
    lemma_rotate_data_only(!left, size, st2, mid, count);
    lemma_rotate_steps_back(left, size, st, count);
}

} // verus!
