//! IEEE 754 comparisons on the bit patterns of single- and double-precision
//! values.
//!
//! Scene values reach the library as the raw bits of their floating-point
//! encoding (`f32::to_bits` / `f64::to_bits`). Every check the GPU support
//! logic performs on them is a classification (`is_finite`) or an ordered
//! comparison against another value, and both are exact functions of the
//! bits: NaN is the all-ones exponent with a non-zero fraction, infinities
//! have the all-ones exponent and a zero fraction, and on the remaining
//! patterns the numeric order coincides with the order of the signed
//! magnitude (so `-0.0 == 0.0`).
use vstd::prelude::*;

verus! {

/// Bit pattern of `0.0_f32`.
pub const F32_ZERO: u32 = 0x0000_0000;

/// Bit pattern of `1.0_f32`.
pub const F32_ONE: u32 = 0x3F80_0000;

/// Bit pattern of `2.0_f32`.
pub const F32_TWO: u32 = 0x4000_0000;

/// Bit pattern of `10.0_f32`.
pub const F32_TEN: u32 = 0x4120_0000;

/// Bit pattern of `0.0_f64`.
pub const F64_ZERO: u64 = 0;

/// Sign bit of a single-precision pattern (0 or 1).
pub open spec fn f32_sign(bits: u32) -> int {
    bits as int / 0x8000_0000
}

/// Biased exponent field of a single-precision pattern.
pub open spec fn f32_exponent(bits: u32) -> int {
    (bits as int / 0x80_0000) % 256
}

/// Fraction field of a single-precision pattern.
pub open spec fn f32_fraction(bits: u32) -> int {
    bits as int % 0x80_0000
}

/// Everything but the sign bit.
pub open spec fn f32_magnitude(bits: u32) -> int {
    bits as int % 0x8000_0000
}

pub open spec fn f32_bits_nan(bits: u32) -> bool {
    f32_exponent(bits) == 255 && f32_fraction(bits) != 0
}

/// `f32::is_finite` on the decoded value.
pub open spec fn f32_bits_finite(bits: u32) -> bool {
    f32_exponent(bits) != 255
}

/// A key whose integer order is the numeric order of non-NaN values.
pub open spec fn f32_order_key(bits: u32) -> int {
    if f32_sign(bits) == 0 {
        f32_magnitude(bits)
    } else {
        -f32_magnitude(bits)
    }
}

/// `a <= b` on the decoded values (false when either is NaN).
pub open spec fn f32_bits_le(a: u32, b: u32) -> bool {
    !f32_bits_nan(a) && !f32_bits_nan(b) && f32_order_key(a) <= f32_order_key(b)
}

/// `a < b` on the decoded values (false when either is NaN).
pub open spec fn f32_bits_lt(a: u32, b: u32) -> bool {
    !f32_bits_nan(a) && !f32_bits_nan(b) && f32_order_key(a) < f32_order_key(b)
}

/// `a == b` on the decoded values (false when either is NaN).
pub open spec fn f32_bits_eq(a: u32, b: u32) -> bool {
    !f32_bits_nan(a) && !f32_bits_nan(b) && f32_order_key(a) == f32_order_key(b)
}

/// `(lo..=hi).contains(&v)` on the decoded values.
pub open spec fn f32_bits_within(v: u32, lo: u32, hi: u32) -> bool {
    f32_bits_le(lo, v) && f32_bits_le(v, hi)
}

pub open spec fn f64_sign(bits: u64) -> int {
    bits as int / 0x8000_0000_0000_0000
}

pub open spec fn f64_exponent(bits: u64) -> int {
    (bits as int / 0x10_0000_0000_0000) % 2048
}

pub open spec fn f64_fraction(bits: u64) -> int {
    bits as int % 0x10_0000_0000_0000
}

pub open spec fn f64_magnitude(bits: u64) -> int {
    bits as int % 0x8000_0000_0000_0000
}

pub open spec fn f64_bits_nan(bits: u64) -> bool {
    f64_exponent(bits) == 2047 && f64_fraction(bits) != 0
}

/// `f64::is_finite` on the decoded value.
pub open spec fn f64_bits_finite(bits: u64) -> bool {
    f64_exponent(bits) != 2047
}

pub open spec fn f64_order_key(bits: u64) -> int {
    if f64_sign(bits) == 0 {
        f64_magnitude(bits)
    } else {
        -f64_magnitude(bits)
    }
}

/// `a < b` on the decoded double-precision values.
pub open spec fn f64_bits_lt(a: u64, b: u64) -> bool {
    !f64_bits_nan(a) && !f64_bits_nan(b) && f64_order_key(a) < f64_order_key(b)
}

pub fn f32_is_nan(bits: u32) -> (r: bool)
    ensures
        r == f32_bits_nan(bits),
{
    (bits / 0x80_0000) % 256 == 255 && bits % 0x80_0000 != 0
}

pub fn f32_is_finite(bits: u32) -> (r: bool)
    ensures
        r == f32_bits_finite(bits),
{
    (bits / 0x80_0000) % 256 != 255
}

fn f32_key(bits: u32) -> (k: i64)
    ensures
        k == f32_order_key(bits),
{
    let magnitude: i64 = (bits % 0x8000_0000) as i64;
    if bits / 0x8000_0000 == 0 {
        magnitude
    } else {
        -magnitude
    }
}

pub fn f32_le(a: u32, b: u32) -> (r: bool)
    ensures
        r == f32_bits_le(a, b),
{
    !f32_is_nan(a) && !f32_is_nan(b) && f32_key(a) <= f32_key(b)
}

pub fn f32_lt(a: u32, b: u32) -> (r: bool)
    ensures
        r == f32_bits_lt(a, b),
{
    !f32_is_nan(a) && !f32_is_nan(b) && f32_key(a) < f32_key(b)
}

pub fn f32_eq(a: u32, b: u32) -> (r: bool)
    ensures
        r == f32_bits_eq(a, b),
{
    !f32_is_nan(a) && !f32_is_nan(b) && f32_key(a) == f32_key(b)
}

pub fn f32_within(v: u32, lo: u32, hi: u32) -> (r: bool)
    ensures
        r == f32_bits_within(v, lo, hi),
{
    f32_le(lo, v) && f32_le(v, hi)
}

pub fn f64_is_nan(bits: u64) -> (r: bool)
    ensures
        r == f64_bits_nan(bits),
{
    (bits / 0x10_0000_0000_0000) % 2048 == 2047 && bits % 0x10_0000_0000_0000 != 0
}

pub fn f64_is_finite(bits: u64) -> (r: bool)
    ensures
        r == f64_bits_finite(bits),
{
    (bits / 0x10_0000_0000_0000) % 2048 != 2047
}

fn f64_key(bits: u64) -> (k: i128)
    ensures
        k == f64_order_key(bits),
{
    let magnitude: i128 = (bits % 0x8000_0000_0000_0000) as i128;
    if bits / 0x8000_0000_0000_0000 == 0 {
        magnitude
    } else {
        -magnitude
    }
}

pub fn f64_lt(a: u64, b: u64) -> (r: bool)
    ensures
        r == f64_bits_lt(a, b),
{
    !f64_is_nan(a) && !f64_is_nan(b) && f64_key(a) < f64_key(b)
}

} // verus!
