//! Fixed-point scalars.
//!
//! Energy scores, conductivity, pressure, pulse phase, reach intensity and the
//! thresholds they are compared against are unsigned fixed-point numbers with
//! six decimal places held in a `u64`: the integer `n` stands for the real
//! number `n / 1_000_000`. Durations and timestamps are whole milliseconds.

use vstd::prelude::*;

verus! {

/// The fixed-point representation of `1.0`.
pub const UNIT: u64 = 1_000_000;

/// The smaller of two integers.
pub open spec fn min_of(a: int, b: int) -> int {
    if a <= b {
        a
    } else {
        b
    }
}

/// The larger of two integers.
pub open spec fn max_of(a: int, b: int) -> int {
    if a >= b {
        a
    } else {
        b
    }
}

/// The distance between two integers.
pub open spec fn gap(a: int, b: int) -> int {
    if a >= b {
        a - b
    } else {
        b - a
    }
}

/// `value` cut off at the largest `u64`.
pub open spec fn saturate(value: int) -> int {
    min_of(value, u64::MAX as int)
}

pub fn min_u64(a: u64, b: u64) -> (r: u64)
    ensures
        r == min_of(a as int, b as int),
{
    if a <= b {
        a
    } else {
        b
    }
}

pub fn max_u64(a: u64, b: u64) -> (r: u64)
    ensures
        r == max_of(a as int, b as int),
{
    if a >= b {
        a
    } else {
        b
    }
}

pub fn gap_u64(a: u64, b: u64) -> (r: u64)
    ensures
        r == gap(a as int, b as int),
{
    if a >= b {
        a - b
    } else {
        b - a
    }
}

/// `a + b`, cut off at the largest `u64`.
pub fn add_saturating(a: u64, b: u64) -> (r: u64)
    ensures
        r == saturate(a + b),
{
    if a > u64::MAX - b {
        u64::MAX
    } else {
        a + b
    }
}

/// The product `a * b` divided by `divisor`, rounded down and cut off at the
/// largest `u64`.
pub fn mul_div(a: u64, b: u64, divisor: u64) -> (r: u64)
    requires
        divisor > 0,
    ensures
        r == saturate((a * b) / (divisor as int)),
{
    assert(a * b <= 0xffff_ffff_ffff_ffff * 0xffff_ffff_ffff_ffff) by (nonlinear_arith)
        requires
            a <= 0xffff_ffff_ffff_ffff,
            b <= 0xffff_ffff_ffff_ffff,
    ;
    let wide: u128 = (a as u128) * (b as u128);
    let q: u128 = wide / (divisor as u128);
    if q > u64::MAX as u128 {
        u64::MAX
    } else {
        q as u64
    }
}

} // verus!
