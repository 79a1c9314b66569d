//! The money model: prices are unsigned integers counting millionths of
//! a currency unit ("micros"), so all price formulas are exact.
use vstd::prelude::*;

verus! {

/// One currency unit expressed in micros.
pub const MICROS_PER_UNIT: u64 = 1_000_000;

/// Hours billed per month: 365 * 24 / 12.
pub const HOURS_PER_MONTH: u64 = 730;

/// The product of two micro-scaled values (a usage amount and a unit
/// price), scaled back down to micros, rounding toward zero.
pub open spec fn mul_scaled(a: int, b: int) -> int {
    (a * b) / (MICROS_PER_UNIT as int)
}

/// Multiplies a micro-scaled usage amount by a micro-scaled unit price.
pub fn mul_scaled_u64(a: u64, b: u64) -> (r: u64)
    requires
        mul_scaled(a as int, b as int) <= u64::MAX,
    ensures
        r == mul_scaled(a as int, b as int),
{
    proof {
        lemma_mul_scaled_bounds(a as int, b as int);
    }
    let wide: u128 = (a as u128) * (b as u128) / (MICROS_PER_UNIT as u128);
    wide as u64
}

/// The scaled product of two nonnegative values is nonnegative and needs
/// no more than 128 bits before the final division.
pub proof fn lemma_mul_scaled_bounds(a: int, b: int)
    requires
        0 <= a <= u64::MAX,
        0 <= b <= u64::MAX,
    ensures
        0 <= a * b <= u128::MAX,
        0 <= mul_scaled(a, b) <= a * b,
{
    assert(0 <= a * b <= u64::MAX * u64::MAX) by (nonlinear_arith)
        requires
            0 <= a <= u64::MAX,
            0 <= b <= u64::MAX,
    ;
    assert(u64::MAX * u64::MAX <= u128::MAX);
    assert(0 <= (a * b) / (MICROS_PER_UNIT as int) <= a * b) by (nonlinear_arith)
        requires
            0 <= a * b,
    ;
}

/// The product of two nonnegative integers is nonnegative.
pub proof fn lemma_mul_nonneg(a: int, b: int)
    requires
        0 <= a,
        0 <= b,
    ensures
        0 <= a * b,
{
    assert(0 <= a * b) by (nonlinear_arith)
        requires
            0 <= a,
            0 <= b,
    ;
}

} // verus!

