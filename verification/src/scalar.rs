//! Saturating arithmetic on coordinates.

use vstd::prelude::*;

verus! {

/// The `i64` nearest to `v`.
pub open spec fn clamp(v: int) -> i64 {
    if v < i64::MIN {
        i64::MIN
    } else if v > i64::MAX {
        i64::MAX
    } else {
        v as i64
    }
}

/// Sum of two coordinates, saturating.
pub open spec fn add_spec(a: i64, b: i64) -> i64 {
    clamp(a + b)
}

/// Difference of two coordinates, saturating.
pub open spec fn sub_spec(a: i64, b: i64) -> i64 {
    clamp(a - b)
}

/// Product of two coordinates, saturating.
pub open spec fn mul_spec(a: i64, b: i64) -> i64 {
    clamp(a * b)
}

/// Negation of a coordinate, saturating.
pub open spec fn neg_spec(a: i64) -> i64 {
    clamp(-a)
}

/// Half of a coordinate, rounded towards zero.
pub open spec fn half_spec(a: i64) -> i64 {
    if a >= 0 {
        (a / 2) as i64
    } else {
        (-((-a) / 2)) as i64
    }
}

fn narrow(v: i128) -> (r: i64)
    ensures
        r == clamp(v as int),
{
    if v < -9223372036854775808i128 {
        i64::MIN
    } else if v > 9223372036854775807i128 {
        i64::MAX
    } else {
        v as i64
    }
}

/// Saturating sum.
pub fn sat_add(a: i64, b: i64) -> (r: i64)
    ensures
        r == add_spec(a, b),
{
    narrow(a as i128 + b as i128)
}

/// Saturating difference.
pub fn sat_sub(a: i64, b: i64) -> (r: i64)
    ensures
        r == sub_spec(a, b),
{
    narrow(a as i128 - b as i128)
}

/// Saturating product.
pub fn sat_mul(a: i64, b: i64) -> (r: i64)
    ensures
        r == mul_spec(a, b),
{
    let wide_a: i128 = a as i128;
    let wide_b: i128 = b as i128;
    assert(-0x4000_0000_0000_0000_0000_0000_0000_0000 <= wide_a * wide_b
        <= 0x4000_0000_0000_0000_0000_0000_0000_0000) by (nonlinear_arith)
        requires
            -0x8000_0000_0000_0000 <= wide_a <= 0x8000_0000_0000_0000,
            -0x8000_0000_0000_0000 <= wide_b <= 0x8000_0000_0000_0000,
    ;
    narrow(wide_a * wide_b)
}

/// Saturating negation.
pub fn sat_neg(a: i64) -> (r: i64)
    ensures
        r == neg_spec(a),
{
    narrow(-(a as i128))
}

/// Half of `a`, rounded towards zero.
pub fn half(a: i64) -> (r: i64)
    ensures
        r == half_spec(a),
{
    if a >= 0 {
        a / 2
    } else {
        let m: i128 = -(a as i128);
        let q: i128 = m / 2;
        (-q) as i64
    }
}

} // verus!
