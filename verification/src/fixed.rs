//! Fixed-point scalar arithmetic for the delay line.
//!
//! A signal sample or a normalized control value is an `i32` counted in
//! millionths: the value `SCALE` stands for 1.0. Products are divided back
//! by `SCALE` with truncation toward zero, and every result saturates to
//! the `i32` range instead of overflowing, so the per-sample path can never
//! panic however extreme the host-supplied values are.

use vstd::prelude::*;

verus! {

/// Number of fixed-point steps that stand for the real value 1.0.
pub const SCALE: i32 = 1_000_000;

/// Clamp an unbounded integer to the `i32` range.
pub open spec fn sat_i32(x: int) -> int {
    if x > i32::MAX as int {
        i32::MAX as int
    } else if x < i32::MIN as int {
        i32::MIN as int
    } else {
        x
    }
}

/// Integer division truncating toward zero (the rounding that the
/// executable magnitude-based division performs).
pub open spec fn div_trunc(p: int, s: int) -> int
    recommends
        s > 0,
{
    if p >= 0 {
        p / s
    } else {
        -((-p) / s)
    }
}

/// The fixed-point product: multiply, scale back down with truncation
/// toward zero, and saturate to the `i32` range.
pub open spec fn mul_fixed_spec(a: int, b: int) -> int {
    sat_i32(div_trunc(a * b, SCALE as int))
}

/// The saturating fixed-point sum.
pub open spec fn sat_add_spec(a: int, b: int) -> int {
    sat_i32(a + b)
}

/// Saturate a 64-bit value to the `i32` range.
pub fn sat_i32_of_i64(x: i64) -> (r: i32)
    ensures
        r as int == sat_i32(x as int),
{
    if x > i32::MAX as i64 {
        i32::MAX
    } else if x < i32::MIN as i64 {
        i32::MIN
    } else {
        x as i32
    }
}

/// Saturating addition of two fixed-point scalars.
pub fn sat_add(a: i32, b: i32) -> (r: i32)
    ensures
        r as int == sat_add_spec(a as int, b as int),
{
    sat_i32_of_i64(a as i64 + b as i64)
}

/// Fixed-point multiplication: `a * b / SCALE`, truncated toward zero and
/// saturated to the `i32` range.
pub fn mul_fixed(a: i32, b: i32) -> (r: i32)
    ensures
        r as int == mul_fixed_spec(a as int, b as int),
{
    let am: u64 = if a >= 0 {
        a as u64
    } else {
        (-(a as i64)) as u64
    };
    let bm: u64 = if b >= 0 {
        b as u64
    } else {
        (-(b as i64)) as u64
    };
    proof {
        assert(am * bm <= 0x8000_0000u64 * 0x8000_0000u64) by (nonlinear_arith)
            requires
                am <= 0x8000_0000u64,
                bm <= 0x8000_0000u64;
    }
    let q: u64 = (am * bm) / (SCALE as u64);
    let neg: bool = (a < 0) != (b < 0);
    proof {
        lemma_magnitude_product(a as int, b as int, am as int, bm as int);
    }
    if neg {
        if q > 0x8000_0000u64 {
            i32::MIN
        } else {
            (-(q as i64)) as i32
        }
    } else {
        if q > i32::MAX as u64 {
            i32::MAX
        } else {
            q as i32
        }
    }
}

/// The product of two integers is the signed product of their magnitudes,
/// and truncating division of the product follows the magnitudes.
proof fn lemma_magnitude_product(a: int, b: int, am: int, bm: int)
    requires
        am == if a >= 0 { a } else { -a },
        bm == if b >= 0 { b } else { -b },
    ensures
        (a >= 0) == (b >= 0) || a == 0 || b == 0 ==> a * b == am * bm,
        !((a >= 0) == (b >= 0)) ==> a * b == -(am * bm),
        am * bm >= 0,
        div_trunc(a * b, SCALE as int) == if a * b >= 0 {
            (am * bm) / (SCALE as int)
        } else {
            -((am * bm) / (SCALE as int))
        },
{
    assert((a >= 0) == (b >= 0) || a == 0 || b == 0 ==> a * b == am * bm) by (nonlinear_arith)
        requires
            am == if a >= 0 { a } else { -a },
            bm == if b >= 0 { b } else { -b };
    assert(!((a >= 0) == (b >= 0)) ==> a * b == -(am * bm)) by (nonlinear_arith)
        requires
            am == if a >= 0 { a } else { -a },
            bm == if b >= 0 { b } else { -b };
    assert(am * bm >= 0) by (nonlinear_arith)
        requires
            am >= 0,
            bm >= 0;
}

/// Zero is absorbing for the fixed-point product.
pub proof fn lemma_mul_fixed_zero(x: int)
    ensures
        mul_fixed_spec(0, x) == 0,
        mul_fixed_spec(x, 0) == 0,
{
    assert(0 * x == 0) by (nonlinear_arith);
    assert(x * 0 == 0) by (nonlinear_arith);
}

/// `SCALE` is fixed-point 1.0: multiplying an in-range value by it is
/// the identity.
pub proof fn lemma_mul_fixed_one(x: int)
    requires
        i32::MIN as int <= x <= i32::MAX as int,
    ensures
        mul_fixed_spec(x, SCALE as int) == x,
{
    if x >= 0 {
        vstd::arithmetic::div_mod::lemma_fundamental_div_mod_converse(
            x * SCALE as int,
            SCALE as int,
            x,
            0,
        );
    } else {
        assert(-(x * SCALE as int) == (-x) * SCALE as int) by (nonlinear_arith);
        vstd::arithmetic::div_mod::lemma_fundamental_div_mod_converse(
            (-x) * SCALE as int,
            SCALE as int,
            -x,
            0,
        );
    }
}

} // verus!
