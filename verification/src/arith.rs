//! Integer helpers shared by the geometry and animation code.
//!
//! Every length, coordinate and scale in this crate is a whole number of
//! small fixed steps, so the formulas of the engine are integer formulas with
//! floor division. The helpers here compute them without overflow.

use vstd::prelude::*;
use vstd::arithmetic::div_mod::lemma_fundamental_div_mod_converse;
use vstd::arithmetic::div_mod::lemma_fundamental_div_mod;

verus! {

/// `v` confined to the closed range `[-limit, limit]`.
pub open spec fn clamp(v: int, limit: int) -> int {
    if v < -limit {
        -limit
    } else if v > limit {
        limit
    } else {
        v
    }
}

/// The absolute value of `v`.
pub open spec fn magnitude(v: int) -> int {
    if v < 0 {
        -v
    } else {
        v
    }
}

/// A product is bounded by the product of the bounds of its factors.
pub proof fn lemma_mul_bounds(a: int, b: int, bound_a: int, bound_b: int)
    requires
        -bound_a <= a <= bound_a,
        -bound_b <= b <= bound_b,
    ensures
        -(bound_a * bound_b) <= a * b <= bound_a * bound_b,
{
    assert(-(bound_a * bound_b) <= a * b <= bound_a * bound_b) by (nonlinear_arith)
        requires
            -bound_a <= a <= bound_a,
            -bound_b <= b <= bound_b,
    ;
}

/// Floor division is monotone in the dividend and keeps its sign.
pub proof fn lemma_floor_div_bounds(a: int, b: int, bound: int)
    requires
        b >= 1,
        -bound <= a <= bound,
    ensures
        -bound <= a / b <= bound,
{
    lemma_fundamental_div_mod(a, b);
    assert(-bound <= a / b <= bound) by (nonlinear_arith)
        requires
            b >= 1,
            -bound <= a <= bound,
            a == b * (a / b) + a % b,
            0 <= a % b < b,
    ;
}

/// Confines a wide value to `[-limit, limit]`.
pub fn saturate(v: i128, limit: i64) -> (r: i64)
    requires
        limit >= 0,
    ensures
        r == clamp(v as int, limit as int),
{
    if v < -(limit as i128) {
        -limit
    } else if v > limit as i128 {
        limit
    } else {
        v as i64
    }
}

/// Division rounding toward negative infinity, which is what `/` means in
/// the contracts of this crate.
pub fn floor_div(a: i128, b: i128) -> (q: i128)
    requires
        b > 0,
        a > i128::MIN,
    ensures
        q == a as int / b as int,
{
    if a >= 0 {
        a / b
    } else {
        let n: i128 = -(a + 1);
        let t: i128 = n / b;
        let r: i128 = n % b;
        proof {
            lemma_fundamental_div_mod(n as int, b as int);
            assert(a as int == (-t - 1) * b + (b - 1 - r)) by (nonlinear_arith)
                requires
                    n == b * t + r,
                    a == -n - 1,
            ;
            lemma_fundamental_div_mod_converse(a as int, b as int, -t - 1, b - 1 - r);
        }
        -t - 1
    }
}

/// The product of two 64-bit values, which always fits in 128 bits.
pub fn mul_wide(a: i64, b: i64) -> (p: i128)
    ensures
        p == a as int * b as int,
{
    proof {
        lemma_mul_bounds(a as int, b as int, 0x8000_0000_0000_0000, 0x8000_0000_0000_0000);
    }
    (a as i128) * (b as i128)
}

} // verus!
