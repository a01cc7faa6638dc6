//! Fixed-point scalar arithmetic.
//!
//! A scalar is an `i64` whose mathematical value is the integer divided by
//! `SCALE`. Products and quotients are rounded toward zero; every operation
//! states its exact result, rounding included, so callers reason about the
//! numbers the machine really computes.

use vstd::prelude::*;

verus! {

use vstd::arithmetic::div_mod::{
    lemma_fundamental_div_mod,
    lemma_fundamental_div_mod_converse,
    lemma_div_nonincreasing,
    lemma_div_pos_is_pos,
    lemma_mod_bound,
};

/// One whole unit: fixed-point values carry this many sub-unit steps.
pub const SCALE: i64 = 65536;

/// Largest magnitude an `i64` scalar is allowed to take; symmetric so that
/// negation never overflows.
pub const FX_MAX: i64 = 0x7fff_ffff_ffff_ffff;

/// Absolute value of a mathematical integer.
pub open spec fn iabs(a: int) -> int {
    if a >= 0 {
        a
    } else {
        -a
    }
}

/// Division rounded toward zero, as the machine performs it.
pub open spec fn tdiv(a: int, b: int) -> int {
    if (a >= 0) == (b >= 0) {
        iabs(a) / iabs(b)
    } else {
        -(iabs(a) / iabs(b))
    }
}

/// The exact value of a fixed-point product.
pub open spec fn spec_fxmul(a: int, b: int) -> int {
    tdiv(a * b, SCALE as int)
}

/// The exact value of a fixed-point quotient.
pub open spec fn spec_fxdiv(a: int, b: int) -> int {
    tdiv(a * (SCALE as int), b)
}

/// Whether a mathematical integer can stand in an `i64` scalar.
pub open spec fn fits(a: int) -> bool {
    -(FX_MAX as int) <= a <= FX_MAX as int
}

proof fn lemma_abs_div_bound(a: int, b: int)
    requires
        a >= 0,
        b >= 1,
    ensures
        0 <= a / b <= a,
{
    lemma_div_pos_is_pos(a, b);
    lemma_div_nonincreasing(a, b);
}

/// Truncating division knows the quotient's sign and magnitude bound.
pub proof fn lemma_tdiv_bounds(a: int, b: int)
    requires
        b != 0,
    ensures
        iabs(tdiv(a, b)) <= iabs(a),
        iabs(tdiv(a, b)) == iabs(a) / iabs(b),
        a >= 0 && b > 0 ==> 0 <= tdiv(a, b),
        a <= 0 && b > 0 ==> tdiv(a, b) <= 0,
{
    lemma_abs_div_bound(iabs(a), iabs(b));
}

/// A floor square root does not exceed any number whose square bounds the
/// radicand.
pub proof fn lemma_sqrt_le(x: int, b: int)
    requires
        0 <= x,
        0 <= b,
        x <= b * b,
    ensures
        sqrt_floor(x) <= b,
{
    lemma_sqrt_floor(x);
    if sqrt_floor(x) > b {
        assert((b + 1) * (b + 1) <= sqrt_floor(x) * sqrt_floor(x)) by (nonlinear_arith)
            requires
                0 <= b,
                b + 1 <= sqrt_floor(x),
        ;
        assert(b * b < (b + 1) * (b + 1)) by (nonlinear_arith)
            requires
                0 <= b,
        ;
    }
}

/// Pin down a truncating quotient of nonnegative operands from its
/// decomposition into quotient and remainder.
pub proof fn lemma_tdiv_exact(a: int, b: int, q: int, r: int)
    requires
        b > 0,
        a >= 0,
        0 <= r < b,
        a == q * b + r,
    ensures
        tdiv(a, b) == q,
{
    lemma_fundamental_div_mod_converse(a, b, q, r);
}

/// A truncating quotient of nonnegative operands is bounded by any `q`
/// whose product with the divisor covers the dividend.
pub proof fn lemma_tdiv_le(a: int, b: int, q: int)
    requires
        b > 0,
        0 <= q,
        0 <= a <= q * b,
    ensures
        0 <= tdiv(a, b) <= q,
{
    lemma_tdiv_bounds(a, b);
    vstd::arithmetic::div_mod::lemma_div_is_ordered(a, q * b, b);
    vstd::arithmetic::div_mod::lemma_div_multiples_vanish(q, b);
    assert(q * b == b * q) by (nonlinear_arith);
}

/// A fixed-point product of bounded factors is bounded by the scaled-down
/// product of the bounds.
pub proof fn lemma_fxmul_bound(a: int, b: int, ba: int, bb: int)
    requires
        iabs(a) <= ba,
        iabs(b) <= bb,
    ensures
        iabs(a * b) <= ba * bb,
        iabs(spec_fxmul(a, b)) <= (ba * bb) / (SCALE as int),
        iabs(spec_fxmul(a, b)) * (SCALE as int) <= ba * bb,
{
    assert(iabs(a * b) <= ba * bb) by (nonlinear_arith)
        requires
            iabs(a) <= ba,
            iabs(b) <= bb,
    ;
    lemma_tdiv_bounds(a * b, SCALE as int);
    vstd::arithmetic::div_mod::lemma_div_is_ordered(iabs(a * b), ba * bb, SCALE as int);
    lemma_fundamental_div_mod(iabs(a * b), SCALE as int);
    lemma_mod_bound(iabs(a * b), SCALE as int);
}

/// Division rounded toward zero, computed on machine integers.
///
/// The working range leaves room to negate both operands.
pub fn tdiv_i128(a: i128, b: i128) -> (q: i128)
    requires
        b != 0,
        -0x4000_0000_0000_0000_0000_0000_0000_0000 <= a
            <= 0x4000_0000_0000_0000_0000_0000_0000_0000,
        -0x4000_0000_0000_0000_0000_0000_0000_0000 <= b
            <= 0x4000_0000_0000_0000_0000_0000_0000_0000,
    ensures
        q == tdiv(a as int, b as int),
{
    let an: u128 = if a >= 0 {
        a as u128
    } else {
        (-a) as u128
    };
    let bn: u128 = if b >= 0 {
        b as u128
    } else {
        (-b) as u128
    };
    proof {
        assert(an == iabs(a as int));
        assert(bn == iabs(b as int));
        lemma_abs_div_bound(an as int, bn as int);
    }
    let qn: u128 = an / bn;
    if (a >= 0) == (b >= 0) {
        qn as i128
    } else {
        -(qn as i128)
    }
}

/// Truncating division on scalars; exact per `tdiv`.
pub fn tdiv64(a: i64, b: i64) -> (r: i64)
    requires
        b != 0,
        fits(a as int),
    ensures
        r == tdiv(a as int, b as int),
{
    proof {
        lemma_tdiv_bounds(a as int, b as int);
    }
    let q: i128 = tdiv_i128(a as i128, b as i128);
    q as i64
}

/// Fixed-point multiplication; exact per `spec_fxmul`.
pub fn fxmul(a: i64, b: i64) -> (r: i64)
    requires
        fits(spec_fxmul(a as int, b as int)),
    ensures
        r == spec_fxmul(a as int, b as int),
{
    proof {
        assert((a as int) * (b as int) <= 0x4000_0000_0000_0000_0000_0000_0000_0000
            && (a as int) * (b as int) >= -0x4000_0000_0000_0000_0000_0000_0000_0000)
            by (nonlinear_arith)
            requires
                -0x8000_0000_0000_0000 <= a as int <= 0x7fff_ffff_ffff_ffff,
                -0x8000_0000_0000_0000 <= b as int <= 0x7fff_ffff_ffff_ffff,
        ;
    }
    let p: i128 = (a as i128) * (b as i128);
    let q: i128 = tdiv_i128(p, 65536);
    q as i64
}

/// Fixed-point division; exact per `spec_fxdiv`.
pub fn fxdiv(a: i64, b: i64) -> (r: i64)
    requires
        b != 0,
        fits(spec_fxdiv(a as int, b as int)),
    ensures
        r == spec_fxdiv(a as int, b as int),
{
    let p: i128 = (a as i128) * 65536;
    let q: i128 = tdiv_i128(p, b as i128);
    q as i64
}

/// Fixed-point division that reports, instead of requiring, representability.
///
/// `None` exactly when the divisor is zero or the true quotient cannot stand
/// in a scalar; such rays and scale factors are treated as degenerate by the
/// geometry code.
pub fn fxdiv_checked(a: i64, b: i64) -> (r: Option<i64>)
    ensures
        r is Some <==> b != 0 && fits(spec_fxdiv(a as int, b as int)),
        r is Some ==> r->Some_0 == spec_fxdiv(a as int, b as int),
{
    if b == 0 {
        return None;
    }
    let p: i128 = (a as i128) * 65536;
    let q: i128 = tdiv_i128(p, b as i128);
    if q > 0x7fff_ffff_ffff_ffff || q < -0x7fff_ffff_ffff_ffff {
        None
    } else {
        Some(q as i64)
    }
}

/// Floor of the square root of a natural number.
pub open spec fn sqrt_floor(x: int) -> int
    decreases x,
{
    if x < 1 {
        0
    } else {
        let s = sqrt_floor(x / 4);
        if (2 * s + 1) * (2 * s + 1) <= x {
            2 * s + 1
        } else {
            2 * s
        }
    }
}

/// `sqrt_floor` is the floor of the square root: it brackets its argument
/// between consecutive squares.
pub proof fn lemma_sqrt_floor(x: int)
    requires
        x >= 0,
    ensures
        0 <= sqrt_floor(x),
        sqrt_floor(x) * sqrt_floor(x) <= x,
        x < (sqrt_floor(x) + 1) * (sqrt_floor(x) + 1),
    decreases x,
{
    if x < 1 {
    } else {
        let s = sqrt_floor(x / 4);
        lemma_fundamental_div_mod(x, 4);
        lemma_mod_bound(x, 4);
        lemma_sqrt_floor(x / 4);
        assert(4 * s * s <= 4 * (x / 4) && x < 4 * (s + 1) * (s + 1)) by (nonlinear_arith)
            requires
                s * s <= x / 4 < (s + 1) * (s + 1),
                x == 4 * (x / 4) + x % 4,
                0 <= x % 4 < 4,
        ;
        if (2 * s + 1) * (2 * s + 1) <= x {
            assert(x < (2 * s + 2) * (2 * s + 2)) by (nonlinear_arith)
                requires
                    x < 4 * (s + 1) * (s + 1),
            ;
        } else {
            assert((2 * s) * (2 * s) <= x) by (nonlinear_arith)
                requires
                    4 * s * s <= 4 * (x / 4),
                    x == 4 * (x / 4) + x % 4,
                    0 <= x % 4,
            ;
        }
    }
}

/// Two numbers bracketed between the same consecutive squares are equal.
pub proof fn lemma_sqrt_unique(x: int, a: int, b: int)
    requires
        0 <= a,
        0 <= b,
        a * a <= x < (a + 1) * (a + 1),
        b * b <= x < (b + 1) * (b + 1),
    ensures
        a == b,
{
    if a < b {
        assert((a + 1) * (a + 1) <= b * b) by (nonlinear_arith)
            requires
                0 <= a,
                a + 1 <= b,
        ;
    }
    if b < a {
        assert((b + 1) * (b + 1) <= a * a) by (nonlinear_arith)
            requires
                0 <= b,
                b + 1 <= a,
        ;
    }
}

/// Integer square root by bisection; exact per `sqrt_floor`.
pub fn isqrt(x: u128) -> (r: u64)
    ensures
        r == sqrt_floor(x as int),
{
    proof {
        lemma_sqrt_floor(x as int);
    }
    if x == 0 {
        proof {
            lemma_sqrt_unique(x as int, 0, sqrt_floor(x as int));
        }
        return 0;
    }
    let mut lo: u128 = 0;
    let mut hi: u128 = 0x1_0000_0000_0000_0000;
    proof {
        assert((x as int) < (hi as int) * (hi as int)) by (nonlinear_arith)
            requires
                x <= 0xffff_ffff_ffff_ffff_ffff_ffff_ffff_ffff,
                hi == 0x1_0000_0000_0000_0000,
        ;
    }
    while lo + 1 < hi
        invariant
            lo < hi,
            hi <= 0x1_0000_0000_0000_0000,
            (lo as int) * (lo as int) <= x as int,
            (x as int) < (hi as int) * (hi as int),
        decreases hi - lo,
    {
        let mid: u128 = lo + (hi - lo) / 2;
        proof {
            assert(mid < hi);
            assert(lo < mid);
            assert((mid as int) * (mid as int) < 0x1_0000_0000_0000_0000_0000_0000_0000_0000)
                by (nonlinear_arith)
                requires
                    mid < 0x1_0000_0000_0000_0000,
            ;
        }
        if mid * mid <= x {
            lo = mid;
        } else {
            hi = mid;
        }
    }
    proof {
        lemma_sqrt_unique(x as int, lo as int, sqrt_floor(x as int));
    }
    lo as u64
}

/// Fixed-point square root of a nonnegative scalar; exact per `sqrt_floor`
/// of the scaled radicand.
pub fn fxsqrt(a: i64) -> (r: i64)
    requires
        a >= 0,
    ensures
        r == sqrt_floor(a * SCALE),
        r >= 0,
{
    let x: u128 = (a as u128) * 65536;
    let r: u64 = isqrt(x);
    proof {
        lemma_sqrt_floor(x as int);
        assert((r as int) <= 0x200_0000_0000) by (nonlinear_arith)
            requires
                (r as int) * (r as int) <= x as int,
                x as int <= 0x7fff_ffff_ffff_ffff * 0x1_0000,
                r >= 0,
        ;
    }
    r as i64
}

/// Euclidean remainder by a positive modulus, on machine integers.
pub fn emod64(a: i64, m: i64) -> (r: i64)
    requires
        m > 0,
    ensures
        r == (a as int) % (m as int),
        0 <= r < m,
{
    if a >= 0 {
        let r: u64 = (a as u64) % (m as u64);
        r as i64
    } else {
        let n: u128 = (-(a as i128)) as u128;
        let r0: u128 = n % (m as u128);
        proof {
            lemma_fundamental_div_mod(n as int, m as int);
            lemma_mod_bound(n as int, m as int);
            let q = (n as int) / (m as int);
            assert(n == (m as int) * q + r0);
            if r0 == 0 {
                assert((a as int) == (-q) * (m as int) + 0) by (nonlinear_arith)
                    requires
                        (a as int) == -(n as int),
                        (n as int) == (m as int) * q + 0,
                        r0 == 0,
                ;
                lemma_fundamental_div_mod_converse(a as int, m as int, -q, 0);
            } else {
                assert((a as int) == (-q - 1) * (m as int) + ((m as int) - (r0 as int)))
                    by (nonlinear_arith)
                    requires
                        (a as int) == -(n as int),
                        (n as int) == (m as int) * q + r0,
                ;
                lemma_fundamental_div_mod_converse(a as int, m as int, -q - 1, m - r0);
            }
        }
        if r0 == 0 {
            0
        } else {
            (m as u128 - r0) as i64
        }
    }
}

/// The smaller of two scalars.
pub fn fxmin(a: i64, b: i64) -> (r: i64)
    ensures
        r == if a <= b { a as int } else { b as int },
{
    if a <= b {
        a
    } else {
        b
    }
}

/// The larger of two scalars.
pub fn fxmax(a: i64, b: i64) -> (r: i64)
    ensures
        r == if a >= b { a as int } else { b as int },
{
    if a >= b {
        a
    } else {
        b
    }
}

/// A scalar clamped into a closed interval.
pub fn fxclamp(x: i64, lo: i64, hi: i64) -> (r: i64)
    requires
        lo <= hi,
    ensures
        r == if x < lo {
            lo as int
        } else if x > hi {
            hi as int
        } else {
            x as int
        },
        lo <= r <= hi,
{
    if x < lo {
        lo
    } else if x > hi {
        hi
    } else {
        x
    }
}

} // verus!
