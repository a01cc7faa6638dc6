//! Shared numeric utilities: angle conversion, interpolation and the
//! checkerboard predicate.

use vstd::prelude::*;

verus! {

use crate::fx::{
    emod64, fits, fxdiv, fxmul, iabs, lemma_fxmul_bound, lemma_tdiv_bounds, spec_fxdiv,
    spec_fxmul, tdiv, tdiv64,
};
use vstd::arithmetic::div_mod::lemma_div_is_ordered;

/// The circle constant times `SCALE`, rounded to nearest.
pub const PI_FX: i64 = 205887;

/// The exact fixed-point radian value of an angle given in degrees.
pub open spec fn spec_deg2rad(d: int) -> int {
    tdiv(d * PI_FX, (180 * 65536) as int)
}

/// Convert degrees to radians; exact per `spec_deg2rad`.
pub fn degrees_to_radians(degrees: i64) -> (r: i64)
    requires
        iabs(degrees as int) <= 0x100_0000_0000,
    ensures
        r == spec_deg2rad(degrees as int),
{
    proof {
        crate::fx::lemma_tdiv_bounds((degrees as int) * PI_FX, (180 * 65536) as int);
        assert(iabs((degrees as int) * 205887) <= 0x100_0000_0000 * 205887) by (nonlinear_arith)
            requires
                iabs(degrees as int) <= 0x100_0000_0000,
        ;
    }
    let p: i128 = (degrees as i128) * 205887;
    let q: i128 = crate::fx::tdiv_i128(p, 11796480);
    q as i64
}

/// Linear interpolation from `min` to `max` at parameter `t`; exact,
/// rounding included.
pub fn linear_step(t: i64, min: i64, max: i64) -> (r: i64)
    requires
        iabs(min as int) <= 0x100_0000_0000,
        iabs(max as int) <= 0x100_0000_0000,
        iabs(t as int) <= 0x10_0000,
    ensures
        r == min + spec_fxmul(max - min, t as int),
{
    proof {
        lemma_fxmul_bound(max - min, t as int, 0x200_0000_0000, 0x10_0000);
    }
    let d: i64 = max - min;
    min + fxmul(d, t)
}

/// Whether `t` falls on an odd cell of a checkerboard with the given cell
/// size: the quotient, rounded to the nearest whole cell, is odd.
pub open spec fn spec_checkerboard(t: int, size: int) -> bool {
    (spec_fxdiv(t, size) + 32768) % 131072 >= 65536
}

/// Checkerboard parity test; exact per `spec_checkerboard`.
pub fn checkerboard(t: i64, size: i64) -> (r: bool)
    requires
        size != 0,
        fits(spec_fxdiv(t as int, size as int) + 32768),
        fits(spec_fxdiv(t as int, size as int)),
    ensures
        r == spec_checkerboard(t as int, size as int),
{
    let q: i64 = crate::fx::fxdiv(t, size);
    let m: i64 = emod64(q + 32768, 131072);
    m >= 65536
}

/// A quarter turn in fixed-point radians.
pub const PI_HALF_FX: i64 = 102943;

/// An eighth of a turn in fixed-point radians.
pub const PI_QUARTER_FX: i64 = 51472;

/// The tangent of an angle up to an eighth of a turn: the half-angle
/// tangent from a short odd power series, doubled through the half-angle
/// identity. The sentinel large value stands in where the identity's
/// denominator collapses.
pub open spec fn spec_tan_core(x: int) -> int {
    let u = tdiv(x, 2);
    let u2 = spec_fxmul(u, u);
    let u3 = spec_fxmul(u2, u);
    let t3 = tdiv(u3, 3);
    let u5 = spec_fxmul(u3, u2);
    let t5 = tdiv(2 * u5, 15);
    let u7 = spec_fxmul(u5, u2);
    let t7 = tdiv(17 * u7, 315);
    let p = u + t3 + t5 + t7;
    let den = 65536 - spec_fxmul(p, p);
    if den <= 0 {
        0x1000_0000
    } else {
        spec_fxdiv(2 * p, den)
    }
}

/// The tangent over the first quarter turn: directly up to an eighth of a
/// turn, by the cofunction reciprocal above it.
pub open spec fn spec_tan(x: int) -> int {
    if x <= PI_QUARTER_FX {
        spec_tan_core(x)
    } else {
        let t = spec_tan_core(PI_HALF_FX - x);
        if t < 1 {
            0x1000_0000
        } else {
            spec_fxdiv(65536, t)
        }
    }
}

/// The tangent of a fixed-point angle in `[0, PI_HALF_FX]`; exact per
/// `spec_tan`.
pub fn tan_fx(x: i64) -> (r: i64)
    requires
        0 <= x <= PI_HALF_FX,
    ensures
        r == spec_tan(x as int),
        0 <= r <= 0x1_0000_0000,
{
    if x <= PI_QUARTER_FX {
        tan_core(x)
    } else {
        let t = tan_core(PI_HALF_FX - x);
        if t < 1 {
            0x1000_0000
        } else {
            proof {
                lemma_tdiv_bounds(65536int * 65536, t as int);
            }
            fxdiv(65536, t)
        }
    }
}

/// The power-series core of the tangent; exact per `spec_tan_core`.
fn tan_core(x: i64) -> (r: i64)
    requires
        0 <= x <= PI_QUARTER_FX,
    ensures
        r == spec_tan_core(x as int),
        0 <= r <= 0x1_0000_0000,
{
    let u = tdiv64(x, 2);
    proof {
        lemma_tdiv_bounds(x as int, 2);
        lemma_div_is_ordered(iabs(x as int), 51472, 2);
        crate::fx::lemma_tdiv_exact(51472, 2, 25736, 0);
        lemma_fxmul_bound(u as int, u as int, 25736, 25736);
    }
    let u2 = fxmul(u, u);
    proof {
        lemma_fxmul_bound(u2 as int, u as int, 10106, 25736);
    }
    let u3 = fxmul(u2, u);
    let t3 = tdiv64(u3, 3);
    proof {
        lemma_tdiv_bounds(u3 as int, 3);
        lemma_fxmul_bound(u3 as int, u2 as int, 3968, 10106);
    }
    let u5 = fxmul(u3, u2);
    let t5 = tdiv64(2 * u5, 15);
    proof {
        lemma_tdiv_bounds(2 * u5 as int, 15);
        lemma_div_is_ordered(iabs(2 * u5 as int), 1224, 15);
        crate::fx::lemma_tdiv_exact(1224, 15, 81, 9);
        lemma_fxmul_bound(u5 as int, u2 as int, 612, 10106);
    }
    let u7 = fxmul(u5, u2);
    let t7 = tdiv64(17 * u7, 315);
    proof {
        lemma_tdiv_bounds(17 * u7 as int, 315);
        lemma_div_is_ordered(iabs(17 * u7 as int), 1615, 315);
        crate::fx::lemma_tdiv_exact(1615, 315, 5, 40);
    }
    let p = u + t3 + t5 + t7;
    proof {
        lemma_fxmul_bound(p as int, p as int, 32768, 32768);
        lemma_tdiv_bounds((p as int) * (p as int), 65536);
        assert((p as int) * (p as int) >= 0) by (nonlinear_arith);
    }
    let den = 65536 - fxmul(p, p);
    if den <= 0 {
        0x1000_0000
    } else {
        proof {
            lemma_tdiv_bounds((2 * p as int) * 65536, den as int);
            assert(iabs((2 * p as int) * 65536) <= 0x1_0000_0000_0000) by (nonlinear_arith)
                requires
                    iabs(2 * p as int) <= 65536,
            ;
            if p >= 0 {
                assert(tdiv((2 * p as int) * 65536, den as int) >= 0);
            }
        }
        fxdiv(2 * p, den)
    }
}

} // verus!
