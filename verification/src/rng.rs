//! Random number supply.
//!
//! The generator itself comes from the `rand` crate; the library sees it
//! through two trusted functions. Nothing is assumed of a draw beyond its
//! range, so everything proved downstream holds for every outcome.

use rand::Rng;
use rand::SeedableRng;
use vstd::prelude::*;

verus! {

use crate::fx::{iabs, spec_fxmul};
use vstd::arithmetic::div_mod::{lemma_div_is_ordered, lemma_div_multiples_vanish};

#[verifier::external_type_specification]
#[verifier::external_body]
pub struct ExStdRng(rand::rngs::StdRng);

/// Relies on rand's `SeedableRng::seed_from_u64`: builds a generator from a
/// seed. Nothing is assumed about the stream it produces.
#[verifier::external_body]
pub fn rng_from_seed(seed: u64) -> (r: rand::rngs::StdRng)
{
    rand::rngs::StdRng::seed_from_u64(seed)
}

/// Relies on rand's `Rng::gen_range` over `0..n`, which returns a value of
/// that half-open range and panics only when the range is empty.
#[verifier::external_body]
pub fn rng_below(rng: &mut rand::rngs::StdRng, n: u64) -> (r: u64)
    requires
        n >= 1,
    ensures
        r < n,
{
    rng.gen_range(0..n)
}

/// A uniform draw from `[0, 1)` in fixed point.
pub fn random_double(rng: &mut rand::rngs::StdRng) -> (r: i64)
    ensures
        0 <= r < 65536,
{
    let d: u64 = rng_below(rng, 65536);
    d as i64
}

/// A uniform draw from `[min, max]` in fixed point: `min` plus a random
/// fraction of the span.
pub fn random_double_range(min: i64, max: i64, rng: &mut rand::rngs::StdRng) -> (r: i64)
    requires
        crate::fx::iabs(min as int) <= 0x100_0000_0000,
        crate::fx::iabs(max as int) <= 0x100_0000_0000,
    ensures
        exists|t: int| 0 <= t < 65536 && r == min + #[trigger] spec_fxmul(max - min, t),
        min <= max ==> min <= r <= max,
{
    let t: i64 = random_double(rng);
    let r: i64 = crate::common::linear_step(t, min, max);
    proof {
        assert(0 <= t < 65536 && r == min + spec_fxmul(max - min, t as int));
        if min <= max {
            let d = max - min;
            crate::fx::lemma_tdiv_bounds(d * t, 65536);
            assert(0 <= d * t <= 65536 * d) by (nonlinear_arith)
                requires
                    0 <= t < 65536,
                    0 <= d,
            ;
            lemma_div_is_ordered(d * t, 65536 * d, 65536);
            lemma_div_multiples_vanish(d, 65536);
        }
    }
    r
}

} // verus!
