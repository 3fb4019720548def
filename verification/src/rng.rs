//! Random draws for the renderer.
//!
//! Randomness is injected through an explicit [`RandomSource`] that is
//! threaded through camera and material calls. The `Seeded` variant wraps
//! fastrand's WyRand generator; the `Fixed` variant answers every draw with
//! one constant, which makes a whole render a deterministic function of its
//! inputs and is what the deterministic contracts and tests are stated over.

use vstd::prelude::*;
use crate::fixed::{Fx, FX_ONE, FX_SCALE};

verus! {

#[verifier::external_type_specification]
#[verifier::external_body]
pub struct ExRng(fastrand::Rng);

/// Relies on fastrand::Rng::with_seed: a generator whose state starts at the
/// given seed.
#[verifier::external_body]
fn rng_with_seed(seed: u64) -> fastrand::Rng {
    fastrand::Rng::with_seed(seed)
}

/// Relies on fastrand::Rng::u64 over the full range: one draw of the WyRand
/// generator, advancing its state. Nothing is promised of the value.
#[verifier::external_body]
fn rng_next_u64(rng: &mut fastrand::Rng) -> u64 {
    rng.u64(..)
}

/// A stream of pseudo-random draws: either a seeded generator, or a constant
/// stream for deterministic rendering and testing.
pub enum RandomSource {
    Seeded(fastrand::Rng),
    Fixed(Fx),
}

impl RandomSource {
    /// Every draw the source can hand out lies in `[0, 1)`.
    pub open spec fn wf(self) -> bool {
        match self {
            RandomSource::Seeded(_) => true,
            RandomSource::Fixed(v) => 0 <= v.raw < FX_ONE,
        }
    }

    pub open spec fn is_fixed(self) -> bool {
        match self {
            RandomSource::Seeded(_) => false,
            RandomSource::Fixed(_) => true,
        }
    }

    /// The constant this source answers with, when it is a `Fixed` source.
    pub open spec fn fixed_value(self) -> Fx {
        match self {
            RandomSource::Seeded(_) => Fx { raw: 0 },
            RandomSource::Fixed(v) => v,
        }
    }

    pub fn seeded(seed: u64) -> (r: RandomSource)
        ensures
            r.wf(),
            !r.is_fixed(),
    {
        RandomSource::Seeded(rng_with_seed(seed))
    }

    pub fn fixed(v: Fx) -> (r: RandomSource)
        requires
            0 <= v.raw < FX_ONE,
        ensures
            r == RandomSource::Fixed(v),
            r.wf(),
    {
        RandomSource::Fixed(v)
    }
}

/// One uniform draw in `[0, 1)`.
pub fn random(rng: &mut RandomSource) -> (r: Fx)
    requires
        old(rng).wf(),
    ensures
        0 <= r.raw < FX_ONE,
        final(rng).wf(),
        old(rng).is_fixed() ==> *final(rng) == *old(rng) && r == old(rng).fixed_value(),
{
    match rng {
        RandomSource::Seeded(inner) => {
            let v: u64 = rng_next_u64(inner);
            Fx::of_raw((v % 65536) as i64)
        },
        RandomSource::Fixed(v) => *v,
    }
}

/// The value of one draw stretched onto `[min, max)`.
pub open spec fn in_range_spec(min: Fx, max: Fx, u: Fx) -> Fx {
    Fx {
        raw: crate::fixed::fx_add(
            min.raw as int,
            crate::fixed::fx_mul(crate::fixed::fx_sub(max.raw as int, min.raw as int), u.raw as int),
        ) as i64,
    }
}

/// A draw in `[0, 1)` lands inside `[min, max]` once carried onto the range,
/// as long as the range's width is representable.
pub proof fn lemma_in_range_bounds(min: Fx, max: Fx, u: Fx)
    requires
        0 <= u.raw < FX_ONE,
        -crate::fixed::FX_MAX <= min.raw as int,
        min.raw <= max.raw,
        max.raw - min.raw <= crate::fixed::FX_MAX,
    ensures
        min.raw <= in_range_spec(min, max, u).raw <= max.raw,
        min.raw < max.raw ==> in_range_spec(min, max, u).raw < max.raw,
{
    let d = max.raw - min.raw;
    let m = crate::fixed::fx_mul(d, u.raw as int);
    assert(0 <= d * (u.raw as int) <= d * (FX_ONE - 1)) by (nonlinear_arith)
        requires
            0 <= u.raw < FX_ONE,
            0 <= d,
    ;
    assert(0 <= (d * (u.raw as int)) / (FX_SCALE as int) <= d) by (nonlinear_arith)
        requires
            0 <= d * (u.raw as int) <= d * (FX_ONE - 1),
            0 <= d,
            FX_ONE == FX_SCALE,
            FX_SCALE == 65536,
    ;
    assert(0 <= m <= d);
    if d >= 1 {
        assert((d * (u.raw as int)) / (FX_SCALE as int) < d) by (nonlinear_arith)
            requires
                0 <= d * (u.raw as int) <= d * (FX_ONE - 1),
                1 <= d,
                FX_ONE == FX_SCALE,
                FX_SCALE == 65536,
        ;
        assert(m < d);
    }
}

/// One uniform draw carried onto `[min, max)`.
pub fn random_in_range(rng: &mut RandomSource, min: Fx, max: Fx) -> (r: Fx)
    requires
        old(rng).wf(),
    ensures
        final(rng).wf(),
        exists|u: Fx| 0 <= u.raw < FX_ONE && r == in_range_spec(min, max, u),
        -crate::fixed::FX_MAX <= min.raw as int <= max.raw as int && max.raw - min.raw
            <= crate::fixed::FX_MAX ==> min.raw <= r.raw <= max.raw && (min.raw < max.raw
            ==> r.raw < max.raw),
        old(rng).is_fixed() ==> *final(rng) == *old(rng) && r == in_range_spec(
            min,
            max,
            old(rng).fixed_value(),
        ),
{
    let u: Fx = random(rng);
    let r: Fx = min.add(max.sub(min).mul(u));
    proof {
        assert(0 <= u.raw < FX_ONE && r == in_range_spec(min, max, u));
        if -crate::fixed::FX_MAX <= min.raw as int <= max.raw as int && max.raw - min.raw
            <= crate::fixed::FX_MAX {
            lemma_in_range_bounds(min, max, u);
        }
    }
    r
}

} // verus!
