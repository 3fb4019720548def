//! Closed numeric ranges, used to bound accepted intersection distances and
//! to bound output color channels. An interval with `min > max` is a legal
//! empty state that contains nothing.

use vstd::prelude::*;
use crate::fixed::{Fx, FX_MAX};

verus! {

#[derive(Clone, Copy, Debug, PartialEq, Eq, Structural)]
pub struct Interval {
    pub min: Fx,
    pub max: Fx,
}

impl Interval {
    pub fn new(min: Fx, max: Fx) -> (r: Interval)
        ensures
            r == (Interval { min, max }),
    {
        Interval { min, max }
    }

    /// The interval that contains nothing.
    pub fn empty() -> (r: Interval)
        ensures
            r == (Interval { min: Fx { raw: FX_MAX }, max: Fx { raw: (-FX_MAX) as i64 } }),
    {
        Interval { min: Fx { raw: FX_MAX }, max: Fx { raw: -FX_MAX } }
    }

    /// The interval that contains every scalar.
    pub fn universe() -> (r: Interval)
        ensures
            r == (Interval { min: Fx { raw: (-FX_MAX) as i64 }, max: Fx { raw: FX_MAX } }),
    {
        Interval { min: Fx { raw: -FX_MAX }, max: Fx { raw: FX_MAX } }
    }

    /// Containment, inclusive at both ends.
    pub fn contains(&self, x: Fx) -> (r: bool)
        ensures
            r == (self.min.raw <= x.raw && x.raw <= self.max.raw),
    {
        self.min.raw <= x.raw && x.raw <= self.max.raw
    }

    /// Strict interior: rejects values that land exactly on a boundary, which
    /// is how self-intersections are kept out.
    pub fn surrounds(&self, x: Fx) -> (r: bool)
        ensures
            r == (self.min.raw < x.raw && x.raw < self.max.raw),
    {
        self.min.raw < x.raw && x.raw < self.max.raw
    }

    /// Saturating clamp onto the interval.
    pub fn clamp(&self, x: Fx) -> (r: Fx)
        ensures
            r == clamp_spec(*self, x),
    {
        if x.raw < self.min.raw {
            self.min
        } else if x.raw > self.max.raw {
            self.max
        } else {
            x
        }
    }
}

pub open spec fn clamp_spec(i: Interval, x: Fx) -> Fx {
    if x.raw < i.min.raw {
        i.min
    } else if x.raw > i.max.raw {
        i.max
    } else {
        x
    }
}

} // verus!
