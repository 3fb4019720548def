//! A ray: origin plus direction. The direction need not be unit length and
//! callers must not assume it is.

use vstd::prelude::*;
use crate::fixed::Fx;
use crate::vec3::{add_spec, scale_spec, Vec3};

verus! {

#[derive(Clone, Copy, Debug, PartialEq, Eq, Structural)]
pub struct Ray {
    pub origin: Vec3,
    pub direction: Vec3,
}

/// The point the ray reaches at parameter `t`.
pub open spec fn at_spec(r: Ray, t: Fx) -> Vec3 {
    add_spec(r.origin, scale_spec(r.direction, t))
}

impl Ray {
    pub fn new(origin: Vec3, direction: Vec3) -> (r: Ray)
        ensures
            r == (Ray { origin, direction }),
    {
        Ray { origin, direction }
    }

    pub fn point_at(&self, t: Fx) -> (r: Vec3)
        ensures
            r == at_spec(*self, t),
    {
        self.origin.add(self.direction.scale(t))
    }
}

} // verus!
