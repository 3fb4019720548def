//! The sphere surface. Intersection solves the quadratic
//! `|O + tD - C|^2 = r^2` through the half-angle discriminant, preferring the
//! smaller root strictly inside the search interval. A negative radius is a
//! first-class encoding of a hollow, inside-out surface; its sign flips the
//! returned normal.

use vstd::prelude::*;
use crate::fixed::{fx_add, fx_div, fx_mul, fx_neg, fx_sqrt, fx_sub, Fx};
use crate::hittable::{HitRecord, Hittable};
use crate::interval::Interval;
use crate::material::Material;
use crate::ray::{at_spec, Ray};
use crate::vec3::{
    div_spec, dot_spec, fx_of, length_squared_spec, neg_spec, sub_spec, Vec3,
};

verus! {

#[derive(Clone, Copy, Debug, PartialEq, Eq, Structural)]
pub struct Sphere {
    pub center: Vec3,
    pub radius: Fx,
    pub material: Material,
}

/// The record for a hit of sphere `s` at parameter `t`: the point, and the
/// geometric normal `(point - center) / radius` oriented against the ray.
pub open spec fn sphere_hit_record_spec(s: Sphere, ray: Ray, t: Fx) -> HitRecord {
    let point = at_spec(ray, t);
    let outward = div_spec(sub_spec(point, s.center), s.radius);
    let front = dot_spec(ray.direction, outward) < 0;
    HitRecord {
        point,
        normal: if front {
            outward
        } else {
            neg_spec(outward)
        },
        t,
        front_face: front,
        material: s.material,
    }
}

/// The nearest root of the intersection quadratic that lies strictly inside
/// the interval, or nothing. A degenerate ray (squared direction length
/// rounding to zero) or a zero radius yields no hit.
pub open spec fn sphere_hit_spec(s: Sphere, ray: Ray, ray_t: Interval) -> Option<HitRecord> {
    let oc = sub_spec(ray.origin, s.center);
    let a = length_squared_spec(ray.direction);
    let half_b = dot_spec(oc, ray.direction);
    let c = fx_sub(dot_spec(oc, oc), fx_mul(s.radius.raw as int, s.radius.raw as int));
    let disc = fx_sub(fx_mul(half_b, half_b), fx_mul(a, c));
    if s.radius.raw == 0 || a <= 0 || disc < 0 {
        None
    } else {
        let sqrt_d = fx_sqrt(disc);
        let t1 = fx_div(fx_sub(fx_neg(half_b), sqrt_d), a);
        if ray_t.min.raw < t1 < ray_t.max.raw {
            Some(sphere_hit_record_spec(s, ray, fx_of(t1)))
        } else {
            let t2 = fx_div(fx_add(fx_neg(half_b), sqrt_d), a);
            if ray_t.min.raw < t2 < ray_t.max.raw {
                Some(sphere_hit_record_spec(s, ray, fx_of(t2)))
            } else {
                None
            }
        }
    }
}

impl Sphere {
    pub fn new(center: Vec3, radius: Fx, material: Material) -> (r: Sphere)
        ensures
            r == (Sphere { center, radius, material }),
    {
        Sphere { center, radius, material }
    }

    fn hit_record(&self, ray: &Ray, t: Fx) -> (r: HitRecord)
        requires
            self.radius.raw != 0,
        ensures
            r == sphere_hit_record_spec(*self, *ray, t),
    {
        let point: Vec3 = ray.point_at(t);
        let outward_normal: Vec3 = point.sub(self.center).div(self.radius);
        let front_face: bool = ray.direction.dot(outward_normal).raw < 0;
        let normal: Vec3 = if front_face {
            outward_normal
        } else {
            outward_normal.neg()
        };
        HitRecord { point, normal, t, front_face, material: self.material }
    }
}

impl Hittable for Sphere {
    open spec fn hit_spec(&self, ray: Ray, ray_t: Interval) -> Option<HitRecord> {
        sphere_hit_spec(*self, ray, ray_t)
    }

    fn hit(&self, ray: &Ray, ray_t: Interval) -> (r: Option<HitRecord>) {
        let oc: Vec3 = ray.origin.sub(self.center);
        let a: Fx = ray.direction.length_squared();
        let half_b: Fx = oc.dot(ray.direction);
        let c: Fx = oc.dot(oc).sub(self.radius.mul(self.radius));
        let discriminant: Fx = half_b.mul(half_b).sub(a.mul(c));
        if self.radius.raw == 0 || a.raw <= 0 || discriminant.raw < 0 {
            None
        } else {
            let sqrt_d: Fx = discriminant.sqrt();
            let t1: Fx = half_b.neg().sub(sqrt_d).div(a);
            if ray_t.surrounds(t1) {
                Some(self.hit_record(ray, t1))
            } else {
                let t2: Fx = half_b.neg().add(sqrt_d).div(a);
                if ray_t.surrounds(t2) {
                    Some(self.hit_record(ray, t2))
                } else {
                    None
                }
            }
        }
    }
}

} // verus!
