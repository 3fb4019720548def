//! The surface abstraction: given a ray and an interval of valid distances,
//! report the nearest intersection or none. A scene is a vector of spheres
//! that behaves as a surface itself by scanning every member, narrowing the
//! search interval to the closest accepted hit found so far.

use vstd::prelude::*;
use crate::fixed::Fx;
use crate::interval::Interval;
use crate::material::{Material, Scatterable};
use crate::ray::Ray;
use crate::sphere::{sphere_hit_spec, Sphere};
use crate::vec3::Vec3;

verus! {

/// One intersection: where, the normal oriented against the incoming ray,
/// the parametric distance, whether the geometric normal already opposed the
/// ray, and the material governing the surface point.
#[derive(Clone, Copy, Debug, PartialEq, Eq, Structural)]
pub struct HitRecord {
    pub point: Vec3,
    pub normal: Vec3,
    pub t: Fx,
    pub front_face: bool,
    pub material: Material,
}

/// A geometric object supporting ray-intersection queries. `hit_spec` is the
/// exact mathematical answer; `hit` computes it.
pub trait Hittable {
    spec fn hit_spec(&self, ray: Ray, ray_t: Interval) -> Option<HitRecord>;

    fn hit(&self, ray: &Ray, ray_t: Interval) -> (r: Option<HitRecord>)
        ensures
            r == self.hit_spec(*ray, ray_t),
    ;
}

/// The linear scan from index `i` on, carrying the best hit so far and the
/// upper bound of the narrowed search interval.
pub open spec fn world_hit_from(
    objs: Seq<Sphere>,
    ray: Ray,
    t_min: Fx,
    i: int,
    best: Option<HitRecord>,
    closest: Fx,
) -> Option<HitRecord>
    decreases objs.len() - i,
{
    if i < 0 || i >= objs.len() {
        best
    } else {
        match sphere_hit_spec(objs[i], ray, Interval { min: t_min, max: closest }) {
            Some(h) => world_hit_from(objs, ray, t_min, i + 1, Some(h), h.t),
            None => world_hit_from(objs, ray, t_min, i + 1, best, closest),
        }
    }
}

/// The nearest hit of the whole scene over the given interval.
pub open spec fn world_hit_spec(objs: Seq<Sphere>, ray: Ray, ray_t: Interval) -> Option<
    HitRecord,
> {
    world_hit_from(objs, ray, ray_t.min, 0, None, ray_t.max)
}

/// Every material in the scene has parameters in their documented ranges.
pub open spec fn world_wf(objs: Seq<Sphere>) -> bool {
    forall|i: int| 0 <= i < objs.len() ==> (#[trigger] objs[i].material).wf()
}

/// An empty scene reports no hit for any ray and any interval: the aggregate
/// with zero surfaces behaves exactly like "always miss".
pub proof fn lemma_empty_world_misses(ray: Ray, ray_t: Interval)
    ensures
        world_hit_spec(Seq::<Sphere>::empty(), ray, ray_t) is None,
{
}

/// Whatever hit the scan reports, its material is one of the scene's, so a
/// well-formed scene only ever reports well-formed materials; and if the scan
/// started empty-handed and found something, some sphere accepted the ray, so
/// the ray's direction cannot have rounded to nothing.
pub proof fn lemma_world_hit_from_wf(
    objs: Seq<Sphere>,
    ray: Ray,
    t_min: Fx,
    i: int,
    best: Option<HitRecord>,
    closest: Fx,
)
    requires
        world_wf(objs),
        best is Some ==> best->Some_0.material.wf(),
    ensures
        world_hit_from(objs, ray, t_min, i, best, closest) is Some
            ==> world_hit_from(objs, ray, t_min, i, best, closest)->Some_0.material.wf(),
        best is None && world_hit_from(objs, ray, t_min, i, best, closest) is Some
            ==> crate::vec3::length_squared_spec(ray.direction) >= 1,
    decreases objs.len() - i,
{
    if 0 <= i < objs.len() {
        match sphere_hit_spec(objs[i], ray, Interval { min: t_min, max: closest }) {
            Some(h) => {
                lemma_world_hit_from_wf(objs, ray, t_min, i + 1, Some(h), h.t);
            },
            None => {
                lemma_world_hit_from_wf(objs, ray, t_min, i + 1, best, closest);
            },
        }
    }
}

/// A hit reported by the scan lies above the interval's floor and no later
/// than the narrowed ceiling it was accepted under; starting empty-handed,
/// it lies strictly inside the queried interval.
pub proof fn lemma_world_hit_from_interval(
    objs: Seq<Sphere>,
    ray: Ray,
    t_min: Fx,
    i: int,
    best: Option<HitRecord>,
    closest: Fx,
)
    requires
        best is Some ==> t_min.raw < best->Some_0.t.raw <= closest.raw,
    ensures
        world_hit_from(objs, ray, t_min, i, best, closest) is Some ==> {
            let h = world_hit_from(objs, ray, t_min, i, best, closest)->Some_0;
            t_min.raw < h.t.raw <= closest.raw
        },
        best is None && world_hit_from(objs, ray, t_min, i, best, closest) is Some ==> world_hit_from(
            objs,
            ray,
            t_min,
            i,
            best,
            closest,
        )->Some_0.t.raw < closest.raw,
    decreases objs.len() - i,
{
    if 0 <= i < objs.len() {
        match sphere_hit_spec(objs[i], ray, Interval { min: t_min, max: closest }) {
            Some(h) => {
                lemma_world_hit_from_interval(objs, ray, t_min, i + 1, Some(h), h.t);
            },
            None => {
                lemma_world_hit_from_interval(objs, ray, t_min, i + 1, best, closest);
            },
        }
    }
}

/// At the scan's entry point: whatever the scene reports lies strictly
/// inside the queried interval.
pub proof fn lemma_world_hit_in_interval(objs: Seq<Sphere>, ray: Ray, ray_t: Interval)
    ensures
        world_hit_spec(objs, ray, ray_t) is Some ==> {
            let h = world_hit_spec(objs, ray, ray_t)->Some_0;
            ray_t.min.raw < h.t.raw < ray_t.max.raw
        },
{
    lemma_world_hit_from_interval(objs, ray, ray_t.min, 0, None, ray_t.max);
}

/// The well-formedness facts, at the scan's entry point.
pub proof fn lemma_world_hit_wf(objs: Seq<Sphere>, ray: Ray, ray_t: Interval)
    requires
        world_wf(objs),
    ensures
        world_hit_spec(objs, ray, ray_t) is Some ==> world_hit_spec(
            objs,
            ray,
            ray_t,
        )->Some_0.material.wf() && crate::vec3::length_squared_spec(ray.direction) >= 1,
{
    lemma_world_hit_from_wf(objs, ray, ray_t.min, 0, None, ray_t.max);
}

impl Hittable for Vec<Sphere> {
    open spec fn hit_spec(&self, ray: Ray, ray_t: Interval) -> Option<HitRecord> {
        world_hit_spec(self@, ray, ray_t)
    }

    fn hit(&self, ray: &Ray, ray_t: Interval) -> (r: Option<HitRecord>) {
        let mut best: Option<HitRecord> = None;
        let mut closest: Fx = ray_t.max;
        let mut i: usize = 0;
        while i < self.len()
            invariant
                i <= self@.len(),
                world_hit_spec(self@, *ray, ray_t) == world_hit_from(
                    self@,
                    *ray,
                    ray_t.min,
                    i as int,
                    best,
                    closest,
                ),
            decreases self@.len() - i,
        {
            let current: Option<HitRecord> = (&self[i]).hit(ray, Interval::new(ray_t.min, closest));
            match current {
                Some(h) => {
                    best = Some(h);
                    closest = h.t;
                },
                None => {},
            }
            i = i + 1;
        }
        best
    }
}

} // verus!
