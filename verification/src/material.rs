//! Materials: the scattering laws. Given an incoming ray and a hit record, a
//! material produces an attenuation color and an outgoing ray, or reports
//! absorption. Randomness comes from the caller's [`RandomSource`]; the
//! contracts say what holds of every outcome, and pin the result exactly when
//! the source is a constant stream.

use vstd::prelude::*;
use crate::fixed::{fx_add, fx_div, fx_mul, fx_sqrt, fx_sub, Fx, FX_ONE};
use crate::hittable::HitRecord;
use crate::ray::Ray;
use crate::rng::RandomSource;
use crate::vec3::{
    add_spec, fx_of, length_squared_spec, near_zero_spec, neg_spec, reflect_spec, refract_spec,
    scale_spec, unit_spec, unit_vector_fixed_spec, dot_spec, Vec3,
};

verus! {

/// A material's response: an attenuation color and the scattered ray.
#[derive(Clone, Copy, Debug, PartialEq, Eq, Structural)]
pub struct Scatter {
    pub attenuation: Vec3,
    pub ray: Ray,
}

/// A color whose channels all lie in `[0, 1]`.
pub open spec fn color_wf(c: Vec3) -> bool {
    &&& 0 <= c.x.raw <= FX_ONE
    &&& 0 <= c.y.raw <= FX_ONE
    &&& 0 <= c.z.raw <= FX_ONE
}

pub open spec fn white_spec() -> Vec3 {
    Vec3 { x: Fx { raw: FX_ONE }, y: Fx { raw: FX_ONE }, z: Fx { raw: FX_ONE } }
}

/// Diffuse bounce direction: normal plus a unit vector, falling back to the
/// bare normal when the sum cancels to nothing.
pub open spec fn lambertian_dir_spec(normal: Vec3, uv: Vec3) -> Vec3 {
    let d = add_spec(normal, uv);
    if near_zero_spec(d) {
        normal
    } else {
        d
    }
}

/// Specular bounce direction: the mirror reflection of the normalized
/// incoming direction, perturbed by `fuzz` times a unit vector.
pub open spec fn metal_dir_spec(ray_in: Ray, normal: Vec3, fuzz: Fx, uv: Vec3) -> Vec3 {
    add_spec(reflect_spec(unit_spec(ray_in.direction), normal), scale_spec(uv, fuzz))
}

/// The refraction ratio seen by the ray: `1/ir` entering the surface, `ir`
/// leaving it.
pub open spec fn dielectric_ratio_spec(ir: Fx, front_face: bool) -> int {
    if front_face {
        fx_div(FX_ONE as int, ir.raw as int)
    } else {
        ir.raw as int
    }
}

/// The cosine between the reversed normalized ray and the surface normal,
/// capped at one.
pub open spec fn dielectric_cos_spec(ray_in: Ray, normal: Vec3) -> int {
    let d = dot_spec(neg_spec(unit_spec(ray_in.direction)), normal);
    if d <= FX_ONE as int {
        d
    } else {
        FX_ONE as int
    }
}

/// `sin = sqrt(1 - cos^2)`, with the radicand floored at zero so rounding
/// noise cannot take it negative.
pub open spec fn dielectric_sin_spec(cos: int) -> int {
    let gap = fx_sub(FX_ONE as int, fx_mul(cos, cos));
    fx_sqrt(
        if gap >= 0 {
            gap
        } else {
            0
        },
    )
}

/// Schlick's polynomial approximation of the Fresnel reflectance.
pub open spec fn schlick_spec(cos: int, ref_idx: int) -> int {
    let r0 = fx_div(fx_sub(FX_ONE as int, ref_idx), fx_add(FX_ONE as int, ref_idx));
    let r0sq = fx_mul(r0, r0);
    let omc = fx_sub(FX_ONE as int, cos);
    let omc2 = fx_mul(omc, omc);
    let omc4 = fx_mul(omc2, omc2);
    let omc5 = fx_mul(omc4, omc);
    fx_add(r0sq, fx_mul(fx_sub(FX_ONE as int, r0sq), omc5))
}

/// Whether the dielectric reflects: total internal reflection, or a draw
/// below the Schlick reflectance.
pub open spec fn dielectric_reflects_spec(ir: Fx, ray_in: Ray, hit: HitRecord, u: Fx) -> bool {
    let ratio = dielectric_ratio_spec(ir, hit.front_face);
    let cos = dielectric_cos_spec(ray_in, hit.normal);
    let sin = dielectric_sin_spec(cos);
    fx_mul(ratio, sin) > FX_ONE as int || schlick_spec(cos, ratio) > u.raw as int
}

/// The dielectric's outgoing direction for a given draw.
pub open spec fn dielectric_dir_spec(ir: Fx, ray_in: Ray, hit: HitRecord, u: Fx) -> Vec3 {
    let ratio = dielectric_ratio_spec(ir, hit.front_face);
    if dielectric_reflects_spec(ir, ray_in, hit, u) {
        reflect_spec(unit_spec(ray_in.direction), hit.normal)
    } else {
        refract_spec(unit_spec(ray_in.direction), hit.normal, fx_of(ratio))
    }
}

/// With an index of refraction of one, the glass is index-matched to its
/// surroundings: the refraction ratio is one and the sine of the refracted
/// angle never exceeds one, so total internal reflection can never fire.
pub proof fn lemma_index_matched_no_tir(ir: Fx, ray_in: Ray, hit: HitRecord)
    requires
        ir.raw == FX_ONE,
    ensures
        dielectric_ratio_spec(ir, hit.front_face) == FX_ONE as int,
        fx_mul(
            dielectric_ratio_spec(ir, hit.front_face),
            dielectric_sin_spec(dielectric_cos_spec(ray_in, hit.normal)),
        ) <= FX_ONE as int,
{
    let cos = dielectric_cos_spec(ray_in, hit.normal);
    crate::vec3::lemma_square_nonneg(cos);
    let gap = crate::fixed::fx_sub(FX_ONE as int, fx_mul(cos, cos));
    let g = if gap >= 0 {
        gap
    } else {
        0
    };
    assert(0 <= g <= FX_ONE as int);
    crate::fixed::lemma_sqrt_floor_exists(g * FX_ONE);
    let sin = dielectric_sin_spec(cos);
    assert(sin * sin <= 65536 * 65536);
    assert(0 <= sin <= 65536) by (nonlinear_arith)
        requires
            sin * sin <= 65536 * 65536,
            sin >= 0,
    ;
    crate::vec3::lemma_mul_one(sin);
}

/// Index-matched glass hit head-on neither reflects by total internal
/// reflection nor by a Schlick draw: for any draw it refracts, with a
/// refraction ratio of one.
pub proof fn lemma_index_matched_head_on_refracts(ir: Fx, ray_in: Ray, hit: HitRecord, u: Fx)
    requires
        ir.raw == FX_ONE,
        0 <= u.raw,
        dielectric_cos_spec(ray_in, hit.normal) == FX_ONE as int,
    ensures
        !dielectric_reflects_spec(ir, ray_in, hit, u),
        dielectric_dir_spec(ir, ray_in, hit, u) == refract_spec(
            unit_spec(ray_in.direction),
            hit.normal,
            Fx { raw: FX_ONE },
        ),
{
    lemma_index_matched_no_tir(ir, ray_in, hit);
    crate::vec3::lemma_mul_one(0);
    assert(schlick_spec(FX_ONE as int, FX_ONE as int) == 0);
}

/// A scattering law. `wf` bounds the material's parameters,
/// `scatter_possible` says what holds of every outcome of `scatter`, and
/// `scatter_fixed_spec` pins the outcome exactly under a constant draw
/// stream.
pub trait Scatterable {
    spec fn wf(&self) -> bool;

    spec fn scatter_possible(&self, ray_in: Ray, hit_rec: HitRecord, r: Option<Scatter>) -> bool;

    spec fn scatter_fixed_spec(&self, ray_in: Ray, hit_rec: HitRecord, u: Fx) -> Option<Scatter>;

    fn scatter(&self, ray_in: &Ray, hit_rec: &HitRecord, rng: &mut RandomSource) -> (r: Option<
        Scatter,
    >)
        requires
            old(rng).wf(),
            self.wf(),
            length_squared_spec(ray_in.direction) >= 1,
        ensures
            final(rng).wf(),
            self.scatter_possible(*ray_in, *hit_rec, r),
            old(rng).is_fixed() ==> *final(rng) == *old(rng) && r == self.scatter_fixed_spec(
                *ray_in,
                *hit_rec,
                old(rng).fixed_value(),
            ),
    ;
}

/// Diffuse: always scatters about the surface normal; attenuation is the
/// albedo.
#[derive(Clone, Copy, Debug, PartialEq, Eq, Structural)]
pub struct Lambertian {
    pub albedo: Vec3,
}

impl Scatterable for Lambertian {
    open spec fn wf(&self) -> bool {
        color_wf(self.albedo)
    }

    open spec fn scatter_possible(&self, ray_in: Ray, hit_rec: HitRecord, r: Option<Scatter>) -> bool {
        match r {
            Some(s) => {
                &&& s.attenuation == self.albedo
                &&& s.ray.origin == hit_rec.point
                &&& exists|uv: Vec3|
                    crate::vec3::unit_sample_possible(uv) && s.ray.direction
                        == lambertian_dir_spec(hit_rec.normal, uv)
            },
            None => false,
        }
    }

    open spec fn scatter_fixed_spec(&self, ray_in: Ray, hit_rec: HitRecord, u: Fx) -> Option<Scatter> {
        Some(
            Scatter {
                attenuation: self.albedo,
                ray: Ray {
                    origin: hit_rec.point,
                    direction: lambertian_dir_spec(hit_rec.normal, unit_vector_fixed_spec(u)),
                },
            },
        )
    }

    fn scatter(&self, ray_in: &Ray, hit_rec: &HitRecord, rng: &mut RandomSource) -> (r: Option<
        Scatter,
    >) {
        let uv: Vec3 = Vec3::random_unit_vector(rng);
        let mut direction: Vec3 = hit_rec.normal.add(uv);
        if direction.near_zero() {
            direction = hit_rec.normal;
        }
        let scattered: Ray = Ray::new(hit_rec.point, direction);
        Some(Scatter { attenuation: self.albedo, ray: scattered })
    }
}

/// Specular with fuzz: always scatters, even when the perturbed reflection
/// points back into the surface; attenuation is the albedo.
#[derive(Clone, Copy, Debug, PartialEq, Eq, Structural)]
pub struct Metal {
    pub albedo: Vec3,
    pub fuzz: Fx,
}

impl Scatterable for Metal {
    open spec fn wf(&self) -> bool {
        color_wf(self.albedo) && 0 <= self.fuzz.raw <= FX_ONE
    }

    open spec fn scatter_possible(&self, ray_in: Ray, hit_rec: HitRecord, r: Option<Scatter>) -> bool {
        match r {
            Some(s) => {
                &&& s.attenuation == self.albedo
                &&& s.ray.origin == hit_rec.point
                &&& exists|uv: Vec3|
                    crate::vec3::unit_sample_possible(uv) && s.ray.direction
                        == metal_dir_spec(ray_in, hit_rec.normal, self.fuzz, uv)
            },
            None => false,
        }
    }

    open spec fn scatter_fixed_spec(&self, ray_in: Ray, hit_rec: HitRecord, u: Fx) -> Option<Scatter> {
        Some(
            Scatter {
                attenuation: self.albedo,
                ray: Ray {
                    origin: hit_rec.point,
                    direction: metal_dir_spec(
                        ray_in,
                        hit_rec.normal,
                        self.fuzz,
                        unit_vector_fixed_spec(u),
                    ),
                },
            },
        )
    }

    fn scatter(&self, ray_in: &Ray, hit_rec: &HitRecord, rng: &mut RandomSource) -> (r: Option<
        Scatter,
    >) {
        proof {
            crate::vec3::lemma_length_pos(ray_in.direction);
        }
        let direction: Vec3 = Vec3::reflect(ray_in.direction.unit_vector(), hit_rec.normal);
        let uv: Vec3 = Vec3::random_unit_vector(rng);
        let reflected: Ray = Ray::new(hit_rec.point, direction.add(uv.scale(self.fuzz)));
        Some(Scatter { attenuation: self.albedo, ray: reflected })
    }
}

/// Refractive: reflects on total internal reflection or a Schlick draw,
/// refracts otherwise; glass absorbs nothing, so attenuation is white.
#[derive(Clone, Copy, Debug, PartialEq, Eq, Structural)]
pub struct Dielectric {
    pub ir: Fx,
}

impl Dielectric {
    /// Schlick's reflectance approximation.
    pub fn reflectance(cos: Fx, ref_idx: Fx) -> (r: Fx)
        requires
            ref_idx.raw != -FX_ONE,
        ensures
            r.raw as int == schlick_spec(cos.raw as int, ref_idx.raw as int),
    {
        let one: Fx = Fx::of_raw(FX_ONE);
        let r0: Fx = one.sub(ref_idx).div(one.add(ref_idx));
        let r0sq: Fx = r0.mul(r0);
        let omc: Fx = one.sub(cos);
        let omc2: Fx = omc.mul(omc);
        let omc4: Fx = omc2.mul(omc2);
        let omc5: Fx = omc4.mul(omc);
        r0sq.add(one.sub(r0sq).mul(omc5))
    }
}

impl Scatterable for Dielectric {
    open spec fn wf(&self) -> bool {
        self.ir.raw > 0
    }

    open spec fn scatter_possible(&self, ray_in: Ray, hit_rec: HitRecord, r: Option<Scatter>) -> bool {
        match r {
            Some(s) => {
                &&& s.attenuation == white_spec()
                &&& s.ray.origin == hit_rec.point
                &&& exists|u: Fx|
                    0 <= u.raw < FX_ONE && s.ray.direction == dielectric_dir_spec(
                        self.ir,
                        ray_in,
                        hit_rec,
                        u,
                    )
            },
            None => false,
        }
    }

    open spec fn scatter_fixed_spec(&self, ray_in: Ray, hit_rec: HitRecord, u: Fx) -> Option<Scatter> {
        Some(
            Scatter {
                attenuation: white_spec(),
                ray: Ray {
                    origin: hit_rec.point,
                    direction: dielectric_dir_spec(self.ir, ray_in, hit_rec, u),
                },
            },
        )
    }

    fn scatter(&self, ray_in: &Ray, hit_rec: &HitRecord, rng: &mut RandomSource) -> (r: Option<
        Scatter,
    >) {
        let one: Fx = Fx::of_raw(FX_ONE);
        let refraction_ratio: Fx = if hit_rec.front_face {
            one.div(self.ir)
        } else {
            self.ir
        };
        proof {
            crate::vec3::lemma_length_pos(ray_in.direction);
        }
        let unit_direction: Vec3 = ray_in.direction.unit_vector();
        let cos_theta: Fx = unit_direction.neg().dot(hit_rec.normal).min(one);
        let gap: Fx = one.sub(cos_theta.mul(cos_theta)).max(Fx::of_raw(0));
        let sin_theta: Fx = gap.sqrt();
        let cannot_refract: bool = refraction_ratio.mul(sin_theta).raw > FX_ONE;
        let draw: Fx = crate::rng::random(rng);
        let direction: Vec3 = if cannot_refract || Dielectric::reflectance(
            cos_theta,
            refraction_ratio,
        ).raw > draw.raw {
            Vec3::reflect(unit_direction, hit_rec.normal)
        } else {
            Vec3::refract(unit_direction, hit_rec.normal, refraction_ratio)
        };
        let refracted: Ray = Ray::new(hit_rec.point, direction);
        proof {
            assert(0 <= draw.raw < FX_ONE && direction == dielectric_dir_spec(
                self.ir,
                *ray_in,
                *hit_rec,
                draw,
            ));
        }
        Some(Scatter { attenuation: Vec3::new(one, one, one), ray: refracted })
    }
}

/// The closed set of materials, dispatching to the variant's law.
#[derive(Clone, Copy, Debug, PartialEq, Eq, Structural)]
pub enum Material {
    Lambertian(Lambertian),
    Metal(Metal),
    Dielectric(Dielectric),
}

impl Scatterable for Material {
    open spec fn wf(&self) -> bool {
        match *self {
            Material::Lambertian(l) => l.wf(),
            Material::Metal(m) => m.wf(),
            Material::Dielectric(d) => d.wf(),
        }
    }

    open spec fn scatter_possible(&self, ray_in: Ray, hit_rec: HitRecord, r: Option<Scatter>) -> bool {
        match *self {
            Material::Lambertian(l) => l.scatter_possible(ray_in, hit_rec, r),
            Material::Metal(m) => m.scatter_possible(ray_in, hit_rec, r),
            Material::Dielectric(d) => d.scatter_possible(ray_in, hit_rec, r),
        }
    }

    open spec fn scatter_fixed_spec(&self, ray_in: Ray, hit_rec: HitRecord, u: Fx) -> Option<Scatter> {
        match *self {
            Material::Lambertian(l) => l.scatter_fixed_spec(ray_in, hit_rec, u),
            Material::Metal(m) => m.scatter_fixed_spec(ray_in, hit_rec, u),
            Material::Dielectric(d) => d.scatter_fixed_spec(ray_in, hit_rec, u),
        }
    }

    fn scatter(&self, ray_in: &Ray, hit_rec: &HitRecord, rng: &mut RandomSource) -> (r: Option<
        Scatter,
    >) {
        match self {
            Material::Lambertian(l) => l.scatter(ray_in, hit_rec, rng),
            Material::Metal(m) => m.scatter(ray_in, hit_rec, rng),
            Material::Dielectric(d) => d.scatter(ray_in, hit_rec, rng),
        }
    }
}

} // verus!
