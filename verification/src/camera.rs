//! The camera and the recursive radiance estimator. Construction derives an
//! orthonormal viewport basis from user-level parameters, failing fast on
//! invalid ones; rendering shoots jittered, lens-sampled rays through the
//! scene and resolves the averaged radiance into 8-bit pixels.

use vstd::prelude::*;
use crate::fixed::{fx_add, fx_div, fx_mul, fx_sqrt, fx_sub, Fx, FX_HALF, FX_MAX, FX_ONE, FX_SCALE};
use crate::hittable::{world_hit_spec, world_wf, Hittable};
use crate::interval::{clamp_spec, Interval};
use crate::material::{white_spec, Scatterable};
use crate::ray::Ray;
use crate::rng::RandomSource;
use crate::sphere::Sphere;
use crate::vec3::{
    add_spec, cross_spec, div_spec, fx_of, length_spec, length_squared_spec, mul_spec, neg_spec,
    scale_spec, sub_spec, unit_spec, Vec3,
};

verus! {

/// Radians per half-degree: `pi / 360`, rounded to the fixed-point grid.
pub const HALF_DEG_RAD: i64 = 572;

/// Lower bound of the intersection search per bounce, about `1e-3`: keeps a
/// bounce from hitting the surface it just left.
pub const T_MIN_RAW: i64 = 66;

/// Largest angle argument the polynomial evaluations accept, a little over
/// `pi / 2`.
pub const TRIG_MAX_RAW: i64 = 103000;

/// The truncated Taylor series of the sine, evaluated in fixed point.
pub open spec fn sin_poly_spec(x: int) -> int {
    let x2 = fx_mul(x, x);
    let x3 = fx_mul(x2, x);
    let x5 = fx_mul(x3, x2);
    let x7 = fx_mul(x5, x2);
    let x9 = fx_mul(x7, x2);
    fx_add(
        fx_sub(fx_add(fx_sub(x, fx_div(x3, 6 * FX_ONE)), fx_div(x5, 120 * FX_ONE)), fx_div(x7, 5040 * FX_ONE)),
        fx_div(x9, 362880 * FX_ONE),
    )
}

/// The truncated Taylor series of the cosine, evaluated in fixed point.
pub open spec fn cos_poly_spec(x: int) -> int {
    let x2 = fx_mul(x, x);
    let x4 = fx_mul(x2, x2);
    let x6 = fx_mul(x4, x2);
    let x8 = fx_mul(x6, x2);
    fx_sub(
        fx_add(
            fx_sub(fx_add(fx_sub(FX_ONE as int, fx_div(x2, 2 * FX_ONE)), fx_div(x4, 24 * FX_ONE)), fx_div(x6, 720 * FX_ONE)),
            fx_div(x8, 40320 * FX_ONE),
        ),
        fx_div(fx_mul(x8, x2), 3628800 * FX_ONE),
    )
}

/// Sine on `[0, pi/2]` by the truncated Taylor series.
pub fn sin_fx(x: Fx) -> (r: Fx)
    requires
        0 <= x.raw <= TRIG_MAX_RAW,
    ensures
        r.raw as int == sin_poly_spec(x.raw as int),
{
    let x2: Fx = x.mul(x);
    let x3: Fx = x2.mul(x);
    let x5: Fx = x3.mul(x2);
    let x7: Fx = x5.mul(x2);
    let x9: Fx = x7.mul(x2);
    x.sub(x3.div(Fx::from_int(6))).add(x5.div(Fx::from_int(120))).sub(
        x7.div(Fx::from_int(5040)),
    ).add(x9.div(Fx::from_int(362880)))
}

/// Cosine on `[0, pi/2]` by the truncated Taylor series.
pub fn cos_fx(x: Fx) -> (r: Fx)
    requires
        0 <= x.raw <= TRIG_MAX_RAW,
    ensures
        r.raw as int == cos_poly_spec(x.raw as int),
{
    let x2: Fx = x.mul(x);
    let x4: Fx = x2.mul(x2);
    let x6: Fx = x4.mul(x2);
    let x8: Fx = x6.mul(x2);
    let x10: Fx = x8.mul(x2);
    Fx::of_raw(FX_ONE).sub(x2.div(Fx::from_int(2))).add(x4.div(Fx::from_int(24))).sub(
        x6.div(Fx::from_int(720)),
    ).add(x8.div(Fx::from_int(40320))).sub(x10.div(Fx::from_int(3628800)))
}

/// Why camera construction was refused.
#[derive(Clone, Copy, Debug, PartialEq, Eq, Structural)]
pub enum CameraError {
    /// The image width is zero.
    ZeroWidth,
    /// The aspect ratio is not positive.
    NonPositiveAspect,
    /// The derived image height is zero.
    ZeroHeight,
    /// The derived image height does not fit the pixel grid.
    ExcessiveHeight,
    /// No samples per pixel were requested.
    ZeroSamples,
    /// The vertical field of view lies outside one to 179 degrees.
    InvalidFov,
    /// The focus distance is not positive.
    NonPositiveFocusDist,
    /// The defocus angle lies outside zero to 179 degrees.
    InvalidDefocusAngle,
    /// The eye and target coincide, or the up vector is parallel to the view
    /// direction.
    DegenerateView,
}

pub struct CameraBuilder {
    pub aspect_ratio: Fx,
    pub img_width: u32,
    pub samples_per_pixel: u32,
    pub max_depth: u32,
    pub fov: u32,
    pub lookfrom: Vec3,
    pub lookat: Vec3,
    pub vup: Vec3,
    pub defocus_angle: Fx,
    pub focus_dist: Fx,
}

pub struct Camera {
    pub aspect_ratio: Fx,
    pub img_width: u32,
    pub samples_per_pixel: u32,
    pub max_depth: u32,
    pub fov: u32,
    pub lookfrom: Vec3,
    pub lookat: Vec3,
    pub vup: Vec3,
    pub defocus_angle: Fx,
    pub focus_dist: Fx,
    pub img_height: u32,
    pub center: Vec3,
    pub pixel00_loc: Vec3,
    pub pixel_delta_u: Vec3,
    pub pixel_delta_v: Vec3,
    pub u: Vec3,
    pub v: Vec3,
    pub w: Vec3,
    pub defocus_disk_u: Vec3,
    pub defocus_disk_v: Vec3,
}

/// The raw image height derived from width and aspect ratio, before any
/// range check.
pub open spec fn derived_height_spec(b: CameraBuilder) -> int {
    fx_div(b.img_width * FX_SCALE, b.aspect_ratio.raw as int) / (FX_SCALE as int)
}

/// Exactly what `build` returns: the validation order, every derived
/// quantity, and the error each invalid parameter earns.
pub open spec fn build_spec(b: CameraBuilder) -> Result<Camera, CameraError> {
    if b.img_width == 0 {
        Err(CameraError::ZeroWidth)
    } else if b.aspect_ratio.raw <= 0 {
        Err(CameraError::NonPositiveAspect)
    } else if derived_height_spec(b) == 0 {
        Err(CameraError::ZeroHeight)
    } else if derived_height_spec(b) > 0xffff_ffff {
        Err(CameraError::ExcessiveHeight)
    } else if b.samples_per_pixel == 0 {
        Err(CameraError::ZeroSamples)
    } else if b.fov < 1 || b.fov > 179 {
        Err(CameraError::InvalidFov)
    } else if b.focus_dist.raw <= 0 {
        Err(CameraError::NonPositiveFocusDist)
    } else if b.defocus_angle.raw < 0 || b.defocus_angle.raw > 179 * FX_ONE {
        Err(CameraError::InvalidDefocusAngle)
    } else if length_spec(sub_spec(b.lookfrom, b.lookat)) == 0 {
        Err(CameraError::DegenerateView)
    } else {
        let w = unit_spec(sub_spec(b.lookfrom, b.lookat));
        if length_spec(cross_spec(b.vup, w)) == 0 {
            Err(CameraError::DegenerateView)
        } else {
            let cos_half_fov = cos_poly_spec(b.fov * HALF_DEG_RAD);
            let cos_half_defocus = cos_poly_spec(fx_mul(b.defocus_angle.raw as int, HALF_DEG_RAD as int));
            if cos_half_fov <= 0 {
                Err(CameraError::InvalidFov)
            } else if cos_half_defocus <= 0 {
                Err(CameraError::InvalidDefocusAngle)
            } else {
                let u = unit_spec(cross_spec(b.vup, w));
                let v = cross_spec(w, u);
                let img_height = derived_height_spec(b);
                let h_slope = fx_div(sin_poly_spec(b.fov * HALF_DEG_RAD), cos_half_fov);
                let viewport_height = fx_mul(fx_mul(2 * FX_ONE, h_slope), b.focus_dist.raw as int);
                let viewport_width = fx_mul(
                    viewport_height,
                    fx_div(b.img_width * FX_SCALE, img_height * FX_SCALE),
                );
                let viewport_u = scale_spec(u, fx_of(viewport_width));
                let viewport_v = scale_spec(neg_spec(v), fx_of(viewport_height));
                let pixel_delta_u = div_spec(viewport_u, fx_of(b.img_width * FX_SCALE));
                let pixel_delta_v = div_spec(viewport_v, fx_of(img_height * FX_SCALE));
                let viewport_upper_left = sub_spec(
                    sub_spec(
                        sub_spec(b.lookfrom, scale_spec(w, b.focus_dist)),
                        div_spec(viewport_u, fx_of(2 * FX_ONE)),
                    ),
                    div_spec(viewport_v, fx_of(2 * FX_ONE)),
                );
                let pixel00_loc = add_spec(
                    viewport_upper_left,
                    scale_spec(add_spec(pixel_delta_u, pixel_delta_v), Fx { raw: FX_HALF }),
                );
                let tan_half_defocus = fx_div(
                    sin_poly_spec(fx_mul(b.defocus_angle.raw as int, HALF_DEG_RAD as int)),
                    cos_half_defocus,
                );
                let defocus_radius = fx_mul(b.focus_dist.raw as int, tan_half_defocus);
                Ok(
                    Camera {
                        aspect_ratio: b.aspect_ratio,
                        img_width: b.img_width,
                        samples_per_pixel: b.samples_per_pixel,
                        max_depth: b.max_depth,
                        fov: b.fov,
                        lookfrom: b.lookfrom,
                        lookat: b.lookat,
                        vup: b.vup,
                        defocus_angle: b.defocus_angle,
                        focus_dist: b.focus_dist,
                        img_height: img_height as u32,
                        center: b.lookfrom,
                        pixel00_loc,
                        pixel_delta_u,
                        pixel_delta_v,
                        u,
                        v,
                        w,
                        defocus_disk_u: scale_spec(u, fx_of(defocus_radius)),
                        defocus_disk_v: scale_spec(v, fx_of(defocus_radius)),
                    },
                )
            }
        }
    }
}

impl CameraBuilder {
    pub fn new() -> (r: CameraBuilder)
        ensures
            r.aspect_ratio.raw == FX_ONE,
            r.img_width == 100,
            r.samples_per_pixel == 10,
            r.max_depth == 10,
            r.fov == 90,
            r.lookfrom == (Vec3 { x: Fx { raw: 0 }, y: Fx { raw: 0 }, z: Fx { raw: (-FX_ONE) as i64 } }),
            r.lookat == (Vec3 { x: Fx { raw: 0 }, y: Fx { raw: 0 }, z: Fx { raw: 0 } }),
            r.vup == (Vec3 { x: Fx { raw: 0 }, y: Fx { raw: FX_ONE }, z: Fx { raw: 0 } }),
            r.defocus_angle.raw == 0,
            r.focus_dist.raw == 10 * FX_ONE,
    {
        CameraBuilder {
            aspect_ratio: Fx::of_raw(FX_ONE),
            img_width: 100,
            samples_per_pixel: 10,
            max_depth: 10,
            fov: 90,
            lookfrom: Vec3::new(Fx::of_raw(0), Fx::of_raw(0), Fx::of_raw(-FX_ONE)),
            lookat: Vec3::new(Fx::of_raw(0), Fx::of_raw(0), Fx::of_raw(0)),
            vup: Vec3::new(Fx::of_raw(0), Fx::of_raw(FX_ONE), Fx::of_raw(0)),
            defocus_angle: Fx::of_raw(0),
            focus_dist: Fx::from_int(10),
        }
    }

    pub fn aspect_ratio(self, aspect_ratio: Fx) -> (r: CameraBuilder)
        ensures
            r == (CameraBuilder { aspect_ratio, ..self }),
    {
        CameraBuilder { aspect_ratio, ..self }
    }

    pub fn img_width(self, img_width: u32) -> (r: CameraBuilder)
        ensures
            r == (CameraBuilder { img_width, ..self }),
    {
        CameraBuilder { img_width, ..self }
    }

    pub fn samples_per_pixel(self, samples_per_pixel: u32) -> (r: CameraBuilder)
        ensures
            r == (CameraBuilder { samples_per_pixel, ..self }),
    {
        CameraBuilder { samples_per_pixel, ..self }
    }

    pub fn max_depth(self, max_depth: u32) -> (r: CameraBuilder)
        ensures
            r == (CameraBuilder { max_depth, ..self }),
    {
        CameraBuilder { max_depth, ..self }
    }

    pub fn fov(self, fov: u32) -> (r: CameraBuilder)
        ensures
            r == (CameraBuilder { fov, ..self }),
    {
        CameraBuilder { fov, ..self }
    }

    pub fn lookfrom(self, lookfrom: Vec3) -> (r: CameraBuilder)
        ensures
            r == (CameraBuilder { lookfrom, ..self }),
    {
        CameraBuilder { lookfrom, ..self }
    }

    pub fn lookat(self, lookat: Vec3) -> (r: CameraBuilder)
        ensures
            r == (CameraBuilder { lookat, ..self }),
    {
        CameraBuilder { lookat, ..self }
    }

    pub fn vup(self, vup: Vec3) -> (r: CameraBuilder)
        ensures
            r == (CameraBuilder { vup, ..self }),
    {
        CameraBuilder { vup, ..self }
    }

    pub fn defocus_angle(self, defocus_angle: Fx) -> (r: CameraBuilder)
        ensures
            r == (CameraBuilder { defocus_angle, ..self }),
    {
        CameraBuilder { defocus_angle, ..self }
    }

    pub fn focus_dist(self, focus_dist: Fx) -> (r: CameraBuilder)
        ensures
            r == (CameraBuilder { focus_dist, ..self }),
    {
        CameraBuilder { focus_dist, ..self }
    }

    /// Validate the parameters and derive the viewport: the basis, the pixel
    /// grid, and the defocus disk. Fails fast with the reason instead of
    /// rendering from degenerate state.
    #[verifier::rlimit(60)]
    pub fn build(&self) -> (r: Result<Camera, CameraError>)
        ensures
            r == build_spec(*self),
    {
        if self.img_width == 0 {
            return Err(CameraError::ZeroWidth);
        }
        if self.aspect_ratio.raw <= 0 {
            return Err(CameraError::NonPositiveAspect);
        }
        let width_fx: Fx = Fx::from_int(self.img_width as i64);
        let height_fx: Fx = width_fx.div(self.aspect_ratio);
        let height_q: u64 = (height_fx.raw as u64) / 65536;
        if height_q == 0 {
            return Err(CameraError::ZeroHeight);
        }
        if height_q > 0xffff_ffff {
            return Err(CameraError::ExcessiveHeight);
        }
        let img_height: u32 = height_q as u32;
        if self.samples_per_pixel == 0 {
            return Err(CameraError::ZeroSamples);
        }
        if self.fov < 1 || self.fov > 179 {
            return Err(CameraError::InvalidFov);
        }
        if self.focus_dist.raw <= 0 {
            return Err(CameraError::NonPositiveFocusDist);
        }
        if self.defocus_angle.raw < 0 || self.defocus_angle.raw > 179 * FX_ONE {
            return Err(CameraError::InvalidDefocusAngle);
        }
        let view: Vec3 = self.lookfrom.sub(self.lookat);
        let view_len: Fx = view.length();
        if view_len.raw == 0 {
            return Err(CameraError::DegenerateView);
        }
        let w: Vec3 = view.unit_vector();
        let u_raw: Vec3 = self.vup.cross(w);
        let u_len: Fx = u_raw.length();
        if u_len.raw == 0 {
            return Err(CameraError::DegenerateView);
        }
        let half_fov: Fx = Fx::from_int(self.fov as i64).mul(Fx::of_raw(HALF_DEG_RAD));
        let half_defocus: Fx = self.defocus_angle.mul(Fx::of_raw(HALF_DEG_RAD));
        let cos_half_fov: Fx = cos_fx(half_fov);
        let cos_half_defocus: Fx = cos_fx(half_defocus);
        if cos_half_fov.raw <= 0 {
            return Err(CameraError::InvalidFov);
        }
        if cos_half_defocus.raw <= 0 {
            return Err(CameraError::InvalidDefocusAngle);
        }
        let u: Vec3 = u_raw.unit_vector();
        let v: Vec3 = w.cross(u);
        let h_slope: Fx = sin_fx(half_fov).div(cos_half_fov);
        let viewport_height: Fx = Fx::from_int(2).mul(h_slope).mul(self.focus_dist);
        let height_fx2: Fx = Fx::from_int(img_height as i64);
        let viewport_width: Fx = viewport_height.mul(width_fx.div(height_fx2));
        let viewport_u: Vec3 = u.scale(viewport_width);
        let viewport_v: Vec3 = v.neg().scale(viewport_height);
        let pixel_delta_u: Vec3 = viewport_u.div(width_fx);
        let pixel_delta_v: Vec3 = viewport_v.div(height_fx2);
        let two: Fx = Fx::from_int(2);
        let viewport_upper_left: Vec3 = self.lookfrom.sub(w.scale(self.focus_dist)).sub(
            viewport_u.div(two),
        ).sub(viewport_v.div(two));
        let pixel00_loc: Vec3 = viewport_upper_left.add(
            pixel_delta_u.add(pixel_delta_v).scale(Fx::of_raw(FX_HALF)),
        );
        let tan_half_defocus: Fx = sin_fx(half_defocus).div(cos_half_defocus);
        let defocus_radius: Fx = self.focus_dist.mul(tan_half_defocus);
        let defocus_disk_u: Vec3 = u.scale(defocus_radius);
        let defocus_disk_v: Vec3 = v.scale(defocus_radius);
        Ok(
            Camera {
                aspect_ratio: self.aspect_ratio,
                img_width: self.img_width,
                samples_per_pixel: self.samples_per_pixel,
                max_depth: self.max_depth,
                fov: self.fov,
                lookfrom: self.lookfrom,
                lookat: self.lookat,
                vup: self.vup,
                defocus_angle: self.defocus_angle,
                focus_dist: self.focus_dist,
                img_height,
                center: self.lookfrom,
                pixel00_loc,
                pixel_delta_u,
                pixel_delta_v,
                u,
                v,
                w,
                defocus_disk_u,
                defocus_disk_v,
            },
        )
    }
}

/// Largest channel value that survives the output clamp, just under one.
pub const INTENSITY_MAX_RAW: i64 = 65471;

/// One 8-bit output pixel.
#[derive(Clone, Copy, Debug, PartialEq, Eq, Structural)]
pub struct Pixel {
    pub r: u8,
    pub g: u8,
    pub b: u8,
}

pub open spec fn black_spec() -> Vec3 {
    Vec3 { x: Fx { raw: 0 }, y: Fx { raw: 0 }, z: Fx { raw: 0 } }
}

/// The horizon tint of the sky gradient: a light blue.
pub open spec fn sky_blue_spec() -> Vec3 {
    Vec3 { x: Fx { raw: FX_HALF }, y: Fx { raw: 45875 }, z: Fx { raw: FX_ONE } }
}

/// The per-bounce intersection search range: just above zero, unbounded
/// upward.
pub open spec fn bounce_interval_spec() -> Interval {
    Interval { min: Fx { raw: T_MIN_RAW }, max: Fx { raw: FX_MAX } }
}

/// The only light source: white blended toward blue by the ray direction's
/// normalized vertical component. A direction whose length rounds to zero
/// blends at the horizon value.
pub open spec fn sky_color_spec(ray: Ray) -> Vec3 {
    let uy = if length_spec(ray.direction) == 0 {
        0
    } else {
        unit_spec(ray.direction).y.raw as int
    };
    let a = fx_mul(FX_HALF as int, fx_add(uy, FX_ONE as int));
    add_spec(
        scale_spec(white_spec(), fx_of(fx_sub(FX_ONE as int, a))),
        scale_spec(sky_blue_spec(), fx_of(a)),
    )
}

/// The sky gradient a ray sees when it escapes the scene.
pub fn sky_color(ray: &Ray) -> (r: Vec3)
    ensures
        r == sky_color_spec(*ray),
{
    let l: Fx = ray.direction.length();
    let uy: Fx = if l.raw == 0 {
        Fx::of_raw(0)
    } else {
        ray.direction.unit_vector().y()
    };
    let a: Fx = Fx::of_raw(FX_HALF).mul(uy.add(Fx::of_raw(FX_ONE)));
    let one: Fx = Fx::of_raw(FX_ONE);
    let white: Vec3 = Vec3::new(one, one, one);
    let blue: Vec3 = Vec3::new(Fx::of_raw(FX_HALF), Fx::of_raw(45875), one);
    white.scale(one.sub(a)).add(blue.scale(a))
}

/// One channel of the sky blend stays within rounding distance of the unit
/// interval as long as the blend coefficient does.
proof fn lemma_sky_channel_bound(b: int, a: int)
    requires
        0 <= b <= FX_ONE as int,
        -4 <= a <= FX_ONE as int + 4,
    ensures
        -4 <= fx_add(
            fx_mul(FX_ONE as int, fx_sub(FX_ONE as int, a)),
            fx_mul(b, a),
        ) <= FX_ONE as int + 4,
{
    crate::vec3::lemma_mul_one(fx_sub(FX_ONE as int, a));
    let t = fx_mul(b, a);
    if a >= 0 {
        assert(0 <= (b * a) / (FX_SCALE as int) <= a) by (nonlinear_arith)
            requires
                0 <= b <= FX_ONE as int,
                0 <= a,
                FX_ONE == FX_SCALE,
                FX_SCALE == 65536,
        ;
        assert(0 <= t <= a);
    } else {
        assert(0 <= ((-(b * a)) / (FX_SCALE as int)) <= -a) by (nonlinear_arith)
            requires
                0 <= b <= FX_ONE as int,
                a < 0,
                FX_ONE == FX_SCALE,
                FX_SCALE == 65536,
        ;
        assert(a <= t <= 0);
    }
}

/// The sky gradient cannot stray: on a ray whose direction has length at
/// least one half (and components within `2^31`), every channel lies within
/// four grid units of the unit color interval. On the grid the blend
/// coefficient can leave `[0, 1]` only by normalization rounding, and only
/// by that much.
pub proof fn lemma_sky_color_range(ray: Ray)
    requires
        crate::fixed::FX_QUARTER as int <= length_squared_spec(ray.direction),
        -0x8000_0000 <= ray.direction.x.raw as int <= 0x8000_0000,
        -0x8000_0000 <= ray.direction.y.raw as int <= 0x8000_0000,
        -0x8000_0000 <= ray.direction.z.raw as int <= 0x8000_0000,
    ensures
        -4 <= sky_color_spec(ray).x.raw <= FX_ONE as int + 4,
        -4 <= sky_color_spec(ray).y.raw <= FX_ONE as int + 4,
        -4 <= sky_color_spec(ray).z.raw <= FX_ONE as int + 4,
{
    let s = FX_SCALE as int;
    crate::vec3::lemma_length_pos(ray.direction);
    crate::vec3::lemma_unit_vector_near_unit_length(ray.direction);
    let w = unit_spec(ray.direction);
    crate::vec3::lemma_component_square_bound(w, FX_ONE as int + 16);
    let uy = w.y.raw as int;
    assert(-(s + 8) <= uy <= s + 8) by (nonlinear_arith)
        requires
            uy * uy <= 65536 * (65536 + 16) + 65536 - 1,
            s == 65536,
    ;
    let t = fx_add(uy, FX_ONE as int);
    assert(t == uy + s);
    let a = fx_mul(FX_HALF as int, t);
    assert(-4 <= a <= s + 4) by (nonlinear_arith)
        requires
            a == crate::fixed::sat(crate::fixed::div_to_zero(32768 * t, 65536)),
            -8 <= t <= 2 * 65536 + 8,
            s == 65536,
    ;
    lemma_sky_channel_bound(FX_HALF as int, a);
    lemma_sky_channel_bound(45875, a);
    lemma_sky_channel_bound(FX_ONE as int, a);
}

/// Gamma encoding from linear to display space: the square-root transform.
pub fn linear_to_gamma(linear: Fx) -> (r: Fx)
    requires
        linear.raw >= 0,
    ensures
        r.raw as int == fx_sqrt(linear.raw as int),
{
    linear.sqrt()
}

/// What the estimator returns under a constant draw stream.
pub open spec fn ray_color_fixed_spec(ray: Ray, depth: u32, objs: Seq<Sphere>, u: Fx) -> Vec3
    decreases depth,
{
    if depth == 0 {
        black_spec()
    } else {
        match world_hit_spec(objs, ray, bounce_interval_spec()) {
            None => sky_color_spec(ray),
            Some(hit) => match hit.material.scatter_fixed_spec(ray, hit, u) {
                Some(s) => mul_spec(
                    s.attenuation,
                    ray_color_fixed_spec(s.ray, (depth - 1) as u32, objs, u),
                ),
                None => black_spec(),
            },
        }
    }
}

/// A value the estimator can return, whatever the draw stream: black when
/// out of budget, the sky on a miss, and on a hit some possible scatter's
/// attenuation times some possible estimate of the scattered ray — or black,
/// had the material absorbed.
pub open spec fn ray_color_possible(ray: Ray, depth: u32, objs: Seq<Sphere>, r: Vec3) -> bool
    decreases depth,
{
    if depth == 0 {
        r == black_spec()
    } else {
        match world_hit_spec(objs, ray, bounce_interval_spec()) {
            None => r == sky_color_spec(ray),
            Some(hit) => {
                ||| exists|s: crate::material::Scatter, rest: Vec3|
                    hit.material.scatter_possible(ray, hit, Some(s)) && ray_color_possible(
                        s.ray,
                        (depth - 1) as u32,
                        objs,
                        rest,
                    ) && r == mul_spec(s.attenuation, rest)
                ||| hit.material.scatter_possible(ray, hit, None) && r == black_spec()
            },
        }
    }
}

/// On an empty scene the estimator with any budget left returns exactly the
/// sky gradient: the aggregate with zero surfaces behaves as "always miss".
pub proof fn lemma_ray_color_empty_world(ray: Ray, depth: u32, u: Fx)
    requires
        depth >= 1,
    ensures
        ray_color_fixed_spec(ray, depth, Seq::<Sphere>::empty(), u) == sky_color_spec(ray),
{
    crate::hittable::lemma_empty_world_misses(ray, bounce_interval_spec());
}

impl Camera {
    /// The recursive radiance estimator. Out of budget, it contributes no
    /// light; past every surface, it sees the sky; on a hit, it attenuates
    /// whatever the scattered ray goes on to collect.
    pub fn ray_color(ray: &Ray, depth: u32, world: &Vec<Sphere>, rng: &mut RandomSource) -> (r:
        Vec3)
        requires
            old(rng).wf(),
            world_wf(world@),
        ensures
            final(rng).wf(),
            ray_color_possible(*ray, depth, world@, r),
            depth == 0 ==> r == black_spec(),
            depth > 0 && world_hit_spec(world@, *ray, bounce_interval_spec()) is None ==> r
                == sky_color_spec(*ray),
            old(rng).is_fixed() ==> *final(rng) == *old(rng) && r == ray_color_fixed_spec(
                *ray,
                depth,
                world@,
                old(rng).fixed_value(),
            ),
        decreases depth,
    {
        if depth == 0 {
            return Vec3::zero();
        }
        let search: Interval = Interval::new(Fx::of_raw(T_MIN_RAW), Fx::of_raw(FX_MAX));
        match world.hit(ray, search) {
            Some(hit_rec) => {
                proof {
                    crate::hittable::lemma_world_hit_wf(world@, *ray, search);
                }
                match hit_rec.material.scatter(ray, &hit_rec, rng) {
                    Some(scattered) => {
                        let rest: Vec3 = Camera::ray_color(&scattered.ray, depth - 1, world, rng);
                        let r: Vec3 = scattered.attenuation.mul(rest);
                        proof {
                            assert(hit_rec.material.scatter_possible(*ray, hit_rec, Some(scattered))
                                && ray_color_possible(scattered.ray, (depth - 1) as u32, world@, rest)
                                && r == mul_spec(scattered.attenuation, rest));
                        }
                        r
                    },
                    None => Vec3::zero(),
                }
            },
            None => sky_color(ray),
        }
    }

    /// The pixel-cell offset for jitter draws `px` and `py`.
    pub open spec fn jitter_offset_spec(self, px: Fx, py: Fx) -> Vec3 {
        add_spec(scale_spec(self.pixel_delta_u, px), scale_spec(self.pixel_delta_v, py))
    }

    /// What the jitter offset is under a constant draw stream.
    pub open spec fn pixel_sample_fixed_spec(self, u: Fx) -> Vec3 {
        let c = fx_of(fx_add(-(FX_HALF as int), u.raw as int));
        self.jitter_offset_spec(c, c)
    }

    /// A jitter offset inside the pixel's cell: whatever the draw stream, it
    /// is the offset for some pair of draws in `[-1/2, 1/2)`.
    pub fn pixel_sample_square(&self, rng: &mut RandomSource) -> (r: Vec3)
        requires
            old(rng).wf(),
        ensures
            final(rng).wf(),
            exists|px: Fx, py: Fx|
                -FX_HALF <= px.raw < FX_HALF && -FX_HALF <= py.raw < FX_HALF && r
                    == self.jitter_offset_spec(px, py),
            old(rng).is_fixed() ==> *final(rng) == *old(rng) && r == self.pixel_sample_fixed_spec(
                old(rng).fixed_value(),
            ),
    {
        let px: Fx = Fx::of_raw(-FX_HALF).add(crate::rng::random(rng));
        let py: Fx = Fx::of_raw(-FX_HALF).add(crate::rng::random(rng));
        let r: Vec3 = self.pixel_delta_u.scale(px).add(self.pixel_delta_v.scale(py));
        proof {
            assert(-FX_HALF <= px.raw < FX_HALF && -FX_HALF <= py.raw < FX_HALF && r
                == self.jitter_offset_spec(px, py));
        }
        r
    }

    /// The eye point displaced to the disk point `p` of the lens.
    pub open spec fn disk_point_spec(self, p: Vec3) -> Vec3 {
        add_spec(
            add_spec(self.center, scale_spec(self.defocus_disk_u, p.x)),
            scale_spec(self.defocus_disk_v, p.y),
        )
    }

    /// What the lens sample is under a constant draw stream.
    pub open spec fn defocus_disk_fixed_spec(self, u: Fx) -> Vec3 {
        self.disk_point_spec(crate::vec3::unit_disk_fixed_spec(u))
    }

    /// A ray origin sampled on the defocus disk, implementing depth of field:
    /// whatever the draw stream, the result is the eye point displaced to
    /// some interior point of the lens disk.
    pub fn defocus_disk_sample(&self, rng: &mut RandomSource) -> (r: Vec3)
        requires
            old(rng).wf(),
        ensures
            final(rng).wf(),
            exists|p: Vec3|
                0 <= length_squared_spec(p) < FX_ONE as int && p.z.raw == 0 && r
                    == self.disk_point_spec(p),
            old(rng).is_fixed() ==> *final(rng) == *old(rng) && r == self.defocus_disk_fixed_spec(
                old(rng).fixed_value(),
            ),
    {
        let p: Vec3 = Vec3::random_in_unit_disk(rng);
        let r: Vec3 = self.center.add(self.defocus_disk_u.scale(p.x())).add(
            self.defocus_disk_v.scale(p.y()),
        );
        proof {
            assert(0 <= length_squared_spec(p) < FX_ONE as int && p.z.raw == 0 && r
                == self.disk_point_spec(p));
        }
        r
    }

    /// The center of pixel `(i, j)` on the focus plane.
    pub open spec fn pixel_center_spec(self, i: u32, j: u32) -> Vec3 {
        add_spec(
            add_spec(self.pixel00_loc, scale_spec(self.pixel_delta_u, fx_of(i * FX_SCALE))),
            scale_spec(self.pixel_delta_v, fx_of(j * FX_SCALE)),
        )
    }

    /// The ray for pixel `(i, j)` built from the given jitter pair and lens
    /// disk point: aimed at the pixel's center displaced by the jitter, shot
    /// from the eye point when the lens is closed and from the disk point
    /// otherwise.
    pub open spec fn ray_matches(self, i: u32, j: u32, r: Ray, px: Fx, py: Fx, p: Vec3) -> bool {
        &&& -FX_HALF <= px.raw < FX_HALF
        &&& -FX_HALF <= py.raw < FX_HALF
        &&& 0 <= length_squared_spec(p) < FX_ONE as int
        &&& p.z.raw == 0
        &&& r.origin == if self.defocus_angle.raw <= 0 {
            self.center
        } else {
            self.disk_point_spec(p)
        }
        &&& r.direction == sub_spec(
            add_spec(self.pixel_center_spec(i, j), self.jitter_offset_spec(px, py)),
            r.origin,
        )
    }

    /// A ray `get_ray` can produce for pixel `(i, j)`, whatever the draw
    /// stream: `ray_matches` for some jitter pair in `[-1/2, 1/2)` and some
    /// interior point of the lens disk.
    pub open spec fn ray_possible(self, i: u32, j: u32, r: Ray) -> bool {
        exists|px: Fx, py: Fx, p: Vec3| self.ray_matches(i, j, r, px, py, p)
    }

    /// What `get_ray` returns under a constant draw stream.
    pub open spec fn get_ray_fixed_spec(self, i: u32, j: u32, u: Fx) -> Ray {
        let pixel_sample = add_spec(self.pixel_center_spec(i, j), self.pixel_sample_fixed_spec(u));
        let origin = if self.defocus_angle.raw <= 0 {
            self.center
        } else {
            self.defocus_disk_fixed_spec(u)
        };
        Ray { origin, direction: sub_spec(pixel_sample, origin) }
    }

    /// The ray for pixel `(i, j)`: jittered inside the pixel's cell, shot
    /// from the eye point or from the defocus disk. A closed lens always
    /// shoots from the eye point, whatever the stream.
    pub fn get_ray(&self, i: u32, j: u32, rng: &mut RandomSource) -> (r: Ray)
        requires
            old(rng).wf(),
        ensures
            final(rng).wf(),
            self.defocus_angle.raw <= 0 ==> r.origin == self.center,
            self.ray_possible(i, j, r),
            old(rng).is_fixed() ==> *final(rng) == *old(rng) && r == self.get_ray_fixed_spec(
                i,
                j,
                old(rng).fixed_value(),
            ),
    {
        let pixel_center: Vec3 = self.pixel00_loc.add(
            self.pixel_delta_u.scale(Fx::from_int(i as i64)),
        ).add(self.pixel_delta_v.scale(Fx::from_int(j as i64)));
        let offset: Vec3 = self.pixel_sample_square(rng);
        let pixel_sample: Vec3 = pixel_center.add(offset);
        let ray_origin: Vec3 = if self.defocus_angle.raw <= 0 {
            self.center
        } else {
            self.defocus_disk_sample(rng)
        };
        let ray_direction: Vec3 = pixel_sample.sub(ray_origin);
        let r: Ray = Ray::new(ray_origin, ray_direction);
        proof {
            let (px, py) = choose|px: Fx, py: Fx|
                -FX_HALF <= px.raw < FX_HALF && -FX_HALF <= py.raw < FX_HALF && offset
                    == self.jitter_offset_spec(px, py);
            if self.defocus_angle.raw <= 0 {
                let p0 = Vec3 { x: Fx { raw: 0 }, y: Fx { raw: 0 }, z: Fx { raw: 0 } };
                crate::vec3::lemma_length_squared_nonneg(p0);
                assert(length_squared_spec(p0) == 0);
                assert(self.ray_matches(i, j, r, px, py, p0));
            } else {
                let p = choose|p: Vec3|
                    0 <= length_squared_spec(p) < FX_ONE as int && p.z.raw == 0 && ray_origin
                        == self.disk_point_spec(p);
                assert(self.ray_matches(i, j, r, px, py, p));
            }
            assert(self.ray_possible(i, j, r));
        }
        r
    }

    /// How one accumulated color becomes an output pixel: average over the
    /// samples, gamma-encode, clamp each channel just below one, quantize to
    /// eight bits.
    pub open spec fn resolve_channel_spec(self, c: int) -> u8 {
        let scale = fx_div(FX_ONE as int, self.samples_per_pixel * FX_SCALE);
        let scaled = fx_mul(c, scale);
        let nonneg = if scaled >= 0 {
            scaled
        } else {
            0
        };
        let encoded = fx_sqrt(nonneg);
        let clamped = clamp_spec(
            Interval { min: Fx { raw: 0 }, max: Fx { raw: INTENSITY_MAX_RAW } },
            fx_of(encoded),
        );
        ((clamped.raw as int) / 256) as u8
    }

    pub open spec fn resolve_color_spec(self, color: Vec3) -> Pixel {
        Pixel {
            r: self.resolve_channel_spec(color.x.raw as int),
            g: self.resolve_channel_spec(color.y.raw as int),
            b: self.resolve_channel_spec(color.z.raw as int),
        }
    }

    fn resolve_channel(&self, c: Fx) -> (r: u8)
        requires
            self.samples_per_pixel >= 1,
        ensures
            r == self.resolve_channel_spec(c.raw as int),
    {
        let scale: Fx = Fx::of_raw(FX_ONE).div(Fx::from_int(self.samples_per_pixel as i64));
        let scaled: Fx = c.mul(scale).max(Fx::of_raw(0));
        let encoded: Fx = linear_to_gamma(scaled);
        let intensity: Interval = Interval::new(Fx::of_raw(0), Fx::of_raw(INTENSITY_MAX_RAW));
        let clamped: Fx = intensity.clamp(encoded);
        ((clamped.raw as u64) / 256) as u8
    }

    /// Resolve an accumulated pixel color into its 8-bit output form.
    pub fn resolve_color(&self, color: Vec3) -> (p: Pixel)
        requires
            self.samples_per_pixel >= 1,
        ensures
            p == self.resolve_color_spec(color),
    {
        Pixel {
            r: self.resolve_channel(color.x()),
            g: self.resolve_channel(color.y()),
            b: self.resolve_channel(color.z()),
        }
    }

    /// The sum of `n` samples of one pixel under a constant draw stream.
    pub open spec fn sample_sum_fixed_spec(
        self,
        objs: Seq<Sphere>,
        i: u32,
        j: u32,
        u: Fx,
        n: u32,
    ) -> Vec3
        decreases n,
    {
        if n == 0 {
            black_spec()
        } else {
            add_spec(
                self.sample_sum_fixed_spec(objs, i, j, u, (n - 1) as u32),
                ray_color_fixed_spec(self.get_ray_fixed_spec(i, j, u), self.max_depth, objs, u),
            )
        }
    }

    /// One output pixel under a constant draw stream.
    pub open spec fn pixel_fixed_spec(self, objs: Seq<Sphere>, i: u32, j: u32, u: Fx) -> Pixel {
        self.resolve_color_spec(
            self.sample_sum_fixed_spec(objs, i, j, u, self.samples_per_pixel),
        )
    }

    /// An accumulated color the sample loop of pixel `(i, j)` can produce in
    /// `n` rounds, whatever the draw stream: each round adds a possible
    /// estimate of a possible ray for that pixel.
    pub open spec fn sample_sum_possible(
        self,
        objs: Seq<Sphere>,
        i: u32,
        j: u32,
        n: u32,
        acc: Vec3,
    ) -> bool
        decreases n,
    {
        if n == 0 {
            acc == black_spec()
        } else {
            exists|prev: Vec3, ray: Ray, c: Vec3|
                self.sample_sum_possible(objs, i, j, (n - 1) as u32, prev) && self.ray_possible(
                    i,
                    j,
                    ray,
                ) && ray_color_possible(ray, self.max_depth, objs, c) && acc == add_spec(prev, c)
        }
    }

    /// An output pixel the renderer can produce at `(i, j)`, whatever the
    /// draw stream: the resolution of a possible sample sum.
    pub open spec fn pixel_possible(self, objs: Seq<Sphere>, i: u32, j: u32, pix: Pixel) -> bool {
        exists|acc: Vec3|
            self.sample_sum_possible(objs, i, j, self.samples_per_pixel, acc) && pix
                == self.resolve_color_spec(acc)
    }

    /// The whole image under a constant draw stream: row-major, top row
    /// first.
    pub open spec fn render_fixed_spec(self, objs: Seq<Sphere>, u: Fx) -> Seq<Pixel> {
        Seq::new(
            (self.img_height * self.img_width) as nat,
            |k: int|
                self.pixel_fixed_spec(
                    objs,
                    (k % (self.img_width as int)) as u32,
                    (k / (self.img_width as int)) as u32,
                    u,
                ),
        )
    }

    /// A pinhole camera over an empty scene with one sample per pixel and at
    /// least one bounce of budget renders deterministically under the
    /// centered draw stream: every output pixel is the resolution of the sky
    /// gradient at the exact ray from the eye point through that pixel's
    /// center. Together with `render`'s constant-stream clause this pins the
    /// whole image.
    /// Under the centered draw stream a closed lens shoots the exact ray
    /// from the eye point through the pixel's center: the jitter offset
    /// vanishes.
    #[verifier::spinoff_prover]
    pub proof fn lemma_centered_ray(self, i: u32, j: u32)
        requires
            self.defocus_angle.raw <= 0,
        ensures
            self.get_ray_fixed_spec(i, j, Fx { raw: FX_HALF }) == (Ray {
                origin: self.center,
                direction: sub_spec(self.pixel_center_spec(i, j), self.center),
            }),
    {
        let u = Fx { raw: FX_HALF };
        assert(fx_add(-(FX_HALF as int), u.raw as int) == 0);
        crate::vec3::lemma_mul_zero(self.pixel_delta_u.x.raw as int);
        crate::vec3::lemma_mul_zero(self.pixel_delta_u.y.raw as int);
        crate::vec3::lemma_mul_zero(self.pixel_delta_u.z.raw as int);
        crate::vec3::lemma_mul_zero(self.pixel_delta_v.x.raw as int);
        crate::vec3::lemma_mul_zero(self.pixel_delta_v.y.raw as int);
        crate::vec3::lemma_mul_zero(self.pixel_delta_v.z.raw as int);
        let zero_offset = self.pixel_sample_fixed_spec(u);
        assert(zero_offset == (Vec3 { x: Fx { raw: 0 }, y: Fx { raw: 0 }, z: Fx { raw: 0 } }));
        let pc = self.pixel_center_spec(i, j);
        assert(add_spec(pc, zero_offset) == pc);
    }

    /// A pinhole camera over an empty scene with one sample per pixel and at
    /// least one bounce of budget renders deterministically under the
    /// centered draw stream: every output pixel is the resolution of the sky
    /// gradient at the exact ray from the eye point through that pixel's
    /// center. Together with `render`'s constant-stream clause this pins the
    /// whole image.
    #[verifier::spinoff_prover]
    pub proof fn lemma_centered_render_of_empty_scene(self, i: u32, j: u32)
        requires
            self.defocus_angle.raw <= 0,
            self.samples_per_pixel == 1,
            self.max_depth >= 1,
        ensures
            self.pixel_fixed_spec(Seq::<Sphere>::empty(), i, j, Fx { raw: FX_HALF })
                == self.resolve_color_spec(
                sky_color_spec(
                    Ray {
                        origin: self.center,
                        direction: sub_spec(self.pixel_center_spec(i, j), self.center),
                    },
                ),
            ),
    {
        let u = Fx { raw: FX_HALF };
        self.lemma_centered_ray(i, j);
        let ray = self.get_ray_fixed_spec(i, j, u);
        lemma_ray_color_empty_world(ray, self.max_depth, u);
        let sky = sky_color_spec(ray);
        assert(self.sample_sum_fixed_spec(Seq::<Sphere>::empty(), i, j, u, 0) == black_spec());
        assert(self.sample_sum_fixed_spec(Seq::<Sphere>::empty(), i, j, u, 1) == add_spec(
            black_spec(),
            sky,
        ));
        assert(add_spec(black_spec(), sky) == sky);
    }

    /// Render the scene: for every pixel, average the requested number of
    /// jittered, lens-sampled radiance estimates, and resolve them to 8-bit
    /// channels. Pixels come back row-major, top row first, left to right.
    #[verifier::loop_isolation(false)]
    #[verifier::rlimit(100)]
    #[verifier::spinoff_prover]
    pub fn render(&self, world: &Vec<Sphere>, rng: &mut RandomSource) -> (out: Vec<Pixel>)
        requires
            old(rng).wf(),
            world_wf(world@),
            self.samples_per_pixel >= 1,
        ensures
            out@.len() == (self.img_height as int) * (self.img_width as int),
            final(rng).wf(),
            forall|k: int|
                0 <= k < out@.len() ==> self.pixel_possible(
                    world@,
                    (k % (self.img_width as int)) as u32,
                    (k / (self.img_width as int)) as u32,
                    #[trigger] out@[k],
                ),
            old(rng).is_fixed() ==> *final(rng) == *old(rng) && out@ == self.render_fixed_spec(
                world@,
                old(rng).fixed_value(),
            ),
    {
        let ghost u: Fx = old(rng).fixed_value();
        let mut out: Vec<Pixel> = Vec::new();
        let mut j: u32 = 0;
        while j < self.img_height
            invariant
                j <= self.img_height,
                out@.len() == (j as int) * (self.img_width as int),
                rng.wf(),
                forall|k: int|
                    0 <= k < out@.len() ==> self.pixel_possible(
                        world@,
                        (k % (self.img_width as int)) as u32,
                        (k / (self.img_width as int)) as u32,
                        #[trigger] out@[k],
                    ),
                old(rng).is_fixed() ==> *rng == *old(rng) && out@ == self.render_fixed_spec(
                    world@,
                    u,
                ).take((j as int) * (self.img_width as int)),
            decreases self.img_height - j,
        {
            let mut i: u32 = 0;
            while i < self.img_width
                invariant
                    i <= self.img_width,
                    j < self.img_height,
                    out@.len() == (j as int) * (self.img_width as int) + i as int,
                    rng.wf(),
                    forall|k: int|
                        0 <= k < out@.len() ==> self.pixel_possible(
                            world@,
                            (k % (self.img_width as int)) as u32,
                            (k / (self.img_width as int)) as u32,
                            #[trigger] out@[k],
                        ),
                    old(rng).is_fixed() ==> *rng == *old(rng) && out@ == self.render_fixed_spec(
                        world@,
                        u,
                    ).take((j as int) * (self.img_width as int) + i as int),
                decreases self.img_width - i,
            {
                let mut pixel_color: Vec3 = Vec3::zero();
                let mut s: u32 = 0;
                while s < self.samples_per_pixel
                    invariant
                        s <= self.samples_per_pixel,
                        rng.wf(),
                        self.sample_sum_possible(world@, i, j, s, pixel_color),
                        old(rng).is_fixed() ==> *rng == *old(rng) && pixel_color
                            == self.sample_sum_fixed_spec(world@, i, j, u, s),
                    decreases self.samples_per_pixel - s,
                {
                    let ghost prev: Vec3 = pixel_color;
                    let ray: Ray = self.get_ray(i, j, rng);
                    let sample: Vec3 = Camera::ray_color(&ray, self.max_depth, world, rng);
                    pixel_color = pixel_color.add(sample);
                    proof {
                        assert(self.sample_sum_possible(world@, i, j, s as u32, prev)
                            && self.ray_possible(i, j, ray) && ray_color_possible(
                            ray,
                            self.max_depth,
                            world@,
                            sample,
                        ) && pixel_color == add_spec(prev, sample));
                    }
                    s = s + 1;
                }
                let pixel: Pixel = self.resolve_color(pixel_color);
                out.push(pixel);
                proof {
                    let k = (j as int) * (self.img_width as int) + i as int;
                    let w_int = self.img_width as int;
                    assert(k < (self.img_height as int) * w_int) by (nonlinear_arith)
                        requires
                            k == (j as int) * w_int + i as int,
                            0 <= j < self.img_height as int,
                            0 <= i < w_int,
                    ;
                    vstd::arithmetic::div_mod::lemma_fundamental_div_mod_converse_div(
                        k,
                        w_int,
                        j as int,
                        i as int,
                    );
                    vstd::arithmetic::div_mod::lemma_fundamental_div_mod_converse_mod(
                        k,
                        w_int,
                        j as int,
                        i as int,
                    );
                    assert(self.sample_sum_possible(world@, i, j, self.samples_per_pixel, pixel_color)
                        && pixel == self.resolve_color_spec(pixel_color));
                    assert(self.pixel_possible(world@, i, j, pixel));
                    if old(rng).is_fixed() {
                        let whole = self.render_fixed_spec(world@, u);
                        assert(whole[k] == self.pixel_fixed_spec(world@, i, j, u));
                        assert(whole.take(k + 1) =~= whole.take(k).push(whole[k]));
                    }
                }
                i = i + 1;
            }
            proof {
                assert((j + 1) * (self.img_width as int) == (j as int) * (self.img_width as int)
                    + (self.img_width as int)) by (nonlinear_arith);
            }
            j = j + 1;
        }
        out
    }
}

} // verus!

