//! Three-component vectors, used interchangeably as points, directions and
//! colors. Every operation is a pure value operation specified exactly over
//! the fixed-point representation.

use vstd::prelude::*;
use vstd::math::abs;
use crate::fixed::{
    fx_add, fx_div, fx_mul, fx_neg, fx_sqrt, fx_sub, is_sqrt, Fx, FX_ONE, FX_QUARTER, FX_SCALE,
};
use crate::rng::RandomSource;

verus! {

/// A raw value wrapped back into a scalar; raw values of the arithmetic spec
/// functions always fit.
pub open spec fn fx_of(v: int) -> Fx {
    Fx { raw: v as i64 }
}

#[derive(Clone, Copy, Debug, PartialEq, Eq, Structural)]
pub struct Vec3 {
    pub x: Fx,
    pub y: Fx,
    pub z: Fx,
}

pub open spec fn add_spec(a: Vec3, b: Vec3) -> Vec3 {
    Vec3 {
        x: fx_of(fx_add(a.x.raw as int, b.x.raw as int)),
        y: fx_of(fx_add(a.y.raw as int, b.y.raw as int)),
        z: fx_of(fx_add(a.z.raw as int, b.z.raw as int)),
    }
}

pub open spec fn sub_spec(a: Vec3, b: Vec3) -> Vec3 {
    Vec3 {
        x: fx_of(fx_sub(a.x.raw as int, b.x.raw as int)),
        y: fx_of(fx_sub(a.y.raw as int, b.y.raw as int)),
        z: fx_of(fx_sub(a.z.raw as int, b.z.raw as int)),
    }
}

pub open spec fn neg_spec(a: Vec3) -> Vec3 {
    Vec3 {
        x: fx_of(fx_neg(a.x.raw as int)),
        y: fx_of(fx_neg(a.y.raw as int)),
        z: fx_of(fx_neg(a.z.raw as int)),
    }
}

/// Component-wise product, the color attenuation operation.
pub open spec fn mul_spec(a: Vec3, b: Vec3) -> Vec3 {
    Vec3 {
        x: fx_of(fx_mul(a.x.raw as int, b.x.raw as int)),
        y: fx_of(fx_mul(a.y.raw as int, b.y.raw as int)),
        z: fx_of(fx_mul(a.z.raw as int, b.z.raw as int)),
    }
}

pub open spec fn scale_spec(a: Vec3, t: Fx) -> Vec3 {
    Vec3 {
        x: fx_of(fx_mul(a.x.raw as int, t.raw as int)),
        y: fx_of(fx_mul(a.y.raw as int, t.raw as int)),
        z: fx_of(fx_mul(a.z.raw as int, t.raw as int)),
    }
}

pub open spec fn div_spec(a: Vec3, t: Fx) -> Vec3 {
    Vec3 {
        x: fx_of(fx_div(a.x.raw as int, t.raw as int)),
        y: fx_of(fx_div(a.y.raw as int, t.raw as int)),
        z: fx_of(fx_div(a.z.raw as int, t.raw as int)),
    }
}

pub open spec fn dot_spec(a: Vec3, b: Vec3) -> int {
    fx_add(
        fx_add(fx_mul(a.x.raw as int, b.x.raw as int), fx_mul(a.y.raw as int, b.y.raw as int)),
        fx_mul(a.z.raw as int, b.z.raw as int),
    )
}

pub open spec fn cross_spec(a: Vec3, b: Vec3) -> Vec3 {
    Vec3 {
        x: fx_of(
            fx_sub(fx_mul(a.y.raw as int, b.z.raw as int), fx_mul(a.z.raw as int, b.y.raw as int)),
        ),
        y: fx_of(
            fx_neg(
                fx_sub(
                    fx_mul(a.x.raw as int, b.z.raw as int),
                    fx_mul(a.z.raw as int, b.x.raw as int),
                ),
            ),
        ),
        z: fx_of(
            fx_sub(fx_mul(a.x.raw as int, b.y.raw as int), fx_mul(a.y.raw as int, b.x.raw as int)),
        ),
    }
}

pub open spec fn length_squared_spec(a: Vec3) -> int {
    dot_spec(a, a)
}

pub open spec fn length_spec(a: Vec3) -> int {
    fx_sqrt(length_squared_spec(a))
}

pub open spec fn unit_spec(a: Vec3) -> Vec3 {
    div_spec(a, fx_of(length_spec(a)))
}

/// All components vanish at the fixed-point resolution.
pub open spec fn near_zero_spec(a: Vec3) -> bool {
    a.x.raw == 0 && a.y.raw == 0 && a.z.raw == 0
}

pub open spec fn reflect_spec(v: Vec3, n: Vec3) -> Vec3 {
    sub_spec(v, scale_spec(n, fx_of(fx_mul(2 * FX_ONE, dot_spec(v, n)))))
}

pub open spec fn refract_spec(v: Vec3, n: Vec3, etai_over_etat: Fx) -> Vec3 {
    let cos_theta = if dot_spec(neg_spec(v), n) <= FX_ONE as int {
        dot_spec(neg_spec(v), n)
    } else {
        FX_ONE as int
    };
    let r_out_perp = scale_spec(add_spec(v, scale_spec(n, fx_of(cos_theta))), etai_over_etat);
    let gap = fx_sub(FX_ONE as int, length_squared_spec(r_out_perp));
    let gap_abs = if gap >= 0 {
        gap
    } else {
        fx_neg(gap)
    };
    let r_out_par = neg_spec(scale_spec(n, fx_of(fx_sqrt(gap_abs))));
    add_spec(r_out_perp, r_out_par)
}

/// The candidate the rejection samplers examine when every draw is the
/// constant `u`: all drawn components agree.
pub open spec fn sphere_candidate_spec(u: Fx) -> Vec3 {
    let c = crate::rng::in_range_spec(Fx { raw: (-FX_ONE) as i64 }, Fx { raw: FX_ONE }, u);
    Vec3 { x: c, y: c, z: c }
}

/// Direction used when rejection sampling gives up: the positive x axis.
pub open spec fn sphere_fallback_spec() -> Vec3 {
    Vec3 { x: Fx { raw: FX_ONE }, y: Fx { raw: 0 }, z: Fx { raw: 0 } }
}

/// What `random_in_unit_sphere` returns under a constant draw stream.
pub open spec fn unit_sphere_fixed_spec(u: Fx) -> Vec3 {
    let cand = sphere_candidate_spec(u);
    if FX_QUARTER as int <= length_squared_spec(cand) < FX_ONE as int {
        cand
    } else {
        sphere_fallback_spec()
    }
}

/// A point the rejection sampler can accept (or fall back to): inside the
/// unit sphere, no shorter than one half, every component within one.
pub open spec fn sphere_sample_wf(s: Vec3) -> bool {
    &&& FX_QUARTER as int <= length_squared_spec(s) <= FX_ONE as int
    &&& -FX_ONE <= s.x.raw <= FX_ONE
    &&& -FX_ONE <= s.y.raw <= FX_ONE
    &&& -FX_ONE <= s.z.raw <= FX_ONE
}

/// A direction the unit sampler can hand out, whatever the draw stream: the
/// normalization of some acceptable interior point of the unit sphere.
pub open spec fn unit_sample_possible(uv: Vec3) -> bool {
    exists|s: Vec3| sphere_sample_wf(s) && uv == unit_spec(s)
}

/// What `random_unit_vector` returns under a constant draw stream.
pub open spec fn unit_vector_fixed_spec(u: Fx) -> Vec3 {
    unit_spec(unit_sphere_fixed_spec(u))
}

/// What `random_in_unit_disk` returns under a constant draw stream.
pub open spec fn unit_disk_fixed_spec(u: Fx) -> Vec3 {
    let c = crate::rng::in_range_spec(Fx { raw: (-FX_ONE) as i64 }, Fx { raw: FX_ONE }, u);
    let cand = Vec3 { x: c, y: c, z: Fx { raw: 0 } };
    if length_squared_spec(cand) < FX_ONE as int {
        cand
    } else {
        Vec3 { x: Fx { raw: 0 }, y: Fx { raw: 0 }, z: Fx { raw: 0 } }
    }
}

/// A square is never negative, before and after the fixed-point rounding.
pub proof fn lemma_square_nonneg(a: int)
    ensures
        0 <= fx_mul(a, a) <= crate::fixed::FX_MAX as int,
{
    assert(a * a >= 0) by (nonlinear_arith);
}

/// The squared length of any vector is a valid nonnegative scalar.
pub proof fn lemma_length_squared_nonneg(a: Vec3)
    ensures
        0 <= length_squared_spec(a) <= crate::fixed::FX_MAX as int,
{
    lemma_square_nonneg(a.x.raw as int);
    lemma_square_nonneg(a.y.raw as int);
    lemma_square_nonneg(a.z.raw as int);
}

/// A vector whose squared length is at least one raw unit has a nonzero
/// computed length.
pub proof fn lemma_length_pos(a: Vec3)
    requires
        length_squared_spec(a) >= 1,
    ensures
        length_spec(a) >= 1,
{
    crate::fixed::lemma_sqrt_floor_pos(length_squared_spec(a) * FX_SCALE);
}

/// Negating one argument negates the fixed-point dot product, as long as no
/// component sits on the unrepresentable minimum.
pub proof fn lemma_dot_neg(a: Vec3, b: Vec3)
    requires
        -(crate::fixed::FX_MAX as int) <= a.x.raw as int,
        -(crate::fixed::FX_MAX as int) <= a.y.raw as int,
        -(crate::fixed::FX_MAX as int) <= a.z.raw as int,
    ensures
        dot_spec(neg_spec(a), b) == fx_neg(dot_spec(a, b)),
{
    lemma_mul_neg(a.x.raw as int, b.x.raw as int);
    lemma_mul_neg(a.y.raw as int, b.y.raw as int);
    lemma_mul_neg(a.z.raw as int, b.z.raw as int);
}

/// Negating one factor negates a fixed-point product.
pub proof fn lemma_mul_neg(a: int, b: int)
    requires
        -(crate::fixed::FX_MAX as int) <= a <= crate::fixed::FX_MAX as int,
    ensures
        fx_mul(fx_neg(a), b) == fx_neg(fx_mul(a, b)),
{
    assert((-a) * b == -(a * b)) by (nonlinear_arith);
}

/// A vector whose fixed-point squared length is exactly one has every
/// component within one unit of magnitude.
pub proof fn lemma_unit_component_bounds(n: Vec3)
    requires
        length_squared_spec(n) == FX_ONE as int,
    ensures
        -(FX_SCALE as int) <= n.x.raw as int <= FX_SCALE as int,
        -(FX_SCALE as int) <= n.y.raw as int <= FX_SCALE as int,
        -(FX_SCALE as int) <= n.z.raw as int <= FX_SCALE as int,
{
    lemma_square_nonneg(n.x.raw as int);
    lemma_square_nonneg(n.y.raw as int);
    lemma_square_nonneg(n.z.raw as int);
    let mx = fx_mul(n.x.raw as int, n.x.raw as int);
    let my = fx_mul(n.y.raw as int, n.y.raw as int);
    let mz = fx_mul(n.z.raw as int, n.z.raw as int);
    assert(mx <= FX_ONE as int && my <= FX_ONE as int && mz <= FX_ONE as int);
    lemma_bounded_square(n.x.raw as int);
    lemma_bounded_square(n.y.raw as int);
    lemma_bounded_square(n.z.raw as int);
}

/// Each component's integer square is bounded by the whole fixed-point
/// squared length, up to the one rounding step the squaring drops.
pub proof fn lemma_component_square_bound(v: Vec3, b: int)
    requires
        length_squared_spec(v) <= b,
        0 <= b < crate::fixed::FX_MAX as int,
    ensures
        (v.x.raw as int) * (v.x.raw as int) <= FX_SCALE * b + FX_SCALE - 1,
        (v.y.raw as int) * (v.y.raw as int) <= FX_SCALE * b + FX_SCALE - 1,
        (v.z.raw as int) * (v.z.raw as int) <= FX_SCALE * b + FX_SCALE - 1,
{
    lemma_square_nonneg(v.x.raw as int);
    lemma_square_nonneg(v.y.raw as int);
    lemma_square_nonneg(v.z.raw as int);
    lemma_single_square_bound(v.x.raw as int, b);
    lemma_single_square_bound(v.y.raw as int, b);
    lemma_single_square_bound(v.z.raw as int, b);
}

/// The bound above, for one component.
proof fn lemma_single_square_bound(c: int, b: int)
    requires
        fx_mul(c, c) <= b,
        0 <= b < crate::fixed::FX_MAX as int,
    ensures
        c * c <= FX_SCALE * b + FX_SCALE - 1,
{
    assert(c * c >= 0) by (nonlinear_arith);
    let q = crate::fixed::div_to_zero(c * c, FX_SCALE as int);
    assert(q <= b);
    vstd::arithmetic::div_mod::lemma_fundamental_div_mod(c * c, FX_SCALE as int);
    assert(FX_SCALE * q <= FX_SCALE * b) by (nonlinear_arith)
        requires
            q <= b,
            FX_SCALE == 65536,
    ;
}

/// If the rounded square of `a` is at most one, `a` itself is at most one in
/// magnitude.
proof fn lemma_bounded_square(a: int)
    requires
        fx_mul(a, a) <= FX_ONE as int,
    ensures
        -(FX_SCALE as int) <= a <= FX_SCALE as int,
{
    assert(a * a >= 0) by (nonlinear_arith);
    assert((a * a) / (FX_SCALE as int) <= FX_ONE as int);
    assert(-65536 <= a <= 65536) by (nonlinear_arith)
        requires
            a * a >= 0,
            (a * a) / 65536 <= 65536,
    ;
}

/// A vector perpendicular to the mirror normal reflects to itself.
pub proof fn lemma_reflect_perpendicular(v: Vec3, n: Vec3)
    requires
        dot_spec(v, n) == 0,
        -(crate::fixed::FX_MAX as int) <= v.x.raw as int,
        -(crate::fixed::FX_MAX as int) <= v.y.raw as int,
        -(crate::fixed::FX_MAX as int) <= v.z.raw as int,
    ensures
        reflect_spec(v, n) == v,
{
    assert(fx_mul(2 * FX_ONE, 0) == 0);
    lemma_mul_zero(n.x.raw as int);
    lemma_mul_zero(n.y.raw as int);
    lemma_mul_zero(n.z.raw as int);
}

/// Multiplying by zero in fixed point gives zero.
pub proof fn lemma_mul_zero(a: int)
    ensures
        fx_mul(a, 0) == 0,
{
    assert(a * 0 == 0) by (nonlinear_arith);
}

/// Negating both factors leaves a fixed-point square unchanged.
proof fn lemma_square_neg(a: int)
    requires
        -(crate::fixed::FX_MAX as int) <= a <= crate::fixed::FX_MAX as int,
    ensures
        fx_mul(fx_neg(a), fx_neg(a)) == fx_mul(a, a),
{
    assert((-a) * (-a) == a * a) by (nonlinear_arith);
}

/// A vector thrown head-on against a unit normal reflects straight back:
/// `reflect(-n, n) == n`.
pub proof fn lemma_reflect_head_on(v: Vec3, n: Vec3)
    requires
        v == neg_spec(n),
        dot_spec(n, n) == FX_ONE as int,
        length_squared_spec(n) == FX_ONE as int,
    ensures
        reflect_spec(v, n) == neg_spec(v),
        reflect_spec(v, n) == n,
{
    lemma_unit_component_bounds(n);
    lemma_dot_neg(n, n);
    assert(dot_spec(v, n) == fx_neg(FX_ONE as int));
    assert(fx_mul(2 * FX_ONE, -(FX_ONE as int)) == -2 * FX_ONE) by (nonlinear_arith);
    lemma_scale_constant(n.x.raw as int);
    lemma_scale_constant(n.y.raw as int);
    lemma_scale_constant(n.z.raw as int);
}

/// Multiplying a bounded value by minus two in fixed point is exact.
proof fn lemma_scale_constant(a: int)
    requires
        -(FX_SCALE as int) <= a <= FX_SCALE as int,
    ensures
        fx_mul(a, -2 * FX_ONE) == -2 * a,
{
    assert(a * (-2 * 65536) == -2 * a * 65536) by (nonlinear_arith);
    assert(crate::fixed::div_to_zero(-2 * a * 65536, 65536) == -2 * a) by (nonlinear_arith);
}

/// A slab of index-matched glass is optically invisible: refracting a unit
/// vector head-on through a surface whose normal opposes it, with a
/// refraction ratio of one, hands the vector back unchanged.
pub proof fn lemma_refract_index_matched_head_on(v: Vec3, n: Vec3)
    requires
        n == neg_spec(v),
        length_squared_spec(v) == FX_ONE as int,
    ensures
        refract_spec(v, n, Fx { raw: FX_ONE }) == v,
{
    lemma_unit_component_bounds(v);
    lemma_square_neg(v.x.raw as int);
    lemma_square_neg(v.y.raw as int);
    lemma_square_neg(v.z.raw as int);
    assert(dot_spec(neg_spec(v), n) == dot_spec(v, v));
    assert(dot_spec(neg_spec(v), n) == FX_ONE as int);
    lemma_mul_one(v.x.raw as int);
    lemma_mul_one(v.y.raw as int);
    lemma_mul_one(v.z.raw as int);
    lemma_mul_one(n.x.raw as int);
    lemma_mul_one(n.y.raw as int);
    lemma_mul_one(n.z.raw as int);
    let perp = scale_spec(add_spec(v, scale_spec(n, fx_of(FX_ONE as int))), Fx { raw: FX_ONE });
    assert(perp == (Vec3 { x: Fx { raw: 0 }, y: Fx { raw: 0 }, z: Fx { raw: 0 } }));
    assert(length_squared_spec(perp) == 0);
    crate::fixed::lemma_sqrt_floor_unique(FX_ONE * FX_SCALE, FX_ONE as int);
    lemma_mul_one(0);
}

/// Multiplying by one in fixed point is exact for any representable value.
pub proof fn lemma_mul_one(a: int)
    requires
        -(crate::fixed::FX_MAX as int) <= a <= crate::fixed::FX_MAX as int,
    ensures
        fx_mul(a, FX_ONE as int) == a,
        fx_mul(FX_ONE as int, a) == a,
{
    assert(crate::fixed::div_to_zero(a * 65536, 65536) == a) by (nonlinear_arith);
    assert(crate::fixed::div_to_zero(65536 * a, 65536) == a) by (nonlinear_arith);
}

/// The magnitude of one normalized component: `|x| * FX_SCALE / L`, rounded
/// down.
pub open spec fn unit_mag(x: int, len: int) -> int {
    (abs(x) * FX_SCALE) / len
}

/// How one component behaves under normalization: the fixed-point quotient
/// is the signed magnitude `unit_mag`, its square stays small, and the
/// product `unit_mag * len` sits within one rounding step of `|x| * FX_SCALE`.
proof fn lemma_unit_component(x: int, len: int)
    requires
        -0x8000_0000 <= x <= 0x8000_0000,
        crate::fixed::FX_HALF as int <= len,
        x * x < (len + FX_SCALE) * (len + FX_SCALE),
    ensures
        fx_div(x, len) == if x >= 0 {
            unit_mag(x, len)
        } else {
            -unit_mag(x, len)
        },
        fx_mul(fx_div(x, len), fx_div(x, len)) == (unit_mag(x, len) * unit_mag(x, len)) / (
        FX_SCALE as int),
        0 <= unit_mag(x, len) < 3 * FX_SCALE,
        unit_mag(x, len) * unit_mag(x, len) * (len * len) <= x * x * (FX_SCALE as int)
            * (FX_SCALE as int),
        unit_mag(x, len) * unit_mag(x, len) * (len * len) >= x * x * (FX_SCALE as int) * (
        FX_SCALE as int) - 2 * (abs(x) * (FX_SCALE as int) * len),
{
    let a = abs(x);
    let q = unit_mag(x, len);
    let rho = (a * (FX_SCALE as int)) % len;
    vstd::arithmetic::div_mod::lemma_fundamental_div_mod(a * (FX_SCALE as int), len);
    assert(0 <= rho < len);
    assert(q * len == a * (FX_SCALE as int) - rho);
    assert(q >= 0) by (nonlinear_arith)
        requires
            q * len == a * (FX_SCALE as int) - rho,
            0 <= rho < len,
            len > 0,
            a >= 0,
    ;
    assert(a < len + FX_SCALE) by (nonlinear_arith)
        requires
            x * x < (len + FX_SCALE) * (len + FX_SCALE),
            a == abs(x),
            len + FX_SCALE > 0,
    ;
    assert(q < 3 * FX_SCALE) by (nonlinear_arith)
        requires
            q * len == a * (FX_SCALE as int) - rho,
            a < len + FX_SCALE,
            crate::fixed::FX_HALF as int <= len,
            0 <= rho,
            FX_SCALE == 65536,
            crate::fixed::FX_HALF == 32768,
    ;
    assert((q * len) * (q * len) <= (a * (FX_SCALE as int)) * (a * (FX_SCALE as int)))
        by (nonlinear_arith)
        requires
            q * len == a * (FX_SCALE as int) - rho,
            0 <= rho,
            0 <= q * len,
    ;
    assert((q * len) * (q * len) >= (a * (FX_SCALE as int)) * (a * (FX_SCALE as int)) - 2 * (a * (
    FX_SCALE as int) * len)) by (nonlinear_arith)
        requires
            q * len == a * (FX_SCALE as int) - rho,
            0 <= rho < len,
            0 <= a,
    ;
    assert(q * q * (len * len) == (q * len) * (q * len)) by (nonlinear_arith);
    assert(a * a == x * x) by (nonlinear_arith)
        requires
            a == abs(x),
    ;
    assert((a * (FX_SCALE as int)) * (a * (FX_SCALE as int)) == a * a * (FX_SCALE as int) * (
    FX_SCALE as int)) by (nonlinear_arith);
    assert(fx_div(x, len) == if x >= 0 {
        q
    } else {
        -q
    });
    let u = fx_div(x, len);
    assert(u * u == q * q) by (nonlinear_arith)
        requires
            u == q || u == -q,
    ;
    assert(0 <= q * q < (3 * FX_SCALE) * (3 * FX_SCALE)) by (nonlinear_arith)
        requires
            0 <= q < 3 * FX_SCALE,
    ;
    assert(fx_mul(u, u) == (q * q) / (FX_SCALE as int));
}

/// Normalizing any vector whose squared length is at least one quarter (a
/// length of at least one half) and whose components are at most `2^31` in
/// magnitude yields a vector of unit length to within a few grid units.
pub proof fn lemma_unit_vector_near_unit_length(v: Vec3)
    requires
        FX_QUARTER as int <= length_squared_spec(v),
        -0x8000_0000 <= v.x.raw as int <= 0x8000_0000,
        -0x8000_0000 <= v.y.raw as int <= 0x8000_0000,
        -0x8000_0000 <= v.z.raw as int <= 0x8000_0000,
    ensures
        FX_ONE as int - 21 <= length_squared_spec(unit_spec(v)) <= FX_ONE as int + 16,
        FX_ONE as int - 11 <= length_spec(unit_spec(v)) <= FX_ONE as int + 7,
{
    let s = FX_SCALE as int;
    let x = v.x.raw as int;
    let y = v.y.raw as int;
    let z = v.z.raw as int;
    lemma_component_square(x);
    lemma_component_square(y);
    lemma_component_square(z);
    let ls = length_squared_spec(v);
    assert(ls == (x * x) / s + (y * y) / s + (z * z) / s);
    let sum_sq = x * x + y * y + z * z;
    assert(s * ls <= sum_sq <= s * ls + 3 * s - 3) by {
        vstd::arithmetic::div_mod::lemma_fundamental_div_mod(x * x, s);
        vstd::arithmetic::div_mod::lemma_fundamental_div_mod(y * y, s);
        vstd::arithmetic::div_mod::lemma_fundamental_div_mod(z * z, s);
    }
    let n = ls * s;
    crate::fixed::lemma_sqrt_floor_exists(n);
    let len = crate::fixed::sqrt_floor(n);
    assert(len * len <= n < (len + 1) * (len + 1));
    assert(n >= (FX_QUARTER as int) * s) by (nonlinear_arith)
        requires
            n == ls * s,
            ls >= FX_QUARTER as int,
            s == 65536,
            FX_QUARTER == 16384,
    ;
    assert(len >= s / 2) by (nonlinear_arith)
        requires
            n < (len + 1) * (len + 1),
            n >= (FX_QUARTER as int) * s,
            len >= 0,
            s == 65536,
            FX_QUARTER == 16384,
    ;
    assert(sum_sq <= n + 3 * s - 3) by (nonlinear_arith)
        requires
            sum_sq <= s * ls + 3 * s - 3,
            n == ls * s,
    ;
    assert(x * x < (len + s) * (len + s) && y * y < (len + s) * (len + s) && z * z < (len + s) * (
    len + s)) by (nonlinear_arith)
        requires
            x * x >= 0,
            y * y >= 0,
            z * z >= 0,
            x * x + y * y + z * z <= n + 3 * s - 3,
            n < (len + 1) * (len + 1),
            len >= s / 2,
            s == 65536,
    ;
    lemma_unit_component(x, len);
    lemma_unit_component(y, len);
    lemma_unit_component(z, len);
    let qx = unit_mag(x, len);
    let qy = unit_mag(y, len);
    let qz = unit_mag(z, len);
    let q_total = qx * qx + qy * qy + qz * qz;
    let ax = abs(x);
    let ay = abs(y);
    let az = abs(z);
    assert(ax < len + s && ay < len + s && az < len + s) by (nonlinear_arith)
        requires
            x * x < (len + s) * (len + s),
            y * y < (len + s) * (len + s),
            z * z < (len + s) * (len + s),
            len + s > 0,
            ax == abs(x),
            ay == abs(y),
            az == abs(z),
    ;
    assert(q_total * (len * len) == qx * qx * (len * len) + qy * qy * (len * len) + qz * qz * (len
        * len)) by (nonlinear_arith)
        requires
            q_total == qx * qx + qy * qy + qz * qz,
    ;
    assert(sum_sq * s * s == x * x * s * s + y * y * s * s + z * z * s * s) by (nonlinear_arith)
        requires
            sum_sq == x * x + y * y + z * z,
    ;
    assert((ax + ay + az) * s * len == ax * s * len + ay * s * len + az * s * len)
        by (nonlinear_arith);
    assert(q_total * (len * len) <= sum_sq * s * s);
    assert(q_total * (len * len) >= sum_sq * s * s - 2 * ((ax + ay + az) * s * len));
    assert(q_total <= s * s + 16 * s + 4) by (nonlinear_arith)
        requires
            q_total * (len * len) <= sum_sq * s * s,
            sum_sq <= n + 3 * s - 3,
            n < (len + 1) * (len + 1),
            len >= s / 2,
            s == 65536,
    ;
    assert(q_total >= s * s - 18 * s) by (nonlinear_arith)
        requires
            q_total * (len * len) >= sum_sq * s * s - 2 * ((ax + ay + az) * s * len),
            sum_sq >= s * ls,
            n == ls * s,
            len * len <= n,
            ax < len + s,
            ay < len + s,
            az < len + s,
            len >= s / 2,
            s == 65536,
    ;
    assert(n <= sum_sq) by (nonlinear_arith)
        requires
            n == ls * s,
            s * ls <= sum_sq,
    ;
    assert(len < 0x1_0000_0000_0000) by (nonlinear_arith)
        requires
            len * len <= n,
            n <= 3 * 0x4000_0000_0000_0000,
            len >= 0,
    ;
    let w = unit_spec(v);
    assert(length_spec(v) == len);
    assert(w == div_spec(v, fx_of(len)));
    let ux = fx_div(x, len);
    let uy = fx_div(y, len);
    let uz = fx_div(z, len);
    assert(w.x.raw as int == ux && w.y.raw as int == uy && w.z.raw as int == uz);
    let ls_u = length_squared_spec(w);
    assert(ls_u == (qx * qx) / s + (qy * qy) / s + (qz * qz) / s);
    assert(s * ls_u <= q_total <= s * ls_u + 3 * s - 3) by {
        vstd::arithmetic::div_mod::lemma_fundamental_div_mod(qx * qx, s);
        vstd::arithmetic::div_mod::lemma_fundamental_div_mod(qy * qy, s);
        vstd::arithmetic::div_mod::lemma_fundamental_div_mod(qz * qz, s);
    }
    assert(ls_u <= s + 16) by (nonlinear_arith)
        requires
            s * ls_u <= q_total,
            q_total <= s * s + 16 * s + 4,
            s == 65536,
    ;
    assert(ls_u >= s - 21) by (nonlinear_arith)
        requires
            s * ls_u + 3 * s - 3 >= q_total,
            q_total >= s * s - 18 * s,
            s == 65536,
    ;
    let nu = ls_u * s;
    crate::fixed::lemma_sqrt_floor_exists(nu);
    let lu = crate::fixed::sqrt_floor(nu);
    assert(length_spec(w) == lu);
    assert(lu >= s - 11) by (nonlinear_arith)
        requires
            nu == ls_u * s,
            ls_u >= s - 21,
            nu < (lu + 1) * (lu + 1),
            lu >= 0,
            s == 65536,
    ;
    assert(lu <= s + 7) by (nonlinear_arith)
        requires
            nu == ls_u * s,
            ls_u <= s + 16,
            lu * lu <= nu,
            lu >= 0,
            s == 65536,
    ;
}

/// A bounded component's fixed-point square is the exact floored quotient of
/// its integer square.
proof fn lemma_component_square(x: int)
    requires
        -0x8000_0000 <= x <= 0x8000_0000,
    ensures
        fx_mul(x, x) == (x * x) / (FX_SCALE as int),
        0 <= x * x <= 0x4000_0000_0000_0000,
{
    assert(0 <= x * x <= 0x4000_0000_0000_0000) by (nonlinear_arith)
        requires
            -0x8000_0000 <= x <= 0x8000_0000,
    ;
    assert(0 <= (x * x) / 65536 <= 0x4000_0000_0000) by (nonlinear_arith)
        requires
            0 <= x * x <= 0x4000_0000_0000_0000,
    ;
}

impl Vec3 {
    pub fn new(x: Fx, y: Fx, z: Fx) -> (r: Vec3)
        ensures
            r == (Vec3 { x, y, z }),
    {
        Vec3 { x, y, z }
    }

    pub fn zero() -> (r: Vec3)
        ensures
            r == (Vec3 { x: Fx { raw: 0 }, y: Fx { raw: 0 }, z: Fx { raw: 0 } }),
    {
        Vec3 { x: Fx { raw: 0 }, y: Fx { raw: 0 }, z: Fx { raw: 0 } }
    }

    pub fn x(&self) -> (r: Fx)
        ensures
            r == self.x,
    {
        self.x
    }

    pub fn y(&self) -> (r: Fx)
        ensures
            r == self.y,
    {
        self.y
    }

    pub fn z(&self) -> (r: Fx)
        ensures
            r == self.z,
    {
        self.z
    }

    pub fn add(self, other: Vec3) -> (r: Vec3)
        ensures
            r == add_spec(self, other),
    {
        Vec3 { x: self.x.add(other.x), y: self.y.add(other.y), z: self.z.add(other.z) }
    }

    pub fn sub(self, other: Vec3) -> (r: Vec3)
        ensures
            r == sub_spec(self, other),
    {
        Vec3 { x: self.x.sub(other.x), y: self.y.sub(other.y), z: self.z.sub(other.z) }
    }

    pub fn neg(self) -> (r: Vec3)
        ensures
            r == neg_spec(self),
    {
        Vec3 { x: self.x.neg(), y: self.y.neg(), z: self.z.neg() }
    }

    pub fn mul(self, other: Vec3) -> (r: Vec3)
        ensures
            r == mul_spec(self, other),
    {
        Vec3 { x: self.x.mul(other.x), y: self.y.mul(other.y), z: self.z.mul(other.z) }
    }

    pub fn scale(self, t: Fx) -> (r: Vec3)
        ensures
            r == scale_spec(self, t),
    {
        Vec3 { x: self.x.mul(t), y: self.y.mul(t), z: self.z.mul(t) }
    }

    pub fn div(self, t: Fx) -> (r: Vec3)
        requires
            t.raw != 0,
        ensures
            r == div_spec(self, t),
    {
        Vec3 { x: self.x.div(t), y: self.y.div(t), z: self.z.div(t) }
    }

    pub fn dot(&self, other: Vec3) -> (r: Fx)
        ensures
            r.raw as int == dot_spec(*self, other),
    {
        self.x.mul(other.x).add(self.y.mul(other.y)).add(self.z.mul(other.z))
    }

    pub fn cross(&self, other: Vec3) -> (r: Vec3)
        ensures
            r == cross_spec(*self, other),
    {
        Vec3 {
            x: self.y.mul(other.z).sub(self.z.mul(other.y)),
            y: self.x.mul(other.z).sub(self.z.mul(other.x)).neg(),
            z: self.x.mul(other.y).sub(self.y.mul(other.x)),
        }
    }

    pub fn length_squared(&self) -> (r: Fx)
        ensures
            r.raw as int == length_squared_spec(*self),
            r.raw >= 0,
    {
        proof {
            lemma_length_squared_nonneg(*self);
        }
        self.dot(*self)
    }

    pub fn length(&self) -> (r: Fx)
        ensures
            r.raw as int == length_spec(*self),
            is_sqrt(length_squared_spec(*self) * FX_SCALE, r.raw as int),
            r.raw >= 0,
    {
        self.length_squared().sqrt()
    }

    /// The vector scaled to unit length. The zero vector has no direction:
    /// callers must keep it out.
    pub fn unit_vector(&self) -> (r: Vec3)
        requires
            length_spec(*self) != 0,
        ensures
            r == unit_spec(*self),
    {
        let l: Fx = self.length();
        self.div(l)
    }

    pub fn near_zero(&self) -> (r: bool)
        ensures
            r == near_zero_spec(*self),
    {
        self.x.raw == 0 && self.y.raw == 0 && self.z.raw == 0
    }

    pub fn reflect(vec: Vec3, normal: Vec3) -> (r: Vec3)
        ensures
            r == reflect_spec(vec, normal),
    {
        let d: Fx = vec.dot(normal);
        vec.sub(normal.scale(Fx::of_raw(2 * FX_ONE).mul(d)))
    }

    /// Snell refraction by perpendicular/parallel decomposition. Assumes the
    /// caller has ruled out total internal reflection.
    pub fn refract(vec: Vec3, normal: Vec3, etai_over_etat: Fx) -> (r: Vec3)
        ensures
            r == refract_spec(vec, normal, etai_over_etat),
    {
        let cos_theta: Fx = vec.neg().dot(normal).min(Fx::of_raw(FX_ONE));
        let r_out_perp: Vec3 = vec.add(normal.scale(cos_theta)).scale(etai_over_etat);
        let gap: Fx = Fx::of_raw(FX_ONE).sub(r_out_perp.length_squared());
        let r_out_par: Vec3 = normal.scale(gap.abs().sqrt()).neg();
        r_out_perp.add(r_out_par)
    }

    /// A vector with each component drawn uniformly from `[0, 1)`.
    pub fn random(rng: &mut RandomSource) -> (r: Vec3)
        requires
            old(rng).wf(),
        ensures
            final(rng).wf(),
            0 <= r.x.raw < FX_ONE,
            0 <= r.y.raw < FX_ONE,
            0 <= r.z.raw < FX_ONE,
            old(rng).is_fixed() ==> *final(rng) == *old(rng) && r == (Vec3 {
                x: old(rng).fixed_value(),
                y: old(rng).fixed_value(),
                z: old(rng).fixed_value(),
            }),
    {
        let x: Fx = crate::rng::random(rng);
        let y: Fx = crate::rng::random(rng);
        let z: Fx = crate::rng::random(rng);
        Vec3 { x, y, z }
    }

    /// A vector with each component drawn uniformly from `[min, max)`: every
    /// component is the image of its own draw, whatever the stream.
    pub fn random_in_range(rng: &mut RandomSource, min: Fx, max: Fx) -> (r: Vec3)
        requires
            old(rng).wf(),
        ensures
            final(rng).wf(),
            exists|u1: Fx, u2: Fx, u3: Fx|
                0 <= u1.raw < FX_ONE && 0 <= u2.raw < FX_ONE && 0 <= u3.raw < FX_ONE && r == (Vec3 {
                    x: crate::rng::in_range_spec(min, max, u1),
                    y: crate::rng::in_range_spec(min, max, u2),
                    z: crate::rng::in_range_spec(min, max, u3),
                }),
            -crate::fixed::FX_MAX <= min.raw as int <= max.raw as int && max.raw - min.raw
                <= crate::fixed::FX_MAX ==> {
                &&& min.raw <= r.x.raw <= max.raw
                &&& min.raw <= r.y.raw <= max.raw
                &&& min.raw <= r.z.raw <= max.raw
                &&& min.raw < max.raw ==> r.x.raw < max.raw && r.y.raw < max.raw && r.z.raw
                    < max.raw
            },
            old(rng).is_fixed() ==> *final(rng) == *old(rng) && {
                let c = crate::rng::in_range_spec(min, max, old(rng).fixed_value());
                r == (Vec3 { x: c, y: c, z: c })
            },
    {
        let x: Fx = crate::rng::random_in_range(rng, min, max);
        let y: Fx = crate::rng::random_in_range(rng, min, max);
        let z: Fx = crate::rng::random_in_range(rng, min, max);
        proof {
            let u1 = choose|u: Fx| 0 <= u.raw < FX_ONE && x == crate::rng::in_range_spec(min, max, u);
            let u2 = choose|u: Fx| 0 <= u.raw < FX_ONE && y == crate::rng::in_range_spec(min, max, u);
            let u3 = choose|u: Fx| 0 <= u.raw < FX_ONE && z == crate::rng::in_range_spec(min, max, u);
            assert(0 <= u1.raw < FX_ONE && 0 <= u2.raw < FX_ONE && 0 <= u3.raw < FX_ONE
                && (Vec3 { x, y, z }) == (Vec3 {
                x: crate::rng::in_range_spec(min, max, u1),
                y: crate::rng::in_range_spec(min, max, u2),
                z: crate::rng::in_range_spec(min, max, u3),
            }));
        }
        Vec3 { x, y, z }
    }

    /// Rejection-samples a point of the unit sphere's interior no shorter
    /// than one half, so normalizing an accepted point stays accurate on the
    /// fixed-point grid. If the draw stream keeps handing back rejected
    /// candidates, after a bounded number of tries the sampler falls back to
    /// the positive x axis.
    #[verifier::loop_isolation(false)]
    pub fn random_in_unit_sphere(rng: &mut RandomSource) -> (r: Vec3)
        requires
            old(rng).wf(),
        ensures
            final(rng).wf(),
            sphere_sample_wf(r),
            old(rng).is_fixed() ==> *final(rng) == *old(rng) && r == unit_sphere_fixed_spec(
                old(rng).fixed_value(),
            ),
    {
        let neg_one: Fx = Fx::of_raw(-FX_ONE);
        let one: Fx = Fx::of_raw(FX_ONE);
        let mut attempts: u32 = 0;
        while attempts < 64
            invariant
                rng.wf(),
                old(rng).is_fixed() ==> *rng == *old(rng),
                attempts > 0 && old(rng).is_fixed() ==> !{
                    let cand = sphere_candidate_spec(old(rng).fixed_value());
                    FX_QUARTER as int <= length_squared_spec(cand) < FX_ONE as int
                },
            decreases 64 - attempts,
        {
            let vec: Vec3 = Vec3::random_in_range(rng, neg_one, one);
            let ls: Fx = vec.length_squared();
            if FX_QUARTER <= ls.raw && ls.raw < FX_ONE {
                return vec;
            }
            attempts = attempts + 1;
        }
        let fallback: Vec3 = Vec3 { x: one, y: Fx::of_raw(0), z: Fx::of_raw(0) };
        proof {
            assert(length_squared_spec(fallback) == FX_ONE as int);
        }
        fallback
    }

    /// A unit-length direction: a rejection-sampled interior point of the unit
    /// sphere, normalized. Whatever the draw stream, the result is such a
    /// normalization and its length sits within a few grid units of one.
    pub fn random_unit_vector(rng: &mut RandomSource) -> (r: Vec3)
        requires
            old(rng).wf(),
        ensures
            final(rng).wf(),
            unit_sample_possible(r),
            FX_ONE as int - 21 <= length_squared_spec(r) <= FX_ONE as int + 16,
            FX_ONE as int - 11 <= length_spec(r) <= FX_ONE as int + 7,
            old(rng).is_fixed() ==> *final(rng) == *old(rng) && r == unit_vector_fixed_spec(
                old(rng).fixed_value(),
            ),
    {
        let s: Vec3 = Vec3::random_in_unit_sphere(rng);
        proof {
            lemma_length_pos(s);
            lemma_unit_vector_near_unit_length(s);
        }
        let r: Vec3 = s.unit_vector();
        proof {
            assert(sphere_sample_wf(s) && r == unit_spec(s));
        }
        r
    }

    /// A direction on the hemisphere around `normal`: a random unit vector,
    /// flipped if it points against the normal. Whatever the draw stream, the
    /// result is such a sample or its negation, never opposing the normal,
    /// with its squared length within a few grid units of one.
    pub fn random_on_hemisphere(normal: Vec3, rng: &mut RandomSource) -> (r: Vec3)
        requires
            old(rng).wf(),
        ensures
            final(rng).wf(),
            dot_spec(r, normal) >= 0,
            exists|uv: Vec3|
                unit_sample_possible(uv) && ((dot_spec(uv, normal) > 0 && r == uv) || (dot_spec(
                    uv,
                    normal,
                ) <= 0 && r == neg_spec(uv))),
            FX_ONE as int - 21 <= length_squared_spec(r) <= FX_ONE as int + 16,
            FX_ONE as int - 11 <= length_spec(r) <= FX_ONE as int + 7,
            old(rng).is_fixed() ==> *final(rng) == *old(rng) && {
                let uv = unit_vector_fixed_spec(old(rng).fixed_value());
                r == if dot_spec(uv, normal) > 0 {
                    uv
                } else {
                    neg_spec(uv)
                }
            },
    {
        let on_unit_sphere: Vec3 = Vec3::random_unit_vector(rng);
        proof {
            let s0 = choose|s: Vec3| sphere_sample_wf(s) && on_unit_sphere == unit_spec(s);
            assert(on_unit_sphere == unit_spec(s0));
        }
        let d: Fx = on_unit_sphere.dot(normal);
        if d.raw > 0 {
            on_unit_sphere
        } else {
            proof {
                lemma_dot_neg(on_unit_sphere, normal);
                lemma_square_neg(on_unit_sphere.x.raw as int);
                lemma_square_neg(on_unit_sphere.y.raw as int);
                lemma_square_neg(on_unit_sphere.z.raw as int);
            }
            on_unit_sphere.neg()
        }
    }

    /// Rejection-samples a point inside the unit disk of the x-y plane,
    /// falling back to the center after a bounded number of tries.
    #[verifier::loop_isolation(false)]
    pub fn random_in_unit_disk(rng: &mut RandomSource) -> (r: Vec3)
        requires
            old(rng).wf(),
        ensures
            final(rng).wf(),
            0 <= length_squared_spec(r) < FX_ONE as int,
            r.z.raw == 0,
            old(rng).is_fixed() ==> *final(rng) == *old(rng) && r == unit_disk_fixed_spec(
                old(rng).fixed_value(),
            ),
    {
        let neg_one: Fx = Fx::of_raw(-FX_ONE);
        let one: Fx = Fx::of_raw(FX_ONE);
        let zero: Fx = Fx::of_raw(0);
        let mut attempts: u32 = 0;
        while attempts < 64
            invariant
                rng.wf(),
                old(rng).is_fixed() ==> *rng == *old(rng),
                attempts > 0 && old(rng).is_fixed() ==> !{
                    let c = crate::rng::in_range_spec(
                        Fx { raw: (-FX_ONE) as i64 },
                        Fx { raw: FX_ONE },
                        old(rng).fixed_value(),
                    );
                    length_squared_spec(Vec3 { x: c, y: c, z: Fx { raw: 0 } }) < FX_ONE as int
                },
            decreases 64 - attempts,
        {
            let px: Fx = crate::rng::random_in_range(rng, neg_one, one);
            let py: Fx = crate::rng::random_in_range(rng, neg_one, one);
            let p: Vec3 = Vec3 { x: px, y: py, z: zero };
            let ls: Fx = p.length_squared();
            if ls.raw < FX_ONE {
                proof {
                    lemma_length_squared_nonneg(p);
                }
                return p;
            }
            attempts = attempts + 1;
        }
        Vec3 { x: zero, y: zero, z: zero }
    }
}

} // verus!
