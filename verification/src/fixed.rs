//! Scalar arithmetic for the renderer.
//!
//! Every geometric and color quantity is a binary fixed-point number with 16
//! fractional bits, stored in an `i64`. Operations saturate at the
//! representable horizon instead of wrapping, and multiplication, division
//! and square root round toward zero. Each operation is specified exactly by
//! a spec function over the underlying integers.

use vstd::prelude::*;

verus! {

/// Number of raw units per 1.0.
pub const FX_SCALE: i64 = 65536;

/// The raw value of 1.0.
pub const FX_ONE: i64 = 65536;

/// The raw value of 0.5.
pub const FX_HALF: i64 = 32768;

/// The raw value of 0.25.
pub const FX_QUARTER: i64 = 16384;

/// Largest raw magnitude a scalar can hold; the saturation horizon.
pub const FX_MAX: i64 = i64::MAX;

/// Saturate an unbounded integer into the symmetric raw range.
pub open spec fn sat(x: int) -> int {
    if x > FX_MAX as int {
        FX_MAX as int
    } else if x < -(FX_MAX as int) {
        -(FX_MAX as int)
    } else {
        x
    }
}

/// Quotient rounded toward zero, for a positive divisor `d`.
pub open spec fn div_to_zero(x: int, d: int) -> int {
    if x >= 0 {
        x / d
    } else {
        -((-x) / d)
    }
}

/// Quotient rounded toward zero, for any nonzero divisor `d`.
pub open spec fn div_signed(x: int, d: int) -> int {
    if d >= 0 {
        div_to_zero(x, d)
    } else {
        div_to_zero(-x, -d)
    }
}

pub open spec fn fx_add(a: int, b: int) -> int {
    sat(a + b)
}

pub open spec fn fx_sub(a: int, b: int) -> int {
    sat(a - b)
}

pub open spec fn fx_neg(a: int) -> int {
    sat(-a)
}

pub open spec fn fx_mul(a: int, b: int) -> int {
    sat(div_to_zero(a * b, FX_SCALE as int))
}

pub open spec fn fx_div(a: int, b: int) -> int {
    sat(div_signed(a * FX_SCALE, b))
}

/// `r` is the integer square root of `n`, rounded down.
pub open spec fn is_sqrt(n: int, r: int) -> bool {
    &&& 0 <= r
    &&& r * r <= n
    &&& n < (r + 1) * (r + 1)
}

/// The integer square root of `n`, rounded down.
pub open spec fn sqrt_floor(n: int) -> int {
    choose|r: int| is_sqrt(n, r)
}

/// The square root of a fixed-point value: scaling by `FX_SCALE` keeps the
/// result in the same fixed-point format.
pub open spec fn fx_sqrt(a: int) -> int {
    sqrt_floor(a * FX_SCALE)
}

/// Any two integers satisfying `is_sqrt` for the same `n` coincide, so
/// `sqrt_floor` equals every witness.
pub proof fn lemma_sqrt_floor_unique(n: int, r: int)
    requires
        is_sqrt(n, r),
    ensures
        sqrt_floor(n) == r,
{
    assert(exists|q: int| is_sqrt(n, q));
    let s = choose|q: int| is_sqrt(n, q);
    assert(s == r) by (nonlinear_arith)
        requires
            is_sqrt(n, s),
            is_sqrt(n, r),
    ;
}

/// Every nonnegative integer has an integer square root, so `sqrt_floor`
/// satisfies its defining predicate.
pub proof fn lemma_sqrt_floor_exists(n: int)
    requires
        n >= 0,
    ensures
        is_sqrt(n, sqrt_floor(n)),
    decreases n,
{
    if n == 0 {
        assert(is_sqrt(0, 0));
    } else {
        lemma_sqrt_floor_exists(n - 1);
        let r = sqrt_floor(n - 1);
        if (r + 1) * (r + 1) <= n {
            assert(is_sqrt(n, r + 1)) by (nonlinear_arith)
                requires
                    is_sqrt(n - 1, r),
                    (r + 1) * (r + 1) <= n,
            ;
        } else {
            assert(is_sqrt(n, r));
        }
    }
    let w = choose|q: int| is_sqrt(n, q);
    assert(is_sqrt(n, w));
}

/// The square root of anything at least 1 is at least 1.
pub proof fn lemma_sqrt_floor_pos(n: int)
    requires
        n >= 1,
    ensures
        sqrt_floor(n) >= 1,
        is_sqrt(n, sqrt_floor(n)),
{
    lemma_sqrt_floor_exists(n);
}

/// A fixed-point scalar: the real number `raw / FX_SCALE`.
#[derive(Clone, Copy, Debug, PartialEq, Eq, Structural)]
pub struct Fx {
    pub raw: i64,
}

/// Saturate an `i128` into the raw `i64` range.
fn clamp_raw(x: i128) -> (r: i64)
    ensures
        r as int == sat(x as int),
{
    if x > FX_MAX as i128 {
        FX_MAX
    } else if x < -(FX_MAX as i128) {
        -FX_MAX
    } else {
        x as i64
    }
}

impl Fx {
    /// The scalar with the given raw representation.
    pub fn of_raw(raw: i64) -> (r: Fx)
        ensures
            r.raw == raw,
    {
        Fx { raw }
    }

    /// The scalar equal to the integer `k`, saturated if out of range.
    pub fn from_int(k: i64) -> (r: Fx)
        ensures
            r.raw as int == sat(k * FX_SCALE),
    {
        let p: i128 = (k as i128) * 65536;
        Fx { raw: clamp_raw(p) }
    }

    pub fn add(self, other: Fx) -> (r: Fx)
        ensures
            r.raw as int == fx_add(self.raw as int, other.raw as int),
    {
        let s: i128 = self.raw as i128 + other.raw as i128;
        Fx { raw: clamp_raw(s) }
    }

    pub fn sub(self, other: Fx) -> (r: Fx)
        ensures
            r.raw as int == fx_sub(self.raw as int, other.raw as int),
    {
        let s: i128 = self.raw as i128 - other.raw as i128;
        Fx { raw: clamp_raw(s) }
    }

    pub fn neg(self) -> (r: Fx)
        ensures
            r.raw as int == fx_neg(self.raw as int),
    {
        let s: i128 = -(self.raw as i128);
        Fx { raw: clamp_raw(s) }
    }

    pub fn abs(self) -> (r: Fx)
        ensures
            r.raw as int == if self.raw >= 0 {
                self.raw as int
            } else {
                fx_neg(self.raw as int)
            },
    {
        if self.raw >= 0 {
            self
        } else {
            self.neg()
        }
    }

    pub fn mul(self, other: Fx) -> (r: Fx)
        ensures
            r.raw as int == fx_mul(self.raw as int, other.raw as int),
    {
        let a: i128 = self.raw as i128;
        let b: i128 = other.raw as i128;
        assert(-0x8000_0000_0000_0000_0000_0000_0000_0000
            < a * b < 0x8000_0000_0000_0000_0000_0000_0000_0000) by (nonlinear_arith)
            requires
                -0x8000_0000_0000_0000 <= a <= 0x7fff_ffff_ffff_ffff,
                -0x8000_0000_0000_0000 <= b <= 0x7fff_ffff_ffff_ffff,
        ;
        let p: i128 = a * b;
        let q: i128 = if p >= 0 {
            ((p as u128) / (FX_SCALE as u128)) as i128
        } else {
            -((((-p) as u128) / (FX_SCALE as u128)) as i128)
        };
        assert(q == div_to_zero(p as int, FX_SCALE as int));
        Fx { raw: clamp_raw(q) }
    }

    pub fn div(self, other: Fx) -> (r: Fx)
        requires
            other.raw != 0,
        ensures
            r.raw as int == fx_div(self.raw as int, other.raw as int),
    {
        let n: i128 = (self.raw as i128) * 65536;
        let d: i128 = other.raw as i128;
        let negative: bool = (n < 0) != (d < 0);
        let nm: u128 = if n >= 0 {
            n as u128
        } else {
            (-n) as u128
        };
        let dm: u128 = if d >= 0 {
            d as u128
        } else {
            (-d) as u128
        };
        let qm: u128 = nm / dm;
        assert(qm <= nm) by (nonlinear_arith)
            requires
                dm >= 1,
                qm == nm / dm,
        ;
        let q: i128 = if negative {
            -(qm as i128)
        } else {
            qm as i128
        };
        proof {
            lemma_div_signed_magnitude(n as int, d as int);
        }
        Fx { raw: clamp_raw(q) }
    }

    /// The square root, rounded down to the fixed-point grid.
    pub fn sqrt(self) -> (r: Fx)
        requires
            self.raw >= 0,
        ensures
            r.raw as int == fx_sqrt(self.raw as int),
            is_sqrt(self.raw * FX_SCALE, r.raw as int),
    {
        let n: u128 = (self.raw as u128) * (FX_SCALE as u128);
        let s: u128 = isqrt(n);
        proof {
            lemma_sqrt_floor_unique(n as int, s as int);
            assert(s < 0x100_0000_0000) by (nonlinear_arith)
                requires
                    s * s <= n,
                    n < 0x1_0000_0000_0000_0000_0000,
            ;
        }
        Fx { raw: s as i64 }
    }

    pub fn min(self, other: Fx) -> (r: Fx)
        ensures
            r.raw == if self.raw <= other.raw {
                self.raw
            } else {
                other.raw
            },
    {
        if self.raw <= other.raw {
            self
        } else {
            other
        }
    }

    pub fn max(self, other: Fx) -> (r: Fx)
        ensures
            r.raw == if self.raw >= other.raw {
                self.raw
            } else {
                other.raw
            },
    {
        if self.raw >= other.raw {
            self
        } else {
            other
        }
    }
}

/// The sign-magnitude evaluation of a quotient agrees with `div_signed`.
proof fn lemma_div_signed_magnitude(n: int, d: int)
    requires
        d != 0,
    ensures
        div_signed(n, d) == if (n < 0) != (d < 0) {
            -((if n >= 0 { n } else { -n }) / (if d >= 0 { d } else { -d }))
        } else {
            (if n >= 0 { n } else { -n }) / (if d >= 0 { d } else { -d })
        },
{
}

/// Integer square root by binary search; sound for inputs below `2^80`.
fn isqrt(n: u128) -> (r: u128)
    requires
        n < 0x1_0000_0000_0000_0000_0000,
    ensures
        is_sqrt(n as int, r as int),
{
    let mut lo: u128 = 0;
    let mut hi: u128 = 0x100_0000_0000;
    assert(hi * hi > n) by (nonlinear_arith)
        requires
            hi == 0x100_0000_0000,
            n < 0x1_0000_0000_0000_0000_0000,
    ;
    while lo + 1 < hi
        invariant
            lo < hi,
            hi <= 0x100_0000_0000,
            lo * lo <= n,
            n < hi * hi,
        decreases hi - lo,
    {
        let mid: u128 = lo + (hi - lo) / 2;
        assert(lo < mid < hi);
        assert(mid * mid < 0x1_0000_0000_0000_0000_0000_0000) by (nonlinear_arith)
            requires
                mid < 0x100_0000_0000,
        ;
        if mid * mid <= n {
            lo = mid;
        } else {
            hi = mid;
        }
    }
    lo
}

} // verus!
