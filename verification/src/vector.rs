//! Three- and four-component fixed-point vectors.
//!
//! `Vec3` is a point or direction in 3-space; `Vec4` is a homogeneous
//! coordinate used while applying `Mat4` transforms.  All components
//! are 16.16 fixed-point scalars.

use vstd::prelude::*;
use crate::fixed::{FX, FX_LIM, DIV_CLAMP, fxmul, fxdiv, tdiv, sabs, sclamp, is_isqrt, fx_sqrt,
    fx_mul, fx_div, fx_div_clamped, isqrt, lemma_mul_le, lemma_tdiv_bound, lemma_tdiv_abs,
    lemma_tdiv_exact, lemma_fxmul_bound};
use vstd::arithmetic::div_mod::{lemma_fundamental_div_mod, lemma_mod_bound};

verus! {

#[derive(Clone, Copy, PartialEq, Eq, Structural, Debug)]
pub struct Vec3 {
    pub x: i64,
    pub y: i64,
    pub z: i64,
}

#[derive(Clone, Copy, PartialEq, Eq, Structural, Debug)]
pub struct Vec4 {
    pub x: i64,
    pub y: i64,
    pub z: i64,
    pub w: i64,
}

/// The components of a vector as unbounded integers.
pub open spec fn v3(v: Vec3) -> (int, int, int) {
    (v.x as int, v.y as int, v.z as int)
}

/// The squared length of `v`, in fixed-point.
pub open spec fn spec_lsq(v: Vec3) -> int {
    fxmul(v.x as int, v.x as int) + fxmul(v.y as int, v.y as int) + fxmul(v.z as int, v.z as int)
}

/// The length of `v`: the integer square root of the squared length
/// rescaled to fixed-point.
pub open spec fn spec_length(v: Vec3) -> int {
    fx_sqrt(65536 * spec_lsq(v))
}

/// The dot product of `a` and `b`, in fixed-point.
pub open spec fn spec_dot(a: Vec3, b: Vec3) -> int {
    fxmul(a.x as int, b.x as int) + fxmul(a.y as int, b.y as int) + fxmul(a.z as int, b.z as int)
}

/// The cross product of `a` and `b`, componentwise.
pub open spec fn spec_cross(a: Vec3, b: Vec3) -> (int, int, int) {
    (
        fxmul(a.y as int, b.z as int) - fxmul(a.z as int, b.y as int),
        fxmul(a.z as int, b.x as int) - fxmul(a.x as int, b.z as int),
        fxmul(a.x as int, b.y as int) - fxmul(a.y as int, b.x as int),
    )
}

/// `v` scaled to unit length, or `v` itself when its length rounds
/// down to zero.
pub open spec fn spec_normalize(v: Vec3) -> (int, int, int) {
    let len = spec_length(v);
    if len > 0 {
        (fxdiv(v.x as int, len), fxdiv(v.y as int, len), fxdiv(v.z as int, len))
    } else {
        v3(v)
    }
}

impl Vec3 {
    /// All components within the working range.
    pub open spec fn wf(&self) -> bool {
        &&& -FX_LIM <= self.x <= FX_LIM
        &&& -FX_LIM <= self.y <= FX_LIM
        &&& -FX_LIM <= self.z <= FX_LIM
    }

    pub fn new(x: i64, y: i64, z: i64) -> (v: Vec3)
        ensures
            v == (Vec3 { x, y, z }),
    {
        Vec3 { x, y, z }
    }

    pub fn zero() -> (v: Vec3)
        ensures
            v == (Vec3 { x: 0i64, y: 0i64, z: 0i64 }),
            v.wf(),
    {
        Vec3 { x: 0, y: 0, z: 0 }
    }

    pub fn unit_x() -> (v: Vec3)
        ensures
            v == (Vec3 { x: FX, y: 0i64, z: 0i64 }),
            v.wf(),
    {
        Vec3 { x: FX, y: 0, z: 0 }
    }

    pub fn unit_y() -> (v: Vec3)
        ensures
            v == (Vec3 { x: 0i64, y: FX, z: 0i64 }),
            v.wf(),
    {
        Vec3 { x: 0, y: FX, z: 0 }
    }

    pub fn unit_z() -> (v: Vec3)
        ensures
            v == (Vec3 { x: 0i64, y: 0i64, z: FX }),
            v.wf(),
    {
        Vec3 { x: 0, y: 0, z: FX }
    }

    /// The squared length, exactly `spec_lsq`.
    pub fn length_squared(&self) -> (r: i64)
        requires
            self.wf(),
        ensures
            r == spec_lsq(*self),
            0 <= r <= 0xC000_0000_0000,
    {
        proof {
            lemma_sq_bounds(self.x as int);
            lemma_sq_bounds(self.y as int);
            lemma_sq_bounds(self.z as int);
        }
        let a = fx_mul(self.x, self.x);
        let b = fx_mul(self.y, self.y);
        let c = fx_mul(self.z, self.z);
        a + b + c
    }

    /// The length, exactly `spec_length`.
    pub fn length(&self) -> (r: i64)
        requires
            self.wf(),
        ensures
            r == spec_length(*self),
            0 <= r <= 0x2_0000_0000,
    {
        let lsq = self.length_squared();
        let n: u64 = (lsq as u64) * 65536;
        let r = isqrt(n);
        proof {
            assert(r as int <= 0x2_0000_0000) by (nonlinear_arith)
                requires
                    is_isqrt(r as int, n as int),
                    n as int <= 0xC000_0000_0000 * 65536,
            ;
        }
        r as i64
    }

    /// Scales `self` to unit length, returning `self` unchanged when
    /// the length rounds down to zero.  The result's components never
    /// exceed three whole units.
    pub fn normalize(&self) -> (r: Vec3)
        requires
            self.wf(),
        ensures
            v3(r) == spec_normalize(*self),
            r.wf(),
            -3 * FX <= r.x <= 3 * FX,
            -3 * FX <= r.y <= 3 * FX,
            -3 * FX <= r.z <= 3 * FX,
    {
        let len = self.length();
        if len > 0 {
            proof {
                lemma_sq_bounds(self.x as int);
                lemma_sq_bounds(self.y as int);
                lemma_sq_bounds(self.z as int);
                crate::fixed::lemma_isqrt_exists(65536 * spec_lsq(*self));
                lemma_unit_bound(self.x as int, spec_lsq(*self), len as int);
                lemma_unit_bound(self.y as int, spec_lsq(*self), len as int);
                lemma_unit_bound(self.z as int, spec_lsq(*self), len as int);
            }
            Vec3 { x: fx_div(self.x, len), y: fx_div(self.y, len), z: fx_div(self.z, len) }
        } else {
            proof {
                lemma_sq_bounds(self.x as int);
                lemma_sq_bounds(self.y as int);
                lemma_sq_bounds(self.z as int);
                crate::fixed::lemma_isqrt_exists(65536 * spec_lsq(*self));
                // A zero length forces a zero squared length, which in
                // turn keeps every component below one scale unit.
                assert(spec_lsq(*self) == 0);
                lemma_tiny_component(self.x as int);
                lemma_tiny_component(self.y as int);
                lemma_tiny_component(self.z as int);
            }
            *self
        }
    }

    /// The dot product, exactly `spec_dot`.
    pub fn dot(&self, other: &Vec3) -> (r: i64)
        requires
            self.wf(),
            other.wf(),
        ensures
            r == spec_dot(*self, *other),
            -0xC000_0000_0000 <= r <= 0xC000_0000_0000,
    {
        proof {
            lemma_wf_product(self.x as int, other.x as int);
            lemma_wf_product(self.y as int, other.y as int);
            lemma_wf_product(self.z as int, other.z as int);
        }
        fx_mul(self.x, other.x) + fx_mul(self.y, other.y) + fx_mul(self.z, other.z)
    }

    /// The cross product, exactly `spec_cross`.
    pub fn cross(&self, other: &Vec3) -> (r: Vec3)
        requires
            self.wf(),
            other.wf(),
        ensures
            v3(r) == spec_cross(*self, *other),
            -0x8000_0000_0000 <= r.x <= 0x8000_0000_0000,
            -0x8000_0000_0000 <= r.y <= 0x8000_0000_0000,
            -0x8000_0000_0000 <= r.z <= 0x8000_0000_0000,
    {
        proof {
            lemma_wf_product(self.y as int, other.z as int);
            lemma_wf_product(self.z as int, other.y as int);
            lemma_wf_product(self.z as int, other.x as int);
            lemma_wf_product(self.x as int, other.z as int);
            lemma_wf_product(self.x as int, other.y as int);
            lemma_wf_product(self.y as int, other.x as int);
        }
        Vec3 {
            x: fx_mul(self.y, other.z) - fx_mul(self.z, other.y),
            y: fx_mul(self.z, other.x) - fx_mul(self.x, other.z),
            z: fx_mul(self.x, other.y) - fx_mul(self.y, other.x),
        }
    }

    /// Linear interpolation from `self` toward `other` by the
    /// unclamped fixed-point parameter `t`.
    pub fn lerp(&self, other: &Vec3, t: i64) -> (r: Vec3)
        requires
            self.wf(),
            other.wf(),
            -0x4000_0000 <= t <= 0x4000_0000,
        ensures
            r.x == self.x + fxmul(other.x - self.x, t as int),
            r.y == self.y + fxmul(other.y - self.y, t as int),
            r.z == self.z + fxmul(other.z - self.z, t as int),
    {
        proof {
            lemma_mul_le((other.x - self.x) as int, t as int, 0x1_0000_0000, 0x4000_0000);
            lemma_mul_le((other.y - self.y) as int, t as int, 0x1_0000_0000, 0x4000_0000);
            lemma_mul_le((other.z - self.z) as int, t as int, 0x1_0000_0000, 0x4000_0000);
        }
        Vec3 {
            x: self.x + fx_mul(other.x - self.x, t),
            y: self.y + fx_mul(other.y - self.y, t),
            z: self.z + fx_mul(other.z - self.z, t),
        }
    }

    /// The distance between two points, exactly the length of their
    /// difference.
    pub fn distance(&self, other: &Vec3) -> (r: i64)
        requires
            self.wf(),
            other.wf(),
            -FX_LIM <= self.x - other.x <= FX_LIM,
            -FX_LIM <= self.y - other.y <= FX_LIM,
            -FX_LIM <= self.z - other.z <= FX_LIM,
        ensures
            r == spec_length(
                Vec3 {
                    x: (self.x - other.x) as i64,
                    y: (self.y - other.y) as i64,
                    z: (self.z - other.z) as i64,
                },
            ),
            0 <= r,
    {
        let d = Vec3 { x: self.x - other.x, y: self.y - other.y, z: self.z - other.z };
        d.length()
    }

    /// The squared distance between two points.
    pub fn distance_squared(&self, other: &Vec3) -> (r: i64)
        requires
            self.wf(),
            other.wf(),
            -FX_LIM <= self.x - other.x <= FX_LIM,
            -FX_LIM <= self.y - other.y <= FX_LIM,
            -FX_LIM <= self.z - other.z <= FX_LIM,
        ensures
            r == spec_lsq(
                Vec3 {
                    x: (self.x - other.x) as i64,
                    y: (self.y - other.y) as i64,
                    z: (self.z - other.z) as i64,
                },
            ),
            0 <= r,
    {
        let d = Vec3 { x: self.x - other.x, y: self.y - other.y, z: self.z - other.z };
        d.length_squared()
    }

    /// Reflects `self` about `normal`: `self - normal * (2 * dot)`.
    /// The normal is expected close to unit length.
    pub fn reflect(&self, normal: &Vec3) -> (r: Vec3)
        requires
            self.wf(),
            normal.wf(),
            -4 * FX <= normal.x <= 4 * FX,
            -4 * FX <= normal.y <= 4 * FX,
            -4 * FX <= normal.z <= 4 * FX,
        ensures
            ({
                let d2 = 2 * spec_dot(*self, *normal);
                r.x == self.x - fxmul(normal.x as int, d2)
                && r.y == self.y - fxmul(normal.y as int, d2)
                && r.z == self.z - fxmul(normal.z as int, d2)
            }),
    {
        proof {
            lemma_fxmul_bound(self.x as int, normal.x as int, FX_LIM as int, 4int * 65536);
            lemma_fxmul_bound(self.y as int, normal.y as int, FX_LIM as int, 4int * 65536);
            lemma_fxmul_bound(self.z as int, normal.z as int, FX_LIM as int, 4int * 65536);
            lemma_tdiv_exact(0x8000_0000int * 4, 65536);
        }
        let d = fx_mul(self.x, normal.x) + fx_mul(self.y, normal.y) + fx_mul(self.z, normal.z);
        let d2 = 2 * d;
        proof {
            lemma_mul_le(normal.x as int, d2 as int, 4int * 65536, 0x18_0000_0000);
            lemma_mul_le(normal.y as int, d2 as int, 4int * 65536, 0x18_0000_0000);
            lemma_mul_le(normal.z as int, d2 as int, 4int * 65536, 0x18_0000_0000);
        }
        Vec3 {
            x: self.x - fx_mul(normal.x, d2),
            y: self.y - fx_mul(normal.y, d2),
            z: self.z - fx_mul(normal.z, d2),
        }
    }

    /// Componentwise sum.
    pub fn add(&self, other: &Vec3) -> (r: Vec3)
        requires
            -0x4000_0000_0000_0000 <= self.x + other.x <= 0x4000_0000_0000_0000,
            -0x4000_0000_0000_0000 <= self.y + other.y <= 0x4000_0000_0000_0000,
            -0x4000_0000_0000_0000 <= self.z + other.z <= 0x4000_0000_0000_0000,
        ensures
            r.x == self.x + other.x,
            r.y == self.y + other.y,
            r.z == self.z + other.z,
    {
        Vec3 { x: self.x + other.x, y: self.y + other.y, z: self.z + other.z }
    }

    /// Componentwise difference.
    pub fn sub(&self, other: &Vec3) -> (r: Vec3)
        requires
            -0x4000_0000_0000_0000 <= self.x - other.x <= 0x4000_0000_0000_0000,
            -0x4000_0000_0000_0000 <= self.y - other.y <= 0x4000_0000_0000_0000,
            -0x4000_0000_0000_0000 <= self.z - other.z <= 0x4000_0000_0000_0000,
        ensures
            r.x == self.x - other.x,
            r.y == self.y - other.y,
            r.z == self.z - other.z,
    {
        Vec3 { x: self.x - other.x, y: self.y - other.y, z: self.z - other.z }
    }

    /// Componentwise scaling by a fixed-point scalar.
    pub fn mul(&self, scalar: i64) -> (r: Vec3)
        requires
            -0x4000_0000_0000_0000 <= self.x as int * scalar as int <= 0x4000_0000_0000_0000,
            -0x4000_0000_0000_0000 <= self.y as int * scalar as int <= 0x4000_0000_0000_0000,
            -0x4000_0000_0000_0000 <= self.z as int * scalar as int <= 0x4000_0000_0000_0000,
        ensures
            r.x == fxmul(self.x as int, scalar as int),
            r.y == fxmul(self.y as int, scalar as int),
            r.z == fxmul(self.z as int, scalar as int),
    {
        Vec3 {
            x: fx_mul(self.x, scalar),
            y: fx_mul(self.y, scalar),
            z: fx_mul(self.z, scalar),
        }
    }

    /// Componentwise division by a nonzero fixed-point scalar.
    pub fn div(&self, scalar: i64) -> (r: Vec3)
        requires
            scalar != 0,
            -0x4000_0000_0000 <= self.x <= 0x4000_0000_0000,
            -0x4000_0000_0000 <= self.y <= 0x4000_0000_0000,
            -0x4000_0000_0000 <= self.z <= 0x4000_0000_0000,
        ensures
            r.x == fxdiv(self.x as int, scalar as int),
            r.y == fxdiv(self.y as int, scalar as int),
            r.z == fxdiv(self.z as int, scalar as int),
    {
        Vec3 {
            x: fx_div(self.x, scalar),
            y: fx_div(self.y, scalar),
            z: fx_div(self.z, scalar),
        }
    }

    /// Componentwise negation.
    pub fn neg(&self) -> (r: Vec3)
        requires
            self.x > i64::MIN,
            self.y > i64::MIN,
            self.z > i64::MIN,
        ensures
            r.x == -self.x,
            r.y == -self.y,
            r.z == -self.z,
    {
        Vec3 { x: -self.x, y: -self.y, z: -self.z }
    }
}

/// A component whose scaled square truncates to zero is smaller than
/// one scale unit in magnitude.
proof fn lemma_tiny_component(c: int)
    requires
        -0x8000_0000 <= c <= 0x8000_0000,
        fxmul(c, c) == 0,
    ensures
        -256 <= c <= 256,
{
    assert(c * c >= 0) by (nonlinear_arith);
    lemma_fundamental_div_mod(c * c, 65536);
    lemma_mod_bound(c * c, 65536);
    assert(c * c < 65536);
    assert(-256 <= c <= 256) by (nonlinear_arith)
        requires
            c * c < 65536,
    ;
}

/// The square of a working-range scalar stays inside the fixed-point
/// multiplier's domain and its scaled value is a nonnegative value of
/// at most `0x4000_0000_0000`.
pub proof fn lemma_sq_bounds(a: int)
    requires
        -0x8000_0000 <= a <= 0x8000_0000,
    ensures
        -0x4000_0000_0000_0000 <= a * a <= 0x4000_0000_0000_0000,
        0 <= fxmul(a, a) <= 0x4000_0000_0000,
{
    lemma_mul_le(a, a, 0x8000_0000, 0x8000_0000);
    assert(0 <= a * a) by (nonlinear_arith);
    lemma_tdiv_abs(a * a, 65536);
    lemma_tdiv_bound(a * a, 65536, 0x4000_0000_0000_0000);
    lemma_tdiv_exact(0x4000_0000_0000, 65536);
}

/// The product of two working-range scalars stays inside the
/// fixed-point multiplier's domain, and the fixed-point product stays
/// within `0x4000_0000_0000`.
proof fn lemma_wf_product(a: int, b: int)
    requires
        -0x8000_0000 <= a <= 0x8000_0000,
        -0x8000_0000 <= b <= 0x8000_0000,
    ensures
        -0x4000_0000_0000_0000 <= a * b <= 0x4000_0000_0000_0000,
        -0x4000_0000_0000 <= fxmul(a, b) <= 0x4000_0000_0000,
{
    lemma_mul_le(a, b, 0x8000_0000, 0x8000_0000);
    lemma_tdiv_bound(a * b, 65536, 0x4000_0000_0000_0000);
    lemma_tdiv_exact(0x4000_0000_0000, 65536);
}

/// A component of a vector divided by that vector's length stays
/// within three whole units: the length of a working-range vector
/// dominates each of its components closely enough.
pub proof fn lemma_unit_bound(c: int, lsq: int, len: int)
    requires
        -0x8000_0000 <= c <= 0x8000_0000,
        tdiv(c * c, 65536) <= lsq,
        0 <= lsq <= 0xC000_0000_0000,
        is_isqrt(len, 65536 * lsq),
        len >= 1,
    ensures
        -3 * 65536 <= fxdiv(c, len) <= 3 * 65536,
{
    let a = sabs(c);
    assert(c * c == a * a) by (nonlinear_arith)
        requires
            a == if c >= 0 { c } else { -c },
    ;
    assert(a * a >= 0) by (nonlinear_arith);
    // The scaled, truncated square sits within one scale unit of the
    // true square.
    lemma_fundamental_div_mod(a * a, 65536);
    lemma_mod_bound(a * a, 65536);
    assert(65536 * tdiv(a * a, 65536) > a * a - 65536);
    assert(65536 * lsq >= 65536 * tdiv(a * a, 65536)) by (nonlinear_arith)
        requires
            tdiv(a * a, 65536) <= lsq,
    ;
    // The length is at least 256 because the squared length is at
    // least one scale unit.
    assert(len * len <= 65536 * lsq);
    assert(lsq >= 1) by (nonlinear_arith)
        requires
            len >= 1,
            len * len <= 65536 * lsq,
    ;
    assert(len >= 256) by (nonlinear_arith)
        requires
            is_isqrt(len, 65536 * lsq),
            lsq >= 1,
    ;
    // The component cannot exceed three lengths.
    assert(a <= 3 * len) by (nonlinear_arith)
        requires
            (len + 1) * (len + 1) > 65536 * lsq,
            65536 * lsq > a * a - 65536,
            len >= 256,
            a >= 0,
    ;
    // Hence the quotient stays within three units.
    assert(-(3 * len) <= c <= 3 * len);
    lemma_tdiv_bound(c * 65536, len, 196608 * len);
    lemma_tdiv_exact(196608, len);
}

/// The homogeneous components of a `Vec4` as unbounded integers.
pub open spec fn v4(v: Vec4) -> (int, int, int, int) {
    (v.x as int, v.y as int, v.z as int, v.w as int)
}

/// Perspective division: a `Vec4` reduced to a `Vec3` by dividing
/// through `w` when `w` is nonzero, with the quotients clamped to the
/// representable range.
pub open spec fn spec_to_vec3(v: Vec4) -> (int, int, int) {
    if v.w != 0 {
        (
            sclamp(fxdiv(v.x as int, v.w as int), DIV_CLAMP as int),
            sclamp(fxdiv(v.y as int, v.w as int), DIV_CLAMP as int),
            sclamp(fxdiv(v.z as int, v.w as int), DIV_CLAMP as int),
        )
    } else {
        v3(Vec3 { x: v.x, y: v.y, z: v.z })
    }
}

impl Vec4 {
    /// All components within the working range.
    pub open spec fn wf(&self) -> bool {
        &&& -FX_LIM <= self.x <= FX_LIM
        &&& -FX_LIM <= self.y <= FX_LIM
        &&& -FX_LIM <= self.z <= FX_LIM
        &&& -FX_LIM <= self.w <= FX_LIM
    }

    pub fn new(x: i64, y: i64, z: i64, w: i64) -> (v: Vec4)
        ensures
            v == (Vec4 { x, y, z, w }),
    {
        Vec4 { x, y, z, w }
    }

    /// Lifts a point into homogeneous coordinates with `w = 1`.
    pub fn from_point(v: Vec3) -> (r: Vec4)
        ensures
            r == (Vec4 { x: v.x, y: v.y, z: v.z, w: FX }),
    {
        Vec4 { x: v.x, y: v.y, z: v.z, w: FX }
    }

    /// Lifts a direction into homogeneous coordinates with `w = 0`.
    pub fn from_direction(v: Vec3) -> (r: Vec4)
        ensures
            r == (Vec4 { x: v.x, y: v.y, z: v.z, w: 0i64 }),
    {
        Vec4 { x: v.x, y: v.y, z: v.z, w: 0 }
    }

    /// Perspective division, exactly `spec_to_vec3`.
    pub fn to_vec3(&self) -> (r: Vec3)
        requires
            -0x4000_0000_0000_0000 <= self.x <= 0x4000_0000_0000_0000,
            -0x4000_0000_0000_0000 <= self.y <= 0x4000_0000_0000_0000,
            -0x4000_0000_0000_0000 <= self.z <= 0x4000_0000_0000_0000,
        ensures
            v3(r) == spec_to_vec3(*self),
    {
        if self.w != 0 {
            Vec3 {
                x: fx_div_clamped(self.x, self.w),
                y: fx_div_clamped(self.y, self.w),
                z: fx_div_clamped(self.z, self.w),
            }
        } else {
            Vec3 { x: self.x, y: self.y, z: self.z }
        }
    }

    /// Drops the `w` component without dividing.
    pub fn to_vec3_no_divide(&self) -> (r: Vec3)
        ensures
            r == (Vec3 { x: self.x, y: self.y, z: self.z }),
    {
        Vec3 { x: self.x, y: self.y, z: self.z }
    }

    /// Componentwise sum.
    pub fn add(&self, other: &Vec4) -> (r: Vec4)
        requires
            -0x4000_0000_0000_0000 <= self.x + other.x <= 0x4000_0000_0000_0000,
            -0x4000_0000_0000_0000 <= self.y + other.y <= 0x4000_0000_0000_0000,
            -0x4000_0000_0000_0000 <= self.z + other.z <= 0x4000_0000_0000_0000,
            -0x4000_0000_0000_0000 <= self.w + other.w <= 0x4000_0000_0000_0000,
        ensures
            r.x == self.x + other.x,
            r.y == self.y + other.y,
            r.z == self.z + other.z,
            r.w == self.w + other.w,
    {
        Vec4 {
            x: self.x + other.x,
            y: self.y + other.y,
            z: self.z + other.z,
            w: self.w + other.w,
        }
    }

    /// Componentwise difference.
    pub fn sub(&self, other: &Vec4) -> (r: Vec4)
        requires
            -0x4000_0000_0000_0000 <= self.x - other.x <= 0x4000_0000_0000_0000,
            -0x4000_0000_0000_0000 <= self.y - other.y <= 0x4000_0000_0000_0000,
            -0x4000_0000_0000_0000 <= self.z - other.z <= 0x4000_0000_0000_0000,
            -0x4000_0000_0000_0000 <= self.w - other.w <= 0x4000_0000_0000_0000,
        ensures
            r.x == self.x - other.x,
            r.y == self.y - other.y,
            r.z == self.z - other.z,
            r.w == self.w - other.w,
    {
        Vec4 {
            x: self.x - other.x,
            y: self.y - other.y,
            z: self.z - other.z,
            w: self.w - other.w,
        }
    }

    /// Componentwise scaling by a fixed-point scalar.
    pub fn mul(&self, scalar: i64) -> (r: Vec4)
        requires
            -0x4000_0000_0000_0000 <= self.x as int * scalar as int <= 0x4000_0000_0000_0000,
            -0x4000_0000_0000_0000 <= self.y as int * scalar as int <= 0x4000_0000_0000_0000,
            -0x4000_0000_0000_0000 <= self.z as int * scalar as int <= 0x4000_0000_0000_0000,
            -0x4000_0000_0000_0000 <= self.w as int * scalar as int <= 0x4000_0000_0000_0000,
        ensures
            r.x == fxmul(self.x as int, scalar as int),
            r.y == fxmul(self.y as int, scalar as int),
            r.z == fxmul(self.z as int, scalar as int),
            r.w == fxmul(self.w as int, scalar as int),
    {
        Vec4 {
            x: fx_mul(self.x, scalar),
            y: fx_mul(self.y, scalar),
            z: fx_mul(self.z, scalar),
            w: fx_mul(self.w, scalar),
        }
    }
}

} // verus!
