//! Transform composition and small numeric helpers: angle
//! conversions, interpolation, and the 2-D barycentric machinery the
//! rasterizer builds on.

use vstd::prelude::*;
use crate::fixed::{FX, FX_LIM, fxmul, fxdiv, tdiv, sclamp, fx_mul, lemma_mul_le,
    lemma_tdiv_bound, lemma_tdiv_abs, lemma_tdiv_exact, lemma_fxmul_pow};
use crate::vector::{Vec3, Vec4};
use crate::matrix::{Mat4, mat_bounded, mv_e, spec_mat_mul, spec_translation, spec_scale,
    spec_rotation_x, spec_rotation_y, spec_rotation_z};

verus! {

/// The complete model matrix: scale, then the Z, Y, X rotations, then
/// translation.
pub open spec fn spec_transform_matrix(translation: Vec3, rotation: Vec3, scale: Vec3) -> Mat4 {
    spec_mat_mul(
        spec_mat_mul(
            spec_mat_mul(
                spec_mat_mul(
                    spec_translation(translation.x as int, translation.y as int, translation.z as int),
                    spec_rotation_z(rotation.z as int),
                ),
                spec_rotation_y(rotation.y as int),
            ),
            spec_rotation_x(rotation.x as int),
        ),
        spec_scale(scale.x as int, scale.y as int, scale.z as int),
    )
}

/// Builds the model matrix applying scale first, then the rotations
/// about Z, Y and X, then the translation.
pub fn create_transform_matrix(translation: Vec3, rotation: Vec3, scale: Vec3) -> (r: Mat4)
    requires
        translation.wf(),
        scale.wf(),
        -0x3000_0000 <= rotation.x <= 0x3000_0000,
        -0x3000_0000 <= rotation.y <= 0x3000_0000,
        -0x3000_0000 <= rotation.z <= 0x3000_0000,
    ensures
        r == spec_transform_matrix(translation, rotation, scale),
        mat_bounded(r, 0x4000_0000_0000_0000),
{
    let t = Mat4::translation(translation.x, translation.y, translation.z);
    let rx = Mat4::rotation_x(rotation.x);
    let ry = Mat4::rotation_y(rotation.y);
    let rz = Mat4::rotation_z(rotation.z);
    let s = Mat4::scale(scale.x, scale.y, scale.z);
    t.mul(&rz).mul(&ry).mul(&rx).mul(&s)
}

/// The combined model-view-projection matrix.
pub fn create_mvp_matrix(model: Mat4, view: Mat4, projection: Mat4) -> (r: Mat4)
    requires
        mat_bounded(model, 0x4000_0000_0000_0000),
        mat_bounded(view, 0x4000_0000_0000_0000),
        mat_bounded(projection, 0x4000_0000_0000_0000),
    ensures
        r == spec_mat_mul(spec_mat_mul(projection, view), model),
        mat_bounded(r, 0x4000_0000_0000_0000),
{
    projection.mul(&view).mul(&model)
}

/// A point is visible exactly when its clip-space `w` is strictly
/// positive: at or behind the eye plane it is not.
pub open spec fn spec_wts_visible(point: Vec3, m: Mat4) -> bool {
    mv_e(m, 3, point.x as int, point.y as int, point.z as int, 65536) > 0
}

/// The screen X coordinate of a visible point: NDC x mapped from
/// `[-1, 1]` to `[0, width]`.  The final clamp at the rasterizer's
/// coordinate range is a machine limit; it can only bind for points a
/// vast distance outside the viewport.
pub open spec fn spec_wts_x(point: Vec3, m: Mat4, sw: int) -> int {
    let w = mv_e(m, 3, point.x as int, point.y as int, point.z as int, 65536);
    let nx = sclamp(fxdiv(mv_e(m, 0, point.x as int, point.y as int, point.z as int, 65536), w), 0x4000_0000_0000_0000);
    sclamp(tdiv(tdiv((nx + 65536) * sw, 65536), 2), 0x1_0000_0000_0000)
}

/// The screen Y coordinate of a visible point: NDC y flipped and
/// mapped from `[-1, 1]` to `[height, 0]`, with the same
/// machine-limit clamp.
pub open spec fn spec_wts_y(point: Vec3, m: Mat4, sh: int) -> int {
    let w = mv_e(m, 3, point.x as int, point.y as int, point.z as int, 65536);
    let ny = sclamp(fxdiv(mv_e(m, 1, point.x as int, point.y as int, point.z as int, 65536), w), 0x4000_0000_0000_0000);
    sclamp(tdiv(tdiv((65536 - ny) * sh, 65536), 2), 0x1_0000_0000_0000)
}

/// The screen depth of a visible point: its NDC z, kept for depth
/// testing, clamped at the rasterizer's depth range.
pub open spec fn spec_wts_z(point: Vec3, m: Mat4) -> int {
    let w = mv_e(m, 3, point.x as int, point.y as int, point.z as int, 65536);
    sclamp(fxdiv(mv_e(m, 2, point.x as int, point.y as int, point.z as int, 65536), w), 0x4000_0000_0000)
}

/// Projects a world-space point through `mvp` to screen coordinates,
/// or `None` exactly when the point sits at or behind the eye plane
/// (clip `w` at most zero).
pub fn world_to_screen(point: Vec3, mvp: &Mat4, screen_width: i64, screen_height: i64) -> (r:
    Option<(i64, i64, i64)>)
    requires
        point.wf(),
        mat_bounded(*mvp, 0x4000_0000_0000_0000),
        0 <= screen_width <= 0x8000_0000,
        0 <= screen_height <= 0x8000_0000,
    ensures
        r is Some <==> spec_wts_visible(point, *mvp),
        r is Some ==> r == Some(
            (
                spec_wts_x(point, *mvp, screen_width as int) as i64,
                spec_wts_y(point, *mvp, screen_height as int) as i64,
                spec_wts_z(point, *mvp) as i64,
            ),
        ),
{
    let h = mvp.mul_vec4(Vec4::from_point(point));
    if h.w <= 0 {
        return None;
    }
    let ndc = h.to_vec3();
    let sx = screen_map(ndc.x + FX, screen_width);
    let sy = screen_map(FX - ndc.y, screen_height);
    let sz = if ndc.z > 0x4000_0000_0000 {
        0x4000_0000_0000
    } else if ndc.z < -0x4000_0000_0000 {
        -0x4000_0000_0000
    } else {
        ndc.z
    };
    Some((sx, sy, sz))
}

/// One axis of the NDC-to-screen mapping: the offset NDC value scaled
/// by the target extent and halved, in wide arithmetic, clamped to
/// the rasterizer's coordinate range.
fn screen_map(v: i64, s: i64) -> (r: i64)
    requires
        -0x4000_8000_0000_0000 <= v <= 0x4000_8000_0000_0000,
        0 <= s <= 0x8000_0000,
    ensures
        r == sclamp(tdiv(tdiv(v as int * s as int, 65536), 2), 0x1_0000_0000_0000),
{
    proof {
        lemma_mul_le(v as int, s as int, 0x4000_8000_0000_0000, 0x8000_0000);
    }
    let p: i128 = (v as i128) * (s as i128);
    proof {
        lemma_tdiv_abs(p as int, 65536);
    }
    let q1: i128 = p / 65536;
    proof {
        lemma_tdiv_abs(q1 as int, 2);
    }
    let q2: i128 = q1 / 2;
    if q2 > 0x1_0000_0000_0000 {
        0x1_0000_0000_0000
    } else if q2 < -0x1_0000_0000_0000 {
        -0x1_0000_0000_0000
    } else {
        q2 as i64
    }
}

/// A projected point's screen coordinates sit inside the
/// rasterizer's working range by construction: the screen mapping and
/// the depth are clamped there.
pub proof fn lemma_wts_in_range(p: Vec3, m: Mat4, sw: int, sh: int)
    ensures
        -0x1_0000_0000_0000 <= spec_wts_x(p, m, sw) <= 0x1_0000_0000_0000,
        -0x1_0000_0000_0000 <= spec_wts_y(p, m, sh) <= 0x1_0000_0000_0000,
        -0x4000_0000_0000 <= spec_wts_z(p, m) <= 0x4000_0000_0000,
{
}

/// Degrees to radians, both in fixed-point.
pub open spec fn spec_deg_to_rad(d: int) -> int {
    tdiv(d * 205887, 11796480)
}

/// Converts fixed-point degrees to fixed-point radians.
pub fn deg_to_rad(degrees: i64) -> (r: i64)
    requires
        -0x100_0000_0000 <= degrees <= 0x100_0000_0000,
    ensures
        r == spec_deg_to_rad(degrees as int),
        -0x100_0000_0000 <= r <= 0x100_0000_0000,
{
    let p: i128 = (degrees as i128) * 205887;
    proof {
        lemma_mul_le(degrees as int, 205887, 0x100_0000_0000, 205887);
        lemma_tdiv_bound(p as int, 11796480, 0x100_0000_0000int * 11796480);
        lemma_tdiv_exact(0x100_0000_0000, 11796480);
    }
    (p / 11796480) as i64
}

/// Radians to degrees, both in fixed-point.
pub open spec fn spec_rad_to_deg(r: int) -> int {
    tdiv(r * 11796480, 205887)
}

/// Converts fixed-point radians to fixed-point degrees.
pub fn rad_to_deg(radians: i64) -> (r: i64)
    requires
        -0x100_0000_0000 <= radians <= 0x100_0000_0000,
    ensures
        r == spec_rad_to_deg(radians as int),
{
    let p: i128 = (radians as i128) * 11796480;
    proof {
        lemma_mul_le(radians as int, 11796480, 0x100_0000_0000, 11796480);
        lemma_tdiv_abs(p as int, 205887);
    }
    (p / 205887) as i64
}

/// Linear interpolation between fixed-point scalars by the unclamped
/// parameter `t`.
pub fn lerp(a: i64, b: i64, t: i64) -> (r: i64)
    requires
        -FX_LIM <= a <= FX_LIM,
        -FX_LIM <= b <= FX_LIM,
        -0x4000_0000 <= t <= 0x4000_0000,
    ensures
        r == a + fxmul(b - a, t as int),
{
    proof {
        lemma_mul_le((b - a) as int, t as int, 0x1_0000_0000, 0x4000_0000);
    }
    a + fx_mul(b - a, t)
}

/// Clamps a value to `[min, max]`.
pub fn clamp(value: i64, min: i64, max: i64) -> (r: i64)
    ensures
        r == (if value < min {
            min
        } else if value > max {
            max
        } else {
            value
        }),
{
    if value < min {
        min
    } else if value > max {
        max
    } else {
        value
    }
}

/// The parameter clamped to one unit interval.
pub open spec fn clamp01(t: int) -> int {
    if t < 0 {
        0
    } else if t > 65536 {
        65536
    } else {
        t
    }
}

/// The cubic smoothstep value of a clamped parameter.
pub open spec fn spec_smooth_step(t: int) -> int {
    let tc = clamp01(t);
    fxmul(fxmul(tc, tc), 3 * 65536 - 2 * tc)
}

/// Cubic ease: `t * t * (3 - 2 * t)` on the clamped parameter.
pub fn smooth_step(t: i64) -> (r: i64)
    ensures
        r == spec_smooth_step(t as int),
        0 <= r <= 0x30000,
{
    let tc = clamp(t, 0, FX);
    proof {
        lemma_fxmul_pow(tc as int, tc as int, 65536, 65536, 65536);
        lemma_fxmul_pow(fxmul(tc as int, tc as int), 3 * 65536 - 2 * tc as int, 65536, 196608, 196608);
        assert(0 <= tc as int * tc as int) by (nonlinear_arith);
        lemma_tdiv_abs(tc as int * tc as int, 65536);
        assert(0 <= fxmul(tc as int, tc as int) * (3 * 65536 - 2 * tc as int)) by (nonlinear_arith)
            requires
                0 <= fxmul(tc as int, tc as int),
                0 <= 3 * 65536 - 2 * tc as int,
        ;
        lemma_tdiv_abs(fxmul(tc as int, tc as int) * (3 * 65536 - 2 * tc as int), 65536);
    }
    let t2 = fx_mul(tc, tc);
    fx_mul(t2, 3 * FX - 2 * tc)
}

/// The quintic smootherstep value of a clamped parameter.
pub open spec fn spec_smoother_step(t: int) -> int {
    let tc = clamp01(t);
    let inner = fxmul(tc, 6 * tc - 15 * 65536) + 10 * 65536;
    fxmul(fxmul(fxmul(tc, tc), tc), inner)
}

/// Quintic ease: `t^3 * (t * (6t - 15) + 10)` on the clamped
/// parameter.
pub fn smoother_step(t: i64) -> (r: i64)
    ensures
        r == spec_smoother_step(t as int),
{
    let tc = clamp(t, 0, FX);
    proof {
        lemma_fxmul_pow(tc as int, 6 * tc as int - 15 * 65536, 65536, 983040, 983040);
        lemma_fxmul_pow(tc as int, tc as int, 65536, 65536, 65536);
        lemma_fxmul_pow(fxmul(tc as int, tc as int), tc as int, 65536, 65536, 65536);
        lemma_fxmul_pow(
            fxmul(fxmul(tc as int, tc as int), tc as int),
            fxmul(tc as int, 6 * tc as int - 15 * 65536) + 10 * 65536,
            65536,
            1638400,
            1638400,
        );
    }
    let inner = fx_mul(tc, 6 * tc - 15 * FX) + 10 * FX;
    let t2 = fx_mul(tc, tc);
    let t3 = fx_mul(t2, tc);
    fx_mul(t3, inner)
}

/// Twice the signed area of a 2-D triangle, halved: the fixed-point
/// shoelace value.
pub open spec fn spec_triangle_area_2d(
    x1: int,
    y1: int,
    x2: int,
    y2: int,
    x3: int,
    y3: int,
) -> int {
    tdiv(fxmul(x2 - x1, y3 - y1) - fxmul(x3 - x1, y2 - y1), 2)
}

/// The signed area of the 2-D triangle `(x1,y1) (x2,y2) (x3,y3)`.
pub fn triangle_area_2d(x1: i64, y1: i64, x2: i64, y2: i64, x3: i64, y3: i64) -> (r: i64)
    requires
        -0x4000_0000 <= x1 <= 0x4000_0000,
        -0x4000_0000 <= y1 <= 0x4000_0000,
        -0x4000_0000 <= x2 <= 0x4000_0000,
        -0x4000_0000 <= y2 <= 0x4000_0000,
        -0x4000_0000 <= x3 <= 0x4000_0000,
        -0x4000_0000 <= y3 <= 0x4000_0000,
    ensures
        r == spec_triangle_area_2d(x1 as int, y1 as int, x2 as int, y2 as int, x3 as int, y3 as int),
{
    proof {
        lemma_mul_le((x2 - x1) as int, (y3 - y1) as int, 0x8000_0000, 0x8000_0000);
        lemma_mul_le((x3 - x1) as int, (y2 - y1) as int, 0x8000_0000, 0x8000_0000);
        lemma_tdiv_abs((x2 - x1) as int * (y3 - y1) as int, 65536);
        lemma_tdiv_abs((x3 - x1) as int * (y2 - y1) as int, 65536);
        lemma_tdiv_abs(
            fxmul((x2 - x1) as int, (y3 - y1) as int) - fxmul((x3 - x1) as int, (y2 - y1) as int),
            2,
        );
    }
    (fx_mul(x2 - x1, y3 - y1) - fx_mul(x3 - x1, y2 - y1)) / 2
}

/// The exact barycentric denominator: twice the signed area of the
/// triangle, in raw (unscaled) units.
pub open spec fn bary_denom(v0: (int, int), v1: (int, int), v2: (int, int)) -> int {
    (v1.1 - v2.1) * (v0.0 - v2.0) + (v2.0 - v1.0) * (v0.1 - v2.1)
}

/// The exact numerator of the first barycentric weight of `p`.
pub open spec fn bary_u_num(p: (int, int), v1: (int, int), v2: (int, int)) -> int {
    (v1.1 - v2.1) * (p.0 - v2.0) + (v2.0 - v1.0) * (p.1 - v2.1)
}

/// The exact numerator of the second barycentric weight of `p`.
pub open spec fn bary_v_num(p: (int, int), v0: (int, int), v2: (int, int)) -> int {
    (v2.1 - v0.1) * (p.0 - v2.0) + (v0.0 - v2.0) * (p.1 - v2.1)
}

/// The barycentric weights of `p` in the triangle `v0 v1 v2`, each a
/// fixed-point fraction of the whole.  A degenerate triangle yields
/// `(0, 0, 0)`; enormous weights are clamped to the representable
/// range, which cannot affect their signs.
pub open spec fn spec_barycentric(
    p: (int, int),
    v0: (int, int),
    v1: (int, int),
    v2: (int, int),
) -> (int, int, int) {
    let d = bary_denom(v0, v1, v2);
    if d == 0 {
        (0, 0, 0)
    } else {
        let u = sclamp(tdiv(bary_u_num(p, v1, v2) * 65536, d), 0x2000_0000_0000_0000);
        let v = sclamp(tdiv(bary_v_num(p, v0, v2) * 65536, d), 0x2000_0000_0000_0000);
        (u, v, 65536 - u - v)
    }
}

/// Computes the barycentric weights of `p` relative to the 2-D
/// triangle `v0 v1 v2`.  The three weights sum to one whenever the
/// triangle is not degenerate.
pub fn barycentric(p: (i64, i64), v0: (i64, i64), v1: (i64, i64), v2: (i64, i64)) -> (r: (
    i64,
    i64,
    i64,
))
    requires
        -0x1_0000_0000_0000 <= p.0 <= 0x1_0000_0000_0000,
        -0x1_0000_0000_0000 <= p.1 <= 0x1_0000_0000_0000,
        -0x1_0000_0000_0000 <= v0.0 <= 0x1_0000_0000_0000,
        -0x1_0000_0000_0000 <= v0.1 <= 0x1_0000_0000_0000,
        -0x1_0000_0000_0000 <= v1.0 <= 0x1_0000_0000_0000,
        -0x1_0000_0000_0000 <= v1.1 <= 0x1_0000_0000_0000,
        -0x1_0000_0000_0000 <= v2.0 <= 0x1_0000_0000_0000,
        -0x1_0000_0000_0000 <= v2.1 <= 0x1_0000_0000_0000,
    ensures
        (r.0 as int, r.1 as int, r.2 as int) == spec_barycentric(
            (p.0 as int, p.1 as int),
            (v0.0 as int, v0.1 as int),
            (v1.0 as int, v1.1 as int),
            (v2.0 as int, v2.1 as int),
        ),
        -0x2000_0000_0000_0000 <= r.0 <= 0x2000_0000_0000_0000,
        -0x2000_0000_0000_0000 <= r.1 <= 0x2000_0000_0000_0000,
{
    let (px, py) = p;
    let (x0, y0) = v0;
    let (x1, y1) = v1;
    let (x2, y2) = v2;
    proof {
        lemma_mul_le((y1 - y2) as int, (x0 - x2) as int, 0x2_0000_0000_0000, 0x2_0000_0000_0000);
        lemma_mul_le((x2 - x1) as int, (y0 - y2) as int, 0x2_0000_0000_0000, 0x2_0000_0000_0000);
        lemma_mul_le((y1 - y2) as int, (px - x2) as int, 0x2_0000_0000_0000, 0x2_0000_0000_0000);
        lemma_mul_le((x2 - x1) as int, (py - y2) as int, 0x2_0000_0000_0000, 0x2_0000_0000_0000);
        lemma_mul_le((y2 - y0) as int, (px - x2) as int, 0x2_0000_0000_0000, 0x2_0000_0000_0000);
        lemma_mul_le((x0 - x2) as int, (py - y2) as int, 0x2_0000_0000_0000, 0x2_0000_0000_0000);
    }
    let d: i128 = ((y1 - y2) as i128) * ((x0 - x2) as i128) + ((x2 - x1) as i128) * ((y0
        - y2) as i128);
    if d == 0 {
        return (0, 0, 0);
    }
    let nu: i128 = ((y1 - y2) as i128) * ((px - x2) as i128) + ((x2 - x1) as i128) * ((py
        - y2) as i128);
    let nv: i128 = ((y2 - y0) as i128) * ((px - x2) as i128) + ((x0 - x2) as i128) * ((py
        - y2) as i128);
    let u = div_wide_clamped(nu * 65536, d);
    let v = div_wide_clamped(nv * 65536, d);
    (u, v, FX - u - v)
}

/// Whether `p` lies inside (or on the edge of) the triangle: the
/// triangle is not degenerate and all three barycentric weights are
/// nonnegative.  A degenerate (collinear) triangle contains nothing.
pub fn point_in_triangle(p: (i64, i64), v0: (i64, i64), v1: (i64, i64), v2: (i64, i64)) -> (r:
    bool)
    requires
        -0x1_0000_0000_0000 <= p.0 <= 0x1_0000_0000_0000,
        -0x1_0000_0000_0000 <= p.1 <= 0x1_0000_0000_0000,
        -0x1_0000_0000_0000 <= v0.0 <= 0x1_0000_0000_0000,
        -0x1_0000_0000_0000 <= v0.1 <= 0x1_0000_0000_0000,
        -0x1_0000_0000_0000 <= v1.0 <= 0x1_0000_0000_0000,
        -0x1_0000_0000_0000 <= v1.1 <= 0x1_0000_0000_0000,
        -0x1_0000_0000_0000 <= v2.0 <= 0x1_0000_0000_0000,
        -0x1_0000_0000_0000 <= v2.1 <= 0x1_0000_0000_0000,
    ensures
        r == ({
            let d = bary_denom(
                (v0.0 as int, v0.1 as int),
                (v1.0 as int, v1.1 as int),
                (v2.0 as int, v2.1 as int),
            );
            let (u, v, w) = spec_barycentric(
                (p.0 as int, p.1 as int),
                (v0.0 as int, v0.1 as int),
                (v1.0 as int, v1.1 as int),
                (v2.0 as int, v2.1 as int),
            );
            d != 0 && u >= 0 && v >= 0 && w >= 0
        }),
{
    let (x0, y0) = v0;
    let (x1, y1) = v1;
    let (x2, y2) = v2;
    proof {
        lemma_mul_le((y1 - y2) as int, (x0 - x2) as int, 0x2_0000_0000_0000, 0x2_0000_0000_0000);
        lemma_mul_le((x2 - x1) as int, (y0 - y2) as int, 0x2_0000_0000_0000, 0x2_0000_0000_0000);
    }
    let d: i128 = ((y1 - y2) as i128) * ((x0 - x2) as i128) + ((x2 - x1) as i128) * ((y0
        - y2) as i128);
    if d == 0 {
        return false;
    }
    let (u, v, w) = barycentric(p, v0, v1, v2);
    u >= 0 && v >= 0 && w >= 0
}

/// A wide truncating division clamped to the fixed-point weight/// A wide truncating division clamped to the fixed-point weight
/// range.
fn div_wide_clamped(a: i128, b: i128) -> (r: i64)
    requires
        b != 0,
        -0x100_0000_0000_0000_0000_0000_0000_0000 <= a <= 0x100_0000_0000_0000_0000_0000_0000_0000,
        -0x100_0000_0000_0000_0000_0000_0000_0000 <= b <= 0x100_0000_0000_0000_0000_0000_0000_0000,
    ensures
        r == sclamp(tdiv(a as int, b as int), 0x2000_0000_0000_0000),
{
    proof {
        lemma_tdiv_abs(a as int, b as int);
    }
    let q: i128 = if b > 0 {
        let q0: i128 = a / b;
        proof {
            assert(q0 == tdiv(a as int, b as int));
        }
        q0
    } else {
        let nb: i128 = -b;
        let q0: i128 = a / nb;
        proof {
            assert(q0 == tdiv(a as int, nb as int));
            assert(tdiv(a as int, b as int) == -tdiv(a as int, nb as int));
        }
        -q0
    };
    if q > 0x2000_0000_0000_0000 {
        0x2000_0000_0000_0000
    } else if q < -0x2000_0000_0000_0000 {
        -0x2000_0000_0000_0000
    } else {
        q as i64
    }
}

} // verus!
