//! Properties of the pipeline, stated and proved as lemmas: how the
//! matrix factories act on points, what the barycentric weights
//! satisfy, and how culling and depth-tested writes behave.

use vstd::prelude::*;
use crate::fixed::{FX_LIM, fxmul, tdiv, sclamp, lemma_mul_le, lemma_tdiv_abs,
    lemma_tdiv_bound, lemma_tdiv_exact, lemma_tmod_range};
use crate::vector::{Vec3, v3};
use crate::matrix::{Mat4, spec_identity, spec_translation, spec_scale, spec_rotation_x,
    spec_rotation_y, spec_rotation_z, rot_axis_e, ident_e, spec_mul_point, mv_e, mv_sum};
use crate::transforms::{spec_barycentric, bary_denom, bary_u_num, bary_v_num, spec_wts_visible};
use crate::trig::{spec_sin_fx, spec_cos_fx};
use crate::framebuffer::depth_write;
use crate::rasterizer::{tri_cull, spec_raster_colors, spec_raster_depths, pix_covered, pix_depth, pix_hit};
use crate::pipeline::spec_draw_mesh;

verus! {

/// The identity matrix transforms every working-range point to
/// itself.
pub proof fn lemma_identity_transform_point(p: Vec3)
    requires
        p.wf(),
    ensures
        spec_mul_point(spec_identity(), p) == v3(p),
{
    let m = spec_identity();
    let px = p.x as int;
    let py = p.y as int;
    let pz = p.z as int;
    assert(m.m[0][0] == 65536i64 && m.m[0][1] == 0i64 && m.m[0][2] == 0i64 && m.m[0][3] == 0i64);
    assert(m.m[1][0] == 0i64 && m.m[1][1] == 65536i64 && m.m[1][2] == 0i64 && m.m[1][3] == 0i64);
    assert(m.m[2][0] == 0i64 && m.m[2][1] == 0i64 && m.m[2][2] == 65536i64 && m.m[2][3] == 0i64);
    assert(m.m[3][0] == 0i64 && m.m[3][1] == 0i64 && m.m[3][2] == 0i64 && m.m[3][3] == 65536i64);
    assert(mv_sum(m, 0, px, py, pz, 65536) == px * 65536);
    assert(mv_sum(m, 1, px, py, pz, 65536) == py * 65536);
    assert(mv_sum(m, 2, px, py, pz, 65536) == pz * 65536);
    assert(mv_sum(m, 3, px, py, pz, 65536) == 65536 * 65536);
    lemma_tdiv_exact(px, 65536);
    lemma_tdiv_exact(py, 65536);
    lemma_tdiv_exact(pz, 65536);
    lemma_tdiv_exact(65536, 65536);
    assert(mv_e(m, 3, px, py, pz, 65536) == 65536);
    lemma_tdiv_exact(mv_e(m, 0, px, py, pz, 65536), 65536);
    lemma_tdiv_exact(mv_e(m, 1, px, py, pz, 65536), 65536);
    lemma_tdiv_exact(mv_e(m, 2, px, py, pz, 65536), 65536);
}

/// A translation matrix moves every working-range point by exactly
/// the translation vector.
pub proof fn lemma_translation_transform_point(tx: int, ty: int, tz: int, p: Vec3)
    requires
        p.wf(),
        -FX_LIM <= tx <= FX_LIM,
        -FX_LIM <= ty <= FX_LIM,
        -FX_LIM <= tz <= FX_LIM,
    ensures
        spec_mul_point(spec_translation(tx, ty, tz), p) == (
            p.x + tx,
            p.y + ty,
            p.z + tz,
        ),
{
    let m = spec_translation(tx, ty, tz);
    let px = p.x as int;
    let py = p.y as int;
    let pz = p.z as int;
    assert(m.m[0][0] == 65536i64 && m.m[0][1] == 0i64 && m.m[0][2] == 0i64 && m.m[0][3] == tx as i64);
    assert(m.m[1][0] == 0i64 && m.m[1][1] == 65536i64 && m.m[1][2] == 0i64 && m.m[1][3] == ty as i64);
    assert(m.m[2][0] == 0i64 && m.m[2][1] == 0i64 && m.m[2][2] == 65536i64 && m.m[2][3] == tz as i64);
    assert(m.m[3][0] == 0i64 && m.m[3][1] == 0i64 && m.m[3][2] == 0i64 && m.m[3][3] == 65536i64);
    assert(mv_sum(m, 0, px, py, pz, 65536) == (px + tx) * 65536);
    assert(mv_sum(m, 1, px, py, pz, 65536) == (py + ty) * 65536);
    assert(mv_sum(m, 2, px, py, pz, 65536) == (pz + tz) * 65536);
    assert(mv_sum(m, 3, px, py, pz, 65536) == 65536 * 65536);
    lemma_tdiv_exact(px + tx, 65536);
    lemma_tdiv_exact(py + ty, 65536);
    lemma_tdiv_exact(pz + tz, 65536);
    lemma_tdiv_exact(65536, 65536);
    assert(mv_e(m, 3, px, py, pz, 65536) == 65536);
    lemma_tdiv_exact(mv_e(m, 0, px, py, pz, 65536), 65536);
    lemma_tdiv_exact(mv_e(m, 1, px, py, pz, 65536), 65536);
    lemma_tdiv_exact(mv_e(m, 2, px, py, pz, 65536), 65536);
}

/// A scale matrix multiplies each component of a working-range point
/// by the matching factor.
pub proof fn lemma_scale_transform_point(sx: int, sy: int, sz: int, p: Vec3)
    requires
        p.wf(),
        -FX_LIM <= sx <= FX_LIM,
        -FX_LIM <= sy <= FX_LIM,
        -FX_LIM <= sz <= FX_LIM,
    ensures
        spec_mul_point(spec_scale(sx, sy, sz), p) == (
            fxmul(p.x as int, sx),
            fxmul(p.y as int, sy),
            fxmul(p.z as int, sz),
        ),
{
    let m = spec_scale(sx, sy, sz);
    let px = p.x as int;
    let py = p.y as int;
    let pz = p.z as int;
    assert(m.m[0][0] == sx as i64 && m.m[0][1] == 0i64 && m.m[0][2] == 0i64 && m.m[0][3] == 0i64);
    assert(m.m[1][0] == 0i64 && m.m[1][1] == sy as i64 && m.m[1][2] == 0i64 && m.m[1][3] == 0i64);
    assert(m.m[2][0] == 0i64 && m.m[2][1] == 0i64 && m.m[2][2] == sz as i64 && m.m[2][3] == 0i64);
    assert(m.m[3][0] == 0i64 && m.m[3][1] == 0i64 && m.m[3][2] == 0i64 && m.m[3][3] == 65536i64);
    assert(mv_sum(m, 0, px, py, pz, 65536) == sx * px);
    assert(mv_sum(m, 1, px, py, pz, 65536) == sy * py);
    assert(mv_sum(m, 2, px, py, pz, 65536) == sz * pz);
    assert(mv_sum(m, 3, px, py, pz, 65536) == 65536 * 65536);
    lemma_tdiv_exact(65536, 65536);
    assert(mv_e(m, 3, px, py, pz, 65536) == 65536);
    lemma_mul_le(sx, px, 0x8000_0000, 0x8000_0000);
    lemma_mul_le(sy, py, 0x8000_0000, 0x8000_0000);
    lemma_mul_le(sz, pz, 0x8000_0000, 0x8000_0000);
    lemma_tdiv_bound(sx * px, 65536, 0x4000_0000_0000_0000);
    lemma_tdiv_bound(sy * py, 65536, 0x4000_0000_0000_0000);
    lemma_tdiv_bound(sz * pz, 65536, 0x4000_0000_0000_0000);
    lemma_tdiv_exact(0x4000_0000_0000, 65536);
    lemma_tdiv_exact(mv_e(m, 0, px, py, pz, 65536), 65536);
    lemma_tdiv_exact(mv_e(m, 1, px, py, pz, 65536), 65536);
    lemma_tdiv_exact(mv_e(m, 2, px, py, pz, 65536), 65536);
    assert(sx * px == px * sx) by (nonlinear_arith);
    assert(sy * py == py * sy) by (nonlinear_arith);
    assert(sz * pz == pz * sz) by (nonlinear_arith);
}

/// At angle zero the trigonometric routines are exact, so every
/// rotation factory yields the identity matrix.
pub proof fn lemma_rotation_zero_is_identity()
    ensures
        spec_cos_fx(0) == 65536,
        spec_sin_fx(0) == 0,
        spec_rotation_x(0) == spec_identity(),
        spec_rotation_y(0) == spec_identity(),
        spec_rotation_z(0) == spec_identity(),
{
    assert(tdiv(0, 411775) == 0);
    assert(spec_cos_fx(0) == 65536);
    assert(spec_sin_fx(0) == 0);
    assert(spec_rotation_x(0).m =~= spec_identity().m);
    assert(spec_rotation_y(0).m =~= spec_identity().m);
    assert(spec_rotation_z(0).m =~= spec_identity().m);
}

/// A Rodrigues rotation by angle zero is the identity, whatever the
/// (normalized) axis: with cosine one and sine zero every product
/// term vanishes.
pub proof fn lemma_rotation_axis_zero_is_identity(nx: int, ny: int, nz: int)
    ensures
        forall|i: int, j: int|
            0 <= i < 4 && 0 <= j < 4 ==> #[trigger] rot_axis_e(nx, ny, nz, 65536, 0, i, j)
                == ident_e(i, j),
{
    assert forall|i: int, j: int| 0 <= i < 4 && 0 <= j < 4 implies #[trigger] rot_axis_e(
        nx,
        ny,
        nz,
        65536,
        0,
        i,
        j,
    ) == ident_e(i, j) by {
        assert(fxmul(0, nx) == 0);
        assert(fxmul(0, ny) == 0);
        assert(fxmul(0, nz) == 0);
        assert(fxmul(fxmul(0, nx), nx) == 0);
        assert(fxmul(fxmul(0, nx), ny) == 0);
        assert(fxmul(fxmul(0, nx), nz) == 0);
        assert(fxmul(fxmul(0, ny), ny) == 0);
        assert(fxmul(fxmul(0, ny), nz) == 0);
        assert(fxmul(fxmul(0, nz), nz) == 0);
    }
}

/// For a point strictly inside a positively oriented triangle, the
/// computed barycentric weights are all nonnegative and sum exactly
/// to one.
pub proof fn lemma_barycentric_inside(
    p: (int, int),
    v0: (int, int),
    v1: (int, int),
    v2: (int, int),
)
    requires
        bary_denom(v0, v1, v2) > 0,
        bary_u_num(p, v1, v2) > 0,
        bary_v_num(p, v0, v2) > 0,
        bary_denom(v0, v1, v2) - bary_u_num(p, v1, v2) - bary_v_num(p, v0, v2) > 0,
    ensures
        ({
            let (u, v, w) = spec_barycentric(p, v0, v1, v2);
            u >= 0 && v >= 0 && w >= 0 && u + v + w == 65536
        }),
{
    let d = bary_denom(v0, v1, v2);
    let un = bary_u_num(p, v1, v2);
    let vn = bary_v_num(p, v0, v2);
    let u0 = tdiv(un * 65536, d);
    let v0w = tdiv(vn * 65536, d);
    lemma_tdiv_abs(un * 65536, d);
    lemma_tdiv_abs(vn * 65536, d);
    lemma_tmod_range(un * 65536, d);
    lemma_tmod_range(vn * 65536, d);
    // The weights cannot exceed one: each numerator is below the
    // denominator.
    assert(un * 65536 + vn * 65536 <= d * 65536) by (nonlinear_arith)
        requires
            un + vn < d,
            un > 0,
            vn > 0,
    ;
    assert(d * u0 <= un * 65536);
    assert(d * v0w <= vn * 65536);
    assert(u0 + v0w <= 65536) by (nonlinear_arith)
        requires
            d * u0 <= un * 65536,
            d * v0w <= vn * 65536,
            un * 65536 + vn * 65536 <= d * 65536,
            d > 0,
    ;
    assert(u0 >= 0);
    assert(v0w >= 0);
    assert(sclamp(u0, 0x2000_0000_0000_0000) == u0);
    assert(sclamp(v0w, 0x2000_0000_0000_0000) == v0w);
}

/// For a point clearly outside a positively oriented triangle --
/// some exact weight below minus three units of weight resolution --
/// at least one computed barycentric weight is negative.
pub proof fn lemma_barycentric_outside(
    p: (int, int),
    v0: (int, int),
    v1: (int, int),
    v2: (int, int),
)
    requires
        bary_denom(v0, v1, v2) > 0,
        bary_u_num(p, v1, v2) * 65536 <= -3 * bary_denom(v0, v1, v2) || bary_v_num(p, v0, v2)
            * 65536 <= -3 * bary_denom(v0, v1, v2) || (bary_denom(v0, v1, v2) - bary_u_num(
            p,
            v1,
            v2,
        ) - bary_v_num(p, v0, v2)) * 65536 <= -3 * bary_denom(v0, v1, v2),
    ensures
        ({
            let (u, v, w) = spec_barycentric(p, v0, v1, v2);
            u < 0 || v < 0 || w < 0
        }),
{
    let d = bary_denom(v0, v1, v2);
    let un = bary_u_num(p, v1, v2);
    let vn = bary_v_num(p, v0, v2);
    let wn = d - un - vn;
    let u0 = tdiv(un * 65536, d);
    let v0w = tdiv(vn * 65536, d);
    lemma_tmod_range(un * 65536, d);
    lemma_tmod_range(vn * 65536, d);
    lemma_tdiv_abs(un * 65536, d);
    lemma_tdiv_abs(vn * 65536, d);
    if un * 65536 <= -3 * d {
        // The first weight is at most minus one.
        assert(u0 <= -1) by (nonlinear_arith)
            requires
                d * u0 <= un * 65536 + d - 1,
                un * 65536 <= -3 * d,
                d > 0,
        ;
    } else if vn * 65536 <= -3 * d {
        assert(v0w <= -1) by (nonlinear_arith)
            requires
                d * v0w <= vn * 65536 + d - 1,
                vn * 65536 <= -3 * d,
                d > 0,
        ;
    } else {
        assert(wn * 65536 <= -3 * d);
        if u0 < 0 || v0w < 0 {
        } else {
            let u = sclamp(u0, 0x2000_0000_0000_0000);
            let v = sclamp(v0w, 0x2000_0000_0000_0000);
            if u0 > 0x2000_0000_0000_0000 || v0w > 0x2000_0000_0000_0000 {
                assert(u + v > 65536);
            } else {
                assert(d * u0 >= un * 65536 - d + 1);
                assert(d * v0w >= vn * 65536 - d + 1);
                assert(un * 65536 + vn * 65536 == d * 65536 - wn * 65536) by (nonlinear_arith)
                    requires
                        wn == d - un - vn,
                ;
                assert(u0 + v0w > 65536) by (nonlinear_arith)
                    requires
                        d * u0 >= un * 65536 - d + 1,
                        d * v0w >= vn * 65536 - d + 1,
                        un * 65536 + vn * 65536 == d * 65536 - wn * 65536,
                        wn * 65536 <= -3 * d,
                        d > 0,
                ;
            }
            assert(65536 - u - v < 0);
        }
    }
}

/// After a clear, every cell's depth is the sentinel, so a
/// depth-tested write with any representable depth below it lands.
pub proof fn lemma_cleared_cell_accepts_write(
    colors: Seq<u32>,
    depths: Seq<i64>,
    idx: int,
    c: u32,
    z: i64,
)
    requires
        colors.len() == depths.len(),
        0 <= idx < depths.len(),
        depths[idx] == crate::framebuffer::DEPTH_INF,
        z < crate::framebuffer::DEPTH_INF,
    ensures
        depth_write(colors, depths, idx, c, z) == (colors.update(idx, c), depths.update(idx, z)),
{
}

/// Two depth-tested writes to the same cell commute whenever their
/// depths differ: the nearer fragment wins regardless of order.  This
/// is the write discipline `set_pixel_with_depth` is specified by.
pub proof fn lemma_depth_write_order_independent(
    colors: Seq<u32>,
    depths: Seq<i64>,
    idx: int,
    ca: u32,
    za: i64,
    cb: u32,
    zb: i64,
)
    requires
        za != zb,
        colors.len() == depths.len(),
    ensures
        ({
            let ab1 = depth_write(colors, depths, idx, ca, za);
            let ab = depth_write(ab1.0, ab1.1, idx, cb, zb);
            let ba1 = depth_write(colors, depths, idx, cb, zb);
            let ba = depth_write(ba1.0, ba1.1, idx, ca, za);
            ab == ba
        }),
{
    let ab1 = depth_write(colors, depths, idx, ca, za);
    let ab = depth_write(ab1.0, ab1.1, idx, cb, zb);
    let ba1 = depth_write(colors, depths, idx, cb, zb);
    let ba = depth_write(ba1.0, ba1.1, idx, ca, za);
    if 0 <= idx < depths.len() {
        if za < depths[idx] && zb < depths[idx] {
            if za < zb {
                assert(ba.0 =~= colors.update(idx, cb).update(idx, ca));
                assert(ba.0 =~= colors.update(idx, ca));
                assert(ba.1 =~= depths.update(idx, zb).update(idx, za));
                assert(ba.1 =~= depths.update(idx, za));
                assert(ab.0 =~= colors.update(idx, ca));
                assert(ab.1 =~= depths.update(idx, za));
            } else {
                assert(ab.0 =~= colors.update(idx, ca).update(idx, cb));
                assert(ab.0 =~= colors.update(idx, cb));
                assert(ab.1 =~= depths.update(idx, za).update(idx, zb));
                assert(ab.1 =~= depths.update(idx, zb));
                assert(ba.0 =~= colors.update(idx, cb));
                assert(ba.1 =~= depths.update(idx, zb));
            }
        }
    }
}

/// Whole-triangle order independence: rasterizing triangle `a` then
/// triangle `b` leaves the same framebuffer as the reverse order,
/// provided their interpolated depths differ at every pixel both
/// cover.  The nearer surface wins either way.
pub proof fn lemma_raster_order_independent(
    oldc: Seq<u32>,
    oldz: Seq<i64>,
    w: int,
    h: int,
    a0: (int, int, int),
    a1: (int, int, int),
    a2: (int, int, int),
    b0: (int, int, int),
    b1: (int, int, int),
    b2: (int, int, int),
    ca: u32,
    cb: u32,
)
    requires
        oldc.len() == oldz.len(),
        -0x4000_0000_0000 <= a0.2 <= 0x4000_0000_0000,
        -0x4000_0000_0000 <= a1.2 <= 0x4000_0000_0000,
        -0x4000_0000_0000 <= a2.2 <= 0x4000_0000_0000,
        -0x4000_0000_0000 <= b0.2 <= 0x4000_0000_0000,
        -0x4000_0000_0000 <= b1.2 <= 0x4000_0000_0000,
        -0x4000_0000_0000 <= b2.2 <= 0x4000_0000_0000,
        forall|px: int, py: int|
            pix_covered(a0, a1, a2, px, py) && pix_covered(b0, b1, b2, px, py)
                ==> #[trigger] pix_depth(a0, a1, a2, px, py) != #[trigger] pix_depth(
                b0,
                b1,
                b2,
                px,
                py,
            ),
    ensures
        ({
            let a_c = spec_raster_colors(oldc, oldz, w, h, a0, a1, a2, ca);
            let a_z = spec_raster_depths(oldc, oldz, w, h, a0, a1, a2);
            let ab_c = spec_raster_colors(a_c, a_z, w, h, b0, b1, b2, cb);
            let ab_z = spec_raster_depths(a_c, a_z, w, h, b0, b1, b2);
            let b_c = spec_raster_colors(oldc, oldz, w, h, b0, b1, b2, cb);
            let b_z = spec_raster_depths(oldc, oldz, w, h, b0, b1, b2);
            let ba_c = spec_raster_colors(b_c, b_z, w, h, a0, a1, a2, ca);
            let ba_z = spec_raster_depths(b_c, b_z, w, h, a0, a1, a2);
            ab_c == ba_c && ab_z == ba_z
        }),
{
    let a_c = spec_raster_colors(oldc, oldz, w, h, a0, a1, a2, ca);
    let a_z = spec_raster_depths(oldc, oldz, w, h, a0, a1, a2);
    let ab_c = spec_raster_colors(a_c, a_z, w, h, b0, b1, b2, cb);
    let ab_z = spec_raster_depths(a_c, a_z, w, h, b0, b1, b2);
    let b_c = spec_raster_colors(oldc, oldz, w, h, b0, b1, b2, cb);
    let b_z = spec_raster_depths(oldc, oldz, w, h, b0, b1, b2);
    let ba_c = spec_raster_colors(b_c, b_z, w, h, a0, a1, a2, ca);
    let ba_z = spec_raster_depths(b_c, b_z, w, h, a0, a1, a2);
    assert(a_c.len() == oldc.len() && a_z.len() == oldz.len());
    assert(b_c.len() == oldc.len() && b_z.len() == oldz.len());
    assert(ab_c.len() == oldc.len() && ab_z.len() == oldz.len());
    assert(ba_c.len() == oldc.len() && ba_z.len() == oldz.len());
    assert forall|i: int| 0 <= i < ab_c.len() implies #[trigger] ab_c[i] == ba_c[i] by {
        lemma_roi_pixel(oldc, oldz, w, h, a0, a1, a2, b0, b1, b2, ca, cb, i);
    }
    assert forall|i: int| 0 <= i < ab_z.len() implies #[trigger] ab_z[i] == ba_z[i] by {
        lemma_roi_pixel(oldc, oldz, w, h, a0, a1, a2, b0, b1, b2, ca, cb, i);
    }
    assert(ab_c =~= ba_c);
    assert(ab_z =~= ba_z);
}

/// One pixel of the order-independence argument: the two draw orders
/// agree on the cell's final color and depth.
proof fn lemma_roi_pixel(
    oldc: Seq<u32>,
    oldz: Seq<i64>,
    w: int,
    h: int,
    a0: (int, int, int),
    a1: (int, int, int),
    a2: (int, int, int),
    b0: (int, int, int),
    b1: (int, int, int),
    b2: (int, int, int),
    ca: u32,
    cb: u32,
    i: int,
)
    requires
        oldc.len() == oldz.len(),
        0 <= i < oldc.len(),
        -0x4000_0000_0000 <= a0.2 <= 0x4000_0000_0000,
        -0x4000_0000_0000 <= a1.2 <= 0x4000_0000_0000,
        -0x4000_0000_0000 <= a2.2 <= 0x4000_0000_0000,
        -0x4000_0000_0000 <= b0.2 <= 0x4000_0000_0000,
        -0x4000_0000_0000 <= b1.2 <= 0x4000_0000_0000,
        -0x4000_0000_0000 <= b2.2 <= 0x4000_0000_0000,
        pix_covered(a0, a1, a2, i % w, i / w) && pix_covered(b0, b1, b2, i % w, i / w)
            ==> pix_depth(a0, a1, a2, i % w, i / w) != pix_depth(b0, b1, b2, i % w, i / w),
    ensures
        ({
            let a_c = spec_raster_colors(oldc, oldz, w, h, a0, a1, a2, ca);
            let a_z = spec_raster_depths(oldc, oldz, w, h, a0, a1, a2);
            let ab_c = spec_raster_colors(a_c, a_z, w, h, b0, b1, b2, cb);
            let ab_z = spec_raster_depths(a_c, a_z, w, h, b0, b1, b2);
            let b_c = spec_raster_colors(oldc, oldz, w, h, b0, b1, b2, cb);
            let b_z = spec_raster_depths(oldc, oldz, w, h, b0, b1, b2);
            let ba_c = spec_raster_colors(b_c, b_z, w, h, a0, a1, a2, ca);
            let ba_z = spec_raster_depths(b_c, b_z, w, h, a0, a1, a2);
            ab_c[i] == ba_c[i] && ab_z[i] == ba_z[i]
        }),
{
    let a_c = spec_raster_colors(oldc, oldz, w, h, a0, a1, a2, ca);
    let a_z = spec_raster_depths(oldc, oldz, w, h, a0, a1, a2);
    let ab_c = spec_raster_colors(a_c, a_z, w, h, b0, b1, b2, cb);
    let ab_z = spec_raster_depths(a_c, a_z, w, h, b0, b1, b2);
    let b_c = spec_raster_colors(oldc, oldz, w, h, b0, b1, b2, cb);
    let b_z = spec_raster_depths(oldc, oldz, w, h, b0, b1, b2);
    let ba_c = spec_raster_colors(b_c, b_z, w, h, a0, a1, a2, ca);
    let ba_z = spec_raster_depths(b_c, b_z, w, h, a0, a1, a2);
    let px = i % w;
    let py = i / w;
    let da = pix_depth(a0, a1, a2, px, py);
    let db = pix_depth(b0, b1, b2, px, py);
    lemma_pix_depth_in_range(a0, a1, a2, px, py);
    lemma_pix_depth_in_range(b0, b1, b2, px, py);
    if tri_cull(a0, a1, a2) <= 0 {
        assert(a_c == oldc && a_z == oldz);
        assert(ba_c[i] == b_c[i] && ba_z[i] == b_z[i]);
    } else if tri_cull(b0, b1, b2) <= 0 {
        assert(b_c == oldc && b_z == oldz);
        assert(ab_c[i] == a_c[i] && ab_z[i] == a_z[i]);
    } else {
        let ha = pix_hit(a0, a1, a2, w, h, px, py, oldz[i]);
        let hb = pix_hit(b0, b1, b2, w, h, px, py, oldz[i]);
        assert(a_c[i] == (if ha { ca } else { oldc[i] }));
        assert(a_z[i] == (if ha { da as i64 } else { oldz[i] }));
        assert(b_c[i] == (if hb { cb } else { oldc[i] }));
        assert(b_z[i] == (if hb { db as i64 } else { oldz[i] }));
        assert(ab_c[i] == (if pix_hit(b0, b1, b2, w, h, px, py, a_z[i]) {
            cb
        } else {
            a_c[i]
        }));
        assert(ab_z[i] == (if pix_hit(b0, b1, b2, w, h, px, py, a_z[i]) {
            db as i64
        } else {
            a_z[i]
        }));
        assert(ba_c[i] == (if pix_hit(a0, a1, a2, w, h, px, py, b_z[i]) {
            ca
        } else {
            b_c[i]
        }));
        assert(ba_z[i] == (if pix_hit(a0, a1, a2, w, h, px, py, b_z[i]) {
            da as i64
        } else {
            b_z[i]
        }));
    }
}

/// A covered pixel's interpolated depth stays within the machine
/// range whenever the vertex depths do: its barycentric weights lie
/// in the unit interval.
proof fn lemma_pix_depth_in_range(
    t0: (int, int, int),
    t1: (int, int, int),
    t2: (int, int, int),
    px: int,
    py: int,
)
    requires
        -0x4000_0000_0000 <= t0.2 <= 0x4000_0000_0000,
        -0x4000_0000_0000 <= t1.2 <= 0x4000_0000_0000,
        -0x4000_0000_0000 <= t2.2 <= 0x4000_0000_0000,
    ensures
        pix_covered(t0, t1, t2, px, py) ==> -0xC000_0000_0000 <= pix_depth(t0, t1, t2, px, py)
            <= 0xC000_0000_0000,
{
    if pix_covered(t0, t1, t2, px, py) {
        let p = (px * 65536, py * 65536);
        let d = bary_denom((t0.0, t0.1), (t1.0, t1.1), (t2.0, t2.1));
        let (u, v, wt) = spec_barycentric(p, (t0.0, t0.1), (t1.0, t1.1), (t2.0, t2.1));
        if d == 0 {
            assert(u == 0 && v == 0 && wt == 0);
        } else {
            assert(wt == 65536 - u - v);
            assert(u <= 65536 && v <= 65536 && wt <= 65536);
        }
        lemma_fxmul_unit(u, t0.2);
        lemma_fxmul_unit(v, t1.2);
        lemma_fxmul_unit(wt, t2.2);
    }
}

/// A fixed-point product with a unit-interval weight keeps the other
/// factor's bound.
proof fn lemma_fxmul_unit(u: int, z: int)
    requires
        0 <= u <= 65536,
        -0x4000_0000_0000 <= z <= 0x4000_0000_0000,
    ensures
        -0x4000_0000_0000 <= fxmul(u, z) <= 0x4000_0000_0000,
{
    lemma_mul_le(u, z, 65536, 0x4000_0000_0000);
    lemma_tdiv_bound(u * z, 65536, 0x4000_0000_0000_0000);
    lemma_tdiv_exact(0x4000_0000_0000, 65536);
}

/// A triangle whose doubled signed screen area is nonpositive --
/// back-facing or degenerate -- leaves both buffers untouched.
pub proof fn lemma_backface_culled(
    oldc: Seq<u32>,
    oldz: Seq<i64>,
    w: int,
    h: int,
    t0: (int, int, int),
    t1: (int, int, int),
    t2: (int, int, int),
    color: u32,
)
    requires
        tri_cull(t0, t1, t2) <= 0,
    ensures
        spec_raster_colors(oldc, oldz, w, h, t0, t1, t2, color) == oldc,
        spec_raster_depths(oldc, oldz, w, h, t0, t1, t2) == oldz,
{
}

/// A point is visible exactly when its clip-space `w` is strictly
/// positive: at or behind the eye plane it never is, and in front it
/// always is.
pub proof fn lemma_behind_eye_not_visible(p: Vec3, m: Mat4)
    ensures
        spec_wts_visible(p, m) <==> mv_e(m, 3, p.x as int, p.y as int, p.z as int, 65536) > 0,
{
}

/// A face with a vertex that does not project -- behind the eye or
/// beyond the guard -- contributes nothing to the framebuffer.
pub proof fn lemma_invisible_face_drops(
    oldc: Seq<u32>,
    oldz: Seq<i64>,
    w: int,
    h: int,
    mvp: Mat4,
    sw: int,
    sh: int,
    color: u32,
    verts: Seq<Vec3>,
    faces: Seq<(usize, usize, usize)>,
    n: int,
)
    requires
        0 < n <= faces.len(),
        !spec_wts_visible(verts[faces[n - 1].0 as int], mvp) || !spec_wts_visible(
            verts[faces[n - 1].1 as int],
            mvp,
        ) || !spec_wts_visible(verts[faces[n - 1].2 as int], mvp),
    ensures
        spec_draw_mesh(oldc, oldz, w, h, mvp, sw, sh, color, verts, faces, n) == spec_draw_mesh(
            oldc,
            oldz,
            w,
            h,
            mvp,
            sw,
            sh,
            color,
            verts,
            faces,
            n - 1,
        ),
{
}

} // verus!
