//! Triangle scan conversion with depth testing.
//!
//! The rasterizer takes three already-projected screen-space vertices
//! `(x, y, depth)`, culls back faces by the sign of the doubled screen
//! area, restricts work to the clamped bounding box, tests each pixel
//! center with barycentric weights, and writes depth-tested pixels.
//! The contract pins the final buffers exactly, pixel by pixel.

use vstd::prelude::*;
use crate::fixed::{FX, fxmul, fx_mul, lemma_mul_le};
use crate::framebuffer::{Framebuffer, lemma_pixel_index};
use crate::transforms::{spec_barycentric, barycentric};
use vstd::arithmetic::div_mod::{lemma_fundamental_div_mod_converse};

verus! {

/// Largest screen coordinate magnitude the rasterizer accepts.
pub const RAST_LIM: i64 = 0x1_0000_0000_0000;

/// Largest depth magnitude the rasterizer accepts.
pub const DEPTH_LIM: i64 = 0x4000_0000_0000;

/// Twice the signed screen-space area of the triangle; back faces and
/// degenerate triangles have a nonpositive value.
pub open spec fn tri_cull(t0: (int, int, int), t1: (int, int, int), t2: (int, int, int)) -> int {
    (t1.0 - t0.0) * (t2.1 - t0.1) - (t1.1 - t0.1) * (t2.0 - t0.0)
}

/// The smaller of three values.
pub open spec fn min3(a: int, b: int, c: int) -> int {
    if a <= b && a <= c {
        a
    } else if b <= c {
        b
    } else {
        c
    }
}

/// The larger of three values.
pub open spec fn max3(a: int, b: int, c: int) -> int {
    if a >= b && a >= c {
        a
    } else if b >= c {
        b
    } else {
        c
    }
}

/// The leftmost pixel column the triangle may cover, clamped at zero.
pub open spec fn bb_min_x(t0: (int, int, int), t1: (int, int, int), t2: (int, int, int)) -> int {
    let f = min3(t0.0, t1.0, t2.0) / 65536;
    if f < 0 {
        0
    } else {
        f
    }
}

/// The rightmost pixel column, clamped at the last column.
pub open spec fn bb_max_x(t0: (int, int, int), t1: (int, int, int), t2: (int, int, int), w: int) -> int {
    let c = (max3(t0.0, t1.0, t2.0) + 65535) / 65536;
    if c > w - 1 {
        w - 1
    } else {
        c
    }
}

/// The topmost pixel row, clamped at zero.
pub open spec fn bb_min_y(t0: (int, int, int), t1: (int, int, int), t2: (int, int, int)) -> int {
    let f = min3(t0.1, t1.1, t2.1) / 65536;
    if f < 0 {
        0
    } else {
        f
    }
}

/// The bottommost pixel row, clamped at the last row.
pub open spec fn bb_max_y(t0: (int, int, int), t1: (int, int, int), t2: (int, int, int), h: int) -> int {
    let c = (max3(t0.1, t1.1, t2.1) + 65535) / 65536;
    if c > h - 1 {
        h - 1
    } else {
        c
    }
}

/// Whether pixel `(px, py)` lies in the triangle's clamped bounding
/// box.
pub open spec fn in_bbox(
    t0: (int, int, int),
    t1: (int, int, int),
    t2: (int, int, int),
    w: int,
    h: int,
    px: int,
    py: int,
) -> bool {
    bb_min_x(t0, t1, t2) <= px <= bb_max_x(t0, t1, t2, w) && bb_min_y(t0, t1, t2) <= py
        <= bb_max_y(t0, t1, t2, h)
}

/// The barycentric weights of the pixel center `(px, py)`.
pub open spec fn pix_weights(
    t0: (int, int, int),
    t1: (int, int, int),
    t2: (int, int, int),
    px: int,
    py: int,
) -> (int, int, int) {
    spec_barycentric((px * 65536, py * 65536), (t0.0, t0.1), (t1.0, t1.1), (t2.0, t2.1))
}

/// Whether the pixel center sits inside the triangle: all three
/// weights nonnegative.
pub open spec fn pix_covered(
    t0: (int, int, int),
    t1: (int, int, int),
    t2: (int, int, int),
    px: int,
    py: int,
) -> bool {
    let (u, v, w) = pix_weights(t0, t1, t2, px, py);
    u >= 0 && v >= 0 && w >= 0
}

/// The interpolated depth at the pixel: the barycentric-weighted sum
/// of the vertex depths.
pub open spec fn pix_depth(
    t0: (int, int, int),
    t1: (int, int, int),
    t2: (int, int, int),
    px: int,
    py: int,
) -> int {
    let (u, v, w) = pix_weights(t0, t1, t2, px, py);
    fxmul(u, t0.2) + fxmul(v, t1.2) + fxmul(w, t2.2)
}

/// Whether the triangle writes pixel `(px, py)` over a cell whose
/// stored depth is `oldz`.
pub open spec fn pix_hit(
    t0: (int, int, int),
    t1: (int, int, int),
    t2: (int, int, int),
    w: int,
    h: int,
    px: int,
    py: int,
    oldz: i64,
) -> bool {
    in_bbox(t0, t1, t2, w, h, px, py) && pix_covered(t0, t1, t2, px, py) && pix_depth(
        t0,
        t1,
        t2,
        px,
        py,
    ) < oldz
}

/// The color buffer after rasterizing one triangle.
pub open spec fn spec_raster_colors(
    oldc: Seq<u32>,
    oldz: Seq<i64>,
    w: int,
    h: int,
    t0: (int, int, int),
    t1: (int, int, int),
    t2: (int, int, int),
    color: u32,
) -> Seq<u32> {
    if tri_cull(t0, t1, t2) <= 0 {
        oldc
    } else {
        Seq::new(
            oldc.len(),
            |i: int|
                if pix_hit(t0, t1, t2, w, h, i % w, i / w, oldz[i]) {
                    color
                } else {
                    oldc[i]
                },
        )
    }
}

/// The depth buffer after rasterizing one triangle.
pub open spec fn spec_raster_depths(
    oldc: Seq<u32>,
    oldz: Seq<i64>,
    w: int,
    h: int,
    t0: (int, int, int),
    t1: (int, int, int),
    t2: (int, int, int),
) -> Seq<i64> {
    if tri_cull(t0, t1, t2) <= 0 {
        oldz
    } else {
        Seq::new(
            oldz.len(),
            |i: int|
                if pix_hit(t0, t1, t2, w, h, i % w, i / w, oldz[i]) {
                    pix_depth(t0, t1, t2, i % w, i / w) as i64
                } else {
                    oldz[i]
                },
        )
    }
}

/// The integer triple view of a screen-space vertex.
pub open spec fn sv(t: (i64, i64, i64)) -> (int, int, int) {
    (t.0 as int, t.1 as int, t.2 as int)
}

/// A screen-space vertex within the rasterizer's working range.
pub open spec fn sv_ok(t: (i64, i64, i64)) -> bool {
    &&& -RAST_LIM <= t.0 <= RAST_LIM
    &&& -RAST_LIM <= t.1 <= RAST_LIM
    &&& -DEPTH_LIM <= t.2 <= DEPTH_LIM
}

/// Floor of a fixed-point value, as a pixel coordinate.
fn fx_floor(v: i64) -> (r: i64)
    requires
        -0x4_0000_0000_0000 <= v <= 0x4_0000_0000_0000,
    ensures
        r == v as int / 65536,
{
    if v >= 0 {
        v / 65536
    } else {
        let m = -v;
        let q = (m + 65535) / 65536;
        proof {
            vstd::arithmetic::div_mod::lemma_fundamental_div_mod(m as int + 65535, 65536);
            vstd::arithmetic::div_mod::lemma_mod_bound(m as int + 65535, 65536);
            vstd::arithmetic::div_mod::lemma_fundamental_div_mod(v as int, 65536);
            vstd::arithmetic::div_mod::lemma_mod_bound(v as int, 65536);
            assert((-q) as int == v as int / 65536) by {
                let qq = (m as int + 65535) / 65536;
                let fq = v as int / 65536;
                assert(m as int + 65535 == 65536 * qq + ((m as int + 65535) % 65536));
                assert(v as int == 65536 * fq + (v as int % 65536));
                assert(-qq == fq) by (nonlinear_arith)
                    requires
                        m as int == -(v as int),
                        m as int + 65535 == 65536 * qq + ((m as int + 65535) % 65536),
                        v as int == 65536 * fq + (v as int % 65536),
                        0 <= (m as int + 65535) % 65536 < 65536,
                        0 <= (v as int % 65536) < 65536,
                ;
            }
        }
        -q
    }
}

/// Ceiling of a fixed-point value, as a pixel coordinate.
fn fx_ceil(v: i64) -> (r: i64)
    requires
        -0x3_0000_0000_0000 <= v <= 0x3_0000_0000_0000,
    ensures
        r == (v as int + 65535) / 65536,
{
    fx_floor(v + 65535)
}

/// Rasterizes a filled triangle of already-projected screen-space
/// vertices `(x, y, depth)` into the framebuffer with depth testing.
/// Back-facing (clockwise) and degenerate triangles write nothing.
pub fn draw_filled_triangle(fb: &mut Framebuffer, tri: [(i64, i64, i64); 3], color: u32)
    requires
        old(fb).wf(),
        sv_ok(tri[0]),
        sv_ok(tri[1]),
        sv_ok(tri[2]),
    ensures
        final(fb).wf(),
        final(fb).same_dims(old(fb)),
        final(fb).buffer@ == spec_raster_colors(
            old(fb).buffer@,
            old(fb).zbuffer@,
            old(fb).width as int,
            old(fb).height as int,
            sv(tri[0]),
            sv(tri[1]),
            sv(tri[2]),
            color,
        ),
        final(fb).zbuffer@ == spec_raster_depths(
            old(fb).buffer@,
            old(fb).zbuffer@,
            old(fb).width as int,
            old(fb).height as int,
            sv(tri[0]),
            sv(tri[1]),
            sv(tri[2]),
        ),
{
    let (x0, y0, z0) = tri[0];
    let (x1, y1, z1) = tri[1];
    let (x2, y2, z2) = tri[2];
    let ghost t0 = sv(tri[0]);
    let ghost t1 = sv(tri[1]);
    let ghost t2 = sv(tri[2]);
    proof {
        assert(t0 == (x0 as int, y0 as int, z0 as int));
        assert(t1 == (x1 as int, y1 as int, z1 as int));
        assert(t2 == (x2 as int, y2 as int, z2 as int));
    }
    let ghost w = old(fb).width as int;
    let ghost h = old(fb).height as int;
    let ghost size = old(fb).size();
    let ghost oldc = old(fb).buffer@;
    let ghost oldz = old(fb).zbuffer@;
    let ghost tc = spec_raster_colors(oldc, oldz, w, h, t0, t1, t2, color);
    let ghost tz = spec_raster_depths(oldc, oldz, w, h, t0, t1, t2);

    // Backface culling on the exact doubled signed area.
    proof {
        lemma_mul_le((x1 - x0) as int, (y2 - y0) as int, 0x2_0000_0000_0000, 0x2_0000_0000_0000);
        lemma_mul_le((y1 - y0) as int, (x2 - x0) as int, 0x2_0000_0000_0000, 0x2_0000_0000_0000);
    }
    let nz: i128 = ((x1 - x0) as i128) * ((y2 - y0) as i128) - ((y1 - y0) as i128) * ((x2
        - x0) as i128);
    if nz <= 0 {
        return ;
    }
    // Clamped bounding box.
    let mnxv: i64 = if x0 <= x1 && x0 <= x2 {
        x0
    } else if x1 <= x2 {
        x1
    } else {
        x2
    };
    let mxxv: i64 = if x0 >= x1 && x0 >= x2 {
        x0
    } else if x1 >= x2 {
        x1
    } else {
        x2
    };
    let mnyv: i64 = if y0 <= y1 && y0 <= y2 {
        y0
    } else if y1 <= y2 {
        y1
    } else {
        y2
    };
    let mxyv: i64 = if y0 >= y1 && y0 >= y2 {
        y0
    } else if y1 >= y2 {
        y1
    } else {
        y2
    };
    let f = fx_floor(mnxv);
    let min_x: i64 = if f < 0 {
        0
    } else {
        f
    };
    let c = fx_ceil(mxxv);
    let wl: i64 = fb.width as i64;
    let max_x: i64 = if c > wl - 1 {
        wl - 1
    } else {
        c
    };
    let fy = fx_floor(mnyv);
    let min_y: i64 = if fy < 0 {
        0
    } else {
        fy
    };
    let cy = fx_ceil(mxyv);
    let hl: i64 = fb.height as i64;
    let max_y: i64 = if cy > hl - 1 {
        hl - 1
    } else {
        cy
    };
    proof {
        assert(min_x == bb_min_x(t0, t1, t2));
        assert(max_x == bb_max_x(t0, t1, t2, w));
        assert(min_y == bb_min_y(t0, t1, t2));
        assert(max_y == bb_max_y(t0, t1, t2, h));
    }
    if min_x > max_x || min_y > max_y {
        proof {
            assert(fb.buffer@ =~= tc);
            assert(fb.zbuffer@ =~= tz);
        }
        return ;
    }
    let mut px: i64 = min_x;
    while px <= max_x
        invariant
            fb.wf(),
            fb.same_dims(old(fb)),
            fb.buffer@.len() == size,
            fb.zbuffer@.len() == size,
            oldc.len() == size,
            oldz.len() == size,
            w == old(fb).width as int,
            h == old(fb).height as int,
            size == w * h,
            tri_cull(t0, t1, t2) > 0,
            tc == spec_raster_colors(oldc, oldz, w, h, t0, t1, t2, color),
            tz == spec_raster_depths(oldc, oldz, w, h, t0, t1, t2),
            t0 == (x0 as int, y0 as int, z0 as int),
            t1 == (x1 as int, y1 as int, z1 as int),
            t2 == (x2 as int, y2 as int, z2 as int),
            -RAST_LIM <= x0 <= RAST_LIM,
            -RAST_LIM <= y0 <= RAST_LIM,
            -DEPTH_LIM <= z0 <= DEPTH_LIM,
            -RAST_LIM <= x1 <= RAST_LIM,
            -RAST_LIM <= y1 <= RAST_LIM,
            -DEPTH_LIM <= z1 <= DEPTH_LIM,
            -RAST_LIM <= x2 <= RAST_LIM,
            -RAST_LIM <= y2 <= RAST_LIM,
            -DEPTH_LIM <= z2 <= DEPTH_LIM,
            min_x == bb_min_x(t0, t1, t2),
            max_x == bb_max_x(t0, t1, t2, w),
            min_y == bb_min_y(t0, t1, t2),
            max_y == bb_max_y(t0, t1, t2, h),
            0 <= min_x,
            max_x < w,
            0 <= min_y,
            max_y < h,
            min_y <= max_y,
            min_x <= px,
            px <= max_x + 1,
            forall|i: int|
                0 <= i < size ==> #[trigger] fb.buffer@[i] == (if in_bbox(
                    t0,
                    t1,
                    t2,
                    w,
                    h,
                    i % w,
                    i / w,
                ) && i % w < px {
                    tc[i]
                } else {
                    oldc[i]
                }),
            forall|i: int|
                0 <= i < size ==> #[trigger] fb.zbuffer@[i] == (if in_bbox(
                    t0,
                    t1,
                    t2,
                    w,
                    h,
                    i % w,
                    i / w,
                ) && i % w < px {
                    tz[i]
                } else {
                    oldz[i]
                }),
        decreases max_x - px + 1,
    {
        let mut py: i64 = min_y;
        while py <= max_y
            invariant
                fb.wf(),
                fb.same_dims(old(fb)),
                fb.buffer@.len() == size,
                fb.zbuffer@.len() == size,
                oldc.len() == size,
                oldz.len() == size,
                w == old(fb).width as int,
                h == old(fb).height as int,
                size == w * h,
                tri_cull(t0, t1, t2) > 0,
                tc == spec_raster_colors(oldc, oldz, w, h, t0, t1, t2, color),
                tz == spec_raster_depths(oldc, oldz, w, h, t0, t1, t2),
                t0 == (x0 as int, y0 as int, z0 as int),
                t1 == (x1 as int, y1 as int, z1 as int),
                t2 == (x2 as int, y2 as int, z2 as int),
                -RAST_LIM <= x0 <= RAST_LIM,
                -RAST_LIM <= y0 <= RAST_LIM,
                -DEPTH_LIM <= z0 <= DEPTH_LIM,
                -RAST_LIM <= x1 <= RAST_LIM,
                -RAST_LIM <= y1 <= RAST_LIM,
                -DEPTH_LIM <= z1 <= DEPTH_LIM,
                -RAST_LIM <= x2 <= RAST_LIM,
                -RAST_LIM <= y2 <= RAST_LIM,
                -DEPTH_LIM <= z2 <= DEPTH_LIM,
                min_x == bb_min_x(t0, t1, t2),
                max_x == bb_max_x(t0, t1, t2, w),
                min_y == bb_min_y(t0, t1, t2),
                max_y == bb_max_y(t0, t1, t2, h),
                0 <= min_x,
                max_x < w,
                0 <= min_y,
                max_y < h,
                min_x <= px <= max_x,
                min_y <= py,
                py <= max_y + 1,
                forall|i: int|
                    0 <= i < size ==> #[trigger] fb.buffer@[i] == (if in_bbox(
                        t0,
                        t1,
                        t2,
                        w,
                        h,
                        i % w,
                        i / w,
                    ) && (i % w < px || (i % w == px && i / w < py)) {
                        tc[i]
                    } else {
                        oldc[i]
                    }),
                forall|i: int|
                    0 <= i < size ==> #[trigger] fb.zbuffer@[i] == (if in_bbox(
                        t0,
                        t1,
                        t2,
                        w,
                        h,
                        i % w,
                        i / w,
                    ) && (i % w < px || (i % w == px && i / w < py)) {
                        tz[i]
                    } else {
                        oldz[i]
                    }),
            decreases max_y - py + 1,
        {
            let ghost idx = py * w + px;
            proof {
                lemma_pixel_index(px as int, py as int, w, h);
                lemma_fundamental_div_mod_converse(idx, w, py as int, px as int);
            }
            let (u, v, wt) = barycentric(
                (px * FX, py * FX),
                (x0, y0),
                (x1, y1),
                (x2, y2),
            );
            if u >= 0 && v >= 0 && wt >= 0 {
                proof {
                    // Inside the triangle the weights lie in [0, 1],
                    // so the depth products stay in range.
                    assert(u <= 65536 && v <= 65536 && wt <= 65536);
                    lemma_mul_le(u as int, z0 as int, 65536, 0x4000_0000_0000);
                    lemma_mul_le(v as int, z1 as int, 65536, 0x4000_0000_0000);
                    lemma_mul_le(wt as int, z2 as int, 65536, 0x4000_0000_0000);
                }
                let z = fx_mul(u, z0) + fx_mul(v, z1) + fx_mul(wt, z2);
                let ghost pre = *fb;
                fb.set_pixel_with_depth(px as usize, py as usize, color, z);
                proof {
                    assert(pre.zbuffer@[idx] == oldz[idx]);
                    assert(z == pix_depth(t0, t1, t2, px as int, py as int));
                    assert(pix_covered(t0, t1, t2, px as int, py as int));
                    assert(in_bbox(t0, t1, t2, w, h, px as int, py as int));
                    if z < oldz[idx] {
                        assert(fb.buffer@ == pre.buffer@.update(idx, color));
                        assert(fb.zbuffer@ == pre.zbuffer@.update(idx, z));
                        assert(tc[idx] == color);
                        assert(tz[idx] == z);
                    } else {
                        assert(fb.buffer@ == pre.buffer@);
                        assert(fb.zbuffer@ == pre.zbuffer@);
                    }
                }
            } else {
                proof {
                    assert(!pix_covered(t0, t1, t2, px as int, py as int));
                }
            }
            proof {
                assert forall|i: int| 0 <= i < size implies #[trigger] fb.buffer@[i] == (
                if in_bbox(t0, t1, t2, w, h, i % w, i / w) && (i % w < px || (i % w == px && i / w
                    < py + 1)) {
                    tc[i]
                } else {
                    oldc[i]
                }) by {
                    if i != idx {
                        assert(!(i % w == px && i / w == py)) by {
                            if i % w == px && i / w == py {
                                vstd::arithmetic::div_mod::lemma_fundamental_div_mod(i, w);
                                assert(i == w * (i / w) + i % w);
                                assert(idx == py * w + px);
                                assert(w * (i / w) == py * w) by (nonlinear_arith)
                                    requires
                                        i / w == py as int,
                                ;
                                assert(i == idx);
                            }
                        }
                    }
                }
                assert forall|i: int| 0 <= i < size implies #[trigger] fb.zbuffer@[i] == (
                if in_bbox(t0, t1, t2, w, h, i % w, i / w) && (i % w < px || (i % w == px && i / w
                    < py + 1)) {
                    tz[i]
                } else {
                    oldz[i]
                }) by {
                    if i != idx {
                        assert(!(i % w == px && i / w == py)) by {
                            if i % w == px && i / w == py {
                                vstd::arithmetic::div_mod::lemma_fundamental_div_mod(i, w);
                                assert(w * (i / w) == py * w) by (nonlinear_arith)
                                    requires
                                        i / w == py as int,
                                ;
                                assert(i == idx);
                            }
                        }
                    }
                }
            }
            py = py + 1;
        }
        proof {
            assert forall|i: int| 0 <= i < size implies #[trigger] fb.buffer@[i] == (if in_bbox(
                t0,
                t1,
                t2,
                w,
                h,
                i % w,
                i / w,
            ) && i % w < px + 1 {
                tc[i]
            } else {
                oldc[i]
            }) by {
                if in_bbox(t0, t1, t2, w, h, i % w, i / w) && i % w == px {
                    assert(i / w <= max_y);
                }
            }
            assert forall|i: int| 0 <= i < size implies #[trigger] fb.zbuffer@[i] == (if in_bbox(
                t0,
                t1,
                t2,
                w,
                h,
                i % w,
                i / w,
            ) && i % w < px + 1 {
                tz[i]
            } else {
                oldz[i]
            }) by {
                if in_bbox(t0, t1, t2, w, h, i % w, i / w) && i % w == px {
                    assert(i / w <= max_y);
                }
            }
        }
        px = px + 1;
    }
    proof {
        assert(fb.buffer@ =~= tc);
        assert(fb.zbuffer@ =~= tz);
    }
}

} // verus!
