//! A star-field backdrop: randomly placed points on a large sphere,
//! drawn as small squares behind everything else.

use vstd::prelude::*;
use crate::fixed::{FX, fxmul, fx_mul, lemma_mul_le, lemma_tdiv_abs, lemma_tdiv_bound,
    lemma_tdiv_exact, lemma_fxmul_pow};
use crate::vector::Vec3;
use crate::matrix::{Mat4, mat_bounded};
use crate::framebuffer::{Framebuffer, lemma_pixel_index};

verus! {

pub struct Skybox {
    stars: Vec<Vec3>,
}

/// Relies on rand::random::<u16>: any 16-bit value serves as a
/// uniform fixed-point sample in `[0, 1)`.
#[verifier::external_body]
fn random_unit_fx() -> (r: i64)
    ensures
        0 <= r < 65536,
{
    rand::random::<u16>() as i64
}

/// A random fixed-point value in `[min, max]`.
fn rand_range(min: i64, max: i64) -> (r: i64)
    requires
        min <= max,
        -0x4000_0000 <= min <= 0x4000_0000,
        -0x4000_0000 <= max <= 0x4000_0000,
    ensures
        min <= r <= max,
{
    let u = random_unit_fx();
    let d = max - min;
    proof {
        lemma_mul_le(u as int, d as int, 65536, 0x8000_0000);
        assert(u as int * d as int <= d as int * 65536) by (nonlinear_arith)
            requires
                0 <= u < 65536,
                0 <= d,
        ;
        assert(0 <= u as int * d as int) by (nonlinear_arith)
            requires
                0 <= u,
                0 <= d,
        ;
        lemma_tdiv_abs(u as int * d as int, 65536);
        vstd::arithmetic::div_mod::lemma_div_is_ordered(
            u as int * d as int,
            d as int * 65536,
            65536,
        );
        lemma_tdiv_exact(d as int, 65536);
    }
    min + fx_mul(u, d)
}

impl Skybox {
    /// How many stars the box holds.
    pub closed spec fn star_count(&self) -> int {
        self.stars@.len() as int
    }

    /// Every star sits within a moderate distance of the origin.
    pub closed spec fn stars_ok(&self) -> bool {
        forall|k: int|
            0 <= k < self.stars@.len() ==> -0x1300_0000 <= (#[trigger] self.stars@[k]).x
                <= 0x1300_0000 && -0x1300_0000 <= self.stars@[k].y <= 0x1300_0000 && -0x1300_0000
                <= self.stars@[k].z <= 0x1300_0000
    }

    /// Creates `count` stars in random directions on a sphere of
    /// radius three hundred units.
    pub fn new(count: usize) -> (r: Skybox)
        requires
            count <= 100000,
        ensures
            r.star_count() == count,
            r.stars_ok(),
    {
        let mut stars: Vec<Vec3> = Vec::new();
        let mut i: usize = 0;
        while i < count
            invariant
                i <= count,
                stars@.len() == i,
                forall|k: int|
                    0 <= k < stars@.len() ==> -0x1300_0000 <= (#[trigger] stars@[k]).x
                        <= 0x1300_0000 && -0x1300_0000 <= stars@[k].y <= 0x1300_0000
                        && -0x1300_0000 <= stars@[k].z <= 0x1300_0000,
            decreases count - i,
        {
            let x = rand_range(-FX, FX);
            let y = rand_range(-FX, FX);
            let z = rand_range(-FX, FX);
            let dir = Vec3 { x, y, z }.normalize();
            proof {
                lemma_fxmul_pow(dir.x as int, 300int * 65536, 196608, 19660800, 0x384_0000);
                lemma_fxmul_pow(dir.y as int, 300int * 65536, 196608, 19660800, 0x384_0000);
                lemma_fxmul_pow(dir.z as int, 300int * 65536, 196608, 19660800, 0x384_0000);
            }
            let v = dir.mul(300 * FX);
            stars.push(v);
            i = i + 1;
        }
        Skybox { stars }
    }

    /// Draws each star as a two-by-two white square.  The view's
    /// translation column is zeroed first so the stars stay fixed to
    /// the horizon.  Only the color buffer changes, and every cell it
    /// touches becomes white.
    pub fn render(&self, fb: &mut Framebuffer, view: Mat4, projection: Mat4)
        requires
            old(fb).wf(),
            self.stars_ok(),
            mat_bounded(view, 0x4000_0000_0000_0000),
            mat_bounded(projection, 0x4000_0000_0000_0000),
        ensures
            final(fb).wf(),
            final(fb).same_dims(old(fb)),
            final(fb).zbuffer == old(fb).zbuffer,
            forall|i: int|
                0 <= i < final(fb).size() ==> final(fb).buffer@[i] == old(fb).buffer@[i] || final(fb).buffer@[i] == 0xFFFFFFFFu32,
    {
        let pure_view = Mat4 {
            m: [
                [view.m[0][0], view.m[0][1], view.m[0][2], 0],
                [view.m[1][0], view.m[1][1], view.m[1][2], 0],
                [view.m[2][0], view.m[2][1], view.m[2][2], 0],
                [view.m[3][0], view.m[3][1], view.m[3][2], view.m[3][3]],
            ],
        };
        let n = self.stars.len();
        let mut i: usize = 0;
        while i < n
            invariant
                n == self.stars@.len(),
                self.stars_ok(),
                fb.wf(),
                fb.same_dims(old(fb)),
                fb.zbuffer == old(fb).zbuffer,
                mat_bounded(pure_view, 0x4000_0000_0000_0000),
                mat_bounded(projection, 0x4000_0000_0000_0000),
                i <= n,
                forall|k: int|
                    0 <= k < fb.size() ==> fb.buffer@[k] == old(fb).buffer@[k] || fb.buffer@[k]
                        == 0xFFFFFFFFu32,
            decreases n - i,
        {
            let star = self.stars[i];
            let translation = Mat4::translation(star.x, star.y, star.z);
            let clip = projection.mul(&pure_view).mul(&translation);
            let p = clip.mul_point(Vec3 { x: 0, y: 0, z: 0 });
            if p.z >= 0 && -0x4000_0000 <= p.x && p.x <= 0x4000_0000 && -0x4000_0000 <= p.y && p.y
                <= 0x4000_0000 {
                let wfx: i64 = (fb.width as i64) * FX;
                let hfx: i64 = (fb.height as i64) * FX;
                proof {
                    lemma_mul_le(p.x as int + 65536, wfx as int, 0x4001_0000, 0x8000_0000);
                    lemma_mul_le(65536 - p.y as int, hfx as int, 0x4001_0000, 0x8000_0000);
                    lemma_tdiv_bound(
                        (p.x as int + 65536) * wfx as int,
                        65536,
                        0x2000_8000_0000_0000_0000,
                    );
                    lemma_tdiv_bound(
                        (65536 - p.y as int) * hfx as int,
                        65536,
                        0x2000_8000_0000_0000_0000,
                    );
                    lemma_tdiv_exact(0x2000_8000_0000, 65536);
                    lemma_tdiv_abs(fxmul(p.x as int + 65536, wfx as int), 2);
                    lemma_tdiv_abs(fxmul(65536 - p.y as int, hfx as int), 2);
                }
                let sxf = fx_mul(p.x + FX, wfx) / 2;
                let syf = fx_mul(FX - p.y, hfx) / 2;
                proof {
                    lemma_tdiv_abs(sxf as int, 65536);
                    lemma_tdiv_abs(syf as int, 65536);
                }
                let sx = sxf / FX;
                let sy = syf / FX;
                let mut dy: i64 = 0;
                while dy < 2
                    invariant
                        0 <= dy <= 2,
                        -0x1_0000_0000_0000 <= sx <= 0x1_0000_0000_0000,
                        -0x1_0000_0000_0000 <= sy <= 0x1_0000_0000_0000,
                        fb.wf(),
                        fb.same_dims(old(fb)),
                        fb.zbuffer == old(fb).zbuffer,
                        forall|k: int|
                            0 <= k < fb.size() ==> fb.buffer@[k] == old(fb).buffer@[k]
                                || fb.buffer@[k] == 0xFFFFFFFFu32,
                    decreases 2 - dy,
                {
                    let mut dx: i64 = 0;
                    while dx < 2
                        invariant
                            0 <= dx <= 2,
                            0 <= dy <= 2,
                            -0x1_0000_0000_0000 <= sx <= 0x1_0000_0000_0000,
                            -0x1_0000_0000_0000 <= sy <= 0x1_0000_0000_0000,
                            fb.wf(),
                            fb.same_dims(old(fb)),
                            fb.zbuffer == old(fb).zbuffer,
                            forall|k: int|
                                0 <= k < fb.size() ==> fb.buffer@[k] == old(fb).buffer@[k]
                                    || fb.buffer@[k] == 0xFFFFFFFFu32,
                        decreases 2 - dx,
                    {
                        let px = sx + dx;
                        let py = sy + dy;
                        if px >= 0 && px < fb.width as i64 && py >= 0 && py < fb.height as i64 {
                            proof {
                                lemma_pixel_index(
                                    px as int,
                                    py as int,
                                    fb.width as int,
                                    fb.height as int,
                                );
                            }
                            fb.set_pixel(px as usize, py as usize, 0xFFFFFFFF);
                        }
                        dx = dx + 1;
                    }
                    dy = dy + 1;
                }
            }
            i = i + 1;
        }
    }
}

} // verus!
