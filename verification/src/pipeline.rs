//! The transform-and-project stage.
//!
//! A `Pipeline` holds the current model-view-projection matrix and
//! draw color.  `draw_mesh` projects each vertex of a mesh through
//! the matrix, drops triangles with any vertex at or behind the eye
//! plane, and hands fully visible triangles to the rasterizer.  The
//! contract pins the resulting framebuffer exactly: it is the fold of
//! rasterizing each surviving triangle in face order.

use vstd::prelude::*;
use crate::fixed::FX;
use crate::vector::Vec3;
use crate::matrix::{Mat4, mat_bounded, spec_identity};
use crate::framebuffer::Framebuffer;
use crate::transforms::{world_to_screen, spec_wts_visible, spec_wts_x, spec_wts_y, spec_wts_z,
    lemma_wts_in_range};
use crate::rasterizer::{draw_filled_triangle, spec_raster_colors, spec_raster_depths, sv_ok};

verus! {

pub struct Pipeline {
    pub mvp: Mat4,
    pub color: u32,
    pub fb_width: i64,
    pub fb_height: i64,
}

/// The framebuffer contents after drawing the first `n` faces of a
/// mesh: each face whose three vertices all project in front of the
/// eye plane is rasterized over the result of the previous faces; a
/// face with any vertex at or behind the eye is dropped whole.
pub open spec fn spec_draw_mesh(
    oldc: Seq<u32>,
    oldz: Seq<i64>,
    w: int,
    h: int,
    mvp: Mat4,
    sw: int,
    sh: int,
    color: u32,
    verts: Seq<Vec3>,
    faces: Seq<(usize, usize, usize)>,
    n: int,
) -> (Seq<u32>, Seq<i64>)
    decreases n,
{
    if n <= 0 {
        (oldc, oldz)
    } else {
        let prev = spec_draw_mesh(oldc, oldz, w, h, mvp, sw, sh, color, verts, faces, n - 1);
        let f = faces[n - 1];
        let va = verts[f.0 as int];
        let vb = verts[f.1 as int];
        let vc = verts[f.2 as int];
        if spec_wts_visible(va, mvp) && spec_wts_visible(vb, mvp) && spec_wts_visible(vc, mvp) {
            let ta = (spec_wts_x(va, mvp, sw), spec_wts_y(va, mvp, sh), spec_wts_z(va, mvp));
            let tb = (spec_wts_x(vb, mvp, sw), spec_wts_y(vb, mvp, sh), spec_wts_z(vb, mvp));
            let tc = (spec_wts_x(vc, mvp, sw), spec_wts_y(vc, mvp, sh), spec_wts_z(vc, mvp));
            (
                spec_raster_colors(prev.0, prev.1, w, h, ta, tb, tc, color),
                spec_raster_depths(prev.0, prev.1, w, h, ta, tb, tc),
            )
        } else {
            prev
        }
    }
}

impl Pipeline {
    /// The pipeline's fixed screen dimensions are consistent and the
    /// current matrix is within the working range.
    pub open spec fn wf(&self) -> bool {
        &&& mat_bounded(self.mvp, 0x4000_0000_0000_0000)
        &&& 0 <= self.fb_width <= 0x8000_0000
        &&& 0 <= self.fb_height <= 0x8000_0000
    }

    pub fn new(width: usize, height: usize) -> (r: Pipeline)
        requires
            width <= 32768,
            height <= 32768,
        ensures
            r.mvp == spec_identity(),
            r.color == 0xFFFFFFFFu32,
            r.fb_width == width * 65536,
            r.fb_height == height * 65536,
            r.wf(),
    {
        Pipeline {
            mvp: Mat4::identity(),
            color: 0xFFFFFFFF,
            fb_width: (width as i64) * FX,
            fb_height: (height as i64) * FX,
        }
    }

    /// Replaces the current model-view-projection matrix.
    pub fn set_mvp(&mut self, mvp: Mat4)
        ensures
            final(self).mvp == mvp,
            final(self).color == old(self).color,
            final(self).fb_width == old(self).fb_width,
            final(self).fb_height == old(self).fb_height,
    {
        self.mvp = mvp;
    }

    /// Replaces the current draw color.
    pub fn set_color(&mut self, color: u32)
        ensures
            final(self).color == color,
            final(self).mvp == old(self).mvp,
            final(self).fb_width == old(self).fb_width,
            final(self).fb_height == old(self).fb_height,
    {
        self.color = color;
    }

    /// Projects a model-space point through the current matrix to
    /// screen coordinates `(x, y, depth)`, or `None` exactly when the
    /// point sits at or behind the eye plane.
    pub fn project(&self, p: Vec3) -> (r: Option<(i64, i64, i64)>)
        requires
            self.wf(),
            p.wf(),
        ensures
            r is Some <==> spec_wts_visible(p, self.mvp),
            r is Some ==> r == Some(
                (
                    spec_wts_x(p, self.mvp, self.fb_width as int) as i64,
                    spec_wts_y(p, self.mvp, self.fb_height as int) as i64,
                    spec_wts_z(p, self.mvp) as i64,
                ),
            ),
    {
        world_to_screen(p, &self.mvp, self.fb_width, self.fb_height)
    }

    /// Draws every triangle of the mesh: projects the three vertices
    /// of each face, drops the face if any vertex is not visible, and
    /// rasterizes the rest in face order with the current color.
    pub fn draw_mesh(
        &self,
        fb: &mut Framebuffer,
        vertices: &Vec<Vec3>,
        faces: &Vec<(usize, usize, usize)>,
    )
        requires
            old(fb).wf(),
            self.wf(),
            forall|k: int| 0 <= k < vertices@.len() ==> (#[trigger] vertices@[k]).wf(),
            forall|k: int|
                0 <= k < faces@.len() ==> (#[trigger] faces@[k]).0 < vertices@.len() && faces@[
                    k].1 < vertices@.len() && faces@[k].2 < vertices@.len(),
        ensures
            final(fb).wf(),
            final(fb).same_dims(old(fb)),
            (final(fb).buffer@, final(fb).zbuffer@) == spec_draw_mesh(
                old(fb).buffer@,
                old(fb).zbuffer@,
                old(fb).width as int,
                old(fb).height as int,
                self.mvp,
                self.fb_width as int,
                self.fb_height as int,
                self.color,
                vertices@,
                faces@,
                faces@.len() as int,
            ),
    {
        let ghost oldc = old(fb).buffer@;
        let ghost oldz = old(fb).zbuffer@;
        let ghost w = old(fb).width as int;
        let ghost h = old(fb).height as int;
        let n = faces.len();
        let mut k: usize = 0;
        while k < n
            invariant
                fb.wf(),
                fb.same_dims(old(fb)),
                self.wf(),
                n == faces@.len(),
                k <= n,
                oldc == old(fb).buffer@,
                oldz == old(fb).zbuffer@,
                w == old(fb).width as int,
                h == old(fb).height as int,
                forall|j: int| 0 <= j < vertices@.len() ==> (#[trigger] vertices@[j]).wf(),
                forall|j: int|
                    0 <= j < faces@.len() ==> (#[trigger] faces@[j]).0 < vertices@.len() && faces@[
                        j].1 < vertices@.len() && faces@[j].2 < vertices@.len(),
                (fb.buffer@, fb.zbuffer@) == spec_draw_mesh(
                    oldc,
                    oldz,
                    w,
                    h,
                    self.mvp,
                    self.fb_width as int,
                    self.fb_height as int,
                    self.color,
                    vertices@,
                    faces@,
                    k as int,
                ),
            decreases n - k,
        {
            let (i0, i1, i2) = faces[k];
            let v0 = vertices[i0];
            let v1 = vertices[i1];
            let v2 = vertices[i2];
            let p0 = self.project(v0);
            let p1 = self.project(v1);
            let p2 = self.project(v2);
            if p0.is_some() && p1.is_some() && p2.is_some() {
                let a = p0.unwrap();
                let b = p1.unwrap();
                let c = p2.unwrap();
                proof {
                    lemma_wts_in_range(v0, self.mvp, self.fb_width as int, self.fb_height as int);
                    lemma_wts_in_range(v1, self.mvp, self.fb_width as int, self.fb_height as int);
                    lemma_wts_in_range(v2, self.mvp, self.fb_width as int, self.fb_height as int);
                    assert(sv_ok(a) && sv_ok(b) && sv_ok(c));
                }
                draw_filled_triangle(fb, [a, b, c], self.color);
            }
            k = k + 1;
        }
    }
}

} // verus!
