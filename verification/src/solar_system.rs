//! The demonstration scene: a sun and three planets sharing one
//! low-poly sphere mesh.

use vstd::prelude::*;
use crate::fixed::{FX, fxmul};
use crate::vector::Vec3;
use crate::matrix::{Mat4, mat_bounded, spec_mat_mul};
use crate::framebuffer::Framebuffer;
use crate::mesh::Mesh;
use crate::pipeline::{Pipeline, spec_draw_mesh};
use crate::celestial_body::{CelestialBody, spec_position};
use crate::transforms::{create_mvp_matrix, spec_transform_matrix};

verus! {

pub struct SolarSystem {
    pub sun: CelestialBody,
    pub planets: Vec<CelestialBody>,
    pub sphere_mesh: Mesh,
}

/// The model-view-projection matrix for one body.
pub open spec fn spec_body_mvp(b: &CelestialBody, view: Mat4, projection: Mat4) -> Mat4 {
    spec_mat_mul(
        spec_mat_mul(projection, view),
        spec_transform_matrix(
            spec_position(b),
            Vec3 { x: 0i64, y: b.self_rotation, z: 0i64 },
            Vec3 { x: b.radius, y: b.radius, z: b.radius },
        ),
    )
}

/// The framebuffer contents after drawing the first `n` planets over
/// an already-drawn background, in order.
pub open spec fn spec_render_planets(
    oldc: Seq<u32>,
    oldz: Seq<i64>,
    w: int,
    h: int,
    sw: int,
    sh: int,
    planets: Seq<CelestialBody>,
    mesh: &Mesh,
    view: Mat4,
    projection: Mat4,
    n: int,
) -> (Seq<u32>, Seq<i64>)
    decreases n,
{
    if n <= 0 {
        (oldc, oldz)
    } else {
        let prev = spec_render_planets(oldc, oldz, w, h, sw, sh, planets, mesh, view, projection, n - 1);
        spec_draw_body(prev.0, prev.1, w, h, sw, sh, &planets[n - 1], mesh, view, projection)
    }
}

/// The framebuffer contents after drawing one body's mesh.
pub open spec fn spec_draw_body(
    oldc: Seq<u32>,
    oldz: Seq<i64>,
    w: int,
    h: int,
    sw: int,
    sh: int,
    b: &CelestialBody,
    mesh: &Mesh,
    view: Mat4,
    projection: Mat4,
) -> (Seq<u32>, Seq<i64>) {
    spec_draw_mesh(
        oldc,
        oldz,
        w,
        h,
        spec_body_mvp(b, view, projection),
        sw,
        sh,
        b.color,
        mesh.vertices@,
        mesh.faces@,
        mesh.faces@.len() as int,
    )
}

impl SolarSystem {
    /// Every body within the orbit math's ranges, and a mesh whose
    /// faces index real vertices.
    pub open spec fn wf(&self) -> bool {
        &&& self.sun.wf()
        &&& forall|k: int| 0 <= k < self.planets@.len() ==> (#[trigger] self.planets@[k]).wf()
        &&& self.sphere_mesh.verts_wf()
        &&& self.sphere_mesh.faces_wf()
    }

    pub fn new(sphere_mesh: Mesh) -> (r: SolarSystem)
        requires
            sphere_mesh.verts_wf(),
            sphere_mesh.faces_wf(),
        ensures
            r.sphere_mesh == sphere_mesh,
            r.planets@.len() == 3,
            r.sun.radius == 4 * 65536 && r.sun.orbit_radius == 0i64 && r.sun.orbit_speed == 0i64
                && r.sun.rotation_speed == 19661i64 && r.sun.color == 0xFFFFDD44u32,
            r.planets@[0].radius == 98304i64 && r.planets@[0].orbit_radius == 10 * 65536
                && r.planets@[0].orbit_speed == 26214i64 && r.planets@[0].rotation_speed
                == 52429i64 && r.planets@[0].color == 0xFF44AAFFu32,
            r.planets@[1].radius == 65536i64 && r.planets@[1].orbit_radius == 16 * 65536
                && r.planets@[1].orbit_speed == 19661i64 && r.planets@[1].rotation_speed
                == 78643i64 && r.planets@[1].color == 0xFFFF8844u32,
            r.planets@[2].radius == 163840i64 && r.planets@[2].orbit_radius == 24 * 65536
                && r.planets@[2].orbit_speed == 6554i64 && r.planets@[2].rotation_speed
                == 26214i64 && r.planets@[2].color == 0xFF88FF44u32,
            r.sun.orbit_angle == 0i64 && r.sun.self_rotation == 0i64,
            forall|k: int|
                0 <= k < 3 ==> (#[trigger] r.planets@[k]).orbit_angle == 0i64
                    && r.planets@[k].self_rotation == 0i64,
            r.wf(),
    {
        let sun = CelestialBody::new("Sun", 4 * FX, 0, 0, 19661, 0xFFFFDD44);
        let mut planets: Vec<CelestialBody> = Vec::new();
        planets.push(CelestialBody::new("PlanetA", 98304, 10 * FX, 26214, 52429, 0xFF44AAFF));
        planets.push(CelestialBody::new("PlanetB", 65536, 16 * FX, 19661, 78643, 0xFFFF8844));
        planets.push(CelestialBody::new("PlanetC", 163840, 24 * FX, 6554, 26214, 0xFF88FF44));
        SolarSystem { sun, planets, sphere_mesh }
    }

    /// Advances every body's orbit and spin by one time step.
    pub fn update(&mut self, dt: i64)
        requires
            old(self).wf(),
            0 <= dt <= 65536,
            -0x2F00_0000 <= old(self).sun.orbit_angle <= 0x2F00_0000,
            -0x2F00_0000 <= old(self).sun.self_rotation <= 0x2F00_0000,
            forall|k: int|
                0 <= k < old(self).planets@.len() ==> -0x2F00_0000 <= (#[trigger] old(self).planets@[k]).orbit_angle <= 0x2F00_0000 && -0x2F00_0000 <= old(self).planets@[k].self_rotation <= 0x2F00_0000,
        ensures
            final(self).wf(),
            final(self).sphere_mesh == old(self).sphere_mesh,
            final(self).planets@.len() == old(self).planets@.len(),
            final(self).sun.orbit_angle == old(self).sun.orbit_angle + fxmul(
                old(self).sun.orbit_speed as int,
                dt as int,
            ),
            forall|k: int|
                0 <= k < old(self).planets@.len() ==> (#[trigger] final(self).planets@[k]).orbit_angle == old(self).planets@[k].orbit_angle + fxmul(
                    old(self).planets@[k].orbit_speed as int,
                    dt as int,
                ),
    {
        self.sun.update(dt);
        let n = self.planets.len();
        let mut i: usize = 0;
        while i < n
            invariant
                n == self.planets@.len(),
                n == old(self).planets@.len(),
                self.sun.wf(),
                self.sphere_mesh == old(self).sphere_mesh,
                self.sun.orbit_angle == old(self).sun.orbit_angle + fxmul(
                    old(self).sun.orbit_speed as int,
                    dt as int,
                ),
                0 <= dt <= 65536,
                i <= n,
                forall|k: int|
                    i <= k < n ==> #[trigger] self.planets@[k] == old(self).planets@[k],
                forall|k: int|
                    0 <= k < n ==> -0x2F00_0000 <= (#[trigger] old(self).planets@[k]).orbit_angle <= 0x2F00_0000 && -0x2F00_0000 <= old(self).planets@[k].self_rotation <= 0x2F00_0000 && old(self).planets@[k].wf(),
                forall|k: int|
                    0 <= k < i ==> (#[trigger] self.planets@[k]).wf() && self.planets@[
                        k].orbit_angle == old(self).planets@[k].orbit_angle + fxmul(
                        old(self).planets@[k].orbit_speed as int,
                        dt as int,
                    ),
            decreases n - i,
        {
            let mut p = self.planets.remove(i);
            p.update(dt);
            self.planets.insert(i, p);
            i = i + 1;
        }
    }

    /// Renders the sun and every planet with the shared sphere mesh,
    /// in that order.
    pub fn render(&self, fb: &mut Framebuffer, pipeline: &mut Pipeline, view: Mat4, projection: Mat4)
        requires
            old(fb).wf(),
            self.wf(),
            0 <= old(pipeline).fb_width <= 0x8000_0000,
            0 <= old(pipeline).fb_height <= 0x8000_0000,
            mat_bounded(view, 0x4000_0000_0000_0000),
            mat_bounded(projection, 0x4000_0000_0000_0000),
        ensures
            final(fb).wf(),
            final(fb).same_dims(old(fb)),
            final(pipeline).fb_width == old(pipeline).fb_width,
            final(pipeline).fb_height == old(pipeline).fb_height,
            ({
                let sun_drawn = spec_draw_body(
                    old(fb).buffer@,
                    old(fb).zbuffer@,
                    old(fb).width as int,
                    old(fb).height as int,
                    old(pipeline).fb_width as int,
                    old(pipeline).fb_height as int,
                    &self.sun,
                    &self.sphere_mesh,
                    view,
                    projection,
                );
                (final(fb).buffer@, final(fb).zbuffer@) == spec_render_planets(
                    sun_drawn.0,
                    sun_drawn.1,
                    old(fb).width as int,
                    old(fb).height as int,
                    old(pipeline).fb_width as int,
                    old(pipeline).fb_height as int,
                    self.planets@,
                    &self.sphere_mesh,
                    view,
                    projection,
                    self.planets@.len() as int,
                )
            }),
    {
        self.draw_body(&self.sun, fb, pipeline, view, projection);
        let ghost sun_c = fb.buffer@;
        let ghost sun_z = fb.zbuffer@;
        let n = self.planets.len();
        let mut i: usize = 0;
        while i < n
            invariant
                n == self.planets@.len(),
                self.wf(),
                fb.wf(),
                fb.same_dims(old(fb)),
                pipeline.fb_width == old(pipeline).fb_width,
                pipeline.fb_height == old(pipeline).fb_height,
                0 <= pipeline.fb_width <= 0x8000_0000,
                0 <= pipeline.fb_height <= 0x8000_0000,
                mat_bounded(view, 0x4000_0000_0000_0000),
                mat_bounded(projection, 0x4000_0000_0000_0000),
                i <= n,
                (fb.buffer@, fb.zbuffer@) == spec_render_planets(
                    sun_c,
                    sun_z,
                    old(fb).width as int,
                    old(fb).height as int,
                    old(pipeline).fb_width as int,
                    old(pipeline).fb_height as int,
                    self.planets@,
                    &self.sphere_mesh,
                    view,
                    projection,
                    i as int,
                ),
            decreases n - i,
        {
            let b = &self.planets[i];
            self.draw_body(b, fb, pipeline, view, projection);
            i = i + 1;
        }
    }

    /// Draws one body with the shared sphere mesh: sets the
    /// pipeline's color and matrix and rasterizes the mesh.
    fn draw_body(
        &self,
        body: &CelestialBody,
        fb: &mut Framebuffer,
        pipeline: &mut Pipeline,
        view: Mat4,
        projection: Mat4,
    )
        requires
            old(fb).wf(),
            body.wf(),
            self.sphere_mesh.verts_wf(),
            self.sphere_mesh.faces_wf(),
            0 <= old(pipeline).fb_width <= 0x8000_0000,
            0 <= old(pipeline).fb_height <= 0x8000_0000,
            mat_bounded(view, 0x4000_0000_0000_0000),
            mat_bounded(projection, 0x4000_0000_0000_0000),
        ensures
            final(fb).wf(),
            final(fb).same_dims(old(fb)),
            final(pipeline).fb_width == old(pipeline).fb_width,
            final(pipeline).fb_height == old(pipeline).fb_height,
            (final(fb).buffer@, final(fb).zbuffer@) == spec_draw_body(
                old(fb).buffer@,
                old(fb).zbuffer@,
                old(fb).width as int,
                old(fb).height as int,
                old(pipeline).fb_width as int,
                old(pipeline).fb_height as int,
                body,
                &self.sphere_mesh,
                view,
                projection,
            ),
            final(pipeline).mvp == spec_body_mvp(body, view, projection),
            final(pipeline).color == body.color,
    {
        let model = body.model_matrix();
        let mvp = create_mvp_matrix(model, view, projection);
        pipeline.set_color(body.color);
        pipeline.set_mvp(mvp);
        pipeline.draw_mesh(fb, &self.sphere_mesh.vertices, &self.sphere_mesh.faces);
    }
}

} // verus!
