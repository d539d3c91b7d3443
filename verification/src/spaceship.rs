//! The player's ship: a mesh that follows the camera, hovering a
//! short distance ahead of it.

use vstd::prelude::*;
use crate::fixed::{FX_LIM, fxmul, lemma_mul_le};
use crate::vector::{Vec3, spec_normalize};
use crate::matrix::{Mat4, mat_bounded, spec_mat_mul, spec_translation, spec_rotation_x,
    spec_rotation_y, spec_scale};
use crate::mesh::Mesh;
use crate::freecam::{FreeCamera, spec_forward_raw};
use crate::framebuffer::Framebuffer;
use crate::pipeline::{Pipeline, spec_draw_mesh};
use crate::transforms::{create_transform_matrix, create_mvp_matrix, spec_transform_matrix};

verus! {

/// The position of a ship hovering `distance` ahead of the camera,
/// lowered by `height_offset`.
pub open spec fn spec_ship_pos(camera: &FreeCamera, distance: int, height_offset: int) -> Vec3 {
    let f = spec_normalize(spec_forward_raw(camera.yaw as int, camera.pitch as int));
    Vec3 {
        x: (camera.position.x + fxmul(f.0, distance)) as i64,
        y: (camera.position.y + fxmul(f.1, distance) + height_offset) as i64,
        z: (camera.position.z + fxmul(f.2, distance)) as i64,
    }
}

/// The model-view-projection matrix of the hovering ship: its model
/// matrix turns the mesh a quarter turn so its nose leads, then
/// follows the camera's yaw and pitch.
pub open spec fn spec_ship_mvp(
    camera: &FreeCamera,
    distance: int,
    height_offset: int,
    scale: int,
    view: Mat4,
    projection: Mat4,
) -> Mat4 {
    let pos = spec_ship_pos(camera, distance, height_offset);
    let rot = Vec3 {
        x: camera.pitch,
        y: (camera.yaw - 102944) as i64,
        z: 0i64,
    };
    spec_mat_mul(
        spec_mat_mul(projection, view),
        spec_transform_matrix(pos, rot, Vec3 { x: scale as i64, y: scale as i64, z: scale as i64 }),
    )
}

/// Draws the ship mesh hovering ahead of the camera, turned to face
/// the camera's heading, in flat white.
#[verifier::rlimit(100)]
pub fn render_ship(
    fb: &mut Framebuffer,
    pipeline: &mut Pipeline,
    camera: &FreeCamera,
    ship_mesh: &Mesh,
    distance: i64,
    height_offset: i64,
    scale: i64,
    view: Mat4,
    projection: Mat4,
)
    requires
        old(fb).wf(),
        -0x2000_0000 <= camera.yaw <= 0x2000_0000,
        -0x2000_0000 <= camera.pitch <= 0x2000_0000,
        -0x2000_0000 <= camera.position.x <= 0x2000_0000,
        -0x2000_0000 <= camera.position.y <= 0x2000_0000,
        -0x2000_0000 <= camera.position.z <= 0x2000_0000,
        0 <= distance <= 0x800_0000,
        -0x2000_0000 <= height_offset <= 0x2000_0000,
        -FX_LIM <= scale <= FX_LIM,
        ship_mesh.verts_wf(),
        ship_mesh.faces_wf(),
        0 <= old(pipeline).fb_width <= 0x8000_0000,
        0 <= old(pipeline).fb_height <= 0x8000_0000,
        mat_bounded(view, 0x4000_0000_0000_0000),
        mat_bounded(projection, 0x4000_0000_0000_0000),
    ensures
        final(fb).wf(),
        final(fb).same_dims(old(fb)),
        final(pipeline).fb_width == old(pipeline).fb_width,
        final(pipeline).fb_height == old(pipeline).fb_height,
        final(pipeline).mvp == spec_ship_mvp(
            camera,
            distance as int,
            height_offset as int,
            scale as int,
            view,
            projection,
        ),
        final(pipeline).color == 0xFFFFFFFFu32,
        (final(fb).buffer@, final(fb).zbuffer@) == spec_draw_mesh(
            old(fb).buffer@,
            old(fb).zbuffer@,
            old(fb).width as int,
            old(fb).height as int,
            spec_ship_mvp(camera, distance as int, height_offset as int, scale as int, view, projection),
            old(pipeline).fb_width as int,
            old(pipeline).fb_height as int,
            0xFFFFFFFFu32,
            ship_mesh.vertices@,
            ship_mesh.faces@,
            ship_mesh.faces@.len() as int,
        ),
{
    let forward = camera.forward();
    proof {
        crate::fixed::lemma_fxmul_pow(forward.x as int, distance as int, 196608, 0x800_0000, 0x1800_0000);
        crate::fixed::lemma_fxmul_pow(forward.y as int, distance as int, 196608, 0x800_0000, 0x1800_0000);
        crate::fixed::lemma_fxmul_pow(forward.z as int, distance as int, 196608, 0x800_0000, 0x1800_0000);
    }
    let step = forward.mul(distance);
    let ship_pos = Vec3 {
        x: camera.position.x + step.x,
        y: camera.position.y + step.y + height_offset,
        z: camera.position.z + step.z,
    };
    let yaw = camera.yaw - crate::trig::HALF_PI_FX;
    let ship_rot = Vec3 { x: camera.pitch, y: yaw, z: 0 };
    let ship_scale = Vec3 { x: scale, y: scale, z: scale };
    let model = create_transform_matrix(ship_pos, ship_rot, ship_scale);
    let mvp = create_mvp_matrix(model, view, projection);
    pipeline.set_mvp(mvp);
    pipeline.set_color(0xFFFFFFFF);
    pipeline.draw_mesh(fb, &ship_mesh.vertices, &ship_mesh.faces);
}

pub struct SpaceShip {
    pub position: Vec3,
    pub yaw: i64,
    pub pitch: i64,
    pub scale: i64,
    pub mesh: Mesh,
}

impl SpaceShip {
    pub fn new(mesh: Mesh) -> (r: SpaceShip)
        ensures
            r.position == (Vec3 { x: 0i64, y: 0i64, z: 0i64 }),
            r.yaw == 0i64,
            r.pitch == 0i64,
            r.scale == 26214i64,
            r.mesh == mesh,
    {
        SpaceShip { position: Vec3::new(0, 0, 0), yaw: 0, pitch: 0, scale: 26214, mesh }
    }

    /// Follows the camera: copies its orientation and hovers two and
    /// a half units ahead of it.
    pub fn update_from_camera(&mut self, camera: &FreeCamera)
        requires
            camera.angles_ok(),
            -0x4000_0000 <= camera.position.x <= 0x4000_0000,
            -0x4000_0000 <= camera.position.y <= 0x4000_0000,
            -0x4000_0000 <= camera.position.z <= 0x4000_0000,
        ensures
            final(self).yaw == camera.yaw,
            final(self).pitch == camera.pitch,
            final(self).scale == old(self).scale,
            final(self).mesh == old(self).mesh,
            ({
                let f = spec_normalize(spec_forward_raw(camera.yaw as int, camera.pitch as int));
                final(self).position.x == camera.position.x + fxmul(f.0, 163840)
                && final(self).position.y == camera.position.y + fxmul(f.1, 163840)
                && final(self).position.z == camera.position.z + fxmul(f.2, 163840)
            }),
    {
        self.yaw = camera.yaw;
        self.pitch = camera.pitch;
        let f = camera.forward();
        proof {
            lemma_mul_le(f.x as int, 163840, 196608, 163840);
            lemma_mul_le(f.y as int, 163840, 196608, 163840);
            lemma_mul_le(f.z as int, 163840, 196608, 163840);
        }
        let step = f.mul(163840);
        self.position = camera.position.add(&step);
    }

    /// The ship's model matrix: translation, yaw, pitch, then scale.
    pub fn model_matrix(&self) -> (r: Mat4)
        requires
            -FX_LIM <= self.position.x <= FX_LIM,
            -FX_LIM <= self.position.y <= FX_LIM,
            -FX_LIM <= self.position.z <= FX_LIM,
            -0x3000_0000 <= self.yaw <= 0x3000_0000,
            -0x3000_0000 <= self.pitch <= 0x3000_0000,
            -FX_LIM <= self.scale <= FX_LIM,
        ensures
            r == spec_mat_mul(
                spec_mat_mul(
                    spec_mat_mul(
                        spec_translation(
                            self.position.x as int,
                            self.position.y as int,
                            self.position.z as int,
                        ),
                        spec_rotation_y(self.yaw as int),
                    ),
                    spec_rotation_x(self.pitch as int),
                ),
                spec_scale(self.scale as int, self.scale as int, self.scale as int),
            ),
            mat_bounded(r, 0x4000_0000_0000_0000),
    {
        let t = Mat4::translation(self.position.x, self.position.y, self.position.z);
        let ry = Mat4::rotation_y(self.yaw);
        let rx = Mat4::rotation_x(self.pitch);
        let s = Mat4::scale(self.scale, self.scale, self.scale);
        t.mul(&ry).mul(&rx).mul(&s)
    }
}

} // verus!
