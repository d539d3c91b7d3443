//! An orbiting body: orbital and spin state plus the model matrix
//! that places its mesh in the world.

use vstd::prelude::*;
use crate::fixed::{fxmul, fx_mul, lemma_fxmul_pow};
use crate::vector::Vec3;
use crate::matrix::{Mat4, mat_bounded};
use crate::trig::{spec_sin_fx, spec_cos_fx, sin_fx, cos_fx};
use crate::transforms::{create_transform_matrix, spec_transform_matrix};

verus! {

pub struct CelestialBody {
    pub name: String,
    pub radius: i64,
    pub orbit_radius: i64,
    pub orbit_speed: i64,
    pub rotation_speed: i64,
    pub orbit_angle: i64,
    pub self_rotation: i64,
    pub color: u32,
}

/// The body's world-space position on its orbit.
pub open spec fn spec_position(b: &CelestialBody) -> Vec3 {
    Vec3 {
        x: fxmul(b.orbit_radius as int, spec_cos_fx(b.orbit_angle as int)) as i64,
        y: 0i64,
        z: fxmul(b.orbit_radius as int, spec_sin_fx(b.orbit_angle as int)) as i64,
    }
}

impl CelestialBody {
    /// Scales, speeds and angles within the ranges the orbit math
    /// accepts.
    pub open spec fn wf(&self) -> bool {
        &&& 0 <= self.radius <= 0x100_0000
        &&& 0 <= self.orbit_radius <= 0x100_0000
        &&& -0x10_0000 <= self.orbit_speed <= 0x10_0000
        &&& -0x10_0000 <= self.rotation_speed <= 0x10_0000
        &&& -0x3000_0000 <= self.orbit_angle <= 0x3000_0000
        &&& -0x3000_0000 <= self.self_rotation <= 0x3000_0000
    }

    pub fn new(
        name: &str,
        radius: i64,
        orbit_radius: i64,
        orbit_speed: i64,
        rotation_speed: i64,
        color: u32,
    ) -> (r: CelestialBody)
        ensures
            r.name@ == name@,
            r.radius == radius,
            r.orbit_radius == orbit_radius,
            r.orbit_speed == orbit_speed,
            r.rotation_speed == rotation_speed,
            r.orbit_angle == 0i64,
            r.self_rotation == 0i64,
            r.color == color,
    {
        CelestialBody {
            name: name.to_owned(),
            radius,
            orbit_radius,
            orbit_speed,
            rotation_speed,
            orbit_angle: 0,
            self_rotation: 0,
            color,
        }
    }

    /// Advances the orbit and spin angles by one time step.
    pub fn update(&mut self, dt: i64)
        requires
            old(self).wf(),
            0 <= dt <= 65536,
            -0x2F00_0000 <= old(self).orbit_angle <= 0x2F00_0000,
            -0x2F00_0000 <= old(self).self_rotation <= 0x2F00_0000,
        ensures
            final(self).orbit_angle == old(self).orbit_angle + fxmul(
                old(self).orbit_speed as int,
                dt as int,
            ),
            final(self).self_rotation == old(self).self_rotation + fxmul(
                old(self).rotation_speed as int,
                dt as int,
            ),
            final(self).name == old(self).name,
            final(self).radius == old(self).radius,
            final(self).orbit_radius == old(self).orbit_radius,
            final(self).orbit_speed == old(self).orbit_speed,
            final(self).rotation_speed == old(self).rotation_speed,
            final(self).color == old(self).color,
            final(self).wf(),
    {
        proof {
            lemma_fxmul_pow(self.orbit_speed as int, dt as int, 0x10_0000, 65536, 0x10_0000);
            lemma_fxmul_pow(self.rotation_speed as int, dt as int, 0x10_0000, 65536, 0x10_0000);
        }
        self.orbit_angle = self.orbit_angle + fx_mul(self.orbit_speed, dt);
        self.self_rotation = self.self_rotation + fx_mul(self.rotation_speed, dt);
    }

    /// The body's current world-space position.
    pub fn position(&self) -> (r: Vec3)
        requires
            self.wf(),
        ensures
            r == spec_position(self),
            -0x400_0000 <= r.x <= 0x400_0000,
            r.y == 0i64,
            -0x400_0000 <= r.z <= 0x400_0000,
    {
        let c = cos_fx(self.orbit_angle);
        let s = sin_fx(self.orbit_angle);
        proof {
            lemma_fxmul_pow(self.orbit_radius as int, c as int, 0x100_0000, 0x40000, 0x400_0000);
            lemma_fxmul_pow(self.orbit_radius as int, s as int, 0x100_0000, 0x40000, 0x400_0000);
        }
        Vec3 { x: fx_mul(self.orbit_radius, c), y: 0, z: fx_mul(self.orbit_radius, s) }
    }

    /// The model matrix placing the unit sphere at the body's
    /// position with its spin and radius.
    pub fn model_matrix(&self) -> (r: Mat4)
        requires
            self.wf(),
        ensures
            r == spec_transform_matrix(
                spec_position(self),
                Vec3 { x: 0i64, y: self.self_rotation, z: 0i64 },
                Vec3 { x: self.radius, y: self.radius, z: self.radius },
            ),
            mat_bounded(r, 0x4000_0000_0000_0000),
    {
        let pos = self.position();
        let rot = Vec3 { x: 0, y: self.self_rotation, z: 0 };
        let scl = Vec3 { x: self.radius, y: self.radius, z: self.radius };
        create_transform_matrix(pos, rot, scl)
    }
}

} // verus!
