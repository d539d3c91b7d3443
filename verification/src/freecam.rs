//! A free-flying camera: a position plus yaw and pitch angles, with
//! the derived basis vectors and view matrix.

use vstd::prelude::*;
use crate::fixed::{FX, fxmul, fx_mul, lemma_fxmul_pow, lemma_mul_le};
use crate::vector::{Vec3, v3, spec_normalize, spec_cross};
use crate::matrix::{Mat4, mat_bounded, look_at_e, tup3};
use crate::trig::{spec_sin_fx, spec_cos_fx, sin_fx, cos_fx};

verus! {

pub struct FreeCamera {
    pub position: Vec3,
    pub yaw: i64,
    pub pitch: i64,
    pub speed: i64,
    pub mouse_sensitivity: i64,
}

/// The unnormalized forward direction for the given yaw and pitch.
pub open spec fn spec_forward_raw(yaw: int, pitch: int) -> Vec3 {
    Vec3 {
        x: fxmul(spec_sin_fx(yaw), spec_cos_fx(pitch)) as i64,
        y: (-spec_sin_fx(pitch)) as i64,
        z: fxmul(spec_cos_fx(yaw), spec_cos_fx(pitch)) as i64,
    }
}

/// The unnormalized rightward direction for the given yaw.
pub open spec fn spec_right_raw(yaw: int) -> Vec3 {
    Vec3 { x: spec_cos_fx(yaw) as i64, y: 0i64, z: (-spec_sin_fx(yaw)) as i64 }
}

impl FreeCamera {
    /// Angles small enough for the trigonometric routines.
    pub open spec fn angles_ok(&self) -> bool {
        &&& -0x3000_0000 <= self.yaw <= 0x3000_0000
        &&& -0x3000_0000 <= self.pitch <= 0x3000_0000
    }

    pub fn new(position: Vec3) -> (r: FreeCamera)
        ensures
            r.position == position,
            r.yaw == 0i64,
            r.pitch == 0i64,
            r.speed == 12 * 65536,
            r.mouse_sensitivity == 131i64,
    {
        FreeCamera { position, yaw: 0, pitch: 0, speed: 12 * FX, mouse_sensitivity: 131 }
    }

    /// The unit forward direction of the camera.
    pub fn forward(&self) -> (r: Vec3)
        requires
            self.angles_ok(),
        ensures
            v3(r) == spec_normalize(spec_forward_raw(self.yaw as int, self.pitch as int)),
            -3 * FX <= r.x <= 3 * FX,
            -3 * FX <= r.y <= 3 * FX,
            -3 * FX <= r.z <= 3 * FX,
    {
        let sy = sin_fx(self.yaw);
        let cy = cos_fx(self.yaw);
        let sp = sin_fx(self.pitch);
        let cp = cos_fx(self.pitch);
        proof {
            lemma_fxmul_pow(sy as int, cp as int, 163840, 176128, 440320);
            lemma_fxmul_pow(cy as int, cp as int, 176128, 176128, 473344);
        }
        let raw = Vec3 { x: fx_mul(sy, cp), y: -sp, z: fx_mul(cy, cp) };
        raw.normalize()
    }

    /// The unit rightward direction of the camera.
    pub fn right(&self) -> (r: Vec3)
        requires
            self.angles_ok(),
        ensures
            v3(r) == spec_normalize(spec_right_raw(self.yaw as int)),
            -3 * FX <= r.x <= 3 * FX,
            -3 * FX <= r.y <= 3 * FX,
            -3 * FX <= r.z <= 3 * FX,
    {
        let sy = sin_fx(self.yaw);
        let cy = cos_fx(self.yaw);
        let raw = Vec3 { x: cy, y: 0, z: -sy };
        raw.normalize()
    }

    /// The unit upward direction: right cross forward, normalized.
    pub fn up(&self) -> (r: Vec3)
        requires
            self.angles_ok(),
        ensures
            v3(r) == spec_normalize(
                tup3(
                    spec_cross(
                        tup3(spec_normalize(spec_right_raw(self.yaw as int))),
                        tup3(
                            spec_normalize(
                                spec_forward_raw(self.yaw as int, self.pitch as int),
                            ),
                        ),
                    ),
                ),
            ),
            -3 * FX <= r.x <= 3 * FX,
            -3 * FX <= r.y <= 3 * FX,
            -3 * FX <= r.z <= 3 * FX,
    {
        let rt = self.right();
        let fw = self.forward();
        proof {
            lemma_fxmul_pow(rt.y as int, fw.z as int, 196608, 196608, 589824);
            lemma_fxmul_pow(rt.z as int, fw.y as int, 196608, 196608, 589824);
            lemma_fxmul_pow(rt.z as int, fw.x as int, 196608, 196608, 589824);
            lemma_fxmul_pow(rt.x as int, fw.z as int, 196608, 196608, 589824);
            lemma_fxmul_pow(rt.x as int, fw.y as int, 196608, 196608, 589824);
            lemma_fxmul_pow(rt.y as int, fw.x as int, 196608, 196608, 589824);
        }
        let cr = rt.cross(&fw);
        cr.normalize()
    }

    /// Moves along the forward direction by `amount`.
    pub fn move_forward(&mut self, amount: i64)
        requires
            old(self).angles_ok(),
            -0x4000_0000 <= old(self).position.x <= 0x4000_0000,
            -0x4000_0000 <= old(self).position.y <= 0x4000_0000,
            -0x4000_0000 <= old(self).position.z <= 0x4000_0000,
            -0x4000_0000 <= amount <= 0x4000_0000,
        ensures
            ({
                let f = spec_normalize(spec_forward_raw(old(self).yaw as int, old(self).pitch as int));
                final(self).position.x == old(self).position.x + fxmul(f.0, amount as int)
                && final(self).position.y == old(self).position.y + fxmul(f.1, amount as int)
                && final(self).position.z == old(self).position.z + fxmul(f.2, amount as int)
            }),
            final(self).yaw == old(self).yaw,
            final(self).pitch == old(self).pitch,
            final(self).speed == old(self).speed,
            final(self).mouse_sensitivity == old(self).mouse_sensitivity,
    {
        let f = self.forward();
        proof {
            lemma_mul_le(f.x as int, amount as int, 196608, 0x4000_0000);
            lemma_mul_le(f.y as int, amount as int, 196608, 0x4000_0000);
            lemma_mul_le(f.z as int, amount as int, 196608, 0x4000_0000);
        }
        let step = f.mul(amount);
        self.position = self.position.add(&step);
    }

    /// Moves against the forward direction by `amount`.
    pub fn move_backward(&mut self, amount: i64)
        requires
            old(self).angles_ok(),
            -0x4000_0000 <= old(self).position.x <= 0x4000_0000,
            -0x4000_0000 <= old(self).position.y <= 0x4000_0000,
            -0x4000_0000 <= old(self).position.z <= 0x4000_0000,
            -0x4000_0000 <= amount <= 0x4000_0000,
        ensures
            ({
                let f = spec_normalize(spec_forward_raw(old(self).yaw as int, old(self).pitch as int));
                final(self).position.x == old(self).position.x - fxmul(f.0, amount as int)
                && final(self).position.y == old(self).position.y - fxmul(f.1, amount as int)
                && final(self).position.z == old(self).position.z - fxmul(f.2, amount as int)
            }),
            final(self).yaw == old(self).yaw,
            final(self).pitch == old(self).pitch,
            final(self).speed == old(self).speed,
            final(self).mouse_sensitivity == old(self).mouse_sensitivity,
    {
        let f = self.forward();
        proof {
            lemma_mul_le(f.x as int, amount as int, 196608, 0x4000_0000);
            lemma_mul_le(f.y as int, amount as int, 196608, 0x4000_0000);
            lemma_mul_le(f.z as int, amount as int, 196608, 0x4000_0000);
        }
        let step = f.mul(amount);
        self.position = self.position.sub(&step);
    }

    /// Moves against the rightward direction by `amount`.
    pub fn move_left(&mut self, amount: i64)
        requires
            old(self).angles_ok(),
            -0x4000_0000 <= old(self).position.x <= 0x4000_0000,
            -0x4000_0000 <= old(self).position.y <= 0x4000_0000,
            -0x4000_0000 <= old(self).position.z <= 0x4000_0000,
            -0x4000_0000 <= amount <= 0x4000_0000,
        ensures
            ({
                let f = spec_normalize(spec_right_raw(old(self).yaw as int));
                final(self).position.x == old(self).position.x - fxmul(f.0, amount as int)
                && final(self).position.y == old(self).position.y - fxmul(f.1, amount as int)
                && final(self).position.z == old(self).position.z - fxmul(f.2, amount as int)
            }),
            final(self).yaw == old(self).yaw,
            final(self).pitch == old(self).pitch,
            final(self).speed == old(self).speed,
            final(self).mouse_sensitivity == old(self).mouse_sensitivity,
    {
        let r = self.right();
        proof {
            lemma_mul_le(r.x as int, amount as int, 196608, 0x4000_0000);
            lemma_mul_le(r.y as int, amount as int, 196608, 0x4000_0000);
            lemma_mul_le(r.z as int, amount as int, 196608, 0x4000_0000);
        }
        let step = r.mul(amount);
        self.position = self.position.sub(&step);
    }

    /// Moves along the rightward direction by `amount`.
    pub fn move_right(&mut self, amount: i64)
        requires
            old(self).angles_ok(),
            -0x4000_0000 <= old(self).position.x <= 0x4000_0000,
            -0x4000_0000 <= old(self).position.y <= 0x4000_0000,
            -0x4000_0000 <= old(self).position.z <= 0x4000_0000,
            -0x4000_0000 <= amount <= 0x4000_0000,
        ensures
            ({
                let f = spec_normalize(spec_right_raw(old(self).yaw as int));
                final(self).position.x == old(self).position.x + fxmul(f.0, amount as int)
                && final(self).position.y == old(self).position.y + fxmul(f.1, amount as int)
                && final(self).position.z == old(self).position.z + fxmul(f.2, amount as int)
            }),
            final(self).yaw == old(self).yaw,
            final(self).pitch == old(self).pitch,
            final(self).speed == old(self).speed,
            final(self).mouse_sensitivity == old(self).mouse_sensitivity,
    {
        let r = self.right();
        proof {
            lemma_mul_le(r.x as int, amount as int, 196608, 0x4000_0000);
            lemma_mul_le(r.y as int, amount as int, 196608, 0x4000_0000);
            lemma_mul_le(r.z as int, amount as int, 196608, 0x4000_0000);
        }
        let step = r.mul(amount);
        self.position = self.position.add(&step);
    }

    /// Moves straight up by `amount`.
    pub fn move_up(&mut self, amount: i64)
        requires
            -0x4000_0000_0000_0000 <= old(self).position.y + amount <= 0x4000_0000_0000_0000,
        ensures
            final(self).position.y == old(self).position.y + amount,
            final(self).position.x == old(self).position.x,
            final(self).position.z == old(self).position.z,
            final(self).yaw == old(self).yaw,
            final(self).pitch == old(self).pitch,
            final(self).speed == old(self).speed,
            final(self).mouse_sensitivity == old(self).mouse_sensitivity,
    {
        self.position.y = self.position.y + amount;
    }

    /// Moves straight down by `amount`.
    pub fn move_down(&mut self, amount: i64)
        requires
            -0x4000_0000_0000_0000 <= old(self).position.y - amount <= 0x4000_0000_0000_0000,
        ensures
            final(self).position.y == old(self).position.y - amount,
            final(self).position.x == old(self).position.x,
            final(self).position.z == old(self).position.z,
            final(self).yaw == old(self).yaw,
            final(self).pitch == old(self).pitch,
            final(self).speed == old(self).speed,
            final(self).mouse_sensitivity == old(self).mouse_sensitivity,
    {
        self.position.y = self.position.y - amount;
    }

    /// The view matrix looking from the camera's position along its
    /// forward direction.
    pub fn view_matrix(&self) -> (r: Mat4)
        requires
            self.angles_ok(),
            -0x100_0000 <= self.position.x <= 0x100_0000,
            -0x100_0000 <= self.position.y <= 0x100_0000,
            -0x100_0000 <= self.position.z <= 0x100_0000,
        ensures
            ({
                let f = spec_normalize(spec_forward_raw(self.yaw as int, self.pitch as int));
                let target = Vec3 {
                    x: (self.position.x + f.0) as i64,
                    y: (self.position.y + f.1) as i64,
                    z: (self.position.z + f.2) as i64,
                };
                forall|i: int, j: int|
                    0 <= i < 4 && 0 <= j < 4 ==> #[trigger] r.m[i][j] == look_at_e(
                        self.position,
                        target,
                        Vec3 { x: 0i64, y: 65536i64, z: 0i64 },
                        i,
                        j,
                    )
            }),
            mat_bounded(r, 0x4000_0000),
    {
        let f = self.forward();
        let target = self.position.add(&f);
        Mat4::look_at(self.position, target, Vec3::unit_y())
    }
}

} // verus!
