//! The camera warp effect: a timed, smoothstep-eased interpolation of
//! the camera position between two points.

use vstd::prelude::*;
use crate::fixed::{FX, fxmul, fxdiv, sclamp};
use crate::vector::Vec3;
use crate::transforms::{spec_smooth_step, smooth_step, clamp};

verus! {

pub struct WarpEffect {
    pub active: bool,
    pub start_pos: Vec3,
    pub end_pos: Vec3,
    pub time: i64,
    pub duration: i64,
}

impl WarpEffect {
    pub fn new() -> (r: WarpEffect)
        ensures
            r.active == false,
            r.start_pos == (Vec3 { x: 0i64, y: 0i64, z: 0i64 }),
            r.end_pos == (Vec3 { x: 0i64, y: 0i64, z: 0i64 }),
            r.time == 0i64,
            r.duration == 98304i64,
    {
        WarpEffect {
            active: false,
            start_pos: Vec3::zero(),
            end_pos: Vec3::zero(),
            time: 0,
            duration: 98304,
        }
    }

    /// Begins a warp from `from` to `to`.
    pub fn start(&mut self, from: Vec3, to: Vec3)
        ensures
            final(self).active == true,
            final(self).start_pos == from,
            final(self).end_pos == to,
            final(self).time == 0i64,
            final(self).duration == old(self).duration,
    {
        self.active = true;
        self.start_pos = from;
        self.end_pos = to;
        self.time = 0;
    }

    /// Advances the warp by `dt`, easing the camera between the two
    /// endpoints and deactivating once the duration has elapsed.  An
    /// inactive warp leaves everything unchanged.
    pub fn update(&mut self, dt: i64, camera_pos: &mut Vec3)
        requires
            old(self).start_pos.wf(),
            old(self).end_pos.wf(),
            0 <= dt <= 65536,
            0 <= old(self).time <= 0x1000_0000,
            1 <= old(self).duration <= 0x1000_0000,
        ensures
            final(self).start_pos == old(self).start_pos,
            final(self).end_pos == old(self).end_pos,
            final(self).duration == old(self).duration,
            !old(self).active ==> *final(self) == *old(self) && *final(camera_pos) == *old(camera_pos),
            old(self).active ==> ({
                let nt = old(self).time + dt;
                let t = sclamp(fxdiv(nt, old(self).duration as int), 65536);
                let tc = if t < 0 { 0int } else { t };
                let s = spec_smooth_step(tc);
                final(self).time == nt && final(self).active == (t < 65536) && final(camera_pos).x == old(self).start_pos.x + fxmul(
                    old(self).end_pos.x - old(self).start_pos.x,
                    s,
                ) && final(camera_pos).y == old(self).start_pos.y + fxmul(
                    old(self).end_pos.y - old(self).start_pos.y,
                    s,
                ) && final(camera_pos).z == old(self).start_pos.z + fxmul(
                    old(self).end_pos.z - old(self).start_pos.z,
                    s,
                )
            }),
    {
        if !self.active {
            return ;
        }
        self.time = self.time + dt;
        let raw = crate::fixed::fx_div(self.time, self.duration);
        let t = clamp(raw, 0, FX);
        proof {
            assert(t == ({
                let tt = sclamp(fxdiv((old(self).time + dt) as int, old(self).duration as int), 65536);
                if tt < 0 { 0int } else { tt }
            }));
        }
        let s = smooth_step(t);
        let moved = self.start_pos.lerp(&self.end_pos, s);
        *camera_pos = moved;
        if t >= FX {
            self.active = false;
        }
    }
}

} // verus!
