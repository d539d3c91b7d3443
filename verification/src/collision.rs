//! Camera collision avoidance: pushes the camera out to a minimum
//! distance from each body it has come too close to.

use vstd::prelude::*;
use crate::fixed::{fxmul, fxdiv, fx_sqrt, fx_mul, lemma_fxmul_pow};
use crate::vector::{Vec3, spec_lsq, lemma_sq_bounds, lemma_unit_bound};
use crate::celestial_body::{CelestialBody, spec_position};
use crate::solar_system::SolarSystem;

verus! {

/// The camera position after one body's collision check: pushed out
/// to the minimum distance along the offset direction when it is too
/// close but not on top of the body.
pub open spec fn spec_resolve_body(b: &CelestialBody, pos: Vec3, margin: int) -> Vec3 {
    let center = spec_position(b);
    let off = Vec3 {
        x: (pos.x - center.x) as i64,
        y: (pos.y - center.y) as i64,
        z: (pos.z - center.z) as i64,
    };
    let min_dist = fxmul(b.radius as int, margin);
    let dist = fx_sqrt(65536 * spec_lsq(off));
    if dist < min_dist && dist > 6 {
        Vec3 {
            x: (center.x + fxmul(fxdiv(off.x as int, dist), min_dist)) as i64,
            y: (center.y + fxmul(fxdiv(off.y as int, dist), min_dist)) as i64,
            z: (center.z + fxmul(fxdiv(off.z as int, dist), min_dist)) as i64,
        }
    } else {
        pos
    }
}

/// Pushes the camera out of one body's collision margin.
fn handle_body(body: &CelestialBody, camera_pos: &mut Vec3, margin_factor: i64)
    requires
        body.wf(),
        -0x1400_0000 <= old(camera_pos).x <= 0x1400_0000,
        -0x1400_0000 <= old(camera_pos).y <= 0x1400_0000,
        -0x1400_0000 <= old(camera_pos).z <= 0x1400_0000,
        0 <= margin_factor <= 4 * 65536,
    ensures
        *final(camera_pos) == spec_resolve_body(body, *old(camera_pos), margin_factor as int),
        -0x1400_0000 <= final(camera_pos).x <= 0x1400_0000,
        -0x1400_0000 <= final(camera_pos).y <= 0x1400_0000,
        -0x1400_0000 <= final(camera_pos).z <= 0x1400_0000,
    {
    let center = body.position();
    proof {
        lemma_fxmul_pow(body.radius as int, margin_factor as int, 0x100_0000, 262144, 0x400_0000);
    }
    let min_dist = fx_mul(body.radius, margin_factor);
    let offset = camera_pos.sub(&center);
    let dist = offset.length();
    if dist < min_dist && dist > 6 {
        proof {
            lemma_sq_bounds(offset.x as int);
            lemma_sq_bounds(offset.y as int);
            lemma_sq_bounds(offset.z as int);
            crate::fixed::lemma_isqrt_exists(65536 * spec_lsq(offset));
            lemma_unit_bound(offset.x as int, spec_lsq(offset), dist as int);
            lemma_unit_bound(offset.y as int, spec_lsq(offset), dist as int);
            lemma_unit_bound(offset.z as int, spec_lsq(offset), dist as int);
        }
        let dir = offset.div(dist);
        proof {
            lemma_fxmul_pow(dir.x as int, min_dist as int, 196608, 0x400_0000, 0xC00_0000);
            lemma_fxmul_pow(dir.y as int, min_dist as int, 196608, 0x400_0000, 0xC00_0000);
            lemma_fxmul_pow(dir.z as int, min_dist as int, 196608, 0x400_0000, 0xC00_0000);
        }
        let step = dir.mul(min_dist);
        *camera_pos = center.add(&step);
    }
}

/// Resolves the camera against the sun and every planet in turn.
pub fn resolve_camera_collisions(system: &SolarSystem, camera_pos: &mut Vec3, margin_factor: i64)
    requires
        system.wf(),
        -0x1000_0000 <= old(camera_pos).x <= 0x1000_0000,
        -0x1000_0000 <= old(camera_pos).y <= 0x1000_0000,
        -0x1000_0000 <= old(camera_pos).z <= 0x1000_0000,
        0 <= margin_factor <= 4 * 65536,
    ensures
        -0x1400_0000 <= final(camera_pos).x <= 0x1400_0000,
        -0x1400_0000 <= final(camera_pos).y <= 0x1400_0000,
        -0x1400_0000 <= final(camera_pos).z <= 0x1400_0000,
        system.planets@.len() == 0 ==> *final(camera_pos) == spec_resolve_body(
            &system.sun,
            *old(camera_pos),
            margin_factor as int,
        ),
{
    handle_body(&system.sun, camera_pos, margin_factor);
    let n = system.planets.len();
    let mut i: usize = 0;
    while i < n
        invariant
            n == system.planets@.len(),
            system.wf(),
            i <= n,
            0 <= margin_factor <= 4 * 65536,
            -0x1400_0000 <= camera_pos.x <= 0x1400_0000,
            -0x1400_0000 <= camera_pos.y <= 0x1400_0000,
            -0x1400_0000 <= camera_pos.z <= 0x1400_0000,
            n == 0 ==> *camera_pos == spec_resolve_body(
                &system.sun,
                *old(camera_pos),
                margin_factor as int,
            ),
        decreases n - i,
    {
        let planet = &system.planets[i];
        proof {
            assert(system.planets@[i as int].wf());
        }
        handle_body(planet, camera_pos, margin_factor);
        i = i + 1;
    }
}

} // verus!
