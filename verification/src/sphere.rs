//! Procedural unit-sphere mesh generation: a latitude/longitude grid
//! of vertices joined into triangle pairs per grid cell.

use vstd::prelude::*;
use crate::fixed::{fxmul, tdiv, fx_mul, lemma_mul_le, lemma_tdiv_bound, lemma_tdiv_exact,
    lemma_fxmul_pow};
use crate::vector::Vec3;
use crate::mesh::Mesh;
use crate::trig::{PI_FX, TWO_PI_FX, spec_sin_fx, spec_cos_fx, sin_fx, cos_fx};
use vstd::arithmetic::div_mod::lemma_fundamental_div_mod_converse;

verus! {

/// The vertex at grid position `(i, j)` on the unit sphere:
/// spherical coordinates with latitude angle `i * pi / lat` and
/// longitude angle `j * 2 * pi / lon`.
pub open spec fn sphere_vertex(i: int, j: int, lat: int, lon: int) -> Vec3 {
    let theta = tdiv(i * 205887, lat);
    let phi = tdiv(j * 411775, lon);
    Vec3 {
        x: fxmul(spec_sin_fx(theta), spec_cos_fx(phi)) as i64,
        y: spec_cos_fx(theta) as i64,
        z: fxmul(spec_sin_fx(theta), spec_sin_fx(phi)) as i64,
    }
}

/// Builds a unit sphere with `lat_segments` latitude bands and
/// `lon_segments` longitude bands.
pub fn generate_sphere(lat_segments: usize, lon_segments: usize) -> (r: Mesh)
    requires
        1 <= lat_segments <= 4096,
        1 <= lon_segments <= 4096,
    ensures
        r.vertices@.len() == (lat_segments + 1) * (lon_segments + 1),
        r.faces@.len() == 2 * (lat_segments * lon_segments),
        r.verts_wf(),
        r.faces_wf(),
        forall|k: int|
            0 <= k < r.vertices@.len() ==> #[trigger] r.vertices@[k] == sphere_vertex(
                k / (lon_segments + 1),
                k % (lon_segments + 1),
                lat_segments as int,
                lon_segments as int,
            ),
{
    let lat = lat_segments as i64;
    let lon = lon_segments as i64;
    let ghost cols = lon_segments + 1;
    let mut vertices: Vec<Vec3> = Vec::new();
    let mut i: usize = 0;
    while i <= lat_segments
        invariant
            1 <= lat_segments <= 4096,
            1 <= lon_segments <= 4096,
            lat == lat_segments,
            lon == lon_segments,
            cols == lon_segments + 1,
            i <= lat_segments + 1,
            vertices@.len() == i * cols,
            forall|k: int|
                0 <= k < vertices@.len() ==> #[trigger] vertices@[k] == sphere_vertex(
                    k / (lon_segments + 1),
                    k % (lon_segments + 1),
                    lat_segments as int,
                    lon_segments as int,
                ),
            forall|k: int| 0 <= k < vertices@.len() ==> (#[trigger] vertices@[k]).wf(),
        decreases lat_segments + 1 - i,
    {
        let theta: i64 = (i as i64) * PI_FX / lat;
        proof {
            lemma_mul_le(i as int, 205887, 4097, 205887);
            // The latitude angle never passes one half turn.
            lemma_tdiv_bound(i as int * 205887, lat as int, lat as int * 205887);
            lemma_tdiv_exact(205887, lat as int);
        }
        let sin_theta = sin_fx(theta);
        let cos_theta = cos_fx(theta);
        let mut j: usize = 0;
        while j <= lon_segments
            invariant
                1 <= lat_segments <= 4096,
                1 <= lon_segments <= 4096,
                lat == lat_segments,
                lon == lon_segments,
                cols == lon_segments + 1,
                i <= lat_segments,
                j <= lon_segments + 1,
                theta == tdiv(i as int * 205887, lat_segments as int),
                -0x4000_0000 <= theta <= 0x4000_0000,
                sin_theta == spec_sin_fx(theta as int),
                cos_theta == spec_cos_fx(theta as int),
                -0x28000 <= sin_theta <= 0x28000,
                -0x2B000 <= cos_theta <= 0x2B000,
                vertices@.len() == i * cols + j,
                forall|k: int|
                    0 <= k < vertices@.len() ==> #[trigger] vertices@[k] == sphere_vertex(
                        k / (lon_segments + 1),
                        k % (lon_segments + 1),
                        lat_segments as int,
                        lon_segments as int,
                    ),
                forall|k: int| 0 <= k < vertices@.len() ==> (#[trigger] vertices@[k]).wf(),
            decreases lon_segments + 1 - j,
        {
            let phi: i64 = (j as i64) * TWO_PI_FX / lon;
            proof {
                lemma_mul_le(j as int, 411775, 4097, 411775);
                // The longitude angle never passes one full turn.
                lemma_tdiv_bound(j as int * 411775, lon as int, lon as int * 411775);
                lemma_tdiv_exact(411775, lon as int);
            }
            let sin_phi = sin_fx(phi);
            let cos_phi = cos_fx(phi);
            proof {
                lemma_fxmul_pow(sin_theta as int, cos_phi as int, 163840, 176128, 440320);
                lemma_fxmul_pow(sin_theta as int, sin_phi as int, 163840, 163840, 409600);
            }
            let v = Vec3 {
                x: fx_mul(sin_theta, cos_phi),
                y: cos_theta,
                z: fx_mul(sin_theta, sin_phi),
            };
            proof {
                let k = vertices@.len() as int;
                lemma_fundamental_div_mod_converse(k, cols as int, i as int, j as int);
                assert(v == sphere_vertex(i as int, j as int, lat_segments as int, lon_segments as int));
            }
            vertices.push(v);
            j = j + 1;
        }
        proof {
            assert(i as int * cols + (lon_segments + 1) == (i as int + 1) * cols)
                by (nonlinear_arith)
                requires
                    cols == lon_segments + 1,
            ;
        }
        i = i + 1;
    }
    proof {
        assert(vertices@.len() == (lat_segments + 1) * cols);
    }
    let mut faces: Vec<(usize, usize, usize)> = Vec::new();
    let mut fi: usize = 0;
    while fi < lat_segments
        invariant
            1 <= lat_segments <= 4096,
            1 <= lon_segments <= 4096,
            cols == lon_segments + 1,
            fi <= lat_segments,
            vertices@.len() == (lat_segments + 1) * cols,
            faces@.len() == 2 * (fi * lon_segments),
            forall|k: int|
                0 <= k < faces@.len() ==> (#[trigger] faces@[k]).0 < vertices@.len() && faces@[
                    k].1 < vertices@.len() && faces@[k].2 < vertices@.len(),
            forall|k: int|
                0 <= k < vertices@.len() ==> #[trigger] vertices@[k] == sphere_vertex(
                    k / (lon_segments + 1),
                    k % (lon_segments + 1),
                    lat_segments as int,
                    lon_segments as int,
                ),
            forall|k: int| 0 <= k < vertices@.len() ==> (#[trigger] vertices@[k]).wf(),
        decreases lat_segments - fi,
    {
        let mut fj: usize = 0;
        while fj < lon_segments
            invariant
                1 <= lat_segments <= 4096,
                1 <= lon_segments <= 4096,
                cols == lon_segments + 1,
                fi < lat_segments,
                fj <= lon_segments,
                vertices@.len() == (lat_segments + 1) * cols,
                faces@.len() == 2 * (fi * lon_segments) + 2 * fj,
                forall|k: int|
                    0 <= k < faces@.len() ==> (#[trigger] faces@[k]).0 < vertices@.len() && faces@[
                        k].1 < vertices@.len() && faces@[k].2 < vertices@.len(),
                forall|k: int|
                    0 <= k < vertices@.len() ==> #[trigger] vertices@[k] == sphere_vertex(
                        k / (lon_segments + 1),
                        k % (lon_segments + 1),
                        lat_segments as int,
                        lon_segments as int,
                    ),
                forall|k: int| 0 <= k < vertices@.len() ==> (#[trigger] vertices@[k]).wf(),
            decreases lon_segments - fj,
        {
            proof {
                lemma_mul_le(fi as int, cols as int, 4096, 4097);
                assert(fi as int * cols + fj + cols + 1 < (lat_segments + 1) * cols)
                    by (nonlinear_arith)
                    requires
                        cols == lon_segments + 1,
                        0 <= fi < lat_segments,
                        0 <= fj < lon_segments,
                        1 <= lon_segments,
                ;
            }
            let first: usize = fi * (lon_segments + 1) + fj;
            let second: usize = first + lon_segments + 1;
            faces.push((first, second, first + 1));
            faces.push((second, second + 1, first + 1));
            fj = fj + 1;
        }
        proof {
            assert(2 * ((fi as int) * lon_segments) + 2 * lon_segments == 2 * ((fi as int + 1)
                * lon_segments)) by (nonlinear_arith);
        }
        fi = fi + 1;
    }
    Mesh { vertices, faces }
}

} // verus!
