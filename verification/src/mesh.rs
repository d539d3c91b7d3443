//! Meshes: an ordered vertex list plus triangle index triples.
//!
//! Every index of every face must stay below the vertex count; that
//! is the caller's obligation, carried here as a well-formedness
//! predicate that the drawing pipeline requires.

use vstd::prelude::*;
use crate::fixed::{FX_LIM, fxmul, tdiv, fx_mul, lemma_mul_le};
use crate::vector::Vec3;

verus! {

#[derive(Clone)]
pub struct Mesh {
    pub vertices: Vec<Vec3>,
    pub faces: Vec<(usize, usize, usize)>,
}

/// The least `x` among the first `n` vertices.
pub open spec fn fold_min_x(s: Seq<Vec3>, n: int) -> int
    decreases n,
{
    if n <= 1 {
        s[0].x as int
    } else {
        let m = fold_min_x(s, n - 1);
        if s[n - 1].x < m {
            s[n - 1].x as int
        } else {
            m
        }
    }
}

/// The greatest `x` among the first `n` vertices.
pub open spec fn fold_max_x(s: Seq<Vec3>, n: int) -> int
    decreases n,
{
    if n <= 1 {
        s[0].x as int
    } else {
        let m = fold_max_x(s, n - 1);
        if s[n - 1].x > m {
            s[n - 1].x as int
        } else {
            m
        }
    }
}

/// The least `y` among the first `n` vertices.
pub open spec fn fold_min_y(s: Seq<Vec3>, n: int) -> int
    decreases n,
{
    if n <= 1 {
        s[0].y as int
    } else {
        let m = fold_min_y(s, n - 1);
        if s[n - 1].y < m {
            s[n - 1].y as int
        } else {
            m
        }
    }
}

/// The greatest `y` among the first `n` vertices.
pub open spec fn fold_max_y(s: Seq<Vec3>, n: int) -> int
    decreases n,
{
    if n <= 1 {
        s[0].y as int
    } else {
        let m = fold_max_y(s, n - 1);
        if s[n - 1].y > m {
            s[n - 1].y as int
        } else {
            m
        }
    }
}

/// The least `z` among the first `n` vertices.
pub open spec fn fold_min_z(s: Seq<Vec3>, n: int) -> int
    decreases n,
{
    if n <= 1 {
        s[0].z as int
    } else {
        let m = fold_min_z(s, n - 1);
        if s[n - 1].z < m {
            s[n - 1].z as int
        } else {
            m
        }
    }
}

/// The greatest `z` among the first `n` vertices.
pub open spec fn fold_max_z(s: Seq<Vec3>, n: int) -> int
    decreases n,
{
    if n <= 1 {
        s[0].z as int
    } else {
        let m = fold_max_z(s, n - 1);
        if s[n - 1].z > m {
            s[n - 1].z as int
        } else {
            m
        }
    }
}

/// The midpoint of a mesh's bounding box along `x`.
pub open spec fn center_x(s: Seq<Vec3>) -> int {
    tdiv(fold_min_x(s, s.len() as int) + fold_max_x(s, s.len() as int), 2)
}

/// The midpoint along `y`.
pub open spec fn center_y(s: Seq<Vec3>) -> int {
    tdiv(fold_min_y(s, s.len() as int) + fold_max_y(s, s.len() as int), 2)
}

/// The midpoint along `z`.
pub open spec fn center_z(s: Seq<Vec3>) -> int {
    tdiv(fold_min_z(s, s.len() as int) + fold_max_z(s, s.len() as int), 2)
}

impl Mesh {
    /// Every vertex within the working range.
    pub open spec fn verts_wf(&self) -> bool {
        forall|k: int| 0 <= k < self.vertices@.len() ==> (#[trigger] self.vertices@[k]).wf()
    }

    /// Every face index below the vertex count.
    pub open spec fn faces_wf(&self) -> bool {
        forall|k: int|
            0 <= k < self.faces@.len() ==> (#[trigger] self.faces@[k]).0 < self.vertices@.len()
                && self.faces@[k].1 < self.vertices@.len() && self.faces@[k].2
                < self.vertices@.len()
    }

    pub fn new(vertices: Vec<Vec3>, faces: Vec<(usize, usize, usize)>) -> (r: Mesh)
        ensures
            r.vertices == vertices,
            r.faces == faces,
    {
        Mesh { vertices, faces }
    }

    /// Scales every vertex by a fixed-point factor.
    pub fn scale(&mut self, factor: i64)
        requires
            old(self).verts_wf(),
            -FX_LIM <= factor <= FX_LIM,
        ensures
            final(self).faces == old(self).faces,
            final(self).vertices@.len() == old(self).vertices@.len(),
            forall|k: int|
                0 <= k < old(self).vertices@.len() ==> #[trigger] final(self).vertices@[k] == (Vec3 {
                    x: fxmul(old(self).vertices@[k].x as int, factor as int) as i64,
                    y: fxmul(old(self).vertices@[k].y as int, factor as int) as i64,
                    z: fxmul(old(self).vertices@[k].z as int, factor as int) as i64,
                }),
    {
        let n = self.vertices.len();
        let mut i: usize = 0;
        while i < n
            invariant
                n == self.vertices@.len(),
                n == old(self).vertices@.len(),
                self.faces == old(self).faces,
                -FX_LIM <= factor <= FX_LIM,
                i <= n,
                forall|k: int| i <= k < n ==> #[trigger] self.vertices@[k] == old(self).vertices@[k],
                forall|k: int| 0 <= k < n ==> (#[trigger] old(self).vertices@[k]).wf(),
                forall|k: int|
                    0 <= k < i ==> #[trigger] self.vertices@[k] == (Vec3 {
                        x: fxmul(old(self).vertices@[k].x as int, factor as int) as i64,
                        y: fxmul(old(self).vertices@[k].y as int, factor as int) as i64,
                        z: fxmul(old(self).vertices@[k].z as int, factor as int) as i64,
                    }),
            decreases n - i,
        {
            let v = self.vertices[i];
            proof {
                lemma_mul_le(v.x as int, factor as int, 0x8000_0000, 0x8000_0000);
                lemma_mul_le(v.y as int, factor as int, 0x8000_0000, 0x8000_0000);
                lemma_mul_le(v.z as int, factor as int, 0x8000_0000, 0x8000_0000);
            }
            let nv = Vec3 {
                x: fx_mul(v.x, factor),
                y: fx_mul(v.y, factor),
                z: fx_mul(v.z, factor),
            };
            self.vertices.set(i, nv);
            i = i + 1;
        }
    }

    /// Translates every vertex by `offset`.
    pub fn translate(&mut self, offset: Vec3)
        requires
            old(self).verts_wf(),
            offset.wf(),
        ensures
            final(self).faces == old(self).faces,
            final(self).vertices@.len() == old(self).vertices@.len(),
            forall|k: int|
                0 <= k < old(self).vertices@.len() ==> #[trigger] final(self).vertices@[k] == (Vec3 {
                    x: (old(self).vertices@[k].x + offset.x) as i64,
                    y: (old(self).vertices@[k].y + offset.y) as i64,
                    z: (old(self).vertices@[k].z + offset.z) as i64,
                }),
    {
        let n = self.vertices.len();
        let mut i: usize = 0;
        while i < n
            invariant
                n == self.vertices@.len(),
                n == old(self).vertices@.len(),
                self.faces == old(self).faces,
                offset.wf(),
                i <= n,
                forall|k: int| i <= k < n ==> #[trigger] self.vertices@[k] == old(self).vertices@[k],
                forall|k: int| 0 <= k < n ==> (#[trigger] old(self).vertices@[k]).wf(),
                forall|k: int|
                    0 <= k < i ==> #[trigger] self.vertices@[k] == (Vec3 {
                        x: (old(self).vertices@[k].x + offset.x) as i64,
                        y: (old(self).vertices@[k].y + offset.y) as i64,
                        z: (old(self).vertices@[k].z + offset.z) as i64,
                    }),
            decreases n - i,
        {
            let v = self.vertices[i];
            let nv = Vec3 { x: v.x + offset.x, y: v.y + offset.y, z: v.z + offset.z };
            self.vertices.set(i, nv);
            i = i + 1;
        }
    }

    /// Translates the mesh so the center of its bounding box moves to
    /// the origin.  An empty mesh is left unchanged.
    pub fn center(&mut self)
        requires
            old(self).verts_wf(),
        ensures
            final(self).faces == old(self).faces,
            final(self).vertices@.len() == old(self).vertices@.len(),
            old(self).vertices@.len() == 0 ==> final(self).vertices == old(self).vertices,
            old(self).vertices@.len() > 0 ==> forall|k: int|
                0 <= k < old(self).vertices@.len() ==> #[trigger] final(self).vertices@[k] == (Vec3 {
                    x: (old(self).vertices@[k].x - center_x(old(self).vertices@)) as i64,
                    y: (old(self).vertices@[k].y - center_y(old(self).vertices@)) as i64,
                    z: (old(self).vertices@[k].z - center_z(old(self).vertices@)) as i64,
                }),
    {
        let n = self.vertices.len();
        if n == 0 {
            return ;
        }
        let v0 = self.vertices[0];
        let mut min_x: i64 = v0.x;
        let mut max_x: i64 = v0.x;
        let mut min_y: i64 = v0.y;
        let mut max_y: i64 = v0.y;
        let mut min_z: i64 = v0.z;
        let mut max_z: i64 = v0.z;
        let mut i: usize = 1;
        while i < n
            invariant
                n == self.vertices@.len(),
                self.vertices == old(self).vertices,
                self.faces == old(self).faces,
                self.verts_wf(),
                1 <= i <= n,
                min_x == fold_min_x(self.vertices@, i as int),
                max_x == fold_max_x(self.vertices@, i as int),
                min_y == fold_min_y(self.vertices@, i as int),
                max_y == fold_max_y(self.vertices@, i as int),
                min_z == fold_min_z(self.vertices@, i as int),
                max_z == fold_max_z(self.vertices@, i as int),
                -FX_LIM <= min_x <= FX_LIM,
                -FX_LIM <= max_x <= FX_LIM,
                -FX_LIM <= min_y <= FX_LIM,
                -FX_LIM <= max_y <= FX_LIM,
                -FX_LIM <= min_z <= FX_LIM,
                -FX_LIM <= max_z <= FX_LIM,
            decreases n - i,
        {
            let v = self.vertices[i];
            if v.x < min_x {
                min_x = v.x;
            }
            if v.y < min_y {
                min_y = v.y;
            }
            if v.z < min_z {
                min_z = v.z;
            }
            if v.x > max_x {
                max_x = v.x;
            }
            if v.y > max_y {
                max_y = v.y;
            }
            if v.z > max_z {
                max_z = v.z;
            }
            i = i + 1;
        }
        let cx = (min_x + max_x) / 2;
        let cy = (min_y + max_y) / 2;
        let cz = (min_z + max_z) / 2;
        proof {
            assert(cx == center_x(self.vertices@));
            assert(cy == center_y(self.vertices@));
            assert(cz == center_z(self.vertices@));
        }
        let mut j: usize = 0;
        while j < n
            invariant
                n == self.vertices@.len(),
                n == old(self).vertices@.len(),
                n > 0,
                self.faces == old(self).faces,
                j <= n,
                cx == center_x(old(self).vertices@),
                cy == center_y(old(self).vertices@),
                cz == center_z(old(self).vertices@),
                -FX_LIM <= cx <= FX_LIM,
                -FX_LIM <= cy <= FX_LIM,
                -FX_LIM <= cz <= FX_LIM,
                forall|k: int| j <= k < n ==> #[trigger] self.vertices@[k] == old(self).vertices@[k],
                forall|k: int| 0 <= k < n ==> (#[trigger] old(self).vertices@[k]).wf(),
                forall|k: int|
                    0 <= k < j ==> #[trigger] self.vertices@[k] == (Vec3 {
                        x: (old(self).vertices@[k].x - cx) as i64,
                        y: (old(self).vertices@[k].y - cy) as i64,
                        z: (old(self).vertices@[k].z - cz) as i64,
                    }),
            decreases n - j,
        {
            let v = self.vertices[j];
            let nv = Vec3 { x: v.x - cx, y: v.y - cy, z: v.z - cz };
            self.vertices.set(j, nv);
            j = j + 1;
        }
    }
}

} // verus!
