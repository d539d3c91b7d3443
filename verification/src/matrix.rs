//! 4x4 fixed-point matrices for affine and projective transforms.
//!
//! Entries are 16.16 fixed-point scalars, row-major: `m[row][col]`.
//! Matrix products accumulate each row-column sum exactly in wide
//! arithmetic and truncate once by the scale, so an entry of `a.mul(b)`
//! is `tdiv(sum_k a[i][k] * b[k][j], FX)`.

use vstd::prelude::*;
use crate::fixed::{FX, FX_LIM, DIV_CLAMP, fxmul, fxdiv, tdiv, sclamp, fx_mul, fx_div,
    lemma_mul_le, lemma_tdiv_abs, lemma_fxmul_pow};
use crate::vector::{Vec3, Vec4, v3, v4, spec_dot, spec_cross, spec_normalize};
use crate::trig::{spec_sin_fx, spec_cos_fx, sin_fx, cos_fx};

verus! {

#[derive(Clone, Copy, Debug)]
pub struct Mat4 {
    pub m: [[i64; 4]; 4],
}

/// Every entry of `m` lies within `[-l, l]`.
pub open spec fn mat_bounded(a: Mat4, l: int) -> bool {
    forall|i: int, j: int| 0 <= i < 4 && 0 <= j < 4 ==> -l <= #[trigger] a.m[i][j] <= l
}

/// The exact row-column sum behind entry `(i, j)` of a product.
pub open spec fn mm_sum(a: Mat4, b: Mat4, i: int, j: int) -> int {
    a.m[i][0] * b.m[0][j] + a.m[i][1] * b.m[1][j] + a.m[i][2] * b.m[2][j] + a.m[i][3] * b.m[3][j]
}

/// Entry `(i, j)` of the product `a * b`: the exact row-column sum,
/// truncated once by the scale and clamped to the representable range
/// `[-MAT_LIM, MAT_LIM]`.  The clamp is a pure range guard; an entry
/// that large is far beyond any meaningful transform.
pub open spec fn mm_e(a: Mat4, b: Mat4, i: int, j: int) -> int {
    sclamp(tdiv(mm_sum(a, b, i, j), 65536), 0x4000_0000_0000_0000)
}

/// The product `a * b` as a matrix value.
pub open spec fn spec_mat_mul(a: Mat4, b: Mat4) -> Mat4 {
    Mat4 {
        m: [
            [
                mm_e(a, b, 0, 0) as i64,
                mm_e(a, b, 0, 1) as i64,
                mm_e(a, b, 0, 2) as i64,
                mm_e(a, b, 0, 3) as i64,
            ],
            [
                mm_e(a, b, 1, 0) as i64,
                mm_e(a, b, 1, 1) as i64,
                mm_e(a, b, 1, 2) as i64,
                mm_e(a, b, 1, 3) as i64,
            ],
            [
                mm_e(a, b, 2, 0) as i64,
                mm_e(a, b, 2, 1) as i64,
                mm_e(a, b, 2, 2) as i64,
                mm_e(a, b, 2, 3) as i64,
            ],
            [
                mm_e(a, b, 3, 0) as i64,
                mm_e(a, b, 3, 1) as i64,
                mm_e(a, b, 3, 2) as i64,
                mm_e(a, b, 3, 3) as i64,
            ],
        ],
    }
}

/// The exact sum behind one component of a matrix-vector product.
pub open spec fn mv_sum(a: Mat4, i: int, x: int, y: int, z: int, w: int) -> int {
    a.m[i][0] * x + a.m[i][1] * y + a.m[i][2] * z + a.m[i][3] * w
}

/// One component of a matrix-vector product: the exact row sum,
/// truncated once by the scale and clamped to the representable
/// range, exactly as matrix product entries are.
pub open spec fn mv_e(a: Mat4, i: int, x: int, y: int, z: int, w: int) -> int {
    sclamp(tdiv(mv_sum(a, i, x, y, z, w), 65536), 0x4000_0000_0000_0000)
}

/// The matrix applied to a homogeneous vector, componentwise.
pub open spec fn spec_mul_vec4(a: Mat4, v: Vec4) -> (int, int, int, int) {
    (
        mv_e(a, 0, v.x as int, v.y as int, v.z as int, v.w as int),
        mv_e(a, 1, v.x as int, v.y as int, v.z as int, v.w as int),
        mv_e(a, 2, v.x as int, v.y as int, v.z as int, v.w as int),
        mv_e(a, 3, v.x as int, v.y as int, v.z as int, v.w as int),
    )
}

/// The matrix applied to a point (`w = 1`), with perspective division
/// by the resulting `w` when it is nonzero.
pub open spec fn spec_mul_point(a: Mat4, p: Vec3) -> (int, int, int) {
    let x = mv_e(a, 0, p.x as int, p.y as int, p.z as int, 65536);
    let y = mv_e(a, 1, p.x as int, p.y as int, p.z as int, 65536);
    let z = mv_e(a, 2, p.x as int, p.y as int, p.z as int, 65536);
    let w = mv_e(a, 3, p.x as int, p.y as int, p.z as int, 65536);
    if w != 0 {
        (
            sclamp(fxdiv(x, w), DIV_CLAMP as int),
            sclamp(fxdiv(y, w), DIV_CLAMP as int),
            sclamp(fxdiv(z, w), DIV_CLAMP as int),
        )
    } else {
        (x, y, z)
    }
}

/// The matrix applied to a direction (`w = 0`), without division.
pub open spec fn spec_mul_direction(a: Mat4, p: Vec3) -> (int, int, int) {
    (
        mv_e(a, 0, p.x as int, p.y as int, p.z as int, 0),
        mv_e(a, 1, p.x as int, p.y as int, p.z as int, 0),
        mv_e(a, 2, p.x as int, p.y as int, p.z as int, 0),
    )
}

/// The identity matrix as a value.
pub open spec fn spec_identity() -> Mat4 {
    Mat4 {
        m: [
            [65536i64, 0i64, 0i64, 0i64],
            [0i64, 65536i64, 0i64, 0i64],
            [0i64, 0i64, 65536i64, 0i64],
            [0i64, 0i64, 0i64, 65536i64],
        ],
    }
}

/// The zero matrix as a value.
pub open spec fn spec_zero() -> Mat4 {
    Mat4 {
        m: [
            [0i64, 0i64, 0i64, 0i64],
            [0i64, 0i64, 0i64, 0i64],
            [0i64, 0i64, 0i64, 0i64],
            [0i64, 0i64, 0i64, 0i64],
        ],
    }
}

/// A translation matrix as a value.
pub open spec fn spec_translation(x: int, y: int, z: int) -> Mat4 {
    Mat4 {
        m: [
            [65536i64, 0i64, 0i64, x as i64],
            [0i64, 65536i64, 0i64, y as i64],
            [0i64, 0i64, 65536i64, z as i64],
            [0i64, 0i64, 0i64, 65536i64],
        ],
    }
}

/// A scale matrix as a value.
pub open spec fn spec_scale(x: int, y: int, z: int) -> Mat4 {
    Mat4 {
        m: [
            [x as i64, 0i64, 0i64, 0i64],
            [0i64, y as i64, 0i64, 0i64],
            [0i64, 0i64, z as i64, 0i64],
            [0i64, 0i64, 0i64, 65536i64],
        ],
    }
}

/// The X-axis rotation matrix as a value.
pub open spec fn spec_rotation_x(a: int) -> Mat4 {
    let c = spec_cos_fx(a) as i64;
    let s = spec_sin_fx(a) as i64;
    Mat4 {
        m: [
            [65536i64, 0i64, 0i64, 0i64],
            [0i64, c, (-spec_sin_fx(a)) as i64, 0i64],
            [0i64, s, c, 0i64],
            [0i64, 0i64, 0i64, 65536i64],
        ],
    }
}

/// The Y-axis rotation matrix as a value.
pub open spec fn spec_rotation_y(a: int) -> Mat4 {
    let c = spec_cos_fx(a) as i64;
    let s = spec_sin_fx(a) as i64;
    Mat4 {
        m: [
            [c, 0i64, s, 0i64],
            [0i64, 65536i64, 0i64, 0i64],
            [(-spec_sin_fx(a)) as i64, 0i64, c, 0i64],
            [0i64, 0i64, 0i64, 65536i64],
        ],
    }
}

/// The Z-axis rotation matrix as a value.
pub open spec fn spec_rotation_z(a: int) -> Mat4 {
    let c = spec_cos_fx(a) as i64;
    let s = spec_sin_fx(a) as i64;
    Mat4 {
        m: [
            [c, (-spec_sin_fx(a)) as i64, 0i64, 0i64],
            [s, c, 0i64, 0i64],
            [0i64, 0i64, 65536i64, 0i64],
            [0i64, 0i64, 0i64, 65536i64],
        ],
    }
}

/// Entry `(i, j)` of the identity matrix.
pub open spec fn ident_e(i: int, j: int) -> int {
    if i == j {
        65536
    } else {
        0
    }
}

/// Entry `(i, j)` of a translation matrix.
pub open spec fn translation_e(x: int, y: int, z: int, i: int, j: int) -> int {
    if i == j {
        65536
    } else if j == 3 {
        if i == 0 {
            x
        } else if i == 1 {
            y
        } else if i == 2 {
            z
        } else {
            0
        }
    } else {
        0
    }
}

/// Entry `(i, j)` of a scale matrix.
pub open spec fn scale_e(x: int, y: int, z: int, i: int, j: int) -> int {
    if i == j {
        if i == 0 {
            x
        } else if i == 1 {
            y
        } else if i == 2 {
            z
        } else {
            65536
        }
    } else {
        0
    }
}

/// Entry `(i, j)` of a rotation about the X axis by an angle with the
/// given fixed-point cosine `c` and sine `s`.
pub open spec fn rot_x_e(c: int, s: int, i: int, j: int) -> int {
    if i == 0 && j == 0 {
        65536
    } else if i == 1 && j == 1 {
        c
    } else if i == 1 && j == 2 {
        -s
    } else if i == 2 && j == 1 {
        s
    } else if i == 2 && j == 2 {
        c
    } else if i == 3 && j == 3 {
        65536
    } else {
        0
    }
}

/// Entry `(i, j)` of a rotation about the Y axis.
pub open spec fn rot_y_e(c: int, s: int, i: int, j: int) -> int {
    if i == 0 && j == 0 {
        c
    } else if i == 0 && j == 2 {
        s
    } else if i == 1 && j == 1 {
        65536
    } else if i == 2 && j == 0 {
        -s
    } else if i == 2 && j == 2 {
        c
    } else if i == 3 && j == 3 {
        65536
    } else {
        0
    }
}

/// Entry `(i, j)` of a rotation about the Z axis.
pub open spec fn rot_z_e(c: int, s: int, i: int, j: int) -> int {
    if i == 0 && j == 0 {
        c
    } else if i == 0 && j == 1 {
        -s
    } else if i == 1 && j == 0 {
        s
    } else if i == 1 && j == 1 {
        c
    } else if i == 2 && j == 2 {
        65536
    } else if i == 3 && j == 3 {
        65536
    } else {
        0
    }
}

/// Entry `(i, j)` of the Rodrigues rotation about the normalized axis
/// `(nx, ny, nz)` with cosine `c` and sine `s`; `t` is `1 - c`.
pub open spec fn rot_axis_e(nx: int, ny: int, nz: int, c: int, s: int, i: int, j: int) -> int {
    let t = 65536 - c;
    if i == 0 && j == 0 {
        fxmul(fxmul(t, nx), nx) + c
    } else if i == 0 && j == 1 {
        fxmul(fxmul(t, nx), ny) - fxmul(s, nz)
    } else if i == 0 && j == 2 {
        fxmul(fxmul(t, nx), nz) + fxmul(s, ny)
    } else if i == 1 && j == 0 {
        fxmul(fxmul(t, nx), ny) + fxmul(s, nz)
    } else if i == 1 && j == 1 {
        fxmul(fxmul(t, ny), ny) + c
    } else if i == 1 && j == 2 {
        fxmul(fxmul(t, ny), nz) - fxmul(s, nx)
    } else if i == 2 && j == 0 {
        fxmul(fxmul(t, nx), nz) - fxmul(s, ny)
    } else if i == 2 && j == 1 {
        fxmul(fxmul(t, ny), nz) + fxmul(s, nx)
    } else if i == 2 && j == 2 {
        fxmul(fxmul(t, nz), nz) + c
    } else if i == 3 && j == 3 {
        65536
    } else {
        0
    }
}

/// A `Vec3` built from an integer component triple; exact whenever
/// the components fit the machine word.
pub open spec fn tup3(t: (int, int, int)) -> Vec3 {
    Vec3 { x: t.0 as i64, y: t.1 as i64, z: t.2 as i64 }
}

/// Entry `(i, j)` of the look-at view matrix: camera basis from the
/// normalized forward, right, and recomputed up vectors, with the
/// translation terms projecting the eye onto that basis.
pub open spec fn look_at_e(eye: Vec3, center: Vec3, up: Vec3, i: int, j: int) -> int {
    let f = tup3(
        spec_normalize(
            Vec3 {
                x: (center.x - eye.x) as i64,
                y: (center.y - eye.y) as i64,
                z: (center.z - eye.z) as i64,
            },
        ),
    );
    let s = tup3(spec_normalize(tup3(spec_cross(f, up))));
    let u = tup3(spec_cross(s, f));
    if i == 0 {
        if j == 0 {
            s.x as int
        } else if j == 1 {
            s.y as int
        } else if j == 2 {
            s.z as int
        } else {
            -spec_dot(s, eye)
        }
    } else if i == 1 {
        if j == 0 {
            u.x as int
        } else if j == 1 {
            u.y as int
        } else if j == 2 {
            u.z as int
        } else {
            -spec_dot(u, eye)
        }
    } else if i == 2 {
        if j == 0 {
            -f.x as int
        } else if j == 1 {
            -f.y as int
        } else if j == 2 {
            -f.z as int
        } else {
            spec_dot(f, eye)
        }
    } else {
        if j == 3 {
            65536
        } else {
            0
        }
    }
}

/// Entry `(i, j)` of the right-handed perspective projection.  Each
/// division is guarded per entry: a degenerate field of view or
/// aspect zeroes only the focal entries, and a degenerate depth range
/// zeroes only the depth entries; the constant `w` row is always
/// `[0, 0, -1, 0]`, so clip `w` is always the negated view-space `z`.
pub open spec fn perspective_e(fov: int, aspect: int, near: int, far: int, i: int, j: int) -> int {
    let s = spec_sin_fx(tdiv(fov, 2));
    let c = spec_cos_fx(tdiv(fov, 2));
    if i == 0 && j == 0 {
        if c == 0 {
            0
        } else {
            let dx = fxmul(aspect, fxdiv(s, c));
            if dx == 0 {
                0
            } else {
                fxdiv(65536, dx)
            }
        }
    } else if i == 1 && j == 1 {
        if c == 0 {
            0
        } else {
            let th = fxdiv(s, c);
            if th == 0 {
                0
            } else {
                fxdiv(65536, th)
            }
        }
    } else if i == 2 && j == 2 {
        if far == near {
            0
        } else {
            -fxdiv(far + near, far - near)
        }
    } else if i == 2 && j == 3 {
        if far == near {
            0
        } else {
            -fxdiv(2 * fxmul(far, near), far - near)
        }
    } else if i == 3 && j == 2 {
        -65536
    } else {
        0
    }
}

/// Entry `(i, j)` of the orthographic projection, with degenerate
/// ranges zeroing the affected entries.
pub open spec fn orthographic_e(
    left: int,
    right: int,
    bottom: int,
    top: int,
    near: int,
    far: int,
    i: int,
    j: int,
) -> int {
    if i == 0 && j == 0 {
        if right == left {
            0
        } else {
            fxdiv(131072, right - left)
        }
    } else if i == 0 && j == 3 {
        if right == left {
            0
        } else {
            -fxdiv(right + left, right - left)
        }
    } else if i == 1 && j == 1 {
        if top == bottom {
            0
        } else {
            fxdiv(131072, top - bottom)
        }
    } else if i == 1 && j == 3 {
        if top == bottom {
            0
        } else {
            -fxdiv(top + bottom, top - bottom)
        }
    } else if i == 2 && j == 2 {
        if far == near {
            0
        } else {
            -fxdiv(131072, far - near)
        }
    } else if i == 2 && j == 3 {
        if far == near {
            0
        } else {
            -fxdiv(far + near, far - near)
        }
    } else if i == 3 && j == 3 {
        65536
    } else {
        0
    }
}

/// One row-column accumulation: four wide products summed exactly,
/// truncated once by the scale, and clamped to the representable
/// range.
fn dot4(a0: i64, b0: i64, a1: i64, b1: i64, a2: i64, b2: i64, a3: i64, b3: i64) -> (r: i64)
    requires
        -0x4000_0000_0000_0000 <= a0 <= 0x4000_0000_0000_0000,
        -0x4000_0000_0000_0000 <= b0 <= 0x4000_0000_0000_0000,
        -0x4000_0000_0000_0000 <= a1 <= 0x4000_0000_0000_0000,
        -0x4000_0000_0000_0000 <= b1 <= 0x4000_0000_0000_0000,
        -0x4000_0000_0000_0000 <= a2 <= 0x4000_0000_0000_0000,
        -0x4000_0000_0000_0000 <= b2 <= 0x4000_0000_0000_0000,
        -0x4000_0000_0000_0000 <= a3 <= 0x4000_0000_0000_0000,
        -0x4000_0000_0000_0000 <= b3 <= 0x4000_0000_0000_0000,
    ensures
        r == sclamp(
            tdiv(
                a0 as int * b0 as int + a1 as int * b1 as int + a2 as int * b2 as int + a3 as int
                    * b3 as int,
                65536,
            ),
            0x4000_0000_0000_0000,
        ),
        -0x4000_0000_0000_0000 <= r <= 0x4000_0000_0000_0000,
{
    proof {
        lemma_mul_le(a0 as int, b0 as int, 0x4000_0000_0000_0000, 0x4000_0000_0000_0000);
        lemma_mul_le(a1 as int, b1 as int, 0x4000_0000_0000_0000, 0x4000_0000_0000_0000);
        lemma_mul_le(a2 as int, b2 as int, 0x4000_0000_0000_0000, 0x4000_0000_0000_0000);
        lemma_mul_le(a3 as int, b3 as int, 0x4000_0000_0000_0000, 0x4000_0000_0000_0000);
    }
    let s: i128 = (a0 as i128) * (b0 as i128) + (a1 as i128) * (b1 as i128) + (a2 as i128) * (
    b2 as i128) + (a3 as i128) * (b3 as i128);
    proof {
        crate::fixed::lemma_tdiv_abs(s as int, 65536);
    }
    let q: i128 = s / 65536;
    if q > 0x4000_0000_0000_0000 {
        0x4000_0000_0000_0000
    } else if q < -0x4000_0000_0000_0000 {
        -0x4000_0000_0000_0000
    } else {
        q as i64
    }
}

impl Mat4 {
    /// Every entry within the working range.
    pub open spec fn wf(&self) -> bool {
        mat_bounded(*self, FX_LIM as int)
    }

    pub fn new(m: [[i64; 4]; 4]) -> (r: Mat4)
        ensures
            r.m == m,
    {
        Mat4 { m }
    }

    pub fn identity() -> (r: Mat4)
        ensures
            forall|i: int, j: int|
                0 <= i < 4 && 0 <= j < 4 ==> #[trigger] r.m[i][j] == ident_e(i, j),
            mat_bounded(r, 65536),
            r == spec_identity(),
    {
        let r = Mat4 {
            m: [
                [FX, 0, 0, 0],
                [0, FX, 0, 0],
                [0, 0, FX, 0],
                [0, 0, 0, FX],
            ],
        };
        proof {
            assert(r.m =~= spec_identity().m);
        }
        r
    }

    pub fn zero() -> (r: Mat4)
        ensures
            forall|i: int, j: int| 0 <= i < 4 && 0 <= j < 4 ==> #[trigger] r.m[i][j] == 0i64,
            mat_bounded(r, 0),
            r == spec_zero(),
    {
        let r = Mat4 {
            m: [
                [0, 0, 0, 0],
                [0, 0, 0, 0],
                [0, 0, 0, 0],
                [0, 0, 0, 0],
            ],
        };
        proof {
            assert(r.m =~= spec_zero().m);
        }
        r
    }

    pub fn translation(x: i64, y: i64, z: i64) -> (r: Mat4)
        requires
            -FX_LIM <= x <= FX_LIM,
            -FX_LIM <= y <= FX_LIM,
            -FX_LIM <= z <= FX_LIM,
        ensures
            forall|i: int, j: int|
                0 <= i < 4 && 0 <= j < 4 ==> #[trigger] r.m[i][j] == translation_e(
                    x as int,
                    y as int,
                    z as int,
                    i,
                    j,
                ),
            mat_bounded(r, FX_LIM as int),
            r == spec_translation(x as int, y as int, z as int),
    {
        let r = Mat4 {
            m: [
                [FX, 0, 0, x],
                [0, FX, 0, y],
                [0, 0, FX, z],
                [0, 0, 0, FX],
            ],
        };
        proof {
            assert(r.m =~= spec_translation(x as int, y as int, z as int).m);
        }
        r
    }

    pub fn scale(x: i64, y: i64, z: i64) -> (r: Mat4)
        requires
            -FX_LIM <= x <= FX_LIM,
            -FX_LIM <= y <= FX_LIM,
            -FX_LIM <= z <= FX_LIM,
        ensures
            forall|i: int, j: int|
                0 <= i < 4 && 0 <= j < 4 ==> #[trigger] r.m[i][j] == scale_e(
                    x as int,
                    y as int,
                    z as int,
                    i,
                    j,
                ),
            mat_bounded(r, FX_LIM as int),
            r == spec_scale(x as int, y as int, z as int),
    {
        let r = Mat4 {
            m: [
                [x, 0, 0, 0],
                [0, y, 0, 0],
                [0, 0, z, 0],
                [0, 0, 0, FX],
            ],
        };
        proof {
            assert(r.m =~= spec_scale(x as int, y as int, z as int).m);
        }
        r
    }

    /// Right-hand-rule rotation about the X axis by a fixed-point
    /// angle in radians.
    pub fn rotation_x(angle: i64) -> (r: Mat4)
        requires
            -0x3000_0000 <= angle <= 0x3000_0000,
        ensures
            forall|i: int, j: int|
                0 <= i < 4 && 0 <= j < 4 ==> #[trigger] r.m[i][j] == rot_x_e(
                    spec_cos_fx(angle as int),
                    spec_sin_fx(angle as int),
                    i,
                    j,
                ),
            mat_bounded(r, 0x40000),
            r == spec_rotation_x(angle as int),
    {
        let c = cos_fx(angle);
        let s = sin_fx(angle);
        let r = Mat4 {
            m: [
                [FX, 0, 0, 0],
                [0, c, -s, 0],
                [0, s, c, 0],
                [0, 0, 0, FX],
            ],
        };
        proof {
            assert(mat_bounded(r, 0x40000));
            assert(r.m =~= spec_rotation_x(angle as int).m);
        }
        r
    }

    /// Right-hand-rule rotation about the Y axis.
    pub fn rotation_y(angle: i64) -> (r: Mat4)
        requires
            -0x3000_0000 <= angle <= 0x3000_0000,
        ensures
            forall|i: int, j: int|
                0 <= i < 4 && 0 <= j < 4 ==> #[trigger] r.m[i][j] == rot_y_e(
                    spec_cos_fx(angle as int),
                    spec_sin_fx(angle as int),
                    i,
                    j,
                ),
            mat_bounded(r, 0x40000),
            r == spec_rotation_y(angle as int),
    {
        let c = cos_fx(angle);
        let s = sin_fx(angle);
        let r = Mat4 {
            m: [
                [c, 0, s, 0],
                [0, FX, 0, 0],
                [-s, 0, c, 0],
                [0, 0, 0, FX],
            ],
        };
        proof {
            assert(mat_bounded(r, 0x40000));
            assert(r.m =~= spec_rotation_y(angle as int).m);
        }
        r
    }

    /// Right-hand-rule rotation about the Z axis.
    pub fn rotation_z(angle: i64) -> (r: Mat4)
        requires
            -0x3000_0000 <= angle <= 0x3000_0000,
        ensures
            forall|i: int, j: int|
                0 <= i < 4 && 0 <= j < 4 ==> #[trigger] r.m[i][j] == rot_z_e(
                    spec_cos_fx(angle as int),
                    spec_sin_fx(angle as int),
                    i,
                    j,
                ),
            mat_bounded(r, 0x40000),
            r == spec_rotation_z(angle as int),
    {
        let c = cos_fx(angle);
        let s = sin_fx(angle);
        let r = Mat4 {
            m: [
                [c, -s, 0, 0],
                [s, c, 0, 0],
                [0, 0, FX, 0],
                [0, 0, 0, FX],
            ],
        };
        proof {
            assert(mat_bounded(r, 0x40000));
            assert(r.m =~= spec_rotation_z(angle as int).m);
        }
        r
    }

    /// Rodrigues rotation about an arbitrary axis, which is normalized
    /// first.
    #[verifier::rlimit(100)]
    pub fn rotation_axis(axis: Vec3, angle: i64) -> (r: Mat4)
        requires
            axis.wf(),
            -0x3000_0000 <= angle <= 0x3000_0000,
        ensures
            ({
                let n = spec_normalize(axis);
                forall|i: int, j: int|
                    0 <= i < 4 && 0 <= j < 4 ==> #[trigger] r.m[i][j] == rot_axis_e(
                        n.0,
                        n.1,
                        n.2,
                        spec_cos_fx(angle as int),
                        spec_sin_fx(angle as int),
                        i,
                        j,
                    )
            }),
            mat_bounded(r, 0x400000),
    {
        let n = axis.normalize();
        let c = cos_fx(angle);
        let s = sin_fx(angle);
        let t: i64 = FX - c;
        proof {
            lemma_fxmul_pow(t as int, n.x as int, 245760, 196608, 737280);
            lemma_fxmul_pow(t as int, n.y as int, 245760, 196608, 737280);
            lemma_fxmul_pow(t as int, n.z as int, 245760, 196608, 737280);
            lemma_fxmul_pow(fxmul(t as int, n.x as int), n.x as int, 737280, 196608, 2211840);
            lemma_fxmul_pow(fxmul(t as int, n.x as int), n.y as int, 737280, 196608, 2211840);
            lemma_fxmul_pow(fxmul(t as int, n.x as int), n.z as int, 737280, 196608, 2211840);
            lemma_fxmul_pow(fxmul(t as int, n.y as int), n.y as int, 737280, 196608, 2211840);
            lemma_fxmul_pow(fxmul(t as int, n.y as int), n.z as int, 737280, 196608, 2211840);
            lemma_fxmul_pow(fxmul(t as int, n.z as int), n.z as int, 737280, 196608, 2211840);
            lemma_fxmul_pow(s as int, n.x as int, 163840, 196608, 491520);
            lemma_fxmul_pow(s as int, n.y as int, 163840, 196608, 491520);
            lemma_fxmul_pow(s as int, n.z as int, 163840, 196608, 491520);
        }
        let tx = fx_mul(t, n.x);
        let ty = fx_mul(t, n.y);
        let tz = fx_mul(t, n.z);
        let txx = fx_mul(tx, n.x);
        let txy = fx_mul(tx, n.y);
        let txz = fx_mul(tx, n.z);
        let tyy = fx_mul(ty, n.y);
        let tyz = fx_mul(ty, n.z);
        let tzz = fx_mul(tz, n.z);
        let sx = fx_mul(s, n.x);
        let sy = fx_mul(s, n.y);
        let sz = fx_mul(s, n.z);
        let r = Mat4 {
            m: [
                [txx + c, txy - sz, txz + sy, 0],
                [txy + sz, tyy + c, tyz - sx, 0],
                [txz - sy, tyz + sx, tzz + c, 0],
                [0, 0, 0, FX],
            ],
        };
        proof {
            assert(mat_bounded(r, 0x400000));
        }
        r
    }

    /// Camera view matrix looking from `eye` toward `center` with the
    /// given approximate up direction.
    pub fn look_at(eye: Vec3, center: Vec3, up: Vec3) -> (r: Mat4)
        requires
            -0x100_0000 <= eye.x <= 0x100_0000,
            -0x100_0000 <= eye.y <= 0x100_0000,
            -0x100_0000 <= eye.z <= 0x100_0000,
            -0x4000_0000 <= center.x <= 0x4000_0000,
            -0x4000_0000 <= center.y <= 0x4000_0000,
            -0x4000_0000 <= center.z <= 0x4000_0000,
            -4 * FX <= up.x <= 4 * FX,
            -4 * FX <= up.y <= 4 * FX,
            -4 * FX <= up.z <= 4 * FX,
        ensures
            forall|i: int, j: int|
                0 <= i < 4 && 0 <= j < 4 ==> #[trigger] r.m[i][j] == look_at_e(
                    eye,
                    center,
                    up,
                    i,
                    j,
                ),
            mat_bounded(r, 0x4000_0000),
    {
        let fv = center.sub(&eye);
        let f = fv.normalize();
        proof {
            lemma_fxmul_pow(f.y as int, up.z as int, 196608, 262144, 786432);
            lemma_fxmul_pow(f.z as int, up.y as int, 196608, 262144, 786432);
            lemma_fxmul_pow(f.z as int, up.x as int, 196608, 262144, 786432);
            lemma_fxmul_pow(f.x as int, up.z as int, 196608, 262144, 786432);
            lemma_fxmul_pow(f.x as int, up.y as int, 196608, 262144, 786432);
            lemma_fxmul_pow(f.y as int, up.x as int, 196608, 262144, 786432);
        }
        let sv = f.cross(&up);
        let s = sv.normalize();
        proof {
            lemma_fxmul_pow(s.y as int, f.z as int, 196608, 196608, 589824);
            lemma_fxmul_pow(s.z as int, f.y as int, 196608, 196608, 589824);
            lemma_fxmul_pow(s.z as int, f.x as int, 196608, 196608, 589824);
            lemma_fxmul_pow(s.x as int, f.z as int, 196608, 196608, 589824);
            lemma_fxmul_pow(s.x as int, f.y as int, 196608, 196608, 589824);
            lemma_fxmul_pow(s.y as int, f.x as int, 196608, 196608, 589824);
        }
        let u = s.cross(&f);
        proof {
            lemma_fxmul_pow(s.x as int, eye.x as int, 196608, 16777216, 50331648);
            lemma_fxmul_pow(s.y as int, eye.y as int, 196608, 16777216, 50331648);
            lemma_fxmul_pow(s.z as int, eye.z as int, 196608, 16777216, 50331648);
            lemma_fxmul_pow(u.x as int, eye.x as int, 1179648, 16777216, 301989888);
            lemma_fxmul_pow(u.y as int, eye.y as int, 1179648, 16777216, 301989888);
            lemma_fxmul_pow(u.z as int, eye.z as int, 1179648, 16777216, 301989888);
            lemma_fxmul_pow(f.x as int, eye.x as int, 196608, 16777216, 50331648);
            lemma_fxmul_pow(f.y as int, eye.y as int, 196608, 16777216, 50331648);
            lemma_fxmul_pow(f.z as int, eye.z as int, 196608, 16777216, 50331648);
        }
        let sd = s.dot(&eye);
        let ud = u.dot(&eye);
        let fd = f.dot(&eye);
        Mat4 {
            m: [
                [s.x, s.y, s.z, -sd],
                [u.x, u.y, u.z, -ud],
                [-f.x, -f.y, -f.z, fd],
                [0, 0, 0, FX],
            ],
        }
    }

    /// Right-handed perspective projection from a vertical field of
    /// view in radians, an aspect ratio, and near and far depths.
    pub fn perspective(fov: i64, aspect: i64, near: i64, far: i64) -> (r: Mat4)
        requires
            -0x3000_0000 <= fov <= 0x3000_0000,
            -0x40_0000 <= aspect <= 0x40_0000,
            -0x4000_0000 <= near <= 0x4000_0000,
            -0x4000_0000 <= far <= 0x4000_0000,
        ensures
            forall|i: int, j: int|
                0 <= i < 4 && 0 <= j < 4 ==> #[trigger] r.m[i][j] == perspective_e(
                    fov as int,
                    aspect as int,
                    near as int,
                    far as int,
                    i,
                    j,
                ),
    {
        let half: i64 = fov / 2;
        let s = sin_fx(half);
        let c = cos_fx(half);
        let mut m00: i64 = 0;
        let mut m11: i64 = 0;
        if c != 0 {
            let th = fx_div(s, c);
            proof {
                lemma_mul_le(s as int, 65536, 0x2B000, 65536);
                lemma_tdiv_abs(s as int * 65536, c as int);
                lemma_mul_le(aspect as int, th as int, 0x40_0000, 0x2_B000_0000);
            }
            let dx = fx_mul(aspect, th);
            if dx != 0 {
                m00 = fx_div(FX, dx);
            }
            if th != 0 {
                m11 = fx_div(FX, th);
            }
        }
        let mut m22: i64 = 0;
        let mut m23: i64 = 0;
        if far != near {
            proof {
                lemma_fxmul_pow(far as int, near as int, 0x4000_0000, 0x4000_0000, 0x1000_0000_0000);
            }
            let fnp = fx_mul(far, near);
            m22 = -fx_div(far + near, far - near);
            m23 = -fx_div(2 * fnp, far - near);
        }
        Mat4 {
            m: [
                [m00, 0, 0, 0],
                [0, m11, 0, 0],
                [0, 0, m22, m23],
                [0, 0, -FX, 0],
            ],
        }
    }

    /// Orthographic projection over the given box.
    pub fn orthographic(left: i64, right: i64, bottom: i64, top: i64, near: i64, far: i64) -> (r:
        Mat4)
        requires
            -0x4000_0000 <= left <= 0x4000_0000,
            -0x4000_0000 <= right <= 0x4000_0000,
            -0x4000_0000 <= bottom <= 0x4000_0000,
            -0x4000_0000 <= top <= 0x4000_0000,
            -0x4000_0000 <= near <= 0x4000_0000,
            -0x4000_0000 <= far <= 0x4000_0000,
        ensures
            forall|i: int, j: int|
                0 <= i < 4 && 0 <= j < 4 ==> #[trigger] r.m[i][j] == orthographic_e(
                    left as int,
                    right as int,
                    bottom as int,
                    top as int,
                    near as int,
                    far as int,
                    i,
                    j,
                ),
    {
        let mut m00: i64 = 0;
        let mut m03: i64 = 0;
        if right != left {
            m00 = fx_div(131072, right - left);
            m03 = -fx_div(right + left, right - left);
        }
        let mut m11: i64 = 0;
        let mut m13: i64 = 0;
        if top != bottom {
            m11 = fx_div(131072, top - bottom);
            m13 = -fx_div(top + bottom, top - bottom);
        }
        let mut m22: i64 = 0;
        let mut m23: i64 = 0;
        if far != near {
            m22 = -fx_div(131072, far - near);
            m23 = -fx_div(far + near, far - near);
        }
        Mat4 {
            m: [
                [m00, 0, 0, m03],
                [0, m11, 0, m13],
                [0, 0, m22, m23],
                [0, 0, 0, FX],
            ],
        }
    }

    /// Swaps rows and columns.
    pub fn transpose(&self) -> (r: Mat4)
        ensures
            forall|i: int, j: int|
                0 <= i < 4 && 0 <= j < 4 ==> #[trigger] r.m[i][j] == self.m[j][i],
    {
        Mat4 {
            m: [
                [self.m[0][0], self.m[1][0], self.m[2][0], self.m[3][0]],
                [self.m[0][1], self.m[1][1], self.m[2][1], self.m[3][1]],
                [self.m[0][2], self.m[1][2], self.m[2][2], self.m[3][2]],
                [self.m[0][3], self.m[1][3], self.m[2][3], self.m[3][3]],
            ],
        }
    }

    /// Applies the matrix to a homogeneous vector.
    pub fn mul_vec4(&self, v: Vec4) -> (r: Vec4)
        requires
            mat_bounded(*self, 0x4000_0000_0000_0000),
            v.wf(),
        ensures
            v4(r) == spec_mul_vec4(*self, v),
            -0x4000_0000_0000_0000 <= r.x <= 0x4000_0000_0000_0000,
            -0x4000_0000_0000_0000 <= r.y <= 0x4000_0000_0000_0000,
            -0x4000_0000_0000_0000 <= r.z <= 0x4000_0000_0000_0000,
            -0x4000_0000_0000_0000 <= r.w <= 0x4000_0000_0000_0000,
    {
        Vec4 {
            x: dot4(
                self.m[0][0],
                v.x,
                self.m[0][1],
                v.y,
                self.m[0][2],
                v.z,
                self.m[0][3],
                v.w,
            ),
            y: dot4(
                self.m[1][0],
                v.x,
                self.m[1][1],
                v.y,
                self.m[1][2],
                v.z,
                self.m[1][3],
                v.w,
            ),
            z: dot4(
                self.m[2][0],
                v.x,
                self.m[2][1],
                v.y,
                self.m[2][2],
                v.z,
                self.m[2][3],
                v.w,
            ),
            w: dot4(
                self.m[3][0],
                v.x,
                self.m[3][1],
                v.y,
                self.m[3][2],
                v.z,
                self.m[3][3],
                v.w,
            ),
        }
    }

    /// Applies the matrix to a point (`w = 1`) and divides by the
    /// resulting `w` when nonzero.
    pub fn mul_point(&self, v: Vec3) -> (r: Vec3)
        requires
            mat_bounded(*self, 0x4000_0000_0000_0000),
            v.wf(),
        ensures
            v3(r) == spec_mul_point(*self, v),
    {
        let v4h = Vec4::from_point(v);
        let h = self.mul_vec4(v4h);
        h.to_vec3()
    }

    /// Applies the matrix to a direction (`w = 0`) without dividing.
    pub fn mul_direction(&self, v: Vec3) -> (r: Vec3)
        requires
            mat_bounded(*self, 0x4000_0000_0000_0000),
            v.wf(),
        ensures
            v3(r) == spec_mul_direction(*self, v),
    {
        let v4h = Vec4::from_direction(v);
        let h = self.mul_vec4(v4h);
        h.to_vec3_no_divide()
    }

    /// The matrix product `self * other`: the rightmost factor is the
    /// transform applied first.
    pub fn mul(&self, other: &Mat4) -> (r: Mat4)
        requires
            mat_bounded(*self, 0x4000_0000_0000_0000),
            mat_bounded(*other, 0x4000_0000_0000_0000),
        ensures
            r == spec_mat_mul(*self, *other),
            forall|i: int, j: int|
                0 <= i < 4 && 0 <= j < 4 ==> #[trigger] r.m[i][j] == mm_e(*self, *other, i, j),
            mat_bounded(r, 0x4000_0000_0000_0000),
    {
        let a = &self.m;
        let b = &other.m;
        let r = Mat4 {
            m: [
                [
                    dot4(a[0][0], b[0][0], a[0][1], b[1][0], a[0][2], b[2][0], a[0][3], b[3][0]),
                    dot4(a[0][0], b[0][1], a[0][1], b[1][1], a[0][2], b[2][1], a[0][3], b[3][1]),
                    dot4(a[0][0], b[0][2], a[0][1], b[1][2], a[0][2], b[2][2], a[0][3], b[3][2]),
                    dot4(a[0][0], b[0][3], a[0][1], b[1][3], a[0][2], b[2][3], a[0][3], b[3][3]),
                ],
                [
                    dot4(a[1][0], b[0][0], a[1][1], b[1][0], a[1][2], b[2][0], a[1][3], b[3][0]),
                    dot4(a[1][0], b[0][1], a[1][1], b[1][1], a[1][2], b[2][1], a[1][3], b[3][1]),
                    dot4(a[1][0], b[0][2], a[1][1], b[1][2], a[1][2], b[2][2], a[1][3], b[3][2]),
                    dot4(a[1][0], b[0][3], a[1][1], b[1][3], a[1][2], b[2][3], a[1][3], b[3][3]),
                ],
                [
                    dot4(a[2][0], b[0][0], a[2][1], b[1][0], a[2][2], b[2][0], a[2][3], b[3][0]),
                    dot4(a[2][0], b[0][1], a[2][1], b[1][1], a[2][2], b[2][1], a[2][3], b[3][1]),
                    dot4(a[2][0], b[0][2], a[2][1], b[1][2], a[2][2], b[2][2], a[2][3], b[3][2]),
                    dot4(a[2][0], b[0][3], a[2][1], b[1][3], a[2][2], b[2][3], a[2][3], b[3][3]),
                ],
                [
                    dot4(a[3][0], b[0][0], a[3][1], b[1][0], a[3][2], b[2][0], a[3][3], b[3][0]),
                    dot4(a[3][0], b[0][1], a[3][1], b[1][1], a[3][2], b[2][1], a[3][3], b[3][1]),
                    dot4(a[3][0], b[0][2], a[3][1], b[1][2], a[3][2], b[2][2], a[3][3], b[3][2]),
                    dot4(a[3][0], b[0][3], a[3][1], b[1][3], a[3][2], b[2][3], a[3][3], b[3][3]),
                ],
            ],
        };
        proof {
            assert(r.m =~= spec_mat_mul(*self, *other).m);
        }
        r
    }
}

} // verus!
