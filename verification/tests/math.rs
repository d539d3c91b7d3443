use softrender::fixed::{isqrt, FX};
use softrender::matrix::Mat4;
use softrender::vector::Vec3;

#[test]
fn test_identity() {
    let identity = Mat4::identity();
    let v = Vec3::new(FX, 2 * FX, 3 * FX);
    let result = identity.mul_point(v);
    assert_eq!(result, v);
}

#[test]
fn test_translation() {
    let translation = Mat4::translation(5 * FX, 10 * FX, 15 * FX);
    let v = Vec3::new(FX, 2 * FX, 3 * FX);
    let result = translation.mul_point(v);
    assert_eq!(result, Vec3::new(6 * FX, 12 * FX, 18 * FX));
}

#[test]
fn test_scale() {
    let scale = Mat4::scale(2 * FX, 3 * FX, 4 * FX);
    let v = Vec3::new(FX, 2 * FX, 3 * FX);
    let result = scale.mul_point(v);
    assert_eq!(result, Vec3::new(2 * FX, 6 * FX, 12 * FX));
}

#[test]
fn test_vec3_operations() {
    let v1 = Vec3::new(FX, 2 * FX, 3 * FX);
    let v2 = Vec3::new(4 * FX, 5 * FX, 6 * FX);

    let sum = v1.add(&v2);
    assert_eq!(sum, Vec3::new(5 * FX, 7 * FX, 9 * FX));

    let dot = v1.dot(&v2);
    assert_eq!(dot, 32 * FX);
}

#[test]
fn test_vec3_normalize() {
    let v = Vec3::new(3 * FX, 4 * FX, 0);
    let normalized = v.normalize();
    assert!((normalized.length() - FX).abs() < 7);
}

#[test]
fn cross_product_of_axes() {
    let x = Vec3::unit_x();
    let y = Vec3::unit_y();
    let z = x.cross(&y);
    assert_eq!(z, Vec3::unit_z());
}

#[test]
fn length_of_three_four_five() {
    let v = Vec3::new(3 * FX, 4 * FX, 0);
    assert_eq!(v.length(), 5 * FX);
    assert_eq!(v.length_squared(), 25 * FX);
}

#[test]
fn normalize_zero_vector_is_unchanged() {
    let v = Vec3::new(0, 0, 0);
    assert_eq!(v.normalize(), v);
    let tiny = Vec3::new(100, -50, 20);
    assert_eq!(tiny.normalize(), tiny);
}

#[test]
fn distance_between_points() {
    let a = Vec3::new(FX, 0, 0);
    let b = Vec3::new(4 * FX, 4 * FX, 0);
    assert_eq!(a.distance(&b), 5 * FX);
    assert_eq!(a.distance_squared(&b), 25 * FX);
}

#[test]
fn reflect_about_vertical_normal() {
    let v = Vec3::new(FX, -FX, 0);
    let n = Vec3::new(0, FX, 0);
    let r = v.reflect(&n);
    assert_eq!(r, Vec3::new(FX, FX, 0));
}

#[test]
fn lerp_between_vectors() {
    let a = Vec3::new(0, 0, 0);
    let b = Vec3::new(10 * FX, 20 * FX, 30 * FX);
    let mid = a.lerp(&b, FX / 2);
    assert_eq!(mid, Vec3::new(5 * FX, 10 * FX, 15 * FX));
}

#[test]
fn isqrt_exact_and_rounded() {
    assert_eq!(isqrt(0), 0);
    assert_eq!(isqrt(1), 1);
    assert_eq!(isqrt(15), 3);
    assert_eq!(isqrt(16), 4);
    assert_eq!(isqrt(1 << 62), 1 << 31);
}

#[test]
fn matrix_transpose_swaps_entries() {
    let t = Mat4::translation(5 * FX, 10 * FX, 15 * FX);
    let tt = t.transpose();
    assert_eq!(tt.m[3][0], 5 * FX);
    assert_eq!(tt.m[3][1], 10 * FX);
    assert_eq!(tt.m[3][2], 15 * FX);
    assert_eq!(tt.m[0][3], 0);
}

#[test]
fn matrix_product_composes_translations() {
    let a = Mat4::translation(FX, 0, 0);
    let b = Mat4::translation(0, 2 * FX, 0);
    let c = a.mul(&b);
    let p = c.mul_point(Vec3::new(0, 0, 0));
    assert_eq!(p, Vec3::new(FX, 2 * FX, 0));
}

#[test]
fn rotation_z_quarter_turn() {
    // A quarter turn about Z carries the X axis close to the Y axis.
    let half_pi = softrender::trig::HALF_PI_FX;
    let r = Mat4::rotation_z(half_pi);
    let p = r.mul_point(Vec3::new(FX, 0, 0));
    assert!(p.x.abs() < 200, "x was {}", p.x);
    assert!((p.y - FX).abs() < 200, "y was {}", p.y);
    assert_eq!(p.z, 0);
}

#[test]
fn rotation_axis_matches_axis_rotation() {
    // Rotating about the Z axis via the arbitrary-axis path agrees
    // with the dedicated Z rotation within rounding.
    let angle = 40000;
    let a = Mat4::rotation_axis(Vec3::new(0, 0, FX), angle);
    let b = Mat4::rotation_z(angle);
    for i in 0..4 {
        for j in 0..4 {
            assert!((a.m[i][j] - b.m[i][j]).abs() < 64, "entry {} {}", i, j);
        }
    }
}

#[test]
fn mul_direction_ignores_translation() {
    let t = Mat4::translation(5 * FX, 10 * FX, 15 * FX);
    let d = t.mul_direction(Vec3::new(FX, 0, 0));
    assert_eq!(d, Vec3::new(FX, 0, 0));
}

#[test]
fn trig_exact_at_zero() {
    assert_eq!(softrender::trig::cos_fx(0), FX);
    assert_eq!(softrender::trig::sin_fx(0), 0);
}

#[test]
fn rotations_at_zero_are_identity() {
    let identity = Mat4::identity();
    for (a, b) in [
        (Mat4::rotation_x(0), identity),
        (Mat4::rotation_y(0), identity),
        (Mat4::rotation_z(0), identity),
        (Mat4::rotation_axis(Vec3::new(0, 0, FX), 0), identity),
    ] {
        for i in 0..4 {
            for j in 0..4 {
                assert_eq!(a.m[i][j], b.m[i][j], "entry {} {}", i, j);
            }
        }
    }
}

#[test]
fn perspective_w_row_is_constant() {
    // Even at a degenerate field of view the w row stays [0,0,-1,0],
    // so clip w is always the negated view-space z.
    let nearly_pi = 205886;
    let m = Mat4::perspective(nearly_pi, FX, FX / 10, 100 * FX);
    assert_eq!(m.m[3], [0, 0, -FX, 0]);
    let sane = Mat4::perspective(softrender::transforms::deg_to_rad(60 * FX), FX, FX / 10, 100 * FX);
    assert_eq!(sane.m[3], [0, 0, -FX, 0]);
}
