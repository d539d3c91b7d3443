use softrender::fixed::FX;
use softrender::transforms::{barycentric, clamp, deg_to_rad, lerp, point_in_triangle, rad_to_deg,
    smooth_step, smoother_step, triangle_area_2d};

#[test]
fn test_deg_to_rad() {
    let rad = deg_to_rad(180 * FX);
    assert!((rad - 205887).abs() < 7);
}

#[test]
fn test_lerp() {
    assert_eq!(lerp(0, 10 * FX, FX / 2), 5 * FX);
    assert_eq!(lerp(0, 10 * FX, 0), 0);
    assert_eq!(lerp(0, 10 * FX, FX), 10 * FX);
}

#[test]
fn test_barycentric() {
    let v0 = (0, 0);
    let v1 = (FX, 0);
    let v2 = (0, FX);
    let p = (FX / 4, FX / 4);

    let (u, v, w) = barycentric(p, v0, v1, v2);
    assert_eq!(u + v + w, FX);
}

#[test]
fn rad_to_deg_roundtrip() {
    let deg = rad_to_deg(205887);
    assert!((deg - 180 * FX).abs() < 64, "deg was {}", deg);
}

#[test]
fn clamp_selects_bounds() {
    assert_eq!(clamp(5, 0, 10), 5);
    assert_eq!(clamp(-5, 0, 10), 0);
    assert_eq!(clamp(15, 0, 10), 10);
}

#[test]
fn smooth_step_endpoints_and_middle() {
    assert_eq!(smooth_step(-FX), 0);
    assert_eq!(smooth_step(0), 0);
    assert_eq!(smooth_step(FX), FX);
    assert_eq!(smooth_step(2 * FX), FX);
    // At one half the cubic ease is exactly one half.
    assert_eq!(smooth_step(FX / 2), FX / 2);
}

#[test]
fn smoother_step_endpoints() {
    assert_eq!(smoother_step(0), 0);
    assert_eq!(smoother_step(FX), FX);
    assert_eq!(smoother_step(2 * FX), FX);
}

#[test]
fn triangle_area_counterclockwise_positive() {
    // A right triangle with legs of two units has area two.
    let a = triangle_area_2d(0, 0, 2 * FX, 0, 0, 2 * FX);
    assert_eq!(a, 2 * FX);
    let b = triangle_area_2d(0, 0, 0, 2 * FX, 2 * FX, 0);
    assert_eq!(b, -2 * FX);
}

#[test]
fn barycentric_inside_point_weights() {
    // The barycentric weights of a strictly interior point are all
    // nonnegative and sum to one.
    let v0 = (0, 0);
    let v1 = (4 * FX, 0);
    let v2 = (0, 4 * FX);
    let (u, v, w) = barycentric((FX, FX), v0, v1, v2);
    assert!(u >= 0 && v >= 0 && w >= 0);
    assert_eq!(u + v + w, FX);
    assert!(point_in_triangle((FX, FX), v0, v1, v2));
}

#[test]
fn barycentric_outside_point_weight_negative() {
    // A point clearly outside has a negative weight.
    let v0 = (0, 0);
    let v1 = (4 * FX, 0);
    let v2 = (0, 4 * FX);
    let (u, v, w) = barycentric((-2 * FX, FX), v0, v1, v2);
    assert!(u < 0 || v < 0 || w < 0);
    assert!(!point_in_triangle((-2 * FX, FX), v0, v1, v2));
}

#[test]
fn barycentric_degenerate_triangle() {
    // Collinear vertices give the zero triple, and a degenerate
    // triangle contains no point at all.
    let r = barycentric((FX, FX), (0, 0), (FX, 0), (2 * FX, 0));
    assert_eq!(r, (0, 0, 0));
    assert!(!point_in_triangle((FX, FX), (0, 0), (FX, 0), (2 * FX, 0)));
    assert!(!point_in_triangle((FX, 0), (0, 0), (FX, 0), (2 * FX, 0)));
}

#[test]
fn barycentric_vertex_weights() {
    // At a vertex the matching weight is one and the others zero.
    let v0 = (0, 0);
    let v1 = (4 * FX, 0);
    let v2 = (0, 4 * FX);
    assert_eq!(barycentric(v0, v0, v1, v2), (FX, 0, 0));
    assert_eq!(barycentric(v1, v0, v1, v2), (0, FX, 0));
    assert_eq!(barycentric(v2, v0, v1, v2), (0, 0, FX));
}
