use softrender::fixed::FX;
use softrender::framebuffer::{color_from_rgb, lerp_color, Framebuffer, DEPTH_INF};
use softrender::matrix::Mat4;
use softrender::pipeline::Pipeline;
use softrender::rasterizer::draw_filled_triangle;
use softrender::vector::Vec3;

#[test]
fn clear_then_get_pixel_returns_clear_color() {
    // Clearing paints every in-bounds pixel and resets every depth to
    // the sentinel, so any depth-tested write afterwards lands.
    let mut fb = Framebuffer::new(16, 8);
    fb.clear(0xFF123456);
    for y in 0..8 {
        for x in 0..16 {
            assert_eq!(fb.get_pixel(x, y), Some(0xFF123456));
        }
    }
    assert_eq!(fb.get_pixel(16, 0), None);
    assert_eq!(fb.get_pixel(0, 8), None);
    assert_eq!(fb.zbuffer[0], DEPTH_INF);
    fb.set_pixel_with_depth(3, 2, 0xFFAABBCC, 0);
    assert_eq!(fb.get_pixel(3, 2), Some(0xFFAABBCC));
    fb.set_pixel_with_depth(3, 2, 0xFF000001, 1000);
    assert_eq!(fb.get_pixel(3, 2), Some(0xFFAABBCC));
}

#[test]
fn set_pixel_out_of_bounds_is_ignored() {
    let mut fb = Framebuffer::new(4, 4);
    fb.clear(0);
    fb.set_pixel(100, 100, 0xFFFFFFFF);
    for y in 0..4 {
        for x in 0..4 {
            assert_eq!(fb.get_pixel(x, y), Some(0));
        }
    }
}

#[test]
fn color_helpers() {
    assert_eq!(color_from_rgb(0x12, 0x34, 0x56), 0xFF123456);
    assert_eq!(lerp_color(0xFF000000, 0xFF0000FF, FX / 2), 0xFF00007F);
    assert_eq!(lerp_color(0xFF000000, 0xFF0000FF, 0), 0xFF000000);
    assert_eq!(lerp_color(0xFF000000, 0xFF0000FF, FX), 0xFF0000FF);
}

#[test]
fn draw_line_paints_start_and_only_line_color() {
    let mut fb = Framebuffer::new(32, 32);
    fb.clear(0);
    fb.draw_line(2, 3, 20, 17, 0xFFABCDEF);
    assert_eq!(fb.get_pixel(2, 3), Some(0xFFABCDEF));
    assert_eq!(fb.get_pixel(20, 17), Some(0xFFABCDEF));
    for y in 0..32 {
        for x in 0..32 {
            let c = fb.get_pixel(x, y).unwrap();
            assert!(c == 0 || c == 0xFFABCDEF);
        }
    }
    // The depth buffer is untouched by line drawing.
    assert!(fb.zbuffer.iter().all(|&z| z == DEPTH_INF));
}

#[test]
fn draw_circle_paints_circle_color_only() {
    let mut fb = Framebuffer::new(32, 32);
    fb.clear(0);
    fb.draw_circle(16, 16, 10, 0xFF00FF00);
    // The topmost point of the circle is painted.
    assert_eq!(fb.get_pixel(16, 26), Some(0xFF00FF00));
    assert_eq!(fb.get_pixel(16, 6), Some(0xFF00FF00));
    assert_eq!(fb.get_pixel(26, 16), Some(0xFF00FF00));
    assert_eq!(fb.get_pixel(6, 16), Some(0xFF00FF00));
    for y in 0..32 {
        for x in 0..32 {
            let c = fb.get_pixel(x, y).unwrap();
            assert!(c == 0 || c == 0xFF00FF00);
        }
    }
}

#[test]
fn rasterizer_fills_counterclockwise_triangle() {
    // Counterclockwise in the area convention: positive doubled area.
    let mut fb = Framebuffer::new(32, 32);
    fb.clear(0);
    let tri = [
        (2 * FX, 2 * FX, FX),
        (20 * FX, 4 * FX, FX),
        (4 * FX, 20 * FX, FX),
    ];
    draw_filled_triangle(&mut fb, tri, 0xFFFF0000);
    // An interior pixel is filled.
    assert_eq!(fb.get_pixel(6, 6), Some(0xFFFF0000));
    // A far-away pixel is not.
    assert_eq!(fb.get_pixel(30, 30), Some(0));
}

#[test]
fn backface_culled_triangle_writes_nothing() {
    // The same triangle with two vertices swapped winds clockwise and
    // must write no pixels at all.
    let mut fb = Framebuffer::new(32, 32);
    fb.clear(0);
    let tri = [
        (2 * FX, 2 * FX, FX),
        (4 * FX, 20 * FX, FX),
        (20 * FX, 4 * FX, FX),
    ];
    draw_filled_triangle(&mut fb, tri, 0xFFFF0000);
    for y in 0..32 {
        for x in 0..32 {
            assert_eq!(fb.get_pixel(x, y), Some(0));
        }
    }
}

#[test]
fn depth_test_is_order_independent() {
    // Triangle A at depth five, triangle B at depth two, overlapping:
    // whichever order they are drawn, the nearer (B) wins.
    let a = [
        (0, 0, 5 * FX),
        (24 * FX, 0, 5 * FX),
        (0, 24 * FX, 5 * FX),
    ];
    let b = [
        (0, 0, 2 * FX),
        (24 * FX, 0, 2 * FX),
        (0, 24 * FX, 2 * FX),
    ];
    let mut fb1 = Framebuffer::new(32, 32);
    fb1.clear(0);
    draw_filled_triangle(&mut fb1, a, 0xFFAA0000);
    draw_filled_triangle(&mut fb1, b, 0xFF00BB00);
    let mut fb2 = Framebuffer::new(32, 32);
    fb2.clear(0);
    draw_filled_triangle(&mut fb2, b, 0xFF00BB00);
    draw_filled_triangle(&mut fb2, a, 0xFFAA0000);
    assert_eq!(fb1.get_pixel(4, 4), Some(0xFF00BB00));
    assert_eq!(fb2.get_pixel(4, 4), Some(0xFF00BB00));
    assert_eq!(fb1.buffer, fb2.buffer);
}

#[test]
fn project_behind_eye_is_not_visible() {
    // With the identity matrix, w equals one for every point, so use
    // a perspective matrix: a point behind the eye has nonpositive w
    // and must not project.
    let mut pipeline = Pipeline::new(100, 100);
    let proj = Mat4::perspective(softrender::transforms::deg_to_rad(60 * FX), FX, FX / 10, 100 * FX);
    pipeline.set_mvp(proj);
    // In the right-handed convention the camera looks down negative
    // Z, so positive Z is behind the eye.
    assert_eq!(pipeline.project(Vec3::new(0, 0, 5 * FX)), None);
    assert_eq!(pipeline.project(Vec3::new(0, 0, 0)), None);
    // A point in front projects to the screen center.
    let p = pipeline.project(Vec3::new(0, 0, -5 * FX)).unwrap();
    assert_eq!(p.0, 50 * FX);
    assert_eq!(p.1, 50 * FX);
}

#[test]
fn triangle_with_vertex_behind_eye_is_dropped() {
    let mut pipeline = Pipeline::new(64, 64);
    let proj = Mat4::perspective(softrender::transforms::deg_to_rad(60 * FX), FX, FX / 10, 100 * FX);
    pipeline.set_mvp(proj);
    let mut fb = Framebuffer::new(64, 64);
    fb.clear(0);
    let vertices = vec![
        Vec3::new(0, 0, 5 * FX),
        Vec3::new(-FX, -FX, -5 * FX),
        Vec3::new(FX, -FX, -5 * FX),
    ];
    let faces = vec![(0usize, 1usize, 2usize)];
    pipeline.draw_mesh(&mut fb, &vertices, &faces);
    for y in 0..64 {
        for x in 0..64 {
            assert_eq!(fb.get_pixel(x, y), Some(0));
        }
    }
}

#[test]
fn projection_accepts_every_point_in_front() {
    // A point far outside the viewport but in front of the eye still
    // projects; only w <= 0 is "not visible".
    let mut pipeline = Pipeline::new(100, 100);
    let proj = Mat4::perspective(softrender::transforms::deg_to_rad(60 * FX), FX, FX / 10, 100 * FX);
    pipeline.set_mvp(proj);
    let p = pipeline.project(Vec3::new(20000 * FX, 0, -FX)).unwrap();
    // NDC x is about 11547 units, mapped to a screen coordinate far
    // off the right edge.
    assert!(p.0 > 100 * FX, "screen x {}", p.0);
}

#[test]
fn world_to_screen_maps_origin_to_center() {
    let identity = Mat4::identity();
    let r = softrender::transforms::world_to_screen(
        Vec3::new(0, 0, 0),
        &identity,
        640 * FX,
        480 * FX,
    );
    assert_eq!(r, Some((320 * FX, 240 * FX, 0)));
}
