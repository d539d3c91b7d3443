use softrender::fixed::FX;
use softrender::framebuffer::Framebuffer;
use softrender::freecam::FreeCamera;
use softrender::matrix::Mat4;
use softrender::mesh::Mesh;
use softrender::pipeline::Pipeline;
use softrender::skybox::Skybox;
use softrender::solar_system::SolarSystem;
use softrender::sphere::generate_sphere;
use softrender::transforms::{create_mvp_matrix, deg_to_rad};
use softrender::vector::Vec3;
use softrender::spaceship::{render_ship, SpaceShip};
use softrender::warp::WarpEffect;

#[test]
fn sphere_mesh_has_expected_counts() {
    let m = generate_sphere(16, 16);
    assert_eq!(m.vertices.len(), 17 * 17);
    assert_eq!(m.faces.len(), 2 * 16 * 16);
    for &(a, b, c) in m.faces.iter() {
        assert!(a < m.vertices.len() && b < m.vertices.len() && c < m.vertices.len());
    }
    // Every vertex sits close to the unit sphere.
    for v in m.vertices.iter() {
        let len = v.length();
        assert!((len - FX).abs() < 700, "vertex length {}", len);
    }
}

#[test]
fn sphere_silhouette_radius_matches_projection() {
    // A unit sphere four units in front of a sixty-degree camera on a
    // square target of two hundred pixels projects to a circular
    // silhouette of about forty-five pixels radius.
    let size: usize = 200;
    let mesh = generate_sphere(16, 16);
    let mut fb = Framebuffer::new(size, size);
    fb.clear(0);
    let mut pipeline = Pipeline::new(size, size);
    let view = Mat4::look_at(Vec3::new(0, 0, 4 * FX), Vec3::zero(), Vec3::unit_y());
    let proj = Mat4::perspective(deg_to_rad(60 * FX), FX, FX / 10, 100 * FX);
    let mvp = create_mvp_matrix(Mat4::identity(), view, proj);
    pipeline.set_mvp(mvp);
    pipeline.set_color(0xFFFFFFFF);
    pipeline.draw_mesh(&mut fb, &mesh.vertices, &mesh.faces);

    let c = (size / 2) as i64;
    let mut max_r2: i64 = -1;
    let mut lit = 0u32;
    for y in 0..size {
        for x in 0..size {
            if fb.get_pixel(x, y) == Some(0xFFFFFFFF) {
                lit += 1;
                let dx = x as i64 - c;
                let dy = y as i64 - c;
                let r2 = dx * dx + dy * dy;
                if r2 > max_r2 {
                    max_r2 = r2;
                }
            }
        }
    }
    assert!(lit > 1000, "only {} pixels lit", lit);
    assert_eq!(fb.get_pixel(size / 2, size / 2), Some(0xFFFFFFFF));
    // Expected radius: tan(asin(1/4)) / tan(30 degrees) scaled by
    // half the target, about 44.7 pixels, with slack for the
    // sixteen-segment polygonalization.
    assert!(max_r2 <= 48 * 48, "silhouette radius {} too large", max_r2);
    assert!(max_r2 >= 40 * 40, "silhouette radius {} too small", max_r2);
}

#[test]
fn solar_system_updates_orbits() {
    let mesh = generate_sphere(8, 8);
    let mut sys = SolarSystem::new(mesh);
    assert_eq!(sys.planets.len(), 3);
    let before = sys.planets[0].orbit_angle;
    sys.update(FX);
    // One second advances the first planet by its orbit speed.
    assert_eq!(sys.planets[0].orbit_angle, before + 26214);
    assert_eq!(sys.sun.orbit_angle, 0);
}

#[test]
fn solar_system_renders_some_pixels() {
    let mesh = generate_sphere(8, 8);
    let sys = SolarSystem::new(mesh);
    let mut fb = Framebuffer::new(128, 128);
    fb.clear(0);
    let mut pipeline = Pipeline::new(128, 128);
    let view = Mat4::look_at(Vec3::new(0, 5 * FX, 30 * FX), Vec3::zero(), Vec3::unit_y());
    let proj = Mat4::perspective(deg_to_rad(60 * FX), FX, FX / 10, 1000 * FX);
    sys.render(&mut fb, &mut pipeline, view, proj);
    let lit = fb.buffer.iter().filter(|&&c| c != 0).count();
    assert!(lit > 50, "only {} pixels lit", lit);
}

#[test]
fn camera_movement_and_view() {
    let mut cam = FreeCamera::new(Vec3::new(0, 0, 0));
    // With zero yaw and pitch the camera faces positive Z.
    let f = cam.forward();
    assert!(f.x.abs() < 64 && f.y.abs() < 64, "forward {:?}", f);
    assert!((f.z - FX).abs() < 64, "forward {:?}", f);
    cam.move_forward(2 * FX);
    assert!((cam.position.z - 2 * FX).abs() < 200);
    cam.move_up(3 * FX);
    assert_eq!(cam.position.y, 3 * FX);
    let view = cam.view_matrix();
    // The view matrix carries the camera position into the origin.
    let p = view.mul_point(cam.position);
    assert!(p.x.abs() < 400 && p.y.abs() < 400 && p.z.abs() < 400, "{:?}", p);
}

#[test]
fn warp_interpolates_camera() {
    let mut warp = WarpEffect::new();
    let mut pos = Vec3::new(0, 0, 0);
    // Inactive warps change nothing.
    warp.update(FX / 10, &mut pos);
    assert_eq!(pos, Vec3::new(0, 0, 0));
    warp.start(Vec3::new(0, 0, 0), Vec3::new(10 * FX, 0, 0));
    // The duration is one and a half seconds; after two seconds the
    // warp has finished at the far end.
    warp.update(2 * FX, &mut pos);
    assert_eq!(pos, Vec3::new(10 * FX, 0, 0));
    assert!(!warp.active);
}

#[test]
fn warp_midpoint_uses_smoothstep() {
    let mut warp = WarpEffect::new();
    let mut pos = Vec3::new(0, 0, 0);
    warp.start(Vec3::new(0, 0, 0), Vec3::new(10 * FX, 0, 0));
    // Three quarters of a second is half the duration; the cubic
    // ease is exactly one half there.
    warp.update(49152, &mut pos);
    assert_eq!(pos.x, 5 * FX);
    assert!(warp.active);
}

#[test]
fn skybox_star_count_and_render() {
    let sky = Skybox::new(50);
    let mut fb = Framebuffer::new(64, 64);
    fb.clear(0xFF000000);
    let view = Mat4::identity();
    let proj = Mat4::perspective(deg_to_rad(60 * FX), FX, FX / 10, 1000 * FX);
    sky.render(&mut fb, view, proj);
    // Stars only ever paint white.
    for &c in fb.buffer.iter() {
        assert!(c == 0xFF000000 || c == 0xFFFFFFFF);
    }
}

#[test]
fn mesh_center_moves_bounding_box_to_origin() {
    let vertices = vec![
        Vec3::new(2 * FX, 4 * FX, 6 * FX),
        Vec3::new(4 * FX, 8 * FX, 10 * FX),
    ];
    let mut mesh = Mesh::new(vertices, vec![]);
    mesh.center();
    assert_eq!(mesh.vertices[0], Vec3::new(-FX, -2 * FX, -2 * FX));
    assert_eq!(mesh.vertices[1], Vec3::new(FX, 2 * FX, 2 * FX));
}

#[test]
fn mesh_scale_and_translate() {
    let vertices = vec![Vec3::new(FX, 2 * FX, 3 * FX)];
    let mut mesh = Mesh::new(vertices, vec![(0, 0, 0)]);
    mesh.scale(2 * FX);
    assert_eq!(mesh.vertices[0], Vec3::new(2 * FX, 4 * FX, 6 * FX));
    mesh.translate(Vec3::new(-FX, 0, FX));
    assert_eq!(mesh.vertices[0], Vec3::new(FX, 4 * FX, 7 * FX));
    assert_eq!(mesh.faces[0], (0, 0, 0));
}

#[test]
fn render_ship_sets_pipeline_state() {
    let vertices = vec![
        Vec3::new(-FX, 0, 0),
        Vec3::new(FX, 0, 0),
        Vec3::new(0, FX, 0),
    ];
    let faces = vec![(0usize, 1usize, 2usize)];
    let ship = Mesh::new(vertices, faces);
    let mut fb = Framebuffer::new(64, 64);
    fb.clear(0);
    let mut pipeline = Pipeline::new(64, 64);
    let camera = FreeCamera::new(Vec3::new(0, 0, 0));
    let view = camera.view_matrix();
    let proj = Mat4::perspective(deg_to_rad(60 * FX), FX, FX / 10, 100 * FX);
    render_ship(&mut fb, &mut pipeline, &camera, &ship, 6 * FX, -FX, 13107, view, proj);
    assert_eq!(pipeline.color, 0xFFFFFFFF);
    // Whatever was drawn is the ship's flat white.
    for &c in fb.buffer.iter() {
        assert!(c == 0 || c == 0xFFFFFFFF);
    }
}

#[test]
fn spaceship_follows_camera() {
    let ship_mesh = Mesh::new(vec![], vec![]);
    let mut ship = SpaceShip::new(ship_mesh);
    let camera = FreeCamera::new(Vec3::new(0, 0, 0));
    ship.update_from_camera(&camera);
    assert_eq!(ship.yaw, 0);
    assert_eq!(ship.pitch, 0);
    // The ship hovers two and a half units ahead, along positive Z.
    assert!(ship.position.x.abs() < 300);
    assert!((ship.position.z - 163840).abs() < 300, "z {}", ship.position.z);
}
