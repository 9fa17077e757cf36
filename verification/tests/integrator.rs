//! The recursive integrator, the frame driver and the serializer.

use tinyray::fixed::SCALE;
use tinyray::primitive::{Material, Sphere};
use tinyray::render::{cast_ray, frame_to_bytes, render, render_pixel};
use tinyray::scene::{Floor, Rotation, Scene};
use tinyray::vec3::Vec3;

/// About 0.7071 in fixed point: sine and cosine of forty-five degrees.
const DIAG: i64 = 46341;

fn single_sphere_scene() -> Scene {
    // One purely diffuse sphere of radius two straight ahead of the
    // camera, one light above, black background.
    Scene {
        spheres: vec![
            Sphere::new(
                Vec3::new(0, 0, -5 * SCALE),
                2 * SCALE,
                Material::new(SCALE, [SCALE, 0, 0, 0], Vec3::new(SCALE, 0, 0), 8),
            ),
        ],
        lights: vec![Vec3::new(0, 10 * SCALE, 0)],
        background: Vec3::new(0, 0, 0),
        floor: None,
        camera: Vec3::new(0, 0, 0),
        width: 1,
        height: 1,
        tan_half_fov: SCALE,
        rot_x: None,
        rot_y: None,
        rot_z: None,
        max_depth: 5,
    }
}

fn full_scene() -> Scene {
    let ivory = Material::new(SCALE, [58982, 32768, 6554, 0], Vec3::new(42598, 19661, 65536), 50);
    let glass = Material::new(98304, [0, 58982, 6554, 52429], Vec3::new(SCALE, SCALE, SCALE), 125);
    let rubber = Material::new(SCALE, [91750, 19661, 0, 0], Vec3::new(SCALE, 49152, 0), 10);
    let mirror = Material::new(SCALE, [0, 16 * SCALE, 52429, 0], Vec3::new(SCALE, SCALE, SCALE), 1425);
    Scene {
        spheres: vec![
            Sphere::new(Vec3::new(SCALE, 0, -6 * SCALE), 2 * SCALE, glass),
            Sphere::new(Vec3::new(-2 * SCALE, 229376, -8 * SCALE), 2 * SCALE, ivory),
            Sphere::new(Vec3::new(-2 * SCALE, 32768, -6 * SCALE), SCALE, rubber),
            Sphere::new(Vec3::new(5 * SCALE, 98304, -7 * SCALE), 2 * SCALE, mirror),
        ],
        lights: vec![Vec3::new(-20 * SCALE, 20 * SCALE, 20 * SCALE), Vec3::new(
            30 * SCALE,
            20 * SCALE,
            30 * SCALE,
        )],
        background: Vec3::new(SCALE, 0, 32768),
        floor: Some(Floor {
            y: -4 * SCALE,
            x_bound: 10 * SCALE,
            z_center: -10 * SCALE,
            z_bound: 8 * SCALE,
            light_color: Vec3::new(0, 0, 0),
            dark_color: Vec3::new(SCALE, SCALE, SCALE),
            dim: 19661,
        }),
        camera: Vec3::new(10 * SCALE, 12 * SCALE, 2 * SCALE),
        width: 8,
        height: 6,
        tan_half_fov: 37960,
        rot_x: Some(Rotation { sine: -DIAG, cosine: DIAG }),
        rot_y: Some(Rotation { sine: -DIAG, cosine: DIAG }),
        rot_z: None,
        max_depth: 5,
    }
}

#[test]
fn past_the_depth_bound_the_background_comes_back() {
    let scene = single_sphere_scene();
    // Direction aimed straight at the sphere: the depth bound still wins.
    let r = cast_ray(&scene, &Vec3::new(0, 0, 0), &Vec3::new(0, 0, -SCALE), 6);
    assert_eq!(r, Ok(Vec3::new(0, 0, 0)));
    let r = cast_ray(&scene, &Vec3::new(0, 0, 0), &Vec3::new(0, SCALE, 0), 100);
    assert_eq!(r, Ok(Vec3::new(0, 0, 0)));
}

#[test]
fn lit_diffuse_sphere_is_brighter_than_the_background() {
    let scene = single_sphere_scene();
    // The pixel ray through the sphere's center.
    let color = render_pixel(&scene, 0, 0).unwrap();
    assert_eq!(color, Vec3::new(18831, 0, 0));
    // Strictly brighter than the (black) background, and the reflective
    // and refractive albedo weights being zero leaves those terms out.
    assert!(color.x > scene.background.x);
    assert_eq!(color.y, 0);
    assert_eq!(color.z, 0);
}

#[test]
fn render_fills_the_frame_row_major() {
    let scene = single_sphere_scene();
    let frame = render(&scene).unwrap();
    assert_eq!(frame.len(), 1);
    assert_eq!(frame[0], Vec3::new(18831, 0, 0));
    assert_eq!(frame_to_bytes(&frame), vec![73, 0, 0]);
}

#[test]
fn rendering_twice_is_byte_identical() {
    let scene = full_scene();
    assert!(scene.valid());
    let once = render(&scene).unwrap();
    let twice = render(&scene).unwrap();
    assert_eq!(once.len(), 48);
    assert_eq!(once, twice);
    assert_eq!(frame_to_bytes(&once), frame_to_bytes(&twice));
}

#[test]
fn frame_bytes_scale_overbright_pixels_only() {
    let frame = vec![
        Vec3::new(2 * SCALE, SCALE, 0),
        Vec3::new(SCALE / 2, 0, 0),
        Vec3::new(-SCALE, SCALE, 0),
    ];
    assert_eq!(frame_to_bytes(&frame), vec![255, 127, 0, 127, 0, 0, 0, 255, 0]);
}
