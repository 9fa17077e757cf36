//! Ray-primitive and ray-scene intersection, and scene validation.

use tinyray::fixed::SCALE;
use tinyray::primitive::{Material, Sphere};
use tinyray::render::{ray_sphere_intersect, scene_intersect};
use tinyray::scene::{Floor, Scene};
use tinyray::vec3::Vec3;

fn diffuse_red() -> Material {
    Material::new(SCALE, [SCALE, 0, 0, 0], Vec3::new(SCALE, 0, 0), 8)
}

fn bare_scene() -> Scene {
    Scene {
        spheres: Vec::new(),
        lights: Vec::new(),
        background: Vec3::new(0, 0, 0),
        floor: None,
        camera: Vec3::new(0, 0, 0),
        width: 1,
        height: 1,
        tan_half_fov: SCALE,
        rot_x: None,
        rot_y: None,
        rot_z: None,
        max_depth: 5,
    }
}

#[test]
fn ray_at_sphere_center_hits_at_distance_minus_radius() {
    let orig = Vec3::new(0, 0, 0);
    let dir = Vec3::new(0, 0, -SCALE);
    let sphere = Sphere::new(Vec3::new(0, 0, -5 * SCALE), 2 * SCALE, diffuse_red());
    let (hit, t) = ray_sphere_intersect(&orig, &dir, &sphere);
    assert!(hit);
    assert_eq!(t, 3 * SCALE);
}

#[test]
fn ray_passing_wide_of_the_sphere_misses() {
    let orig = Vec3::new(0, 0, 0);
    let dir = Vec3::new(0, 0, -SCALE);
    let sphere = Sphere::new(Vec3::new(10 * SCALE, 0, 0), SCALE, diffuse_red());
    assert_eq!(ray_sphere_intersect(&orig, &dir, &sphere), (false, 0));
}

#[test]
fn empty_scene_reports_no_hit() {
    let scene = bare_scene();
    let r = scene_intersect(&scene, &Vec3::new(0, 0, 0), &Vec3::new(0, 0, -SCALE));
    assert!(matches!(r, Ok(None)));
    let r = scene_intersect(&scene, &Vec3::new(7 * SCALE, -SCALE, 0), &Vec3::new(0, SCALE, 0));
    assert!(matches!(r, Ok(None)));
}

#[test]
fn nearest_sphere_wins() {
    let mut scene = bare_scene();
    scene.spheres.push(Sphere::new(Vec3::new(0, 0, -9 * SCALE), SCALE, diffuse_red()));
    scene.spheres.push(Sphere::new(Vec3::new(0, 0, -5 * SCALE), 2 * SCALE, diffuse_red()));
    let r = scene_intersect(&scene, &Vec3::new(0, 0, 0), &Vec3::new(0, 0, -SCALE));
    let hit = r.unwrap().unwrap();
    assert_eq!(hit.point, Vec3::new(0, 0, -3 * SCALE));
    assert_eq!(hit.normal, Vec3::new(0, 0, SCALE));
}

#[test]
fn floor_hit_gets_the_dimmed_checker_color() {
    let mut scene = bare_scene();
    scene.floor = Some(Floor {
        y: -4 * SCALE,
        x_bound: 10 * SCALE,
        z_center: -10 * SCALE,
        z_bound: 8 * SCALE,
        light_color: Vec3::new(0, 0, 0),
        dark_color: Vec3::new(SCALE, SCALE, SCALE),
        dim: 19661,
    });
    let down = Vec3::new(0, -SCALE, 0);
    // Even cell parity: the light color, dimmed (black stays black).
    let h = scene_intersect(&scene, &Vec3::new(0, 10 * SCALE, -10 * SCALE), &down)
        .unwrap()
        .unwrap();
    assert_eq!(h.point, Vec3::new(0, -4 * SCALE, -10 * SCALE));
    assert_eq!(h.normal, Vec3::new(0, SCALE, 0));
    assert_eq!(h.material.diffuse_color, Vec3::new(0, 0, 0));
    // One unit over in x: odd parity, the dimmed dark color.
    let h = scene_intersect(&scene, &Vec3::new(SCALE, 10 * SCALE, -10 * SCALE), &down)
        .unwrap()
        .unwrap();
    assert_eq!(h.material.diffuse_color, Vec3::new(19661, 19661, 19661));
    // Outside the rectangular bounds: no hit.
    let r = scene_intersect(&scene, &Vec3::new(11 * SCALE, 10 * SCALE, -10 * SCALE), &down);
    assert!(matches!(r, Ok(None)));
}

#[test]
fn void_material_marks_nothing_by_itself() {
    let m = Material::void();
    assert_eq!(m.refractive_index, SCALE);
    assert_eq!(m.albedo, [2 * SCALE, 0, 0, 0]);
    assert_eq!(m.diffuse_color, Vec3::new(0, 0, 0));
    assert_eq!(m.specular_exponent, 0);
}

#[test]
fn scene_validation_accepts_sane_and_rejects_malformed() {
    let mut scene = bare_scene();
    scene.spheres.push(Sphere::new(Vec3::new(0, 0, -5 * SCALE), 2 * SCALE, diffuse_red()));
    scene.lights.push(Vec3::new(0, 10 * SCALE, 0));
    assert!(scene.valid());
    // A sphere of non-positive radius is malformed and must be caught
    // at load time.
    scene.spheres.push(Sphere::new(Vec3::new(0, 0, 0), 0, diffuse_red()));
    assert!(!scene.valid());
    scene.spheres.pop();
    assert!(scene.valid());
    // So is a non-positive field-of-view tangent.
    scene.tan_half_fov = 0;
    assert!(!scene.valid());
}
