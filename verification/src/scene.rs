//! Scene configuration: geometry, lights, camera and rendering limits.
//!
//! A `Scene` is built once before rendering and never mutated.  Its
//! well-formedness (`Scene::wf`) is what every rendering contract assumes;
//! `Scene::valid` checks it at load time so a malformed configuration
//! fails fast instead of mid-render.

use crate::fixed::{in_range, FP_BOUND};
use crate::primitive::Sphere;
use crate::vec3::Vec3;
use vstd::prelude::*;

verus! {

/// Largest image side length a scene may ask for.
pub const MAX_IMAGE_SIDE: usize = 16384;

/// A horizontal checkerboard floor plane.
#[derive(Clone, Copy, Debug)]
pub struct Floor {
    /// Height of the plane: points on the floor have this y coordinate.
    pub y: i64,
    /// Points are on the floor only when their x magnitude is below this.
    pub x_bound: i64,
    /// Center of the floor's z extent.
    pub z_center: i64,
    /// Points are on the floor only when their z offset from `z_center`
    /// stays below this.
    pub z_bound: i64,
    /// Checker color for cells of even parity.
    pub light_color: Vec3,
    /// Checker color for cells of odd parity.
    pub dark_color: Vec3,
    /// Dimming factor applied to the chosen checker color.
    pub dim: i64,
}

impl Floor {
    pub open spec fn wf(self) -> bool {
        &&& in_range(self.y as int)
        &&& 0 < self.x_bound <= FP_BOUND as int
        &&& in_range(self.z_center as int)
        &&& 0 < self.z_bound <= FP_BOUND as int
        &&& self.light_color.wf()
        &&& self.dark_color.wf()
        &&& in_range(self.dim as int)
    }
}

/// A fixed camera-orientation rotation about one axis, given by the sine
/// and cosine of its angle (the configuration precomputes them).
#[derive(Clone, Copy, Debug)]
pub struct Rotation {
    pub sine: i64,
    pub cosine: i64,
}

impl Rotation {
    pub open spec fn wf(self) -> bool {
        in_range(self.sine as int) && in_range(self.cosine as int)
    }
}

/// The full read-only rendering configuration.
#[derive(Debug)]
pub struct Scene {
    pub spheres: Vec<Sphere>,
    pub lights: Vec<Vec3>,
    pub background: Vec3,
    pub floor: Option<Floor>,
    pub camera: Vec3,
    pub width: usize,
    pub height: usize,
    /// Tangent of half the vertical field of view, as a fixed-point scalar.
    pub tan_half_fov: i64,
    pub rot_x: Option<Rotation>,
    pub rot_y: Option<Rotation>,
    pub rot_z: Option<Rotation>,
    pub max_depth: u32,
}

impl Scene {
    pub open spec fn wf(self) -> bool {
        &&& forall|i: int| 0 <= i < self.spheres@.len() ==> (#[trigger] self.spheres@[i]).wf()
        &&& forall|i: int| 0 <= i < self.lights@.len() ==> (#[trigger] self.lights@[i]).wf()
        &&& self.background.wf()
        &&& (self.floor matches Some(f) ==> f.wf())
        &&& self.camera.wf()
        &&& 0 < self.width <= MAX_IMAGE_SIDE
        &&& 0 < self.height <= MAX_IMAGE_SIDE
        &&& 0 < self.tan_half_fov <= FP_BOUND as int
        &&& (self.rot_x matches Some(r) ==> r.wf())
        &&& (self.rot_y matches Some(r) ==> r.wf())
        &&& (self.rot_z matches Some(r) ==> r.wf())
        &&& self.max_depth < 0xffff_ffff
    }

    /// Load-time configuration check: decides `wf` exactly, so a caller
    /// outside the verified core can reject a malformed scene up front.
    pub fn valid(&self) -> (r: bool)
        ensures
            r == self.wf(),
    {
        let mut i: usize = 0;
        while i < self.spheres.len()
            invariant
                0 <= i <= self.spheres@.len(),
                forall|j: int| 0 <= j < i ==> (#[trigger] self.spheres@[j]).wf(),
            decreases self.spheres@.len() - i,
        {
            let s = &self.spheres[i];
            let m = &s.material;
            if !(s.center.x >= -FP_BOUND && s.center.x <= FP_BOUND && s.center.y >= -FP_BOUND
                && s.center.y <= FP_BOUND && s.center.z >= -FP_BOUND && s.center.z <= FP_BOUND
                && s.radius > 0 && s.radius <= FP_BOUND && m.refractive_index > 0
                && m.refractive_index <= FP_BOUND && m.albedo[0] >= -FP_BOUND && m.albedo[0]
                <= FP_BOUND && m.albedo[1] >= -FP_BOUND && m.albedo[1] <= FP_BOUND && m.albedo[2]
                >= -FP_BOUND && m.albedo[2] <= FP_BOUND && m.albedo[3] >= -FP_BOUND && m.albedo[3]
                <= FP_BOUND && m.diffuse_color.x >= -FP_BOUND && m.diffuse_color.x <= FP_BOUND
                && m.diffuse_color.y >= -FP_BOUND && m.diffuse_color.y <= FP_BOUND
                && m.diffuse_color.z >= -FP_BOUND && m.diffuse_color.z <= FP_BOUND) {
                return false;
            }
            i = i + 1;
        }
        let mut i: usize = 0;
        while i < self.lights.len()
            invariant
                0 <= i <= self.lights@.len(),
                forall|j: int| 0 <= j < i ==> (#[trigger] self.lights@[j]).wf(),
            decreases self.lights@.len() - i,
        {
            let l = &self.lights[i];
            if !(l.x >= -FP_BOUND && l.x <= FP_BOUND && l.y >= -FP_BOUND && l.y <= FP_BOUND
                && l.z >= -FP_BOUND && l.z <= FP_BOUND) {
                return false;
            }
            i = i + 1;
        }
        if !(self.background.x >= -FP_BOUND && self.background.x <= FP_BOUND && self.background.y
            >= -FP_BOUND && self.background.y <= FP_BOUND && self.background.z >= -FP_BOUND
            && self.background.z <= FP_BOUND) {
            return false;
        }
        if let Some(f) = &self.floor {
            if !(f.y >= -FP_BOUND && f.y <= FP_BOUND && f.x_bound > 0 && f.x_bound <= FP_BOUND
                && f.z_center >= -FP_BOUND && f.z_center <= FP_BOUND && f.z_bound > 0 && f.z_bound
                <= FP_BOUND && f.light_color.x >= -FP_BOUND && f.light_color.x <= FP_BOUND
                && f.light_color.y >= -FP_BOUND && f.light_color.y <= FP_BOUND && f.light_color.z
                >= -FP_BOUND && f.light_color.z <= FP_BOUND && f.dark_color.x >= -FP_BOUND
                && f.dark_color.x <= FP_BOUND && f.dark_color.y >= -FP_BOUND && f.dark_color.y
                <= FP_BOUND && f.dark_color.z >= -FP_BOUND && f.dark_color.z <= FP_BOUND && f.dim
                >= -FP_BOUND && f.dim <= FP_BOUND) {
                return false;
            }
        }
        if !(self.camera.x >= -FP_BOUND && self.camera.x <= FP_BOUND && self.camera.y >= -FP_BOUND
            && self.camera.y <= FP_BOUND && self.camera.z >= -FP_BOUND && self.camera.z
            <= FP_BOUND) {
            return false;
        }
        if !(self.width > 0 && self.width <= MAX_IMAGE_SIDE && self.height > 0 && self.height
            <= MAX_IMAGE_SIDE) {
            return false;
        }
        if !(self.tan_half_fov > 0 && self.tan_half_fov <= FP_BOUND) {
            return false;
        }
        if let Some(r) = &self.rot_x {
            if !(r.sine >= -FP_BOUND && r.sine <= FP_BOUND && r.cosine >= -FP_BOUND && r.cosine
                <= FP_BOUND) {
                return false;
            }
        }
        if let Some(r) = &self.rot_y {
            if !(r.sine >= -FP_BOUND && r.sine <= FP_BOUND && r.cosine >= -FP_BOUND && r.cosine
                <= FP_BOUND) {
                return false;
            }
        }
        if let Some(r) = &self.rot_z {
            if !(r.sine >= -FP_BOUND && r.sine <= FP_BOUND && r.cosine >= -FP_BOUND && r.cosine
                <= FP_BOUND) {
                return false;
            }
        }
        if !(self.max_depth < 0xffff_ffff) {
            return false;
        }
        true
    }
}

} // verus!
