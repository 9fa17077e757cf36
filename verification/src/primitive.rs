//! Scene primitives: surface materials and spheres.

use crate::fixed::{in_range, FP_BOUND, SCALE};
use crate::vec3::Vec3;
use vstd::prelude::*;

verus! {

/// A surface description: refractive index, the four albedo weights
/// (in order: diffuse, specular, reflective, refractive strength), the
/// base diffuse color, and the specular exponent.
#[derive(Clone, Copy, Debug)]
pub struct Material {
    pub refractive_index: i64,
    pub albedo: [i64; 4],
    pub diffuse_color: Vec3,
    pub specular_exponent: u32,
}

/// Mathematical model of a material: its scalars as unbounded integers.
pub ghost struct MaterialModel {
    pub refractive_index: int,
    pub albedo: (int, int, int, int),
    pub diffuse_color: (int, int, int),
    pub specular_exponent: nat,
}

impl View for Material {
    type V = MaterialModel;

    open spec fn view(&self) -> MaterialModel {
        MaterialModel {
            refractive_index: self.refractive_index as int,
            albedo: (
                self.albedo[0] as int,
                self.albedo[1] as int,
                self.albedo[2] as int,
                self.albedo[3] as int,
            ),
            diffuse_color: self.diffuse_color@,
            specular_exponent: self.specular_exponent as nat,
        }
    }
}

/// The model of the probe-seed material `Material::void` returns.
pub open spec fn void_material_model() -> MaterialModel {
    MaterialModel {
        refractive_index: SCALE as int,
        albedo: (2 * (SCALE as int), 0int, 0int, 0int),
        diffuse_color: (0int, 0int, 0int),
        specular_exponent: 0nat,
    }
}

impl Material {
    /// Whether the material's scalars are representable and its
    /// refractive index is positive (so refraction can divide by it).
    pub open spec fn wf(self) -> bool {
        &&& 0 < self.refractive_index <= FP_BOUND as int
        &&& in_range(self.albedo[0] as int)
        &&& in_range(self.albedo[1] as int)
        &&& in_range(self.albedo[2] as int)
        &&& in_range(self.albedo[3] as int)
        &&& self.diffuse_color.wf()
    }

    pub fn new(refractive_index: i64, albedo: [i64; 4], diffuse_color: Vec3, specular_exponent: u32) -> (r: Material)
        ensures
            r.refractive_index == refractive_index,
            r.albedo == albedo,
            r.diffuse_color == diffuse_color,
            r.specular_exponent == specular_exponent,
    {
        Material { refractive_index, albedo, diffuse_color, specular_exponent }
    }

    /// The material a fresh intersection probe starts from: index one,
    /// black, inert.  A floor hit keeps it and only replaces the diffuse
    /// color; whether anything was hit at all is an explicit `Option`,
    /// never read off these fields.
    pub fn void() -> (r: Material)
        ensures
            r@ == void_material_model(),
            r.wf(),
    {
        Material {
            refractive_index: SCALE,
            albedo: [2 * SCALE, 0, 0, 0],
            diffuse_color: Vec3 { x: 0, y: 0, z: 0 },
            specular_exponent: 0,
        }
    }
}

/// A sphere with its surface material.
#[derive(Clone, Copy, Debug)]
pub struct Sphere {
    pub center: Vec3,
    pub radius: i64,
    pub material: Material,
}

impl Sphere {
    /// Whether the sphere is a sensible primitive: representable center,
    /// strictly positive radius, well-formed material.
    pub open spec fn wf(self) -> bool {
        &&& self.center.wf()
        &&& 0 < self.radius <= FP_BOUND as int
        &&& self.material.wf()
    }

    pub fn new(center: Vec3, radius: i64, material: Material) -> (r: Sphere)
        ensures
            r.center == center,
            r.radius == radius,
            r.material == material,
    {
        Sphere { center, radius, material }
    }
}

} // verus!
