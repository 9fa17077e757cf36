//! Fixed-point 3D vectors: the value type for points, directions and colors.
//!
//! The mathematical model of a vector is a triple of unbounded integers
//! (its components read as fixed-point scalars); every operation is specified
//! exactly on that model, including the rounding its fixed-point arithmetic
//! performs.

use crate::fixed::{
    clip_s, div_floor_s, fp_add, fp_add_s, fp_div, fp_div_s, fp_mul, fp_mul_s, fp_neg, fp_neg_s,
    fp_sqrt, fp_sqrt_s, in_range, div_floor_i128, FP_BOUND, SCALE,
};
use vstd::prelude::*;

verus! {

/// One of the two errors the rendering core can report: normalizing a
/// vector whose fixed-point norm is zero has no meaningful direction.
#[derive(Clone, Copy, Debug, PartialEq, Eq, Structural)]
pub enum RenderError {
    DegenerateVector,
}

/// A 3-component fixed-point vector.
#[derive(Clone, Copy, Debug, PartialEq, Eq, Structural)]
pub struct Vec3 {
    pub x: i64,
    pub y: i64,
    pub z: i64,
}

impl View for Vec3 {
    type V = (int, int, int);

    open spec fn view(&self) -> (int, int, int) {
        (self.x as int, self.y as int, self.z as int)
    }
}

/// Whether each component of the model triple is a representable scalar.
pub open spec fn tuple_in_range(a: (int, int, int)) -> bool {
    in_range(a.0) && in_range(a.1) && in_range(a.2)
}

/// Componentwise fixed-point sum.
pub open spec fn add_v(a: (int, int, int), b: (int, int, int)) -> (int, int, int) {
    (fp_add_s(a.0, b.0), fp_add_s(a.1, b.1), fp_add_s(a.2, b.2))
}

/// Componentwise fixed-point difference.
pub open spec fn sub_v(a: (int, int, int), b: (int, int, int)) -> (int, int, int) {
    (fp_add_s(a.0, -b.0), fp_add_s(a.1, -b.1), fp_add_s(a.2, -b.2))
}

/// Componentwise negation.
pub open spec fn neg_v(a: (int, int, int)) -> (int, int, int) {
    (fp_neg_s(a.0), fp_neg_s(a.1), fp_neg_s(a.2))
}

/// Scaling by a fixed-point scalar.
pub open spec fn scale_v(a: (int, int, int), s: int) -> (int, int, int) {
    (fp_mul_s(a.0, s), fp_mul_s(a.1, s), fp_mul_s(a.2, s))
}

/// Division of each component by a fixed-point scalar.
pub open spec fn div_v(a: (int, int, int), s: int) -> (int, int, int) {
    (fp_div_s(a.0, s), fp_div_s(a.1, s), fp_div_s(a.2, s))
}

/// Dot product: the exact sum of component products is divided by the
/// scale once (a single rounding), then clipped.
pub open spec fn dot_v(a: (int, int, int), b: (int, int, int)) -> int {
    clip_s(div_floor_s(a.0 * b.0 + a.1 * b.1 + a.2 * b.2, SCALE as int))
}

/// Euclidean norm: square root of the squared length.
pub open spec fn norm_v(a: (int, int, int)) -> int {
    fp_sqrt_s(dot_v(a, a))
}

/// The unit vector with the direction of `a` (defined for nonzero norm).
pub open spec fn normalized_v(a: (int, int, int)) -> (int, int, int) {
    div_v(a, norm_v(a))
}

impl Vec3 {
    /// Whether every component is a representable fixed-point scalar.
    pub open spec fn wf(self) -> bool {
        tuple_in_range(self@)
    }

    pub fn new(x: i64, y: i64, z: i64) -> (r: Vec3)
        ensures
            r@ == (x as int, y as int, z as int),
    {
        Vec3 { x, y, z }
    }

    pub fn add(self, other: Vec3) -> (r: Vec3)
        requires
            self.wf(),
            other.wf(),
        ensures
            r@ == add_v(self@, other@),
            r.wf(),
    {
        Vec3 { x: fp_add(self.x, other.x), y: fp_add(self.y, other.y), z: fp_add(self.z, other.z) }
    }

    pub fn sub(self, other: Vec3) -> (r: Vec3)
        requires
            self.wf(),
            other.wf(),
        ensures
            r@ == sub_v(self@, other@),
            r.wf(),
    {
        Vec3 {
            x: fp_add(self.x, fp_neg(other.x)),
            y: fp_add(self.y, fp_neg(other.y)),
            z: fp_add(self.z, fp_neg(other.z)),
        }
    }

    pub fn neg(self) -> (r: Vec3)
        requires
            self.wf(),
        ensures
            r@ == neg_v(self@),
            r.wf(),
    {
        Vec3 { x: fp_neg(self.x), y: fp_neg(self.y), z: fp_neg(self.z) }
    }

    /// Scalar multiple (the original's `Vec3 * scalar`).
    pub fn scale(self, s: i64) -> (r: Vec3)
        requires
            self.wf(),
            in_range(s as int),
        ensures
            r@ == scale_v(self@, s as int),
            r.wf(),
    {
        Vec3 { x: fp_mul(self.x, s), y: fp_mul(self.y, s), z: fp_mul(self.z, s) }
    }

    /// Componentwise division by a scalar (the original's `Vec3 / scalar`).
    pub fn div_scalar(self, s: i64) -> (r: Vec3)
        requires
            self.wf(),
            in_range(s as int),
            s != 0,
        ensures
            r@ == div_v(self@, s as int),
            r.wf(),
    {
        Vec3 { x: fp_div(self.x, s), y: fp_div(self.y, s), z: fp_div(self.z, s) }
    }

    /// Dot product (the original's `Vec3 * Vec3`).
    pub fn dot(self, other: Vec3) -> (r: i64)
        requires
            self.wf(),
            other.wf(),
        ensures
            r == dot_v(self@, other@),
            in_range(r as int),
    {
        proof {
            assert(-0x1000_0000_0000_0000_0000_0000 <= (self.x as int) * (other.x as int)
                <= 0x1000_0000_0000_0000_0000_0000 && -0x1000_0000_0000_0000_0000_0000 <= (
            self.y as int) * (other.y as int) <= 0x1000_0000_0000_0000_0000_0000
                && -0x1000_0000_0000_0000_0000_0000 <= (self.z as int) * (other.z as int)
                <= 0x1000_0000_0000_0000_0000_0000) by (nonlinear_arith)
                requires
                    self.wf(),
                    other.wf(),
            ;
        }
        let p: i128 = (self.x as i128) * (other.x as i128) + (self.y as i128) * (other.y as i128)
            + (self.z as i128) * (other.z as i128);
        let q: i128 = div_floor_i128(p, SCALE as i128);
        crate::fixed::fp_clip_i128(q)
    }

    /// Component read by axis index (the original's `Vec3[usize]`):
    /// any index past the second reads the last component.
    pub fn component(self, index: usize) -> (r: i64)
        ensures
            r == (if index == 0 {
                self.x
            } else if index == 1 {
                self.y
            } else {
                self.z
            }),
    {
        match index {
            0 => self.x,
            1 => self.y,
            _ => self.z,
        }
    }

    /// Functional update by axis index (the original's `Vec3[usize] = v`).
    pub fn set_component(self, index: usize, value: i64) -> (r: Vec3)
        ensures
            index == 0 ==> r@ == (value as int, self.y as int, self.z as int),
            index == 1 ==> r@ == (self.x as int, value as int, self.z as int),
            index >= 2 ==> r@ == (self.x as int, self.y as int, value as int),
    {
        match index {
            0 => Vec3 { x: value, ..self },
            1 => Vec3 { y: value, ..self },
            _ => Vec3 { z: value, ..self },
        }
    }

    /// Fixed-point Euclidean norm.
    pub fn norm(&self) -> (r: i64)
        requires
            self.wf(),
        ensures
            r == norm_v(self@),
            0 <= r <= FP_BOUND,
    {
        let d: i64 = self.dot(*self);
        proof {
            assert((self.x as int) * (self.x as int) + (self.y as int) * (self.y as int)
                + (self.z as int) * (self.z as int) >= 0) by (nonlinear_arith)
            ;
            vstd::arithmetic::div_mod::lemma_div_is_ordered(
                0,
                (self.x as int) * (self.x as int) + (self.y as int) * (self.y as int)
                    + (self.z as int) * (self.z as int),
                SCALE as int,
            );
        }
        fp_sqrt(d)
    }

    /// The unit vector with this vector's direction, or an error when the
    /// fixed-point norm is zero and no direction can be recovered.
    pub fn normalized(&self) -> (r: Result<Vec3, RenderError>)
        requires
            self.wf(),
        ensures
            norm_v(self@) == 0 <==> r == Err::<Vec3, RenderError>(RenderError::DegenerateVector),
            r matches Ok(u) ==> u@ == normalized_v(self@) && u.wf(),
    {
        let length: i64 = self.norm();
        if length == 0 {
            Err(RenderError::DegenerateVector)
        } else {
            Ok(self.div_scalar(length))
        }
    }
}

} // verus!
