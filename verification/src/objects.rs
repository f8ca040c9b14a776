//! The shapes of a scene. Each holds its geometry and the handle of its
//! material, and decides, from the numbers that the intersection arithmetic
//! yields, whether a ray hits it.

use vstd::prelude::*;
use crate::scalar::Scalar;
use crate::structures::vec3::Vec3;
use crate::aabb::{AABB, enclosing, bounding_points};

pub mod sphere;
pub mod moving_sphere;
pub mod triangle;
pub mod rect;
pub mod rectbox;

verus! {

/// A turn about the y axis, applied to some other shape.
#[derive(Clone, Copy, Debug)]
pub struct RotateY {
    pub sin_theta: Scalar,
    pub cos_theta: Scalar,
    pub bbox: AABB,
}

impl RotateY {
    /// A turn by the angle whose sine and cosine are given. `corners` are the
    /// eight corners of the turned shape's own box, after the turn; the box of
    /// the whole is the smallest box around them.
    pub fn new(sin_theta: Scalar, cos_theta: Scalar, corners: &[Vec3; 8]) -> (turned: RotateY)
        ensures
            turned.sin_theta == sin_theta,
            turned.cos_theta == cos_theta,
            turned.bbox == enclosing(corners@, 8),
    {
        let around = bounding_points(corners.as_slice());
        let bbox = match around {
            Some(b) => b,
            None => AABB { min: corners[0], max: corners[0] },
        };
        RotateY { sin_theta, cos_theta, bbox }
    }

    pub fn bounding_box(&self) -> (b: Option<AABB>)
        ensures
            b == Some(self.bbox),
    {
        Some(self.bbox)
    }
}

} // verus!
