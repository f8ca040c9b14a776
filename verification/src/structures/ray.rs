//! Rays, as plain data.

use vstd::prelude::*;
use crate::scalar::Scalar;
use crate::structures::vec3::Vec3;

verus! {

/// A half-line: where it starts, where it heads, and the moment it was cast.
#[derive(Clone, Copy, Debug)]
pub struct Ray {
    pub origin: Vec3,
    pub direction: Vec3,
    pub time: Scalar,
}

impl Ray {
    pub fn new(origin: Vec3, direction: Vec3, time: Scalar) -> (r: Ray)
        ensures
            r == (Ray { origin, direction, time }),
    {
        Ray { origin, direction, time }
    }
}

} // verus!
