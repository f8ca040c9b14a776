use vstd::prelude::*;
use crate::scalar::Scalar;
use crate::structures::vec3::Vec3;
use crate::aabb::{AABB, surrounding, surrounding_box};
use crate::objects::sphere::Roots;

verus! {

/// A ball that moves in a straight line from `center0` at `time0` to
/// `center1` at `time1`.
#[derive(Clone, Copy, Debug)]
pub struct MovingSphere {
    pub center0: Vec3,
    pub center1: Vec3,
    pub radius: Scalar,
    pub material: usize,
    pub time0: Scalar,
    pub time1: Scalar,
}

impl MovingSphere {
    pub fn new(
        center0: Vec3,
        center1: Vec3,
        time0: Scalar,
        time1: Scalar,
        radius: Scalar,
        material: usize,
    ) -> (s: MovingSphere)
        ensures
            s == (MovingSphere { center0, center1, radius, material, time0, time1 }),
    {
        MovingSphere { center0, center1, radius, material, time0, time1 }
    }

    /// The ray parameter at which a ray hits the ball within the window, from
    /// the roots of the quadratic for the ball where it is at the ray's time.
    pub fn hit(&self, roots: Roots, t_min: Scalar, t_max: Scalar) -> (t: Option<Scalar>)
        ensures
            t == roots.first_within(t_min, t_max),
    {
        roots.first_within(t_min, t_max)
    }

    /// The box of the ball over a stretch of time, from its box at the start
    /// of the stretch and its box at the end: the box around both.
    pub fn bounding_box(&self, box0: &AABB, box1: &AABB) -> (b: Option<AABB>)
        ensures
            b == Some(surrounding(*box0, *box1)),
    {
        Some(surrounding_box(box0, box1))
    }
}

} // verus!
