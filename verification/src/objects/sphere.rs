use vstd::prelude::*;
use crate::scalar::Scalar;
use crate::structures::vec3::Vec3;

verus! {

/// What solving the ray-sphere quadratic yields: its discriminant, and the
/// two ray parameters at which the ray crosses the sphere, the nearer first.
#[derive(Clone, Copy, Debug)]
pub struct Roots {
    pub discriminant: Scalar,
    pub near: Scalar,
    pub far: Scalar,
}

impl Roots {
    /// Whether `t` lies strictly between `t_min` and `t_max`.
    pub open spec fn within(t: Scalar, t_min: Scalar, t_max: Scalar) -> bool {
        t.lt(t_max) && t.gt(t_min)
    }

    /// The root that counts as the hit: none unless the discriminant is above
    /// zero; then the nearer root if it lies strictly inside the window, else
    /// the farther one if that does.
    pub open spec fn spec_first_within(self, t_min: Scalar, t_max: Scalar) -> Option<Scalar> {
        if !self.discriminant.gt(Scalar::zero()) {
            None
        } else if Roots::within(self.near, t_min, t_max) {
            Some(self.near)
        } else if Roots::within(self.far, t_min, t_max) {
            Some(self.far)
        } else {
            None
        }
    }

    pub fn new(discriminant: Scalar, near: Scalar, far: Scalar) -> (r: Roots)
        ensures
            r == (Roots { discriminant, near, far }),
    {
        Roots { discriminant, near, far }
    }

    #[verifier::when_used_as_spec(spec_first_within)]
    pub fn first_within(self, t_min: Scalar, t_max: Scalar) -> (t: Option<Scalar>)
        ensures
            t == self.spec_first_within(t_min, t_max),
    {
        if !self.discriminant.gt(Scalar::zero()) {
            None
        } else if self.near.lt(t_max) && self.near.gt(t_min) {
            Some(self.near)
        } else if self.far.lt(t_max) && self.far.gt(t_min) {
            Some(self.far)
        } else {
            None
        }
    }
}

/// A root that is returned lies strictly inside the window, and no root that
/// lies inside the window is passed over for a farther one.
pub proof fn first_within_is_nearest(roots: Roots, t_min: Scalar, t_max: Scalar)
    requires
        roots.near.le(roots.far),
    ensures
        roots.first_within(t_min, t_max) matches Some(t) ==> {
            &&& Roots::within(t, t_min, t_max)
            &&& Roots::within(roots.near, t_min, t_max) ==> t == roots.near
            &&& Roots::within(roots.far, t_min, t_max) ==> t.le(roots.far)
        },
        roots.first_within(t_min, t_max) is None && roots.discriminant.gt(Scalar::zero()) ==> {
            &&& !Roots::within(roots.near, t_min, t_max)
            &&& !Roots::within(roots.far, t_min, t_max)
        },
{
}

/// A ball.
#[derive(Clone, Copy, Debug)]
pub struct Sphere {
    pub center: Vec3,
    pub radius: Scalar,
    pub material: usize,
}

impl Sphere {
    pub fn new(center: Vec3, radius: Scalar, material: usize) -> (s: Sphere)
        ensures
            s == (Sphere { center, radius, material }),
    {
        Sphere { center, radius, material }
    }

    /// The ray parameter at which a ray hits the ball within the window, from
    /// the roots of its quadratic.
    pub fn hit(&self, roots: Roots, t_min: Scalar, t_max: Scalar) -> (t: Option<Scalar>)
        ensures
            t == roots.first_within(t_min, t_max),
    {
        roots.first_within(t_min, t_max)
    }
}

} // verus!
