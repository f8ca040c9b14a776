use vstd::prelude::*;
use crate::scalar::Scalar;
use crate::structures::vec3::Vec3;
use crate::aabb::{AABB, surrounding, surrounding_box, surrounding_box_covers, thickened_is_thick};
use crate::color::ONE_BITS;

verus! {

/// The bit pattern of 1e-7: a determinant closer to zero than this means the
/// ray runs along the triangle's plane.
pub const EPSILON_BITS: u32 = 0x33d6_bf95;

/// The bit pattern of -1e-7.
pub const MINUS_EPSILON_BITS: u32 = 0xb3d6_bf95;

/// What the Moeller-Trumbore arithmetic yields for one ray and one triangle.
#[derive(Clone, Copy, Debug)]
pub struct Barycentric {
    /// The determinant.
    pub det: Scalar,
    /// The first barycentric coordinate of the crossing point.
    pub u: Scalar,
    /// The second barycentric coordinate.
    pub v: Scalar,
    /// The sum of the two.
    pub sum: Scalar,
    /// The ray parameter of the crossing point.
    pub t: Scalar,
}

impl Barycentric {
    /// Whether the ray runs across the plane rather than along it: the
    /// determinant is at most -1e-7 or at least 1e-7. A determinant that is
    /// not a number is neither.
    pub open spec fn crosses(self) -> bool {
        self.det.le(Scalar { bits: MINUS_EPSILON_BITS }) || self.det.ge(Scalar { bits: EPSILON_BITS })
    }

    /// Whether the crossing point lies within the triangle: both coordinates
    /// are at least zero, the first is at most one, and their sum is at most
    /// one. A coordinate that is not a number lies within nothing.
    pub open spec fn within(self) -> bool {
        &&& Scalar::zero().le(self.u) && self.u.le(Scalar { bits: ONE_BITS })
        &&& Scalar::zero().le(self.v)
        &&& self.sum.le(Scalar { bits: ONE_BITS })
    }

    /// Whether the ray hits: it runs across the plane, the crossing point
    /// lies within the triangle, and its parameter lies strictly inside the
    /// window.
    pub open spec fn spec_accepts(self, t_min: Scalar, t_max: Scalar) -> bool {
        self.crosses() && self.within() && self.t.lt(t_max) && self.t.gt(t_min)
    }

    #[verifier::when_used_as_spec(spec_accepts)]
    pub fn accepts(self, t_min: Scalar, t_max: Scalar) -> (hit: bool)
        ensures
            hit == self.spec_accepts(t_min, t_max),
    {
        if !(self.det.le(Scalar { bits: MINUS_EPSILON_BITS }) || self.det.ge(Scalar { bits: EPSILON_BITS })) {
            return false;
        }
        if !(Scalar::zero().le(self.u) && self.u.le(Scalar { bits: ONE_BITS })) {
            return false;
        }
        if !(Scalar::zero().le(self.v) && self.sum.le(Scalar { bits: ONE_BITS })) {
            return false;
        }
        self.t.lt(t_max) && self.t.gt(t_min)
    }
}

/// Where a ray hits, everything about the hit is a number: the determinant
/// is at least 1e-7 away from zero, the barycentric coordinates are not
/// negative and do not sum to more than one, and the hit lies strictly inside
/// the window.
pub proof fn accepted_is_inside(b: Barycentric, t_min: Scalar, t_max: Scalar)
    requires
        b.accepts(t_min, t_max),
    ensures
        b.det.is_number() && b.u.is_number() && b.v.is_number() && b.sum.is_number() && b.t.is_number(),
        b.det.rank() <= (Scalar { bits: MINUS_EPSILON_BITS }).rank() || b.det.rank() >= EPSILON_BITS,
        0 <= b.u.rank() <= ONE_BITS,
        0 <= b.v.rank(),
        b.sum.rank() <= ONE_BITS,
        t_min.rank() < b.t.rank() < t_max.rank(),
{
}

/// A flat triangle.
#[derive(Clone, Copy, Debug)]
pub struct Triangle {
    pub vertex0: Vec3,
    pub vertex1: Vec3,
    pub vertex2: Vec3,
    pub material: usize,
}

impl Triangle {
    /// The smallest box around the three corners. It has no thickness along
    /// an axis on which the three corners agree.
    pub open spec fn spec_corners(&self) -> AABB {
        AABB {
            min: self.vertex0.min(self.vertex1.min(self.vertex2)),
            max: self.vertex0.max(self.vertex1.max(self.vertex2)),
        }
    }

    /// The box of the triangle, given the box `padded` that the caller has
    /// made by widening the box of the corners a little: the box around both,
    /// and where that still has no thickness along an axis, moved apart there
    /// by one number each way.
    pub open spec fn bounds(self, padded: AABB) -> AABB {
        surrounding(self.spec_corners(), padded).thickened()
    }

    pub fn new(vertex0: Vec3, vertex1: Vec3, vertex2: Vec3, material: usize) -> (t: Triangle)
        ensures
            t == (Triangle { vertex0, vertex1, vertex2, material }),
    {
        Triangle { vertex0, vertex1, vertex2, material }
    }

    /// Whether a ray hits the triangle within the window, from what the
    /// intersection arithmetic yields for the two.
    pub fn hit(&self, crossing: Barycentric, t_min: Scalar, t_max: Scalar) -> (hit: bool)
        ensures
            hit == crossing.accepts(t_min, t_max),
    {
        crossing.accepts(t_min, t_max)
    }

    #[verifier::when_used_as_spec(spec_corners)]
    pub fn corners(&self) -> (b: AABB)
        ensures
            b == self.spec_corners(),
    {
        AABB {
            min: self.vertex0.min(self.vertex1.min(self.vertex2)),
            max: self.vertex0.max(self.vertex1.max(self.vertex2)),
        }
    }

    /// The box of the triangle. `padded` is the box of the corners widened a
    /// little by the caller, so that a triangle that lies in a plane across
    /// an axis gets a box with thickness.
    pub fn bounding_box(&self, padded: &AABB) -> (b: Option<AABB>)
        ensures
            b == Some(self.bounds(*padded)),
            self.vertex0.is_numeric() && self.vertex1.is_numeric() && self.vertex2.is_numeric()
                && padded.is_numeric() ==> {
                &&& b->0.is_thick()
                &&& b->0.contains(self.vertex0)
                &&& b->0.contains(self.vertex1)
                &&& b->0.contains(self.vertex2)
            },
    {
        proof {
            if self.vertex0.is_numeric() && self.vertex1.is_numeric() && self.vertex2.is_numeric()
                && padded.is_numeric() {
                bounds_hold_corners(*self, *padded);
            }
        }
        Some(surrounding_box(&self.corners(), padded).thickened())
    }
}

/// The box of a triangle holds its three corners and has thickness along
/// every axis, whatever the padding, as long as all coordinates are numbers.
pub proof fn bounds_hold_corners(t: Triangle, padded: AABB)
    requires
        t.vertex0.is_numeric(),
        t.vertex1.is_numeric(),
        t.vertex2.is_numeric(),
        padded.is_numeric(),
    ensures
        t.bounds(padded).is_numeric(),
        t.bounds(padded).is_thick(),
        t.bounds(padded).contains(t.vertex0),
        t.bounds(padded).contains(t.vertex1),
        t.bounds(padded).contains(t.vertex2),
        forall|p: Vec3| padded.contains(p) ==> #[trigger] t.bounds(padded).contains(p),
{
    let tight = t.spec_corners();
    let both = surrounding(tight, padded);
    assert(tight.contains(t.vertex0) && tight.contains(t.vertex1) && tight.contains(t.vertex2));
    surrounding_box_covers(tight, padded);
    assert(both.contains(t.vertex0));
    thickened_is_thick(both);
}

} // verus!
