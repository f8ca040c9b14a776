//! Axis-aligned bounding boxes: merging them, and the slab test that tells
//! whether a ray passes through one.

use vstd::prelude::*;
use crate::scalar::Scalar;
use crate::structures::vec3::Vec3;
use crate::structures::ray::Ray;

verus! {

/// An axis-aligned box, given by its two extreme corners.
///
/// Nothing forces `min` to lie below `max`: a box that is flat along one axis,
/// or even inverted, is a legal value.
#[derive(Clone, Copy, Debug)]
pub struct AABB {
    pub min: Vec3,
    pub max: Vec3,
}

impl AABB {
    /// Whether none of the six coordinates is NaN.
    pub open spec fn is_numeric(self) -> bool {
        self.min.is_numeric() && self.max.is_numeric()
    }

    /// Whether `p` lies inside the box, faces included.
    pub open spec fn contains(self, p: Vec3) -> bool {
        &&& self.min.x.le(p.x) && p.x.le(self.max.x)
        &&& self.min.y.le(p.y) && p.y.le(self.max.y)
        &&& self.min.z.le(p.z) && p.z.le(self.max.z)
    }

    /// Whether the box has thickness along every axis: its minimum lies
    /// strictly below its maximum.
    pub open spec fn is_thick(self) -> bool {
        self.min.x.lt(self.max.x) && self.min.y.lt(self.max.y) && self.min.z.lt(self.max.z)
    }

    /// The box with thickness along every axis: where the minimum does not
    /// lie below the maximum, the minimum is moved to the next number below
    /// and the maximum to the next number above.
    pub open spec fn spec_thickened(self) -> AABB {
        AABB {
            min: Vec3 {
                x: AABB::lowered(self.min.x, self.max.x),
                y: AABB::lowered(self.min.y, self.max.y),
                z: AABB::lowered(self.min.z, self.max.z),
            },
            max: Vec3 {
                x: AABB::raised(self.min.x, self.max.x),
                y: AABB::raised(self.min.y, self.max.y),
                z: AABB::raised(self.min.z, self.max.z),
            },
        }
    }

    /// The lower end of the stretch from `lo` to `hi`, moved down by one
    /// number where the stretch has no length.
    pub open spec fn lowered(lo: Scalar, hi: Scalar) -> Scalar {
        if lo.lt(hi) {
            lo
        } else {
            lo.next_down()
        }
    }

    /// The upper end of the stretch from `lo` to `hi`, moved up by one number
    /// where the stretch has no length.
    pub open spec fn raised(lo: Scalar, hi: Scalar) -> Scalar {
        if lo.lt(hi) {
            hi
        } else {
            hi.next_up()
        }
    }

    #[verifier::when_used_as_spec(spec_thickened)]
    pub fn thickened(self) -> (b: AABB)
        ensures
            b == self.spec_thickened(),
    {
        let x = self.min.x.lt(self.max.x);
        let y = self.min.y.lt(self.max.y);
        let z = self.min.z.lt(self.max.z);
        AABB {
            min: Vec3 {
                x: if x { self.min.x } else { self.min.x.next_down() },
                y: if y { self.min.y } else { self.min.y.next_down() },
                z: if z { self.min.z } else { self.min.z.next_down() },
            },
            max: Vec3 {
                x: if x { self.max.x } else { self.max.x.next_up() },
                y: if y { self.max.y } else { self.max.y.next_up() },
                z: if z { self.max.z } else { self.max.z.next_up() },
            },
        }
    }

    pub fn new(min: Vec3, max: Vec3) -> (b: AABB)
        ensures
            b == (AABB { min, max }),
    {
        AABB { min, max }
    }
}

/// The smallest box around two boxes: per axis the smaller of the two minima
/// and the larger of the two maxima.
pub open spec fn surrounding(box0: AABB, box1: AABB) -> AABB {
    AABB { min: box0.min.min(box1.min), max: box0.max.max(box1.max) }
}

pub fn surrounding_box(box0: &AABB, box1: &AABB) -> (merged: AABB)
    ensures
        merged == surrounding(*box0, *box1),
{
    AABB { min: box0.min.min(box1.min), max: box0.max.max(box1.max) }
}

/// The smallest box around the first `n` of some points, for `n` at least
/// one: per axis the smallest and the largest of their coordinates.
pub open spec fn enclosing(points: Seq<Vec3>, n: int) -> AABB
    decreases n,
{
    if n <= 1 {
        AABB { min: points[0], max: points[0] }
    } else {
        let rest = enclosing(points, n - 1);
        AABB { min: rest.min.min(points[n - 1]), max: rest.max.max(points[n - 1]) }
    }
}

/// The smallest box around a set of points; `None` where there is no point.
pub fn bounding_points(points: &[Vec3]) -> (around: Option<AABB>)
    ensures
        around is None <==> points@.len() == 0,
        around is Some ==> around->0 == enclosing(points@, points@.len() as int),
{
    if points.len() == 0 {
        return None;
    }
    let mut lowest: Vec3 = points[0];
    let mut highest: Vec3 = points[0];
    let mut i: usize = 1;
    while i < points.len()
        invariant
            1 <= i <= points@.len(),
            (AABB { min: lowest, max: highest }) == enclosing(points@, i as int),
        decreases points@.len() - i,
    {
        lowest = lowest.min(points[i]);
        highest = highest.max(points[i]);
        i = i + 1;
    }
    Some(AABB { min: lowest, max: highest })
}

/// Every one of the points lies inside the box around them, as long as their
/// coordinates are numbers.
pub proof fn enclosing_contains(points: Seq<Vec3>, n: int, i: int)
    requires
        0 <= i < n <= points.len(),
        forall|k: int| 0 <= k < n ==> (#[trigger] points[k]).is_numeric(),
    ensures
        enclosing(points, n).is_numeric(),
        enclosing(points, n).contains(points[i]),
    decreases n,
{
    if n > 1 {
        enclosing_contains(points, n - 1, if i < n - 1 { i } else { 0 });
    }
}

/// Merging two boxes gives the same box whichever comes first, as long as
/// their coordinates are numbers.
pub proof fn surrounding_box_commutes(a: AABB, b: AABB)
    requires
        a.is_numeric(),
        b.is_numeric(),
    ensures
        surrounding(a, b) == surrounding(b, a),
{
}

/// Merging a box with itself gives that box back.
pub proof fn surrounding_box_absorbs(a: AABB)
    ensures
        surrounding(a, a) == a,
{
}

/// A box whose coordinates are numbers, and whose minimum lies nowhere
/// above its maximum, is thick once thickened, and still holds every point
/// that it held.
pub proof fn thickened_is_thick(a: AABB)
    requires
        a.is_numeric(),
        a.min.x.le(a.max.x) && a.min.y.le(a.max.y) && a.min.z.le(a.max.z),
    ensures
        a.thickened().is_numeric(),
        a.thickened().is_thick(),
        forall|p: Vec3| a.contains(p) ==> #[trigger] a.thickened().contains(p),
{
}

/// The merged box reaches at least as far as each of its two parts.
pub proof fn surrounding_box_covers(a: AABB, b: AABB)
    requires
        a.is_numeric(),
        b.is_numeric(),
    ensures
        surrounding(a, b).is_numeric(),
        forall|p: Vec3| a.contains(p) || b.contains(p) ==> #[trigger] surrounding(a, b).contains(p),
{
}

/// What a ray's arithmetic yields for one axis of one box: the reciprocal of
/// the ray's direction along that axis, and the ray parameters at which it
/// crosses the plane of the box's minimum (`t0`) and of its maximum (`t1`).
#[derive(Clone, Copy, Debug)]
pub struct Slab {
    pub inv_d: Scalar,
    pub t0: Scalar,
    pub t1: Scalar,
}

impl Slab {
    /// Whether the ray runs against the axis, so that it meets the plane of
    /// the maximum first.
    pub open spec fn reversed(self) -> bool {
        self.inv_d.lt(Scalar::zero())
    }

    /// The parameter at which the ray enters the slab.
    pub open spec fn spec_entry(self) -> Scalar {
        if self.reversed() {
            self.t1
        } else {
            self.t0
        }
    }

    /// The parameter at which the ray leaves the slab.
    pub open spec fn spec_exit(self) -> Scalar {
        if self.reversed() {
            self.t0
        } else {
            self.t1
        }
    }

    /// The same crossing seen with the axis turned round: the direction
    /// changes sign and the two planes change places.
    pub open spec fn mirrored(self) -> Slab {
        Slab { inv_d: self.inv_d.neg(), t0: self.t1, t1: self.t0 }
    }

    pub fn new(inv_d: Scalar, t0: Scalar, t1: Scalar) -> (s: Slab)
        ensures
            s == (Slab { inv_d, t0, t1 }),
    {
        Slab { inv_d, t0, t1 }
    }

    #[verifier::when_used_as_spec(spec_entry)]
    pub fn entry(self) -> (t: Scalar)
        ensures
            t == self.spec_entry(),
    {
        if self.inv_d.lt(Scalar::zero()) {
            self.t1
        } else {
            self.t0
        }
    }

    #[verifier::when_used_as_spec(spec_exit)]
    pub fn exit(self) -> (t: Scalar)
        ensures
            t == self.spec_exit(),
    {
        if self.inv_d.lt(Scalar::zero()) {
            self.t0
        } else {
            self.t1
        }
    }
}

/// A ray seen from one box: its three slabs.
#[derive(Clone, Copy, Debug)]
pub struct Slabs {
    pub x: Slab,
    pub y: Slab,
    pub z: Slab,
}

impl Slabs {
    /// Where the stretch of the ray inside all three slabs begins, starting
    /// from `t_min`: the largest entry. An entry that is NaN constrains
    /// nothing.
    pub open spec fn lower(self, t_min: Scalar) -> Scalar {
        t_min.max(self.x.entry()).max(self.y.entry()).max(self.z.entry())
    }

    /// Where the stretch of the ray inside all three slabs ends, starting
    /// from `t_max`: the smallest exit. An exit that is NaN constrains
    /// nothing.
    pub open spec fn upper(self, t_max: Scalar) -> Scalar {
        t_max.min(self.x.exit()).min(self.y.exit()).min(self.z.exit())
    }

    /// Whether the ray is inside the box somewhere between `t_min` and
    /// `t_max`: the stretch from `lower` to `upper` is not empty.
    pub open spec fn overlaps(self, t_min: Scalar, t_max: Scalar) -> bool {
        !self.upper(t_max).le(self.lower(t_min))
    }

    pub fn new(x: Slab, y: Slab, z: Slab) -> (s: Slabs)
        ensures
            s == (Slabs { x, y, z }),
    {
        Slabs { x, y, z }
    }

    /// The slab test. It narrows the interval axis by axis and gives up at the
    /// first axis that leaves it empty.
    pub fn hit(&self, t_min: Scalar, t_max: Scalar) -> (inside: bool)
        ensures
            inside == self.overlaps(t_min, t_max),
    {
        let lo: Scalar = t_min.max(self.x.entry());
        let hi: Scalar = t_max.min(self.x.exit());
        if hi.le(lo) {
            return false;
        }
        let lo: Scalar = lo.max(self.y.entry());
        let hi: Scalar = hi.min(self.y.exit());
        if hi.le(lo) {
            return false;
        }
        let lo: Scalar = lo.max(self.z.entry());
        let hi: Scalar = hi.min(self.z.exit());
        if hi.le(lo) {
            return false;
        }
        true
    }
}

/// The slab test succeeds exactly when the ray is inside all three slabs
/// and inside the window at once: every bound from below (the start of the
/// window and the three entries) lies strictly before every bound from above
/// (the end of the window and the three exits). This is stated for bounds
/// that are numbers.
pub proof fn hit_means_bounds_cross(s: Slabs, t_min: Scalar, t_max: Scalar)
    requires
        t_min.is_number(),
        t_max.is_number(),
        s.x.t0.is_number() && s.x.t1.is_number(),
        s.y.t0.is_number() && s.y.t1.is_number(),
        s.z.t0.is_number() && s.z.t1.is_number(),
    ensures
        s.overlaps(t_min, t_max) <==> {
            &&& t_min.lt(t_max) && t_min.lt(s.x.exit()) && t_min.lt(s.y.exit()) && t_min.lt(s.z.exit())
            &&& s.x.entry().lt(t_max) && s.x.entry().lt(s.x.exit()) && s.x.entry().lt(s.y.exit())
                && s.x.entry().lt(s.z.exit())
            &&& s.y.entry().lt(t_max) && s.y.entry().lt(s.x.exit()) && s.y.entry().lt(s.y.exit())
                && s.y.entry().lt(s.z.exit())
            &&& s.z.entry().lt(t_max) && s.z.entry().lt(s.x.exit()) && s.z.entry().lt(s.y.exit())
                && s.z.entry().lt(s.z.exit())
        },
{
}

/// Turning the x axis round does not change the outcome of the slab test,
/// provided the ray's reciprocal direction along it is a number other than
/// zero.
pub proof fn hit_is_symmetric_in_x(s: Slabs, t_min: Scalar, t_max: Scalar)
    requires
        s.x.inv_d.is_number(),
        s.x.inv_d.rank() != 0,
    ensures
        (Slabs { x: s.x.mirrored(), ..s }).overlaps(t_min, t_max) == s.overlaps(t_min, t_max),
{
}

/// Turning the y axis round does not change the outcome of the slab test.
pub proof fn hit_is_symmetric_in_y(s: Slabs, t_min: Scalar, t_max: Scalar)
    requires
        s.y.inv_d.is_number(),
        s.y.inv_d.rank() != 0,
    ensures
        (Slabs { y: s.y.mirrored(), ..s }).overlaps(t_min, t_max) == s.overlaps(t_min, t_max),
{
}

/// Turning the z axis round does not change the outcome of the slab test.
pub proof fn hit_is_symmetric_in_z(s: Slabs, t_min: Scalar, t_max: Scalar)
    requires
        s.z.inv_d.is_number(),
        s.z.inv_d.rank() != 0,
    ensures
        (Slabs { z: s.z.mirrored(), ..s }).overlaps(t_min, t_max) == s.overlaps(t_min, t_max),
{
}

impl AABB {
    /// Whether `ray` passes through the box somewhere between `t_min` and
    /// `t_max`. `crossings` does the arithmetic: it tells where the ray
    /// crosses the six planes of the box. The answer is the outcome of the
    /// slab test on what it returns.
    pub fn hit<F: Fn(AABB, Ray) -> Slabs>(&self, ray: &Ray, crossings: F, t_min: Scalar, t_max: Scalar) -> (inside:
        bool)
        requires
            call_requires(crossings, (*self, *ray)),
        ensures
            exists|slabs: Slabs| #[trigger]
                call_ensures(crossings, (*self, *ray), slabs) && inside == slabs.overlaps(t_min, t_max),
    {
        let slabs = crossings(*self, *ray);
        slabs.hit(t_min, t_max)
    }
}

} // verus!
