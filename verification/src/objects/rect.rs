use vstd::prelude::*;
use crate::scalar::Scalar;

verus! {

/// Where a ray crosses the plane of a rectangle: the ray parameter, and the
/// two coordinates of the crossing point within the plane.
#[derive(Clone, Copy, Debug)]
pub struct Crossing {
    pub t: Scalar,
    pub a: Scalar,
    pub b: Scalar,
}

impl Crossing {
    /// Whether the crossing counts as a hit of the rectangle from `a0` to
    /// `a1` and from `b0` to `b1`: its parameter lies within the window, ends
    /// included, and the point lies within the rectangle, edges included. A
    /// crossing that is not a number, as that of a ray that runs in the plane
    /// of the rectangle, lies within nothing.
    pub open spec fn spec_inside(
        self,
        a0: Scalar,
        a1: Scalar,
        b0: Scalar,
        b1: Scalar,
        t_min: Scalar,
        t_max: Scalar,
    ) -> bool {
        &&& t_min.le(self.t) && self.t.le(t_max)
        &&& a0.le(self.a) && self.a.le(a1)
        &&& b0.le(self.b) && self.b.le(b1)
    }

    pub fn new(t: Scalar, a: Scalar, b: Scalar) -> (c: Crossing)
        ensures
            c == (Crossing { t, a, b }),
    {
        Crossing { t, a, b }
    }

    #[verifier::when_used_as_spec(spec_inside)]
    pub fn inside(
        self,
        a0: Scalar,
        a1: Scalar,
        b0: Scalar,
        b1: Scalar,
        t_min: Scalar,
        t_max: Scalar,
    ) -> (hit: bool)
        ensures
            hit == self.spec_inside(a0, a1, b0, b1, t_min, t_max),
    {
        if !(t_min.le(self.t) && self.t.le(t_max)) {
            return false;
        }
        a0.le(self.a) && self.a.le(a1) && b0.le(self.b) && self.b.le(b1)
    }
}

/// A rectangle in the plane z = k.
#[derive(Clone, Copy, Debug)]
pub struct XyRect {
    pub x0: Scalar,
    pub x1: Scalar,
    pub y0: Scalar,
    pub y1: Scalar,
    pub k: Scalar,
    pub material: usize,
}

impl XyRect {
    pub fn new(x0: Scalar, x1: Scalar, y0: Scalar, y1: Scalar, k: Scalar, material: usize) -> (r: XyRect)
        ensures
            r == (XyRect { x0, x1, y0, y1, k, material }),
    {
        XyRect { x0, x1, y0, y1, k, material }
    }

    /// Whether a ray that crosses the plane at `crossing` (with `a` its x and
    /// `b` its y) hits the rectangle within the window.
    pub fn hit(&self, crossing: Crossing, t_min: Scalar, t_max: Scalar) -> (hit: bool)
        ensures
            hit == crossing.inside(self.x0, self.x1, self.y0, self.y1, t_min, t_max),
    {
        crossing.inside(self.x0, self.x1, self.y0, self.y1, t_min, t_max)
    }
}

/// A rectangle in the plane y = k.
#[derive(Clone, Copy, Debug)]
pub struct XzRect {
    pub x0: Scalar,
    pub x1: Scalar,
    pub z0: Scalar,
    pub z1: Scalar,
    pub k: Scalar,
    pub material: usize,
}

impl XzRect {
    pub fn new(x0: Scalar, x1: Scalar, z0: Scalar, z1: Scalar, k: Scalar, material: usize) -> (r: XzRect)
        ensures
            r == (XzRect { x0, x1, z0, z1, k, material }),
    {
        XzRect { x0, x1, z0, z1, k, material }
    }

    /// Whether a ray that crosses the plane at `crossing` (with `a` its x and
    /// `b` its z) hits the rectangle within the window.
    pub fn hit(&self, crossing: Crossing, t_min: Scalar, t_max: Scalar) -> (hit: bool)
        ensures
            hit == crossing.inside(self.x0, self.x1, self.z0, self.z1, t_min, t_max),
    {
        crossing.inside(self.x0, self.x1, self.z0, self.z1, t_min, t_max)
    }
}

/// A rectangle in the plane x = k.
#[derive(Clone, Copy, Debug)]
pub struct YzRect {
    pub y0: Scalar,
    pub y1: Scalar,
    pub z0: Scalar,
    pub z1: Scalar,
    pub k: Scalar,
    pub material: usize,
}

impl YzRect {
    pub fn new(y0: Scalar, y1: Scalar, z0: Scalar, z1: Scalar, k: Scalar, material: usize) -> (r: YzRect)
        ensures
            r == (YzRect { y0, y1, z0, z1, k, material }),
    {
        YzRect { y0, y1, z0, z1, k, material }
    }

    /// Whether a ray that crosses the plane at `crossing` (with `a` its y and
    /// `b` its z) hits the rectangle within the window.
    pub fn hit(&self, crossing: Crossing, t_min: Scalar, t_max: Scalar) -> (hit: bool)
        ensures
            hit == crossing.inside(self.y0, self.y1, self.z0, self.z1, t_min, t_max),
    {
        crossing.inside(self.y0, self.y1, self.z0, self.z1, t_min, t_max)
    }
}

/// A crossing that counts as a hit is made of numbers: its parameter lies
/// within the window and its point within the rectangle.
pub proof fn inside_is_numeric(
    c: Crossing,
    a0: Scalar,
    a1: Scalar,
    b0: Scalar,
    b1: Scalar,
    t_min: Scalar,
    t_max: Scalar,
)
    requires
        c.inside(a0, a1, b0, b1, t_min, t_max),
    ensures
        c.t.is_number() && c.a.is_number() && c.b.is_number(),
        t_min.rank() <= c.t.rank() <= t_max.rank(),
        a0.rank() <= c.a.rank() <= a1.rank(),
        b0.rank() <= c.b.rank() <= b1.rank(),
{
}

} // verus!
