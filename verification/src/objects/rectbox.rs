use vstd::prelude::*;
use crate::structures::vec3::Vec3;
use crate::aabb::AABB;
use crate::objects::rect::{XyRect, XzRect, YzRect};
use crate::scalar::Scalar;
use crate::materials::HitRecord;
use crate::hitable::{hit, scanned, answers_of, single_valued, reported, Scan};

verus! {

/// A closed box with its edges along the axes, made of six rectangles.
#[derive(Clone, Copy, Debug)]
pub struct RectBox {
    pub pmin: Vec3,
    pub pmax: Vec3,
    /// The faces at z = pmax.z and z = pmin.z.
    pub front: XyRect,
    pub back: XyRect,
    /// The faces at y = pmax.y and y = pmin.y.
    pub top: XzRect,
    pub bottom: XzRect,
    /// The faces at x = pmax.x and x = pmin.x.
    pub right: YzRect,
    pub left: YzRect,
}

impl RectBox {
    /// The six faces of the box with the corners `lo` and `hi`, all of one material.
    pub open spec fn faces(lo: Vec3, hi: Vec3, material: usize) -> RectBox {
        RectBox {
            pmin: lo,
            pmax: hi,
            front: XyRect { x0: lo.x, x1: hi.x, y0: lo.y, y1: hi.y, k: hi.z, material },
            back: XyRect { x0: lo.x, x1: hi.x, y0: lo.y, y1: hi.y, k: lo.z, material },
            top: XzRect { x0: lo.x, x1: hi.x, z0: lo.z, z1: hi.z, k: hi.y, material },
            bottom: XzRect { x0: lo.x, x1: hi.x, z0: lo.z, z1: hi.z, k: lo.y, material },
            right: YzRect { y0: lo.y, y1: hi.y, z0: lo.z, z1: hi.z, k: hi.x, material },
            left: YzRect { y0: lo.y, y1: hi.y, z0: lo.z, z1: hi.z, k: lo.x, material },
        }
    }

    pub fn new(lo: &Vec3, hi: &Vec3, material: usize) -> (b: RectBox)
        ensures
            b == RectBox::faces(*lo, *hi, material),
    {
        RectBox {
            pmin: *lo,
            pmax: *hi,
            front: XyRect::new(lo.x, hi.x, lo.y, hi.y, hi.z, material),
            back: XyRect::new(lo.x, hi.x, lo.y, hi.y, lo.z, material),
            top: XzRect::new(lo.x, hi.x, lo.z, hi.z, hi.y, material),
            bottom: XzRect::new(lo.x, hi.x, lo.z, hi.z, lo.y, material),
            right: YzRect::new(lo.y, hi.y, lo.z, hi.z, hi.x, material),
            left: YzRect::new(lo.y, hi.y, lo.z, hi.z, lo.x, material),
        }
    }

    /// The nearest hit of a ray with the box: the six faces are scanned as a
    /// list, in the order front, back, top, bottom, right, left. `face` tests
    /// the face with the given place in that order against the ray.
    pub fn hit<F: Fn(usize, Scalar, Scalar) -> Option<HitRecord>>(&self, face: F, t_min: Scalar, t_max: Scalar) -> (found:
        Option<HitRecord>)
        requires
            forall|o: usize, lo: Scalar, hi: Scalar| o < 6 ==> call_requires(face, (o, lo, hi)),
            single_valued(face),
        ensures
            found == scanned(answers_of(face, t_min), 6, Scan::start(t_min, t_max)).record,
            found matches Some(h) ==> reported(face, 6, t_min, h),
    {
        hit(6, face, t_min, t_max)
    }

    /// The box's own two corners, not a box derived from its faces.
    pub fn bounding_box(&self) -> (b: Option<AABB>)
        ensures
            b == Some(AABB { min: self.pmin, max: self.pmax }),
    {
        Some(AABB { min: self.pmin, max: self.pmax })
    }
}

} // verus!
