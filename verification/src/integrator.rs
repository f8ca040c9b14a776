//! The path of one sample: a ray is cast, and as long as it hits something
//! that passes it on, and the bounce budget lasts, the scattered ray is cast
//! in turn.
//!
//! Casting a ray and asking a material are arithmetic that the caller
//! supplies as functions. What is here is the path itself: which of them is
//! asked when, when the path ends, and what its radiance is made of.

use vstd::prelude::*;
use crate::scalar::{Scalar, INFINITY_BITS};
use crate::structures::ray::Ray;
use crate::color::Color;
use crate::materials::HitRecord;

verus! {

/// The bit pattern of 0.001: hits nearer than this are ignored, so that a
/// scattered ray does not hit the surface it starts from.
pub const NEAR_BITS: u32 = 0x3a83_126f;

/// What one surface on the path adds: the light it gives off, and the factor
/// by which it dims the light that comes along the rest of the path.
#[derive(Clone, Copy, Debug)]
pub struct Bounce {
    pub emitted: Color,
    pub attenuation: Color,
}

/// The lower end of the window in which rays are cast: 0.001.
pub open spec fn near() -> Scalar {
    Scalar { bits: NEAR_BITS }
}

/// The upper end of the window in which rays are cast: infinity.
pub open spec fn far() -> Scalar {
    Scalar { bits: INFINITY_BITS }
}

/// Whether `bounces` and `last` are what a path gives that starts with `ray`
/// and may bounce `depth` times.
///
/// The ray is cast into the scene. If it hits nothing, the path has no
/// bounce and ends with the background that lies where the ray heads. If it
/// hits a surface, that surface
/// gives off some light. With no budget left, or if the material absorbs the
/// ray, the path has no bounce and ends with that light. Otherwise the path
/// begins with the bounce at this surface and goes on as the path of the
/// scattered ray, with one bounce less in its budget.
pub open spec fn follows<
    W: Fn(Ray, Scalar, Scalar) -> Option<HitRecord>,
    E: Fn(HitRecord) -> Color,
    S: Fn(Ray, HitRecord) -> Option<(Color, Ray)>,
    G: Fn(Ray) -> Color,
>(world: W, emitted: E, scatter: S, background: G, ray: Ray, depth: nat, bounces: Seq<Bounce>, last: Color) -> bool
    decreases depth,
{
    exists|found: Option<HitRecord>| #[trigger]
        call_ensures(world, (ray, near(), far()), found) && match found {
            None => bounces.len() == 0 && call_ensures(background, (ray,), last),
            Some(h) => exists|light: Color| #[trigger]
                call_ensures(emitted, (h,), light) && if depth == 0 {
                    bounces.len() == 0 && last == light
                } else {
                    exists|out: Option<(Color, Ray)>| #[trigger]
                        call_ensures(scatter, (ray, h), out) && match out {
                            None => bounces.len() == 0 && last == light,
                            Some((attenuation, next)) => {
                                &&& bounces.len() > 0
                                &&& bounces[0] == (Bounce { emitted: light, attenuation })
                                &&& follows(
                                    world,
                                    emitted,
                                    scatter,
                                    background,
                                    next,
                                    (depth - 1) as nat,
                                    bounces.drop_first(),
                                    last,
                                )
                            },
                        }
                },
        }
}

/// Follows one sample along its path. `world` casts a ray into the scene,
/// `emitted` tells what light the surface at a hit gives off, `scatter` asks
/// its material whether and how it passes the ray on, and `background` tells
/// what light comes from where a ray heads that hits nothing.
///
/// The radiance of the sample is the returned colour, dimmed and added to
/// by each of the returned bounces in turn, the last bounce first.
pub fn ray_color<
    W: Fn(Ray, Scalar, Scalar) -> Option<HitRecord>,
    E: Fn(HitRecord) -> Color,
    S: Fn(Ray, HitRecord) -> Option<(Color, Ray)>,
    G: Fn(Ray) -> Color,
>(ray: &Ray, world: W, emitted: E, scatter: S, depth: u32, background: G) -> (path: (
    Vec<Bounce>,
    Color,
))
    requires
        forall|r: Ray, lo: Scalar, hi: Scalar| call_requires(world, (r, lo, hi)),
        forall|h: HitRecord| call_requires(emitted, (h,)),
        forall|r: Ray, h: HitRecord| call_requires(scatter, (r, h)),
        forall|r: Ray| call_requires(background, (r,)),
    ensures
        follows(world, emitted, scatter, background, *ray, depth as nat, path.0@, path.1),
        path.0@.len() <= depth,
{
    let mut bounces: Vec<Bounce> = Vec::new();
    let mut current: Ray = *ray;
    let mut left: u32 = depth;
    loop
        invariant
            forall|r: Ray, lo: Scalar, hi: Scalar| call_requires(world, (r, lo, hi)),
            forall|h: HitRecord| call_requires(emitted, (h,)),
            forall|r: Ray, h: HitRecord| call_requires(scatter, (r, h)),
            forall|r: Ray| call_requires(background, (r,)),
            bounces@.len() + left == depth,
            forall|rest: Seq<Bounce>, last: Color| #[trigger]
                follows(world, emitted, scatter, background, current, left as nat, rest, last) ==> follows(
                    world,
                    emitted,
                    scatter,
                    background,
                    *ray,
                    depth as nat,
                    bounces@ + rest,
                    last,
                ),
        decreases left,
    {
        let ghost done = bounces@;
        let ghost nothing = Seq::<Bounce>::empty();
        proof {
            assert(done + nothing =~= done);
        }
        let found = world(current, Scalar { bits: NEAR_BITS }, Scalar { bits: INFINITY_BITS });
        match found {
            None => {
                let sky = background(current);
                assert(follows(world, emitted, scatter, background, current, left as nat, nothing, sky));
                return (bounces, sky);
            },
            Some(h) => {
                let light = emitted(h);
                if left == 0 {
                    assert(follows(world, emitted, scatter, background, current, left as nat, nothing, light));
                    return (bounces, light);
                }
                let out = scatter(current, h);
                match out {
                    None => {
                        assert(follows(
                            world,
                            emitted,
                            scatter,
                            background,
                            current,
                            left as nat,
                            nothing,
                            light,
                        ));
                        return (bounces, light);
                    },
                    Some((attenuation, next)) => {
                        let bounce = Bounce { emitted: light, attenuation };
                        let ghost was = current;
                        let ghost had = left as nat;
                        bounces.push(bounce);
                        current = next;
                        left = left - 1;
                        proof {
                            assert forall|rest: Seq<Bounce>, last: Color| #[trigger]
                                follows(
                                    world,
                                    emitted,
                                    scatter,
                                    background,
                                    current,
                                    left as nat,
                                    rest,
                                    last,
                                ) implies follows(
                                world,
                                emitted,
                                scatter,
                                background,
                                *ray,
                                depth as nat,
                                bounces@ + rest,
                                last,
                            ) by {
                                let longer = seq![bounce] + rest;
                                assert(longer[0] == bounce);
                                assert(longer.drop_first() =~= rest);
                                assert((had - 1) as nat == left as nat);
                                assert(follows(world, emitted, scatter, background, was, had, longer, last));
                                assert(done + longer =~= bounces@ + rest);
                            }
                        }
                    },
                }
            },
        }
    }
}

/// A path without a bounce budget has no bounce: it ends with the
/// background if its ray hits nothing, and otherwise with the light that the
/// surface at the hit gives off.
pub proof fn no_budget_no_bounce<
    W: Fn(Ray, Scalar, Scalar) -> Option<HitRecord>,
    E: Fn(HitRecord) -> Color,
    S: Fn(Ray, HitRecord) -> Option<(Color, Ray)>,
    G: Fn(Ray) -> Color,
>(world: W, emitted: E, scatter: S, background: G, ray: Ray, bounces: Seq<Bounce>, last: Color)
    requires
        follows(world, emitted, scatter, background, ray, 0, bounces, last),
    ensures
        bounces.len() == 0,
        exists|found: Option<HitRecord>| #[trigger]
            call_ensures(world, (ray, near(), far()), found) && match found {
                None => call_ensures(background, (ray,), last),
                Some(h) => call_ensures(emitted, (h,), last),
            },
{
}

} // verus!
