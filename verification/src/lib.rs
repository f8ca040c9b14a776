//! The core of a path tracer: the data of a scene, and every decision that
//! rendering it takes.
//!
//! Numbers are held as the bit patterns of single-precision values. The
//! library compares them and reads them exactly; it never adds or multiplies
//! them. Whatever takes such arithmetic (where a ray meets a sphere, how a
//! colour is dimmed) is done by the caller, who hands in the results or the
//! functions that compute them; the library decides what they mean: which
//! root is the hit, which of many hits is the nearest, which boxes of the
//! hierarchy a ray need not enter, whether a path goes on, and which byte a
//! colour becomes.

use vstd::prelude::*;

pub mod scalar;
pub mod structures;
pub mod color;
pub mod utils;
pub mod random;
pub mod aabb;
pub mod materials;
pub mod objects;
pub mod hitable;
pub mod bvh;
pub mod integrator;
pub mod render;
pub mod texture;
pub mod io;
