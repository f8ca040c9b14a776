//! Random whole numbers, and which random points are kept.

use vstd::prelude::*;
use rand::Rng;
use crate::scalar::Scalar;
use crate::color::ONE_BITS;

verus! {

/// `rand::Rng::gen_range` on the generator of the calling thread, for `u32`.
/// It panics unless `low < high`, and otherwise returns a number that is at
/// least `low` and below `high`; which one, differs from call to call.
#[verifier::external_body]
fn gen_range(low: u32, high: u32) -> (n: u32)
    requires
        low < high,
    ensures
        low <= n < high,
{
    rand::thread_rng().gen_range(low, high)
}

/// A random whole number from `min` to `max`, both included.
pub fn random_int_closed(min: u32, max: u32) -> (n: u32)
    requires
        min <= max,
        max < u32::MAX,
    ensures
        min <= n <= max,
{
    gen_range(min, max + 1)
}

/// Whether a point drawn at random is kept as a point inside the unit
/// sphere (or the unit disc): its squared length is below one. A point whose
/// squared length is not a number is drawn again.
pub fn in_unit_ball(length_squared: Scalar) -> (kept: bool)
    ensures
        kept == length_squared.lt(Scalar { bits: ONE_BITS }),
{
    length_squared.lt(Scalar { bits: ONE_BITS })
}

} // verus!
