use vstd::prelude::*;
use crate::scalar::Scalar;

verus! {

/// `min` where `x` is below it, `max` where `x` is above it, else `x`. A NaN
/// passes through unchanged.
pub fn clamp(x: Scalar, min: Scalar, max: Scalar) -> (held: Scalar)
    ensures
        held == x.clamp(min, max),
{
    if x.lt(min) {
        min
    } else if x.gt(max) {
        max
    } else {
        x
    }
}

} // verus!
