//! The gamma-2 transfer function applied before quantizing a channel.

use vstd::prelude::*;

use crate::fixed::{fxsqrt, Fx};

verus! {

/// The gamma-2 transfer: the square root of a positive linear component,
/// zero otherwise.
pub open spec fn spec_linear_to_gamma(c: int) -> int {
    if c > 0 {
        fxsqrt(c)
    } else {
        0
    }
}

/// Linear radiance to gamma-2 display space.
pub fn linear_to_gamma(linear_component: Fx) -> (r: Fx)
    ensures
        r.bits == spec_linear_to_gamma(linear_component.bits as int),
{
    if linear_component.bits > 0 {
        return linear_component.sqrt();
    }
    Fx { bits: 0 }
}

} // verus!
