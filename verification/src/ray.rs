//! A ray: an origin and an unnormalized direction.

use vstd::prelude::*;

use crate::fixed::Fx;
use crate::vec3::{spec_vadd, spec_vscale, Vec3};

verus! {

#[derive(Clone, Copy, Debug, PartialEq, Eq, Structural)]
pub struct Ray {
    pub origin: Vec3,
    pub direction: Vec3,
}

/// The point the ray reaches at parameter `t`: `origin + t * direction`.
pub open spec fn spec_ray_at(r: Ray, t: int) -> Vec3 {
    spec_vadd(r.origin, spec_vscale(r.direction, t))
}

impl Ray {
    /// A ray from its origin and direction.
    pub fn new(origin: Vec3, direction: Vec3) -> (r: Ray)
        ensures
            r == (Ray { origin, direction }),
    {
        Ray { origin, direction }
    }

    /// The point reached at parameter `t`.
    pub fn at(&self, t: Fx) -> (p: Vec3)
        ensures
            p == spec_ray_at(*self, t.bits as int),
    {
        self.origin.add(self.direction.scale(t))
    }
}

} // verus!
