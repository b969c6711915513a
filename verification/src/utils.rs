//! The closed interval type, the randomness source and small scalar helpers.

use vstd::prelude::*;

use crate::fixed::{fxadd, fxdiv, fxmul, fxneg, fxsub, Fx, SCALE};
use crate::trig::{spec_cos, spec_sin, cos_fx, sin_fx, PI_BITS};
use crate::vec3::Vec3;

verus! {

/// Relied on for raw randomness: `rand::random` draws a value of `T` from
/// the standard uniform distribution on the thread-local generator.  Nothing
/// is promised of the value.
pub assume_specification<T>[ rand::random::<T> ]() -> (r: T)
    where
        rand::distr::StandardUniform: rand::distr::Distribution<T>,
;

/// A uniformly drawn scalar in `[0, 1)`, at the resolution of the
/// fixed-point grid.
pub fn random_double() -> (r: Fx)
    ensures
        0 <= r.bits < SCALE,
{
    let raw: u64 = rand::random::<u64>();
    let bits: u64 = raw % (SCALE as u64);
    Fx { bits: bits as i64 }
}

/// A uniformly drawn scalar in `[min, max)`: `min` plus a unit draw scaled
/// by the width.  Whatever the draw, the result stays between the bounds
/// when they are ordered.
pub fn random_double_range(min: Fx, max: Fx) -> (r: Fx)
    ensures
        exists|u: int|
            0 <= u < SCALE && r.bits == fxadd(
                min.bits as int,
                fxmul(u, fxsub(max.bits as int, min.bits as int)),
            ),
        min.bits <= max.bits ==> min.bits <= r.bits <= max.bits,
{
    let u = random_double();
    let width = max.sub(min);
    let off = u.mul(width);
    let r = min.add(off);
    proof {
        let ub = u.bits as int;
        assert(0 <= ub < SCALE && r.bits == fxadd(
            min.bits as int,
            fxmul(ub, fxsub(max.bits as int, min.bits as int)),
        ));
        if min.bits <= max.bits {
            let d = fxsub(max.bits as int, min.bits as int);
            assert(0 <= d);
            assert(0 <= ub * d <= SCALE * d) by (nonlinear_arith)
                requires
                    0 <= ub < SCALE,
                    0 <= d,
            ;
            assert((ub * d) / (SCALE as int) * (SCALE as int) <= ub * d) by (nonlinear_arith)
                requires
                    0 <= ub * d,
            ;
            assert((ub * d) / (SCALE as int) <= d) by (nonlinear_arith)
                requires
                    0 <= ub * d <= SCALE * d,
                    0 <= d,
            ;
            assert(min.bits + d == max.bits || d == i64::MAX);
        }
    }
    r
}

/// A uniformly drawn whole number in `[min, max]`.
pub fn _random_int_range(min: i32, max: i32) -> (r: i32)
    requires
        min <= max,
    ensures
        min <= r <= max,
{
    let lo = Fx::from_int(min as i64);
    let hi = Fx::from_int(max as i64 + 1);
    let x = random_double_range(lo, hi);
    proof {
        assert(lo.bits == (min as int) * (SCALE as int) && hi.bits == (max as int + 1) * (
        SCALE as int)) by (nonlinear_arith)
            requires
                lo.bits == crate::fixed::clip((min as int) * (SCALE as int)),
                hi.bits == crate::fixed::clip((max as int + 1) * (SCALE as int)),
                -0x8000_0000 <= min as int <= 0x7FFF_FFFF,
                -0x8000_0000 <= max as int <= 0x7FFF_FFFF,
                SCALE as int == 65536,
        ;
    }
    let units: i64 = x.floor_units();
    proof {
        assert(min as int <= units as int <= max as int + 1) by (nonlinear_arith)
            requires
                units as int == (x.bits as int) / (SCALE as int),
                (min as int) * (SCALE as int) <= x.bits as int <= (max as int + 1) * (SCALE as int),
                SCALE as int == 65536,
        ;
    }
    if units > max as i64 {
        max
    } else {
        units as i32
    }
}

/// Degrees to radians: `deg * pi / 180`, in fixed point.
pub open spec fn spec_degrees_to_radians(d: int) -> int {
    fxdiv(fxmul(d, PI_BITS as int), 180 * SCALE)
}

/// Degrees to radians.
pub fn degrees_to_radians(degrees: Fx) -> (r: Fx)
    ensures
        r.bits == spec_degrees_to_radians(degrees.bits as int),
{
    degrees.mul(Fx { bits: PI_BITS }).div(Fx::from_int(180))
}

/// Affine map of normalized texture coordinates into a face's sub-rectangle
/// of the atlas.
pub open spec fn spec_map_uv(u: int, v: int, u_min: int, v_min: int, u_max: int, v_max: int) -> (
    int,
    int,
) {
    (fxadd(u_min, fxmul(u, fxsub(u_max, u_min))), fxadd(v_min, fxmul(v, fxsub(v_max, v_min))))
}

/// Maps normalized UV coordinates into the given UV sub-rectangle.
pub fn map_uv_to_range(u: Fx, v: Fx, uv_range: &((Fx, Fx), (Fx, Fx))) -> (r: (Fx, Fx))
    ensures
        (r.0.bits as int, r.1.bits as int) == spec_map_uv(
            u.bits as int,
            v.bits as int,
            uv_range.0.0.bits as int,
            uv_range.0.1.bits as int,
            uv_range.1.0.bits as int,
            uv_range.1.1.bits as int,
        ),
{
    let (u_min, v_min) = uv_range.0;
    let (u_max, v_max) = uv_range.1;
    let u_mapped = u_min.add(u.mul(u_max.sub(u_min)));
    let v_mapped = v_min.add(v.mul(v_max.sub(v_min)));
    (u_mapped, v_mapped)
}

/// A closed scalar interval; the saturated extremes stand for the unbounded
/// sentinels of the interval algebra.
#[derive(Clone, Copy, Debug, PartialEq, Eq, Structural)]
pub struct Interval {
    pub min: Fx,
    pub max: Fx,
}

/// The component-wise union of two intervals.
pub open spec fn spec_merge_interval(a: Interval, b: Interval) -> Interval {
    Interval {
        min: if a.min.bits <= b.min.bits {
            a.min
        } else {
            b.min
        },
        max: if a.max.bits >= b.max.bits {
            a.max
        } else {
            b.max
        },
    }
}

impl Interval {
    /// The empty sentinel's value.
    pub open spec fn spec_empty() -> Interval {
        Interval { min: Fx { bits: i64::MAX }, max: Fx { bits: i64::MIN } }
    }

    /// The all-embracing sentinel's value.
    pub open spec fn spec_universe() -> Interval {
        Interval { min: Fx { bits: i64::MIN }, max: Fx { bits: i64::MAX } }
    }

    /// An interval from its two bounds.
    pub fn new(min: Fx, max: Fx) -> (r: Interval)
        ensures
            r == (Interval { min, max }),
    {
        Interval { min, max }
    }

    /// The smallest interval holding both arguments.
    pub fn new_from_interval(a: &Interval, b: &Interval) -> (r: Interval)
        ensures
            r == spec_merge_interval(*a, *b),
    {
        let min = if a.min.bits <= b.min.bits {
            a.min
        } else {
            b.min
        };
        let max = if a.max.bits >= b.max.bits {
            a.max
        } else {
            b.max
        };
        Interval { min, max }
    }

    /// The empty sentinel: bounds at the saturated extremes, inverted.
    pub fn empty() -> (r: Interval)
        ensures
            r == Interval::spec_empty(),
    {
        Interval { min: Fx { bits: i64::MAX }, max: Fx { bits: i64::MIN } }
    }

    /// The all-embracing sentinel.
    pub fn universe() -> (r: Interval)
        ensures
            r == Interval::spec_universe(),
    {
        Interval { min: Fx { bits: i64::MIN }, max: Fx { bits: i64::MAX } }
    }

    /// The width.
    pub fn size(&self) -> (r: Fx)
        ensures
            r.bits == fxsub(self.max.bits as int, self.min.bits as int),
    {
        self.max.sub(self.min)
    }

    /// Whether `x` lies in the closed interval.
    pub fn contains(&self, x: Fx) -> (r: bool)
        ensures
            r == (self.min.bits <= x.bits && x.bits <= self.max.bits),
    {
        self.min.bits <= x.bits && x.bits <= self.max.bits
    }

    /// Whether `x` lies strictly inside.
    pub fn surrounds(&self, x: Fx) -> (r: bool)
        ensures
            r == (self.min.bits < x.bits && x.bits < self.max.bits),
    {
        self.min.bits < x.bits && x.bits < self.max.bits
    }

    /// `x` pulled to the nearest bound when it lies outside.
    pub fn clamp(&self, x: Fx) -> (r: Fx)
        ensures
            r.bits == if x.bits < self.min.bits {
                self.min.bits
            } else if x.bits > self.max.bits {
                self.max.bits
            } else {
                x.bits
            },
    {
        if x.bits < self.min.bits {
            return self.min;
        }
        if x.bits > self.max.bits {
            return self.max;
        }
        x
    }

    /// The interval widened by half of `delta` on each side.
    pub fn expand(&self, delta: Fx) -> (r: Interval)
        ensures
            r.min.bits == fxsub(self.min.bits as int, fxdiv(delta.bits as int, 2 * SCALE)),
            r.max.bits == fxadd(self.max.bits as int, fxdiv(delta.bits as int, 2 * SCALE)),
    {
        let padding = delta.div(Fx::from_int(2));
        Interval { min: self.min.sub(padding), max: self.max.add(padding) }
    }

    /// The interval moved by a displacement.
    pub fn shift(&self, displacement: Fx) -> (r: Interval)
        ensures
            r.min.bits == fxadd(self.min.bits as int, displacement.bits as int),
            r.max.bits == fxadd(self.max.bits as int, displacement.bits as int),
    {
        Interval { min: self.min.add(displacement), max: self.max.add(displacement) }
    }
}

impl Default for Interval {
    /// The degenerate zero interval.
    fn default() -> (r: Interval)
        ensures
            r == (Interval { min: Fx { bits: 0 }, max: Fx { bits: 0 } }),
    {
        Interval { min: Fx { bits: 0 }, max: Fx { bits: 0 } }
    }
}

/// The translation that returns a point rotated about the vertical axis to
/// its original place: the difference between the point and its rotation.
pub open spec fn spec_rotate_y_translation(c: Vec3, angle_deg: int) -> Vec3 {
    let theta = spec_degrees_to_radians(angle_deg);
    let cos_t = spec_cos(theta);
    let sin_t = spec_sin(theta);
    let x = c.x.bits as int;
    let z = c.z.bits as int;
    let x_prime = fxadd(fxmul(cos_t, x), fxmul(sin_t, z));
    let z_prime = fxadd(fxmul(fxneg(sin_t), x), fxmul(cos_t, z));
    Vec3 {
        x: Fx { bits: fxsub(x, x_prime) as i64 },
        y: Fx { bits: 0 },
        z: Fx { bits: fxsub(z, z_prime) as i64 },
    }
}

/// The translation that brings a rotated point back to its original
/// position, used when a rotation wrapper should spin an object in place.
pub fn rotate_y_translation(cube_center: Vec3, rotation_angle_deg: Fx) -> (r: Vec3)
    ensures
        r == spec_rotate_y_translation(cube_center, rotation_angle_deg.bits as int),
{
    let theta_rad = degrees_to_radians(rotation_angle_deg);
    let cos_t = cos_fx(theta_rad);
    let sin_t = sin_fx(theta_rad);
    let x = cube_center.x;
    let z = cube_center.z;
    let x_prime = cos_t.mul(x).add(sin_t.mul(z));
    let z_prime = sin_t.neg().mul(x).add(cos_t.mul(z));
    let translation_x = x.sub(x_prime);
    let translation_z = z.sub(z_prime);
    Vec3 { x: translation_x, y: Fx { bits: 0 }, z: translation_z }
}

} // verus!
