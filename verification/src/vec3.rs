//! Three-component vector algebra over the fixed-point scalar.

use vstd::prelude::*;

use crate::fixed::{fxadd, fxdiv, fxmul, fxneg, fxsqrt, fxsub, Fx, SCALE};
use crate::utils::{random_double, random_double_range};

verus! {

#[derive(Clone, Copy, Debug, PartialEq, Eq, Structural)]
pub struct Vec3 {
    pub x: Fx,
    pub y: Fx,
    pub z: Fx,
}

/// A scalar from already-clipped bits.
pub open spec fn fxv(b: int) -> Fx {
    Fx { bits: b as i64 }
}

/// Component-wise sum.
pub open spec fn spec_vadd(a: Vec3, b: Vec3) -> Vec3 {
    Vec3 {
        x: fxv(fxadd(a.x.bits as int, b.x.bits as int)),
        y: fxv(fxadd(a.y.bits as int, b.y.bits as int)),
        z: fxv(fxadd(a.z.bits as int, b.z.bits as int)),
    }
}

/// Component-wise difference.
pub open spec fn spec_vsub(a: Vec3, b: Vec3) -> Vec3 {
    Vec3 {
        x: fxv(fxsub(a.x.bits as int, b.x.bits as int)),
        y: fxv(fxsub(a.y.bits as int, b.y.bits as int)),
        z: fxv(fxsub(a.z.bits as int, b.z.bits as int)),
    }
}

/// Component-wise negation.
pub open spec fn spec_vneg(a: Vec3) -> Vec3 {
    Vec3 {
        x: fxv(fxneg(a.x.bits as int)),
        y: fxv(fxneg(a.y.bits as int)),
        z: fxv(fxneg(a.z.bits as int)),
    }
}

/// Component-wise product.
pub open spec fn spec_vmul(a: Vec3, b: Vec3) -> Vec3 {
    Vec3 {
        x: fxv(fxmul(a.x.bits as int, b.x.bits as int)),
        y: fxv(fxmul(a.y.bits as int, b.y.bits as int)),
        z: fxv(fxmul(a.z.bits as int, b.z.bits as int)),
    }
}

/// The vector scaled by `k`.
pub open spec fn spec_vscale(a: Vec3, k: int) -> Vec3 {
    Vec3 {
        x: fxv(fxmul(a.x.bits as int, k)),
        y: fxv(fxmul(a.y.bits as int, k)),
        z: fxv(fxmul(a.z.bits as int, k)),
    }
}

/// Component-wise quotient.
pub open spec fn spec_vdiv(a: Vec3, b: Vec3) -> Vec3 {
    Vec3 {
        x: fxv(fxdiv(a.x.bits as int, b.x.bits as int)),
        y: fxv(fxdiv(a.y.bits as int, b.y.bits as int)),
        z: fxv(fxdiv(a.z.bits as int, b.z.bits as int)),
    }
}

/// The vector divided by the scalar `k`.
pub open spec fn spec_vdiv_scalar(a: Vec3, k: int) -> Vec3 {
    Vec3 {
        x: fxv(fxdiv(a.x.bits as int, k)),
        y: fxv(fxdiv(a.y.bits as int, k)),
        z: fxv(fxdiv(a.z.bits as int, k)),
    }
}

/// The inner product, summed left to right.
pub open spec fn spec_dot(a: Vec3, b: Vec3) -> int {
    fxadd(
        fxadd(fxmul(a.x.bits as int, b.x.bits as int), fxmul(a.y.bits as int, b.y.bits as int)),
        fxmul(a.z.bits as int, b.z.bits as int),
    )
}

/// The squared length.
pub open spec fn spec_len_sq(a: Vec3) -> int {
    spec_dot(a, a)
}

/// The length: the fixed-point square root of the squared length.
pub open spec fn spec_len(a: Vec3) -> int {
    fxsqrt(spec_len_sq(a))
}

/// The cross product.
pub open spec fn spec_cross(a: Vec3, b: Vec3) -> Vec3 {
    Vec3 {
        x: fxv(
            fxsub(fxmul(a.y.bits as int, b.z.bits as int), fxmul(a.z.bits as int, b.y.bits as int)),
        ),
        y: fxv(
            fxsub(fxmul(a.z.bits as int, b.x.bits as int), fxmul(a.x.bits as int, b.z.bits as int)),
        ),
        z: fxv(
            fxsub(fxmul(a.x.bits as int, b.y.bits as int), fxmul(a.y.bits as int, b.x.bits as int)),
        ),
    }
}

/// The vector divided by its own length.
pub open spec fn spec_unit(a: Vec3) -> Vec3 {
    spec_vdiv_scalar(a, spec_len(a))
}

/// The mirror image about the plane with normal `n`:
/// `v - n * (dot(v, n) * 2)`.
pub open spec fn spec_reflect(v: Vec3, n: Vec3) -> Vec3 {
    spec_vsub(v, spec_vscale(n, fxmul(spec_dot(v, n), 2 * SCALE)))
}

/// The refracted direction for a unit incident vector `uv`, unit normal `n`
/// and index ratio `eta`: the perpendicular part scaled by `eta` plus the
/// parallel part that restores unit length.
pub open spec fn spec_refract(uv: Vec3, n: Vec3, eta: int) -> Vec3 {
    let cos_theta = {
        let d = spec_dot(spec_vneg(uv), n);
        if d <= SCALE {
            d
        } else {
            SCALE as int
        }
    };
    let r_out_perp = spec_vscale(spec_vadd(uv, spec_vscale(n, cos_theta)), eta);
    let k = fxsqrt(crate::fixed::clip(crate::fixed::abs_int(fxsub(SCALE as int, spec_len_sq(r_out_perp)))));
    let r_out_parallel = spec_vscale(n, fxneg(k));
    spec_vadd(r_out_perp, r_out_parallel)
}

/// Every component is nonnegative.
pub open spec fn vec_nonneg(v: Vec3) -> bool {
    v.x.bits >= 0 && v.y.bits >= 0 && v.z.bits >= 0
}

/// A component-wise product of nonnegative vectors is nonnegative.
pub proof fn lemma_vmul_nonneg(a: Vec3, b: Vec3)
    requires
        vec_nonneg(a),
        vec_nonneg(b),
    ensures
        vec_nonneg(spec_vmul(a, b)),
{
    crate::fixed::lemma_fxmul_nonneg(a.x.bits as int, b.x.bits as int);
    crate::fixed::lemma_fxmul_nonneg(a.y.bits as int, b.y.bits as int);
    crate::fixed::lemma_fxmul_nonneg(a.z.bits as int, b.z.bits as int);
}

/// A sum of nonnegative vectors is nonnegative.
pub proof fn lemma_vadd_nonneg(a: Vec3, b: Vec3)
    requires
        vec_nonneg(a),
        vec_nonneg(b),
    ensures
        vec_nonneg(spec_vadd(a, b)),
{
}

impl Vec3 {
    /// A vector from its components.
    pub fn new(x: Fx, y: Fx, z: Fx) -> (r: Vec3)
        ensures
            r == (Vec3 { x, y, z }),
    {
        Vec3 { x, y, z }
    }

    /// The first component.
    pub fn x(&self) -> (r: Fx)
        ensures
            r == self.x,
    {
        self.x
    }

    /// The second component.
    pub fn y(&self) -> (r: Fx)
        ensures
            r == self.y,
    {
        self.y
    }

    /// The third component.
    pub fn z(&self) -> (r: Fx)
        ensures
            r == self.z,
    {
        self.z
    }

    /// Component-wise sum.
    pub fn add(self, other: Vec3) -> (r: Vec3)
        ensures
            r == spec_vadd(self, other),
    {
        Vec3 { x: self.x.add(other.x), y: self.y.add(other.y), z: self.z.add(other.z) }
    }

    /// Component-wise difference.
    pub fn sub(self, other: Vec3) -> (r: Vec3)
        ensures
            r == spec_vsub(self, other),
    {
        Vec3 { x: self.x.sub(other.x), y: self.y.sub(other.y), z: self.z.sub(other.z) }
    }

    /// Component-wise negation.
    pub fn neg(self) -> (r: Vec3)
        ensures
            r == spec_vneg(self),
    {
        Vec3 { x: self.x.neg(), y: self.y.neg(), z: self.z.neg() }
    }

    /// Component-wise product.
    pub fn mul(self, other: Vec3) -> (r: Vec3)
        ensures
            r == spec_vmul(self, other),
    {
        Vec3 { x: self.x.mul(other.x), y: self.y.mul(other.y), z: self.z.mul(other.z) }
    }

    /// The vector scaled by `k`.
    pub fn scale(self, k: Fx) -> (r: Vec3)
        ensures
            r == spec_vscale(self, k.bits as int),
    {
        Vec3 { x: self.x.mul(k), y: self.y.mul(k), z: self.z.mul(k) }
    }

    /// Component-wise quotient.
    pub fn div(self, other: Vec3) -> (r: Vec3)
        ensures
            r == spec_vdiv(self, other),
    {
        Vec3 { x: self.x.div(other.x), y: self.y.div(other.y), z: self.z.div(other.z) }
    }

    /// The vector divided by the scalar `k`.
    pub fn div_scalar(self, k: Fx) -> (r: Vec3)
        ensures
            r == spec_vdiv_scalar(self, k.bits as int),
    {
        Vec3 { x: self.x.div(k), y: self.y.div(k), z: self.z.div(k) }
    }

    /// The squared length.
    pub fn length_squared(&self) -> (r: Fx)
        ensures
            r.bits == spec_len_sq(*self),
    {
        self.x.mul(self.x).add(self.y.mul(self.y)).add(self.z.mul(self.z))
    }

    /// The length.
    pub fn length(&self) -> (r: Fx)
        ensures
            r.bits == spec_len(*self),
    {
        self.length_squared().sqrt()
    }

    /// The inner product.
    pub fn dot(&self, other: &Vec3) -> (r: Fx)
        ensures
            r.bits == spec_dot(*self, *other),
    {
        self.x.mul(other.x).add(self.y.mul(other.y)).add(self.z.mul(other.z))
    }

    /// The cross product.
    pub fn cross(&self, other: &Vec3) -> (r: Vec3)
        ensures
            r == spec_cross(*self, *other),
    {
        Vec3::new(
            self.y.mul(other.z).sub(self.z.mul(other.y)),
            self.z.mul(other.x).sub(self.x.mul(other.z)),
            self.x.mul(other.y).sub(self.y.mul(other.x)),
        )
    }

    /// This vector divided by its own length.
    pub fn new_unit_vector(&self) -> (r: Vec3)
        ensures
            r == spec_unit(*self),
    {
        let length = self.length();
        Vec3::new(self.x.div(length), self.y.div(length), self.z.div(length))
    }

    /// `v` divided by its own length.
    pub fn unit_vector(v: Vec3) -> (r: Vec3)
        ensures
            r == spec_unit(v),
    {
        let length = v.length();
        v.div_scalar(length)
    }

    /// A random direction of near-unit length: a unit-sphere sample
    /// normalized.
    pub fn random_unit_vector() -> (r: Vec3)
        ensures
            exists|p: Vec3| spec_len_sq(p) < SCALE && r == spec_unit(p),
    {
        let p = Vec3::random_in_unit_sphere();
        let r = Vec3::unit_vector(p);
        proof {
            assert(spec_len_sq(p) < SCALE && r == spec_unit(p));
        }
        r
    }

    /// A random near-unit direction on the side of `normal`: a normalized
    /// sphere sample, negated when it points away.
    pub fn random_on_hemisphere(normal: &Vec3) -> (r: Vec3)
        ensures
            exists|p: Vec3|
                spec_len_sq(p) < SCALE && (r == spec_unit(p) || r == spec_vneg(spec_unit(p))),
    {
        let on_unit_sphere = Vec3::random_unit_vector();
        let ghost p = choose|p: Vec3| spec_len_sq(p) < SCALE && on_unit_sphere == spec_unit(p);
        if on_unit_sphere.dot(normal).bits > 0 {
            proof {
                assert(spec_len_sq(p) < SCALE && on_unit_sphere == spec_unit(p));
            }
            on_unit_sphere
        } else {
            let r = on_unit_sphere.neg();
            proof {
                assert(spec_len_sq(p) < SCALE && r == spec_vneg(spec_unit(p)));
            }
            r
        }
    }

    /// A random point strictly inside the unit ball, by rejection sampling.
    /// The draw succeeds with probability about one half per round; after a
    /// bounded number of rounds an axis point stands in, so the function
    /// always terminates.
    pub fn random_in_unit_sphere() -> (r: Vec3)
        ensures
            spec_len_sq(r) < SCALE,
    {
        let mut tries: u64 = 64;
        while tries > 0
            decreases tries,
        {
            let one = Fx::one();
            let p = Vec3::random_range(one.neg(), one);
            if p.length_squared().bits < SCALE {
                return p;
            }
            tries = tries - 1;
        }
        let half = Fx { bits: SCALE / 2 };
        let r = Vec3::new(half, Fx::zero(), Fx::zero());
        proof {
            crate::fixed::lemma_mul_bound(half.bits as int, half.bits as int, 32768, 32768);
        }
        r
    }

    /// A random point strictly inside the unit disk of the first two axes,
    /// by the same bounded rejection sampling.
    pub fn random_in_unit_disk() -> (r: Vec3)
        ensures
            spec_len_sq(r) < SCALE,
            r.z.bits == 0,
    {
        let mut tries: u64 = 64;
        while tries > 0
            decreases tries,
        {
            let one = Fx::one();
            let p = Vec3::new(
                random_double_range(one.neg(), one),
                random_double_range(one.neg(), one),
                Fx::zero(),
            );
            if p.length_squared().bits < SCALE {
                return p;
            }
            tries = tries - 1;
        }
        let half = Fx { bits: SCALE / 2 };
        let r = Vec3::new(half, Fx::zero(), Fx::zero());
        proof {
            crate::fixed::lemma_mul_bound(half.bits as int, half.bits as int, 32768, 32768);
        }
        r
    }

    /// A random vector with each component drawn from `[0, 1)`.
    pub fn random() -> (r: Vec3)
        ensures
            0 <= r.x.bits < SCALE,
            0 <= r.y.bits < SCALE,
            0 <= r.z.bits < SCALE,
    {
        Vec3::new(random_double(), random_double(), random_double())
    }

    /// A random vector with each component drawn from `[min, max)`.
    pub fn random_range(min: Fx, max: Fx) -> (r: Vec3)
        ensures
            min.bits <= max.bits ==> (min.bits <= r.x.bits <= max.bits && min.bits <= r.y.bits
                <= max.bits && min.bits <= r.z.bits <= max.bits),
    {
        Vec3::new(
            random_double_range(min, max),
            random_double_range(min, max),
            random_double_range(min, max),
        )
    }

    /// Whether every component is zero on the fixed-point grid.
    pub fn near_zero(&self) -> (r: bool)
        ensures
            r == (self.x.bits == 0 && self.y.bits == 0 && self.z.bits == 0),
    {
        self.x.abs().bits < 1 && self.y.abs().bits < 1 && self.z.abs().bits < 1
    }

    /// The mirror image of `v` about the plane with normal `n`.
    pub fn reflect(v: Vec3, n: Vec3) -> (r: Vec3)
        ensures
            r == spec_reflect(v, n),
    {
        let d = v.dot(&n);
        v.sub(n.scale(d.mul(Fx::from_int(2))))
    }

    /// The refraction of the unit vector `uv` at a surface with unit normal
    /// `n` and relative index `etai_over_etat`.
    pub fn refract(uv: &Vec3, n: &Vec3, etai_over_etat: Fx) -> (r: Vec3)
        ensures
            r == spec_refract(*uv, *n, etai_over_etat.bits as int),
    {
        let one = Fx::one();
        let d = uv.neg().dot(n);
        let cos_theta = if d.bits <= one.bits {
            d
        } else {
            one
        };
        let r_out_perp = uv.add(n.scale(cos_theta)).scale(etai_over_etat);
        let k = one.sub(r_out_perp.length_squared()).abs().sqrt();
        let r_out_parallel = n.scale(k.neg());
        r_out_perp.add(r_out_parallel)
    }

    /// This vector divided by its own length.
    pub fn normalized(&self) -> (r: Vec3)
        ensures
            r == spec_unit(*self),
    {
        let len = self.length();
        Vec3 { x: self.x.div(len), y: self.y.div(len), z: self.z.div(len) }
    }
}

} // verus!
