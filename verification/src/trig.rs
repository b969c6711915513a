//! Fixed-point circular functions.
//!
//! The camera basis, the rotation wrapper and the spherical texture
//! coordinates need sine, cosine, tangent and the inverse functions.  Each is
//! computed from a truncated power series after range reduction; the
//! contracts state the computed value exactly, as a composition of the
//! fixed-point operations.

use vstd::prelude::*;

use crate::fixed::{abs_int, clip, fxadd, fxdiv, fxmul, fxneg, fxsqrt, fxsub, Fx, SCALE};

verus! {

/// Fixed-point bits of the half turn.
pub const PI_BITS: i64 = 205887;

/// Fixed-point bits of the full turn.
pub const TWO_PI_BITS: i64 = 411774;

/// Fixed-point bits of the quarter turn.
pub const HALF_PI_BITS: i64 = 102943;

/// The representative of an angle in `[-PI_BITS, PI_BITS]`, reached by
/// stepping whole turns toward zero.
pub open spec fn reduce_angle(b: int) -> int
    decreases abs_int(b),
{
    if b > PI_BITS {
        reduce_angle(b - TWO_PI_BITS)
    } else if b < -PI_BITS {
        reduce_angle(b + TWO_PI_BITS)
    } else {
        b
    }
}

/// The truncated sine series on the reduced argument (bits in
/// `[-HALF_PI_BITS - 1, HALF_PI_BITS + 1]` in practice): four terms of the
/// alternating power series.
pub open spec fn sin_poly(r: int) -> int {
    let r2 = fxmul(r, r);
    let r3 = fxmul(r2, r);
    let r5 = fxmul(r3, r2);
    let r7 = fxmul(r5, r2);
    fxadd(fxsub(fxadd(r, fxneg(fxdiv(r3, 6 * SCALE))), fxneg(fxdiv(r5, 120 * SCALE))), fxneg(
        fxdiv(r7, 5040 * SCALE),
    ))
}

/// The computed sine: range reduction to a half turn, the quadrant folded
/// onto `[-HALF_PI, HALF_PI]`, then the power series.
pub open spec fn spec_sin(b: int) -> int {
    let r = reduce_angle(b);
    if r > HALF_PI_BITS {
        sin_poly(PI_BITS - r)
    } else if r < -HALF_PI_BITS {
        sin_poly(-PI_BITS - r)
    } else {
        sin_poly(r)
    }
}

/// The computed cosine: the sine a quarter turn ahead.
pub open spec fn spec_cos(b: int) -> int {
    spec_sin(fxadd(b, HALF_PI_BITS as int))
}

/// The computed tangent: sine over cosine, with the saturating quotient.
pub open spec fn spec_tan(b: int) -> int {
    fxdiv(spec_sin(b), spec_cos(b))
}

/// The arctangent polynomial on `[-ONE, ONE]`:
/// `(pi/4)z + c z (ONE - |z|)` with `c = 0.273`.
pub open spec fn atan_poly(z: int) -> int {
    fxadd(fxmul(z, 51471), fxmul(fxmul(17891, z), fxsub(SCALE as int, clip(abs_int(z)))))
}

/// The computed two-argument arctangent, by quadrant.
pub open spec fn spec_atan2(y: int, x: int) -> int {
    if x == 0 && y == 0 {
        0
    } else if clip(abs_int(y)) <= clip(abs_int(x)) {
        let a = atan_poly(fxdiv(y, x));
        if x > 0 {
            a
        } else if y >= 0 {
            fxadd(a, PI_BITS as int)
        } else {
            fxsub(a, PI_BITS as int)
        }
    } else {
        let a = atan_poly(fxdiv(x, y));
        if y > 0 {
            fxsub(HALF_PI_BITS as int, a)
        } else {
            fxsub(-HALF_PI_BITS, a)
        }
    }
}

/// The computed arccosine of a clamped argument:
/// `atan2(sqrt(ONE - y*y), y)`.
pub open spec fn spec_acos(y: int) -> int {
    let c = if y > SCALE {
        SCALE as int
    } else if y < -SCALE {
        -SCALE
    } else {
        y
    };
    spec_atan2(fxsqrt(fxsub(SCALE as int, fxmul(c, c))), c)
}

/// Steps a whole turn toward zero without changing the reduced angle.
proof fn lemma_reduce_step(b: int)
    ensures
        b > PI_BITS ==> reduce_angle(b) == reduce_angle(b - TWO_PI_BITS),
        b < -PI_BITS ==> reduce_angle(b) == reduce_angle(b + TWO_PI_BITS),
{
}

/// The sine of an angle, in fixed-point bits.
pub fn sin_fx(x: Fx) -> (r: Fx)
    ensures
        r.bits == spec_sin(x.bits as int),
{
    let mut b: i64 = x.bits;
    while b > PI_BITS || b < -PI_BITS
        invariant
            reduce_angle(b as int) == reduce_angle(x.bits as int),
        decreases abs_int(b as int),
    {
        proof {
            lemma_reduce_step(b as int);
        }
        if b > PI_BITS {
            b = b - TWO_PI_BITS;
        } else {
            b = b + TWO_PI_BITS;
        }
    }
    assert(reduce_angle(b as int) == b as int);
    let folded: Fx = if b > HALF_PI_BITS {
        Fx { bits: PI_BITS - b }
    } else if b < -HALF_PI_BITS {
        Fx { bits: -PI_BITS - b }
    } else {
        Fx { bits: b }
    };
    sin_poly_fx(folded)
}

/// The sine power series on the folded argument.
fn sin_poly_fx(r: Fx) -> (s: Fx)
    ensures
        s.bits == sin_poly(r.bits as int),
{
    let r2 = r.mul(r);
    let r3 = r2.mul(r);
    let r5 = r3.mul(r2);
    let r7 = r5.mul(r2);
    let c3 = Fx::from_int(6);
    let c5 = Fx::from_int(120);
    let c7 = Fx::from_int(5040);
    r.add(r3.div(c3).neg()).sub(r5.div(c5).neg()).add(r7.div(c7).neg())
}

/// The cosine of an angle, in fixed-point bits.
pub fn cos_fx(x: Fx) -> (r: Fx)
    ensures
        r.bits == spec_cos(x.bits as int),
{
    sin_fx(x.add(Fx { bits: HALF_PI_BITS }))
}

/// The tangent of an angle, in fixed-point bits.
pub fn tan_fx(x: Fx) -> (r: Fx)
    ensures
        r.bits == spec_tan(x.bits as int),
{
    let s = sin_fx(x);
    let c = cos_fx(x);
    s.div(c)
}

/// The arctangent polynomial on `[-ONE, ONE]`.
fn atan_poly_fx(z: Fx) -> (r: Fx)
    ensures
        r.bits == atan_poly(z.bits as int),
{
    let quarter_pi = Fx { bits: 51471 };
    let c = Fx { bits: 17891 };
    let one = Fx::one();
    z.mul(quarter_pi).add(c.mul(z).mul(one.sub(z.abs())))
}

/// The two-argument arctangent, in fixed-point bits.
pub fn atan2_fx(y: Fx, x: Fx) -> (r: Fx)
    ensures
        r.bits == spec_atan2(y.bits as int, x.bits as int),
{
    if x.bits == 0 && y.bits == 0 {
        Fx { bits: 0 }
    } else {
        let ya = y.abs();
        let xa = x.abs();
        if ya.bits <= xa.bits {
            let a = atan_poly_fx(y.div(x));
            if x.bits > 0 {
                a
            } else if y.bits >= 0 {
                a.add(Fx { bits: PI_BITS })
            } else {
                a.sub(Fx { bits: PI_BITS })
            }
        } else {
            let a = atan_poly_fx(x.div(y));
            if y.bits > 0 {
                (Fx { bits: HALF_PI_BITS }).sub(a)
            } else {
                (Fx { bits: -HALF_PI_BITS }).sub(a)
            }
        }
    }
}

/// The arccosine of a clamped argument, in fixed-point bits.
pub fn acos_fx(y: Fx) -> (r: Fx)
    ensures
        r.bits == spec_acos(y.bits as int),
{
    let one = Fx::one();
    let c: Fx = if y.bits > SCALE {
        one
    } else if y.bits < -SCALE {
        one.neg()
    } else {
        y
    };
    let s = one.sub(c.mul(c)).sqrt();
    atan2_fx(s, c)
}

} // verus!
