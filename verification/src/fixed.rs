//! Fixed-point scalar arithmetic.
//!
//! Every coordinate, colour channel and ray parameter in this library is an
//! `Fx`: a signed 64-bit quantity interpreted as `bits / SCALE`.  Products and
//! quotients round toward zero; results outside the 64-bit range saturate to
//! the extreme values, which double as the infinity sentinels of the interval
//! algebra (division by zero yields the signed extreme, so the slab test can
//! rely on the same absorbing behaviour the interval code expects).

use vstd::prelude::*;

verus! {

/// Number of fractional steps per unit: `Fx` bits are in units of `1/SCALE`.
pub const SCALE: i64 = 65536;

#[derive(Clone, Copy, Debug, PartialEq, Eq, Structural)]
pub struct Fx {
    pub bits: i64,
}

/// Saturate an unbounded integer into the `i64` range.
pub open spec fn clip(x: int) -> int {
    if x > i64::MAX {
        i64::MAX as int
    } else if x < i64::MIN {
        i64::MIN as int
    } else {
        x
    }
}

/// Magnitude of an unbounded integer.
pub open spec fn abs_int(x: int) -> int {
    if x >= 0 {
        x
    } else {
        -x
    }
}

/// Division rounding toward zero, the rounding the executable code performs
/// by dividing magnitudes.  `b` must not be zero.
pub open spec fn tdiv(a: int, b: int) -> int {
    if (a >= 0) == (b > 0) {
        abs_int(a) / abs_int(b)
    } else {
        -(abs_int(a) / abs_int(b))
    }
}

/// Saturating fixed-point sum.
pub open spec fn fxadd(a: int, b: int) -> int {
    clip(a + b)
}

/// Saturating fixed-point difference.
pub open spec fn fxsub(a: int, b: int) -> int {
    clip(a - b)
}

/// Saturating fixed-point negation.
pub open spec fn fxneg(a: int) -> int {
    clip(-a)
}

/// Saturating fixed-point product: the wide product scaled back down,
/// rounded toward zero.
pub open spec fn fxmul(a: int, b: int) -> int {
    clip(tdiv(a * b, SCALE as int))
}

/// Saturating fixed-point quotient.  A zero divisor produces the signed
/// extreme, mirroring the infinities a division by zero produces in the
/// reference interval algebra.
pub open spec fn fxdiv(a: int, b: int) -> int {
    if b == 0 {
        if a >= 0 {
            i64::MAX as int
        } else {
            i64::MIN as int
        }
    } else {
        clip(tdiv(a * SCALE, b))
    }
}

/// `r` is the floor square root of `n`.
pub open spec fn is_sqrt_floor(n: int, r: int) -> bool {
    0 <= r && r * r <= n && n < (r + 1) * (r + 1)
}

/// The nonnegative integer square root (floor).
pub open spec fn sqrt_floor(n: int) -> int {
    choose|r: int| is_sqrt_floor(n, r)
}

/// Fixed-point square root: nonpositive inputs map to zero.
pub open spec fn fxsqrt(a: int) -> int {
    if a <= 0 {
        0
    } else {
        sqrt_floor(a * SCALE)
    }
}

/// True floor division of scalars: the greatest whole multiple of `b` at
/// or below `a / b`, saturating, with the sign sentinels for a zero
/// divisor.
pub open spec fn fxfloor_div(a: int, b: int) -> int {
    if b == 0 {
        if a >= 0 {
            i64::MAX as int
        } else {
            i64::MIN as int
        }
    } else if (a >= 0) == (b > 0) {
        clip(abs_int(a) / abs_int(b))
    } else if a == 0 {
        0
    } else {
        clip(-((abs_int(a) + abs_int(b) - 1) / abs_int(b)))
    }
}

/// The floor square root is unique, so `sqrt_floor` equals any witness.
pub proof fn lemma_sqrt_floor_unique(n: int, r: int)
    requires
        0 <= r,
        r * r <= n,
        n < (r + 1) * (r + 1),
    ensures
        sqrt_floor(n) == r,
{
    assert(is_sqrt_floor(n, r));
    let c = choose|c: int| is_sqrt_floor(n, c);
    assert(is_sqrt_floor(n, c));
    if c < r {
        assert(r * r > n) by (nonlinear_arith)
            requires
                0 <= c,
                c < r,
                n < (c + 1) * (c + 1),
        ;
    }
    if r < c {
        assert(c * c > n) by (nonlinear_arith)
            requires
                0 <= r,
                r < c,
                n < (r + 1) * (r + 1),
        ;
    }
}

/// Bounds on the magnitudes of two factors bound the magnitude of the
/// product.
pub proof fn lemma_mul_bound(a: int, b: int, aa: int, bb: int)
    requires
        abs_int(a) <= aa,
        abs_int(b) <= bb,
    ensures
        -(aa * bb) <= a * b <= aa * bb,
        abs_int(a * b) <= aa * bb,
{
    assert(-(aa * bb) <= a * b <= aa * bb) by (nonlinear_arith)
        requires
            abs_int(a) <= aa,
            abs_int(b) <= bb,
    ;
}

impl Fx {
    /// The zero scalar.
    pub fn zero() -> (r: Fx)
        ensures
            r.bits == 0,
    {
        Fx { bits: 0 }
    }

    /// One, in fixed-point units.
    pub fn one() -> (r: Fx)
        ensures
            r.bits == SCALE,
    {
        Fx { bits: SCALE }
    }

    /// The scalar standing for the whole number `n`.
    pub fn from_int(n: i64) -> (r: Fx)
        ensures
            r.bits == clip(n * SCALE),
    {
        proof {
            lemma_mul_bound(n as int, SCALE as int, 0x8000_0000_0000_0000int, SCALE as int);
        }
        let wide: i128 = (n as i128) * (SCALE as i128);
        clip_i128(wide)
    }

    /// The scalar nearest `num / den` toward zero; `den == 0` saturates.
    pub fn from_ratio(num: i64, den: i64) -> (r: Fx)
        ensures
            r.bits == fxdiv(clip(num * SCALE), clip(den * SCALE)),
            0 <= num && 0 < den ==> 0 <= r.bits,
            0 <= num && num <= den && 0 < den ==> r.bits <= SCALE,
    {
        let n = Fx::from_int(num);
        let d = Fx::from_int(den);
        let r = n.div(d);
        proof {
            if 0 <= num && 0 < den {
                assert((num as int) * (SCALE as int) >= 0) by (nonlinear_arith)
                    requires
                        num as int >= 0,
                ;
                assert((den as int) * (SCALE as int) > 0) by (nonlinear_arith)
                    requires
                        (den as int) > 0,
                        SCALE as int > 0,
                ;
                lemma_fxdiv_nonneg(clip(num * SCALE), clip(den * SCALE));
                if num <= den {
                    assert((num as int) * (SCALE as int) <= (den as int) * (SCALE as int))
                        by (nonlinear_arith)
                        requires
                            num as int <= den as int,
                            SCALE as int > 0,
                    ;
                    lemma_fxdiv_le_one(clip(num * SCALE), clip(den * SCALE));
                }
            }
        }
        r
    }

    /// The saturating sum.
    pub fn add(self, other: Fx) -> (r: Fx)
        ensures
            r.bits == fxadd(self.bits as int, other.bits as int),
    {
        clip_i128((self.bits as i128) + (other.bits as i128))
    }

    /// The saturating difference.
    pub fn sub(self, other: Fx) -> (r: Fx)
        ensures
            r.bits == fxsub(self.bits as int, other.bits as int),
    {
        clip_i128((self.bits as i128) - (other.bits as i128))
    }

    /// The saturating negation.
    pub fn neg(self) -> (r: Fx)
        ensures
            r.bits == fxneg(self.bits as int),
    {
        clip_i128(-(self.bits as i128))
    }

    /// The saturating product, rounded toward zero.
    pub fn mul(self, other: Fx) -> (r: Fx)
        ensures
            r.bits == fxmul(self.bits as int, other.bits as int),
    {
        proof {
            lemma_mul_bound(
                self.bits as int,
                other.bits as int,
                0x8000_0000_0000_0000int,
                0x8000_0000_0000_0000int,
            );
        }
        let p: i128 = (self.bits as i128) * (other.bits as i128);
        let neg: bool = p < 0;
        let mag: u128 = if neg {
            (-p) as u128
        } else {
            p as u128
        };
        let q: u128 = mag / (SCALE as u128);
        assert(q == abs_int(p as int) / (SCALE as int));
        let signed: i128 = if neg {
            -(q as i128)
        } else {
            q as i128
        };
        assert(signed == tdiv(self.bits * other.bits, SCALE as int));
        clip_i128(signed)
    }

    /// The saturating quotient, rounded toward zero; a zero divisor yields
    /// the signed extreme.
    pub fn div(self, other: Fx) -> (r: Fx)
        ensures
            r.bits == fxdiv(self.bits as int, other.bits as int),
    {
        if other.bits == 0 {
            if self.bits >= 0 {
                Fx { bits: i64::MAX }
            } else {
                Fx { bits: i64::MIN }
            }
        } else {
            proof {
                lemma_mul_bound(self.bits as int, SCALE as int, 0x8000_0000_0000_0000int, SCALE as int);
            }
            let a: i128 = (self.bits as i128) * (SCALE as i128);
            let neg: bool = (a < 0) != (other.bits < 0);
            let mag_a: u128 = if a < 0 {
                (-a) as u128
            } else {
                a as u128
            };
            let mag_b: u128 = if other.bits < 0 {
                (-(other.bits as i128)) as u128
            } else {
                other.bits as u128
            };
            let q: u128 = mag_a / mag_b;
            assert(q == abs_int(a as int) / abs_int(other.bits as int));
            let signed: i128 = if neg {
                -(q as i128)
            } else {
                q as i128
            };
            assert(signed == tdiv(self.bits * SCALE, other.bits as int)) by {
                lemma_div_mag_bound(abs_int(a as int), abs_int(other.bits as int));
            }
            clip_i128(signed)
        }
    }

    /// The magnitude.
    pub fn abs(self) -> (r: Fx)
        ensures
            r.bits == clip(abs_int(self.bits as int)),
    {
        if self.bits >= 0 {
            self
        } else {
            self.neg()
        }
    }

    /// The smaller of two scalars.
    pub fn min(self, other: Fx) -> (r: Fx)
        ensures
            r.bits == if self.bits <= other.bits {
                self.bits
            } else {
                other.bits
            },
    {
        if self.bits <= other.bits {
            self
        } else {
            other
        }
    }

    /// The larger of two scalars.
    pub fn max(self, other: Fx) -> (r: Fx)
        ensures
            r.bits == if self.bits >= other.bits {
                self.bits
            } else {
                other.bits
            },
    {
        if self.bits >= other.bits {
            self
        } else {
            other
        }
    }

    /// The floor square root in fixed-point units.
    pub fn sqrt(self) -> (r: Fx)
        ensures
            r.bits == fxsqrt(self.bits as int),
    {
        if self.bits <= 0 {
            Fx { bits: 0 }
        } else {
            let n: u128 = (self.bits as u128) * (SCALE as u128);
            let root: u128 = isqrt_u128(n);
            proof {
                lemma_sqrt_floor_unique(n as int, root as int);
                assert((root as int) * (root as int) <= n < ((root as int) + 1) * ((root as int)
                    + 1));
                assert(root as int <= i64::MAX) by (nonlinear_arith)
                    requires
                        (root as int) * (root as int) <= n as int,
                        n as int <= (i64::MAX as int) * (SCALE as int),
                ;
            }
            Fx { bits: root as i64 }
        }
    }

    /// The whole number of `other`-sized steps at or below the quotient:
    /// true floor division, saturating, with the sign sentinels for a zero
    /// divisor.
    pub fn floor_div(self, other: Fx) -> (r: i64)
        ensures
            r as int == fxfloor_div(self.bits as int, other.bits as int),
    {
        if other.bits == 0 {
            if self.bits >= 0 {
                return i64::MAX;
            }
            return i64::MIN;
        }
        let mag_a: u64 = if self.bits < 0 {
            (-(self.bits as i128)) as u64
        } else {
            self.bits as u64
        };
        let mag_b: u64 = if other.bits < 0 {
            (-(other.bits as i128)) as u64
        } else {
            other.bits as u64
        };
        if (self.bits >= 0) == (other.bits > 0) {
            let q: u64 = mag_a / mag_b;
            if q > i64::MAX as u64 {
                i64::MAX
            } else {
                q as i64
            }
        } else if mag_a == 0 {
            0
        } else {
            let q: u64 = (mag_a - 1) / mag_b + 1;
            proof {
                assert(((mag_a as int) - 1) / (mag_b as int) + 1 == ((mag_a as int) + (
                mag_b as int) - 1) / (mag_b as int)) by (nonlinear_arith)
                    requires
                        mag_a as int >= 1,
                        mag_b as int >= 1,
                ;
            }
            if q >= 0x8000_0000_0000_0000u64 {
                i64::MIN
            } else {
                -(q as i64)
            }
        }
    }

    /// The greatest whole number at or below this scalar, as fixed point.
    pub fn floor_units(self) -> (r: i64)
        ensures
            r as int == (self.bits as int) / (SCALE as int),
    {
        if self.bits >= 0 {
            self.bits / SCALE
        } else {
            let m: i64 = self.bits % SCALE;
            if m == 0 {
                self.bits / SCALE
            } else {
                self.bits / SCALE - 1
            }
        }
    }
}

/// `q*d <= n` bounds the quotient of nonnegative integers.
proof fn lemma_div_mag_bound(n: int, d: int)
    requires
        0 <= n,
        0 < d,
    ensures
        (n / d) * d <= n,
        n / d >= 0,
    decreases n,
{
    if n >= d {
        lemma_div_mag_bound(n - d, d);
        assert((n - d) / d == n / d - 1) by (nonlinear_arith)
            requires
                0 < d,
                n >= d,
        ;
        assert((n / d - 1) * d == (n / d) * d - d) by (nonlinear_arith);
    } else {
        assert(n / d == 0) by (nonlinear_arith)
            requires
                0 <= n < d,
        ;
    }
}

/// Division toward zero is monotone in the dividend.
pub proof fn lemma_tdiv_mono(a: int, b: int, e: int)
    requires
        a <= b,
        e > 0,
    ensures
        tdiv(a, e) <= tdiv(b, e),
{
    if 0 <= a {
        vstd::arithmetic::div_mod::lemma_div_is_ordered(a, b, e);
    } else if b < 0 {
        vstd::arithmetic::div_mod::lemma_div_is_ordered(-b, -a, e);
    } else {
        assert((-a) / e >= 0) by (nonlinear_arith)
            requires
                -a >= 0,
                e > 0,
        ;
        assert(b / e >= 0) by (nonlinear_arith)
            requires
                b >= 0,
                e > 0,
        ;
    }
}

/// The saturating quotient is monotone in the dividend: in order for a
/// positive divisor, in reverse for a negative one, and by the sign
/// sentinels for a zero divisor.
pub proof fn lemma_fxdiv_mono(a: int, b: int, e: int)
    requires
        a <= b,
    ensures
        e > 0 ==> fxdiv(a, e) <= fxdiv(b, e),
        e < 0 ==> fxdiv(b, e) <= fxdiv(a, e),
        e == 0 ==> fxdiv(a, e) <= fxdiv(b, e),
{
    if e > 0 {
        assert(a * SCALE <= b * SCALE) by (nonlinear_arith)
            requires
                a <= b,
                SCALE as int > 0,
        ;
        lemma_tdiv_mono(a * SCALE, b * SCALE, e);
    } else if e < 0 {
        assert(a * SCALE <= b * SCALE) by (nonlinear_arith)
            requires
                a <= b,
                SCALE as int > 0,
        ;
        lemma_tdiv_mono(a * SCALE, b * SCALE, -e);
        assert(tdiv(a * SCALE, e) == -tdiv(a * SCALE, -e));
        assert(tdiv(b * SCALE, e) == -tdiv(b * SCALE, -e));
    }
}

/// Multiplying nonnegative scalars gives a nonnegative scalar.
pub proof fn lemma_fxmul_nonneg(a: int, b: int)
    requires
        a >= 0,
        b >= 0,
    ensures
        fxmul(a, b) >= 0,
{
    assert(a * b >= 0) by (nonlinear_arith)
        requires
            a >= 0,
            b >= 0,
    ;
    assert((a * b) / (SCALE as int) >= 0) by (nonlinear_arith)
        requires
            a * b >= 0,
    ;
}

/// Dividing a nonnegative scalar by a positive one gives a nonnegative
/// scalar.
pub proof fn lemma_fxdiv_nonneg(a: int, b: int)
    requires
        a >= 0,
        b > 0,
    ensures
        fxdiv(a, b) >= 0,
{
    assert(a * SCALE >= 0) by (nonlinear_arith)
        requires
            a >= 0,
    ;
    assert((a * SCALE) / b >= 0) by (nonlinear_arith)
        requires
            a * SCALE >= 0,
            b > 0,
    ;
}

/// Dividing by something at least as large gives at most one.
pub proof fn lemma_fxdiv_le_one(a: int, b: int)
    requires
        0 <= a <= b,
        0 < b,
    ensures
        fxdiv(a, b) <= SCALE,
{
    assert((a * SCALE) / b <= SCALE) by (nonlinear_arith)
        requires
            0 <= a <= b,
            0 < b,
            SCALE as int > 0,
    ;
    assert(a * SCALE >= 0) by (nonlinear_arith)
        requires
            a >= 0,
    ;
}

/// Adding nonnegative scalars gives a nonnegative scalar.
pub proof fn lemma_fxadd_nonneg(a: int, b: int)
    requires
        a >= 0,
        b >= 0,
    ensures
        fxadd(a, b) >= 0,
{
}

/// Saturate a wide intermediate into the scalar range.
fn clip_i128(x: i128) -> (r: Fx)
    ensures
        r.bits == clip(x as int),
{
    if x > i64::MAX as i128 {
        Fx { bits: i64::MAX }
    } else if x < i64::MIN as i128 {
        Fx { bits: i64::MIN }
    } else {
        Fx { bits: x as i64 }
    }
}

/// The floor square root of an arbitrary 128-bit integer, by bisection.
fn isqrt_u128(n: u128) -> (r: u128)
    ensures
        (r as int) * (r as int) <= n as int,
        (n as int) < ((r as int) + 1) * ((r as int) + 1),
{
    let mut lo: u128 = 0;
    let mut hi: u128 = 0x1_0000_0000_0000_0000;
    proof {
        let two64: int = 0x1_0000_0000_0000_0000int;
        assert((n as int) < two64 * two64) by (nonlinear_arith)
            requires
                n as int <= u128::MAX,
                two64 == 0x1_0000_0000_0000_0000int,
        ;
        assert((hi as int) * (hi as int) > n as int) by (nonlinear_arith)
            requires
                hi as int == two64,
                (n as int) < two64 * two64,
        ;
    }
    while hi - lo > 1
        invariant
            lo < hi,
            hi <= 0x1_0000_0000_0000_0000,
            (lo as int) * (lo as int) <= n as int,
            (n as int) < (hi as int) * (hi as int),
        decreases hi - lo,
    {
        let mid: u128 = lo + (hi - lo) / 2;
        assert(lo < mid < hi);
        proof {
            lemma_mul_bound(
                mid as int,
                mid as int,
                0xFFFF_FFFF_FFFF_FFFFint,
                0xFFFF_FFFF_FFFF_FFFFint,
            );
        }
        if mid * mid <= n {
            lo = mid;
        } else {
            hi = mid;
        }
    }
    assert(hi == lo + 1);
    lo
}

} // verus!
