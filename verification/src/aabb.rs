//! Axis-aligned bounding boxes: three intervals, merged component-wise and
//! probed by the slab test.

use vstd::prelude::*;

use crate::fixed::{fxdiv, fxsub, Fx};
use crate::ray::Ray;
use crate::utils::{spec_merge_interval, Interval};
use crate::vec3::Vec3;

verus! {

#[derive(Clone, Copy, Debug, PartialEq, Eq, Structural)]
pub struct Aabb {
    pub x: Interval,
    pub y: Interval,
    pub z: Interval,
}

/// The component-wise union of two boxes.
pub open spec fn spec_merge_aabb(a: Aabb, b: Aabb) -> Aabb {
    Aabb {
        x: spec_merge_interval(a.x, b.x),
        y: spec_merge_interval(a.y, b.y),
        z: spec_merge_interval(a.z, b.z),
    }
}

/// `outer` spans at least the range of `inner`.
pub open spec fn interval_covers(outer: Interval, inner: Interval) -> bool {
    outer.min.bits <= inner.min.bits && inner.max.bits <= outer.max.bits
}

/// `outer` encloses `inner` on every axis.
pub open spec fn aabb_covers(outer: Aabb, inner: Aabb) -> bool {
    interval_covers(outer.x, inner.x) && interval_covers(outer.y, inner.y) && interval_covers(
        outer.z,
        inner.z,
    )
}

/// The query interval narrowed by one axis of the slab test: the candidate
/// parameters at the two bounds, ordered, intersected with the running
/// interval.
pub open spec fn spec_slab_axis(ax: Interval, o: int, d: int, t: Interval) -> Interval {
    let t0 = fxdiv(fxsub(ax.min.bits as int, o), d);
    let t1 = fxdiv(fxsub(ax.max.bits as int, o), d);
    let lo = if t0 < t1 {
        t0
    } else {
        t1
    };
    let hi = if t0 < t1 {
        t1
    } else {
        t0
    };
    Interval {
        min: Fx {
            bits: if lo > t.min.bits {
                lo as i64
            } else {
                t.min.bits
            },
        },
        max: Fx {
            bits: if hi < t.max.bits {
                hi as i64
            } else {
                t.max.bits
            },
        },
    }
}

/// Whether the slab test reports an intersection: each axis narrows the
/// query interval, and the test fails as soon as the interval empties.
pub open spec fn spec_aabb_hit(b: Aabb, r: Ray, t: Interval) -> bool {
    let tx = spec_slab_axis(b.x, r.origin.x.bits as int, r.direction.x.bits as int, t);
    if tx.max.bits <= tx.min.bits {
        false
    } else {
        let ty = spec_slab_axis(b.y, r.origin.y.bits as int, r.direction.y.bits as int, tx);
        if ty.max.bits <= ty.min.bits {
            false
        } else {
            let tz = spec_slab_axis(b.z, r.origin.z.bits as int, r.direction.z.bits as int, ty);
            !(tz.max.bits <= tz.min.bits)
        }
    }
}

impl Aabb {
    /// A box from its three axis intervals.
    pub fn new(x: Interval, y: Interval, z: Interval) -> (r: Aabb)
        ensures
            r == (Aabb { x, y, z }),
    {
        Aabb { x, y, z }
    }

    /// The empty box: every axis the empty sentinel.
    pub fn empty() -> (r: Aabb)
        ensures
            r == (Aabb { x: Interval::spec_empty(), y: Interval::spec_empty(), z: Interval::spec_empty() }),
    {
        Aabb { x: Interval::empty(), y: Interval::empty(), z: Interval::empty() }
    }

    /// The all-embracing box.
    pub fn universe() -> (r: Aabb)
        ensures
            r == (Aabb {
                x: Interval::spec_universe(),
                y: Interval::spec_universe(),
                z: Interval::spec_universe(),
            }),
    {
        Aabb { x: Interval::universe(), y: Interval::universe(), z: Interval::universe() }
    }

    /// The index of the axis with the greatest extent; ties go to the later
    /// axis.
    pub fn longest_axis(&self) -> (r: i32)
        ensures
            r == self.spec_longest_axis(),
    {
        let sx = self.x.size();
        let sy = self.y.size();
        let sz = self.z.size();
        if sx.bits > sy.bits {
            if sx.bits > sz.bits {
                0
            } else {
                2
            }
        } else {
            if sy.bits > sz.bits {
                1
            } else {
                2
            }
        }
    }

    /// The axis the partitioner will split on.
    pub open spec fn spec_longest_axis(&self) -> i32 {
        let sx = fxsub(self.x.max.bits as int, self.x.min.bits as int);
        let sy = fxsub(self.y.max.bits as int, self.y.min.bits as int);
        let sz = fxsub(self.z.max.bits as int, self.z.min.bits as int);
        if sx > sy {
            if sx > sz {
                0
            } else {
                2
            }
        } else {
            if sy > sz {
                1
            } else {
                2
            }
        }
    }

    /// The smallest box holding both arguments.
    pub fn new_from_aabb(box0: Aabb, box1: Aabb) -> (r: Aabb)
        ensures
            r == spec_merge_aabb(box0, box1),
    {
        let x = Interval::new_from_interval(&box0.x, &box1.x);
        let y = Interval::new_from_interval(&box0.y, &box1.y);
        let z = Interval::new_from_interval(&box0.z, &box1.z);
        Aabb { x, y, z }
    }

    /// The box spanned by two corner points, each axis ordered.
    pub fn new_from_vec3(a: Vec3, b: Vec3) -> (r: Aabb)
        ensures
            r == spec_aabb_from_points(a, b),
    {
        let x = if a.x.bits <= b.x.bits {
            Interval::new(a.x, b.x)
        } else {
            Interval::new(b.x, a.x)
        };
        let y = if a.y.bits <= b.y.bits {
            Interval::new(a.y, b.y)
        } else {
            Interval::new(b.y, a.y)
        };
        let z = if a.z.bits <= b.z.bits {
            Interval::new(a.z, b.z)
        } else {
            Interval::new(b.z, a.z)
        };
        Aabb { x, y, z }
    }

    /// The interval of the box on axis `n` (`1` the second, `2` the third,
    /// anything else the first).
    pub fn axis_interval(&self, n: i32) -> (r: Interval)
        ensures
            r == self.spec_axis_interval(n),
    {
        if n == 1 {
            return self.y;
        }
        if n == 2 {
            return self.z;
        }
        self.x
    }

    /// The interval of the box on axis `n`.
    pub open spec fn spec_axis_interval(&self, n: i32) -> Interval {
        if n == 1 {
            self.y
        } else if n == 2 {
            self.z
        } else {
            self.x
        }
    }

    /// Whether the ray meets the box within the query interval, by the slab
    /// test.
    pub fn hit(&self, r: Ray, ray_t: Interval) -> (hit: bool)
        ensures
            hit == spec_aabb_hit(*self, r, ray_t),
    {
        let mut t = ray_t;
        t = slab_axis(&self.x, r.origin.x, r.direction.x, t);
        if t.max.bits <= t.min.bits {
            return false;
        }
        t = slab_axis(&self.y, r.origin.y, r.direction.y, t);
        if t.max.bits <= t.min.bits {
            return false;
        }
        t = slab_axis(&self.z, r.origin.z, r.direction.z, t);
        if t.max.bits <= t.min.bits {
            return false;
        }
        true
    }
}

/// The box spanned by two corner points.
pub open spec fn spec_aabb_from_points(a: Vec3, b: Vec3) -> Aabb {
    Aabb {
        x: if a.x.bits <= b.x.bits {
            Interval { min: a.x, max: b.x }
        } else {
            Interval { min: b.x, max: a.x }
        },
        y: if a.y.bits <= b.y.bits {
            Interval { min: a.y, max: b.y }
        } else {
            Interval { min: b.y, max: a.y }
        },
        z: if a.z.bits <= b.z.bits {
            Interval { min: a.z, max: b.z }
        } else {
            Interval { min: b.z, max: a.z }
        },
    }
}

/// One axis of the slab test.
fn slab_axis(ax: &Interval, o: Fx, d: Fx, t: Interval) -> (r: Interval)
    ensures
        r == spec_slab_axis(*ax, o.bits as int, d.bits as int, t),
{
    let t0 = ax.min.sub(o).div(d);
    let t1 = ax.max.sub(o).div(d);
    let mut out = t;
    if t0.bits < t1.bits {
        if t0.bits > out.min.bits {
            out.min = t0;
        }
        if t1.bits < out.max.bits {
            out.max = t1;
        }
    } else {
        if t1.bits > out.min.bits {
            out.min = t1;
        }
        if t0.bits < out.max.bits {
            out.max = t0;
        }
    }
    out
}

impl Default for Aabb {
    /// The degenerate box at the origin.
    fn default() -> (r: Aabb)
        ensures
            r == (Aabb {
                x: Interval { min: Fx { bits: 0 }, max: Fx { bits: 0 } },
                y: Interval { min: Fx { bits: 0 }, max: Fx { bits: 0 } },
                z: Interval { min: Fx { bits: 0 }, max: Fx { bits: 0 } },
            }),
    {
        Aabb { x: Default::default(), y: Default::default(), z: Default::default() }
    }
}

/// The axis interval is in order.
pub open spec fn aabb_sorted(b: Aabb) -> bool {
    b.x.min.bits <= b.x.max.bits && b.y.min.bits <= b.y.max.bits && b.z.min.bits <= b.z.max.bits
}

/// The query interval over raw bounds.
pub open spec fn ivl(tmin: int, tmax: int) -> Interval {
    Interval { min: Fx { bits: tmin as i64 }, max: Fx { bits: tmax as i64 } }
}

/// Widening the axis slab and the incoming interval can only widen the
/// narrowed interval: one axis step of the slab test is monotone under box
/// cover.
proof fn lemma_slab_axis_covers(axa: Interval, axb: Interval, o: int, d: int, ta: Interval, tb: Interval)
    requires
        interval_covers(axb, axa),
        axa.min.bits <= axa.max.bits,
        tb.min.bits <= ta.min.bits,
        ta.max.bits <= tb.max.bits,
    ensures
        spec_slab_axis(axb, o, d, tb).min.bits <= spec_slab_axis(axa, o, d, ta).min.bits,
        spec_slab_axis(axa, o, d, ta).max.bits <= spec_slab_axis(axb, o, d, tb).max.bits,
{
    let na0 = fxsub(axa.min.bits as int, o);
    let na1 = fxsub(axa.max.bits as int, o);
    let nb0 = fxsub(axb.min.bits as int, o);
    let nb1 = fxsub(axb.max.bits as int, o);
    assert(nb0 <= na0 <= na1 <= nb1);
    crate::fixed::lemma_fxdiv_mono(nb0, na0, d);
    crate::fixed::lemma_fxdiv_mono(na0, na1, d);
    crate::fixed::lemma_fxdiv_mono(na1, nb1, d);
}

/// A box test that succeeds keeps succeeding on any enclosing box: the key
/// fact that makes pruning by a node's box sound for everything the box
/// encloses.
pub proof fn lemma_aabb_hit_covers(a: Aabb, b: Aabb, r: Ray, t: Interval)
    requires
        aabb_covers(b, a),
        aabb_sorted(a),
        spec_aabb_hit(a, r, t),
    ensures
        spec_aabb_hit(b, r, t),
{
    let txa = spec_slab_axis(a.x, r.origin.x.bits as int, r.direction.x.bits as int, t);
    let txb = spec_slab_axis(b.x, r.origin.x.bits as int, r.direction.x.bits as int, t);
    lemma_slab_axis_covers(a.x, b.x, r.origin.x.bits as int, r.direction.x.bits as int, t, t);
    let tya = spec_slab_axis(a.y, r.origin.y.bits as int, r.direction.y.bits as int, txa);
    let tyb = spec_slab_axis(b.y, r.origin.y.bits as int, r.direction.y.bits as int, txb);
    lemma_slab_axis_covers(a.y, b.y, r.origin.y.bits as int, r.direction.y.bits as int, txa, txb);
    let tza = spec_slab_axis(a.z, r.origin.z.bits as int, r.direction.z.bits as int, tya);
    let tzb = spec_slab_axis(b.z, r.origin.z.bits as int, r.direction.z.bits as int, tyb);
    lemma_slab_axis_covers(a.z, b.z, r.origin.z.bits as int, r.direction.z.bits as int, tya, tyb);
}

/// A sorted box stays sorted under cover.
pub proof fn lemma_covers_sorted(outer: Aabb, inner: Aabb)
    requires
        aabb_covers(outer, inner),
        aabb_sorted(inner),
    ensures
        aabb_sorted(outer),
{
}

/// Merging boxes does not depend on the order of the arguments.
pub proof fn lemma_merge_commutative(a: Aabb, b: Aabb)
    ensures
        spec_merge_aabb(a, b) == spec_merge_aabb(b, a),
{
}

/// Merging boxes groups freely: merging a third box into a union gives the
/// union of the three however the merges are nested.
pub proof fn lemma_merge_associative(a: Aabb, b: Aabb, c: Aabb)
    ensures
        spec_merge_aabb(spec_merge_aabb(a, b), c) == spec_merge_aabb(a, spec_merge_aabb(b, c)),
{
}

/// A box enclosing two boxes encloses their union.
pub proof fn lemma_covers_merge(b: Aabb, x: Aabb, y: Aabb)
    requires
        aabb_covers(b, x),
        aabb_covers(b, y),
    ensures
        aabb_covers(b, spec_merge_aabb(x, y)),
{
}

/// Mutually enclosing boxes are equal.
pub proof fn lemma_covers_antisym(a: Aabb, b: Aabb)
    requires
        aabb_covers(a, b),
        aabb_covers(b, a),
    ensures
        a == b,
{
    assert(a.x.min.bits == b.x.min.bits && a.x.max.bits == b.x.max.bits);
    assert(a.y.min.bits == b.y.min.bits && a.y.max.bits == b.y.max.bits);
    assert(a.z.min.bits == b.z.min.bits && a.z.max.bits == b.z.max.bits);
}

/// The union encloses both of its arguments.
pub proof fn lemma_merge_covers(a: Aabb, b: Aabb)
    ensures
        aabb_covers(spec_merge_aabb(a, b), a),
        aabb_covers(spec_merge_aabb(a, b), b),
{
}

} // verus!
