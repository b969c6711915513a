//! Hit records, the insertion-ordered scene list, and the two space
//! transform wrappers.
//!
//! Materials live in an arena owned by the scene; geometry and hit records
//! refer to them by stable index, so a record never clones a material.

use vstd::prelude::*;

use crate::aabb::{spec_merge_aabb, Aabb};
use crate::fixed::{fxadd, fxmul, fxneg, fxsub, Fx};
use crate::ray::Ray;
use crate::shapes::{
    shape_wf, spec_rotatey_hit, spec_scan_list, spec_shape_bounding_box, spec_translate_hit,
    Shapes,
};
use crate::vec3::{spec_dot, spec_vneg, Vec3};

verus! {

#[derive(Clone, Copy, Debug, PartialEq, Eq, Structural)]
pub struct HitRecord {
    /// The hit point.
    pub p: Vec3,
    /// The surface normal, oriented against the incoming ray.
    pub normal: Vec3,
    /// The ray parameter of the hit.
    pub t: Fx,
    /// Whether the ray met the surface from outside.
    pub front_face: bool,
    /// The index of the surface's material in the scene's material arena.
    pub mat: usize,
    /// Texture coordinates.
    pub u: Fx,
    pub v: Fx,
}

/// The record with its normal oriented against the ray `r`.
pub open spec fn spec_face_normal(rec: HitRecord, r: Ray, outward_normal: Vec3) -> HitRecord {
    let front = spec_dot(r.direction, outward_normal) < 0;
    HitRecord {
        front_face: front,
        normal: if front {
            outward_normal
        } else {
            spec_vneg(outward_normal)
        },
        ..rec
    }
}

impl HitRecord {
    /// A record from its parts.
    pub fn new(p: Vec3, normal: Vec3, t: Fx, front_face: bool, mat: usize, u: Fx, v: Fx) -> (r:
        HitRecord)
        ensures
            r == (HitRecord { p, normal, t, front_face, mat, u, v }),
    {
        HitRecord { p, normal, t, front_face, mat, u, v }
    }

    /// Orients the stored normal against the ray: `outward_normal` is the
    /// outward unit normal; the record keeps it when the ray comes from
    /// outside and its negation otherwise.
    pub fn set_face_normal(&mut self, r: Ray, outward_normal: Vec3)
        ensures
            *final(self) == spec_face_normal(*old(self), r, outward_normal),
    {
        self.front_face = r.direction.dot(&outward_normal).bits < 0;
        self.normal = if self.front_face {
            outward_normal
        } else {
            outward_normal.neg()
        };
    }
}

/// An insertion-ordered collection of shapes with its running union box.
pub struct HittableList {
    pub objects: Vec<Shapes>,
    pub bbox: Aabb,
}

/// Every shape's material index lies below `mats`.
pub open spec fn list_wf(l: HittableList, mats: int) -> bool {
    forall|i: int| 0 <= i < l.objects@.len() ==> shape_wf(#[trigger] l.objects@[i], mats)
}

impl HittableList {
    /// An empty scene list.
    pub fn new() -> (r: HittableList)
        ensures
            r.objects@ =~= Seq::<Shapes>::empty(),
            r.bbox == (Aabb {
                x: crate::utils::Interval { min: Fx { bits: 0 }, max: Fx { bits: 0 } },
                y: crate::utils::Interval { min: Fx { bits: 0 }, max: Fx { bits: 0 } },
                z: crate::utils::Interval { min: Fx { bits: 0 }, max: Fx { bits: 0 } },
            }),
    {
        HittableList { objects: Vec::new(), bbox: Default::default() }
    }

    /// Empties the list; the cached box is left as it stands.
    pub fn clear(&mut self)
        ensures
            final(self).objects@ =~= Seq::<Shapes>::empty(),
            final(self).bbox == old(self).bbox,
    {
        self.objects.clear();
    }

    /// Appends a shape and widens the cached union box around it.
    pub fn add(&mut self, object: Shapes)
        ensures
            final(self).objects@ =~= old(self).objects@.push(object),
            final(self).bbox == spec_merge_aabb(old(self).bbox, spec_shape_bounding_box(object)),
    {
        let bbox = object.bounding_box();
        self.objects.push(object);
        self.bbox = Aabb::new_from_aabb(self.bbox, bbox);
    }

    /// The nearest hit of the ray over the list: each object is probed with
    /// the interval narrowed to the closest hit so far.
    pub fn hit(&self, r: Ray, ray_t: crate::utils::Interval) -> (res: Option<HitRecord>)
        ensures
            res == spec_scan_list(
                self.objects@,
                0,
                r,
                ray_t.min.bits as int,
                None::<HitRecord>,
                ray_t.max.bits as int,
            ),
    {
        let mut temp_rec: Option<HitRecord> = None;
        let mut closest_so_far: Fx = ray_t.max;
        let mut idx: usize = 0;
        while idx < self.objects.len()
            invariant
                0 <= idx <= self.objects.len(),
                spec_scan_list(
                    self.objects@,
                    0,
                    r,
                    ray_t.min.bits as int,
                    None::<HitRecord>,
                    ray_t.max.bits as int,
                ) == spec_scan_list(
                    self.objects@,
                    idx as int,
                    r,
                    ray_t.min.bits as int,
                    temp_rec,
                    closest_so_far.bits as int,
                ),
            decreases self.objects.len() - idx,
        {
            let object = &self.objects[idx];
            if let Some(hit) = object.hit(r, crate::utils::Interval::new(ray_t.min, closest_so_far))
             {
                closest_so_far = hit.t;
                temp_rec = Some(hit);
            }
            idx = idx + 1;
        }
        temp_rec
    }

    /// The cached union box.
    pub fn bounding_box(&self) -> (r: Aabb)
        ensures
            r == self.bbox,
    {
        self.bbox
    }
}

/// A shape displaced by a fixed offset.
pub struct Translate {
    pub object: Box<Shapes>,
    pub offset: Vec3,
    pub bbox: Aabb,
}

impl Translate {
    /// Wraps a shape: the box is the child's box shifted once, at
    /// construction.
    pub fn new(object: Box<Shapes>, offset: Vec3) -> (r: Translate)
        ensures
            r.object == object,
            r.offset == offset,
            r.bbox == spec_shift_aabb(spec_shape_bounding_box(*object), offset),
    {
        let child_box = object.bounding_box();
        let bbox = Aabb {
            x: child_box.x.shift(offset.x),
            y: child_box.y.shift(offset.y),
            z: child_box.z.shift(offset.z),
        };
        Translate { object, offset, bbox }
    }

    /// The child probed in its local frame; a hit is carried back to world
    /// space.
    pub fn hit(&self, r: Ray, ray_t: crate::utils::Interval) -> (res: Option<HitRecord>)
        ensures
            res == spec_translate_hit(*self, r, ray_t.min.bits as int, ray_t.max.bits as int),
        decreases *self,
    {
        let offset_r = Ray::new(r.origin.sub(self.offset), r.direction);
        let hit = self.object.hit(offset_r, ray_t);
        match hit {
            None => None,
            Some(mut temp_rec) => {
                temp_rec.p = temp_rec.p.add(self.offset);
                Some(temp_rec)
            },
        }
    }

    /// The cached world-space box.
    pub fn bounding_box(&self) -> (r: Aabb)
        ensures
            r == self.bbox,
    {
        self.bbox
    }
}

/// A box shifted by an offset on every axis.
pub open spec fn spec_shift_aabb(b: Aabb, offset: Vec3) -> Aabb {
    Aabb {
        x: crate::utils::Interval {
            min: Fx { bits: fxadd(b.x.min.bits as int, offset.x.bits as int) as i64 },
            max: Fx { bits: fxadd(b.x.max.bits as int, offset.x.bits as int) as i64 },
        },
        y: crate::utils::Interval {
            min: Fx { bits: fxadd(b.y.min.bits as int, offset.y.bits as int) as i64 },
            max: Fx { bits: fxadd(b.y.max.bits as int, offset.y.bits as int) as i64 },
        },
        z: crate::utils::Interval {
            min: Fx { bits: fxadd(b.z.min.bits as int, offset.z.bits as int) as i64 },
            max: Fx { bits: fxadd(b.z.max.bits as int, offset.z.bits as int) as i64 },
        },
    }
}

/// A shape rotated about the vertical axis.
pub struct RotateY {
    pub object: Box<Shapes>,
    pub sin_theta: Fx,
    pub cos_theta: Fx,
    pub bbox: Aabb,
}

impl RotateY {
    /// Wraps a shape in a rotation by `angle` degrees: the sine and cosine
    /// are fixed at construction, and the world box is the child's box with
    /// its four rotated corner extremes, computed eagerly.
    pub fn new(object: Box<Shapes>, angle: Fx) -> (r: RotateY)
        ensures
            r.object == object,
            r.sin_theta.bits == crate::trig::spec_sin(
                crate::utils::spec_degrees_to_radians(angle.bits as int),
            ),
            r.cos_theta.bits == crate::trig::spec_cos(
                crate::utils::spec_degrees_to_radians(angle.bits as int),
            ),
            r.bbox == spec_rotated_aabb(
                spec_shape_bounding_box(*object),
                r.sin_theta.bits as int,
                r.cos_theta.bits as int,
            ),
    {
        let radians = crate::utils::degrees_to_radians(angle);
        let sin_theta = crate::trig::sin_fx(radians);
        let cos_theta = crate::trig::cos_fx(radians);
        let child_box = object.bounding_box();
        let c00 = rotate_xz(child_box.x.min, child_box.z.min, sin_theta, cos_theta);
        let c01 = rotate_xz(child_box.x.min, child_box.z.max, sin_theta, cos_theta);
        let c10 = rotate_xz(child_box.x.max, child_box.z.min, sin_theta, cos_theta);
        let c11 = rotate_xz(child_box.x.max, child_box.z.max, sin_theta, cos_theta);
        let min_x = c00.0.min(c01.0).min(c10.0).min(c11.0);
        let max_x = c00.0.max(c01.0).max(c10.0).max(c11.0);
        let min_z = c00.1.min(c01.1).min(c10.1).min(c11.1);
        let max_z = c00.1.max(c01.1).max(c10.1).max(c11.1);
        let bbox = Aabb {
            x: crate::utils::Interval { min: min_x, max: max_x },
            y: child_box.y,
            z: crate::utils::Interval { min: min_z, max: max_z },
        };
        RotateY { object, sin_theta, cos_theta, bbox }
    }

    /// The ray carried into the child's frame; a hit is rotated back.
    pub fn hit(&self, r: Ray, ray_t: crate::utils::Interval) -> (res: Option<HitRecord>)
        ensures
            res == spec_rotatey_hit(*self, r, ray_t.min.bits as int, ray_t.max.bits as int),
        decreases *self,
    {
        let origin = Vec3::new(
            self.cos_theta.mul(r.origin.x).sub(self.sin_theta.mul(r.origin.z)),
            r.origin.y,
            self.sin_theta.mul(r.origin.x).add(self.cos_theta.mul(r.origin.z)),
        );
        let direction = Vec3::new(
            self.cos_theta.mul(r.direction.x).sub(self.sin_theta.mul(r.direction.z)),
            r.direction.y,
            self.sin_theta.mul(r.direction.x).add(self.cos_theta.mul(r.direction.z)),
        );
        let rotated_r = Ray::new(origin, direction);
        let hit = self.object.hit(rotated_r, ray_t);
        match hit {
            None => None,
            Some(mut temp_rec) => {
                temp_rec.p = Vec3::new(
                    self.cos_theta.mul(temp_rec.p.x).add(self.sin_theta.mul(temp_rec.p.z)),
                    temp_rec.p.y,
                    self.sin_theta.neg().mul(temp_rec.p.x).add(self.cos_theta.mul(temp_rec.p.z)),
                );
                temp_rec.normal = Vec3::new(
                    self.cos_theta.mul(temp_rec.normal.x).add(self.sin_theta.mul(temp_rec.normal.z)),
                    temp_rec.normal.y,
                    self.sin_theta.neg().mul(temp_rec.normal.x).add(
                        self.cos_theta.mul(temp_rec.normal.z),
                    ),
                );
                Some(temp_rec)
            },
        }
    }

    /// The cached world-space box.
    pub fn bounding_box(&self) -> (r: Aabb)
        ensures
            r == self.bbox,
    {
        self.bbox
    }
}

/// One corner of the child box rotated about the vertical axis.
fn rotate_xz(x: Fx, z: Fx, sin_theta: Fx, cos_theta: Fx) -> (r: (Fx, Fx))
    ensures
        r.0.bits == spec_rot_x(x.bits as int, z.bits as int, sin_theta.bits as int, cos_theta.bits as int),
        r.1.bits == spec_rot_z(x.bits as int, z.bits as int, sin_theta.bits as int, cos_theta.bits as int),
{
    (cos_theta.mul(x).add(sin_theta.mul(z)), sin_theta.neg().mul(x).add(cos_theta.mul(z)))
}

/// The rotated first coordinate of a corner.
pub open spec fn spec_rot_x(x: int, z: int, s: int, c: int) -> int {
    fxadd(fxmul(c, x), fxmul(s, z))
}

/// The rotated third coordinate of a corner.
pub open spec fn spec_rot_z(x: int, z: int, s: int, c: int) -> int {
    fxadd(fxmul(fxneg(s), x), fxmul(c, z))
}

/// The smaller of two already-clipped values.
pub open spec fn imin(a: int, b: int) -> int {
    if a <= b {
        a
    } else {
        b
    }
}

/// The larger of two already-clipped values.
pub open spec fn imax(a: int, b: int) -> int {
    if a >= b {
        a
    } else {
        b
    }
}

/// The box spanned by the four rotated corners of `b` in the rotation
/// plane; the vertical axis is untouched.
pub open spec fn spec_rotated_aabb(b: Aabb, s: int, c: int) -> Aabb {
    let x00 = spec_rot_x(b.x.min.bits as int, b.z.min.bits as int, s, c);
    let x01 = spec_rot_x(b.x.min.bits as int, b.z.max.bits as int, s, c);
    let x10 = spec_rot_x(b.x.max.bits as int, b.z.min.bits as int, s, c);
    let x11 = spec_rot_x(b.x.max.bits as int, b.z.max.bits as int, s, c);
    let z00 = spec_rot_z(b.x.min.bits as int, b.z.min.bits as int, s, c);
    let z01 = spec_rot_z(b.x.min.bits as int, b.z.max.bits as int, s, c);
    let z10 = spec_rot_z(b.x.max.bits as int, b.z.min.bits as int, s, c);
    let z11 = spec_rot_z(b.x.max.bits as int, b.z.max.bits as int, s, c);
    Aabb {
        x: crate::utils::Interval {
            min: Fx { bits: imin(imin(imin(x00, x01), x10), x11) as i64 },
            max: Fx { bits: imax(imax(imax(x00, x01), x10), x11) as i64 },
        },
        y: b.y,
        z: crate::utils::Interval {
            min: Fx { bits: imin(imin(imin(z00, z01), z10), z11) as i64 },
            max: Fx { bits: imax(imax(imax(z00, z01), z10), z11) as i64 },
        },
    }
}

} // verus!
