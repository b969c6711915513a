//! The closed set of intersectable shapes and their ray tests.
//!
//! Primitives carry their material as an index into the scene's material
//! arena and cache their bounding box at construction.  Each executable hit
//! test is specified exactly by a spec function over the fixed-point
//! arithmetic it performs.

use vstd::prelude::*;

use crate::aabb::{spec_aabb_from_points, spec_merge_aabb, Aabb};
use crate::fixed::{abs_int, fxadd, fxdiv, fxmul, fxneg, fxsqrt, fxsub, tdiv, Fx, SCALE};
use crate::hittables::{
    imax, imin, spec_face_normal, spec_rot_x, spec_rot_z, HitRecord, RotateY, Translate,
};
use crate::ray::{spec_ray_at, Ray};
use crate::trig::{spec_acos, spec_atan2, PI_BITS};
use crate::vec3::{
    fxv, spec_cross, spec_dot, spec_len_sq, spec_unit, spec_vadd, spec_vdiv_scalar, spec_vneg,
    spec_vsub, Vec3,
};

verus! {

/// Tolerance, in fixed-point bits, for recognizing which face of a box a
/// hit point lies on when mapping texture coordinates.
pub const UV_TOL_BITS: i64 = 64;

pub enum Shapes {
    Sphere(Sphere),
    Cube(Cube),
    Cuboid(Cuboid),
    Quad(Quad),
    Translate(Translate),
    RotateY(RotateY),
}

pub struct Sphere {
    pub center: Vec3,
    pub radius: Fx,
    pub mat: usize,
    pub bbox: Aabb,
}

pub struct Cube {
    pub center: Vec3,
    pub size: Fx,
    pub mat: usize,
    pub bbox: Aabb,
}

pub struct Cuboid {
    pub center: Vec3,
    pub dimensions: Vec3,
    pub mat: usize,
    pub bbox: Aabb,
}

pub struct Quad {
    pub q: Vec3,
    pub u: Vec3,
    pub v: Vec3,
    pub mat: usize,
    pub bbox: Aabb,
}

/// Every material index in the shape lies below `mats`.
pub open spec fn shape_wf(s: Shapes, mats: int) -> bool
    decreases s,
{
    match s {
        Shapes::Sphere(sp) => (sp.mat as int) < mats,
        Shapes::Cube(c) => (c.mat as int) < mats,
        Shapes::Cuboid(c) => (c.mat as int) < mats,
        Shapes::Quad(q) => (q.mat as int) < mats,
        Shapes::Translate(t) => shape_wf(*t.object, mats),
        Shapes::RotateY(ry) => shape_wf(*ry.object, mats),
    }
}

/// The cached bounding box of a shape.
pub open spec fn spec_shape_bounding_box(s: Shapes) -> Aabb {
    match s {
        Shapes::Sphere(sp) => sp.bbox,
        Shapes::Cube(c) => c.bbox,
        Shapes::Cuboid(c) => c.bbox,
        Shapes::Quad(q) => q.bbox,
        Shapes::Translate(t) => t.bbox,
        Shapes::RotateY(ry) => ry.bbox,
    }
}

/// Spherical texture coordinates of a point on the unit sphere.
pub open spec fn spec_sphere_uv(p: Vec3) -> (int, int) {
    let theta = spec_acos(fxneg(p.y.bits as int));
    let phi = fxadd(spec_atan2(fxneg(p.z.bits as int), p.x.bits as int), PI_BITS as int);
    (fxdiv(phi, 2 * PI_BITS), fxdiv(theta, PI_BITS as int))
}

/// The record a sphere produces for an accepted root.
pub open spec fn spec_sphere_rec(s: Sphere, r: Ray, root: int) -> HitRecord {
    let p = spec_ray_at(r, root);
    let outward = spec_vdiv_scalar(spec_vsub(p, s.center), s.radius.bits as int);
    let front = spec_dot(r.direction, outward) < 0;
    let uv = spec_sphere_uv(outward);
    HitRecord {
        t: fxv(root),
        p,
        normal: if front {
            outward
        } else {
            spec_vneg(outward)
        },
        front_face: front,
        mat: s.mat,
        u: fxv(uv.0),
        v: fxv(uv.1),
    }
}

/// The sphere test: the half-b quadratic and the nearer admissible root of
/// the open query interval.  A zero-radius sphere never registers a hit.
pub open spec fn spec_sphere_hit(s: Sphere, r: Ray, tmin: int, tmax: int) -> Option<HitRecord> {
    if s.radius.bits == 0 {
        None
    } else {
        spec_sphere_hit_positive(s, r, tmin, tmax)
    }
}

/// The quadratic itself, for a sphere of nonzero radius.
pub open spec fn spec_sphere_hit_positive(s: Sphere, r: Ray, tmin: int, tmax: int) -> Option<
    HitRecord,
> {
    let oc = spec_vsub(r.origin, s.center);
    let a = spec_len_sq(r.direction);
    let half_b = spec_dot(oc, r.direction);
    let c = fxsub(spec_len_sq(oc), fxmul(s.radius.bits as int, s.radius.bits as int));
    let disc = fxsub(fxmul(half_b, half_b), fxmul(a, c));
    if disc >= 0 {
        let sqrtd = fxsqrt(disc);
        let root_a = fxdiv(fxsub(fxneg(half_b), sqrtd), a);
        let root_b = fxdiv(fxadd(fxneg(half_b), sqrtd), a);
        if tmin < root_a && root_a < tmax {
            Some(spec_sphere_rec(s, r, root_a))
        } else if tmin < root_b && root_b < tmax {
            Some(spec_sphere_rec(s, r, root_b))
        } else {
            None
        }
    } else {
        None
    }
}

impl Sphere {
    /// A sphere; a negative radius is clamped to zero, and the box spans
    /// `center` plus and minus the radius.
    pub fn new(center: Vec3, radius: Fx, mat: usize) -> (r: Sphere)
        ensures
            r.center == center,
            r.radius.bits == if radius.bits >= 0 {
                radius.bits
            } else {
                0
            },
            r.mat == mat,
            r.bbox == spec_aabb_from_points(
                spec_vsub(center, Vec3 { x: r.radius, y: r.radius, z: r.radius }),
                spec_vadd(center, Vec3 { x: r.radius, y: r.radius, z: r.radius }),
            ),
    {
        let radius = if radius.bits >= 0 {
            radius
        } else {
            Fx::zero()
        };
        let radius_vec = Vec3::new(radius, radius, radius);
        let bbox = Aabb::new_from_vec3(center.sub(radius_vec), center.add(radius_vec));
        Sphere { center, radius, mat, bbox }
    }

    /// Spherical texture coordinates of a point on the unit sphere.
    pub fn get_sphere_uv(p: Vec3) -> (r: (Fx, Fx))
        ensures
            (r.0.bits as int, r.1.bits as int) == spec_sphere_uv(p),
    {
        let theta = crate::trig::acos_fx(p.y.neg());
        let phi = crate::trig::atan2_fx(p.z.neg(), p.x).add(Fx { bits: PI_BITS });
        let u = phi.div(Fx { bits: 2 * PI_BITS });
        let v = theta.div(Fx { bits: PI_BITS });
        (u, v)
    }

    /// The nearest admissible intersection of the ray with the sphere; a
    /// sphere clamped to zero size never registers one.
    pub fn hit(&self, ray: Ray, ray_t: crate::utils::Interval) -> (res: Option<HitRecord>)
        ensures
            res == spec_sphere_hit(*self, ray, ray_t.min.bits as int, ray_t.max.bits as int),
            self.radius.bits == 0 ==> res is None,
    {
        if self.radius.bits == 0 {
            return None;
        }
        let oc = ray.origin.sub(self.center);
        let a = ray.direction.length_squared();
        let half_b = oc.dot(&ray.direction);
        let c = oc.length_squared().sub(self.radius.mul(self.radius));
        let discriminant = half_b.mul(half_b).sub(a.mul(c));
        if discriminant.bits >= 0 {
            let sqrtd = discriminant.sqrt();
            let root_a = half_b.neg().sub(sqrtd).div(a);
            let root_b = half_b.neg().add(sqrtd).div(a);
            if ray_t.min.bits < root_a.bits && root_a.bits < ray_t.max.bits {
                Some(self.make_rec(ray, root_a))
            } else if ray_t.min.bits < root_b.bits && root_b.bits < ray_t.max.bits {
                Some(self.make_rec(ray, root_b))
            } else {
                None
            }
        } else {
            None
        }
    }

    /// The record for an accepted root.
    fn make_rec(&self, ray: Ray, root: Fx) -> (res: HitRecord)
        ensures
            res == spec_sphere_rec(*self, ray, root.bits as int),
    {
        let p = ray.at(root);
        let outward_normal = p.sub(self.center).div_scalar(self.radius);
        let front_face = ray.direction.dot(&outward_normal).bits < 0;
        let (u, v) = Sphere::get_sphere_uv(outward_normal);
        HitRecord {
            t: root,
            p,
            normal: if front_face {
                outward_normal
            } else {
                outward_normal.neg()
            },
            front_face,
            mat: self.mat,
            u,
            v,
        }
    }

    /// The cached bounding box.
    pub fn bounding_box(&self) -> (r: Aabb)
        ensures
            r == self.bbox,
    {
        self.bbox
    }
}

/// The slab parameters of an axis-aligned box test: the six per-axis
/// crossing parameters, their envelope, and the chosen hit parameter.
pub open spec fn spec_box_slabs(minb: Vec3, maxb: Vec3, r: Ray) -> (Vec3, Vec3) {
    (
        Vec3 {
            x: fxv(fxdiv(fxsub(minb.x.bits as int, r.origin.x.bits as int), r.direction.x.bits as int)),
            y: fxv(fxdiv(fxsub(minb.y.bits as int, r.origin.y.bits as int), r.direction.y.bits as int)),
            z: fxv(fxdiv(fxsub(minb.z.bits as int, r.origin.z.bits as int), r.direction.z.bits as int)),
        },
        Vec3 {
            x: fxv(fxdiv(fxsub(maxb.x.bits as int, r.origin.x.bits as int), r.direction.x.bits as int)),
            y: fxv(fxdiv(fxsub(maxb.y.bits as int, r.origin.y.bits as int), r.direction.y.bits as int)),
            z: fxv(fxdiv(fxsub(maxb.z.bits as int, r.origin.z.bits as int), r.direction.z.bits as int)),
        },
    )
}

/// The outward normal of the face whose crossing parameter the hit chose;
/// the later axes win ties the earlier checks miss.
pub open spec fn spec_box_face_normal(t: int, t0s: Vec3, t1s: Vec3) -> Vec3 {
    let one = SCALE as int;
    if t == t1s.x.bits {
        Vec3 { x: fxv(one), y: fxv(0), z: fxv(0) }
    } else if t == t0s.x.bits {
        Vec3 { x: fxv(-one), y: fxv(0), z: fxv(0) }
    } else if t == t1s.y.bits {
        Vec3 { x: fxv(0), y: fxv(one), z: fxv(0) }
    } else if t == t0s.y.bits {
        Vec3 { x: fxv(0), y: fxv(-one), z: fxv(0) }
    } else if t == t1s.z.bits {
        Vec3 { x: fxv(0), y: fxv(0), z: fxv(one) }
    } else {
        Vec3 { x: fxv(0), y: fxv(0), z: fxv(-one) }
    }
}

/// The generic axis-aligned box test shared by the cube and the cuboid:
/// entry and exit parameters from the slab envelope, the usual rejections,
/// and the chosen parameter with its face normal.
pub open spec fn spec_box_hit(minb: Vec3, maxb: Vec3, r: Ray, tmin: int, tmax: int) -> Option<
    (int, Vec3),
> {
    let slabs = spec_box_slabs(minb, maxb, r);
    let t0s = slabs.0;
    let t1s = slabs.1;
    let tmin_x = imin(t0s.x.bits as int, t1s.x.bits as int);
    let tmax_x = imax(t0s.x.bits as int, t1s.x.bits as int);
    let tmin_y = imin(t0s.y.bits as int, t1s.y.bits as int);
    let tmax_y = imax(t0s.y.bits as int, t1s.y.bits as int);
    let tmin_z = imin(t0s.z.bits as int, t1s.z.bits as int);
    let tmax_z = imax(t0s.z.bits as int, t1s.z.bits as int);
    let t_min = imax(imax(tmin_x, tmin_y), tmin_z);
    let t_max = imin(imin(tmax_x, tmax_y), tmax_z);
    if t_max < t_min || t_max < tmin || t_min > tmax {
        None
    } else {
        let t = if t_min < tmin {
            t_max
        } else {
            t_min
        };
        if t < tmin || t > tmax {
            None
        } else {
            Some((t, spec_box_face_normal(t, t0s, t1s)))
        }
    }
}

/// The atlas sub-rectangles of the six faces of a box texture, and the
/// face-local coordinates mapped into them.  The face is recognized by
/// comparing the hit point against the half extents within the grid
/// tolerance; an unrecognized point maps to the atlas origin.
pub open spec fn spec_box_uv(
    prel: Vec3,
    half_x: int,
    half_y: int,
    half_z: int,
    dim_x: int,
    dim_y: int,
    dim_z: int,
) -> (int, int) {
    let px = prel.x.bits as int;
    let py = prel.y.bits as int;
    let pz = prel.z.bits as int;
    if abs_int(fxsub(px, half_x)) < UV_TOL_BITS {
        spec_map_uv_pair(
            fxsub(SCALE as int, fxdiv(fxadd(pz, half_z), dim_z)),
            fxdiv(fxadd(py, half_y), dim_y),
            32768,
            21845,
            16384,
            21845,
        )
    } else if abs_int(fxadd(px, half_x)) < UV_TOL_BITS {
        spec_map_uv_pair(
            fxdiv(fxadd(pz, half_z), dim_z),
            fxdiv(fxadd(py, half_y), dim_y),
            0,
            21845,
            16384,
            21845,
        )
    } else if abs_int(fxsub(py, half_y)) < UV_TOL_BITS {
        spec_map_uv_pair(
            fxdiv(fxadd(px, half_x), dim_x),
            fxsub(SCALE as int, fxdiv(fxadd(pz, half_z), dim_z)),
            16384,
            43690,
            16384,
            21846,
        )
    } else if abs_int(fxadd(py, half_y)) < UV_TOL_BITS {
        spec_map_uv_pair(
            fxdiv(fxadd(px, half_x), dim_x),
            fxdiv(fxadd(pz, half_z), dim_z),
            16384,
            0,
            16384,
            21845,
        )
    } else if abs_int(fxsub(pz, half_z)) < UV_TOL_BITS {
        spec_map_uv_pair(
            fxdiv(fxadd(px, half_x), dim_x),
            fxdiv(fxadd(py, half_y), dim_y),
            16384,
            21845,
            16384,
            21845,
        )
    } else if abs_int(fxadd(pz, half_z)) < UV_TOL_BITS {
        spec_map_uv_pair(
            fxdiv(fxadd(px, half_x), dim_x),
            fxdiv(fxadd(py, half_y), dim_y),
            49152,
            21845,
            16384,
            21845,
        )
    } else {
        (0, 0)
    }
}

/// A face-local coordinate pair mapped affinely into an atlas rectangle at
/// `(u0, v0)` with extents `(du, dv)`.
pub open spec fn spec_map_uv_pair(u: int, v: int, u0: int, v0: int, du: int, dv: int) -> (
    int,
    int,
) {
    (fxadd(u0, fxmul(u, du)), fxadd(v0, fxmul(v, dv)))
}

impl Cube {
    /// A cube; a negative size is clamped to zero, and the box spans half
    /// the size around the center.
    pub fn new(center: Vec3, size: Fx, mat: usize) -> (r: Cube)
        ensures
            r.center == center,
            r.size.bits == if size.bits >= 0 {
                size.bits
            } else {
                0
            },
            r.mat == mat,
            r.bbox == spec_aabb_from_points(
                spec_vsub(center, spec_cube_half_vec(r.size.bits as int)),
                spec_vadd(center, spec_cube_half_vec(r.size.bits as int)),
            ),
    {
        let size = if size.bits >= 0 {
            size
        } else {
            Fx::zero()
        };
        let half = size.div(Fx::from_int(2));
        let half_size = Vec3::new(half, half, half);
        let bbox = Aabb::new_from_vec3(center.sub(half_size), center.add(half_size));
        Cube { center, size, mat, bbox }
    }

    /// Texture coordinates of a hit point relative to the cube's center.
    pub fn get_cube_uv(p_relative_to_center: Vec3, half_size: Fx) -> (r: (Fx, Fx))
        ensures
            (r.0.bits as int, r.1.bits as int) == spec_box_uv(
                p_relative_to_center,
                half_size.bits as int,
                half_size.bits as int,
                half_size.bits as int,
                fxmul(2 * SCALE, half_size.bits as int),
                fxmul(2 * SCALE, half_size.bits as int),
                fxmul(2 * SCALE, half_size.bits as int),
            ),
    {
        let dim = Fx::from_int(2).mul(half_size);
        box_uv(p_relative_to_center, half_size, half_size, half_size, dim, dim, dim)
    }

    /// The nearest admissible intersection of the ray with the cube; a cube
    /// clamped to zero size never registers one.
    pub fn hit(&self, r: Ray, ray_t: crate::utils::Interval) -> (res: Option<HitRecord>)
        ensures
            res == spec_cube_hit(*self, r, ray_t.min.bits as int, ray_t.max.bits as int),
            self.size.bits == 0 ==> res is None,
    {
        if self.size.bits == 0 {
            return None;
        }
        let half = self.size.div(Fx::from_int(2));
        let halfv = Vec3::new(half, half, half);
        let min_bound = self.center.sub(halfv);
        let max_bound = self.center.add(halfv);
        match box_core(min_bound, max_bound, r, ray_t) {
            None => None,
            Some((t, outward_normal)) => {
                let p = r.at(t);
                let p_relative_to_center = p.sub(self.center);
                let (u, v) = Cube::get_cube_uv(p_relative_to_center, half);
                let mut rec = HitRecord {
                    p,
                    normal: outward_normal,
                    t,
                    front_face: false,
                    mat: self.mat,
                    u,
                    v,
                };
                rec.set_face_normal(r, outward_normal);
                Some(rec)
            },
        }
    }

    /// The cached bounding box.
    pub fn bounding_box(&self) -> (r: Aabb)
        ensures
            r == self.bbox,
    {
        self.bbox
    }
}

/// Half the size on every axis.
pub open spec fn spec_cube_half_vec(size: int) -> Vec3 {
    let half = fxdiv(size, 2 * SCALE);
    Vec3 { x: fxv(half), y: fxv(half), z: fxv(half) }
}

/// The cube test as a record-producing function.  A cube clamped to zero
/// size never registers a hit.
pub open spec fn spec_cube_hit(cb: Cube, r: Ray, tmin: int, tmax: int) -> Option<HitRecord> {
    if cb.size.bits == 0 {
        None
    } else {
        spec_cube_hit_positive(cb, r, tmin, tmax)
    }
}

/// The slab test itself, for a cube of nonzero size.
pub open spec fn spec_cube_hit_positive(cb: Cube, r: Ray, tmin: int, tmax: int) -> Option<
    HitRecord,
> {
    let halfv = spec_cube_half_vec(cb.size.bits as int);
    let half = halfv.x.bits as int;
    let minb = spec_vsub(cb.center, halfv);
    let maxb = spec_vadd(cb.center, halfv);
    match spec_box_hit(minb, maxb, r, tmin, tmax) {
        None => None,
        Some((t, outward)) => {
            let p = spec_ray_at(r, t);
            let prel = spec_vsub(p, cb.center);
            let dim = fxmul(2 * SCALE, half);
            let uv = spec_box_uv(prel, half, half, half, dim, dim, dim);
            let rec0 = HitRecord {
                p,
                normal: outward,
                t: fxv(t),
                front_face: false,
                mat: cb.mat,
                u: fxv(uv.0),
                v: fxv(uv.1),
            };
            Some(spec_face_normal(rec0, r, outward))
        },
    }
}

impl Cuboid {
    /// A cuboid from its center and extents; negative extents are clamped
    /// to zero.
    pub fn new(center: Vec3, dimensions: Vec3, mat: usize) -> (r: Cuboid)
        ensures
            r.center == center,
            r.dimensions == spec_clamp_dims(dimensions),
            r.mat == mat,
            r.bbox == spec_aabb_from_points(
                spec_vsub(center, spec_half_dims(spec_clamp_dims(dimensions))),
                spec_vadd(center, spec_half_dims(spec_clamp_dims(dimensions))),
            ),
    {
        let zero = Fx::zero();
        let dimensions = Vec3::new(
            dimensions.x.max(zero),
            dimensions.y.max(zero),
            dimensions.z.max(zero),
        );
        let two = Fx::from_int(2);
        let half_dimensions = Vec3::new(
            dimensions.x.div(two),
            dimensions.y.div(two),
            dimensions.z.div(two),
        );
        let bbox = Aabb::new_from_vec3(center.sub(half_dimensions), center.add(half_dimensions));
        Cuboid { center, dimensions, mat, bbox }
    }

    /// A cuboid spanned by two opposite corners.
    pub fn new_from_corners(a: Vec3, b: Vec3, mat: usize) -> (r: Cuboid)
        ensures
            r == spec_cuboid_from_corners(a, b, mat),
    {
        let two = Fx::from_int(2);
        let center = Vec3::new(
            a.x.add(b.x).div(two),
            a.y.add(b.y).div(two),
            a.z.add(b.z).div(two),
        );
        let dimensions = Vec3::new(
            b.x.sub(a.x).abs(),
            b.y.sub(a.y).abs(),
            b.z.sub(a.z).abs(),
        );
        Cuboid::new(center, dimensions, mat)
    }

    /// Texture coordinates of a hit point relative to the cuboid's center.
    pub fn get_cuboid_uv(p_relative_to_center: Vec3, dimensions: Vec3) -> (r: (Fx, Fx))
        ensures
            (r.0.bits as int, r.1.bits as int) == spec_box_uv(
                p_relative_to_center,
                fxdiv(dimensions.x.bits as int, 2 * SCALE),
                fxdiv(dimensions.y.bits as int, 2 * SCALE),
                fxdiv(dimensions.z.bits as int, 2 * SCALE),
                dimensions.x.bits as int,
                dimensions.y.bits as int,
                dimensions.z.bits as int,
            ),
    {
        let two = Fx::from_int(2);
        let half_x = dimensions.x.div(two);
        let half_y = dimensions.y.div(two);
        let half_z = dimensions.z.div(two);
        box_uv(
            p_relative_to_center,
            half_x,
            half_y,
            half_z,
            dimensions.x,
            dimensions.y,
            dimensions.z,
        )
    }

    /// The nearest admissible intersection of the ray with the cuboid; a
    /// cuboid with an extent clamped to zero never registers one.
    pub fn hit(&self, r: Ray, ray_t: crate::utils::Interval) -> (res: Option<HitRecord>)
        ensures
            res == spec_cuboid_hit(*self, r, ray_t.min.bits as int, ray_t.max.bits as int),
            self.dimensions.x.bits == 0 || self.dimensions.y.bits == 0 || self.dimensions.z.bits
                == 0 ==> res is None,
    {
        if self.dimensions.x.bits == 0 || self.dimensions.y.bits == 0 || self.dimensions.z.bits
            == 0 {
            return None;
        }
        let two = Fx::from_int(2);
        let half_dimensions = Vec3::new(
            self.dimensions.x.div(two),
            self.dimensions.y.div(two),
            self.dimensions.z.div(two),
        );
        let min_bound = self.center.sub(half_dimensions);
        let max_bound = self.center.add(half_dimensions);
        match box_core(min_bound, max_bound, r, ray_t) {
            None => None,
            Some((t, outward_normal)) => {
                let p = r.at(t);
                let p_relative_to_center = p.sub(self.center);
                let (u, v) = Cuboid::get_cuboid_uv(p_relative_to_center, self.dimensions);
                let mut rec = HitRecord {
                    p,
                    normal: outward_normal,
                    t,
                    front_face: false,
                    mat: self.mat,
                    u,
                    v,
                };
                rec.set_face_normal(r, outward_normal);
                Some(rec)
            },
        }
    }

    /// The cached bounding box.
    pub fn bounding_box(&self) -> (r: Aabb)
        ensures
            r == self.bbox,
    {
        self.bbox
    }
}

/// Extents clamped to be nonnegative.
pub open spec fn spec_clamp_dims(d: Vec3) -> Vec3 {
    Vec3 {
        x: if d.x.bits >= 0 {
            d.x
        } else {
            Fx { bits: 0 }
        },
        y: if d.y.bits >= 0 {
            d.y
        } else {
            Fx { bits: 0 }
        },
        z: if d.z.bits >= 0 {
            d.z
        } else {
            Fx { bits: 0 }
        },
    }
}

/// Half of each extent.
pub open spec fn spec_half_dims(d: Vec3) -> Vec3 {
    Vec3 {
        x: fxv(fxdiv(d.x.bits as int, 2 * SCALE)),
        y: fxv(fxdiv(d.y.bits as int, 2 * SCALE)),
        z: fxv(fxdiv(d.z.bits as int, 2 * SCALE)),
    }
}

/// The cuboid spanned by two opposite corners: midpoint center, magnitude
/// extents.
pub open spec fn spec_cuboid_from_corners(a: Vec3, b: Vec3, mat: usize) -> Cuboid {
    let center = Vec3 {
        x: fxv(fxdiv(fxadd(a.x.bits as int, b.x.bits as int), 2 * SCALE)),
        y: fxv(fxdiv(fxadd(a.y.bits as int, b.y.bits as int), 2 * SCALE)),
        z: fxv(fxdiv(fxadd(a.z.bits as int, b.z.bits as int), 2 * SCALE)),
    };
    let dims = Vec3 {
        x: fxv(crate::fixed::clip(abs_int(fxsub(b.x.bits as int, a.x.bits as int)))),
        y: fxv(crate::fixed::clip(abs_int(fxsub(b.y.bits as int, a.y.bits as int)))),
        z: fxv(crate::fixed::clip(abs_int(fxsub(b.z.bits as int, a.z.bits as int)))),
    };
    let clamped = spec_clamp_dims(dims);
    Cuboid {
        center,
        dimensions: clamped,
        mat,
        bbox: spec_aabb_from_points(
            spec_vsub(center, spec_half_dims(clamped)),
            spec_vadd(center, spec_half_dims(clamped)),
        ),
    }
}

/// The cuboid test as a record-producing function.  A cuboid with an
/// extent clamped to zero is volumeless and never registers a hit.
pub open spec fn spec_cuboid_hit(cb: Cuboid, r: Ray, tmin: int, tmax: int) -> Option<HitRecord> {
    if cb.dimensions.x.bits == 0 || cb.dimensions.y.bits == 0 || cb.dimensions.z.bits == 0 {
        None
    } else {
        spec_cuboid_hit_positive(cb, r, tmin, tmax)
    }
}

/// The slab test itself, for a cuboid of nonzero extents.
pub open spec fn spec_cuboid_hit_positive(cb: Cuboid, r: Ray, tmin: int, tmax: int) -> Option<
    HitRecord,
> {
    let halfv = spec_half_dims(cb.dimensions);
    let minb = spec_vsub(cb.center, halfv);
    let maxb = spec_vadd(cb.center, halfv);
    match spec_box_hit(minb, maxb, r, tmin, tmax) {
        None => None,
        Some((t, outward)) => {
            let p = spec_ray_at(r, t);
            let prel = spec_vsub(p, cb.center);
            let uv = spec_box_uv(
                prel,
                halfv.x.bits as int,
                halfv.y.bits as int,
                halfv.z.bits as int,
                cb.dimensions.x.bits as int,
                cb.dimensions.y.bits as int,
                cb.dimensions.z.bits as int,
            );
            let rec0 = HitRecord {
                p,
                normal: outward,
                t: fxv(t),
                front_face: false,
                mat: cb.mat,
                u: fxv(uv.0),
                v: fxv(uv.1),
            };
            Some(spec_face_normal(rec0, r, outward))
        },
    }
}

/// The shared executable slab test: the chosen parameter and face normal,
/// or nothing.
#[verifier::rlimit(60)]
fn box_core(min_bound: Vec3, max_bound: Vec3, r: Ray, ray_t: crate::utils::Interval) -> (res:
    Option<(Fx, Vec3)>)
    ensures
        match spec_box_hit(min_bound, max_bound, r, ray_t.min.bits as int, ray_t.max.bits as int) {
            None => res is None,
            Some((t, n)) => res == Some((Fx { bits: t as i64 }, n)),
        },
{
    let t0s = min_bound.sub(r.origin).div(r.direction);
    let t1s = max_bound.sub(r.origin).div(r.direction);
    let t_min_x = t0s.x.min(t1s.x);
    let t_max_x = t0s.x.max(t1s.x);
    let t_min_y = t0s.y.min(t1s.y);
    let t_max_y = t0s.y.max(t1s.y);
    let t_min_z = t0s.z.min(t1s.z);
    let t_max_z = t0s.z.max(t1s.z);
    let t_min = t_min_x.max(t_min_y).max(t_min_z);
    let t_max = t_max_x.min(t_max_y).min(t_max_z);
    if t_max.bits < t_min.bits || t_max.bits < ray_t.min.bits || t_min.bits > ray_t.max.bits {
        return None;
    }
    let t = if t_min.bits < ray_t.min.bits {
        t_max
    } else {
        t_min
    };
    if t.bits < ray_t.min.bits || t.bits > ray_t.max.bits {
        return None;
    }
    let one = Fx::one();
    let zero = Fx::zero();
    let outward_normal = if t.bits == t1s.x.bits {
        Vec3::new(one, zero, zero)
    } else if t.bits == t0s.x.bits {
        Vec3::new(one.neg(), zero, zero)
    } else if t.bits == t1s.y.bits {
        Vec3::new(zero, one, zero)
    } else if t.bits == t0s.y.bits {
        Vec3::new(zero, one.neg(), zero)
    } else if t.bits == t1s.z.bits {
        Vec3::new(zero, zero, one)
    } else {
        Vec3::new(zero, zero, one.neg())
    };
    Some((t, outward_normal))
}

/// The shared executable atlas mapping.
fn box_uv(prel: Vec3, half_x: Fx, half_y: Fx, half_z: Fx, dim_x: Fx, dim_y: Fx, dim_z: Fx) -> (r:
    (Fx, Fx))
    ensures
        (r.0.bits as int, r.1.bits as int) == spec_box_uv(
            prel,
            half_x.bits as int,
            half_y.bits as int,
            half_z.bits as int,
            dim_x.bits as int,
            dim_y.bits as int,
            dim_z.bits as int,
        ),
{
    let tol = Fx { bits: UV_TOL_BITS };
    let one = Fx::one();
    if prel.x.sub(half_x).abs().bits < tol.bits {
        let u = one.sub(prel.z.add(half_z).div(dim_z));
        let v = prel.y.add(half_y).div(dim_y);
        map_pair(u, v, Fx { bits: 32768 }, Fx { bits: 21845 }, Fx { bits: 16384 }, Fx {
            bits: 21845,
        })
    } else if prel.x.add(half_x).abs().bits < tol.bits {
        let u = prel.z.add(half_z).div(dim_z);
        let v = prel.y.add(half_y).div(dim_y);
        map_pair(u, v, Fx { bits: 0 }, Fx { bits: 21845 }, Fx { bits: 16384 }, Fx { bits: 21845 })
    } else if prel.y.sub(half_y).abs().bits < tol.bits {
        let u = prel.x.add(half_x).div(dim_x);
        let v = one.sub(prel.z.add(half_z).div(dim_z));
        map_pair(u, v, Fx { bits: 16384 }, Fx { bits: 43690 }, Fx { bits: 16384 }, Fx {
            bits: 21846,
        })
    } else if prel.y.add(half_y).abs().bits < tol.bits {
        let u = prel.x.add(half_x).div(dim_x);
        let v = prel.z.add(half_z).div(dim_z);
        map_pair(u, v, Fx { bits: 16384 }, Fx { bits: 0 }, Fx { bits: 16384 }, Fx { bits: 21845 })
    } else if prel.z.sub(half_z).abs().bits < tol.bits {
        let u = prel.x.add(half_x).div(dim_x);
        let v = prel.y.add(half_y).div(dim_y);
        map_pair(u, v, Fx { bits: 16384 }, Fx { bits: 21845 }, Fx { bits: 16384 }, Fx {
            bits: 21845,
        })
    } else if prel.z.add(half_z).abs().bits < tol.bits {
        let u = prel.x.add(half_x).div(dim_x);
        let v = prel.y.add(half_y).div(dim_y);
        map_pair(u, v, Fx { bits: 49152 }, Fx { bits: 21845 }, Fx { bits: 16384 }, Fx {
            bits: 21845,
        })
    } else {
        (Fx { bits: 0 }, Fx { bits: 0 })
    }
}

/// The executable affine atlas map.
fn map_pair(u: Fx, v: Fx, u0: Fx, v0: Fx, du: Fx, dv: Fx) -> (r: (Fx, Fx))
    ensures
        (r.0.bits as int, r.1.bits as int) == spec_map_uv_pair(
            u.bits as int,
            v.bits as int,
            u0.bits as int,
            v0.bits as int,
            du.bits as int,
            dv.bits as int,
        ),
{
    (u0.add(u.mul(du)), v0.add(v.mul(dv)))
}

/// The quad test: ray-plane intersection, then the hit point expressed in
/// the quad's edge basis and accepted when both coordinates lie in `[0, 1]`.
pub open spec fn spec_quad_hit(qd: Quad, r: Ray, tmin: int, tmax: int) -> Option<HitRecord> {
    let n = spec_cross(qd.u, qd.v);
    let denom = spec_dot(n, r.direction);
    let nn = spec_dot(n, n);
    if denom == 0 || nn == 0 {
        None
    } else {
        let t = fxdiv(fxsub(spec_dot(n, qd.q), spec_dot(n, r.origin)), denom);
        if !(tmin < t && t < tmax) {
            None
        } else {
            let p = spec_ray_at(r, t);
            let planar = spec_vsub(p, qd.q);
            let alpha = fxdiv(spec_dot(n, spec_cross(planar, qd.v)), nn);
            let beta = fxdiv(spec_dot(n, spec_cross(qd.u, planar)), nn);
            if !(0 <= alpha && alpha <= SCALE && 0 <= beta && beta <= SCALE) {
                None
            } else {
                let outward = spec_unit(n);
                let rec0 = HitRecord {
                    p,
                    normal: outward,
                    t: fxv(t),
                    front_face: false,
                    mat: qd.mat,
                    u: fxv(alpha),
                    v: fxv(beta),
                };
                Some(spec_face_normal(rec0, r, outward))
            }
        }
    }
}

/// The thickness, in grid steps, below which a box axis is widened so the
/// slab test can see an axis-aligned sheet.
pub const BOX_PAD_BITS: i64 = 8;

/// An interval widened to the minimal thickness when it is thinner.
pub open spec fn spec_pad_interval(i: crate::utils::Interval) -> crate::utils::Interval {
    if fxsub(i.max.bits as int, i.min.bits as int) < BOX_PAD_BITS {
        crate::utils::Interval {
            min: fxv(fxsub(i.min.bits as int, (BOX_PAD_BITS / 2) as int)),
            max: fxv(fxadd(i.max.bits as int, (BOX_PAD_BITS / 2) as int)),
        }
    } else {
        i
    }
}

/// A box with every axis at least minimally thick.
pub open spec fn spec_pad_aabb(b: Aabb) -> Aabb {
    Aabb { x: spec_pad_interval(b.x), y: spec_pad_interval(b.y), z: spec_pad_interval(b.z) }
}

/// Widens an interval to the minimal thickness when it is thinner.
fn pad_interval(i: crate::utils::Interval) -> (r: crate::utils::Interval)
    ensures
        r == spec_pad_interval(i),
{
    let half = Fx { bits: BOX_PAD_BITS / 2 };
    if i.max.sub(i.min).bits < BOX_PAD_BITS {
        crate::utils::Interval { min: i.min.sub(half), max: i.max.add(half) }
    } else {
        i
    }
}

impl Quad {
    /// A parallelogram from a corner and two edge vectors; the box is the
    /// union of its two diagonals' boxes, padded to a minimal thickness on
    /// degenerate axes so an axis-aligned sheet is visible to the slab
    /// test.
    pub fn new(q: Vec3, u: Vec3, v: Vec3, mat: usize) -> (r: Quad)
        ensures
            r.q == q,
            r.u == u,
            r.v == v,
            r.mat == mat,
            r.bbox == spec_pad_aabb(
                spec_merge_aabb(
                    spec_aabb_from_points(q, spec_vadd(spec_vadd(q, u), v)),
                    spec_aabb_from_points(spec_vadd(q, u), spec_vadd(q, v)),
                ),
            ),
    {
        let bbox_diagonal1 = Aabb::new_from_vec3(q, q.add(u).add(v));
        let bbox_diagonal2 = Aabb::new_from_vec3(q.add(u), q.add(v));
        let merged = Aabb::new_from_aabb(bbox_diagonal1, bbox_diagonal2);
        let bbox = Aabb {
            x: pad_interval(merged.x),
            y: pad_interval(merged.y),
            z: pad_interval(merged.z),
        };
        Quad { q, u, v, mat, bbox }
    }

    /// The intersection of the ray with the parallelogram.
    pub fn hit(&self, r: Ray, ray_t: crate::utils::Interval) -> (res: Option<HitRecord>)
        ensures
            res == spec_quad_hit(*self, r, ray_t.min.bits as int, ray_t.max.bits as int),
    {
        let n = self.u.cross(&self.v);
        let denom = n.dot(&r.direction);
        let nn = n.dot(&n);
        if denom.bits == 0 || nn.bits == 0 {
            return None;
        }
        let t = n.dot(&self.q).sub(n.dot(&r.origin)).div(denom);
        if !(ray_t.min.bits < t.bits && t.bits < ray_t.max.bits) {
            return None;
        }
        let p = r.at(t);
        let planar = p.sub(self.q);
        let alpha = n.dot(&planar.cross(&self.v)).div(nn);
        let beta = n.dot(&self.u.cross(&planar)).div(nn);
        let one = Fx::one();
        if !(0 <= alpha.bits && alpha.bits <= one.bits && 0 <= beta.bits && beta.bits <= one.bits) {
            return None;
        }
        let outward = Vec3::unit_vector(n);
        let mut rec = HitRecord {
            p,
            normal: outward,
            t,
            front_face: false,
            mat: self.mat,
            u: alpha,
            v: beta,
        };
        rec.set_face_normal(r, outward);
        Some(rec)
    }

    /// The cached bounding box.
    pub fn bounding_box(&self) -> (r: Aabb)
        ensures
            r == self.bbox,
    {
        self.bbox
    }
}

/// The ray carried into a rotation wrapper's local frame.
pub open spec fn spec_rotate_ray_in(ry: RotateY, r: Ray) -> Ray {
    let s = ry.sin_theta.bits as int;
    let c = ry.cos_theta.bits as int;
    Ray {
        origin: Vec3 {
            x: fxv(fxsub(fxmul(c, r.origin.x.bits as int), fxmul(s, r.origin.z.bits as int))),
            y: r.origin.y,
            z: fxv(fxadd(fxmul(s, r.origin.x.bits as int), fxmul(c, r.origin.z.bits as int))),
        },
        direction: Vec3 {
            x: fxv(fxsub(fxmul(c, r.direction.x.bits as int), fxmul(s, r.direction.z.bits as int))),
            y: r.direction.y,
            z: fxv(fxadd(fxmul(s, r.direction.x.bits as int), fxmul(c, r.direction.z.bits as int))),
        },
    }
}

/// A local-frame point carried back to world space.
pub open spec fn spec_rotate_point_back(ry: RotateY, p: Vec3) -> Vec3 {
    let s = ry.sin_theta.bits as int;
    let c = ry.cos_theta.bits as int;
    Vec3 {
        x: fxv(fxadd(fxmul(c, p.x.bits as int), fxmul(s, p.z.bits as int))),
        y: p.y,
        z: fxv(fxadd(fxmul(fxneg(s), p.x.bits as int), fxmul(c, p.z.bits as int))),
    }
}

/// The displacement wrapper's test: the child probed with a shifted origin,
/// the hit point moved back.
pub open spec fn spec_translate_hit(t: Translate, r: Ray, tmin: int, tmax: int) -> Option<
    HitRecord,
>
    decreases t,
{
    let offset_r = Ray { origin: spec_vsub(r.origin, t.offset), direction: r.direction };
    match spec_shape_hit(*t.object, offset_r, tmin, tmax) {
        None => None,
        Some(h) => Some(HitRecord { p: spec_vadd(h.p, t.offset), ..h }),
    }
}

/// The rotation wrapper's test: the child probed in its local frame, the
/// hit point and normal carried back.
pub open spec fn spec_rotatey_hit(ry: RotateY, r: Ray, tmin: int, tmax: int) -> Option<HitRecord>
    decreases ry,
{
    let rotated = spec_rotate_ray_in(ry, r);
    match spec_shape_hit(*ry.object, rotated, tmin, tmax) {
        None => None,
        Some(h) => Some(
            HitRecord {
                p: spec_rotate_point_back(ry, h.p),
                normal: spec_rotate_point_back(ry, h.normal),
                ..h
            },
        ),
    }
}

/// The test of any shape, by variant.
pub open spec fn spec_shape_hit(s: Shapes, r: Ray, tmin: int, tmax: int) -> Option<HitRecord>
    decreases s,
{
    match s {
        Shapes::Sphere(sp) => spec_sphere_hit(sp, r, tmin, tmax),
        Shapes::Cube(c) => spec_cube_hit(c, r, tmin, tmax),
        Shapes::Cuboid(c) => spec_cuboid_hit(c, r, tmin, tmax),
        Shapes::Quad(q) => spec_quad_hit(q, r, tmin, tmax),
        Shapes::Translate(t) => spec_translate_hit(t, r, tmin, tmax),
        Shapes::RotateY(ry) => spec_rotatey_hit(ry, r, tmin, tmax),
    }
}

/// The scan of a list of shapes from index `i`: each object is probed with
/// the interval narrowed to the closest hit so far, and the last accepted
/// record wins.
pub open spec fn spec_scan_list(
    objects: Seq<Shapes>,
    i: int,
    r: Ray,
    tmin: int,
    acc: Option<HitRecord>,
    closest: int,
) -> Option<HitRecord>
    decreases objects.len() - i,
{
    if i < 0 || i >= objects.len() {
        acc
    } else {
        match spec_shape_hit(objects[i], r, tmin, closest) {
            Some(h) => spec_scan_list(objects, i + 1, r, tmin, Some(h), h.t.bits as int),
            None => spec_scan_list(objects, i + 1, r, tmin, acc, closest),
        }
    }
}

/// A ray aimed straight at a sphere's center from a whole-number distance
/// `d` greater than the radius `r` hits the sphere at parameter exactly
/// `d - r`, from the front, with the surface normal opposite the ray's
/// direction.  Stated along the first axis with a unit direction, where the
/// arithmetic is exact; the bounds keep every intermediate on the grid.
pub proof fn lemma_sphere_round_trip(s: Sphere, o: Vec3, d_units: i64, r_units: i64, tmin: int, tmax: int)
    requires
        1 <= r_units,
        r_units < d_units,
        d_units <= 1000000,
        -0x1000_0000_0000_0000 <= o.x.bits <= 0x1000_0000_0000_0000,
        o.y.bits == 0,
        o.z.bits == 0,
        s.center == (Vec3 {
            x: Fx { bits: (o.x.bits + d_units * SCALE) as i64 },
            y: Fx { bits: 0 },
            z: Fx { bits: 0 },
        }),
        s.radius.bits == r_units * SCALE,
        tmin < (d_units - r_units) * SCALE < tmax,
    ensures
        ({
            let ray = Ray {
                origin: o,
                direction: Vec3 { x: Fx { bits: SCALE }, y: Fx { bits: 0 }, z: Fx { bits: 0 } },
            };
            let res = spec_sphere_hit(s, ray, tmin, tmax);
            &&& res is Some
            &&& res->Some_0.t.bits == (d_units - r_units) * SCALE
            &&& res->Some_0.front_face
            &&& res->Some_0.normal == (Vec3 {
                x: Fx { bits: (-SCALE) as i64 },
                y: Fx { bits: 0 },
                z: Fx { bits: 0 },
            })
        }),
{
    let d = d_units as int;
    let rr = r_units as int;
    let sc = SCALE as int;
    let ray = Ray {
        origin: o,
        direction: Vec3 { x: Fx { bits: SCALE }, y: Fx { bits: 0 }, z: Fx { bits: 0 } },
    };
    let oc = spec_vsub(ray.origin, s.center);
    assert(d * sc <= 0x0FFF_FFFF_FFFF * SCALE) by (nonlinear_arith)
        requires
            d <= 1000000,
            sc == SCALE as int,
    ;
    assert(0 <= d * sc && 0 <= rr * sc && rr * sc <= d * sc && 0 < rr * sc) by (nonlinear_arith)
        requires
            0 < rr,
            rr < d,
            sc > 0,
    ;
    assert(0 <= d * d * sc - rr * rr * sc) by (nonlinear_arith)
        requires
            0 < rr,
            rr < d,
            sc > 0,
    ;
    assert(0 <= d * sc - rr * sc);
    assert(oc.x.bits == -(d * sc) && oc.y.bits == 0 && oc.z.bits == 0);
    let a = spec_len_sq(ray.direction);
    assert(tdiv(sc * sc, sc) == sc) by (nonlinear_arith)
        requires
            sc > 0,
    ;
    assert(tdiv(0int, sc) == 0) by (nonlinear_arith)
        requires
            sc > 0,
    ;
    assert(fxmul(sc, sc) == sc);
    assert(fxmul(0, 0) == 0);
    assert(a == sc);
    let half_b = spec_dot(oc, ray.direction);
    assert(tdiv(-(d * sc) * sc, sc) == -(d * sc)) by (nonlinear_arith)
        requires
            sc > 0,
            0 <= d * sc,
    ;
    assert(half_b == -(d * sc));
    let c = fxsub(spec_len_sq(oc), fxmul(s.radius.bits as int, s.radius.bits as int));
    assert(-(d * sc) * -(d * sc) == (d * sc) * (d * sc)) by (nonlinear_arith);
    assert(tdiv((d * sc) * (d * sc), sc) == d * d * sc) by (nonlinear_arith)
        requires
            sc > 0,
            0 <= d * sc,
    ;
    assert(0 <= d * d * sc <= 0x1000_0000_0000_0000int) by (nonlinear_arith)
        requires
            0 <= d <= 1000000,
            sc == 65536,
    ;
    let ob = oc.x.bits as int;
    assert(ob == -(d * sc));
    assert(ob * ob == (d * sc) * (d * sc)) by (nonlinear_arith)
        requires
            ob == -(d * sc),
    ;
    assert(fxmul(ob, ob) == d * d * sc);
    assert(spec_len_sq(oc) == d * d * sc);
    assert(tdiv((rr * sc) * (rr * sc), sc) == rr * rr * sc) by (nonlinear_arith)
        requires
            sc > 0,
            0 <= rr * sc,
    ;
    assert(rr * rr * sc <= d * d * sc) by (nonlinear_arith)
        requires
            0 <= rr <= d,
            sc > 0,
    ;
    assert(c == d * d * sc - rr * rr * sc);
    let disc = fxsub(fxmul(half_b, half_b), fxmul(a, c));
    assert(tdiv(-(d * sc) * -(d * sc), sc) == d * d * sc) by (nonlinear_arith)
        requires
            sc > 0,
            0 <= d * sc,
    ;
    assert(tdiv(sc * (d * d * sc - rr * rr * sc), sc) == d * d * sc - rr * rr * sc)
        by (nonlinear_arith)
        requires
            sc > 0,
            0 <= d * d * sc - rr * rr * sc,
    ;
    assert(disc == rr * rr * sc);
    assert(0 < rr * rr * sc) by (nonlinear_arith)
        requires
            1 <= rr,
            sc > 0,
    ;
    let sqrtd = fxsqrt(disc);
    assert((rr * sc) * (rr * sc) <= (rr * rr * sc) * sc && (rr * rr * sc) * sc < (rr * sc + 1) * (
    rr * sc + 1)) by (nonlinear_arith)
        requires
            1 <= rr,
            sc == 65536,
    ;
    crate::fixed::lemma_sqrt_floor_unique((rr * rr * sc) * sc, rr * sc);
    assert(sqrtd == rr * sc);
    let root_a = fxdiv(fxsub(fxneg(half_b), sqrtd), a);
    assert(fxsub(fxneg(half_b), sqrtd) == d * sc - rr * sc);
    assert(tdiv((d * sc - rr * sc) * sc, sc) == d * sc - rr * sc) by (nonlinear_arith)
        requires
            sc > 0,
            0 <= d * sc - rr * sc,
    ;
    assert((d - rr) * sc == d * sc - rr * sc) by (nonlinear_arith);
    assert(root_a == (d - rr) * sc);
    assert(tmin < root_a && root_a < tmax);
    let rec = spec_sphere_rec(s, ray, root_a);
    let p = spec_ray_at(ray, root_a);
    assert(fxmul(sc, root_a) == root_a) by {
        assert(tdiv(sc * (d * sc - rr * sc), sc) == d * sc - rr * sc) by (nonlinear_arith)
            requires
                sc > 0,
                0 <= d * sc - rr * sc,
        ;
    }
    assert(fxmul(0, root_a) == 0);
    assert(p.x.bits == o.x.bits + (d - rr) * sc && p.y.bits == 0 && p.z.bits == 0);
    let outward = spec_vdiv_scalar(spec_vsub(p, s.center), s.radius.bits as int);
    assert((o.x.bits + (d - rr) * sc) - (o.x.bits + d * sc) == -(rr * sc)) by (nonlinear_arith);
    assert(tdiv(-(rr * sc) * sc, rr * sc) == -sc) by (nonlinear_arith)
        requires
            sc > 0,
            0 < rr * sc,
    ;
    assert(outward.x.bits == -sc && outward.y.bits == 0 && outward.z.bits == 0);
    assert(tdiv(sc * sc, sc) == sc) by (nonlinear_arith)
        requires
            sc > 0,
    ;
    assert(spec_dot(ray.direction, outward) == -sc);
    assert(rec.front_face);
}

/// The cuboid's slab envelope meets the query interval with room on every
/// side: the entry parameter lies strictly before the exit and both
/// overlap the query strictly.  A hit on this side of the boundary cannot
/// be lost to rounding by the box test.
pub open spec fn cuboid_nongrazing(cb: Cuboid, r: Ray, tmin: int, tmax: int) -> bool {
    let halfv = spec_half_dims(cb.dimensions);
    let slabs = spec_box_slabs(spec_vsub(cb.center, halfv), spec_vadd(cb.center, halfv), r);
    let t0s = slabs.0;
    let t1s = slabs.1;
    let tn = imax(
        imax(
            imin(t0s.x.bits as int, t1s.x.bits as int),
            imin(t0s.y.bits as int, t1s.y.bits as int),
        ),
        imin(t0s.z.bits as int, t1s.z.bits as int),
    );
    let tx = imin(
        imin(
            imax(t0s.x.bits as int, t1s.x.bits as int),
            imax(t0s.y.bits as int, t1s.y.bits as int),
        ),
        imax(t0s.z.bits as int, t1s.z.bits as int),
    );
    tn < tx && tmin < tx && tn < tmax && tmin < tmax
}

/// A cuboid hit away from the grazing boundary passes the slab test of the
/// box the cuboid cached at construction: the per-axis crossing parameters
/// of the box test are the very parameters the cuboid's own test computed,
/// so the narrowed interval stays strictly nonempty on every axis.
#[verifier::rlimit(100)]
pub proof fn lemma_cuboid_hit_sees_own_box(cb: Cuboid, r: Ray, tmin: int, tmax: int)
    requires
        i64::MIN <= tmin <= i64::MAX,
        i64::MIN <= tmax <= i64::MAX,
        cb.dimensions == spec_clamp_dims(cb.dimensions),
        cb.bbox == spec_aabb_from_points(
            spec_vsub(cb.center, spec_half_dims(cb.dimensions)),
            spec_vadd(cb.center, spec_half_dims(cb.dimensions)),
        ),
        spec_cuboid_hit(cb, r, tmin, tmax) is Some,
        cuboid_nongrazing(cb, r, tmin, tmax),
    ensures
        crate::aabb::spec_aabb_hit(cb.bbox, r, crate::aabb::ivl(tmin, tmax)),
{
    let halfv = spec_half_dims(cb.dimensions);
    let minb = spec_vsub(cb.center, halfv);
    let maxb = spec_vadd(cb.center, halfv);
    crate::fixed::lemma_fxdiv_nonneg(cb.dimensions.x.bits as int, 2 * SCALE);
    crate::fixed::lemma_fxdiv_nonneg(cb.dimensions.y.bits as int, 2 * SCALE);
    crate::fixed::lemma_fxdiv_nonneg(cb.dimensions.z.bits as int, 2 * SCALE);
    assert(minb.x.bits <= maxb.x.bits && minb.y.bits <= maxb.y.bits && minb.z.bits
        <= maxb.z.bits);
    assert(cb.bbox.x.min == minb.x && cb.bbox.x.max == maxb.x);
    assert(cb.bbox.y.min == minb.y && cb.bbox.y.max == maxb.y);
    assert(cb.bbox.z.min == minb.z && cb.bbox.z.max == maxb.z);
    let q = crate::aabb::ivl(tmin, tmax);
    let tx1 = crate::aabb::spec_slab_axis(
        cb.bbox.x,
        r.origin.x.bits as int,
        r.direction.x.bits as int,
        q,
    );
    let ty1 = crate::aabb::spec_slab_axis(
        cb.bbox.y,
        r.origin.y.bits as int,
        r.direction.y.bits as int,
        tx1,
    );
    let tz1 = crate::aabb::spec_slab_axis(
        cb.bbox.z,
        r.origin.z.bits as int,
        r.direction.z.bits as int,
        ty1,
    );
    let slabs = spec_box_slabs(minb, maxb, r);
    let t0s = slabs.0;
    let t1s = slabs.1;
    let lox = imin(t0s.x.bits as int, t1s.x.bits as int);
    let hix = imax(t0s.x.bits as int, t1s.x.bits as int);
    let loy = imin(t0s.y.bits as int, t1s.y.bits as int);
    let hiy = imax(t0s.y.bits as int, t1s.y.bits as int);
    let loz = imin(t0s.z.bits as int, t1s.z.bits as int);
    let hiz = imax(t0s.z.bits as int, t1s.z.bits as int);
    assert(tx1.min.bits as int == imax(tmin, lox) && tx1.max.bits as int == imin(tmax, hix));
    assert(ty1.min.bits as int == imax(imax(tmin, lox), loy) && ty1.max.bits as int == imin(
        imin(tmax, hix),
        hiy,
    ));
    assert(tz1.min.bits as int == imax(imax(imax(tmin, lox), loy), loz) && tz1.max.bits as int
        == imin(imin(imin(tmax, hix), hiy), hiz));
    assert(tx1.min.bits < tx1.max.bits);
    assert(ty1.min.bits < ty1.max.bits);
    assert(tz1.min.bits < tz1.max.bits);
}

/// A shape consistent with a small arena is consistent with any larger one.
pub proof fn lemma_shape_wf_mono(s: Shapes, m1: int, m2: int)
    requires
        shape_wf(s, m1),
        m1 <= m2,
    ensures
        shape_wf(s, m2),
    decreases s,
{
    match s {
        Shapes::Translate(t) => {
            lemma_shape_wf_mono(*t.object, m1, m2);
        },
        Shapes::RotateY(ry) => {
            lemma_shape_wf_mono(*ry.object, m1, m2);
        },
        _ => {
        },
    }
}

/// A hit record's material index comes from the shape that produced it, so
/// it lies inside the arena whenever the shape's indices do.
#[verifier::rlimit(60)]
pub proof fn lemma_shape_hit_mat(s: Shapes, r: Ray, tmin: int, tmax: int, mats: int)
    requires
        shape_wf(s, mats),
        spec_shape_hit(s, r, tmin, tmax) is Some,
    ensures
        (spec_shape_hit(s, r, tmin, tmax)->Some_0.mat as int) < mats,
    decreases s,
{
    match s {
        Shapes::Sphere(_) => {
        },
        Shapes::Cube(_) => {
        },
        Shapes::Cuboid(_) => {
        },
        Shapes::Quad(_) => {
        },
        Shapes::Translate(t) => {
            let offset_r = Ray { origin: spec_vsub(r.origin, t.offset), direction: r.direction };
            lemma_shape_hit_mat(*t.object, offset_r, tmin, tmax, mats);
        },
        Shapes::RotateY(ry) => {
            lemma_shape_hit_mat(*ry.object, spec_rotate_ray_in(ry, r), tmin, tmax, mats);
        },
    }
}

impl Shapes {
    /// The nearest admissible intersection of the ray with the shape.
    pub fn hit(&self, r: Ray, ray_t: crate::utils::Interval) -> (res: Option<HitRecord>)
        ensures
            res == spec_shape_hit(*self, r, ray_t.min.bits as int, ray_t.max.bits as int),
        decreases *self,
    {
        match self {
            Shapes::Sphere(sp) => sp.hit(r, ray_t),
            Shapes::Cube(c) => c.hit(r, ray_t),
            Shapes::Cuboid(c) => c.hit(r, ray_t),
            Shapes::Quad(q) => q.hit(r, ray_t),
            Shapes::Translate(t) => t.hit(r, ray_t),
            Shapes::RotateY(ry) => ry.hit(r, ray_t),
        }
    }

    /// The cached bounding box.
    pub fn bounding_box(&self) -> (r: Aabb)
        ensures
            r == spec_shape_bounding_box(*self),
    {
        match self {
            Shapes::Sphere(sp) => sp.bounding_box(),
            Shapes::Cube(c) => c.bounding_box(),
            Shapes::Cuboid(c) => c.bounding_box(),
            Shapes::Quad(q) => q.bounding_box(),
            Shapes::Translate(t) => t.bounding_box(),
            Shapes::RotateY(ry) => ry.bounding_box(),
        }
    }
}

} // verus!
