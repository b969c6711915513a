use raytracer::aabb::Aabb;
use raytracer::bvh::BvhNode;
use raytracer::fixed::{Fx, SCALE};
use raytracer::hittables::{HittableList, Translate};
use raytracer::ray::Ray;
use raytracer::shapes::{Cube, Quad, Shapes, Sphere};
use raytracer::utils::Interval;
use raytracer::vec3::Vec3;

fn fx(n: i64) -> Fx {
    Fx::from_int(n)
}

fn v(x: i64, y: i64, z: i64) -> Vec3 {
    Vec3::new(fx(x), fx(y), fx(z))
}

fn box_of(points: &[(i64, i64, i64)]) -> Aabb {
    let mut b = Aabb::new_from_vec3(
        v(points[0].0, points[0].1, points[0].2),
        v(points[0].0, points[0].1, points[0].2),
    );
    for p in points {
        b = Aabb::new_from_aabb(b, Aabb::new_from_vec3(v(p.0, p.1, p.2), v(p.0, p.1, p.2)));
    }
    b
}

#[test]
fn aabb_merge_is_commutative_and_associative() {
    let a = box_of(&[(1, 7, -3), (4, -2, 9), (0, 0, 0)]);
    let b = box_of(&[(-5, 2, 2), (3, 3, 3)]);
    let c = box_of(&[(10, -10, 1), (2, 6, -8), (7, 7, 7)]);
    assert_eq!(Aabb::new_from_aabb(a, b), Aabb::new_from_aabb(b, a));
    assert_eq!(
        Aabb::new_from_aabb(Aabb::new_from_aabb(a, b), c),
        Aabb::new_from_aabb(a, Aabb::new_from_aabb(b, c)),
    );
}

#[test]
fn aabb_slab_test_accepts_and_rejects() {
    let b = Aabb::new_from_vec3(v(-1, -1, -1), v(1, 1, 1));
    let through = Ray::new(v(0, 0, 5), v(0, 0, -1));
    let away = Ray::new(v(0, 0, 5), v(0, 0, 1));
    let beside = Ray::new(v(5, 0, 5), v(0, 0, -1));
    let t = Interval::new(Fx::from_ratio(1, 1000), Fx { bits: i64::MAX });
    assert!(b.hit(through, t));
    assert!(!b.hit(away, t));
    assert!(!b.hit(beside, t));
}

#[test]
fn aabb_parallel_ray_uses_origin_position() {
    let b = Aabb::new_from_vec3(v(-1, -1, -1), v(1, 1, 1));
    let inside_plane = Ray::new(v(0, 0, 5), v(0, 0, -1));
    let outside_plane = Ray::new(v(0, 3, 5), v(0, 0, -1));
    let t = Interval::new(Fx::from_ratio(1, 1000), Fx { bits: i64::MAX });
    assert!(b.hit(inside_plane, t));
    assert!(!b.hit(outside_plane, t));
}

#[test]
fn longest_axis_breaks_ties_toward_later_axes() {
    let b = Aabb::new_from_vec3(v(0, 0, 0), v(2, 2, 2));
    assert_eq!(b.longest_axis(), 2);
    let bx = Aabb::new_from_vec3(v(0, 0, 0), v(5, 1, 1));
    assert_eq!(bx.longest_axis(), 0);
    let by = Aabb::new_from_vec3(v(0, 0, 0), v(1, 5, 2));
    assert_eq!(by.longest_axis(), 1);
}

#[test]
fn sphere_round_trip_along_the_axis() {
    // A ray aimed at the center from distance 5 with radius 2 meets the
    // sphere at parameter exactly 3, from the front, with the normal
    // opposite the direction of travel.
    let s = Sphere::new(v(5, 0, 0), fx(2), 0);
    let ray = Ray::new(v(0, 0, 0), Vec3::new(Fx::one(), Fx::zero(), Fx::zero()));
    let t = Interval::new(Fx::from_ratio(1, 1000), Fx { bits: i64::MAX });
    let rec = s.hit(ray, t).expect("the aimed ray must hit");
    assert_eq!(rec.t.bits, 3 * SCALE);
    assert!(rec.front_face);
    assert_eq!(rec.normal, Vec3::new(Fx::one().neg(), Fx::zero(), Fx::zero()));
    assert_eq!(rec.p, v(3, 0, 0));
}

#[test]
fn sphere_behind_the_ray_is_missed() {
    let s = Sphere::new(v(-5, 0, 0), fx(2), 0);
    let ray = Ray::new(v(0, 0, 0), Vec3::new(Fx::one(), Fx::zero(), Fx::zero()));
    let t = Interval::new(Fx::from_ratio(1, 1000), Fx { bits: i64::MAX });
    assert!(s.hit(ray, t).is_none());
}

#[test]
fn degenerate_sphere_never_registers_a_hit() {
    // A negative radius is clamped to zero at construction; a zero-size
    // sphere never registers a hit, even for a ray aimed exactly at its
    // center.
    let s = Sphere::new(v(5, 0, 0), fx(-3), 0);
    let t = Interval::new(Fx::from_ratio(1, 1000), Fx { bits: i64::MAX });
    let aimed = Ray::new(v(0, 0, 0), Vec3::new(Fx::one(), Fx::zero(), Fx::zero()));
    assert!(s.hit(aimed, t).is_none());
    for off in 1i64..6 {
        let ray = Ray::new(v(0, off, 0), Vec3::new(Fx::one(), Fx::zero(), Fx::zero()));
        assert!(s.hit(ray, t).is_none());
        let ray2 = Ray::new(
            v(0, 0, 0),
            Vec3::new(Fx::one(), Fx::from_ratio(off, 100), Fx::zero()),
        );
        assert!(s.hit(ray2, t).is_none());
    }
}

#[test]
fn degenerate_boxes_never_register_hits() {
    // A cube clamped to zero size, and a cuboid with an extent clamped to
    // zero, are volumeless: rays aimed straight at them miss.
    let t = Interval::new(Fx::from_ratio(1, 1000), Fx { bits: i64::MAX });
    let aimed = Ray::new(v(0, 0, 0), v(0, 0, -1));
    let c = Cube::new(v(0, 0, -5), fx(-2), 0);
    assert!(c.hit(aimed, t).is_none());
    let flat = raytracer::shapes::Cuboid::new(v(0, 0, -5), v(2, 2, -1), 0);
    assert!(flat.hit(aimed, t).is_none());
}

#[test]
fn cube_entry_face_and_parameter() {
    let c = Cube::new(v(0, 0, 0), fx(2), 0);
    let ray = Ray::new(v(0, 0, 5), v(0, 0, -1));
    let t = Interval::new(Fx::from_ratio(1, 1000), Fx { bits: i64::MAX });
    let rec = c.hit(ray, t).expect("the aimed ray must hit");
    assert_eq!(rec.t.bits, 4 * SCALE);
    assert!(rec.front_face);
    assert_eq!(rec.normal, v(0, 0, 1));
    assert_eq!(rec.p, v(0, 0, 1));
}

#[test]
fn quad_hit_center_has_middle_surface_coordinates() {
    let q = Quad::new(v(-1, -1, -2), v(2, 0, 0), v(0, 2, 0), 0);
    let ray = Ray::new(v(0, 0, 0), v(0, 0, -1));
    let t = Interval::new(Fx::from_ratio(1, 1000), Fx { bits: i64::MAX });
    let rec = q.hit(ray, t).expect("the centered ray must hit");
    assert_eq!(rec.t.bits, 2 * SCALE);
    assert_eq!(rec.u.bits, SCALE / 2);
    assert_eq!(rec.v.bits, SCALE / 2);
    assert!(rec.front_face);
    assert_eq!(rec.normal, v(0, 0, 1));
}

#[test]
fn quad_rejects_points_outside_its_edges() {
    let q = Quad::new(v(-1, -1, -2), v(2, 0, 0), v(0, 2, 0), 0);
    let t = Interval::new(Fx::from_ratio(1, 1000), Fx { bits: i64::MAX });
    let off = Ray::new(v(5, 0, 0), v(0, 0, -1));
    assert!(q.hit(off, t).is_none());
    let parallel = Ray::new(v(0, 0, 0), v(1, 0, 0));
    assert!(q.hit(parallel, t).is_none());
}

#[test]
fn translate_carries_the_hit_back_to_world_space() {
    let child = Shapes::Sphere(Sphere::new(v(0, 0, 5), fx(1), 0));
    let moved = Translate::new(Box::new(child), v(0, 0, -10));
    let ray = Ray::new(v(0, 0, 0), v(0, 0, -1));
    let t = Interval::new(Fx::from_ratio(1, 1000), Fx { bits: i64::MAX });
    let rec = moved.hit(ray, t).expect("the moved sphere must be hit");
    assert_eq!(rec.t.bits, 4 * SCALE);
    assert_eq!(rec.p, v(0, 0, -4));
}

fn sample_scene() -> HittableList {
    let mut list = HittableList::new();
    list.add(Shapes::Sphere(Sphere::new(v(0, 0, -10), fx(2), 0)));
    list.add(Shapes::Sphere(Sphere::new(v(4, 0, -14), fx(2), 0)));
    list.add(Shapes::Cube(Cube::new(v(-4, 0, -12), fx(3), 0)));
    list.add(Shapes::Sphere(Sphere::new(v(0, 5, -20), fx(3), 0)));
    list.add(Shapes::Quad(Quad::new(v(-2, -4, -16), v(4, 0, 0), v(0, 4, 0), 0)));
    list.add(Shapes::Cube(Cube::new(v(6, 6, -9), fx(2), 0)));
    list
}

#[test]
fn bvh_agrees_with_the_linear_scan() {
    // For rays that hit, the hierarchy reports the same nearest parameter
    // as the straight scan of the list; for rays that miss, both miss.
    let bvh = BvhNode::new_from_list(sample_scene());
    let reference = sample_scene();
    let t = Interval::new(Fx::from_ratio(1, 1000), Fx { bits: i64::MAX });
    let mut hits: usize = 0;
    for ix in -8i64..9 {
        for iy in -8i64..9 {
            let dir = Vec3::new(Fx::from_ratio(ix, 4), Fx::from_ratio(iy, 4), fx(-1));
            let ray = Ray::new(v(0, 0, 0), dir);
            let from_bvh = bvh.hit(ray, t);
            let from_scan = reference.hit(ray, t);
            assert_eq!(from_bvh.is_some(), from_scan.is_some());
            if let (Some(a), Some(b)) = (from_bvh, from_scan) {
                assert_eq!(a.t.bits, b.t.bits);
                hits += 1;
            }
        }
    }
    assert!(hits >= 5, "the ray fan should strike the scene, got {}", hits);
}
