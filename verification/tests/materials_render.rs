use raytracer::bvh::BvhNode;
use raytracer::camera::Camera;
use raytracer::fixed::{Fx, SCALE};
use raytracer::hittables::{HitRecord, HittableList};
use raytracer::image::Image;
use raytracer::material::{Dielectric, DiffuseLight, Lambertian, Material, Metal};
use raytracer::ray::Ray;
use raytracer::shapes::{Shapes, Sphere};
use raytracer::textures::{CheckerTexture, ImageTexture, SolidColor, Texture};
use raytracer::vec3::Vec3;

fn fx(n: i64) -> Fx {
    Fx::from_int(n)
}

fn v(x: i64, y: i64, z: i64) -> Vec3 {
    Vec3::new(fx(x), fx(y), fx(z))
}

fn gray() -> Vec3 {
    let h = Fx::from_ratio(1, 2);
    Vec3::new(h, h, h)
}

#[test]
fn checker_texture_alternates_between_adjacent_cells() {
    // Cell size 0.32: the origin lies in an even cell, and a point one cell
    // along the first axis answers the odd colour.
    let even = v(1, 0, 0);
    let odd = v(0, 1, 0);
    let tex = Texture::Checker(CheckerTexture::new_from_rgb(Fx::from_ratio(32, 100), even, odd));
    let at_origin = tex.value(Fx::zero(), Fx::zero(), v(0, 0, 0));
    assert_eq!(at_origin, even);
    let one_cell = Vec3::new(Fx::from_ratio(32, 100), Fx::zero(), Fx::zero());
    let shifted = tex.value(Fx::zero(), Fx::zero(), one_cell);
    assert_eq!(shifted, odd);
}

#[test]
fn checker_cells_continue_across_zero() {
    // Floor division puts a coordinate just below zero in cell -1, so the
    // pattern alternates across the origin instead of doubling a cell.
    let even = v(1, 0, 0);
    let odd = v(0, 1, 0);
    let tex = Texture::Checker(CheckerTexture::new_from_rgb(fx(2), even, odd));
    let just_below = Vec3::new(Fx { bits: -1 }, Fx::zero(), Fx::zero());
    assert_eq!(tex.value(Fx::zero(), Fx::zero(), just_below), odd);
    let minus_three = v(-3, 0, 0);
    // floor(-1.5) is -2: an even cell.
    assert_eq!(tex.value(Fx::zero(), Fx::zero(), minus_three), even);
    assert_eq!(tex.value(Fx::zero(), Fx::zero(), v(0, 0, 0)), even);
}

#[test]
fn floor_division_rounds_toward_negative_infinity() {
    assert_eq!(fx(-3).floor_div(fx(2)), -2);
    assert_eq!(fx(3).floor_div(fx(2)), 1);
    assert_eq!(fx(-4).floor_div(fx(2)), -2);
    assert_eq!((Fx { bits: -1 }).floor_div(fx(2)), -1);
    assert_eq!(fx(3).floor_div(fx(-2)), -2);
    assert_eq!(fx(0).floor_div(fx(-2)), 0);
    assert_eq!(fx(5).floor_div(fx(0)), i64::MAX);
    assert_eq!(fx(-5).floor_div(fx(0)), i64::MIN);
}

#[test]
fn solid_texture_ignores_the_query_point() {
    let tex = Texture::Solid(SolidColor::new(gray()));
    assert_eq!(tex.value(Fx::zero(), Fx::zero(), v(9, -2, 4)), gray());
    assert_eq!(tex.value(Fx::one(), Fx::one(), v(0, 0, 0)), gray());
}

#[test]
fn image_texture_reads_pixels_and_flags_out_of_range() {
    let data: Vec<u8> = vec![
        10, 20, 30, 40, 50, 60,
        70, 80, 90, 100, 110, 120,
    ];
    let img = Image::new(2, 2, data).expect("consistent extents");
    assert_eq!(img.pixel_data(0, 0), (10, 20, 30));
    assert_eq!(img.pixel_data(1, 0), (40, 50, 60));
    assert_eq!(img.pixel_data(0, 1), (70, 80, 90));
    assert_eq!(img.pixel_data(1, 1), (100, 110, 120));
    assert_eq!(img.pixel_data(-1, 0), (255, 0, 255));
    assert_eq!(img.pixel_data(0, 7), (255, 0, 255));
}

#[test]
fn image_constructor_rejects_mismatched_extents() {
    assert!(Image::new(2, 2, vec![0u8; 11]).is_err());
    assert!(Image::new(-1, 2, vec![0u8; 12]).is_err());
    assert!(Image::new(2, 2, vec![0u8; 12]).is_ok());
}

#[test]
fn image_texture_samples_white_as_unit_albedo() {
    let img = Image::new(1, 1, vec![255u8, 255, 255]).expect("consistent extents");
    let tex = Texture::Image(ImageTexture::new(img));
    let half = Fx::from_ratio(1, 2);
    let c = tex.value(half, half, v(0, 0, 0));
    // 255/255 lands one grid step under one after truncation.
    assert!(c.x.bits > SCALE - 4 && c.x.bits <= SCALE, "got {}", c.x.bits);
    assert_eq!(c.x.bits, c.y.bits);
    assert_eq!(c.y.bits, c.z.bits);
}

#[test]
fn image_texture_seam_samples_the_border_not_the_sentinel() {
    // A surface coordinate of exactly one (or zero, whose flipped row
    // coordinate becomes one) clamps to the last column or row, so the
    // seam shows border pixels rather than magenta.
    let img = Image::new(2, 2, vec![
        10, 10, 10, 20, 20, 20,
        30, 30, 30, 40, 40, 40,
    ]).expect("consistent extents");
    let tex = Texture::Image(ImageTexture::new(img));
    let corners = [
        (Fx::zero(), Fx::zero()),
        (Fx::one(), Fx::zero()),
        (Fx::zero(), Fx::one()),
        (Fx::one(), Fx::one()),
    ];
    for (u, w) in corners {
        let c = tex.value(u, w, v(0, 0, 0));
        // Every corner reads a stored gray, never the (255, 0, 255) flag.
        assert_eq!(c.x.bits, c.y.bits);
        assert_eq!(c.y.bits, c.z.bits);
        assert!(c.x.bits < SCALE / 4, "corner ({}, {}) gave {}", u.bits, w.bits, c.x.bits);
    }
}

#[test]
fn diffuse_light_absorbs_and_emits_its_texture() {
    let light = DiffuseLight::new(v(5, 5, 5));
    let rec = HitRecord::new(v(0, 0, 0), v(0, 1, 0), Fx::one(), true, 0, Fx::zero(), Fx::zero());
    let ray = Ray::new(v(0, 2, 0), v(0, -1, 0));
    assert!(light.scatter(&ray, &rec).is_none());
    assert_eq!(light.emitted(Fx::zero(), Fx::zero(), v(0, 0, 0)), v(5, 5, 5));
}

#[test]
fn lambertian_scatters_from_the_hit_point_with_its_albedo() {
    let mat = Lambertian::new(gray());
    let rec = HitRecord::new(v(1, 2, 3), v(0, 1, 0), Fx::one(), true, 0, Fx::zero(), Fx::zero());
    let ray = Ray::new(v(0, 5, 0), v(1, -1, 1));
    for _round in 0i32..20 {
        let (scattered, attenuation) = mat.scatter(&ray, &rec).expect("diffuse always scatters");
        let s = scattered.expect("a scattered ray is always produced");
        assert_eq!(s.origin, v(1, 2, 3));
        assert_eq!(attenuation, gray());
    }
}

#[test]
fn metal_clamps_fuzz_and_keeps_its_albedo() {
    let m = Metal::new(gray(), fx(3));
    assert_eq!(m.fuzz.bits, SCALE);
    let sharp = Metal::new(gray(), Fx::from_ratio(1, 4));
    assert_eq!(sharp.fuzz.bits, SCALE / 4);
    let rec = HitRecord::new(v(0, 0, 0), v(0, 1, 0), Fx::one(), true, 0, Fx::zero(), Fx::zero());
    let ray = Ray::new(v(-1, 1, 0), v(1, -1, 0));
    let (_, attenuation) = sharp.scatter(&ray, &rec).expect("metal always scatters");
    assert_eq!(attenuation, gray());
}

#[test]
fn dielectric_reflects_above_the_critical_angle() {
    // Glass with index 1.5, struck from inside beyond the critical angle
    // (sine 0.8 > 1/1.5): every draw reflects, none refracts.
    let glass = Dielectric::new(Fx::from_ratio(3, 2));
    let direction = Vec3::new(Fx::from_int(4), Fx::from_int(3), Fx::zero());
    let unit = Vec3::unit_vector(direction);
    let inward_normal = v(0, -1, 0);
    let rec = HitRecord::new(
        v(0, 1, 0),
        inward_normal,
        Fx::one(),
        false,
        0,
        Fx::zero(),
        Fx::zero(),
    );
    let ray = Ray::new(v(-4, -2, 0), direction);
    let mirrored = Vec3::reflect(unit, inward_normal);
    for _round in 0i32..50 {
        let (scattered, attenuation) = glass.scatter(&ray, &rec).expect("glass always scatters");
        let s = scattered.expect("a scattered ray is always produced");
        assert_eq!(s.direction, mirrored, "total internal reflection must reflect");
        assert_eq!(attenuation, Vec3::new(Fx::one(), Fx::one(), Fx::one()));
    }
}

#[test]
fn dielectric_below_critical_angle_refracts_or_reflects() {
    // A shallower strike (sine 0.6 < 1/1.5) may go either way with the
    // draw, but always from the hit point with unit attenuation.
    let glass = Dielectric::new(Fx::from_ratio(3, 2));
    let direction = Vec3::new(Fx::from_int(3), Fx::from_int(4), Fx::zero());
    let rec = HitRecord::new(
        v(0, 1, 0),
        v(0, -1, 0),
        Fx::one(),
        false,
        0,
        Fx::zero(),
        Fx::zero(),
    );
    let ray = Ray::new(v(-3, -3, 0), direction);
    for _round in 0i32..50 {
        let (scattered, attenuation) = glass.scatter(&ray, &rec).expect("glass always scatters");
        let s = scattered.expect("a scattered ray is always produced");
        assert_eq!(s.origin, v(0, 1, 0));
        assert_eq!(attenuation, Vec3::new(Fx::one(), Fx::one(), Fx::one()));
    }
}

fn single_sphere_scene() -> (BvhNode, Vec<Material>) {
    let mut list = HittableList::new();
    list.add(Shapes::Sphere(Sphere::new(v(0, 0, -5), Fx::from_ratio(21, 10), 0)));
    let materials = vec![Material::Lambertian(Lambertian::new(gray()))];
    (BvhNode::new_from_list(list), materials)
}

#[test]
fn ray_color_at_zero_depth_is_black() {
    let (world, materials) = single_sphere_scene();
    let ray = Ray::new(v(0, 0, 0), v(0, 0, -1));
    let white = Vec3::new(Fx::one(), Fx::one(), Fx::one());
    let c = Camera::ray_color(ray, 0, &world, &materials, white);
    assert_eq!(c, Vec3::new(Fx::zero(), Fx::zero(), Fx::zero()));
    let c2 = Camera::ray_color(Ray::new(v(3, 1, 2), v(1, 1, 1)), -4, &world, &materials, white);
    assert_eq!(c2, Vec3::new(Fx::zero(), Fx::zero(), Fx::zero()));
}

#[test]
fn ray_color_miss_returns_the_background() {
    let (world, materials) = single_sphere_scene();
    let background = Vec3::new(Fx::from_ratio(3, 10), Fx::from_ratio(6, 10), Fx::one());
    let away = Ray::new(v(0, 0, 0), v(0, 0, 1));
    for depth in 1i32..5 {
        let c = Camera::ray_color(away, depth, &world, &materials, background);
        assert_eq!(c, background);
    }
}

#[test]
fn ray_color_on_a_light_returns_its_emission() {
    // A light never scatters, so a path ending on it carries exactly the
    // emitted radiance, whatever the depth budget left.
    let mut list = HittableList::new();
    list.add(Shapes::Sphere(Sphere::new(v(0, 0, -5), fx(2), 0)));
    let materials = vec![Material::DiffuseLight(DiffuseLight::new(v(5, 5, 5)))];
    let world = BvhNode::new_from_list(list);
    let toward = Ray::new(v(0, 0, 0), v(0, 0, -1));
    for depth in 1i32..5 {
        let c = Camera::ray_color(toward, depth, &world, &materials, v(0, 0, 0));
        assert_eq!(c, v(5, 5, 5));
    }
}

#[test]
fn ray_color_channels_never_go_negative() {
    let (world, materials) = single_sphere_scene();
    let white = Vec3::new(Fx::one(), Fx::one(), Fx::one());
    for ix in -5i64..6 {
        for iy in -5i64..6 {
            let dir = Vec3::new(Fx::from_ratio(ix, 5), Fx::from_ratio(iy, 5), fx(-1));
            for depth in 0i32..4 {
                let c = Camera::ray_color(Ray::new(v(0, 0, 0), dir), depth, &world, &materials, white);
                assert!(c.x.bits >= 0 && c.y.bits >= 0 && c.z.bits >= 0);
            }
        }
    }
}

fn test_camera(samples: i32, depth: i32) -> Camera {
    Camera::new(
        Fx::one(),
        5,
        samples,
        depth,
        fx(90),
        v(0, 0, 0),
        v(0, 0, -1),
        v(0, 1, 0),
        Fx::zero(),
        Fx::one(),
        Vec3::new(Fx::one(), Fx::one(), Fx::one()),
    )
}

#[test]
fn render_center_pixel_halves_the_white_background() {
    // One sample, two bounces: the center ray hits the gray sphere, its
    // bounce escapes to the white background, and the pixel is the albedo
    // one half, gamma corrected: sqrt(1/2) scaled to the byte 181.  The
    // corner rays miss and keep the raw background, byte 255.
    let cam = test_camera(1, 2);
    let (world, materials) = single_sphere_scene();
    let pixels = cam.render(&world, &materials);
    assert_eq!(pixels.len(), 75);
    let center = 3 * (5 * 2 + 2);
    assert_eq!(pixels[center], 181);
    assert_eq!(pixels[center + 1], 181);
    assert_eq!(pixels[center + 2], 181);
    assert_eq!(pixels[0], 255);
    assert_eq!(pixels[1], 255);
    assert_eq!(pixels[2], 255);
    let far_corner = 3 * (5 * 4 + 4);
    assert_eq!(pixels[far_corner], 255);
}

#[test]
fn render_with_depth_one_terminates_paths_at_the_surface() {
    // With a single bounce the center path ends on the sphere and
    // contributes nothing: the depth budget turns it exactly black.
    let cam = test_camera(1, 1);
    let (world, materials) = single_sphere_scene();
    let pixels = cam.render(&world, &materials);
    assert_eq!(pixels.len(), 75);
    let center = 3 * (5 * 2 + 2);
    assert_eq!(pixels[center], 0);
    assert_eq!(pixels[center + 1], 0);
    assert_eq!(pixels[center + 2], 0);
    assert_eq!(pixels[0], 255);
}
