//! The library's scenes: each builder assembles a material arena, a list of
//! shapes over it, the hierarchy, and a camera.  Image-backed textures take
//! their decoded pixel grids as arguments; rendering and file output are
//! the caller's business.

use vstd::prelude::*;

use crate::bvh::BvhNode;
use crate::camera::{mats_nonneg, world_wf, Camera};
use crate::fixed::Fx;
use crate::hittables::{HittableList, RotateY, Translate};
use crate::image::Image;
use crate::material::{
    material_nonneg, material_wf, Dielectric, DiffuseLight, Lambertian, Material, Metal,
};
use crate::shapes::{lemma_shape_wf_mono, shape_wf, Cube, Cuboid, Quad, Shapes, Sphere};
use crate::textures::{CheckerTexture, ImageTexture, SolidColor, Texture};
use crate::utils::{random_double, random_double_range, rotate_y_translation};
use crate::vec3::Vec3;

verus! {

/// A finished scene: the hierarchy, the material arena its shapes index,
/// and the camera to render it with.
pub struct Scene {
    pub camera: Camera,
    pub world: BvhNode,
    pub materials: Vec<Material>,
}

/// The scene is ready to render: the hierarchy and arena are consistent
/// and every colour in the arena is nonnegative.
pub open spec fn scene_ok(s: Scene) -> bool {
    world_wf(s.world, s.materials@) && mats_nonneg(s.materials@) && 0 <= s.camera.image_width
        && 0 <= s.camera.image_height
}

/// The arena invariant the builders maintain.
pub open spec fn arena_ok(objects: Seq<Shapes>, mats: Seq<Material>) -> bool {
    &&& forall|k: int|
        0 <= k < objects.len() ==> shape_wf(#[trigger] objects[k], mats.len() as int)
    &&& forall|k: int| 0 <= k < mats.len() ==> material_wf(#[trigger] mats[k])
    &&& forall|k: int| 0 <= k < mats.len() ==> material_nonneg(#[trigger] mats[k])
}

/// A vector from whole-number parts.
fn v3i(x: i64, y: i64, z: i64) -> (r: Vec3)
    ensures
        r.x.bits == crate::fixed::clip(x * crate::fixed::SCALE),
        r.y.bits == crate::fixed::clip(y * crate::fixed::SCALE),
        r.z.bits == crate::fixed::clip(z * crate::fixed::SCALE),
{
    Vec3::new(Fx::from_int(x), Fx::from_int(y), Fx::from_int(z))
}

/// A colour from hundredths, so scene constants read as the decimals they
/// stand for.
fn v3c(x: i64, y: i64, z: i64) -> (r: Vec3)
    requires
        0 <= x,
        0 <= y,
        0 <= z,
    ensures
        crate::vec3::vec_nonneg(r),
{
    proof {
        crate::fixed::lemma_fxdiv_nonneg(
            crate::fixed::clip(x * crate::fixed::SCALE),
            100 * crate::fixed::SCALE,
        );
        crate::fixed::lemma_fxdiv_nonneg(
            crate::fixed::clip(y * crate::fixed::SCALE),
            100 * crate::fixed::SCALE,
        );
        crate::fixed::lemma_fxdiv_nonneg(
            crate::fixed::clip(z * crate::fixed::SCALE),
            100 * crate::fixed::SCALE,
        );
    }
    Vec3::new(Fx::from_ratio(x, 100), Fx::from_ratio(y, 100), Fx::from_ratio(z, 100))
}

/// A diffuse material over a nonnegative solid colour.
fn lambertian_color(albedo: Vec3) -> (m: Material)
    requires
        crate::vec3::vec_nonneg(albedo),
    ensures
        material_wf(m),
        material_nonneg(m),
{
    let m = Material::Lambertian(Lambertian::new(albedo));
    proof {
        assert(crate::textures::texture_wf(Texture::Solid(SolidColor { albedo })));
        assert(crate::textures::tex_nonneg(Texture::Solid(SolidColor { albedo })));
    }
    m
}

/// A light of a nonnegative solid colour.
fn light_color(albedo: Vec3) -> (m: Material)
    requires
        crate::vec3::vec_nonneg(albedo),
    ensures
        material_wf(m),
        material_nonneg(m),
{
    let m = Material::DiffuseLight(DiffuseLight::new(albedo));
    proof {
        assert(crate::textures::texture_wf(Texture::Solid(SolidColor { albedo })));
        assert(crate::textures::tex_nonneg(Texture::Solid(SolidColor { albedo })));
    }
    m
}

/// A metal of a nonnegative albedo.
fn metal_color(albedo: Vec3, fuzz: Fx) -> (m: Material)
    requires
        crate::vec3::vec_nonneg(albedo),
    ensures
        material_wf(m),
        material_nonneg(m),
{
    Material::Metal(Metal::new(albedo, fuzz))
}

/// A clear material.
fn dielectric_material(refraction_index: Fx) -> (m: Material)
    ensures
        material_wf(m),
        material_nonneg(m),
{
    Material::Dielectric(Dielectric::new(refraction_index))
}

/// A diffuse material sampling a decoded image.
fn image_lambertian(image: Image) -> (m: Material)
    requires
        image.wf(),
    ensures
        material_wf(m),
        material_nonneg(m),
{
    let tex = Texture::Image(ImageTexture::new(image));
    proof {
        assert(crate::textures::texture_wf(tex));
        assert(crate::textures::tex_nonneg(tex));
    }
    Material::Lambertian(Lambertian::new_from_texture(Box::new(tex)))
}

/// The standard checkered ground material.
fn checker_material() -> (m: Material)
    ensures
        material_wf(m),
        material_nonneg(m),
{
    let c1 = v3c(20, 30, 10);
    let c2 = v3c(90, 90, 90);
    let checker = CheckerTexture::new_from_rgb(Fx::from_ratio(32, 100), c1, c2);
    proof {
        assert(crate::textures::texture_wf(Texture::Solid(SolidColor { albedo: c1 })));
        assert(crate::textures::texture_wf(Texture::Solid(SolidColor { albedo: c2 })));
        assert(crate::textures::tex_nonneg(Texture::Solid(SolidColor { albedo: c1 })));
        assert(crate::textures::tex_nonneg(Texture::Solid(SolidColor { albedo: c2 })));
    }
    let tex = Texture::Checker(checker);
    proof {
        assert(crate::textures::texture_wf(tex));
        assert(crate::textures::tex_nonneg(tex));
    }
    Material::Lambertian(Lambertian::new_from_texture(Box::new(tex)))
}

/// Appends a material to the arena and returns its handle.
fn push_material(materials: &mut Vec<Material>, m: Material) -> (idx: usize)
    requires
        material_wf(m),
        material_nonneg(m),
    ensures
        final(materials)@ == old(materials)@.push(m),
        idx == old(materials)@.len(),
{
    let idx = materials.len();
    materials.push(m);
    idx
}

/// Appends a shape to the list, keeping the arena invariant.
fn add_shape(world: &mut HittableList, materials: &Vec<Material>, s: Shapes)
    requires
        shape_wf(s, materials@.len() as int),
        forall|k: int|
            0 <= k < old(world).objects@.len() ==> shape_wf(
                #[trigger] old(world).objects@[k],
                materials@.len() as int,
            ),
    ensures
        final(world).objects@ == old(world).objects@.push(s),
        forall|k: int|
            0 <= k < final(world).objects@.len() ==> shape_wf(
                #[trigger] final(world).objects@[k],
                materials@.len() as int,
            ),
{
    world.add(s);
}

/// Restores the shapes' consistency after the arena has grown.
proof fn lemma_arena_grow(objects: Seq<Shapes>, m1: int, m2: int)
    requires
        m1 <= m2,
        forall|k: int| 0 <= k < objects.len() ==> shape_wf(#[trigger] objects[k], m1),
    ensures
        forall|k: int| 0 <= k < objects.len() ==> shape_wf(#[trigger] objects[k], m2),
{
    assert forall|k: int| 0 <= k < objects.len() implies shape_wf(#[trigger] objects[k], m2) by {
        lemma_shape_wf_mono(objects[k], m1, m2);
    }
}

/// A field of random small spheres and cubes around three showpieces, under
/// a checkered ground, lit by the sky.
#[verifier::rlimit(100)]
pub fn spheres_and_cubes(earth_image: Image, moon_image: Image) -> (s: Scene)
    requires
        earth_image.wf(),
        moon_image.wf(),
    ensures
        scene_ok(s),
{
    let mut world = HittableList::new();
    let mut materials: Vec<Material> = Vec::new();

    let checker = checker_material();
    let checker_id = push_material(&mut materials, checker);
    add_shape(
        &mut world,
        &materials,
        Shapes::Sphere(Sphere::new(v3i(0, -1000, 0), Fx::from_int(1000), checker_id)),
    );

    let mut a: i32 = -11;
    while a < 11
        invariant
            arena_ok(world.objects@, materials@),
            world.objects@.len() >= 1,
        decreases 11 - a,
    {
        let mut b: i32 = -11;
        while b < 11
            invariant
                arena_ok(world.objects@, materials@),
                world.objects@.len() >= 1,
            decreases 11 - b,
        {
            let choose_mat = random_double();
            let center = Vec3::new(
                Fx::from_int(a as i64).add(Fx::from_ratio(9, 10).mul(random_double())),
                Fx::from_ratio(2, 10),
                Fx::from_int(b as i64).add(Fx::from_ratio(9, 10).mul(random_double())),
            );
            let far_enough = center.sub(
                Vec3::new(Fx::from_int(4), Fx::from_ratio(2, 10), Fx::zero()),
            ).length().bits > Fx::from_ratio(9, 10).bits;
            if far_enough {
                let ghost mats0 = materials@;
                if choose_mat.bits < Fx::from_ratio(4, 10).bits {
                    let a1 = Vec3::random();
                    let a2 = Vec3::random();
                    let albedo = a1.mul(a2);
                    proof {
                        crate::vec3::lemma_vmul_nonneg(a1, a2);
                    }
                    let id = push_material(&mut materials, lambertian_color(albedo));
                    proof {
                        lemma_arena_grow(
                            world.objects@,
                            mats0.len() as int,
                            materials@.len() as int,
                        );
                    }
                    add_shape(
                        &mut world,
                        &materials,
                        Shapes::Sphere(Sphere::new(center, Fx::from_ratio(2, 10), id)),
                    );
                } else if choose_mat.bits < Fx::from_ratio(55, 100).bits {
                    let lo = Fx::from_ratio(5, 10);
                    let albedo = Vec3::random_range(lo, Fx::one());
                    let fuzz = random_double_range(Fx::zero(), lo);
                    proof {
                        assert(0 <= lo.bits <= crate::fixed::SCALE);
                    }
                    let id = push_material(&mut materials, metal_color(albedo, fuzz));
                    proof {
                        lemma_arena_grow(
                            world.objects@,
                            mats0.len() as int,
                            materials@.len() as int,
                        );
                    }
                    add_shape(
                        &mut world,
                        &materials,
                        Shapes::Sphere(Sphere::new(center, Fx::from_ratio(2, 10), id)),
                    );
                } else if choose_mat.bits < Fx::from_ratio(65, 100).bits {
                    let a1 = Vec3::random();
                    let a2 = Vec3::random();
                    let albedo = a1.mul(a2);
                    proof {
                        crate::vec3::lemma_vmul_nonneg(a1, a2);
                    }
                    let id = push_material(&mut materials, lambertian_color(albedo));
                    proof {
                        lemma_arena_grow(
                            world.objects@,
                            mats0.len() as int,
                            materials@.len() as int,
                        );
                    }
                    add_shape(
                        &mut world,
                        &materials,
                        Shapes::Cube(Cube::new(center, Fx::from_ratio(3, 10), id)),
                    );
                } else if choose_mat.bits < Fx::from_ratio(75, 100).bits {
                    let lo = Fx::from_ratio(5, 10);
                    let albedo = Vec3::random_range(lo, Fx::one());
                    let fuzz = random_double_range(Fx::zero(), lo);
                    proof {
                        assert(0 <= lo.bits <= crate::fixed::SCALE);
                    }
                    let id = push_material(&mut materials, metal_color(albedo, fuzz));
                    proof {
                        lemma_arena_grow(
                            world.objects@,
                            mats0.len() as int,
                            materials@.len() as int,
                        );
                    }
                    add_shape(
                        &mut world,
                        &materials,
                        Shapes::Cube(Cube::new(center, Fx::from_ratio(3, 10), id)),
                    );
                } else if choose_mat.bits < Fx::from_ratio(85, 100).bits {
                    let refraction_index = random_double_range(Fx::zero(), Fx::from_int(2));
                    let id = push_material(
                        &mut materials,
                        dielectric_material(refraction_index),
                    );
                    proof {
                        lemma_arena_grow(
                            world.objects@,
                            mats0.len() as int,
                            materials@.len() as int,
                        );
                    }
                    add_shape(
                        &mut world,
                        &materials,
                        Shapes::Sphere(Sphere::new(center, Fx::from_ratio(2, 10), id)),
                    );
                }
            }
            b = b + 1;
        }
        a = a + 1;
    }

    let ghost mats1 = materials@;
    let glass_id = push_material(
        &mut materials,
        dielectric_material(Fx::from_ratio(3, 2)),
    );
    proof {
        lemma_arena_grow(world.objects@, mats1.len() as int, materials@.len() as int);
    }
    add_shape(
        &mut world,
        &materials,
        Shapes::Sphere(Sphere::new(v3i(0, 1, 0), Fx::one(), glass_id)),
    );

    let ghost mats2 = materials@;
    let earth_id = push_material(
        &mut materials,
        image_lambertian(earth_image),
    );
    proof {
        lemma_arena_grow(world.objects@, mats2.len() as int, materials@.len() as int);
    }
    add_shape(
        &mut world,
        &materials,
        Shapes::Sphere(Sphere::new(v3i(-5, 1, 0), Fx::from_int(2), earth_id)),
    );

    let ghost mats3 = materials@;
    let moon_id = push_material(
        &mut materials,
        image_lambertian(moon_image),
    );
    proof {
        lemma_arena_grow(world.objects@, mats3.len() as int, materials@.len() as int);
    }
    add_shape(
        &mut world,
        &materials,
        Shapes::Cuboid(
            Cuboid::new(
                Vec3::new(Fx::from_ratio(9, 2), Fx::one(), Fx::from_ratio(-3, 10)),
                v3i(4, 2, 1),
                moon_id,
            ),
        ),
    );

    let bvh_node = BvhNode::new_from_list(world);
    let cam = Camera::new(
        Fx::from_ratio(16, 9),
        1200,
        500,
        20,
        Fx::from_int(20),
        v3i(13, 2, 3),
        v3i(0, 0, 0),
        v3i(0, 1, 0),
        Fx::from_ratio(6, 10),
        Fx::from_int(10),
        v3c(70, 80, 100),
    );
    Scene { camera: cam, world: bvh_node, materials }
}

/// Two large checkered spheres facing each other.
#[verifier::rlimit(100)]
pub fn checkered_spheres() -> (s: Scene)
    ensures
        scene_ok(s),
{
    let mut world = HittableList::new();
    let mut materials: Vec<Material> = Vec::new();

    let checker = checker_material();
    let checker_id = push_material(&mut materials, checker);
    add_shape(
        &mut world,
        &materials,
        Shapes::Sphere(Sphere::new(v3i(0, -10, 0), Fx::from_int(10), checker_id)),
    );
    add_shape(
        &mut world,
        &materials,
        Shapes::Sphere(Sphere::new(v3i(0, 10, 0), Fx::from_int(10), checker_id)),
    );

    let bvh_node = BvhNode::new_from_list(world);
    let cam = Camera::new(
        Fx::from_ratio(16, 9),
        1200,
        500,
        50,
        Fx::from_int(20),
        v3i(13, 2, 3),
        v3i(0, 0, 0),
        v3i(0, 1, 0),
        Fx::zero(),
        Fx::from_int(10),
        v3c(70, 80, 100),
    );
    Scene { camera: cam, world: bvh_node, materials }
}

/// A single image-mapped globe.
#[verifier::rlimit(100)]
pub fn earth(earth_image: Image) -> (s: Scene)
    requires
        earth_image.wf(),
    ensures
        scene_ok(s),
{
    let mut world = HittableList::new();
    let mut materials: Vec<Material> = Vec::new();

    let earth_id = push_material(
        &mut materials,
        image_lambertian(earth_image),
    );
    add_shape(
        &mut world,
        &materials,
        Shapes::Sphere(Sphere::new(v3i(0, 0, 0), Fx::from_int(2), earth_id)),
    );

    let bvh_node = BvhNode::new_from_list(world);
    let cam = Camera::new(
        Fx::from_ratio(16, 9),
        1200,
        500,
        50,
        Fx::from_int(20),
        v3i(0, 0, 12),
        v3i(0, 0, 0),
        v3i(0, 1, 0),
        Fx::zero(),
        Fx::from_int(10),
        v3c(70, 80, 100),
    );
    Scene { camera: cam, world: bvh_node, materials }
}

/// Five coloured parallelograms facing the camera.
#[verifier::rlimit(100)]
pub fn quads() -> (s: Scene)
    ensures
        scene_ok(s),
{
    let mut world = HittableList::new();
    let mut materials: Vec<Material> = Vec::new();

    let left_red = push_material(
        &mut materials,
        lambertian_color(v3c(100, 20, 20)),
    );
    let back_green = push_material(
        &mut materials,
        lambertian_color(v3c(20, 100, 20)),
    );
    let right_blue = push_material(
        &mut materials,
        lambertian_color(v3c(20, 20, 100)),
    );
    let upper_orange = push_material(
        &mut materials,
        lambertian_color(v3c(100, 50, 0)),
    );
    let lower_teal = push_material(
        &mut materials,
        lambertian_color(v3c(20, 80, 80)),
    );

    add_shape(
        &mut world,
        &materials,
        Shapes::Quad(Quad::new(v3i(-3, -2, 5), v3i(0, 0, -4), v3i(0, 4, 0), left_red)),
    );
    add_shape(
        &mut world,
        &materials,
        Shapes::Quad(Quad::new(v3i(-2, -2, 0), v3i(4, 0, 0), v3i(0, 4, 0), back_green)),
    );
    add_shape(
        &mut world,
        &materials,
        Shapes::Quad(Quad::new(v3i(3, -2, 1), v3i(0, 0, 4), v3i(0, 4, 0), right_blue)),
    );
    add_shape(
        &mut world,
        &materials,
        Shapes::Quad(Quad::new(v3i(-2, 3, 1), v3i(4, 0, 0), v3i(0, 0, 4), upper_orange)),
    );
    add_shape(
        &mut world,
        &materials,
        Shapes::Quad(Quad::new(v3i(-2, -3, 5), v3i(4, 0, 0), v3i(0, 0, -4), lower_teal)),
    );

    let bvh_node = BvhNode::new_from_list(world);
    let cam = Camera::new(
        Fx::from_ratio(16, 9),
        1200,
        500,
        50,
        Fx::from_int(80),
        v3i(0, 0, 9),
        v3i(0, 0, 0),
        v3i(0, 1, 0),
        Fx::zero(),
        Fx::from_int(10),
        v3c(70, 80, 100),
    );
    Scene { camera: cam, world: bvh_node, materials }
}

/// A checkered ground with a red sphere under a sphere light and a quad
/// light, against a black sky.
#[verifier::rlimit(100)]
pub fn light() -> (s: Scene)
    ensures
        scene_ok(s),
{
    let mut world = HittableList::new();
    let mut materials: Vec<Material> = Vec::new();

    let checker = checker_material();
    let checker_id = push_material(&mut materials, checker);
    let red_id = push_material(
        &mut materials,
        lambertian_color(v3c(100, 20, 20)),
    );
    let light_id = push_material(
        &mut materials,
        light_color(v3i(5, 5, 5)),
    );

    add_shape(
        &mut world,
        &materials,
        Shapes::Sphere(Sphere::new(v3i(0, -1000, 0), Fx::from_int(1000), checker_id)),
    );
    add_shape(
        &mut world,
        &materials,
        Shapes::Sphere(Sphere::new(v3i(0, 2, 0), Fx::from_int(2), red_id)),
    );
    add_shape(
        &mut world,
        &materials,
        Shapes::Sphere(Sphere::new(v3i(0, 7, 0), Fx::from_int(2), light_id)),
    );
    add_shape(
        &mut world,
        &materials,
        Shapes::Quad(Quad::new(v3i(3, 1, -2), v3i(2, 0, 0), v3i(0, 2, 0), light_id)),
    );

    let bvh_node = BvhNode::new_from_list(world);
    let cam = Camera::new(
        Fx::from_ratio(16, 9),
        1200,
        500,
        50,
        Fx::from_int(20),
        v3i(26, 3, 6),
        v3i(0, 2, 0),
        v3i(0, 1, 0),
        Fx::zero(),
        Fx::from_int(10),
        v3i(0, 0, 0),
    );
    Scene { camera: cam, world: bvh_node, materials }
}

/// The classic walled room: coloured side walls, a ceiling light, and two
/// rotated boxes.
#[verifier::rlimit(100)]
pub fn cornell_box() -> (s: Scene)
    ensures
        scene_ok(s),
{
    let mut world = HittableList::new();
    let mut materials: Vec<Material> = Vec::new();

    let red_id = push_material(
        &mut materials,
        lambertian_color(v3c(65, 5, 5)),
    );
    let white_id = push_material(
        &mut materials,
        lambertian_color(v3c(73, 73, 73)),
    );
    let green_id = push_material(
        &mut materials,
        lambertian_color(v3c(12, 45, 15)),
    );
    let light_id = push_material(
        &mut materials,
        light_color(v3i(15, 15, 15)),
    );

    add_shape(
        &mut world,
        &materials,
        Shapes::Quad(Quad::new(v3i(555, 0, 0), v3i(0, 555, 0), v3i(0, 0, 555), green_id)),
    );
    add_shape(
        &mut world,
        &materials,
        Shapes::Quad(Quad::new(v3i(0, 0, 0), v3i(0, 555, 0), v3i(0, 0, 555), red_id)),
    );
    add_shape(
        &mut world,
        &materials,
        Shapes::Quad(
            Quad::new(v3i(343, 554, 332), v3i(-130, 0, 4), v3i(0, 0, -105), light_id),
        ),
    );
    add_shape(
        &mut world,
        &materials,
        Shapes::Quad(Quad::new(v3i(0, 0, 0), v3i(555, 0, 0), v3i(0, 0, 555), white_id)),
    );
    add_shape(
        &mut world,
        &materials,
        Shapes::Quad(
            Quad::new(v3i(555, 555, 555), v3i(-555, 0, 0), v3i(0, 0, -555), white_id),
        ),
    );
    add_shape(
        &mut world,
        &materials,
        Shapes::Quad(Quad::new(v3i(0, 0, 555), v3i(555, 0, 0), v3i(0, 555, 0), white_id)),
    );

    let tall_center = Vec3::new(
        Fx::from_ratio(425, 2),
        Fx::from_ratio(165, 2),
        Fx::from_ratio(295, 2),
    );
    let box1 = Shapes::Cuboid(Cuboid::new(tall_center, v3i(165, 165, 165), white_id));
    proof {
        assert(shape_wf(box1, materials@.len() as int));
    }
    let rot1 = Shapes::RotateY(RotateY::new(Box::new(box1), Fx::from_int(-18)));
    proof {
        assert(shape_wf(rot1, materials@.len() as int));
    }
    let wrapped1 = Shapes::Translate(Translate::new(Box::new(rot1), v3i(23, 0, -29)));
    proof {
        assert(shape_wf(wrapped1, materials@.len() as int));
    }
    add_shape(&mut world, &materials, wrapped1);

    let box2 = Shapes::Cuboid(
        Cuboid::new(
            Vec3::new(Fx::from_ratio(695, 2), Fx::from_int(165), Fx::from_ratio(755, 2)),
            v3i(165, 330, 165),
            white_id,
        ),
    );
    proof {
        assert(shape_wf(box2, materials@.len() as int));
    }
    let rot2 = Shapes::RotateY(RotateY::new(Box::new(box2), Fx::from_int(15)));
    proof {
        assert(shape_wf(rot2, materials@.len() as int));
    }
    let wrapped2 = Shapes::Translate(Translate::new(Box::new(rot2), v3i(-70, 0, 40)));
    proof {
        assert(shape_wf(wrapped2, materials@.len() as int));
    }
    add_shape(&mut world, &materials, wrapped2);

    let bvh_node = BvhNode::new_from_list(world);
    let cam = Camera::new(
        Fx::one(),
        1000,
        1000,
        50,
        Fx::from_int(40),
        v3i(278, 278, -800),
        v3i(278, 278, 0),
        v3i(0, 1, 0),
        Fx::zero(),
        Fx::from_int(10),
        v3i(0, 0, 0),
    );
    Scene { camera: cam, world: bvh_node, materials }
}

/// The showcase: a field of ground boxes under a ceiling light, glass and
/// metal spheres, an image-mapped globe, a rotated image-mapped cube, and a
/// cloud of small white spheres.
#[verifier::rlimit(100)]
pub fn final_scene(moon_image: Image, earth_image: Image) -> (s: Scene)
    requires
        moon_image.wf(),
        earth_image.wf(),
    ensures
        scene_ok(s),
{
    let mut world = HittableList::new();
    let mut materials: Vec<Material> = Vec::new();

    let ground_id = push_material(
        &mut materials,
        lambertian_color(v3c(48, 83, 53)),
    );
    let light_id = push_material(
        &mut materials,
        light_color(v3i(7, 7, 7)),
    );
    let glass_id = push_material(
        &mut materials,
        dielectric_material(Fx::from_ratio(3, 2)),
    );
    let blue_id = push_material(
        &mut materials,
        lambertian_color(v3c(10, 30, 80)),
    );
    let metal_id = push_material(
        &mut materials,
        metal_color(v3c(80, 80, 90), Fx::from_ratio(35, 100)),
    );
    let moon_id = push_material(
        &mut materials,
        image_lambertian(moon_image),
    );
    let earth_id = push_material(
        &mut materials,
        image_lambertian(earth_image),
    );
    let white_id = push_material(
        &mut materials,
        lambertian_color(v3c(73, 73, 73)),
    );

    let boxes_per_side: i32 = 20;
    let mut i: i32 = 0;
    while i < boxes_per_side
        invariant
            arena_ok(world.objects@, materials@),
            (ground_id as int) < materials@.len(),
        decreases boxes_per_side - i,
    {
        let mut j: i32 = 0;
        while j < boxes_per_side
            invariant
                arena_ok(world.objects@, materials@),
                (ground_id as int) < materials@.len(),
            decreases boxes_per_side - j,
        {
            let w = Fx::from_int(100);
            let x0 = Fx::from_int(-1000).add(Fx::from_int(i as i64).mul(w));
            let z0 = Fx::from_int(-1000).add(Fx::from_int(j as i64).mul(w));
            let y0 = Fx::zero();
            let x1 = x0.add(w);
            let y1 = random_double_range(Fx::one(), Fx::from_int(101));
            let z1 = z0.add(w);
            add_shape(
                &mut world,
                &materials,
                Shapes::Cuboid(
                    Cuboid::new_from_corners(
                        Vec3::new(x0, y0, z0),
                        Vec3::new(x1, y1, z1),
                        ground_id,
                    ),
                ),
            );
            j = j + 1;
        }
        i = i + 1;
    }

    add_shape(
        &mut world,
        &materials,
        Shapes::Quad(
            Quad::new(v3i(123, 554, 147), v3i(300, 0, 0), v3i(0, 0, 265), light_id),
        ),
    );
    add_shape(
        &mut world,
        &materials,
        Shapes::Sphere(Sphere::new(v3i(260, 150, 45), Fx::from_int(50), glass_id)),
    );
    add_shape(
        &mut world,
        &materials,
        Shapes::Sphere(Sphere::new(v3i(360, 150, 145), Fx::from_int(73), glass_id)),
    );
    add_shape(
        &mut world,
        &materials,
        Shapes::Sphere(Sphere::new(v3i(360, 150, 145), Fx::from_int(70), blue_id)),
    );
    add_shape(
        &mut world,
        &materials,
        Shapes::Sphere(Sphere::new(v3i(0, 150, 145), Fx::from_int(50), metal_id)),
    );

    let glass_sphere_size = Fx::from_int(80);
    add_shape(
        &mut world,
        &materials,
        Shapes::Sphere(Sphere::new(v3i(220, 280, 300), glass_sphere_size, glass_id)),
    );

    let moon_cube_center = v3i(220, 280, 300);
    let rotation_angle = Fx::from_int(-75);
    let moon_cube = Shapes::Cube(
        Cube::new(moon_cube_center, glass_sphere_size.div(Fx::from_int(2)), moon_id),
    );
    proof {
        assert(shape_wf(moon_cube, materials@.len() as int));
    }
    let moon_rot = Shapes::RotateY(RotateY::new(Box::new(moon_cube), rotation_angle));
    proof {
        assert(shape_wf(moon_rot, materials@.len() as int));
    }
    let moon_wrapped = Shapes::Translate(
        Translate::new(
            Box::new(moon_rot),
            rotate_y_translation(moon_cube_center, rotation_angle),
        ),
    );
    proof {
        assert(shape_wf(moon_wrapped, materials@.len() as int));
    }
    add_shape(&mut world, &materials, moon_wrapped);

    add_shape(
        &mut world,
        &materials,
        Shapes::Sphere(Sphere::new(v3i(400, 200, 400), Fx::from_int(100), earth_id)),
    );

    let sphere_count: i32 = 1000;
    let mut k: i32 = 0;
    while k < sphere_count
        invariant
            arena_ok(world.objects@, materials@),
            (white_id as int) < materials@.len(),
            world.objects@.len() >= 1,
        decreases sphere_count - k,
    {
        let center = Vec3::random_range(Fx::zero(), Fx::from_int(165));
        let little = Shapes::Sphere(Sphere::new(center, Fx::from_int(10), white_id));
        proof {
            assert(shape_wf(little, materials@.len() as int));
        }
        let rot = Shapes::RotateY(RotateY::new(Box::new(little), Fx::from_int(15)));
        proof {
            assert(shape_wf(rot, materials@.len() as int));
        }
        let wrapped = Shapes::Translate(Translate::new(Box::new(rot), v3i(-100, 270, 395)));
        proof {
            assert(shape_wf(wrapped, materials@.len() as int));
        }
        add_shape(&mut world, &materials, wrapped);
        k = k + 1;
    }

    let bvh_node = BvhNode::new_from_list(world);
    let cam = Camera::new(
        Fx::one(),
        1000,
        1000,
        40,
        Fx::from_int(40),
        v3i(478, 278, -600),
        v3i(278, 278, 0),
        v3i(0, 1, 0),
        Fx::zero(),
        Fx::from_int(10),
        v3i(0, 0, 0),
    );
    Scene { camera: cam, world: bvh_node, materials }
}

} // verus!
