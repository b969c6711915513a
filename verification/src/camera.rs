//! The camera: per-pixel ray generation, the recursive radiance
//! integrator, and the pixel pipeline that accumulates samples, tone-maps
//! and quantizes.
//!
//! Rows are the unit of work: `render_row` fills one row's bytes, `render`
//! walks the rows in order.  A parallel driver may call `render_row` for
//! each row itself — the scene is read-only during rendering — and hand the
//! clock readings of finished rows to the progress helpers.

use vstd::prelude::*;

use crate::bvh::{lemma_tree_hit_mat, spec_tree_hit, tree_wf, BvhNode};
use crate::color::{linear_to_gamma, spec_linear_to_gamma};
use crate::fixed::{fxadd, fxdiv, fxmul, Fx, SCALE};
use crate::hittables::HitRecord;
use crate::material::{
    lemma_material_nonneg, material_nonneg, material_wf, spec_attenuation, spec_black,
    spec_emitted, Material,
};
use crate::ray::Ray;
use crate::shapes::{shape_wf, Shapes};
use crate::trig::{spec_tan, tan_fx};
use crate::utils::{degrees_to_radians, random_double, spec_degrees_to_radians, Interval};
use crate::vec3::{
    lemma_vadd_nonneg, lemma_vmul_nonneg, spec_cross, spec_unit, spec_vadd, spec_vdiv_scalar,
    spec_vmul, spec_vneg, spec_vscale, spec_vsub, vec_nonneg, Vec3,
};

verus! {

pub struct Camera {
    pub image_width: i32,
    pub image_height: i32,
    pub camera_center: Vec3,
    /// Location of pixel (0, 0).
    pub pixel00_loc: Vec3,
    /// Offset to the pixel to the right.
    pub pixel_delta_u: Vec3,
    /// Offset to the pixel below.
    pub pixel_delta_v: Vec3,
    /// Count of random samples for each pixel.
    pub samples_per_pixel: i32,
    /// Colour scale factor for a sum of pixel samples.
    pub pixel_samples_scale: Fx,
    /// Maximum number of ray bounces into the scene.
    pub max_depth: i32,
    /// Variation angle of rays through each pixel.
    pub defocus_angle: Fx,
    /// Defocus disk horizontal radius.
    pub defocus_disk_u: Vec3,
    /// Defocus disk vertical radius.
    pub defocus_disk_v: Vec3,
    pub background: Vec3,
}

/// The whole scene is consistent with a material arena of `mats` entries.
pub open spec fn world_wf(world: BvhNode, mats: Seq<Material>) -> bool {
    &&& tree_wf(world.root, world.objects@.len() as int)
    &&& forall|i: int|
        0 <= i < world.objects@.len() ==> shape_wf(#[trigger] world.objects@[i], mats.len() as int)
    &&& forall|i: int| 0 <= i < mats.len() ==> material_wf(#[trigger] mats[i])
}

/// Every colour the arena can produce is nonnegative.
pub open spec fn mats_nonneg(mats: Seq<Material>) -> bool {
    forall|i: int| 0 <= i < mats.len() ==> material_nonneg(#[trigger] mats[i])
}

/// The camera derived from its configuration: the viewport from the field
/// of view and focus distance, the basis from the look direction and up
/// vector, the pixel grid from the viewport, and the defocus disk from the
/// defocus angle.
pub open spec fn spec_camera_new(
    aspect_ratio: int,
    image_width: i32,
    samples_per_pixel: i32,
    max_depth: i32,
    vertical_fov: int,
    look_from: Vec3,
    look_at: Vec3,
    vup: Vec3,
    defocus_angle: int,
    focus_dist: int,
    background: Vec3,
) -> Camera {
    let height_raw = fxdiv(crate::fixed::clip((image_width as int) * (SCALE as int)), aspect_ratio)
        / (SCALE as int);
    let image_height = if height_raw < 1 {
        1
    } else if height_raw > 0x7FFF_FFFF {
        0x7FFF_FFFFint
    } else {
        height_raw
    };
    let theta = spec_degrees_to_radians(vertical_fov);
    let h = spec_tan(fxdiv(theta, 2 * SCALE));
    let viewport_height = fxmul(fxmul(2 * SCALE, h), focus_dist);
    let viewport_width = fxdiv(
        fxmul(viewport_height, crate::fixed::clip((image_width as int) * (SCALE as int))),
        crate::fixed::clip(image_height * (SCALE as int)),
    );
    let camera_center = look_from;
    let w = spec_unit(spec_vsub(look_from, look_at));
    let u = spec_unit(spec_cross(vup, w));
    let v = spec_cross(w, u);
    let viewport_u = spec_vscale(u, viewport_width);
    let viewport_v = spec_vscale(spec_vneg(v), viewport_height);
    let pixel_delta_u = spec_vdiv_scalar(
        viewport_u,
        crate::fixed::clip((image_width as int) * (SCALE as int)),
    );
    let pixel_delta_v = spec_vdiv_scalar(
        viewport_v,
        crate::fixed::clip(image_height * (SCALE as int)),
    );
    let viewport_upper_left = spec_vsub(
        spec_vsub(
            spec_vsub(camera_center, spec_vscale(w, focus_dist)),
            spec_vdiv_scalar(viewport_u, 2 * SCALE),
        ),
        spec_vdiv_scalar(viewport_v, 2 * SCALE),
    );
    let pixel00_loc = spec_vadd(
        viewport_upper_left,
        spec_vscale(spec_vadd(pixel_delta_u, pixel_delta_v), SCALE / 2),
    );
    let defocus_radius = fxmul(
        focus_dist,
        spec_tan(spec_degrees_to_radians(fxdiv(defocus_angle, 2 * SCALE))),
    );
    let defocus_disk_u = spec_vscale(u, defocus_radius);
    let defocus_disk_v = spec_vscale(v, defocus_radius);
    let pixel_samples_scale = fxdiv(
        SCALE as int,
        crate::fixed::clip((samples_per_pixel as int) * (SCALE as int)),
    );
    Camera {
        image_width,
        image_height: image_height as i32,
        camera_center,
        pixel00_loc,
        pixel_delta_u,
        pixel_delta_v,
        samples_per_pixel,
        pixel_samples_scale: Fx { bits: pixel_samples_scale as i64 },
        max_depth,
        defocus_angle: Fx { bits: defocus_angle as i64 },
        defocus_disk_u,
        defocus_disk_v,
        background,
    }
}

/// The pixel-grid point sampled for pixel `(i, j)` with jitter `(ox, oy)`.
pub open spec fn spec_pixel_sample(cam: Camera, i: int, j: int, ox: int, oy: int) -> Vec3 {
    spec_vadd(
        spec_vadd(
            cam.pixel00_loc,
            spec_vscale(
                cam.pixel_delta_u,
                fxadd(crate::fixed::clip(i * (SCALE as int)), ox),
            ),
        ),
        spec_vscale(cam.pixel_delta_v, fxadd(crate::fixed::clip(j * (SCALE as int)), oy)),
    )
}

/// The lower parameter bound of every radiance query, about one
/// thousandth on the grid: hits closer than this are ignored so a
/// scattered ray does not re-hit its own surface through rounding.
pub open spec fn spec_shadow_eps() -> int {
    crate::fixed::fxdiv(SCALE as int, 1000 * SCALE)
}

/// The nearest scene hit a radiance query sees.
pub open spec fn spec_primary_hit(world: BvhNode, r: Ray) -> Option<HitRecord> {
    spec_tree_hit(world.root, world.objects@, r, spec_shadow_eps(), i64::MAX as int)
}

/// The shape of the radiance returned for a ray that hit the scene: a
/// light's emission stands alone; any other material contributes its
/// emission plus its attenuation applied to some bounced radiance, which is
/// black once the budget is spent and nonnegative whenever the scene is.
pub open spec fn spec_radiance_shape(
    res: Vec3,
    m: Material,
    h: HitRecord,
    depth: int,
    scene_nonneg: bool,
) -> bool {
    if m is DiffuseLight {
        res == spec_emitted(m, h.u.bits as int, h.v.bits as int, h.p)
    } else {
        exists|b: Vec3|
            res == spec_vadd(
                spec_emitted(m, h.u.bits as int, h.v.bits as int, h.p),
                #[trigger] spec_vmul(spec_attenuation(m, h), b),
            ) && (depth == 1 ==> b == spec_black()) && (scene_nonneg ==> vec_nonneg(b))
    }
}

/// One channel quantized: scaled by the sample average, taken to gamma
/// space, clamped to `[0, 0.999]`, and truncated to the byte range.
pub open spec fn spec_quantize(scale: int, c: int) -> int {
    let scaled = fxmul(scale, c);
    let g = spec_linear_to_gamma(scaled);
    let clamped = if g < 0 {
        0
    } else if g > 65470 {
        65470
    } else {
        g
    };
    fxmul(256 * SCALE, clamped) / (SCALE as int)
}

/// The three bytes one colour quantizes to.
pub open spec fn spec_quantized_bytes(scale: int, c: Vec3) -> (int, int, int) {
    (
        spec_quantize(scale, c.x.bits as int),
        spec_quantize(scale, c.y.bits as int),
        spec_quantize(scale, c.z.bits as int),
    )
}

/// The three bytes of pixel `i` in a row-major byte sequence.
pub open spec fn spec_pixel_bytes(bytes: Seq<u8>, i: int) -> (int, int, int) {
    (bytes[3 * i] as int, bytes[3 * i + 1] as int, bytes[3 * i + 2] as int)
}

/// The radiance accumulated from `n` samples that all returned `v`: the
/// left fold the sampling loop computes.
pub open spec fn spec_accum(v: Vec3, n: int) -> Vec3
    decreases n,
{
    if n <= 0 {
        spec_black()
    } else {
        spec_vadd(spec_accum(v, n - 1), v)
    }
}

/// The row-major byte span is the quantization of the given per-pixel
/// colours.
pub open spec fn spec_bytes_quantize_colors(bytes: Seq<u8>, cs: Seq<Vec3>, scale: int) -> bool {
    forall|i: int|
        #![trigger spec_pixel_bytes(bytes, i)]
        0 <= i < cs.len() ==> spec_pixel_bytes(bytes, i) == spec_quantized_bytes(scale, cs[i])
}

/// Every colour of the sequence is nonnegative component-wise.
pub open spec fn spec_colors_nonneg(cs: Seq<Vec3>) -> bool {
    forall|i: int| 0 <= i < cs.len() ==> vec_nonneg(#[trigger] cs[i])
}

/// Every candidate pinhole ray of pixel `(i, j)` misses the scene: for
/// every jitter the sampler can draw, the primary query returns nothing.
pub open spec fn spec_pixel_misses(cam: Camera, world: BvhNode, i: int, j: int) -> bool {
    forall|ox: int, oy: int|
        -32768 <= ox < 32768 && -32768 <= oy < 32768 ==> spec_primary_hit(
            world,
            Ray {
                origin: cam.camera_center,
                direction: spec_vsub(
                    #[trigger] spec_pixel_sample(cam, i, j, ox, oy),
                    cam.camera_center,
                ),
            },
        ) is None
}

impl Camera {
    /// The radiance carried back along a ray: black once the bounce budget
    /// is spent; the background where nothing is hit; the emission alone
    /// where the surface is a light (which never scatters); and otherwise
    /// the emission plus the scattered ray's radiance scaled by the
    /// material's attenuation.  With a nonnegative scene and background, no
    /// channel is ever negative.
    pub fn ray_color(r: Ray, depth: i32, world: &BvhNode, materials: &Vec<Material>, background: Vec3)
        -> (res: Vec3)
        requires
            world_wf(*world, materials@),
        ensures
            depth <= 0 ==> res == spec_black(),
            mats_nonneg(materials@) && vec_nonneg(background) ==> vec_nonneg(res),
            depth > 0 && spec_primary_hit(*world, r) is None ==> res == background,
            depth > 0 ==> (spec_primary_hit(*world, r) matches Some(h) ==> spec_radiance_shape(
                res,
                materials@[h.mat as int],
                h,
                depth as int,
                mats_nonneg(materials@) && vec_nonneg(background),
            )),
        decreases depth,
    {
        if depth <= 0 {
            return Vec3::new(Fx::zero(), Fx::zero(), Fx::zero());
        }
        let eps = Fx::from_ratio(1, 1000);
        let infinity = Fx { bits: i64::MAX };
        proof {
            assert(eps.bits == spec_shadow_eps());
        }
        let hit = world.hit(r, Interval::new(eps, infinity));
        proof {
            assert(hit == spec_primary_hit(*world, r));
        }
        match hit {
            None => background,
            Some(temp_rec) => {
                proof {
                    lemma_tree_hit_mat(
                        world.root,
                        world.objects@,
                        r,
                        eps.bits as int,
                        infinity.bits as int,
                        materials@.len() as int,
                    );
                }
                let material = &materials[temp_rec.mat];
                let color_from_emission = material.emitted(temp_rec.u, temp_rec.v, temp_rec.p);
                let scat = material.scatter(&r, &temp_rec);
                proof {
                    if mats_nonneg(materials@) {
                        lemma_material_nonneg(
                            materials@[temp_rec.mat as int],
                            temp_rec.u.bits as int,
                            temp_rec.v.bits as int,
                            temp_rec.p,
                            temp_rec,
                        );
                    }
                }
                match scat {
                    None => color_from_emission,
                    Some((scattered, attenuation)) => {
                        match scattered {
                            Some(scattered_ray) => {
                                let bounced = Camera::ray_color(
                                    scattered_ray,
                                    depth - 1,
                                    world,
                                    materials,
                                    background,
                                );
                                let color_from_scatter = attenuation.mul(bounced);
                                let res = color_from_emission.add(color_from_scatter);
                                proof {
                                    if mats_nonneg(materials@) && vec_nonneg(background) {
                                        lemma_vmul_nonneg(attenuation, bounced);
                                        lemma_vadd_nonneg(color_from_emission, color_from_scatter);
                                    }
                                    let m = materials@[temp_rec.mat as int];
                                    assert(res == spec_vadd(
                                        spec_emitted(
                                            m,
                                            temp_rec.u.bits as int,
                                            temp_rec.v.bits as int,
                                            temp_rec.p,
                                        ),
                                        spec_vmul(spec_attenuation(m, temp_rec), bounced),
                                    ));
                                }
                                res
                            },
                            None => {
                                proof {
                                    assert(false);
                                }
                                color_from_emission
                            },
                        }
                    },
                }
            },
        }
    }

    /// One row of the image: each pixel's bytes quantize the colour its
    /// samples accumulated (nonnegative whenever the scene is), and a
    /// pinhole pixel whose every candidate ray misses the scene quantizes
    /// the accumulated background.
    pub fn render_row(&self, world: &BvhNode, materials: &Vec<Material>, j: i32) -> (row: Vec<u8>)
        requires
            world_wf(*world, materials@),
            0 <= self.image_width,
        ensures
            row@.len() == 3 * self.image_width,
            exists|cs: Seq<Vec3>|
                cs.len() == self.image_width && #[trigger] spec_bytes_quantize_colors(
                    row@,
                    cs,
                    self.pixel_samples_scale.bits as int,
                ) && (mats_nonneg(materials@) && vec_nonneg(self.background)
                    ==> spec_colors_nonneg(cs)),
            self.defocus_angle.bits <= 0 && self.max_depth >= 1 ==> forall|i: int|
                0 <= i < self.image_width && spec_pixel_misses(*self, *world, i, j as int)
                    ==> (#[trigger] spec_pixel_bytes(row@, i)) == spec_quantized_bytes(
                    self.pixel_samples_scale.bits as int,
                    spec_accum(self.background, self.samples_per_pixel as int),
                ),
    {
        let mut row: Vec<u8> = Vec::new();
        let mut i: i32 = 0;
        let ghost mut colors: Seq<Vec3> = Seq::empty();
        while i < self.image_width
            invariant
                0 <= i <= self.image_width,
                row@.len() == 3 * i,
                world_wf(*world, materials@),
                colors.len() == i,
                spec_bytes_quantize_colors(row@, colors, self.pixel_samples_scale.bits as int),
                mats_nonneg(materials@) && vec_nonneg(self.background) ==> spec_colors_nonneg(
                    colors,
                ),
                self.defocus_angle.bits <= 0 && self.max_depth >= 1 ==> forall|k: int|
                    0 <= k < i && spec_pixel_misses(*self, *world, k, j as int)
                        ==> (#[trigger] spec_pixel_bytes(row@, k)) == spec_quantized_bytes(
                        self.pixel_samples_scale.bits as int,
                        spec_accum(self.background, self.samples_per_pixel as int),
                    ),
            decreases self.image_width - i,
        {
            let ghost row0 = row@;
            let mut pixel_color = Vec3::new(Fx::zero(), Fx::zero(), Fx::zero());
            let mut sample: i32 = 0;
            while sample < self.samples_per_pixel
                invariant
                    0 <= sample,
                    self.samples_per_pixel >= 0 ==> sample <= self.samples_per_pixel,
                    self.samples_per_pixel <= 0 ==> sample == 0,
                    world_wf(*world, materials@),
                    mats_nonneg(materials@) && vec_nonneg(self.background) ==> vec_nonneg(
                        pixel_color,
                    ),
                    self.defocus_angle.bits <= 0 && self.max_depth >= 1 && spec_pixel_misses(
                        *self,
                        *world,
                        i as int,
                        j as int,
                    ) ==> pixel_color == spec_accum(self.background, sample as int),
                decreases self.samples_per_pixel - sample,
            {
                let r = self.get_ray(i, j);
                let sampled = Camera::ray_color(r, self.max_depth, world, materials, self.background);
                proof {
                    if self.defocus_angle.bits <= 0 && self.max_depth >= 1 && spec_pixel_misses(
                        *self,
                        *world,
                        i as int,
                        j as int,
                    ) {
                        let (ox, oy) = choose|ox: int, oy: int|
                            #![trigger spec_pixel_sample(*self, i as int, j as int, ox, oy)]
                            -32768 <= ox < 32768 && -32768 <= oy < 32768 && r.direction
                                == spec_vsub(
                                spec_pixel_sample(*self, i as int, j as int, ox, oy),
                                r.origin,
                            );
                        assert(spec_primary_hit(*world, r) is None);
                        assert(sampled == self.background);
                    }
                    if mats_nonneg(materials@) && vec_nonneg(self.background) {
                        lemma_vadd_nonneg(pixel_color, sampled);
                    }
                }
                pixel_color = pixel_color.add(sampled);
                sample = sample + 1;
            }
            proof {
                if self.defocus_angle.bits <= 0 && self.max_depth >= 1 && spec_pixel_misses(
                    *self,
                    *world,
                    i as int,
                    j as int,
                ) {
                    if self.samples_per_pixel <= 0 {
                        assert(spec_accum(self.background, self.samples_per_pixel as int)
                            == spec_black());
                        assert(pixel_color == spec_accum(self.background, 0));
                    }
                    assert(pixel_color == spec_accum(
                        self.background,
                        self.samples_per_pixel as int,
                    ));
                }
            }
            let (ir, ig, ib) = self.quantize(pixel_color);
            let ghost scale = self.pixel_samples_scale.bits as int;
            let ghost scene_ok = mats_nonneg(materials@) && vec_nonneg(self.background);
            row.push(ir);
            row.push(ig);
            row.push(ib);
            proof {
                let prev = colors;
                colors = colors.push(pixel_color);
                assert(row@ =~= row0.push(ir).push(ig).push(ib));
                assert(spec_pixel_bytes(row@, i as int) == spec_quantized_bytes(
                    scale,
                    pixel_color,
                ));
                assert forall|k: int| 0 <= k < i implies spec_pixel_bytes(row@, k)
                    == spec_pixel_bytes(row0, k) && colors[k] == prev[k] by {
                    assert(row@[3 * k] == row0[3 * k]);
                    assert(row@[3 * k + 1] == row0[3 * k + 1]);
                    assert(row@[3 * k + 2] == row0[3 * k + 2]);
                }
                assert forall|k: int|
                    #![trigger spec_pixel_bytes(row@, k)]
                    0 <= k < colors.len() implies spec_pixel_bytes(row@, k)
                    == spec_quantized_bytes(scale, colors[k]) by {
                    if k < i {
                        assert(spec_pixel_bytes(row0, k) == spec_quantized_bytes(scale, prev[k]));
                    }
                }
                assert(spec_bytes_quantize_colors(row@, colors, scale));
                if mats_nonneg(materials@) && vec_nonneg(self.background) {
                    assert forall|k: int| 0 <= k < colors.len() implies vec_nonneg(
                        #[trigger] colors[k],
                    ) by {
                        if k < i {
                            assert(vec_nonneg(prev[k]));
                        }
                    }
                }
                if self.defocus_angle.bits <= 0 && self.max_depth >= 1 {
                    assert forall|k: int|
                        0 <= k < i + 1 && spec_pixel_misses(*self, *world, k, j as int)
                            implies (#[trigger] spec_pixel_bytes(row@, k)) == spec_quantized_bytes(
                        scale,
                        spec_accum(self.background, self.samples_per_pixel as int),
                    ) by {
                        if k == i as int {
                            assert(pixel_color == spec_accum(
                                self.background,
                                self.samples_per_pixel as int,
                            ));
                        } else {
                            assert(spec_pixel_bytes(row@, k) == spec_pixel_bytes(row0, k));
                        }
                    }
                }
            }
            i = i + 1;
        }
        proof {
            assert(colors.len() == self.image_width && spec_bytes_quantize_colors(
                row@,
                colors,
                self.pixel_samples_scale.bits as int,
            ) && (mats_nonneg(materials@) && vec_nonneg(self.background) ==> spec_colors_nonneg(
                colors,
            )));
        }
        row
    }

    /// The whole image, row-major RGB bytes, rows from the top: every pixel
    /// quantizes the colour its samples accumulated (nonnegative whenever
    /// the scene is), and a pinhole pixel whose every candidate ray misses
    /// the scene quantizes the accumulated background.
    pub fn render(&self, world: &BvhNode, materials: &Vec<Material>) -> (pixels: Vec<u8>)
        requires
            world_wf(*world, materials@),
            0 <= self.image_width,
            0 <= self.image_height,
        ensures
            pixels@.len() == 3 * self.image_width * self.image_height,
            exists|cs: Seq<Vec3>|
                cs.len() == self.image_width * self.image_height
                    && #[trigger] spec_bytes_quantize_colors(
                    pixels@,
                    cs,
                    self.pixel_samples_scale.bits as int,
                ) && (mats_nonneg(materials@) && vec_nonneg(self.background)
                    ==> spec_colors_nonneg(cs)),
            self.defocus_angle.bits <= 0 && self.max_depth >= 1 ==> forall|i: int, jj: int|
                0 <= i < self.image_width && 0 <= jj < self.image_height && #[trigger] spec_pixel_misses(
                    *self,
                    *world,
                    i,
                    jj,
                ) ==> spec_pixel_bytes(pixels@, jj * self.image_width + i) == spec_quantized_bytes(
                    self.pixel_samples_scale.bits as int,
                    spec_accum(self.background, self.samples_per_pixel as int),
                ),
    {
        let mut pixels: Vec<u8> = Vec::new();
        let mut j: i32 = 0;
        let ghost scale = self.pixel_samples_scale.bits as int;
        let ghost scene_ok = mats_nonneg(materials@) && vec_nonneg(self.background);
        let ghost mut all_colors: Seq<Vec3> = Seq::empty();
        let ghost w = self.image_width as int;
        proof {
            assert(3 * self.image_width * 0 == 0) by (nonlinear_arith);
            assert(w * 0 == 0) by (nonlinear_arith);
        }
        while j < self.image_height
            invariant
                0 <= j <= self.image_height,
                0 <= self.image_width,
                w == self.image_width as int,
                scale == self.pixel_samples_scale.bits as int,
                scene_ok == (mats_nonneg(materials@) && vec_nonneg(self.background)),
                pixels@.len() == 3 * self.image_width * j,
                all_colors.len() == w * j,
                world_wf(*world, materials@),
                spec_bytes_quantize_colors(pixels@, all_colors, scale),
                scene_ok ==> spec_colors_nonneg(all_colors),
                self.defocus_angle.bits <= 0 && self.max_depth >= 1 ==> forall|i: int, jj: int|
                    0 <= i < w && 0 <= jj < j && #[trigger] spec_pixel_misses(*self, *world, i, jj)
                        ==> spec_pixel_bytes(pixels@, jj * w + i) == spec_quantized_bytes(
                        scale,
                        spec_accum(self.background, self.samples_per_pixel as int),
                    ),
            decreases self.image_height - j,
        {
            let ghost pixels0 = pixels@;
            let ghost colors0 = all_colors;
            let mut row = self.render_row(world, materials, j);
            let ghost rowseq = row@;
            proof {
                let cs = choose|cs: Seq<Vec3>|
                    cs.len() == self.image_width && #[trigger] spec_bytes_quantize_colors(
                        rowseq,
                        cs,
                        scale,
                    ) && (scene_ok ==> spec_colors_nonneg(cs));
                all_colors = all_colors + cs;
            }
            pixels.append(&mut row);
            proof {
                let cs = all_colors.subrange(w * j, all_colors.len() as int);
                assert(cs =~= all_colors.subrange(w * j, w * j + w));
                assert(3 * self.image_width * (j + 1) == 3 * self.image_width * j + 3
                    * self.image_width) by (nonlinear_arith);
                assert(w * (j + 1) == w * j + w) by (nonlinear_arith);
                assert(pixels@ =~= pixels0 + rowseq);
                assert forall|k: int|
                    #![trigger spec_pixel_bytes(pixels@, k)]
                    0 <= k < all_colors.len() implies spec_pixel_bytes(pixels@, k)
                    == spec_quantized_bytes(scale, all_colors[k]) by {
                    if k < w * j {
                        assert(3 * k + 2 < pixels0.len()) by (nonlinear_arith)
                            requires
                                0 <= k,
                                k < w * j,
                                w == self.image_width as int,
                                pixels0.len() == 3 * self.image_width * j,
                        ;
                        assert(pixels@[3 * k] == pixels0[3 * k]);
                        assert(pixels@[3 * k + 1] == pixels0[3 * k + 1]);
                        assert(pixels@[3 * k + 2] == pixels0[3 * k + 2]);
                        assert(spec_pixel_bytes(pixels0, k) == spec_quantized_bytes(
                            scale,
                            colors0[k],
                        ));
                    } else {
                        let m = k - w * j;
                        assert(0 <= m < w);
                        assert(3 * k == pixels0.len() + 3 * m) by (nonlinear_arith)
                            requires
                                k == w * j + m,
                                w == self.image_width as int,
                                pixels0.len() == 3 * self.image_width * j,
                        ;
                        assert(pixels@[3 * k] == rowseq[3 * m]);
                        assert(pixels@[3 * k + 1] == rowseq[3 * m + 1]);
                        assert(pixels@[3 * k + 2] == rowseq[3 * m + 2]);
                        assert(spec_pixel_bytes(rowseq, m) == spec_quantized_bytes(
                            scale,
                            all_colors[k],
                        ));
                        assert(spec_pixel_bytes(pixels@, k) == spec_pixel_bytes(rowseq, m));
                    }
                }
                if scene_ok {
                    assert forall|k: int| 0 <= k < all_colors.len() implies vec_nonneg(
                        #[trigger] all_colors[k],
                    ) by {
                        if k >= w * j {
                            let m = k - w * j;
                            assert(all_colors[k] == all_colors.subrange(
                                w * j,
                                all_colors.len() as int,
                            )[m]);
                        }
                    }
                }
                if self.defocus_angle.bits <= 0 && self.max_depth >= 1 {
                    assert forall|i: int, jj: int|
                        0 <= i < w && 0 <= jj < j + 1 && #[trigger] spec_pixel_misses(
                            *self,
                            *world,
                            i,
                            jj,
                        ) implies spec_pixel_bytes(pixels@, jj * w + i) == spec_quantized_bytes(
                        scale,
                        spec_accum(self.background, self.samples_per_pixel as int),
                    ) by {
                        let k = jj * w + i;
                        assert(0 <= k && k < w * (j + 1)) by (nonlinear_arith)
                            requires
                                0 <= i < w,
                                0 <= jj < j + 1,
                                k == jj * w + i,
                        ;
                        if jj < j {
                            assert(k < w * j) by (nonlinear_arith)
                                requires
                                    0 <= i < w,
                                    0 <= jj,
                                    jj + 1 <= j,
                                    k == jj * w + i,
                            ;
                            assert(3 * k + 2 < pixels0.len()) by (nonlinear_arith)
                                requires
                                    0 <= k,
                                    k < w * j,
                                    w == self.image_width as int,
                                    pixels0.len() == 3 * self.image_width * j,
                            ;
                            assert(pixels@[3 * k] == pixels0[3 * k]);
                            assert(pixels@[3 * k + 1] == pixels0[3 * k + 1]);
                            assert(pixels@[3 * k + 2] == pixels0[3 * k + 2]);
                            assert(spec_pixel_bytes(pixels0, k) == spec_quantized_bytes(
                                scale,
                                spec_accum(self.background, self.samples_per_pixel as int),
                            ));
                            assert(spec_pixel_bytes(pixels@, k) == spec_pixel_bytes(pixels0, k));
                        } else {
                            assert(jj == j);
                            let m = i;
                            assert(k == w * j + m) by (nonlinear_arith)
                                requires
                                    jj == j,
                                    k == jj * w + i,
                                    m == i,
                            ;
                            assert(3 * k == pixels0.len() + 3 * m) by (nonlinear_arith)
                                requires
                                    k == w * j + m,
                                    w == self.image_width as int,
                                    pixels0.len() == 3 * self.image_width * j,
                            ;
                            assert(pixels@[3 * k] == rowseq[3 * m]);
                            assert(pixels@[3 * k + 1] == rowseq[3 * m + 1]);
                            assert(pixels@[3 * k + 2] == rowseq[3 * m + 2]);
                            assert(spec_pixel_bytes(rowseq, m) == spec_quantized_bytes(
                                scale,
                                spec_accum(self.background, self.samples_per_pixel as int),
                            ));
                            assert(spec_pixel_bytes(pixels@, k) == spec_pixel_bytes(rowseq, m));
                        }
                    }
                }
            }
            j = j + 1;
        }
        proof {
            assert(all_colors.len() == self.image_width * self.image_height) by (nonlinear_arith)
                requires
                    all_colors.len() == w * j,
                    w == self.image_width as int,
                    j == self.image_height,
            ;
            assert(all_colors.len() == self.image_width * self.image_height
                && spec_bytes_quantize_colors(pixels@, all_colors, scale) && (scene_ok
                ==> spec_colors_nonneg(all_colors)));
        }
        pixels
    }

    /// A sampled color scaled to the per-sample average and quantized to
    /// bytes.
    fn quantize(&self, color: Vec3) -> (rgb: (u8, u8, u8))
        ensures
            rgb.0 as int == spec_quantize(self.pixel_samples_scale.bits as int, color.x.bits as int),
            rgb.1 as int == spec_quantize(self.pixel_samples_scale.bits as int, color.y.bits as int),
            rgb.2 as int == spec_quantize(self.pixel_samples_scale.bits as int, color.z.bits as int),
    {
        (
            quantize_channel(self.pixel_samples_scale, color.x),
            quantize_channel(self.pixel_samples_scale, color.y),
            quantize_channel(self.pixel_samples_scale, color.z),
        )
    }

    /// A camera ray through pixel `(i, j)`, jittered inside the pixel; the
    /// origin is the camera's center, or a defocus-disk point when the
    /// defocus angle is positive.
    pub fn get_ray(&self, i: i32, j: i32) -> (r: Ray)
        ensures
            self.defocus_angle.bits <= 0 ==> r.origin == self.camera_center,
            self.defocus_angle.bits > 0 ==> exists|d: Vec3|
                crate::vec3::spec_len_sq(d) < SCALE && r.origin == spec_vadd(
                    spec_vadd(
                        self.camera_center,
                        #[trigger] spec_vscale(self.defocus_disk_u, d.x.bits as int),
                    ),
                    spec_vscale(self.defocus_disk_v, d.y.bits as int),
                ),
            exists|ox: int, oy: int|
                #![trigger spec_pixel_sample(*self, i as int, j as int, ox, oy)]
                -32768 <= ox < 32768 && -32768 <= oy < 32768 && r.direction == spec_vsub(
                    spec_pixel_sample(*self, i as int, j as int, ox, oy),
                    r.origin,
                ),
    {
        let offset = self.sample_square();
        let iw = Fx::from_int(i as i64);
        let jw = Fx::from_int(j as i64);
        let pixel_sample = self.pixel00_loc.add(
            self.pixel_delta_u.scale(iw.add(offset.x)),
        ).add(self.pixel_delta_v.scale(jw.add(offset.y)));
        let ray_origin = if self.defocus_angle.bits <= 0 {
            self.camera_center
        } else {
            self.defocus_disk_sample()
        };
        let ray_direction = pixel_sample.sub(ray_origin);
        let r = Ray::new(ray_origin, ray_direction);
        proof {
            let ox = offset.x.bits as int;
            let oy = offset.y.bits as int;
            assert(crate::fixed::clip((i as int) * (SCALE as int)) == iw.bits as int);
            assert(pixel_sample == spec_pixel_sample(*self, i as int, j as int, ox, oy));
        }
        r
    }

    /// A random point on the camera's defocus disk.
    fn defocus_disk_sample(&self) -> (p: Vec3)
        ensures
            exists|d: Vec3|
                crate::vec3::spec_len_sq(d) < SCALE && p == spec_vadd(
                    spec_vadd(
                        self.camera_center,
                        spec_vscale(self.defocus_disk_u, d.x.bits as int),
                    ),
                    spec_vscale(self.defocus_disk_v, d.y.bits as int),
                ),
    {
        let p = Vec3::random_in_unit_disk();
        let res = self.camera_center.add(self.defocus_disk_u.scale(p.x)).add(
            self.defocus_disk_v.scale(p.y),
        );
        proof {
            assert(crate::vec3::spec_len_sq(p) < SCALE && res == spec_vadd(
                spec_vadd(self.camera_center, spec_vscale(self.defocus_disk_u, p.x.bits as int)),
                spec_vscale(self.defocus_disk_v, p.y.bits as int),
            ));
        }
        res
    }

    /// A uniform jitter in the half-open unit square centred at the
    /// origin, in the grid plane.
    fn sample_square(&self) -> (v: Vec3)
        ensures
            -32768 <= v.x.bits < 32768,
            -32768 <= v.y.bits < 32768,
            v.z.bits == 0,
    {
        let half = Fx { bits: SCALE / 2 };
        Vec3::new(
            random_double().sub(half),
            random_double().sub(half),
            Fx::zero(),
        )
    }

    /// A camera from its configuration.  The image height follows from the
    /// width and aspect ratio, with a floor of one row.
    #[verifier::rlimit(60)]
    pub fn new(
        aspect_ratio: Fx,
        image_width: i32,
        samples_per_pixel: i32,
        max_depth: i32,
        vertical_fov: Fx,
        look_from: Vec3,
        look_at: Vec3,
        vup: Vec3,
        defocus_angle: Fx,
        focus_dist: Fx,
        background: Vec3,
    ) -> (cam: Camera)
        requires
            0 <= image_width,
        ensures
            cam == spec_camera_new(
                aspect_ratio.bits as int,
                image_width,
                samples_per_pixel,
                max_depth,
                vertical_fov.bits as int,
                look_from,
                look_at,
                vup,
                defocus_angle.bits as int,
                focus_dist.bits as int,
                background,
            ),
            0 <= cam.image_width,
            1 <= cam.image_height,
            cam.samples_per_pixel == samples_per_pixel,
            cam.max_depth == max_depth,
            cam.background == background,
    {
        let wfx = Fx::from_int(image_width as i64);
        let height_raw: i64 = wfx.div(aspect_ratio).floor_units();
        let image_height: i64 = if height_raw < 1 {
            1
        } else if height_raw > 0x7FFF_FFFF {
            0x7FFF_FFFF
        } else {
            height_raw
        };
        let hfx = Fx::from_int(image_height);
        let theta = degrees_to_radians(vertical_fov);
        let two = Fx::from_int(2);
        let h = tan_fx(theta.div(two));
        let viewport_height = two.mul(h).mul(focus_dist);
        let viewport_width = viewport_height.mul(wfx).div(hfx);
        let camera_center = look_from;
        let w = Vec3::unit_vector(look_from.sub(look_at));
        let u = Vec3::unit_vector(vup.cross(&w));
        let v = w.cross(&u);
        let viewport_u = u.scale(viewport_width);
        let viewport_v = v.neg().scale(viewport_height);
        let pixel_delta_u = viewport_u.div_scalar(wfx);
        let pixel_delta_v = viewport_v.div_scalar(hfx);
        let viewport_upper_left = camera_center.sub(w.scale(focus_dist)).sub(
            viewport_u.div_scalar(two),
        ).sub(viewport_v.div_scalar(two));
        let half = Fx { bits: SCALE / 2 };
        let pixel00_loc = viewport_upper_left.add(pixel_delta_u.add(pixel_delta_v).scale(half));
        let defocus_radius = focus_dist.mul(tan_fx(degrees_to_radians(defocus_angle.div(two))));
        let defocus_disk_u = u.scale(defocus_radius);
        let defocus_disk_v = v.scale(defocus_radius);
        let pixel_samples_scale = Fx::one().div(Fx::from_int(samples_per_pixel as i64));
        Camera {
            image_width,
            image_height: image_height as i32,
            camera_center,
            pixel00_loc,
            pixel_delta_u,
            pixel_delta_v,
            samples_per_pixel,
            pixel_samples_scale,
            max_depth,
            defocus_angle,
            defocus_disk_u,
            defocus_disk_v,
            background,
        }
    }
}

/// One channel of the pixel pipeline.
fn quantize_channel(scale: Fx, c: Fx) -> (b: u8)
    ensures
        b as int == spec_quantize(scale.bits as int, c.bits as int),
{
    let scaled = scale.mul(c);
    let g = linear_to_gamma(scaled);
    let intensity = Interval::new(Fx { bits: 0 }, Fx { bits: 65470 });
    let clamped = intensity.clamp(g);
    let wide = Fx::from_int(256).mul(clamped);
    let units: i64 = wide.floor_units();
    proof {
        let cb = clamped.bits as int;
        assert(0 <= cb <= 65470);
        assert(16777216 * cb >= 0) by (nonlinear_arith)
            requires
                cb >= 0,
        ;
        assert(crate::fixed::tdiv(16777216 * cb, SCALE as int) == (16777216 * cb) / (SCALE as int));
        assert((16777216 * cb) / 65536 == 256 * cb) by (nonlinear_arith);
        assert(0 <= (256 * cb) / 65536 < 256) by (nonlinear_arith)
            requires
                0 <= cb <= 65470,
        ;
        assert(0 <= units < 256);
    }
    units as u8
}

} // verus!
