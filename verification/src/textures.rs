//! Spatially varying albedo: a solid colour, a three-dimensional checker of
//! two child textures, or an image sampled by surface coordinates.

use vstd::prelude::*;

use crate::fixed::{abs_int, clip, fxdiv, fxmul, tdiv, Fx, SCALE};
use crate::image::Image;
use crate::vec3::Vec3;

verus! {

pub enum Texture {
    Solid(SolidColor),
    Checker(CheckerTexture),
    Image(ImageTexture),
}

pub struct SolidColor {
    pub albedo: Vec3,
}

pub struct CheckerTexture {
    /// The edge length of one checker cell.
    pub scale: Fx,
    pub even: Box<Texture>,
    pub odd: Box<Texture>,
}

pub struct ImageTexture {
    pub image: Image,
}

impl SolidColor {
    /// The texture that answers `albedo` everywhere.
    pub fn new(albedo: Vec3) -> (r: SolidColor)
        ensures
            r == (SolidColor { albedo }),
    {
        SolidColor { albedo }
    }
}

impl CheckerTexture {
    /// A checker of two child textures with the given cell size.
    pub fn new(inv_scale: Fx, even: Box<Texture>, odd: Box<Texture>) -> (r: CheckerTexture)
        ensures
            r.scale == inv_scale,
            r.even == even,
            r.odd == odd,
    {
        CheckerTexture { scale: inv_scale, even, odd }
    }

    /// A checker of two solid colours with the given cell size.
    pub fn new_from_rgb(inv_scale: Fx, c1: Vec3, c2: Vec3) -> (r: CheckerTexture)
        ensures
            r.scale == inv_scale,
            *r.even == Texture::Solid(SolidColor { albedo: c1 }),
            *r.odd == Texture::Solid(SolidColor { albedo: c2 }),
    {
        let even = Box::new(Texture::Solid(SolidColor::new(c1)));
        let odd = Box::new(Texture::Solid(SolidColor::new(c2)));
        CheckerTexture { scale: inv_scale, even, odd }
    }
}

impl ImageTexture {
    /// A texture sampling a decoded pixel grid.
    pub fn new(image: Image) -> (r: ImageTexture)
        ensures
            r == (ImageTexture { image }),
    {
        ImageTexture { image }
    }
}

/// The cell index of a coordinate: the floor of the coordinate over the
/// cell size, so adjacent cells meet exactly at whole multiples of the
/// size, on either side of zero.
pub open spec fn spec_cell_index(c: int, scale: int) -> int {
    crate::fixed::fxfloor_div(c, scale)
}

/// Whether the point falls on an even cell of the checker: the three cell
/// indices sum to an even number.
pub open spec fn spec_checker_even(p: Vec3, scale: int) -> bool {
    abs_int(
        spec_cell_index(p.x.bits as int, scale) + spec_cell_index(p.y.bits as int, scale)
            + spec_cell_index(p.z.bits as int, scale),
    ) % 2 == 0
}

/// The colour a texture answers at surface coordinates `(u, v)` and point
/// `p`.
pub open spec fn spec_texture_value(t: Texture, u: int, v: int, p: Vec3) -> Vec3
    decreases t,
{
    match t {
        Texture::Solid(s) => s.albedo,
        Texture::Checker(c) => if spec_checker_even(p, c.scale.bits as int) {
            spec_texture_value(*c.even, u, v, p)
        } else {
            spec_texture_value(*c.odd, u, v, p)
        },
        Texture::Image(it) => spec_image_value(&it.image, u, v),
    }
}

/// The colour an image texture answers: `u` clamped, `v` clamped and
/// flipped, scaled to the grid, and the byte channels brought to `[0, 1]`.
/// A coordinate of exactly one lands on the last column or row rather than
/// past it, so the seam samples the border instead of the sentinel.
pub open spec fn spec_image_value(img: &Image, u: int, v: int) -> Vec3 {
    let uc = if u < 0 {
        0
    } else if u > SCALE {
        SCALE as int
    } else {
        u
    };
    let vcc = if v < 0 {
        0
    } else if v > SCALE {
        SCALE as int
    } else {
        v
    };
    let vc = SCALE - vcc;
    let i0 = fxmul(uc, crate::fixed::clip((img.width as int) * (SCALE as int))) / (SCALE as int);
    let j0 = fxmul(vc, crate::fixed::clip((img.height as int) * (SCALE as int))) / (SCALE as int);
    let i = if i0 >= img.width {
        img.width - 1
    } else {
        i0
    };
    let j = if j0 >= img.height {
        img.height - 1
    } else {
        j0
    };
    let pix = img.spec_pixel(i, j);
    let color_scale = fxdiv(SCALE as int, 255 * (SCALE as int));
    Vec3 {
        x: Fx { bits: fxmul(color_scale, crate::fixed::clip((pix.0 as int) * (SCALE as int))) as i64 },
        y: Fx { bits: fxmul(color_scale, crate::fixed::clip((pix.1 as int) * (SCALE as int))) as i64 },
        z: Fx { bits: fxmul(color_scale, crate::fixed::clip((pix.2 as int) * (SCALE as int))) as i64 },
    }
}

/// Every image held by the texture is a consistent grid.
pub open spec fn texture_wf(t: Texture) -> bool
    decreases t,
{
    match t {
        Texture::Solid(_) => true,
        Texture::Checker(c) => texture_wf(*c.even) && texture_wf(*c.odd),
        Texture::Image(it) => it.image.wf(),
    }
}

/// Every colour the texture can answer is nonnegative component-wise.
pub open spec fn tex_nonneg(t: Texture) -> bool
    decreases t,
{
    match t {
        Texture::Solid(s) => crate::vec3::vec_nonneg(s.albedo),
        Texture::Checker(c) => tex_nonneg(*c.even) && tex_nonneg(*c.odd),
        Texture::Image(_) => true,
    }
}

/// A texture whose stored colours are nonnegative answers nonnegative
/// values everywhere: the solid case is its albedo, the checker case is a
/// child's answer, and an image's byte channels scale to nonnegative
/// values.
pub proof fn lemma_texture_value_nonneg(t: Texture, u: int, v: int, p: Vec3)
    requires
        tex_nonneg(t),
    ensures
        crate::vec3::vec_nonneg(spec_texture_value(t, u, v, p)),
    decreases t,
{
    match t {
        Texture::Solid(_) => {
        },
        Texture::Checker(c) => {
            lemma_texture_value_nonneg(*c.even, u, v, p);
            lemma_texture_value_nonneg(*c.odd, u, v, p);
        },
        Texture::Image(it) => {
            let color_scale = fxdiv(SCALE as int, 255 * (SCALE as int));
            assert(color_scale >= 0);
            assert forall|n: int| 0 <= n implies fxmul(
                color_scale,
                #[trigger] clip(n * (SCALE as int)),
            ) >= 0 by {
                assert(n * (SCALE as int) >= 0) by (nonlinear_arith)
                    requires
                        n >= 0,
                ;
                crate::fixed::lemma_fxmul_nonneg(color_scale, clip(n * (SCALE as int)));
            }
        },
    }
}

impl Texture {
    /// The colour this texture answers at `(u, v)` and `p`.
    pub fn value(&self, u: Fx, v: Fx, p: Vec3) -> (r: Vec3)
        requires
            texture_wf(*self),
        ensures
            r == spec_texture_value(*self, u.bits as int, v.bits as int, p),
        decreases *self,
    {
        match self {
            Texture::Solid(s) => s.albedo,
            Texture::Checker(c) => {
                let xi: i64 = p.x.floor_div(c.scale);
                let yi: i64 = p.y.floor_div(c.scale);
                let zi: i64 = p.z.floor_div(c.scale);
                let s: i128 = xi as i128 + yi as i128 + zi as i128;
                let mag: u128 = if s < 0 {
                    (-s) as u128
                } else {
                    s as u128
                };
                let is_even: bool = mag % 2 == 0;
                if is_even {
                    c.even.value(u, v, p)
                } else {
                    c.odd.value(u, v, p)
                }
            },
            Texture::Image(it) => {
                let one = Fx::one();
                let zero = Fx::zero();
                let uc = if u.bits < 0 {
                    zero
                } else if u.bits > one.bits {
                    one
                } else {
                    u
                };
                let vraw = if v.bits < 0 {
                    zero
                } else if v.bits > one.bits {
                    one
                } else {
                    v
                };
                let vc = one.sub(vraw);
                let wfx = Fx::from_int(it.image.width as i64);
                let hfx = Fx::from_int(it.image.height as i64);
                let raw_i: i64 = uc.mul(wfx).floor_units();
                let raw_j: i64 = vc.mul(hfx).floor_units();
                proof {
                    lemma_sample_index_small(uc.bits as int, it.image.width as int, raw_i as int);
                    lemma_sample_index_small(vc.bits as int, it.image.height as int, raw_j as int);
                }
                let i64_i: i64 = if raw_i >= it.image.width as i64 {
                    it.image.width as i64 - 1
                } else {
                    raw_i
                };
                let i64_j: i64 = if raw_j >= it.image.height as i64 {
                    it.image.height as i64 - 1
                } else {
                    raw_j
                };
                let pix = it.image.pixel_data(i64_i as i32, i64_j as i32);
                let color_scale = Fx::from_ratio(1, 255);
                Vec3 {
                    x: color_scale.mul(Fx::from_int(pix.0 as i64)),
                    y: color_scale.mul(Fx::from_int(pix.1 as i64)),
                    z: color_scale.mul(Fx::from_int(pix.2 as i64)),
                }
            },
        }
    }
}

/// A clamped coordinate scaled by an extent stays well inside the 32-bit
/// range, so the sample index survives the narrowing cast.
proof fn lemma_sample_index_small(c: int, extent: int, idx: int)
    requires
        0 <= c <= SCALE,
        0 <= extent < 0x8000_0000,
        idx == fxmul(c, crate::fixed::clip(extent * (SCALE as int))) / (SCALE as int),
    ensures
        0 <= idx <= extent,
        idx == idx as i32,
{
    assert(crate::fixed::clip(extent * (SCALE as int)) == extent * (SCALE as int))
        by (nonlinear_arith)
        requires
            0 <= extent < 0x8000_0000,
    ;
    let eb = extent * (SCALE as int);
    assert(0 <= c * eb <= (SCALE as int) * eb) by (nonlinear_arith)
        requires
            0 <= c <= SCALE as int,
            0 <= eb,
    ;
    assert(tdiv(c * eb, SCALE as int) == (c * eb) / (SCALE as int));
    assert((c * eb) / (SCALE as int) <= eb) by (nonlinear_arith)
        requires
            0 <= c * eb <= (SCALE as int) * eb,
    ;
    assert(clip((c * eb) / (SCALE as int)) == (c * eb) / (SCALE as int));
    assert(idx == ((c * eb) / (SCALE as int)) / (SCALE as int));
    assert(0 <= idx <= extent) by (nonlinear_arith)
        requires
            idx == ((c * eb) / (SCALE as int)) / (SCALE as int),
            0 <= (c * eb) / (SCALE as int) <= eb,
            eb == extent * (SCALE as int),
            0 <= extent,
    ;
}

} // verus!
