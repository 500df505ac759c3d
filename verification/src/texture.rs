//! Texture evaluation: solid colors, a world-space checkerboard driven
//! by the sign of a product of sines, and nearest-pixel image sampling
//! with a square-law channel transfer.

use vstd::prelude::*;
use std::rc::Rc;
use vstd::arithmetic::div_mod::lemma_div_is_ordered;
use vstd::arithmetic::div_mod::lemma_div_pos_is_pos;
use crate::fx::FX_ONE;
use crate::fx::mul_fx_spec;
use crate::fx::clamp_spec;
use crate::fx::div_trunc;
use crate::fx::sabs;
use crate::fx::mul_fx;
use crate::fx::clamp_fx;
use crate::fx::lemma_mul_bound;
use crate::fx::lemma_mul_fx_bound;
use crate::vec3::Vec3;
use crate::vec3::Vec2;
use crate::vec3::v3_in;
use crate::trig::sin_spec;
use crate::trig::sin_fx;

verus! {

/// Plain image data: RGB bytes in row-major order, three bytes per
/// pixel. The surrounding program decodes an image file into this form.
pub struct ImageData {
    pub width: u32,
    pub height: u32,
    pub pixels: Vec<u8>,
}

/// The divisor turning a byte channel into a fixed-point fraction:
/// 255.99 in fixed point, matching an almost-one normalization.
pub const CHAN_DIV: i128 = 16776560;

pub open spec fn img_wf(img: ImageData) -> bool {
    &&& 1 <= img.width <= 16384
    &&& 1 <= img.height <= 16384
    &&& img.pixels.len() == 3 * img.width * img.height
}

impl ImageData {
    pub fn new(width: u32, height: u32, pixels: Vec<u8>) -> (img: ImageData)
        ensures
            img.width == width,
            img.height == height,
            img.pixels == pixels,
    {
        ImageData { width, height, pixels }
    }
}

/// A reflectance map over surface coordinates and world position.
pub enum Texture {
    SolidColor(Vec3),
    CheckerBoard(Vec3, Vec3),
    ImageTexture(Rc<ImageData>),
}

/// Each color channel lies in `[0, 1]`.
pub open spec fn color_in_range(c: Vec3) -> bool {
    &&& 0 <= c.x <= FX_ONE
    &&& 0 <= c.y <= FX_ONE
    &&& 0 <= c.z <= FX_ONE
}

pub open spec fn tex_wf(t: Texture) -> bool {
    match t {
        Texture::SolidColor(c) => color_in_range(c),
        Texture::CheckerBoard(c1, c2) => color_in_range(c1) && color_in_range(c2),
        Texture::ImageTexture(img) => img_wf(*img),
    }
}

/// One byte channel: normalize by `CHAN_DIV`, then square.
pub open spec fn chan_spec(p: int) -> int {
    let c0 = div_trunc(p * 65536 * 65536, CHAN_DIV as int);
    mul_fx_spec(c0, c0)
}

/// Nearest-pixel image lookup: clamp the surface coordinates, scale to
/// pixel indices (flipping the row axis), and transfer each channel.
pub open spec fn image_color_spec(img: ImageData, uv: Vec2) -> Vec3 {
    let u = clamp_spec(uv.x as int, 0, 65536);
    let v = clamp_spec(uv.y as int, 0, 65536);
    let ci0 = div_trunc(u * img.width, 65536);
    let ci = if ci0 > img.width - 1 {
        img.width - 1
    } else {
        ci0
    };
    let ri0 = div_trunc((65536 - v) * img.height, 65536);
    let ri = if ri0 > img.height - 1 {
        img.height - 1
    } else {
        ri0
    };
    let base = 3 * (ri * img.width + ci);
    Vec3 {
        x: chan_spec(img.pixels[base] as int) as i128,
        y: chan_spec(img.pixels[base + 1] as int) as i128,
        z: chan_spec(img.pixels[base + 2] as int) as i128,
    }
}

/// What `Texture::color` returns: the solid color; one of the two
/// checker colors by the sign of `sin(10x) sin(10y) sin(10z)`; or the
/// image sample.
pub open spec fn tex_color_spec(t: Texture, uv: Vec2, pos: Vec3) -> Vec3 {
    match t {
        Texture::SolidColor(c) => c,
        Texture::CheckerBoard(c1, c2) => {
            let s = sin_spec(10 * pos.x) * sin_spec(10 * pos.y) * sin_spec(10 * pos.z);
            if s < 0 {
                c1
            } else {
                c2
            }
        },
        Texture::ImageTexture(img) => image_color_spec(*img, uv),
    }
}

/// One byte channel, executably.
fn chan(p: u8) -> (c: i128)
    ensures
        c == chan_spec(p as int),
        0 <= c <= FX_ONE,
{
    let wide: u128 = (p as u128) * 65536 * 65536;
    let q: u128 = wide / (CHAN_DIV as u128);
    proof {
        assert(wide == (p as int) * 65536 * 65536);
        lemma_div_is_ordered(wide as int, 1095216660480, CHAN_DIV as int);
        lemma_div_pos_is_pos(wide as int, CHAN_DIV as int);
        assert(sabs(wide as int) == wide as int);
    }
    let c0: i128 = q as i128;
    proof {
        lemma_mul_fx_bound(c0 as int, c0 as int, 65282, 65282);
        lemma_mul_bound(c0 as int, c0 as int, 65282, 65282);
        lemma_div_pos_is_pos((c0 as int) * (c0 as int), 65536);
    }
    mul_fx(c0, c0)
}

impl Texture {
    /// Evaluate the texture at a surface coordinate and world position.
    pub fn color(&self, uv: &Vec2, pos: &Vec3) -> (c: Vec3)
        requires
            tex_wf(*self),
            v3_in(*pos, 72057594037927936),  // 2^56
        ensures
            c == tex_color_spec(*self, *uv, *pos),
            color_in_range(c),
            // The checkerboard law: the sign of the product of sines
            // picks the color.
            forall|c1: Vec3, c2: Vec3|
                *self == Texture::CheckerBoard(c1, c2) ==> c == if sin_spec(10 * pos.x) * sin_spec(
                    10 * pos.y,
                ) * sin_spec(10 * pos.z) < 0 {
                    c1
                } else {
                    c2
                },
    {
        match self {
            Texture::SolidColor(c) => *c,
            Texture::CheckerBoard(c1, c2) => {
                let sx: i128 = sin_fx(10 * pos.x);
                let sy: i128 = sin_fx(10 * pos.y);
                let sz: i128 = sin_fx(10 * pos.z);
                proof {
                    lemma_mul_bound(sx as int, sy as int, 65536, 65536);
                    lemma_mul_bound(sx as int * sy as int, sz as int, 4294967296, 65536);
                }
                let s: i128 = sx * sy * sz;
                if s < 0 {
                    *c1
                } else {
                    *c2
                }
            },
            Texture::ImageTexture(img) => {
                let w: u32 = img.width;
                let h: u32 = img.height;
                let u: i128 = clamp_fx(uv.x, 0, FX_ONE);
                let v: i128 = clamp_fx(uv.y, 0, FX_ONE);
                proof {
                    assert((u as int) * (w as int) <= 65536 * (w as int)) by (nonlinear_arith)
                        requires
                            0 <= u as int <= 65536,
                            0 <= w as int,
                    ;
                    assert(0 <= (u as int) * (w as int)) by (nonlinear_arith)
                        requires
                            0 <= u as int,
                            0 <= w as int,
                    ;
                    lemma_div_is_ordered((u as int) * (w as int), 65536 * (w as int), 65536);
                    vstd::arithmetic::div_mod::lemma_div_multiples_vanish(w as int, 65536);
                    lemma_div_pos_is_pos((u as int) * (w as int), 65536);
                }
                let ci0: i128 = (((u as u128) * (w as u128)) / 65536) as i128;
                let ci: i128 = if ci0 > (w as i128) - 1 {
                    (w as i128) - 1
                } else {
                    ci0
                };
                let iv: i128 = FX_ONE - v;
                proof {
                    assert((iv as int) * (h as int) <= 65536 * (h as int)) by (nonlinear_arith)
                        requires
                            0 <= iv as int <= 65536,
                            0 <= h as int,
                    ;
                    assert(0 <= (iv as int) * (h as int)) by (nonlinear_arith)
                        requires
                            0 <= iv as int,
                            0 <= h as int,
                    ;
                    lemma_div_is_ordered((iv as int) * (h as int), 65536 * (h as int), 65536);
                    vstd::arithmetic::div_mod::lemma_div_multiples_vanish(h as int, 65536);
                    lemma_div_pos_is_pos((iv as int) * (h as int), 65536);
                }
                let ri0: i128 = (((iv as u128) * (h as u128)) / 65536) as i128;
                let ri: i128 = if ri0 > (h as i128) - 1 {
                    (h as i128) - 1
                } else {
                    ri0
                };
                proof {
                    assert((ri as int) * (w as int) + ci as int <= (h as int) * (w as int) - 1)
                        by (nonlinear_arith)
                        requires
                            0 <= ri as int <= h as int - 1,
                            0 <= ci as int <= w as int - 1,
                            1 <= w as int,
                            1 <= h as int,
                    ;
                    assert((h as int) * (w as int) <= 268435456) by (nonlinear_arith)
                        requires
                            1 <= w as int <= 16384,
                            1 <= h as int <= 16384,
                    ;
                }
                let base: usize = 3 * ((ri as usize) * (w as usize) + (ci as usize));
                proof {
                    assert(img_wf(**img));
                    assert(img.pixels.len() == 3 * (w as int) * (h as int));
                    assert(3 * ((ri as int) * (w as int) + (ci as int)) + 2 < 3 * (w as int) * (
                    h as int)) by (nonlinear_arith)
                        requires
                            (ri as int) * (w as int) + ci as int <= (h as int) * (w as int) - 1,
                    ;
                    assert(base + 2 < img.pixels.len());
                }
                let pr: u8 = img.pixels[base];
                let pg: u8 = img.pixels[base + 1];
                let pb: u8 = img.pixels[base + 2];
                Vec3 { x: chan(pr), y: chan(pg), z: chan(pb) }
            },
        }
    }
}

impl Clone for Texture {
    /// A deep value copy; the image variant shares its pixel data.
    fn clone(&self) -> (r: Self)
        ensures
            r == *self,
    {
        match self {
            Texture::SolidColor(c) => Texture::SolidColor(*c),
            Texture::CheckerBoard(c1, c2) => Texture::CheckerBoard(*c1, *c2),
            Texture::ImageTexture(img) => Texture::ImageTexture(rc_dup(img)),
        }
    }
}

/// Relies on `Rc::clone`: the returned handle refers to the same
/// allocation as the argument, so it carries the same image value.
#[verifier::external_body]
fn rc_dup(r: &Rc<ImageData>) -> (res: Rc<ImageData>)
    ensures
        res == *r,
{
    Rc::clone(r)
}

} // verus!
