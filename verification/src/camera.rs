//! The camera: an image-plane basis built once from a look-from /
//! look-at configuration, and primary-ray generation from normalized
//! plane coordinates.

use vstd::prelude::*;
use crate::fx::FX_ONE;
use crate::fx::mul_fx_spec;
use crate::fx::div_fx_spec;
use crate::fx::mul_fx;
use crate::fx::div_fx;
use crate::fx::lemma_mul_fx_bound;
use crate::fx::lemma_div_fx_bound;
use crate::vec3::Vec3;
use crate::vec3::Vec2;
use crate::vec3::v3_in;
use crate::vec3::v3_sub_spec;
use crate::vec3::v3_add_spec;
use crate::vec3::v3_scale_spec;
use crate::vec3::cross_spec;
use crate::vec3::unit_spec;
use crate::vec3::dot_spec;
use crate::vec3::v3_sub;
use crate::vec3::v3_add;
use crate::vec3::v3_scale;
use crate::vec3::v3_cross;
use crate::vec3::v3_unit;
use crate::vec3::lemma_scale_bound;
use crate::vec3::lemma_cross_bound;
use crate::vec3::UNIT_CAP;
use crate::trig::PI_FX;
use crate::trig::HALF_PI_FX;
use crate::trig::sin_spec;
use crate::trig::cos_spec;
use crate::trig::sin_fx;
use crate::trig::cos_fx;
use crate::ray::Ray;
use crate::ray::ORIGIN_CAP;

verus! {

/// Largest coordinate magnitude of a derived camera field (2^42).
pub const CAM_CAP: i128 = 4398046511104;

/// 180 degrees in fixed point.
pub const DEG_180: i128 = 11796480;

pub struct Camera {
    pub origin: Vec3,
    pub lower_left_corner: Vec3,
    pub horizontal: Vec3,
    pub vertical: Vec3,
}

pub open spec fn camera_wf(c: Camera) -> bool {
    &&& v3_in(c.origin, ORIGIN_CAP as int)
    &&& v3_in(c.lower_left_corner, CAM_CAP as int)
    &&& v3_in(c.horizontal, CAM_CAP as int)
    &&& v3_in(c.vertical, CAM_CAP as int)
}

/// The tangent of half the field of view, with the cosine floored at
/// one smallest step to keep the quotient defined for any angle.
pub open spec fn tan_half_spec(vfov: int) -> int {
    let theta = div_fx_spec(mul_fx_spec(vfov, PI_FX as int), DEG_180 as int);
    let half = mul_fx_spec(theta, 32768);
    let s = sin_spec(half);
    let c0 = cos_spec(half);
    let c = if c0 < 1 {
        1
    } else {
        c0
    };
    div_fx_spec(s, c)
}

/// The camera derived from its configuration: orthonormal-ish basis
/// `w, u, v`, image-plane extents from the field of view and aspect
/// ratio, and the plane corner.
pub open spec fn camera_spec(lookfrom: Vec3, lookat: Vec3, vup: Vec3, vfov: int, aspect: int)
    -> Camera {
    let half_height = tan_half_spec(vfov);
    let half_width = mul_fx_spec(aspect, half_height);
    let w = unit_spec(v3_sub_spec(lookfrom, lookat));
    let u = unit_spec(cross_spec(vup, w));
    let v = cross_spec(w, u);
    Camera {
        origin: lookfrom,
        horizontal: v3_scale_spec(2 * half_width, u),
        vertical: v3_scale_spec(2 * half_height, v),
        lower_left_corner: v3_sub_spec(
            v3_sub_spec(
                v3_sub_spec(lookfrom, v3_scale_spec(half_width, u)),
                v3_scale_spec(half_height, v),
            ),
            w,
        ),
    }
}

/// The primary ray through normalized plane coordinates `(s, t)`.
pub open spec fn get_ray_spec(c: Camera, uv: Vec2) -> Ray {
    Ray {
        origin: c.origin,
        direction: v3_sub_spec(
            v3_add_spec(
                v3_add_spec(c.lower_left_corner, v3_scale_spec(uv.x as int, c.horizontal)),
                v3_scale_spec(uv.y as int, c.vertical),
            ),
            c.origin,
        ),
    }
}

impl Camera {
    /// Build the camera. The view direction must be nonzero and not
    /// parallel to `vup`, and the field of view lies in (0, 180)
    /// degrees.
    pub fn new(lookfrom: Vec3, lookat: Vec3, vup: Vec3, vfov: i128, aspect: i128) -> (c: Camera)
        requires
            v3_in(lookfrom, ORIGIN_CAP as int),
            v3_in(lookat, ORIGIN_CAP as int),
            v3_in(vup, ORIGIN_CAP as int),
            1 <= vfov < DEG_180,
            1 <= aspect <= 1048576,
            dot_spec(v3_sub_spec(lookfrom, lookat), v3_sub_spec(lookfrom, lookat)) >= 1,
            dot_spec(
                cross_spec(vup, unit_spec(v3_sub_spec(lookfrom, lookat))),
                cross_spec(vup, unit_spec(v3_sub_spec(lookfrom, lookat))),
            ) >= 1,
        ensures
            c == camera_spec(lookfrom, lookat, vup, vfov as int, aspect as int),
            camera_wf(c),
    {
        proof {
            lemma_mul_fx_bound(vfov as int, PI_FX as int, DEG_180 as int, PI_FX as int);
            lemma_div_fx_bound(
                mul_fx_spec(vfov as int, PI_FX as int),
                DEG_180 as int,
                37059660,
                DEG_180 as int,
            );
        }
        let theta: i128 = div_fx(mul_fx(vfov, PI_FX), DEG_180);
        proof {
            lemma_mul_fx_bound(theta as int, 32768, 205887, 32768);
        }
        let half: i128 = mul_fx(theta, 32768);
        let s: i128 = sin_fx(half);
        let c0: i128 = cos_fx(half);
        let cdiv: i128 = if c0 < 1 {
            1
        } else {
            c0
        };
        proof {
            lemma_div_fx_bound(s as int, cdiv as int, FX_ONE as int, 1);
        }
        let half_height: i128 = div_fx(s, cdiv);
        proof {
            lemma_mul_fx_bound(aspect as int, half_height as int, 1048576, 4294967296);
        }
        let half_width: i128 = mul_fx(aspect, half_height);
        let w: Vec3 = v3_unit(v3_sub(lookfrom, lookat));
        proof {
            lemma_cross_bound(vup, w, ORIGIN_CAP as int, UNIT_CAP as int);
        }
        let u: Vec3 = v3_unit(v3_cross(vup, w));
        let v: Vec3 = v3_cross(w, u);
        proof {
            lemma_cross_bound(w, u, UNIT_CAP as int, UNIT_CAP as int);
            lemma_scale_bound(2 * half_width as int, u, 137438953472, UNIT_CAP as int);
            lemma_scale_bound(2 * half_height as int, v, 8589934592, 1179648);
            lemma_scale_bound(half_width as int, u, 68719476736, UNIT_CAP as int);
            lemma_scale_bound(half_height as int, v, 4294967296, 1179648);
        }
        let horizontal: Vec3 = v3_scale(2 * half_width, u);
        let vertical: Vec3 = v3_scale(2 * half_height, v);
        let lower_left_corner: Vec3 = v3_sub(
            v3_sub(v3_sub(lookfrom, v3_scale(half_width, u)), v3_scale(half_height, v)),
            w,
        );
        Camera { origin: lookfrom, lower_left_corner, horizontal, vertical }
    }

    /// The ray from the camera origin through plane coordinates
    /// `(uv.x, uv.y)`, each in `[0, 1]`.
    pub fn get_ray(&self, uv: Vec2) -> (r: Ray)
        requires
            camera_wf(*self),
            0 <= uv.x <= FX_ONE,
            0 <= uv.y <= FX_ONE,
        ensures
            r == get_ray_spec(*self, uv),
    {
        proof {
            lemma_scale_bound(uv.x as int, self.horizontal, FX_ONE as int, CAM_CAP as int);
            lemma_scale_bound(uv.y as int, self.vertical, FX_ONE as int, CAM_CAP as int);
        }
        let a: Vec3 = v3_add(self.lower_left_corner, v3_scale(uv.x, self.horizontal));
        let b: Vec3 = v3_add(a, v3_scale(uv.y, self.vertical));
        Ray { origin: self.origin, direction: v3_sub(b, self.origin) }
    }
}

} // verus!
