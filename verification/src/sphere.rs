//! Spheres: analytic quadratic intersection and spherical texture
//! coordinates, in fixed point.

use vstd::prelude::*;
use crate::fx::FX_ONE;
use crate::fx::mul_fx_spec;
use crate::fx::div_fx_spec;
use crate::fx::sqrt_floor;
use crate::fx::mul_fx;
use crate::fx::div_fx;
use crate::fx::sqrt_fx;
use crate::fx::lemma_mul_fx_bound;
use crate::fx::lemma_div_fx_bound;
use crate::vec3::Vec3;
use crate::vec3::Vec2;
use crate::vec3::v3_in;
use crate::vec3::v3_sub_spec;
use crate::vec3::v3_scale_spec;
use crate::vec3::v3_divs_spec;
use crate::vec3::dot_spec;
use crate::vec3::v3_sub;
use crate::vec3::v3_dot;
use crate::vec3::v3_divs;
use crate::vec3::lemma_dot_bound;
use crate::vec3::lemma_scale_bound;
use crate::vec3::lemma_divs_bound;
use crate::trig::PI_FX;
use crate::trig::TWO_PI_FX;
use crate::trig::HALF_PI_FX;
use crate::trig::atan2_spec;
use crate::trig::asin_spec;
use crate::trig::atan2_fx;
use crate::trig::asin_fx;
use crate::ray::Ray;
use crate::ray::HitRecord;
use crate::ray::ray_wf;
use crate::ray::ray_at_spec;
use crate::ray::ORIGIN_CAP;
use crate::material::MaterialType;
use crate::material::mat_wf;
use crate::surface::Surface;
use crate::surface::T_CAP;

verus! {

/// The smallest radius a sphere may have (1/256 of a world unit in
/// fixed point), so that normals stay representable.
pub const MIN_RADIUS: i128 = 256;

pub struct Sphere {
    pub center: Vec3,
    pub radius: i128,
    pub material: MaterialType,
}

pub open spec fn sphere_wf(s: Sphere) -> bool {
    &&& v3_in(s.center, ORIGIN_CAP as int)
    &&& MIN_RADIUS <= s.radius <= ORIGIN_CAP
    &&& mat_wf(s.material)
}

/// Longitude/latitude coordinates of a point on the unit sphere:
/// `u = (1 - (phi + pi) / 2 pi) / 2`, `v = (theta + pi/2) / pi`.
pub open spec fn sphere_uv_spec(p: Vec3) -> Vec2 {
    let phi = atan2_spec(p.x as int, p.z as int);
    let theta = asin_spec(p.y as int);
    Vec2 {
        x: mul_fx_spec(65536 - div_fx_spec(phi + 205887, 411774), 32768) as i128,
        y: div_fx_spec(theta + 102943, 205887) as i128,
    }
}

/// The half-form quadratic coefficients of `|O + tD - C|^2 = r^2`.
pub open spec fn sphere_qa(ray: Ray) -> int {
    dot_spec(ray.direction, ray.direction)
}

pub open spec fn sphere_qb(s: Sphere, ray: Ray) -> int {
    dot_spec(v3_sub_spec(ray.origin, s.center), ray.direction)
}

pub open spec fn sphere_qc(s: Sphere, ray: Ray) -> int {
    dot_spec(v3_sub_spec(ray.origin, s.center), v3_sub_spec(ray.origin, s.center)) - mul_fx_spec(
        s.radius as int,
        s.radius as int,
    )
}

pub open spec fn sphere_disc(s: Sphere, ray: Ray) -> int {
    mul_fx_spec(sphere_qb(s, ray), sphere_qb(s, ray)) - mul_fx_spec(
        sphere_qa(ray),
        sphere_qc(s, ray),
    )
}

/// The record reported for a hit at parameter `t`: hit point along the
/// ray, outward normal scaled by the inverse radius, the sphere's
/// material, and spherical texture coordinates of the normal.
pub open spec fn sphere_rec_spec(s: Sphere, ray: Ray, t: int) -> HitRecord {
    let pos = ray_at_spec(ray, t);
    let normal = v3_divs_spec(v3_sub_spec(pos, s.center), s.radius as int);
    HitRecord { t: t as i128, pos, normal, material: s.material, uv: sphere_uv_spec(normal) }
}

/// Nearest intersection strictly inside `(t_min, t_max)`: when the
/// discriminant is positive, the smaller quadratic root is preferred,
/// then the larger; otherwise no hit.
pub open spec fn sphere_hit_spec(s: Sphere, ray: Ray, t_min: i128, t_max: i128) -> Option<
    HitRecord,
> {
    let a = sphere_qa(ray);
    let b = sphere_qb(s, ray);
    let disc = sphere_disc(s, ray);
    if disc > 0 {
        let sq = sqrt_floor((disc * 65536) as nat) as int;
        let t1 = div_fx_spec(-b - sq, a);
        if t_min < t1 && t1 < t_max {
            Some(sphere_rec_spec(s, ray, t1))
        } else {
            let t2 = div_fx_spec(-b + sq, a);
            if t_min < t2 && t2 < t_max {
                Some(sphere_rec_spec(s, ray, t2))
            } else {
                None
            }
        }
    } else {
        None
    }
}

/// A reported hit's parameter lies strictly inside the query window.
pub proof fn lemma_sphere_hit_in_window(s: Sphere, ray: Ray, t_min: i128, t_max: i128)
    requires
        0 <= t_min,
        t_max <= T_CAP,
    ensures
        match sphere_hit_spec(s, ray, t_min, t_max) {
            Some(h) => t_min < h.t < t_max,
            None => true,
        },
{
}

/// Shrinking the upper window keeps a hit exactly when its parameter
/// still lies under the new bound, and a miss stays a miss: the root
/// preference order cannot change which root is reported, only whether
/// it is.
pub proof fn lemma_sphere_hit_narrow(s: Sphere, ray: Ray, t_min: i128, ta: i128, tb: i128)
    requires
        dot_spec(ray.direction, ray.direction) >= 1,
        0 <= t_min,
        ta <= tb,
        tb <= T_CAP,
    ensures
        match sphere_hit_spec(s, ray, t_min, tb) {
            Some(h) => sphere_hit_spec(s, ray, t_min, ta) == (if (h.t as int) < ta as int {
                Some(h)
            } else {
                None
            }),
            None => sphere_hit_spec(s, ray, t_min, ta) is None,
        },
{
    let a = sphere_qa(ray);
    let b = sphere_qb(s, ray);
    let disc = sphere_disc(s, ray);
    if disc > 0 {
        let sq = sqrt_floor((disc * 65536) as nat) as int;
        crate::fx::lemma_div_trunc_ordered((-b - sq) * 65536, (-b + sq) * 65536, a);
        let t1 = div_fx_spec(-b - sq, a);
        let t2 = div_fx_spec(-b + sq, a);
        assert((-b - sq) * 65536 <= (-b + sq) * 65536);
        assert(t1 <= t2);
    }
}

impl Sphere {
    pub fn new(center: Vec3, radius: i128, material: MaterialType) -> (s: Sphere)
        ensures
            s == (Sphere { center, radius, material }),
    {
        Sphere { center, radius, material }
    }

    pub fn to_box(&self) -> (b: Box<Sphere>)
        ensures
            *b == *self,
    {
        Box::new(self.clone())
    }

    /// Spherical texture coordinates of a (near-)unit point; both
    /// coordinates land inside `[0, 1]`.
    fn get_sphere_uv(&self, p: Vec3) -> (uv: Vec2)
        requires
            v3_in(p, crate::fx::DIV_CAP as int),
        ensures
            uv == sphere_uv_spec(p),
            0 <= uv.x <= FX_ONE,
            0 <= uv.y <= FX_ONE,
    {
        let phi: i128 = atan2_fx(p.x, p.z);
        let theta: i128 = asin_fx(p.y);
        proof {
            lemma_div_fx_bound(phi as int + 205887, 411774, 411774, 411774);
            vstd::arithmetic::div_mod::lemma_div_multiples_vanish(65536, 411774);
            crate::fx::lemma_div_trunc_sign((phi as int + 205887) * 65536, 411774);
            lemma_mul_fx_bound(
                65536 - div_fx_spec(phi as int + 205887, 411774),
                32768,
                65536,
                32768,
            );
            crate::fx::lemma_div_trunc_sign(
                (65536 - div_fx_spec(phi as int + 205887, 411774)) * 32768,
                65536,
            );
            lemma_div_fx_bound(theta as int + 102943, 205887, 205886, 205887);
            crate::fx::lemma_div_trunc_sign((theta as int + 102943) * 65536, 205887);
        }
        let u: i128 = mul_fx(FX_ONE - div_fx(phi + PI_FX, TWO_PI_FX), 32768);
        let v: i128 = div_fx(theta + HALF_PI_FX, PI_FX);
        Vec2 { x: u, y: v }
    }
}

impl Clone for Sphere {
    /// A deep value copy.
    fn clone(&self) -> (r: Self)
        ensures
            r == *self,
    {
        Sphere { center: self.center, radius: self.radius, material: self.material.clone() }
    }
}

impl Surface for Sphere {
    open spec fn hit_spec(&self, ray: Ray, t_min: i128, t_max: i128) -> Option<HitRecord> {
        sphere_hit_spec(*self, ray, t_min, t_max)
    }

    open spec fn surf_wf(&self) -> bool {
        sphere_wf(*self)
    }

    fn intersect(&self, ray: &Ray, t_min: i128, t_max: i128, rec: &mut HitRecord) -> (b: bool) {
        proof {
            lemma_dot_bound(ray.direction, ray.direction, 68719476736, 68719476736);
            lemma_dot_bound(
                v3_sub_spec(ray.origin, self.center),
                ray.direction,
                8589934592,
                68719476736,
            );
            lemma_dot_bound(
                v3_sub_spec(ray.origin, self.center),
                v3_sub_spec(ray.origin, self.center),
                8589934592,
                8589934592,
            );
            lemma_mul_fx_bound(self.radius as int, self.radius as int, 4294967296, 4294967296);
        }
        let oc: Vec3 = v3_sub(ray.origin, self.center);
        let a: i128 = v3_dot(ray.direction, ray.direction);
        let b: i128 = v3_dot(oc, ray.direction);
        let cc: i128 = v3_dot(oc, oc) - mul_fx(self.radius, self.radius);
        proof {
            lemma_mul_fx_bound(b as int, b as int, 36028797018963968, 36028797018963968);
            lemma_mul_fx_bound(a as int, cc as int, 288230376151711744, 9007199254740992);
        }
        let disc: i128 = mul_fx(b, b) - mul_fx(a, cc);
        if disc > 0 {
            let sq: i128 = sqrt_fx(disc);
            let t1: i128 = div_fx(-b - sq, a);
            if t_min < t1 && t1 < t_max {
                self.write_hit(ray, t1, rec);
                return true;
            }
            let t2: i128 = div_fx(-b + sq, a);
            if t_min < t2 && t2 < t_max {
                self.write_hit(ray, t2, rec);
                return true;
            }
            false
        } else {
            false
        }
    }
}

impl Sphere {
    /// Fill the record for an accepted hit parameter.
    fn write_hit(&self, ray: &Ray, t: i128, rec: &mut HitRecord)
        requires
            sphere_wf(*self),
            ray_wf(*ray),
            0 < t <= T_CAP,
        ensures
            *final(rec) == sphere_rec_spec(*self, *ray, t as int),
            mat_wf(final(rec).material),
    {
        proof {
            lemma_scale_bound(t as int, ray.direction, 4294967296, 68719476736);
        }
        let pos: Vec3 = ray.at(t);
        let diff: Vec3 = v3_sub(pos, self.center);
        proof {
            lemma_divs_bound(diff, self.radius as int, 36028797018963968, 256);
        }
        let normal: Vec3 = v3_divs(diff, self.radius);
        let uv: Vec2 = self.get_sphere_uv(normal);
        *rec = HitRecord { t, pos, normal, material: self.material.clone(), uv };
    }
}

} // verus!
