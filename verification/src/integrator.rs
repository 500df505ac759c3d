//! Scattering and the recursive radiance estimator.

use vstd::prelude::*;
use vstd::arithmetic::div_mod::lemma_div_of0;
use vstd::arithmetic::div_mod::lemma_div_pos_is_pos;
use vstd::arithmetic::div_mod::lemma_div_is_ordered_by_denominator;
use crate::fx::FX_ONE;
use crate::fx::mul_fx_spec;
use crate::fx::div_fx_spec;
use crate::fx::sqrt_floor;
use crate::fx::mul_fx;
use crate::fx::div_fx;
use crate::fx::clamp_fx;
use crate::fx::sqrt_fx;
use crate::fx::clamp_spec;
use crate::fx::lemma_mul_fx_bound;
use crate::fx::lemma_div_fx_bound;
use crate::vec3::Vec3;
use crate::vec3::mag_spec;
use crate::vec3::v3_in;
use crate::vec3::v3_add_spec;
use crate::vec3::v3_sub_spec;
use crate::vec3::v3_neg_spec;
use crate::vec3::v3_scale_spec;
use crate::vec3::v3_hadamard_spec;
use crate::vec3::dot_spec;
use crate::vec3::unit_spec;
use crate::vec3::v3_add;
use crate::vec3::v3_sub;
use crate::vec3::v3_neg;
use crate::vec3::v3_scale;
use crate::vec3::v3_hadamard;
use crate::vec3::v3_dot;
use crate::vec3::v3_unit;
use crate::vec3::v3_mag;
use crate::vec3::lemma_dot_bound;
use crate::vec3::lemma_scale_bound;
use crate::vec3::lemma_hadamard_bound;
use crate::vec3::UNIT_CAP;
use crate::ray::Ray;
use crate::ray::HitRecord;
use crate::ray::ray_wf;
use crate::ray::rec_wf;
use crate::ray::ORIGIN_CAP;
use crate::ray::DIR_CAP;
use crate::material::MaterialType;
use crate::material::mat_texture;
use crate::texture::tex_color_spec;
use crate::texture::color_in_range;
use crate::surface::Surface;
use crate::surface::T_CAP;
use crate::surface_list::SurfaceList;
use crate::surface_list::list_wf;
use crate::surface_list::list_hit_spec;
use crate::rng::rand_unit;
use crate::rng::rand_sym;

verus! {

/// The lower intersection window of the estimator (about 0.001 in
/// fixed point), avoiding immediate self-intersection.
pub const EPS_FX: i128 = 66;

/// The per-bounce darkening step (0.08 in fixed point).
pub const DARKEN_STEP: i128 = 5243;

/// Componentwise cap of a radiance estimate (2^40).
pub const COLOR_CAP: i128 = 1099511627776;

/// A point strictly inside the unit ball.
pub open spec fn in_unit_ball(q: Vec3) -> bool {
    dot_spec(q, q) < 65536 && v3_in(q, 65536)
}

/// `d` is `base` perturbed by a roughness-scaled point of the unit
/// ball: the shape of every scattered direction.
pub open spec fn perturbed(base: Vec3, rough: int, d: Vec3) -> bool {
    exists|q: Vec3|
        #![trigger v3_scale_spec(rough, q)]
        in_unit_ball(q) && d == v3_add_spec(base, v3_scale_spec(rough, q))
}

/// Mirror reflection about a normal: `v - 2 (v . n) n`.
pub open spec fn reflect_spec(v: Vec3, n: Vec3) -> Vec3 {
    v3_sub_spec(v, v3_scale_spec(2 * dot_spec(v, n), n))
}

/// Snell refraction of `v` about `n` with index ratio `ni`; the zero
/// vector signals total internal reflection.
pub open spec fn refract_spec(v: Vec3, n: Vec3, ni: int) -> Vec3 {
    let uv = unit_spec(v);
    let dt = dot_spec(uv, n);
    let disc = 65536 - mul_fx_spec(mul_fx_spec(ni, ni), 65536 - mul_fx_spec(dt, dt));
    if disc > 0 {
        v3_sub_spec(
            v3_scale_spec(ni, v3_sub_spec(uv, v3_scale_spec(dt, n))),
            v3_scale_spec(sqrt_floor((disc * 65536) as nat) as int, n),
        )
    } else {
        Vec3 { x: 0, y: 0, z: 0 }
    }
}

/// The refraction a dielectric attempts: against the flipped normal
/// with ratio `ri` when exiting, else against the normal with `1/ri`.
pub open spec fn dielectric_refract_spec(ray: Ray, rec: HitRecord, ri: int) -> Vec3 {
    if dot_spec(ray.direction, rec.normal) > 0 {
        refract_spec(ray.direction, v3_neg_spec(rec.normal), ri)
    } else {
        refract_spec(ray.direction, rec.normal, div_fx_spec(65536, ri))
    }
}

/// The cosine the Fresnel test uses, clamped into `[-1, 1]`: scaled by
/// the index when exiting the medium, plain when entering.
pub open spec fn dielectric_cosine_spec(ray: Ray, rec: HitRecord, ri: int) -> int {
    let ddn = dot_spec(ray.direction, rec.normal);
    let m = mag_spec(ray.direction);
    if ddn > 0 {
        clamp_spec(div_fx_spec(mul_fx_spec(ri, ddn), m), -65536, 65536)
    } else {
        clamp_spec(div_fx_spec(-ddn, m), -65536, 65536)
    }
}

/// The probability that a dielectric reflects: certainty under total
/// internal reflection, else the Schlick reflectance.
pub open spec fn dielectric_reflect_prob_spec(ray: Ray, rec: HitRecord, ri: int) -> int {
    if dielectric_refract_spec(ray, rec, ri) == (Vec3 { x: 0, y: 0, z: 0 }) {
        65536
    } else {
        schlick_spec(dielectric_cosine_spec(ray, rec, ri), ri)
    }
}

/// Whether a dielectric reflects: the uniform draw falls under the
/// reflection probability.
pub open spec fn dielectric_reflects_spec(ray: Ray, rec: HitRecord, ri: int, draw: int) -> bool {
    draw < dielectric_reflect_prob_spec(ray, rec, ri)
}

/// The dielectric's scattered direction for a given uniform draw and
/// perturbation point: the mirror reflection when the draw falls under
/// the reflection probability, else the refraction; perturbed by the
/// roughness.
pub open spec fn dielectric_dir_spec(
    ray: Ray,
    rec: HitRecord,
    ri: int,
    rough: int,
    draw: int,
    q: Vec3,
) -> Vec3 {
    let base = if dielectric_reflects_spec(ray, rec, ri, draw) {
        reflect_spec(unit_spec(ray.direction), rec.normal)
    } else {
        dielectric_refract_spec(ray, rec, ri)
    };
    v3_add_spec(base, v3_scale_spec(rough, q))
}

/// The Schlick reflectance: `r0 + (1 - r0)(1 - cosine)^5` with
/// `r0 = ((1 - n) / (1 + n))^2`.
pub open spec fn schlick_spec(cosine: int, ref_idx: int) -> int {
    let r0a = div_fx_spec(65536 - ref_idx, 65536 + ref_idx);
    let r0 = mul_fx_spec(r0a, r0a);
    let e = 65536 - cosine;
    let e2 = mul_fx_spec(e, e);
    let e4 = mul_fx_spec(e2, e2);
    r0 + mul_fx_spec(65536 - r0, mul_fx_spec(e4, e))
}

/// At normal incidence the Schlick reflectance is exactly `r0`: the
/// fifth power of `1 - cosine` vanishes.
pub proof fn lemma_schlick_normal_incidence(ref_idx: int)
    requires
        1 <= ref_idx <= 1048576,
    ensures
        schlick_spec(65536, ref_idx) == mul_fx_spec(
            div_fx_spec(65536 - ref_idx, 65536 + ref_idx),
            div_fx_spec(65536 - ref_idx, 65536 + ref_idx),
        ),
{
    lemma_div_of0(65536);
    let r0 = mul_fx_spec(
        div_fx_spec(65536 - ref_idx, 65536 + ref_idx),
        div_fx_spec(65536 - ref_idx, 65536 + ref_idx),
    );
    assert(mul_fx_spec(0, 0) == 0);
    assert(mul_fx_spec(0, 0) * (65536 - r0) == 0) by (nonlinear_arith);
    assert((65536 - r0) * 0 == 0) by (nonlinear_arith);
    assert(mul_fx_spec(65536 - r0, 0) == 0);
}

/// The Schlick reflectance, executably.
pub fn schlick(cosine: i128, ref_idx: i128) -> (r: i128)
    requires
        1 <= ref_idx <= 1048576,
        -262144 <= cosine <= 262144,
    ensures
        r == schlick_spec(cosine as int, ref_idx as int),
{
    proof {
        lemma_div_fx_bound(
            65536 - ref_idx as int,
            65536 + ref_idx as int,
            1048576,
            65537,
        );
        assert(1048576int * 65536 / 65537 <= 1048576);
    }
    let r0a: i128 = div_fx(FX_ONE - ref_idx, FX_ONE + ref_idx);
    proof {
        lemma_mul_fx_bound(r0a as int, r0a as int, 1048576, 1048576);
    }
    let r0: i128 = mul_fx(r0a, r0a);
    let e: i128 = FX_ONE - cosine;
    proof {
        lemma_mul_fx_bound(e as int, e as int, 327680, 327680);
    }
    let e2: i128 = mul_fx(e, e);
    proof {
        lemma_mul_fx_bound(e2 as int, e2 as int, 1638400, 1638400);
    }
    let e4: i128 = mul_fx(e2, e2);
    proof {
        lemma_mul_fx_bound(e4 as int, e as int, 40960000, 327680);
        lemma_mul_fx_bound(
            65536 - r0 as int,
            mul_fx_spec(e4 as int, e as int),
            16842752,
            204800000,
        );
    }
    r0 + mul_fx(FX_ONE - r0, mul_fx(e4, e))
}

/// Mirror reflection, executably.
pub fn reflect(v: Vec3, n: Vec3) -> (r: Vec3)
    requires
        v3_in(v, 1048576),
        v3_in(n, 1048576),
    ensures
        r == reflect_spec(v, n),
        v3_in(r, 4294967296),
{
    proof {
        lemma_dot_bound(v, n, 1048576, 1048576);
    }
    let k: i128 = v3_dot(v, n);
    proof {
        lemma_scale_bound(2 * k as int, n, 100663296, 1048576);
    }
    v3_sub(v, v3_scale(2 * k, n))
}

/// Snell refraction, executably; the zero vector on total internal
/// reflection.
pub fn refract(v: &Vec3, n: &Vec3, ni_over_nt: i128) -> (r: Vec3)
    requires
        v3_in(*v, DIR_CAP as int),
        dot_spec(*v, *v) >= 1,
        v3_in(*n, 1048576),
        0 < ni_over_nt <= 4294967296,
    ensures
        r == refract_spec(*v, *n, ni_over_nt as int),
        v3_in(r, 1125899906842624),  // 2^50
{
    let uv: Vec3 = v3_unit(*v);
    proof {
        lemma_dot_bound(uv, *n, UNIT_CAP as int, 1048576);
    }
    let dt: i128 = v3_dot(uv, *n);
    proof {
        lemma_mul_fx_bound(dt as int, dt as int, 9437184, 9437184);
        lemma_mul_fx_bound(ni_over_nt as int, ni_over_nt as int, 4294967296, 4294967296);
        lemma_mul_fx_bound(
            mul_fx_spec(ni_over_nt as int, ni_over_nt as int),
            65536 - mul_fx_spec(dt as int, dt as int),
            281474976710656,
            4294967296,
        );
    }
    let dt2: i128 = mul_fx(dt, dt);
    let nn: i128 = mul_fx(ni_over_nt, ni_over_nt);
    let prod: i128 = mul_fx(nn, FX_ONE - dt2);
    let disc: i128 = FX_ONE - prod;
    if disc > 0 {
        let sq: i128 = sqrt_fx(disc);
        proof {
            assert(sq as int <= 35184372088832) by (nonlinear_arith)
                requires
                    (sq as int) * (sq as int) <= 1237940039285380274899124224int,  // 2^90
                    0 <= sq as int,
            ;
            lemma_scale_bound(dt as int, *n, 9437184, 1048576);
            lemma_scale_bound(
                ni_over_nt as int,
                v3_sub_spec(uv, v3_scale_spec(dt as int, *n)),
                4294967296,
                536870912,
            );
            lemma_scale_bound(sq as int, *n, 35184372088832, 1048576);
        }
        v3_sub(v3_scale(ni_over_nt, v3_sub(uv, v3_scale(dt, *n))), v3_scale(sq, *n))
    } else {
        Vec3 { x: 0, y: 0, z: 0 }
    }
}

/// A point drawn inside the unit ball: draw symmetric components and
/// reject until the squared magnitude is under one; after a bounded
/// number of rejections, fall back to the center.
pub fn random_in_unit_sphere() -> (p: Vec3)
    ensures
        in_unit_ball(p),
{
    let mut k: u32 = 0;
    while k < 64
        decreases 64 - k,
    {
        let p = Vec3 { x: rand_sym(), y: rand_sym(), z: rand_sym() };
        let d: i128 = v3_dot(p, p);
        if d < FX_ONE {
            return p;
        }
        k = k + 1;
    }
    proof {
        lemma_div_of0(65536);
        assert(mul_fx_spec(0, 0) == 0);
    }
    Vec3 { x: 0, y: 0, z: 0 }
}

/// How a material answers a hit: always for Lambertian and dielectric
/// surfaces, for metal only when the scattered ray leaves the surface.
/// The attenuation is always the material texture's color at the hit.
pub fn scatter(
    ray: &Ray,
    hit_record: &HitRecord,
    attenuation: &mut Vec3,
    scattered: &mut Ray,
) -> (b: bool)
    requires
        ray_wf(*ray),
        rec_wf(*hit_record),
    ensures
        *final(attenuation) == tex_color_spec(
            mat_texture(hit_record.material),
            hit_record.uv,
            hit_record.pos,
        ),
        color_in_range(*final(attenuation)),
        final(scattered).origin == hit_record.pos,
        match hit_record.material {
            MaterialType::Lambert(_, rough) => b && perturbed(
                hit_record.normal,
                rough as int,
                final(scattered).direction,
            ),
            MaterialType::Metal(_, rough) => {
                &&& perturbed(
                    reflect_spec(unit_spec(ray.direction), hit_record.normal),
                    rough as int,
                    final(scattered).direction,
                )
                &&& b == (dot_spec(final(scattered).direction, hit_record.normal) > 0)
            },
            MaterialType::Dielectric(_, ri, rough) => {
                // Always scatters; the direction follows one uniform
                // draw against the reflection probability, through the
                // verified dielectric step.
                &&& b
                &&& exists|d: int, q: Vec3|
                    #![trigger dielectric_dir_spec(*ray, *hit_record, ri as int, rough as int, d, q)]
                    0 <= d && d < 65536 && in_unit_ball(q) && final(scattered).direction
                        == dielectric_dir_spec(*ray, *hit_record, ri as int, rough as int, d, q)
                &&& (perturbed(
                    reflect_spec(unit_spec(ray.direction), hit_record.normal),
                    rough as int,
                    final(scattered).direction,
                ) || perturbed(
                    dielectric_refract_spec(*ray, *hit_record, ri as int),
                    rough as int,
                    final(scattered).direction,
                ))
                // Total internal reflection forces the reflected branch.
                &&& (dielectric_refract_spec(*ray, *hit_record, ri as int) == (Vec3 {
                    x: 0,
                    y: 0,
                    z: 0,
                }) ==> perturbed(
                    reflect_spec(unit_spec(ray.direction), hit_record.normal),
                    rough as int,
                    final(scattered).direction,
                ))
            },
        },
{
    match &hit_record.material {
        MaterialType::Lambert(tex, roughness) => {
            let p: Vec3 = random_in_unit_sphere();
            proof {
                lemma_scale_bound(*roughness as int, p, 65536, 65536);
            }
            let dir: Vec3 = v3_add(hit_record.normal, v3_scale(*roughness, p));
            *scattered = Ray { origin: hit_record.pos, direction: dir };
            *attenuation = tex.color(&hit_record.uv, &hit_record.pos);
            proof {
                assert(in_unit_ball(p) && dir == v3_add_spec(
                    hit_record.normal,
                    v3_scale_spec(*roughness as int, p),
                ));
            }
            true
        },
        MaterialType::Metal(tex, roughness) => {
            let reflected: Vec3 = reflect(v3_unit(ray.direction), hit_record.normal);
            let p: Vec3 = random_in_unit_sphere();
            proof {
                lemma_scale_bound(*roughness as int, p, 65536, 65536);
            }
            let dir: Vec3 = v3_add(reflected, v3_scale(*roughness, p));
            *scattered = Ray { origin: hit_record.pos, direction: dir };
            *attenuation = tex.color(&hit_record.uv, &hit_record.pos);
            proof {
                assert(in_unit_ball(p) && dir == v3_add_spec(
                    reflect_spec(unit_spec(ray.direction), hit_record.normal),
                    v3_scale_spec(*roughness as int, p),
                ));
                lemma_dot_bound(dir, hit_record.normal, 8589934592, 1048576);
            }
            let d: i128 = v3_dot(dir, hit_record.normal);
            d > 0
        },
        MaterialType::Dielectric(tex, ref_idx, roughness) => {
            let p: Vec3 = random_in_unit_sphere();
            let draw: i128 = rand_unit();
            let dir: Vec3 = dielectric_direction(ray, hit_record, *ref_idx, *roughness, draw, p);
            *scattered = Ray { origin: hit_record.pos, direction: dir };
            *attenuation = tex.color(&hit_record.uv, &hit_record.pos);
            proof {
                assert(0 <= draw as int && (draw as int) < 65536 && in_unit_ball(p) && dir
                    == dielectric_dir_spec(
                    *ray,
                    *hit_record,
                    *ref_idx as int,
                    *roughness as int,
                    draw as int,
                    p,
                ));
                if dielectric_reflects_spec(*ray, *hit_record, *ref_idx as int, draw as int) {
                    assert(in_unit_ball(p) && dir == v3_add_spec(
                        reflect_spec(unit_spec(ray.direction), hit_record.normal),
                        v3_scale_spec(*roughness as int, p),
                    ));
                } else {
                    assert(in_unit_ball(p) && dir == v3_add_spec(
                        dielectric_refract_spec(*ray, *hit_record, *ref_idx as int),
                        v3_scale_spec(*roughness as int, p),
                    ));
                }
            }
            true
        },
    }
}

/// The dielectric scattering step, with the uniform draw and the
/// perturbation point passed in as arguments: the direction is pinned
/// exactly for every value of both, so the one random choice — reflect
/// when the draw falls under the reflection probability, else refract —
/// is verified rather than observed.
pub fn dielectric_direction(
    ray: &Ray,
    hit_record: &HitRecord,
    ref_idx: i128,
    roughness: i128,
    draw: i128,
    q: Vec3,
) -> (dir: Vec3)
    requires
        ray_wf(*ray),
        v3_in(hit_record.normal, 1048576),
        1 <= ref_idx <= 1048576,
        0 <= roughness <= FX_ONE,
        0 <= draw < FX_ONE,
        in_unit_ball(q),
    ensures
        dir == dielectric_dir_spec(
            *ray,
            *hit_record,
            ref_idx as int,
            roughness as int,
            draw as int,
            q,
        ),
{
    let reflected: Vec3 = reflect(v3_unit(ray.direction), hit_record.normal);
    proof {
        lemma_dot_bound(ray.direction, hit_record.normal, DIR_CAP as int, 1048576);
    }
    let ddn: i128 = v3_dot(ray.direction, hit_record.normal);
    let mag: i128 = v3_mag(ray.direction);
    let outward: Vec3;
    let ni_over_nt: i128;
    let cosine: i128;
    if ddn > 0 {
        outward = v3_neg(hit_record.normal);
        ni_over_nt = ref_idx;
        proof {
            lemma_mul_fx_bound(ref_idx as int, ddn as int, 1048576, 13194139533312);
            lemma_div_fx_bound(
                mul_fx_spec(ref_idx as int, ddn as int),
                mag as int,
                211106232532992,
                256,
            );
        }
        cosine = div_fx(mul_fx(ref_idx, ddn), mag);
    } else {
        outward = hit_record.normal;
        proof {
            lemma_div_pos_is_pos(65536int * 65536, ref_idx as int);
            lemma_div_is_ordered_by_denominator(65536int * 65536, ref_idx as int, 1048576);
            lemma_div_is_ordered_by_denominator(65536int * 65536, 1, ref_idx as int);
            lemma_div_fx_bound(-ddn as int, mag as int, 13194139533312, 256);
        }
        ni_over_nt = div_fx(FX_ONE, ref_idx);
        cosine = div_fx(-ddn, mag);
    }
    let refracted: Vec3 = refract(&ray.direction, &outward, ni_over_nt);
    let reflect_prob: i128 = if !(refracted.x == 0 && refracted.y == 0 && refracted.z == 0) {
        schlick(clamp_fx(cosine, -FX_ONE, FX_ONE), ref_idx)
    } else {
        FX_ONE
    };
    proof {
        assert(refracted == dielectric_refract_spec(*ray, *hit_record, ref_idx as int));
        assert(clamp_spec(cosine as int, -65536, 65536) == dielectric_cosine_spec(
            *ray,
            *hit_record,
            ref_idx as int,
        ));
        assert(reflect_prob == dielectric_reflect_prob_spec(*ray, *hit_record, ref_idx as int));
        lemma_scale_bound(roughness as int, q, 65536, 65536);
    }
    if draw < reflect_prob {
        v3_add(reflected, v3_scale(roughness, q))
    } else {
        v3_add(refracted, v3_scale(roughness, q))
    }
}

/// `true` exactly when the ray is within the intersection routines'
/// numeric range.
pub fn ray_wf_check(r: &Ray) -> (b: bool)
    ensures
        b == ray_wf(*r),
{
    let co = -ORIGIN_CAP <= r.origin.x && r.origin.x <= ORIGIN_CAP && -ORIGIN_CAP <= r.origin.y
        && r.origin.y <= ORIGIN_CAP && -ORIGIN_CAP <= r.origin.z && r.origin.z <= ORIGIN_CAP;
    let cd = -DIR_CAP <= r.direction.x && r.direction.x <= DIR_CAP && -DIR_CAP <= r.direction.y
        && r.direction.y <= DIR_CAP && -DIR_CAP <= r.direction.z && r.direction.z <= DIR_CAP;
    if co && cd {
        let d: i128 = v3_dot(r.direction, r.direction);
        d >= 1
    } else {
        false
    }
}

/// `true` exactly when a hit record is in range for scattering.
fn in_scatter_range(rec: &HitRecord) -> (b: bool)
    ensures
        b == (v3_in(rec.pos, ORIGIN_CAP as int) && v3_in(rec.normal, 1048576)),
{
    -ORIGIN_CAP <= rec.pos.x && rec.pos.x <= ORIGIN_CAP && -ORIGIN_CAP <= rec.pos.y && rec.pos.y
        <= ORIGIN_CAP && -ORIGIN_CAP <= rec.pos.z && rec.pos.z <= ORIGIN_CAP && -1048576
        <= rec.normal.x && rec.normal.x <= 1048576 && -1048576 <= rec.normal.y && rec.normal.y
        <= 1048576 && -1048576 <= rec.normal.z && rec.normal.z <= 1048576
}

/// The background gradient for a missed ray: blend white into sky blue
/// by the normalized direction's height.
pub open spec fn background_spec(r: Ray) -> Vec3 {
    let t = mul_fx_spec(32768, unit_spec(r.direction).y + 65536);
    v3_add_spec(
        v3_scale_spec(65536 - t, Vec3 { x: 65536, y: 65536, z: 65536 }),
        v3_scale_spec(t, Vec3 { x: 32768, y: 45875, z: 65536 }),
    )
}

/// The recursive radiance estimate: black at depth zero; on a miss the
/// background gradient; on a hit, the scattered estimate attenuated by
/// the material color and the per-bounce darkening, clamped into the
/// representable color range (a hit whose record or scattered ray falls
/// outside the numeric range contributes nothing, like an absorbed
/// ray).
#[verifier::rlimit(100)]
pub fn ray_color(r: &Ray, world: &SurfaceList, recursion_depth: u32, darken: i128) -> (res: Vec3)
    requires
        ray_wf(*r),
        list_wf(*world),
        recursion_depth <= 64,
        darken <= 131072,
        darken >= -16777216 + DARKEN_STEP * recursion_depth,
    ensures
        recursion_depth == 0 ==> res == (Vec3 { x: 0, y: 0, z: 0 }),
        recursion_depth > 0 && list_hit_spec(world.surfaces@, *r, EPS_FX, T_CAP) is None ==> res
            == background_spec(*r),
        (match list_hit_spec(world.surfaces@, *r, EPS_FX, T_CAP) {
            Some(rec) => recursion_depth > 0 && !(v3_in(rec.pos, ORIGIN_CAP as int) && v3_in(
                rec.normal,
                1048576,
            )) ==> res == (Vec3 { x: 0, y: 0, z: 0 }),
            None => true,
        }),
        v3_in(res, COLOR_CAP as int),
    decreases recursion_depth,
{
    if recursion_depth == 0 {
        return Vec3 { x: 0, y: 0, z: 0 };
    }
    let mut rec: HitRecord = HitRecord::new();
    if world.intersect(r, EPS_FX, T_CAP, &mut rec) {
        if !in_scatter_range(&rec) {
            return Vec3 { x: 0, y: 0, z: 0 };
        }
        let mut attenuation: Vec3 = Vec3 { x: 0, y: 0, z: 0 };
        let mut scattered: Ray = Ray {
            origin: Vec3 { x: 0, y: 0, z: 0 },
            direction: Vec3 { x: 0, y: 0, z: 0 },
        };
        if scatter(r, &rec, &mut attenuation, &mut scattered) {
            if !ray_wf_check(&scattered) {
                return Vec3 { x: 0, y: 0, z: 0 };
            }
            let col: Vec3 = ray_color(&scattered, world, recursion_depth - 1, darken
                - DARKEN_STEP);
            proof {
                lemma_hadamard_bound(col, attenuation, COLOR_CAP as int, 65536);
                lemma_scale_bound(
                    darken as int,
                    v3_hadamard_spec(col, attenuation),
                    16777216,
                    COLOR_CAP as int,
                );
            }
            let prod: Vec3 = v3_hadamard(col, attenuation);
            let scaled: Vec3 = v3_scale(darken, prod);
            let out: Vec3 = Vec3 {
                x: clamp_fx(scaled.x, -COLOR_CAP, COLOR_CAP),
                y: clamp_fx(scaled.y, -COLOR_CAP, COLOR_CAP),
                z: clamp_fx(scaled.z, -COLOR_CAP, COLOR_CAP),
            };
            out
        } else {
            Vec3 { x: 0, y: 0, z: 0 }
        }
    } else {
        let ud: Vec3 = v3_unit(r.direction);
        proof {
            lemma_mul_fx_bound(32768, ud.y as int + 65536, 32768, 262144);
            lemma_scale_bound(
                65536 - mul_fx_spec(32768, ud.y as int + 65536),
                Vec3 { x: 65536, y: 65536, z: 65536 },
                196608,
                65536,
            );
            lemma_scale_bound(
                mul_fx_spec(32768, ud.y as int + 65536),
                Vec3 { x: 32768, y: 45875, z: 65536 },
                131072,
                65536,
            );
        }
        let t: i128 = mul_fx(32768, ud.y + FX_ONE);
        let white: Vec3 = Vec3 { x: 65536, y: 65536, z: 65536 };
        let sky: Vec3 = Vec3 { x: 32768, y: 45875, z: 65536 };
        let out: Vec3 = v3_add(v3_scale(FX_ONE - t, white), v3_scale(t, sky));
        proof {
            assert(out == background_spec(*r));
        }
        out
    }
}

} // verus!
