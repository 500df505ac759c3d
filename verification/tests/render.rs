use std::rc::Rc;
use pathtracer::fx::{mul_fx, div_fx, sqrt_fx, mod_euclid, clamp_fx, isqrt, FX_ONE};
use pathtracer::vec3::{Vec3, Vec2, v3_dot, v3_add, v3_sub, v3_unit};
use pathtracer::ray::{Ray, HitRecord};
use pathtracer::material::MaterialType;
use pathtracer::texture::{Texture, ImageData};
use pathtracer::sphere::Sphere;
use pathtracer::surface::Surface;
use pathtracer::surface_list::SurfaceList;
use pathtracer::camera::Camera;
use pathtracer::integrator::{schlick, reflect, refract, random_in_unit_sphere, scatter, ray_color,
                             ray_wf_check};

fn black_lambert() -> MaterialType {
    MaterialType::Lambert(Texture::SolidColor(Vec3::new(0, 0, 0)), 0)
}

#[test]
fn fixed_point_arithmetic_exact() {
    // 1.5 * 1.5 = 2.25
    assert_eq!(mul_fx(98304, 98304), 147456);
    assert_eq!(mul_fx(-3, FX_ONE), -3);
    // 1 / 2 = 0.5
    assert_eq!(div_fx(FX_ONE, 131072), 32768);
    // sqrt(4) = 2
    assert_eq!(sqrt_fx(4 * FX_ONE), 2 * FX_ONE);
    assert_eq!(isqrt(16), 4);
    assert_eq!(isqrt(17), 4);
    assert_eq!(mod_euclid(-5, 3), 1);
    assert_eq!(clamp_fx(99, 0, 50), 50);
    assert_eq!(clamp_fx(-2, 0, 50), 0);
}

#[test]
fn unit_vector_of_axis_is_exact() {
    let u = v3_unit(Vec3::new(0, FX_ONE, 0));
    assert_eq!((u.x, u.y, u.z), (0, FX_ONE, 0));
}

// A ray from the origin toward (0,0,-1) against a sphere centered at
// (0,0,-1) with radius 0.5 hits at t = 0.5 with normal (0,0,1).
#[test]
fn sphere_intersection_frontal_hit() {
    let s = Sphere::new(Vec3::new(0, 0, -FX_ONE), 32768, black_lambert());
    let r = Ray::new(Vec3::new(0, 0, 0), Vec3::new(0, 0, -FX_ONE));
    let mut rec = HitRecord::new();
    let hit = s.intersect(&r, 0, 4294967296, &mut rec);
    assert!(hit);
    assert_eq!(rec.t, 32768);
    assert_eq!((rec.normal.x, rec.normal.y, rec.normal.z), (0, 0, FX_ONE));
    assert_eq!((rec.pos.x, rec.pos.y, rec.pos.z), (0, 0, -32768));
    // The spherical parametrization of the (0,0,1) normal: the seam
    // meridian at half height.
    assert_eq!((rec.uv.x, rec.uv.y), (16384, 32767));
}

#[test]
fn sphere_intersection_miss_leaves_record() {
    let s = Sphere::new(Vec3::new(0, 0, -FX_ONE), 32768, black_lambert());
    let r = Ray::new(Vec3::new(0, 0, 0), Vec3::new(0, FX_ONE, 0));
    let mut rec = HitRecord::new();
    let hit = s.intersect(&r, 0, 4294967296, &mut rec);
    assert!(!hit);
    assert_eq!(rec.t, 0);
}

// Two overlapping spheres along one ray: the list reports the minimum
// of the two individual hit parameters, whatever the list order.
#[test]
fn surface_list_reports_nearest_hit() {
    let near = Sphere::new(Vec3::new(0, 0, -131072), 32768, black_lambert());
    let far = Sphere::new(Vec3::new(0, 0, -163840), 49152, black_lambert());
    let r = Ray::new(Vec3::new(0, 0, 0), Vec3::new(0, 0, -FX_ONE));

    let mut rec = HitRecord::new();
    assert!(near.intersect(&r, 0, 4294967296, &mut rec));
    let t_near = rec.t;
    assert_eq!(t_near, 98304);  // 1.5
    assert!(far.intersect(&r, 0, 4294967296, &mut rec));
    let t_far = rec.t;
    assert_eq!(t_far, 114688);  // 1.75

    let mut world = SurfaceList::new();
    world.push(far.to_box());
    world.push(near.to_box());
    let mut rec2 = HitRecord::new();
    assert!(world.intersect(&r, 0, 4294967296, &mut rec2));
    assert_eq!(rec2.t, t_near.min(t_far));

    let mut world2 = SurfaceList::new();
    world2.push(near.to_box());
    world2.push(far.to_box());
    let mut rec3 = HitRecord::new();
    assert!(world2.intersect(&r, 0, 4294967296, &mut rec3));
    assert_eq!(rec3.t, t_near.min(t_far));
}

#[test]
fn empty_list_never_hits() {
    let world = SurfaceList::new();
    let r = Ray::new(Vec3::new(0, 0, 0), Vec3::new(0, 0, -FX_ONE));
    let mut rec = HitRecord::new();
    assert!(!world.intersect(&r, 66, 4294967296, &mut rec));
}

// A ray that misses everything returns exactly the gradient value; a
// straight-up direction gives pure sky blue.
#[test]
fn ray_color_miss_is_gradient() {
    let world = SurfaceList::new();
    let r = Ray::new(Vec3::new(0, 0, 0), Vec3::new(0, FX_ONE, 0));
    let c = ray_color(&r, &world, 20, FX_ONE);
    assert_eq!((c.x, c.y, c.z), (32768, 45875, FX_ONE));
}

#[test]
fn ray_color_miss_gradient_with_scene() {
    let mut world = SurfaceList::new();
    world.push(Sphere::new(Vec3::new(0, 0, -327680), 32768, black_lambert()).to_box());
    let r = Ray::new(Vec3::new(0, 0, 0), Vec3::new(0, FX_ONE, 0));
    let c = ray_color(&r, &world, 20, FX_ONE);
    assert_eq!((c.x, c.y, c.z), (32768, 45875, FX_ONE));
}

// Depth zero returns black regardless of scene content.
#[test]
fn ray_color_depth_zero_is_black() {
    let mut world = SurfaceList::new();
    world.push(Sphere::new(Vec3::new(0, 0, -FX_ONE), 32768, black_lambert()).to_box());
    let r = Ray::new(Vec3::new(0, 0, 0), Vec3::new(0, 0, -FX_ONE));
    let c = ray_color(&r, &world, 0, FX_ONE);
    assert_eq!((c.x, c.y, c.z), (0, 0, 0));
}

#[test]
fn ray_color_hit_stays_in_range() {
    let mut world = SurfaceList::new();
    world.push(Sphere::new(
        Vec3::new(0, 0, -FX_ONE),
        32768,
        MaterialType::Lambert(Texture::SolidColor(Vec3::new(32768, 32768, 32768)), FX_ONE),
    ).to_box());
    let r = Ray::new(Vec3::new(0, 0, 0), Vec3::new(0, 0, -FX_ONE));
    for _ in 0..20 {
        let c = ray_color(&r, &world, 20, FX_ONE);
        let cap = 1099511627776i128;
        assert!(c.x.abs() <= cap && c.y.abs() <= cap && c.z.abs() <= cap);
    }
}

// Schlick at normal incidence equals r0 exactly: for n = 1.5 in fixed
// point that is 2621 (about 0.04).
#[test]
fn schlick_normal_incidence_is_r0() {
    assert_eq!(schlick(FX_ONE, 98304), 2621);
}

// Statistically, a dielectric hit at normal incidence reflects with
// probability near r0: far fewer than one in five draws.
#[test]
fn dielectric_normal_incidence_rarely_reflects() {
    let rec = HitRecord {
        t: 32768,
        pos: Vec3::new(0, 0, -32768),
        normal: Vec3::new(0, 0, FX_ONE),
        material: MaterialType::Dielectric(
            Texture::SolidColor(Vec3::new(FX_ONE, FX_ONE, FX_ONE)),
            98304,
            0,
        ),
        uv: Vec2::new(0, 0),
    };
    let r = Ray::new(Vec3::new(0, 0, 0), Vec3::new(0, 0, -FX_ONE));
    let mut reflections = 0u32;
    for _ in 0..2000 {
        let mut att = Vec3::new(0, 0, 0);
        let mut sc = Ray::new(Vec3::new(0, 0, 0), Vec3::new(0, 0, 0));
        assert!(scatter(&r, &rec, &mut att, &mut sc));
        if sc.direction.z > 0 {
            reflections += 1;
        }
    }
    assert!(reflections < 400, "reflected {} of 2000", reflections);
}

// Lambertian scattering returns the solid texture color exactly, on
// every invocation.
#[test]
fn lambert_attenuation_is_texture_color() {
    let color = Vec3::new(6554, 19661, 58982);
    let rec = HitRecord {
        t: 32768,
        pos: Vec3::new(0, 0, -32768),
        normal: Vec3::new(0, 0, FX_ONE),
        material: MaterialType::Lambert(Texture::SolidColor(color), FX_ONE),
        uv: Vec2::new(0, 0),
    };
    let r = Ray::new(Vec3::new(0, 0, 0), Vec3::new(0, 0, -FX_ONE));
    for _ in 0..100 {
        let mut att = Vec3::new(0, 0, 0);
        let mut sc = Ray::new(Vec3::new(0, 0, 0), Vec3::new(0, 0, 0));
        assert!(scatter(&r, &rec, &mut att, &mut sc));
        assert_eq!((att.x, att.y, att.z), (color.x, color.y, color.z));
        assert_eq!((sc.origin.x, sc.origin.y, sc.origin.z), (0, 0, -32768));
    }
}

// A metal hit whose reflection points into the surface is absorbed.
#[test]
fn metal_scatter_into_surface_is_absorbed() {
    let rec = HitRecord {
        t: 32768,
        pos: Vec3::new(0, 0, -32768),
        normal: Vec3::new(0, 0, -FX_ONE),
        material: MaterialType::Metal(Texture::SolidColor(Vec3::new(FX_ONE, FX_ONE, FX_ONE)), 0),
        uv: Vec2::new(0, 0),
    };
    let r = Ray::new(Vec3::new(0, 0, 0), Vec3::new(0, 0, -FX_ONE));
    let mut att = Vec3::new(0, 0, 0);
    let mut sc = Ray::new(Vec3::new(0, 0, 0), Vec3::new(0, 0, 0));
    assert!(!scatter(&r, &rec, &mut att, &mut sc));
    // The attenuation is still the texture color.
    assert_eq!((att.x, att.y, att.z), (FX_ONE, FX_ONE, FX_ONE));
}

#[test]
fn reflect_frontal_is_mirrored() {
    let r = reflect(Vec3::new(0, 0, -FX_ONE), Vec3::new(0, 0, FX_ONE));
    assert_eq!((r.x, r.y, r.z), (0, 0, FX_ONE));
}

#[test]
fn refract_total_internal_reflection_is_zero() {
    let v = Vec3::new(FX_ONE, 0, 0);
    let n = Vec3::new(0, 0, FX_ONE);
    let r = refract(&v, &n, 131072);
    assert_eq!((r.x, r.y, r.z), (0, 0, 0));
}

#[test]
fn random_points_stay_in_unit_sphere() {
    for _ in 0..200 {
        let p = random_in_unit_sphere();
        assert!(v3_dot(p, p) < FX_ONE);
    }
}

// Checkerboard: positive sine product picks the second color, negative
// the first.
#[test]
fn checkerboard_picks_by_sine_sign() {
    let c1 = Vec3::new(13107, 13107, 13107);
    let c2 = Vec3::new(52429, 52429, 52429);
    let tex = Texture::CheckerBoard(c1, c2);
    let uv = Vec2::new(0, 0);
    // 10 * 0.15 = 1.5 rad: all three sines positive, product > 0.
    let pos_pos = Vec3::new(9830, 9830, 9830);
    let got = tex.color(&uv, &pos_pos);
    assert_eq!((got.x, got.y, got.z), (c2.x, c2.y, c2.z));
    // One negative sine makes the product negative.
    let pos_neg = Vec3::new(9830, 9830, -9830);
    let got = tex.color(&uv, &pos_neg);
    assert_eq!((got.x, got.y, got.z), (c1.x, c1.y, c1.z));
}

#[test]
fn solid_texture_returns_its_color() {
    let c = Vec3::new(1, 2, 3);
    let tex = Texture::SolidColor(c);
    let got = tex.color(&Vec2::new(12345, -99), &Vec3::new(7, 8, 9));
    assert_eq!((got.x, got.y, got.z), (1, 2, 3));
}

// Image texture: byte 255 maps to (255/255.99)^2, which is 65028 in
// fixed point; byte 0 maps to 0. The u coordinate is clamped and picks
// the column.
#[test]
fn image_texture_samples_and_clamps() {
    let img = Rc::new(ImageData::new(2, 1, vec![255, 255, 255, 0, 0, 0]));
    let tex = Texture::ImageTexture(img);
    let pos = Vec3::new(0, 0, 0);
    let left = tex.color(&Vec2::new(0, 0), &pos);
    assert_eq!((left.x, left.y, left.z), (65028, 65028, 65028));
    let right = tex.color(&Vec2::new(FX_ONE, 0), &pos);
    assert_eq!((right.x, right.y, right.z), (0, 0, 0));
    // Out-of-range coordinates clamp to the edges.
    let clamped = tex.color(&Vec2::new(-FX_ONE, 9 * FX_ONE), &pos);
    assert_eq!((clamped.x, clamped.y, clamped.z), (65028, 65028, 65028));
}

#[test]
fn camera_ray_points_at_target() {
    let cam = Camera::new(
        Vec3::new(0, 0, 0),
        Vec3::new(0, 0, -FX_ONE),
        Vec3::new(0, FX_ONE, 0),
        90 * FX_ONE,
        FX_ONE,
    );
    assert_eq!((cam.origin.x, cam.origin.y, cam.origin.z), (0, 0, 0));
    // The center of the image plane lies along the view direction.
    let r = cam.get_ray(Vec2::new(32768, 32768));
    assert_eq!((r.origin.x, r.origin.y, r.origin.z), (0, 0, 0));
    assert!(r.direction.z < 0);
    assert!(r.direction.x.abs() < 2048);
    assert!(r.direction.y.abs() < 2048);
    assert!(ray_wf_check(&r));
}

#[test]
fn hit_record_default_is_blank() {
    let rec = HitRecord::new();
    assert_eq!(rec.t, 0);
    assert_eq!((rec.pos.x, rec.pos.y, rec.pos.z), (0, 0, 0));
    assert_eq!((rec.uv.x, rec.uv.y), (0, 0));
}

#[test]
fn ray_at_walks_the_line() {
    let r = Ray::new(Vec3::new(FX_ONE, 0, 0), Vec3::new(0, 0, -FX_ONE));
    let p = r.at(32768);
    assert_eq!((p.x, p.y, p.z), (FX_ONE, 0, -32768));
}

#[test]
fn vector_algebra_basics() {
    let a = v3_add(Vec3::new(1, 2, 3), Vec3::new(10, 20, 30));
    assert_eq!((a.x, a.y, a.z), (11, 22, 33));
    let s = v3_sub(Vec3::new(1, 2, 3), Vec3::new(10, 20, 30));
    assert_eq!((s.x, s.y, s.z), (-9, -18, -27));
    assert_eq!(v3_dot(Vec3::new(FX_ONE, 0, 0), Vec3::new(FX_ONE, 0, 0)), FX_ONE);
}
