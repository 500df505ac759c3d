//! Rays and hit records.

use vstd::prelude::*;
use crate::fx::MUL_CAP;
use crate::vec3::Vec3;
use crate::vec3::Vec2;
use crate::vec3::v3_in;
use crate::vec3::v3_add_spec;
use crate::vec3::v3_scale_spec;
use crate::vec3::v3_add;
use crate::vec3::v3_scale;
use crate::vec3::dot_spec;
use crate::material::MaterialType;
use crate::material::mat_wf;
use crate::texture::Texture;

verus! {

/// Largest coordinate magnitude of a ray origin (2^32, about 65536
/// world units in fixed point).
pub const ORIGIN_CAP: i128 = 4294967296;

/// Largest coordinate magnitude of a ray direction (2^36).
pub const DIR_CAP: i128 = 68719476736;

/// A parametric line `origin + t * direction`.
#[derive(Clone, Copy, PartialEq, Eq, Structural)]
pub struct Ray {
    pub origin: Vec3,
    pub direction: Vec3,
}

/// A ray the intersection routines accept: bounded coordinates and a
/// direction of scaled square magnitude at least one, so it can be
/// normalized.
pub open spec fn ray_wf(r: Ray) -> bool {
    &&& v3_in(r.origin, ORIGIN_CAP as int)
    &&& v3_in(r.direction, DIR_CAP as int)
    &&& dot_spec(r.direction, r.direction) >= 1
}

pub open spec fn ray_at_spec(r: Ray, t: int) -> Vec3 {
    v3_add_spec(r.origin, v3_scale_spec(t, r.direction))
}

impl Ray {
    pub fn new(origin: Vec3, direction: Vec3) -> (r: Ray)
        ensures
            r == (Ray { origin, direction }),
    {
        Ray { origin, direction }
    }

    /// The point at parameter `t` along the ray.
    pub fn at(&self, t: i128) -> (p: Vec3)
        requires
            -MUL_CAP <= t <= MUL_CAP,
            v3_in(self.direction, MUL_CAP as int),
            v3_in(self.origin, crate::vec3::ADD_CAP as int),
            v3_in(v3_scale_spec(t as int, self.direction), crate::vec3::ADD_CAP as int),
        ensures
            p == ray_at_spec(*self, t as int),
    {
        v3_add(self.origin, v3_scale(t, self.direction))
    }
}

/// The result of a successful intersection query: the ray parameter,
/// the world-space hit point, the surface normal there, the material
/// copied out of the surface, and the surface coordinates.
pub struct HitRecord {
    pub t: i128,
    pub pos: Vec3,
    pub normal: Vec3,
    pub material: MaterialType,
    pub uv: Vec2,
}

impl HitRecord {
    /// A blank record: all zeroes with a black Lambertian material.
    pub fn new() -> (r: HitRecord)
        ensures
            r.t == 0,
            r.pos == (Vec3 { x: 0, y: 0, z: 0 }),
            r.normal == (Vec3 { x: 0, y: 0, z: 0 }),
            r.material == MaterialType::Lambert(
                Texture::SolidColor(Vec3 { x: 0, y: 0, z: 0 }),
                0,
            ),
            r.uv == (Vec2 { x: 0, y: 0 }),
    {
        HitRecord {
            t: 0,
            pos: Vec3 { x: 0, y: 0, z: 0 },
            normal: Vec3 { x: 0, y: 0, z: 0 },
            material: MaterialType::Lambert(Texture::SolidColor(Vec3 { x: 0, y: 0, z: 0 }), 0),
            uv: Vec2 { x: 0, y: 0 },
        }
    }
}

impl Clone for HitRecord {
    /// A deep value copy.
    fn clone(&self) -> (r: Self)
        ensures
            r == *self,
    {
        HitRecord {
            t: self.t,
            pos: self.pos,
            normal: self.normal,
            material: self.material.clone(),
            uv: self.uv,
        }
    }
}

/// Validity of a record handed to the scattering routine: bounded hit
/// point, a normal small enough to reflect about, and a valid material.
pub open spec fn rec_wf(r: HitRecord) -> bool {
    &&& v3_in(r.pos, ORIGIN_CAP as int)
    &&& v3_in(r.normal, 1048576)  // 2^20
    &&& mat_wf(r.material)
}

} // verus!
