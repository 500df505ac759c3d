//! Surface materials: a closed set of three scattering policies, each
//! wrapping a texture and its roughness or refraction parameters.

use vstd::prelude::*;
use crate::fx::FX_ONE;
use crate::texture::Texture;
use crate::texture::tex_wf;

verus! {

/// A material: Lambertian diffuse, metallic reflection, or a dielectric
/// with Fresnel-weighted reflection and refraction. The trailing
/// fixed-point field is the roughness; the dielectric's middle field is
/// its refractive index.
pub enum MaterialType {
    Lambert(Texture, i128),
    Metal(Texture, i128),
    Dielectric(Texture, i128, i128),
}

/// Validity: the texture is well formed, roughness lies in `[0, 1]`,
/// and a refractive index is positive and at most 16.
pub open spec fn mat_wf(m: MaterialType) -> bool {
    match m {
        MaterialType::Lambert(t, rough) => tex_wf(t) && 0 <= rough <= FX_ONE,
        MaterialType::Metal(t, rough) => tex_wf(t) && 0 <= rough <= FX_ONE,
        MaterialType::Dielectric(t, ri, rough) => tex_wf(t) && 0 <= rough <= FX_ONE && 1 <= ri
            <= 1048576,
    }
}

/// The texture a material consults for its attenuation color.
pub open spec fn mat_texture(m: MaterialType) -> Texture {
    match m {
        MaterialType::Lambert(t, _) => t,
        MaterialType::Metal(t, _) => t,
        MaterialType::Dielectric(t, _, _) => t,
    }
}

impl Clone for MaterialType {
    /// A deep value copy.
    fn clone(&self) -> (r: Self)
        ensures
            r == *self,
    {
        match self {
            MaterialType::Lambert(t, rough) => MaterialType::Lambert(t.clone(), *rough),
            MaterialType::Metal(t, rough) => MaterialType::Metal(t.clone(), *rough),
            MaterialType::Dielectric(t, ri, rough) => MaterialType::Dielectric(
                t.clone(),
                *ri,
                *rough,
            ),
        }
    }
}

} // verus!
