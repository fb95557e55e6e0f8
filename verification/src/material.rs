//! Per-surface optical properties consumed by the shader.

use vstd::prelude::*;
use crate::fx::FX_ONE;
use crate::vector::{Vector3, V3};

verus! {

/// Largest emission strength and light intensity the shader accepts
/// (2^26 in world units, at the fixed-point scale).
pub const EMISSION_MAX: i64 = 0x400_0000_0000;

/// The refractive indices the shader accepts: 1/16 to 16 at the fixed-point
/// scale, so that the index ratio of Snell's law stays within range.
pub const REFRACT_MIN: i64 = 0x1000;

pub const REFRACT_MAX: i64 = 0x10_0000;

/// A color whose components lie in `[0, 1]` at the fixed-point scale.
pub open spec fn color_unit(c: V3) -> bool {
    0 <= c.x <= FX_ONE && 0 <= c.y <= FX_ONE && 0 <= c.z <= FX_ONE
}

/// A color with nonnegative components within `b`.
pub open spec fn color_in(c: V3, b: int) -> bool {
    0 <= c.x <= b && 0 <= c.y <= b && 0 <= c.z <= b
}

/// An immutable surface description. Colors and the coefficients in `[0, 1]`
/// are fixed-point values; `specular` is the whole-number Blinn-Phong
/// exponent; `texture` names an entry of the `TextureManager`, and its absence
/// means the plain diffuse color is used.
#[derive(Clone, Copy, Debug)]
pub struct Material {
    pub diffuse: Vector3,
    pub specular: u32,
    pub reflectivity: i64,
    pub transparency: i64,
    pub refractive_index: i64,
    pub albedo_diffuse: i64,
    pub albedo_specular: i64,
    pub texture: Option<usize>,
    pub emissive: Vector3,
    pub emission: i64,
}

impl Material {
    /// The ranges the shader relies on: unit colors and blending weights, a
    /// positive refractive index, and a bounded emission strength.
    pub open spec fn wf(self) -> bool {
        &&& color_unit(self.diffuse@)
        &&& 0 <= self.reflectivity <= FX_ONE
        &&& 0 <= self.transparency <= FX_ONE
        &&& REFRACT_MIN <= self.refractive_index <= REFRACT_MAX
        &&& 0 <= self.albedo_diffuse <= FX_ONE
        &&& 0 <= self.albedo_specular <= FX_ONE
        &&& color_unit(self.emissive@)
        &&& 0 <= self.emission <= EMISSION_MAX
    }
}

} // verus!
