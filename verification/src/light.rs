//! Point lights.

use vstd::prelude::*;
use crate::material::{color_unit, EMISSION_MAX};
use crate::vector::{Vector3, in_range};
use crate::ray_intersect::POS_MAX;

verus! {

/// A point light: position in world space, linear color, scalar intensity.
#[derive(Clone, Copy, Debug)]
pub struct Light {
    pub position: Vector3,
    pub color: Vector3,
    pub intensity: i64,
}

impl Light {
    /// The ranges the shader relies on: a position inside the world volume, a
    /// unit color, a nonnegative bounded intensity.
    pub open spec fn wf(self) -> bool {
        &&& in_range(self.position@, POS_MAX as int)
        &&& color_unit(self.color@)
        &&& 0 <= self.intensity <= EMISSION_MAX
    }
}

} // verus!
