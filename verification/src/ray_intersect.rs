//! The intersection interface: hit records, the world-scale bounds every ray
//! query observes, and the trait the primitives implement.

use vstd::prelude::*;
use crate::fx::FX_ONE;
use crate::material::Material;
use crate::vector::{Vector3, V3, in_range};

verus! {

/// Largest magnitude of scene data (centers, half-extents, radii, light
/// positions), at the fixed-point scale.
pub const POS_MAX: i64 = 0x1_0000_0000;

/// Largest magnitude of a returned hit point or local hit point; farther
/// intersections are reported as misses, keeping every later product inside
/// the fixed-point range.
pub const WORLD_MAX: i64 = 0x8_0000_0000;

/// Largest magnitude of a ray origin the queries accept: one step of surface
/// offset beyond `WORLD_MAX`.
pub const ORIGIN_MAX: i64 = 0x10_0000_0000;

/// Largest hit distance reported; farther intersections count as misses.
pub const DIST_MAX: i64 = 0x20_0000_0000;

/// Largest texture repeat factor (256 at the fixed-point scale).
pub const REPEAT_MAX: i64 = 0x100_0000;

/// A successful intersection: world- and local-frame geometry, the distance
/// along the ray, the surface material and its texture tiling. It lives only
/// for the duration of one query.
#[derive(Clone, Copy, Debug)]
pub struct HitInfo {
    /// Hit point in world space.
    pub point: Vector3,
    /// Hit point in the primitive's local frame, for UV mapping.
    pub local_point: Vector3,
    /// The primitive's local half-extents, for UV mapping.
    pub local_half_size: Vector3,
    /// Surface normal in world space.
    pub normal: Vector3,
    /// Surface normal in the local frame, for face identification.
    pub local_normal: Vector3,
    /// Distance from the ray origin to the hit point; always positive.
    pub distance: i64,
    /// The material of the primitive that was hit.
    pub material: Material,
    /// Texture tiling factors along u and v.
    pub texture_repeat: (i64, i64),
}

/// The mathematical value of a hit record.
pub ghost struct HS {
    pub point: V3,
    pub local_point: V3,
    pub local_half_size: V3,
    pub normal: V3,
    pub local_normal: V3,
    pub distance: int,
    pub material: Material,
    pub repeat_u: int,
    pub repeat_v: int,
}

impl View for HitInfo {
    type V = HS;

    open spec fn view(&self) -> HS {
        HS {
            point: self.point@,
            local_point: self.local_point@,
            local_half_size: self.local_half_size@,
            normal: self.normal@,
            local_normal: self.local_normal@,
            distance: self.distance as int,
            material: self.material,
            repeat_u: self.texture_repeat.0 as int,
            repeat_v: self.texture_repeat.1 as int,
        }
    }
}

/// The hit record of an `Option`-valued query, at the ghost level.
pub open spec fn opt_hit_view(r: Option<HitInfo>) -> Option<HS> {
    match r {
        Option::None => Option::None,
        Option::Some(h) => Option::Some(h@),
    }
}

/// The bounds every returned hit record observes: geometry inside the world
/// volume, unit-scale normals, a positive bounded distance, a well-formed
/// material, nonnegative half-extents and tiling factors.
pub open spec fn hit_wf(h: HS) -> bool {
    &&& in_range(h.point, WORLD_MAX as int)
    &&& in_range(h.local_point, DIST_MAX as int)
    &&& 0 <= h.local_half_size.x <= POS_MAX
    &&& 0 <= h.local_half_size.y <= POS_MAX
    &&& 0 <= h.local_half_size.z <= POS_MAX
    &&& in_range(h.normal, FX_ONE as int)
    &&& in_range(h.local_normal, FX_ONE as int)
    &&& 0 < h.distance <= DIST_MAX
    &&& h.material.wf()
    &&& 0 <= h.repeat_u <= REPEAT_MAX
    &&& 0 <= h.repeat_v <= REPEAT_MAX
}

/// A ray query against one primitive: the nearest positive-distance
/// intersection, or `None`. The direction is taken as given; all distance
/// math assumes the caller hands a unit direction.
pub trait RayIntersect {
    /// The validity bounds of the primitive's own data.
    spec fn rwf(&self) -> bool;

    /// The mathematical value of the query.
    spec fn hit_s(&self, ro: V3, rd: V3) -> Option<HS>;

    /// Every hit the query reports observes the world bounds.
    proof fn lemma_hit_wf(&self, ro: V3, rd: V3)
        requires
            self.rwf(),
            in_range(ro, ORIGIN_MAX as int),
            in_range(rd, FX_ONE as int),
        ensures
            self.hit_s(ro, rd) matches Option::Some(h) ==> hit_wf(h),
    ;

    fn ray_intersect(&self, ray_origin: &Vector3, ray_direction: &Vector3) -> (r: Option<
        HitInfo,
    >)
        requires
            self.rwf(),
            in_range(ray_origin@, ORIGIN_MAX as int),
            in_range(ray_direction@, FX_ONE as int),
        ensures
            opt_hit_view(r) == self.hit_s(ray_origin@, ray_direction@),
    ;
}

} // verus!
