//! The sphere primitive.

use vstd::prelude::*;
use crate::fx::{FX_ONE, fx_abs, fmul, fx_prod_max, fx_mul, fx_sqrt, sqrt_floor, lemma_fmul_bound};
use crate::material::Material;
use crate::ray_intersect::{
    HitInfo, HS, RayIntersect, opt_hit_view, hit_wf, POS_MAX, WORLD_MAX, ORIGIN_MAX, DIST_MAX,
};
use crate::vector::{
    Vector3, V3, v3, in_range, add_s, sub_s, scale_s, dot_s, normalize_s, lemma_dot_bound,
    lemma_normalize_unit,
};

verus! {

/// A sphere: center, radius and the material of its surface.
#[derive(Clone, Copy, Debug)]
pub struct Sphere {
    pub center: Vector3,
    pub radius: i64,
    pub material: Material,
}

/// The nearest positive intersection of a ray with a sphere, or `None`: the
/// standard quadratic solved through the projection `tca` of the
/// center-to-origin vector onto the ray. The smaller root wins; a root behind
/// the origin falls back to the larger one; hits beyond the world volume
/// count as misses.
pub open spec fn sphere_hit_s(s: Sphere, ro: V3, rd: V3) -> Option<HS> {
    let l = sub_s(s.center@, ro);
    let tca = dot_s(l, rd);
    let ll = dot_s(l, l);
    let d2 = ll - fmul(tca, tca);
    let radius2 = fmul(s.radius as int, s.radius as int);
    if d2 > radius2 {
        Option::None
    } else {
        let thc = sqrt_floor(((radius2 - d2) * FX_ONE) as nat) as int;
        let t0 = tca - thc;
        let t1 = tca + thc;
        let t = if t0 <= 0 {
            t1
        } else {
            t0
        };
        if t <= 0 || t > DIST_MAX {
            Option::None
        } else {
            let hp = add_s(ro, scale_s(rd, t));
            if !in_range(hp, WORLD_MAX as int) {
                Option::None
            } else {
                let n = normalize_s(sub_s(hp, s.center@));
                Option::Some(
                    HS {
                        point: hp,
                        local_point: sub_s(hp, s.center@),
                        local_half_size: v3(s.radius as int, s.radius as int, s.radius as int),
                        normal: n,
                        local_normal: n,
                        distance: t,
                        material: s.material,
                        repeat_u: FX_ONE as int,
                        repeat_v: FX_ONE as int,
                    },
                )
            }
        }
    }
}

/// Bounds of the intermediate quantities of `sphere_hit_s`, for rays from
/// inside the accepted origin volume.
proof fn lemma_sphere_mids(s: Sphere, ro: V3, rd: V3)
    requires
        in_range(s.center@, POS_MAX as int),
        0 <= s.radius <= POS_MAX,
        in_range(ro, ORIGIN_MAX as int),
        in_range(rd, FX_ONE as int),
    ensures
        ({
            let l = sub_s(s.center@, ro);
            let tca = dot_s(l, rd);
            let ll = dot_s(l, l);
            &&& in_range(l, 0x11_0000_0000)
            &&& fx_abs(l.x * rd.x) <= fx_prod_max() / 4
            &&& fx_abs(l.y * rd.y) <= fx_prod_max() / 4
            &&& fx_abs(l.z * rd.z) <= fx_prod_max() / 4
            &&& fx_abs(l.x * l.x) <= fx_prod_max() / 4
            &&& fx_abs(l.y * l.y) <= fx_prod_max() / 4
            &&& fx_abs(l.z * l.z) <= fx_prod_max() / 4
            &&& fx_abs(tca) <= 0x33_0000_0000
            &&& fx_abs(tca * tca) <= fx_prod_max()
            &&& fx_abs(ll) <= 0x3630_0000_0000_0000
            &&& fx_abs((s.radius as int) * (s.radius as int)) <= fx_prod_max()
            &&& fx_abs(fmul(tca, tca)) <= 0x4000_0000_0000_0000
            &&& fx_abs(fmul(s.radius as int, s.radius as int)) <= 0x1_0000_0000_0000
        }),
{
    let l = sub_s(s.center@, ro);
    lemma_dot_bound(l, rd, 0x11_0000_0000, FX_ONE as int);
    lemma_dot_bound(l, l, 0x11_0000_0000, 0x11_0000_0000);
    let tca = dot_s(l, rd);
    crate::fx::lemma_mul_le(tca, 0x33_0000_0000, tca, 0x33_0000_0000);
    lemma_fmul_bound(tca, tca, 0x33_0000_0000, 0x33_0000_0000);
    crate::fx::lemma_mul_le(s.radius as int, POS_MAX as int, s.radius as int, POS_MAX as int);
    lemma_fmul_bound(s.radius as int, s.radius as int, POS_MAX as int, POS_MAX as int);
}

impl RayIntersect for Sphere {
    open spec fn rwf(&self) -> bool {
        &&& in_range(self.center@, POS_MAX as int)
        &&& 0 <= self.radius <= POS_MAX
        &&& self.material.wf()
    }

    open spec fn hit_s(&self, ro: V3, rd: V3) -> Option<HS> {
        sphere_hit_s(*self, ro, rd)
    }

    proof fn lemma_hit_wf(&self, ro: V3, rd: V3) {
        lemma_sphere_mids(*self, ro, rd);
        let l = sub_s(self.center@, ro);
        let tca = dot_s(l, rd);
        let ll = dot_s(l, l);
        let d2 = ll - fmul(tca, tca);
        let radius2 = fmul(self.radius as int, self.radius as int);
        if d2 <= radius2 {
            let thc = sqrt_floor(((radius2 - d2) * FX_ONE) as nat) as int;
            let t0 = tca - thc;
            let t1 = tca + thc;
            let t = if t0 <= 0 {
                t1
            } else {
                t0
            };
            if 0 < t <= DIST_MAX {
                let hp = add_s(ro, scale_s(rd, t));
                if in_range(hp, WORLD_MAX as int) {
                    lemma_normalize_unit(sub_s(hp, self.center@));
                }
            }
        }
    }

    fn ray_intersect(&self, ray_origin: &Vector3, ray_direction: &Vector3) -> (r: Option<
        HitInfo,
    >) {
        proof {
            lemma_sphere_mids(*self, ray_origin@, ray_direction@);
        }
        let l = self.center.vsub(ray_origin);
        let tca = l.dot(ray_direction);
        let ll = l.dot(&l);
        let d2 = ll - fx_mul(tca, tca);
        let radius2 = fx_mul(self.radius, self.radius);
        if d2 > radius2 {
            return Option::None;
        }
        let thc = fx_sqrt(radius2 - d2);
        let t0 = tca - thc;
        let t1 = tca + thc;
        let t = if t0 <= 0 {
            t1
        } else {
            t0
        };
        if t <= 0 || t > DIST_MAX {
            return Option::None;
        }
        proof {
            lemma_fmul_bound(ray_direction@.x, t as int, FX_ONE as int, DIST_MAX as int);
            lemma_fmul_bound(ray_direction@.y, t as int, FX_ONE as int, DIST_MAX as int);
            lemma_fmul_bound(ray_direction@.z, t as int, FX_ONE as int, DIST_MAX as int);
        }
        let hp = ray_origin.vadd(&ray_direction.vscale(t));
        if !hp.check_range(WORLD_MAX) {
            return Option::None;
        }
        let lp = hp.vsub(&self.center);
        let n = lp.normalized();
        Option::Some(
            HitInfo {
                point: hp,
                local_point: lp,
                local_half_size: Vector3 { x: self.radius, y: self.radius, z: self.radius },
                normal: n,
                local_normal: n,
                distance: t,
                material: self.material,
                texture_repeat: (FX_ONE, FX_ONE),
            },
        )
    }
}

} // verus!
