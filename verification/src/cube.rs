//! The box primitive: a slab test in the primitive's local rotated frame.

use vstd::prelude::*;
use crate::fx::{FX_ONE, fx_abs, fdiv, fx_div, fx_prod_max, fmul, lemma_fdiv_bound, lemma_fmul_bound};
use crate::material::Material;
use crate::ray_intersect::{
    HitInfo, HS, RayIntersect, opt_hit_view, hit_wf, POS_MAX, WORLD_MAX, ORIGIN_MAX, DIST_MAX,
    REPEAT_MAX,
};
use crate::vector::{
    Vector3, V3, v3, in_range, add_s, sub_s, scale_s, dot_s, normalize_s, lemma_dot_bound,
    lemma_normalize_unit,
};

verus! {

/// A rotation held as its three rows: the world-to-local change of basis.
/// The rows are expected to be unit vectors; the inverse rotation is the
/// transpose.
#[derive(Clone, Copy, Debug)]
pub struct Mat3 {
    pub r0: Vector3,
    pub r1: Vector3,
    pub r2: Vector3,
}

/// Applying three rows to a vector.
pub open spec fn mat_apply_s(r0: V3, r1: V3, r2: V3, v: V3) -> V3 {
    v3(dot_s(r0, v), dot_s(r1, v), dot_s(r2, v))
}

pub open spec fn col0_s(m: Mat3) -> V3 {
    v3(m.r0@.x, m.r1@.x, m.r2@.x)
}

pub open spec fn col1_s(m: Mat3) -> V3 {
    v3(m.r0@.y, m.r1@.y, m.r2@.y)
}

pub open spec fn col2_s(m: Mat3) -> V3 {
    v3(m.r0@.z, m.r1@.z, m.r2@.z)
}

/// All nine entries within one unit.
pub open spec fn mat_unit(m: Mat3) -> bool {
    in_range(m.r0@, FX_ONE as int) && in_range(m.r1@, FX_ONE as int) && in_range(
        m.r2@,
        FX_ONE as int,
    )
}

impl Mat3 {
    /// The identity rotation.
    pub fn identity() -> (r: Mat3)
        ensures
            r.r0@ == v3(FX_ONE as int, 0, 0),
            r.r1@ == v3(0, FX_ONE as int, 0),
            r.r2@ == v3(0, 0, FX_ONE as int),
            mat_unit(r),
    {
        Mat3 {
            r0: Vector3 { x: FX_ONE, y: 0, z: 0 },
            r1: Vector3 { x: 0, y: FX_ONE, z: 0 },
            r2: Vector3 { x: 0, y: 0, z: FX_ONE },
        }
    }

    /// The rotation applied to a vector.
    pub fn apply(&self, v: &Vector3) -> (r: Vector3)
        requires
            mat_unit(*self),
            in_range(v@, 0x40_0000_0000),
        ensures
            r@ == mat_apply_s(self.r0@, self.r1@, self.r2@, v@),
    {
        proof {
            lemma_dot_bound(self.r0@, v@, FX_ONE as int, 0x40_0000_0000);
            lemma_dot_bound(self.r1@, v@, FX_ONE as int, 0x40_0000_0000);
            lemma_dot_bound(self.r2@, v@, FX_ONE as int, 0x40_0000_0000);
        }
        Vector3 { x: self.r0.dot(v), y: self.r1.dot(v), z: self.r2.dot(v) }
    }

    /// The inverse (transposed) rotation applied to a vector.
    pub fn transpose_apply(&self, v: &Vector3) -> (r: Vector3)
        requires
            mat_unit(*self),
            in_range(v@, 0x40_0000_0000),
        ensures
            r@ == mat_apply_s(col0_s(*self), col1_s(*self), col2_s(*self), v@),
    {
        let c0 = Vector3 { x: self.r0.x, y: self.r1.x, z: self.r2.x };
        let c1 = Vector3 { x: self.r0.y, y: self.r1.y, z: self.r2.y };
        let c2 = Vector3 { x: self.r0.z, y: self.r1.z, z: self.r2.z };
        proof {
            lemma_dot_bound(c0@, v@, FX_ONE as int, 0x40_0000_0000);
            lemma_dot_bound(c1@, v@, FX_ONE as int, 0x40_0000_0000);
            lemma_dot_bound(c2@, v@, FX_ONE as int, 0x40_0000_0000);
        }
        Vector3 { x: c0.dot(v), y: c1.dot(v), z: c2.dot(v) }
    }
}

/// An axis-aligned box in its local frame: placed at `center`, rotated by
/// `rot` (world to local), extending `half_size` from the local origin.
#[derive(Clone, Copy, Debug)]
pub struct Cube {
    pub center: Vector3,
    pub half_size: Vector3,
    pub rot: Mat3,
    pub material: Material,
    pub texture_repeat: (i64, i64),
}

/// The sentinel standing for an unbounded slab interval; larger than any
/// accepted hit distance.
pub const T_INF: i64 = 0x1000_0000_0000_0000;

/// Where the ray enters a slab: the smaller of the two face parameters.
pub open spec fn slab_t1(ro: int, rd: int, h: int) -> int
    recommends
        rd != 0,
{
    let ta = fdiv(-h - ro, rd);
    let tb = fdiv(h - ro, rd);
    if ta <= tb {
        ta
    } else {
        tb
    }
}

/// Where the ray leaves a slab: the larger of the two face parameters.
pub open spec fn slab_t2(ro: int, rd: int, h: int) -> int
    recommends
        rd != 0,
{
    let ta = fdiv(-h - ro, rd);
    let tb = fdiv(h - ro, rd);
    if ta <= tb {
        tb
    } else {
        ta
    }
}

pub open spec fn max3(a: int, b: int, c: int) -> int {
    if a >= b && a >= c {
        a
    } else if b >= c {
        b
    } else {
        c
    }
}

pub open spec fn min3(a: int, b: int, c: int) -> int {
    if a <= b && a <= c {
        a
    } else if b <= c {
        b
    } else {
        c
    }
}

/// The outward local normal of the face the ray enters through, on the axis
/// picked by the slab test: against the ray's sign on that axis.
pub open spec fn enter_normal(rd: int, axis: int) -> V3 {
    let s: int = if rd > 0 {
        -(FX_ONE as int)
    } else {
        FX_ONE as int
    };
    if axis == 0 {
        v3(s, 0, 0)
    } else if axis == 1 {
        v3(0, s, 0)
    } else {
        v3(0, 0, s)
    }
}

/// The outward local normal of the face the ray leaves through: along the
/// ray's sign on that axis.
pub open spec fn exit_normal(rd: int, axis: int) -> V3 {
    let s: int = if rd > 0 {
        FX_ONE as int
    } else {
        -(FX_ONE as int)
    };
    if axis == 0 {
        v3(s, 0, 0)
    } else if axis == 1 {
        v3(0, s, 0)
    } else {
        v3(0, 0, s)
    }
}

/// The nearest positive intersection of a ray with a box, or `None`: the ray
/// is carried into the local frame, each axis bounds the parameter to a slab
/// interval, and the intervals must overlap. A slab with no motion along its
/// axis accepts the ray only when the origin already lies inside it. The
/// world point and normal come back through the inverse rotation; hits beyond
/// the world volume count as misses.
pub open spec fn cube_hit_s(c: Cube, ro: V3, rd: V3) -> Option<HS> {
    let rol = mat_apply_s(c.rot.r0@, c.rot.r1@, c.rot.r2@, sub_s(ro, c.center@));
    let rdl = mat_apply_s(c.rot.r0@, c.rot.r1@, c.rot.r2@, rd);
    let h = c.half_size@;
    if rdl.x == 0 && (rol.x < -h.x || rol.x > h.x) {
        Option::None
    } else if rdl.y == 0 && (rol.y < -h.y || rol.y > h.y) {
        Option::None
    } else if rdl.z == 0 && (rol.z < -h.z || rol.z > h.z) {
        Option::None
    } else {
        let t1x = if rdl.x == 0 {
            -(T_INF as int)
        } else {
            slab_t1(rol.x, rdl.x, h.x)
        };
        let t1y = if rdl.y == 0 {
            -(T_INF as int)
        } else {
            slab_t1(rol.y, rdl.y, h.y)
        };
        let t1z = if rdl.z == 0 {
            -(T_INF as int)
        } else {
            slab_t1(rol.z, rdl.z, h.z)
        };
        let t2x = if rdl.x == 0 {
            T_INF as int
        } else {
            slab_t2(rol.x, rdl.x, h.x)
        };
        let t2y = if rdl.y == 0 {
            T_INF as int
        } else {
            slab_t2(rol.y, rdl.y, h.y)
        };
        let t2z = if rdl.z == 0 {
            T_INF as int
        } else {
            slab_t2(rol.z, rdl.z, h.z)
        };
        let tmin = max3(t1x, t1y, t1z);
        let tmax = min3(t2x, t2y, t2z);
        if tmin > tmax {
            Option::None
        } else {
            let t = if tmin > 0 {
                tmin
            } else {
                tmax
            };
            if t <= 0 || t > DIST_MAX {
                Option::None
            } else {
                let ln = if tmin > 0 {
                    if tmin == t1x {
                        enter_normal(rdl.x, 0)
                    } else if tmin == t1y {
                        enter_normal(rdl.y, 1)
                    } else {
                        enter_normal(rdl.z, 2)
                    }
                } else {
                    if tmax == t2x {
                        exit_normal(rdl.x, 0)
                    } else if tmax == t2y {
                        exit_normal(rdl.y, 1)
                    } else {
                        exit_normal(rdl.z, 2)
                    }
                };
                let lp = add_s(rol, scale_s(rdl, t));
                if !in_range(lp, WORLD_MAX as int) {
                    Option::None
                } else {
                    let wp = add_s(
                        c.center@,
                        mat_apply_s(col0_s(c.rot), col1_s(c.rot), col2_s(c.rot), lp),
                    );
                    if !in_range(wp, WORLD_MAX as int) {
                        Option::None
                    } else {
                        let wn = normalize_s(
                            mat_apply_s(col0_s(c.rot), col1_s(c.rot), col2_s(c.rot), ln),
                        );
                        Option::Some(
                            HS {
                                point: wp,
                                local_point: lp,
                                local_half_size: h,
                                normal: wn,
                                local_normal: ln,
                                distance: t,
                                material: c.material,
                                repeat_u: c.texture_repeat.0 as int,
                                repeat_v: c.texture_repeat.1 as int,
                            },
                        )
                    }
                }
            }
        }
    }
}

/// Bounds of the local-frame quantities of `cube_hit_s`.
proof fn lemma_cube_mids(c: Cube, ro: V3, rd: V3)
    requires
        in_range(c.center@, POS_MAX as int),
        mat_unit(c.rot),
        0 <= c.half_size@.x <= POS_MAX,
        0 <= c.half_size@.y <= POS_MAX,
        0 <= c.half_size@.z <= POS_MAX,
        in_range(ro, ORIGIN_MAX as int),
        in_range(rd, FX_ONE as int),
    ensures
        ({
            let rol = mat_apply_s(c.rot.r0@, c.rot.r1@, c.rot.r2@, sub_s(ro, c.center@));
            let rdl = mat_apply_s(c.rot.r0@, c.rot.r1@, c.rot.r2@, rd);
            &&& in_range(sub_s(ro, c.center@), 0x11_0000_0000)
            &&& in_range(rol, 0x33_0000_0000)
            &&& in_range(rdl, 0x3_0001)
        }),
{
    let d = sub_s(ro, c.center@);
    lemma_dot_bound(c.rot.r0@, d, FX_ONE as int, 0x11_0000_0000);
    lemma_dot_bound(c.rot.r1@, d, FX_ONE as int, 0x11_0000_0000);
    lemma_dot_bound(c.rot.r2@, d, FX_ONE as int, 0x11_0000_0000);
    lemma_dot_bound(c.rot.r0@, rd, FX_ONE as int, FX_ONE as int);
    lemma_dot_bound(c.rot.r1@, rd, FX_ONE as int, FX_ONE as int);
    lemma_dot_bound(c.rot.r2@, rd, FX_ONE as int, FX_ONE as int);
}

/// The slab parameters stay within the accepted quotient range.
proof fn lemma_slab_bounds(ro: int, rd: int, h: int)
    requires
        rd != 0,
        fx_abs(ro) <= 0x33_0000_0000,
        0 <= h <= POS_MAX,
    ensures
        fx_abs(fdiv(-h - ro, rd)) <= 0x34_0000_0000_0000,
        fx_abs(fdiv(h - ro, rd)) <= 0x34_0000_0000_0000,
        fx_abs(slab_t1(ro, rd, h)) <= 0x34_0000_0000_0000,
        fx_abs(slab_t2(ro, rd, h)) <= 0x34_0000_0000_0000,
{
    lemma_fdiv_bound(-h - ro, rd);
    lemma_fdiv_bound(h - ro, rd);
    assert(fx_abs(-h - ro) * FX_ONE <= 0x34_0000_0000 * 0x10000) by (nonlinear_arith)
        requires
            fx_abs(-h - ro) <= 0x34_0000_0000,
    ;
    assert(fx_abs(h - ro) * FX_ONE <= 0x34_0000_0000 * 0x10000) by (nonlinear_arith)
        requires
            fx_abs(h - ro) <= 0x34_0000_0000,
    ;
}

impl Cube {
    /// A box with a given placement; the rotation rows must be unit vectors.
    pub fn new(
        center: Vector3,
        half_size: Vector3,
        rot: Mat3,
        material: Material,
        texture_repeat: (i64, i64),
    ) -> (r: Cube)
        ensures
            r.center == center,
            r.half_size == half_size,
            r.rot == rot,
            r.material == material,
            r.texture_repeat == texture_repeat,
    {
        Cube { center, half_size, rot, material, texture_repeat }
    }
}

impl RayIntersect for Cube {
    open spec fn rwf(&self) -> bool {
        &&& in_range(self.center@, POS_MAX as int)
        &&& 0 <= self.half_size@.x <= POS_MAX
        &&& 0 <= self.half_size@.y <= POS_MAX
        &&& 0 <= self.half_size@.z <= POS_MAX
        &&& mat_unit(self.rot)
        &&& self.material.wf()
        &&& 0 <= self.texture_repeat.0 <= REPEAT_MAX
        &&& 0 <= self.texture_repeat.1 <= REPEAT_MAX
    }

    open spec fn hit_s(&self, ro: V3, rd: V3) -> Option<HS> {
        cube_hit_s(*self, ro, rd)
    }

    proof fn lemma_hit_wf(&self, ro: V3, rd: V3) {
        lemma_cube_mids(*self, ro, rd);
        match cube_hit_s(*self, ro, rd) {
            Option::Some(h) => {
                lemma_normalize_unit(
                    mat_apply_s(
                        col0_s(self.rot),
                        col1_s(self.rot),
                        col2_s(self.rot),
                        h.local_normal,
                    ),
                );
            },
            Option::None => {},
        }
    }

    #[verifier::rlimit(60)]
    fn ray_intersect(&self, ray_origin: &Vector3, ray_direction: &Vector3) -> (r: Option<
        HitInfo,
    >) {
        proof {
            lemma_cube_mids(*self, ray_origin@, ray_direction@);
        }
        let rol = self.rot.apply(&ray_origin.vsub(&self.center));
        let rdl = self.rot.apply(ray_direction);
        let h = self.half_size;
        if rdl.x == 0 && (rol.x < -h.x || rol.x > h.x) {
            return Option::None;
        }
        if rdl.y == 0 && (rol.y < -h.y || rol.y > h.y) {
            return Option::None;
        }
        if rdl.z == 0 && (rol.z < -h.z || rol.z > h.z) {
            return Option::None;
        }
        proof {
            if rdl@.x != 0 {
                lemma_slab_bounds(rol@.x, rdl@.x, h@.x);
            }
            if rdl@.y != 0 {
                lemma_slab_bounds(rol@.y, rdl@.y, h@.y);
            }
            if rdl@.z != 0 {
                lemma_slab_bounds(rol@.z, rdl@.z, h@.z);
            }
        }
        let t1x = if rdl.x == 0 {
            -T_INF
        } else {
            slab_enter(rol.x, rdl.x, h.x)
        };
        let t1y = if rdl.y == 0 {
            -T_INF
        } else {
            slab_enter(rol.y, rdl.y, h.y)
        };
        let t1z = if rdl.z == 0 {
            -T_INF
        } else {
            slab_enter(rol.z, rdl.z, h.z)
        };
        let t2x = if rdl.x == 0 {
            T_INF
        } else {
            slab_exit(rol.x, rdl.x, h.x)
        };
        let t2y = if rdl.y == 0 {
            T_INF
        } else {
            slab_exit(rol.y, rdl.y, h.y)
        };
        let t2z = if rdl.z == 0 {
            T_INF
        } else {
            slab_exit(rol.z, rdl.z, h.z)
        };
        let tmin = if t1x >= t1y && t1x >= t1z {
            t1x
        } else if t1y >= t1z {
            t1y
        } else {
            t1z
        };
        let tmax = if t2x <= t2y && t2x <= t2z {
            t2x
        } else if t2y <= t2z {
            t2y
        } else {
            t2z
        };
        if tmin > tmax {
            return Option::None;
        }
        let t = if tmin > 0 {
            tmin
        } else {
            tmax
        };
        if t <= 0 || t > DIST_MAX {
            return Option::None;
        }
        let ln = if tmin > 0 {
            if tmin == t1x {
                axis_normal(rdl.x > 0, true, 0)
            } else if tmin == t1y {
                axis_normal(rdl.y > 0, true, 1)
            } else {
                axis_normal(rdl.z > 0, true, 2)
            }
        } else {
            if tmax == t2x {
                axis_normal(rdl.x > 0, false, 0)
            } else if tmax == t2y {
                axis_normal(rdl.y > 0, false, 1)
            } else {
                axis_normal(rdl.z > 0, false, 2)
            }
        };
        proof {
            lemma_fmul_bound(rdl@.x, t as int, 0x3_0001, DIST_MAX as int);
            lemma_fmul_bound(rdl@.y, t as int, 0x3_0001, DIST_MAX as int);
            lemma_fmul_bound(rdl@.z, t as int, 0x3_0001, DIST_MAX as int);
        }
        let lp = rol.vadd(&rdl.vscale(t));
        if !lp.check_range(WORLD_MAX) {
            return Option::None;
        }
        proof {
            lemma_dot_bound(col0_s(self.rot), lp@, FX_ONE as int, WORLD_MAX as int);
            lemma_dot_bound(col1_s(self.rot), lp@, FX_ONE as int, WORLD_MAX as int);
            lemma_dot_bound(col2_s(self.rot), lp@, FX_ONE as int, WORLD_MAX as int);
        }
        let wp = self.center.vadd(&self.rot.transpose_apply(&lp));
        if !wp.check_range(WORLD_MAX) {
            return Option::None;
        }
        proof {
            lemma_dot_bound(col0_s(self.rot), ln@, FX_ONE as int, FX_ONE as int);
            lemma_dot_bound(col1_s(self.rot), ln@, FX_ONE as int, FX_ONE as int);
            lemma_dot_bound(col2_s(self.rot), ln@, FX_ONE as int, FX_ONE as int);
        }
        let wn = self.rot.transpose_apply(&ln).normalized();
        Option::Some(
            HitInfo {
                point: wp,
                local_point: lp,
                local_half_size: h,
                normal: wn,
                local_normal: ln,
                distance: t,
                material: self.material,
                texture_repeat: self.texture_repeat,
            },
        )
    }
}

/// The smaller slab face parameter, as `slab_t1`.
fn slab_enter(ro: i64, rd: i64, h: i64) -> (r: i64)
    requires
        rd != 0,
        fx_abs(ro as int) <= 0x33_0000_0000,
        0 <= h <= POS_MAX,
    ensures
        r == slab_t1(ro as int, rd as int, h as int),
        fx_abs(r as int) <= 0x34_0000_0000_0000,
{
    proof {
        lemma_slab_bounds(ro as int, rd as int, h as int);
    }
    let ta = fx_div(-h - ro, rd);
    let tb = fx_div(h - ro, rd);
    if ta <= tb {
        ta
    } else {
        tb
    }
}

/// The larger slab face parameter, as `slab_t2`.
fn slab_exit(ro: i64, rd: i64, h: i64) -> (r: i64)
    requires
        rd != 0,
        fx_abs(ro as int) <= 0x33_0000_0000,
        0 <= h <= POS_MAX,
    ensures
        r == slab_t2(ro as int, rd as int, h as int),
        fx_abs(r as int) <= 0x34_0000_0000_0000,
{
    proof {
        lemma_slab_bounds(ro as int, rd as int, h as int);
    }
    let ta = fx_div(-h - ro, rd);
    let tb = fx_div(h - ro, rd);
    if ta <= tb {
        tb
    } else {
        ta
    }
}

/// A local axis unit normal: entering faces point against the ray, exit faces
/// along it.
fn axis_normal(rd_pos: bool, entering: bool, axis: u8) -> (r: Vector3)
    requires
        axis < 3,
    ensures
        entering ==> r@ == enter_normal(
            if rd_pos {
                1
            } else {
                -1
            },
            axis as int,
        ),
        !entering ==> r@ == exit_normal(
            if rd_pos {
                1
            } else {
                -1
            },
            axis as int,
        ),
        in_range(r@, FX_ONE as int),
{
    let s: i64 = if rd_pos == entering {
        -FX_ONE
    } else {
        FX_ONE
    };
    if axis == 0 {
        Vector3 { x: s, y: 0, z: 0 }
    } else if axis == 1 {
        Vector3 { x: 0, y: s, z: 0 }
    } else {
        Vector3 { x: 0, y: 0, z: s }
    }
}

} // verus!
