//! The ray-casting core: scene queries, reflection and refraction
//! directions, the procedural sky, box UV mapping, and the recursive shader.

use vstd::prelude::*;
use crate::fx::{
    FX_ONE, fx_abs, fmul, fdiv, fpow, clamp_s, sqrt_floor, fx_mul, fx_div, fx_sqrt,
    fx_clamp, fx_pow, fx_prod_max, lemma_fmul_bound, lemma_fmul_unit, lemma_fmul_mono,
    lemma_fmul_one, lemma_fdiv_bound, lemma_sqrt_floor_mono, lemma_sqrt_floor_square,
};
use crate::cube::Cube;
use crate::light::Light;
use crate::material::{Material, color_unit, color_in, EMISSION_MAX, REFRACT_MIN, REFRACT_MAX};
use crate::ray_intersect::{
    HitInfo, HS, RayIntersect, opt_hit_view, hit_wf, POS_MAX, ORIGIN_MAX, DIST_MAX, REPEAT_MAX,
};
use crate::sphere::Sphere;
use crate::textures::{TextureManager, sample_s};
use crate::vector::{
    Vector3, V3, v3, in_range, add_s, sub_s, neg_s, scale_s, cmul_s, dot_s, len_s, norm2_raw,
    normalize_s,
    lemma_dot_bound, lemma_comp_le_len, lemma_normalize_unit,
};

verus! {

/// A shape of the closed set the scene holds.
#[derive(Clone, Copy, Debug)]
pub enum Primitive {
    Sphere(Sphere),
    Cube(Cube),
}

impl RayIntersect for Primitive {
    open spec fn rwf(&self) -> bool {
        match self {
            Primitive::Sphere(s) => s.rwf(),
            Primitive::Cube(c) => c.rwf(),
        }
    }

    open spec fn hit_s(&self, ro: V3, rd: V3) -> Option<HS> {
        match self {
            Primitive::Sphere(s) => s.hit_s(ro, rd),
            Primitive::Cube(c) => c.hit_s(ro, rd),
        }
    }

    proof fn lemma_hit_wf(&self, ro: V3, rd: V3) {
        match self {
            Primitive::Sphere(s) => s.lemma_hit_wf(ro, rd),
            Primitive::Cube(c) => c.lemma_hit_wf(ro, rd),
        }
    }

    fn ray_intersect(&self, ray_origin: &Vector3, ray_direction: &Vector3) -> (r: Option<
        HitInfo,
    >) {
        match self {
            Primitive::Sphere(s) => s.ray_intersect(ray_origin, ray_direction),
            Primitive::Cube(c) => c.ray_intersect(ray_origin, ray_direction),
        }
    }
}

/// Every primitive of the scene within its validity bounds.
pub open spec fn scene_wf(scene: Seq<Primitive>) -> bool {
    forall|i: int| 0 <= i < scene.len() ==> (#[trigger] scene[i]).rwf()
}

/// The nearest positive hit among the first `n` primitives; the earlier
/// primitive wins an exact distance tie.
pub open spec fn nearest_hit_s(scene: Seq<Primitive>, ro: V3, rd: V3, n: int) -> Option<HS>
    decreases n,
{
    if n <= 0 {
        Option::None
    } else {
        let prev = nearest_hit_s(scene, ro, rd, n - 1);
        match scene[n - 1].hit_s(ro, rd) {
            Option::Some(h) => match prev {
                Option::None => Option::Some(h),
                Option::Some(p) => if h.distance < p.distance {
                    Option::Some(h)
                } else {
                    Option::Some(p)
                },
            },
            Option::None => prev,
        }
    }
}

/// Whether any primitive is struck strictly closer than `maxd`.
pub open spec fn any_hit_s(scene: Seq<Primitive>, ro: V3, rd: V3, maxd: int) -> bool {
    exists|i: int|
        0 <= i < scene.len() && match #[trigger] scene[i].hit_s(ro, rd) {
            Option::Some(h) => h.distance < maxd,
            Option::None => false,
        }
}

/// Every hit the scan keeps observes the world bounds.
pub proof fn lemma_nearest_wf(scene: Seq<Primitive>, ro: V3, rd: V3, n: int)
    requires
        scene_wf(scene),
        n <= scene.len(),
        in_range(ro, ORIGIN_MAX as int),
        in_range(rd, FX_ONE as int),
    ensures
        nearest_hit_s(scene, ro, rd, n) matches Option::Some(h) ==> hit_wf(h),
    decreases n,
{
    if n > 0 {
        lemma_nearest_wf(scene, ro, rd, n - 1);
        scene[n - 1].lemma_hit_wf(ro, rd);
    }
}

/// The nearest-hit scan over the whole scene.
pub fn nearest_hit(
    objects: &Vec<Primitive>,
    ray_origin: &Vector3,
    ray_direction: &Vector3,
) -> (r: Option<HitInfo>)
    requires
        scene_wf(objects@),
        in_range(ray_origin@, ORIGIN_MAX as int),
        in_range(ray_direction@, FX_ONE as int),
    ensures
        opt_hit_view(r) == nearest_hit_s(objects@, ray_origin@, ray_direction@, objects@.len() as int),
        r matches Option::Some(h) ==> hit_wf(h@),
{
    let mut closest: Option<HitInfo> = Option::None;
    let mut i: usize = 0;
    while i < objects.len()
        invariant
            i <= objects@.len(),
            scene_wf(objects@),
            in_range(ray_origin@, ORIGIN_MAX as int),
            in_range(ray_direction@, FX_ONE as int),
            opt_hit_view(closest) == nearest_hit_s(objects@, ray_origin@, ray_direction@, i as int),
        decreases objects@.len() - i,
    {
        if let Option::Some(hit) = objects[i].ray_intersect(ray_origin, ray_direction) {
            match &closest {
                Option::None => {
                    closest = Option::Some(hit);
                },
                Option::Some(c) => {
                    if hit.distance < c.distance {
                        closest = Option::Some(hit);
                    }
                },
            }
        }
        i = i + 1;
    }
    proof {
        lemma_nearest_wf(objects@, ray_origin@, ray_direction@, objects@.len() as int);
    }
    closest
}

/// Whether anything stands between `origin` and `origin + direction * max_dist`.
pub fn intersects_any(
    origin: &Vector3,
    direction: &Vector3,
    objects: &Vec<Primitive>,
    max_dist: i64,
) -> (r: bool)
    requires
        scene_wf(objects@),
        in_range(origin@, ORIGIN_MAX as int),
        in_range(direction@, FX_ONE as int),
    ensures
        r == any_hit_s(objects@, origin@, direction@, max_dist as int),
{
    let mut i: usize = 0;
    while i < objects.len()
        invariant
            i <= objects@.len(),
            scene_wf(objects@),
            in_range(origin@, ORIGIN_MAX as int),
            in_range(direction@, FX_ONE as int),
            forall|j: int|
                0 <= j < i ==> match #[trigger] objects@[j].hit_s(origin@, direction@) {
                    Option::Some(h) => h.distance >= max_dist,
                    Option::None => true,
                },
        decreases objects@.len() - i,
    {
        if let Option::Some(hit) = objects[i].ray_intersect(origin, direction) {
            if hit.distance < max_dist {
                return true;
            }
        }
        i = i + 1;
    }
    false
}

/// The mirror direction of `i` about the normal `n`: `i - n * 2 * (i . n)`.
pub open spec fn reflect_s(i: V3, n: V3) -> V3 {
    sub_s(i, scale_s(n, 2 * dot_s(i, n)))
}

pub fn reflect(i: &Vector3, n: &Vector3) -> (r: Vector3)
    requires
        in_range(i@, 2 * FX_ONE as int),
        in_range(n@, FX_ONE as int),
    ensures
        r@ == reflect_s(i@, n@),
        in_range(r@, 0x100_0000),
{
    proof {
        lemma_dot_bound(i@, n@, 2 * FX_ONE as int, FX_ONE as int);
        let d = dot_s(i@, n@);
        lemma_fmul_bound(n@.x, 2 * d, FX_ONE as int, 0xc_0000);
        lemma_fmul_bound(n@.y, 2 * d, FX_ONE as int, 0xc_0000);
        lemma_fmul_bound(n@.z, 2 * d, FX_ONE as int, 0xc_0000);
    }
    let d = i.dot(n);
    i.vsub(&n.vscale(2 * d))
}

/// The refracted direction by Snell's law, about the normal `normal` and the
/// surface's relative refractive index. A cosine above zero means the ray
/// leaves the medium: the index ratio swaps and the normal flips. Total
/// internal reflection yields the zero vector, which contributes nothing.
pub open spec fn refract_s(incident: V3, normal: V3, refractive_index: int) -> V3
    recommends
        0 < refractive_index,
{
    let cosi0 = clamp_s(dot_s(incident, normal), -(FX_ONE as int), FX_ONE as int);
    let cosi = if cosi0 > 0 {
        cosi0
    } else {
        -cosi0
    };
    let n = if cosi0 > 0 {
        neg_s(normal)
    } else {
        normal
    };
    let eta = if cosi0 > 0 {
        refractive_index
    } else {
        fdiv(FX_ONE as int, refractive_index)
    };
    let k = FX_ONE - fmul(fmul(eta, eta), FX_ONE - fmul(cosi, cosi));
    if k < 0 {
        v3(0, 0, 0)
    } else {
        add_s(
            scale_s(incident, eta),
            scale_s(n, fmul(eta, cosi) - sqrt_floor((k * FX_ONE) as nat)),
        )
    }
}

/// Bounds of the intermediate quantities of `refract_s`.
proof fn lemma_refract_mids(incident: V3, normal: V3, refractive_index: int)
    requires
        in_range(incident, FX_ONE as int),
        in_range(normal, FX_ONE as int),
        REFRACT_MIN <= refractive_index <= REFRACT_MAX,
    ensures
        ({
            let cosi0 = clamp_s(dot_s(incident, normal), -(FX_ONE as int), FX_ONE as int);
            let cosi = if cosi0 > 0 {
                cosi0
            } else {
                -cosi0
            };
            let eta = if cosi0 > 0 {
                refractive_index
            } else {
                fdiv(FX_ONE as int, refractive_index)
            };
            &&& 0 <= cosi <= FX_ONE
            &&& 0 <= eta <= 0x10_0000
            &&& 0 <= fmul(eta, eta) <= 0x100_0000
            &&& 0 <= FX_ONE - fmul(cosi, cosi) <= FX_ONE
            &&& 0 <= fmul(fmul(eta, eta), FX_ONE - fmul(cosi, cosi)) <= 0x100_0000
            &&& 0 <= fmul(eta, cosi) <= 0x10_0000
        }),
{
    lemma_dot_bound(incident, normal, FX_ONE as int, FX_ONE as int);
    let cosi0 = clamp_s(dot_s(incident, normal), -(FX_ONE as int), FX_ONE as int);
    let cosi = if cosi0 > 0 {
        cosi0
    } else {
        -cosi0
    };
    let eta = if cosi0 > 0 {
        refractive_index
    } else {
        fdiv(FX_ONE as int, refractive_index)
    };
    if cosi0 <= 0 {
        lemma_fdiv_bound(FX_ONE as int, refractive_index);
        assert(fx_abs(fdiv(FX_ONE as int, refractive_index)) <= fx_abs(FX_ONE as int) * (
        FX_ONE as int));
        assert((FX_ONE * FX_ONE) / 0x1000 == 0x10_0000) by (nonlinear_arith);
        vstd::arithmetic::div_mod::lemma_div_is_ordered_by_denominator(
            FX_ONE * FX_ONE,
            0x1000,
            refractive_index,
        );
        vstd::arithmetic::div_mod::lemma_div_pos_is_pos(FX_ONE * FX_ONE, refractive_index);
    }
    lemma_fmul_bound(eta, eta, 0x10_0000, 0x10_0000);
    lemma_fmul_mono(0, eta, eta);
    lemma_fmul_unit(cosi, cosi);
    let eta2 = fmul(eta, eta);
    let m = FX_ONE - fmul(cosi, cosi);
    lemma_fmul_bound(eta2, m, 0x100_0000, FX_ONE as int);
    lemma_fmul_mono(0, eta2, m);
    lemma_fmul_bound(eta, cosi, 0x10_0000, FX_ONE as int);
    lemma_fmul_mono(0, eta, cosi);
}

pub fn refract(incident: &Vector3, normal: &Vector3, refractive_index: i64) -> (r: Vector3)
    requires
        in_range(incident@, FX_ONE as int),
        in_range(normal@, FX_ONE as int),
        REFRACT_MIN <= refractive_index <= REFRACT_MAX,
    ensures
        r@ == refract_s(incident@, normal@, refractive_index as int),
        in_range(r@, 0x40_0000),
{
    proof {
        lemma_refract_mids(incident@, normal@, refractive_index as int);
        lemma_dot_bound(incident@, normal@, FX_ONE as int, FX_ONE as int);
    }
    let d = incident.dot(normal);
    let cosi0 = fx_clamp(d, -FX_ONE, FX_ONE);
    let cosi = if cosi0 > 0 {
        cosi0
    } else {
        -cosi0
    };
    let n = if cosi0 > 0 {
        normal.vneg()
    } else {
        *normal
    };
    let eta = if cosi0 > 0 {
        refractive_index
    } else {
        fx_div(FX_ONE, refractive_index)
    };
    let eta2 = fx_mul(eta, eta);
    let m = FX_ONE - fx_mul(cosi, cosi);
    let k = FX_ONE - fx_mul(eta2, m);
    if k < 0 {
        return Vector3 { x: 0, y: 0, z: 0 };
    }
    let s = fx_sqrt(k);
    proof {
        lemma_sqrt_floor_mono((k * FX_ONE) as nat, (FX_ONE * FX_ONE) as nat);
        lemma_sqrt_floor_square(FX_ONE as nat);
        assert((FX_ONE * FX_ONE) as nat == (FX_ONE as nat) * (FX_ONE as nat));
        let coef = fmul(eta as int, cosi as int) - sqrt_floor((k * FX_ONE) as nat);
        lemma_fmul_bound(incident@.x, eta as int, FX_ONE as int, 0x10_0000);
        lemma_fmul_bound(incident@.y, eta as int, FX_ONE as int, 0x10_0000);
        lemma_fmul_bound(incident@.z, eta as int, FX_ONE as int, 0x10_0000);
        lemma_fmul_bound(n@.x, coef, FX_ONE as int, 0x11_0000);
        lemma_fmul_bound(n@.y, coef, FX_ONE as int, 0x11_0000);
        lemma_fmul_bound(n@.z, coef, FX_ONE as int, 0x11_0000);
    }
    incident.vscale(eta).vadd(&n.vscale(fx_mul(eta, cosi) - s))
}

/// The three sky bands, at the fixed-point color scale.
pub const SKY_GREEN_R: i64 = 6554;

pub const SKY_GREEN_G: i64 = 39322;

pub const SKY_GREEN_B: i64 = 13107;

pub const SKY_BLUE_R: i64 = 19661;

pub const SKY_BLUE_G: i64 = 32768;

/// The procedural sky: a function of the direction's vertical component
/// alone, blending ground tint, horizon haze and sky tint over fixed bands.
pub open spec fn sky_s(dir: V3) -> V3 {
    let d = normalize_s(dir);
    let t = (d.y + FX_ONE) / 2;
    let green = v3(SKY_GREEN_R as int, SKY_GREEN_G as int, SKY_GREEN_B as int);
    let white = v3(FX_ONE as int, FX_ONE as int, FX_ONE as int);
    let blue = v3(SKY_BLUE_R as int, SKY_BLUE_G as int, FX_ONE as int);
    if t < 35389 {
        let k = fdiv(t, 36045);
        add_s(scale_s(green, FX_ONE - k), scale_s(white, k))
    } else if t < 36045 {
        white
    } else if t < 52429 {
        let k = fdiv(t - 36045, 16384);
        add_s(scale_s(white, FX_ONE - k), scale_s(blue, k))
    } else {
        blue
    }
}

pub fn procedural_sky(dir: &Vector3) -> (r: Vector3)
    requires
        in_range(dir@, 0x40_0000_0000),
    ensures
        r@ == sky_s(dir@),
        color_in(r@, 2 * FX_ONE as int),
{
    let d = dir.normalized();
    let t = (((d.y + FX_ONE) as u64) / 2) as i64;
    let green = Vector3 { x: SKY_GREEN_R, y: SKY_GREEN_G, z: SKY_GREEN_B };
    let white = Vector3 { x: FX_ONE, y: FX_ONE, z: FX_ONE };
    let blue = Vector3 { x: SKY_BLUE_R, y: SKY_BLUE_G, z: FX_ONE };
    if t < 35389 {
        proof {
            lemma_unit_ratio(t as int, 36045);
            lemma_blend_ok(green@, fdiv(t as int, 36045), white@);
        }
        let k = fx_div(t, 36045);
        green.vscale(FX_ONE - k).vadd(&white.vscale(k))
    } else if t < 36045 {
        white
    } else if t < 52429 {
        proof {
            lemma_unit_ratio(t - 36045, 16384);
            lemma_blend_ok(white@, fdiv(t - 36045, 16384), blue@);
        }
        let k = fx_div(t - 36045, 16384);
        white.vscale(FX_ONE - k).vadd(&blue.vscale(k))
    } else {
        blue
    }
}

/// A ratio of a part to its whole stays within one unit.
proof fn lemma_unit_ratio(a: int, b: int)
    requires
        0 <= a <= b,
        0 < b,
    ensures
        0 <= fdiv(a, b) <= FX_ONE,
        fx_abs(fdiv(a, b)) <= FX_ONE,
{
    vstd::arithmetic::div_mod::lemma_div_pos_is_pos(a * FX_ONE, b);
    assert(a * FX_ONE <= b * FX_ONE) by (nonlinear_arith)
        requires
            a <= b,
            0 < FX_ONE,
    ;
    vstd::arithmetic::div_mod::lemma_div_is_ordered(a * FX_ONE, b * FX_ONE, b);
    vstd::arithmetic::div_mod::lemma_div_multiples_vanish(FX_ONE as int, b);
    assert(b * (FX_ONE as int) == b * FX_ONE) by (nonlinear_arith);
}

/// The face threshold for UV mapping: a local normal component beyond 0.9
/// picks that face.
pub const UV_FACE_MIN: i64 = 58982;

/// Face-local UV on a box: the dominant axis of the local normal picks the
/// face, and the other two local coordinates map linearly onto `[0, 1]`.
/// Boxes with a zero half-extent, and normals with no dominant axis, give no
/// coordinates.
pub open spec fn map_uv_s(p: V3, n: V3, h: V3) -> Option<(int, int)> {
    if h.x == 0 || h.y == 0 || h.z == 0 {
        Option::None
    } else if fx_abs(n.x) > UV_FACE_MIN {
        Option::Some((fdiv(p.z + h.z, 2 * h.z), fdiv(p.y + h.y, 2 * h.y)))
    } else if fx_abs(n.y) > UV_FACE_MIN {
        Option::Some((fdiv(p.x + h.x, 2 * h.x), fdiv(p.z + h.z, 2 * h.z)))
    } else if fx_abs(n.z) > UV_FACE_MIN {
        Option::Some((fdiv(p.x + h.x, 2 * h.x), fdiv(p.y + h.y, 2 * h.y)))
    } else {
        Option::None
    }
}

/// One face-local coordinate: `c` mapped from `[-h, h]` onto `[0, 1]`.
fn uv_coord(c: i64, h: i64) -> (r: i64)
    requires
        fx_abs(c as int) <= 0x21_0000_0000,
        0 < h <= POS_MAX,
    ensures
        r == fdiv(c + h, 2 * h as int),
        fx_abs(r as int) <= 0x40_0000_0000_0000,
{
    proof {
        lemma_fdiv_bound(c + h, 2 * h as int);
    }
    fx_div(c + h, 2 * h)
}

pub fn map_uv_for_cube(
    local_point: &Vector3,
    local_normal: &Vector3,
    half_size: &Vector3,
) -> (r: Option<(i64, i64)>)
    requires
        in_range(local_point@, DIST_MAX as int),
        in_range(local_normal@, FX_ONE as int),
        0 <= half_size@.x <= POS_MAX,
        0 <= half_size@.y <= POS_MAX,
        0 <= half_size@.z <= POS_MAX,
    ensures
        match r {
            Option::Some(uv) => {
                &&& map_uv_s(local_point@, local_normal@, half_size@) == Option::Some(
                    (uv.0 as int, uv.1 as int),
                )
                &&& fx_abs(uv.0 as int) <= 0x40_0000_0000_0000
                &&& fx_abs(uv.1 as int) <= 0x40_0000_0000_0000
            },
            Option::None => map_uv_s(local_point@, local_normal@, half_size@) is None,
        },
{
    let p = *local_point;
    let h = *half_size;
    if h.x == 0 || h.y == 0 || h.z == 0 {
        return Option::None;
    }
    let ax = if local_normal.x < 0 {
        -local_normal.x
    } else {
        local_normal.x
    };
    let ay = if local_normal.y < 0 {
        -local_normal.y
    } else {
        local_normal.y
    };
    let az = if local_normal.z < 0 {
        -local_normal.z
    } else {
        local_normal.z
    };
    if ax > UV_FACE_MIN {
        Option::Some((uv_coord(p.z, h.z), uv_coord(p.y, h.y)))
    } else if ay > UV_FACE_MIN {
        Option::Some((uv_coord(p.x, h.x), uv_coord(p.z, h.z)))
    } else if az > UV_FACE_MIN {
        Option::Some((uv_coord(p.x, h.x), uv_coord(p.y, h.y)))
    } else {
        Option::None
    }
}

/// Whole-cube UV for a unit box around the origin: the dominant normal axis
/// picks the face and the other coordinates shift by one half, clamped onto
/// `[0, 1]`.
pub open spec fn cube_uv_s(p: V3, n: V3) -> (int, int) {
    let raw = if fx_abs(n.x) > (FX_ONE as int) / 2 {
        (p.z + (FX_ONE as int) / 2, p.y + (FX_ONE as int) / 2)
    } else if fx_abs(n.y) > (FX_ONE as int) / 2 {
        (p.x + (FX_ONE as int) / 2, p.z + (FX_ONE as int) / 2)
    } else {
        (p.x + (FX_ONE as int) / 2, p.y + (FX_ONE as int) / 2)
    };
    (clamp_s(raw.0, 0, FX_ONE as int), clamp_s(raw.1, 0, FX_ONE as int))
}

pub fn get_cube_uv(hit_point: &Vector3, normal: &Vector3) -> (r: (i64, i64))
    requires
        in_range(hit_point@, DIST_MAX as int),
        in_range(normal@, FX_ONE as int),
    ensures
        (r.0 as int, r.1 as int) == cube_uv_s(hit_point@, normal@),
        0 <= r.0 <= FX_ONE,
        0 <= r.1 <= FX_ONE,
{
    let p = *hit_point;
    let ax = if normal.x < 0 {
        -normal.x
    } else {
        normal.x
    };
    let ay = if normal.y < 0 {
        -normal.y
    } else {
        normal.y
    };
    let half: i64 = FX_ONE / 2;
    let raw = if ax > half {
        (p.z + half, p.y + half)
    } else if ay > half {
        (p.x + half, p.z + half)
    } else {
        (p.x + half, p.y + half)
    };
    (fx_clamp(raw.0, 0, FX_ONE), fx_clamp(raw.1, 0, FX_ONE))
}

/// Blending two unit colors by a unit coefficient keeps every product in
/// range and the result within two units.
proof fn lemma_blend_ok(a: V3, k: int, b: V3)
    requires
        color_unit(a),
        color_unit(b),
        0 <= k <= FX_ONE,
    ensures
        fx_abs(a.x * (FX_ONE - k)) <= fx_prod_max(),
        fx_abs(a.y * (FX_ONE - k)) <= fx_prod_max(),
        fx_abs(a.z * (FX_ONE - k)) <= fx_prod_max(),
        fx_abs(b.x * k) <= fx_prod_max(),
        fx_abs(b.y * k) <= fx_prod_max(),
        fx_abs(b.z * k) <= fx_prod_max(),
        color_in(add_s(scale_s(a, FX_ONE - k), scale_s(b, k)), 2 * FX_ONE as int),
        in_range(scale_s(a, FX_ONE - k), FX_ONE as int),
        in_range(scale_s(b, k), FX_ONE as int),
{
    lemma_fmul_unit(a.x, FX_ONE - k);
    lemma_fmul_unit(a.y, FX_ONE - k);
    lemma_fmul_unit(a.z, FX_ONE - k);
    lemma_fmul_unit(b.x, k);
    lemma_fmul_unit(b.y, k);
    lemma_fmul_unit(b.z, k);
    crate::fx::lemma_mul_le(a.x, FX_ONE as int, FX_ONE - k, FX_ONE as int);
    crate::fx::lemma_mul_le(a.y, FX_ONE as int, FX_ONE - k, FX_ONE as int);
    crate::fx::lemma_mul_le(a.z, FX_ONE as int, FX_ONE - k, FX_ONE as int);
    crate::fx::lemma_mul_le(b.x, FX_ONE as int, k, FX_ONE as int);
    crate::fx::lemma_mul_le(b.y, FX_ONE as int, k, FX_ONE as int);
    crate::fx::lemma_mul_le(b.z, FX_ONE as int, k, FX_ONE as int);
}

/// The recursion bound: deeper reflection or refraction rays return the flat
/// sky fallback.
pub const MAX_DEPTH: u32 = 3;

/// Surface offset for shadow rays (on the order of 5e-3).
pub const SHADOW_OFFSET: i64 = 328;

/// Surface offset for reflection and refraction rays, and the slack taken off
/// the light distance in the shadow test (on the order of 1e-3).
pub const RAY_OFFSET: i64 = 66;

/// The residual fraction of a light that survives occlusion, so shadows are
/// never pure black (0.15).
pub const SHADOW_FACTOR: i64 = 9830;

/// The coefficient of the inverse-quadratic distance attenuation (0.02).
pub const K_ATTEN: i64 = 1310;

/// The ambient lighting floor (0.06).
pub const AMBIENT: i64 = 3932;

/// The flat sky fallback past the recursion bound, also the reflection term
/// of non-reflective surfaces (0.1, 0.1, 0.2).
pub const SKY_FALLBACK_RG: i64 = 6554;

pub const SKY_FALLBACK_B: i64 = 13107;

/// Most lights one scene may hold.
pub const LIGHTS_MAX: usize = 1024;

/// Every light within its validity bounds, and not more of them than the
/// accumulators accept.
pub open spec fn lights_wf(lights: Seq<Light>) -> bool {
    &&& forall|i: int| 0 <= i < lights.len() ==> (#[trigger] lights[i]).wf()
    &&& lights.len() <= LIGHTS_MAX
}

/// The inverse-quadratic distance attenuation of a light's intensity.
pub open spec fn atten_s(intensity: int, dist: int) -> int {
    fdiv(intensity, FX_ONE + fmul(K_ATTEN as int, fmul(dist, dist)))
}

/// The diffuse and specular contribution of one light at a hit point, before
/// the albedo weights: Lambertian diffuse and Blinn-Phong specular, both
/// under inverse-quadratic attenuation, scaled by the shadow residual when
/// the path to the light is occluded. A light at zero distance contributes
/// nothing.
pub open spec fn light_contrib_s(
    scene: Seq<Primitive>,
    light: Light,
    hit: HS,
    base: V3,
    view: V3,
) -> (V3, V3) {
    let lvec = sub_s(light.position@, hit.point);
    let dist = len_s(lvec);
    if dist <= 0 {
        (v3(0, 0, 0), v3(0, 0, 0))
    } else {
        let light_dir = v3(fdiv(lvec.x, dist), fdiv(lvec.y, dist), fdiv(lvec.z, dist));
        let shadow_origin = add_s(hit.point, scale_s(hit.normal, SHADOW_OFFSET as int));
        let in_shadow = any_hit_s(scene, shadow_origin, light_dir, dist - RAY_OFFSET);
        let atten = atten_s(light.intensity as int, dist);
        let factor: int = if in_shadow {
            SHADOW_FACTOR as int
        } else {
            FX_ONE as int
        };
        let ndotl0 = dot_s(hit.normal, light_dir);
        let ndotl: int = if ndotl0 < 0 {
            0
        } else {
            ndotl0
        };
        let diff = scale_s(cmul_s(scale_s(scale_s(base, ndotl), atten), light.color@), factor);
        let half = normalize_s(add_s(view, light_dir));
        let ndoth = clamp_s(dot_s(hit.normal, half), 0, FX_ONE as int);
        let sp = fpow(ndoth, hit.material.specular as nat);
        let spc = scale_s(scale_s(scale_s(light.color@, sp), atten), factor);
        (diff, spc)
    }
}

/// The summed contributions of the first `n` lights.
pub open spec fn light_sums_s(
    scene: Seq<Primitive>,
    lights: Seq<Light>,
    hit: HS,
    base: V3,
    view: V3,
    n: int,
) -> (V3, V3)
    decreases n,
{
    if n <= 0 {
        (v3(0, 0, 0), v3(0, 0, 0))
    } else {
        let prev = light_sums_s(scene, lights, hit, base, view, n - 1);
        let c = light_contrib_s(scene, lights[n - 1], hit, base, view);
        (add_s(prev.0, c.0), add_s(prev.1, c.1))
    }
}

/// One light's contribution stays within `0x2000_0000_0000` per component.
proof fn lemma_contrib_bounds(scene: Seq<Primitive>, light: Light, hit: HS, base: V3, view: V3)
    requires
        light.wf(),
        hit_wf(hit),
        color_unit(base),
        in_range(view, FX_ONE as int),
    ensures
        ({
            let c = light_contrib_s(scene, light, hit, base, view);
            color_in(c.0, 0x2000_0000_0000) && color_in(c.1, 0x2000_0000_0000)
        }),
{
    let lvec = sub_s(light.position@, hit.point);
    crate::vector::lemma_len_bound(lvec, 0x9_0000_0000);
    lemma_comp_le_len(lvec);
    let dist = len_s(lvec);
    if dist > 0 {
        lemma_fdiv_bound(lvec.x, dist);
        lemma_fdiv_bound(lvec.y, dist);
        lemma_fdiv_bound(lvec.z, dist);
        let light_dir = v3(fdiv(lvec.x, dist), fdiv(lvec.y, dist), fdiv(lvec.z, dist));
        lemma_fmul_bound(dist, dist, 0x12_0000_0000, 0x12_0000_0000);
        let d2 = fmul(dist, dist);
        lemma_fmul_mono(0, dist, dist);
        lemma_fmul_bound(K_ATTEN as int, d2, K_ATTEN as int, 0x144_0000_0000_0000);
        lemma_fmul_mono(0, K_ATTEN as int, d2);
        let denom = FX_ONE + fmul(K_ATTEN as int, d2);
        lemma_fdiv_bound(light.intensity as int, denom);
        vstd::arithmetic::div_mod::lemma_div_pos_is_pos(
            (light.intensity as int) * FX_ONE,
            denom,
        );
        let atten = fdiv(light.intensity as int, denom);
        lemma_dot_bound(hit.normal, light_dir, FX_ONE as int, FX_ONE as int);
        let ndotl0 = dot_s(hit.normal, light_dir);
        let ndotl: int = if ndotl0 < 0 {
            0
        } else {
            ndotl0
        };
        let t1 = scale_s(base, ndotl);
        lemma_fmul_bound(base.x, ndotl, FX_ONE as int, 0x3_0000);
        lemma_fmul_bound(base.y, ndotl, FX_ONE as int, 0x3_0000);
        lemma_fmul_bound(base.z, ndotl, FX_ONE as int, 0x3_0000);
        lemma_fmul_mono(0, base.x, ndotl);
        lemma_fmul_mono(0, base.y, ndotl);
        lemma_fmul_mono(0, base.z, ndotl);
        let t2 = scale_s(t1, atten);
        lemma_fmul_bound(t1.x, atten, 0x3_0000, 0x400_0000_0000);
        lemma_fmul_bound(t1.y, atten, 0x3_0000, 0x400_0000_0000);
        lemma_fmul_bound(t1.z, atten, 0x3_0000, 0x400_0000_0000);
        lemma_fmul_mono(0, t1.x, atten);
        lemma_fmul_mono(0, t1.y, atten);
        lemma_fmul_mono(0, t1.z, atten);
        let t3 = cmul_s(t2, light.color@);
        lemma_fmul_bound(t2.x, light.color@.x, 0xc00_0000_0000, FX_ONE as int);
        lemma_fmul_bound(t2.y, light.color@.y, 0xc00_0000_0000, FX_ONE as int);
        lemma_fmul_bound(t2.z, light.color@.z, 0xc00_0000_0000, FX_ONE as int);
        lemma_fmul_mono(0, t2.x, light.color@.x);
        lemma_fmul_mono(0, t2.y, light.color@.y);
        lemma_fmul_mono(0, t2.z, light.color@.z);
        let factor: int = if any_hit_s(
            scene,
            add_s(hit.point, scale_s(hit.normal, SHADOW_OFFSET as int)),
            light_dir,
            dist - RAY_OFFSET,
        ) {
            SHADOW_FACTOR as int
        } else {
            FX_ONE as int
        };
        lemma_fmul_bound(t3.x, factor, 0xc00_0000_0000, FX_ONE as int);
        lemma_fmul_bound(t3.y, factor, 0xc00_0000_0000, FX_ONE as int);
        lemma_fmul_bound(t3.z, factor, 0xc00_0000_0000, FX_ONE as int);
        lemma_fmul_mono(0, t3.x, factor);
        lemma_fmul_mono(0, t3.y, factor);
        lemma_fmul_mono(0, t3.z, factor);
        let half = normalize_s(add_s(view, light_dir));
        lemma_normalize_unit(add_s(view, light_dir));
        lemma_dot_bound(hit.normal, half, FX_ONE as int, FX_ONE as int);
        let ndoth = clamp_s(dot_s(hit.normal, half), 0, FX_ONE as int);
        crate::fx::lemma_fpow_unit(ndoth, hit.material.specular as nat);
        let sp = fpow(ndoth, hit.material.specular as nat);
        let s1 = scale_s(light.color@, sp);
        lemma_fmul_unit(light.color@.x, sp);
        lemma_fmul_unit(light.color@.y, sp);
        lemma_fmul_unit(light.color@.z, sp);
        let s2 = scale_s(s1, atten);
        lemma_fmul_bound(s1.x, atten, FX_ONE as int, 0x400_0000_0000);
        lemma_fmul_bound(s1.y, atten, FX_ONE as int, 0x400_0000_0000);
        lemma_fmul_bound(s1.z, atten, FX_ONE as int, 0x400_0000_0000);
        lemma_fmul_mono(0, s1.x, atten);
        lemma_fmul_mono(0, s1.y, atten);
        lemma_fmul_mono(0, s1.z, atten);
        lemma_fmul_bound(s2.x, factor, 0x400_0000_0000, FX_ONE as int);
        lemma_fmul_bound(s2.y, factor, 0x400_0000_0000, FX_ONE as int);
        lemma_fmul_bound(s2.z, factor, 0x400_0000_0000, FX_ONE as int);
        lemma_fmul_mono(0, s2.x, factor);
        lemma_fmul_mono(0, s2.y, factor);
        lemma_fmul_mono(0, s2.z, factor);
    }
}

/// The per-depth bound on a shaded color component.
pub open spec fn cb_s(depth: int) -> int
    decreases 4 - depth,
{
    if depth > 3 {
        2 * FX_ONE as int
    } else {
        0x200_0000_0000_0000 + 2 * cb_s(depth + 1)
    }
}

pub proof fn lemma_cb_bound(depth: int)
    requires
        depth >= 0,
    ensures
        2 * FX_ONE as int <= cb_s(depth) <= 0x1e00_0000_0020_0000,
{
    assert(cb_s(4) == 2 * FX_ONE as int);
    assert(cb_s(3) == 0x200_0000_0004_0000);
    assert(cb_s(2) == 0x600_0000_0008_0000);
    assert(cb_s(1) == 0xe00_0000_0010_0000);
    assert(cb_s(0) == 0x1e00_0000_0020_0000);
}

/// The base surface color at a hit: the sampled texel where the material
/// names a texture and the face yields UV coordinates (scaled by the
/// object's tiling factors), else the plain diffuse color.
pub open spec fn base_color_s(tm: TextureManager, hit: HS) -> V3 {
    let m = hit.material;
    match m.texture {
        Option::Some(id) => match map_uv_s(hit.local_point, hit.local_normal, hit.local_half_size) {
            Option::Some(uv) => sample_s(
                tm,
                id as int,
                fmul(uv.0, hit.repeat_u),
                fmul(uv.1, hit.repeat_v),
            ),
            Option::None => m.diffuse@,
        },
        Option::None => m.diffuse@,
    }
}

/// The final radiance: diffuse and specular totals under their albedo
/// weights, the recursive reflection and refraction under the material's
/// coefficients, and the emission term.
pub open spec fn composite_s(
    total_diffuse: V3,
    total_specular: V3,
    reflection: V3,
    refraction: V3,
    m: Material,
) -> V3 {
    add_s(
        add_s(
            add_s(
                add_s(
                    scale_s(total_diffuse, m.albedo_diffuse as int),
                    scale_s(total_specular, m.albedo_specular as int),
                ),
                scale_s(reflection, m.reflectivity as int),
            ),
            scale_s(refraction, m.transparency as int),
        ),
        scale_s(m.emissive@, m.emission as int),
    )
}

/// The recursively shaded radiance of one ray: past the depth bound the flat
/// sky fallback; on a miss the procedural sky of the direction alone; on a
/// hit the textured or plain base color lit by every light, with shadows and
/// attenuation, composed with mirror-reflected and Snell-refracted recursive
/// rays by the material's weights, plus its emission.
pub open spec fn cast_ray_s(
    scene: Seq<Primitive>,
    lights: Seq<Light>,
    tm: TextureManager,
    ro: V3,
    rd: V3,
    depth: int,
) -> V3
    decreases 4 - depth,
{
    if depth > 3 {
        v3(SKY_FALLBACK_RG as int, SKY_FALLBACK_RG as int, SKY_FALLBACK_B as int)
    } else {
        match nearest_hit_s(scene, ro, rd, scene.len() as int) {
            Option::None => sky_s(rd),
            Option::Some(hit) => {
                let m = hit.material;
                let base = base_color_s(tm, hit);
                let view = normalize_s(sub_s(ro, hit.point));
                let sums = light_sums_s(scene, lights, hit, base, view, lights.len() as int);
                let total_diffuse = add_s(
                    cmul_s(v3(AMBIENT as int, AMBIENT as int, AMBIENT as int), base),
                    sums.0,
                );
                let total_specular = sums.1;
                let reflection = if m.reflectivity > 0 {
                    cast_ray_s(
                        scene,
                        lights,
                        tm,
                        add_s(hit.point, scale_s(hit.normal, RAY_OFFSET as int)),
                        normalize_s(reflect_s(rd, hit.normal)),
                        depth + 1,
                    )
                } else {
                    v3(SKY_FALLBACK_RG as int, SKY_FALLBACK_RG as int, SKY_FALLBACK_B as int)
                };
                let refraction = if m.transparency > 0 {
                    let refr_dir = normalize_s(refract_s(rd, hit.normal, m.refractive_index as int));
                    if refr_dir == v3(0, 0, 0) {
                        v3(0, 0, 0)
                    } else {
                        cast_ray_s(
                            scene,
                            lights,
                            tm,
                            sub_s(hit.point, scale_s(hit.normal, RAY_OFFSET as int)),
                            refr_dir,
                            depth + 1,
                        )
                    }
                } else {
                    v3(0, 0, 0)
                };
                composite_s(total_diffuse, total_specular, reflection, refraction, m)
            },
        }
    }
}

/// One light's diffuse and specular contribution at a hit point, as
/// `light_contrib_s` states it.
fn shade_one_light(
    objects: &Vec<Primitive>,
    light: &Light,
    hit: &HitInfo,
    base: &Vector3,
    view: &Vector3,
) -> (r: (Vector3, Vector3))
    requires
        scene_wf(objects@),
        light.wf(),
        hit_wf(hit@),
        color_unit(base@),
        in_range(view@, FX_ONE as int),
    ensures
        r.0@ == light_contrib_s(objects@, *light, hit@, base@, view@).0,
        r.1@ == light_contrib_s(objects@, *light, hit@, base@, view@).1,
        color_in(r.0@, 0x2000_0000_0000),
        color_in(r.1@, 0x2000_0000_0000),
{
    proof {
        lemma_contrib_bounds(objects@, *light, hit@, base@, view@);
    }
    let m = hit.material;
    let lvec = light.position.vsub(&hit.point);
    proof {
        crate::vector::lemma_len_bound(lvec@, 0x9_0000_0000);
        lemma_comp_le_len(lvec@);
    }
    let dist = lvec.length();
    if dist <= 0 {
        return (Vector3 { x: 0, y: 0, z: 0 }, Vector3 { x: 0, y: 0, z: 0 });
    }
    proof {
        lemma_fdiv_bound(lvec@.x, dist as int);
        lemma_fdiv_bound(lvec@.y, dist as int);
        lemma_fdiv_bound(lvec@.z, dist as int);
    }
    let light_dir = Vector3 {
        x: fx_div(lvec.x, dist),
        y: fx_div(lvec.y, dist),
        z: fx_div(lvec.z, dist),
    };
    proof {
        lemma_fmul_bound(hit@.normal.x, SHADOW_OFFSET as int, FX_ONE as int, 328);
        lemma_fmul_bound(hit@.normal.y, SHADOW_OFFSET as int, FX_ONE as int, 328);
        lemma_fmul_bound(hit@.normal.z, SHADOW_OFFSET as int, FX_ONE as int, 328);
    }
    let shadow_origin = hit.point.vadd(&hit.normal.vscale(SHADOW_OFFSET));
    let in_shadow = intersects_any(&shadow_origin, &light_dir, objects, dist - RAY_OFFSET);
    proof {
        crate::fx::lemma_mul_le(dist as int, 0x12_0000_0000, dist as int, 0x12_0000_0000);
        lemma_fmul_bound(dist as int, dist as int, 0x12_0000_0000, 0x12_0000_0000);
        lemma_fmul_mono(0, dist as int, dist as int);
        lemma_fmul_bound(
            K_ATTEN as int,
            fmul(dist as int, dist as int),
            K_ATTEN as int,
            0x144_0000_0000_0000,
        );
        lemma_fmul_mono(0, K_ATTEN as int, fmul(dist as int, dist as int));
        lemma_fdiv_bound(
            light.intensity as int,
            FX_ONE + fmul(K_ATTEN as int, fmul(dist as int, dist as int)),
        );
        vstd::arithmetic::div_mod::lemma_div_pos_is_pos(
            (light.intensity as int) * FX_ONE,
            FX_ONE + fmul(K_ATTEN as int, fmul(dist as int, dist as int)),
        );
    }
    let atten = fx_div(light.intensity, FX_ONE + fx_mul(K_ATTEN, fx_mul(dist, dist)));
    let factor: i64 = if in_shadow {
        SHADOW_FACTOR
    } else {
        FX_ONE
    };
    proof {
        lemma_dot_bound(hit@.normal, light_dir@, FX_ONE as int, FX_ONE as int);
    }
    let nl = hit.normal.dot(&light_dir);
    let ndotl = if nl < 0 {
        0
    } else {
        nl
    };
    proof {
        lemma_fmul_bound(base@.x, ndotl as int, FX_ONE as int, 0x3_0000);
        lemma_fmul_bound(base@.y, ndotl as int, FX_ONE as int, 0x3_0000);
        lemma_fmul_bound(base@.z, ndotl as int, FX_ONE as int, 0x3_0000);
    }
    let t1 = base.vscale(ndotl);
    proof {
        lemma_fmul_bound(t1@.x, atten as int, 0x3_0000, 0x400_0000_0000);
        lemma_fmul_bound(t1@.y, atten as int, 0x3_0000, 0x400_0000_0000);
        lemma_fmul_bound(t1@.z, atten as int, 0x3_0000, 0x400_0000_0000);
    }
    let t2 = t1.vscale(atten);
    proof {
        lemma_fmul_bound(t2@.x, light.color@.x, 0xc00_0000_0000, FX_ONE as int);
        lemma_fmul_bound(t2@.y, light.color@.y, 0xc00_0000_0000, FX_ONE as int);
        lemma_fmul_bound(t2@.z, light.color@.z, 0xc00_0000_0000, FX_ONE as int);
    }
    let t3 = t2.vmul(&light.color);
    proof {
        lemma_fmul_bound(t3@.x, factor as int, 0xc00_0000_0000, FX_ONE as int);
        lemma_fmul_bound(t3@.y, factor as int, 0xc00_0000_0000, FX_ONE as int);
        lemma_fmul_bound(t3@.z, factor as int, 0xc00_0000_0000, FX_ONE as int);
    }
    let t4 = t3.vscale(factor);
    let half = view.vadd(&light_dir).normalized();
    proof {
        lemma_dot_bound(hit@.normal, half@, FX_ONE as int, FX_ONE as int);
    }
    let ndoth = fx_clamp(hit.normal.dot(&half), 0, FX_ONE);
    let sp = fx_pow(ndoth, m.specular);
    proof {
        lemma_fmul_unit(light.color@.x, sp as int);
        lemma_fmul_unit(light.color@.y, sp as int);
        lemma_fmul_unit(light.color@.z, sp as int);
    }
    let s1 = light.color.vscale(sp);
    proof {
        lemma_fmul_bound(s1@.x, atten as int, FX_ONE as int, 0x400_0000_0000);
        lemma_fmul_bound(s1@.y, atten as int, FX_ONE as int, 0x400_0000_0000);
        lemma_fmul_bound(s1@.z, atten as int, FX_ONE as int, 0x400_0000_0000);
    }
    let s2 = s1.vscale(atten);
    proof {
        lemma_fmul_bound(s2@.x, factor as int, 0x400_0000_0000, FX_ONE as int);
        lemma_fmul_bound(s2@.y, factor as int, 0x400_0000_0000, FX_ONE as int);
        lemma_fmul_bound(s2@.z, factor as int, 0x400_0000_0000, FX_ONE as int);
    }
    let s3 = s2.vscale(factor);
    (t4, s3)
}

/// Casts one ray into the scene and shades it recursively; the single entry
/// point the render loop calls once per pixel.
#[verifier::rlimit(100)]
#[verifier::loop_isolation(false)]
pub fn cast_ray(
    ray_origin: &Vector3,
    ray_direction: &Vector3,
    objects: &Vec<Primitive>,
    lights: &Vec<Light>,
    depth: u32,
    texture_manager: &TextureManager,
) -> (r: Vector3)
    requires
        scene_wf(objects@),
        lights_wf(lights@),
        texture_manager.wf(),
        in_range(ray_origin@, ORIGIN_MAX as int),
        in_range(ray_direction@, FX_ONE as int),
    ensures
        r@ == cast_ray_s(
            objects@,
            lights@,
            *texture_manager,
            ray_origin@,
            ray_direction@,
            depth as int,
        ),
        color_in(r@, cb_s(depth as int)),
    decreases 4 - depth,
{
    proof {
        lemma_cb_bound(depth as int);
    }
    if depth > MAX_DEPTH {
        return Vector3 { x: SKY_FALLBACK_RG, y: SKY_FALLBACK_RG, z: SKY_FALLBACK_B };
    }
    proof {
        lemma_cb_bound(depth + 1);
    }
    let hit = match nearest_hit(objects, ray_origin, ray_direction) {
        Option::None => {
            return procedural_sky(ray_direction);
        },
        Option::Some(hit) => hit,
    };
    let m = hit.material;
    let base = resolve_base(texture_manager, &hit);
    let view = ray_origin.vsub(&hit.point).normalized();
    let ambient = Vector3 { x: AMBIENT, y: AMBIENT, z: AMBIENT };
    proof {
        lemma_fmul_unit(AMBIENT as int, base@.x);
        lemma_fmul_unit(AMBIENT as int, base@.y);
        lemma_fmul_unit(AMBIENT as int, base@.z);
    }
    let mut total_diffuse = ambient.vmul(&base);
    let mut total_specular = Vector3 { x: 0, y: 0, z: 0 };
    let mut i: usize = 0;
    while i < lights.len()
        invariant
            i <= lights@.len(),
            scene_wf(objects@),
            lights_wf(lights@),
            hit_wf(hit@),
            color_unit(base@),
            in_range(view@, FX_ONE as int),
            view@ == normalize_s(sub_s(ray_origin@, hit@.point)),
            total_diffuse@ == add_s(
                cmul_s(v3(AMBIENT as int, AMBIENT as int, AMBIENT as int), base@),
                light_sums_s(objects@, lights@, hit@, base@, view@, i as int).0,
            ),
            total_specular@ == light_sums_s(objects@, lights@, hit@, base@, view@, i as int).1,
            color_in(total_diffuse@, FX_ONE + i * 0x2000_0000_0000),
            color_in(total_specular@, i * 0x2000_0000_0000),
        decreases lights@.len() - i,
    {
        let light = lights[i];
        let parts = shade_one_light(objects, &light, &hit, &base, &view);
        let cd = parts.0;
        let cs = parts.1;
        total_diffuse = total_diffuse.vadd(&cd);
        total_specular = total_specular.vadd(&cs);
        i = i + 1;
    }
    let mut reflection = Vector3 { x: SKY_FALLBACK_RG, y: SKY_FALLBACK_RG, z: SKY_FALLBACK_B };
    if m.reflectivity > 0 {
        let rdir = reflect(ray_direction, &hit.normal).normalized();
        proof {
            lemma_fmul_bound(hit@.normal.x, RAY_OFFSET as int, FX_ONE as int, 66);
            lemma_fmul_bound(hit@.normal.y, RAY_OFFSET as int, FX_ONE as int, 66);
            lemma_fmul_bound(hit@.normal.z, RAY_OFFSET as int, FX_ONE as int, 66);
        }
        let rorigin = hit.point.vadd(&hit.normal.vscale(RAY_OFFSET));
        reflection = cast_ray(&rorigin, &rdir, objects, lights, depth + 1, texture_manager);
    }
    let mut refraction = Vector3 { x: 0, y: 0, z: 0 };
    if m.transparency > 0 {
        let fdir = refract(ray_direction, &hit.normal, m.refractive_index).normalized();
        // Total internal reflection leaves a zero direction: no contribution.
        if !(fdir.x == 0 && fdir.y == 0 && fdir.z == 0) {
            proof {
                lemma_fmul_bound(hit@.normal.x, RAY_OFFSET as int, FX_ONE as int, 66);
                lemma_fmul_bound(hit@.normal.y, RAY_OFFSET as int, FX_ONE as int, 66);
                lemma_fmul_bound(hit@.normal.z, RAY_OFFSET as int, FX_ONE as int, 66);
            }
            let forigin = hit.point.vsub(&hit.normal.vscale(RAY_OFFSET));
            refraction = cast_ray(&forigin, &fdir, objects, lights, depth + 1, texture_manager);
        }
    }
    composite(&total_diffuse, &total_specular, &reflection, &refraction, &m)
}

/// The base surface color at a hit, as `base_color_s` states it.
fn resolve_base(texture_manager: &TextureManager, hit: &HitInfo) -> (r: Vector3)
    requires
        texture_manager.wf(),
        hit_wf(hit@),
    ensures
        r@ == base_color_s(*texture_manager, hit@),
        color_unit(r@),
{
    let m = hit.material;
    let mut base = m.diffuse;
    if let Option::Some(id) = m.texture {
        if let Option::Some(uv) = map_uv_for_cube(
            &hit.local_point,
            &hit.local_normal,
            &hit.local_half_size,
        ) {
            proof {
                crate::fx::lemma_mul_le(
                    uv.0 as int,
                    0x40_0000_0000_0000,
                    hit@.repeat_u,
                    REPEAT_MAX as int,
                );
                crate::fx::lemma_mul_le(
                    uv.1 as int,
                    0x40_0000_0000_0000,
                    hit@.repeat_v,
                    REPEAT_MAX as int,
                );
            }
            let us = fx_mul(uv.0, hit.texture_repeat.0);
            let vs = fx_mul(uv.1, hit.texture_repeat.1);
            base = texture_manager.sample_uv(id, us, vs);
        }
    }
    base
}

/// The final radiance composition, as `composite_s` states it; every
/// component stays nonnegative and within the sum of its inputs' components
/// plus the emission bound.
fn composite(
    total_diffuse: &Vector3,
    total_specular: &Vector3,
    reflection: &Vector3,
    refraction: &Vector3,
    m: &Material,
) -> (r: Vector3)
    requires
        m.wf(),
        color_in(total_diffuse@, 0x80_0000_0001_0000),
        color_in(total_specular@, 0x80_0000_0000_0000),
        color_in(reflection@, 0x1e00_0000_0020_0000),
        color_in(refraction@, 0x1e00_0000_0020_0000),
    ensures
        r@ == composite_s(total_diffuse@, total_specular@, reflection@, refraction@, *m),
        r@.x <= total_diffuse@.x + total_specular@.x + reflection@.x + refraction@.x
            + EMISSION_MAX,
        r@.y <= total_diffuse@.y + total_specular@.y + reflection@.y + refraction@.y
            + EMISSION_MAX,
        r@.z <= total_diffuse@.z + total_specular@.z + reflection@.z + refraction@.z
            + EMISSION_MAX,
        0 <= r@.x && 0 <= r@.y && 0 <= r@.z,
{
    proof {
        lemma_fmul_bound(m.emissive@.x, m.emission as int, FX_ONE as int, EMISSION_MAX as int);
        lemma_fmul_bound(m.emissive@.y, m.emission as int, FX_ONE as int, EMISSION_MAX as int);
        lemma_fmul_bound(m.emissive@.z, m.emission as int, FX_ONE as int, EMISSION_MAX as int);
        lemma_fmul_mono(0, m.emissive@.x, m.emission as int);
        lemma_fmul_mono(0, m.emissive@.y, m.emission as int);
        lemma_fmul_mono(0, m.emissive@.z, m.emission as int);
    }
    let emitted = m.emissive.vscale(m.emission);
    proof {
        crate::fx::lemma_mul_le(total_diffuse@.x, 0x80_0000_0001_0000, m.albedo_diffuse as int, FX_ONE as int);
        crate::fx::lemma_mul_le(total_diffuse@.y, 0x80_0000_0001_0000, m.albedo_diffuse as int, FX_ONE as int);
        crate::fx::lemma_mul_le(total_diffuse@.z, 0x80_0000_0001_0000, m.albedo_diffuse as int, FX_ONE as int);
        lemma_fmul_unit(total_diffuse@.x, m.albedo_diffuse as int);
        lemma_fmul_unit(total_diffuse@.y, m.albedo_diffuse as int);
        lemma_fmul_unit(total_diffuse@.z, m.albedo_diffuse as int);
        crate::fx::lemma_mul_le(total_specular@.x, 0x80_0000_0000_0000, m.albedo_specular as int, FX_ONE as int);
        crate::fx::lemma_mul_le(total_specular@.y, 0x80_0000_0000_0000, m.albedo_specular as int, FX_ONE as int);
        crate::fx::lemma_mul_le(total_specular@.z, 0x80_0000_0000_0000, m.albedo_specular as int, FX_ONE as int);
        lemma_fmul_unit(total_specular@.x, m.albedo_specular as int);
        lemma_fmul_unit(total_specular@.y, m.albedo_specular as int);
        lemma_fmul_unit(total_specular@.z, m.albedo_specular as int);
        crate::fx::lemma_mul_le(reflection@.x, 0x1e00_0000_0020_0000, m.reflectivity as int, FX_ONE as int);
        crate::fx::lemma_mul_le(reflection@.y, 0x1e00_0000_0020_0000, m.reflectivity as int, FX_ONE as int);
        crate::fx::lemma_mul_le(reflection@.z, 0x1e00_0000_0020_0000, m.reflectivity as int, FX_ONE as int);
        lemma_fmul_unit(reflection@.x, m.reflectivity as int);
        lemma_fmul_unit(reflection@.y, m.reflectivity as int);
        lemma_fmul_unit(reflection@.z, m.reflectivity as int);
        crate::fx::lemma_mul_le(refraction@.x, 0x1e00_0000_0020_0000, m.transparency as int, FX_ONE as int);
        crate::fx::lemma_mul_le(refraction@.y, 0x1e00_0000_0020_0000, m.transparency as int, FX_ONE as int);
        crate::fx::lemma_mul_le(refraction@.z, 0x1e00_0000_0020_0000, m.transparency as int, FX_ONE as int);
        lemma_fmul_unit(refraction@.x, m.transparency as int);
        lemma_fmul_unit(refraction@.y, m.transparency as int);
        lemma_fmul_unit(refraction@.z, m.transparency as int);
    }
    let d_term = total_diffuse.vscale(m.albedo_diffuse);
    let s_term = total_specular.vscale(m.albedo_specular);
    let r_term = reflection.vscale(m.reflectivity);
    let f_term = refraction.vscale(m.transparency);
    d_term.vadd(&s_term).vadd(&r_term).vadd(&f_term).vadd(&emitted)
}


/// A ray that misses every primitive is shaded with exactly the procedural
/// sky of its direction, whatever its origin.
pub proof fn lemma_miss_is_sky(
    scene: Seq<Primitive>,
    lights: Seq<Light>,
    tm: TextureManager,
    ro: V3,
    rd: V3,
    depth: int,
)
    requires
        0 <= depth <= 3,
        nearest_hit_s(scene, ro, rd, scene.len() as int) is None,
    ensures
        cast_ray_s(scene, lights, tm, ro, rd, depth) == sky_s(rd),
{
}

/// Shading a missed ray does not depend on the ray's origin: two origins that
/// both miss yield the same color.
pub proof fn lemma_miss_independent_of_origin(
    scene: Seq<Primitive>,
    lights: Seq<Light>,
    tm: TextureManager,
    o1: V3,
    o2: V3,
    rd: V3,
    depth: int,
)
    requires
        0 <= depth <= 3,
        nearest_hit_s(scene, o1, rd, scene.len() as int) is None,
        nearest_hit_s(scene, o2, rd, scene.len() as int) is None,
    ensures
        cast_ray_s(scene, lights, tm, o1, rd, depth) == cast_ray_s(scene, lights, tm, o2, rd, depth),
{
    lemma_miss_is_sky(scene, lights, tm, o1, rd, depth);
    lemma_miss_is_sky(scene, lights, tm, o2, rd, depth);
}

/// A nonnegative fixed-point product grows with its second factor too.
proof fn lemma_fmul_mono2(t: int, a: int, b: int)
    requires
        0 <= t,
        0 <= a <= b,
    ensures
        fmul(t, a) <= fmul(t, b),
        0 <= fmul(t, a),
{
    assert(0 <= t * a <= t * b) by (nonlinear_arith)
        requires
            0 <= t,
            0 <= a <= b,
    ;
    vstd::arithmetic::div_mod::lemma_div_pos_is_pos(t * a, FX_ONE as int);
    vstd::arithmetic::div_mod::lemma_div_is_ordered(t * a, t * b, FX_ONE as int);
}

/// Attenuation correctness: a light's attenuated intensity never drops as the
/// light moves closer.
pub proof fn lemma_attenuation_monotone(intensity: int, d1: int, d2: int)
    requires
        0 <= intensity,
        0 < d1 <= d2,
    ensures
        atten_s(intensity, d2) <= atten_s(intensity, d1),
        0 <= atten_s(intensity, d2),
{
    lemma_fmul_mono(d1, d2, d1);
    lemma_fmul_mono2(d2, d1, d2);
    lemma_fmul_mono2(K_ATTEN as int, fmul(d1, d1), fmul(d2, d2));
    let den1 = FX_ONE + fmul(K_ATTEN as int, fmul(d1, d1));
    let den2 = FX_ONE + fmul(K_ATTEN as int, fmul(d2, d2));
    vstd::arithmetic::div_mod::lemma_div_is_ordered_by_denominator(
        intensity * FX_ONE,
        den1,
        den2,
    );
    assert(0 <= intensity * FX_ONE) by (nonlinear_arith)
        requires
            0 <= intensity,
    ;
    vstd::arithmetic::div_mod::lemma_div_pos_is_pos(intensity * FX_ONE, den2);
}

/// With the geometry fixed, a light's diffuse weight never drops as the light
/// moves closer along the surface normal.
pub proof fn lemma_diffuse_attenuation_monotone(t: int, intensity: int, d1: int, d2: int)
    requires
        0 <= t,
        0 <= intensity,
        0 < d1 <= d2,
    ensures
        fmul(t, atten_s(intensity, d2)) <= fmul(t, atten_s(intensity, d1)),
        0 <= fmul(t, atten_s(intensity, d2)),
{
    lemma_attenuation_monotone(intensity, d1, d2);
    lemma_fmul_mono2(t, atten_s(intensity, d2), atten_s(intensity, d1));
}

/// The shadow test scales a light's whole contribution by exactly the shadow
/// residual: with the same light and geometry, the contribution under an
/// occluding scene is the unoccluded one scaled by `SHADOW_FACTOR`, component
/// by component, diffuse and specular alike.
pub proof fn lemma_shadow_factor_exact(
    open_scene: Seq<Primitive>,
    blocked_scene: Seq<Primitive>,
    light: Light,
    hit: HS,
    base: V3,
    view: V3,
)
    requires
        ({
            let lvec = sub_s(light.position@, hit.point);
            let dist = len_s(lvec);
            let light_dir = v3(fdiv(lvec.x, dist), fdiv(lvec.y, dist), fdiv(lvec.z, dist));
            let shadow_origin = add_s(hit.point, scale_s(hit.normal, SHADOW_OFFSET as int));
            &&& dist > 0
            &&& !any_hit_s(open_scene, shadow_origin, light_dir, dist - RAY_OFFSET)
            &&& any_hit_s(blocked_scene, shadow_origin, light_dir, dist - RAY_OFFSET)
        }),
    ensures
        light_contrib_s(blocked_scene, light, hit, base, view).0 == scale_s(
            light_contrib_s(open_scene, light, hit, base, view).0,
            SHADOW_FACTOR as int,
        ),
        light_contrib_s(blocked_scene, light, hit, base, view).1 == scale_s(
            light_contrib_s(open_scene, light, hit, base, view).1,
            SHADOW_FACTOR as int,
        ),
{
    let lvec = sub_s(light.position@, hit.point);
    let dist = len_s(lvec);
    let light_dir = v3(fdiv(lvec.x, dist), fdiv(lvec.y, dist), fdiv(lvec.z, dist));
    let atten = atten_s(light.intensity as int, dist);
    let ndotl0 = dot_s(hit.normal, light_dir);
    let ndotl: int = if ndotl0 < 0 {
        0
    } else {
        ndotl0
    };
    let t3 = cmul_s(scale_s(scale_s(base, ndotl), atten), light.color@);
    lemma_fmul_one(t3.x);
    lemma_fmul_one(t3.y);
    lemma_fmul_one(t3.z);
    let half = normalize_s(add_s(view, light_dir));
    let ndoth = clamp_s(dot_s(hit.normal, half), 0, FX_ONE as int);
    let sp = fpow(ndoth, hit.material.specular as nat);
    let s2 = scale_s(scale_s(light.color@, sp), atten);
    lemma_fmul_one(s2.x);
    lemma_fmul_one(s2.y);
    lemma_fmul_one(s2.z);
}

/// The shadow residual strictly reduces a contribution and never extinguishes
/// it, once the unshadowed term carries at least seven fixed-point quanta
/// (below that, the scaled term truncates to zero).
pub proof fn lemma_shadow_strictly_reduces(c: int)
    requires
        7 <= c,
    ensures
        0 < fmul(c, SHADOW_FACTOR as int) < c,
{
    assert(FX_ONE <= c * SHADOW_FACTOR) by (nonlinear_arith)
        requires
            7 <= c,
    ;
    assert(c * SHADOW_FACTOR <= (c - 1) * FX_ONE) by (nonlinear_arith)
        requires
            7 <= c,
    ;
    vstd::arithmetic::div_mod::lemma_div_is_ordered(FX_ONE as int, c * SHADOW_FACTOR, FX_ONE as int);
    vstd::arithmetic::div_mod::lemma_div_by_self(FX_ONE as int);
    vstd::arithmetic::div_mod::lemma_div_is_ordered(
        c * SHADOW_FACTOR,
        (c - 1) * FX_ONE,
        FX_ONE as int,
    );
    vstd::arithmetic::div_mod::lemma_div_multiples_vanish(c - 1, FX_ONE as int);
    assert((c - 1) * FX_ONE == (FX_ONE as int) * (c - 1)) by (nonlinear_arith);
}

/// Recursion termination: past the depth bound the shader returns the flat
/// sky fallback without touching the scene; Verus checks the decreasing depth
/// budget on `cast_ray` itself, and its contract bounds every component of
/// the result by `cb_s`.
pub proof fn lemma_depth_bound_fallback(
    scene: Seq<Primitive>,
    lights: Seq<Light>,
    tm: TextureManager,
    ro: V3,
    rd: V3,
    depth: int,
)
    requires
        depth > 3,
    ensures
        cast_ray_s(scene, lights, tm, ro, rd, depth) == v3(
            SKY_FALLBACK_RG as int,
            SKY_FALLBACK_RG as int,
            SKY_FALLBACK_B as int,
        ),
{
}

/// At normal incidence on a face perpendicular to the ray, Snell's law bends
/// nothing: the refracted direction equals the incident one, entering (the
/// face normal against the ray) and leaving (the normal along it) alike.
pub proof fn lemma_refract_normal_incidence(idx: int)
    requires
        0 < idx,
    ensures
        refract_s(v3(0, 0, -(FX_ONE as int)), v3(0, 0, FX_ONE as int), idx) == v3(
            0,
            0,
            -(FX_ONE as int),
        ),
        refract_s(v3(0, 0, -(FX_ONE as int)), v3(0, 0, -(FX_ONE as int)), idx) == v3(
            0,
            0,
            -(FX_ONE as int),
        ),
{
    let d = v3(0, 0, -(FX_ONE as int));
    lemma_fmul_one(FX_ONE as int);
    lemma_fmul_one(-(FX_ONE as int));
    lemma_sqrt_floor_square(FX_ONE as nat);
    assert(((FX_ONE * FX_ONE) as nat) == (FX_ONE as nat) * (FX_ONE as nat));
    vstd::arithmetic::div_mod::lemma_div_of0(FX_ONE as int);
    let eta_in = fdiv(FX_ONE as int, idx);
    lemma_fmul_one(eta_in);
    lemma_fmul_one(-eta_in);
    lemma_fmul_one(fmul(eta_in, FX_ONE as int) - FX_ONE);
    lemma_fmul_one(-(fmul(eta_in, FX_ONE as int) - FX_ONE));
    lemma_fmul_one(idx);
    lemma_fmul_one(-idx);
    lemma_fmul_one(fmul(idx, FX_ONE as int) - FX_ONE);
    lemma_fmul_one(-(fmul(idx, FX_ONE as int) - FX_ONE));
    let n1 = v3(0, 0, FX_ONE as int);
    assert(dot_s(d, n1) == fmul(-(FX_ONE as int), FX_ONE as int));
    assert(dot_s(d, n1) == -(FX_ONE as int));
    assert(clamp_s(dot_s(d, n1), -(FX_ONE as int), FX_ONE as int) == -(FX_ONE as int));
    assert(fmul(FX_ONE as int, FX_ONE as int) == FX_ONE);
    assert(FX_ONE - fmul(FX_ONE as int, FX_ONE as int) == 0);
    assert(fmul(fmul(eta_in, eta_in), 0) == 0);
    assert(sqrt_floor((FX_ONE * FX_ONE) as nat) == FX_ONE);
    assert(fmul(eta_in, FX_ONE as int) == eta_in);
    let coef1 = fmul(eta_in, FX_ONE as int) - sqrt_floor((FX_ONE * FX_ONE) as nat);
    assert(coef1 == eta_in - FX_ONE);
    assert(fmul(0, eta_in) == 0);
    assert(fmul(0, coef1) == 0);
    assert(fmul(-(FX_ONE as int), eta_in) == -eta_in);
    assert(fmul(FX_ONE as int, coef1) == coef1);
    assert(refract_s(d, n1, idx) == add_s(scale_s(d, eta_in), scale_s(n1, coef1)));
    assert(add_s(scale_s(d, eta_in), scale_s(n1, coef1)) == v3(0, 0, -(FX_ONE as int)));
}

/// Refraction round trip: entering and then leaving a slab of one consistent
/// index at normal incidence leaves the direction unchanged - zero net
/// bending.
pub proof fn lemma_refract_round_trip(idx: int)
    requires
        0 < idx,
    ensures
        ({
            let d = v3(0, 0, -(FX_ONE as int));
            refract_s(
                refract_s(d, v3(0, 0, FX_ONE as int), idx),
                v3(0, 0, -(FX_ONE as int)),
                idx,
            ) == d
        }),
{
    lemma_refract_normal_incidence(idx);
}


/// For one unshadowed light straight above the surface point (along an
/// axis-aligned normal), the diffuse term never drops as the light moves
/// closer, component by component.
pub proof fn lemma_closer_light_brighter(
    scene: Seq<Primitive>,
    l1: Light,
    l2: Light,
    hit: HS,
    base: V3,
    view: V3,
    d1: int,
    d2: int,
)
    requires
        0 < d1 <= d2,
        l1.position@ == add_s(hit.point, v3(0, d1, 0)),
        l2.position@ == add_s(hit.point, v3(0, d2, 0)),
        l1.color == l2.color,
        l1.intensity == l2.intensity,
        0 <= l1.intensity,
        color_unit(l1.color@),
        hit.normal == v3(0, FX_ONE as int, 0),
        color_unit(base),
        !any_hit_s(
            scene,
            add_s(hit.point, scale_s(hit.normal, SHADOW_OFFSET as int)),
            v3(0, FX_ONE as int, 0),
            d1 - RAY_OFFSET,
        ),
        !any_hit_s(
            scene,
            add_s(hit.point, scale_s(hit.normal, SHADOW_OFFSET as int)),
            v3(0, FX_ONE as int, 0),
            d2 - RAY_OFFSET,
        ),
    ensures
        ({
            let near = light_contrib_s(scene, l1, hit, base, view).0;
            let far = light_contrib_s(scene, l2, hit, base, view).0;
            far.x <= near.x && far.y <= near.y && far.z <= near.z
        }),
{
    lemma_vertical_light_diffuse(scene, l1, hit, base, view, d1);
    lemma_vertical_light_diffuse(scene, l2, hit, base, view, d2);
    lemma_fmul_one(base.x);
    lemma_fmul_one(base.y);
    lemma_fmul_one(base.z);
    lemma_attenuation_monotone(l1.intensity as int, d1, d2);
    let a1 = atten_s(l1.intensity as int, d1);
    let a2 = atten_s(l1.intensity as int, d2);
    lemma_fmul_mono2(base.x, a2, a1);
    lemma_fmul_mono2(base.y, a2, a1);
    lemma_fmul_mono2(base.z, a2, a1);
    lemma_fmul_mono(fmul(base.x, a2), fmul(base.x, a1), l1.color@.x);
    lemma_fmul_mono(fmul(base.y, a2), fmul(base.y, a1), l1.color@.y);
    lemma_fmul_mono(fmul(base.z, a2), fmul(base.z, a1), l1.color@.z);
    let t3n = cmul_s(scale_s(base, a1), l1.color@);
    let t3f = cmul_s(scale_s(base, a2), l1.color@);
    lemma_fmul_one(t3n.x);
    lemma_fmul_one(t3n.y);
    lemma_fmul_one(t3n.z);
    lemma_fmul_one(t3f.x);
    lemma_fmul_one(t3f.y);
    lemma_fmul_one(t3f.z);
}

/// The diffuse term of an unshadowed light straight above the point, written
/// out: the base color under the light's color and attenuated intensity.
proof fn lemma_vertical_light_diffuse(
    scene: Seq<Primitive>,
    light: Light,
    hit: HS,
    base: V3,
    view: V3,
    d: int,
)
    requires
        0 < d,
        light.position@ == add_s(hit.point, v3(0, d, 0)),
        hit.normal == v3(0, FX_ONE as int, 0),
        !any_hit_s(
            scene,
            add_s(hit.point, scale_s(hit.normal, SHADOW_OFFSET as int)),
            v3(0, FX_ONE as int, 0),
            d - RAY_OFFSET,
        ),
    ensures
        light_contrib_s(scene, light, hit, base, view).0 == scale_s(
            cmul_s(scale_s(scale_s(base, FX_ONE as int), atten_s(light.intensity as int, d)), light.color@),
            FX_ONE as int,
        ),
{
    let lvec = sub_s(light.position@, hit.point);
    assert(lvec == v3(0, d, 0));
    assert(norm2_raw(lvec) == d * d);
    assert((d * d) as nat == (d as nat) * (d as nat));
    crate::fx::lemma_sqrt_floor_square(d as nat);
    assert(len_s(lvec) == d);
    vstd::arithmetic::div_mod::lemma_div_of0(d);
    vstd::arithmetic::div_mod::lemma_div_multiples_vanish(FX_ONE as int, d);
    assert(fdiv(0, d) == 0);
    assert(fdiv(d, d) == FX_ONE);
    let light_dir = v3(0, FX_ONE as int, 0);
    lemma_fmul_one(FX_ONE as int);
    assert(dot_s(hit.normal, light_dir) == fmul(FX_ONE as int, FX_ONE as int));
}

} // verus!
