//! Fixed-point 3-vectors, used for positions, directions, normals and linear
//! colors, with a ghost-level model over unbounded integers.

use vstd::prelude::*;
use crate::fx::{
    FX_ONE, fx_abs, div_t, fmul, fdiv, fx_prod_max, sqrt_floor, fx_div, lemma_abs_mul,
    lemma_div_t_bound, lemma_sqrt_floor_square, lemma_sqrt_floor_mono, lemma_fdiv_bound,
};

verus! {

/// A fixed-point vector: each component counts multiples of `1 / FX_ONE`.
#[derive(Clone, Copy, Debug)]
pub struct Vector3 {
    pub x: i64,
    pub y: i64,
    pub z: i64,
}

/// The mathematical value of a `Vector3`: its components as unbounded integers.
pub ghost struct V3 {
    pub x: int,
    pub y: int,
    pub z: int,
}

impl View for Vector3 {
    type V = V3;

    open spec fn view(&self) -> V3 {
        V3 { x: self.x as int, y: self.y as int, z: self.z as int }
    }
}

pub open spec fn v3(x: int, y: int, z: int) -> V3 {
    V3 { x, y, z }
}

/// All components within `[-b, b]`.
pub open spec fn in_range(v: V3, b: int) -> bool {
    -b <= v.x <= b && -b <= v.y <= b && -b <= v.z <= b
}

pub open spec fn add_s(a: V3, b: V3) -> V3 {
    V3 { x: a.x + b.x, y: a.y + b.y, z: a.z + b.z }
}

pub open spec fn sub_s(a: V3, b: V3) -> V3 {
    V3 { x: a.x - b.x, y: a.y - b.y, z: a.z - b.z }
}

pub open spec fn neg_s(a: V3) -> V3 {
    V3 { x: -a.x, y: -a.y, z: -a.z }
}

/// Scale by a fixed-point scalar, component by component.
pub open spec fn scale_s(v: V3, s: int) -> V3 {
    V3 { x: fmul(v.x, s), y: fmul(v.y, s), z: fmul(v.z, s) }
}

/// The componentwise (Hadamard) product, used for color modulation.
pub open spec fn cmul_s(a: V3, b: V3) -> V3 {
    V3 { x: fmul(a.x, b.x), y: fmul(a.y, b.y), z: fmul(a.z, b.z) }
}

/// The dot product, descaled once after the raw sum of products.
pub open spec fn dot_s(a: V3, b: V3) -> int {
    div_t(a.x * b.x + a.y * b.y + a.z * b.z, FX_ONE as int)
}

/// The cross product, each component descaled once from the raw difference.
pub open spec fn cross_s(a: V3, b: V3) -> V3 {
    V3 {
        x: div_t(a.y * b.z - a.z * b.y, FX_ONE as int),
        y: div_t(a.z * b.x - a.x * b.z, FX_ONE as int),
        z: div_t(a.x * b.y - a.y * b.x, FX_ONE as int),
    }
}

/// The squared length at raw scale (not descaled): `|v|^2 * FX_ONE^2`.
pub open spec fn norm2_raw(v: V3) -> int {
    v.x * v.x + v.y * v.y + v.z * v.z
}

/// The fixed-point length: the square root of the raw squared length carries
/// the same scale as the components.
pub open spec fn len_s(v: V3) -> int {
    sqrt_floor(norm2_raw(v) as nat) as int
}

/// Normalization; the zero vector stays zero.
pub open spec fn normalize_s(v: V3) -> V3 {
    let l = len_s(v);
    if l == 0 {
        V3 { x: 0, y: 0, z: 0 }
    } else {
        V3 { x: fdiv(v.x, l), y: fdiv(v.y, l), z: fdiv(v.z, l) }
    }
}

/// The dot product of vectors bounded by `am` and `bm` stays within
/// `3 * am * bm / FX_ONE`, and its raw products within `am * bm`.
pub proof fn lemma_dot_bound(a: V3, b: V3, am: int, bm: int)
    requires
        in_range(a, am),
        in_range(b, bm),
        0 <= am,
        0 <= bm,
    ensures
        fx_abs(a.x * b.x) <= am * bm,
        fx_abs(a.y * b.y) <= am * bm,
        fx_abs(a.z * b.z) <= am * bm,
        fx_abs(dot_s(a, b)) <= (3 * (am * bm)) / (FX_ONE as int),
{
    crate::fx::lemma_mul_le(a.x, am, b.x, bm);
    crate::fx::lemma_mul_le(a.y, am, b.y, bm);
    crate::fx::lemma_mul_le(a.z, am, b.z, bm);
    lemma_div_t_bound(a.x * b.x + a.y * b.y + a.z * b.z, 3 * (am * bm), FX_ONE as int);
}

/// Squares are nonnegative, and no component outweighs the whole length.
pub proof fn lemma_comp_le_len(v: V3)
    ensures
        norm2_raw(v) >= 0,
        fx_abs(v.x) <= len_s(v),
        fx_abs(v.y) <= len_s(v),
        fx_abs(v.z) <= len_s(v),
{
    assert(v.x * v.x == fx_abs(v.x) * fx_abs(v.x) && v.y * v.y == fx_abs(v.y) * fx_abs(v.y)
        && v.z * v.z == fx_abs(v.z) * fx_abs(v.z) && v.x * v.x >= 0 && v.y * v.y >= 0 && v.z
        * v.z >= 0) by (nonlinear_arith);
    lemma_sqrt_floor_square(fx_abs(v.x) as nat);
    lemma_sqrt_floor_mono((v.x * v.x) as nat, norm2_raw(v) as nat);
    lemma_sqrt_floor_square(fx_abs(v.y) as nat);
    lemma_sqrt_floor_mono((v.y * v.y) as nat, norm2_raw(v) as nat);
    lemma_sqrt_floor_square(fx_abs(v.z) as nat);
    lemma_sqrt_floor_mono((v.z * v.z) as nat, norm2_raw(v) as nat);
}

/// Scaling a vector within `vm` by a scalar within `sm` keeps every raw
/// product within `vm * sm` and the result within `vm * sm / FX_ONE`.
pub proof fn lemma_fmul_bound_v3(v: V3, s: int, vm: int, sm: int)
    requires
        in_range(v, vm),
        fx_abs(s) <= sm,
        0 <= vm,
        0 <= sm,
    ensures
        fx_abs(v.x * s) <= vm * sm,
        fx_abs(v.y * s) <= vm * sm,
        fx_abs(v.z * s) <= vm * sm,
        in_range(scale_s(v, s), (vm * sm) / (FX_ONE as int)),
{
    crate::fx::lemma_fmul_bound(v.x, s, vm, sm);
    crate::fx::lemma_fmul_bound(v.y, s, vm, sm);
    crate::fx::lemma_fmul_bound(v.z, s, vm, sm);
}

/// The cross product of unit-range vectors stays within two units.
pub proof fn lemma_cross_unit(a: V3, b: V3)
    requires
        in_range(a, FX_ONE as int),
        in_range(b, FX_ONE as int),
    ensures
        in_range(cross_s(a, b), 2 * FX_ONE as int),
{
    crate::fx::lemma_mul_le(a.y, FX_ONE as int, b.z, FX_ONE as int);
    crate::fx::lemma_mul_le(a.z, FX_ONE as int, b.y, FX_ONE as int);
    crate::fx::lemma_mul_le(a.z, FX_ONE as int, b.x, FX_ONE as int);
    crate::fx::lemma_mul_le(a.x, FX_ONE as int, b.z, FX_ONE as int);
    crate::fx::lemma_mul_le(a.x, FX_ONE as int, b.y, FX_ONE as int);
    crate::fx::lemma_mul_le(a.y, FX_ONE as int, b.x, FX_ONE as int);
    lemma_div_t_bound(a.y * b.z - a.z * b.y, 2 * FX_ONE * FX_ONE, FX_ONE as int);
    lemma_div_t_bound(a.z * b.x - a.x * b.z, 2 * FX_ONE * FX_ONE, FX_ONE as int);
    lemma_div_t_bound(a.x * b.y - a.y * b.x, 2 * FX_ONE * FX_ONE, FX_ONE as int);
}

/// The length of a vector with components within `b` stays within `2 * b`.
pub proof fn lemma_len_bound(v: V3, b: int)
    requires
        in_range(v, b),
        0 <= b,
    ensures
        0 <= len_s(v) <= 2 * b,
{
    assert(0 <= norm2_raw(v) <= (2 * b) * (2 * b)) by (nonlinear_arith)
        requires
            in_range(v, b),
            0 <= b,
    ;
    lemma_sqrt_floor_mono(norm2_raw(v) as nat, ((2 * b) * (2 * b)) as nat);
    lemma_sqrt_floor_square((2 * b) as nat);
    assert(((2 * b) * (2 * b)) as nat == ((2 * b) as nat) * ((2 * b) as nat));
}

/// A normalized vector has components within one unit.
pub proof fn lemma_normalize_unit(v: V3)
    ensures
        in_range(normalize_s(v), FX_ONE as int),
{
    lemma_comp_le_len(v);
    let l = len_s(v);
    if l != 0 {
        lemma_fdiv_bound(v.x, l);
        lemma_fdiv_bound(v.y, l);
        lemma_fdiv_bound(v.z, l);
    }
}

impl Vector3 {
    pub fn new(x: i64, y: i64, z: i64) -> (r: Vector3)
        ensures
            r@ == v3(x as int, y as int, z as int),
    {
        Vector3 { x, y, z }
    }

    pub fn zero() -> (r: Vector3)
        ensures
            r@ == v3(0, 0, 0),
    {
        Vector3 { x: 0, y: 0, z: 0 }
    }

    pub fn vadd(&self, o: &Vector3) -> (r: Vector3)
        requires
            in_range(self@, 0x3fff_ffff_ffff_ffff),
            in_range(o@, 0x3fff_ffff_ffff_ffff),
        ensures
            r@ == add_s(self@, o@),
    {
        Vector3 { x: self.x + o.x, y: self.y + o.y, z: self.z + o.z }
    }

    pub fn vsub(&self, o: &Vector3) -> (r: Vector3)
        requires
            in_range(self@, 0x3fff_ffff_ffff_ffff),
            in_range(o@, 0x3fff_ffff_ffff_ffff),
        ensures
            r@ == sub_s(self@, o@),
    {
        Vector3 { x: self.x - o.x, y: self.y - o.y, z: self.z - o.z }
    }

    pub fn vneg(&self) -> (r: Vector3)
        requires
            in_range(self@, 0x7fff_ffff_ffff_ffff),
        ensures
            r@ == neg_s(self@),
    {
        Vector3 { x: -self.x, y: -self.y, z: -self.z }
    }

    pub fn vscale(&self, s: i64) -> (r: Vector3)
        requires
            fx_abs(self@.x * s) <= fx_prod_max(),
            fx_abs(self@.y * s) <= fx_prod_max(),
            fx_abs(self@.z * s) <= fx_prod_max(),
        ensures
            r@ == scale_s(self@, s as int),
    {
        Vector3 { x: crate::fx::fx_mul(self.x, s), y: crate::fx::fx_mul(self.y, s), z: crate::fx::fx_mul(self.z, s) }
    }

    pub fn vmul(&self, o: &Vector3) -> (r: Vector3)
        requires
            fx_abs(self@.x * o@.x) <= fx_prod_max(),
            fx_abs(self@.y * o@.y) <= fx_prod_max(),
            fx_abs(self@.z * o@.z) <= fx_prod_max(),
        ensures
            r@ == cmul_s(self@, o@),
    {
        Vector3 { x: crate::fx::fx_mul(self.x, o.x), y: crate::fx::fx_mul(self.y, o.y), z: crate::fx::fx_mul(self.z, o.z) }
    }

    pub fn dot(&self, o: &Vector3) -> (r: i64)
        requires
            fx_abs(self@.x * o@.x) <= fx_prod_max() / 4,
            fx_abs(self@.y * o@.y) <= fx_prod_max() / 4,
            fx_abs(self@.z * o@.z) <= fx_prod_max() / 4,
        ensures
            r == dot_s(self@, o@),
    {
        let p: i128 = (self.x as i128) * (o.x as i128) + (self.y as i128) * (o.y as i128) + (
        self.z as i128) * (o.z as i128);
        descale_i128(p)
    }

    pub fn cross(&self, o: &Vector3) -> (r: Vector3)
        requires
            in_range(self@, 0x40_0000_0000),
            in_range(o@, 0x40_0000_0000),
        ensures
            r@ == cross_s(self@, o@),
    {
        proof {
            lemma_cross_terms(self@, o@);
        }
        let rx = descale_i128(
            (self.y as i128) * (o.z as i128) - (self.z as i128) * (o.y as i128),
        );
        let ry = descale_i128(
            (self.z as i128) * (o.x as i128) - (self.x as i128) * (o.z as i128),
        );
        let rz = descale_i128(
            (self.x as i128) * (o.y as i128) - (self.y as i128) * (o.x as i128),
        );
        Vector3 { x: rx, y: ry, z: rz }
    }

    /// The fixed-point length of the vector.
    pub fn length(&self) -> (r: i64)
        requires
            in_range(self@, 0x40_0000_0000),
        ensures
            r == len_s(self@),
            0 <= r <= 0x100_0000_0000,
    {
        proof {
            lemma_square_bounds(self@);
        }
        let xm = mag_i64(self.x);
        let ym = mag_i64(self.y);
        let zm = mag_i64(self.z);
        let n: u128 = xm * xm + ym * ym + zm * zm;
        let r = crate::fx::isqrt_u128(n);
        r as i64
    }

    /// Whether all components lie within `[-b, b]`.
    pub fn check_range(&self, b: i64) -> (r: bool)
        requires
            b >= 0,
        ensures
            r == in_range(self@, b as int),
    {
        -b <= self.x && self.x <= b && -b <= self.y && self.y <= b && -b <= self.z && self.z <= b
    }

    /// The unit vector of the same direction, or zero when the length is zero.
    pub fn normalized(&self) -> (r: Vector3)
        requires
            in_range(self@, 0x40_0000_0000),
        ensures
            r@ == normalize_s(self@),
            in_range(r@, FX_ONE as int),
    {
        let l = self.length();
        proof {
            lemma_comp_le_len(self@);
            lemma_normalize_unit(self@);
            if l != 0 {
                lemma_fdiv_bound(self@.x, l as int);
                lemma_fdiv_bound(self@.y, l as int);
                lemma_fdiv_bound(self@.z, l as int);
            }
        }
        if l == 0 {
            Vector3 { x: 0, y: 0, z: 0 }
        } else {
            Vector3 { x: fx_div(self.x, l), y: fx_div(self.y, l), z: fx_div(self.z, l) }
        }
    }
}

/// The raw products that a cross product of vectors within `2^38` forms stay
/// within the accepted range.
proof fn lemma_cross_terms(a: V3, b: V3)
    requires
        in_range(a, 0x40_0000_0000),
        in_range(b, 0x40_0000_0000),
    ensures
        fx_abs(a.y * b.z - a.z * b.y) <= fx_prod_max(),
        fx_abs(a.z * b.x - a.x * b.z) <= fx_prod_max(),
        fx_abs(a.x * b.y - a.y * b.x) <= fx_prod_max(),
        fx_abs(a.y * b.z) <= fx_prod_max(),
        fx_abs(a.z * b.y) <= fx_prod_max(),
        fx_abs(a.z * b.x) <= fx_prod_max(),
        fx_abs(a.x * b.z) <= fx_prod_max(),
        fx_abs(a.x * b.y) <= fx_prod_max(),
        fx_abs(a.y * b.x) <= fx_prod_max(),
{
    crate::fx::lemma_mul_le(a.y, 0x40_0000_0000, b.z, 0x40_0000_0000);
    crate::fx::lemma_mul_le(a.z, 0x40_0000_0000, b.y, 0x40_0000_0000);
    crate::fx::lemma_mul_le(a.z, 0x40_0000_0000, b.x, 0x40_0000_0000);
    crate::fx::lemma_mul_le(a.x, 0x40_0000_0000, b.z, 0x40_0000_0000);
    crate::fx::lemma_mul_le(a.x, 0x40_0000_0000, b.y, 0x40_0000_0000);
    crate::fx::lemma_mul_le(a.y, 0x40_0000_0000, b.x, 0x40_0000_0000);
}

proof fn lemma_square_bounds(v: V3)
    requires
        in_range(v, 0x40_0000_0000),
    ensures
        v.x * v.x == fx_abs(v.x) * fx_abs(v.x),
        v.y * v.y == fx_abs(v.y) * fx_abs(v.y),
        v.z * v.z == fx_abs(v.z) * fx_abs(v.z),
        0 <= v.x * v.x <= 0x1000_0000_0000_0000_0000,
        0 <= v.y * v.y <= 0x1000_0000_0000_0000_0000,
        0 <= v.z * v.z <= 0x1000_0000_0000_0000_0000,
{
    lemma_abs_mul(v.x, v.x);
    lemma_abs_mul(v.y, v.y);
    lemma_abs_mul(v.z, v.z);
    assert(v.x * v.x >= 0 && v.y * v.y >= 0 && v.z * v.z >= 0) by (nonlinear_arith);
    crate::fx::lemma_mul_le(v.x, 0x40_0000_0000, v.x, 0x40_0000_0000);
    crate::fx::lemma_mul_le(v.y, 0x40_0000_0000, v.y, 0x40_0000_0000);
    crate::fx::lemma_mul_le(v.z, 0x40_0000_0000, v.z, 0x40_0000_0000);
}

/// Magnitude of a component, for the unsigned length computation.
fn mag_i64(a: i64) -> (r: u128)
    ensures
        r == fx_abs(a as int),
{
    if a >= 0 {
        a as u128
    } else {
        (-(a as i128)) as u128
    }
}

/// Descale a raw signed product, rounding toward zero.
fn descale_i128(p: i128) -> (r: i64)
    requires
        fx_abs(p as int) <= fx_prod_max(),
    ensures
        r == div_t(p as int, FX_ONE as int),
{
    let neg = p < 0;
    let m: u128 = if neg {
        (-p) as u128
    } else {
        p as u128
    };
    let q = m / 65536;
    proof {
        lemma_div_t_bound(p as int, fx_prod_max(), FX_ONE as int);
    }
    if neg {
        (-(q as i128)) as i64
    } else {
        q as i64
    }
}

} // verus!
