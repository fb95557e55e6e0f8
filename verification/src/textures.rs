//! UV-mapped texture sampling over decoded pixel data.
//!
//! Decoding image files is the loader's concern; the sampler works on plain
//! pixel arrays and never fails: coordinates wrap around, and an unknown
//! texture resolves to opaque white.

use vstd::prelude::*;
use crate::fx::{FX_ONE, fx_wrap};
use crate::material::color_unit;
use crate::vector::{Vector3, V3, v3};

verus! {

/// Decoded pixel data: `width * height` linear colors, rows stored from the
/// top of the image down.
pub struct CpuTexture {
    pub width: usize,
    pub height: usize,
    pub pixels: Vec<Vector3>,
}

/// One 8-bit channel raised to the fixed-point color scale.
pub open spec fn byte_chan_s(b: int) -> int {
    b * FX_ONE / 255
}

/// An 8-bit RGB triple as a fixed-point color.
pub open spec fn byte_color_s(c: (u8, u8, u8)) -> V3 {
    v3(byte_chan_s(c.0 as int), byte_chan_s(c.1 as int), byte_chan_s(c.2 as int))
}

impl CpuTexture {
    /// Positive bounded dimensions, exactly one unit color per texel.
    pub open spec fn wf(&self) -> bool {
        &&& 0 < self.width <= 0x10000
        &&& 0 < self.height <= 0x10000
        &&& self.pixels@.len() == (self.width as int) * (self.height as int)
        &&& forall|i: int| 0 <= i < self.pixels@.len() ==> color_unit(#[trigger] self.pixels@[i]@)
    }

    /// Builds a texture from decoded 8-bit RGB rows (top row first), raising
    /// each channel to the fixed-point color scale; rejects dimensions that
    /// do not fit the sampler or do not match the data.
    pub fn from_image(width: usize, height: usize, data: &Vec<(u8, u8, u8)>) -> (r: Option<
        CpuTexture,
    >)
        ensures
            match r {
                Option::Some(t) => {
                    &&& t.wf()
                    &&& t.width == width
                    &&& t.height == height
                    &&& t.pixels@.len() == data@.len()
                    &&& forall|i: int|
                        0 <= i < data@.len() ==> #[trigger] t.pixels@[i]@ == byte_color_s(data@[i])
                },
                Option::None => !(0 < width <= 0x10000 && 0 < height <= 0x10000 && data@.len()
                    == (width as int) * (height as int)),
            },
    {
        if width == 0 || width > 0x10000 || height == 0 || height > 0x10000 {
            return Option::None;
        }
        proof {
            assert((width as int) * (height as int) <= 0x1_0000_0000) by (nonlinear_arith)
                requires
                    width <= 0x10000,
                    height <= 0x10000,
            ;
        }
        if (data.len() as u64) != (width as u64) * (height as u64) {
            return Option::None;
        }
        let mut pixels: Vec<Vector3> = Vec::new();
        let mut i: usize = 0;
        while i < data.len()
            invariant
                i <= data@.len(),
                pixels@.len() == i,
                forall|j: int| 0 <= j < i ==> #[trigger] pixels@[j]@ == byte_color_s(data@[j]),
                forall|j: int| 0 <= j < i ==> color_unit(#[trigger] pixels@[j]@),
            decreases data@.len() - i,
        {
            let c = data[i];
            pixels.push(
                Vector3 { x: byte_chan(c.0), y: byte_chan(c.1), z: byte_chan(c.2) },
            );
            i = i + 1;
        }
        Option::Some(CpuTexture { width, height, pixels })
    }
}

/// One decoded channel at the fixed-point scale; 255 maps exactly to one unit.
fn byte_chan(b: u8) -> (r: i64)
    ensures
        r == byte_chan_s(b as int),
        0 <= r <= FX_ONE,
{
    (((b as u64) * 65536) / 255) as i64
}

/// The texel a wrapped coordinate pair addresses: the fractional parts of `u`
/// and `v` (always nonnegative), scaled to column and row by the dimensions,
/// with the vertical axis flipped to match top-first storage, and each index
/// wrapped once more against its dimension.
pub open spec fn tex_lookup_s(t: CpuTexture, u: int, v: int) -> V3
    recommends
        t.wf(),
{
    let uw = u % (FX_ONE as int);
    let vw = v % (FX_ONE as int);
    let tx = ((uw * t.width) / (FX_ONE as int)) % (t.width as int);
    let ty = (((FX_ONE - vw) * t.height) / (FX_ONE as int)) % (t.height as int);
    t.pixels@[ty * t.width + tx]@
}

/// The collection of loaded textures, addressed by the index `load_texture`
/// hands out.
pub struct TextureManager {
    pub textures: Vec<CpuTexture>,
}

/// What `sample_uv` returns: the addressed texel of the named texture, or
/// opaque white when the name is unknown.
pub open spec fn sample_s(tm: TextureManager, id: int, u: int, v: int) -> V3 {
    if 0 <= id < tm.textures@.len() {
        tex_lookup_s(tm.textures@[id], u, v)
    } else {
        v3(FX_ONE as int, FX_ONE as int, FX_ONE as int)
    }
}

impl TextureManager {
    pub open spec fn wf(&self) -> bool {
        forall|i: int| 0 <= i < self.textures@.len() ==> (#[trigger] self.textures@[i]).wf()
    }

    pub fn new() -> (r: TextureManager)
        ensures
            r.textures@.len() == 0,
            r.wf(),
    {
        TextureManager { textures: Vec::new() }
    }

    /// Registers decoded pixel data and hands back the id that samples it.
    pub fn load_texture(&mut self, t: CpuTexture) -> (id: usize)
        requires
            t.wf(),
            old(self).wf(),
            old(self).textures@.len() < usize::MAX,
        ensures
            final(self).wf(),
            final(self).textures@ == old(self).textures@.push(t),
            id == old(self).textures@.len(),
    {
        let id = self.textures.len();
        self.textures.push(t);
        id
    }

    pub fn get_texture(&self, id: usize) -> (r: Option<&CpuTexture>)
        ensures
            match r {
                Option::Some(t) => id < self.textures@.len() && *t == self.textures@[id as int],
                Option::None => id >= self.textures@.len(),
            },
    {
        if id < self.textures.len() {
            Option::Some(&self.textures[id])
        } else {
            Option::None
        }
    }

    /// Samples texture `id` at `(u, v)`; wrap-around addressing makes every
    /// real-valued coordinate land on a texel, and an unknown id yields white.
    pub fn sample_uv(&self, id: usize, u: i64, v: i64) -> (r: Vector3)
        requires
            self.wf(),
        ensures
            r@ == sample_s(*self, id as int, u as int, v as int),
            color_unit(r@),
    {
        if id >= self.textures.len() {
            return Vector3 { x: FX_ONE, y: FX_ONE, z: FX_ONE };
        }
        let t = &self.textures[id];
        let uw = fx_wrap(u);
        let vw = fx_wrap(v);
        proof {
            assert((uw as int) * (t.width as int) <= 0x1_0000_0000 && ((FX_ONE - vw) as int) * (
            t.height as int) <= 0x1_0000_0000) by (nonlinear_arith)
                requires
                    0 <= uw <= 0x10000,
                    0 <= FX_ONE - vw <= 0x10000,
                    0 < t.width <= 0x10000,
                    0 < t.height <= 0x10000,
            ;
        }
        let txf: u64 = ((uw as u64) * (t.width as u64)) / 65536;
        let tyf: u64 = (((FX_ONE - vw) as u64) * (t.height as u64)) / 65536;
        let tx = (txf % (t.width as u64)) as usize;
        let ty = (tyf % (t.height as u64)) as usize;
        proof {
            vstd::arithmetic::div_mod::lemma_mod_bound(txf as int, t.width as int);
            vstd::arithmetic::div_mod::lemma_mod_bound(tyf as int, t.height as int);
            assert((ty as int) * (t.width as int) + (tx as int) < (t.height as int) * (
            t.width as int)) by (nonlinear_arith)
                requires
                    0 <= tx < t.width,
                    0 <= ty < t.height,
            ;
            assert((t.height as int) * (t.width as int) == (t.width as int) * (
            t.height as int)) by (nonlinear_arith);
        }
        let n = t.pixels.len();
        let idx = ty * t.width + tx;
        t.pixels[idx]
    }
}

impl Default for TextureManager {
    fn default() -> (r: TextureManager)
        ensures
            r.textures@.len() == 0,
            r.wf(),
    {
        TextureManager { textures: Vec::new() }
    }
}

/// Tiling invariance: shifting either coordinate by one whole unit samples
/// the same texel.
pub proof fn lemma_sample_tiles(tm: TextureManager, id: int, u: int, v: int)
    ensures
        sample_s(tm, id, u + FX_ONE, v) == sample_s(tm, id, u, v),
        sample_s(tm, id, u, v + FX_ONE) == sample_s(tm, id, u, v),
{
    vstd::arithmetic::div_mod::lemma_mod_multiples_vanish(1, u, FX_ONE as int);
    vstd::arithmetic::div_mod::lemma_mod_multiples_vanish(1, v, FX_ONE as int);
    assert((FX_ONE as int) * 1 + u == u + FX_ONE);
    assert((FX_ONE as int) * 1 + v == v + FX_ONE);
}

/// Inside the unit square the sampler addresses the floored texel directly:
/// column `u * width / FX_ONE`, row `(FX_ONE - v) * height / FX_ONE` (the
/// flipped axis), wrapping to the top row only at `v == 0`.
pub proof fn lemma_sample_unit_square(tm: TextureManager, id: int, u: int, v: int)
    requires
        tm.wf(),
        0 <= id < tm.textures@.len(),
        0 <= u < FX_ONE,
        0 <= v < FX_ONE,
    ensures
        ({
            let t = tm.textures@[id];
            let col = (u * t.width) / (FX_ONE as int);
            let row = if v == 0 {
                0
            } else {
                ((FX_ONE - v) * t.height) / (FX_ONE as int)
            };
            sample_s(tm, id, u, v) == t.pixels@[row * t.width + col]@
        }),
{
    let t = tm.textures@[id];
    let w = t.width as int;
    let h = t.height as int;
    vstd::arithmetic::div_mod::lemma_small_mod(u as nat, FX_ONE as nat);
    vstd::arithmetic::div_mod::lemma_small_mod(v as nat, FX_ONE as nat);
    let col = (u * w) / (FX_ONE as int);
    assert(u * w < FX_ONE * w) by (nonlinear_arith)
        requires
            0 <= u < FX_ONE,
            0 < w,
    ;
    assert(0 <= u * w) by (nonlinear_arith)
        requires
            0 <= u,
            0 < w,
    ;
    vstd::arithmetic::div_mod::lemma_multiply_divide_lt(u * w, FX_ONE as int, w);
    vstd::arithmetic::div_mod::lemma_div_pos_is_pos(u * w, FX_ONE as int);
    vstd::arithmetic::div_mod::lemma_small_mod(col as nat, w as nat);
    let row0 = ((FX_ONE - v) * h) / (FX_ONE as int);
    if v == 0 {
        vstd::arithmetic::div_mod::lemma_div_multiples_vanish(h, FX_ONE as int);
        assert((FX_ONE - 0) * h == (FX_ONE as int) * h) by (nonlinear_arith);
        vstd::arithmetic::div_mod::lemma_mod_self_0(h);
    } else {
        assert((FX_ONE - v) * h < FX_ONE * h) by (nonlinear_arith)
            requires
                0 < v < FX_ONE,
                0 < h,
        ;
        assert(0 <= (FX_ONE - v) * h) by (nonlinear_arith)
            requires
                v < FX_ONE,
                0 < h,
        ;
        vstd::arithmetic::div_mod::lemma_multiply_divide_lt((FX_ONE - v) * h, FX_ONE as int, h);
        vstd::arithmetic::div_mod::lemma_div_pos_is_pos((FX_ONE - v) * h, FX_ONE as int);
        vstd::arithmetic::div_mod::lemma_small_mod(row0 as nat, h as nat);
    }
}

} // verus!
