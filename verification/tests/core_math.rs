use raytracer::fx::{fx_clamp, fx_div, fx_mul, fx_pow, fx_sqrt, fx_wrap, FX_ONE};
use raytracer::textures::{CpuTexture, TextureManager};
use raytracer::vector::Vector3;

#[test]
fn multiplication_descales_once() {
    assert_eq!(fx_mul(FX_ONE, FX_ONE), FX_ONE);
    assert_eq!(fx_mul(3 * FX_ONE, 2 * FX_ONE), 6 * FX_ONE);
    assert_eq!(fx_mul(FX_ONE / 2, FX_ONE / 2), FX_ONE / 4);
}

#[test]
fn multiplication_rounds_toward_zero() {
    // 1.5 * -1 at the fixed-point scale: -1.5 truncates to -1 quantum short.
    assert_eq!(fx_mul(3, FX_ONE / 2), 1);
    assert_eq!(fx_mul(-3, FX_ONE / 2), -1);
    // A tiny term times the shadow residual truncates to zero.
    assert_eq!(fx_mul(1, 9830), 0);
}

#[test]
fn division_rescales_once() {
    assert_eq!(fx_div(FX_ONE, 2 * FX_ONE), FX_ONE / 2);
    assert_eq!(fx_div(6 * FX_ONE, 3 * FX_ONE), 2 * FX_ONE);
    assert_eq!(fx_div(-FX_ONE, 2 * FX_ONE), -(FX_ONE / 2));
    assert_eq!(fx_div(1, FX_ONE), 1);
}

#[test]
fn square_roots_stay_in_scale() {
    assert_eq!(fx_sqrt(4 * FX_ONE), 2 * FX_ONE);
    assert_eq!(fx_sqrt(FX_ONE), FX_ONE);
    assert_eq!(fx_sqrt(0), 0);
    // sqrt(2) = 1.41421356..., floored at the fixed-point scale.
    assert_eq!(fx_sqrt(2 * FX_ONE), 92681);
}

#[test]
fn wrap_is_the_nonnegative_fraction() {
    assert_eq!(fx_wrap(0), 0);
    assert_eq!(fx_wrap(FX_ONE), 0);
    assert_eq!(fx_wrap(FX_ONE + 5), 5);
    assert_eq!(fx_wrap(-1), FX_ONE - 1);
    assert_eq!(fx_wrap(-FX_ONE), 0);
    assert_eq!(fx_wrap(-3 * FX_ONE - 7), FX_ONE - 7);
}

#[test]
fn clamp_and_pow() {
    assert_eq!(fx_clamp(-5, 0, FX_ONE), 0);
    assert_eq!(fx_clamp(FX_ONE + 5, 0, FX_ONE), FX_ONE);
    assert_eq!(fx_clamp(17, 0, FX_ONE), 17);
    assert_eq!(fx_pow(FX_ONE / 2, 0), FX_ONE);
    assert_eq!(fx_pow(FX_ONE / 2, 1), FX_ONE / 2);
    assert_eq!(fx_pow(FX_ONE / 2, 2), FX_ONE / 4);
    assert_eq!(fx_pow(FX_ONE, 90), FX_ONE);
    assert_eq!(fx_pow(0, 3), 0);
}

#[test]
fn vector_dot_and_length() {
    let a = Vector3::new(FX_ONE, 2 * FX_ONE, 3 * FX_ONE);
    let b = Vector3::new(4 * FX_ONE, 5 * FX_ONE, 6 * FX_ONE);
    assert_eq!(a.dot(&b), 32 * FX_ONE);
    let v = Vector3::new(3 * FX_ONE, 4 * FX_ONE, 0);
    assert_eq!(v.length(), 5 * FX_ONE);
}

#[test]
fn vector_normalization() {
    let v = Vector3::new(3 * FX_ONE, 4 * FX_ONE, 0);
    let n = v.normalized();
    assert_eq!(n.x, 3 * FX_ONE / 5);
    assert_eq!(n.y, 4 * FX_ONE / 5);
    assert_eq!(n.z, 0);
    let z = Vector3::zero().normalized();
    assert_eq!((z.x, z.y, z.z), (0, 0, 0));
}

fn two_by_two() -> CpuTexture {
    // Top row: red, green. Bottom row: blue, white.
    let data = vec![
        (255u8, 0u8, 0u8),
        (0u8, 255u8, 0u8),
        (0u8, 0u8, 255u8),
        (255u8, 255u8, 255u8),
    ];
    CpuTexture::from_image(2, 2, &data).unwrap()
}

#[test]
fn texture_decoding_normalizes_channels() {
    let t = two_by_two();
    assert_eq!(t.width, 2);
    assert_eq!(t.height, 2);
    assert_eq!(t.pixels.len(), 4);
    assert_eq!((t.pixels[0].x, t.pixels[0].y, t.pixels[0].z), (FX_ONE, 0, 0));
    assert_eq!((t.pixels[3].x, t.pixels[3].y, t.pixels[3].z), (FX_ONE, FX_ONE, FX_ONE));
}

#[test]
fn texture_rejects_mismatched_data() {
    let data = vec![(0u8, 0u8, 0u8); 3];
    assert!(CpuTexture::from_image(2, 2, &data).is_none());
    assert!(CpuTexture::from_image(0, 2, &data).is_none());
}

#[test]
fn sampling_matches_floored_texel_in_unit_square() {
    let mut tm = TextureManager::new();
    let id = tm.load_texture(two_by_two());
    // v just below 1 addresses the top row, v just above 0 the bottom row.
    let high_v = FX_ONE - 1000;
    let low_v = 1000;
    let left_u = 1000;
    let right_u = FX_ONE / 2 + 1000;
    let p = tm.sample_uv(id, left_u, high_v);
    assert_eq!((p.x, p.y, p.z), (FX_ONE, 0, 0));
    let p = tm.sample_uv(id, right_u, high_v);
    assert_eq!((p.x, p.y, p.z), (0, FX_ONE, 0));
    let p = tm.sample_uv(id, left_u, low_v);
    assert_eq!((p.x, p.y, p.z), (0, 0, FX_ONE));
    let p = tm.sample_uv(id, right_u, low_v);
    assert_eq!((p.x, p.y, p.z), (FX_ONE, FX_ONE, FX_ONE));
}

#[test]
fn sampling_tiles_with_period_one() {
    let mut tm = TextureManager::new();
    let id = tm.load_texture(two_by_two());
    let cases: [(i64, i64); 5] = [
        (1000, 2000),
        (0, 0),
        (-70000, 30000),
        (FX_ONE / 2, FX_ONE / 3),
        (123456, -654321),
    ];
    let mut i: usize = 0;
    while i < cases.len() {
        let (u, v) = cases[i];
        let a = tm.sample_uv(id, u, v);
        let b = tm.sample_uv(id, u + FX_ONE, v);
        let c = tm.sample_uv(id, u, v + FX_ONE);
        assert_eq!((a.x, a.y, a.z), (b.x, b.y, b.z));
        assert_eq!((a.x, a.y, a.z), (c.x, c.y, c.z));
        i += 1;
    }
}

#[test]
fn unknown_texture_samples_white() {
    let tm = TextureManager::new();
    let p = tm.sample_uv(7, 100, 100);
    assert_eq!((p.x, p.y, p.z), (FX_ONE, FX_ONE, FX_ONE));
}

#[test]
fn get_texture_finds_loaded_entries() {
    let mut tm = TextureManager::new();
    let id = tm.load_texture(two_by_two());
    assert!(tm.get_texture(id).is_some());
    assert!(tm.get_texture(id + 1).is_none());
}
