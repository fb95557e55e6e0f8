//! The frame renderer: one camera ray per pixel, shaded by the ray caster and
//! tone-mapped into the framebuffer.

use vstd::prelude::*;
use crate::camera::{Camera, camera_wf, basis_change_s};
use crate::fx::{FX_ONE, fmul, fdiv, clamp_s, fx_mul, fx_div, fx_clamp, lemma_fmul_bound};
use crate::framebuffer::{Color, Framebuffer};
use crate::light::Light;
use crate::shader::{Primitive, scene_wf, lights_wf, cast_ray, cast_ray_s};
use crate::textures::TextureManager;
use crate::vector::{Vector3, V3, v3, normalize_s};

verus! {

/// The perspective scale: the tangent of half the fixed 60-degree field of
/// view, at the fixed-point scale.
pub const PERSPECTIVE_SCALE: i64 = 37837;

/// A nonnegative ratio against a positive denominator stays within `k` units
/// once the numerator is within `k` denominators.
proof fn lemma_ratio_bound(a: int, b: int, k: int)
    requires
        0 <= a,
        0 < b,
        0 <= k,
        a <= k * b,
    ensures
        0 <= fdiv(a, b) <= k * FX_ONE,
{
    vstd::arithmetic::div_mod::lemma_div_pos_is_pos(a * FX_ONE, b);
    assert(a * FX_ONE <= b * (k * FX_ONE)) by (nonlinear_arith)
        requires
            a <= k * b,
            0 < FX_ONE,
            0 <= k,
            0 < b,
    ;
    vstd::arithmetic::div_mod::lemma_div_is_ordered(a * FX_ONE, b * (k * FX_ONE), b);
    vstd::arithmetic::div_mod::lemma_div_multiples_vanish(k * FX_ONE, b);
}

/// The world-space direction of the camera ray through pixel `(x, y)` of a
/// `w * h` image: the pixel mapped onto the screen square `[-1, 1]`, scaled
/// by aspect ratio and perspective, sent through the camera basis, and
/// normalized.
pub open spec fn pixel_dir_s(cam: Camera, x: int, y: int, w: int, h: int) -> V3
    recommends
        0 < w,
        0 < h,
{
    let aspect = fdiv(w * FX_ONE, h * FX_ONE);
    let screen_x = fdiv(2 * x * FX_ONE, w * FX_ONE) - FX_ONE;
    let screen_y = FX_ONE - fdiv(2 * y * FX_ONE, h * FX_ONE);
    let sx = fmul(fmul(screen_x, aspect), PERSPECTIVE_SCALE as int);
    let sy = fmul(screen_y, PERSPECTIVE_SCALE as int);
    let d = normalize_s(v3(sx, sy, -(FX_ONE as int)));
    normalize_s(basis_change_s(cam, d))
}

/// One linear color channel clamped onto `[0, 1]` and raised to its 8-bit
/// display value.
pub open spec fn to_byte_s(c: int) -> int {
    clamp_s(c, 0, FX_ONE as int) * 255 / (FX_ONE as int)
}

/// A linear radiance tone-mapped to a display color.
pub open spec fn display_s(c: V3) -> Color {
    Color { r: to_byte_s(c.x) as u8, g: to_byte_s(c.y) as u8, b: to_byte_s(c.z) as u8, a: 255 }
}

fn to_byte(c: i64) -> (r: u8)
    ensures
        r as int == to_byte_s(c as int),
{
    let cl = fx_clamp(c, 0, FX_ONE);
    proof {
        vstd::arithmetic::div_mod::lemma_div_pos_is_pos((cl as int) * 255, FX_ONE as int);
        vstd::arithmetic::div_mod::lemma_div_is_ordered(
            (cl as int) * 255,
            65536int * 255,
            FX_ONE as int,
        );
        assert(65536int * 255 / 65536 == 255) by (nonlinear_arith);
    }
    (((cl as u64) * 255) / 65536) as u8
}

/// A linear radiance tone-mapped to a display color.
pub fn to_display(v: &Vector3) -> (r: Color)
    ensures
        r == display_s(v@),
{
    Color { r: to_byte(v.x), g: to_byte(v.y), b: to_byte(v.z), a: 255 }
}

/// The display color of pixel `(x, y)`: the camera ray through it, shaded
/// from depth zero and tone-mapped.
#[verifier::opaque]
pub open spec fn render_pixel_s(
    scene: Seq<Primitive>,
    lights: Seq<Light>,
    tm: TextureManager,
    cam: Camera,
    x: int,
    y: int,
    w: int,
    h: int,
) -> Color {
    display_s(cast_ray_s(scene, lights, tm, cam.eye@, pixel_dir_s(cam, x, y, w, h), 0))
}

/// Shades one pixel; safe to run for every pixel independently, since it only
/// reads the shared scene.
#[verifier::loop_isolation(false)]
pub fn render_pixel(
    objects: &Vec<Primitive>,
    lights: &Vec<Light>,
    texture_manager: &TextureManager,
    camera: &Camera,
    x: i32,
    y: i32,
    width: i32,
    height: i32,
) -> (r: Color)
    requires
        scene_wf(objects@),
        lights_wf(lights@),
        texture_manager.wf(),
        camera_wf(*camera),
        0 <= x < width <= 8192,
        0 <= y < height <= 8192,
    ensures
        r == render_pixel_s(
            objects@,
            lights@,
            *texture_manager,
            *camera,
            x as int,
            y as int,
            width as int,
            height as int,
        ),
{
    let wf: i64 = (width as i64) * FX_ONE;
    let hf: i64 = (height as i64) * FX_ONE;
    proof {
        reveal(render_pixel_s);
        lemma_ratio_bound(width as int * FX_ONE, height as int * FX_ONE, 8192);
        lemma_ratio_bound(2 * (x as int) * FX_ONE, width as int * FX_ONE, 2);
        lemma_ratio_bound(2 * (y as int) * FX_ONE, height as int * FX_ONE, 2);
        assert(2 * (x as int) * FX_ONE <= 2 * (width as int * FX_ONE)) by (nonlinear_arith)
            requires
                0 <= x < width,
                0 < FX_ONE,
        ;
        assert(2 * (y as int) * FX_ONE <= 2 * (height as int * FX_ONE)) by (nonlinear_arith)
            requires
                0 <= y < height,
                0 < FX_ONE,
        ;
        assert(width as int * FX_ONE <= 8192 * (height as int * FX_ONE)) by (nonlinear_arith)
            requires
                0 < width <= 8192,
                0 < height,
                0 < FX_ONE,
        ;
    }
    let aspect = fx_div(wf, hf);
    let screen_x = fx_div(2 * (x as i64) * FX_ONE, wf) - FX_ONE;
    let screen_y = FX_ONE - fx_div(2 * (y as i64) * FX_ONE, hf);
    proof {
        lemma_fmul_bound(screen_x as int, aspect as int, FX_ONE as int, 8192 * FX_ONE);
        lemma_fmul_bound(
            fmul(screen_x as int, aspect as int),
            PERSPECTIVE_SCALE as int,
            8192 * FX_ONE,
            PERSPECTIVE_SCALE as int,
        );
        lemma_fmul_bound(screen_y as int, PERSPECTIVE_SCALE as int, FX_ONE as int, PERSPECTIVE_SCALE as int);
    }
    let sx = fx_mul(fx_mul(screen_x, aspect), PERSPECTIVE_SCALE);
    let sy = fx_mul(screen_y, PERSPECTIVE_SCALE);
    let d = Vector3 { x: sx, y: sy, z: -FX_ONE }.normalized();
    let dir = camera.basis_change(&d).normalized();
    let c = cast_ray(&camera.eye, &dir, objects, lights, 0, texture_manager);
    to_display(&c)
}

/// Pixel indices of distinct pixels are distinct.
proof fn lemma_pixel_index_inj(w: int, x1: int, y1: int, x2: int, y2: int)
    by (nonlinear_arith)
    requires
        0 <= x1 < w,
        0 <= x2 < w,
        0 <= y1,
        0 <= y2,
        y1 * w + x1 == y2 * w + x2,
    ensures
        x1 == x2,
        y1 == y2,
{
}

/// One painted pixel advances the finished prefix of the frame.
proof fn lemma_frame_advance(
    p0: Seq<Color>,
    p1: Seq<Color>,
    scene: Seq<Primitive>,
    lights: Seq<Light>,
    tm: TextureManager,
    cam: Camera,
    w: int,
    h: int,
    x: int,
    y: int,
    c: Color,
)
    requires
        0 <= x < w,
        0 <= y < h,
        p0.len() == w * h,
        p1 == p0.update(y * w + x, c),
        c == render_pixel_s(scene, lights, tm, cam, x, y, w, h),
        forall|xi: int, yi: int|
            0 <= xi < w && 0 <= yi < y ==> p0[yi * w + xi] == render_pixel_s(
                scene,
                lights,
                tm,
                cam,
                xi,
                yi,
                w,
                h,
            ),
        forall|xi: int|
            0 <= xi < x ==> p0[y * w + xi] == render_pixel_s(scene, lights, tm, cam, xi, y, w, h),
    ensures
        forall|xi: int, yi: int|
            0 <= xi < w && 0 <= yi < y ==> p1[yi * w + xi] == render_pixel_s(
                scene,
                lights,
                tm,
                cam,
                xi,
                yi,
                w,
                h,
            ),
        forall|xi: int|
            0 <= xi < x + 1 ==> p1[y * w + xi] == render_pixel_s(scene, lights, tm, cam, xi, y, w, h),
{
    assert(0 <= y * w + x < p0.len()) by (nonlinear_arith)
        requires
            0 <= x < w,
            0 <= y < h,
            p0.len() == w * h,
    ;
    assert forall|xi: int, yi: int|
        0 <= xi < w && (0 <= yi < y || (yi == y && 0 <= xi < x + 1)) implies p1[yi * w + xi]
        == render_pixel_s(scene, lights, tm, cam, xi, yi, w, h) by {
        assert(0 <= yi * w + xi < p0.len()) by (nonlinear_arith)
            requires
                0 <= xi < w,
                0 <= yi < h,
                p0.len() == w * h,
        ;
        if yi * w + xi == y * w + x {
            lemma_pixel_index_inj(w, xi, yi, x, y);
        }
    }
}

/// Renders the whole frame into the framebuffer: each pixel receives the
/// shaded, tone-mapped color of its camera ray.
#[verifier::loop_isolation(false)]
#[verifier::rlimit(100)]
pub fn render(
    framebuffer: &mut Framebuffer,
    objects: &Vec<Primitive>,
    camera: &Camera,
    lights: &Vec<Light>,
    texture_manager: &TextureManager,
)
    requires
        old(framebuffer).wf(),
        0 < old(framebuffer).width <= 8192,
        0 < old(framebuffer).height <= 8192,
        scene_wf(objects@),
        lights_wf(lights@),
        texture_manager.wf(),
        camera_wf(*camera),
    ensures
        final(framebuffer).wf(),
        final(framebuffer).width == old(framebuffer).width,
        final(framebuffer).height == old(framebuffer).height,
        final(framebuffer).background_color == old(framebuffer).background_color,
        forall|xi: int, yi: int|
            0 <= xi < old(framebuffer).width && 0 <= yi < old(framebuffer).height ==> final(
                framebuffer
            ).pixel_at(xi, yi) == render_pixel_s(
                objects@,
                lights@,
                *texture_manager,
                *camera,
                xi,
                yi,
                old(framebuffer).width as int,
                old(framebuffer).height as int,
            ),
{
    let width = framebuffer.width;
    let height = framebuffer.height;
    let mut y: i32 = 0;
    while y < height
        invariant
            0 <= y <= height,
            framebuffer.wf(),
            framebuffer.width == width,
            framebuffer.height == height,
            framebuffer.background_color == old(framebuffer).background_color,
            forall|xi: int, yi: int|
                0 <= xi < width && 0 <= yi < y ==> framebuffer.pixel_data@[yi * width + xi]
                    == render_pixel_s(
                    objects@,
                    lights@,
                    *texture_manager,
                    *camera,
                    xi,
                    yi,
                    width as int,
                    height as int,
                ),
        decreases height - y,
    {
        let mut x: i32 = 0;
        while x < width
            invariant
                0 <= y < height,
                0 <= x <= width,
                framebuffer.wf(),
                framebuffer.width == width,
                framebuffer.height == height,
                framebuffer.background_color == old(framebuffer).background_color,
                forall|xi: int, yi: int|
                    0 <= xi < width && 0 <= yi < y ==> framebuffer.pixel_data@[yi * width + xi]
                        == render_pixel_s(
                        objects@,
                        lights@,
                        *texture_manager,
                        *camera,
                        xi,
                        yi,
                        width as int,
                        height as int,
                    ),
                forall|xi: int|
                    0 <= xi < x ==> framebuffer.pixel_data@[y * width + xi] == render_pixel_s(
                        objects@,
                        lights@,
                        *texture_manager,
                        *camera,
                        xi,
                        y as int,
                        width as int,
                        height as int,
                    ),
            decreases width - x,
        {
            let c = render_pixel(objects, lights, texture_manager, camera, x, y, width, height);
            framebuffer.set_current_color(c);
            let ghost before = framebuffer.pixel_data@;
            proof {
                assert(0 <= (y as int) * (width as int) + x < before.len()) by (nonlinear_arith)
                    requires
                        0 <= x < width,
                        0 <= y < height,
                        before.len() == width * height,
                ;
            }
            framebuffer.set_pixel(x, y);
            proof {
                lemma_frame_advance(
                    before,
                    framebuffer.pixel_data@,
                    objects@,
                    lights@,
                    *texture_manager,
                    *camera,
                    width as int,
                    height as int,
                    x as int,
                    y as int,
                    c,
                );
            }
            x = x + 1;
        }
        y = y + 1;
    }
    proof {
        assert forall|xi: int, yi: int|
            0 <= xi < width && 0 <= yi < height implies framebuffer.pixel_at(xi, yi)
            == render_pixel_s(
            objects@,
            lights@,
            *texture_manager,
            *camera,
            xi,
            yi,
            width as int,
            height as int,
        ) by {
            assert(framebuffer.pixel_data@[yi * (width as int) + xi] == render_pixel_s(
                objects@,
                lights@,
                *texture_manager,
                *camera,
                xi,
                yi,
                width as int,
                height as int,
            ));
        }
    }
}

} // verus!
