use raytracer::camera::Camera;
use raytracer::cube::{Cube, Mat3};
use raytracer::framebuffer::{Color, Framebuffer};
use raytracer::fx::FX_ONE;
use raytracer::light::Light;
use raytracer::material::Material;
use raytracer::ray_intersect::RayIntersect;
use raytracer::render::{render, render_pixel};
use raytracer::shader::{cast_ray, intersects_any, nearest_hit, procedural_sky, reflect, refract, Primitive};
use raytracer::sphere::Sphere;
use raytracer::textures::TextureManager;
use raytracer::vector::Vector3;

fn plain_material(diffuse: Vector3) -> Material {
    Material {
        diffuse,
        specular: 8,
        reflectivity: 0,
        transparency: 0,
        refractive_index: FX_ONE,
        albedo_diffuse: FX_ONE,
        albedo_specular: 0,
        texture: None,
        emissive: Vector3::zero(),
        emission: 0,
    }
}

fn white() -> Vector3 {
    Vector3::new(FX_ONE, FX_ONE, FX_ONE)
}

fn unit_sphere() -> Primitive {
    Primitive::Sphere(Sphere { center: Vector3::zero(), radius: FX_ONE, material: plain_material(white()) })
}

fn mirror_material() -> Material {
    Material {
        diffuse: white(),
        specular: 90,
        reflectivity: FX_ONE,
        transparency: 0,
        refractive_index: FX_ONE,
        albedo_diffuse: 0,
        albedo_specular: FX_ONE,
        texture: None,
        emissive: Vector3::zero(),
        emission: 0,
    }
}

fn axis_cube(center: Vector3, half: Vector3, material: Material) -> Primitive {
    Primitive::Cube(Cube::new(center, half, Mat3::identity(), material, (FX_ONE, FX_ONE)))
}

#[test]
fn sphere_head_on_hit_is_exact() {
    let s = Sphere { center: Vector3::zero(), radius: FX_ONE, material: plain_material(white()) };
    let ro = Vector3::new(0, 0, -10 * FX_ONE);
    let rd = Vector3::new(0, 0, FX_ONE);
    let hit = s.ray_intersect(&ro, &rd).unwrap();
    assert_eq!(hit.distance, 9 * FX_ONE);
    assert_eq!((hit.point.x, hit.point.y, hit.point.z), (0, 0, -FX_ONE));
    assert_eq!((hit.normal.x, hit.normal.y, hit.normal.z), (0, 0, -FX_ONE));
}

#[test]
fn sphere_behind_ray_misses() {
    let s = Sphere { center: Vector3::zero(), radius: FX_ONE, material: plain_material(white()) };
    let ro = Vector3::new(0, 0, -10 * FX_ONE);
    let rd = Vector3::new(0, 0, -FX_ONE);
    assert!(s.ray_intersect(&ro, &rd).is_none());
}

#[test]
fn cube_slab_hit_is_exact() {
    let c = axis_cube(Vector3::zero(), white(), plain_material(white()));
    let ro = Vector3::new(0, 0, -10 * FX_ONE);
    let rd = Vector3::new(0, 0, FX_ONE);
    let hit = match &c {
        Primitive::Cube(cube) => cube.ray_intersect(&ro, &rd).unwrap(),
        Primitive::Sphere(_) => unreachable!(),
    };
    assert_eq!(hit.distance, 9 * FX_ONE);
    assert_eq!((hit.point.x, hit.point.y, hit.point.z), (0, 0, -FX_ONE));
    assert_eq!((hit.local_normal.x, hit.local_normal.y, hit.local_normal.z), (0, 0, -FX_ONE));
    assert_eq!((hit.normal.x, hit.normal.y, hit.normal.z), (0, 0, -FX_ONE));
}

#[test]
fn nearest_hit_picks_the_closer_primitive() {
    let near = Primitive::Sphere(Sphere {
        center: Vector3::new(0, 0, 3 * FX_ONE),
        radius: FX_ONE,
        material: plain_material(white()),
    });
    let far = Primitive::Sphere(Sphere {
        center: Vector3::new(0, 0, 8 * FX_ONE),
        radius: FX_ONE,
        material: plain_material(white()),
    });
    let objects = vec![far, near];
    let ro = Vector3::zero();
    let rd = Vector3::new(0, 0, FX_ONE);
    let hit = nearest_hit(&objects, &ro, &rd).unwrap();
    assert_eq!(hit.distance, 2 * FX_ONE);
    assert!(intersects_any(&ro, &rd, &objects, 3 * FX_ONE));
    assert!(!intersects_any(&ro, &rd, &objects, 2 * FX_ONE));
}

#[test]
fn reflection_mirrors_about_the_normal() {
    let i = Vector3::new(0, 0, FX_ONE);
    let n = Vector3::new(0, 0, -FX_ONE);
    let r = reflect(&i, &n);
    assert_eq!((r.x, r.y, r.z), (0, 0, -FX_ONE));
}

#[test]
fn refraction_at_normal_incidence_does_not_bend() {
    let d = Vector3::new(0, 0, -FX_ONE);
    let glass = 3 * FX_ONE / 2;
    // Entering: the face normal points against the ray.
    let entering = refract(&d, &Vector3::new(0, 0, FX_ONE), glass);
    assert_eq!((entering.x, entering.y, entering.z), (0, 0, -FX_ONE));
    // Leaving: the face normal points along the ray.
    let leaving = refract(&entering, &Vector3::new(0, 0, -FX_ONE), glass);
    assert_eq!((leaving.x, leaving.y, leaving.z), (0, 0, -FX_ONE));
}

#[test]
fn total_internal_reflection_contributes_nothing() {
    // Inside glass, leaving at a grazing angle: the refracted ray vanishes.
    let incident = Vector3::new(FX_ONE, 0, 1000).normalized();
    let n = Vector3::new(0, 0, FX_ONE);
    let r = refract(&incident, &n, 3 * FX_ONE / 2);
    assert_eq!((r.x, r.y, r.z), (0, 0, 0));
}

#[test]
fn sky_bands_are_exact_at_the_poles() {
    let up = procedural_sky(&Vector3::new(0, FX_ONE, 0));
    assert_eq!((up.x, up.y, up.z), (19661, 32768, FX_ONE));
    let down = procedural_sky(&Vector3::new(0, -FX_ONE, 0));
    assert_eq!((down.x, down.y, down.z), (6554, 39322, 13107));
}

#[test]
fn missed_rays_shade_as_sky_of_direction_alone() {
    let objects: Vec<Primitive> = vec![unit_sphere()];
    let lights = vec![Light {
        position: Vector3::new(0, 5 * FX_ONE, 0),
        color: white(),
        intensity: FX_ONE,
    }];
    let tm = TextureManager::new();
    let rd = Vector3::new(0, 0, FX_ONE);
    let o1 = Vector3::new(0, 3 * FX_ONE, 0);
    let o2 = Vector3::new(5 * FX_ONE, -2 * FX_ONE, -7 * FX_ONE);
    let c1 = cast_ray(&o1, &rd, &objects, &lights, 0, &tm);
    let c2 = cast_ray(&o2, &rd, &objects, &lights, 0, &tm);
    let sky = procedural_sky(&rd);
    assert_eq!((c1.x, c1.y, c1.z), (sky.x, sky.y, sky.z));
    assert_eq!((c2.x, c2.y, c2.z), (sky.x, sky.y, sky.z));
}

#[test]
fn past_the_depth_bound_the_fallback_comes_back() {
    let objects: Vec<Primitive> = vec![unit_sphere()];
    let lights: Vec<Light> = Vec::new();
    let tm = TextureManager::new();
    let ro = Vector3::new(0, 0, -10 * FX_ONE);
    let rd = Vector3::new(0, 0, FX_ONE);
    let c = cast_ray(&ro, &rd, &objects, &lights, 4, &tm);
    assert_eq!((c.x, c.y, c.z), (6554, 6554, 13107));
}

#[test]
fn facing_mirrors_terminate_within_the_depth_bound() {
    let objects = vec![
        axis_cube(
            Vector3::new(0, 0, -4 * FX_ONE),
            Vector3::new(4 * FX_ONE, 4 * FX_ONE, FX_ONE / 2),
            mirror_material(),
        ),
        axis_cube(
            Vector3::new(0, 0, 4 * FX_ONE),
            Vector3::new(4 * FX_ONE, 4 * FX_ONE, FX_ONE / 2),
            mirror_material(),
        ),
    ];
    let lights = vec![Light {
        position: Vector3::new(0, 2 * FX_ONE, 0),
        color: white(),
        intensity: FX_ONE,
    }];
    let tm = TextureManager::new();
    let ro = Vector3::zero();
    let rd = Vector3::new(0, 0, FX_ONE);
    let c = cast_ray(&ro, &rd, &objects, &lights, 0, &tm);
    assert!(c.x >= 0 && c.y >= 0 && c.z >= 0);
    assert!(c.x < 0x1e00_0000_0020_0000 && c.y < 0x1e00_0000_0020_0000 && c.z < 0x1e00_0000_0020_0000);
}

fn apex_scene(light_height: i64) -> (Vec<Primitive>, Vec<Light>, Vector3, Vector3) {
    let objects = vec![unit_sphere()];
    let lights = vec![Light {
        position: Vector3::new(0, light_height, 0),
        color: white(),
        intensity: FX_ONE,
    }];
    // A tangent ray along -z strikes the apex of the unit sphere.
    let ro = Vector3::new(0, FX_ONE, 10 * FX_ONE);
    let rd = Vector3::new(0, 0, -FX_ONE);
    (objects, lights, ro, rd)
}

#[test]
fn closer_lights_shade_brighter() {
    let tm = TextureManager::new();
    let (objects, near_lights, ro, rd) = apex_scene(6 * FX_ONE);
    let near = cast_ray(&ro, &rd, &objects, &near_lights, 0, &tm);
    let (_, far_lights, _, _) = apex_scene(9 * FX_ONE);
    let far = cast_ray(&ro, &rd, &objects, &far_lights, 0, &tm);
    assert!(near.x > far.x && near.y > far.y && near.z > far.z);
}

#[test]
fn an_occluder_dims_but_never_blackens() {
    let tm = TextureManager::new();
    let (mut objects, lights, ro, rd) = apex_scene(6 * FX_ONE);
    let open = cast_ray(&ro, &rd, &objects, &lights, 0, &tm);
    objects.push(axis_cube(
        Vector3::new(0, 3 * FX_ONE, 0),
        Vector3::new(FX_ONE / 2, FX_ONE / 2, FX_ONE / 2),
        plain_material(white()),
    ));
    let blocked = cast_ray(&ro, &rd, &objects, &lights, 0, &tm);
    assert!(blocked.x < open.x && blocked.y < open.y && blocked.z < open.z);
    // The ambient floor plus the shadow residual keep the point lit.
    assert!(blocked.x > 3932 && blocked.y > 3932 && blocked.z > 3932);
}

#[test]
fn apex_of_a_white_sphere_under_one_light() {
    let tm = TextureManager::new();
    let (objects, lights, ro, rd) = apex_scene(6 * FX_ONE);
    let c = cast_ray(&ro, &rd, &objects, &lights, 0, &tm);
    // Near-full Lambertian: ambient 0.06 plus an attenuated unit term
    // 1 / (1 + 0.02 * 25) = 2/3, about 0.727 of full white.
    assert_eq!(c.x, c.y);
    assert_eq!(c.y, c.z);
    assert!(c.x > 45000 && c.x < 50000);
}

#[test]
fn framebuffer_paints_and_reads_back() {
    let black = Color { r: 0, g: 0, b: 0, a: 255 };
    let red = Color { r: 255, g: 0, b: 0, a: 255 };
    let mut fb = Framebuffer::new(4, 3, black);
    assert_eq!(fb.get_pixel_color(1, 2).unwrap().r, 0);
    fb.set_current_color(red);
    fb.set_pixel(1, 2);
    assert_eq!(fb.get_pixel_color(1, 2).unwrap().r, 255);
    assert_eq!(fb.get_pixel_color(2, 1).unwrap().r, 0);
    assert!(fb.get_pixel_color(4, 0).is_none());
    assert!(fb.get_pixel_color(-1, 0).is_none());
    fb.clear();
    assert_eq!(fb.get_pixel_color(1, 2).unwrap().r, 0);
}

#[test]
fn rendering_fills_every_pixel_with_its_ray() {
    let objects = vec![unit_sphere()];
    let lights = vec![Light {
        position: Vector3::new(2 * FX_ONE, 5 * FX_ONE, -7 * FX_ONE),
        color: white(),
        intensity: FX_ONE,
    }];
    let tm = TextureManager::new();
    let camera = Camera::new(
        Vector3::new(0, 0, -10 * FX_ONE),
        Vector3::zero(),
        Vector3::new(0, FX_ONE, 0),
    );
    let black = Color { r: 0, g: 0, b: 0, a: 255 };
    let mut fb = Framebuffer::new(3, 2, black);
    render(&mut fb, &objects, &camera, &lights, &tm);
    let mut y: i32 = 0;
    while y < 2 {
        let mut x: i32 = 0;
        while x < 3 {
            let got = fb.get_pixel_color(x, y).unwrap();
            let want = render_pixel(&objects, &lights, &tm, &camera, x, y, 3, 2);
            assert_eq!((got.r, got.g, got.b, got.a), (want.r, want.g, want.b, want.a));
            x += 1;
        }
        y += 1;
    }
}

#[test]
fn textured_cube_face_samples_the_texture() {
    let mut tm = TextureManager::new();
    let data = vec![(0u8, 255u8, 0u8); 4];
    let id = tm.load_texture(raytracer::textures::CpuTexture::from_image(2, 2, &data).unwrap());
    let mut m = plain_material(white());
    m.texture = Some(id);
    let objects = vec![axis_cube(Vector3::zero(), white(), m)];
    let lights: Vec<Light> = Vec::new();
    let ro = Vector3::new(0, 0, -10 * FX_ONE);
    let rd = Vector3::new(0, 0, FX_ONE);
    let c = cast_ray(&ro, &rd, &objects, &lights, 0, &tm);
    // Ambient times the sampled green: red and blue stay dark.
    assert_eq!(c.x, 0);
    assert!(c.y > 0);
    assert_eq!(c.z, 0);
}

#[test]
fn face_uv_maps_local_coordinates_onto_the_unit_square() {
    // A point on the +z face of a box with half-extents (1, 2, 1).
    let p = Vector3::new(FX_ONE / 2, -FX_ONE, FX_ONE);
    let n = Vector3::new(0, 0, FX_ONE);
    let h = Vector3::new(FX_ONE, 2 * FX_ONE, FX_ONE);
    let (u, v) = raytracer::shader::map_uv_for_cube(&p, &n, &h).unwrap();
    assert_eq!(u, 3 * FX_ONE / 4);
    assert_eq!(v, FX_ONE / 4);
    // A degenerate half-extent yields no coordinates.
    let flat = Vector3::new(FX_ONE, 0, FX_ONE);
    assert!(raytracer::shader::map_uv_for_cube(&p, &n, &flat).is_none());
}

#[test]
fn whole_cube_uv_shifts_and_clamps() {
    let p = Vector3::new(FX_ONE / 4, -FX_ONE, FX_ONE / 2);
    let n = Vector3::new(0, 0, FX_ONE);
    let (u, v) = raytracer::shader::get_cube_uv(&p, &n);
    assert_eq!(u, 3 * FX_ONE / 4);
    assert_eq!(v, 0);
}

#[test]
fn camera_basis_carries_screen_directions() {
    let camera = Camera::new(
        Vector3::new(0, 0, -10 * FX_ONE),
        Vector3::zero(),
        Vector3::new(0, FX_ONE, 0),
    );
    // Looking from -z toward the origin: forward points back at the eye.
    assert_eq!((camera.forward.x, camera.forward.y, camera.forward.z), (0, 0, -FX_ONE));
    let d = camera.basis_change(&Vector3::new(0, 0, -FX_ONE));
    assert_eq!((d.x, d.y, d.z), (0, 0, FX_ONE));
}
