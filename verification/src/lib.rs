//! A ray-casting renderer over fixed-point arithmetic.
//!
//! A scene of spheres and boxes under point lights is rendered by casting one
//! camera ray per pixel and shading it recursively: nearest-hit scene
//! queries, shadow tests, multi-light Lambertian and Blinn-Phong
//! accumulation, recursive reflection and refraction bounded in depth, a
//! procedural sky for missed rays, and UV-mapped texture sampling. All
//! scalars are `i64` multiples of `1 / fx::FX_ONE`, and every function
//! carries a proved contract against spec-level mirrors of the algorithms.

pub mod fx;
pub mod vector;
pub mod material;
pub mod light;
pub mod ray_intersect;
pub mod sphere;
pub mod cube;
pub mod textures;
pub mod shader;
pub mod camera;
pub mod framebuffer;
pub mod render;
