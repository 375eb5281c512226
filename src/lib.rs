//! A path tracer over fixed-point reals: ray/sphere intersection, a closest-hit
//! scene query, diffuse, metal and glass scattering, a thin-lens camera and a
//! depth-limited radiance recursion, each with a contract proved by Verus.
pub mod fixed;
pub mod vec3;
pub mod ray;
pub mod material;
pub mod sphere;
pub mod hittablelist;
pub mod random;
pub mod camera;
pub mod render;
