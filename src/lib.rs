//! A Monte-Carlo path tracer for scenes of spheres.
//!
//! Numbers are saturating fixed-point scalars (`fixed`); on them stand vectors and rays,
//! the closed-form ray-sphere intersection, the nearest-hit search over a scene, the
//! diffuse, metal and dielectric scattering models, a thin-lens camera, and the recursive
//! radiance estimate that ties them together. Randomness comes from a caller's generator.
pub mod fixed;
pub mod vec3;
pub mod ray;
pub mod helper;
pub mod hitable;
pub mod sphere;
pub mod material;
pub mod integrator;
pub mod camera;
