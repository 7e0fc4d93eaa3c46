//! The decision core of a Monte Carlo path tracer: ordering and bounding of
//! scalars, the bounding-volume hierarchy and its traversal, the choices made
//! at each intersection and bounce, sampling bookkeeping, and the assembly of
//! the frame.  Floating-point arithmetic is done by the embedding program.

pub mod aabb;
pub mod bvh;
pub mod camera;
pub mod color;
pub mod constant_medium;
pub mod edge_detect;
pub mod hittable;
pub mod hittable_list;
pub mod integrator;
pub mod interval;
pub mod material;
pub mod nearest;
pub mod normal_map;
pub mod onb;
pub mod pdf;
pub mod perlin;
pub mod permutation;
pub mod quad;
pub mod ray;
pub mod render;
pub mod rounding;
pub mod sampling;
pub mod scalar;
pub mod soundness;
pub mod sphere;
pub mod texture;
pub mod transforms;
pub mod tria;
pub mod utility;
pub mod vec3;
