//! An offline path-tracing renderer over exact fixed-point arithmetic.
//!
//! The library covers the renderer's core: the interval and bounding-box
//! algebra, the ray/primitive intersection layer and the bounding-volume
//! hierarchy that accelerates it, the material and texture model, the
//! recursive radiance integrator, and the camera's pixel pipeline.  Scene
//! decoding, image-file loading and the pixel-buffer output live outside the
//! library and exchange plain values with it.

pub mod aabb;
pub mod bvh;
pub mod camera;
pub mod color;
pub mod fixed;
pub mod progress;
pub mod hittables;
pub mod image;
pub mod material;
pub mod shapes;
pub mod ray;
pub mod scenes;
pub mod textures;
pub mod trig;
pub mod utils;
pub mod vec3;
