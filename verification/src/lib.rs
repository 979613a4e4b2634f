//! A small geometric kernel for ray-based rendering: homogeneous tuple
//! algebra, square-matrix transforms with cofactor inversion, ray/sphere
//! intersection with nearest-hit selection, Phong lighting, and a raster
//! buffer serialized to the plain-text pixel format.
//!
//! All arithmetic is fixed-point: a quantity is stored as a signed count of
//! billionths, so every operation has an exact, machine-checked meaning.

pub mod scalar;
pub mod tuple;
pub mod matrix;
pub mod ray;
pub mod color;
pub mod light;
pub mod material;
pub mod objects;
pub mod canvas;
pub mod world;

pub use scalar::Scalar;
