//! A whitted-style recursive ray tracer over fixed-point arithmetic.
//!
//! Scalars are signed 64-bit fixed-point numbers with 16 fractional
//! bits (`fx::FX_ONE` is one); every arithmetic step saturates
//! instead of overflowing, so the whole pipeline is total.  On top of
//! the scalars stand points, vectors and affine transforms (each
//! transform carrying the matrix of its inverse), the shape
//! primitives with their object-space intersection tests, procedural
//! patterns, the Phong and Schlick shading kernels, a bounding volume
//! hierarchy with stackless traversal, the scene arena with parent
//! back-references, and the camera with its render loop.  Every
//! executable function carries a contract; the laws module states the
//! round-trip and range properties once and for all inputs.

pub mod bounds;
pub mod bvh;
pub mod camera;
pub mod canvas;
pub mod color;
pub mod cube;
pub mod cylinder;
pub mod fx;
pub mod intersection;
pub mod laws;
pub mod light;
pub mod mapping;
pub mod material;
pub mod matrix;
pub mod plane;
pub mod ray;
pub mod shape;
pub mod sphere;
pub mod transform;
pub mod triangle;
pub mod tuple;
pub mod world;
