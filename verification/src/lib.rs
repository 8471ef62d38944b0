//! The deciding half of a path tracer.
//!
//! Every number this crate meets is a [`geometry::Scalar`]: a double held by its
//! sixty-four bits and known by its place on the number line. The crate
//! orders, selects, negates and stores such numbers; it never adds or
//! multiplies them. Whoever drives it does the arithmetic and brings the
//! results here, as plain values or through closures that the crate calls,
//! and the rules of the tracer (which box encloses which, which hit is
//! nearest, which ray is absorbed, when a path ends) are settled here.
//!
//! * [`geometry`]: scalars, vectors, rays, and the path of a ray through a
//!   scene ([`geometry::Ray::color`]).
//! * [`objects`]: boxes and the slab test, the bounding volume hierarchy and
//!   the plain list, the shapes and the wrappers that move, turn and flip them.
//! * [`materials`]: what the five materials make of a ray.
//! * [`textures`]: the textures that hold tables: a picture, a chequerboard,
//!   the lattice of Perlin noise.
//! * [`utils`]: clamping and random indices.

pub mod geometry;
pub mod materials;
pub mod objects;
pub mod textures;
pub mod utils;
