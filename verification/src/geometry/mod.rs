pub mod ray;
pub mod scalar;
pub mod vector;

pub use ray::Ray;
pub use scalar::Scalar;
pub use vector::{Color, Point, Vector};
