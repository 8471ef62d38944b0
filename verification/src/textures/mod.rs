pub mod checker;
pub mod image;
pub mod perlin;
pub mod solid_color;

pub use checker::Checker;
pub use image::Image;
pub use perlin::Perlin;
pub use solid_color::SolidColor;
