use vstd::prelude::*;
use crate::geometry::scalar::Scalar;
use crate::geometry::vector::Color;

verus! {

/// A texture of one colour.
#[derive(Clone, Copy, Debug, PartialEq, Eq, Structural)]
pub struct SolidColor {
    pub color: Color,
}

impl SolidColor {
    pub fn new(red: Scalar, green: Scalar, blue: Scalar) -> (t: SolidColor)
        ensures
            t.color == (Color { x: red, y: green, z: blue }),
    {
        SolidColor { color: Color::new(red, green, blue) }
    }

    /// The grey whose three parts are all `a`.
    pub fn from(a: Scalar) -> (t: SolidColor)
        ensures
            t.color == (Color { x: a, y: a, z: a }),
    {
        SolidColor::new(a, a, a)
    }

    pub fn from_color(color: Color) -> (t: SolidColor)
        ensures
            t.color == color,
    {
        SolidColor { color }
    }

    /// The colour, which is the same everywhere.
    pub fn value(&self) -> (c: Color)
        ensures
            c == self.color,
    {
        self.color
    }
}

} // verus!
