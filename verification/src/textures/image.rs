use vstd::prelude::*;

verus! {

/// A picture held as bytes: three for each pixel (red, green, blue), the
/// pixels of a row from left to right, the rows from the top down.
pub struct Image {
    width: u32,
    height: u32,
    pixels: Vec<u8>,
}

impl Image {
    #[verifier::type_invariant]
    spec fn well_formed(self) -> bool {
        self.width > 0 && self.height > 0 && self.pixels@.len() == 3 * self.width * self.height
    }

    pub closed spec fn spec_width(self) -> nat {
        self.width as nat
    }

    pub closed spec fn spec_height(self) -> nat {
        self.height as nat
    }

    /// The bytes of the picture.
    pub closed spec fn bytes(self) -> Seq<u8> {
        self.pixels@
    }

    /// The three bytes of the pixel in column `i` of row `j`.
    pub open spec fn texel(self, i: int, j: int) -> (u8, u8, u8) {
        let at = 3 * (j * self.spec_width() + i);
        (self.bytes()[at], self.bytes()[at + 1], self.bytes()[at + 2])
    }

    /// The column or row that is looked up for `index`: the last one where
    /// `index` lies beyond it.
    pub open spec fn held(index: int, count: nat) -> int {
        if index >= count {
            count - 1
        } else {
            index
        }
    }

    /// The picture of the given size with the given bytes, if there is one:
    /// if it has a pixel at all and three bytes for each.
    pub fn new(width: u32, height: u32, pixels: Vec<u8>) -> (image: Option<Image>)
        ensures
            image is Some <==> width > 0 && height > 0 && pixels@.len() == 3 * width * height,
            image matches Some(img) ==> img.spec_width() == width && img.spec_height() == height
                && img.bytes() == pixels@,
    {
        if width == 0 || height == 0 {
            return None;
        }
        assert((width as int) * (height as int) <= 0xFFFF_FFFF * 0xFFFF_FFFF) by (nonlinear_arith)
            requires
                0 <= width <= 0xFFFF_FFFF,
                0 <= height <= 0xFFFF_FFFF,
        ;
        let area: u64 = (width as u64) * (height as u64);
        let wanted: u128 = 3 * (area as u128);
        assert(wanted == 3 * width * height) by (nonlinear_arith)
            requires
                wanted == 3 * area,
                area == width * height,
        ;
        if pixels.len() as u128 != wanted {
            return None;
        }
        Some(Image { width, height, pixels })
    }

    /// Width and height, in pixels.
    pub fn dimensions(&self) -> (d: (u32, u32))
        ensures
            d.0 == self.spec_width(),
            d.1 == self.spec_height(),
            d.0 > 0,
            d.1 > 0,
    {
        proof {
            use_type_invariant(self);
        }
        (self.width, self.height)
    }

    /// The pixel nearest to column `i` of row `j`: that pixel itself, or the
    /// one at the picture's edge where `i` or `j` lies beyond it.
    pub fn value(&self, i: u32, j: u32) -> (rgb: (u8, u8, u8))
        ensures
            rgb == self.texel(
                Image::held(i as int, self.spec_width()),
                Image::held(j as int, self.spec_height()),
            ),
    {
        proof {
            use_type_invariant(self);
        }
        let mut i = i;
        let mut j = j;
        if i >= self.width {
            i = self.width - 1;
        }
        if j >= self.height {
            j = self.height - 1;
        }
        let w = self.width as usize;
        let n = self.pixels.len();
        proof {
            let len = n as int;
            assert(len == 3 * ((self.width as int) * (self.height as int))) by (nonlinear_arith)
                requires
                    len == 3 * self.width * self.height,
            ;
            assert(0 <= (j as int) * (w as int) && (j as int) * (w as int) + (i as int) + 1 <= (
            self.width as int) * (self.height as int)) by (nonlinear_arith)
                requires
                    0 <= i < self.width,
                    0 <= j < self.height,
                    w == self.width,
            ;
        }
        assert(3 * ((j as int) * (w as int) + (i as int)) + 2 < n);
        let row: usize = (j as usize) * w;
        let at: usize = 3 * (row + i as usize);
        (self.pixels[at], self.pixels[at + 1], self.pixels[at + 2])
    }
}

} // verus!
