//! Textures: what colours a surface, point by point.

use vstd::prelude::*;
use crate::scalar::Scalar;
use crate::color::Color;

verus! {

/// One colour everywhere.
#[derive(Clone, Copy, Debug)]
pub struct SolidColor {
    pub color_value: Color,
}

impl SolidColor {
    pub fn new(color: Color) -> (t: SolidColor)
        ensures
            t.color_value == color,
    {
        SolidColor { color_value: color }
    }

    pub fn color(&self) -> (c: Color)
        ensures
            c == self.color_value,
    {
        self.color_value
    }
}

/// Two textures that take turns in a three-dimensional checker pattern.
#[derive(Debug)]
pub struct CheckerTexture<T> {
    pub odd: T,
    pub even: T,
}

impl<T> CheckerTexture<T> {
    pub fn new(odd: T, even: T) -> (t: CheckerTexture<T>)
        ensures
            t.odd == odd,
            t.even == even,
    {
        CheckerTexture { odd, even }
    }

    /// The texture that colours a point. `sines` is the product of the sines
    /// of ten times each coordinate of the point: `odd` where it is below
    /// zero, `even` elsewhere.
    pub fn pick(&self, sines: Scalar) -> (t: &T)
        ensures
            *t == if sines.lt(Scalar::zero()) {
                self.odd
            } else {
                self.even
            },
    {
        if sines.lt(Scalar::zero()) {
            &self.odd
        } else {
            &self.even
        }
    }
}

/// A picture laid over a surface: rows of pixels from top to bottom, each
/// pixel three bytes, red, green and blue.
#[derive(Debug)]
pub struct ImageTexture {
    data: Vec<u8>,
    width: usize,
    height: usize,
}

/// `i`, or the last index below `len` where `i` is beyond it.
pub open spec fn held_index(i: int, len: int) -> int {
    if i >= len {
        len - 1
    } else {
        i
    }
}

impl ImageTexture {
    #[verifier::type_invariant]
    spec fn wf(self) -> bool {
        &&& self.width > 0
        &&& self.height > 0
        &&& self.data@.len() == 3 * self.width * self.height
    }

    /// The bytes of the picture.
    pub closed spec fn bytes(&self) -> Seq<u8> {
        self.data@
    }

    /// How many pixels a row has.
    pub closed spec fn spec_width(&self) -> int {
        self.width as int
    }

    /// How many rows the picture has.
    pub closed spec fn spec_height(&self) -> int {
        self.height as int
    }

    /// The picture with the given bytes; `None` unless it has at least one
    /// pixel and `data` holds three bytes for each.
    pub fn new(data: Vec<u8>, width: usize, height: usize) -> (t: Option<ImageTexture>)
        ensures
            t is Some <==> width > 0 && height > 0 && data@.len() == 3 * width * height,
            t matches Some(image) ==> image.bytes() == data@ && image.spec_width() == width
                && image.spec_height() == height,
    {
        if width == 0 || height == 0 {
            return None;
        }
        let n: usize = data.len();
        let fits: bool = n % 3 == 0 && (n / 3) % width == 0 && (n / 3) / width == height;
        proof {
            let m = (n / 3) as int;
            let w = width as int;
            let h = height as int;
            if fits {
                assert(n == 3 * w * h) by (nonlinear_arith)
                    requires
                        n == 3 * m,
                        w > 0,
                        m % w == 0,
                        m / w == h,
                ;
            }
            if n == 3 * w * h {
                assert(n == 3 * (w * h)) by (nonlinear_arith)
                    requires
                        n == 3 * w * h,
                ;
                assert(m == w * h);
                assert(m % w == 0 && m / w == h) by (nonlinear_arith)
                    requires
                        m == w * h,
                        w > 0,
                ;
            }
        }
        if fits {
            Some(ImageTexture { data, width, height })
        } else {
            None
        }
    }

    pub fn width(&self) -> (w: usize)
        ensures
            w == self.spec_width(),
            w > 0,
    {
        proof {
            use_type_invariant(self);
        }
        self.width
    }

    pub fn height(&self) -> (h: usize)
        ensures
            h == self.spec_height(),
            h > 0,
    {
        proof {
            use_type_invariant(self);
        }
        self.height
    }

    /// The red, green and blue bytes of the pixel in column `i` of row `j`.
    /// A column or row beyond the picture counts as the last one.
    pub fn texel(&self, i: usize, j: usize) -> (rgb: (u8, u8, u8))
        ensures
            ({
                let column = held_index(i as int, self.spec_width());
                let row = held_index(j as int, self.spec_height());
                let at = 3 * (row * self.spec_width() + column);
                &&& 0 <= at && at + 2 < self.bytes().len()
                &&& rgb.0 == self.bytes()[at]
                &&& rgb.1 == self.bytes()[at + 1]
                &&& rgb.2 == self.bytes()[at + 2]
            }),
    {
        proof {
            use_type_invariant(self);
        }
        let column: usize = if i >= self.width {
            self.width - 1
        } else {
            i
        };
        let row: usize = if j >= self.height {
            self.height - 1
        } else {
            j
        };
        let n: usize = self.data.len();
        proof {
            let w = self.width as int;
            let h = self.height as int;
            assert(0 <= row * w && row * w + column < w * h && 0 <= w * h) by (nonlinear_arith)
                requires
                    0 <= row < h,
                    0 <= column < w,
            ;
            assert(3 * (w * h) == 3 * w * h) by (nonlinear_arith);
        }
        let pixel: usize = row * self.width + column;
        let pixel_idx: usize = 3 * pixel;
        (self.data[pixel_idx], self.data[pixel_idx + 1], self.data[pixel_idx + 2])
    }
}

} // verus!
