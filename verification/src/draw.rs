//! What is handed to the backend that draws: triangles, images and glyphs.
use crate::fixed::Fixed;
use crate::matrix::Matrix;
use vstd::prelude::*;

verus! {

/// A position in a texture: `(0, 0)` is the bottom-left hand corner of the texture, and
/// `(1, 1)` is the top-right hand corner.
pub type Uv = (Fixed, Fixed);

/// A single textured triangle.
///
/// The triangle covers the top-left hand half of the surface: its corners are `(-1, 1)`,
/// `(-1, -1)` and `(1, 1)`, multiplied by the matrix. The texture coordinates are those of
/// the top-left, bottom-left and top-right corners, in this order.
#[derive(Clone, Copy, Debug, PartialEq, Eq)]
pub struct Triangle {
    pub matrix: Matrix,
    pub uv_coords: (Uv, Uv, Uv),
}

/// An image that covers the whole surface (from -1 to 1 both horizontally and vertically),
/// multiplied by the matrix, with the texture coordinates of its four corners.
#[derive(Clone, Copy, Debug, PartialEq, Eq)]
pub struct Image {
    pub matrix: Matrix,
    pub top_left: Uv,
    pub top_right: Uv,
    pub bottom_right: Uv,
    pub bottom_left: Uv,
}

impl Image {
    pub open spec fn spec_whole(matrix: Matrix) -> Image {
        Image {
            matrix,
            top_left: (Fixed::zero(), Fixed::one()),
            top_right: (Fixed::one(), Fixed::one()),
            bottom_right: (Fixed::one(), Fixed::zero()),
            bottom_left: (Fixed::zero(), Fixed::zero()),
        }
    }

    /// The image that shows the whole texture.
    #[verifier::when_used_as_spec(spec_whole)]
    pub fn whole(matrix: Matrix) -> (r: Image)
        ensures
            r == Image::spec_whole(matrix),
    {
        Image {
            matrix,
            top_left: (Fixed::zero(), Fixed::one()),
            top_right: (Fixed::one(), Fixed::one()),
            bottom_right: (Fixed::one(), Fixed::zero()),
            bottom_left: (Fixed::zero(), Fixed::zero()),
        }
    }

    pub open spec fn spec_triangles(self) -> (Triangle, Triangle) {
        (
            Triangle {
                matrix: self.matrix,
                uv_coords: (self.top_left, self.bottom_left, self.top_right),
            },
            Triangle {
                matrix: self.matrix.compose(Matrix::scale(Fixed::one().negated())),
                uv_coords: (self.bottom_right, self.top_right, self.bottom_left),
            },
        )
    }

    /// The two triangles that make up the image: the top-left hand half, and the
    /// bottom-right hand half, which is the first turned by half a turn.
    #[verifier::when_used_as_spec(spec_triangles)]
    pub fn triangles(self) -> (r: (Triangle, Triangle))
        ensures
            r == self.spec_triangles(),
    {
        (
            Triangle {
                matrix: self.matrix,
                uv_coords: (self.top_left, self.bottom_left, self.top_right),
            },
            Triangle {
                matrix: self.matrix.compose(Matrix::scale(Fixed::one().negated())),
                uv_coords: (self.bottom_right, self.top_right, self.bottom_left),
            },
        )
    }
}

/// Information about a single glyph.
///
/// All the values of this struct must be relative to the size of an EM, so that the library
/// can adjust the values to any size.
#[derive(Debug, Copy, Clone, PartialEq, Eq)]
pub struct GlyphInfos {
    /// Width of the glyph in pixels, divided by the number of pixels of an EM.
    pub width: Fixed,
    /// Height of the glyph in pixels, divided by the number of pixels of an EM.
    ///
    /// By definition, this value is supposed to be always 1 for the glyph 'M'. In practice
    /// this is not always exactly true.
    pub height: Fixed,
    /// Number of pixels from the end of the previous glyph to the start of this one,
    /// divided by the number of pixels of an EM.
    pub x_offset: Fixed,
    /// Number of pixels from the base of the line to the top of this one, divided by the
    /// number of pixels of an EM.
    ///
    /// For glyphs that don't go under the line (like 'm' or 'u' for example), this is equal
    /// to the height of the glyph. For glyphs that go under the line (like 'p' or 'g'),
    /// this is equal to the height of the glyph minus the portion that goes under the line.
    pub y_offset: Fixed,
    /// Number of pixels from the end of the previous glyph to the end of this one, divided
    /// by the number of pixels of an EM.
    ///
    /// Should always be superior to `width + x_offset`.
    pub x_advance: Fixed,
}

} // verus!
