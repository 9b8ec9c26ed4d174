//! A label is a single line of text.
//!
//! You usually want to use the `flow` function.
//!
//! The caller hands in the glyphs of the line, with what the font says of each, and gets
//! back the matrix at which to draw each glyph.
use crate::draw::GlyphInfos;
use crate::fixed::Fixed;
use crate::layout::Alignment;
use crate::layout::DrawContext;
use crate::layout::HorizontalAlignment;
use crate::layout::SharedDrawContext;
use crate::matrix::Matrix;
use vstd::prelude::*;

verus! {

/// One glyph of a line of text.
#[derive(Debug, Copy, Clone, PartialEq, Eq)]
pub struct Glyph {
    /// What the font says of the glyph.
    pub infos: GlyphInfos,
    /// The kerning between the glyph before this one and this one: an offset to add to the
    /// position of this glyph. It is not read for the first glyph of a line.
    pub kerning: Fixed,
}

/// Where the pen is when the glyph `i` is drawn, in EMs from the start of the line: behind
/// the advances of the glyphs before it and the kernings up to it.
pub open spec fn pen(glyphs: Seq<Glyph>, i: int) -> Fixed
    decreases i,
{
    if i <= 0 {
        Fixed::zero().plus(Fixed::zero())
    } else {
        pen(glyphs, i - 1).plus(glyphs[i - 1].infos.x_advance).plus(glyphs[i].kerning)
    }
}

/// The matrix that turns the square from -1 to 1 into the box of the glyph `i`, in EMs:
/// the square from 0 to 1, stretched to the size of the glyph and moved to its place on the
/// line.
pub open spec fn glyph_box(glyphs: Seq<Glyph>, i: int) -> Matrix {
    let infos = glyphs[i].infos;
    Matrix::translate(pen(glyphs, i).plus(infos.x_offset), infos.y_offset.minus(infos.height))
        .compose(Matrix::scale_wh(infos.width, infos.height)).compose(
        Matrix::translate(Fixed::half(), Fixed::half()),
    ).compose(Matrix::scale(Fixed::half()))
}

pub open spec fn spec_line_width(glyphs: Seq<Glyph>) -> Fixed {
    if glyphs.len() == 0 {
        Fixed::zero()
    } else {
        let last = glyphs.last().infos;
        pen(glyphs, glyphs.len() - 1).plus(last.x_advance).minus(last.x_advance).plus(
            last.x_offset,
        ).plus(last.width)
    }
}

/// The width of the line in EMs, from the start of the line to the right edge of the last
/// glyph. With a line height of one EM this is also the width of the line divided by its
/// height.
pub fn line_width(glyphs: &Vec<Glyph>) -> (r: Fixed)
    ensures
        r == spec_line_width(glyphs@),
{
    let mut x = Fixed::zero();
    let mut i: usize = 0;
    while i < glyphs.len()
        invariant
            i <= glyphs@.len(),
            i == 0 ==> x == Fixed::zero(),
            i > 0 ==> x == pen(glyphs@, i - 1).plus(glyphs@[i - 1].infos.x_advance),
        decreases glyphs@.len() - i,
    {
        let kerning = if i == 0 {
            Fixed::zero()
        } else {
            glyphs[i].kerning
        };
        x = x.plus(kerning);
        x = x.plus(glyphs[i].infos.x_advance);
        i += 1;
    }
    if i > 0 {
        let last = glyphs[i - 1].infos;
        x = x.minus(last.x_advance);
        x = x.plus(last.x_offset);
        x = x.plus(last.width);
    }
    x
}

/// The matrix that turns a line that is `width` EMs wide and one EM high, starting at the
/// origin, into the square from -1 to 1.
pub open spec fn spec_recenter(width: Fixed) -> Matrix {
    Matrix::scale_wh(Fixed::from_int(2).over(width), Fixed::from_int(2)).compose(
        Matrix::translate(width.negated().over(Fixed::from_int(2)), Fixed::half().negated()),
    )
}

#[verifier::when_used_as_spec(spec_recenter)]
fn recenter(width: Fixed) -> (r: Matrix)
    ensures
        r == spec_recenter(width),
{
    Matrix::scale_wh(Fixed::from_int(2).over(width), Fixed::from_int(2)).compose(
        Matrix::translate(width.negated().over(Fixed::from_int(2)), Fixed::half().negated()),
    )
}

/// The matrices at which to draw the glyphs of a line that fills the area of `matrix`.
pub open spec fn placed_glyphs(matrix: Matrix, glyphs: Seq<Glyph>) -> Seq<Matrix> {
    Seq::new(
        glyphs.len(),
        |i: int| matrix.compose(spec_recenter(spec_line_width(glyphs))).compose(glyph_box(glyphs, i)),
    )
}

/// Lays out text. The text will always have the same height as the context and will
/// stretch horizontally as needed to have a correct aspect ratio.
///
/// This is usually the function that you want in order to draw text. Even though the text
/// can overflow its container if it is too long, it is usually visually better to have an
/// overflow than to have multiple texts of different heights when they should be the same.
pub fn flow(
    context: &DrawContext,
    shared: &mut SharedDrawContext,
    glyphs: &Vec<Glyph>,
    alignment: &HorizontalAlignment,
) -> (r: Vec<Matrix>)
    ensures
        ({
            let stopped = context.animation_stop();
            let area = stopped.spec_horizontal_rescale(
                spec_line_width(glyphs@).over(stopped.width_per_height()),
                *alignment,
            );
            &&& r@ == placed_glyphs(area.matrix(), glyphs@)
            &&& final(shared).hovered() == (old(shared).hovered() || area.is_cursor_hovering())
        }),
        final(shared).next_id() == old(shared).next_id(),
{
    let context = context.animation_stop();
    let ratio = line_width(glyphs);
    let area = context.horizontal_rescale(ratio.over(context.width_per_height()), alignment);
    helper(&area, shared, glyphs)
}

/// Lays out text. The text will be sized so that it is entirely contained within the
/// context, and either its width or its height is equal to the width or the height of the
/// context.
pub fn contain(
    context: &DrawContext,
    shared: &mut SharedDrawContext,
    glyphs: &Vec<Glyph>,
    alignment: &Alignment,
) -> (r: Vec<Matrix>)
    requires
        context.width.bits > 0,
        context.height.bits > 0,
        spec_line_width(glyphs@).bits > 0,
    ensures
        ({
            let area = context.animation_stop().spec_enforce_aspect_ratio_downscale(
                spec_line_width(glyphs@),
                *alignment,
            );
            &&& r@ == placed_glyphs(area.matrix(), glyphs@)
            &&& final(shared).hovered() == (old(shared).hovered() || area.is_cursor_hovering())
        }),
        final(shared).next_id() == old(shared).next_id(),
{
    let context = context.animation_stop();
    let ratio = line_width(glyphs);
    let area = context.enforce_aspect_ratio_downscale(ratio, alignment);
    helper(&area, shared, glyphs)
}

/// Lays out text. The text will be sized so that it entirely covers the context, and
/// either its width or its height is equal to the width or the height of the context.
pub fn cover(
    context: &DrawContext,
    shared: &mut SharedDrawContext,
    glyphs: &Vec<Glyph>,
    alignment: &Alignment,
) -> (r: Vec<Matrix>)
    requires
        context.width.bits > 0,
        context.height.bits > 0,
        spec_line_width(glyphs@).bits > 0,
    ensures
        ({
            let area = context.animation_stop().spec_enforce_aspect_ratio_upscale(
                spec_line_width(glyphs@),
                *alignment,
            );
            &&& r@ == placed_glyphs(area.matrix(), glyphs@)
            &&& final(shared).hovered() == (old(shared).hovered() || area.is_cursor_hovering())
        }),
        final(shared).next_id() == old(shared).next_id(),
{
    let context = context.animation_stop();
    let ratio = line_width(glyphs);
    let area = context.enforce_aspect_ratio_upscale(ratio, alignment);
    helper(&area, shared, glyphs)
}

/// Places the glyphs of a line in `area`, and records whether the cursor is over the area.
fn helper(area: &DrawContext, shared: &mut SharedDrawContext, glyphs: &Vec<Glyph>) -> (r: Vec<
    Matrix,
>)
    ensures
        r@ == placed_glyphs(area.matrix(), glyphs@),
        final(shared).hovered() == (old(shared).hovered() || area.is_cursor_hovering()),
        final(shared).next_id() == old(shared).next_id(),
{
    let mut boxes: Vec<Matrix> = Vec::new();
    let mut x = Fixed::zero();
    let mut i: usize = 0;
    while i < glyphs.len()
        invariant
            i <= glyphs@.len(),
            boxes@.len() == i,
            forall|k: int| 0 <= k < i ==> boxes@[k] == glyph_box(glyphs@, k),
            i == 0 ==> x == Fixed::zero(),
            i > 0 ==> x == pen(glyphs@, i - 1).plus(glyphs@[i - 1].infos.x_advance),
        decreases glyphs@.len() - i,
    {
        let infos = glyphs[i].infos;
        let kerning = if i == 0 {
            Fixed::zero()
        } else {
            glyphs[i].kerning
        };
        x = x.plus(kerning);
        let matrix = Matrix::translate(x.plus(infos.x_offset), infos.y_offset.minus(infos.height))
            .compose(Matrix::scale_wh(infos.width, infos.height)).compose(
            Matrix::translate(Fixed::half(), Fixed::half()),
        ).compose(Matrix::scale(Fixed::half()));
        boxes.push(matrix);
        x = x.plus(infos.x_advance);
        i += 1;
    }
    if i > 0 {
        let last = glyphs[i - 1].infos;
        x = x.minus(last.x_advance);
        x = x.plus(last.x_offset);
        x = x.plus(last.width);
    }
    let recenter_matrix = recenter(x);
    if !area.cursor_hovered_widget(shared) {
        if area.is_cursor_hovering() {
            area.set_cursor_hovered_widget(shared);
        }
    }
    let final_matrix = area.matrix();
    let mut placed: Vec<Matrix> = Vec::new();
    let mut k: usize = 0;
    while k < boxes.len()
        invariant
            k <= boxes@.len(),
            boxes@.len() == glyphs@.len(),
            placed@.len() == k,
            forall|j: int| 0 <= j < boxes@.len() ==> boxes@[j] == glyph_box(glyphs@, j),
            forall|j: int|
                0 <= j < k ==> placed@[j] == final_matrix.compose(recenter_matrix).compose(
                    glyph_box(glyphs@, j),
                ),
        decreases boxes@.len() - k,
    {
        placed.push(final_matrix.compose(recenter_matrix).compose(boxes[k]));
        k += 1;
    }
    assert(placed@ =~= placed_glyphs(area.matrix(), glyphs@));
    placed
}

} // verus!
