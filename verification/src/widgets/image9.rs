//! Images in nine parts, which keep their corners when they are stretched.
use crate::draw::Image;
use crate::fixed::Fixed;
use crate::fixed::ONE_BITS;
use crate::layout::Alignment;
use crate::layout::DrawContext;
use crate::layout::HorizontalAlignment;
use crate::layout::SharedDrawContext;
use crate::layout::VerticalAlignment;
use vstd::prelude::*;

verus! {

/// The share of the viewport that each border takes: left, top, right and bottom.
pub struct Borders {
    pub left: Fixed,
    pub top: Fixed,
    pub right: Fixed,
    pub bottom: Fixed,
}

/// The borders of the image in `area`, of which the left one takes `left_border_percent`
/// of the viewport. The other borders are such that the corners keep their aspect ratio.
pub open spec fn spec_borders(
    area: DrawContext,
    left_border_percent: Fixed,
    image_width_per_height: Fixed,
    top_percent: Fixed,
    right_percent: Fixed,
    bottom_percent: Fixed,
    left_percent: Fixed,
) -> Borders {
    let top = left_border_percent.times(top_percent).over(left_percent).times(
        area.width_per_height(),
    ).over(image_width_per_height);
    let right = top.times(right_percent).over(top_percent).over(area.width_per_height()).times(
        image_width_per_height,
    );
    let bottom = right.times(bottom_percent).over(right_percent).times(
        area.width_per_height(),
    ).over(image_width_per_height);
    Borders { left: left_border_percent, top, right, bottom }
}

#[verifier::when_used_as_spec(spec_borders)]
fn borders(
    area: DrawContext,
    left_border_percent: Fixed,
    image_width_per_height: Fixed,
    top_percent: Fixed,
    right_percent: Fixed,
    bottom_percent: Fixed,
    left_percent: Fixed,
) -> (r: Borders)
    ensures
        r == spec_borders(
            area,
            left_border_percent,
            image_width_per_height,
            top_percent,
            right_percent,
            bottom_percent,
            left_percent,
        ),
{
    let top = left_border_percent.times(top_percent).over(left_percent).times(
        area.width_per_height(),
    ).over(image_width_per_height);
    let right = top.times(right_percent).over(top_percent).over(area.width_per_height()).times(
        image_width_per_height,
    );
    let bottom = right.times(bottom_percent).over(right_percent).times(
        area.width_per_height(),
    ).over(image_width_per_height);
    Borders { left: left_border_percent, top, right, bottom }
}

/// One part of the image: the area of the given size and alignment within `area`, with
/// the texture coordinates of its four corners.
pub open spec fn spec_part(
    area: DrawContext,
    width_percent: Fixed,
    height_percent: Fixed,
    horizontal: HorizontalAlignment,
    vertical: VerticalAlignment,
    top_left: (Fixed, Fixed),
    top_right: (Fixed, Fixed),
    bottom_right: (Fixed, Fixed),
    bottom_left: (Fixed, Fixed),
) -> Image {
    Image {
        matrix: area.spec_rescale(width_percent, height_percent, Alignment { horizontal, vertical })
            .matrix(),
        top_left,
        top_right,
        bottom_right,
        bottom_left,
    }
}

#[verifier::when_used_as_spec(spec_part)]
fn part(
    area: DrawContext,
    width_percent: Fixed,
    height_percent: Fixed,
    horizontal: HorizontalAlignment,
    vertical: VerticalAlignment,
    top_left: (Fixed, Fixed),
    top_right: (Fixed, Fixed),
    bottom_right: (Fixed, Fixed),
    bottom_left: (Fixed, Fixed),
) -> (r: Image)
    ensures
        r == spec_part(
            area,
            width_percent,
            height_percent,
            horizontal,
            vertical,
            top_left,
            top_right,
            bottom_right,
            bottom_left,
        ),
{
    let inner = area.rescale(width_percent, height_percent, &Alignment { horizontal, vertical });
    Image { matrix: inner.matrix(), top_left, top_right, bottom_right, bottom_left }
}

/// The nine parts of the image in `area`: the corners top left, top right, bottom right and
/// bottom left, then the borders top, left, bottom and right, then the middle.
///
/// The corners keep the size that the borders give them. The top and bottom borders are
/// stretched between the corners horizontally, the left and right borders vertically, and
/// the middle both ways.
///
/// Each corner and border shows the part of the texture that the percents give it. The
/// middle shows the texture from `left_percent` to `1 - top_percent` horizontally and from
/// `bottom_percent` to `1 - right_percent` vertically.
pub open spec fn parts(
    area: DrawContext,
    left_border_percent: Fixed,
    image_width_per_height: Fixed,
    top_percent: Fixed,
    right_percent: Fixed,
    bottom_percent: Fixed,
    left_percent: Fixed,
) -> Seq<Image> {
    let b = spec_borders(
        area,
        left_border_percent,
        image_width_per_height,
        top_percent,
        right_percent,
        bottom_percent,
        left_percent,
    );
    let zero = Fixed::zero();
    let one = Fixed::one();
    let right_start = one.minus(right_percent);
    let top_start = one.minus(top_percent);
    let across = one.minus(b.left).minus(b.right);
    let down = one.minus(b.top).minus(b.bottom);
    seq![
        spec_part(
            area,
            b.left,
            b.top,
            HorizontalAlignment::Left,
            VerticalAlignment::Top,
            (zero, one),
            (left_percent, one),
            (left_percent, top_start),
            (zero, top_start),
        ),
        spec_part(
            area,
            b.right,
            b.top,
            HorizontalAlignment::Right,
            VerticalAlignment::Top,
            (right_start, one),
            (one, one),
            (one, top_start),
            (right_start, top_start),
        ),
        spec_part(
            area,
            b.right,
            b.bottom,
            HorizontalAlignment::Right,
            VerticalAlignment::Bottom,
            (right_start, bottom_percent),
            (one, bottom_percent),
            (one, zero),
            (right_start, zero),
        ),
        spec_part(
            area,
            b.left,
            b.bottom,
            HorizontalAlignment::Left,
            VerticalAlignment::Bottom,
            (zero, bottom_percent),
            (left_percent, bottom_percent),
            (left_percent, zero),
            (zero, zero),
        ),
        spec_part(
            area,
            across,
            b.top,
            HorizontalAlignment::Center,
            VerticalAlignment::Top,
            (left_percent, one),
            (right_start, one),
            (right_start, top_start),
            (left_percent, top_start),
        ),
        spec_part(
            area,
            b.left,
            down,
            HorizontalAlignment::Left,
            VerticalAlignment::Center,
            (zero, top_start),
            (left_percent, top_start),
            (left_percent, bottom_percent),
            (zero, bottom_percent),
        ),
        spec_part(
            area,
            across,
            b.bottom,
            HorizontalAlignment::Center,
            VerticalAlignment::Bottom,
            (left_percent, bottom_percent),
            (right_start, bottom_percent),
            (right_start, zero),
            (left_percent, zero),
        ),
        spec_part(
            area,
            b.right,
            down,
            HorizontalAlignment::Right,
            VerticalAlignment::Center,
            (right_start, top_start),
            (one, top_start),
            (one, bottom_percent),
            (right_start, bottom_percent),
        ),
        spec_part(
            area,
            across,
            down,
            HorizontalAlignment::Center,
            VerticalAlignment::Center,
            (left_percent, right_start),
            (top_start, right_start),
            (top_start, bottom_percent),
            (left_percent, bottom_percent),
        ),
    ]
}

/// Lays out a 9-parts image.
///
/// The image is split into 9 parts: the four corners, the four borders, and the middle.
/// The dimensions are given by the `top_percent`, `right_percent`, `bottom_percent` and
/// `left_percent` parameters.
///
/// The whole context viewport is then filled with this image. The corners will always keep
/// their aspect ratio, the top and bottom borders will be stretched horizontally, the left
/// and right borders will be stretched vertically, and the middle will be stretched.
///
/// The `left_border_percent` parameter is used to determine the percentage of the viewport
/// that should be occupied by the left border of the image. The order borders are
/// automatically calculated by maintaining the correct aspect ratio.
/// `image_width_per_height` is the width of the image divided by its height.
///
/// `top_percent + bottom_percent` and `left_percent + right_percent` must not be more than
/// 1.
pub fn draw(
    context: &DrawContext,
    shared: &mut SharedDrawContext,
    left_border_percent: Fixed,
    image_width_per_height: Fixed,
    top_percent: Fixed,
    right_percent: Fixed,
    bottom_percent: Fixed,
    left_percent: Fixed,
) -> (r: [Image; 9])
    requires
        top_percent.plus(bottom_percent).bits <= ONE_BITS,
        left_percent.plus(right_percent).bits <= ONE_BITS,
    ensures
        r@ == parts(
            *context,
            left_border_percent,
            image_width_per_height,
            top_percent,
            right_percent,
            bottom_percent,
            left_percent,
        ),
        final(shared).hovered() == (old(shared).hovered() || context.is_cursor_hovering()),
        final(shared).next_id() == old(shared).next_id(),
{
    let b = borders(
        *context,
        left_border_percent,
        image_width_per_height,
        top_percent,
        right_percent,
        bottom_percent,
        left_percent,
    );
    let zero = Fixed::zero();
    let one = Fixed::one();
    let right_start = one.minus(right_percent);
    let top_start = one.minus(top_percent);
    let across = one.minus(b.left).minus(b.right);
    let down = one.minus(b.top).minus(b.bottom);
    let r = [
        part(
            *context,
            b.left,
            b.top,
            HorizontalAlignment::Left,
            VerticalAlignment::Top,
            (zero, one),
            (left_percent, one),
            (left_percent, top_start),
            (zero, top_start),
        ),
        part(
            *context,
            b.right,
            b.top,
            HorizontalAlignment::Right,
            VerticalAlignment::Top,
            (right_start, one),
            (one, one),
            (one, top_start),
            (right_start, top_start),
        ),
        part(
            *context,
            b.right,
            b.bottom,
            HorizontalAlignment::Right,
            VerticalAlignment::Bottom,
            (right_start, bottom_percent),
            (one, bottom_percent),
            (one, zero),
            (right_start, zero),
        ),
        part(
            *context,
            b.left,
            b.bottom,
            HorizontalAlignment::Left,
            VerticalAlignment::Bottom,
            (zero, bottom_percent),
            (left_percent, bottom_percent),
            (left_percent, zero),
            (zero, zero),
        ),
        part(
            *context,
            across,
            b.top,
            HorizontalAlignment::Center,
            VerticalAlignment::Top,
            (left_percent, one),
            (right_start, one),
            (right_start, top_start),
            (left_percent, top_start),
        ),
        part(
            *context,
            b.left,
            down,
            HorizontalAlignment::Left,
            VerticalAlignment::Center,
            (zero, top_start),
            (left_percent, top_start),
            (left_percent, bottom_percent),
            (zero, bottom_percent),
        ),
        part(
            *context,
            across,
            b.bottom,
            HorizontalAlignment::Center,
            VerticalAlignment::Bottom,
            (left_percent, bottom_percent),
            (right_start, bottom_percent),
            (right_start, zero),
            (left_percent, zero),
        ),
        part(
            *context,
            b.right,
            down,
            HorizontalAlignment::Right,
            VerticalAlignment::Center,
            (right_start, top_start),
            (one, top_start),
            (one, bottom_percent),
            (right_start, bottom_percent),
        ),
        part(
            *context,
            across,
            down,
            HorizontalAlignment::Center,
            VerticalAlignment::Center,
            (left_percent, right_start),
            (top_start, right_start),
            (top_start, bottom_percent),
            (left_percent, bottom_percent),
        ),
    ];
    if !context.cursor_hovered_widget(shared) {
        if context.is_cursor_hovering() {
            context.set_cursor_hovered_widget(shared);
        }
    }
    assert(r@ =~= parts(
        *context,
        left_border_percent,
        image_width_per_height,
        top_percent,
        right_percent,
        bottom_percent,
        left_percent,
    ));
    r
}

} // verus!
